//! Window titles as file names.

use vstd::prelude::*;
use vstd::string::{StrSliceExecFns, StringExecFns};

verus! {

/// Whether the character survives `normalized`: everything but the four
/// separators a file name cannot carry.
pub open spec fn keeps_char(c: char) -> bool {
    c != '|' && c != '\\' && c != ':' && c != '/'
}

/// `s` with the separators stripped.
pub open spec fn kept_chars(s: Seq<char>) -> Seq<char> {
    s.filter(|c: char| keeps_char(c))
}

/// Strips `|`, `\`, `:` and `/` from a window title, leaving a name usable
/// as a file name.
pub fn normalized(filename: &str) -> (r: String)
    ensures
        r@ == kept_chars(filename@),
{
    let n = filename.unicode_len();
    let mut r = String::new();
    let mut i: usize = 0;
    while i < n
        invariant
            n == filename@.len(),
            i <= n,
            r@ == kept_chars(filename@.take(i as int)),
        decreases n - i,
    {
        let c = filename.get_char(i);
        let keep = !(c == '|' || c == '\\' || c == ':' || c == '/');
        proof {
            reveal(Seq::filter);
            assert(filename@.take(i + 1).drop_last() =~= filename@.take(i as int));
            assert(filename@.take(i + 1).last() == filename@[i as int]);
        }
        if keep {
            let piece = filename.substring_char(i, i + 1);
            r.append(piece);
            proof {
                assert(piece@ =~= seq![filename@[i as int]]);
                assert(r@ =~= kept_chars(filename@.take(i as int)).push(filename@[i as int]));
            }
        }
        i = i + 1;
    }
    proof {
        assert(filename@.take(n as int) =~= filename@);
    }
    r
}

} // verus!
