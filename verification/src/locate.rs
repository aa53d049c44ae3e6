//! The template match policy: wraps the external best-offset search and
//! reduces its candidate set to a verdict.
//!
//! The oracle reports candidates as `(x, y, distance)` triples with an
//! `f32` distance, non-negative, where smaller means a closer match. The
//! wrapper carries each distance as its IEEE-754 bit pattern: for
//! non-negative floats the unsigned bit order is the numeric order, so the
//! verified minimum over the bit patterns is the minimum over the distances.

use vstd::prelude::*;
use crate::img::GrayImage;

verus! {

/// What the scalar-backend subimage search returns for the given grayscale
/// buffers: candidate offsets with their distances' bit patterns, a function
/// of the buffers and dimensions alone.
pub uninterp spec fn subimage_positions(
    hay: Seq<u8>,
    hay_w: int,
    hay_h: int,
    needle: Seq<u8>,
    needle_w: int,
    needle_h: int,
) -> Seq<(usize, usize, u32)>;

/// Relies on `find_subimage::SubImageFinderState::find_subimage_positions`
/// (scalar backend, single channel): a deterministic search whose result
/// depends only on the two buffers and their dimensions. Its source indexes
/// `haystack[..hay_w * hay_h]` and iterates offsets up to
/// `hay_w - needle_w` and `hay_h - needle_h`, so the needle must fit inside
/// the haystack. The f32 distances come back as their bit patterns.
#[verifier::external_body]
fn oracle_positions(hay: &GrayImage, needle: &GrayImage) -> (r: Vec<(usize, usize, u32)>)
    requires
        hay.wf(),
        needle.wf(),
        needle.width <= hay.width,
        needle.height <= hay.height,
    ensures
        r@ == subimage_positions(
            hay.data@,
            hay.width as int,
            hay.height as int,
            needle.data@,
            needle.width as int,
            needle.height as int,
        ),
{
    let mut finder = find_subimage::SubImageFinderState::new();
    let found = finder.find_subimage_positions(
        (&hay.data, hay.width, hay.height),
        (&needle.data, needle.width, needle.height),
        1,
    );
    found.iter().map(|&(x, y, d)| (x, y, d.to_bits())).collect()
}

/// The verdict of one template search: the best candidate the oracle
/// reported, or nothing. The distance is an f32 bit pattern; lower is a
/// closer match.
#[derive(Clone, Copy, PartialEq, Eq, Structural, Debug)]
pub enum MatchVerdict {
    Found { x: usize, y: usize, distance_bits: u32 },
    NotFound,
}

/// The first candidate with the smallest distance, or `None` when the set is
/// empty.
pub fn min_candidate(positions: &Vec<(usize, usize, u32)>) -> (r: Option<(usize, usize, u32)>)
    ensures
        match r {
            Some(c) => exists|i: int|
                0 <= i < positions@.len() && positions@[i] == c && (forall|j: int|
                    0 <= j < i ==> (#[trigger] positions@[j]).2 > c.2) && (forall|j: int|
                    0 <= j < positions@.len() ==> (#[trigger] positions@[j]).2 >= c.2),
            None => positions@.len() == 0,
        },
{
    if positions.len() == 0 {
        return None;
    }
    let mut best: usize = 0;
    let mut k: usize = 1;
    while k < positions.len()
        invariant
            positions@.len() > 0,
            best < k <= positions@.len(),
            forall|j: int| 0 <= j < best ==> (#[trigger] positions@[j]).2 > positions@[best as int].2,
            forall|j: int| 0 <= j < k ==> (#[trigger] positions@[j]).2 >= positions@[best as int].2,
        decreases positions.len() - k,
    {
        if positions[k].2 < positions[best].2 {
            best = k;
        }
        k = k + 1;
    }
    Some(positions[best])
}

/// How a verdict relates to a candidate set: `Found` carries the first
/// minimum-distance candidate of a non-empty set the oracle was asked for;
/// `NotFound` stands where the oracle was not consulted (`fits` is false) or
/// returned nothing.
pub open spec fn verdict_matches(r: MatchVerdict, fits: bool, pos: Seq<(usize, usize, u32)>) -> bool {
    match r {
        MatchVerdict::Found { x, y, distance_bits } => fits && exists|i: int|
            0 <= i < pos.len() && pos[i] == (x, y, distance_bits) && (forall|j: int|
                0 <= j < i ==> (#[trigger] pos[j]).2 > distance_bits) && (forall|j: int|
                0 <= j < pos.len() ==> (#[trigger] pos[j]).2 >= distance_bits),
        MatchVerdict::NotFound => !fits || pos.len() == 0,
    }
}

/// Searches for the reference template inside the haystack.
///
/// The verdict is the oracle's minimum-distance candidate when the oracle
/// reports any; `NotFound` when it reports none, or when the needle does not
/// fit inside the haystack (the search is never consulted then).
pub fn locate(haystack: &GrayImage, needle: &GrayImage) -> (r: MatchVerdict)
    requires
        haystack.wf(),
        needle.wf(),
    ensures
        verdict_matches(
            r,
            needle.width <= haystack.width && needle.height <= haystack.height,
            subimage_positions(
                haystack.data@,
                haystack.width as int,
                haystack.height as int,
                needle.data@,
                needle.width as int,
                needle.height as int,
            ),
        ),
{
    if needle.width > haystack.width || needle.height > haystack.height {
        return MatchVerdict::NotFound;
    }
    let positions = oracle_positions(haystack, needle);
    match min_candidate(&positions) {
        Some(c) => MatchVerdict::Found { x: c.0, y: c.1, distance_bits: c.2 },
        None => MatchVerdict::NotFound,
    }
}

} // verus!
