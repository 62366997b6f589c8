//! The library version, as text and as major, minor and patch numbers.
use crate::text::{chars_of, parse_i32, parse_i32_spec, split_chars, split_on};
use vstd::prelude::*;

verus! {

/// Part `k` of a dotted version string as a number: the `k`-th piece
/// between dots read as an `i32`, or zero where there is no such piece or it
/// is not a number.
pub open spec fn version_part(version: Seq<char>, k: int) -> i32 {
    let pieces = split_on(version, '.');
    if 0 <= k < pieces.len() {
        match parse_i32_spec(pieces[k]) {
            Some(v) => v,
            None => 0,
        }
    } else {
        0
    }
}

/// Piece `k` of `pieces` read as a number, zero where there is none.
fn piece_number(pieces: &Vec<Vec<char>>, k: usize, version: Ghost<Seq<char>>) -> (r: i32)
    requires
        pieces@.map_values(|p: Vec<char>| p@) == split_on(version@, '.'),
    ensures
        r == version_part(version@, k as int),
{
    let ghost spec_pieces = split_on(version@, '.');
    assert(pieces@.len() == spec_pieces.len());
    if k < pieces.len() {
        assert(pieces@[k as int]@ == spec_pieces[k as int]);
        match parse_i32(pieces[k].as_slice()) {
            Some(v) => v,
            None => 0,
        }
    } else {
        0
    }
}

/// The major, minor and patch numbers of a dotted version string.
pub fn parse_version(version: &str) -> (r: (i32, i32, i32))
    ensures
        r == (version_part(version@, 0), version_part(version@, 1), version_part(version@, 2)),
{
    let chars = chars_of(version);
    let pieces = split_chars(chars.as_slice(), '.');
    let major = piece_number(&pieces, 0, Ghost(version@));
    let minor = piece_number(&pieces, 1, Ghost(version@));
    let patch = piece_number(&pieces, 2, Ghost(version@));
    (major, minor, patch)
}

/// The version text of this library.
pub open spec fn version_text() -> Seq<char> {
    seq!['0', '.', '1', '.', '0']
}

/// The library version: its text, and its major, minor and patch numbers.
pub fn library_version() -> (r: (&'static str, i32, i32, i32))
    ensures
        r.0@ == version_text(),
        r.1 == version_part(r.0@, 0),
        r.2 == version_part(r.0@, 1),
        r.3 == version_part(r.0@, 2),
{
    let version_str = "0.1.0";
    proof {
        reveal_strlit("0.1.0");
        assert(version_str@ =~= version_text());
    }
    let (major, minor, patch) = parse_version(version_str);
    (version_str, major, minor, patch)
}

} // verus!
