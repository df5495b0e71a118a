//! Media-identity matching.
//!
//! Two peers are considered to be watching "the same thing" when their
//! filename, size and duration agree. Disagreement does not block playback: it
//! surfaces a warning so viewers can decide whether to continue.

use vstd::prelude::*;

use crate::protocol::{MediaId, MediaIdView};

verus! {

#[derive(Debug, Clone, Copy, PartialEq, Eq, Structural)]
pub enum MatchResult {
    /// All three fields match.
    Identical,
    /// Filenames match but size or duration differ: likely a different
    /// release of the same title.
    SameNameDifferentFile,
    /// Filenames do not match. Peers are watching different things.
    Different,
}

/// How two media identities compare.
pub open spec fn media_match(a: MediaIdView, b: MediaIdView) -> MatchResult {
    if a == b {
        MatchResult::Identical
    } else if a.filename_lower == b.filename_lower {
        MatchResult::SameNameDifferentFile
    } else {
        MatchResult::Different
    }
}

/// Compare two media identities.
pub fn match_media(a: &MediaId, b: &MediaId) -> (r: MatchResult)
    ensures
        r == media_match(a@, b@),
{
    if a.filename_lower == b.filename_lower {
        if a.size_bytes == b.size_bytes && a.duration_s == b.duration_s {
            MatchResult::Identical
        } else {
            MatchResult::SameNameDifferentFile
        }
    } else {
        MatchResult::Different
    }
}

/// Both sides of a comparison see the same result.
pub proof fn law_match_is_symmetric(a: MediaIdView, b: MediaIdView)
    ensures
        media_match(a, b) == media_match(b, a),
{
}

/// Two files are the same if name, size and length agree; if only the name does,
/// they are different files of that name; else they differ.
pub proof fn law_match_compares_all_fields(a: MediaIdView, b: MediaIdView)
    ensures
        media_match(a, b) is Identical <==> a.filename_lower == b.filename_lower && a.size_bytes
            == b.size_bytes && a.duration_s == b.duration_s,
        media_match(a, b) is Different <==> a.filename_lower != b.filename_lower,
        media_match(a, b) is SameNameDifferentFile <==> a.filename_lower == b.filename_lower && (
        a.size_bytes != b.size_bytes || a.duration_s != b.duration_s),
{
    if a.filename_lower == b.filename_lower && a.size_bytes == b.size_bytes && a.duration_s
        == b.duration_s {
        assert(a == b);
    }
}

} // verus!
