//! Media identity.

use syncmesh::media::{match_media, MatchResult};
use syncmesh::protocol::MediaId;

fn media(name: &str, size: u64, dur: u32) -> MediaId {
    MediaId {
        filename_lower: name.into(),
        size_bytes: size,
        duration_s: dur,
    }
}

#[test]
fn identical_tuples_match() {
    let a = media("movie.mkv", 1000, 60);
    let b = media("movie.mkv", 1000, 60);
    assert_eq!(match_media(&a, &b), MatchResult::Identical);
}

#[test]
fn same_name_different_size_is_soft_match() {
    let a = media("movie.mkv", 1000, 60);
    let b = media("movie.mkv", 2000, 60);
    assert_eq!(match_media(&a, &b), MatchResult::SameNameDifferentFile);
}

#[test]
fn same_name_different_duration_is_soft_match() {
    let a = media("movie.mkv", 1000, 60);
    let b = media("movie.mkv", 1000, 59);
    assert_eq!(match_media(&a, &b), MatchResult::SameNameDifferentFile);
}

#[test]
fn different_names_are_different() {
    let a = media("movie.mkv", 1000, 60);
    let b = media("other.mkv", 1000, 60);
    assert_eq!(match_media(&a, &b), MatchResult::Different);
}

#[test]
fn case_is_not_folded_here() {
    // Callers must lowercase before constructing; this layer trusts them.
    let a = media("Movie.mkv", 1000, 60);
    let b = media("movie.mkv", 1000, 60);
    assert_eq!(match_media(&a, &b), MatchResult::Different);
}
