//! The lines shown to the user after a search, a copy or a clear.

use vstd::prelude::*;
use crate::discovery::texts;
use crate::materialize::CopyOutcome;
use crate::text::{decimal, push_decimal, push_text};
use crate::timing::{get_time, time_text, NANOS_PER_SEC};

verus! {

/// `<count> files found in <time>`.
pub open spec fn found_text(count: nat, secs: nat, subsec_nanos: nat) -> Seq<char> {
    decimal(count) + " files found in "@ + time_text(secs, subsec_nanos)
}

/// The line that reports a search.
pub fn found_line(count: usize, secs: u64, subsec_nanos: u32) -> (r: String)
    requires
        subsec_nanos < NANOS_PER_SEC,
    ensures
        r@ == found_text(count as nat, secs as nat, subsec_nanos as nat),
{
    let mut r = String::new();
    push_decimal(&mut r, count as u128);
    push_text(&mut r, " files found in ");
    let t = get_time(secs, subsec_nanos);
    push_text(&mut r, t.as_str());
    assert(r@ =~= found_text(count as nat, secs as nat, subsec_nanos as nat));
    r
}

/// `<copied> out of <total> files copied`.
pub open spec fn copied_text(copied: nat, total: nat) -> Seq<char> {
    decimal(copied) + " out of "@ + decimal(total) + " files copied"@
}

/// The line that reports a copy.
pub fn copied_line(outcome: CopyOutcome) -> (r: String)
    ensures
        r@ == copied_text(outcome.copied as nat, outcome.total as nat),
{
    let mut r = String::new();
    push_decimal(&mut r, outcome.copied as u128);
    push_text(&mut r, " out of ");
    push_decimal(&mut r, outcome.total as u128);
    push_text(&mut r, " files copied");
    assert(r@ =~= copied_text(outcome.copied as nat, outcome.total as nat));
    r
}

/// `+ <n> more`.
pub open spec fn more_text(n: nat) -> Seq<char> {
    "+ "@ + decimal(n) + " more"@
}

/// The lines that list found paths: none when `limit` is zero; otherwise the
/// first `limit` paths, then how many were left out, if any.
pub open spec fn listing_text(paths: Seq<Seq<char>>, limit: nat) -> Seq<Seq<char>> {
    if limit == 0 {
        Seq::empty()
    } else if paths.len() > limit {
        paths.take(limit as int).push(more_text((paths.len() - limit) as nat))
    } else {
        paths
    }
}

/// The lines that list found paths, at most `limit` of them (none for zero).
pub fn listing(paths: &Vec<String>, limit: usize) -> (r: Vec<String>)
    ensures
        texts(r@) == listing_text(texts(paths@), limit as nat),
{
    let mut r: Vec<String> = Vec::new();
    if limit == 0 {
        assert(texts(r@) =~= listing_text(texts(paths@), limit as nat));
        return r;
    }
    let shown: usize = if paths.len() > limit { limit } else { paths.len() };
    let mut i: usize = 0;
    while i < shown
        invariant
            shown <= paths@.len(),
            i <= shown,
            r@.len() == i,
            texts(r@) == texts(paths@).take(i as int),
        decreases shown - i,
    {
        let p = paths[i].clone();
        let ghost before = r@;
        r.push(p);
        assert forall|j: int| 0 <= j < i implies #[trigger] texts(r@)[j] == texts(before)[j] by {
            assert(r@[j] == before[j]);
        }
        i = i + 1;
        assert(texts(r@) =~= texts(paths@).take(i as int));
    }
    if paths.len() > limit {
        let mut more = String::new();
        push_text(&mut more, "+ ");
        push_decimal(&mut more, (paths.len() - limit) as u128);
        push_text(&mut more, " more");
        r.push(more);
        assert(texts(r@) =~= listing_text(texts(paths@), limit as nat));
    } else {
        assert(texts(r@) =~= listing_text(texts(paths@), limit as nat));
    }
    r
}

/// What clearing reports, given which of the two output trees existed and
/// were removed. The closing line speaks of the reconstructions tree alone.
pub open spec fn clear_text(had_searches: bool, had_reconstructions: bool) -> Seq<Seq<char>> {
    let first: Seq<Seq<char>> = if had_searches {
        seq!["Searches cleared"@]
    } else {
        Seq::empty()
    };
    if had_reconstructions {
        first.push("Reconstructions cleared"@)
    } else {
        first.push("No searches to clear"@)
    }
}

/// The lines that report clearing the output area.
pub fn clear_messages(had_searches: bool, had_reconstructions: bool) -> (r: Vec<String>)
    ensures
        texts(r@) == clear_text(had_searches, had_reconstructions),
{
    let mut r: Vec<String> = Vec::new();
    if had_searches {
        r.push(String::from_str("Searches cleared"));
    }
    if had_reconstructions {
        r.push(String::from_str("Reconstructions cleared"));
    } else {
        r.push(String::from_str("No searches to clear"));
    }
    assert(texts(r@) =~= clear_text(had_searches, had_reconstructions));
    r
}

} // verus!
