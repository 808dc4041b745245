//! Rewriting session descriptions line by line: dropping mDNS candidates,
//! stripping all candidates before an early answer.

use vstd::prelude::*;

use crate::text::{
    chars_of, contains_seq, crlf, join, join_chars, lines_of, split_lines, starts_with, trim,
    trim_chars, vec_contains, vec_starts_with,
};

verus! {

/// The views of a list of character vectors.
pub open spec fn views_of(lines: Seq<Vec<char>>) -> Seq<Seq<char>> {
    lines.map_values(|l: Vec<char>| l@)
}

/// Keeps the lines whose flag in `keep` is set; the flags are `pred` of the lines.
fn keep_flagged(lines: &Vec<Vec<char>>, keep: &Vec<bool>, Ghost(pred): Ghost<spec_fn(Seq<char>) -> bool>) -> (r: Vec<Vec<char>>)
    requires
        keep@.len() == lines@.len(),
        forall|k: int| 0 <= k < lines@.len() ==> keep@[k] == pred(#[trigger] lines@[k]@),
    ensures
        views_of(r@) == views_of(lines@).filter(pred),
{
    let mut r: Vec<Vec<char>> = Vec::new();
    let mut i: usize = 0;
    while i < lines.len()
        invariant
            i <= lines@.len(),
            keep@.len() == lines@.len(),
            forall|k: int| 0 <= k < lines@.len() ==> keep@[k] == pred(#[trigger] lines@[k]@),
            views_of(r@) == views_of(lines@).take(i as int).filter(pred),
        decreases lines@.len() - i,
    {
        let ghost before = views_of(r@);
        if keep[i] {
            r.push(lines[i].clone());
        }
        proof {
            let all = views_of(lines@);
            let next = all.take(i as int + 1);
            assert(next.drop_last() =~= all.take(i as int));
            assert(next.last() == lines@[i as int]@);
            reveal_with_fuel(Seq::<_>::filter, 1);
            if keep@[i as int] {
                assert(views_of(r@) =~= before.push(lines@[i as int]@));
            } else {
                assert(views_of(r@) =~= before);
            }
        }
        i += 1;
    }
    assert(views_of(lines@).take(lines@.len() as int) =~= views_of(lines@));
    r
}

/// A line announcing a candidate whose address is an mDNS `.local` name.
pub open spec fn is_mdns_candidate_line(line: Seq<char>) -> bool {
    contains_seq(line, "candidate:"@) && contains_seq(line, ".local"@)
}

/// `sdp` with every mDNS candidate line removed, the remaining lines joined
/// with CRLF.
pub fn sanitize_sdp(sdp: &str) -> (r: String)
    ensures
        r@ == join(lines_of(sdp@).filter(|l: Seq<char>| !is_mdns_candidate_line(l)), crlf()),
{
    let chars = chars_of(sdp);
    let lines = split_lines(&chars);
    let candidate = chars_of("candidate:");
    let local = chars_of(".local");
    let mut keep: Vec<bool> = Vec::new();
    let mut i: usize = 0;
    while i < lines.len()
        invariant
            i <= lines@.len(),
            keep@.len() == i,
            candidate@ == "candidate:"@,
            local@ == ".local"@,
            forall|k: int|
                0 <= k < i ==> keep@[k] == !is_mdns_candidate_line(#[trigger] lines@[k]@),
        decreases lines@.len() - i,
    {
        let drop = vec_contains(&lines[i], &candidate) && vec_contains(&lines[i], &local);
        keep.push(!drop);
        i += 1;
    }
    let ghost pred = |l: Seq<char>| !is_mdns_candidate_line(l);
    let kept = keep_flagged(&lines, &keep, Ghost(pred));
    assert(views_of(lines@) =~= lines_of(chars@));
    let sep = vec!['\r', '\n'];
    let r = join_chars(&kept, &sep);
    assert(kept@.map_values(|p: Vec<char>| p@) =~= views_of(kept@));
    assert(sep@ =~= crlf());
    r
}

/// A line that `strip_candidates_from_sdp` removes: after trimming, it begins
/// `a=candidate:` or `a=end-of-candidates`.
pub open spec fn is_candidate_line(line: Seq<char>) -> bool {
    starts_with(trim(line), "a=candidate:"@) || starts_with(trim(line), "a=end-of-candidates"@)
}

/// `sdp` with every candidate line and end-of-candidates marker removed, the
/// remaining lines joined with CRLF. All other lines (ICE credentials,
/// fingerprint, media lines) are kept in order.
pub fn strip_candidates_from_sdp(sdp: &str) -> (r: String)
    ensures
        r@ == join(lines_of(sdp@).filter(|l: Seq<char>| !is_candidate_line(l)), crlf()),
{
    let chars = chars_of(sdp);
    let lines = split_lines(&chars);
    let cand = chars_of("a=candidate:");
    let eoc = chars_of("a=end-of-candidates");
    let mut keep: Vec<bool> = Vec::new();
    let mut i: usize = 0;
    while i < lines.len()
        invariant
            i <= lines@.len(),
            keep@.len() == i,
            cand@ == "a=candidate:"@,
            eoc@ == "a=end-of-candidates"@,
            forall|k: int| 0 <= k < i ==> keep@[k] == !is_candidate_line(#[trigger] lines@[k]@),
        decreases lines@.len() - i,
    {
        let trimmed = trim_chars(&lines[i]);
        let drop = vec_starts_with(&trimmed, &cand) || vec_starts_with(&trimmed, &eoc);
        keep.push(!drop);
        i += 1;
    }
    let ghost pred = |l: Seq<char>| !is_candidate_line(l);
    let kept = keep_flagged(&lines, &keep, Ghost(pred));
    assert(views_of(lines@) =~= lines_of(chars@));
    let sep = vec!['\r', '\n'];
    let r = join_chars(&kept, &sep);
    assert(kept@.map_values(|p: Vec<char>| p@) =~= views_of(kept@));
    assert(sep@ =~= crlf());
    r
}

} // verus!
