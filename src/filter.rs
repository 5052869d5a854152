//! The feed's search filter: a record is shown when the filter text occurs,
//! ignoring case, in its summary or in its application name.

use crate::capture::PacketData;
use crate::history::RecordBuffer;
use crate::text::{contains, contains_text};
use vstd::prelude::*;

verus! {

/// The lower-case form of a text, as `str::to_lowercase` gives it.
pub uninterp spec fn lower_of(s: Seq<char>) -> Seq<char>;

/// Relies on `str::to_lowercase`: the result depends on the characters
/// alone, and the empty string stays empty.
#[verifier::external_body]
fn lowercase(s: &str) -> (r: String)
    ensures
        r@ == lower_of(s@),
        s@.len() == 0 ==> r@.len() == 0,
{
    s.to_lowercase()
}

/// Whether a record with the given summary and application name passes the
/// filter `f`.
pub open spec fn passes(f: Seq<char>, summary: Seq<char>, app: Seq<char>) -> bool {
    f.len() == 0 || contains(lower_of(summary), lower_of(f)) || contains(lower_of(app), lower_of(f))
}

/// Whether already lower-cased texts match: the lower-cased filter occurs in
/// the lower-cased summary or application name.
pub fn matches_folded(filter: &str, summary: &str, app: &str) -> (r: bool)
    ensures
        r == (contains(summary@, filter@) || contains(app@, filter@)),
{
    contains_text(summary, filter) || contains_text(app, filter)
}

/// Whether a record passes the filter: an empty filter passes everything,
/// else the filter must occur, ignoring case, in the summary or the
/// application name.
pub fn record_matches(filter: &str, r: &PacketData) -> (b: bool)
    ensures
        b == passes(filter@, r.summary@, r.app_name@),
{
    if filter.unicode_len() == 0 {
        return true;
    }
    let f = lowercase(filter);
    let s = lowercase(r.summary.as_str());
    let a = lowercase(r.app_name.as_str());
    matches_folded(f.as_str(), s.as_str(), a.as_str())
}

/// Positions, in order, of the first `n` records that pass the filter.
pub open spec fn passing_upto(recs: Seq<PacketData>, f: Seq<char>, n: nat) -> Seq<usize>
    decreases n,
{
    if n == 0 {
        Seq::empty()
    } else {
        let prior = passing_upto(recs, f, (n - 1) as nat);
        if passes(f, recs[n - 1].summary@, recs[n - 1].app_name@) {
            prior.push((n - 1) as usize)
        } else {
            prior
        }
    }
}

/// Positions, oldest first, of the buffered records that pass the filter.
pub fn filter_records(records: &RecordBuffer, filter: &str) -> (r: Vec<usize>)
    ensures
        r@ == passing_upto(records@, filter@, records@.len()),
{
    let n = records.len();
    let mut out: Vec<usize> = Vec::new();
    let mut k: usize = 0;
    while k < n
        invariant
            n == records@.len(),
            k <= n,
            out@ == passing_upto(records@, filter@, k as nat),
        decreases n - k,
    {
        if record_matches(filter, records.get(k)) {
            out.push(k);
        }
        k = k + 1;
    }
    out
}

} // verus!
