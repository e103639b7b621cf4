//! The scan report: when the scan ran, the machine, and its ranked matches.
use vstd::prelude::*;
use crate::clock::{Timestamp, current_time, rfc3339_text, timestamp_text};
use crate::laws::law_ranking;
use crate::hardware::{ProbeOutputs, scan_hardware, scanned};
use crate::ranking::{OSMatch, candidate_matches, match_views, recommend_os, sorted_by_score};
use crate::scoring::Hardware;

verus! {

/// The result of one scan.
#[derive(Debug)]
pub struct Report {
    /// When the scan ran, as RFC 3339 text.
    pub scanned_at: String,
    pub hardware: Hardware,
    /// One match per profile, best first.
    pub os_matches: Vec<OSMatch>,
}

/// The report on `hardware`, scanned at `scanned_at`.
pub fn assemble_report(scanned_at: String, hardware: Hardware) -> (r: Report)
    ensures
        r.scanned_at == scanned_at,
        r.hardware == hardware,
        sorted_by_score(match_views(r.os_matches@), candidate_matches(hardware)),
{
    let os_matches = recommend_os(&hardware);
    Report { scanned_at, hardware, os_matches }
}

/// The report on a probed machine, stamped with `now`; `None` where `now`
/// cannot be written as RFC 3339 text.
pub fn report_at(probe: &ProbeOutputs, now: Timestamp) -> (r: Option<Report>)
    ensures
        match r {
            Some(rep) => rfc3339_text(now.secs, now.nanos) == Some(rep.scanned_at@) && scanned(
                *probe,
                rep.hardware,
            ) && sorted_by_score(match_views(rep.os_matches@), candidate_matches(rep.hardware))
                && rep.os_matches@.len() == 4,
            None => rfc3339_text(now.secs, now.nanos) is None,
        },
{
    let hardware = scan_hardware(probe);
    match timestamp_text(now) {
        Some(scanned_at) => {
            let rep = assemble_report(scanned_at, hardware);
            proof {
                law_ranking(rep.hardware, match_views(rep.os_matches@));
            }
            Some(rep)
        },
        None => None,
    }
}

/// The report on a probed machine, stamped with the current time; `None`
/// only where the system clock cannot be read (a time before the Unix epoch
/// or beyond what can be written down).
pub fn generate_report(probe: &ProbeOutputs) -> (r: Option<Report>)
    ensures
        r matches Some(rep) ==> scanned(*probe, rep.hardware) && sorted_by_score(
            match_views(rep.os_matches@),
            candidate_matches(rep.hardware),
        ) && rep.os_matches@.len() == 4 && exists|t: Timestamp| #[trigger] rfc3339_text(t.secs, t.nanos) == Some(rep.scanned_at@),
{
    match current_time() {
        Some(now) => {
            let r = report_at(probe, now);
            assert(r is Some);
            r
        },
        None => None,
    }
}

} // verus!
