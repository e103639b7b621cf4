//! Properties of the library as a whole, proved over the specifications that
//! the executable functions are held to.
use vstd::prelude::*;
use crate::clock::{Timestamp, not_after};
use crate::ranking::{OSMatchView, arranges, candidate_matches, expected_match, sorted_by_score};
use crate::scoring::{
    Hardware, OSProfile, arch_missing, cores_below, legacy_boot, os_catalog, penalty,
    profile_improvements, profile_issues, profile_score, ram_below, ram_tight, storage_below,
    storage_tight, tpm_missing, upgrade_steps,
};
use crate::service::{
    ServiceError, TokenRecordView, consume_outcome, expiry_of, issue_outcome, local_scan_outcome,
    origin_list, parsed_origins, server_scan_outcome,
};
use crate::format::{centi_text, decimal};
use crate::text::{contains, is_ws, trim, trim_end, trim_start};

verus! {

// ---------------------------------------------------------------------------
// Scoring and ranking.
// ---------------------------------------------------------------------------

/// A compatibility score always lies between 0 and 100.
pub proof fn law_score_in_range(hw: Hardware, p: OSProfile)
    ensures
        0 <= profile_score(hw, p) <= 100,
{
}

/// Every match carries at least one line of improvement guidance.
pub proof fn law_improvements_never_empty(hw: Hardware, p: OSProfile)
    ensures
        profile_improvements(hw, p).len() >= 1,
{
}

/// A machine that meets every requirement of a profile with room to spare
/// and boots through UEFI scores 100, with no issue and no upgrade to make.
pub proof fn law_well_matched_machine(hw: Hardware, p: OSProfile)
    requires
        hw.memory_centigb >= p.min_ram_centigb + 200,
        hw.storage_centigb >= p.min_storage_centigb + 3000,
        hw.cpu_cores >= p.min_cores,
        !arch_missing(hw, p),
        !tpm_missing(hw, p),
        !legacy_boot(hw),
    ensures
        profile_score(hw, p) == 100,
        profile_issues(hw, p).len() == 0,
        profile_improvements(hw, p) == seq![
            "No major upgrades required; current hardware is already well-matched."@,
        ],
{
    assert(upgrade_steps(hw, p) =~= Seq::<Seq<char>>::empty());
    assert(profile_issues(hw, p) =~= Seq::<Seq<char>>::empty());
}

/// A requirement that the machine misses shows up both as an issue and as an
/// upgrade, and keeps the score below 100.
#[verifier::rlimit(40)]
pub proof fn law_missed_requirement_reported(hw: Hardware, p: OSProfile)
    requires
        ram_below(hw, p) || storage_below(hw, p) || cores_below(hw, p) || arch_missing(hw, p)
            || tpm_missing(hw, p),
    ensures
        profile_issues(hw, p).len() >= 1,
        upgrade_steps(hw, p).len() >= 1,
        profile_improvements(hw, p) == upgrade_steps(hw, p),
        profile_score(hw, p) < 100,
{
}

/// The score is 100 less a fixed amount for each check the machine fails,
/// and never below 0: 30 for too little memory (8 for less than 2 GB above
/// the minimum), 25 for too little storage (5 for less than 30 GB above the
/// minimum), 20 for too few cores, 50 for a 32-bit architecture where 64 bits
/// are required, 20 for a missing TPM where one is required, and 5 for a boot
/// mode other than UEFI.
pub proof fn law_score_formula(hw: Hardware, p: OSProfile)
    ensures
        profile_score(hw, p) == ({
            let lost = (if hw.memory_centigb < p.min_ram_centigb {
                30int
            } else if hw.memory_centigb < p.min_ram_centigb + 200 {
                8int
            } else {
                0int
            }) + (if hw.storage_centigb < p.min_storage_centigb {
                25int
            } else if hw.storage_centigb < p.min_storage_centigb + 3000 {
                5int
            } else {
                0int
            }) + (if hw.cpu_cores < p.min_cores {
                20int
            } else {
                0int
            }) + (if p.requires_64bit && !contains(hw.architecture@, "64"@) {
                50int
            } else {
                0int
            }) + (if p.requires_tpm && !hw.has_tpm {
                20int
            } else {
                0int
            }) + (if hw.boot_mode@ != "UEFI"@ {
                5int
            } else {
                0int
            });
            if lost >= 100 {
                0int
            } else {
                100 - lost
            }
        }),
{
}

/// A machine that misses only the 64-bit requirement of a profile (with
/// headroom in memory and storage, enough cores, a TPM where one is
/// required, booting through UEFI) scores 50 against it: one issue, one
/// upgrade, category "Fair" and assessment "Potential compatibility
/// constraints".
pub proof fn law_only_64bit_missing(hw: Hardware, p: OSProfile)
    requires
        hw.memory_centigb >= p.min_ram_centigb + 200,
        hw.storage_centigb >= p.min_storage_centigb + 3000,
        hw.cpu_cores >= p.min_cores,
        p.requires_64bit,
        !contains(hw.architecture@, "64"@),
        !p.requires_tpm || hw.has_tpm,
        hw.boot_mode@ == "UEFI"@,
    ensures
        profile_score(hw, p) == 50,
        profile_issues(hw, p) == seq!["64-bit architecture required."@],
        profile_improvements(hw, p) == seq!["Move to a 64-bit capable processor and firmware."@],
        expected_match(hw, p).compatibility_score == 50,
        expected_match(hw, p).compatibility_category == "Fair"@,
        expected_match(hw, p).assessment == "Potential compatibility constraints"@,
{
    assert(profile_issues(hw, p) =~= seq!["64-bit architecture required."@]);
    assert(upgrade_steps(hw, p) =~= seq!["Move to a 64-bit capable processor and firmware."@]);
}

/// The assessment and the category of a match follow its score: "Compatible"
/// exactly from 70 up (else "Potential compatibility constraints");
/// "Excellent" from 85, "Good" from 70, "Fair" from 50, else "Low". So a
/// compatible match is always "Good" or "Excellent".
pub proof fn law_assessment_follows_score(hw: Hardware, p: OSProfile)
    ensures
        ({
            let m = expected_match(hw, p);
            &&& m.compatibility_score == profile_score(hw, p)
            &&& m.compatibility_score >= 70 ==> m.assessment == "Compatible"@
            &&& m.compatibility_score < 70 ==> m.assessment
                == "Potential compatibility constraints"@
            &&& m.assessment == "Compatible"@ <==> m.compatibility_score >= 70
            &&& m.compatibility_score >= 85 ==> m.compatibility_category == "Excellent"@
            &&& 70 <= m.compatibility_score < 85 ==> m.compatibility_category == "Good"@
            &&& 50 <= m.compatibility_score < 70 ==> m.compatibility_category == "Fair"@
            &&& m.compatibility_score < 50 ==> m.compatibility_category == "Low"@
            &&& m.assessment == "Compatible"@ ==> (m.compatibility_category == "Good"@
                || m.compatibility_category == "Excellent"@)
        }),
{
    reveal_strlit("Compatible");
    reveal_strlit("Potential compatibility constraints");
    reveal_strlit("Good");
    reveal_strlit("Excellent");
    reveal_strlit("Fair");
    reveal_strlit("Low");
}

/// Every entry of a ranked recommendation carries the assessment and the
/// category that its score calls for.
pub proof fn law_ranked_assessments(hw: Hardware, vs: Seq<OSMatchView>)
    requires
        sorted_by_score(vs, candidate_matches(hw)),
    ensures
        forall|k: int|
            0 <= k < vs.len() ==> {
                &&& (#[trigger] vs[k]).assessment == "Compatible"@ <==> vs[k].compatibility_score
                    >= 70
                &&& vs[k].compatibility_score < 70 ==> vs[k].assessment
                    == "Potential compatibility constraints"@
                &&& vs[k].assessment == "Compatible"@ ==> (vs[k].compatibility_category == "Good"@
                    || vs[k].compatibility_category == "Excellent"@)
                &&& 0 <= vs[k].compatibility_score <= 100
            },
{
    let cand = candidate_matches(hw);
    let perm = choose|perm: Seq<int>| #[trigger] arranges(vs, perm, cand, cand.len() as int);
    assert forall|k: int| 0 <= k < vs.len() implies {
        &&& (#[trigger] vs[k]).assessment == "Compatible"@ <==> vs[k].compatibility_score >= 70
        &&& vs[k].compatibility_score < 70 ==> vs[k].assessment
            == "Potential compatibility constraints"@
        &&& vs[k].assessment == "Compatible"@ ==> (vs[k].compatibility_category == "Good"@
            || vs[k].compatibility_category == "Excellent"@)
        &&& 0 <= vs[k].compatibility_score <= 100
    } by {
        let j = perm[k];
        assert(vs[k] == cand[j]);
        let pj = os_catalog()[j];
        assert(cand[j] == expected_match(hw, pj));
        law_assessment_follows_score(hw, pj);
    }
}

/// The unmet requirements are listed in a fixed order, one line each: memory,
/// storage, cores, the 64-bit architecture, the TPM; a requirement that is
/// met, or met narrowly, is not listed.
pub proof fn law_issues_listed(hw: Hardware, p: OSProfile)
    ensures
        profile_issues(hw, p) == crate::scoring::when(
            hw.memory_centigb < p.min_ram_centigb,
            "RAM below minimum ("@ + centi_text(hw.memory_centigb as nat) + " GB < "@ + centi_text(
                p.min_ram_centigb as nat,
            ) + " GB)"@,
        ) + crate::scoring::when(
            hw.storage_centigb < p.min_storage_centigb,
            "Storage below minimum ("@ + centi_text(hw.storage_centigb as nat) + " GB < "@
                + centi_text(p.min_storage_centigb as nat) + " GB)"@,
        ) + crate::scoring::when(
            hw.cpu_cores < p.min_cores,
            "CPU cores below minimum ("@ + decimal(hw.cpu_cores as nat) + " < "@ + decimal(
                p.min_cores as nat,
            ) + ")"@,
        ) + crate::scoring::when(
            p.requires_64bit && !contains(hw.architecture@, "64"@),
            "64-bit architecture required."@,
        ) + crate::scoring::when(p.requires_tpm && !hw.has_tpm, "TPM is required but not detected."@),
{
}

/// The upgrade guidance: one line per failed or narrowly passed check, in a
/// fixed order, and a single reassuring line where there is none.
pub proof fn law_upgrades_listed(hw: Hardware, p: OSProfile)
    ensures
        ({
            let steps = crate::scoring::when(
                hw.memory_centigb < p.min_ram_centigb,
                "Upgrade RAM by at least "@ + centi_text(
                    (p.min_ram_centigb - hw.memory_centigb) as nat,
                ) + " GB."@,
            ) + crate::scoring::when(
                p.min_ram_centigb <= hw.memory_centigb < p.min_ram_centigb + 200,
                "Add extra RAM headroom for smoother multitasking."@,
            ) + crate::scoring::when(
                hw.storage_centigb < p.min_storage_centigb,
                "Increase storage capacity by at least "@ + centi_text(
                    (p.min_storage_centigb - hw.storage_centigb) as nat,
                ) + " GB."@,
            ) + crate::scoring::when(
                p.min_storage_centigb <= hw.storage_centigb < p.min_storage_centigb + 3000,
                "Reserve extra free storage for updates and application caches."@,
            ) + crate::scoring::when(
                hw.cpu_cores < p.min_cores,
                "Use a CPU with more cores for better responsiveness."@,
            ) + crate::scoring::when(
                p.requires_64bit && !contains(hw.architecture@, "64"@),
                "Move to a 64-bit capable processor and firmware."@,
            ) + crate::scoring::when(
                p.requires_tpm && !hw.has_tpm,
                "Enable TPM 2.0 in firmware or install a TPM module."@,
            ) + crate::scoring::when(
                hw.boot_mode@ != "UEFI"@,
                "Switch to UEFI boot mode for broader modern OS support."@,
            );
            profile_improvements(hw, p) == if steps.len() == 0 {
                seq!["No major upgrades required; current hardware is already well-matched."@]
            } else {
                steps
            }
        }),
{
}

/// A match names its profile and carries the profile's notes; its
/// compatibility notes are the unmet requirements, or the single line "All
/// key minimum requirements are met." where there is none.
pub proof fn law_match_notes(hw: Hardware, p: OSProfile)
    ensures
        expected_match(hw, p).os == p.name@,
        expected_match(hw, p).profile_notes == p.notes@,
        expected_match(hw, p).improvements == profile_improvements(hw, p),
        expected_match(hw, p).compatibility_notes == if profile_issues(hw, p).len() == 0 {
            seq!["All key minimum requirements are met."@]
        } else {
            profile_issues(hw, p)
        },
{
}

/// In a ranked recommendation, matches with equal scores keep the order of
/// the catalogue: the earlier one stands earlier among the candidates.
pub proof fn law_ties_keep_catalogue_order(hw: Hardware, vs: Seq<OSMatchView>, k: int, l: int)
    requires
        sorted_by_score(vs, candidate_matches(hw)),
        0 <= k < l < vs.len(),
        vs[k].compatibility_score == vs[l].compatibility_score,
    ensures
        exists|i: int, j: int|
            0 <= i < j < 4 && vs[k] == #[trigger] candidate_matches(hw)[i] && vs[l]
                == #[trigger] candidate_matches(hw)[j],
{
    let cand = candidate_matches(hw);
    assert(os_catalog().len() == 4);
    let perm = choose|perm: Seq<int>| #[trigger] arranges(vs, perm, cand, cand.len() as int);
    assert(vs[k] == cand[perm[k]]);
    assert(vs[l] == cand[perm[l]]);
    assert(perm[k] < perm[l]);
}

/// `x` is one of the entries of `vs`.
pub open spec fn appears_in(vs: Seq<OSMatchView>, x: OSMatchView) -> bool {
    exists|i: int| 0 <= i < vs.len() && vs[i] == x
}

/// The recommendation holds exactly one match per profile of the catalogue,
/// four in all, best score first.
pub proof fn law_ranking(hw: Hardware, vs: Seq<OSMatchView>)
    requires
        sorted_by_score(vs, candidate_matches(hw)),
    ensures
        vs.len() == 4,
        forall|i: int, j: int|
            0 <= i < j < vs.len() ==> (#[trigger] vs[i]).compatibility_score >= (
            #[trigger] vs[j]).compatibility_score,
        forall|k: int| 0 <= k < 4 ==> appears_in(vs, #[trigger] candidate_matches(hw)[k]),
        forall|i: int| 0 <= i < 4 ==> appears_in(candidate_matches(hw), #[trigger] vs[i]),
{
    let cand = candidate_matches(hw);
    assert(os_catalog().len() == 4);
    let perm = choose|perm: Seq<int>| #[trigger] arranges(vs, perm, cand, cand.len() as int);
    assert forall|i: int| 0 <= i < 4 implies appears_in(cand, #[trigger] vs[i]) by {
        assert(vs[i] == cand[perm[i]]);
    }
    // The positions form a permutation of 0..4, so each is hit.
    assert forall|k: int| 0 <= k < 4 implies appears_in(vs, #[trigger] cand[k]) by {
        if !(perm[0] == k || perm[1] == k || perm[2] == k || perm[3] == k) {
            // Four distinct values in 0..4 other than k cannot exist.
            assert(perm[0] != perm[1] && perm[0] != perm[2] && perm[0] != perm[3]);
            assert(perm[1] != perm[2] && perm[1] != perm[3] && perm[2] != perm[3]);
            assert(0 <= perm[0] < 4 && 0 <= perm[1] < 4 && 0 <= perm[2] < 4 && 0 <= perm[3] < 4);
            assert(false);
        }
        if perm[0] == k {
            assert(vs[0] == cand[k]);
        } else if perm[1] == k {
            assert(vs[1] == cand[k]);
        } else if perm[2] == k {
            assert(vs[2] == cand[k]);
        } else {
            assert(vs[3] == cand[k]);
        }
    }
}

/// Position `k` is taken by some entry of `perm`.
pub open spec fn taken(perm: Seq<int>, n: int, k: int) -> bool {
    exists|i: int| 0 <= i < n && #[trigger] perm[i] == k
}

/// Every position `0..n` is taken by some entry of `perm`.
pub open spec fn covers(perm: Seq<int>, n: int) -> bool {
    forall|k: int| 0 <= k < n ==> #[trigger] taken(perm, n, k)
}

proof fn lemma_covers_four(vs: Seq<OSMatchView>, perm: Seq<int>, cand: Seq<OSMatchView>)
    requires
        arranges(vs, perm, cand, 4),
    ensures
        covers(perm, 4),
{
    assert forall|k: int| 0 <= k < 4 implies #[trigger] taken(perm, 4, k) by {
        assert(perm[0] != perm[1] && perm[0] != perm[2] && perm[0] != perm[3]);
        assert(perm[1] != perm[2] && perm[1] != perm[3] && perm[2] != perm[3]);
        assert(0 <= perm[0] < 4 && 0 <= perm[1] < 4 && 0 <= perm[2] < 4 && 0 <= perm[3] < 4);
        if perm[0] == k {
        } else if perm[1] == k {
        } else if perm[2] == k {
        } else {
            assert(perm[3] == k);
        }
    }
}

/// Two stable arrangements of the same candidates agree on their first `m`
/// positions.
proof fn lemma_arrangements_agree(
    vs1: Seq<OSMatchView>,
    p1: Seq<int>,
    vs2: Seq<OSMatchView>,
    p2: Seq<int>,
    cand: Seq<OSMatchView>,
    n: int,
    m: int,
)
    requires
        arranges(vs1, p1, cand, n),
        arranges(vs2, p2, cand, n),
        covers(p1, n),
        covers(p2, n),
        0 <= m <= n,
    ensures
        forall|i: int| 0 <= i < m ==> #[trigger] p1[i] == p2[i],
    decreases m,
{
    if m > 0 {
        lemma_arrangements_agree(vs1, p1, vs2, p2, cand, n, m - 1);
        let i = m - 1;
        if p1[i] != p2[i] {
            let a = p1[i];
            let b = p2[i];
            assert(0 <= a < n && 0 <= b < n);
            assert(taken(p2, n, a));
            assert(taken(p1, n, b));
            let j = choose|j: int| 0 <= j < n && #[trigger] p2[j] == a;
            let j1 = choose|j1: int| 0 <= j1 < n && #[trigger] p1[j1] == b;
            if j < i {
                assert(p1[j] == p2[j]);
                assert(p1[j] != p1[i]);
            }
            if j1 < i {
                assert(p1[j1] == p2[j1]);
                assert(p2[j1] != p2[i]);
            }
            assert(i < j && i < j1);
            assert(vs2[i] == cand[b] && vs2[j] == cand[a]);
            assert(vs1[i] == cand[a] && vs1[j1] == cand[b]);
            assert(vs2[i].compatibility_score >= vs2[j].compatibility_score);
            assert(vs1[i].compatibility_score >= vs1[j1].compatibility_score);
            assert(p2[i] < p2[j]);
            assert(p1[i] < p1[j1]);
            assert(false);
        }
    }
}

/// The ranking is unique: any two sequences that both hold the candidates of
/// one machine, stably sorted by descending score, are the same. So every
/// ranked result for a machine, a report's included, equals what
/// `recommend_os` gives for it.
pub proof fn law_ranking_unique(hw: Hardware, vs1: Seq<OSMatchView>, vs2: Seq<OSMatchView>)
    requires
        sorted_by_score(vs1, candidate_matches(hw)),
        sorted_by_score(vs2, candidate_matches(hw)),
    ensures
        vs1 == vs2,
{
    let cand = candidate_matches(hw);
    assert(os_catalog().len() == 4);
    let p1 = choose|perm: Seq<int>| #[trigger] arranges(vs1, perm, cand, cand.len() as int);
    let p2 = choose|perm: Seq<int>| #[trigger] arranges(vs2, perm, cand, cand.len() as int);
    lemma_covers_four(vs1, p1, cand);
    lemma_covers_four(vs2, p2, cand);
    lemma_arrangements_agree(vs1, p1, vs2, p2, cand, 4, 4);
    assert forall|i: int| 0 <= i < 4 implies vs1[i] == vs2[i] by {
        assert(p1[i] == p2[i]);
    }
    assert(vs1 =~= vs2);
}

// ---------------------------------------------------------------------------
// Text.
// ---------------------------------------------------------------------------

proof fn lemma_trim_start_shape(s: Seq<char>)
    ensures
        trim_start(s).len() == 0 || !is_ws(trim_start(s)[0]),
        trim_start(s).len() <= s.len(),
    decreases s.len(),
{
    if s.len() > 0 && is_ws(s[0]) {
        lemma_trim_start_shape(s.drop_first());
    }
}

proof fn lemma_trim_end_prefix(s: Seq<char>)
    ensures
        trim_end(s).len() <= s.len(),
        trim_end(s) == s.subrange(0, trim_end(s).len() as int),
        trim_end(s).len() == 0 || !is_ws(trim_end(s).last()),
    decreases s.len(),
{
    if s.len() > 0 && is_ws(s.last()) {
        lemma_trim_end_prefix(s.drop_last());
        assert(s.drop_last().subrange(0, trim_end(s).len() as int) =~= s.subrange(
            0,
            trim_end(s).len() as int,
        ));
    } else {
        assert(s.subrange(0, s.len() as int) =~= s);
    }
}

/// Trimming twice is trimming once.
pub proof fn law_trim_idempotent(s: Seq<char>)
    ensures
        trim(trim(s)) == trim(s),
{
    let a = trim_start(s);
    let t = trim_end(a);
    lemma_trim_start_shape(s);
    lemma_trim_end_prefix(a);
    if t.len() > 0 {
        assert(t[0] == a[0]);
    }
    assert(trim_start(t) == t);
    assert(trim_end(t) == t);
}

proof fn lemma_origin_list(ps: Seq<Seq<char>>)
    ensures
        forall|i: int, j: int|
            0 <= i < j < origin_list(ps).len() ==> origin_list(ps)[i] != origin_list(ps)[j],
        forall|o: Seq<char>|
            origin_list(ps).contains(o) <==> (o.len() > 0 && exists|k: int|
                0 <= k < ps.len() && #[trigger] trim(ps[k]) == o),
    decreases ps.len(),
{
    if ps.len() > 0 {
        let prev_ps = ps.drop_last();
        lemma_origin_list(prev_ps);
        let prev = origin_list(prev_ps);
        let t = trim(ps.last());
        assert forall|o: Seq<char>|
            origin_list(ps).contains(o) <==> (o.len() > 0 && exists|k: int|
                0 <= k < ps.len() && #[trigger] trim(ps[k]) == o) by {
            if origin_list(ps).contains(o) {
                if prev.contains(o) {
                    let k = choose|k: int| 0 <= k < prev_ps.len() && #[trigger] trim(prev_ps[k]) == o;
                    assert(trim(ps[k]) == o);
                } else {
                    assert(o == t);
                    assert(trim(ps[ps.len() - 1]) == o);
                }
            }
            if o.len() > 0 && exists|k: int| 0 <= k < ps.len() && #[trigger] trim(ps[k]) == o {
                let k = choose|k: int| 0 <= k < ps.len() && #[trigger] trim(ps[k]) == o;
                if k < ps.len() - 1 {
                    assert(trim(prev_ps[k]) == o);
                    assert(prev.contains(o));
                    if !(t.len() == 0 || prev.contains(t)) {
                        assert(origin_list(ps) == prev.push(t));
                        let i = choose|i: int| 0 <= i < prev.len() && prev[i] == o;
                        assert(origin_list(ps)[i] == o);
                    }
                } else {
                    assert(t == o);
                    if prev.contains(t) {
                    } else {
                        assert(origin_list(ps)[prev.len() as int] == o);
                    }
                }
            }
        }
    }
}

/// The parsed origin list names each origin once, each non-empty and without
/// surrounding whitespace, and holds exactly the trimmed non-empty entries of
/// the comma-separated text.
pub proof fn law_origins_distinct_and_clean(raw: Seq<char>)
    ensures
        forall|i: int, j: int|
            0 <= i < j < parsed_origins(raw).len() ==> parsed_origins(raw)[i] != parsed_origins(
                raw,
            )[j],
        forall|o: Seq<char>|
            parsed_origins(raw).contains(o) <==> (o.len() > 0 && exists|k: int|
                0 <= k < crate::text::pieces(raw, crate::text::Separator::Char(',')).len()
                    && #[trigger] trim(crate::text::pieces(raw, crate::text::Separator::Char(','))[k])
                    == o),
        forall|o: Seq<char>| parsed_origins(raw).contains(o) ==> trim(o) == o,
{
    let ps = crate::text::pieces(raw, crate::text::Separator::Char(','));
    lemma_origin_list(ps);
    assert forall|o: Seq<char>| parsed_origins(raw).contains(o) implies trim(o) == o by {
        let k = choose|k: int| 0 <= k < ps.len() && #[trigger] trim(ps[k]) == o;
        law_trim_idempotent(ps[k]);
    }
}

// ---------------------------------------------------------------------------
// The local token.
// ---------------------------------------------------------------------------

/// A request for a token is refused without consent, and otherwise from an
/// origin that is not allowed; else the token is issued, good from the moment
/// of issue (for a positive lifetime) until its expiry.
pub proof fn law_issue_decision(
    consent: bool,
    permitted: bool,
    token: Seq<char>,
    now: Timestamp,
    ttl: i64,
)
    ensures
        !consent ==> issue_outcome(consent, permitted, token, now, ttl) == Err::<
            TokenRecordView,
            ServiceError,
        >(ServiceError::ConsentRequired),
        consent && !permitted ==> issue_outcome(consent, permitted, token, now, ttl) == Err::<
            TokenRecordView,
            ServiceError,
        >(ServiceError::OriginNotAllowed),
        consent && permitted && ttl > 0 && expiry_of(now, ttl) is Some ==> (issue_outcome(
            consent,
            permitted,
            token,
            now,
            ttl,
        ) matches Ok(r) && r.value == token && !not_after(r.expires_at, now)),
{
}

/// A token issued by an allowed request lets exactly one local scan through:
/// presented before it expires it is accepted and used up, and nothing is
/// accepted after that until a new token is issued.
pub proof fn law_token_accepted_once(
    token: Seq<char>,
    issued_at: Timestamp,
    ttl: i64,
    now: Timestamp,
    other: Option<Seq<char>>,
    later: Timestamp,
)
    requires
        ttl > 0,
        issue_outcome(true, true, token, issued_at, ttl) is Ok,
        !not_after(issue_outcome(true, true, token, issued_at, ttl)->Ok_0.expires_at, now),
    ensures
        ({
            let held = Some(issue_outcome(true, true, token, issued_at, ttl)->Ok_0);
            let (first, after) = local_scan_outcome(true, held, Some(token), now);
            &&& first == Ok::<(), ServiceError>(())
            &&& after is None
            &&& local_scan_outcome(true, after, other, later).0 == Err::<(), ServiceError>(
                ServiceError::InvalidLocalToken,
            )
        }),
{
}

/// A held token presented at or after its expiry is refused and dropped.
pub proof fn law_expired_token_dropped(r: TokenRecordView, presented: Seq<char>, now: Timestamp)
    requires
        not_after(r.expires_at, now),
    ensures
        consume_outcome(Some(r), Some(presented), now) == (false, None::<TokenRecordView>),
{
}

/// A token that differs from the held one is refused, and the held token
/// stays usable.
pub proof fn law_wrong_token_keeps_held(r: TokenRecordView, presented: Seq<char>, now: Timestamp)
    requires
        !not_after(r.expires_at, now),
        presented != r.value,
    ensures
        consume_outcome(Some(r), Some(presented), now) == (false, Some(r)),
{
}

/// A request that presents no token, or comes from an origin that is not
/// allowed, is refused and leaves the held token as it was.
pub proof fn law_refusal_keeps_held(
    slot: Option<TokenRecordView>,
    presented: Option<Seq<char>>,
    now: Timestamp,
)
    ensures
        local_scan_outcome(false, slot, presented, now) == (
            Err::<(), ServiceError>(ServiceError::OriginNotAllowed),
            slot,
        ),
        presented is None ==> local_scan_outcome(true, slot, presented, now) == (
            Err::<(), ServiceError>(ServiceError::InvalidLocalToken),
            slot,
        ),
{
}

/// Issuing a new token retires the previous one: the old token is no longer
/// accepted.
pub proof fn law_new_token_replaces_old(
    old_token: Seq<char>,
    token: Seq<char>,
    issued_at: Timestamp,
    ttl: i64,
    now: Timestamp,
)
    requires
        old_token != token,
        issue_outcome(true, true, token, issued_at, ttl) is Ok,
    ensures
        !consume_outcome(
            Some(issue_outcome(true, true, token, issued_at, ttl)->Ok_0),
            Some(old_token),
            now,
        ).0,
{
}

/// A server scan goes through exactly when a key is configured and the
/// request presents it; without the header the presented key is empty.
pub proof fn law_server_key(expected: Option<Seq<char>>, provided: Option<Seq<char>>)
    ensures
        expected is None ==> server_scan_outcome(expected, provided) == Err::<(), ServiceError>(
            ServiceError::ApiKeyNotConfigured,
        ),
        expected is Some ==> (server_scan_outcome(expected, provided) is Ok <==> match provided {
            Some(p) => p == expected->Some_0,
            None => expected->Some_0 == ""@,
        }),
{
}

} // verus!
