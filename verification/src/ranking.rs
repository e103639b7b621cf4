//! The recommendation: one match per profile, best score first.
use vstd::prelude::*;
use crate::scoring::{
    Hardware, OSProfile, category_text, compatibility_category, os_catalog, os_profiles,
    profile_improvements, profile_issues, profile_score, score_profile,
};
use crate::text::text;

verus! {

/// How well one operating system suits the machine.
#[derive(Debug)]
pub struct OSMatch {
    pub os: String,
    pub compatibility_score: i32,
    pub compatibility_category: String,
    pub assessment: String,
    pub compatibility_notes: Vec<String>,
    pub improvements: Vec<String>,
    pub profile_notes: String,
}

/// An `OSMatch` with its texts as character sequences.
pub struct OSMatchView {
    pub os: Seq<char>,
    pub compatibility_score: int,
    pub compatibility_category: Seq<char>,
    pub assessment: Seq<char>,
    pub compatibility_notes: Seq<Seq<char>>,
    pub improvements: Seq<Seq<char>>,
    pub profile_notes: Seq<char>,
}

impl View for OSMatch {
    type V = OSMatchView;

    open spec fn view(&self) -> OSMatchView {
        OSMatchView {
            os: self.os@,
            compatibility_score: self.compatibility_score as int,
            compatibility_category: self.compatibility_category@,
            assessment: self.assessment@,
            compatibility_notes: self.compatibility_notes.deep_view(),
            improvements: self.improvements.deep_view(),
            profile_notes: self.profile_notes@,
        }
    }
}

pub open spec fn assessment_text(score: int) -> Seq<char> {
    if score >= 70 {
        "Compatible"@
    } else {
        "Potential compatibility constraints"@
    }
}

/// The unmet requirements, or one line saying that all are met.
pub open spec fn notes_text(issues: Seq<Seq<char>>) -> Seq<Seq<char>> {
    if issues.len() == 0 {
        seq!["All key minimum requirements are met."@]
    } else {
        issues
    }
}

/// The match that `hw` gets for profile `p`.
pub open spec fn expected_match(hw: Hardware, p: OSProfile) -> OSMatchView {
    let score = profile_score(hw, p);
    OSMatchView {
        os: p.name@,
        compatibility_score: score,
        compatibility_category: category_text(score),
        assessment: assessment_text(score),
        compatibility_notes: notes_text(profile_issues(hw, p)),
        improvements: profile_improvements(hw, p),
        profile_notes: p.notes@,
    }
}

/// The matches of `hw`, one per profile, in catalogue order.
pub open spec fn candidate_matches(hw: Hardware) -> Seq<OSMatchView> {
    os_catalog().map_values(|p: OSProfile| expected_match(hw, p))
}

pub open spec fn match_views(ms: Seq<OSMatch>) -> Seq<OSMatchView> {
    ms.map_values(|m: OSMatch| m@)
}

/// `vs` holds the first `n` of `cand`, each once, by non-increasing score,
/// with equal scores in their order in `cand`; `perm[k]` is where `vs[k]`
/// stands in `cand`.
pub open spec fn arranges(
    vs: Seq<OSMatchView>,
    perm: Seq<int>,
    cand: Seq<OSMatchView>,
    n: int,
) -> bool {
    &&& vs.len() == n
    &&& perm.len() == n
    &&& forall|k: int| 0 <= k < n ==> 0 <= #[trigger] perm[k] < n
    &&& forall|k: int| 0 <= k < n ==> #[trigger] vs[k] == cand[perm[k]]
    &&& forall|k: int, l: int| 0 <= k < l < n ==> #[trigger] perm[k] != #[trigger] perm[l]
    &&& forall|k: int, l: int|
        0 <= k < l < n ==> (#[trigger] vs[k]).compatibility_score >= (
        #[trigger] vs[l]).compatibility_score
    &&& forall|k: int, l: int|
        0 <= k < l < n && (#[trigger] vs[k]).compatibility_score == (
        #[trigger] vs[l]).compatibility_score ==> perm[k] < perm[l]
}

/// `vs` is `cand` stably sorted by descending score.
pub open spec fn sorted_by_score(vs: Seq<OSMatchView>, cand: Seq<OSMatchView>) -> bool {
    exists|perm: Seq<int>| #[trigger] arranges(vs, perm, cand, cand.len() as int)
}

proof fn lemma_insert_arranged(
    vs: Seq<OSMatchView>,
    perm: Seq<int>,
    cand: Seq<OSMatchView>,
    n: int,
    pos: int,
    m: OSMatchView,
)
    requires
        arranges(vs, perm, cand, n),
        0 <= n < cand.len(),
        m == cand[n],
        0 <= pos <= n,
        forall|k: int| 0 <= k < pos ==> (#[trigger] vs[k]).compatibility_score >= m.compatibility_score,
        forall|k: int| pos <= k < n ==> (#[trigger] vs[k]).compatibility_score < m.compatibility_score,
    ensures
        arranges(vs.insert(pos, m), perm.insert(pos, n), cand, n + 1),
{
    let vs2 = vs.insert(pos, m);
    let p2 = perm.insert(pos, n);
    vs.insert_ensures(pos, m);
    perm.insert_ensures(pos, n);
    assert forall|k: int| 0 <= k < n + 1 implies (0 <= #[trigger] p2[k] < n + 1 && vs2[k] == cand[p2[k]]) && (
    k < pos ==> vs2[k] == vs[k] && p2[k] == perm[k]) && (k > pos ==> vs2[k] == vs[k - 1] && p2[k]
        == perm[k - 1]) by {
        if k > pos {
            assert(vs2[(k - 1) + 1] == vs[k - 1]);
            assert(p2[(k - 1) + 1] == perm[k - 1]);
        }
    }
    assert forall|k: int, l: int| 0 <= k < l < n + 1 implies #[trigger] p2[k] != #[trigger] p2[l] by {
        assert(0 <= p2[k] < n + 1);
        assert(0 <= p2[l] < n + 1);
        if k == pos {
            assert(p2[l] == perm[l - 1]);
        } else if l == pos {
            assert(p2[k] == perm[k]);
        } else {
            let k0 = if k < pos {
                k
            } else {
                k - 1
            };
            let l0 = if l < pos {
                l
            } else {
                l - 1
            };
            assert(p2[k] == perm[k0]);
            assert(p2[l] == perm[l0]);
            assert(perm[k0] != perm[l0]);
        }
    }
    assert forall|k: int, l: int| 0 <= k < l < n + 1 implies (#[trigger] vs2[k]).compatibility_score
        >= (#[trigger] vs2[l]).compatibility_score && (vs2[k].compatibility_score
        == vs2[l].compatibility_score ==> p2[k] < p2[l]) by {
        assert(0 <= p2[k] < n + 1);
        assert(0 <= p2[l] < n + 1);
        if k == pos {
            assert(vs2[l] == vs[l - 1]);
            assert(p2[l] == perm[l - 1]);
        } else if l == pos {
            assert(vs2[k] == vs[k]);
            assert(p2[k] == perm[k]);
        } else {
            let k0 = if k < pos {
                k
            } else {
                k - 1
            };
            let l0 = if l < pos {
                l
            } else {
                l - 1
            };
            assert(vs2[k] == vs[k0]);
            assert(vs2[l] == vs[l0]);
            assert(p2[k] == perm[k0]);
            assert(p2[l] == perm[l0]);
            assert(vs[k0].compatibility_score >= vs[l0].compatibility_score);
        }
    }
}

/// The match of `hardware` for one profile.
pub fn build_match(hardware: &Hardware, profile: &OSProfile) -> (m: OSMatch)
    ensures
        m@ == expected_match(*hardware, *profile),
{
    let (score, issues, improvements) = score_profile(hardware, profile);
    let category = compatibility_category(score);
    let assessment = if score >= 70 {
        text("Compatible")
    } else {
        text("Potential compatibility constraints")
    };
    let notes = if issues.len() == 0 {
        let mut v: Vec<String> = Vec::new();
        v.push(text("All key minimum requirements are met."));
        assert(v.deep_view() =~= seq!["All key minimum requirements are met."@]);
        v
    } else {
        issues
    };
    let m = OSMatch {
        os: text(profile.name),
        compatibility_score: score,
        compatibility_category: category,
        assessment,
        compatibility_notes: notes,
        improvements,
        profile_notes: text(profile.notes),
    };
    m
}

/// One match per profile, stably sorted by descending score: a higher score
/// comes first, and equal scores keep the catalogue's order.
pub fn recommend_os(hardware: &Hardware) -> (ms: Vec<OSMatch>)
    ensures
        sorted_by_score(match_views(ms@), candidate_matches(*hardware)),
{
    let profiles = os_profiles();
    let ghost cand = candidate_matches(*hardware);
    let mut out: Vec<OSMatch> = Vec::new();
    let ghost mut perm: Seq<int> = Seq::empty();
    let mut i: usize = 0;
    assert(arranges(match_views(out@), perm, cand, 0));
    while i < profiles.len()
        invariant
            profiles@ == os_catalog(),
            cand == candidate_matches(*hardware),
            cand.len() == profiles.len(),
            i <= profiles.len(),
            arranges(match_views(out@), perm, cand, i as int),
        decreases profiles.len() - i,
    {
        let m = build_match(hardware, &profiles[i]);
        let ghost mv = m@;
        assert(mv == cand[i as int]);
        let ghost vs = match_views(out@);
        let mut pos: usize = 0;
        while pos < out.len() && out[pos].compatibility_score >= m.compatibility_score
            invariant
                vs == match_views(out@),
                arranges(vs, perm, cand, i as int),
                mv == m@,
                pos <= out.len(),
                forall|k: int| 0 <= k < pos ==> (#[trigger] vs[k]).compatibility_score >= mv.compatibility_score,
            decreases out.len() - pos,
        {
            assert(vs[pos as int] == out@[pos as int]@);
            pos = pos + 1;
        }
        proof {
            if pos < out.len() {
                assert(vs[pos as int] == out@[pos as int]@);
                assert forall|k: int| pos <= k < i implies (#[trigger] vs[k]).compatibility_score
                    < mv.compatibility_score by {
                    if k > pos {
                        assert(vs[pos as int].compatibility_score >= vs[k].compatibility_score);
                    }
                }
            }
            lemma_insert_arranged(vs, perm, cand, i as int, pos as int, mv);
        }
        out.insert(pos, m);
        assert(match_views(out@) =~= vs.insert(pos as int, mv));
        proof {
            perm = perm.insert(pos as int, i as int);
        }
        i = i + 1;
    }
    assert(os_catalog().len() == 4);
    let ghost sorted = out@;
    out.truncate(4);
    assert(out@ =~= sorted);
    assert(arranges(match_views(out@), perm, cand, cand.len() as int));
    out
}

} // verus!
