//! Scoring a machine against the operating-system profiles and ranking the
//! results.
//!
//! Amounts of memory and storage are kept in hundredths of a gigabyte
//! (`centigb`): the scanner rounds both to two decimals, so every value it
//! produces, and every threshold a profile sets, is a whole number of them.
use vstd::prelude::*;
use crate::format::{centi_text, decimal, push_centi, push_decimal};
use crate::text::{chars_of, contains, find_chars, push_str, text};

verus! {

/// What is known of a machine.
#[derive(Debug, Clone)]
pub struct Hardware {
    pub cpu_model: String,
    pub cpu_cores: usize,
    /// Installed memory, in hundredths of a gigabyte.
    pub memory_centigb: u64,
    /// Size of the root file system, in hundredths of a gigabyte.
    pub storage_centigb: u64,
    pub architecture: String,
    pub has_tpm: bool,
    pub boot_mode: String,
    pub gpu: String,
}

/// The requirements of one operating system.
#[derive(Clone, Copy)]
pub struct OSProfile {
    pub name: &'static str,
    /// Minimum memory, in hundredths of a gigabyte.
    pub min_ram_centigb: u64,
    /// Minimum storage, in hundredths of a gigabyte.
    pub min_storage_centigb: u64,
    pub min_cores: usize,
    pub requires_tpm: bool,
    pub requires_64bit: bool,
    pub notes: &'static str,
}

/// The profiles that every machine is scored against, in this order.
pub open spec fn os_catalog() -> Seq<OSProfile> {
    seq![
        OSProfile {
            name: "Windows 11",
            min_ram_centigb: 400,
            min_storage_centigb: 6400,
            min_cores: 2,
            requires_tpm: true,
            requires_64bit: true,
            notes: "Best on modern hardware with TPM 2.0 and secure firmware setup.",
        },
        OSProfile {
            name: "Ubuntu 24.04 LTS",
            min_ram_centigb: 400,
            min_storage_centigb: 2500,
            min_cores: 2,
            requires_tpm: false,
            requires_64bit: true,
            notes: "Balanced for workstations and development environments.",
        },
        OSProfile {
            name: "Fedora Workstation 40",
            min_ram_centigb: 400,
            min_storage_centigb: 2000,
            min_cores: 2,
            requires_tpm: false,
            requires_64bit: true,
            notes: "Great for up-to-date Linux desktop workflows.",
        },
        OSProfile {
            name: "Debian 12",
            min_ram_centigb: 200,
            min_storage_centigb: 1000,
            min_cores: 1,
            requires_tpm: false,
            requires_64bit: true,
            notes: "Stable option that works well on lower-spec hardware.",
        },
    ]
}

/// The profiles of `os_catalog`.
pub fn os_profiles() -> (ps: Vec<OSProfile>)
    ensures
        ps@ == os_catalog(),
{
    let ps = vec![
        OSProfile {
            name: "Windows 11",
            min_ram_centigb: 400,
            min_storage_centigb: 6400,
            min_cores: 2,
            requires_tpm: true,
            requires_64bit: true,
            notes: "Best on modern hardware with TPM 2.0 and secure firmware setup.",
        },
        OSProfile {
            name: "Ubuntu 24.04 LTS",
            min_ram_centigb: 400,
            min_storage_centigb: 2500,
            min_cores: 2,
            requires_tpm: false,
            requires_64bit: true,
            notes: "Balanced for workstations and development environments.",
        },
        OSProfile {
            name: "Fedora Workstation 40",
            min_ram_centigb: 400,
            min_storage_centigb: 2000,
            min_cores: 2,
            requires_tpm: false,
            requires_64bit: true,
            notes: "Great for up-to-date Linux desktop workflows.",
        },
        OSProfile {
            name: "Debian 12",
            min_ram_centigb: 200,
            min_storage_centigb: 1000,
            min_cores: 1,
            requires_tpm: false,
            requires_64bit: true,
            notes: "Stable option that works well on lower-spec hardware.",
        },
    ];
    assert(ps@ =~= os_catalog());
    ps
}

// ---------------------------------------------------------------------------
// The checks of one profile.
// ---------------------------------------------------------------------------

pub open spec fn ram_below(hw: Hardware, p: OSProfile) -> bool {
    hw.memory_centigb < p.min_ram_centigb
}

/// Enough memory, but less than two gigabytes above the minimum.
pub open spec fn ram_tight(hw: Hardware, p: OSProfile) -> bool {
    !ram_below(hw, p) && hw.memory_centigb < p.min_ram_centigb + 200
}

pub open spec fn storage_below(hw: Hardware, p: OSProfile) -> bool {
    hw.storage_centigb < p.min_storage_centigb
}

/// Enough storage, but less than thirty gigabytes above the minimum.
pub open spec fn storage_tight(hw: Hardware, p: OSProfile) -> bool {
    !storage_below(hw, p) && hw.storage_centigb < p.min_storage_centigb + 3000
}

pub open spec fn cores_below(hw: Hardware, p: OSProfile) -> bool {
    hw.cpu_cores < p.min_cores
}

pub open spec fn arch_missing(hw: Hardware, p: OSProfile) -> bool {
    p.requires_64bit && !contains(hw.architecture@, "64"@)
}

pub open spec fn tpm_missing(hw: Hardware, p: OSProfile) -> bool {
    p.requires_tpm && !hw.has_tpm
}

pub open spec fn legacy_boot(hw: Hardware) -> bool {
    hw.boot_mode@ != "UEFI"@
}

/// What the failed checks take off a full score of 100.
pub open spec fn penalty(hw: Hardware, p: OSProfile) -> int {
    (if ram_below(hw, p) {
        30int
    } else if ram_tight(hw, p) {
        8int
    } else {
        0int
    }) + (if storage_below(hw, p) {
        25int
    } else if storage_tight(hw, p) {
        5int
    } else {
        0int
    }) + (if cores_below(hw, p) {
        20int
    } else {
        0int
    }) + (if arch_missing(hw, p) {
        50int
    } else {
        0int
    }) + (if tpm_missing(hw, p) {
        20int
    } else {
        0int
    }) + (if legacy_boot(hw) {
        5int
    } else {
        0int
    })
}

/// 100 less the penalties, and never below zero.
pub open spec fn profile_score(hw: Hardware, p: OSProfile) -> int {
    if penalty(hw, p) > 100 {
        0
    } else {
        100 - penalty(hw, p)
    }
}

pub open spec fn when(c: bool, text: Seq<char>) -> Seq<Seq<char>> {
    if c {
        seq![text]
    } else {
        Seq::<Seq<char>>::empty()
    }
}

pub open spec fn ram_issue_text(hw: Hardware, p: OSProfile) -> Seq<char> {
    "RAM below minimum ("@ + centi_text(hw.memory_centigb as nat) + " GB < "@ + centi_text(
        p.min_ram_centigb as nat,
    ) + " GB)"@
}

pub open spec fn ram_upgrade_text(hw: Hardware, p: OSProfile) -> Seq<char> {
    "Upgrade RAM by at least "@ + centi_text((p.min_ram_centigb - hw.memory_centigb) as nat)
        + " GB."@
}

pub open spec fn storage_issue_text(hw: Hardware, p: OSProfile) -> Seq<char> {
    "Storage below minimum ("@ + centi_text(hw.storage_centigb as nat) + " GB < "@ + centi_text(
        p.min_storage_centigb as nat,
    ) + " GB)"@
}

pub open spec fn storage_upgrade_text(hw: Hardware, p: OSProfile) -> Seq<char> {
    "Increase storage capacity by at least "@ + centi_text(
        (p.min_storage_centigb - hw.storage_centigb) as nat,
    ) + " GB."@
}

pub open spec fn cores_issue_text(hw: Hardware, p: OSProfile) -> Seq<char> {
    "CPU cores below minimum ("@ + decimal(hw.cpu_cores as nat) + " < "@ + decimal(
        p.min_cores as nat,
    ) + ")"@
}

/// The requirements that the machine does not meet, in the order checked.
pub open spec fn profile_issues(hw: Hardware, p: OSProfile) -> Seq<Seq<char>> {
    when(ram_below(hw, p), ram_issue_text(hw, p)) + when(
        storage_below(hw, p),
        storage_issue_text(hw, p),
    ) + when(cores_below(hw, p), cores_issue_text(hw, p)) + when(
        arch_missing(hw, p),
        "64-bit architecture required."@,
    ) + when(tpm_missing(hw, p), "TPM is required but not detected."@)
}

/// The upgrades that the failed and the narrowly passed checks call for.
pub open spec fn upgrade_steps(hw: Hardware, p: OSProfile) -> Seq<Seq<char>> {
    when(ram_below(hw, p), ram_upgrade_text(hw, p)) + when(
        ram_tight(hw, p),
        "Add extra RAM headroom for smoother multitasking."@,
    ) + when(storage_below(hw, p), storage_upgrade_text(hw, p)) + when(
        storage_tight(hw, p),
        "Reserve extra free storage for updates and application caches."@,
    ) + when(cores_below(hw, p), "Use a CPU with more cores for better responsiveness."@) + when(
        arch_missing(hw, p),
        "Move to a 64-bit capable processor and firmware."@,
    ) + when(tpm_missing(hw, p), "Enable TPM 2.0 in firmware or install a TPM module."@) + when(
        legacy_boot(hw),
        "Switch to UEFI boot mode for broader modern OS support."@,
    )
}

/// The upgrades, or one line saying that none is needed.
pub open spec fn profile_improvements(hw: Hardware, p: OSProfile) -> Seq<Seq<char>> {
    if upgrade_steps(hw, p).len() == 0 {
        seq!["No major upgrades required; current hardware is already well-matched."@]
    } else {
        upgrade_steps(hw, p)
    }
}

// ---------------------------------------------------------------------------
// Executable scoring.
// ---------------------------------------------------------------------------

fn push_text(v: &mut Vec<String>, s: String)
    ensures
        final(v).deep_view() == old(v).deep_view().push(s@),
{
    let ghost before = v.deep_view();
    let ghost sv = s@;
    v.push(s);
    assert(v.deep_view() =~= before.push(sv));
}

fn below_text(label: &str, have: u64, need: u64) -> (s: String)
    ensures
        s@ == label@ + centi_text(have as nat) + " GB < "@ + centi_text(need as nat) + " GB)"@,
{
    let mut s = String::new();
    push_str(&mut s, label);
    push_centi(&mut s, have);
    push_str(&mut s, " GB < ");
    push_centi(&mut s, need);
    push_str(&mut s, " GB)");
    assert(s@ =~= label@ + centi_text(have as nat) + " GB < "@ + centi_text(need as nat)
        + " GB)"@);
    s
}

fn upgrade_text(label: &str, amount: u64) -> (s: String)
    ensures
        s@ == label@ + centi_text(amount as nat) + " GB."@,
{
    let mut s = String::new();
    push_str(&mut s, label);
    push_centi(&mut s, amount);
    push_str(&mut s, " GB.");
    assert(s@ =~= label@ + centi_text(amount as nat) + " GB."@);
    s
}

fn cores_text(have: usize, need: usize) -> (s: String)
    ensures
        s@ == "CPU cores below minimum ("@ + decimal(have as nat) + " < "@ + decimal(need as nat)
            + ")"@,
{
    let mut s = String::new();
    push_str(&mut s, "CPU cores below minimum (");
    push_decimal(&mut s, have as u64);
    push_str(&mut s, " < ");
    push_decimal(&mut s, need as u64);
    push_str(&mut s, ")");
    assert(s@ =~= "CPU cores below minimum ("@ + decimal(have as nat) + " < "@ + decimal(
        need as nat,
    ) + ")"@);
    s
}

/// Whether `"64"` occurs in `s`.
fn mentions_64(s: &String) -> (b: bool)
    ensures
        b == contains(s@, "64"@),
{
    let chars = chars_of(s.as_str());
    let pat = chars_of("64");
    match find_chars(&chars, &pat) {
        Some(_) => true,
        None => false,
    }
}

/// Scores `hardware` against `profile`: the score, the requirements not met,
/// and the upgrades to make.
pub fn score_profile(hardware: &Hardware, profile: &OSProfile) -> (r: (i32, Vec<String>, Vec<String>))
    ensures
        r.0 == profile_score(*hardware, *profile),
        r.1.deep_view() == profile_issues(*hardware, *profile),
        r.2.deep_view() == profile_improvements(*hardware, *profile),
{
    let ghost hw = *hardware;
    let ghost p = *profile;
    let mut score: i32 = 100;
    let mut issues: Vec<String> = Vec::new();
    let mut improvements: Vec<String> = Vec::new();
    let mem = hardware.memory_centigb;
    let min_ram = profile.min_ram_centigb;
    if mem < min_ram {
        score = score - 30;
        push_text(&mut issues, below_text("RAM below minimum (", mem, min_ram));
        push_text(&mut improvements, upgrade_text("Upgrade RAM by at least ", min_ram - mem));
    } else if mem - min_ram < 200 {
        score = score - 8;
        push_text(&mut improvements, text("Add extra RAM headroom for smoother multitasking."));
    }
    let ghost issues_1 = issues.deep_view();
    let ghost improvements_1 = improvements.deep_view();
    assert(issues_1 =~= when(ram_below(hw, p), ram_issue_text(hw, p)));
    assert(improvements_1 =~= when(ram_below(hw, p), ram_upgrade_text(hw, p)) + when(
        ram_tight(hw, p),
        "Add extra RAM headroom for smoother multitasking."@,
    ));

    let storage = hardware.storage_centigb;
    let min_storage = profile.min_storage_centigb;
    if storage < min_storage {
        score = score - 25;
        push_text(&mut issues, below_text("Storage below minimum (", storage, min_storage));
        push_text(
            &mut improvements,
            upgrade_text("Increase storage capacity by at least ", min_storage - storage),
        );
    } else if storage - min_storage < 3000 {
        score = score - 5;
        push_text(
            &mut improvements,
            text("Reserve extra free storage for updates and application caches."),
        );
    }
    let ghost issues_2 = issues.deep_view();
    let ghost improvements_2 = improvements.deep_view();
    assert(issues_2 =~= issues_1 + when(storage_below(hw, p), storage_issue_text(hw, p)));
    assert(improvements_2 =~= improvements_1 + when(
        storage_below(hw, p),
        storage_upgrade_text(hw, p),
    ) + when(
        storage_tight(hw, p),
        "Reserve extra free storage for updates and application caches."@,
    ));

    if hardware.cpu_cores < profile.min_cores {
        score = score - 20;
        push_text(&mut issues, cores_text(hardware.cpu_cores, profile.min_cores));
        push_text(
            &mut improvements,
            text("Use a CPU with more cores for better responsiveness."),
        );
    }
    let ghost issues_3 = issues.deep_view();
    let ghost improvements_3 = improvements.deep_view();
    assert(issues_3 =~= issues_2 + when(cores_below(hw, p), cores_issue_text(hw, p)));
    assert(improvements_3 =~= improvements_2 + when(
        cores_below(hw, p),
        "Use a CPU with more cores for better responsiveness."@,
    ));

    let is_64bit = mentions_64(&hardware.architecture);
    if profile.requires_64bit && !is_64bit {
        score = score - 50;
        push_text(&mut issues, text("64-bit architecture required."));
        push_text(&mut improvements, text("Move to a 64-bit capable processor and firmware."));
    }
    let ghost issues_4 = issues.deep_view();
    let ghost improvements_4 = improvements.deep_view();
    assert(issues_4 =~= issues_3 + when(arch_missing(hw, p), "64-bit architecture required."@));
    assert(improvements_4 =~= improvements_3 + when(
        arch_missing(hw, p),
        "Move to a 64-bit capable processor and firmware."@,
    ));

    if profile.requires_tpm && !hardware.has_tpm {
        score = score - 20;
        push_text(&mut issues, text("TPM is required but not detected."));
        push_text(
            &mut improvements,
            text("Enable TPM 2.0 in firmware or install a TPM module."),
        );
    }
    let ghost improvements_5 = improvements.deep_view();
    assert(issues.deep_view() =~= issues_4 + when(
        tpm_missing(hw, p),
        "TPM is required but not detected."@,
    ));
    assert(improvements_5 =~= improvements_4 + when(
        tpm_missing(hw, p),
        "Enable TPM 2.0 in firmware or install a TPM module."@,
    ));

    let uefi = text("UEFI");
    if hardware.boot_mode != uefi {
        score = score - 5;
        push_text(
            &mut improvements,
            text("Switch to UEFI boot mode for broader modern OS support."),
        );
    }
    assert(improvements.deep_view() =~= improvements_5 + when(
        legacy_boot(hw),
        "Switch to UEFI boot mode for broader modern OS support."@,
    ));
    assert(improvements.deep_view() =~= upgrade_steps(hw, p));
    assert(issues.deep_view() =~= profile_issues(hw, p));

    if improvements.len() == 0 {
        push_text(
            &mut improvements,
            text("No major upgrades required; current hardware is already well-matched."),
        );
    }
    assert(improvements.deep_view() =~= profile_improvements(hw, p));
    assert(score == 100 - penalty(hw, p));
    let final_score = if score < 0 {
        0
    } else {
        score
    };
    (final_score, issues, improvements)
}

/// The category that a score falls in.
pub open spec fn category_text(score: int) -> Seq<char> {
    if score >= 85 {
        "Excellent"@
    } else if score >= 70 {
        "Good"@
    } else if score >= 50 {
        "Fair"@
    } else {
        "Low"@
    }
}

/// The category of a compatibility score.
pub fn compatibility_category(score: i32) -> (s: String)
    ensures
        s@ == category_text(score as int),
{
    if score >= 85 {
        text("Excellent")
    } else if score >= 70 {
        text("Good")
    } else if score >= 50 {
        text("Fair")
    } else {
        text("Low")
    }
}

} // verus!
