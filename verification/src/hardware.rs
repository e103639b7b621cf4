//! Turning what the machine reports about itself into a `Hardware` summary.
//!
//! The probes themselves (running `uname`, `df`, `lspci`, reading
//! `/proc/meminfo`, looking for device files) happen outside the library;
//! their raw outputs arrive here as `ProbeOutputs`.
use vstd::prelude::*;
use crate::decimal::{centigb_from_byte_text, centigb_of_byte_text};
use crate::scoring::Hardware;
use crate::text::{
    chars_of, contains, find, find_chars, lines, parse_u64, parse_u64_chars, split_lines,
    split_words, starts_with, starts_with_chars, string_of, sub_chars, text, trim, trim_chars,
    words,
};

verus! {

/// The raw results of probing a machine.
pub struct ProbeOutputs {
    /// Standard output of `uname -m`; empty when it failed.
    pub machine: String,
    /// Standard output of the `model name` lookup in `/proc/cpuinfo`; empty when it failed.
    pub cpu_model_name: String,
    /// Contents of `/proc/meminfo`; empty when it could not be read.
    pub meminfo: String,
    /// Standard output of the `df` lookup of the root file system's size in bytes.
    pub root_fs_bytes: String,
    /// The available parallelism that the system reports (never 0), or 0
    /// when it reports none.
    pub parallelism: usize,
    /// Whether `/dev/tpm0` exists.
    pub tpm_device: bool,
    /// Whether `/sys/firmware/efi` exists.
    pub efi_firmware: bool,
    /// Standard output of `command -v lspci`; empty when it failed.
    pub lspci_lookup: String,
    /// Standard output of `lspci`; empty when it failed or was not run.
    pub lspci_listing: String,
}

/// The first line that starts with `prefix`.
pub open spec fn first_line_starting(ls: Seq<Seq<char>>, prefix: Seq<char>) -> Option<Seq<char>>
    decreases ls.len(),
{
    if ls.len() == 0 {
        None
    } else if starts_with(ls[0], prefix) {
        Some(ls[0])
    } else {
        first_line_starting(ls.drop_first(), prefix)
    }
}

/// The total memory in kilobytes that a `/proc/meminfo` text reports: the
/// second word of its first `MemTotal:` line, or 0 when there is none or it
/// is not a number.
pub open spec fn memtotal_value(content: Seq<char>) -> u64 {
    match first_line_starting(lines(content), "MemTotal:"@) {
        Some(l) => if words(l).len() >= 2 {
            match parse_u64(words(l)[1]) {
                Some(v) => v,
                None => 0,
            }
        } else {
            0
        },
        None => 0,
    }
}

pub open spec fn is_gpu_line(l: Seq<char>) -> bool {
    contains(l, "VGA compatible controller"@) || contains(l, "3D controller"@)
}

/// The first line that names a display controller.
pub open spec fn first_gpu_line(ls: Seq<Seq<char>>) -> Option<Seq<char>>
    decreases ls.len(),
{
    if ls.len() == 0 {
        None
    } else if is_gpu_line(ls[0]) {
        Some(ls[0])
    } else {
        first_gpu_line(ls.drop_first())
    }
}

/// What follows the first `": "` of an `lspci` line, or the whole line.
pub open spec fn gpu_name(l: Seq<char>) -> Seq<char> {
    match find(l, ": "@) {
        Some(k) => l.subrange(k + 2, l.len() as int),
        None => l,
    }
}

/// The display controller that the `lspci` outputs name, or `"Unknown"`.
pub open spec fn gpu_text(lookup: Seq<char>, listing: Seq<char>) -> Seq<char> {
    if trim(lookup).len() == 0 {
        "Unknown"@
    } else {
        match first_gpu_line(lines(trim(listing))) {
            Some(l) => gpu_name(l),
            None => "Unknown"@,
        }
    }
}

/// A probe's trimmed output, or `"Unknown"` when nothing is left.
pub open spec fn known_or_unknown(raw: Seq<char>) -> Seq<char> {
    if trim(raw).len() == 0 {
        "Unknown"@
    } else {
        trim(raw)
    }
}

/// Kilobytes in hundredths of a gigabyte (2^20 kilobytes), rounded to the
/// nearest, halves up.
pub open spec fn centigb_of_kb(kb: nat) -> nat {
    (kb * 100 + 524288) / 1048576
}

/// The size of the root file system that the `df` output gives, in
/// hundredths of a gigabyte, or 0 where it writes no such size.
pub open spec fn storage_value(raw: Seq<char>) -> nat {
    centigb_of_byte_text(trim(raw))
}

/// The summary that `scan_hardware` makes of `probe`.
pub open spec fn scanned(probe: ProbeOutputs, hw: Hardware) -> bool {
    &&& hw.cpu_model@ == known_or_unknown(probe.cpu_model_name@)
    &&& hw.cpu_cores == if probe.parallelism == 0 {
        1
    } else {
        probe.parallelism
    }
    &&& hw.memory_centigb == centigb_of_kb(memtotal_value(probe.meminfo@) as nat)
    &&& hw.storage_centigb == storage_value(probe.root_fs_bytes@)
    &&& hw.architecture@ == known_or_unknown(probe.machine@)
    &&& hw.has_tpm == probe.tpm_device
    &&& hw.boot_mode@ == (if probe.efi_firmware {
        "UEFI"@
    } else {
        "Legacy BIOS"@
    })
    &&& hw.gpu@ == gpu_text(probe.lspci_lookup@, probe.lspci_listing@)
}

/// The total memory in kilobytes that a `/proc/meminfo` text reports.
pub fn memtotal_kb(content: &str) -> (kb: u64)
    ensures
        kb == memtotal_value(content@),
{
    let chars = chars_of(content);
    let ls = split_lines(&chars);
    let prefix = chars_of("MemTotal:");
    let ghost all = ls.deep_view();
    let n = ls.len();
    let mut i: usize = 0;
    assert(all.subrange(0, n as int) =~= all);
    while i < n
        invariant
            n == all.len(),
            all == ls.deep_view(),
            all == lines(content@),
            prefix@ == "MemTotal:"@,
            i <= n,
            first_line_starting(all, prefix@) == first_line_starting(
                all.subrange(i as int, n as int),
                prefix@,
            ),
        decreases n - i,
    {
        assert(all.subrange(i as int, n as int).drop_first() =~= all.subrange(i + 1, n as int));
        assert(all.subrange(i as int, n as int)[0] == ls[i as int]@);
        if starts_with_chars(&ls[i], &prefix) {
            let ws = split_words(&ls[i]);
            if ws.len() >= 2 {
                proof {
                    crate::text::lemma_deep_chars(ws@[1]);
                }
                return match parse_u64_chars(&ws[1]) {
                    Some(v) => v,
                    None => 0,
                };
            }
            return 0;
        }
        i = i + 1;
    }
    0
}

/// Whether `command -v lspci` found the tool.
pub fn lspci_available(lookup: &str) -> (b: bool)
    ensures
        b == (trim(lookup@).len() > 0),
{
    let chars = chars_of(lookup);
    let t = trim_chars(&chars);
    t.len() > 0
}

fn is_gpu_line_exec(l: &Vec<char>) -> (b: bool)
    ensures
        b == is_gpu_line(l@),
{
    let vga = chars_of("VGA compatible controller");
    let three_d = chars_of("3D controller");
    find_chars(l, &vga).is_some() || find_chars(l, &three_d).is_some()
}

/// The display controller that `lspci` names: what follows `": "` on the
/// first line naming a VGA or 3D controller, or `"Unknown"` when `lspci` is
/// missing or names none.
pub fn detect_gpu(lspci_lookup: &str, lspci_listing: &str) -> (gpu: String)
    ensures
        gpu@ == gpu_text(lspci_lookup@, lspci_listing@),
{
    if !lspci_available(lspci_lookup) {
        return text("Unknown");
    }
    let raw = chars_of(lspci_listing);
    let listing = trim_chars(&raw);
    let ls = split_lines(&listing);
    let ghost all = ls.deep_view();
    let n = ls.len();
    let sep = chars_of(": ");
    let mut i: usize = 0;
    assert(all.subrange(0, n as int) =~= all);
    while i < n
        invariant
            n == all.len(),
            all == ls.deep_view(),
            all == lines(trim(lspci_listing@)),
            sep@ == ": "@,
            trim(lspci_lookup@).len() > 0,
            i <= n,
            first_gpu_line(all) == first_gpu_line(all.subrange(i as int, n as int)),
        decreases n - i,
    {
        assert(all.subrange(i as int, n as int).drop_first() =~= all.subrange(i + 1, n as int));
        assert(all.subrange(i as int, n as int)[0] == ls[i as int]@);
        let line = &ls[i];
        if is_gpu_line_exec(line) {
            proof {
                reveal_strlit(": ");
            }
            let name = match find_chars(line, &sep) {
                Some(k) => {
                    let len = line.len();
                    assert(k + 2 <= len);
                    sub_chars(line, k + 2, len)
                },
                None => sub_chars(line, 0, line.len()),
            };
            assert(line@.subrange(0, line.len() as int) =~= line@);
            return string_of(&name);
        }
        i = i + 1;
    }
    text("Unknown")
}

/// A probe's trimmed output, or `"Unknown"`.
pub fn known_or_unknown_text(raw: &str) -> (s: String)
    ensures
        s@ == known_or_unknown(raw@),
{
    let chars = chars_of(raw);
    let t = trim_chars(&chars);
    if t.len() == 0 {
        text("Unknown")
    } else {
        string_of(&t)
    }
}

/// Kilobytes in hundredths of a gigabyte.
pub fn memory_centigb_from_kb(kb: u64) -> (c: u64)
    ensures
        c == centigb_of_kb(kb as nat),
{
    let x: u128 = (kb as u128) * 100 + 524288;
    assert(x / 1048576 <= u64::MAX) by (nonlinear_arith)
        requires
            x <= 0xffff_ffff_ffff_ffff * 100 + 524288,
    ;
    (x / 1048576) as u64
}

/// The summary of a probed machine.
pub fn scan_hardware(probe: &ProbeOutputs) -> (hw: Hardware)
    ensures
        scanned(*probe, hw),
{
    let cpu_model = known_or_unknown_text(probe.cpu_model_name.as_str());
    let cpu_cores = if probe.parallelism == 0 {
        1
    } else {
        probe.parallelism
    };
    let kb = memtotal_kb(probe.meminfo.as_str());
    let memory_centigb = memory_centigb_from_kb(kb);
    let df = chars_of(probe.root_fs_bytes.as_str());
    let df_trimmed = trim_chars(&df);
    let storage_centigb = centigb_from_byte_text(&df_trimmed);
    let architecture = known_or_unknown_text(probe.machine.as_str());
    let boot_mode = if probe.efi_firmware {
        text("UEFI")
    } else {
        text("Legacy BIOS")
    };
    let gpu = detect_gpu(probe.lspci_lookup.as_str(), probe.lspci_listing.as_str());
    Hardware {
        cpu_model,
        cpu_cores,
        memory_centigb,
        storage_centigb,
        architecture,
        has_tpm: probe.tpm_device,
        boot_mode,
        gpu,
    }
}

} // verus!
