use hardware_scanner::decimal::centigb_from_byte_text;
use hardware_scanner::hardware::{
    detect_gpu, lspci_available, memory_centigb_from_kb, memtotal_kb, scan_hardware, ProbeOutputs,
};
use hardware_scanner::ranking::build_match;
use hardware_scanner::clock::Timestamp;
use hardware_scanner::report::{assemble_report, report_at};
use hardware_scanner::scoring::os_profiles;
use hardware_scanner::{compatibility_category, generate_report, recommend_os, score_profile, Hardware};

fn hardware(memory: u64, storage: u64, cores: usize, arch: &str, tpm: bool, boot: &str) -> Hardware {
    Hardware {
        cpu_model: "Example CPU".to_string(),
        cpu_cores: cores,
        memory_centigb: memory,
        storage_centigb: storage,
        architecture: arch.to_string(),
        has_tpm: tpm,
        boot_mode: boot.to_string(),
        gpu: "Example GPU".to_string(),
    }
}

#[test]
fn returns_top_four_sorted_matches() {
    let hardware = Hardware {
        cpu_model: "Example CPU".to_string(),
        cpu_cores: 8,
        memory_centigb: 1600,
        storage_centigb: 51200,
        architecture: "x86_64".to_string(),
        has_tpm: true,
        boot_mode: "UEFI".to_string(),
        gpu: "Example GPU".to_string(),
    };

    let matches = recommend_os(&hardware);

    assert_eq!(matches.len(), 4);
    let scores: Vec<i32> = matches.iter().map(|item| item.compatibility_score).collect();
    let mut sorted = scores.clone();
    sorted.sort_by(|a, b| b.cmp(a));
    assert_eq!(scores, sorted);
}

#[test]
fn missing_requirements_generate_improvements() {
    let hardware = Hardware {
        cpu_model: "Legacy CPU".to_string(),
        cpu_cores: 1,
        memory_centigb: 200,
        storage_centigb: 2000,
        architecture: "x86".to_string(),
        has_tpm: false,
        boot_mode: "Legacy BIOS".to_string(),
        gpu: "Unknown".to_string(),
    };

    let matches = recommend_os(&hardware);
    let windows_match = matches.iter().find(|item| item.os == "Windows 11").unwrap();

    assert_eq!(windows_match.compatibility_category, "Low");
    assert!(windows_match
        .improvements
        .iter()
        .any(|recommendation| recommendation.contains("TPM")));
    assert!(windows_match
        .improvements
        .iter()
        .any(|recommendation| recommendation.contains("64-bit")));
}

#[test]
fn legacy_machine_scores_zero_for_windows_with_every_message() {
    let hw = hardware(200, 2000, 1, "x86", false, "Legacy BIOS");
    let profiles = os_profiles();
    let (score, issues, improvements) = score_profile(&hw, &profiles[0]);
    assert_eq!(score, 0);
    assert_eq!(
        issues,
        vec![
            "RAM below minimum (2 GB < 4 GB)".to_string(),
            "Storage below minimum (20 GB < 64 GB)".to_string(),
            "CPU cores below minimum (1 < 2)".to_string(),
            "64-bit architecture required.".to_string(),
            "TPM is required but not detected.".to_string(),
        ]
    );
    assert_eq!(
        improvements,
        vec![
            "Upgrade RAM by at least 2 GB.".to_string(),
            "Increase storage capacity by at least 44 GB.".to_string(),
            "Use a CPU with more cores for better responsiveness.".to_string(),
            "Move to a 64-bit capable processor and firmware.".to_string(),
            "Enable TPM 2.0 in firmware or install a TPM module.".to_string(),
            "Switch to UEFI boot mode for broader modern OS support.".to_string(),
        ]
    );
}

#[test]
fn fractional_amounts_are_written_like_floats() {
    let hw = hardware(375, 2450, 2, "aarch64", false, "UEFI");
    let profiles = os_profiles();
    let (score, issues, improvements) = score_profile(&hw, &profiles[1]);
    // RAM short (-30), storage short (-25).
    assert_eq!(score, 45);
    assert_eq!(
        issues,
        vec![
            "RAM below minimum (3.75 GB < 4 GB)".to_string(),
            "Storage below minimum (24.5 GB < 25 GB)".to_string(),
        ]
    );
    assert_eq!(
        improvements,
        vec![
            "Upgrade RAM by at least 0.25 GB.".to_string(),
            "Increase storage capacity by at least 0.5 GB.".to_string(),
        ]
    );
}

#[test]
fn narrow_headroom_costs_a_little() {
    let hw = hardware(599, 9399, 2, "x86_64", true, "UEFI");
    let profiles = os_profiles();
    let (score, issues, improvements) = score_profile(&hw, &profiles[0]);
    assert_eq!(score, 100 - 8 - 5);
    assert!(issues.is_empty());
    assert_eq!(
        improvements,
        vec![
            "Add extra RAM headroom for smoother multitasking.".to_string(),
            "Reserve extra free storage for updates and application caches.".to_string(),
        ]
    );
    let hw = hardware(600, 9400, 2, "x86_64", true, "UEFI");
    let (score, _, improvements) = score_profile(&hw, &profiles[0]);
    assert_eq!(score, 100);
    assert_eq!(
        improvements,
        vec!["No major upgrades required; current hardware is already well-matched.".to_string()]
    );
}

#[test]
fn well_matched_machine_gets_full_marks_everywhere() {
    let hw = hardware(1600, 51200, 8, "x86_64", true, "UEFI");
    let matches = recommend_os(&hw);
    let names: Vec<&str> = matches.iter().map(|m| m.os.as_str()).collect();
    // Equal scores keep the catalogue order.
    assert_eq!(names, vec!["Windows 11", "Ubuntu 24.04 LTS", "Fedora Workstation 40", "Debian 12"]);
    for m in &matches {
        assert_eq!(m.compatibility_score, 100);
        assert_eq!(m.compatibility_category, "Excellent");
        assert_eq!(m.assessment, "Compatible");
        assert_eq!(m.compatibility_notes, vec!["All key minimum requirements are met.".to_string()]);
    }
    assert_eq!(matches[3].profile_notes, "Stable option that works well on lower-spec hardware.");
}

#[test]
fn ranking_puts_the_best_match_first() {
    // Without a TPM Windows loses 20 points and drops to the end.
    let hw = hardware(1600, 51200, 8, "x86_64", false, "UEFI");
    let matches = recommend_os(&hw);
    let names: Vec<&str> = matches.iter().map(|m| m.os.as_str()).collect();
    assert_eq!(names, vec!["Ubuntu 24.04 LTS", "Fedora Workstation 40", "Debian 12", "Windows 11"]);
    assert_eq!(matches[3].compatibility_score, 80);
    assert_eq!(matches[3].compatibility_category, "Good");
    assert_eq!(matches[3].assessment, "Compatible");
}

#[test]
fn weak_machine_is_flagged_with_constraints() {
    let hw = hardware(300, 1500, 1, "x86_64", false, "UEFI");
    let profiles = os_profiles();
    let m = build_match(&hw, &profiles[3]);
    // Debian: memory tight (-8), storage tight (-5).
    assert_eq!(m.compatibility_score, 87);
    let m = build_match(&hw, &profiles[2]);
    // Fedora: memory short (-30), storage short (-25), cores short (-20).
    assert_eq!(m.compatibility_score, 25);
    assert_eq!(m.assessment, "Potential compatibility constraints");
    assert_eq!(m.compatibility_category, "Low");
}

#[test]
fn categories_follow_the_thresholds() {
    assert_eq!(compatibility_category(100), "Excellent");
    assert_eq!(compatibility_category(85), "Excellent");
    assert_eq!(compatibility_category(84), "Good");
    assert_eq!(compatibility_category(70), "Good");
    assert_eq!(compatibility_category(69), "Fair");
    assert_eq!(compatibility_category(50), "Fair");
    assert_eq!(compatibility_category(49), "Low");
    assert_eq!(compatibility_category(0), "Low");
}

#[test]
fn memtotal_is_read_from_its_line() {
    let meminfo = "MemTotal:       16318480 kB\nMemFree:         1234567 kB\n";
    assert_eq!(memtotal_kb(meminfo), 16318480);
    assert_eq!(memtotal_kb("MemFree: 5 kB\r\nMemTotal:\t42 kB\r\n"), 42);
    assert_eq!(memtotal_kb("MemFree: 5 kB\n"), 0);
    assert_eq!(memtotal_kb("MemTotal: lots kB\nMemTotal: 7 kB\n"), 0);
    assert_eq!(memtotal_kb("MemTotal:\n"), 0);
    assert_eq!(memtotal_kb(""), 0);
    assert_eq!(memtotal_kb("MemTotal: +12 kB"), 12);
    assert_eq!(memtotal_kb("MemTotal: 99999999999999999999 kB"), 0);
}

#[test]
fn sizes_are_rounded_to_hundredths_of_a_gigabyte() {
    assert_eq!(memory_centigb_from_kb(0), 0);
    assert_eq!(memory_centigb_from_kb(16318480), 1556);
    assert_eq!(memory_centigb_from_kb(1048576), 100);
    assert_eq!(memory_centigb_from_kb(5243), 1);
    assert_eq!(memory_centigb_from_kb(5242), 0);
    assert_eq!(storage_of("499963174912"), 46563);
    assert_eq!(storage_of("1073741824"), 100);
    assert_eq!(memory_centigb_from_kb(u64::MAX), 1759218604441600);
}

#[test]
fn gpu_is_taken_from_the_first_display_controller() {
    let listing = "00:00.0 Host bridge: Intel Corporation Device 9b61\n\
                   00:02.0 VGA compatible controller: Intel Corporation UHD Graphics 620 (rev 02)\n\
                   01:00.0 3D controller: NVIDIA Corporation GP108M [GeForce MX250] (rev a1)\n";
    assert_eq!(
        detect_gpu("/usr/bin/lspci\n", listing),
        "Intel Corporation UHD Graphics 620 (rev 02)"
    );
    assert_eq!(
        detect_gpu("/usr/bin/lspci", "01:00.0 3D controller: NVIDIA GP108M\r\n02:00.0 Audio device: X"),
        "NVIDIA GP108M"
    );
    assert_eq!(detect_gpu("/usr/bin/lspci", "VGA compatible controller"), "VGA compatible controller");
    assert_eq!(detect_gpu("", listing), "Unknown");
    assert_eq!(detect_gpu("  \n", listing), "Unknown");
    assert_eq!(detect_gpu("/usr/bin/lspci", "00:1f.3 Audio device: Intel"), "Unknown");
    assert!(lspci_available("/usr/bin/lspci"));
    assert!(!lspci_available(" \t"));
}

fn probe() -> ProbeOutputs {
    ProbeOutputs {
        machine: "x86_64\n".to_string(),
        cpu_model_name: "  Intel(R) Core(TM) i7-8565U CPU @ 1.80GHz\n".to_string(),
        meminfo: "MemTotal:       16318480 kB\nMemFree: 1 kB\n".to_string(),
        root_fs_bytes: "499963174912\n".to_string(),
        parallelism: 8,
        tpm_device: true,
        efi_firmware: true,
        lspci_lookup: "/usr/bin/lspci\n".to_string(),
        lspci_listing: "00:02.0 VGA compatible controller: Intel UHD 620\n".to_string(),
    }
}

#[test]
fn scan_summarises_the_probe() {
    let hw = scan_hardware(&probe());
    assert_eq!(hw.cpu_model, "Intel(R) Core(TM) i7-8565U CPU @ 1.80GHz");
    assert_eq!(hw.cpu_cores, 8);
    assert_eq!(hw.memory_centigb, 1556);
    assert_eq!(hw.storage_centigb, 46563);
    assert_eq!(hw.architecture, "x86_64");
    assert!(hw.has_tpm);
    assert_eq!(hw.boot_mode, "UEFI");
    assert_eq!(hw.gpu, "Intel UHD 620");
}

#[test]
fn scan_falls_back_when_probes_fail() {
    let p = ProbeOutputs {
        machine: String::new(),
        cpu_model_name: " \n".to_string(),
        meminfo: String::new(),
        root_fs_bytes: "not a number".to_string(),
        parallelism: 0,
        tpm_device: false,
        efi_firmware: false,
        lspci_lookup: String::new(),
        lspci_listing: String::new(),
    };
    let hw = scan_hardware(&p);
    assert_eq!(hw.cpu_model, "Unknown");
    assert_eq!(hw.cpu_cores, 1);
    assert_eq!(hw.memory_centigb, 0);
    assert_eq!(hw.storage_centigb, 0);
    assert_eq!(hw.architecture, "Unknown");
    assert!(!hw.has_tpm);
    assert_eq!(hw.boot_mode, "Legacy BIOS");
    assert_eq!(hw.gpu, "Unknown");
}

#[test]
fn report_carries_the_scan_and_its_ranking() {
    let hw = hardware(1600, 51200, 8, "x86_64", true, "UEFI");
    let report = assemble_report("2024-01-01T00:00:00+00:00".to_string(), hw);
    assert_eq!(report.scanned_at, "2024-01-01T00:00:00+00:00");
    assert_eq!(report.os_matches.len(), 4);
    assert_eq!(report.hardware.memory_centigb, 1600);

    let generated = generate_report(&probe()).expect("the clock can be written down");
    assert_eq!(generated.os_matches.len(), 4);
    assert_eq!(generated.hardware.gpu, "Intel UHD 620");
    assert!(generated.scanned_at.ends_with("+00:00"));
}

#[test]
fn report_is_stamped_with_the_given_time() {
    let rep = report_at(&probe(), Timestamp { secs: 86_400, nanos: 0 }).unwrap();
    assert_eq!(rep.scanned_at, "1970-01-02T00:00:00+00:00");
    assert_eq!(rep.os_matches.len(), 4);
    assert_eq!(rep.hardware.cpu_cores, 8);
    assert!(report_at(&probe(), Timestamp { secs: i64::MAX, nanos: 0 }).is_none());
}

fn storage_of(text: &str) -> u64 {
    centigb_from_byte_text(&text.chars().collect())
}

#[test]
fn byte_counts_in_float_notation_are_read() {
    assert_eq!(storage_of("5e11"), 46566);
    assert_eq!(storage_of("5E11"), 46566);
    assert_eq!(storage_of("5e+11"), 46566);
    assert_eq!(storage_of("+1073741824"), 100);
    assert_eq!(storage_of("1073741824.5"), 100);
    assert_eq!(storage_of("1073741824."), 100);
    assert_eq!(storage_of(".5e9"), 47);
    assert_eq!(storage_of("1.e10"), 931);
    assert_eq!(storage_of("5368709.12e2"), 50);
    assert_eq!(storage_of("2.68435456E8"), 25);
    assert_eq!(storage_of("536870912000e-3"), 50);
    assert_eq!(storage_of("512.5"), 0);
    assert_eq!(storage_of("0.0000"), 0);
    assert_eq!(storage_of("0e999999999999999999999"), 0);
}

#[test]
fn byte_counts_round_half_up() {
    assert_eq!(storage_of("5368709.12"), 1);
    assert_eq!(storage_of("5368709.11"), 0);
    assert_eq!(storage_of("16106127.36"), 2);
}

#[test]
fn byte_counts_that_are_no_size_give_zero() {
    assert_eq!(storage_of(""), 0);
    assert_eq!(storage_of("."), 0);
    assert_eq!(storage_of("1e"), 0);
    assert_eq!(storage_of("e5"), 0);
    assert_eq!(storage_of("1.2.3"), 0);
    assert_eq!(storage_of("-3"), 0);
    assert_eq!(storage_of("inf"), 0);
    assert_eq!(storage_of("NaN"), 0);
    assert_eq!(storage_of("12 GB"), 0);
    assert_eq!(storage_of("1e-400"), 0);
    assert_eq!(storage_of("1e30"), 0);
    assert_eq!(storage_of("1e99999999999999999999999"), 0);
}

#[test]
fn scan_reads_a_float_root_size() {
    let probe = ProbeOutputs {
        cpu_model_name: "CPU".to_string(),
        parallelism: 4,
        meminfo: "MemTotal: 1048576 kB\n".to_string(),
        root_fs_bytes: " 5e11\n".to_string(),
        machine: "x86_64".to_string(),
        tpm_device: false,
        efi_firmware: true,
        lspci_lookup: String::new(),
        lspci_listing: String::new(),
    };
    let hw = scan_hardware(&probe);
    assert_eq!(hw.storage_centigb, 46566);
    assert_eq!(hw.memory_centigb, 100);
}
