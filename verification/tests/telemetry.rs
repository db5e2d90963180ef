//! Live figures and the text functions under them.

use xianscan_device::gpu::{GpuInfo, Vram, MB};
use xianscan_device::plan::{EP_CPU, EP_CUDA};
use xianscan_device::state::{BuildInfo, DeviceState, Features, Host};
use xianscan_device::telemetry::{
    get_system_telemetry, query_linux_host_memory, query_macos_pages, query_nvidia_gpu_telemetry,
    telemetry_for_plan, Amount, EngineQueueTelemetry, GpuReading, HostMemoryTelemetry,
};
use xianscan_device::text::{
    chars_of, contains, find, lines, read_numeral, split, string_of, trim, trim_end_matches,
    trim_start_matches, words,
};

fn host(cuda: bool, gpus: Vec<GpuInfo>) -> Host {
    Host {
        features: Features { cuda, coreml: false, directml: false, openvino: false },
        device_var: None,
        cuda_limit_var: None,
        gpus,
        build: BuildInfo {
            version: String::new(),
            app_version: String::new(),
            web_build_hash: String::new(),
            web_build_time: String::new(),
        },
    }
}

fn card() -> GpuInfo {
    GpuInfo {
        device_id: 0,
        name: "Card".to_string(),
        vendor_id: 0x10DE,
        vram_mb: Vram::Bytes(8192 * MB),
        is_dedicated: true,
        is_integrated: false,
    }
}

fn memory() -> HostMemoryTelemetry<f64> {
    HostMemoryTelemetry { used_mb: 10.5, total_mb: 20.5 }
}

#[test]
fn system_telemetry_returns_valid_metrics() {
    let state = DeviceState::new();
    let now = std::time::SystemTime::now()
        .duration_since(std::time::UNIX_EPOCH)
        .map(|d| d.as_millis() as u64)
        .unwrap_or(0);
    let machine = host(false, vec![]);
    let telemetry = get_system_telemetry(&state, &machine, None, memory(), 1, 2, now);
    assert!(telemetry.cpu.cores >= 1);
    assert_eq!(telemetry.queue.active_jobs, 1);
    assert_eq!(telemetry.queue.queued_jobs, 2);
    assert!(telemetry.timestamp_ms > 0);
    assert_eq!(telemetry.timestamp_ms, now);
    assert_eq!(telemetry.cpu.cores, num_cpus::get());
    assert!(telemetry.gpu.is_none());
    assert_eq!(telemetry.host_memory.used_mb, 10.5);
    assert_eq!(telemetry.cpu.utilization_pct, None);
}

#[test]
fn a_live_reading_goes_before_the_enumeration() {
    let state = DeviceState::new();
    let machine = host(true, vec![card()]);
    let report = |reading: Option<GpuReading<f64>>| {
        get_system_telemetry(&state, &machine, reading, memory(), 0, 0, 5).gpu.unwrap()
    };
    let g = report(None);
    assert_eq!((g.name.as_str(), g.active_provider.as_str()), ("Card", EP_CUDA));
    assert_eq!(g.vram_used_mb, Amount::Enumerated(Vram::Bytes(0)));
    assert_eq!(g.vram_total_mb, Amount::Enumerated(Vram::Bytes(8192 * MB)));
    assert_eq!(g.utilization_pct, None);
    let g = report(Some(GpuReading {
        used_mb: 100.0,
        total_mb: Some(9000.0),
        utilization_pct: Some(7.0),
    }));
    assert_eq!((g.vram_used_mb, g.vram_total_mb), (Amount::Read(100.0), Amount::Read(9000.0)));
    assert_eq!(g.utilization_pct, Some(7.0));
    let g = report(Some(GpuReading { used_mb: 1.0, total_mb: None, utilization_pct: None }));
    assert_eq!(g.vram_used_mb, Amount::Read(1.0));
    assert_eq!(g.vram_total_mb, Amount::Enumerated(Vram::Bytes(8192 * MB)));
    assert_eq!(g.utilization_pct, None);
}

#[test]
fn an_empty_plan_reports_the_cpu() {
    let queue = EngineQueueTelemetry { active_jobs: 3, queued_jobs: 4 };
    let t = telemetry_for_plan(&vec![], &vec![card()], None, memory(), 6, queue, 1);
    assert_eq!(t.gpu.unwrap().active_provider, EP_CPU);
    assert_eq!(t.cpu.cores, 6);
    assert_eq!(t.queue, queue);
}

#[test]
fn smi_fields_come_from_the_first_line() {
    let f = query_nvidia_gpu_telemetry("1024, 24564, 37\n1, 2, 3\n").unwrap();
    assert_eq!((f.used.as_str(), f.total.as_str()), ("1024", "24564"));
    assert_eq!(f.utilization.as_deref(), Some("37"));
    let f = query_nvidia_gpu_telemetry(" 5 ,6").unwrap();
    assert_eq!((f.used.as_str(), f.total.as_str()), ("5", "6"));
    assert_eq!(f.utilization, None);
    assert!(query_nvidia_gpu_telemetry("").is_none());
    assert!(query_nvidia_gpu_telemetry("5\n6, 7").is_none());
    assert!(query_nvidia_gpu_telemetry("\n6, 7").is_none());
}

#[test]
fn meminfo_fields_are_found_by_key() {
    let content = "MemTotal:       32768000 kB\nMemFree: 1 kB\nMemAvailable:   16384000 kB\n";
    let f = query_linux_host_memory(content);
    assert_eq!(f.total.as_deref(), Some("32768000"));
    assert_eq!(f.available.as_deref(), Some("16384000"));
    let f = query_linux_host_memory("MemTotal: 1\nMemTotal: 2\n MemAvailable: 3\n");
    assert_eq!(f.total.as_deref(), Some("2"));
    assert_eq!(f.available, None);
    let f = query_linux_host_memory("MemTotal: 1\nMemTotal:\n");
    assert_eq!(f.total, None);
}

#[test]
fn vm_stat_fields_are_found_by_key() {
    let out = "Mach Virtual Memory Statistics: (page size of 16384 bytes)\n\
               Pages free:                                3242.\n\
               Pages active:                            123456.\n\
               Pages wired down:                         98765.\n\
               Pages occupied by compressor:              4321.\n";
    let f = query_macos_pages(out);
    assert_eq!(f.page_size.as_deref(), Some("16384"));
    assert_eq!(f.active.as_deref(), Some("123456"));
    assert_eq!(f.wired.as_deref(), Some("98765"));
    assert_eq!(f.compressed.as_deref(), Some("4321"));
    let f = query_macos_pages("page size of 4096\nPages active:\n");
    assert_eq!(f.page_size, None);
    assert_eq!(f.active.as_deref(), Some("active:"));
    assert_eq!(f.wired, None);
    assert_eq!(query_macos_pages("").page_size, None);
}

#[test]
fn text_functions_agree_with_the_standard_library() {
    let samples = [
        "",
        " ",
        "a",
        "  a b\u{3000}",
        "a\nb\r\nc\r",
        "a\r\r\n\n\nb\n",
        ",a,,b,",
        "0000:0",
        "0x0x1",
        "x MiB MiB",
        "\u{85}\u{a0}\u{200b}\u{feff}q\u{2029}\t\u{b}",
        "aaab",
        "page size of page size of ",
    ];
    let joined = |parts: Vec<&[char]>| -> Vec<String> {
        parts.iter().map(|p| string_of(p)).collect()
    };
    for s in samples {
        let c = chars_of(s);
        assert_eq!(string_of(trim(&c)), s.trim(), "{s:?}");
        assert_eq!(joined(lines(&c)), s.lines().collect::<Vec<_>>(), "{s:?}");
        assert_eq!(joined(words(&c)), s.split_whitespace().collect::<Vec<_>>(), "{s:?}");
        assert_eq!(joined(split(&c, ',')), s.split(',').collect::<Vec<_>>(), "{s:?}");
        for p in ["a", "0", "0x", " MiB", ".", "aa", "", "page size of "] {
            assert_eq!(contains(&c, p), s.contains(p), "{s:?} {p:?}");
            let at = s.find(p).map(|i| s[..i].chars().count());
            assert_eq!(find(&c, p), at, "{s:?} {p:?}");
            if !p.is_empty() {
                assert_eq!(string_of(trim_start_matches(&c, p)), s.trim_start_matches(p));
                assert_eq!(string_of(trim_end_matches(&c, p)), s.trim_end_matches(p));
            }
        }
    }
}

#[test]
fn numerals_are_read_as_the_standard_library_reads_them() {
    let samples = [
        "", "+", "-", "-0", "0", "+0", "00017", "ff", "FF", "fG", "4294967295", "4294967296",
        "18446744073709551615", "18446744073709551616", "++1", "1 ", "\u{661}",
        "999999999999999999999999999999",
    ];
    for s in samples {
        let c = chars_of(s);
        // The standard library reads a minus sign before zero nowhere for unsigned numbers.
        assert_eq!(read_numeral(&c, 10, u64::MAX), s.parse::<u64>().ok(), "{s:?}");
        assert_eq!(
            read_numeral(&c, 16, 0xffff_ffff),
            u32::from_str_radix(s, 16).ok().map(u64::from),
            "{s:?}"
        );
    }
}
