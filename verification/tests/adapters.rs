//! Adapters: addresses, memory, the lists of each system and the enumeration cache.

use xianscan_device::adapters::{
    adapter_name, classify_adapter, dxgi_adapter, enumerate_system_gpus_inner, metal_adapters,
    needs_smi_fallback, parse_amd_drm_root, DrmEntry,
};
use xianscan_device::gpu::{
    copy_gpus, enumerate_system_gpus, get_dedicated_gpu, GpuEnumCache, GpuInfo, Vram, VramByBus,
    GPU_ENUM_CACHE_TTL_NS, MB,
};
use xianscan_device::nvidia::{
    nvidia_smi_rows, nvidia_vram_rows, parse_nvidia_gpu_root, parse_nvidia_smi_fallback,
    query_nvidia_vram_by_bus, NvidiaEntry,
};
use xianscan_device::pci::normalize_pci_bus_id;

/// The reading of a tool's numeral.
fn megabytes(amount: f64) -> Vram {
    Vram::Megabytes { whole: amount as u64, bits: amount.to_bits() }
}

/// An amount as the number of megabytes that it is reported as.
fn as_mb(amount: Vram) -> f64 {
    match amount {
        Vram::Bytes(bytes) => (bytes as f64 / (1024.0 * 1024.0 * 1024.0)) * 1024.0,
        Vram::Megabytes { bits, .. } => f64::from_bits(bits),
    }
}

fn nvidia_entry(file_name: &str, information: Option<&str>) -> NvidiaEntry {
    NvidiaEntry {
        file_name: file_name.to_string(),
        information: information.map(|s| s.to_string()),
    }
}

fn drm_entry(file_name: &str, vendor: Option<&str>, vram_total: Option<&str>) -> DrmEntry {
    DrmEntry {
        file_name: file_name.to_string(),
        vendor: vendor.map(|s| s.to_string()),
        vram_total: vram_total.map(|s| s.to_string()),
    }
}

fn gpu(name: &str, dedicated: bool) -> GpuInfo {
    GpuInfo {
        device_id: 0,
        name: name.to_string(),
        vendor_id: 0x10DE,
        vram_mb: Vram::Bytes(8192 * MB),
        is_dedicated: dedicated,
        is_integrated: !dedicated,
    }
}

fn utf16(s: &str) -> Vec<u16> {
    s.encode_utf16().collect()
}

#[test]
fn parses_nvidia_gpu_information() {
    let entries = vec![nvidia_entry("0000:01:00.0", Some("Model:\t\tNVIDIA GeForce RTX 3080\n"))];
    let gpus = parse_nvidia_gpu_root(&entries, &VramByBus::new(), &vec![]);
    assert_eq!(gpus.len(), 1);
    assert_eq!(gpus[0].name, "NVIDIA GeForce RTX 3080");
    assert!(gpus[0].is_dedicated);
    assert_eq!(gpus[0].vendor_id, 0x10DE);
}

#[test]
fn returns_empty_when_no_nvidia_driver() {
    let gpus = parse_nvidia_gpu_root(&vec![], &VramByBus::new(), &vec![]);
    assert!(gpus.is_empty());
}

#[test]
fn nvidia_vram_matches_by_bus_id() {
    let entries = vec![nvidia_entry("0000:01:00.0", Some("Model: NVIDIA GeForce RTX 4090\n"))];
    let mut by_bus = VramByBus::new();
    by_bus.insert("0000:01:00.0", megabytes(24564.0));
    let gpus = parse_nvidia_gpu_root(&entries, &by_bus, &vec![]);
    assert_eq!(gpus.len(), 1);
    assert_eq!(as_mb(gpus[0].vram_mb), 24564.0);
}

#[test]
fn nvidia_vram_matches_8_hex_domain_bus_id() {
    // nvidia-smi writes eight digits of the domain, the directory carries four.
    let entries = vec![nvidia_entry("0000:01:00.0", Some("Model: NVIDIA GeForce RTX 4090\n"))];
    let mut by_bus = VramByBus::new();
    by_bus.insert("00000000:01:00.0", megabytes(24564.0));
    let gpus = parse_nvidia_gpu_root(&entries, &by_bus, &vec![]);
    assert_eq!(gpus.len(), 1);
    assert_eq!(as_mb(gpus[0].vram_mb), 24564.0);
}

#[test]
fn normalize_pci_bus_id_strips_domain_leading_zeroes() {
    assert_eq!(normalize_pci_bus_id("00000000:01:00.0"), "0:01:00.0");
    assert_eq!(normalize_pci_bus_id("0000:01:00.0"), "0:01:00.0");
    assert_eq!(normalize_pci_bus_id("0000:21:00.1"), "0:21:00.1");
}

#[test]
fn parses_amd_gpu_from_drm_root() {
    let entries = vec![drm_entry("card0", Some("0x1002\n"), Some("8589934592\n"))];
    let gpus = parse_amd_drm_root(&entries);
    assert_eq!(gpus.len(), 1);
    assert_eq!(gpus[0].vendor_id, 0x1002);
    assert!(gpus[0].is_dedicated);
    assert!(!gpus[0].is_integrated);
    // 8589934592 bytes are 8192 megabytes.
    assert!((as_mb(gpus[0].vram_mb) - 8192.0).abs() < 0.001);
    assert_eq!(gpus[0].vram_mb.whole_mb(), 8192);
}

#[test]
fn amd_apu_without_vram_is_integrated() {
    let entries = vec![drm_entry("card0", Some("0x1002\n"), Some("0\n"))];
    let gpus = parse_amd_drm_root(&entries);
    assert_eq!(gpus.len(), 1);
    assert!(!gpus[0].is_dedicated);
    assert!(gpus[0].is_integrated);
    assert_eq!(as_mb(gpus[0].vram_mb), 0.0);
}

#[test]
fn amd_drm_root_skips_non_amd_cards() {
    let entries = vec![drm_entry("card0", Some("0x10de\n"), None)];
    let gpus = parse_amd_drm_root(&entries);
    assert!(gpus.is_empty());
}

#[test]
fn bus_ids_are_keyed_by_number() {
    assert_eq!(normalize_pci_bus_id("  0000ABCD:0A:00.0 \n"), "abcd:0a:00.0");
    assert_eq!(normalize_pci_bus_id("10000:e1:00.0"), "10000:e1:00.0");
    assert_eq!(normalize_pci_bus_id("no address"), "no address");
    assert_eq!(normalize_pci_bus_id(":01:00.0"), "0:01:00.0");
    // A domain that is no number, or more than 32 bits, counts as zero.
    assert_eq!(normalize_pci_bus_id("xyz:01:00.0"), "0:01:00.0");
    assert_eq!(normalize_pci_bus_id("fffffffff:01:00.0"), "0:01:00.0");
    assert_eq!(normalize_pci_bus_id("ffffffff:01:00.0"), "ffffffff:01:00.0");
    // A key is its own key.
    assert_eq!(normalize_pci_bus_id(&normalize_pci_bus_id("00A0:01:00.0")), "a0:01:00.0");
    assert_eq!(normalize_pci_bus_id("0:"), "0:");
    assert_eq!(normalize_pci_bus_id(""), "");
}

#[test]
fn a_later_amount_replaces_an_earlier_one() {
    let mut table = VramByBus::new();
    assert_eq!(table.get("0000:01:00.0"), None);
    table.insert("0000:01:00.0", Vram::Bytes(1));
    table.insert("0000:02:00.0", Vram::Bytes(2));
    table.insert("00000000:01:00.0", Vram::Bytes(3));
    assert_eq!(table.get("0:01:00.0"), Some(Vram::Bytes(3)));
    assert_eq!(table.get("0000:02:00.0"), Some(Vram::Bytes(2)));
    assert_eq!(table.get("0000:03:00.0"), None);
}

#[test]
fn vram_rows_are_read_by_line() {
    let rows = nvidia_vram_rows("24564, 00000000:01:00.0\r\n8192 MiB, \nnonsense\n\n12 , a,b");
    assert_eq!(rows.len(), 5);
    assert_eq!(rows[0].amount, "24564");
    assert_eq!(rows[0].bus_id.as_deref(), Some("00000000:01:00.0"));
    assert_eq!(rows[1].amount, "8192");
    assert_eq!(rows[1].bus_id, None);
    assert_eq!(rows[2].amount, "nonsense");
    assert_eq!(rows[2].bus_id, None);
    assert_eq!(rows[3].amount, "");
    assert_eq!(rows[4].amount, "12");
    assert_eq!(rows[4].bus_id.as_deref(), Some("a,b"));
    assert!(nvidia_vram_rows("").is_empty());
}

#[test]
fn unreadable_amounts_leave_no_trace() {
    let rows = nvidia_vram_rows("1000, 0000:01:00.0\n[N/A], 0000:02:00.0\n3000\n");
    let readings = vec![Some(megabytes(1000.0)), None, Some(megabytes(3000.0))];
    let (by_bus, ordered) = query_nvidia_vram_by_bus(&rows, &readings);
    assert_eq!(ordered, vec![megabytes(1000.0), megabytes(3000.0)]);
    assert_eq!(by_bus.get("00000000:01:00.0"), Some(megabytes(1000.0)));
    assert_eq!(by_bus.get("0000:02:00.0"), None);
}

#[test]
fn memory_is_matched_by_address_before_position() {
    let entries = vec![
        nvidia_entry("0000:02:00.0", Some("Model: B\n")),
        nvidia_entry("0000:03:00.0", None),
        nvidia_entry("0000:01:00.0", Some("IRQ: 1\nModel: A\nModel: C\n")),
        nvidia_entry("0000:09:00.0", Some("no model here")),
        nvidia_entry("0000:08:00.0", Some("Model:   \n")),
    ];
    let rows = nvidia_vram_rows("100, 0000:01:00.0\n200, 0000:02:00.0\n300, 0000:07:00.0");
    let readings =
        vec![Some(megabytes(100.0)), Some(megabytes(200.0)), Some(megabytes(300.0))];
    let (by_bus, ordered) = query_nvidia_vram_by_bus(&rows, &readings);
    let gpus = parse_nvidia_gpu_root(&entries, &by_bus, &ordered);
    assert_eq!(gpus.len(), 4);
    assert_eq!((gpus[0].name.as_str(), gpus[0].device_id), ("B", 0));
    assert_eq!(gpus[0].vram_mb, megabytes(200.0));
    assert_eq!((gpus[1].name.as_str(), gpus[1].device_id), ("A", 2));
    assert_eq!(gpus[1].vram_mb, megabytes(100.0));
    // No address matches: the third adapter takes the third amount.
    assert_eq!((gpus[2].name.as_str(), gpus[2].device_id), ("NVIDIA GPU", 3));
    assert_eq!(gpus[2].vram_mb, megabytes(300.0));
    // And the fourth has none left.
    assert_eq!((gpus[3].name.as_str(), gpus[3].device_id), ("NVIDIA GPU", 4));
    assert_eq!(gpus[3].vram_mb, Vram::Bytes(0));
    assert!(gpus.iter().all(|g| g.is_dedicated && !g.is_integrated && g.vendor_id == 0x10DE));
}

#[test]
fn smi_names_adapters_where_the_driver_lists_none() {
    let rows = nvidia_smi_rows("Tesla T4, 15360, 00000000:00:1E.0\n , 1, x\nA10G\n");
    assert_eq!(rows.len(), 2);
    assert_eq!(rows[0].amount.as_deref(), Some("15360"));
    assert_eq!(rows[1].amount, None);
    let gpus = parse_nvidia_smi_fallback(&rows, &vec![Some(megabytes(15360.0)), None]);
    assert_eq!(gpus.len(), 2);
    assert_eq!((gpus[0].name.as_str(), gpus[0].device_id), ("Tesla T4", 0));
    assert_eq!(gpus[0].vram_mb.whole_mb(), 15360);
    assert_eq!((gpus[1].name.as_str(), gpus[1].device_id), ("A10G", 2));
    assert_eq!(gpus[1].vram_mb, Vram::Bytes(0));
    assert!(gpus[1].is_dedicated);
}

#[test]
fn drm_entries_are_read_leniently() {
    let entries = vec![
        drm_entry("renderD128", Some("0x1002"), Some("1")),
        drm_entry("card1", None, Some("1")),
        drm_entry("card2", Some("zz"), Some("1")),
        drm_entry("card3", Some(" 1002 "), None),
        drm_entry("card4-DP-1", Some("0x0x1002"), Some("not a number")),
        drm_entry("card5", Some("0x1002"), Some("18446744073709551616")),
        drm_entry("card6", Some("0x1002"), Some("+1048576")),
        drm_entry("card7", Some("0x100001002"), Some("1")),
    ];
    let gpus = parse_amd_drm_root(&entries);
    let ids: Vec<u32> = gpus.iter().map(|g| g.device_id).collect();
    assert_eq!(ids, vec![3, 4, 5, 6]);
    assert!(gpus[0].is_integrated && gpus[1].is_integrated && gpus[2].is_integrated);
    assert!(gpus[3].is_dedicated);
    assert_eq!(gpus[3].vram_mb, Vram::Bytes(MB));
    assert!(gpus.iter().all(|g| g.name == "AMD Radeon GPU"));
}

#[test]
fn adapters_are_classified_by_name_and_memory() {
    let mb = 1024 * MB;
    let of = |name: &str, bytes: u64| {
        classify_adapter(1, name, &name.to_lowercase(), 0x8086, bytes, Vram::Bytes(bytes))
    };
    assert!(of("NVIDIA GeForce GT", 0).unwrap().is_dedicated);
    assert!(of("Intel Arc A770", 0).unwrap().is_dedicated);
    assert!(of("Unknown", mb).unwrap().is_dedicated);
    assert!(of("Unknown", mb - 1).unwrap().is_integrated);
    assert!(of("Intel(R) UHD Graphics", 4 * mb).unwrap().is_integrated);
    assert!(of("AMD Radeon(TM) Graphics", 4 * mb).unwrap().is_integrated);
    assert!(of("AMD Radeon RX Vega", 0).unwrap().is_dedicated);
    assert!(of("Microsoft Basic Render Driver", 4 * mb).is_none());
    assert!(classify_adapter(0, "x", "x", 0x1414, mb, Vram::Bytes(mb)).is_none());
    let g = of("Unknown", mb).unwrap();
    assert_eq!((g.device_id, g.vendor_id, g.vram_mb), (1, 0x8086, Vram::Bytes(mb)));
}

#[test]
fn names_are_decoded_up_to_the_first_zero() {
    let mut units = utf16("  NVIDIA GeForce ");
    units.push(0);
    units.extend(utf16("leftover"));
    assert_eq!(adapter_name(&units), "NVIDIA GeForce");
    assert_eq!(adapter_name(&utf16("no zero")), "no zero");
    assert_eq!(adapter_name(&[]), "");
    // Pairs are joined, and a surrogate alone is replaced.
    let units = [0xD834, 0xDD1E, 0x006d, 0x0075, 0xD800, 0x0069, 0x0063];
    assert_eq!(adapter_name(&units), "\u{1D11E}mu\u{FFFD}ic");
    assert_eq!(adapter_name(&[0xDC00, 0xD800]), "\u{FFFD}\u{FFFD}");
    assert_eq!(adapter_name(&[0xD800, 0xD800, 0xDC00]), "\u{FFFD}\u{10000}");
}

#[test]
fn a_description_is_classified_in_any_case() {
    let g = dxgi_adapter(2, &utf16("nVidia QUADRO P400"), 0x10DE, 0, Vram::Bytes(0)).unwrap();
    assert_eq!(g.name, "nVidia QUADRO P400");
    assert!(g.is_dedicated);
    // By Unicode's rules the Kelvin sign is a capital k, which no list of names holds.
    let g = dxgi_adapter(2, &utf16("\u{212A}"), 1, 0, Vram::Bytes(0)).unwrap();
    assert!(g.is_integrated);
    assert!(dxgi_adapter(0, &utf16("Basic Render"), 1, 0, Vram::Bytes(0)).is_none());
}

#[test]
fn apple_silicon_adapters_count_as_dedicated() {
    let names = vec!["Apple M2".to_string(), "Other".to_string()];
    let gpus = metal_adapters(&names, true);
    assert_eq!(gpus.len(), 2);
    assert_eq!((gpus[1].name.as_str(), gpus[1].device_id), ("Other", 1));
    assert_eq!((gpus[0].vendor_id, gpus[0].vram_mb), (0x106B, Vram::Bytes(0)));
    assert!(gpus.iter().all(|g| g.is_dedicated && !g.is_integrated));
    assert!(metal_adapters(&names, false).iter().all(|g| g.is_integrated));
}

#[test]
fn the_lists_of_a_machine_are_put_together() {
    let names = |gpus: Vec<GpuInfo>| -> Vec<String> { gpus.into_iter().map(|g| g.name).collect() };
    let nvidia = vec![gpu("n", true)];
    assert!(!needs_smi_fallback(&nvidia));
    assert!(needs_smi_fallback(&vec![]));
    let all = enumerate_system_gpus_inner(nvidia, vec![gpu("f", true)], vec![gpu("a", false)]);
    assert_eq!(names(all), vec!["n", "a"]);
    let all = enumerate_system_gpus_inner(vec![], vec![gpu("f", true)], vec![gpu("a", false)]);
    assert_eq!(names(all), vec!["f", "a"]);
    assert!(enumerate_system_gpus_inner(vec![], vec![], vec![]).is_empty());
}

#[test]
fn the_first_dedicated_adapter_is_the_one() {
    assert!(get_dedicated_gpu(&vec![]).is_none());
    assert!(get_dedicated_gpu(&vec![gpu("i", false)]).is_none());
    let gpus = vec![gpu("i", false), gpu("a", true), gpu("b", true)];
    assert_eq!(get_dedicated_gpu(&gpus).unwrap().name, "a");
    let copy = copy_gpus(&gpus);
    assert_eq!(copy.len(), 3);
    assert_eq!(copy[2].name, "b");
}

#[test]
fn an_enumeration_lives_for_fifteen_seconds() {
    assert_eq!(GPU_ENUM_CACHE_TTL_NS, 15_000_000_000);
    let mut cache = GpuEnumCache::new();
    assert!(enumerate_system_gpus(&cache, 0).is_none());
    cache.remember(1_000, &vec![gpu("a", true)]);
    let last = 1_000 + GPU_ENUM_CACHE_TTL_NS - 1;
    assert_eq!(enumerate_system_gpus(&cache, 1_000).unwrap()[0].name, "a");
    assert_eq!(enumerate_system_gpus(&cache, last).unwrap().len(), 1);
    assert!(enumerate_system_gpus(&cache, last + 1).is_none());
    // A moment before the enumeration counts as no time at all.
    assert!(enumerate_system_gpus(&cache, 0).is_some());
    cache.remember(last + 1, &vec![]);
    assert!(enumerate_system_gpus(&cache, last + 2).unwrap().is_empty());
}

#[test]
fn amounts_are_compared_by_whole_megabytes() {
    assert_eq!(Vram::Bytes(MB - 1).whole_mb(), 0);
    assert_eq!(Vram::Bytes(3 * MB + 5).whole_mb(), 3);
    assert_eq!(megabytes(13999.9).whole_mb(), 13999);
}
