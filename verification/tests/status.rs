//! The hardware status, the settings that change it, and the limits.

use xianscan_device::gpu::{GpuInfo, Vram, MB};
use xianscan_device::limits::{
    adaptive_limit, classify_model, cuda_limit_fits, get_cuda_gpu_memory_limit,
    get_cuda_memory_limit_for_model, get_optimal_cpu_threads, get_optimal_gpu_host_threads,
    threads_for, ModelClass,
};
use xianscan_device::plan::{EP_CPU, EP_CUDA, EP_DIRECTML, EP_OPENVINO};
use xianscan_device::settings::{
    apply_setting, device_to_apply, limit_to_apply, load_persisted_hardware_settings,
    request_device, request_limit, set_active_provider, set_cuda_memory_limit_override,
    AppliedSetting,
};
use xianscan_device::state::{BuildInfo, DeviceState, Features, Host};
use xianscan_device::status::{
    gather_inputs, get_hardware_status, gpu_warning, probe_hardware, status_for_plan,
};

const NO_FEATURES: Features =
    Features { cuda: false, coreml: false, directml: false, openvino: false };
const ALL_FEATURES: Features =
    Features { cuda: true, coreml: true, directml: true, openvino: true };

fn gpu(name: &str, vendor_id: u32, mb: u64) -> GpuInfo {
    GpuInfo {
        device_id: 0,
        name: name.to_string(),
        vendor_id,
        vram_mb: Vram::Bytes(mb * MB),
        is_dedicated: mb > 0,
        is_integrated: mb == 0,
    }
}

fn host(features: Features, gpus: Vec<GpuInfo>) -> Host {
    Host {
        features,
        device_var: None,
        cuda_limit_var: None,
        gpus,
        build: BuildInfo {
            version: "1.2.3".to_string(),
            app_version: "4.5".to_string(),
            web_build_hash: "abc".to_string(),
            web_build_time: "noon".to_string(),
        },
    }
}

fn rows(list: &[(&str, &str)]) -> Vec<(String, String)> {
    list.iter().map(|(k, v)| (k.to_string(), v.to_string())).collect()
}

#[test]
fn amd_gpu_present_but_cpu_active_emits_warning() {
    let mut state = DeviceState::new();
    let machine = host(NO_FEATURES, vec![gpu("AMD Radeon GPU", 0x1002, 8192)]);
    let status = set_active_provider(&mut state, &machine, "cpu");
    let has_amd = status
        .detected_gpus
        .iter()
        .any(|g| g.vendor_id == 0x1002 && g.is_dedicated);
    if has_amd {
        assert!(status.gpu_warning.is_some());
        let warning = status.gpu_warning.as_deref().unwrap_or_default();
        assert!(warning.contains("AMD"), "expected AMD in warning, got: {}", warning);
    }
    assert!(has_amd);
    let _ = set_active_provider(&mut state, &machine, "auto");
    assert_eq!(state.override_device, None);
}

#[test]
fn hardware_status_derives_available_providers_from_providers() {
    for features in [NO_FEATURES, ALL_FEATURES] {
        for gpus in [vec![], vec![gpu("Card", 0x10DE, 8192)]] {
            let status = get_hardware_status(&DeviceState::new(), &host(features, gpus));
            assert_eq!(status.available_providers, status.providers);
            assert!(!status.available_providers.is_empty());
            assert_eq!(
                status.active_provider,
                status.providers.first().cloned().unwrap_or_default()
            );
        }
    }
}

#[test]
fn hardware_status_directml_raw_tracks_feature_and_dedicated_gpu() {
    for directml in [false, true] {
        for gpus in [vec![], vec![gpu("Card", 0x10DE, 8192)], vec![gpu("Chip", 0x8086, 0)]] {
            let features = Features { directml, ..NO_FEATURES };
            let status = get_hardware_status(&DeviceState::new(), &host(features, gpus));
            assert_eq!(status.has_directml_raw, directml && status.has_dedicated_gpu);
        }
    }
}

#[test]
fn cuda_memory_limit_scales_dynamically_and_honors_env() {
    let mut state = DeviceState::new();
    let mut machine = host(NO_FEATURES, vec![]);
    let _ = set_cuda_memory_limit_override(&mut state, &machine, None);

    // 1. The default limit is 2 GB at least.
    let default_limit = get_cuda_gpu_memory_limit(&state, &machine);
    assert!(
        default_limit >= 2 * 1024 * 1024 * 1024,
        "Default CUDA memory limit must be at least 2GB for RF-DETR 2XL, got: {} bytes",
        default_limit
    );

    // 2. The limit depends on the model.
    let det_limit = get_cuda_memory_limit_for_model(&state, &machine, "rfdetr-seg-2xlarge");
    let lama_limit = get_cuda_memory_limit_for_model(&state, &machine, "lama");
    let ocr_rec_limit = get_cuda_memory_limit_for_model(&state, &machine, "rapid_ocr_rec");
    let ocr_det_limit = get_cuda_memory_limit_for_model(&state, &machine, "rapid_ocr_det");

    assert!(det_limit >= 2 * 1024 * 1024 * 1024);
    assert!(lama_limit >= 1536 * 1024 * 1024);
    assert!(ocr_rec_limit <= 1024 * 1024 * 1024);
    assert!(ocr_det_limit <= 1024 * 1024 * 1024);

    let total_combined = det_limit + lama_limit + ocr_rec_limit + ocr_det_limit;
    assert!(total_combined <= 9 * 1024 * 1024 * 1024);

    // 3. The variable ORT_CUDA_MEM_LIMIT_MB is honoured.
    machine.cuda_limit_var = Some("10240".to_string());
    let env_limit = get_cuda_gpu_memory_limit(&state, &machine);
    assert_eq!(env_limit, 10240 * 1024 * 1024);

    // 4. A limit set at run time overrules the variable.
    let status = set_cuda_memory_limit_override(&mut state, &machine, Some(12288));
    assert_eq!(status.configured_cuda_vram_limit_mb, Some(12288));
    assert_eq!(status.cuda_vram_limit_mb, Some(12288));
    assert_eq!(get_cuda_gpu_memory_limit(&state, &machine), 12288 * 1024 * 1024);

    // 5. Taking it back restores the adaptive limit.
    machine.cuda_limit_var = None;
    let reset_status = set_cuda_memory_limit_override(&mut state, &machine, None);
    assert_eq!(reset_status.configured_cuda_vram_limit_mb, None);
    assert!(reset_status.cuda_vram_limit_mb.unwrap_or(0) >= 2048);
}

#[test]
fn limits_follow_class_and_memory() {
    let table = [
        (ModelClass::Detector, 2048, 3072, 8192),
        (ModelClass::Inpainter, 1536, 2048, 4096),
        (ModelClass::Ocr, 512, 512, 1024),
    ];
    for (class, small, middle, large) in table {
        assert_eq!(adaptive_limit(class, 0), small);
        assert_eq!(adaptive_limit(class, 6999), small);
        assert_eq!(adaptive_limit(class, 7000), middle);
        assert_eq!(adaptive_limit(class, 13999), middle);
        assert_eq!(adaptive_limit(class, 14000), large);
        assert_eq!(adaptive_limit(class, u64::MAX), large);
    }
}

#[test]
fn models_are_classified_by_tag() {
    assert_eq!(classify_model("RFDETR"), ModelClass::Detector);
    assert_eq!(classify_model("rfdetr_ocr"), ModelClass::Detector);
    assert_eq!(classify_model("text-Detector"), ModelClass::Detector);
    assert_eq!(classify_model("rapid_ocr_det"), ModelClass::Ocr);
    assert_eq!(classify_model("LaMa"), ModelClass::Inpainter);
    assert_eq!(classify_model("inpaint-v2"), ModelClass::Inpainter);
    assert_eq!(classify_model("lama_det"), ModelClass::Detector);
    assert_eq!(classify_model(""), ModelClass::Ocr);
}

#[test]
fn the_limit_goes_by_the_dedicated_adapter() {
    let state = DeviceState::new();
    let big = host(NO_FEATURES, vec![gpu("Chip", 0x8086, 0), gpu("Card", 0x10DE, 16384)]);
    assert_eq!(get_cuda_gpu_memory_limit(&state, &big), 8192 * MB);
    let small = host(NO_FEATURES, vec![gpu("Card", 0x10DE, 4096)]);
    assert_eq!(get_cuda_gpu_memory_limit(&state, &small), 2048 * MB);
    // Without a dedicated adapter 8192 megabytes are taken for granted.
    let none = host(NO_FEATURES, vec![gpu("Chip", 0x8086, 0)]);
    assert_eq!(get_cuda_gpu_memory_limit(&state, &none), 3072 * MB);
}

#[test]
fn a_variable_counts_only_as_a_positive_number() {
    let state = DeviceState::new();
    let mut machine = host(NO_FEATURES, vec![]);
    for value in ["", "0", "-1", " 5", "5 ", "1e3", "+", "99999999999999999999"] {
        machine.cuda_limit_var = Some(value.to_string());
        assert_eq!(get_cuda_gpu_memory_limit(&state, &machine), 3072 * MB, "value {value:?}");
    }
    machine.cuda_limit_var = Some("+7".to_string());
    assert_eq!(get_cuda_gpu_memory_limit(&state, &machine), 7 * MB);
}

#[test]
fn a_limit_must_be_countable_in_bytes() {
    let mut state = DeviceState::new();
    let mut machine = host(NO_FEATURES, vec![]);
    assert!(cuda_limit_fits(&state, &machine));
    let most = u64::MAX / MB;
    request_limit(&mut state, Some(most));
    assert!(cuda_limit_fits(&state, &machine));
    assert_eq!(get_cuda_gpu_memory_limit(&state, &machine), most * MB);
    request_limit(&mut state, Some(most + 1));
    assert!(!cuda_limit_fits(&state, &machine));
    request_limit(&mut state, Some(0));
    assert_eq!(state.override_cuda_mem_limit_mb, None);
    machine.cuda_limit_var = Some("18446744073709551615".to_string());
    assert!(!cuda_limit_fits(&state, &machine));
}

#[test]
fn threads_are_bounded() {
    assert_eq!(threads_for(&None, 3, 8), 3);
    assert_eq!(threads_for(&None, 64, 8), 8);
    assert_eq!(threads_for(&None, 0, 8), 1);
    assert_eq!(threads_for(&Some("12".to_string()), 3, 8), 12);
    assert_eq!(threads_for(&Some("0".to_string()), 3, 8), 3);
    assert_eq!(threads_for(&Some("many".to_string()), 3, 8), 3);
    assert_eq!(get_optimal_cpu_threads(&Some("3".to_string())), 3);
    assert_eq!(get_optimal_gpu_host_threads(&Some("5".to_string())), 5);
    // The count of CPUs comes from the machine.
    assert_eq!(get_optimal_cpu_threads(&None), num_cpus::get().min(8).max(1));
    assert_eq!(get_optimal_gpu_host_threads(&None), num_cpus::get().min(4).max(1));
}

#[test]
fn the_setting_goes_before_the_variable() {
    let mut state = DeviceState::new();
    let mut machine = host(ALL_FEATURES, vec![gpu("Card", 0x10DE, 8192)]);
    assert_eq!(probe_hardware(&state, &machine).0, vec![EP_CUDA, EP_CPU]);
    machine.device_var = Some("OpenVINO".to_string());
    assert_eq!(probe_hardware(&state, &machine).0, vec![EP_OPENVINO, EP_CPU]);
    state.override_device = Some("Cpu".to_string());
    assert_eq!(
        probe_hardware(&state, &machine),
        (vec![EP_CPU.to_string()], "CPU Multi-threaded".to_string())
    );
    // The Kelvin sign is a capital k by Unicode's rules; it makes no known device.
    state.override_device = Some("\u{212A}".to_string());
    assert_eq!(probe_hardware(&state, &machine).0, vec![EP_CUDA, EP_CPU]);
}

#[test]
fn inputs_are_gathered_from_features_and_failures() {
    let mut state = DeviceState::new();
    let machine = host(ALL_FEATURES, vec![gpu("Card", 0x10DE, 8192)]);
    let i = gather_inputs(&state, &machine, "x".to_string());
    assert!(i.cuda_usable && i.coreml_usable && i.openvino_usable && i.dml_compiled);
    assert_eq!(i.dedicated_gpu_name.as_deref(), Some("Card"));
    assert_eq!(i.env_override, "x");
    state.cuda_runtime_failed = true;
    state.coreml_runtime_failed = true;
    state.openvino_runtime_failed = true;
    let i = gather_inputs(&state, &machine, String::new());
    assert!(!i.cuda_usable && !i.coreml_usable && !i.openvino_usable && i.dml_compiled);
}

#[test]
fn a_status_tells_all() {
    let state = DeviceState::new();
    let machine = host(ALL_FEATURES, vec![gpu("Card", 0x10DE, 8192)]);
    let s = get_hardware_status(&state, &machine);
    assert_eq!(s.device_label, "CUDA Dedicated GPU (Card)");
    assert_eq!(s.active_provider, EP_CUDA);
    assert_eq!(s.providers, vec![EP_CUDA, EP_CPU]);
    assert!(s.has_cuda && s.has_coreml && s.has_directml_raw && s.has_dedicated_gpu);
    assert!(!s.has_directml && !s.reloading);
    assert_eq!(s.detected_gpus.len(), 1);
    assert_eq!(s.gpu_warning, None);
    assert_eq!(s.cuda_vram_limit_mb, Some(3072));
    assert_eq!(s.configured_cuda_vram_limit_mb, None);
    assert_eq!((s.version.as_str(), s.app_version.as_str()), ("1.2.3", "4.5"));
    assert_eq!((s.web_build_hash.as_str(), s.web_build_time.as_str()), ("abc", "noon"));
    let s = status_for_plan(&state, &machine, vec![], "label".to_string());
    assert_eq!(s.active_provider, EP_CPU);
    assert_eq!(s.device_label, "label");
    let s = status_for_plan(&state, &machine, vec![EP_DIRECTML.to_string()], String::new());
    assert!(s.has_directml);
}

#[test]
fn warnings_come_in_order() {
    let cpu = vec![EP_CPU.to_string()];
    let amd = vec![gpu("Chip", 0x8086, 0), gpu("Radeon", 0x1002, 1024)];
    let chip = vec![gpu("Chip", 0x8086, 0)];
    assert_eq!(
        gpu_warning(&Some("boom".to_string()), &amd, &cpu).unwrap(),
        "Dedicated GPU was detected, but GPU session initialization failed (boom). Running on \
         multi-threaded CPU."
    );
    assert_eq!(
        gpu_warning(&None, &chip, &cpu).unwrap(),
        "Integrated GPU detected (Chip). GPU acceleration is disabled to protect against desktop \
         freezing and driver crashes. Running on multi-threaded CPU."
    );
    assert_eq!(
        gpu_warning(&None, &amd, &cpu).unwrap(),
        "AMD GPU detected (Radeon). The default Linux release runs on CPU; NVIDIA CUDA \
         acceleration requires a separate CUDA build, and AMD/ROCm is not yet supported. Running \
         on multi-threaded CPU."
    );
    assert_eq!(gpu_warning(&None, &vec![], &cpu), None);
    assert_eq!(gpu_warning(&None, &chip, &vec![EP_DIRECTML.to_string()]), None);
    assert_eq!(gpu_warning(&None, &amd, &vec![EP_CUDA.to_string(), EP_CPU.to_string()]), None);
    assert_eq!(gpu_warning(&None, &amd, &vec![]), None);
}

#[test]
fn a_request_forgets_passing_failures() {
    let mut state = DeviceState::new();
    let machine = host(ALL_FEATURES, vec![gpu("Card", 0x10DE, 8192)]);
    state.cuda_runtime_failed = true;
    state.coreml_runtime_failed = true;
    state.openvino_runtime_failed = true;
    state.last_gpu_error = Some("boom".to_string());
    request_limit(&mut state, Some(5));
    let s = set_active_provider(&mut state, &machine, " \tCUDA\n");
    assert_eq!(state.override_device.as_deref(), Some("cuda"));
    assert!(!state.cuda_runtime_failed && !state.coreml_runtime_failed);
    assert!(state.openvino_runtime_failed);
    assert_eq!(state.last_gpu_error, None);
    assert_eq!(state.override_cuda_mem_limit_mb, Some(5));
    assert_eq!(s.active_provider, EP_CUDA);
    assert!(s.has_cuda);
    // Lower case by Unicode's rules, not only by those of ASCII.
    set_active_provider(&mut state, &machine, "\u{C4}\u{130}");
    assert_eq!(state.override_device.as_deref(), Some("\u{E4}i\u{307}"));
    set_active_provider(&mut state, &machine, " Auto ");
    assert_eq!(state.override_device, None);
    request_device(&mut state, "ov".to_string());
    assert_eq!(state.override_device.as_deref(), Some("ov"));
}

#[test]
fn stored_settings_are_taken_over() {
    let mut state = DeviceState::new();
    let applied = load_persisted_hardware_settings(
        &mut state,
        &rows(&[("cudaVramLimitMb", "12288"), ("executionDevice", "\"CUDA\"")]),
    );
    assert_eq!(applied.len(), 2);
    assert!(matches!(&applied[0], AppliedSetting::CudaVramLimitMb(12288)));
    assert!(matches!(&applied[1], AppliedSetting::ExecutionDevice(d) if d == "CUDA"));
    assert_eq!(state.override_cuda_mem_limit_mb, Some(12288));
    assert_eq!(state.override_device.as_deref(), Some("cuda"));
    // A device given with escapes, and one that takes the request back.
    load_persisted_hardware_settings(&mut state, &rows(&[("executionDevice", " \"c\\u0070u\" ")]));
    assert_eq!(state.override_device.as_deref(), Some("cpu"));
    load_persisted_hardware_settings(&mut state, &rows(&[("executionDevice", "\r\n\"a\u{7f}b\"\t")]));
    assert_eq!(state.override_device.as_deref(), Some("a\u{7f}b"));
    load_persisted_hardware_settings(&mut state, &rows(&[("executionDevice", "\"\"")]));
    assert_eq!(state.override_device.as_deref(), Some(""));
    load_persisted_hardware_settings(&mut state, &rows(&[("executionDevice", "\"auto\"")]));
    assert_eq!(state.override_device, None);
}

#[test]
fn stored_values_that_hold_no_setting_are_passed_over() {
    let mut state = DeviceState::new();
    let list = rows(&[
        ("cudaVramLimitMb", "null"),
        ("cudaVramLimitMb", "0"),
        ("cudaVramLimitMb", "-5"),
        ("cudaVramLimitMb", "1.5"),
        ("cudaVramLimitMb", "\"12\""),
        ("cudaVramLimitMb", "18446744073709551616"),
        ("cudaVramLimitMb", "12 13"),
        ("cudaVramLimitMb", ""),
        ("cudaVramLimitMb", " \n\t\r"),
        ("cudaVramLimitMb", " null "),
        ("cudaVramLimitMb", "nul"),
        ("cudaVramLimitMb", "-0"),
        ("cudaVramLimitMb", "007"),
        ("cudaVramLimitMb", "+7"),
        ("cudaVramLimitMb", "7e0"),
        ("cudaVramLimitMb", "7.0"),
        ("cudaVramLimitMb", "\u{a0}7"),
        ("cudaVramLimitMb", "7\u{b}"),
        ("cudaVramLimitMb", "-18446744073709551615"),
        ("cudaVramLimitMb", "[7]"),
        ("cudaVramLimitMb", "true"),
        ("executionDevice", "cuda"),
        ("executionDevice", "null"),
        ("executionDevice", "\"open"),
        ("executionDevice", "\""),
        ("executionDevice", "\"a\" \"b\""),
        ("executionDevice", "\"a\tb\""),
        ("executionDevice", "\"a\\qb\""),
        ("executionDevice", "[\"cuda\"]"),
        ("executionDevice", "\u{a0}\"cuda\""),
        ("theme", "\"dark\""),
    ]);
    assert!(load_persisted_hardware_settings(&mut state, &list).is_empty());
    assert_eq!(state.override_device, None);
    assert_eq!(state.override_cuda_mem_limit_mb, None);
    load_persisted_hardware_settings(
        &mut state,
        &rows(&[("cudaVramLimitMb", " 18446744073709551615 "), ("cudaVramLimitMb", "7")]),
    );
    assert_eq!(state.override_cuda_mem_limit_mb, Some(7));
}

#[test]
fn what_was_read_decides_what_is_applied() {
    assert!(limit_to_apply(None).is_none());
    assert!(limit_to_apply(Some(None)).is_none());
    assert!(limit_to_apply(Some(Some(0))).is_none());
    assert!(matches!(limit_to_apply(Some(Some(1))), Some(AppliedSetting::CudaVramLimitMb(1))));
    assert!(device_to_apply(None).is_none());
    let setting = device_to_apply(Some(" Dml ".to_string())).unwrap();
    let mut state = DeviceState::new();
    apply_setting(&mut state, &setting);
    assert_eq!(state.override_device.as_deref(), Some("dml"));
    apply_setting(&mut state, &AppliedSetting::CudaVramLimitMb(3));
    assert_eq!(state.override_cuda_mem_limit_mb, Some(3));
}

#[test]
fn a_mode_and_its_cleaned_form_are_one_request() {
    let machine = host(ALL_FEATURES, vec![gpu("Card", 0x10DE, 8192)]);
    for mode in [" CUDA\n", "DirectML", "\tAuto", "", "  ", "Quantum Leap"] {
        let cleaned = mode.trim().to_lowercase();
        let mut a = DeviceState::new();
        let mut b = DeviceState::new();
        set_active_provider(&mut a, &machine, "openvino");
        let x = set_active_provider(&mut a, &machine, mode);
        let y = set_active_provider(&mut b, &machine, &cleaned);
        assert_eq!(a.override_device, b.override_device, "mode {mode:?}");
        assert_eq!(x.providers, y.providers, "mode {mode:?}");
        assert_eq!(x.device_label, y.device_label, "mode {mode:?}");
    }
}

#[test]
fn an_empty_request_hides_the_variable() {
    let mut machine = host(ALL_FEATURES, vec![gpu("Card", 0x10DE, 8192)]);
    machine.device_var = Some("cpu".to_string());
    let mut state = DeviceState::new();
    assert_eq!(set_active_provider(&mut state, &machine, "").active_provider, EP_CUDA);
    assert_eq!(set_active_provider(&mut state, &machine, "auto").active_provider, EP_CPU);
}

#[test]
fn a_configured_limit_is_positive_and_reported() {
    let machine = host(NO_FEATURES, vec![]);
    let mut state = DeviceState::new();
    for mb in [None, Some(0), Some(1), Some(12288), Some(u64::MAX / MB)] {
        let s = set_cuda_memory_limit_override(&mut state, &machine, mb);
        assert_eq!(s.configured_cuda_vram_limit_mb, mb.filter(|m| *m > 0));
        if s.configured_cuda_vram_limit_mb.is_some() {
            assert_eq!(s.cuda_vram_limit_mb, s.configured_cuda_vram_limit_mb);
        }
        let limit = get_cuda_gpu_memory_limit(&state, &machine);
        assert_eq!(s.cuda_vram_limit_mb, Some(limit / MB));
        assert!(!s.reloading);
    }
}
