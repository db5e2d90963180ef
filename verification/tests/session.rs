//! Opening sessions and waiting for child processes.

use xianscan_device::gpu::{GpuInfo, Vram};
use xianscan_device::plan::{EP_COREML, EP_CPU, EP_CUDA, EP_DIRECTML, EP_OPENVINO};
use xianscan_device::process::{poll_step, printed_text, ChildPoll, PollStep};
use xianscan_device::session::{
    attempt_failed, attempt_succeeded, first_attempt, openvino_options, session_config,
    session_request, session_resources, Attempt, Next, OpenVinoOptions, ProviderOptions,
    SessionRequest, SessionResources,
};
use xianscan_device::settings::{load_persisted_hardware_settings, request_device, request_limit};
use xianscan_device::state::{BuildInfo, DeviceState, Features, Host};
use xianscan_device::status::{get_hardware_status, probe_hardware};

const ALL_FEATURES: Features =
    Features { cuda: true, coreml: true, directml: true, openvino: true };
const NO_FEATURES: Features =
    Features { cuda: false, coreml: false, directml: false, openvino: false };

fn full_plan() -> Vec<String> {
    [EP_CUDA, EP_COREML, EP_DIRECTML, EP_CPU].iter().map(|s| s.to_string()).collect()
}

fn request(cuda: bool, coreml: bool, openvino: bool, directml: bool) -> SessionRequest {
    SessionRequest { model_tag: "lama".to_string(), cuda, coreml, openvino, directml }
}

fn resources() -> SessionResources {
    SessionResources {
        gpu_host_threads: 4,
        cpu_threads: 8,
        cuda_memory_limit: 1234,
        openvino: OpenVinoOptions {
            device_type: "GPU".to_string(),
            cache_dir: "/cache".to_string(),
        },
    }
}

fn host() -> Host {
    Host {
        features: ALL_FEATURES,
        device_var: None,
        cuda_limit_var: None,
        gpus: vec![GpuInfo {
            device_id: 0,
            name: "Card".to_string(),
            vendor_id: 0x10DE,
            vram_mb: Vram::Bytes(0),
            is_dedicated: true,
            is_integrated: false,
        }],
        build: BuildInfo {
            version: String::new(),
            app_version: String::new(),
            web_build_hash: String::new(),
            web_build_time: String::new(),
        },
    }
}

/// The attempts that are made if every one fails.
fn trail(request: &SessionRequest) -> Vec<Attempt> {
    let mut state = DeviceState::new();
    let mut attempt = first_attempt(request);
    let mut made = vec![attempt];
    loop {
        attempt = match attempt_failed(&mut state, request, attempt, "no") {
            Next::Retry { attempt, .. } => attempt,
            Next::Try { attempt } => attempt,
            Next::GiveUp => return made,
        };
        made.push(attempt);
    }
}

#[test]
fn a_request_follows_plan_features_and_model() {
    let r = session_request(ALL_FEATURES, &full_plan(), "lama");
    assert_eq!((r.cuda, r.coreml, r.openvino, r.directml), (true, true, false, true));
    assert_eq!(r.model_tag, "lama");
    let r = session_request(NO_FEATURES, &full_plan(), "lama");
    assert_eq!((r.cuda, r.coreml, r.openvino, r.directml), (false, false, false, false));
    // Character recognition is kept away from DirectML.
    for tag in ["ppocr_det", "rec", "rapid_ocr_det"] {
        assert!(!session_request(ALL_FEATURES, &full_plan(), tag).directml, "tag {tag}");
    }
    // Text recognition is kept away from OpenVINO, and then runs on the CPU alone.
    let plan = vec![EP_OPENVINO.to_string(), EP_CUDA.to_string(), EP_CPU.to_string()];
    let r = session_request(ALL_FEATURES, &plan, "ppocr_rec");
    assert_eq!((r.cuda, r.openvino), (false, false));
    let r = session_request(ALL_FEATURES, &plan, "ppocr_det");
    assert_eq!((r.cuda, r.openvino), (true, true));
}

#[test]
fn every_session_falls_back_to_the_cpu() {
    assert_eq!(
        trail(&request(true, true, true, true)),
        vec![
            Attempt::Cuda { number: 1 },
            Attempt::Cuda { number: 2 },
            Attempt::Cuda { number: 3 },
            Attempt::CoreMl,
            Attempt::OpenVino,
            Attempt::DirectMl,
            Attempt::Cpu,
        ]
    );
    assert_eq!(trail(&request(false, false, false, false)), vec![Attempt::Cpu]);
    assert_eq!(
        trail(&request(false, true, false, true)),
        vec![Attempt::CoreMl, Attempt::DirectMl, Attempt::Cpu]
    );
    assert_eq!(trail(&request(false, false, true, false)), vec![Attempt::OpenVino, Attempt::Cpu]);
}

#[test]
fn cuda_is_tried_again_after_growing_pauses() {
    let mut state = DeviceState::new();
    let r = request(true, false, false, false);
    assert_eq!(
        attempt_failed(&mut state, &r, Attempt::Cuda { number: 1 }, "busy"),
        Next::Retry { pause_ms: 250, attempt: Attempt::Cuda { number: 2 } }
    );
    assert_eq!(
        attempt_failed(&mut state, &r, Attempt::Cuda { number: 2 }, "busy"),
        Next::Retry { pause_ms: 500, attempt: Attempt::Cuda { number: 3 } }
    );
    assert_eq!(state.last_gpu_error, None);
    assert!(!state.cuda_runtime_failed);
    assert_eq!(
        attempt_failed(&mut state, &r, Attempt::Cuda { number: 3 }, "busy"),
        Next::Try { attempt: Attempt::Cpu }
    );
    assert_eq!(state.last_gpu_error.as_deref(), Some("CUDA init error for lama: busy"));
    assert!(state.cuda_runtime_failed);
    attempt_succeeded(&mut state, Attempt::Cpu);
    assert!(state.last_gpu_error.is_some());
    attempt_succeeded(&mut state, Attempt::Cuda { number: 1 });
    assert_eq!(state.last_gpu_error, None);
}

#[test]
fn failures_are_kept_by_accelerator() {
    let r = request(false, true, true, true);
    let mut state = DeviceState::new();
    attempt_failed(&mut state, &r, Attempt::CoreMl, "a");
    assert!(state.coreml_runtime_failed && !state.openvino_runtime_failed);
    assert_eq!(state.last_gpu_error.as_deref(), Some("CoreML init error: a"));
    attempt_failed(&mut state, &r, Attempt::OpenVino, "b");
    assert!(state.openvino_runtime_failed && !state.cuda_runtime_failed);
    assert_eq!(state.last_gpu_error.as_deref(), Some("OpenVINO init error: b"));
    attempt_failed(&mut state, &r, Attempt::DirectMl, "c");
    assert_eq!(state.last_gpu_error.as_deref(), Some("DirectML init error: c"));
    assert_eq!(attempt_failed(&mut state, &r, Attempt::Cpu, "d"), Next::GiveUp);
    assert_eq!(state.last_gpu_error.as_deref(), Some("DirectML init error: c"));
}

#[test]
fn a_failed_accelerator_is_planned_no_more() {
    let mut state = DeviceState::new();
    let machine = host();
    let r = request(true, true, true, true);
    assert_eq!(probe_hardware(&state, &machine).0[0], EP_CUDA);
    attempt_failed(&mut state, &r, Attempt::Cuda { number: 3 }, "x");
    assert_eq!(probe_hardware(&state, &machine).0[0], EP_COREML);
    let plan = probe_hardware(&state, &machine).0;
    assert_eq!(first_attempt(&session_request(ALL_FEATURES, &plan, "lama")), Attempt::CoreMl);
    let status = get_hardware_status(&state, &machine);
    assert!(!status.has_cuda);
    assert!(status.gpu_warning.unwrap().contains("CUDA init error for lama: x"));
    attempt_failed(&mut state, &r, Attempt::CoreMl, "x");
    assert_eq!(probe_hardware(&state, &machine).0[0], EP_DIRECTML);
    state.override_device = Some("openvino".to_string());
    assert_eq!(probe_hardware(&state, &machine).0[0], EP_OPENVINO);
    attempt_failed(&mut state, &r, Attempt::OpenVino, "x");
    assert_eq!(probe_hardware(&state, &machine).0[0], EP_DIRECTML);
}

#[test]
fn sessions_are_configured_by_attempt() {
    let all = resources();
    let arena = ("session.enable_cpu_mem_arena".to_string(), "0".to_string());
    let c = session_config(Attempt::Cuda { number: 2 }, &all);
    assert_eq!((c.intra_threads, c.optimization_level, c.memory_pattern), (Some(4), 3, false));
    assert_eq!(c.config_entries, vec![arena.clone()]);
    assert!(matches!(
        c.provider,
        ProviderOptions::Cuda { memory_limit: 1234, arena_next_power_of_two: true }
    ));
    let c = session_config(Attempt::CoreMl, &all);
    assert_eq!(c.intra_threads, Some(4));
    assert!(matches!(c.provider, ProviderOptions::CoreMl));
    let c = session_config(Attempt::OpenVino, &all);
    assert_eq!(c.intra_threads, None);
    assert!(matches!(
        &c.provider,
        ProviderOptions::OpenVino { device_type, cache_dir }
            if device_type == "GPU" && cache_dir == "/cache"
    ));
    let c = session_config(Attempt::DirectMl, &all);
    assert_eq!(
        c.config_entries,
        vec![
            arena.clone(),
            ("session.use_device_allocator_for_initializers".to_string(), "1".to_string()),
        ]
    );
    assert!(matches!(c.provider, ProviderOptions::DirectMl));
    let c = session_config(Attempt::Cpu, &all);
    assert_eq!(c.intra_threads, Some(8));
    assert_eq!(c.config_entries, vec![arena]);
    assert!(matches!(c.provider, ProviderOptions::Cpu));
}

#[test]
fn resources_follow_the_model() {
    let state = DeviceState::new();
    let machine = host();
    let of = |cuda: bool| {
        session_resources(
            &state,
            &machine,
            &request(cuda, false, false, false),
            &Some("2".to_string()),
            &Some("6".to_string()),
            openvino_options(&None, &None, false, "/tmp/c"),
        )
    };
    // An inpainter on an adapter without memory of its own.
    assert_eq!(of(true).cuda_memory_limit, 1536 * 1024 * 1024);
    assert_eq!(of(false).cuda_memory_limit, 0);
    assert_eq!((of(true).gpu_host_threads, of(true).cpu_threads), (2, 6));
    assert_eq!(of(true).openvino.cache_dir, "/tmp/c");
}

#[test]
fn openvino_takes_its_variables_first() {
    let o = openvino_options(&None, &None, true, "/tmp/c");
    assert_eq!((o.device_type.as_str(), o.cache_dir.as_str()), ("GPU", "/config/ov-cache"));
    let o = openvino_options(&None, &None, false, "/tmp/c");
    assert_eq!(o.cache_dir, "/tmp/c");
    let o = openvino_options(&Some("CPU".to_string()), &Some("/x".to_string()), true, "/tmp/c");
    assert_eq!((o.device_type.as_str(), o.cache_dir.as_str()), ("CPU", "/x"));
}

#[test]
fn a_child_is_not_waited_for_beyond_its_time() {
    assert_eq!(poll_step(ChildPoll::Running, 0, 3), PollStep::Wait { ms: 50 });
    assert_eq!(poll_step(ChildPoll::Running, 2, 3), PollStep::Wait { ms: 50 });
    assert_eq!(poll_step(ChildPoll::Running, 3, 3), PollStep::Kill);
    assert_eq!(poll_step(ChildPoll::Exited, 9, 3), PollStep::Collect);
    assert_eq!(poll_step(ChildPoll::Failed, 0, 3), PollStep::GiveUp);
}

#[test]
fn only_text_of_a_successful_process_counts() {
    assert_eq!(printed_text(true, b"a\xc3\xa4".to_vec()).as_deref(), Some("a\u{e4}"));
    assert_eq!(printed_text(true, vec![]).as_deref(), Some(""));
    assert_eq!(printed_text(true, vec![0x61, 0xff]), None);
    assert_eq!(printed_text(true, vec![0xed, 0xa0, 0x80]), None);
    assert_eq!(printed_text(true, vec![0xc0, 0x80]), None);
    assert_eq!(printed_text(false, b"a".to_vec()), None);
}

#[test]
fn failures_stay_until_a_device_is_asked_for() {
    let mut state = DeviceState::new();
    let r = request(true, true, true, true);
    attempt_failed(&mut state, &r, Attempt::Cuda { number: 3 }, "x");
    attempt_failed(&mut state, &r, Attempt::CoreMl, "x");
    attempt_failed(&mut state, &r, Attempt::OpenVino, "x");
    request_limit(&mut state, Some(5));
    attempt_failed(&mut state, &r, Attempt::DirectMl, "x");
    attempt_succeeded(&mut state, Attempt::Cuda { number: 1 });
    attempt_succeeded(&mut state, Attempt::OpenVino);
    assert!(state.cuda_runtime_failed && state.coreml_runtime_failed);
    assert!(state.openvino_runtime_failed);
    request_device(&mut state, "cuda".to_string());
    assert!(!state.cuda_runtime_failed && !state.coreml_runtime_failed);
    let rows = vec![("executionDevice".to_string(), "\"ov\"".to_string())];
    load_persisted_hardware_settings(&mut state, &rows);
    assert!(state.openvino_runtime_failed);
}
