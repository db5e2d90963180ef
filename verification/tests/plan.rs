//! The device plan and the providers of one model.

use xianscan_device::plan::{
    effective_providers_for_model, provider_name, resolve_device_plan, Backend, DeviceInputs,
    EP_COREML, EP_CPU, EP_CUDA, EP_DIRECTML, EP_OPENVINO,
};
use xianscan_device::state::Features;

fn inputs(ov: &str) -> DeviceInputs {
    DeviceInputs {
        env_override: ov.to_string(),
        openvino_usable: false,
        cuda_usable: false,
        coreml_usable: false,
        dml_compiled: false,
        dedicated_gpu_name: None,
    }
}

fn everything(ov: &str) -> DeviceInputs {
    DeviceInputs {
        env_override: ov.to_string(),
        openvino_usable: true,
        cuda_usable: true,
        coreml_usable: true,
        dml_compiled: true,
        dedicated_gpu_name: Some("Card".to_string()),
    }
}

#[test]
fn u1_resolves_cpu_when_override_cpu() {
    let (p, label) = resolve_device_plan(&inputs("cpu"));
    assert_eq!(p, vec!["CPUExecutionProvider"]);
    assert_eq!(label, "CPU Multi-threaded");
}

#[test]
fn u2_resolves_openvino_when_requested_and_usable() {
    let mut i = inputs("openvino");
    i.openvino_usable = true;
    let (p, label) = resolve_device_plan(&i);
    assert_eq!(p, vec!["OpenVINOExecutionProvider", "CPUExecutionProvider"]);
    assert!(label.contains("OpenVINO"), "label was {label}");
}

#[test]
fn u3_openvino_alias_ov_accepted() {
    let mut i = inputs("ov");
    i.openvino_usable = true;
    let (p, _) = resolve_device_plan(&i);
    assert_eq!(p, vec!["OpenVINOExecutionProvider", "CPUExecutionProvider"]);
}

#[test]
fn u4_falls_back_to_cpu_when_openvino_runtime_failed() {
    let mut i = inputs("openvino");
    i.openvino_usable = false; // runtime latched failed
    let (p, _) = resolve_device_plan(&i);
    assert_eq!(p, vec!["CPUExecutionProvider"]);
}

#[test]
fn u5_explicit_openvino_ignored_without_feature() {
    // Usable means built in and not failed: without the feature it can never be usable.
    let features = Features { cuda: false, coreml: false, directml: false, openvino: false };
    let openvino_usable = features.openvino && true;
    assert!(!openvino_usable);
    let mut i = inputs("openvino");
    i.openvino_usable = openvino_usable;
    let (p, _) = resolve_device_plan(&i);
    assert_eq!(p, vec!["CPUExecutionProvider"]);
}

#[test]
fn u6_auto_prefers_openvino_when_no_dgpu() {
    let mut i = inputs("");
    i.openvino_usable = true;
    let (p, _) = resolve_device_plan(&i);
    assert_eq!(p, vec!["OpenVINOExecutionProvider", "CPUExecutionProvider"]);
}

#[test]
fn u7_auto_prefers_cuda_over_openvino() {
    let mut i = inputs("");
    i.openvino_usable = true;
    i.cuda_usable = true;
    i.dedicated_gpu_name = Some("NVIDIA GeForce RTX 3090".into());
    let (p, _) = resolve_device_plan(&i);
    assert_eq!(p, vec!["CUDAExecutionProvider", "CPUExecutionProvider"]);
}

#[test]
fn u8_auto_cpu_when_nothing_usable() {
    let (p, _) = resolve_device_plan(&inputs(""));
    assert_eq!(p, vec!["CPUExecutionProvider"]);
}

#[test]
fn u9_rec_model_stays_cpu_under_openvino() {
    let plan = vec![
        "OpenVINOExecutionProvider".to_string(),
        "CPUExecutionProvider".to_string(),
    ];
    for tag in ["ppocr_rec", "ocr_rec", "rec"] {
        assert_eq!(
            effective_providers_for_model(tag, &plan),
            vec!["CPUExecutionProvider"],
            "tag {tag}"
        );
    }
}

#[test]
fn u10_non_rec_models_keep_openvino() {
    let plan = vec![
        "OpenVINOExecutionProvider".to_string(),
        "CPUExecutionProvider".to_string(),
    ];
    for tag in ["ppocr_det", "rfdetr", "lama", "ocr_det"] {
        assert_eq!(
            effective_providers_for_model(tag, &plan),
            vec!["OpenVINOExecutionProvider", "CPUExecutionProvider"],
            "tag {tag}"
        );
    }
}

#[test]
fn u11_rec_uses_normal_providers_under_cpu() {
    let plan = vec!["CPUExecutionProvider".to_string()];
    assert_eq!(effective_providers_for_model("ppocr_rec", &plan), plan);
}

#[test]
fn u12_regression_cuda_branch_unchanged() {
    let mut i = inputs("cuda");
    i.cuda_usable = true;
    i.dedicated_gpu_name = Some("NVIDIA GeForce RTX 3080".into());
    let (p, label) = resolve_device_plan(&i);
    assert_eq!(p, vec!["CUDAExecutionProvider", "CPUExecutionProvider"]);
    assert!(label.contains("CUDA Dedicated GPU"));
}

#[test]
fn every_request_that_can_run_is_honoured() {
    let cases = [
        ("cpu", EP_CPU, "CPU Multi-threaded"),
        ("none", EP_CPU, "CPU Multi-threaded"),
        ("cuda", EP_CUDA, "CUDA Dedicated GPU (Card)"),
        ("coreml", EP_COREML, "CoreML Apple GPU (Card)"),
        ("dml", EP_DIRECTML, "DirectML Dedicated GPU (Card)"),
        ("directml", EP_DIRECTML, "DirectML Dedicated GPU (Card)"),
        ("openvino", EP_OPENVINO, "OpenVINO Intel Graphics"),
        ("ov", EP_OPENVINO, "OpenVINO Intel Graphics"),
    ];
    for (device, provider, name) in cases {
        let (p, label) = resolve_device_plan(&everything(device));
        assert_eq!(p[0], provider, "device {device}");
        assert_eq!(p[p.len() - 1], EP_CPU, "device {device}");
        assert_eq!(label, name, "device {device}");
    }
}

#[test]
fn dedicated_backends_need_a_dedicated_adapter() {
    for device in ["cuda", "coreml", "dml", "directml"] {
        let mut i = everything(device);
        i.dedicated_gpu_name = None;
        i.openvino_usable = false;
        let (p, _) = resolve_device_plan(&i);
        assert_eq!(p, vec![EP_CPU], "device {device}");
    }
}

#[test]
fn a_request_that_cannot_run_is_chosen_for_automatically() {
    let mut i = everything("coreml");
    i.coreml_usable = false;
    assert_eq!(i.choose_backend(), Backend::Cuda);
    i.cuda_usable = false;
    assert_eq!(i.choose_backend(), Backend::DirectMl);
    i.dml_compiled = false;
    assert_eq!(i.choose_backend(), Backend::OpenVino);
    i.openvino_usable = false;
    assert_eq!(i.choose_backend(), Backend::Cpu);
}

#[test]
fn an_unknown_request_is_an_automatic_choice() {
    let (p, _) = resolve_device_plan(&everything("quantum"));
    assert_eq!(p, vec![EP_CUDA, EP_CPU]);
    // The inputs are in lower case already, so this is no request for the CPU.
    assert_eq!(everything("CPU").choose_backend(), Backend::Cuda);
    // The whole plan is the one that an empty request gets.
    assert_eq!(
        resolve_device_plan(&everything("quantum")),
        resolve_device_plan(&everything(""))
    );
}

#[test]
fn a_backend_can_run_by_its_own_conditions() {
    let mut i = inputs("");
    assert!(i.can_run(Backend::Cpu));
    assert!(!i.can_run(Backend::OpenVino));
    i.openvino_usable = true;
    i.cuda_usable = true;
    assert!(i.can_run(Backend::OpenVino));
    assert!(!i.can_run(Backend::Cuda));
    i.dedicated_gpu_name = Some(String::new());
    assert!(i.can_run(Backend::Cuda));
    assert!(!i.can_run(Backend::CoreMl));
    assert!(!i.can_run(Backend::DirectMl));
}

#[test]
fn provider_names_are_the_runtime_s() {
    assert_eq!(provider_name(Backend::Cpu), "CPUExecutionProvider");
    assert_eq!(provider_name(Backend::Cuda), "CUDAExecutionProvider");
    assert_eq!(provider_name(Backend::CoreMl), "CoreMLExecutionProvider");
    assert_eq!(provider_name(Backend::DirectMl), "DmlExecutionProvider");
    assert_eq!(provider_name(Backend::OpenVino), "OpenVINOExecutionProvider");
}

#[test]
fn recognition_keeps_a_plan_without_openvino() {
    let plan = vec![EP_CUDA.to_string(), EP_CPU.to_string()];
    assert_eq!(effective_providers_for_model("ppocr_rec", &plan), plan);
    // Tags are compared as they are.
    let plan = vec![EP_OPENVINO.to_string(), EP_CPU.to_string()];
    assert_eq!(effective_providers_for_model("PPOCR_REC", &plan), plan);
}
