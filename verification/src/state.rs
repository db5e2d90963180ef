//! What the engine knows about itself and its machine: the settings and failures it has seen so
//! far, and the facts about the host that are read afresh for every question.

use crate::gpu::{GpuInfo, GpuInfoView};
use vstd::prelude::*;

verus! {

/// The accelerators that were built in.
#[derive(Clone, Copy, Debug, PartialEq, Eq, Structural)]
pub struct Features {
    pub cuda: bool,
    pub coreml: bool,
    pub directml: bool,
    pub openvino: bool,
}

/// Which build this is.
#[derive(Debug)]
pub struct BuildInfo {
    pub version: String,
    pub app_version: String,
    pub web_build_hash: String,
    pub web_build_time: String,
}

/// `BuildInfo` with its texts as sequences of characters.
pub struct BuildInfoView {
    pub version: Seq<char>,
    pub app_version: Seq<char>,
    pub web_build_hash: Seq<char>,
    pub web_build_time: Seq<char>,
}

impl View for BuildInfo {
    type V = BuildInfoView;

    open spec fn view(&self) -> BuildInfoView {
        BuildInfoView {
            version: self.version@,
            app_version: self.app_version@,
            web_build_hash: self.web_build_hash@,
            web_build_time: self.web_build_time@,
        }
    }
}

/// The host at one moment: what is built in, the environment variables that bear on the choice
/// of a device, and the adapters.
#[derive(Debug)]
pub struct Host {
    pub features: Features,
    /// `MT_DEVICE`.
    pub device_var: Option<String>,
    /// `ORT_CUDA_MEM_LIMIT_MB`.
    pub cuda_limit_var: Option<String>,
    pub gpus: Vec<GpuInfo>,
    pub build: BuildInfo,
}

/// `Host` with its texts as sequences of characters.
pub struct HostView {
    pub features: Features,
    pub device_var: Option<Seq<char>>,
    pub cuda_limit_var: Option<Seq<char>>,
    pub gpus: Seq<GpuInfoView>,
    pub build: BuildInfoView,
}

impl View for Host {
    type V = HostView;

    open spec fn view(&self) -> HostView {
        HostView {
            features: self.features,
            device_var: self.device_var.deep_view(),
            cuda_limit_var: self.cuda_limit_var.deep_view(),
            gpus: self.gpus.deep_view(),
            build: self.build@,
        }
    }
}

/// The settings made at run time and the failures seen so far.
#[derive(Debug)]
pub struct DeviceState {
    /// The device that was asked for, in lower case; `None` for an automatic choice.
    pub override_device: Option<String>,
    /// The memory limit of a CUDA session that was asked for, in megabytes, and never zero.
    pub override_cuda_mem_limit_mb: Option<u64>,
    /// A CUDA session failed to initialise.
    pub cuda_runtime_failed: bool,
    /// A CoreML session failed to initialise.
    pub coreml_runtime_failed: bool,
    /// An OpenVINO session failed to initialise.
    pub openvino_runtime_failed: bool,
    /// What the last failure of an accelerator said.
    pub last_gpu_error: Option<String>,
}

/// `DeviceState` with its texts as sequences of characters.
pub struct DeviceStateView {
    pub override_device: Option<Seq<char>>,
    pub override_cuda_mem_limit_mb: Option<u64>,
    pub cuda_runtime_failed: bool,
    pub coreml_runtime_failed: bool,
    pub openvino_runtime_failed: bool,
    pub last_gpu_error: Option<Seq<char>>,
}

impl View for DeviceState {
    type V = DeviceStateView;

    open spec fn view(&self) -> DeviceStateView {
        DeviceStateView {
            override_device: self.override_device.deep_view(),
            override_cuda_mem_limit_mb: self.override_cuda_mem_limit_mb,
            cuda_runtime_failed: self.cuda_runtime_failed,
            coreml_runtime_failed: self.coreml_runtime_failed,
            openvino_runtime_failed: self.openvino_runtime_failed,
            last_gpu_error: self.last_gpu_error.deep_view(),
        }
    }
}

impl DeviceStateView {
    /// A memory limit that was asked for is never zero: no limit is `None`.
    pub open spec fn well_formed(self) -> bool {
        self.override_cuda_mem_limit_mb != Some(0u64)
    }
}

/// The state of an engine that has just started.
pub open spec fn initial_state() -> DeviceStateView {
    DeviceStateView {
        override_device: None,
        override_cuda_mem_limit_mb: None,
        cuda_runtime_failed: false,
        coreml_runtime_failed: false,
        openvino_runtime_failed: false,
        last_gpu_error: None,
    }
}

impl DeviceState {
    /// The state of an engine that has just started.
    pub fn new() -> (r: Self)
        ensures
            r@ == initial_state(),
            r@.well_formed(),
    {
        DeviceState {
            override_device: None,
            override_cuda_mem_limit_mb: None,
            cuda_runtime_failed: false,
            coreml_runtime_failed: false,
            openvino_runtime_failed: false,
            last_gpu_error: None,
        }
    }
}

/// An engine that has just started was asked for nothing and has seen no failure.
pub proof fn law_initial_state()
    ensures
        ({
            let s = initial_state();
            &&& s.override_device is None
            &&& s.override_cuda_mem_limit_mb is None
            &&& !s.cuda_runtime_failed && !s.coreml_runtime_failed && !s.openvino_runtime_failed
            &&& s.last_gpu_error is None
        }),
{
}

} // verus!
