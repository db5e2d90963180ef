//! Opening a session: which accelerator is tried next, how a session on it is configured, and
//! what a success or a failure leaves behind.
//!
//! Whoever opens sessions starts with `first_attempt`, opens one as `session_config` says, and
//! reports the outcome to `attempt_succeeded` or `attempt_failed`, which names the next attempt.

use crate::limits;
use crate::plan;
use crate::plan::{Backend, EP_COREML, EP_CUDA, EP_DIRECTML, EP_OPENVINO};
use crate::settings;
use crate::state::{DeviceState, DeviceStateView, Features, Host, HostView};
use crate::status;
use crate::text;
use vstd::prelude::*;

verus! {

/// How often a CUDA session is tried.
pub const MAX_CUDA_ATTEMPTS: u32 = 3;

/// The pause after the first failed CUDA attempt, in milliseconds. The pause grows by as much
/// with every further attempt.
pub const CUDA_BACKOFF_MS: u64 = 250;

// ---------------------------------------------------------------------------
// What is asked for
// ---------------------------------------------------------------------------

/// The accelerators that a session of one model is to try, and the tag of the model.
#[derive(Debug)]
pub struct SessionRequest {
    pub model_tag: String,
    pub cuda: bool,
    pub coreml: bool,
    pub openvino: bool,
    pub directml: bool,
}

/// `SessionRequest` with its text as a sequence of characters.
pub struct SessionRequestView {
    pub model_tag: Seq<char>,
    pub cuda: bool,
    pub coreml: bool,
    pub openvino: bool,
    pub directml: bool,
}

impl View for SessionRequest {
    type V = SessionRequestView;

    open spec fn view(&self) -> SessionRequestView {
        SessionRequestView {
            model_tag: self.model_tag@,
            cuda: self.cuda,
            coreml: self.coreml,
            openvino: self.openvino,
            directml: self.directml,
        }
    }
}

/// Whether a model belongs to character recognition, which DirectML is kept away from.
pub open spec fn is_ocr(model_tag: Seq<char>) -> bool {
    ||| text::occurs(model_tag, "ocr"@)
    ||| text::occurs(model_tag, "rec"@)
    ||| model_tag == "rapid_ocr_det"@
}

/// The accelerators to try for a model under a plan: those that the plan holds for the model and
/// that are built in.
pub open spec fn request_for(
    features: Features,
    plan: Seq<Seq<char>>,
    model_tag: Seq<char>,
) -> SessionRequestView {
    let list = plan::effective(model_tag, plan);
    SessionRequestView {
        model_tag,
        cuda: features.cuda && list.contains(EP_CUDA@),
        coreml: features.coreml && list.contains(EP_COREML@),
        openvino: features.openvino && list.contains(EP_OPENVINO@),
        directml: features.directml && list.contains(EP_DIRECTML@) && !is_ocr(model_tag),
    }
}

/// The accelerators to try for a model under a plan.
pub fn session_request(features: Features, plan: &[String], model_tag: &str) -> (r: SessionRequest)
    ensures
        r@ == request_for(features, plan.deep_view(), model_tag@),
{
    let list = plan::effective_providers_for_model(model_tag, plan);
    let slice = list.as_slice();
    assert(slice.deep_view() =~= list.deep_view());
    let chars = text::chars_of(model_tag);
    let ocr = text::contains(chars.as_slice(), "ocr") || text::contains(chars.as_slice(), "rec")
        || text::same(model_tag, "rapid_ocr_det");
    SessionRequest {
        model_tag: model_tag.to_owned(),
        cuda: features.cuda && plan::lists_provider(slice, EP_CUDA),
        coreml: features.coreml && plan::lists_provider(slice, EP_COREML),
        openvino: features.openvino && plan::lists_provider(slice, EP_OPENVINO),
        directml: features.directml && plan::lists_provider(slice, EP_DIRECTML) && !ocr,
    }
}

// ---------------------------------------------------------------------------
// The order of the attempts
// ---------------------------------------------------------------------------

/// One attempt to open a session. Attempts at CUDA are numbered from one.
#[derive(Clone, Copy, Debug, PartialEq, Eq, Structural)]
pub enum Attempt {
    Cuda { number: u32 },
    CoreMl,
    OpenVino,
    DirectMl,
    Cpu,
}

/// What follows a failed attempt: the same accelerator once more after a pause, the next in
/// order, or nothing, because the CPU itself has failed.
#[derive(Clone, Copy, Debug, PartialEq, Eq, Structural)]
pub enum Next {
    Retry { pause_ms: u64, attempt: Attempt },
    Try { attempt: Attempt },
    GiveUp,
}

/// The backend that an attempt is made on.
pub open spec fn backend(attempt: Attempt) -> Backend {
    match attempt {
        Attempt::Cuda { .. } => Backend::Cuda,
        Attempt::CoreMl => Backend::CoreMl,
        Attempt::OpenVino => Backend::OpenVino,
        Attempt::DirectMl => Backend::DirectMl,
        Attempt::Cpu => Backend::Cpu,
    }
}

/// The first attempt after CUDA and CoreML and OpenVINO.
pub open spec fn after_openvino(request: SessionRequestView) -> Attempt {
    if request.directml {
        Attempt::DirectMl
    } else {
        Attempt::Cpu
    }
}

/// The first attempt after CUDA and CoreML.
pub open spec fn after_coreml(request: SessionRequestView) -> Attempt {
    if request.openvino {
        Attempt::OpenVino
    } else {
        after_openvino(request)
    }
}

/// The first attempt after CUDA.
pub open spec fn after_cuda(request: SessionRequestView) -> Attempt {
    if request.coreml {
        Attempt::CoreMl
    } else {
        after_coreml(request)
    }
}

/// The first attempt of all. The order is CUDA, CoreML, OpenVINO, DirectML, CPU.
pub open spec fn first(request: SessionRequestView) -> Attempt {
    if request.cuda {
        Attempt::Cuda { number: 1 }
    } else {
        after_cuda(request)
    }
}

/// What follows a failed attempt.
pub open spec fn next(request: SessionRequestView, attempt: Attempt) -> Next {
    match attempt {
        Attempt::Cuda { number } => if number < MAX_CUDA_ATTEMPTS {
            Next::Retry {
                pause_ms: (number * CUDA_BACKOFF_MS) as u64,
                attempt: Attempt::Cuda { number: (number + 1) as u32 },
            }
        } else {
            Next::Try { attempt: after_cuda(request) }
        },
        Attempt::CoreMl => Next::Try { attempt: after_coreml(request) },
        Attempt::OpenVino => Next::Try { attempt: after_openvino(request) },
        Attempt::DirectMl => Next::Try { attempt: Attempt::Cpu },
        Attempt::Cpu => Next::GiveUp,
    }
}

/// The state after an attempt that succeeded: CUDA at work clears the last error.
pub open spec fn after_success(state: DeviceStateView, attempt: Attempt) -> DeviceStateView {
    match attempt {
        Attempt::Cuda { .. } => DeviceStateView { last_gpu_error: None, ..state },
        _ => state,
    }
}

/// The state after an attempt that failed with an error. The failure of an accelerator, which
/// for CUDA is that of the last attempt, is kept as the last error. The runtimes of CUDA, CoreML
/// and OpenVINO then count as failed, so that the engine stops planning and reporting an
/// accelerator that does not run; DirectML has no runtime of its own to fail.
pub open spec fn after_failure(
    state: DeviceStateView,
    model_tag: Seq<char>,
    attempt: Attempt,
    error: Seq<char>,
) -> DeviceStateView {
    match attempt {
        Attempt::Cuda { number } => if number < MAX_CUDA_ATTEMPTS {
            state
        } else {
            DeviceStateView {
                cuda_runtime_failed: true,
                last_gpu_error: Some("CUDA init error for "@ + model_tag + ": "@ + error),
                ..state
            }
        },
        Attempt::CoreMl => DeviceStateView {
            coreml_runtime_failed: true,
            last_gpu_error: Some("CoreML init error: "@ + error),
            ..state
        },
        Attempt::OpenVino => DeviceStateView {
            openvino_runtime_failed: true,
            last_gpu_error: Some("OpenVINO init error: "@ + error),
            ..state
        },
        Attempt::DirectMl => DeviceStateView {
            last_gpu_error: Some("DirectML init error: "@ + error),
            ..state
        },
        Attempt::Cpu => state,
    }
}

fn attempt_after_openvino(request: &SessionRequest) -> (r: Attempt)
    ensures
        r == after_openvino(request@),
{
    if request.directml {
        Attempt::DirectMl
    } else {
        Attempt::Cpu
    }
}

fn attempt_after_coreml(request: &SessionRequest) -> (r: Attempt)
    ensures
        r == after_coreml(request@),
{
    if request.openvino {
        Attempt::OpenVino
    } else {
        attempt_after_openvino(request)
    }
}

fn attempt_after_cuda(request: &SessionRequest) -> (r: Attempt)
    ensures
        r == after_cuda(request@),
{
    if request.coreml {
        Attempt::CoreMl
    } else {
        attempt_after_coreml(request)
    }
}

/// The first attempt.
pub fn first_attempt(request: &SessionRequest) -> (r: Attempt)
    ensures
        r == first(request@),
{
    if request.cuda {
        Attempt::Cuda { number: 1 }
    } else {
        attempt_after_cuda(request)
    }
}

/// Notes that an attempt succeeded.
pub fn attempt_succeeded(state: &mut DeviceState, attempt: Attempt)
    ensures
        final(state)@ == after_success(old(state)@, attempt),
        old(state)@.well_formed() ==> final(state)@.well_formed(),
{
    match attempt {
        Attempt::Cuda { .. } => {
            state.last_gpu_error = None;
        },
        _ => {},
    }
}

/// Notes that an attempt failed, and says what follows.
pub fn attempt_failed(
    state: &mut DeviceState,
    request: &SessionRequest,
    attempt: Attempt,
    error: &str,
) -> (r: Next)
    ensures
        r == next(request@, attempt),
        final(state)@ == after_failure(old(state)@, request@.model_tag, attempt, error@),
        old(state)@.well_formed() ==> final(state)@.well_formed(),
{
    match attempt {
        Attempt::Cuda { number } => {
            if number < MAX_CUDA_ATTEMPTS {
                return Next::Retry {
                    pause_ms: number as u64 * CUDA_BACKOFF_MS,
                    attempt: Attempt::Cuda { number: number + 1 },
                };
            }
            let mut message = text::joined("CUDA init error for ", request.model_tag.as_str());
            message.append(": ");
            message.append(error);
            state.cuda_runtime_failed = true;
            state.last_gpu_error = Some(message);
            Next::Try { attempt: attempt_after_cuda(request) }
        },
        Attempt::CoreMl => {
            state.coreml_runtime_failed = true;
            state.last_gpu_error = Some(text::joined("CoreML init error: ", error));
            Next::Try { attempt: attempt_after_coreml(request) }
        },
        Attempt::OpenVino => {
            state.openvino_runtime_failed = true;
            state.last_gpu_error = Some(text::joined("OpenVINO init error: ", error));
            Next::Try { attempt: attempt_after_openvino(request) }
        },
        Attempt::DirectMl => {
            state.last_gpu_error = Some(text::joined("DirectML init error: ", error));
            Next::Try { attempt: Attempt::Cpu }
        },
        Attempt::Cpu => Next::GiveUp,
    }
}

// ---------------------------------------------------------------------------
// How a session is configured
// ---------------------------------------------------------------------------

/// What OpenVINO runs on and where it keeps what it has compiled.
#[derive(Debug)]
pub struct OpenVinoOptions {
    pub device_type: String,
    pub cache_dir: String,
}

/// `OpenVinoOptions` with its texts as sequences of characters.
pub struct OpenVinoOptionsView {
    pub device_type: Seq<char>,
    pub cache_dir: Seq<char>,
}

impl View for OpenVinoOptions {
    type V = OpenVinoOptionsView;

    open spec fn view(&self) -> OpenVinoOptionsView {
        OpenVinoOptionsView { device_type: self.device_type@, cache_dir: self.cache_dir@ }
    }
}

/// The directory that is preferred for what OpenVINO has compiled.
pub const PREFERRED_OPENVINO_CACHE: &'static str = "/config/ov-cache";

/// The options of OpenVINO: the variables where they are set; else the GPU, and the preferred
/// directory where it can be written to, or else the temporary one.
pub open spec fn openvino_settings(
    device_var: Option<Seq<char>>,
    cache_var: Option<Seq<char>>,
    preferred_writable: bool,
    temporary: Seq<char>,
) -> OpenVinoOptionsView {
    OpenVinoOptionsView {
        device_type: match device_var {
            Some(device) => device,
            None => "GPU"@,
        },
        cache_dir: match cache_var {
            Some(dir) => dir,
            None => if preferred_writable {
                PREFERRED_OPENVINO_CACHE@
            } else {
                temporary
            },
        },
    }
}

/// The options of OpenVINO, given what `MT_OPENVINO_DEVICE` and `MT_OPENVINO_CACHE` are set to,
/// whether the preferred directory can be written to, and which is the temporary one.
pub fn openvino_options(
    device_var: &Option<String>,
    cache_var: &Option<String>,
    preferred_writable: bool,
    temporary: &str,
) -> (r: OpenVinoOptions)
    ensures
        r@ == openvino_settings(
            device_var.deep_view(),
            cache_var.deep_view(),
            preferred_writable,
            temporary@,
        ),
{
    let device_type: String = match device_var {
        Some(device) => device.clone(),
        None => "GPU".to_owned(),
    };
    let cache_dir: String = match cache_var {
        Some(dir) => dir.clone(),
        None => if preferred_writable {
            PREFERRED_OPENVINO_CACHE.to_owned()
        } else {
            temporary.to_owned()
        },
    };
    OpenVinoOptions { device_type, cache_dir }
}

/// The execution provider of a session, with its options. The memory arena of CUDA grows in
/// powers of two up to its limit, so that weights do not take all of it when they are loaded.
#[derive(Debug)]
pub enum ProviderOptions {
    Cpu,
    Cuda { memory_limit: u64, arena_next_power_of_two: bool },
    CoreMl,
    OpenVino { device_type: String, cache_dir: String },
    DirectMl,
}

/// `ProviderOptions` with its texts as sequences of characters.
pub enum ProviderOptionsView {
    Cpu,
    Cuda { memory_limit: u64, arena_next_power_of_two: bool },
    CoreMl,
    OpenVino { device_type: Seq<char>, cache_dir: Seq<char> },
    DirectMl,
}

impl View for ProviderOptions {
    type V = ProviderOptionsView;

    open spec fn view(&self) -> ProviderOptionsView {
        match self {
            ProviderOptions::Cpu => ProviderOptionsView::Cpu,
            ProviderOptions::Cuda { memory_limit, arena_next_power_of_two } =>
                ProviderOptionsView::Cuda {
                memory_limit: *memory_limit,
                arena_next_power_of_two: *arena_next_power_of_two,
            },
            ProviderOptions::CoreMl => ProviderOptionsView::CoreMl,
            ProviderOptions::OpenVino { device_type, cache_dir } => ProviderOptionsView::OpenVino {
                device_type: device_type@,
                cache_dir: cache_dir@,
            },
            ProviderOptions::DirectMl => ProviderOptionsView::DirectMl,
        }
    }
}

/// How a session is to be built. `intra_threads` is left to the runtime where it is `None`.
#[derive(Debug)]
pub struct SessionConfig {
    pub intra_threads: Option<usize>,
    pub optimization_level: u8,
    pub memory_pattern: bool,
    pub config_entries: Vec<(String, String)>,
    pub provider: ProviderOptions,
}

/// `SessionConfig` with its texts as sequences of characters.
pub struct SessionConfigView {
    pub intra_threads: Option<usize>,
    pub optimization_level: u8,
    pub memory_pattern: bool,
    pub config_entries: Seq<(Seq<char>, Seq<char>)>,
    pub provider: ProviderOptionsView,
}

impl View for SessionConfig {
    type V = SessionConfigView;

    open spec fn view(&self) -> SessionConfigView {
        SessionConfigView {
            intra_threads: self.intra_threads,
            optimization_level: self.optimization_level,
            memory_pattern: self.memory_pattern,
            config_entries: self.config_entries.deep_view(),
            provider: self.provider@,
        }
    }
}

/// What a session may use: threads on the host beside an accelerator, threads on the CPU alone,
/// the bytes of a CUDA session, and the options of OpenVINO.
#[derive(Debug)]
pub struct SessionResources {
    pub gpu_host_threads: usize,
    pub cpu_threads: usize,
    pub cuda_memory_limit: u64,
    pub openvino: OpenVinoOptions,
}

/// What a session of the requested model may use, given what `ONNX_GPU_THREADS` and
/// `ONNX_THREADS` are set to. The bytes of a CUDA session are those that the model is allowed,
/// and none where CUDA is not to be tried.
pub fn session_resources(
    state: &DeviceState,
    host: &Host,
    request: &SessionRequest,
    gpu_threads_var: &Option<String>,
    cpu_threads_var: &Option<String>,
    openvino: OpenVinoOptions,
) -> (r: SessionResources)
    requires
        request.cuda ==> limits::limit_fits(state@, host@),
    ensures
        r.cuda_memory_limit == (if request.cuda {
            limits::cuda_limit(state@, host@, request.model_tag@)
        } else {
            0
        }),
        exists|cpus: nat|
            cpus >= 1 && r.gpu_host_threads == #[trigger] limits::thread_count(
                gpu_threads_var.deep_view(),
                cpus,
                limits::MAX_GPU_HOST_THREADS as nat,
            ),
        exists|cpus: nat|
            cpus >= 1 && r.cpu_threads == #[trigger] limits::thread_count(
                cpu_threads_var.deep_view(),
                cpus,
                limits::MAX_CPU_THREADS as nat,
            ),
        r.openvino == openvino,
{
    let cuda_memory_limit: u64 = if request.cuda {
        limits::get_cuda_memory_limit_for_model(state, host, request.model_tag.as_str())
    } else {
        0
    };
    SessionResources {
        gpu_host_threads: limits::get_optimal_gpu_host_threads(gpu_threads_var),
        cpu_threads: limits::get_optimal_cpu_threads(cpu_threads_var),
        cuda_memory_limit,
        openvino,
    }
}

/// How a session is to be built for an attempt: graph optimisation of level three, no memory
/// pattern and no memory arena of the CPU in any case; OpenVINO sees to its threads itself, and
/// DirectML keeps the weights in the memory of the device.
pub open spec fn configured(attempt: Attempt, resources: SessionResources) -> SessionConfigView {
    SessionConfigView {
        intra_threads: match attempt {
            Attempt::OpenVino => None,
            Attempt::Cpu => Some(resources.cpu_threads),
            _ => Some(resources.gpu_host_threads),
        },
        optimization_level: 3,
        memory_pattern: false,
        config_entries: if attempt == Attempt::DirectMl {
            seq![
                ("session.enable_cpu_mem_arena"@, "0"@),
                ("session.use_device_allocator_for_initializers"@, "1"@),
            ]
        } else {
            seq![("session.enable_cpu_mem_arena"@, "0"@)]
        },
        provider: match attempt {
            Attempt::Cuda { .. } => ProviderOptionsView::Cuda {
                memory_limit: resources.cuda_memory_limit,
                arena_next_power_of_two: true,
            },
            Attempt::CoreMl => ProviderOptionsView::CoreMl,
            Attempt::OpenVino => ProviderOptionsView::OpenVino {
                device_type: resources.openvino@.device_type,
                cache_dir: resources.openvino@.cache_dir,
            },
            Attempt::DirectMl => ProviderOptionsView::DirectMl,
            Attempt::Cpu => ProviderOptionsView::Cpu,
        },
    }
}

/// How a session is to be built for an attempt.
pub fn session_config(attempt: Attempt, resources: &SessionResources) -> (r: SessionConfig)
    ensures
        r@ == configured(attempt, *resources),
{
    let intra_threads: Option<usize> = match attempt {
        Attempt::OpenVino => None,
        Attempt::Cpu => Some(resources.cpu_threads),
        _ => Some(resources.gpu_host_threads),
    };
    let mut config_entries: Vec<(String, String)> = Vec::new();
    config_entries.push(("session.enable_cpu_mem_arena".to_owned(), "0".to_owned()));
    if attempt == Attempt::DirectMl {
        config_entries.push(
            ("session.use_device_allocator_for_initializers".to_owned(), "1".to_owned()),
        );
    }
    let provider: ProviderOptions = match attempt {
        Attempt::Cuda { .. } => ProviderOptions::Cuda {
            memory_limit: resources.cuda_memory_limit,
            arena_next_power_of_two: true,
        },
        Attempt::CoreMl => ProviderOptions::CoreMl,
        Attempt::OpenVino => ProviderOptions::OpenVino {
            device_type: resources.openvino.device_type.clone(),
            cache_dir: resources.openvino.cache_dir.clone(),
        },
        Attempt::DirectMl => ProviderOptions::DirectMl,
        Attempt::Cpu => ProviderOptions::Cpu,
    };
    let r = SessionConfig {
        intra_threads,
        optimization_level: 3,
        memory_pattern: false,
        config_entries,
        provider,
    };
    assert(r@.config_entries =~= configured(attempt, *resources).config_entries);
    r
}

// ---------------------------------------------------------------------------
// Laws
// ---------------------------------------------------------------------------

/// The attempt that a step leads to.
pub open spec fn follows(step: Next) -> Option<Attempt> {
    match step {
        Next::Retry { attempt, .. } => Some(attempt),
        Next::Try { attempt } => Some(attempt),
        Next::GiveUp => None,
    }
}

/// How many attempts can still be made, this one counted in.
pub open spec fn remaining(attempt: Attempt) -> nat {
    match attempt {
        Attempt::Cuda { number } => if number < MAX_CUDA_ATTEMPTS {
            (5 + MAX_CUDA_ATTEMPTS - number) as nat
        } else {
            5
        },
        Attempt::CoreMl => 4,
        Attempt::OpenVino => 3,
        Attempt::DirectMl => 2,
        Attempt::Cpu => 1,
    }
}

/// The attempts that are made from a given one on, if every one fails.
pub open spec fn trail(request: SessionRequestView, attempt: Attempt) -> Seq<Attempt>
    decreases remaining(attempt),
{
    match follows(next(request, attempt)) {
        Some(then_attempt) => seq![attempt] + trail(request, then_attempt),
        None => seq![attempt],
    }
}

/// If every attempt fails, the attempts are these and no others: CUDA three times, CoreML,
/// OpenVINO and DirectML once each, as far as they are asked for, and the CPU last in any case.
pub proof fn law_every_session_falls_back_to_the_cpu(request: SessionRequestView)
    ensures
        trail(request, first(request)) == (if request.cuda {
            seq![
                Attempt::Cuda { number: 1 },
                Attempt::Cuda { number: 2 },
                Attempt::Cuda { number: 3 },
            ]
        } else {
            seq![]
        }) + (if request.coreml {
            seq![Attempt::CoreMl]
        } else {
            seq![]
        }) + (if request.openvino {
            seq![Attempt::OpenVino]
        } else {
            seq![]
        }) + (if request.directml {
            seq![Attempt::DirectMl]
        } else {
            seq![]
        }) + seq![Attempt::Cpu],
{
    reveal_with_fuel(trail, 8);
}

/// Only the CPU's own failure ends the search, and every failure leaves fewer attempts.
pub proof fn law_failures_make_progress(request: SessionRequestView, attempt: Attempt)
    ensures
        next(request, attempt) == Next::GiveUp <==> attempt == Attempt::Cpu,
        follows(next(request, attempt)) is Some ==> remaining(
            follows(next(request, attempt))->0,
        ) < remaining(attempt),
        remaining(attempt) >= 1,
{
}

/// A model is tried on an accelerator only where that is built in and the plan of the engine
/// holds it; text recognition never on OpenVINO, character recognition never on DirectML.
pub proof fn law_only_planned_accelerators_are_tried(
    features: Features,
    list: Seq<Seq<char>>,
    model_tag: Seq<char>,
)
    ensures
        ({
            let r = request_for(features, list, model_tag);
            &&& r.cuda ==> features.cuda && list.contains(EP_CUDA@)
            &&& r.coreml ==> features.coreml && list.contains(EP_COREML@)
            &&& r.openvino ==> features.openvino && list.contains(EP_OPENVINO@) && !text::occurs(
                model_tag,
                "rec"@,
            )
            &&& r.directml ==> features.directml && list.contains(EP_DIRECTML@) && !is_ocr(
                model_tag,
            )
        }),
{
    plan::law_recognition_stays_off_openvino(model_tag, list);
    plan::lemma_provider_names();
    if plan::effective(model_tag, list) != list {
        let only = seq![plan::provider(Backend::Cpu)];
        assert(plan::effective(model_tag, list) =~= only);
        assert(plan::provider(Backend::Cuda) != only[0]);
        assert(plan::provider(Backend::CoreMl) != only[0]);
        assert(plan::provider(Backend::DirectMl) != only[0]);
    }
}

/// After the last attempt at CUDA, CoreML or OpenVINO failed, the engine neither plans nor
/// reports that accelerator, whatever is asked for and whatever the host looks like, and the
/// status carries the error as a warning.
pub proof fn law_failed_accelerator_is_dropped(
    state: DeviceStateView,
    host: HostView,
    model_tag: Seq<char>,
    attempt: Attempt,
    error: Seq<char>,
)
    requires
        attempt == (Attempt::Cuda { number: MAX_CUDA_ATTEMPTS }) || attempt == Attempt::CoreMl
            || attempt == Attempt::OpenVino,
    ensures
        ({
            let s = after_failure(state, model_tag, attempt, error);
            &&& !status::probed(s, host).0.contains(plan::provider(backend(attempt)))
            &&& s.last_gpu_error is Some
            &&& status::hardware_status(s, host).gpu_warning == Some(
                status::failure_warning(s.last_gpu_error->0),
            )
        }),
{
    settings::law_failed_runtime_is_not_planned(
        after_failure(state, model_tag, attempt, error),
        host,
    );
}

/// Under the plan of the engine no session is tried on an accelerator whose runtime has failed.
pub proof fn law_failed_accelerator_is_not_tried(
    state: DeviceStateView,
    host: HostView,
    model_tag: Seq<char>,
)
    ensures
        ({
            let r = request_for(host.features, status::probed(state, host).0, model_tag);
            &&& state.cuda_runtime_failed ==> !r.cuda
            &&& state.coreml_runtime_failed ==> !r.coreml
            &&& state.openvino_runtime_failed ==> !r.openvino
        }),
{
    let list = status::probed(state, host).0;
    settings::law_failed_runtime_is_not_planned(state, host);
    law_only_planned_accelerators_are_tried(host.features, list, model_tag);
}

/// Attempts keep the state well formed.
pub proof fn law_attempts_keep_the_state_well_formed(
    state: DeviceStateView,
    model_tag: Seq<char>,
    attempt: Attempt,
    error: Seq<char>,
)
    requires
        state.well_formed(),
    ensures
        after_success(state, attempt).well_formed(),
        after_failure(state, model_tag, attempt, error).well_formed(),
{
}

/// A runtime that has failed stays failed. Attempts and memory limits take back no failure; the
/// next request for a device takes back those of CUDA and CoreML; nothing takes back that of
/// OpenVINO.
pub proof fn law_failures_stay(
    state: DeviceStateView,
    device: Seq<char>,
    mb: Option<u64>,
    stored: Seq<settings::AppliedSettingView>,
    model_tag: Seq<char>,
    attempt: Attempt,
    error: Seq<char>,
)
    ensures
        ({
            let limited = settings::with_limit(state, mb);
            let opened = after_success(state, attempt);
            let failed = after_failure(state, model_tag, attempt, error);
            &&& state.openvino_runtime_failed ==> settings::with_device(
                state,
                device,
            ).openvino_runtime_failed && limited.openvino_runtime_failed && settings::with_settings(
                state,
                stored,
            ).openvino_runtime_failed && opened.openvino_runtime_failed
                && failed.openvino_runtime_failed
            &&& state.cuda_runtime_failed ==> limited.cuda_runtime_failed
                && opened.cuda_runtime_failed && failed.cuda_runtime_failed
            &&& state.coreml_runtime_failed ==> limited.coreml_runtime_failed
                && opened.coreml_runtime_failed && failed.coreml_runtime_failed
        }),
    decreases stored.len(),
{
    if stored.len() > 0 {
        law_failures_stay(state, device, mb, stored.drop_last(), model_tag, attempt, error);
    }
}

/// A CUDA failure that will be tried again leaves no trace, and a CUDA session that opens clears
/// the last error.
pub proof fn law_passing_cuda_failure_leaves_no_trace(
    state: DeviceStateView,
    request: SessionRequestView,
    number: u32,
    error: Seq<char>,
)
    requires
        1 <= number < MAX_CUDA_ATTEMPTS,
    ensures
        after_failure(state, request.model_tag, Attempt::Cuda { number }, error) == state,
        next(request, Attempt::Cuda { number }) == (Next::Retry {
            pause_ms: (number * 250) as u64,
            attempt: Attempt::Cuda { number: (number + 1) as u32 },
        }),
        after_success(state, Attempt::Cuda { number }).last_gpu_error is None,
{
}

/// The request is complete: under a plan without OpenVINO every model is tried on CUDA and CoreML
/// exactly where they are built in and planned, and on DirectML too unless its tag holds `ocr` or
/// `rec`. A model whose tag does not hold `rec` gets OpenVINO in the same way. Only a tag with
/// `rec` under a plan with OpenVINO is tried on nothing but the CPU.
pub proof fn law_request_is_complete(features: Features, list: Seq<Seq<char>>, tag: Seq<char>)
    ensures
        ({
            let r = request_for(features, list, tag);
            let openvino = list.contains("OpenVINOExecutionProvider"@);
            let rec = text::occurs(tag, "rec"@);
            let ocr = text::occurs(tag, "ocr"@);
            &&& r.model_tag == tag
            &&& !openvino || !rec ==> {
                &&& r.cuda <==> features.cuda && list.contains("CUDAExecutionProvider"@)
                &&& r.coreml <==> features.coreml && list.contains("CoreMLExecutionProvider"@)
                &&& r.openvino <==> features.openvino && openvino
                &&& !ocr && !rec ==> (r.directml <==> features.directml && list.contains(
                    "DmlExecutionProvider"@,
                ))
            }
            &&& ocr || rec ==> !r.directml
            &&& openvino && rec ==> !r.cuda && !r.coreml && !r.openvino && !r.directml
        }),
{
    plan::lemma_provider_names();
    if !text::occurs(tag, "ocr"@) {
        assert(tag != "rapid_ocr_det"@) by {
            if tag == "rapid_ocr_det"@ {
                reveal_strlit("rapid_ocr_det");
                reveal_strlit("ocr");
                assert(tag.subrange(6, 9) =~= "ocr"@);
                assert(text::occurs_at(tag, "ocr"@, 6));
            }
        }
    }
    let only = seq![plan::provider(Backend::Cpu)];
    assert(plan::provider(Backend::Cuda) != only[0]);
    assert(plan::provider(Backend::CoreMl) != only[0]);
    assert(plan::provider(Backend::OpenVino) != only[0]);
    if list.contains("OpenVINOExecutionProvider"@) && text::occurs(tag, "rec"@) {
        assert(plan::effective(tag, list) =~= only);
    }
}

/// A success changes the last error and nothing else: on CUDA it is cleared, elsewhere it stays.
pub proof fn law_success(state: DeviceStateView, number: u32)
    ensures
        after_success(state, Attempt::Cuda { number }) == (DeviceStateView {
            last_gpu_error: None,
            ..state
        }),
        after_success(state, Attempt::CoreMl) == state,
        after_success(state, Attempt::OpenVino) == state,
        after_success(state, Attempt::DirectMl) == state,
        after_success(state, Attempt::Cpu) == state,
{
}

/// A failure leaves its error, named after the accelerator, and flags the runtime of CUDA after
/// the third attempt, of CoreML and of OpenVINO. Nothing else changes, and a failure of the CPU
/// leaves nothing.
pub proof fn law_failure(state: DeviceStateView, tag: Seq<char>, error: Seq<char>)
    ensures
        after_failure(state, tag, Attempt::Cuda { number: 3 }, error) == (DeviceStateView {
            cuda_runtime_failed: true,
            last_gpu_error: Some("CUDA init error for "@ + tag + ": "@ + error),
            ..state
        }),
        after_failure(state, tag, Attempt::CoreMl, error) == (DeviceStateView {
            coreml_runtime_failed: true,
            last_gpu_error: Some("CoreML init error: "@ + error),
            ..state
        }),
        after_failure(state, tag, Attempt::OpenVino, error) == (DeviceStateView {
            openvino_runtime_failed: true,
            last_gpu_error: Some("OpenVINO init error: "@ + error),
            ..state
        }),
        after_failure(state, tag, Attempt::DirectMl, error) == (DeviceStateView {
            last_gpu_error: Some("DirectML init error: "@ + error),
            ..state
        }),
        after_failure(state, tag, Attempt::Cpu, error) == state,
{
}

/// Every session is built with graph optimisation of level three, without memory pattern and
/// without the memory arena of the CPU. An accelerator gets the host threads, the CPU its own and
/// OpenVINO none. Each gets its own provider and options, and DirectML alone keeps weights in the
/// memory of the device.
pub proof fn law_configuration(attempt: Attempt, resources: SessionResources)
    ensures
        ({
            let c = configured(attempt, resources);
            &&& c.optimization_level == 3
            &&& !c.memory_pattern
            &&& c.config_entries.len() == (if attempt == Attempt::DirectMl {
                2nat
            } else {
                1nat
            })
            &&& c.config_entries[0] == ("session.enable_cpu_mem_arena"@, "0"@)
            &&& attempt == Attempt::DirectMl ==> c.config_entries[1] == (
                "session.use_device_allocator_for_initializers"@,
                "1"@,
            )
            &&& attempt is Cuda ==> c.intra_threads == Some(resources.gpu_host_threads)
                && c.provider == (ProviderOptionsView::Cuda {
                memory_limit: resources.cuda_memory_limit,
                arena_next_power_of_two: true,
            })
            &&& attempt == Attempt::CoreMl ==> c.intra_threads == Some(resources.gpu_host_threads)
                && c.provider == ProviderOptionsView::CoreMl
            &&& attempt == Attempt::OpenVino ==> c.intra_threads is None && c.provider == (
            ProviderOptionsView::OpenVino {
                device_type: resources.openvino.device_type@,
                cache_dir: resources.openvino.cache_dir@,
            })
            &&& attempt == Attempt::DirectMl ==> c.intra_threads == Some(
                resources.gpu_host_threads,
            ) && c.provider == ProviderOptionsView::DirectMl
            &&& attempt == Attempt::Cpu ==> c.intra_threads == Some(resources.cpu_threads)
                && c.provider == ProviderOptionsView::Cpu
        }),
{
}

/// A variable that is set decides. Without one OpenVINO runs on the GPU, and keeps what it has
/// compiled in `/config/ov-cache` where that can be written to, or else in the temporary
/// directory.
pub proof fn law_openvino_options(
    device: Option<Seq<char>>,
    cache: Option<Seq<char>>,
    writable: bool,
    temporary: Seq<char>,
)
    ensures
        ({
            let o = openvino_settings(device, cache, writable, temporary);
            &&& device is Some ==> o.device_type == device->0
            &&& device is None ==> o.device_type == "GPU"@
            &&& cache is Some ==> o.cache_dir == cache->0
            &&& cache is None && writable ==> o.cache_dir == "/config/ov-cache"@
            &&& cache is None && !writable ==> o.cache_dir == temporary
        }),
{
}

} // verus!
