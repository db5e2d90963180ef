//! The hardware status: what the engine runs on and what it warns of.

use crate::gpu;
use crate::gpu::{GpuInfo, GpuInfoView, AMD_VENDOR_ID, MB};
use crate::limits;
use crate::plan;
use crate::plan::{DeviceInputs, DeviceInputsView, EP_CPU, EP_DIRECTML};
use crate::state::{DeviceState, DeviceStateView, Host, HostView};
use crate::text;
use vstd::prelude::*;

verus! {

// ---------------------------------------------------------------------------
// Probing
// ---------------------------------------------------------------------------

/// The device that is asked for: the setting, or else the variable, or else none in particular.
pub open spec fn requested_device(state: DeviceStateView, host: HostView) -> Seq<char> {
    match (state.override_device, host.device_var) {
        (Some(device), _) => device,
        (None, Some(device)) => device,
        (None, None) => seq![],
    }
}

/// What the plan depends on, given the requested device in lower case. A backend is usable only
/// where it is built in and its runtime has not failed.
pub open spec fn device_inputs(
    state: DeviceStateView,
    host: HostView,
    device: Seq<char>,
) -> DeviceInputsView {
    DeviceInputsView {
        env_override: device,
        openvino_usable: host.features.openvino && !state.openvino_runtime_failed,
        cuda_usable: host.features.cuda && !state.cuda_runtime_failed,
        coreml_usable: host.features.coreml && !state.coreml_runtime_failed,
        dml_compiled: host.features.directml,
        dedicated_gpu_name: match gpu::first_dedicated(host.gpus) {
            Some(g) => Some(g.name),
            None => None,
        },
    }
}

/// The plan under a requested device in lower case.
pub open spec fn plan_for(state: DeviceStateView, host: HostView, device: Seq<char>) -> (
    Seq<Seq<char>>,
    Seq<char>,
) {
    plan::device_plan(device_inputs(state, host, device))
}

/// The plan of the engine as it stands.
pub open spec fn probed(state: DeviceStateView, host: HostView) -> (Seq<Seq<char>>, Seq<char>) {
    plan_for(state, host, text::lowercase(requested_device(state, host)))
}

fn read_requested_device(state: &DeviceState, host: &Host) -> (r: String)
    ensures
        r@ == requested_device(state@, host@),
{
    if let Some(device) = &state.override_device {
        return device.clone();
    }
    if let Some(device) = &host.device_var {
        return device.clone();
    }
    String::new()
}

/// What the plan depends on, given the requested device in lower case.
pub fn gather_inputs(state: &DeviceState, host: &Host, device: String) -> (r: DeviceInputs)
    ensures
        r@ == device_inputs(state@, host@, device@),
{
    let dedicated_gpu_name: Option<String> = match gpu::get_dedicated_gpu(&host.gpus) {
        Some(g) => Some(g.name),
        None => None,
    };
    DeviceInputs {
        env_override: device,
        openvino_usable: host.features.openvino && !state.openvino_runtime_failed,
        cuda_usable: host.features.cuda && !state.cuda_runtime_failed,
        coreml_usable: host.features.coreml && !state.coreml_runtime_failed,
        dml_compiled: host.features.directml,
        dedicated_gpu_name,
    }
}

/// The plan of the engine as it stands: the providers in the order in which they are tried, and
/// the name of the plan. The requested device is read in any case.
pub fn probe_hardware(state: &DeviceState, host: &Host) -> (r: (Vec<String>, String))
    ensures
        (r.0.deep_view(), r.1@) == probed(state@, host@),
        text::ascii(requested_device(state@, host@)) ==> (r.0.deep_view(), r.1@) == plan_for(
            state@,
            host@,
            text::lowered(requested_device(state@, host@)),
        ),
{
    let device = read_requested_device(state, host);
    let inputs = gather_inputs(state, host, text::to_lowercase(device.as_str()));
    plan::resolve_device_plan(&inputs)
}

// ---------------------------------------------------------------------------
// The status
// ---------------------------------------------------------------------------

/// What the engine reports of its hardware.
#[derive(Debug)]
pub struct HardwareStatus {
    pub device_label: String,
    pub active_provider: String,
    pub providers: Vec<String>,
    pub available_providers: Vec<String>,
    pub has_cuda: bool,
    pub has_directml: bool,
    pub has_directml_raw: bool,
    pub has_coreml: bool,
    pub has_dedicated_gpu: bool,
    pub detected_gpus: Vec<GpuInfo>,
    pub gpu_warning: Option<String>,
    pub reloading: bool,
    pub cuda_vram_limit_mb: Option<u64>,
    pub configured_cuda_vram_limit_mb: Option<u64>,
    pub version: String,
    pub app_version: String,
    pub web_build_hash: String,
    pub web_build_time: String,
}

/// `HardwareStatus` with its texts as sequences of characters.
pub struct HardwareStatusView {
    pub device_label: Seq<char>,
    pub active_provider: Seq<char>,
    pub providers: Seq<Seq<char>>,
    pub available_providers: Seq<Seq<char>>,
    pub has_cuda: bool,
    pub has_directml: bool,
    pub has_directml_raw: bool,
    pub has_coreml: bool,
    pub has_dedicated_gpu: bool,
    pub detected_gpus: Seq<GpuInfoView>,
    pub gpu_warning: Option<Seq<char>>,
    pub reloading: bool,
    pub cuda_vram_limit_mb: Option<u64>,
    pub configured_cuda_vram_limit_mb: Option<u64>,
    pub version: Seq<char>,
    pub app_version: Seq<char>,
    pub web_build_hash: Seq<char>,
    pub web_build_time: Seq<char>,
}

impl View for HardwareStatus {
    type V = HardwareStatusView;

    open spec fn view(&self) -> HardwareStatusView {
        HardwareStatusView {
            device_label: self.device_label@,
            active_provider: self.active_provider@,
            providers: self.providers.deep_view(),
            available_providers: self.available_providers.deep_view(),
            has_cuda: self.has_cuda,
            has_directml: self.has_directml,
            has_directml_raw: self.has_directml_raw,
            has_coreml: self.has_coreml,
            has_dedicated_gpu: self.has_dedicated_gpu,
            detected_gpus: self.detected_gpus.deep_view(),
            gpu_warning: self.gpu_warning.deep_view(),
            reloading: self.reloading,
            cuda_vram_limit_mb: self.cuda_vram_limit_mb,
            configured_cuda_vram_limit_mb: self.configured_cuda_vram_limit_mb,
            version: self.version@,
            app_version: self.app_version@,
            web_build_hash: self.web_build_hash@,
            web_build_time: self.web_build_time@,
        }
    }
}

/// The first dedicated AMD adapter of a list.
pub open spec fn first_amd(gpus: Seq<GpuInfoView>) -> Option<GpuInfoView>
    decreases gpus.len(),
{
    if gpus.len() == 0 {
        None
    } else if gpus[0].vendor_id == AMD_VENDOR_ID && gpus[0].is_dedicated {
        Some(gpus[0])
    } else {
        first_amd(gpus.drop_first())
    }
}

/// Whether the CPU is the only provider.
pub open spec fn cpu_only(providers: Seq<Seq<char>>) -> bool {
    providers.len() > 0 && forall|i: int| 0 <= i < providers.len() ==> providers[i] == EP_CPU@
}

/// The warning that an accelerator failed.
pub open spec fn failure_warning(error: Seq<char>) -> Seq<char> {
    "Dedicated GPU was detected, but GPU session initialization failed ("@ + error
        + "). Running on multi-threaded CPU."@
}

/// The warning that the only adapters are integrated ones.
pub open spec fn integrated_warning(name: Seq<char>) -> Seq<char> {
    "Integrated GPU detected ("@ + name
        + "). GPU acceleration is disabled to protect against desktop freezing and driver crashes. Running on multi-threaded CPU."@
}

/// The warning that a dedicated AMD adapter is not made use of.
pub open spec fn amd_warning(name: Seq<char>) -> Seq<char> {
    "AMD GPU detected ("@ + name
        + "). The default Linux release runs on CPU; NVIDIA CUDA acceleration requires a separate CUDA build, and AMD/ROCm is not yet supported. Running on multi-threaded CPU."@
}

/// The warning that goes with a status: of a failure, of integrated adapters only, or of an AMD
/// adapter while the CPU does the work, in this order.
pub open spec fn warning(
    last_error: Option<Seq<char>>,
    gpus: Seq<GpuInfoView>,
    providers: Seq<Seq<char>>,
) -> Option<Seq<char>> {
    if last_error is Some {
        Some(failure_warning(last_error->0))
    } else if !providers.contains(EP_DIRECTML@) && gpus.len() > 0 && gpu::first_dedicated(
        gpus,
    ) is None {
        Some(integrated_warning(gpus[0].name))
    } else if cpu_only(providers) && first_amd(gpus) is Some {
        Some(amd_warning(first_amd(gpus)->0.name))
    } else {
        None
    }
}

/// The status of the engine under a given plan.
pub open spec fn status_under(
    state: DeviceStateView,
    host: HostView,
    providers: Seq<Seq<char>>,
    label: Seq<char>,
) -> HardwareStatusView {
    let dedicated = gpu::first_dedicated(host.gpus) is Some;
    HardwareStatusView {
        device_label: label,
        active_provider: if providers.len() > 0 {
            providers[0]
        } else {
            EP_CPU@
        },
        providers,
        available_providers: providers,
        has_cuda: host.features.cuda && dedicated && !state.cuda_runtime_failed,
        has_directml: providers.contains(EP_DIRECTML@),
        has_directml_raw: host.features.directml && dedicated,
        has_coreml: host.features.coreml && dedicated && !state.coreml_runtime_failed,
        has_dedicated_gpu: dedicated,
        detected_gpus: host.gpus,
        gpu_warning: warning(state.last_gpu_error, host.gpus, providers),
        reloading: false,
        cuda_vram_limit_mb: Some((limits::cuda_limit(state, host, "rfdetr"@) / MB as nat) as u64),
        configured_cuda_vram_limit_mb: state.override_cuda_mem_limit_mb,
        version: host.build.version,
        app_version: host.build.app_version,
        web_build_hash: host.build.web_build_hash,
        web_build_time: host.build.web_build_time,
    }
}

/// The status under a requested device in lower case.
pub open spec fn status_for(
    state: DeviceStateView,
    host: HostView,
    device: Seq<char>,
) -> HardwareStatusView {
    status_under(state, host, plan_for(state, host, device).0, plan_for(state, host, device).1)
}

/// The status of the engine as it stands.
pub open spec fn hardware_status(state: DeviceStateView, host: HostView) -> HardwareStatusView {
    status_for(state, host, text::lowercase(requested_device(state, host)))
}

fn find_amd(gpus: &Vec<GpuInfo>) -> (r: Option<GpuInfo>)
    ensures
        r.deep_view() == first_amd(gpus.deep_view()),
{
    let n = gpus.len();
    let mut i: usize = 0;
    assert(gpus.deep_view().skip(0) =~= gpus.deep_view());
    while i < n
        invariant
            i <= n,
            n == gpus@.len(),
            first_amd(gpus.deep_view()) == first_amd(gpus.deep_view().skip(i as int)),
        decreases n - i,
    {
        assert(gpus.deep_view().skip(i as int)[0] == gpus@[i as int]@);
        if gpus[i].vendor_id == AMD_VENDOR_ID && gpus[i].is_dedicated {
            return Some(gpus[i].clone());
        }
        assert(gpus.deep_view().skip(i as int).drop_first() =~= gpus.deep_view().skip(i + 1));
        i += 1;
    }
    None
}

fn is_cpu_only(providers: &Vec<String>) -> (r: bool)
    ensures
        r == cpu_only(providers.deep_view()),
{
    let n = providers.len();
    if n == 0 {
        return false;
    }
    let mut i: usize = 0;
    while i < n
        invariant
            i <= n,
            n == providers@.len(),
            forall|j: int| 0 <= j < i ==> (#[trigger] providers@[j])@ == EP_CPU@,
        decreases n - i,
    {
        if !text::same(providers[i].as_str(), EP_CPU) {
            assert(providers.deep_view()[i as int] != EP_CPU@);
            return false;
        }
        i += 1;
    }
    assert forall|j: int| 0 <= j < n implies providers.deep_view()[j] == EP_CPU@ by {
        assert(providers@[j]@ == EP_CPU@);
    }
    true
}

fn enclosed(before: &str, middle: &str, after: &str) -> (r: String)
    ensures
        r@ == before@ + middle@ + after@,
{
    let mut r: String = before.to_owned();
    r.append(middle);
    r.append(after);
    r
}

/// The warning that goes with a status.
pub fn gpu_warning(
    last_error: &Option<String>,
    gpus: &Vec<GpuInfo>,
    providers: &Vec<String>,
) -> (r: Option<String>)
    ensures
        r.deep_view() == warning(
            last_error.deep_view(),
            gpus.deep_view(),
            providers.deep_view(),
        ),
{
    if let Some(error) = last_error {
        return Some(
            enclosed(
                "Dedicated GPU was detected, but GPU session initialization failed (",
                error.as_str(),
                "). Running on multi-threaded CPU.",
            ),
        );
    }
    let list = providers.as_slice();
    assert(list.deep_view() =~= providers.deep_view());
    let dml_active = plan::lists_provider(list, EP_DIRECTML);
    if !dml_active && gpus.len() > 0 && gpu::get_dedicated_gpu(gpus).is_none() {
        assert(gpus.deep_view()[0] == gpus@[0]@);
        return Some(
            enclosed(
                "Integrated GPU detected (",
                gpus[0].name.as_str(),
                "). GPU acceleration is disabled to protect against desktop freezing and driver crashes. Running on multi-threaded CPU.",
            ),
        );
    }
    if is_cpu_only(providers) {
        if let Some(g) = find_amd(gpus) {
            return Some(
                enclosed(
                    "AMD GPU detected (",
                    g.name.as_str(),
                    "). The default Linux release runs on CPU; NVIDIA CUDA acceleration requires a separate CUDA build, and AMD/ROCm is not yet supported. Running on multi-threaded CPU.",
                ),
            );
        }
    }
    None
}

/// The status of the engine under a given plan.
pub fn status_for_plan(
    state: &DeviceState,
    host: &Host,
    providers: Vec<String>,
    label: String,
) -> (r: HardwareStatus)
    requires
        limits::limit_fits(state@, host@),
    ensures
        r@ == status_under(state@, host@, providers.deep_view(), label@),
{
    let has_dedicated_gpu = gpu::get_dedicated_gpu(&host.gpus).is_some();
    let list = providers.as_slice();
    assert(list.deep_view() =~= providers.deep_view());
    let has_directml = plan::lists_provider(list, EP_DIRECTML);
    let available_providers = plan::copy_texts(list);
    let active_provider: String = if providers.len() > 0 {
        assert(providers.deep_view()[0] == providers@[0]@);
        providers[0].clone()
    } else {
        EP_CPU.to_owned()
    };
    let limit_mb: u64 = limits::get_cuda_gpu_memory_limit(state, host) / MB;
    HardwareStatus {
        device_label: label,
        active_provider,
        available_providers,
        has_cuda: host.features.cuda && has_dedicated_gpu && !state.cuda_runtime_failed,
        has_directml,
        has_directml_raw: host.features.directml && has_dedicated_gpu,
        has_coreml: host.features.coreml && has_dedicated_gpu && !state.coreml_runtime_failed,
        has_dedicated_gpu,
        detected_gpus: gpu::copy_gpus(&host.gpus),
        gpu_warning: gpu_warning(&state.last_gpu_error, &host.gpus, &providers),
        providers,
        reloading: false,
        cuda_vram_limit_mb: Some(limit_mb),
        configured_cuda_vram_limit_mb: state.override_cuda_mem_limit_mb,
        version: host.build.version.clone(),
        app_version: host.build.app_version.clone(),
        web_build_hash: host.build.web_build_hash.clone(),
        web_build_time: host.build.web_build_time.clone(),
    }
}

/// The status of the engine as it stands.
pub fn get_hardware_status(state: &DeviceState, host: &Host) -> (r: HardwareStatus)
    requires
        limits::limit_fits(state@, host@),
    ensures
        r@ == hardware_status(state@, host@),
        text::ascii(requested_device(state@, host@)) ==> r@ == status_for(
            state@,
            host@,
            text::lowered(requested_device(state@, host@)),
        ),
{
    let (providers, label) = probe_hardware(state, host);
    status_for_plan(state, host, providers, label)
}

// ---------------------------------------------------------------------------
// Laws
// ---------------------------------------------------------------------------

/// The device that is asked for is the setting, whatever the variable says; without one it is the
/// variable, and without that nothing.
pub proof fn law_requested_device(state: DeviceStateView, host: HostView, d: Seq<char>)
    ensures
        state.override_device == Some(d) ==> requested_device(state, host) == d,
        state.override_device is None && host.device_var == Some(d) ==> requested_device(
            state,
            host,
        ) == d,
        state.override_device is None && host.device_var is None ==> requested_device(
            state,
            host,
        ).len() == 0,
{
}

/// A plan is made for the device that is asked for. A backend counts exactly where it is built in
/// and its runtime has not failed, and the dedicated adapter is the first one that is flagged so.
pub proof fn law_inputs_of_a_plan(
    state: DeviceStateView,
    host: HostView,
    device: Seq<char>,
    k: int,
)
    ensures
        ({
            let i = device_inputs(state, host, device);
            &&& plan_for(state, host, device) == plan::device_plan(i)
            &&& probed(state, host) == plan_for(
                state,
                host,
                text::lowercase(requested_device(state, host)),
            )
            &&& status_for(state, host, device) == status_under(
                state,
                host,
                plan_for(state, host, device).0,
                plan_for(state, host, device).1,
            )
            &&& hardware_status(state, host) == status_under(
                state,
                host,
                probed(state, host).0,
                probed(state, host).1,
            )
            &&& i.env_override == device
            &&& i.cuda_usable <==> host.features.cuda && !state.cuda_runtime_failed
            &&& i.coreml_usable <==> host.features.coreml && !state.coreml_runtime_failed
            &&& i.openvino_usable <==> host.features.openvino && !state.openvino_runtime_failed
            &&& i.dml_compiled <==> host.features.directml
            &&& i.dedicated_gpu_name is None <==> (forall|j: int|
                0 <= j < host.gpus.len() ==> !(#[trigger] host.gpus[j]).is_dedicated)
            &&& 0 <= k < host.gpus.len() && host.gpus[k].is_dedicated && (forall|j: int|
                0 <= j < k ==> !(#[trigger] host.gpus[j]).is_dedicated) ==> i.dedicated_gpu_name
                == Some(host.gpus[k].name)
        }),
{
    gpu::law_first_dedicated(host.gpus);
}

/// The capabilities of a status, under every plan: CUDA and CoreML where they are built in, their
/// runtime has not failed and some adapter is dedicated; DirectML at work where the plan holds
/// it, and as a capability where it is built in and some adapter is dedicated.
pub proof fn law_capabilities(
    state: DeviceStateView,
    host: HostView,
    providers: Seq<Seq<char>>,
    label: Seq<char>,
)
    ensures
        ({
            let s = status_under(state, host, providers, label);
            let dedicated = exists|i: int|
                0 <= i < host.gpus.len() && (#[trigger] host.gpus[i]).is_dedicated;
            &&& s.has_dedicated_gpu <==> dedicated
            &&& s.has_cuda <==> host.features.cuda && !state.cuda_runtime_failed && dedicated
            &&& s.has_coreml <==> host.features.coreml && !state.coreml_runtime_failed && dedicated
            &&& s.has_directml_raw <==> host.features.directml && dedicated
            &&& s.has_directml <==> providers.contains("DmlExecutionProvider"@)
            &&& s.has_cuda || s.has_coreml || s.has_directml_raw ==> s.has_dedicated_gpu
        }),
{
    gpu::law_first_dedicated(host.gpus);
}

/// What a status passes on, under every plan: the plan, its first provider as the active one, the
/// adapters, the limits and the build.
pub proof fn law_status_passes_on(
    state: DeviceStateView,
    host: HostView,
    providers: Seq<Seq<char>>,
    label: Seq<char>,
)
    requires
        limits::limit_fits(state, host),
    ensures
        ({
            let s = status_under(state, host, providers, label);
            &&& s.device_label == label
            &&& s.providers == providers
            &&& s.available_providers == providers
            &&& providers.len() > 0 ==> s.active_provider == providers[0]
            &&& providers.len() == 0 ==> s.active_provider == "CPUExecutionProvider"@
            &&& s.detected_gpus == host.gpus
            &&& !s.reloading
            &&& s.configured_cuda_vram_limit_mb == state.override_cuda_mem_limit_mb
            &&& s.cuda_vram_limit_mb is Some
            &&& s.cuda_vram_limit_mb->0 * 1_048_576 == limits::cuda_limit(state, host, "rfdetr"@)
            &&& s.version == host.build.version
            &&& s.app_version == host.build.app_version
            &&& s.web_build_hash == host.build.web_build_hash
            &&& s.web_build_time == host.build.web_build_time
        }),
{
    match limits::explicit_limit_mb(state, host) {
        Some(mb) => {
            assert((mb * MB as nat) / MB as nat == mb);
        },
        None => {},
    }
}

proof fn lemma_first_amd_by_place(gpus: Seq<GpuInfoView>, k: int)
    requires
        0 <= k <= gpus.len(),
        forall|j: int|
            0 <= j < k ==> !((#[trigger] gpus[j]).vendor_id == 0x1002 && gpus[j].is_dedicated),
        k < gpus.len() ==> gpus[k].vendor_id == 0x1002 && gpus[k].is_dedicated,
    ensures
        first_amd(gpus) == (if k < gpus.len() {
            Some(gpus[k])
        } else {
            None
        }),
    decreases gpus.len(),
{
    if k > 0 {
        assert(!(gpus[0].vendor_id == 0x1002 && gpus[0].is_dedicated));
        let rest = gpus.drop_first();
        assert forall|j: int| 0 <= j < k - 1 implies !((#[trigger] rest[j]).vendor_id == 0x1002
            && rest[j].is_dedicated) by {
            assert(rest[j] == gpus[j + 1]);
        }
        lemma_first_amd_by_place(rest, k - 1);
    }
}

/// A failure of an accelerator is warned of before anything else, with its error.
pub proof fn law_failure_is_warned_of(
    error: Seq<char>,
    gpus: Seq<GpuInfoView>,
    providers: Seq<Seq<char>>,
)
    ensures
        warning(Some(error), gpus, providers) == Some(
            "Dedicated GPU was detected, but GPU session initialization failed ("@ + error
                + "). Running on multi-threaded CPU."@,
        ),
{
}

/// Without a failure, a machine whose adapters are all integrated is warned of, by the name of the
/// first, unless DirectML is at work.
pub proof fn law_integrated_adapters_are_warned_of(
    gpus: Seq<GpuInfoView>,
    providers: Seq<Seq<char>>,
)
    requires
        gpus.len() > 0,
        forall|j: int| 0 <= j < gpus.len() ==> !(#[trigger] gpus[j]).is_dedicated,
    ensures
        !providers.contains("DmlExecutionProvider"@) ==> warning(None, gpus, providers) == Some(
            "Integrated GPU detected ("@ + gpus[0].name
                + "). GPU acceleration is disabled to protect against desktop freezing and driver crashes. Running on multi-threaded CPU."@,
        ),
        providers.contains("DmlExecutionProvider"@) ==> warning(None, gpus, providers) is None,
{
    gpu::law_first_dedicated(gpus);
    assert forall|j: int| 0 <= j < gpus.len() implies !((#[trigger] gpus[j]).vendor_id == 0x1002
        && gpus[j].is_dedicated) by {}
    lemma_first_amd_by_place(gpus, gpus.len() as int);
}

/// Without a failure, and with a dedicated adapter, the only warning is of the first dedicated AMD
/// adapter, by name, while the CPU is the only provider. A machine without adapters is warned of
/// nothing.
pub proof fn law_idle_amd_adapters_are_warned_of(
    gpus: Seq<GpuInfoView>,
    providers: Seq<Seq<char>>,
    k: int,
)
    requires
        0 <= k <= gpus.len(),
        forall|j: int|
            0 <= j < k ==> !((#[trigger] gpus[j]).vendor_id == 0x1002 && gpus[j].is_dedicated),
        k < gpus.len() ==> gpus[k].vendor_id == 0x1002 && gpus[k].is_dedicated,
        gpus.len() == 0 || exists|j: int| 0 <= j < gpus.len() && (#[trigger] gpus[j]).is_dedicated,
    ensures
        ({
            let cpu = providers.len() > 0 && forall|i: int|
                0 <= i < providers.len() ==> (#[trigger] providers[i]) == "CPUExecutionProvider"@;
            &&& cpu && k < gpus.len() ==> warning(None, gpus, providers) == Some(
                "AMD GPU detected ("@ + gpus[k].name
                    + "). The default Linux release runs on CPU; NVIDIA CUDA acceleration requires a separate CUDA build, and AMD/ROCm is not yet supported. Running on multi-threaded CPU."@,
            )
            &&& !cpu || k == gpus.len() ==> warning(None, gpus, providers) is None
        }),
{
    gpu::law_first_dedicated(gpus);
    lemma_first_amd_by_place(gpus, k);
}

} // verus!
