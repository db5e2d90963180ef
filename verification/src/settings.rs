//! Settings made at run time, and those that were stored by an earlier run.

use crate::gpu;
use crate::gpu::{AMD_VENDOR_ID, MB};
use crate::limits;
use crate::plan;
use crate::plan::{Backend, EP_CPU};
use crate::state::{DeviceState, DeviceStateView, Host, HostView};
use crate::status;
use crate::status::HardwareStatus;
use crate::text;
use vstd::prelude::*;

verus! {

// ---------------------------------------------------------------------------
// The device
// ---------------------------------------------------------------------------

/// The state after a device was asked for, trimmed and in lower case. `auto` takes the request
/// back. The failures of CUDA and CoreML may have been passing ones and are forgotten, and so is
/// the last error; a failed OpenVINO runtime stays failed.
pub open spec fn with_device(state: DeviceStateView, device: Seq<char>) -> DeviceStateView {
    DeviceStateView {
        override_device: if device == "auto"@ {
            None
        } else {
            Some(device)
        },
        cuda_runtime_failed: false,
        coreml_runtime_failed: false,
        last_gpu_error: None,
        ..state
    }
}

/// A device name as it is kept: trimmed and in lower case.
pub open spec fn cleaned(mode: Seq<char>) -> Seq<char> {
    text::lowercase(text::trimmed(mode))
}

fn clean(mode: &str) -> (r: String)
    ensures
        r@ == cleaned(mode@),
        text::ascii(text::trimmed(mode@)) ==> r@ == text::lowered(text::trimmed(mode@)),
{
    let chars = text::chars_of(mode);
    let bare = text::string_of(text::trim(chars.as_slice()));
    text::to_lowercase(bare.as_str())
}

/// Asks for a device, given trimmed and in lower case.
pub fn request_device(state: &mut DeviceState, device: String)
    ensures
        final(state)@ == with_device(old(state)@, device@),
        old(state)@.well_formed() ==> final(state)@.well_formed(),
{
    state.override_device = if text::same(device.as_str(), "auto") {
        None
    } else {
        Some(device)
    };
    state.cuda_runtime_failed = false;
    state.coreml_runtime_failed = false;
    state.last_gpu_error = None;
}

/// Asks for a device by name, or for an automatic choice with `auto`, and reports the status
/// that follows.
pub fn set_active_provider(state: &mut DeviceState, host: &Host, mode: &str) -> (r: HardwareStatus)
    requires
        limits::limit_fits(old(state)@, host@),
    ensures
        final(state)@ == with_device(old(state)@, cleaned(mode@)),
        old(state)@.well_formed() ==> final(state)@.well_formed(),
        text::ascii(text::trimmed(mode@)) ==> final(state)@ == with_device(
            old(state)@,
            text::lowered(text::trimmed(mode@)),
        ),
        r@ == status::hardware_status(final(state)@, host@),
        text::ascii(status::requested_device(final(state)@, host@)) ==> r@ == status::status_for(
            final(state)@,
            host@,
            text::lowered(status::requested_device(final(state)@, host@)),
        ),
{
    let device = clean(mode);
    request_device(state, device);
    status::get_hardware_status(state, host)
}

// ---------------------------------------------------------------------------
// The memory limit
// ---------------------------------------------------------------------------

/// The state after a limit was asked for, in megabytes. `None`, or no megabytes at all, takes
/// the request back.
pub open spec fn with_limit(state: DeviceStateView, mb: Option<u64>) -> DeviceStateView {
    DeviceStateView {
        override_cuda_mem_limit_mb: match mb {
            Some(n) if n > 0 => Some(n),
            _ => None,
        },
        ..state
    }
}

/// Asks for a memory limit of CUDA sessions, in megabytes.
pub fn request_limit(state: &mut DeviceState, mb: Option<u64>)
    ensures
        final(state)@ == with_limit(old(state)@, mb),
        final(state)@.well_formed(),
{
    state.override_cuda_mem_limit_mb = match mb {
        Some(n) => if n > 0 {
            Some(n)
        } else {
            None
        },
        None => None,
    };
}

/// Asks for a memory limit of CUDA sessions, in megabytes, and reports the status that follows.
pub fn set_cuda_memory_limit_override(state: &mut DeviceState, host: &Host, mb: Option<u64>) -> (r:
    HardwareStatus)
    requires
        limits::limit_fits(with_limit(old(state)@, mb), host@),
    ensures
        final(state)@ == with_limit(old(state)@, mb),
        final(state)@.well_formed(),
        r@ == status::hardware_status(final(state)@, host@),
        text::ascii(status::requested_device(final(state)@, host@)) ==> r@ == status::status_for(
            final(state)@,
            host@,
            text::lowered(status::requested_device(final(state)@, host@)),
        ),
{
    request_limit(state, mb);
    status::get_hardware_status(state, host)
}

// ---------------------------------------------------------------------------
// Stored settings
// ---------------------------------------------------------------------------

/// Whether a character is white space between the parts of JSON.
pub open spec fn json_blank(c: char) -> bool {
    c == ' ' || c == '\n' || c == '\t' || c == '\r'
}

/// `s` without the blanks of JSON at its start.
pub open spec fn json_trimmed_start(s: Seq<char>) -> Seq<char>
    decreases s.len(),
{
    if s.len() > 0 && json_blank(s[0]) {
        json_trimmed_start(s.drop_first())
    } else {
        s
    }
}

/// `s` without the blanks of JSON at its end.
pub open spec fn json_trimmed_end(s: Seq<char>) -> Seq<char>
    decreases s.len(),
{
    if s.len() > 0 && json_blank(s.last()) {
        json_trimmed_end(s.drop_last())
    } else {
        s
    }
}

/// `s` without the blanks of JSON at either end.
pub open spec fn json_trimmed(s: Seq<char>) -> Seq<char> {
    json_trimmed_end(json_trimmed_start(s))
}

/// What a JSON text is as an optional unsigned number of 64 bits: `null` is no number, and a
/// numeral has neither sign, fraction nor exponent, and no zero before another digit. `None`
/// where the text is neither.
pub open spec fn json_number(value: Seq<char>) -> Option<Option<u64>> {
    let s = json_trimmed(value);
    if s == "null"@ {
        Some(None)
    } else if s.len() == 0 || s[0] == '+' || (s[0] == '0' && s.len() > 1) {
        None
    } else {
        match text::numeral_up_to(s, 10, u64::MAX as nat) {
            Some(n) => Some(Some(n as u64)),
            None => None,
        }
    }
}

/// What `serde_json::from_str` reads as a string; `None` where the text is no such JSON.
pub uninterp spec fn json_string(value: Seq<char>) -> Option<Seq<char>>;

/// Whether a text can stand between JSON quotation marks as it is.
pub open spec fn plain_text(s: Seq<char>) -> bool {
    forall|i: int|
        0 <= i < s.len() ==> #[trigger] s[i] != '"' && s[i] != '\\' && s[i] as u32 >= 0x20
}

/// Whether a JSON text begins and ends with quotation marks.
pub open spec fn is_quoted(value: Seq<char>) -> bool {
    let s = json_trimmed(value);
    s.len() >= 2 && s[0] == '"' && s.last() == '"'
}

/// What a JSON text without a backslash is as a string: the text between its quotation marks,
/// where that can stand there as it is.
pub open spec fn unescaped_string(value: Seq<char>) -> Option<Seq<char>> {
    let s = json_trimmed(value);
    if is_quoted(value) && plain_text(s.subrange(1, s.len() - 1)) {
        Some(s.subrange(1, s.len() - 1))
    } else {
        None
    }
}

/// `serde_json::from_str::<Option<u64>>`, which reads a text that is one JSON value, a number or
/// `null`. The claim is that it reads exactly what `json_number` says, and that everything else
/// is an error.
#[verifier::external_body]
fn read_json_number(value: &str) -> (r: Option<Option<u64>>)
    ensures
        r == json_number(value@),
{
    serde_json::from_str::<Option<u64>>(value).ok()
}

/// `serde_json::from_str::<String>`, which reads a text that is one JSON string. The result is a
/// function of the text alone, which `json_string` names. Without quotation marks at both ends
/// it is an error, and a text that holds no backslash is read as `unescaped_string` says. What
/// escapes stand for is not stated.
#[verifier::external_body]
fn read_json_string(value: &str) -> (r: Option<String>)
    ensures
        r.deep_view() == json_string(value@),
        !is_quoted(value@) ==> r is None,
        !value@.contains('\\') ==> r.deep_view() == unescaped_string(value@),
{
    serde_json::from_str::<String>(value).ok()
}

/// A stored setting that was taken over.
#[derive(Debug)]
pub enum AppliedSetting {
    CudaVramLimitMb(u64),
    ExecutionDevice(String),
}

/// `AppliedSetting` with its text as a sequence of characters.
pub enum AppliedSettingView {
    CudaVramLimitMb(u64),
    ExecutionDevice(Seq<char>),
}

impl View for AppliedSetting {
    type V = AppliedSettingView;

    open spec fn view(&self) -> AppliedSettingView {
        match self {
            AppliedSetting::CudaVramLimitMb(mb) => AppliedSettingView::CudaVramLimitMb(*mb),
            AppliedSetting::ExecutionDevice(device) => AppliedSettingView::ExecutionDevice(device@),
        }
    }
}

impl DeepView for AppliedSetting {
    type V = AppliedSettingView;

    open spec fn deep_view(&self) -> AppliedSettingView {
        self@
    }
}

/// The setting that a limit stands for, as it was read: a positive one counts.
pub open spec fn limit_setting(read: Option<Option<u64>>) -> Option<AppliedSettingView> {
    match read {
        Some(Some(mb)) if mb > 0 => Some(AppliedSettingView::CudaVramLimitMb(mb)),
        _ => None,
    }
}

/// The setting that a device name stands for, as it was read.
pub open spec fn device_setting(read: Option<Seq<char>>) -> Option<AppliedSettingView> {
    match read {
        Some(device) => Some(AppliedSettingView::ExecutionDevice(device)),
        None => None,
    }
}

/// The setting that a stored row stands for.
pub open spec fn row_setting(key: Seq<char>, value: Seq<char>) -> Option<AppliedSettingView> {
    if key == "cudaVramLimitMb"@ {
        limit_setting(json_number(value))
    } else if key == "executionDevice"@ {
        device_setting(json_string(value))
    } else {
        None
    }
}

/// Whether a row of a device is read as its text says: without quotation marks as no setting,
/// and without a backslash as the device between the quotation marks.
pub open spec fn device_row_is_read(key: Seq<char>, value: Seq<char>) -> bool {
    key == "executionDevice"@ ==> {
        &&& !is_quoted(value) ==> row_setting(key, value) is None
        &&& !value.contains('\\') ==> row_setting(key, value) == device_setting(
            unescaped_string(value),
        )
    }
}

/// The state after a setting was taken over.
pub open spec fn with_setting(
    state: DeviceStateView,
    setting: AppliedSettingView,
) -> DeviceStateView {
    match setting {
        AppliedSettingView::CudaVramLimitMb(mb) => with_limit(state, Some(mb)),
        AppliedSettingView::ExecutionDevice(device) => with_device(state, cleaned(device)),
    }
}

/// The settings that stored rows stand for, in their order.
pub open spec fn rows_settings(rows: Seq<(Seq<char>, Seq<char>)>) -> Seq<AppliedSettingView>
    decreases rows.len(),
{
    if rows.len() == 0 {
        seq![]
    } else {
        let before = rows_settings(rows.drop_last());
        match row_setting(rows.last().0, rows.last().1) {
            Some(setting) => before.push(setting),
            None => before,
        }
    }
}

/// The state after settings were taken over one after another.
pub open spec fn with_settings(
    state: DeviceStateView,
    settings: Seq<AppliedSettingView>,
) -> DeviceStateView
    decreases settings.len(),
{
    if settings.len() == 0 {
        state
    } else {
        with_setting(with_settings(state, settings.drop_last()), settings.last())
    }
}

/// The setting that a limit stands for, as it was read.
pub fn limit_to_apply(read: Option<Option<u64>>) -> (r: Option<AppliedSetting>)
    ensures
        r.deep_view() == limit_setting(read),
{
    match read {
        Some(Some(mb)) => if mb > 0 {
            Some(AppliedSetting::CudaVramLimitMb(mb))
        } else {
            None
        },
        _ => None,
    }
}

/// The setting that a device name stands for, as it was read.
pub fn device_to_apply(read: Option<String>) -> (r: Option<AppliedSetting>)
    ensures
        r.deep_view() == device_setting(read.deep_view()),
{
    match read {
        Some(device) => Some(AppliedSetting::ExecutionDevice(device)),
        None => None,
    }
}

fn read_row(key: &str, value: &str) -> (r: Option<AppliedSetting>)
    ensures
        r.deep_view() == row_setting(key@, value@),
        device_row_is_read(key@, value@),
{
    proof {
        reveal_strlit("cudaVramLimitMb");
        reveal_strlit("executionDevice");
        assert("cudaVramLimitMb"@[0] != "executionDevice"@[0]);
    }
    if text::same(key, "cudaVramLimitMb") {
        limit_to_apply(read_json_number(value))
    } else if text::same(key, "executionDevice") {
        device_to_apply(read_json_string(value))
    } else {
        None
    }
}

/// Takes a setting over.
pub fn apply_setting(state: &mut DeviceState, setting: &AppliedSetting)
    ensures
        final(state)@ == with_setting(old(state)@, setting@),
        old(state)@.well_formed() ==> final(state)@.well_formed(),
{
    match setting {
        AppliedSetting::CudaVramLimitMb(mb) => {
            request_limit(state, Some(*mb));
        },
        AppliedSetting::ExecutionDevice(device) => {
            let device = clean(device.as_str());
            request_device(state, device);
        },
    }
}

/// Takes over the settings that an earlier run stored, given the rows of keys and JSON values,
/// and says which they were. Rows of other keys, and values that cannot be read, are passed
/// over.
pub fn load_persisted_hardware_settings(
    state: &mut DeviceState,
    rows: &Vec<(String, String)>,
) -> (r: Vec<AppliedSetting>)
    ensures
        r.deep_view() == rows_settings(rows.deep_view()),
        final(state)@ == with_settings(old(state)@, rows_settings(rows.deep_view())),
        old(state)@.well_formed() ==> final(state)@.well_formed(),
        forall|i: int|
            0 <= i < rows@.len() ==> device_row_is_read(
                (#[trigger] rows.deep_view()[i]).0,
                rows.deep_view()[i].1,
            ),
{
    let mut r: Vec<AppliedSetting> = Vec::new();
    let n = rows.len();
    let ghost all = rows.deep_view();
    let ghost first = state@;
    let mut i: usize = 0;
    while i < n
        invariant
            i <= n,
            n == rows@.len(),
            all == rows.deep_view(),
            r.deep_view() == rows_settings(all.take(i as int)),
            state@ == with_settings(first, rows_settings(all.take(i as int))),
            first.well_formed() ==> state@.well_formed(),
            forall|j: int| 0 <= j < i ==> device_row_is_read((#[trigger] all[j]).0, all[j].1),
        decreases n - i,
    {
        let (key, value) = &rows[i];
        assert(all.take(i + 1).drop_last() =~= all.take(i as int));
        assert(all.take(i + 1).last() == (key@, value@));
        if let Some(setting) = read_row(key.as_str(), value.as_str()) {
            let ghost done = r.deep_view();
            let ghost view = setting@;
            apply_setting(state, &setting);
            r.push(setting);
            assert(r.deep_view() =~= done.push(view));
            assert(done.push(view).drop_last() =~= done);
        }
        i += 1;
    }
    assert(all.take(n as int) =~= all);
    r
}

// ---------------------------------------------------------------------------
// Laws
// ---------------------------------------------------------------------------

/// The status speaks of the providers that would really run: what is available is the plan, the
/// plan is not empty and ends with the CPU, and the active provider is its first.
pub proof fn law_status_mirrors_plan(state: DeviceStateView, host: HostView)
    ensures
        ({
            let s = status::hardware_status(state, host);
            &&& s.available_providers == s.providers
            &&& s.providers == status::probed(state, host).0
            &&& s.providers.len() > 0
            &&& s.providers.last() == EP_CPU@
            &&& s.active_provider == s.providers[0]
            &&& s.detected_gpus == host.gpus
        }),
{
}

/// DirectML as a capability is there exactly where it is built in and there is a dedicated
/// adapter, whichever provider is active.
pub proof fn law_directml_capability(state: DeviceStateView, host: HostView)
    ensures
        ({
            let s = status::hardware_status(state, host);
            &&& s.has_directml_raw == (host.features.directml && s.has_dedicated_gpu)
            &&& s.has_directml ==> s.has_directml_raw
        }),
{
    let device = text::lowercase(status::requested_device(state, host));
    let i = status::device_inputs(state, host, device);
    if status::hardware_status(state, host).has_directml {
        plan::law_plan_is_usable(i, Backend::DirectMl);
    }
}

/// An accelerator whose runtime has failed is neither planned nor reported, whatever is asked
/// for.
pub proof fn law_failed_runtime_is_not_planned(state: DeviceStateView, host: HostView)
    ensures
        state.cuda_runtime_failed ==> !status::probed(state, host).0.contains(
            plan::provider(Backend::Cuda),
        ) && !status::hardware_status(state, host).has_cuda,
        state.coreml_runtime_failed ==> !status::probed(state, host).0.contains(
            plan::provider(Backend::CoreMl),
        ) && !status::hardware_status(state, host).has_coreml,
        state.openvino_runtime_failed ==> !status::probed(state, host).0.contains(
            plan::provider(Backend::OpenVino),
        ),
{
    let device = text::lowercase(status::requested_device(state, host));
    let i = status::device_inputs(state, host, device);
    if status::probed(state, host).0.contains(plan::provider(Backend::Cuda)) {
        plan::law_plan_is_usable(i, Backend::Cuda);
    }
    if status::probed(state, host).0.contains(plan::provider(Backend::CoreMl)) {
        plan::law_plan_is_usable(i, Backend::CoreMl);
    }
    if status::probed(state, host).0.contains(plan::provider(Backend::OpenVino)) {
        plan::law_plan_is_usable(i, Backend::OpenVino);
    }
}

/// With a failed OpenVINO runtime and no dedicated adapter the plan is the CPU alone, whatever
/// is asked for.
pub proof fn law_failed_openvino_reports_cpu(state: DeviceStateView, host: HostView)
    requires
        state.openvino_runtime_failed,
        gpu::first_dedicated(host.gpus) is None,
    ensures
        status::probed(state, host) == (seq![EP_CPU@], "CPU Multi-threaded"@),
{
}

/// A device that was asked for stays asked for until the next request, and overrules the
/// variable; `auto` hands the choice back to the variable.
pub proof fn law_device_request_is_kept(
    state: DeviceStateView,
    host: HostView,
    device: Seq<char>,
)
    ensures
        device != "auto"@ ==> status::requested_device(with_device(state, device), host) == device,
        device == "auto"@ ==> status::requested_device(with_device(state, device), host) == (
        match host.device_var {
            Some(var) => var,
            None => seq![],
        }),
{
}

/// A later request wins over an earlier one, whatever that was.
pub proof fn law_last_device_request_wins(
    state: DeviceStateView,
    earlier: Seq<char>,
    later: Seq<char>,
)
    ensures
        with_device(with_device(state, earlier), later) == with_device(state, later),
{
}

/// A name of ASCII characters and its cleaned form are one request: cleaning the cleaned form
/// changes nothing, so that both leave the same state and report the same status. Unless it is
/// `auto`, the cleaned form is what is then planned for, whatever the variable says.
pub proof fn law_cleaned_name_is_the_same_request(
    state: DeviceStateView,
    host: HostView,
    mode: Seq<char>,
)
    requires
        text::ascii(text::trimmed(mode)),
    ensures
        ({
            let c = text::lowered(text::trimmed(mode));
            &&& text::trimmed(c) == c
            &&& text::ascii(c)
            &&& text::lowered(text::trimmed(c)) == c
            &&& with_device(state, text::lowered(text::trimmed(c))) == with_device(state, c)
            &&& status::hardware_status(
                with_device(state, text::lowered(text::trimmed(c))),
                host,
            ) == status::hardware_status(with_device(state, c), host)
            &&& c != "auto"@ ==> text::lowered(
                status::requested_device(with_device(state, c), host),
            ) == c
        }),
{
    text::lemma_trimmed_ends(mode);
    text::lemma_lowered(text::trimmed(mode));
    text::lemma_trimmed_fixed(text::lowered(text::trimmed(mode)));
}

/// A request forgets the failures of CUDA and CoreML and the last error, and touches neither the
/// memory limit nor a failed OpenVINO runtime. Asking twice is asking once.
pub proof fn law_device_request_resets_failures(state: DeviceStateView, device: Seq<char>)
    ensures
        ({
            let s = with_device(state, device);
            &&& !s.cuda_runtime_failed && !s.coreml_runtime_failed && s.last_gpu_error is None
            &&& s.openvino_runtime_failed == state.openvino_runtime_failed
            &&& s.override_cuda_mem_limit_mb == state.override_cuda_mem_limit_mb
            &&& with_device(s, device) == s
        }),
{
}

/// After a request, where it comes out in lower case as one for the CPU and the machine has a
/// dedicated AMD adapter, the status warns that the adapter is not made use of, by name.
pub proof fn law_idle_amd_adapter_is_warned_of(
    state: DeviceStateView,
    host: HostView,
    device: Seq<char>,
    lower: Seq<char>,
)
    requires
        plan::requested(lower) == Some(Backend::Cpu),
        status::first_amd(host.gpus) is Some,
    ensures
        status::status_for(with_device(state, device), host, lower).gpu_warning == Some(
            status::amd_warning(status::first_amd(host.gpus)->0.name),
        ),
{
    lemma_first_amd(host.gpus);
    let list = status::plan_for(with_device(state, device), host, lower).0;
    assert(list =~= seq![EP_CPU@]);
    assert(status::cpu_only(list));
}

proof fn lemma_first_amd(gpus: Seq<gpu::GpuInfoView>)
    requires
        status::first_amd(gpus) is Some,
    ensures
        status::first_amd(gpus)->0.is_dedicated,
        status::first_amd(gpus)->0.vendor_id == AMD_VENDOR_ID,
        gpu::first_dedicated(gpus) is Some,
    decreases gpus.len(),
{
    if !(gpus[0].vendor_id == AMD_VENDOR_ID && gpus[0].is_dedicated) {
        lemma_first_amd(gpus.drop_first());
    }
}

/// A limit that was asked for is reported as it was asked for, and overrules the variable.
pub proof fn law_limit_request_is_reported(state: DeviceStateView, host: HostView, mb: u64)
    requires
        mb > 0,
    ensures
        ({
            let s = status::hardware_status(with_limit(state, Some(mb)), host);
            &&& s.configured_cuda_vram_limit_mb == Some(mb)
            &&& s.cuda_vram_limit_mb == Some(mb)
        }),
{
    assert((mb as nat * MB as nat) / MB as nat == mb);
}

/// Every way to make a setting keeps the state well formed.
pub proof fn law_settings_keep_the_state_well_formed(
    state: DeviceStateView,
    device: Seq<char>,
    mb: Option<u64>,
    settings: Seq<AppliedSettingView>,
)
    requires
        state.well_formed(),
    ensures
        crate::state::initial_state().well_formed(),
        with_device(state, device).well_formed(),
        with_limit(state, mb).well_formed(),
        with_settings(state, settings).well_formed(),
    decreases settings.len(),
{
    if settings.len() > 0 {
        law_settings_keep_the_state_well_formed(state, device, mb, settings.drop_last());
    }
}

/// The status always reports a limit, that of the region detector in megabytes, and never that
/// it is reloading. A limit that was asked for is positive and is the one reported.
pub proof fn law_configured_limit_is_the_limit(
    state: DeviceStateView,
    host: HostView,
    device: Seq<char>,
)
    requires
        state.well_formed(),
        limits::limit_fits(state, host),
    ensures
        ({
            let s = status::status_for(state, host, device);
            &&& s.cuda_vram_limit_mb is Some
            &&& s.cuda_vram_limit_mb->0 == limits::cuda_limit(state, host, "rfdetr"@) / MB as nat
            &&& s.configured_cuda_vram_limit_mb is Some ==> s.configured_cuda_vram_limit_mb->0 > 0
                && s.cuda_vram_limit_mb == s.configured_cuda_vram_limit_mb
            &&& !s.reloading
        }),
{
    match limits::explicit_limit_mb(state, host) {
        Some(mb) => {
            assert((mb * MB as nat) / MB as nat == mb);
        },
        None => {},
    }
}

/// Taking the request back restores the limit by class and memory, which is two gigabytes at
/// least, where the variable is not set.
pub proof fn law_limit_reset_restores_the_rule(state: DeviceStateView, host: HostView)
    requires
        host.cuda_limit_var is None,
    ensures
        ({
            let s = status::hardware_status(with_limit(state, None), host);
            &&& s.configured_cuda_vram_limit_mb is None
            &&& s.cuda_vram_limit_mb == Some(
                limits::adaptive_limit_mb(
                    limits::ModelClass::Detector,
                    limits::total_vram_mb(host.gpus),
                ) as u64,
            )
            &&& s.cuda_vram_limit_mb->0 >= 2048
        }),
{
    limits::law_region_detector_is_a_detector();
}

/// Whether a text is a numeral of 64 bits for a positive number, without sign or leading zero.
pub open spec fn plain_number(s: Seq<char>) -> bool {
    &&& s.len() > 0
    &&& '1' <= s[0] <= '9'
    &&& text::numeral_up_to(s, 10, u64::MAX as nat) is Some
}

proof fn lemma_leading_digit(s: Seq<char>, i: int)
    requires
        1 <= i <= s.len(),
        '1' <= s[0] <= '9',
        text::digits(s.take(i), 10) is Some,
    ensures
        text::digits(s.take(i), 10)->0 > 0,
    decreases i,
{
    assert(s.take(i).drop_last() =~= s.take(i - 1));
    if i > 1 {
        lemma_leading_digit(s, i - 1);
    } else {
        assert(s.take(0) =~= Seq::<char>::empty());
    }
}

/// A stored limit is taken over exactly where it is the numeral of a positive number, with blanks
/// around it at most, and then as that number. Zero, `null`, a negative number, a fraction, a
/// number of more than 64 bits and anything malformed change nothing.
pub proof fn law_stored_limit_is_a_positive_number(value: Seq<char>)
    ensures
        row_setting("cudaVramLimitMb"@, value) == (if plain_number(json_trimmed(value)) {
            Some(
                AppliedSettingView::CudaVramLimitMb(
                    text::numeral_up_to(json_trimmed(value), 10, u64::MAX as nat)->0 as u64,
                ),
            )
        } else {
            None
        }),
{
    let s = json_trimmed(value);
    reveal_strlit("null");
    if s == "null"@ {
        assert(s[0] == 'n');
    } else if s.len() > 0 && s[0] != '+' && text::digits(s, 10) is Some {
        assert(s.take(s.len() as int) =~= s);
        text::lemma_digits_grow(s, 10, 1);
        assert(s.take(1).last() == s[0]);
        assert(s.take(1).drop_last() =~= Seq::<char>::empty());
        assert(text::digits(Seq::<char>::empty(), 10) == Some(0nat));
        assert(text::digit(s[0], 10) is Some);
        assert('0' <= s[0] <= '9');
        if '1' <= s[0] <= '9' {
            lemma_leading_digit(s, s.len() as int);
        } else if s.len() == 1 {
            assert(s.take(1) =~= s);
        }
    }
}

/// Whether two settings are on one subject.
pub open spec fn same_subject(a: AppliedSettingView, b: AppliedSettingView) -> bool {
    a is CudaVramLimitMb <==> b is CudaVramLimitMb
}

/// A stored setting is restored: after the rows are loaded, the last limit among them is the
/// limit and the last device among them is the device, whatever stands on the other subject.
pub proof fn law_stored_setting_is_restored(
    state: DeviceStateView,
    rows: Seq<(Seq<char>, Seq<char>)>,
    k: int,
    setting: AppliedSettingView,
)
    requires
        0 <= k < rows.len(),
        row_setting(rows[k].0, rows[k].1) == Some(setting),
        forall|j: int|
            k < j < rows.len() ==> match row_setting((#[trigger] rows[j]).0, rows[j].1) {
                Some(later) => !same_subject(setting, later),
                None => true,
            },
    ensures
        ({
            let s = with_settings(state, rows_settings(rows));
            match setting {
                AppliedSettingView::CudaVramLimitMb(mb) => s.override_cuda_mem_limit_mb == Some(mb),
                AppliedSettingView::ExecutionDevice(device) => s.override_device == (
                if cleaned(device) == "auto"@ {
                    None
                } else {
                    Some(cleaned(device))
                }),
            }
        }),
    decreases rows.len(),
{
    let before = rows_settings(rows.drop_last());
    let last = row_setting(rows.last().0, rows.last().1);
    if last is Some {
        assert(rows_settings(rows).drop_last() =~= before);
    }
    if k < rows.len() - 1 {
        assert(rows[rows.len() - 1] == rows.last());
        assert forall|j: int| k < j < rows.drop_last().len() implies match row_setting(
            (#[trigger] rows.drop_last()[j]).0,
            rows.drop_last()[j].1,
        ) {
            Some(later) => !same_subject(setting, later),
            None => true,
        } by {
            assert(rows.drop_last()[j] == rows[j]);
        }
        law_stored_setting_is_restored(state, rows.drop_last(), k, setting);
    }
}

/// Rows that hold no setting change nothing.
pub proof fn law_other_rows_change_nothing(
    state: DeviceStateView,
    rows: Seq<(Seq<char>, Seq<char>)>,
)
    requires
        forall|i: int| 0 <= i < rows.len() ==> row_setting((#[trigger] rows[i]).0, rows[i].1) is None,
    ensures
        with_settings(state, rows_settings(rows)) == state,
    decreases rows.len(),
{
    if rows.len() > 0 {
        assert(row_setting(rows.last().0, rows.last().1) is None);
        law_other_rows_change_nothing(state, rows.drop_last());
    }
}

/// A request for a device is kept as it is, but for `auto`, which takes an earlier one back. The
/// failures of CUDA and CoreML and the last error are forgotten, and nothing else changes.
pub proof fn law_device_request(state: DeviceStateView, device: Seq<char>)
    ensures
        device != "auto"@ ==> with_device(state, device).override_device == Some(device),
        with_device(state, "auto"@).override_device is None,
        ({
            let s = with_device(state, device);
            &&& !s.cuda_runtime_failed
            &&& !s.coreml_runtime_failed
            &&& s.last_gpu_error is None
            &&& s.openvino_runtime_failed == state.openvino_runtime_failed
            &&& s.override_cuda_mem_limit_mb == state.override_cuda_mem_limit_mb
        }),
{
}

/// A request for a limit is kept where it is positive, takes an earlier one back where it is not,
/// and changes nothing else.
pub proof fn law_limit_request(state: DeviceStateView, mb: u64)
    ensures
        mb > 0 ==> with_limit(state, Some(mb)) == (DeviceStateView {
            override_cuda_mem_limit_mb: Some(mb),
            ..state
        }),
        with_limit(state, Some(0)) == (DeviceStateView {
            override_cuda_mem_limit_mb: None,
            ..state
        }),
        with_limit(state, None) == (DeviceStateView { override_cuda_mem_limit_mb: None, ..state }),
{
}

/// Whether a text is blanks of JSON throughout.
pub open spec fn json_blanks(s: Seq<char>) -> bool {
    forall|i: int|
        0 <= i < s.len() ==> #[trigger] s[i] == ' ' || s[i] == '\n' || s[i] == '\t' || s[i] == '\r'
}

proof fn lemma_json_trimming(a: Seq<char>, m: Seq<char>, b: Seq<char>)
    requires
        json_blanks(a),
        json_blanks(b),
        m.len() > 0,
        !json_blank(m[0]),
        !json_blank(m.last()),
    ensures
        json_trimmed(a + m + b) == m,
    decreases a.len() + b.len(),
{
    let s = a + m + b;
    if a.len() > 0 {
        assert(s[0] == a[0]);
        assert(s.drop_first() =~= a.drop_first() + m + b);
        lemma_json_trimming(a.drop_first(), m, b);
    } else {
        assert(s[0] == m[0]);
        assert(json_trimmed_start(s) == s);
        if b.len() > 0 {
            assert(s.last() == b[b.len() - 1]);
            assert(s.drop_last() =~= a + m + b.drop_last());
            lemma_json_trimming(a, m, b.drop_last());
            assert((a + m + b.drop_last())[0] == m[0]);
        } else {
            assert(s =~= m);
        }
    }
}

/// A stored limit that was written as a number is taken over as that number, with any blanks
/// around it, exactly where it is positive and of at most 64 bits.
pub proof fn law_stored_limit_reads_back(a: Seq<char>, n: nat, b: Seq<char>)
    requires
        json_blanks(a),
        json_blanks(b),
    ensures
        row_setting("cudaVramLimitMb"@, a + text::decimal(n) + b) == (if 0 < n <= u64::MAX {
            Some(AppliedSettingView::CudaVramLimitMb(n as u64))
        } else {
            None
        }),
{
    text::lemma_decimal(n);
    text::law_numerals_read_back(n, u64::MAX as nat);
    let d = text::decimal(n);
    assert('0' <= d[0] <= '9' && '0' <= d[d.len() - 1] <= '9');
    lemma_json_trimming(a, d, b);
    law_stored_limit_is_a_positive_number(a + d + b);
    if n == 0 {
        assert(d[0] == '0');
    }
}

/// A stored device is taken over as it was read, one that could not be read is not, and a row of
/// any other key holds no setting.
pub proof fn law_rows_by_key(key: Seq<char>, value: Seq<char>, device: Seq<char>)
    ensures
        json_string(value) == Some(device) ==> row_setting("executionDevice"@, value) == Some(
            AppliedSettingView::ExecutionDevice(device),
        ),
        json_string(value) is None ==> row_setting("executionDevice"@, value) is None,
        key != "cudaVramLimitMb"@ && key != "executionDevice"@ ==> row_setting(key, value) is None,
{
    reveal_strlit("cudaVramLimitMb");
    reveal_strlit("executionDevice");
    assert("cudaVramLimitMb"@[0] != "executionDevice"@[0]);
}

/// Rows are taken over one after another: a row with a setting does what a request for it does,
/// after all that the rows before it have done, and a row without one does nothing.
pub proof fn law_rows_are_taken_in_order(
    state: DeviceStateView,
    rows: Seq<(Seq<char>, Seq<char>)>,
    row: (Seq<char>, Seq<char>),
    mb: u64,
    device: Seq<char>,
)
    ensures
        ({
            let before = with_settings(state, rows_settings(rows));
            let after = with_settings(state, rows_settings(rows.push(row)));
            let found = row_setting(row.0, row.1);
            &&& found is None ==> after == before && rows_settings(rows.push(row)) == rows_settings(
                rows,
            )
            &&& found is Some ==> rows_settings(rows.push(row)) == rows_settings(rows).push(found->0)
            &&& found == Some(AppliedSettingView::CudaVramLimitMb(mb)) ==> after == with_limit(
                before,
                Some(mb),
            )
            &&& found == Some(AppliedSettingView::ExecutionDevice(device)) ==> after == with_device(
                before,
                cleaned(device),
            )
            &&& with_settings(state, rows_settings(Seq::<(Seq<char>, Seq<char>)>::empty())) == state
        }),
{
    assert(rows.push(row).drop_last() =~= rows);
    let all = rows_settings(rows);
    if row_setting(row.0, row.1) is Some {
        assert(all.push(row_setting(row.0, row.1)->0).drop_last() =~= all);
    }
}

/// A device name is kept without the white space around it, in lower case.
pub proof fn law_cleaning(a: Seq<char>, m: Seq<char>, b: Seq<char>)
    requires
        text::blank(a),
        text::blank(b),
        m.len() > 0 ==> !text::is_space(m[0]) && !text::is_space(m.last()),
    ensures
        cleaned(a + m + b) == text::lowercase(m),
{
    text::law_trimming(a, m, b);
}

/// A limit that was read counts where it is positive; a device that was read counts as it is.
pub proof fn law_what_was_read_counts(mb: u64, device: Seq<char>)
    ensures
        mb > 0 ==> limit_setting(Some(Some(mb))) == Some(AppliedSettingView::CudaVramLimitMb(mb)),
        limit_setting(Some(Some(0u64))) is None,
        limit_setting(Some(None)) is None,
        limit_setting(None) is None,
        device_setting(Some(device)) == Some(AppliedSettingView::ExecutionDevice(device)),
        device_setting(None) is None,
{
}

/// A text in quotation marks is read as that text, with any blanks around it, where it holds
/// neither a quotation mark, a backslash nor a control character.
pub proof fn law_quoted_text_is_read(a: Seq<char>, s: Seq<char>, b: Seq<char>)
    requires
        json_blanks(a),
        json_blanks(b),
        forall|i: int|
            0 <= i < s.len() ==> #[trigger] s[i] != '"' && s[i] != '\\' && s[i] as u32 >= 0x20,
    ensures
        is_quoted(a + (seq!['"'] + s + seq!['"']) + b),
        unescaped_string(a + (seq!['"'] + s + seq!['"']) + b) == Some(s),
{
    let q = seq!['"'] + s + seq!['"'];
    assert(q[0] == '"' && q.last() == '"');
    lemma_json_trimming(a, q, b);
    assert(q.subrange(1, q.len() - 1) =~= s);
}

} // verus!
