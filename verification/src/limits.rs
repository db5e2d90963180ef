//! How many threads a session gets and how much memory of the adapter it may take.

use crate::gpu;
use crate::gpu::{GpuInfo, GpuInfoView, MB};
use crate::state::{DeviceState, DeviceStateView, Host, HostView};
use crate::text;
use vstd::prelude::*;

verus! {

/// The positive number that a variable holds, where it is set to a numeral of at most `max`.
pub open spec fn positive(var: Option<Seq<char>>, max: nat) -> Option<nat> {
    match var {
        Some(value) => match text::numeral_up_to(value, 10, max) {
            Some(n) if n > 0 => Some(n),
            _ => None,
        },
        None => None,
    }
}

fn read_positive(var: &Option<String>, max: u64) -> (r: Option<u64>)
    ensures
        match r {
            Some(n) => positive(var.deep_view(), max as nat) == Some(n as nat),
            None => positive(var.deep_view(), max as nat) is None,
        },
{
    match var {
        Some(value) => {
            let chars = text::chars_of(value.as_str());
            match text::read_numeral(chars.as_slice(), 10, max) {
                Some(n) => if n > 0 {
                    Some(n)
                } else {
                    None
                },
                None => None,
            }
        },
        None => None,
    }
}

// ---------------------------------------------------------------------------
// Threads
// ---------------------------------------------------------------------------

/// The most threads that a CPU session takes by itself.
pub const MAX_CPU_THREADS: usize = 8;

/// The most host threads that a session on an accelerator takes by itself.
pub const MAX_GPU_HOST_THREADS: usize = 4;

/// The threads of a session: what the variable says, or the available CPUs up to `cap`, and one
/// at least.
pub open spec fn thread_count(var: Option<Seq<char>>, cpus: nat, cap: nat) -> nat {
    match positive(var, usize::MAX as nat) {
        Some(n) => n,
        None => if cpus < 1 || cap < 1 {
            1
        } else if cpus < cap {
            cpus
        } else {
            cap
        },
    }
}

/// The threads of a session on a machine with `cpus` CPUs.
pub fn threads_for(var: &Option<String>, cpus: usize, cap: usize) -> (r: usize)
    ensures
        r == thread_count(var.deep_view(), cpus as nat, cap as nat),
{
    match read_positive(var, usize::MAX as u64) {
        Some(n) => n as usize,
        None => {
            let n: usize = if cpus < cap {
                cpus
            } else {
                cap
            };
            if n < 1 {
                1
            } else {
                n
            }
        },
    }
}

/// `num_cpus::get`, the number of CPUs that the process may use, which depends on the machine
/// and on the limits set for the process. It is at least one.
#[verifier::external_body]
pub(crate) fn available_cpus() -> (n: usize)
    ensures
        n >= 1,
{
    num_cpus::get()
}

/// The threads of a CPU session, given what `ONNX_THREADS` is set to.
pub fn get_optimal_cpu_threads(threads_var: &Option<String>) -> (r: usize)
    ensures
        exists|cpus: nat|
            cpus >= 1 && r == #[trigger] thread_count(
                threads_var.deep_view(),
                cpus,
                MAX_CPU_THREADS as nat,
            ),
        positive(threads_var.deep_view(), usize::MAX as nat) is None ==> 1 <= r <= MAX_CPU_THREADS,
{
    let cpus = available_cpus();
    let r = threads_for(threads_var, cpus, MAX_CPU_THREADS);
    assert(r == thread_count(threads_var.deep_view(), cpus as nat, MAX_CPU_THREADS as nat));
    r
}

/// The host threads of a session on an accelerator, given what `ONNX_GPU_THREADS` is set to.
pub fn get_optimal_gpu_host_threads(threads_var: &Option<String>) -> (r: usize)
    ensures
        exists|cpus: nat|
            cpus >= 1 && r == #[trigger] thread_count(
                threads_var.deep_view(),
                cpus,
                MAX_GPU_HOST_THREADS as nat,
            ),
        positive(threads_var.deep_view(), usize::MAX as nat) is None ==> 1 <= r
            <= MAX_GPU_HOST_THREADS,
{
    let cpus = available_cpus();
    let r = threads_for(threads_var, cpus, MAX_GPU_HOST_THREADS);
    assert(r == thread_count(threads_var.deep_view(), cpus as nat, MAX_GPU_HOST_THREADS as nat));
    r
}

/// A session always gets a thread; without a variable it gets no more than the machine has, and
/// no more than the cap.
pub proof fn law_thread_bounds(var: Option<Seq<char>>, cpus: nat, cap: nat)
    requires
        cpus >= 1,
        cap >= 1,
    ensures
        thread_count(var, cpus, cap) >= 1,
        positive(var, usize::MAX as nat) is None ==> thread_count(var, cpus, cap) <= cpus
            && thread_count(var, cpus, cap) <= cap,
        positive(var, usize::MAX as nat) is Some ==> thread_count(var, cpus, cap) == positive(
            var,
            usize::MAX as nat,
        )->0,
{
}

// ---------------------------------------------------------------------------
// Memory of a CUDA session
// ---------------------------------------------------------------------------

/// What a model is for, which decides how much memory it needs.
#[derive(Clone, Copy, Debug, PartialEq, Eq, Structural)]
pub enum ModelClass {
    Detector,
    Inpainter,
    Ocr,
}

/// The class of a model, by its tag in any case: detectors of text regions, but not those that
/// belong to character recognition; inpainters; the rest is character recognition.
pub open spec fn model_class(model_tag: Seq<char>) -> ModelClass {
    let tag = text::lowered(model_tag);
    if text::occurs(tag, "rfdetr"@) || (text::occurs(tag, "det"@) && !text::occurs(tag, "ocr"@)) {
        ModelClass::Detector
    } else if text::occurs(tag, "lama"@) || text::occurs(tag, "inpaint"@) {
        ModelClass::Inpainter
    } else {
        ModelClass::Ocr
    }
}

/// The megabytes that a session gets on an adapter with `vram` whole megabytes.
pub open spec fn adaptive_limit_mb(class: ModelClass, vram: nat) -> nat {
    match class {
        ModelClass::Detector => if vram >= 14000 {
            8192
        } else if vram >= 7000 {
            3072
        } else {
            2048
        },
        ModelClass::Inpainter => if vram >= 14000 {
            4096
        } else if vram >= 7000 {
            2048
        } else {
            1536
        },
        ModelClass::Ocr => if vram >= 14000 {
            1024
        } else {
            512
        },
    }
}

/// The whole megabytes of the dedicated adapter; 8192 where there is none.
pub open spec fn total_vram_mb(gpus: Seq<GpuInfoView>) -> nat {
    match gpu::first_dedicated(gpus) {
        Some(g) => g.vram_mb.whole(),
        None => 8192,
    }
}

/// The limit that was asked for, in megabytes: the setting, or else the variable.
pub open spec fn explicit_limit_mb(state: DeviceStateView, host: HostView) -> Option<nat> {
    match state.override_cuda_mem_limit_mb {
        Some(mb) if mb > 0 => Some(mb as nat),
        _ => positive(host.cuda_limit_var, u64::MAX as nat),
    }
}

/// Whether the limit that was asked for can be counted in bytes.
pub open spec fn limit_fits(state: DeviceStateView, host: HostView) -> bool {
    match explicit_limit_mb(state, host) {
        Some(mb) => mb * MB <= u64::MAX,
        None => true,
    }
}

/// The bytes that a CUDA session of a model may take: what was asked for, or else by the class
/// of the model and the memory of the adapter.
pub open spec fn cuda_limit(state: DeviceStateView, host: HostView, model_tag: Seq<char>) -> nat {
    match explicit_limit_mb(state, host) {
        Some(mb) => mb * MB as nat,
        None => adaptive_limit_mb(model_class(model_tag), total_vram_mb(host.gpus)) * MB as nat,
    }
}

/// The class of a model.
pub fn classify_model(model_tag: &str) -> (r: ModelClass)
    ensures
        r == model_class(model_tag@),
{
    let chars = text::chars_of(model_tag);
    let low = text::to_ascii_lowercase(chars.as_slice());
    let tag = low.as_slice();
    if text::contains(tag, "rfdetr") || (text::contains(tag, "det") && !text::contains(tag, "ocr"))
    {
        ModelClass::Detector
    } else if text::contains(tag, "lama") || text::contains(tag, "inpaint") {
        ModelClass::Inpainter
    } else {
        ModelClass::Ocr
    }
}

/// The megabytes that a session gets on an adapter with `vram` whole megabytes.
pub fn adaptive_limit(class: ModelClass, vram: u64) -> (r: u64)
    ensures
        r == adaptive_limit_mb(class, vram as nat),
        r <= 8192,
{
    match class {
        ModelClass::Detector => if vram >= 14000 {
            8192
        } else if vram >= 7000 {
            3072
        } else {
            2048
        },
        ModelClass::Inpainter => if vram >= 14000 {
            4096
        } else if vram >= 7000 {
            2048
        } else {
            1536
        },
        ModelClass::Ocr => if vram >= 14000 {
            1024
        } else {
            512
        },
    }
}

fn vram_of_dedicated(gpus: &Vec<GpuInfo>) -> (r: u64)
    ensures
        r == total_vram_mb(gpus.deep_view()),
{
    match gpu::get_dedicated_gpu(gpus) {
        Some(g) => g.vram_mb.whole_mb(),
        None => 8192,
    }
}

fn read_explicit_limit(state: &DeviceState, host: &Host) -> (r: Option<u64>)
    ensures
        match r {
            Some(mb) => explicit_limit_mb(state@, host@) == Some(mb as nat),
            None => explicit_limit_mb(state@, host@) is None,
        },
{
    if let Some(mb) = state.override_cuda_mem_limit_mb {
        if mb > 0 {
            return Some(mb);
        }
    }
    read_positive(&host.cuda_limit_var, u64::MAX)
}

/// Whether the limit that was asked for can be counted in bytes. Where it cannot, there is no
/// limit to compute.
pub fn cuda_limit_fits(state: &DeviceState, host: &Host) -> (r: bool)
    ensures
        r == limit_fits(state@, host@),
{
    match read_explicit_limit(state, host) {
        Some(mb) => mb <= u64::MAX / MB,
        None => true,
    }
}

/// The bytes that a CUDA session of a model may take.
pub fn get_cuda_memory_limit_for_model(state: &DeviceState, host: &Host, model_tag: &str) -> (r:
    u64)
    requires
        limit_fits(state@, host@),
    ensures
        r == cuda_limit(state@, host@, model_tag@),
{
    match read_explicit_limit(state, host) {
        Some(mb) => mb * MB,
        None => adaptive_limit(classify_model(model_tag), vram_of_dedicated(&host.gpus)) * MB,
    }
}

/// The bytes that a CUDA session of the region detector may take.
pub fn get_cuda_gpu_memory_limit(state: &DeviceState, host: &Host) -> (r: u64)
    requires
        limit_fits(state@, host@),
    ensures
        r == cuda_limit(state@, host@, "rfdetr"@),
{
    get_cuda_memory_limit_for_model(state, host, "rfdetr")
}

// ---------------------------------------------------------------------------
// Laws
// ---------------------------------------------------------------------------

/// The tag of the region detector names a detector.
pub proof fn law_region_detector_is_a_detector()
    ensures
        model_class("rfdetr"@) == ModelClass::Detector,
{
    reveal_strlit("rfdetr");
    let t = "rfdetr"@;
    assert(text::lowered(t) =~= t);
    lemma_occurs_in_itself(t);
}

/// A limit set at run time overrules the variable, and the variable overrules the rule by class
/// and memory; the tag and the adapters bear on the limit only where neither gives a positive
/// number.
pub proof fn law_explicit_limit_overrules(
    state: DeviceStateView,
    host: HostView,
    model_tag: Seq<char>,
)
    ensures
        state.override_cuda_mem_limit_mb is Some && state.override_cuda_mem_limit_mb->0 > 0
            ==> cuda_limit(state, host, model_tag) == state.override_cuda_mem_limit_mb->0 * MB,
        state.override_cuda_mem_limit_mb is None && positive(
            host.cuda_limit_var,
            u64::MAX as nat,
        ) is Some ==> cuda_limit(state, host, model_tag) == positive(
            host.cuda_limit_var,
            u64::MAX as nat,
        )->0 * MB,
        state.override_cuda_mem_limit_mb is None && positive(
            host.cuda_limit_var,
            u64::MAX as nat,
        ) is None ==> cuda_limit(state, host, model_tag) == adaptive_limit_mb(
            model_class(model_tag),
            total_vram_mb(host.gpus),
        ) * MB,
{
}

/// By itself a detector gets two gigabytes or more, an inpainter one and a half or more, and
/// character recognition one at the most.
pub proof fn law_limit_bounds(class: ModelClass, vram: nat)
    ensures
        class == ModelClass::Detector ==> adaptive_limit_mb(class, vram) >= 2048,
        class == ModelClass::Inpainter ==> adaptive_limit_mb(class, vram) >= 1536,
        class == ModelClass::Ocr ==> 512 <= adaptive_limit_mb(class, vram) <= 1024,
{
}

/// An adapter with more memory never gives a model less.
pub proof fn law_limit_grows_with_memory(class: ModelClass, less: nat, more: nat)
    requires
        less <= more,
    ensures
        adaptive_limit_mb(class, less) <= adaptive_limit_mb(class, more),
{
}

/// A text does not occur where one of its characters does not.
proof fn lemma_absent(s: Seq<char>, p: Seq<char>, k: int)
    requires
        0 <= k < p.len(),
        forall|i: int| 0 <= i < s.len() ==> s[i] != p[k],
    ensures
        !text::occurs(s, p),
{
    assert forall|i: int| !#[trigger] text::occurs_at(s, p, i) by {
        if text::occurs_at(s, p, i) {
            assert(s.subrange(i, i + p.len())[k] == s[i + k]);
        }
    }
}

/// A text occurs in itself.
proof fn lemma_occurs_in_itself(s: Seq<char>)
    ensures
        text::occurs(s, s),
{
    assert(s.subrange(0, s.len() as int) =~= s);
    assert(text::occurs_at(s, s, 0));
}

proof fn lemma_class_of_the_detector()
    ensures
        model_class("rfdetr-seg-2xlarge"@) == ModelClass::Detector,
{
    reveal_strlit("rfdetr-seg-2xlarge");
    reveal_strlit("rfdetr");
    let tag = "rfdetr-seg-2xlarge"@;
    assert(text::lowered(tag) =~= tag);
    assert(tag.subrange(0, 6) =~= "rfdetr"@);
    assert(text::occurs_at(tag, "rfdetr"@, 0));
}

proof fn lemma_inpainter_is_no_detector()
    ensures
        text::lowered("lama"@) == "lama"@,
        !text::occurs("lama"@, "rfdetr"@),
        !text::occurs("lama"@, "det"@),
{
    reveal_strlit("lama");
    reveal_strlit("rfdetr");
    reveal_strlit("det");
    assert(text::lowered("lama"@) =~= "lama"@);
    lemma_absent("lama"@, "rfdetr"@, 0);
    lemma_absent("lama"@, "det"@, 0);
}

proof fn lemma_class_of_the_inpainter()
    ensures
        model_class("lama"@) == ModelClass::Inpainter,
{
    lemma_inpainter_is_no_detector();
    lemma_occurs_in_itself("lama"@);
}

proof fn lemma_class_of_recognition()
    ensures
        model_class("rapid_ocr_rec"@) == ModelClass::Ocr,
{
    reveal_strlit("rapid_ocr_rec");
    reveal_strlit("rfdetr");
    reveal_strlit("det");
    reveal_strlit("lama");
    reveal_strlit("inpaint");
    let tag = "rapid_ocr_rec"@;
    assert(text::lowered(tag) =~= tag);
    lemma_absent(tag, "rfdetr"@, 1);
    lemma_absent(tag, "det"@, 2);
    lemma_absent(tag, "lama"@, 0);
    lemma_absent(tag, "inpaint"@, 1);
}

proof fn lemma_class_of_character_detection()
    ensures
        model_class("rapid_ocr_det"@) == ModelClass::Ocr,
{
    reveal_strlit("rapid_ocr_det");
    reveal_strlit("rfdetr");
    reveal_strlit("ocr");
    reveal_strlit("lama");
    reveal_strlit("inpaint");
    let tag = "rapid_ocr_det"@;
    assert(text::lowered(tag) =~= tag);
    lemma_absent(tag, "rfdetr"@, 1);
    assert(tag.subrange(6, 9) =~= "ocr"@);
    assert(text::occurs_at(tag, "ocr"@, 6));
    lemma_absent(tag, "lama"@, 0);
    lemma_absent(tag, "inpaint"@, 1);
}

/// Where no limit was asked for, the region detector gets two gigabytes or more, the inpainter
/// one and a half or more, and each of the two models of character recognition one at the most.
/// On an adapter of less than 14000 megabytes the four together take nine at the most.
pub proof fn law_limits_together(state: DeviceStateView, host: HostView)
    requires
        explicit_limit_mb(state, host) is None,
    ensures
        cuda_limit(state, host, "rfdetr-seg-2xlarge"@) >= 2048 * MB,
        cuda_limit(state, host, "lama"@) >= 1536 * MB,
        cuda_limit(state, host, "rapid_ocr_rec"@) <= 1024 * MB,
        cuda_limit(state, host, "rapid_ocr_det"@) <= 1024 * MB,
        total_vram_mb(host.gpus) < 14000 ==> cuda_limit(state, host, "rfdetr-seg-2xlarge"@)
            + cuda_limit(state, host, "lama"@) + cuda_limit(state, host, "rapid_ocr_rec"@)
            + cuda_limit(state, host, "rapid_ocr_det"@) <= 9 * 1024 * MB,
{
    lemma_class_of_the_detector();
    lemma_class_of_the_inpainter();
    lemma_class_of_recognition();
    lemma_class_of_character_detection();
}

/// A variable counts as the number that it is the numeral of, where that is positive and not too
/// large, and otherwise not at all.
pub proof fn law_variable_counts_as_a_positive_number(n: nat, value: Seq<char>, i: int, max: nat)
    ensures
        0 < n <= max ==> positive(Some(text::decimal(n)), max) == Some(n),
        n == 0 || n > max ==> positive(Some(text::decimal(n)), max) is None,
        text::numeral(value, 10) == Some(n) && 0 < n <= max ==> positive(Some(value), max) == Some(
            n,
        ),
        text::numeral(value, 10) == Some(n) && (n == 0 || n > max) ==> positive(
            Some(value),
            max,
        ) is None,
        positive(None, max) is None,
        value.len() == 0 ==> positive(Some(value), max) is None,
        0 <= i < value.len() && !('0' <= value[i] <= '9') && !(i == 0 && value[0] == '+')
            ==> positive(Some(value), max) is None,
{
    text::law_numerals_read_back(n, max);
    text::law_only_digits_are_numerals(value, 10, max, i);
    if 0 <= i < value.len() {
        text::law_digits(value[i], 10);
    }
}

/// The threads of a session: the number that the variable gives; without one the CPUs of the
/// machine, up to the cap. A CPU session is capped at eight and the host threads of an
/// accelerator at four.
pub proof fn law_thread_count(n: nat, cpus: nat, cap: nat)
    requires
        cpus >= 1,
        cap >= 1,
    ensures
        0 < n <= usize::MAX ==> thread_count(Some(text::decimal(n)), cpus, cap) == n,
        cpus <= cap ==> thread_count(None, cpus, cap) == cpus,
        cap <= cpus ==> thread_count(None, cpus, cap) == cap,
        n == 0 || n > usize::MAX ==> thread_count(Some(text::decimal(n)), cpus, cap)
            == thread_count(None, cpus, cap),
        MAX_CPU_THREADS == 8,
        MAX_GPU_HOST_THREADS == 4,
{
    law_variable_counts_as_a_positive_number(n, seq![], 0, usize::MAX as nat);
}

/// What a tag says of a model, read in lower case. `rfdetr` makes a detector, and so does `det`
/// where `ocr` is not there too. Failing that, `lama` and `inpaint` make an inpainter. Everything
/// else is character recognition, and in particular what holds `ocr` and none of those names,
/// with or without `det`.
pub proof fn law_class_of_a_tag(tag: Seq<char>)
    ensures
        ({
            let low = text::lowered(tag);
            let rfdetr = text::occurs(low, "rfdetr"@);
            let det = text::occurs(low, "det"@);
            let ocr = text::occurs(low, "ocr"@);
            let paints = text::occurs(low, "lama"@) || text::occurs(low, "inpaint"@);
            &&& rfdetr ==> model_class(tag) == ModelClass::Detector
            &&& det && !ocr ==> model_class(tag) == ModelClass::Detector
            &&& ocr && !rfdetr && !paints ==> model_class(tag) == ModelClass::Ocr
            &&& !rfdetr && !det && paints ==> model_class(tag) == ModelClass::Inpainter
            &&& !rfdetr && ocr && paints ==> model_class(tag) == ModelClass::Inpainter
            &&& !rfdetr && !det && !paints ==> model_class(tag) == ModelClass::Ocr
            &&& model_class(low) == model_class(tag)
        }),
{
    text::lemma_lowered(tag);
}

/// The memory that counts is that of the first dedicated adapter, in whole megabytes; without one
/// it is 8192 megabytes.
pub proof fn law_memory_that_counts(gpus: Seq<GpuInfoView>, k: int)
    ensures
        0 <= k < gpus.len() && gpus[k].is_dedicated && (forall|j: int|
            0 <= j < k ==> !(#[trigger] gpus[j]).is_dedicated) ==> total_vram_mb(gpus)
            == gpus[k].vram_mb.whole(),
        (forall|j: int| 0 <= j < gpus.len() ==> !(#[trigger] gpus[j]).is_dedicated)
            ==> total_vram_mb(gpus) == 8192,
{
    gpu::law_first_dedicated(gpus);
}

/// Where no limit was asked for, the bytes of a session by what the tag says and by the memory
/// that counts: eight, three or two gigabytes for a detector; four, two or one and a half for an
/// inpainter; one or a half for character recognition.
pub proof fn law_limit_of_a_tag(state: DeviceStateView, host: HostView, tag: Seq<char>)
    requires
        state.override_cuda_mem_limit_mb is None,
        positive(host.cuda_limit_var, u64::MAX as nat) is None,
    ensures
        ({
            let low = text::lowered(tag);
            let detects = text::occurs(low, "rfdetr"@) || text::occurs(low, "det"@)
                && !text::occurs(low, "ocr"@);
            let paints = text::occurs(low, "lama"@) || text::occurs(low, "inpaint"@);
            let vram = total_vram_mb(host.gpus);
            let limit = cuda_limit(state, host, tag);
            &&& detects && vram >= 14000 ==> limit == 8_589_934_592
            &&& detects && 7000 <= vram < 14000 ==> limit == 3_221_225_472
            &&& detects && vram < 7000 ==> limit == 2_147_483_648
            &&& !detects && paints && vram >= 14000 ==> limit == 4_294_967_296
            &&& !detects && paints && 7000 <= vram < 14000 ==> limit == 2_147_483_648
            &&& !detects && paints && vram < 7000 ==> limit == 1_610_612_736
            &&& !detects && !paints && vram >= 14000 ==> limit == 1_073_741_824
            &&& !detects && !paints && vram < 14000 ==> limit == 536_870_912
        }),
{
}

/// A limit that was asked for is what a session gets, whatever the tag and the adapters: the
/// setting in megabytes, or else the number that the variable is the numeral of.
pub proof fn law_limit_that_was_asked_for(
    state: DeviceStateView,
    host: HostView,
    tag: Seq<char>,
    n: nat,
)
    ensures
        state.override_cuda_mem_limit_mb == Some(n as u64) && 0 < n <= u64::MAX ==> cuda_limit(
            state,
            host,
            tag,
        ) == n * 1_048_576,
        state.override_cuda_mem_limit_mb is None && host.cuda_limit_var == Some(text::decimal(n))
            && 0 < n <= u64::MAX ==> cuda_limit(state, host, tag) == n * 1_048_576,
{
    law_variable_counts_as_a_positive_number(n, seq![], 0, u64::MAX as nat);
}

/// A limit can be counted in bytes exactly where it is at most the largest number of 64 bits over
/// the bytes of a megabyte. A setting of zero counts as none.
pub proof fn law_limit_that_can_be_counted(
    state: DeviceStateView,
    host: HostView,
    tag: Seq<char>,
    n: nat,
)
    ensures
        state.override_cuda_mem_limit_mb == Some(n as u64) && 0 < n <= u64::MAX ==> (limit_fits(
            state,
            host,
        ) <==> n <= 17_592_186_044_415),
        state.override_cuda_mem_limit_mb is None && host.cuda_limit_var == Some(text::decimal(n))
            && 0 < n <= u64::MAX ==> (limit_fits(state, host) <==> n <= 17_592_186_044_415),
        state.override_cuda_mem_limit_mb is None && host.cuda_limit_var is None ==> limit_fits(
            state,
            host,
        ),
        state.override_cuda_mem_limit_mb == Some(0u64) ==> cuda_limit(state, host, tag)
            == cuda_limit(
            DeviceStateView { override_cuda_mem_limit_mb: None, ..state },
            host,
            tag,
        ),
{
    law_variable_counts_as_a_positive_number(n, seq![], 0, u64::MAX as nat);
}

} // verus!
