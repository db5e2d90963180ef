//! The device plan: which execution providers a session is to try, in order, and what the plan
//! is called.

use crate::text;
use vstd::prelude::*;

verus! {

/// The name of the CPU execution provider.
pub const EP_CPU: &'static str = "CPUExecutionProvider";

/// The name of the CUDA execution provider.
pub const EP_CUDA: &'static str = "CUDAExecutionProvider";

/// The name of the CoreML execution provider.
pub const EP_COREML: &'static str = "CoreMLExecutionProvider";

/// The name of the DirectML execution provider.
pub const EP_DIRECTML: &'static str = "DmlExecutionProvider";

/// The name of the OpenVINO execution provider.
pub const EP_OPENVINO: &'static str = "OpenVINOExecutionProvider";

/// What runs the models.
#[derive(Clone, Copy, Debug, PartialEq, Eq, Structural)]
pub enum Backend {
    Cpu,
    Cuda,
    CoreMl,
    DirectMl,
    OpenVino,
}

/// All that the choice of a plan depends on.
#[derive(Debug)]
pub struct DeviceInputs {
    /// The requested device in lower case; empty for an automatic choice.
    pub env_override: String,
    /// OpenVINO is built in and its runtime has not failed.
    pub openvino_usable: bool,
    /// CUDA is built in and its runtime has not failed.
    pub cuda_usable: bool,
    /// CoreML is built in and its runtime has not failed.
    pub coreml_usable: bool,
    /// DirectML is built in.
    pub dml_compiled: bool,
    /// The name of the dedicated adapter, where the machine has one.
    pub dedicated_gpu_name: Option<String>,
}

/// `DeviceInputs` with its texts as sequences of characters.
pub struct DeviceInputsView {
    pub env_override: Seq<char>,
    pub openvino_usable: bool,
    pub cuda_usable: bool,
    pub coreml_usable: bool,
    pub dml_compiled: bool,
    pub dedicated_gpu_name: Option<Seq<char>>,
}

impl View for DeviceInputs {
    type V = DeviceInputsView;

    open spec fn view(&self) -> DeviceInputsView {
        DeviceInputsView {
            env_override: self.env_override@,
            openvino_usable: self.openvino_usable,
            cuda_usable: self.cuda_usable,
            coreml_usable: self.coreml_usable,
            dml_compiled: self.dml_compiled,
            dedicated_gpu_name: self.dedicated_gpu_name.deep_view(),
        }
    }
}

// ---------------------------------------------------------------------------
// The choice
// ---------------------------------------------------------------------------

/// The backend that a device name asks for.
pub open spec fn requested(device: Seq<char>) -> Option<Backend> {
    if device == "cpu"@ || device == "none"@ {
        Some(Backend::Cpu)
    } else if device == "cuda"@ {
        Some(Backend::Cuda)
    } else if device == "coreml"@ {
        Some(Backend::CoreMl)
    } else if device == "dml"@ || device == "directml"@ {
        Some(Backend::DirectMl)
    } else if device == "openvino"@ || device == "ov"@ {
        Some(Backend::OpenVino)
    } else {
        None
    }
}

/// Whether a backend can run: the three for dedicated adapters need one.
pub open spec fn usable(i: DeviceInputsView, b: Backend) -> bool {
    match b {
        Backend::Cpu => true,
        Backend::Cuda => i.cuda_usable && i.dedicated_gpu_name is Some,
        Backend::CoreMl => i.coreml_usable && i.dedicated_gpu_name is Some,
        Backend::DirectMl => i.dml_compiled && i.dedicated_gpu_name is Some,
        Backend::OpenVino => i.openvino_usable,
    }
}

/// The backend of an automatic choice: the first usable one in the order CUDA, CoreML, DirectML,
/// OpenVINO, CPU.
pub open spec fn automatic(i: DeviceInputsView) -> Backend {
    if usable(i, Backend::Cuda) {
        Backend::Cuda
    } else if usable(i, Backend::CoreMl) {
        Backend::CoreMl
    } else if usable(i, Backend::DirectMl) {
        Backend::DirectMl
    } else if usable(i, Backend::OpenVino) {
        Backend::OpenVino
    } else {
        Backend::Cpu
    }
}

/// The backend that is chosen: the requested one where it is usable, the automatic one
/// otherwise.
pub open spec fn chosen(i: DeviceInputsView) -> Backend {
    match requested(i.env_override) {
        Some(b) if usable(i, b) => b,
        _ => automatic(i),
    }
}

/// The name of a backend's execution provider.
pub open spec fn provider(b: Backend) -> Seq<char> {
    match b {
        Backend::Cpu => EP_CPU@,
        Backend::Cuda => EP_CUDA@,
        Backend::CoreMl => EP_COREML@,
        Backend::DirectMl => EP_DIRECTML@,
        Backend::OpenVino => EP_OPENVINO@,
    }
}

/// The providers to try for a backend: its own, then the CPU.
pub open spec fn providers(b: Backend) -> Seq<Seq<char>> {
    if b == Backend::Cpu {
        seq![EP_CPU@]
    } else {
        seq![provider(b), EP_CPU@]
    }
}

/// What a plan is called, given the name of the dedicated adapter.
pub open spec fn label(b: Backend, gpu: Option<Seq<char>>) -> Seq<char> {
    match b {
        Backend::Cpu => "CPU Multi-threaded"@,
        Backend::Cuda => "CUDA Dedicated GPU ("@ + gpu->0 + ")"@,
        Backend::CoreMl => "CoreML Apple GPU ("@ + gpu->0 + ")"@,
        Backend::DirectMl => "DirectML Dedicated GPU ("@ + gpu->0 + ")"@,
        Backend::OpenVino => "OpenVINO Intel Graphics"@,
    }
}

/// The plan: the providers in the order in which they are tried, and its name.
pub open spec fn device_plan(i: DeviceInputsView) -> (Seq<Seq<char>>, Seq<char>) {
    (providers(chosen(i)), label(chosen(i), i.dedicated_gpu_name))
}

fn requested_backend(device: &str) -> (r: Option<Backend>)
    ensures
        r == requested(device@),
{
    if text::same(device, "cpu") || text::same(device, "none") {
        Some(Backend::Cpu)
    } else if text::same(device, "cuda") {
        Some(Backend::Cuda)
    } else if text::same(device, "coreml") {
        Some(Backend::CoreMl)
    } else if text::same(device, "dml") || text::same(device, "directml") {
        Some(Backend::DirectMl)
    } else if text::same(device, "openvino") || text::same(device, "ov") {
        Some(Backend::OpenVino)
    } else {
        None
    }
}

impl DeviceInputs {
    /// Whether a backend can run.
    pub fn can_run(&self, b: Backend) -> (r: bool)
        ensures
            r == usable(self@, b),
    {
        match b {
            Backend::Cpu => true,
            Backend::Cuda => self.cuda_usable && self.dedicated_gpu_name.is_some(),
            Backend::CoreMl => self.coreml_usable && self.dedicated_gpu_name.is_some(),
            Backend::DirectMl => self.dml_compiled && self.dedicated_gpu_name.is_some(),
            Backend::OpenVino => self.openvino_usable,
        }
    }

    /// The backend that is chosen.
    pub fn choose_backend(&self) -> (r: Backend)
        ensures
            r == chosen(self@),
    {
        if let Some(b) = requested_backend(self.env_override.as_str()) {
            if self.can_run(b) {
                return b;
            }
        }
        if self.can_run(Backend::Cuda) {
            Backend::Cuda
        } else if self.can_run(Backend::CoreMl) {
            Backend::CoreMl
        } else if self.can_run(Backend::DirectMl) {
            Backend::DirectMl
        } else if self.can_run(Backend::OpenVino) {
            Backend::OpenVino
        } else {
            Backend::Cpu
        }
    }
}

/// The name of a backend's execution provider.
pub fn provider_name(b: Backend) -> (r: &'static str)
    ensures
        r@ == provider(b),
{
    match b {
        Backend::Cpu => EP_CPU,
        Backend::Cuda => EP_CUDA,
        Backend::CoreMl => EP_COREML,
        Backend::DirectMl => EP_DIRECTML,
        Backend::OpenVino => EP_OPENVINO,
    }
}

fn named_label(prefix: &str, gpu: &Option<String>) -> (r: String)
    requires
        gpu is Some,
    ensures
        r@ == prefix@ + gpu->0@ + ")"@,
{
    let mut r: String = prefix.to_owned();
    if let Some(name) = gpu {
        r.append(name.as_str());
    }
    r.append(")");
    r
}

/// Resolves the plan: an explicit request first, then the automatic choice, and the CPU where
/// nothing else can run.
pub fn resolve_device_plan(i: &DeviceInputs) -> (r: (Vec<String>, String))
    ensures
        (r.0.deep_view(), r.1@) == device_plan(i@),
{
    let b = i.choose_backend();
    let mut list: Vec<String> = Vec::new();
    if b != Backend::Cpu {
        list.push(provider_name(b).to_owned());
    }
    list.push(EP_CPU.to_owned());
    assert(list.deep_view() =~= providers(b));
    let name: String = match b {
        Backend::Cpu => "CPU Multi-threaded".to_owned(),
        Backend::Cuda => named_label("CUDA Dedicated GPU (", &i.dedicated_gpu_name),
        Backend::CoreMl => named_label("CoreML Apple GPU (", &i.dedicated_gpu_name),
        Backend::DirectMl => named_label("DirectML Dedicated GPU (", &i.dedicated_gpu_name),
        Backend::OpenVino => "OpenVINO Intel Graphics".to_owned(),
    };
    (list, name)
}

// ---------------------------------------------------------------------------
// Providers of one model
// ---------------------------------------------------------------------------

/// The providers that a model gets out of a plan. OpenVINO cannot load the text recognition
/// models, so under a plan with OpenVINO they run on the CPU alone.
pub open spec fn effective(model_tag: Seq<char>, plan: Seq<Seq<char>>) -> Seq<Seq<char>> {
    if plan.contains(EP_OPENVINO@) && text::occurs(model_tag, "rec"@) {
        seq![EP_CPU@]
    } else {
        plan
    }
}

/// Whether a list of providers holds a given one.
pub fn lists_provider(list: &[String], name: &str) -> (r: bool)
    ensures
        r == list.deep_view().contains(name@),
{
    let n = list.len();
    let mut i: usize = 0;
    while i < n
        invariant
            i <= n,
            n == list@.len(),
            forall|j: int| 0 <= j < i ==> (#[trigger] list@[j])@ != name@,
        decreases n - i,
    {
        if text::same(list[i].as_str(), name) {
            assert(list.deep_view()[i as int] == name@);
            return true;
        }
        i += 1;
    }
    assert forall|j: int| 0 <= j < n implies list.deep_view()[j] != name@ by {
        assert(list@[j]@ != name@);
    }
    false
}

/// A copy of a list of texts.
pub fn copy_texts(list: &[String]) -> (r: Vec<String>)
    ensures
        r.deep_view() == list.deep_view(),
{
    let mut r: Vec<String> = Vec::new();
    let n = list.len();
    let mut i: usize = 0;
    while i < n
        invariant
            i <= n,
            n == list@.len(),
            r.deep_view() == list.deep_view().take(i as int),
        decreases n - i,
    {
        let ghost done = r.deep_view();
        r.push(list[i].clone());
        assert(r.deep_view() =~= done.push(list@[i as int]@));
        i += 1;
        assert(r.deep_view() =~= list.deep_view().take(i as int));
    }
    assert(list.deep_view().take(n as int) =~= list.deep_view());
    r
}

/// The providers that a model gets out of a plan.
pub fn effective_providers_for_model(model_tag: &str, providers: &[String]) -> (r: Vec<String>)
    ensures
        r.deep_view() == effective(model_tag@, providers.deep_view()),
{
    let tag = text::chars_of(model_tag);
    if lists_provider(providers, EP_OPENVINO) && text::contains(tag.as_slice(), "rec") {
        let mut r: Vec<String> = Vec::new();
        r.push(EP_CPU.to_owned());
        assert(r.deep_view() =~= seq![EP_CPU@]);
        r
    } else {
        copy_texts(providers)
    }
}

// ---------------------------------------------------------------------------
// Laws
// ---------------------------------------------------------------------------

/// The five provider names are different texts.
pub proof fn lemma_provider_names()
    ensures
        forall|a: Backend, b: Backend| #[trigger] provider(a) == #[trigger] provider(b) ==> a == b,
{
    reveal_strlit("CPUExecutionProvider");
    reveal_strlit("CUDAExecutionProvider");
    reveal_strlit("CoreMLExecutionProvider");
    reveal_strlit("DmlExecutionProvider");
    reveal_strlit("OpenVINOExecutionProvider");
    assert(EP_CPU@[1] == 'P');
    assert(EP_CUDA@[1] == 'U');
    assert(EP_COREML@[1] == 'o');
    assert(EP_DIRECTML@[1] == 'm');
    assert(EP_OPENVINO@[1] == 'p');
}

/// Every plan can fall back: it is not empty, holds at most one accelerator, and the CPU stands
/// last.
pub proof fn law_plan_falls_back_to_cpu(i: DeviceInputsView)
    ensures
        1 <= device_plan(i).0.len() <= 2,
        device_plan(i).0.last() == EP_CPU@,
        device_plan(i).0[0] == provider(chosen(i)),
{
}

/// A plan holds the provider of a backend only where that backend can run; in particular no
/// dedicated backend without a dedicated adapter, and no OpenVINO without its runtime.
pub proof fn law_plan_is_usable(i: DeviceInputsView, b: Backend)
    requires
        device_plan(i).0.contains(provider(b)),
    ensures
        usable(i, b),
{
    lemma_provider_names();
    let k = choose|k: int| 0 <= k < device_plan(i).0.len() && device_plan(i).0[k] == provider(b);
    if k == 0 {
        assert(provider(b) == provider(chosen(i)));
    } else {
        assert(provider(b) == provider(Backend::Cpu));
    }
}

/// A request for a backend that can run is honoured, whatever else could run. The CPU always
/// can.
pub proof fn law_usable_request_is_honoured(i: DeviceInputsView, b: Backend)
    requires
        requested(i.env_override) == Some(b),
    ensures
        usable(i, b) ==> device_plan(i).0 == providers(b),
        b == Backend::Cpu ==> device_plan(i) == (seq![EP_CPU@], "CPU Multi-threaded"@),
{
}

/// A request that names no backend, or one that cannot run, is answered as if nothing had been
/// asked for: with the automatic choice.
pub proof fn law_unusable_request_is_automatic(i: DeviceInputsView)
    requires
        match requested(i.env_override) {
            Some(b) => !usable(i, b),
            None => true,
        },
    ensures
        device_plan(i) == (providers(automatic(i)), label(automatic(i), i.dedicated_gpu_name)),
        device_plan(i) == device_plan(DeviceInputsView { env_override: seq![], ..i }),
{
    reveal_strlit("cpu");
    reveal_strlit("none");
    reveal_strlit("cuda");
    reveal_strlit("coreml");
    reveal_strlit("dml");
    reveal_strlit("directml");
    reveal_strlit("openvino");
    reveal_strlit("ov");
    let none = DeviceInputsView { env_override: seq![], ..i };
    assert("cpu"@.len() > 0 && "none"@.len() > 0 && "cuda"@.len() > 0 && "coreml"@.len() > 0);
    assert("dml"@.len() > 0 && "directml"@.len() > 0 && "openvino"@.len() > 0 && "ov"@.len() > 0);
    assert(requested(none.env_override) is None);
    assert(automatic(none) == automatic(i));
}

/// The automatic choice: a usable dedicated backend comes before OpenVINO, OpenVINO before the
/// CPU, and the CPU is left where nothing can run.
pub proof fn law_automatic_order(i: DeviceInputsView)
    ensures
        usable(i, Backend::Cuda) ==> automatic(i) == Backend::Cuda,
        i.dedicated_gpu_name is None && i.openvino_usable ==> automatic(i) == Backend::OpenVino,
        automatic(i) == Backend::OpenVino ==> !usable(i, Backend::Cuda) && !usable(
            i,
            Backend::CoreMl,
        ) && !usable(i, Backend::DirectMl),
        automatic(i) == Backend::Cpu <==> (forall|b: Backend|
            b != Backend::Cpu ==> !#[trigger] usable(i, b)),
{
    if automatic(i) == Backend::Cpu {
        assert forall|b: Backend| b != Backend::Cpu implies !#[trigger] usable(i, b) by {
            match b {
                Backend::Cpu => {},
                Backend::Cuda => {},
                Backend::CoreMl => {},
                Backend::DirectMl => {},
                Backend::OpenVino => {},
            }
        }
    }
}

/// A text recognition model never runs on OpenVINO; every other model, and every model under a
/// plan without OpenVINO, keeps the plan as it is. A plan that can fall back still can.
pub proof fn law_recognition_stays_off_openvino(tag: Seq<char>, plan: Seq<Seq<char>>)
    ensures
        text::occurs(tag, "rec"@) ==> !effective(tag, plan).contains(EP_OPENVINO@),
        !text::occurs(tag, "rec"@) ==> effective(tag, plan) == plan,
        !plan.contains(EP_OPENVINO@) ==> effective(tag, plan) == plan,
        plan.len() > 0 && plan.last() == EP_CPU@ ==> effective(tag, plan).len() > 0 && effective(
            tag,
            plan,
        ).last() == EP_CPU@,
{
    lemma_provider_names();
    assert(provider(Backend::OpenVino) != provider(Backend::Cpu));
}

proof fn lemma_device_names()
    ensures
        "cpu"@ != "cuda"@,
        "cpu"@ != "coreml"@,
        "cpu"@ != "dml"@,
        "cpu"@ != "directml"@,
        "cpu"@ != "openvino"@,
        "cpu"@ != "ov"@,
        "none"@ != "cuda"@,
        "none"@ != "coreml"@,
        "none"@ != "dml"@,
        "none"@ != "directml"@,
        "none"@ != "openvino"@,
        "none"@ != "ov"@,
        "cuda"@ != "coreml"@,
        "cuda"@ != "dml"@,
        "cuda"@ != "directml"@,
        "cuda"@ != "openvino"@,
        "cuda"@ != "ov"@,
        "coreml"@ != "dml"@,
        "coreml"@ != "directml"@,
        "coreml"@ != "openvino"@,
        "coreml"@ != "ov"@,
        "dml"@ != "openvino"@,
        "dml"@ != "ov"@,
        "directml"@ != "openvino"@,
        "directml"@ != "ov"@,
        "cpu"@.len() > 0,
        "none"@.len() > 0,
        "cuda"@.len() > 0,
        "coreml"@.len() > 0,
        "dml"@.len() > 0,
        "directml"@.len() > 0,
        "openvino"@.len() > 0,
        "ov"@.len() > 0,
{
    reveal_strlit("cpu");
    reveal_strlit("none");
    reveal_strlit("cuda");
    reveal_strlit("coreml");
    reveal_strlit("dml");
    reveal_strlit("directml");
    reveal_strlit("openvino");
    reveal_strlit("ov");
    assert("cpu"@[1] == 'p' && "none"@[1] == 'o' && "cuda"@[1] == 'u' && "coreml"@[1] == 'o');
    assert("dml"@[0] == 'd' && "directml"@[0] == 'd' && "openvino"@[0] == 'o');
    assert("cpu"@[0] == 'c' && "none"@[0] == 'n' && "ov"@[0] == 'o');
}

/// What each device name gets where its backend can run: the CPU in any case, CUDA, CoreML and
/// DirectML on the dedicated adapter, and OpenVINO with no need of one.
pub proof fn law_plan_of_each_request(i: DeviceInputsView, name: Seq<char>)
    ensures
        i.env_override == "cpu"@ || i.env_override == "none"@ ==> device_plan(i) == (
            seq!["CPUExecutionProvider"@],
            "CPU Multi-threaded"@,
        ),
        i.env_override == "cuda"@ && i.cuda_usable && i.dedicated_gpu_name == Some(name)
            ==> device_plan(i) == (
            seq!["CUDAExecutionProvider"@, "CPUExecutionProvider"@],
            "CUDA Dedicated GPU ("@ + name + ")"@,
        ),
        i.env_override == "coreml"@ && i.coreml_usable && i.dedicated_gpu_name == Some(name)
            ==> device_plan(i) == (
            seq!["CoreMLExecutionProvider"@, "CPUExecutionProvider"@],
            "CoreML Apple GPU ("@ + name + ")"@,
        ),
        (i.env_override == "dml"@ || i.env_override == "directml"@) && i.dml_compiled
            && i.dedicated_gpu_name == Some(name) ==> device_plan(i) == (
            seq!["DmlExecutionProvider"@, "CPUExecutionProvider"@],
            "DirectML Dedicated GPU ("@ + name + ")"@,
        ),
        (i.env_override == "openvino"@ || i.env_override == "ov"@) && i.openvino_usable
            ==> device_plan(i) == (
            seq!["OpenVINOExecutionProvider"@, "CPUExecutionProvider"@],
            "OpenVINO Intel Graphics"@,
        ),
{
    lemma_device_names();
}

/// What an automatic choice gets: on a dedicated adapter the first of CUDA, CoreML and DirectML
/// that can run; else OpenVINO where it can; else the CPU.
pub proof fn law_plan_without_a_request(i: DeviceInputsView, name: Seq<char>)
    requires
        i.env_override.len() == 0,
    ensures
        i.dedicated_gpu_name == Some(name) && i.cuda_usable ==> device_plan(i) == (
            seq!["CUDAExecutionProvider"@, "CPUExecutionProvider"@],
            "CUDA Dedicated GPU ("@ + name + ")"@,
        ),
        i.dedicated_gpu_name == Some(name) && !i.cuda_usable && i.coreml_usable ==> device_plan(i)
            == (
            seq!["CoreMLExecutionProvider"@, "CPUExecutionProvider"@],
            "CoreML Apple GPU ("@ + name + ")"@,
        ),
        i.dedicated_gpu_name == Some(name) && !i.cuda_usable && !i.coreml_usable && i.dml_compiled
            ==> device_plan(i) == (
            seq!["DmlExecutionProvider"@, "CPUExecutionProvider"@],
            "DirectML Dedicated GPU ("@ + name + ")"@,
        ),
        (i.dedicated_gpu_name is None || !i.cuda_usable && !i.coreml_usable && !i.dml_compiled)
            && i.openvino_usable ==> device_plan(i) == (
            seq!["OpenVINOExecutionProvider"@, "CPUExecutionProvider"@],
            "OpenVINO Intel Graphics"@,
        ),
        (i.dedicated_gpu_name is None || !i.cuda_usable && !i.coreml_usable && !i.dml_compiled)
            && !i.openvino_usable ==> device_plan(i) == (
            seq!["CPUExecutionProvider"@],
            "CPU Multi-threaded"@,
        ),
{
    lemma_device_names();
}

/// A name that is none of the eight, and a name whose backend cannot run, count as no request.
pub proof fn law_request_that_does_not_count(i: DeviceInputsView)
    requires
        ({
            let d = i.env_override;
            let dedicated = i.dedicated_gpu_name is Some;
            ||| d != "cpu"@ && d != "none"@ && d != "cuda"@ && d != "coreml"@ && d != "dml"@ && d
                != "directml"@ && d != "openvino"@ && d != "ov"@
            ||| d == "cuda"@ && !(i.cuda_usable && dedicated)
            ||| d == "coreml"@ && !(i.coreml_usable && dedicated)
            ||| (d == "dml"@ || d == "directml"@) && !(i.dml_compiled && dedicated)
            ||| (d == "openvino"@ || d == "ov"@) && !i.openvino_usable
        }),
    ensures
        device_plan(i) == device_plan(DeviceInputsView { env_override: seq![], ..i }),
{
    lemma_device_names();
    law_unusable_request_is_automatic(i);
}

/// The providers of one model: the CPU alone where the plan holds OpenVINO and the tag holds
/// `rec`, and the plan as it is in every other case.
pub proof fn law_providers_of_a_model(a: Seq<char>, b: Seq<char>, tag: Seq<char>, plan: Seq<Seq<char>>)
    ensures
        plan.contains("OpenVINOExecutionProvider"@) ==> effective(a + "rec"@ + b, plan)
            == seq!["CPUExecutionProvider"@],
        !plan.contains("OpenVINOExecutionProvider"@) ==> effective(tag, plan) == plan,
        (forall|x: Seq<char>, y: Seq<char>| tag != #[trigger] (x + "rec"@ + y)) ==> effective(
            tag,
            plan,
        ) == plan,
{
    text::law_inserted_text_occurs(a, "rec"@, b);
    text::law_occurrence(tag, "rec"@);
}

} // verus!
