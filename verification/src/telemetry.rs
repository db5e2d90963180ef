//! Live figures of the machine: the fields that the tools and files of each system print, and
//! the report that is made of them.
//!
//! Amounts are of a type `V` of the caller's: they are picked and passed on here, not reckoned
//! with.

use crate::gpu;
use crate::gpu::{GpuInfo, GpuInfoView, Vram};
use crate::limits;
use crate::plan::EP_CPU;
use crate::state::{DeviceState, Host};
use crate::status;
use crate::text;
use vstd::prelude::*;

verus! {

// ---------------------------------------------------------------------------
// nvidia-smi
// ---------------------------------------------------------------------------

/// The numerals of `nvidia-smi --query-gpu=memory.used,memory.total,utilization.gpu`.
#[derive(Debug)]
pub struct GpuFields {
    pub used: String,
    pub total: String,
    pub utilization: Option<String>,
}

/// `GpuFields` with its texts as sequences of characters.
pub struct GpuFieldsView {
    pub used: Seq<char>,
    pub total: Seq<char>,
    pub utilization: Option<Seq<char>>,
}

impl View for GpuFields {
    type V = GpuFieldsView;

    open spec fn view(&self) -> GpuFieldsView {
        GpuFieldsView {
            used: self.used@,
            total: self.total@,
            utilization: self.utilization.deep_view(),
        }
    }
}

impl DeepView for GpuFields {
    type V = GpuFieldsView;

    open spec fn deep_view(&self) -> GpuFieldsView {
        self@
    }
}

/// The fields of the first line, where it has two at least.
pub open spec fn gpu_fields(stdout: Seq<char>) -> Option<GpuFieldsView> {
    let lines = text::lines_of(stdout);
    if lines.len() == 0 {
        None
    } else {
        let fields = text::pieces(lines[0], ',');
        if fields.len() < 2 {
            None
        } else {
            Some(
                GpuFieldsView {
                    used: text::trimmed(fields[0]),
                    total: text::trimmed(fields[1]),
                    utilization: if fields.len() > 2 {
                        Some(text::trimmed(fields[2]))
                    } else {
                        None
                    },
                },
            )
        }
    }
}

/// Reads what `nvidia-smi` says of the memory and the load of the first adapter.
pub fn query_nvidia_gpu_telemetry(stdout: &str) -> (r: Option<GpuFields>)
    ensures
        r.deep_view() == gpu_fields(stdout@),
{
    let chars = text::chars_of(stdout);
    let lines = text::lines(chars.as_slice());
    let ghost all = text::texts(lines@);
    if lines.len() == 0 {
        return None;
    }
    assert(all[0] == lines@[0]@);
    let fields = text::split(lines[0], ',');
    let ghost parts = text::texts(fields@);
    if fields.len() < 2 {
        return None;
    }
    assert(parts[0] == fields@[0]@ && parts[1] == fields@[1]@);
    let utilization: Option<String> = if fields.len() > 2 {
        assert(parts[2] == fields@[2]@);
        Some(text::string_of(text::trim(fields[2])))
    } else {
        None
    };
    Some(
        GpuFields {
            used: text::string_of(text::trim(fields[0])),
            total: text::string_of(text::trim(fields[1])),
            utilization,
        },
    )
}

// ---------------------------------------------------------------------------
// /proc/meminfo
// ---------------------------------------------------------------------------

/// The numerals of the total and the available memory, in kilobytes.
#[derive(Debug)]
pub struct MemInfoFields {
    pub total: Option<String>,
    pub available: Option<String>,
}

/// The second word of a line.
pub open spec fn second_word(line: Seq<char>) -> Option<Seq<char>> {
    let words = text::words_of(line);
    if words.len() > 1 {
        Some(words[1])
    } else {
        None
    }
}

/// The last line that begins with `prefix`.
pub open spec fn last_with_prefix(lines: Seq<Seq<char>>, prefix: Seq<char>) -> Option<Seq<char>>
    decreases lines.len(),
{
    if lines.len() == 0 {
        None
    } else if text::begins(lines.last(), prefix) {
        Some(lines.last())
    } else {
        last_with_prefix(lines.drop_last(), prefix)
    }
}

/// The numeral that a line of `/proc/meminfo` gives for a key; the last line of a key counts.
pub open spec fn meminfo_field(content: Seq<char>, key: Seq<char>) -> Option<Seq<char>> {
    match last_with_prefix(text::lines_of(content), key) {
        Some(line) => second_word(line),
        None => None,
    }
}

fn find_last_with_prefix<'a>(lines: &Vec<&'a [char]>, prefix: &str) -> (r: Option<&'a [char]>)
    ensures
        match r {
            Some(line) => last_with_prefix(text::texts(lines@), prefix@) == Some(line@),
            None => last_with_prefix(text::texts(lines@), prefix@) is None,
        },
{
    let ghost all = text::texts(lines@);
    let n = lines.len();
    let mut i: usize = n;
    assert(all.take(n as int) =~= all);
    while i > 0
        invariant
            i <= n,
            n == lines@.len(),
            all == text::texts(lines@),
            last_with_prefix(all, prefix@) == last_with_prefix(all.take(i as int), prefix@),
        decreases i,
    {
        let line = lines[i - 1];
        assert(all.take(i as int).last() == line@);
        assert(all.take(i as int).drop_last() =~= all.take(i - 1));
        if text::starts_with(line, prefix) {
            return Some(line);
        }
        i -= 1;
    }
    None
}

fn find_meminfo_field(lines: &Vec<&[char]>, key: &str) -> (r: Option<String>)
    ensures
        r.deep_view() == (match last_with_prefix(text::texts(lines@), key@) {
            Some(line) => second_word(line),
            None => None,
        }),
{
    match find_last_with_prefix(lines, key) {
        Some(line) => {
            let words = text::words(line);
            let ghost parts = text::texts(words@);
            if words.len() > 1 {
                assert(parts[1] == words@[1]@);
                Some(text::string_of(words[1]))
            } else {
                None
            }
        },
        None => None,
    }
}

/// Reads the total and the available memory out of `/proc/meminfo`.
pub fn query_linux_host_memory(content: &str) -> (r: MemInfoFields)
    ensures
        r.total.deep_view() == meminfo_field(content@, "MemTotal:"@),
        r.available.deep_view() == meminfo_field(content@, "MemAvailable:"@),
{
    let chars = text::chars_of(content);
    let lines = text::lines(chars.as_slice());
    MemInfoFields {
        total: find_meminfo_field(&lines, "MemTotal:"),
        available: find_meminfo_field(&lines, "MemAvailable:"),
    }
}

// ---------------------------------------------------------------------------
// vm_stat
// ---------------------------------------------------------------------------

/// The numerals of the page size and of the pages in use.
#[derive(Debug)]
pub struct VmStatFields {
    pub page_size: Option<String>,
    pub active: Option<String>,
    pub wired: Option<String>,
    pub compressed: Option<String>,
}

/// What follows the first occurrence of `p` in `s`.
pub open spec fn after_first(s: Seq<char>, p: Seq<char>) -> Option<Seq<char>> {
    if text::occurs(s, p) {
        let i = choose|i: int| text::first_at(s, p, i);
        Some(s.skip(i + p.len()))
    } else {
        None
    }
}

/// The page size that the heading of `vm_stat` names: what stands between `page size of ` and
/// the next blank.
pub open spec fn page_size_field(stdout: Seq<char>) -> Option<Seq<char>> {
    let lines = text::lines_of(stdout);
    if lines.len() == 0 {
        None
    } else {
        match after_first(lines[0], "page size of "@) {
            Some(rest) => match text::halves(rest, ' ') {
                Some((size, _)) => Some(size),
                None => None,
            },
            None => None,
        }
    }
}

/// The number of pages that a line of `vm_stat` gives for a key, without its full stop; the last
/// line of a key counts.
pub open spec fn vm_stat_field(stdout: Seq<char>, key: Seq<char>) -> Option<Seq<char>> {
    match last_with_prefix(text::lines_of(stdout), key) {
        Some(line) => {
            let words = text::words_of(line);
            if words.len() > 0 {
                Some(text::stripped_end(words.last(), "."@))
            } else {
                None
            }
        },
        None => None,
    }
}

fn find_vm_stat_field(lines: &Vec<&[char]>, key: &str) -> (r: Option<String>)
    ensures
        r.deep_view() == (match last_with_prefix(text::texts(lines@), key@) {
            Some(line) => {
                let words = text::words_of(line);
                if words.len() > 0 {
                    Some(text::stripped_end(words.last(), "."@))
                } else {
                    None
                }
            },
            None => None,
        }),
{
    match find_last_with_prefix(lines, key) {
        Some(line) => {
            let words = text::words(line);
            let ghost parts = text::texts(words@);
            let n = words.len();
            if n > 0 {
                assert(parts.last() == words@[n - 1]@);
                Some(text::string_of(text::trim_end_matches(words[n - 1], ".")))
            } else {
                None
            }
        },
        None => None,
    }
}

fn find_page_size(line: &[char]) -> (r: Option<String>)
    ensures
        r.deep_view() == (match after_first(line@, "page size of "@) {
            Some(rest) => match text::halves(rest, ' ') {
                Some((size, _)) => Some(size),
                None => None,
            },
            None => None,
        }),
{
    let key = "page size of ";
    proof {
        reveal_strlit("page size of ");
    }
    match text::find(line, key) {
        Some(at) => {
            let n = line.len();
            assert(text::occurs_at(line@, key@, at as int));
            let ghost i = choose|i: int| text::first_at(line@, key@, i);
            assert(text::first_at(line@, key@, at as int));
            assert(i == at) by {
                if i < at {
                    assert(!text::occurs_at(line@, key@, i));
                }
                if at < i {
                    assert(!text::occurs_at(line@, key@, at as int));
                }
            }
            let rest = vstd::slice::slice_subrange(line, at + 13, n);
            assert(rest@ =~= line@.skip(at + 13));
            match text::split_once(rest, ' ') {
                Some((size, _)) => Some(text::string_of(size)),
                None => None,
            }
        },
        None => None,
    }
}

/// Reads the page size and the pages in use out of what `vm_stat` prints.
pub fn query_macos_pages(stdout: &str) -> (r: VmStatFields)
    ensures
        r.page_size.deep_view() == page_size_field(stdout@),
        r.active.deep_view() == vm_stat_field(stdout@, "Pages active:"@),
        r.wired.deep_view() == vm_stat_field(stdout@, "Pages wired down:"@),
        r.compressed.deep_view() == vm_stat_field(stdout@, "Pages occupied by compressor:"@),
{
    let chars = text::chars_of(stdout);
    let lines = text::lines(chars.as_slice());
    let ghost all = text::texts(lines@);
    let page_size: Option<String> = if lines.len() > 0 {
        assert(all[0] == lines@[0]@);
        find_page_size(lines[0])
    } else {
        None
    };
    VmStatFields {
        page_size,
        active: find_vm_stat_field(&lines, "Pages active:"),
        wired: find_vm_stat_field(&lines, "Pages wired down:"),
        compressed: find_vm_stat_field(&lines, "Pages occupied by compressor:"),
    }
}

// ---------------------------------------------------------------------------
// The report
// ---------------------------------------------------------------------------

/// A live reading of an adapter. `total_mb` is `None` where the reading gave no positive amount.
#[derive(Debug)]
pub struct GpuReading<V> {
    pub used_mb: V,
    pub total_mb: Option<V>,
    pub utilization_pct: Option<V>,
}

/// An amount of memory in a report: one that the enumeration of the adapters found, or one that
/// was read live.
#[derive(Debug, PartialEq, Eq)]
pub enum Amount<V> {
    Enumerated(Vram),
    Read(V),
}

/// The figures of the dedicated adapter.
#[derive(Debug)]
pub struct GpuTelemetry<V> {
    pub name: String,
    pub vram_used_mb: Amount<V>,
    pub vram_total_mb: Amount<V>,
    pub utilization_pct: Option<V>,
    pub active_provider: String,
}

/// The figures of the host's memory.
#[derive(Debug)]
pub struct HostMemoryTelemetry<V> {
    pub used_mb: V,
    pub total_mb: V,
}

/// The figures of the CPU.
#[derive(Debug)]
pub struct CpuTelemetry<V> {
    pub cores: usize,
    pub utilization_pct: Option<V>,
}

/// The figures of the engine's queue.
#[derive(Clone, Copy, Debug, PartialEq, Eq, Structural)]
pub struct EngineQueueTelemetry {
    pub active_jobs: usize,
    pub queued_jobs: usize,
}

/// The report.
#[derive(Debug)]
pub struct SystemTelemetry<V> {
    pub gpu: Option<GpuTelemetry<V>>,
    pub host_memory: HostMemoryTelemetry<V>,
    pub cpu: CpuTelemetry<V>,
    pub queue: EngineQueueTelemetry,
    pub timestamp_ms: u64,
}

/// `GpuTelemetry` with its texts as sequences of characters.
pub struct GpuTelemetryView<V> {
    pub name: Seq<char>,
    pub vram_used_mb: Amount<V>,
    pub vram_total_mb: Amount<V>,
    pub utilization_pct: Option<V>,
    pub active_provider: Seq<char>,
}

/// `SystemTelemetry` with its texts as sequences of characters.
pub struct SystemTelemetryView<V> {
    pub gpu: Option<GpuTelemetryView<V>>,
    pub host_memory: HostMemoryTelemetry<V>,
    pub cpu: CpuTelemetry<V>,
    pub queue: EngineQueueTelemetry,
    pub timestamp_ms: u64,
}

impl<V> View for GpuTelemetry<V> {
    type V = GpuTelemetryView<V>;

    open spec fn view(&self) -> GpuTelemetryView<V> {
        GpuTelemetryView {
            name: self.name@,
            vram_used_mb: self.vram_used_mb,
            vram_total_mb: self.vram_total_mb,
            utilization_pct: self.utilization_pct,
            active_provider: self.active_provider@,
        }
    }
}

impl<V> View for SystemTelemetry<V> {
    type V = SystemTelemetryView<V>;

    open spec fn view(&self) -> SystemTelemetryView<V> {
        SystemTelemetryView {
            gpu: match self.gpu {
                Some(g) => Some(g@),
                None => None,
            },
            host_memory: self.host_memory,
            cpu: self.cpu,
            queue: self.queue,
            timestamp_ms: self.timestamp_ms,
        }
    }
}

/// The figures of an adapter: a live reading goes before what the enumeration found, but for a
/// total that is not positive. Without a reading none of the memory counts as used.
pub open spec fn gpu_figures<V>(
    found: GpuInfoView,
    reading: Option<GpuReading<V>>,
    active_provider: Seq<char>,
) -> GpuTelemetryView<V> {
    GpuTelemetryView {
        name: found.name,
        vram_used_mb: match reading {
            Some(reading) => Amount::Read(reading.used_mb),
            None => Amount::Enumerated(Vram::Bytes(0)),
        },
        vram_total_mb: match reading {
            Some(GpuReading { total_mb: Some(total), .. }) => Amount::Read(total),
            _ => Amount::Enumerated(found.vram_mb),
        },
        utilization_pct: match reading {
            Some(reading) => reading.utilization_pct,
            None => None,
        },
        active_provider,
    }
}

/// The report under a given plan, on a machine with the given adapters and CPUs.
pub open spec fn report<V>(
    providers: Seq<Seq<char>>,
    gpus: Seq<GpuInfoView>,
    reading: Option<GpuReading<V>>,
    host_memory: HostMemoryTelemetry<V>,
    cores: usize,
    queue: EngineQueueTelemetry,
    timestamp_ms: u64,
) -> SystemTelemetryView<V> {
    SystemTelemetryView {
        gpu: match gpu::first_dedicated(gpus) {
            Some(g) => Some(
                gpu_figures(
                    g,
                    reading,
                    if providers.len() > 0 {
                        providers[0]
                    } else {
                        EP_CPU@
                    },
                ),
            ),
            None => None,
        },
        host_memory,
        cpu: CpuTelemetry { cores, utilization_pct: None },
        queue,
        timestamp_ms,
    }
}

/// Makes the report under a given plan, on a machine with the given adapters and CPUs. The reading
/// counts only where there is a dedicated adapter.
pub fn telemetry_for_plan<V>(
    providers: &Vec<String>,
    gpus: &Vec<GpuInfo>,
    reading: Option<GpuReading<V>>,
    host_memory: HostMemoryTelemetry<V>,
    cores: usize,
    queue: EngineQueueTelemetry,
    timestamp_ms: u64,
) -> (r: SystemTelemetry<V>)
    ensures
        r@ == report(
            providers.deep_view(),
            gpus.deep_view(),
            reading,
            host_memory,
            cores,
            queue,
            timestamp_ms,
        ),
{
    let active_provider: String = if providers.len() > 0 {
        assert(providers.deep_view()[0] == providers@[0]@);
        providers[0].clone()
    } else {
        EP_CPU.to_owned()
    };
    let gpu: Option<GpuTelemetry<V>> = match gpu::get_dedicated_gpu(gpus) {
        Some(g) => {
            let (used, total, utilization): (Amount<V>, Amount<V>, Option<V>) = match reading {
                Some(reading) => (
                    Amount::Read(reading.used_mb),
                    match reading.total_mb {
                        Some(total) => Amount::Read(total),
                        None => Amount::Enumerated(g.vram_mb),
                    },
                    reading.utilization_pct,
                ),
                None => (Amount::Enumerated(Vram::Bytes(0)), Amount::Enumerated(g.vram_mb), None),
            };
            Some(
                GpuTelemetry {
                    name: g.name,
                    vram_used_mb: used,
                    vram_total_mb: total,
                    utilization_pct: utilization,
                    active_provider,
                },
            )
        },
        None => None,
    };
    SystemTelemetry {
        gpu,
        host_memory,
        cpu: CpuTelemetry { cores, utilization_pct: None },
        queue,
        timestamp_ms,
    }
}

/// Makes the report of the engine as it stands: the load of its queue, the figures that were
/// read of the adapter and the host, and the CPUs that the process may use.
pub fn get_system_telemetry<V>(
    state: &DeviceState,
    host: &Host,
    reading: Option<GpuReading<V>>,
    host_memory: HostMemoryTelemetry<V>,
    active_jobs: usize,
    queued_jobs: usize,
    timestamp_ms: u64,
) -> (r: SystemTelemetry<V>)
    ensures
        r.cpu.cores >= 1,
        r@ == report(
            status::probed(state@, host@).0,
            host@.gpus,
            reading,
            host_memory,
            r.cpu.cores,
            (EngineQueueTelemetry { active_jobs, queued_jobs }),
            timestamp_ms,
        ),
        text::ascii(status::requested_device(state@, host@)) ==> status::probed(state@, host@)
            == status::plan_for(
            state@,
            host@,
            text::lowered(status::requested_device(state@, host@)),
        ),
{
    let (providers, _) = status::probe_hardware(state, host);
    telemetry_for_plan(
        &providers,
        &host.gpus,
        reading,
        host_memory,
        limits::available_cpus(),
        EngineQueueTelemetry { active_jobs, queued_jobs },
        timestamp_ms,
    )
}

/// The report has figures of an adapter exactly where the machine has a dedicated one. They name
/// it and the provider that is first in the plan, and without a live total they give its memory
/// as it was enumerated.
pub proof fn law_report_names_the_dedicated_adapter<V>(
    providers: Seq<Seq<char>>,
    gpus: Seq<GpuInfoView>,
    reading: Option<GpuReading<V>>,
    host_memory: HostMemoryTelemetry<V>,
    cores: usize,
    queue: EngineQueueTelemetry,
    timestamp_ms: u64,
)
    requires
        providers.len() > 0,
    ensures
        ({
            let r = report(providers, gpus, reading, host_memory, cores, queue, timestamp_ms);
            &&& r.gpu is Some <==> gpu::first_dedicated(gpus) is Some
            &&& r.gpu is Some ==> r.gpu->0.name == gpu::first_dedicated(gpus)->0.name
                && r.gpu->0.active_provider == providers[0]
            &&& r.gpu is Some && (reading is None || reading->0.total_mb is None)
                ==> r.gpu->0.vram_total_mb == Amount::<V>::Enumerated(
                gpu::first_dedicated(gpus)->0.vram_mb,
            )
            &&& r.gpu is Some && reading is None ==> r.gpu->0.vram_used_mb
                == Amount::<V>::Enumerated(Vram::Bytes(0)) && r.gpu->0.utilization_pct is None
            &&& r.queue == queue
            &&& r.timestamp_ms == timestamp_ms
        }),
{
}

// ---------------------------------------------------------------------------
// Laws
// ---------------------------------------------------------------------------

/// The fields of the first line count, trimmed: the used and the total memory, and the load where
/// there is a third field. Further fields and lines do not matter.
pub proof fn law_gpu_fields(
    used: Seq<char>,
    total: Seq<char>,
    load: Seq<char>,
    more: Seq<char>,
    rest: Seq<char>,
)
    requires
        !used.contains(',') && !total.contains(',') && !load.contains(','),
        !used.contains('\n') && !total.contains('\n') && !load.contains('\n') && !more.contains('\n'),
        used.len() > 0 && used.last() != '\r',
        total.len() > 0 && total.last() != '\r',
        load.len() > 0 && load.last() != '\r',
        more.len() > 0 && more.last() != '\r',
    ensures
        gpu_fields(Seq::<char>::empty()) is None,
        gpu_fields(used + seq!['\n'] + rest) is None,
        gpu_fields((used + seq![','] + total) + seq!['\n'] + rest) == Some(
            GpuFieldsView {
                used: text::trimmed(used),
                total: text::trimmed(total),
                utilization: None,
            },
        ),
        gpu_fields((used + seq![','] + (total + seq![','] + load)) + seq!['\n'] + rest) == Some(
            GpuFieldsView {
                used: text::trimmed(used),
                total: text::trimmed(total),
                utilization: Some(text::trimmed(load)),
            },
        ),
        gpu_fields(
            (used + seq![','] + (total + seq![','] + (load + seq![','] + more))) + seq!['\n'] + rest,
        ) == Some(
            GpuFieldsView {
                used: text::trimmed(used),
                total: text::trimmed(total),
                utilization: Some(text::trimmed(load)),
            },
        ),
{
    let two = used + seq![','] + total;
    let tail = total + seq![','] + load;
    let three = used + seq![','] + tail;
    let end = load + seq![','] + more;
    let long = total + seq![','] + end;
    let four = used + seq![','] + long;
    lemma_no_line_feed(used, total);
    lemma_no_line_feed(total, load);
    lemma_no_line_feed(used, tail);
    lemma_no_line_feed(load, more);
    lemma_no_line_feed(total, end);
    lemma_no_line_feed(used, long);
    text::law_lines(used, rest);
    text::law_lines(two, rest);
    text::law_lines(three, rest);
    text::law_lines(four, rest);
    assert(text::lines_of(used + seq!['\n'] + rest)[0] == used);
    assert(text::lines_of(two + seq!['\n'] + rest)[0] == two);
    assert(text::lines_of(three + seq!['\n'] + rest)[0] == three);
    assert(text::lines_of(four + seq!['\n'] + rest)[0] == four);
    text::law_splitting(used, ',', total);
    text::law_splitting(used, ',', tail);
    text::law_splitting(used, ',', long);
    text::law_splitting(total, ',', load);
    text::law_splitting(total, ',', end);
    text::law_splitting(load, ',', more);
    let p = text::pieces(two, ',');
    assert(p.len() == 2 && p[0] == used && p[1] == total);
    let p = text::pieces(three, ',');
    assert(p.len() == 3 && p[0] == used && p[1] == total && p[2] == load);
    let p = text::pieces(four, ',');
    assert(p.len() > 2 && p[0] == used && p[1] == total && p[2] == load);
}

/// Two texts without line feeds make a line when a comma joins them, and it ends as the second.
proof fn lemma_no_line_feed(a: Seq<char>, b: Seq<char>)
    requires
        !a.contains('\n'),
        !b.contains('\n'),
        b.len() > 0,
    ensures
        ({
            let s = a + seq![','] + b;
            !s.contains('\n') && s.len() > 0 && s.last() == b.last()
        }),
{
    let s = a + seq![','] + b;
    if s.contains('\n') {
        let i = choose|i: int| 0 <= i < s.len() && s[i] == '\n';
        if i < a.len() {
            assert(a[i] == '\n');
        } else if i > a.len() {
            assert(b[i - a.len() - 1] == '\n');
        }
    }
}

proof fn lemma_last_with_prefix(lines: Seq<Seq<char>>, p: Seq<char>, k: int)
    requires
        -1 <= k < lines.len(),
        k >= 0 ==> text::begins(lines[k], p),
        forall|j: int| k < j < lines.len() ==> !text::begins(#[trigger] lines[j], p),
    ensures
        last_with_prefix(lines, p) == (if k >= 0 {
            Some(lines[k])
        } else {
            None
        }),
    decreases lines.len(),
{
    if lines.len() > 0 && k < lines.len() - 1 {
        assert(!text::begins(lines[lines.len() - 1], p));
        let rest = lines.drop_last();
        assert forall|j: int| k < j < rest.len() implies !text::begins(#[trigger] rest[j], p) by {
            assert(rest[j] == lines[j]);
        }
        lemma_last_with_prefix(rest, p, k);
    }
}

/// The figure of a key is the word after it in the last line that begins with the key, up to the
/// next white space; a key that begins no line has none.
pub proof fn law_meminfo_field(
    content: Seq<char>,
    key: Seq<char>,
    k: int,
    gap: Seq<char>,
    w: Seq<char>,
    tail: Seq<char>,
)
    requires
        key.len() > 0,
        w.len() > 0,
        forall|i: int| 0 <= i < key.len() ==> !text::is_space(#[trigger] key[i]),
        forall|i: int| 0 <= i < w.len() ==> !text::is_space(#[trigger] w[i]),
        gap.len() > 0 && text::blank(gap),
        tail.len() > 0 ==> text::is_space(tail[0]),
        -1 <= k < text::lines_of(content).len(),
        k >= 0 ==> text::lines_of(content)[k] == key + (gap + w + tail),
        forall|j: int|
            k < j < text::lines_of(content).len() ==> !text::begins(
                #[trigger] text::lines_of(content)[j],
                key,
            ),
    ensures
        meminfo_field(content, key) == (if k >= 0 {
            Some(w)
        } else {
            None
        }),
{
    let lines = text::lines_of(content);
    if k >= 0 {
        text::law_beginning(lines[k], key);
        let none = Seq::<char>::empty();
        assert(none + key + (gap + w + tail) =~= lines[k]);
        assert((gap + w + tail)[0] == gap[0]);
        text::law_words(none, key, gap + w + tail);
        text::law_words(gap, w, tail);
        assert(text::words_of(lines[k])[1] == w);
    }
    lemma_last_with_prefix(lines, key, k);
}

/// A line of a key with nothing after it gives no figure.
pub proof fn law_meminfo_field_without_a_figure(content: Seq<char>, key: Seq<char>, k: int)
    requires
        key.len() > 0,
        forall|i: int| 0 <= i < key.len() ==> !text::is_space(#[trigger] key[i]),
        0 <= k < text::lines_of(content).len(),
        text::lines_of(content)[k] == key,
        forall|j: int|
            k < j < text::lines_of(content).len() ==> !text::begins(
                #[trigger] text::lines_of(content)[j],
                key,
            ),
    ensures
        meminfo_field(content, key) is None,
{
    let none = Seq::<char>::empty();
    assert(key =~= key + none);
    text::law_beginning(text::lines_of(content)[k], key);
    lemma_last_with_prefix(text::lines_of(content), key, k);
    assert(none + key + none =~= key);
    text::law_words(none, key, none);
    assert(text::words_of(key).len() == 1);
}

/// `d` full stops.
pub open spec fn full_stops(d: nat) -> Seq<char> {
    Seq::new(d, |i: int| '.')
}

proof fn lemma_full_stops_are_stripped(w: Seq<char>, d: nat)
    requires
        w.len() > 0,
        w.last() != '.',
    ensures
        text::stripped_end(w + full_stops(d), "."@) == w,
    decreases d,
{
    reveal_strlit(".");
    if d == 0 {
        assert(w + full_stops(0) =~= w);
        assert forall|a: Seq<char>| w != #[trigger] (a + "."@) by {
            if w == a + "."@ {
                assert((a + "."@).last() == '.');
            }
        }
        text::law_stripping(w, "."@);
    } else {
        let shorter = w + full_stops((d - 1) as nat);
        assert(w + full_stops(d) =~= shorter + "."@);
        text::law_stripping(shorter, "."@);
        lemma_full_stops_are_stripped(w, (d - 1) as nat);
    }
}

/// The number of pages of a key is the last word of the last line that begins with the key,
/// without full stops after it; a key that begins no line has none. `head` is all of that line
/// before its last word.
pub proof fn law_vm_stat_field(
    stdout: Seq<char>,
    key: Seq<char>,
    k: int,
    head: Seq<char>,
    w: Seq<char>,
    d: nat,
)
    requires
        w.len() > 0,
        forall|i: int| 0 <= i < w.len() ==> !text::is_space(#[trigger] w[i]),
        w.last() != '.',
        head.len() > 0 ==> text::is_space(head.last()),
        -1 <= k < text::lines_of(stdout).len(),
        k >= 0 ==> text::lines_of(stdout)[k] == head + (w + full_stops(d)) && text::begins(
            text::lines_of(stdout)[k],
            key,
        ),
        forall|j: int|
            k < j < text::lines_of(stdout).len() ==> !text::begins(
                #[trigger] text::lines_of(stdout)[j],
                key,
            ),
    ensures
        vm_stat_field(stdout, key) == (if k >= 0 {
            Some(w)
        } else {
            None
        }),
{
    lemma_last_with_prefix(text::lines_of(stdout), key, k);
    if k >= 0 {
        let v = w + full_stops(d);
        assert forall|i: int| 0 <= i < v.len() implies !text::is_space(#[trigger] v[i]) by {
            if i < w.len() {
                assert(v[i] == w[i]);
            }
        }
        lemma_last_word(head, v);
        lemma_full_stops_are_stripped(w, d);
    }
}

/// The last word of a text that ends with one.
proof fn lemma_last_word(head: Seq<char>, w: Seq<char>)
    requires
        w.len() > 0,
        forall|i: int| 0 <= i < w.len() ==> !text::is_space(#[trigger] w[i]),
        head.len() > 0 ==> text::is_space(head.last()),
    ensures
        text::words_of(head + w).len() > 0,
        text::words_of(head + w).last() == w,
    decreases head.len(),
{
    let none = Seq::<char>::empty();
    if head.len() == 0 {
        assert(none + w + none =~= head + w);
        text::law_words(none, w, none);
    } else {
        let n = lemma_leading_run(head);
        if text::is_space(head[0]) {
            let a = head.take(n);
            let rest = head.skip(n);
            assert(head + w =~= a + (rest + w));
            assert(text::blank(a));
            lemma_words_of_padded(a, rest + w);
            if rest.len() > 0 {
                assert(rest.last() == head.last());
            }
            lemma_last_word(rest, w);
        } else {
            let first = head.take(n);
            let rest = head.skip(n);
            assert(n < head.len());
            assert(head + w =~= none + first + (rest + w));
            assert((rest + w)[0] == rest[0]);
            text::law_words(none, first, rest + w);
            assert(rest.last() == head.last());
            lemma_last_word(rest, w);
        }
    }
}

proof fn lemma_words_of_padded(a: Seq<char>, t: Seq<char>)
    requires
        text::blank(a),
    ensures
        text::words_of(a + t) == text::words_of(t),
    decreases a.len(),
{
    if a.len() == 0 {
        assert(a + t =~= t);
    } else {
        assert((a + t)[0] == a[0]);
        assert((a + t).drop_first() =~= a.drop_first() + t);
        lemma_words_of_padded(a.drop_first(), t);
        assert(text::trimmed_start(a + t) == text::trimmed_start(a.drop_first() + t));
    }
}

/// How far a text goes on being white space, or not, as it begins.
proof fn lemma_leading_run(s: Seq<char>) -> (n: int)
    requires
        s.len() > 0,
    ensures
        0 < n <= s.len(),
        forall|i: int| 0 <= i < n ==> text::is_space(#[trigger] s[i]) == text::is_space(s[0]),
        n < s.len() ==> text::is_space(s[n]) != text::is_space(s[0]),
    decreases s.len(),
{
    if s.len() == 1 || text::is_space(s[1]) != text::is_space(s[0]) {
        1
    } else {
        let t = s.drop_first();
        let m = lemma_leading_run(t);
        assert forall|i: int| 0 <= i < m + 1 implies text::is_space(#[trigger] s[i])
            == text::is_space(s[0]) by {
            if i > 0 {
                assert(s[i] == t[i - 1]);
            }
        }
        m + 1
    }
}

/// The page size stands in the first line between the first `page size of ` and the next blank.
pub proof fn law_page_size(a: Seq<char>, size: Seq<char>, t: Seq<char>, rest: Seq<char>)
    requires
        !size.contains(' '),
        t.len() > 0 ==> t[0] == ' ',
        !(a + "page size of "@ + (size + t)).contains('\n'),
        (a + "page size of "@ + (size + t)).last() != '\r',
        forall|j: int|
            0 <= j < a.len() ==> !#[trigger] text::occurs_at(
                a + "page size of "@ + (size + t),
                "page size of "@,
                j,
            ),
    ensures
        page_size_field((a + "page size of "@ + (size + t)) + seq!['\n'] + rest) == (if t.len() > 0 {
            Some(size)
        } else {
            None
        }),
        page_size_field(Seq::<char>::empty()) is None,
{
    reveal_strlit("page size of ");
    let p = "page size of "@;
    let line = a + p + (size + t);
    text::law_lines(line, rest);
    text::law_lines(Seq::<char>::empty(), rest);
    assert(text::lines_of(line + seq!['\n'] + rest)[0] == line);
    let n = a.len() as int;
    assert(line.subrange(n, n + 13) =~= p);
    assert(text::occurs_at(line, p, n));
    assert(text::first_at(line, p, n));
    let i = choose|i: int| text::first_at(line, p, i);
    assert(text::first_at(line, p, i));
    assert(i == n) by {
        if i < n {
            assert(!text::occurs_at(line, p, i));
        }
        if n < i {
            assert(!text::occurs_at(line, p, n));
        }
    }
    assert(line.skip(n + 13) =~= size + t);
    if t.len() > 0 {
        assert(size + t =~= size + seq![' '] + t.drop_first());
        text::law_splitting_once(size, ' ', t.drop_first());
    } else {
        assert(size + t =~= size);
        text::law_splitting_once(size, ' ', t);
    }
}

/// Only the first line can name the page size, and one that does not hold `page size of ` names
/// none.
pub proof fn law_no_page_size(line: Seq<char>, rest: Seq<char>)
    requires
        !line.contains('\n'),
        line.len() > 0 && line.last() != '\r',
        !text::occurs(line, "page size of "@),
    ensures
        page_size_field(line + seq!['\n'] + rest) is None,
        page_size_field(line) is None,
{
    text::law_lines(line, rest);
    assert(text::lines_of(line + seq!['\n'] + rest)[0] == line);
}

/// What is read of the first line does not depend on whether others follow it.
pub proof fn law_first_line_is_enough(line: Seq<char>, rest: Seq<char>)
    requires
        !line.contains('\n'),
        line.len() > 0 && line.last() != '\r',
    ensures
        gpu_fields(line) == gpu_fields(line + seq!['\n'] + rest),
        page_size_field(line) == page_size_field(line + seq!['\n'] + rest),
{
    text::law_lines(line, rest);
    assert(text::lines_of(line + seq!['\n'] + rest)[0] == line);
    assert(text::lines_of(line)[0] == line);
}

/// A live reading goes into the report as it was read; the total does where it is there, and the
/// enumerated memory stands in for it where it is not. The rest of the report is what was handed
/// in.
pub proof fn law_report<V>(
    providers: Seq<Seq<char>>,
    gpus: Seq<GpuInfoView>,
    reading: Option<GpuReading<V>>,
    host_memory: HostMemoryTelemetry<V>,
    cores: usize,
    queue: EngineQueueTelemetry,
    timestamp_ms: u64,
    k: int,
)
    requires
        0 <= k < gpus.len(),
        gpus[k].is_dedicated,
        forall|j: int| 0 <= j < k ==> !(#[trigger] gpus[j]).is_dedicated,
    ensures
        ({
            let r = report(providers, gpus, reading, host_memory, cores, queue, timestamp_ms);
            &&& r.gpu is Some
            &&& r.gpu->0.name == gpus[k].name
            &&& providers.len() > 0 ==> r.gpu->0.active_provider == providers[0]
            &&& providers.len() == 0 ==> r.gpu->0.active_provider == "CPUExecutionProvider"@
            &&& reading is Some ==> r.gpu->0.vram_used_mb == Amount::Read(reading->0.used_mb)
                && r.gpu->0.utilization_pct == reading->0.utilization_pct
            &&& reading is Some && reading->0.total_mb is Some ==> r.gpu->0.vram_total_mb
                == Amount::Read(reading->0.total_mb->0)
            &&& reading is Some && reading->0.total_mb is None ==> r.gpu->0.vram_total_mb
                == Amount::<V>::Enumerated(gpus[k].vram_mb)
            &&& reading is None ==> r.gpu->0.vram_used_mb == Amount::<V>::Enumerated(Vram::Bytes(0))
                && r.gpu->0.vram_total_mb == Amount::<V>::Enumerated(gpus[k].vram_mb)
                && r.gpu->0.utilization_pct is None
            &&& r.host_memory == host_memory
            &&& r.cpu.cores == cores
            &&& r.cpu.utilization_pct is None
            &&& r.queue == queue
            &&& r.timestamp_ms == timestamp_ms
        }),
{
    gpu::law_first_dedicated(gpus);
}

/// Without a dedicated adapter the report has no figures of one, whatever was read, and the rest
/// of it is what was handed in.
pub proof fn law_report_without_a_dedicated_adapter<V>(
    providers: Seq<Seq<char>>,
    gpus: Seq<GpuInfoView>,
    reading: Option<GpuReading<V>>,
    host_memory: HostMemoryTelemetry<V>,
    cores: usize,
    queue: EngineQueueTelemetry,
    timestamp_ms: u64,
)
    requires
        forall|j: int| 0 <= j < gpus.len() ==> !(#[trigger] gpus[j]).is_dedicated,
    ensures
        ({
            let r = report(providers, gpus, reading, host_memory, cores, queue, timestamp_ms);
            &&& r.gpu is None
            &&& r.host_memory == host_memory
            &&& r.cpu.cores == cores
            &&& r.queue == queue
            &&& r.timestamp_ms == timestamp_ms
        }),
{
    gpu::law_first_dedicated(gpus);
}

} // verus!
