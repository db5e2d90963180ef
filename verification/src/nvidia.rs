//! NVIDIA adapters: the tables that `nvidia-smi` prints and the directories that the driver
//! keeps under `/proc/driver/nvidia/gpus`.

use crate::gpu;
use crate::gpu::{GpuInfo, GpuInfoView, Vram, VramByBus, NVIDIA_VENDOR_ID};
use crate::pci;
use crate::text;
use vstd::prelude::*;

verus! {

// ---------------------------------------------------------------------------
// Memory and bus address, one adapter a line
// ---------------------------------------------------------------------------

/// A line of `nvidia-smi --query-gpu=memory.total,pci.bus_id`: the numeral of the memory and
/// the bus address, where the line has one.
#[derive(Debug)]
pub struct VramRow {
    pub amount: String,
    pub bus_id: Option<String>,
}

/// `VramRow` with its texts as sequences of characters.
pub struct VramRowView {
    pub amount: Seq<char>,
    pub bus_id: Option<Seq<char>>,
}

impl View for VramRow {
    type V = VramRowView;

    open spec fn view(&self) -> VramRowView {
        VramRowView { amount: self.amount@, bus_id: self.bus_id.deep_view() }
    }
}

impl DeepView for VramRow {
    type V = VramRowView;

    open spec fn deep_view(&self) -> VramRowView {
        self@
    }
}

/// The numeral of an amount of memory: trimmed, without its unit.
pub open spec fn amount_text(field: Seq<char>) -> Seq<char> {
    text::stripped_end(text::trimmed(field), " MiB"@)
}

/// What a line of the table says.
pub open spec fn vram_row(line: Seq<char>) -> VramRowView {
    match text::halves(line, ',') {
        Some((memory, bus)) => VramRowView {
            amount: amount_text(memory),
            bus_id: if text::trimmed(bus).len() == 0 {
                None
            } else {
                Some(text::trimmed(bus))
            },
        },
        None => VramRowView { amount: amount_text(line), bus_id: None },
    }
}

/// The rows of the table.
pub open spec fn vram_rows(stdout: Seq<char>) -> Seq<VramRowView> {
    text::lines_of(stdout).map_values(|line: Seq<char>| vram_row(line))
}

fn read_amount(field: &[char]) -> (r: String)
    ensures
        r@ == amount_text(field@),
{
    text::string_of(text::trim_end_matches(text::trim(field), " MiB"))
}

fn read_vram_row(line: &[char]) -> (r: VramRow)
    ensures
        r@ == vram_row(line@),
{
    match text::split_once(line, ',') {
        Some((memory, bus)) => {
            let bus = text::trim(bus);
            let bus_id: Option<String> = if bus.len() == 0 {
                None
            } else {
                Some(text::string_of(bus))
            };
            VramRow { amount: read_amount(memory), bus_id }
        },
        None => VramRow { amount: read_amount(line), bus_id: None },
    }
}

/// Reads the table of memory and bus addresses.
pub fn nvidia_vram_rows(stdout: &str) -> (r: Vec<VramRow>)
    ensures
        r.deep_view() == vram_rows(stdout@),
{
    let chars = text::chars_of(stdout);
    let lines = text::lines(chars.as_slice());
    let ghost all = vram_rows(stdout@);
    let mut r: Vec<VramRow> = Vec::new();
    let n = lines.len();
    let mut i: usize = 0;
    while i < n
        invariant
            i <= n,
            n == lines@.len(),
            text::texts(lines@) == text::lines_of(stdout@),
            all == vram_rows(stdout@),
            r.deep_view() == all.take(i as int),
        decreases n - i,
    {
        let ghost done = r.deep_view();
        let row = read_vram_row(lines[i]);
        assert(text::texts(lines@)[i as int] == lines@[i as int]@);
        r.push(row);
        assert(r.deep_view() =~= done.push(row@));
        i += 1;
        assert(r.deep_view() =~= all.take(i as int));
    }
    assert(all.take(n as int) =~= all);
    r
}

/// The reading that belongs to row `i`; a row without one counts as unreadable.
pub open spec fn reading(readings: Seq<Option<Vram>>, i: int) -> Option<Vram> {
    if 0 <= i < readings.len() {
        readings[i]
    } else {
        None
    }
}

/// The memory of the adapters in the order of their rows; a row whose amount is no number is
/// left out.
pub open spec fn vram_in_order(rows: Seq<VramRowView>, readings: Seq<Option<Vram>>) -> Seq<Vram>
    decreases rows.len(),
{
    if rows.len() == 0 {
        seq![]
    } else {
        let before = vram_in_order(rows.drop_last(), readings);
        match reading(readings, rows.len() - 1) {
            Some(amount) => before.push(amount),
            None => before,
        }
    }
}

/// The memory of the adapters by the key of their bus address; the last row of a key counts.
pub open spec fn vram_by_key(rows: Seq<VramRowView>, readings: Seq<Option<Vram>>) -> Map<
    Seq<char>,
    Vram,
>
    decreases rows.len(),
{
    if rows.len() == 0 {
        Map::empty()
    } else {
        let before = vram_by_key(rows.drop_last(), readings);
        match (reading(readings, rows.len() - 1), rows.last().bus_id) {
            (Some(amount), Some(bus)) => before.insert(pci::normalized(bus), amount),
            _ => before,
        }
    }
}

fn reading_at(readings: &Vec<Option<Vram>>, i: usize) -> (r: Option<Vram>)
    ensures
        r == reading(readings@, i as int),
{
    if i < readings.len() {
        readings[i]
    } else {
        None
    }
}

/// The memory of the adapters, by bus address and in the order of the rows, given the reading
/// of each row's amount: `None` where the amount is no number.
pub fn query_nvidia_vram_by_bus(rows: &Vec<VramRow>, readings: &Vec<Option<Vram>>) -> (r: (
    VramByBus,
    Vec<Vram>,
))
    ensures
        r.0@ == vram_by_key(rows.deep_view(), readings@),
        r.1@ == vram_in_order(rows.deep_view(), readings@),
{
    let mut by_bus = VramByBus::new();
    let mut ordered: Vec<Vram> = Vec::new();
    let n = rows.len();
    let ghost all = rows.deep_view();
    let mut i: usize = 0;
    while i < n
        invariant
            i <= n,
            n == rows@.len(),
            all == rows.deep_view(),
            by_bus@ == vram_by_key(all.take(i as int), readings@),
            ordered@ == vram_in_order(all.take(i as int), readings@),
        decreases n - i,
    {
        assert(all.take(i + 1).drop_last() =~= all.take(i as int));
        assert(all.take(i + 1).last() == rows@[i as int]@);
        if let Some(amount) = reading_at(readings, i) {
            ordered.push(amount);
            if let Some(bus) = &rows[i].bus_id {
                by_bus.insert(bus.as_str(), amount);
            }
        }
        i += 1;
    }
    assert(all.take(n as int) =~= all);
    (by_bus, ordered)
}

// ---------------------------------------------------------------------------
// The driver's directories
// ---------------------------------------------------------------------------

/// An entry of the driver's directory: its name, which is a bus address, and what its
/// `information` file holds, where that could be read.
#[derive(Debug)]
pub struct NvidiaEntry {
    pub file_name: String,
    pub information: Option<String>,
}

/// `NvidiaEntry` with its texts as sequences of characters.
pub struct NvidiaEntryView {
    pub file_name: Seq<char>,
    pub information: Option<Seq<char>>,
}

impl View for NvidiaEntry {
    type V = NvidiaEntryView;

    open spec fn view(&self) -> NvidiaEntryView {
        NvidiaEntryView {
            file_name: self.file_name@,
            information: self.information.deep_view(),
        }
    }
}

impl DeepView for NvidiaEntry {
    type V = NvidiaEntryView;

    open spec fn deep_view(&self) -> NvidiaEntryView {
        self@
    }
}

/// What follows `prefix` in the first line that begins with it.
pub open spec fn after_prefix(lines: Seq<Seq<char>>, prefix: Seq<char>) -> Option<Seq<char>>
    decreases lines.len(),
{
    if lines.len() == 0 {
        None
    } else if text::begins(lines[0], prefix) {
        Some(lines[0].skip(prefix.len() as int))
    } else {
        after_prefix(lines.drop_first(), prefix)
    }
}

/// The model that an `information` file names.
pub open spec fn model_name(information: Seq<char>) -> Seq<char> {
    match after_prefix(text::lines_of(information), "Model:"@) {
        Some(model) if text::trimmed(model).len() > 0 => text::trimmed(model),
        _ => "NVIDIA GPU"@,
    }
}

/// The adapters that the entries stand for. An entry without a readable file is left out but
/// keeps its place in the numbering. Memory is found by bus address, and failing that by
/// position among the adapters.
pub open spec fn nvidia_gpus(
    entries: Seq<NvidiaEntryView>,
    by_bus: Map<Seq<char>, Vram>,
    ordered: Seq<Vram>,
) -> Seq<GpuInfoView>
    decreases entries.len(),
{
    if entries.len() == 0 {
        seq![]
    } else {
        let before = nvidia_gpus(entries.drop_last(), by_bus, ordered);
        match entries.last().information {
            None => before,
            Some(information) => before.push(
                GpuInfoView {
                    device_id: (entries.len() - 1) as u32,
                    name: model_name(information),
                    vendor_id: NVIDIA_VENDOR_ID,
                    vram_mb: match gpu::lookup(by_bus, entries.last().file_name) {
                        Some(amount) => amount,
                        None => if before.len() < ordered.len() {
                            ordered[before.len() as int]
                        } else {
                            Vram::Bytes(0)
                        },
                    },
                    is_dedicated: true,
                    is_integrated: false,
                },
            ),
        }
    }
}

fn read_model_name(information: &str) -> (r: String)
    ensures
        r@ == model_name(information@),
{
    let chars = text::chars_of(information);
    let lines = text::lines(chars.as_slice());
    let ghost all = text::lines_of(information@);
    let n = lines.len();
    let mut i: usize = 0;
    assert(all.skip(0) =~= all);
    proof {
        reveal_strlit("Model:");
    }
    while i < n
        invariant
            i <= n,
            n == lines@.len(),
            text::texts(lines@) == all,
            all == text::lines_of(information@),
            "Model:"@.len() == 6,
            after_prefix(all, "Model:"@) == after_prefix(all.skip(i as int), "Model:"@),
        decreases n - i,
    {
        let line = lines[i];
        assert(text::texts(lines@)[i as int] == line@);
        assert(all.skip(i as int)[0] == line@);
        assert(all.skip(i as int).drop_first() =~= all.skip(i + 1));
        if text::starts_with(line, "Model:") {
            let rest = vstd::slice::slice_subrange(line, 6, line.len());
            assert(rest@ =~= line@.skip(6));
            let name = text::trim(rest);
            if name.len() > 0 {
                return text::string_of(name);
            }
            return "NVIDIA GPU".to_owned();
        }
        i += 1;
    }
    "NVIDIA GPU".to_owned()
}

/// The adapters that the driver's directory lists, in its order.
pub fn parse_nvidia_gpu_root(
    entries: &Vec<NvidiaEntry>,
    vram_by_bus: &VramByBus,
    vram_ordered: &Vec<Vram>,
) -> (r: Vec<GpuInfo>)
    ensures
        r.deep_view() == nvidia_gpus(entries.deep_view(), vram_by_bus@, vram_ordered@),
{
    let mut r: Vec<GpuInfo> = Vec::new();
    let n = entries.len();
    let ghost all = entries.deep_view();
    let mut i: usize = 0;
    while i < n
        invariant
            i <= n,
            n == entries@.len(),
            all == entries.deep_view(),
            r.deep_view() == nvidia_gpus(all.take(i as int), vram_by_bus@, vram_ordered@),
        decreases n - i,
    {
        let entry = &entries[i];
        assert(all.take(i + 1).drop_last() =~= all.take(i as int));
        assert(all.take(i + 1).last() == entry@);
        if let Some(information) = &entry.information {
            let position = r.len();
            let amount: Vram = match vram_by_bus.get(entry.file_name.as_str()) {
                Some(amount) => amount,
                None => if position < vram_ordered.len() {
                    vram_ordered[position]
                } else {
                    Vram::Bytes(0)
                },
            };
            let ghost done = r.deep_view();
            let found = GpuInfo {
                device_id: i as u32,
                name: read_model_name(information.as_str()),
                vendor_id: NVIDIA_VENDOR_ID,
                vram_mb: amount,
                is_dedicated: true,
                is_integrated: false,
            };
            r.push(found);
            assert(r.deep_view() =~= done.push(found@));
        }
        i += 1;
    }
    assert(all.take(n as int) =~= all);
    r
}

// ---------------------------------------------------------------------------
// Name and memory, where the driver keeps no directories
// ---------------------------------------------------------------------------

/// A line of `nvidia-smi --query-gpu=name,memory.total,pci.bus_id` that names an adapter: the
/// number of the line, the name, and the numeral of the memory, where the line has one.
#[derive(Debug)]
pub struct SmiRow {
    pub index: u32,
    pub name: String,
    pub amount: Option<String>,
}

/// `SmiRow` with its texts as sequences of characters.
pub struct SmiRowView {
    pub index: u32,
    pub name: Seq<char>,
    pub amount: Option<Seq<char>>,
}

impl View for SmiRow {
    type V = SmiRowView;

    open spec fn view(&self) -> SmiRowView {
        SmiRowView { index: self.index, name: self.name@, amount: self.amount.deep_view() }
    }
}

impl DeepView for SmiRow {
    type V = SmiRowView;

    open spec fn deep_view(&self) -> SmiRowView {
        self@
    }
}

/// The rows of the lines: one for each line whose first field is not empty.
pub open spec fn smi_rows(lines: Seq<Seq<char>>) -> Seq<SmiRowView>
    decreases lines.len(),
{
    if lines.len() == 0 {
        seq![]
    } else {
        let before = smi_rows(lines.drop_last());
        let fields = text::pieces(lines.last(), ',');
        if text::trimmed(fields[0]).len() == 0 {
            before
        } else {
            before.push(
                SmiRowView {
                    index: (lines.len() - 1) as u32,
                    name: text::trimmed(fields[0]),
                    amount: if fields.len() > 1 {
                        Some(text::trimmed(fields[1]))
                    } else {
                        None
                    },
                },
            )
        }
    }
}

/// Reads the table of names and memory.
pub fn nvidia_smi_rows(stdout: &str) -> (r: Vec<SmiRow>)
    ensures
        r.deep_view() == smi_rows(text::lines_of(stdout@)),
{
    let chars = text::chars_of(stdout);
    let lines = text::lines(chars.as_slice());
    let ghost all = text::lines_of(stdout@);
    let mut r: Vec<SmiRow> = Vec::new();
    let n = lines.len();
    let mut i: usize = 0;
    while i < n
        invariant
            i <= n,
            n == lines@.len(),
            text::texts(lines@) == all,
            r.deep_view() == smi_rows(all.take(i as int)),
        decreases n - i,
    {
        assert(all.take(i + 1).drop_last() =~= all.take(i as int));
        assert(all.take(i + 1).last() == lines@[i as int]@);
        let fields = text::split(lines[i], ',');
        let ghost parts = text::texts(fields@);
        assert(parts[0] == fields@[0]@);
        let name = text::trim(fields[0]);
        if name.len() > 0 {
            let amount: Option<String> = if fields.len() > 1 {
                assert(parts[1] == fields@[1]@);
                Some(text::string_of(text::trim(fields[1])))
            } else {
                None
            };
            let ghost done = r.deep_view();
            let row = SmiRow { index: i as u32, name: text::string_of(name), amount };
            r.push(row);
            assert(r.deep_view() =~= done.push(row@));
        }
        i += 1;
    }
    assert(all.take(n as int) =~= all);
    r
}

/// The adapter that a row stands for; an amount that is no number counts as none.
pub open spec fn smi_gpu(row: SmiRowView, amount: Option<Vram>) -> GpuInfoView {
    GpuInfoView {
        device_id: row.index,
        name: row.name,
        vendor_id: NVIDIA_VENDOR_ID,
        vram_mb: match amount {
            Some(amount) => amount,
            None => Vram::Bytes(0),
        },
        is_dedicated: true,
        is_integrated: false,
    }
}

/// The adapters of the rows.
pub open spec fn smi_gpus(rows: Seq<SmiRowView>, readings: Seq<Option<Vram>>) -> Seq<GpuInfoView> {
    Seq::new(rows.len(), |i: int| smi_gpu(rows[i], reading(readings, i)))
}

/// The adapters that `nvidia-smi` names, given the reading of each row's amount: `None` where
/// there is no amount or it is no number.
pub fn parse_nvidia_smi_fallback(rows: &Vec<SmiRow>, readings: &Vec<Option<Vram>>) -> (r: Vec<
    GpuInfo,
>)
    ensures
        r.deep_view() == smi_gpus(rows.deep_view(), readings@),
{
    let mut r: Vec<GpuInfo> = Vec::new();
    let n = rows.len();
    let ghost all = smi_gpus(rows.deep_view(), readings@);
    let mut i: usize = 0;
    while i < n
        invariant
            i <= n,
            n == rows@.len(),
            all == smi_gpus(rows.deep_view(), readings@),
            r.deep_view() == all.take(i as int),
        decreases n - i,
    {
        let ghost done = r.deep_view();
        let row = &rows[i];
        let found = GpuInfo {
            device_id: row.index,
            name: row.name.clone(),
            vendor_id: NVIDIA_VENDOR_ID,
            vram_mb: match reading_at(readings, i) {
                Some(amount) => amount,
                None => Vram::Bytes(0),
            },
            is_dedicated: true,
            is_integrated: false,
        };
        r.push(found);
        assert(r.deep_view() =~= done.push(found@));
        i += 1;
        assert(r.deep_view() =~= all.take(i as int));
    }
    assert(all.take(n as int) =~= all);
    r
}

// ---------------------------------------------------------------------------
// Laws
// ---------------------------------------------------------------------------

/// Every adapter that the driver or its tool lists is a dedicated NVIDIA adapter, and there is
/// one for each readable entry or row at most.
pub proof fn law_nvidia_adapters_are_dedicated(
    entries: Seq<NvidiaEntryView>,
    by_bus: Map<Seq<char>, Vram>,
    ordered: Seq<Vram>,
    rows: Seq<SmiRowView>,
    readings: Seq<Option<Vram>>,
)
    ensures
        nvidia_gpus(entries, by_bus, ordered).len() <= entries.len(),
        forall|i: int|
            0 <= i < nvidia_gpus(entries, by_bus, ordered).len() ==> {
                let found = #[trigger] nvidia_gpus(entries, by_bus, ordered)[i];
                found.is_dedicated && found.well_formed() && found.vendor_id == 0x10DE
            },
        smi_gpus(rows, readings).len() == rows.len(),
        forall|i: int|
            0 <= i < rows.len() ==> {
                let found = #[trigger] smi_gpus(rows, readings)[i];
                found.is_dedicated && found.well_formed() && found.vendor_id == 0x10DE
            },
    decreases entries.len(),
{
    if entries.len() > 0 {
        law_nvidia_adapters_are_dedicated(entries.drop_last(), by_bus, ordered, rows, readings);
    }
}

proof fn lemma_prefix_of_adapters(
    entries: Seq<NvidiaEntryView>,
    by_bus: Map<Seq<char>, Vram>,
    ordered: Seq<Vram>,
    e: int,
)
    requires
        0 <= e <= entries.len(),
    ensures
        nvidia_gpus(entries.take(e), by_bus, ordered).is_prefix_of(
            nvidia_gpus(entries, by_bus, ordered),
        ),
    decreases entries.len(),
{
    if e == entries.len() {
        assert(entries.take(e) =~= entries);
    } else {
        lemma_prefix_of_adapters(entries.drop_last(), by_bus, ordered, e);
        assert(entries.drop_last().take(e) =~= entries.take(e));
    }
}

/// Each readable entry gives one adapter. Its memory is what the table holds for its bus
/// address; failing that, what stands at its place in the positional list. The entries after it
/// change nothing, so a machine with several adapters cannot have memory assigned to the wrong
/// one.
pub proof fn law_each_entry_gives_its_adapter(
    entries: Seq<NvidiaEntryView>,
    by_bus: Map<Seq<char>, Vram>,
    ordered: Seq<Vram>,
    e: int,
)
    requires
        0 <= e < entries.len(),
        entries[e].information is Some,
    ensures
        ({
            let place = nvidia_gpus(entries.take(e), by_bus, ordered).len() as int;
            let found = nvidia_gpus(entries, by_bus, ordered)[place];
            &&& place < nvidia_gpus(entries, by_bus, ordered).len()
            &&& found.device_id == e as u32
            &&& found.name == model_name(entries[e].information->0)
            &&& found.vram_mb == (match gpu::lookup(by_bus, entries[e].file_name) {
                Some(amount) => amount,
                None => if place < ordered.len() {
                    ordered[place]
                } else {
                    Vram::Bytes(0)
                },
            })
        }),
{
    let upto = entries.take(e + 1);
    assert(upto.drop_last() =~= entries.take(e));
    assert(upto.last() == entries[e]);
    lemma_prefix_of_adapters(entries, by_bus, ordered, e + 1);
    let part = nvidia_gpus(upto, by_bus, ordered);
    let total = nvidia_gpus(entries, by_bus, ordered);
    assert(total.subrange(0, part.len() as int)[part.len() - 1] == part.last());
}

proof fn lemma_last_row_of_a_key(rows: Seq<VramRowView>, readings: Seq<Option<Vram>>, k: int)
    requires
        0 <= k < rows.len(),
        reading(readings, k) is Some,
        rows[k].bus_id is Some,
        forall|j: int|
            k < j < rows.len() && reading(readings, j) is Some && (#[trigger] rows[j]).bus_id is Some
                ==> pci::normalized(rows[j].bus_id->0) != pci::normalized(
                rows[k].bus_id->0,
            ),
    ensures
        ({
            let key = pci::normalized(rows[k].bus_id->0);
            let table = vram_by_key(rows, readings);
            table.contains_key(key) && table[key] == reading(readings, k)->0
        }),
    decreases rows.len(),
{
    if k < rows.len() - 1 {
        let before = rows.drop_last();
        assert(rows[rows.len() - 1] == rows.last());
        assert forall|j: int|
            k < j < before.len() && reading(readings, j) is Some && (#[trigger] before[j]).bus_id is Some
            implies pci::normalized(before[j].bus_id->0) != pci::normalized(
            before[k].bus_id->0,
        ) by {
            assert(before[j] == rows[j]);
        }
        lemma_last_row_of_a_key(before, readings, k);
    }
}

/// The memory that `nvidia-smi` prints for a bus address reaches the adapter whose directory
/// carries that address in any spelling, wherever the row and the directory stand. Of several
/// readable rows of one address the last counts.
pub proof fn law_memory_reaches_its_adapter(
    rows: Seq<VramRowView>,
    readings: Seq<Option<Vram>>,
    k: int,
    entries: Seq<NvidiaEntryView>,
    ordered: Seq<Vram>,
    e: int,
)
    requires
        0 <= k < rows.len(),
        reading(readings, k) is Some,
        rows[k].bus_id is Some,
        forall|j: int|
            k < j < rows.len() && reading(readings, j) is Some && (#[trigger] rows[j]).bus_id is Some
                ==> pci::normalized(rows[j].bus_id->0) != pci::normalized(
                rows[k].bus_id->0,
            ),
        0 <= e < entries.len(),
        entries[e].information is Some,
        pci::normalized(entries[e].file_name) == pci::normalized(rows[k].bus_id->0),
    ensures
        ({
            let table = vram_by_key(rows, readings);
            let place = nvidia_gpus(entries.take(e), table, ordered).len() as int;
            let found = nvidia_gpus(entries, table, ordered)[place];
            &&& place < nvidia_gpus(entries, table, ordered).len()
            &&& found.device_id == e as u32
            &&& found.vram_mb == reading(readings, k)->0
        }),
{
    lemma_last_row_of_a_key(rows, readings, k);
    law_each_entry_gives_its_adapter(entries, vram_by_key(rows, readings), ordered, e);
}

/// A line of memory and bus address: the amount is what stands before the first comma, and the
/// address what follows it, trimmed, where that is anything.
pub proof fn law_vram_row(m: Seq<char>, b: Seq<char>)
    requires
        !m.contains(','),
    ensures
        vram_row(m + seq![','] + b).amount == vram_row(m).amount,
        vram_row(m + seq![','] + b).bus_id == (if text::trimmed(b).len() > 0 {
            Some(text::trimmed(b))
        } else {
            None
        }),
        vram_row(m).bus_id is None,
{
    text::law_splitting_once(m, ',', b);
}

/// The amount of a line is read without the white space around it and without its unit.
pub proof fn law_vram_row_amount(a: Seq<char>, m: Seq<char>, b: Seq<char>)
    requires
        text::blank(a),
        text::blank(b),
        m.len() > 0,
        !text::is_space(m[0]),
        !text::is_space(m.last()),
        forall|x: Seq<char>| m != #[trigger] (x + " MiB"@),
        !(a + m + b).contains(','),
        !(a + (m + " MiB"@) + b).contains(','),
    ensures
        vram_row(a + m + b).amount == m,
        vram_row(a + (m + " MiB"@) + b).amount == m,
{
    reveal_strlit(" MiB");
    let u = m + " MiB"@;
    text::law_splitting_once(a + m + b, ',', seq![]);
    text::law_splitting_once(a + u + b, ',', seq![]);
    text::law_trimming(a, m, b);
    assert(u[0] == m[0]);
    assert(u.last() == 'B');
    text::law_trimming(a, u, b);
    text::law_stripping(m, " MiB"@);
}

/// Every line of the table is a row, in order.
pub proof fn law_vram_rows_are_the_lines(stdout: Seq<char>, i: int)
    ensures
        vram_rows(stdout).len() == text::lines_of(stdout).len(),
        0 <= i < vram_rows(stdout).len() ==> vram_rows(stdout)[i] == vram_row(
            text::lines_of(stdout)[i],
        ),
{
}

/// How many of the first `n` rows have an amount that could be read.
pub open spec fn readable_rows(readings: Seq<Option<Vram>>, n: nat) -> nat
    decreases n,
{
    if n == 0 {
        0
    } else {
        readable_rows(readings, (n - 1) as nat) + if n <= readings.len() && readings[n - 1] is Some {
            1nat
        } else {
            0nat
        }
    }
}

/// The positional list holds the readable amounts and nothing else: that of a row stands after
/// those of the readable rows before it.
pub proof fn law_positional_memory(rows: Seq<VramRowView>, readings: Seq<Option<Vram>>)
    ensures
        vram_in_order(rows, readings).len() == readable_rows(readings, rows.len()),
        forall|k: int|
            0 <= k < rows.len() && k < readings.len() && (#[trigger] readings[k]) is Some ==> {
                let place = readable_rows(readings, k as nat) as int;
                &&& place < vram_in_order(rows, readings).len()
                &&& vram_in_order(rows, readings)[place] == readings[k]->0
            },
    decreases rows.len(),
{
    if rows.len() > 0 {
        law_positional_memory(rows.drop_last(), readings);
        let before = vram_in_order(rows.drop_last(), readings);
        assert forall|k: int|
            0 <= k < rows.len() && k < readings.len() && (#[trigger] readings[k]) is Some implies {
            let place = readable_rows(readings, k as nat) as int;
            &&& place < vram_in_order(rows, readings).len()
            &&& vram_in_order(rows, readings)[place] == readings[k]->0
        } by {
            if k < rows.len() - 1 {
                let place = readable_rows(readings, k as nat) as int;
                assert(before[place] == readings[k]->0);
            }
        }
    }
}

/// The table holds nothing for an address that no readable row gives.
pub proof fn law_no_memory_without_a_row(
    rows: Seq<VramRowView>,
    readings: Seq<Option<Vram>>,
    bus_id: Seq<char>,
)
    requires
        forall|k: int|
            0 <= k < rows.len() && k < readings.len() && readings[k] is Some && (
            #[trigger] rows[k]).bus_id is Some ==> pci::normalized(rows[k].bus_id->0)
                != pci::normalized(bus_id),
    ensures
        gpu::lookup(vram_by_key(rows, readings), bus_id) is None,
    decreases rows.len(),
{
    if rows.len() > 0 {
        let before = rows.drop_last();
        assert(rows[rows.len() - 1] == rows.last());
        assert forall|k: int|
            0 <= k < before.len() && k < readings.len() && readings[k] is Some && (
            #[trigger] before[k]).bus_id is Some implies pci::normalized(before[k].bus_id->0)
            != pci::normalized(bus_id) by {
            assert(before[k] == rows[k]);
        }
        law_no_memory_without_a_row(before, readings, bus_id);
    }
}

/// The model is what follows `Model:` in the first line that begins with it, trimmed; lines before
/// it do not matter, and without a name it is `NVIDIA GPU`.
pub proof fn law_model_name(line: Seq<char>, name: Seq<char>, rest: Seq<char>)
    requires
        !line.contains('\n'),
        line.len() > 0 ==> line.last() != '\r',
        forall|x: Seq<char>| line != #[trigger] ("Model:"@ + x),
        !name.contains('\n'),
        name.len() > 0 ==> name.last() != '\r',
    ensures
        model_name(line + seq!['\n'] + rest) == model_name(rest),
        model_name("Model:"@ + name + seq!['\n'] + rest) == (if text::trimmed(name).len() > 0 {
            text::trimmed(name)
        } else {
            "NVIDIA GPU"@
        }),
        model_name(Seq::<char>::empty()) == "NVIDIA GPU"@,
{
    reveal_strlit("Model:");
    text::law_lines(line, rest);
    let lines = text::lines_of(line + seq!['\n'] + rest);
    assert(lines[0] == line);
    assert(lines.drop_first() =~= text::lines_of(rest));
    if text::begins(line, "Model:"@) {
        text::law_beginning(line, "Model:"@);
    }
    let head = "Model:"@ + name;
    assert(!head.contains('\n')) by {
        if head.contains('\n') {
            let i = choose|i: int| 0 <= i < head.len() && head[i] == '\n';
            if i >= 6 {
                assert(head[i] == name[i - 6]);
            }
        }
    }
    if name.len() > 0 {
        assert(head.last() == name.last());
    } else {
        assert(head.last() == ':');
    }
    text::law_lines(head, rest);
    let found = text::lines_of(head + seq!['\n'] + rest);
    assert(found[0] == head);
    text::law_beginning(head, "Model:"@);
    assert(head.skip(6) =~= name);
    text::law_lines(Seq::<char>::empty(), rest);
}

/// How many entries have a readable `information` file.
pub open spec fn readable_entries(entries: Seq<NvidiaEntryView>) -> nat
    decreases entries.len(),
{
    if entries.len() == 0 {
        0
    } else {
        readable_entries(entries.drop_last()) + if entries.last().information is Some {
            1nat
        } else {
            0nat
        }
    }
}

/// There are as many adapters as readable entries.
pub proof fn law_one_adapter_per_readable_entry(
    entries: Seq<NvidiaEntryView>,
    by_bus: Map<Seq<char>, Vram>,
    ordered: Seq<Vram>,
)
    ensures
        nvidia_gpus(entries, by_bus, ordered).len() == readable_entries(entries),
    decreases entries.len(),
{
    if entries.len() > 0 {
        law_one_adapter_per_readable_entry(entries.drop_last(), by_bus, ordered);
    }
}

/// A line that names an adapter is one more row, with the number of the line, the first field as
/// the name and the second as the amount; a line whose first field is blank is none.
pub proof fn law_smi_row(
    lines: Seq<Seq<char>>,
    name: Seq<char>,
    amount: Seq<char>,
    rest: Seq<char>,
)
    requires
        !name.contains(','),
        !amount.contains(','),
        lines.len() <= u32::MAX,
    ensures
        text::trimmed(name).len() > 0 ==> smi_rows(lines.push(name)) == smi_rows(lines).push(
            (SmiRowView { index: lines.len() as u32, name: text::trimmed(name), amount: None }),
        ),
        text::trimmed(name).len() > 0 ==> smi_rows(lines.push(name + seq![','] + amount))
            == smi_rows(lines).push(
            (SmiRowView {
                index: lines.len() as u32,
                name: text::trimmed(name),
                amount: Some(text::trimmed(amount)),
            }),
        ),
        text::trimmed(name).len() > 0 ==> smi_rows(
            lines.push(name + seq![','] + (amount + seq![','] + rest)),
        ) == smi_rows(lines).push(
            (SmiRowView {
                index: lines.len() as u32,
                name: text::trimmed(name),
                amount: Some(text::trimmed(amount)),
            }),
        ),
        text::trimmed(name).len() == 0 ==> smi_rows(lines.push(name)) == smi_rows(lines)
            && smi_rows(lines.push(name + seq![','] + rest)) == smi_rows(lines),
        smi_rows(Seq::<Seq<char>>::empty()) == Seq::<SmiRowView>::empty(),
{
    text::law_splitting(name, ',', amount);
    text::law_splitting(name, ',', rest);
    text::law_splitting(name, ',', amount + seq![','] + rest);
    text::law_splitting(amount, ',', rest);
    let one = name;
    let two = name + seq![','] + amount;
    let three = name + seq![','] + (amount + seq![','] + rest);
    let blank = name + seq![','] + rest;
    assert(lines.push(one).drop_last() =~= lines);
    assert(lines.push(two).drop_last() =~= lines);
    assert(lines.push(three).drop_last() =~= lines);
    assert(lines.push(blank).drop_last() =~= lines);
    assert(text::pieces(two, ',')[0] == name && text::pieces(two, ',')[1] == amount);
    assert(text::pieces(three, ',')[0] == name && text::pieces(three, ',')[1] == amount);
    assert(text::pieces(blank, ',')[0] == name);
}

/// The adapter of a row carries the row's number and name and the reading of its amount, which is
/// none where there is no reading.
pub proof fn law_smi_adapter(rows: Seq<SmiRowView>, readings: Seq<Option<Vram>>, i: int)
    requires
        0 <= i < rows.len(),
    ensures
        ({
            let found = smi_gpus(rows, readings)[i];
            &&& found.device_id == rows[i].index
            &&& found.name == rows[i].name
            &&& i < readings.len() && readings[i] is Some ==> found.vram_mb == readings[i]->0
            &&& i >= readings.len() || readings[i] is None ==> found.vram_mb == Vram::Bytes(0)
        }),
{
}

} // verus!
