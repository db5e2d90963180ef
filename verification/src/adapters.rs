//! Adapters of the other vendors and systems, and how the lists of one machine are put together.

use crate::gpu;
use crate::gpu::{
    GpuInfo, GpuInfoView, Vram, AMD_VENDOR_ID, APPLE_VENDOR_ID, MB, MICROSOFT_VENDOR_ID,
};
use crate::text;
use vstd::prelude::*;

verus! {

// ---------------------------------------------------------------------------
// AMD, by way of the kernel's DRM cards
// ---------------------------------------------------------------------------

/// An entry of `/sys/class/drm`: its name and what its files `device/vendor` and
/// `device/mem_info_vram_total` hold, where they could be read.
#[derive(Debug)]
pub struct DrmEntry {
    pub file_name: String,
    pub vendor: Option<String>,
    pub vram_total: Option<String>,
}

/// `DrmEntry` with its texts as sequences of characters.
pub struct DrmEntryView {
    pub file_name: Seq<char>,
    pub vendor: Option<Seq<char>>,
    pub vram_total: Option<Seq<char>>,
}

impl View for DrmEntry {
    type V = DrmEntryView;

    open spec fn view(&self) -> DrmEntryView {
        DrmEntryView {
            file_name: self.file_name@,
            vendor: self.vendor.deep_view(),
            vram_total: self.vram_total.deep_view(),
        }
    }
}

impl DeepView for DrmEntry {
    type V = DrmEntryView;

    open spec fn deep_view(&self) -> DrmEntryView {
        self@
    }
}

/// The vendor number that a `vendor` file holds: hexadecimal after `0x`.
pub open spec fn vendor_number(vendor: Seq<char>) -> Option<nat> {
    text::numeral_up_to(
        text::stripped_start(text::trimmed(vendor), "0x"@),
        16,
        u32::MAX as nat,
    )
}

/// The bytes of dedicated memory that a `mem_info_vram_total` file holds; none where there is no
/// such file or it holds no number.
pub open spec fn vram_bytes(vram_total: Option<Seq<char>>) -> u64 {
    match vram_total {
        Some(total) => match text::numeral_up_to(text::trimmed(total), 10, u64::MAX as nat) {
            Some(n) => n as u64,
            None => 0,
        },
        None => 0,
    }
}

/// Whether an entry is a card with an AMD adapter.
pub open spec fn is_amd_card(entry: DrmEntryView) -> bool {
    &&& text::begins(entry.file_name, "card"@)
    &&& entry.vendor is Some
    &&& vendor_number(entry.vendor->0) == Some(AMD_VENDOR_ID as nat)
}

/// The adapter of an AMD card. An adapter with memory of its own is dedicated; one that shares
/// the memory of the system reports none and is integrated.
pub open spec fn amd_gpu(index: int, entry: DrmEntryView) -> GpuInfoView {
    GpuInfoView {
        device_id: index as u32,
        name: "AMD Radeon GPU"@,
        vendor_id: AMD_VENDOR_ID,
        vram_mb: Vram::Bytes(vram_bytes(entry.vram_total)),
        is_dedicated: vram_bytes(entry.vram_total) > 0,
        is_integrated: vram_bytes(entry.vram_total) == 0,
    }
}

/// The AMD adapters among the entries, each numbered by the place of its entry.
pub open spec fn amd_gpus(entries: Seq<DrmEntryView>) -> Seq<GpuInfoView>
    decreases entries.len(),
{
    if entries.len() == 0 {
        seq![]
    } else {
        let before = amd_gpus(entries.drop_last());
        if is_amd_card(entries.last()) {
            before.push(amd_gpu(entries.len() - 1, entries.last()))
        } else {
            before
        }
    }
}

fn read_vendor_number(vendor: &str) -> (r: Option<u64>)
    ensures
        match r {
            Some(n) => vendor_number(vendor@) == Some(n as nat),
            None => vendor_number(vendor@) is None,
        },
{
    let chars = text::chars_of(vendor);
    let bare = text::trim_start_matches(text::trim(chars.as_slice()), "0x");
    text::read_numeral(bare, 16, 0xffff_ffff)
}

fn read_vram_bytes(vram_total: &Option<String>) -> (r: u64)
    ensures
        r == vram_bytes(vram_total.deep_view()),
{
    match vram_total {
        Some(total) => {
            let chars = text::chars_of(total.as_str());
            match text::read_numeral(text::trim(chars.as_slice()), 10, u64::MAX) {
                Some(n) => n,
                None => 0,
            }
        },
        None => 0,
    }
}

/// The AMD adapters that the DRM directory lists, in its order. Cards of other vendors are
/// skipped.
pub fn parse_amd_drm_root(entries: &Vec<DrmEntry>) -> (r: Vec<GpuInfo>)
    ensures
        r.deep_view() == amd_gpus(entries.deep_view()),
{
    let mut r: Vec<GpuInfo> = Vec::new();
    let n = entries.len();
    let ghost all = entries.deep_view();
    let mut i: usize = 0;
    while i < n
        invariant
            i <= n,
            n == entries@.len(),
            all == entries.deep_view(),
            r.deep_view() == amd_gpus(all.take(i as int)),
        decreases n - i,
    {
        let entry = &entries[i];
        assert(all.take(i + 1).drop_last() =~= all.take(i as int));
        assert(all.take(i + 1).last() == entry@);
        let name = text::chars_of(entry.file_name.as_str());
        let mut is_amd: bool = false;
        if text::starts_with(name.as_slice(), "card") {
            if let Some(vendor) = &entry.vendor {
                if let Some(number) = read_vendor_number(vendor.as_str()) {
                    is_amd = number == AMD_VENDOR_ID as u64;
                }
            }
        }
        if is_amd {
            let bytes = read_vram_bytes(&entry.vram_total);
            let ghost done = r.deep_view();
            let found = GpuInfo {
                device_id: i as u32,
                name: "AMD Radeon GPU".to_owned(),
                vendor_id: AMD_VENDOR_ID,
                vram_mb: Vram::Bytes(bytes),
                is_dedicated: bytes > 0,
                is_integrated: bytes == 0,
            };
            r.push(found);
            assert(r.deep_view() =~= done.push(found@));
        }
        i += 1;
    }
    assert(all.take(n as int) =~= all);
    r
}

/// Every adapter taken from the DRM directory is an AMD adapter, dedicated exactly when it has
/// memory of its own.
pub proof fn law_amd_adapters(entries: Seq<DrmEntryView>)
    ensures
        amd_gpus(entries).len() <= entries.len(),
        forall|i: int|
            0 <= i < amd_gpus(entries).len() ==> {
                let found = #[trigger] amd_gpus(entries)[i];
                &&& found.vendor_id == 0x1002
                &&& found.well_formed()
                &&& found.is_dedicated == (found.vram_mb != Vram::Bytes(0))
            },
    decreases entries.len(),
{
    if entries.len() > 0 {
        law_amd_adapters(entries.drop_last());
    }
}

// ---------------------------------------------------------------------------
// Windows, by way of DXGI
// ---------------------------------------------------------------------------

/// The texts that stand in the names of adapters known to be dedicated.
pub open spec fn known_dedicated(lower: Seq<char>) -> bool {
    ||| text::occurs(lower, "geforce"@)
    ||| text::occurs(lower, "rtx"@)
    ||| text::occurs(lower, "gtx"@)
    ||| text::occurs(lower, "radeon rx"@)
    ||| text::occurs(lower, "radeon pro"@)
    ||| text::occurs(lower, "arc a"@)
    ||| text::occurs(lower, "quadro"@)
    ||| text::occurs(lower, "tesla"@)
    ||| text::occurs(lower, "titan"@)
}

/// The texts that stand in the names of adapters known to be integrated.
pub open spec fn known_integrated(lower: Seq<char>) -> bool {
    ||| text::occurs(lower, "intel(r) hd"@)
    ||| text::occurs(lower, "intel(r) uhd"@)
    ||| text::occurs(lower, "intel(r) iris"@)
    ||| text::occurs(lower, "radeon(tm) graphics"@)
    ||| text::occurs(lower, "radeon vega"@)
}

/// Whether an adapter is dedicated, by its name in lower case and its memory: a known name
/// decides, and a gigabyte of its own does unless the name is known to be integrated.
pub open spec fn looks_dedicated(lower: Seq<char>, dedicated_bytes: u64) -> bool {
    known_dedicated(lower) || (dedicated_bytes >= 1024 * MB && !known_integrated(lower))
}

/// Whether an adapter is Microsoft's software renderer.
pub open spec fn is_basic_render(name: Seq<char>, vendor_id: u32) -> bool {
    vendor_id == MICROSOFT_VENDOR_ID || text::occurs(name, "Basic Render"@)
}

/// The adapter that a DXGI description stands for, given its name and that name in lower case.
pub open spec fn dxgi_gpu(
    index: u32,
    name: Seq<char>,
    lower: Seq<char>,
    vendor_id: u32,
    dedicated_bytes: u64,
    vram: Vram,
) -> Option<GpuInfoView> {
    if is_basic_render(name, vendor_id) {
        None
    } else {
        Some(
            GpuInfoView {
                device_id: index,
                name,
                vendor_id,
                vram_mb: vram,
                is_dedicated: looks_dedicated(lower, dedicated_bytes),
                is_integrated: !looks_dedicated(lower, dedicated_bytes),
            },
        )
    }
}

fn is_known_dedicated(lower: &[char]) -> (r: bool)
    ensures
        r == known_dedicated(lower@),
{
    text::contains(lower, "geforce") || text::contains(lower, "rtx") || text::contains(lower, "gtx")
        || text::contains(lower, "radeon rx") || text::contains(lower, "radeon pro")
        || text::contains(lower, "arc a") || text::contains(lower, "quadro") || text::contains(
        lower,
        "tesla",
    ) || text::contains(lower, "titan")
}

fn is_known_integrated(lower: &[char]) -> (r: bool)
    ensures
        r == known_integrated(lower@),
{
    text::contains(lower, "intel(r) hd") || text::contains(lower, "intel(r) uhd")
        || text::contains(lower, "intel(r) iris") || text::contains(lower, "radeon(tm) graphics")
        || text::contains(lower, "radeon vega")
}

/// Classifies an adapter by its name, its vendor and the bytes of its own memory. `lower` is the
/// name in lower case and `vram` the memory as it is to be reported.
pub fn classify_adapter(
    index: u32,
    name: &str,
    lower: &str,
    vendor_id: u32,
    dedicated_bytes: u64,
    vram: Vram,
) -> (r: Option<GpuInfo>)
    ensures
        r.deep_view() == dxgi_gpu(index, name@, lower@, vendor_id, dedicated_bytes, vram),
{
    let chars = text::chars_of(name);
    if vendor_id == MICROSOFT_VENDOR_ID || text::contains(chars.as_slice(), "Basic Render") {
        return None;
    }
    let low = text::chars_of(lower);
    let dedicated = is_known_dedicated(low.as_slice()) || (dedicated_bytes >= 1024 * MB
        && !is_known_integrated(low.as_slice()));
    Some(
        GpuInfo {
            device_id: index,
            name: name.to_owned(),
            vendor_id,
            vram_mb: vram,
            is_dedicated: dedicated,
            is_integrated: !dedicated,
        },
    )
}

/// Whether a UTF-16 code unit is the first of a surrogate pair.
pub open spec fn high_surrogate(u: u16) -> bool {
    0xd800 <= u <= 0xdbff
}

/// Whether a UTF-16 code unit is the second of a surrogate pair.
pub open spec fn low_surrogate(u: u16) -> bool {
    0xdc00 <= u <= 0xdfff
}

/// The text of UTF-16 code units; a surrogate without its partner reads as U+FFFD.
pub open spec fn utf16_text(units: Seq<u16>) -> Seq<char>
    decreases units.len(),
{
    if units.len() == 0 {
        seq![]
    } else if high_surrogate(units[0]) && units.len() > 1 && low_surrogate(units[1]) {
        seq![(0x10000 + (units[0] - 0xd800) * 0x400 + (units[1] - 0xdc00)) as char] + utf16_text(
            units.skip(2),
        )
    } else if high_surrogate(units[0]) || low_surrogate(units[0]) {
        seq!['\u{fffd}'] + utf16_text(units.skip(1))
    } else {
        seq![units[0] as char] + utf16_text(units.skip(1))
    }
}

/// `String::from_utf16_lossy`, which decodes UTF-16 and puts U+FFFD in the place of what is no
/// valid UTF-16.
#[verifier::external_body]
fn from_utf16_lossy(units: &[u16]) -> (r: String)
    ensures
        r@ == utf16_text(units@),
{
    String::from_utf16_lossy(units)
}

/// How many code units stand before the first zero.
pub open spec fn units_before_zero(units: Seq<u16>) -> nat
    decreases units.len(),
{
    if units.len() == 0 || units[0] == 0 {
        0
    } else {
        1 + units_before_zero(units.drop_first())
    }
}

/// The name that a DXGI description field holds: UTF-16 up to the first zero, trimmed.
pub open spec fn description_name(description: Seq<u16>) -> Seq<char> {
    text::trimmed(utf16_text(description.take(units_before_zero(description) as int)))
}

/// The name that a DXGI description field holds.
pub fn adapter_name(description: &[u16]) -> (r: String)
    ensures
        r@ == description_name(description@),
{
    let n = description.len();
    let mut i: usize = 0;
    assert(description@.skip(0) =~= description@);
    while i < n && description[i] != 0
        invariant
            i <= n,
            n == description@.len(),
            units_before_zero(description@) == i + units_before_zero(
                description@.skip(i as int),
            ),
        decreases n - i,
    {
        assert(description@.skip(i as int).drop_first() =~= description@.skip(i + 1));
        i += 1;
    }
    let units = vstd::slice::slice_subrange(description, 0, i);
    assert(units@ =~= description@.take(i as int));
    let name = from_utf16_lossy(units);
    let chars = text::chars_of(name.as_str());
    text::string_of(text::trim(chars.as_slice()))
}

/// The adapter that a DXGI description stands for; none for Microsoft's software renderer.
pub fn dxgi_adapter(
    index: u32,
    description: &[u16],
    vendor_id: u32,
    dedicated_bytes: u64,
    vram: Vram,
) -> (r: Option<GpuInfo>)
    ensures
        r.deep_view() == dxgi_gpu(
            index,
            description_name(description@),
            text::lowercase(description_name(description@)),
            vendor_id,
            dedicated_bytes,
            vram,
        ),
        text::ascii(description_name(description@)) ==> r.deep_view() == dxgi_gpu(
            index,
            description_name(description@),
            text::lowered(description_name(description@)),
            vendor_id,
            dedicated_bytes,
            vram,
        ),
{
    let name = adapter_name(description);
    let lower = text::to_lowercase(name.as_str());
    classify_adapter(index, name.as_str(), lower.as_str(), vendor_id, dedicated_bytes, vram)
}

// ---------------------------------------------------------------------------
// macOS, by way of Metal
// ---------------------------------------------------------------------------

/// The adapters that Metal names. On Apple silicon the one adapter is the accelerator and counts
/// as dedicated; it shares the memory of the system.
pub open spec fn metal_gpu(index: int, name: Seq<char>, apple_silicon: bool) -> GpuInfoView {
    GpuInfoView {
        device_id: index as u32,
        name,
        vendor_id: APPLE_VENDOR_ID,
        vram_mb: Vram::Bytes(0),
        is_dedicated: apple_silicon,
        is_integrated: !apple_silicon,
    }
}

/// The adapters that Metal names, in its order.
pub fn metal_adapters(names: &Vec<String>, apple_silicon: bool) -> (r: Vec<GpuInfo>)
    ensures
        r.deep_view() == Seq::new(
            names@.len(),
            |i: int| metal_gpu(i, names.deep_view()[i], apple_silicon),
        ),
{
    let mut r: Vec<GpuInfo> = Vec::new();
    let n = names.len();
    let ghost all = Seq::new(
        names@.len(),
        |i: int| metal_gpu(i, names.deep_view()[i], apple_silicon),
    );
    let mut i: usize = 0;
    while i < n
        invariant
            i <= n,
            n == names@.len(),
            all == Seq::new(
                names@.len(),
                |i: int| metal_gpu(i, names.deep_view()[i], apple_silicon),
            ),
            r.deep_view() == all.take(i as int),
        decreases n - i,
    {
        let ghost done = r.deep_view();
        let found = GpuInfo {
            device_id: i as u32,
            name: names[i].clone(),
            vendor_id: APPLE_VENDOR_ID,
            vram_mb: Vram::Bytes(0),
            is_dedicated: apple_silicon,
            is_integrated: !apple_silicon,
        };
        r.push(found);
        assert(r.deep_view() =~= done.push(found@));
        i += 1;
        assert(r.deep_view() =~= all.take(i as int));
    }
    assert(all.take(n as int) =~= all);
    r
}

// ---------------------------------------------------------------------------
// Linux: the lists of one machine together
// ---------------------------------------------------------------------------

/// The adapters of a Linux machine: those that the NVIDIA driver lists, or else those that
/// `nvidia-smi` names, then the AMD adapters.
pub open spec fn linux_gpus(
    nvidia: Seq<GpuInfoView>,
    fallback: Seq<GpuInfoView>,
    amd: Seq<GpuInfoView>,
) -> Seq<GpuInfoView> {
    (if nvidia.len() == 0 {
        fallback
    } else {
        nvidia
    }) + amd
}

/// Whether `nvidia-smi` is to be asked for the adapters, because the driver lists none.
pub fn needs_smi_fallback(nvidia: &Vec<GpuInfo>) -> (r: bool)
    ensures
        r == (nvidia@.len() == 0),
{
    nvidia.len() == 0
}

/// The adapters of a Linux machine. `fallback` counts only where `needs_smi_fallback` asks for
/// it.
pub fn enumerate_system_gpus_inner(
    nvidia: Vec<GpuInfo>,
    fallback: Vec<GpuInfo>,
    amd: Vec<GpuInfo>,
) -> (r: Vec<GpuInfo>)
    ensures
        r.deep_view() == linux_gpus(nvidia.deep_view(), fallback.deep_view(), amd.deep_view()),
{
    let mut r = if needs_smi_fallback(&nvidia) {
        fallback
    } else {
        nvidia
    };
    let mut rest = amd;
    let ghost first = r.deep_view();
    r.append(&mut rest);
    assert(r.deep_view() =~= first + amd.deep_view());
    r
}

/// Putting lists together keeps every adapter either dedicated or integrated.
pub proof fn law_linux_adapters_well_formed(
    nvidia: Seq<GpuInfoView>,
    fallback: Seq<GpuInfoView>,
    amd: Seq<GpuInfoView>,
)
    requires
        gpu::all_well_formed(nvidia),
        gpu::all_well_formed(fallback),
        gpu::all_well_formed(amd),
    ensures
        gpu::all_well_formed(linux_gpus(nvidia, fallback, amd)),
{
}

// ---------------------------------------------------------------------------
// Laws
// ---------------------------------------------------------------------------

/// A vendor file holds a number of 32 bits in hexadecimal, with or without `0x` before it and
/// white space around it.
pub proof fn law_vendor_number(a: Seq<char>, n: nat, b: Seq<char>)
    requires
        text::blank(a),
        text::blank(b),
    ensures
        vendor_number(a + ("0x"@ + text::hex(n)) + b) == (if n <= u32::MAX {
            Some(n)
        } else {
            None
        }),
        vendor_number(a + text::hex(n) + b) == vendor_number(a + ("0x"@ + text::hex(n)) + b),
{
    reveal_strlit("0x");
    text::lemma_hex(n);
    text::law_numerals_read_back(n, u32::MAX as nat);
    let h = text::hex(n);
    let w = "0x"@ + h;
    assert('0' <= h[0] <= '9' || 'a' <= h[0] <= 'f');
    assert('0' <= h[h.len() - 1] <= '9' || 'a' <= h[h.len() - 1] <= 'f');
    assert(w[0] == '0' && w.last() == h.last());
    text::law_trimming(a, h, b);
    text::law_trimming(a, w, b);
    assert(!text::begins(h, "0x"@)) by {
        if text::begins(h, "0x"@) {
            assert(h.subrange(0, 2)[1] == h[1]);
            assert('0' <= h[1] <= '9' || 'a' <= h[1] <= 'f');
        }
    }
    text::law_stripping(h, "0x"@);
}

/// A card whose vendor file holds AMD's number is one more adapter, numbered by its place. Its
/// memory is the number of bytes that its file holds, in full, and it is dedicated exactly where
/// that is more than zero.
pub proof fn law_amd_card_has_its_memory(
    entries: Seq<DrmEntryView>,
    entry: DrmEntryView,
    tail: Seq<char>,
    n: nat,
)
    requires
        entries.len() <= u32::MAX,
        entry.file_name == "card"@ + tail,
        entry.vendor is Some,
        text::trimmed(entry.vendor->0) == "0x1002"@ || vendor_number(entry.vendor->0) == Some(
            0x1002nat,
        ),
        entry.vram_total is Some,
        text::trimmed(entry.vram_total->0) == text::decimal(n) || text::numeral(
            text::trimmed(entry.vram_total->0),
            10,
        ) == Some(n),
        n <= u64::MAX,
    ensures
        amd_gpus(entries.push(entry)) == amd_gpus(entries).push(
            (GpuInfoView {
                device_id: entries.len() as u32,
                name: "AMD Radeon GPU"@,
                vendor_id: 0x1002,
                vram_mb: Vram::Bytes(n as u64),
                is_dedicated: n > 0,
                is_integrated: n == 0,
            }),
        ),
{
    if text::trimmed(entry.vendor->0) == "0x1002"@ {
        lemma_amd_vendor(entry.vendor->0);
    }
    text::law_beginning(entry.file_name, "card"@);
    text::law_numerals_read_back(n, u64::MAX as nat);
    assert(entries.push(entry).drop_last() =~= entries);
}

/// A card of AMD whose memory file is missing, holds no number, or holds one of more than 64
/// bits, is an integrated adapter without memory of its own.
pub proof fn law_amd_card_without_memory(
    entries: Seq<DrmEntryView>,
    entry: DrmEntryView,
    tail: Seq<char>,
    n: nat,
    i: int,
)
    requires
        entries.len() <= u32::MAX,
        entry.file_name == "card"@ + tail,
        entry.vendor is Some,
        text::trimmed(entry.vendor->0) == "0x1002"@ || vendor_number(entry.vendor->0) == Some(
            0x1002nat,
        ),
        ({
            ||| entry.vram_total is None
            ||| n > u64::MAX && text::numeral(text::trimmed(entry.vram_total->0), 10) == Some(n)
            ||| n > u64::MAX && text::trimmed(entry.vram_total->0) == text::decimal(n)
            ||| text::trimmed(entry.vram_total->0).len() == 0
            ||| 0 <= i < text::trimmed(entry.vram_total->0).len() && text::trimmed(
                entry.vram_total->0,
            )[i] != '+' && !('0' <= text::trimmed(entry.vram_total->0)[i] <= '9')
        }),
    ensures
        amd_gpus(entries.push(entry)) == amd_gpus(entries).push(
            (GpuInfoView {
                device_id: entries.len() as u32,
                name: "AMD Radeon GPU"@,
                vendor_id: 0x1002,
                vram_mb: Vram::Bytes(0),
                is_dedicated: false,
                is_integrated: true,
            }),
        ),
{
    if text::trimmed(entry.vendor->0) == "0x1002"@ {
        lemma_amd_vendor(entry.vendor->0);
    }
    text::law_beginning(entry.file_name, "card"@);
    assert(entries.push(entry).drop_last() =~= entries);
    if entry.vram_total is Some {
        let t = text::trimmed(entry.vram_total->0);
        text::law_numerals_read_back(n, u64::MAX as nat);
        text::law_only_digits_are_numerals(t, 10, u64::MAX as nat, i);
    }
}

proof fn lemma_amd_vendor(vendor: Seq<char>)
    requires
        text::trimmed(vendor) == "0x1002"@,
    ensures
        vendor_number(vendor) == Some(0x1002nat),
{
    reveal_strlit("0x1002");
    reveal_strlit("0x");
    reveal_with_fuel(text::hex, 5);
    let w = "0x"@ + text::hex(0x1002);
    assert(text::hex(0x1002) =~= seq!['1', '0', '0', '2']);
    assert(w =~= "0x1002"@);
    let none = Seq::<char>::empty();
    law_vendor_number(none, 0x1002, none);
    assert(none + w + none =~= w);
    text::lemma_trimmed_fixed(w);
}

/// Whether a character stands in no vendor number: it is neither a hexadecimal digit nor the `x`
/// before one, nor a plus sign.
pub open spec fn is_no_vendor_character(c: char) -> bool {
    !('0' <= c <= '9' || 'a' <= c <= 'f' || 'A' <= c <= 'F' || c == 'x' || c == '+')
}

/// What is no card, has no readable vendor file, or is of another vendor, gives no adapter.
pub proof fn law_other_cards_are_skipped(
    entries: Seq<DrmEntryView>,
    entry: DrmEntryView,
    n: nat,
    i: int,
)
    requires
        ({
            ||| forall|x: Seq<char>| entry.file_name != #[trigger] ("card"@ + x)
            ||| entry.vendor is None
            ||| vendor_number(entry.vendor->0) != Some(0x1002nat)
            ||| n != 0x1002 && text::trimmed(entry.vendor->0) == "0x"@ + text::hex(n)
            ||| 0 <= i < text::trimmed(entry.vendor->0).len() && is_no_vendor_character(
                text::trimmed(entry.vendor->0)[i],
            )
        }),
    ensures
        amd_gpus(entries.push(entry)) == amd_gpus(entries),
        amd_gpus(Seq::<DrmEntryView>::empty()) == Seq::<GpuInfoView>::empty(),
{
    assert(entries.push(entry).drop_last() =~= entries);
    if text::begins(entry.file_name, "card"@) {
        text::law_beginning(entry.file_name, "card"@);
    }
    if entry.vendor is Some {
        let v = entry.vendor->0;
        let t = text::trimmed(v);
        if n != 0x1002 && t == "0x"@ + text::hex(n) {
            let none = Seq::<char>::empty();
            law_vendor_number(none, n, none);
            assert(none + t + none =~= t);
            text::lemma_trimmed_ends(v);
            text::lemma_trimmed_fixed(t);
        } else if 0 <= i < t.len() && is_no_vendor_character(t[i]) {
            let k = lemma_stripped_prefixes(t, i);
            let s = t.skip(k);
            assert(s[i - k] == t[i]);
            text::law_only_digits_are_numerals(s, 16, u32::MAX as nat, i - k);
        }
    }
}

proof fn lemma_stripped_prefixes(t: Seq<char>, i: int) -> (k: int)
    requires
        0 <= i < t.len(),
        is_no_vendor_character(t[i]),
    ensures
        0 <= k <= i,
        text::stripped_start(t, "0x"@) == t.skip(k),
    decreases t.len(),
{
    reveal_strlit("0x");
    if text::begins(t, "0x"@) {
        assert(t.subrange(0, 2)[0] == t[0] && t.subrange(0, 2)[1] == t[1]);
        let k = lemma_stripped_prefixes(t.skip(2), i - 2);
        assert(t.skip(2).skip(k) =~= t.skip(k + 2));
        k + 2
    } else {
        assert(t.skip(0) =~= t);
        0
    }
}

/// A name that holds one of these is that of a dedicated adapter, whatever its memory.
pub proof fn law_known_names_are_dedicated(a: Seq<char>, b: Seq<char>, bytes: u64)
    ensures
        looks_dedicated(a + "geforce"@ + b, bytes),
        looks_dedicated(a + "rtx"@ + b, bytes),
        looks_dedicated(a + "gtx"@ + b, bytes),
        looks_dedicated(a + "radeon rx"@ + b, bytes),
        looks_dedicated(a + "radeon pro"@ + b, bytes),
        looks_dedicated(a + "arc a"@ + b, bytes),
        looks_dedicated(a + "quadro"@ + b, bytes),
        looks_dedicated(a + "tesla"@ + b, bytes),
        looks_dedicated(a + "titan"@ + b, bytes),
{
    text::law_inserted_text_occurs(a, "geforce"@, b);
    text::law_inserted_text_occurs(a, "rtx"@, b);
    text::law_inserted_text_occurs(a, "gtx"@, b);
    text::law_inserted_text_occurs(a, "radeon rx"@, b);
    text::law_inserted_text_occurs(a, "radeon pro"@, b);
    text::law_inserted_text_occurs(a, "arc a"@, b);
    text::law_inserted_text_occurs(a, "quadro"@, b);
    text::law_inserted_text_occurs(a, "tesla"@, b);
    text::law_inserted_text_occurs(a, "titan"@, b);
}

/// Any other name is that of a dedicated adapter exactly where the adapter has a gigabyte of its
/// own and the name is none of those of integrated adapters.
pub proof fn law_other_names_go_by_memory(lower: Seq<char>, bytes: u64)
    requires
        !text::occurs(lower, "geforce"@),
        !text::occurs(lower, "rtx"@),
        !text::occurs(lower, "gtx"@),
        !text::occurs(lower, "radeon rx"@),
        !text::occurs(lower, "radeon pro"@),
        !text::occurs(lower, "arc a"@),
        !text::occurs(lower, "quadro"@),
        !text::occurs(lower, "tesla"@),
        !text::occurs(lower, "titan"@),
    ensures
        bytes < 1_073_741_824 ==> !looks_dedicated(lower, bytes),
        text::occurs(lower, "intel(r) hd"@) ==> !looks_dedicated(lower, bytes),
        text::occurs(lower, "intel(r) uhd"@) ==> !looks_dedicated(lower, bytes),
        text::occurs(lower, "intel(r) iris"@) ==> !looks_dedicated(lower, bytes),
        text::occurs(lower, "radeon(tm) graphics"@) ==> !looks_dedicated(lower, bytes),
        text::occurs(lower, "radeon vega"@) ==> !looks_dedicated(lower, bytes),
        bytes >= 1_073_741_824 && !text::occurs(lower, "intel(r) hd"@) && !text::occurs(
            lower,
            "intel(r) uhd"@,
        ) && !text::occurs(lower, "intel(r) iris"@) && !text::occurs(lower, "radeon(tm) graphics"@)
            && !text::occurs(lower, "radeon vega"@) ==> looks_dedicated(lower, bytes),
{
}

/// A DXGI adapter is left out exactly where it is Microsoft's software renderer, by vendor or by
/// name. Otherwise it is reported as it was described, and is dedicated or integrated by its name
/// and its own memory.
pub proof fn law_dxgi_adapter(
    index: u32,
    name: Seq<char>,
    lower: Seq<char>,
    vendor_id: u32,
    bytes: u64,
    vram: Vram,
)
    ensures
        ({
            let r = dxgi_gpu(index, name, lower, vendor_id, bytes, vram);
            &&& r is None <==> vendor_id == 0x1414 || text::occurs(name, "Basic Render"@)
            &&& r is Some ==> r->0.device_id == index && r->0.name == name && r->0.vendor_id
                == vendor_id && r->0.vram_mb == vram && r->0.well_formed() && r->0.is_dedicated
                == looks_dedicated(lower, bytes)
        }),
{
}

/// The name of a description is the text before the first zero, trimmed; what follows it does not
/// matter.
pub proof fn law_description_ends_at_zero(units: Seq<u16>, rest: Seq<u16>)
    requires
        !units.contains(0),
    ensures
        description_name(units + seq![0u16] + rest) == text::trimmed(utf16_text(units)),
        description_name(units) == text::trimmed(utf16_text(units)),
{
    lemma_units_before_zero(units, seq![0u16] + rest);
    lemma_units_before_zero(units, Seq::<u16>::empty());
    let all = units + seq![0u16] + rest;
    assert(all =~= units + (seq![0u16] + rest));
    assert(all.take(units.len() as int) =~= units);
    assert(units + Seq::<u16>::empty() =~= units);
    assert(units.take(units.len() as int) =~= units);
}

proof fn lemma_units_before_zero(units: Seq<u16>, tail: Seq<u16>)
    requires
        !units.contains(0),
        tail.len() > 0 ==> tail[0] == 0,
    ensures
        units_before_zero(units + tail) == units.len(),
    decreases units.len(),
{
    if units.len() == 0 {
        assert(units + tail =~= tail);
    } else {
        assert(units[0] != 0);
        assert((units + tail)[0] == units[0]);
        assert((units + tail).drop_first() =~= units.drop_first() + tail);
        assert(!units.drop_first().contains(0)) by {
            if units.drop_first().contains(0) {
                let j = choose|j: int| 0 <= j < units.drop_first().len() && units.drop_first()[j] == 0;
                assert(units[j + 1] == 0);
            }
        }
        lemma_units_before_zero(units.drop_first(), tail);
    }
}

/// An adapter that Metal names is Apple's, shares the memory of the system, and is dedicated
/// exactly on Apple silicon.
pub proof fn law_metal_adapter(index: u32, name: Seq<char>, apple_silicon: bool)
    ensures
        metal_gpu(index as int, name, apple_silicon) == (GpuInfoView {
            device_id: index,
            name,
            vendor_id: 0x106B,
            vram_mb: Vram::Bytes(0),
            is_dedicated: apple_silicon,
            is_integrated: !apple_silicon,
        }),
{
}

/// On Linux the driver's adapters come first, or those of its tool where the driver lists none,
/// and the AMD adapters after them; none is left out and none is added.
pub proof fn law_linux_adapters(
    nvidia: Seq<GpuInfoView>,
    fallback: Seq<GpuInfoView>,
    amd: Seq<GpuInfoView>,
)
    ensures
        nvidia.len() > 0 ==> linux_gpus(nvidia, fallback, amd) == nvidia + amd,
        nvidia.len() == 0 ==> linux_gpus(nvidia, fallback, amd) == fallback + amd,
{
}

} // verus!
