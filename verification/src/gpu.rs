//! Graphics adapters: what is known of one, the memory table keyed by PCI address, and the
//! short-lived cache of the last enumeration.

use crate::pci;
use vstd::prelude::*;

verus! {

/// The bytes of one megabyte, as memory sizes are counted here.
pub const MB: u64 = 1_048_576;

/// The PCI vendor number of NVIDIA.
pub const NVIDIA_VENDOR_ID: u32 = 0x10DE;

/// The PCI vendor number of AMD.
pub const AMD_VENDOR_ID: u32 = 0x1002;

/// The PCI vendor number of Apple.
pub const APPLE_VENDOR_ID: u32 = 0x106B;

/// The PCI vendor number of Microsoft, which its software renderer carries.
pub const MICROSOFT_VENDOR_ID: u32 = 0x1414;

/// How long an enumeration of the adapters stays good, in nanoseconds.
pub const GPU_ENUM_CACHE_TTL_NS: u128 = 15_000_000_000;

/// An amount of video memory.
///
/// The kernel counts bytes. A tool prints megabytes, which need not be whole: of such a reading
/// `whole` is the integer part, by which every rule of this crate goes, and `bits` is the reading
/// itself in the encoding of whoever took it, carried along and never looked into.
#[derive(Clone, Copy, Debug, PartialEq, Eq, Structural)]
pub enum Vram {
    Bytes(u64),
    Megabytes { whole: u64, bits: u64 },
}

impl Vram {
    /// The whole megabytes of the amount.
    pub open spec fn whole(self) -> nat {
        match self {
            Vram::Bytes(n) => n as nat / MB as nat,
            Vram::Megabytes { whole, .. } => whole as nat,
        }
    }

    /// The whole megabytes of the amount.
    pub fn whole_mb(&self) -> (r: u64)
        ensures
            r == self.whole(),
    {
        match self {
            Vram::Bytes(n) => *n / MB,
            Vram::Megabytes { whole, .. } => *whole,
        }
    }
}

/// A graphics adapter of the machine.
#[derive(Debug)]
pub struct GpuInfo {
    pub device_id: u32,
    pub name: String,
    pub vendor_id: u32,
    pub vram_mb: Vram,
    pub is_dedicated: bool,
    pub is_integrated: bool,
}

/// `GpuInfo` with its name as a sequence of characters.
pub struct GpuInfoView {
    pub device_id: u32,
    pub name: Seq<char>,
    pub vendor_id: u32,
    pub vram_mb: Vram,
    pub is_dedicated: bool,
    pub is_integrated: bool,
}

impl View for GpuInfo {
    type V = GpuInfoView;

    open spec fn view(&self) -> GpuInfoView {
        GpuInfoView {
            device_id: self.device_id,
            name: self.name@,
            vendor_id: self.vendor_id,
            vram_mb: self.vram_mb,
            is_dedicated: self.is_dedicated,
            is_integrated: self.is_integrated,
        }
    }
}

impl DeepView for GpuInfo {
    type V = GpuInfoView;

    open spec fn deep_view(&self) -> GpuInfoView {
        self@
    }
}

impl Clone for GpuInfo {
    fn clone(&self) -> (r: Self)
        ensures
            r@ == self@,
    {
        GpuInfo {
            device_id: self.device_id,
            name: self.name.clone(),
            vendor_id: self.vendor_id,
            vram_mb: self.vram_mb,
            is_dedicated: self.is_dedicated,
            is_integrated: self.is_integrated,
        }
    }
}

impl GpuInfoView {
    /// An adapter is either dedicated or integrated.
    pub open spec fn well_formed(self) -> bool {
        self.is_integrated == !self.is_dedicated
    }
}

/// Whether every adapter of a list is either dedicated or integrated.
pub open spec fn all_well_formed(gpus: Seq<GpuInfoView>) -> bool {
    forall|i: int| 0 <= i < gpus.len() ==> (#[trigger] gpus[i]).well_formed()
}

/// A copy of a list of adapters.
pub fn copy_gpus(gpus: &Vec<GpuInfo>) -> (r: Vec<GpuInfo>)
    ensures
        r.deep_view() == gpus.deep_view(),
{
    let mut r: Vec<GpuInfo> = Vec::new();
    let n = gpus.len();
    let mut i: usize = 0;
    while i < n
        invariant
            i <= n,
            n == gpus@.len(),
            r.deep_view() == gpus.deep_view().take(i as int),
        decreases n - i,
    {
        let ghost done = r.deep_view();
        r.push(gpus[i].clone());
        assert(r.deep_view() =~= done.push(gpus@[i as int]@));
        i += 1;
        assert(r.deep_view() =~= gpus.deep_view().take(i as int));
    }
    assert(gpus.deep_view().take(n as int) =~= gpus.deep_view());
    r
}

// ---------------------------------------------------------------------------
// The dedicated adapter
// ---------------------------------------------------------------------------

/// The first dedicated adapter of a list.
pub open spec fn first_dedicated(gpus: Seq<GpuInfoView>) -> Option<GpuInfoView>
    decreases gpus.len(),
{
    if gpus.len() == 0 {
        None
    } else if gpus[0].is_dedicated {
        Some(gpus[0])
    } else {
        first_dedicated(gpus.drop_first())
    }
}

/// The first dedicated adapter among those that were enumerated.
pub fn get_dedicated_gpu(gpus: &Vec<GpuInfo>) -> (r: Option<GpuInfo>)
    ensures
        r.deep_view() == first_dedicated(gpus.deep_view()),
{
    let n = gpus.len();
    let mut i: usize = 0;
    assert(gpus.deep_view().skip(0) =~= gpus.deep_view());
    while i < n
        invariant
            i <= n,
            n == gpus@.len(),
            first_dedicated(gpus.deep_view()) == first_dedicated(gpus.deep_view().skip(i as int)),
        decreases n - i,
    {
        assert(gpus.deep_view().skip(i as int)[0] == gpus@[i as int]@);
        if gpus[i].is_dedicated {
            return Some(gpus[i].clone());
        }
        assert(gpus.deep_view().skip(i as int).drop_first() =~= gpus.deep_view().skip(i + 1));
        i += 1;
    }
    None
}

/// The dedicated adapter is the first one of the list that is flagged so, whatever its vendor and
/// its memory, and there is none exactly where no adapter is.
pub proof fn law_first_dedicated(gpus: Seq<GpuInfoView>)
    ensures
        first_dedicated(gpus) is None <==> forall|i: int|
            0 <= i < gpus.len() ==> !(#[trigger] gpus[i]).is_dedicated,
        forall|k: int|
            0 <= k < gpus.len() && (#[trigger] gpus[k]).is_dedicated && (forall|j: int|
                0 <= j < k ==> !(#[trigger] gpus[j]).is_dedicated) ==> first_dedicated(gpus)
                == Some(gpus[k]),
    decreases gpus.len(),
{
    if gpus.len() > 0 {
        let rest = gpus.drop_first();
        law_first_dedicated(rest);
        if !gpus[0].is_dedicated {
            assert forall|i: int| 0 < i < gpus.len() implies #[trigger] gpus[i] == rest[i - 1] by {}
            if first_dedicated(rest) is Some {
                if forall|i: int| 0 <= i < gpus.len() ==> !(#[trigger] gpus[i]).is_dedicated {
                    assert forall|i: int| 0 <= i < rest.len() implies !(
                    #[trigger] rest[i]).is_dedicated by {
                        assert(rest[i] == gpus[i + 1]);
                    }
                }
            }
            assert forall|k: int|
                0 <= k < gpus.len() && (#[trigger] gpus[k]).is_dedicated && (forall|j: int|
                    0 <= j < k ==> !(#[trigger] gpus[j]).is_dedicated) implies first_dedicated(gpus)
                == Some(gpus[k]) by {
                assert(rest[k - 1].is_dedicated);
                assert forall|j: int| 0 <= j < k - 1 implies !(#[trigger] rest[j]).is_dedicated by {
                    assert(rest[j] == gpus[j + 1]);
                }
            }
        } else {
            assert(gpus[0].is_dedicated);
        }
    }
}

/// The whole megabytes of an amount of bytes are the most that fit into it; of a reading in
/// megabytes they are its integer part.
pub proof fn law_whole_megabytes(bytes: u64, whole: u64, bits: u64)
    ensures
        Vram::Bytes(bytes).whole() * 1_048_576 <= bytes < (Vram::Bytes(bytes).whole() + 1)
            * 1_048_576,
        (Vram::Megabytes { whole, bits }).whole() == whole,
{
}

// ---------------------------------------------------------------------------
// Memory by PCI address
// ---------------------------------------------------------------------------

/// The video memory of each adapter, found by its PCI bus address. Every spelling of an address
/// that names one device leads to the same entry.
pub struct VramByBus {
    entries: Vec<(String, Vram)>,
}

/// The keys of a list of entries.
spec fn keys_of(entries: Seq<(String, Vram)>) -> Seq<Seq<char>> {
    entries.map_values(|e: (String, Vram)| e.0@)
}

impl View for VramByBus {
    type V = Map<Seq<char>, Vram>;

    closed spec fn view(&self) -> Map<Seq<char>, Vram> {
        Map::new(
            |k: Seq<char>| keys_of(self.entries@).contains(k),
            |k: Seq<char>| self.entries@[keys_of(self.entries@).index_of(k)].1,
        )
    }
}

impl VramByBus {
    /// No key stands in the table twice.
    #[verifier::type_invariant]
    spec fn inv(self) -> bool {
        keys_of(self.entries@).no_duplicates()
    }

    /// An empty table.
    pub fn new() -> (r: Self)
        ensures
            r@ == Map::<Seq<char>, Vram>::empty(),
    {
        let entries: Vec<(String, Vram)> = Vec::new();
        let r = VramByBus { entries };
        assert(r@ =~= Map::<Seq<char>, Vram>::empty());
        r
    }

    /// Where a key stands in the table.
    fn position(&self, key: &String) -> (r: Option<usize>)
        ensures
            match r {
                Some(i) => i < self.entries@.len() && self.entries@[i as int].0@ == key@,
                None => !keys_of(self.entries@).contains(key@),
            },
    {
        let n = self.entries.len();
        let mut i: usize = 0;
        while i < n
            invariant
                i <= n,
                n == self.entries@.len(),
                forall|j: int| 0 <= j < i ==> (#[trigger] self.entries@[j]).0@ != key@,
            decreases n - i,
        {
            if self.entries[i].0 == *key {
                return Some(i);
            }
            i += 1;
        }
        assert forall|j: int| 0 <= j < n implies keys_of(self.entries@)[j] != key@ by {
            assert(self.entries@[j].0@ != key@);
        }
        None
    }

    /// Notes the memory of the device at an address; a later amount replaces an earlier one.
    pub fn insert(&mut self, bus_id: &str, amount: Vram)
        ensures
            final(self)@ == old(self)@.insert(pci::normalized(bus_id@), amount),
    {
        proof {
            use_type_invariant(&*self);
        }
        let key = pci::normalize_pci_bus_id(bus_id);
        let ghost id = key@;
        let found = self.position(&key);
        let ghost before = *self;
        let ghost all = keys_of(before.entries@);
        let mut entries: Vec<(String, Vram)> = Vec::new();
        std::mem::swap(&mut entries, &mut self.entries);
        match found {
            Some(at) => {
                assert(all[at as int] == id);
                entries.set(at, (key, amount));
                assert(keys_of(entries@) =~= all);
            },
            None => {
                entries.push((key, amount));
                assert(keys_of(entries@) =~= all.push(id));
            },
        }
        let ghost now = keys_of(entries@);
        self.entries = entries;
        assert forall|k: Seq<char>| #[trigger]
            self@.contains_key(k) <==> before@.insert(id, amount).contains_key(k) by {
            if all.contains(k) {
                assert(now[all.index_of(k)] == k);
            }
            if id == k && found is None {
                assert(now.last() == k);
            }
        }
        assert forall|k: Seq<char>| #[trigger] self@.contains_key(k) implies self@[k]
            == before@.insert(id, amount)[k] by {
            let i = now.index_of(k);
            if all.contains(k) {
                let j = all.index_of(k);
                assert(now[j] == k);
                assert(i == j);
            } else {
                assert(i == all.len());
            }
        }
        assert(self@ =~= before@.insert(id, amount));
    }

    /// The memory that was noted for the device at an address.
    pub fn get(&self, bus_id: &str) -> (r: Option<Vram>)
        ensures
            r == lookup(self@, bus_id@),
    {
        proof {
            use_type_invariant(self);
        }
        let key = pci::normalize_pci_bus_id(bus_id);
        match self.position(&key) {
            Some(i) => {
                let ghost all = keys_of(self.entries@);
                assert(all[i as int] == key@);
                assert(all.index_of(key@) == i);
                Some(self.entries[i].1)
            },
            None => None,
        }
    }
}

/// What a table holds for the device at an address.
pub open spec fn lookup(table: Map<Seq<char>, Vram>, bus_id: Seq<char>) -> Option<Vram> {
    let key = pci::normalized(bus_id);
    if table.contains_key(key) {
        Some(table[key])
    } else {
        None
    }
}

/// What was noted under one spelling of an address is found under every spelling that has the
/// same key, and no other entry is touched.
pub proof fn law_noted_memory_is_found(
    table: Map<Seq<char>, Vram>,
    noted: Seq<char>,
    amount: Vram,
    asked: Seq<char>,
)
    ensures
        lookup(table.insert(pci::normalized(noted), amount), asked) == (if pci::normalized(asked)
            == pci::normalized(noted) {
            Some(amount)
        } else {
            lookup(table, asked)
        }),
{
}

// ---------------------------------------------------------------------------
// The enumeration cache
// ---------------------------------------------------------------------------

/// The last enumeration of the adapters and the moment, in nanoseconds on a clock that never
/// runs backwards, at which it was taken.
pub struct GpuEnumCache {
    pub entry: Option<(u128, Vec<GpuInfo>)>,
}

impl View for GpuEnumCache {
    type V = Option<(u128, Seq<GpuInfoView>)>;

    open spec fn view(&self) -> Option<(u128, Seq<GpuInfoView>)> {
        match self.entry {
            Some((taken, gpus)) => Some((taken, gpus.deep_view())),
            None => None,
        }
    }
}

/// What the cache answers at a given moment: the adapters, while the enumeration is younger than
/// its time to live.
pub open spec fn cached(
    entry: Option<(u128, Seq<GpuInfoView>)>,
    now: u128,
) -> Option<Seq<GpuInfoView>> {
    match entry {
        Some((taken, gpus)) if now - taken < GPU_ENUM_CACHE_TTL_NS => Some(gpus),
        _ => None,
    }
}

impl GpuEnumCache {
    /// A cache that holds nothing.
    pub fn new() -> (r: Self)
        ensures
            r@ is None,
    {
        GpuEnumCache { entry: None }
    }

    /// Keeps an enumeration that was finished at `now`.
    pub fn remember(&mut self, now: u128, gpus: &Vec<GpuInfo>)
        ensures
            final(self)@ == Some((now, gpus.deep_view())),
    {
        self.entry = Some((now, copy_gpus(gpus)));
    }
}

/// The adapters of the machine, as far as the cache still knows them at `now`. Where it answers
/// `None` the caller enumerates them and has the cache remember what it found.
pub fn enumerate_system_gpus(cache: &GpuEnumCache, now: u128) -> (r: Option<Vec<GpuInfo>>)
    ensures
        r.deep_view() == cached(cache@, now),
{
    match &cache.entry {
        Some((taken, gpus)) => {
            if now < *taken || now - *taken < GPU_ENUM_CACHE_TTL_NS {
                Some(copy_gpus(gpus))
            } else {
                None
            }
        },
        None => None,
    }
}

/// A remembered enumeration answers every question asked within fifteen seconds, as it was
/// remembered, and none after. A cache that holds nothing answers nothing.
pub proof fn law_enumeration_lives_for_its_ttl(taken: u128, gpus: Seq<GpuInfoView>, now: u128)
    ensures
        now < taken + 15_000_000_000 ==> cached(Some((taken, gpus)), now) == Some(gpus),
        now >= taken + 15_000_000_000 ==> cached(Some((taken, gpus)), now) is None,
        cached(None, now) is None,
{
}

} // verus!
