//! The store: partition geometry, fault state, namespace table, page
//! tables, and usage statistics.
//!
//! The flash work (scanning the partition, reading, writing and erasing
//! items) is done by the caller's storage engine, handed to each
//! operation as a closure; the store decides whether that work runs and
//! what the operation answers for each outcome of it.
use vstd::prelude::*;
use std::collections::BTreeMap;

use crate::error::Error;
use crate::key::{Key, be_value, lemma_be_value_injective, lemma_be_value_fits_u128};
use crate::page::{ThinPage, ThinPageState, ENTRIES_PER_PAGE, FLASH_SECTOR_SIZE, sort_pages_by_address, sorted_by_address, is_permutation, stable_by_address};

verus! {

broadcast use vstd::std_specs::btree::group_btree_axioms;

/// Counts of pages by state.
#[derive(Debug, Clone, Copy, PartialEq, Eq, Structural)]
pub struct PageStatistics {
    pub empty: u16,
    pub active: u16,
    pub full: u16,
    pub erasing: u16,
    pub corrupted: u16,
}

/// Counts of entries by state.
#[derive(Debug, Clone, Copy, PartialEq, Eq, Structural)]
pub struct EntryStatistics {
    pub empty: u32,
    pub written: u32,
    pub erased: u32,
    pub illegal: u32,
}

/// Usage of the partition: pages by state, entries of each page in
/// address order, and entries over all pages.
#[derive(Debug, Clone, PartialEq)]
pub struct NvsStatistics {
    pub pages: PageStatistics,
    pub entries_per_page: Vec<EntryStatistics>,
    pub entries_overall: EntryStatistics,
}

/// The namespace table and the page tables that a scan of the partition
/// fills and that the storage engine keeps up to date.
pub struct Tables {
    /// Namespace index by the code of the namespace name.
    namespaces: BTreeMap<u128, u8>,
    /// Pages in use.
    pages: Vec<ThinPage>,
    /// Pages free for use, in no particular order: the store only counts
    /// them and lists them by address.
    free_pages: Vec<ThinPage>,
}

/// The largest number of pages the tables hold: the page counters of the
/// statistics are `u16`.
pub const MAX_PAGES: usize = 65535;

impl Tables {
    #[verifier::type_invariant]
    spec fn page_count_fits(self) -> bool {
        self.pages.len() + self.free_pages.len() <= MAX_PAGES
    }

    /// Namespace name to namespace index.
    pub closed spec fn spec_namespaces(self) -> Map<Seq<u8>, u8> {
        Map::new(
            |name: Seq<u8>| name.len() == 16 && self.namespaces@.contains_key(be_value(name) as u128),
            |name: Seq<u8>| self.namespaces@[be_value(name) as u128],
        )
    }

    /// Pages in use.
    pub closed spec fn spec_pages(self) -> Seq<ThinPage> {
        self.pages@
    }

    /// Pages free for use.
    pub closed spec fn spec_free_pages(self) -> Seq<ThinPage> {
        self.free_pages@
    }

    /// All pages: those in use, then the free ones.
    pub open spec fn all_pages(self) -> Seq<ThinPage> {
        self.spec_pages() + self.spec_free_pages()
    }

    /// Tables without namespaces or pages.
    pub fn empty() -> (t: Tables)
        ensures
            t.spec_namespaces() == Map::<Seq<u8>, u8>::empty(),
            t.spec_pages() == Seq::<ThinPage>::empty(),
            t.spec_free_pages() == Seq::<ThinPage>::empty(),
    {
        let t = Tables { namespaces: BTreeMap::new(), pages: Vec::new(), free_pages: Vec::new() };
        assert(t.spec_namespaces() =~= Map::<Seq<u8>, u8>::empty());
        t
    }

    /// The index of the namespace called `name`, if there is one.
    pub fn namespace_index(&self, name: &Key) -> (index: Option<u8>)
        ensures
            index == (if self.spec_namespaces().contains_key(name@) {
                Some(self.spec_namespaces()[name@])
            } else {
                None
            }),
    {
        proof {
            Key::lemma_len(*name);
        }
        let code: u128 = name.code();
        match self.namespaces.get(&code) {
            Some(i) => Some(*i),
            None => None,
        }
    }

    /// Records that the namespace called `name` has index `index`.
    pub fn insert_namespace(&mut self, name: &Key, index: u8)
        ensures
            final(self).spec_namespaces() == old(self).spec_namespaces().insert(name@, index),
            final(self).spec_pages() == old(self).spec_pages(),
            final(self).spec_free_pages() == old(self).spec_free_pages(),
    {
        proof {
            Key::lemma_len(*name);
            use_type_invariant(&*self);
        }
        let code: u128 = name.code();
        let mut namespaces: BTreeMap<u128, u8> = BTreeMap::new();
        core::mem::swap(&mut namespaces, &mut self.namespaces);
        namespaces.insert(code, index);
        self.namespaces = namespaces;
        proof {
            let m = self.spec_namespaces();
            let o = old(self).spec_namespaces().insert(name@, index);
            lemma_be_value_fits_u128(name@);
            assert forall|k: Seq<u8>| #[trigger] m.contains_key(k) == o.contains_key(k) by {
                if k.len() == 16 {
                    lemma_be_value_fits_u128(k);
                    if be_value(k) == be_value(name@) {
                        lemma_be_value_injective(k, name@);
                    }
                }
            }
            assert forall|k: Seq<u8>| m.contains_key(k) implies #[trigger] m[k] == o[k] by {
                lemma_be_value_fits_u128(k);
                if be_value(k) == be_value(name@) {
                    lemma_be_value_injective(k, name@);
                }
            }
            assert(m =~= o);
        }
    }

    /// Replaces the page tables; refused (answering `false`, tables
    /// unchanged) when the two hold more than `MAX_PAGES` pages together.
    pub fn set_pages(&mut self, pages: Vec<ThinPage>, free_pages: Vec<ThinPage>) -> (done: bool)
        ensures
            done == (pages@.len() + free_pages@.len() <= MAX_PAGES),
            done ==> final(self).spec_pages() == pages@ && final(self).spec_free_pages() == free_pages@,
            !done ==> final(self).spec_pages() == old(self).spec_pages()
                && final(self).spec_free_pages() == old(self).spec_free_pages(),
            final(self).spec_namespaces() == old(self).spec_namespaces(),
    {
        proof {
            use_type_invariant(&*self);
        }
        if pages.len() <= MAX_PAGES && free_pages.len() <= MAX_PAGES - pages.len() {
            let mut namespaces: BTreeMap<u128, u8> = BTreeMap::new();
            core::mem::swap(&mut namespaces, &mut self.namespaces);
            *self = Tables { namespaces, pages, free_pages };
            true
        } else {
            false
        }
    }

    /// The pages in use.
    pub fn pages(&self) -> (p: &Vec<ThinPage>)
        ensures
            p@ == self.spec_pages(),
    {
        &self.pages
    }

    /// The free pages.
    pub fn free_pages(&self) -> (p: &Vec<ThinPage>)
        ensures
            p@ == self.spec_free_pages(),
    {
        &self.free_pages
    }

    /// The tables hold at most `MAX_PAGES` pages.
    pub fn page_count(&self) -> (n: usize)
        ensures
            n == self.all_pages().len(),
            n <= MAX_PAGES,
    {
        proof {
            use_type_invariant(self);
        }
        self.pages.len() + self.free_pages.len()
    }
}


/// The sectors of a partition at `offset` of `size` bytes, or why it is refused.
pub open spec fn partition_geometry(offset: usize, size: usize) -> Result<u16, Error> {
    if offset % FLASH_SECTOR_SIZE != 0 {
        Err(Error::InvalidPartitionOffset)
    } else if size % FLASH_SECTOR_SIZE != 0 {
        Err(Error::InvalidPartitionSize)
    } else if size / FLASH_SECTOR_SIZE > u16::MAX {
        Err(Error::InvalidPartitionSize)
    } else {
        Ok((size / FLASH_SECTOR_SIZE) as u16)
    }
}

/// Checks a partition: its offset and size are whole sectors, and a
/// `u16` counts its sectors.
pub fn partition_sectors(partition_offset: usize, partition_size: usize) -> (res: Result<u16, Error>)
    ensures
        res == partition_geometry(partition_offset, partition_size),
{
    if partition_offset % FLASH_SECTOR_SIZE != 0 {
        return Err(Error::InvalidPartitionOffset);
    }
    if partition_size % FLASH_SECTOR_SIZE != 0 {
        return Err(Error::InvalidPartitionSize);
    }
    let sectors: usize = partition_size / FLASH_SECTOR_SIZE;
    if sectors > u16::MAX as usize {
        return Err(Error::InvalidPartitionSize);
    }
    Ok(sectors as u16)
}

/// An outcome that is the flash error.
pub open spec fn is_flash_error<R>(r: Result<R, Error>) -> bool {
    r matches Err(Error::FlashError)
}

/// The Nvs struct keeps information about all pages in memory. Increases in size with
/// the number of pages in the partition.
pub struct Nvs<T> {
    hal: T,
    base_address: usize,
    sectors: u16,
    faulted: bool,
    tables: Tables,
}

impl<T> Nvs<T> {
    /// The flash handle.
    pub closed spec fn spec_hal(self) -> T {
        self.hal
    }

    /// Whether a flash error was seen; writes are then refused.
    pub closed spec fn spec_faulted(self) -> bool {
        self.faulted
    }

    pub closed spec fn spec_base_address(self) -> usize {
        self.base_address
    }

    pub closed spec fn spec_sectors(self) -> u16 {
        self.sectors
    }

    pub closed spec fn spec_tables(self) -> Tables {
        self.tables
    }

    /// The partition stays where it is.
    pub open spec fn same_partition(self, other: Nvs<T>) -> bool {
        self.spec_base_address() == other.spec_base_address()
            && self.spec_sectors() == other.spec_sectors()
    }

    /// Opens the partition at `partition_offset` of `partition_size` bytes
    /// on `hal`. The geometry is checked first; then `load_sectors` scans
    /// the partition (given the hal, the base address, the number of
    /// sectors and empty tables) and hands back the filled tables.
    /// A flash error of the scan is answered with `FlashError`.
    pub fn new<F>(partition_offset: usize, partition_size: usize, hal: T, load_sectors: F) -> (res: Result<Nvs<T>, Error>)
        where
            F: FnOnce(&mut T, usize, u16, Tables) -> (Tables, Result<(), Error>),
        requires
            forall|h: &mut T, base: usize, sectors: u16, t: Tables| load_sectors.requires((h, base, sectors, t)),
        ensures
            partition_geometry(partition_offset, partition_size) matches Err(e) ==> res == Err::<Nvs<T>, Error>(e),
            partition_geometry(partition_offset, partition_size) matches Ok(sectors) ==> exists|h: &mut T, t0: Tables, t: Tables, r: Result<(), Error>| {
                &&& t0.spec_namespaces() == Map::<Seq<u8>, u8>::empty()
                &&& t0.spec_pages() == Seq::<ThinPage>::empty()
                &&& t0.spec_free_pages() == Seq::<ThinPage>::empty()
                &&& #[trigger] load_sectors.ensures((h, partition_offset, sectors, t0), (t, r))
                &&& *h == hal
                &&& (r matches Err(e) ==> res == Err::<Nvs<T>, Error>(e))
                &&& (r is Ok ==> (res matches Ok(nvs) && {
                    &&& nvs.spec_base_address() == partition_offset
                    &&& nvs.spec_sectors() == sectors
                    &&& !nvs.spec_faulted()
                    &&& nvs.spec_tables() == t
                    &&& nvs.spec_hal() == *final(h)
                }))
            },
    {
        let sectors: u16 = match partition_sectors(partition_offset, partition_size) {
            Ok(s) => s,
            Err(e) => return Err(e),
        };
        let mut nvs: Nvs<T> = Nvs {
            hal,
            base_address: partition_offset,
            sectors,
            faulted: false,
            tables: Tables::empty(),
        };
        let mut tables = Tables::empty();
        core::mem::swap(&mut tables, &mut nvs.tables);
        let ghost t0 = tables;
        let (loaded, outcome) = load_sectors(&mut nvs.hal, partition_offset, sectors, tables);
        nvs.tables = loaded;
        match outcome {
            Ok(()) => Ok(nvs),
            Err(Error::FlashError) => {
                nvs.faulted = true;
                Err(Error::FlashError)
            },
            Err(e) => Err(e),
        }
    }

    /// Get a value from the flash: `read` does the reading (given the
    /// hal, the tables, the namespace and the key) and its outcome is the
    /// answer. A flash error marks the store as faulted.
    pub fn get<R, F>(&mut self, namespace: &Key, key: &Key, read: F) -> (res: Result<R, Error>)
        where
            F: FnOnce(&mut T, Tables, Key, Key) -> (Tables, Result<R, Error>),
        requires
            forall|h: &mut T, t: Tables, n: Key, k: Key| read.requires((h, t, n, k)),
        ensures
            exists|h: &mut T, t: Tables, r: Result<R, Error>| {
                &&& #[trigger] read.ensures((h, old(self).spec_tables(), *namespace, *key), (t, r))
                &&& final(self).spec_tables() == t
                &&& *h == old(self).spec_hal()
                &&& *final(h) == final(self).spec_hal()
                &&& res == r
            },
            final(self).spec_faulted() == (old(self).spec_faulted() || is_flash_error(res)),
            final(self).same_partition(*old(self)),
    {
        let mut tables = Tables::empty();
        core::mem::swap(&mut tables, &mut self.tables);
        assert(tables == old(self).spec_tables());
        let (tables, outcome) = read(&mut self.hal, tables, *namespace, *key);
        self.tables = tables;
        if matches!(outcome, Err(Error::FlashError)) {
            self.faulted = true;
        }
        outcome
    }

    /// Set a value and write it to the flash: refused with `FlashError`
    /// once the store is faulted, without calling `write`; otherwise
    /// `write` does the writing (given the hal, the tables, the
    /// namespace, the key and the value) and its outcome is the answer.
    /// A flash error marks the store as faulted.
    pub fn set<V, F>(&mut self, namespace: &Key, key: &Key, value: V, write: F) -> (res: Result<(), Error>)
        where
            F: FnOnce(&mut T, Tables, Key, Key, V) -> (Tables, Result<(), Error>),
        requires
            forall|h: &mut T, t: Tables, n: Key, k: Key, v: V| write.requires((h, t, n, k, v)),
        ensures
            old(self).spec_faulted() ==> res == Err::<(), Error>(Error::FlashError)
                && final(self).spec_tables() == old(self).spec_tables()
                && final(self).spec_hal() == old(self).spec_hal()
                && final(self).spec_faulted(),
            !old(self).spec_faulted() ==> {
                &&& exists|h: &mut T, t: Tables, r: Result<(), Error>| {
                    &&& #[trigger] write.ensures((h, old(self).spec_tables(), *namespace, *key, value), (t, r))
                    &&& final(self).spec_tables() == t
                    &&& *h == old(self).spec_hal()
                    &&& *final(h) == final(self).spec_hal()
                    &&& res == r
                }
                &&& final(self).spec_faulted() == is_flash_error(res)
            },
            final(self).same_partition(*old(self)),
    {
        if self.faulted {
            return Err(Error::FlashError);
        }
        let mut tables = Tables::empty();
        core::mem::swap(&mut tables, &mut self.tables);
        assert(tables == old(self).spec_tables());
        let (tables, outcome) = write(&mut self.hal, tables, *namespace, *key, value);
        self.tables = tables;
        if matches!(outcome, Err(Error::FlashError)) {
            self.faulted = true;
        }
        outcome
    }

    /// Checks if a namespace & key exists: the key and then the namespace
    /// name must be NUL terminated, the namespace must exist, and then the
    /// answer is whether `load_item` (given the hal, the tables, the
    /// namespace index and the key) finds the item. Its errors, a flash
    /// error too, count as "not found" and leave the fault state alone.
    pub fn check_key_exists<V, F>(&mut self, namespace: &Key, key: &Key, load_item: F) -> (res: Result<bool, Error>)
        where
            F: FnOnce(&mut T, Tables, u8, Key) -> (Tables, Result<V, Error>),
        requires
            forall|h: &mut T, t: Tables, i: u8, k: Key| load_item.requires((h, t, i, k)),
        ensures
            key@[15] != 0 ==> res == Err::<bool, Error>(Error::KeyMalformed),
            key@[15] == 0 && namespace@[15] != 0 ==> res == Err::<bool, Error>(Error::NamespaceMalformed),
            key@[15] == 0 && namespace@[15] == 0 && !old(self).spec_tables().spec_namespaces().contains_key(namespace@)
                ==> res == Err::<bool, Error>(Error::NamespaceNotFound),
            key@[15] != 0 || namespace@[15] != 0 || !old(self).spec_tables().spec_namespaces().contains_key(namespace@)
                ==> final(self).spec_tables() == old(self).spec_tables()
                    && final(self).spec_hal() == old(self).spec_hal(),
            key@[15] == 0 && namespace@[15] == 0 && old(self).spec_tables().spec_namespaces().contains_key(namespace@)
                ==> exists|h: &mut T, t: Tables, r: Result<V, Error>| {
                    &&& #[trigger] load_item.ensures(
                        (h, old(self).spec_tables(), old(self).spec_tables().spec_namespaces()[namespace@], *key),
                        (t, r),
                    )
                    &&& final(self).spec_tables() == t
                    &&& *h == old(self).spec_hal()
                    &&& *final(h) == final(self).spec_hal()
                    &&& res == Ok::<bool, Error>(r is Ok)
                },
            final(self).spec_faulted() == old(self).spec_faulted(),
            final(self).same_partition(*old(self)),
    {
        proof {
            Key::lemma_len(*key);
            Key::lemma_len(*namespace);
        }
        if !key.is_nul_terminated() {
            return Err(Error::KeyMalformed);
        }
        if !namespace.is_nul_terminated() {
            return Err(Error::NamespaceMalformed);
        }
        let namespace_index: u8 = match self.tables.namespace_index(namespace) {
            Some(i) => i,
            None => return Err(Error::NamespaceNotFound),
        };
        let mut tables = Tables::empty();
        core::mem::swap(&mut tables, &mut self.tables);
        let (tables, outcome) = load_item(&mut self.hal, tables, namespace_index, *key);
        self.tables = tables;
        Ok(outcome.is_ok())
    }

    /// Delete a key. Refused with `FlashError` once the store is faulted;
    /// the key and then the namespace name must be NUL terminated; a
    /// missing namespace or key is no error. Otherwise `delete_key`
    /// (given the hal, the tables, the namespace index and the key) does
    /// the erasing; a flash error marks the store as faulted.
    pub fn delete<F>(&mut self, namespace: &Key, key: &Key, delete_key: F) -> (res: Result<(), Error>)
        where
            F: FnOnce(&mut T, Tables, u8, Key) -> (Tables, Result<(), Error>),
        requires
            forall|h: &mut T, t: Tables, i: u8, k: Key| delete_key.requires((h, t, i, k)),
        ensures
            old(self).spec_faulted() ==> res == Err::<(), Error>(Error::FlashError),
            !old(self).spec_faulted() && key@[15] != 0 ==> res == Err::<(), Error>(Error::KeyMalformed),
            !old(self).spec_faulted() && key@[15] == 0 && namespace@[15] != 0
                ==> res == Err::<(), Error>(Error::NamespaceMalformed),
            !old(self).spec_faulted() && key@[15] == 0 && namespace@[15] == 0
                && !old(self).spec_tables().spec_namespaces().contains_key(namespace@)
                ==> res == Ok::<(), Error>(()),
            old(self).spec_faulted() || key@[15] != 0 || namespace@[15] != 0
                || !old(self).spec_tables().spec_namespaces().contains_key(namespace@)
                ==> final(self).spec_tables() == old(self).spec_tables()
                    && final(self).spec_hal() == old(self).spec_hal()
                    && final(self).spec_faulted() == old(self).spec_faulted(),
            !old(self).spec_faulted() && key@[15] == 0 && namespace@[15] == 0
                && old(self).spec_tables().spec_namespaces().contains_key(namespace@)
                ==> exists|h: &mut T, t: Tables, r: Result<(), Error>| {
                    &&& #[trigger] delete_key.ensures(
                        (h, old(self).spec_tables(), old(self).spec_tables().spec_namespaces()[namespace@], *key),
                        (t, r),
                    )
                    &&& final(self).spec_tables() == t
                    &&& *h == old(self).spec_hal()
                    &&& *final(h) == final(self).spec_hal()
                    &&& res == (if r == Err::<(), Error>(Error::KeyNotFound) { Ok(()) } else { r })
                    &&& final(self).spec_faulted() == is_flash_error(r)
                },
            final(self).same_partition(*old(self)),
    {
        proof {
            Key::lemma_len(*key);
            Key::lemma_len(*namespace);
        }
        if self.faulted {
            return Err(Error::FlashError);
        }
        if !key.is_nul_terminated() {
            return Err(Error::KeyMalformed);
        }
        if !namespace.is_nul_terminated() {
            return Err(Error::NamespaceMalformed);
        }
        let namespace_index: u8 = match self.tables.namespace_index(namespace) {
            Some(i) => i,
            None => return Ok(()),
        };
        let mut tables = Tables::empty();
        core::mem::swap(&mut tables, &mut self.tables);
        let (tables, outcome) = delete_key(&mut self.hal, tables, namespace_index, *key);
        self.tables = tables;
        match outcome {
            Err(Error::KeyNotFound) => Ok(()),
            Err(Error::FlashError) => {
                self.faulted = true;
                Err(Error::FlashError)
            },
            other => other,
        }
    }

    /// Whether a flash error was seen.
    pub fn is_faulted(&self) -> (b: bool)
        ensures
            b == self.spec_faulted(),
    {
        self.faulted
    }

    /// The number of sectors of the partition.
    pub fn sectors(&self) -> (n: u16)
        ensures
            n == self.spec_sectors(),
    {
        self.sectors
    }

    /// The flash address at which the partition starts.
    pub fn base_address(&self) -> (a: usize)
        ensures
            a == self.spec_base_address(),
    {
        self.base_address
    }

    /// The namespace and page tables.
    pub fn tables(&self) -> (t: &Tables)
        ensures
            *t == self.spec_tables(),
    {
        &self.tables
    }
}


/// The entry counts the statistics report for a page: all entries
/// illegal for a corrupt page, its own counts otherwise.
pub open spec fn page_entry_statistics(page: ThinPage) -> EntryStatistics {
    if page.spec_state() == ThinPageState::Corrupt {
        EntryStatistics { empty: 0, written: 0, erased: 0, illegal: ENTRIES_PER_PAGE }
    } else {
        let (empty, written, erased, illegal) = page.spec_entry_statistics();
        EntryStatistics { empty, written, erased, illegal }
    }
}

/// The entries counted in `e`, over all four states.
pub open spec fn entry_sum(e: EntryStatistics) -> int {
    e.empty + e.written + e.erased + e.illegal
}

/// How many of `pages` are in `state`.
pub open spec fn count_in_state(pages: Seq<ThinPage>, state: ThinPageState) -> nat
    decreases pages.len(),
{
    if pages.len() == 0 {
        0
    } else {
        count_in_state(pages.drop_last(), state) + (if pages.last().spec_state() == state {
            1nat
        } else {
            0nat
        })
    }
}

/// Empty, written, erased and illegal entries added up over `entries`.
pub open spec fn entry_totals(entries: Seq<EntryStatistics>) -> (nat, nat, nat, nat)
    decreases entries.len(),
{
    if entries.len() == 0 {
        (0, 0, 0, 0)
    } else {
        let (e, w, r, i) = entry_totals(entries.drop_last());
        let last = entries.last();
        (e + last.empty as nat, w + last.written as nat, r + last.erased as nat, i + last.illegal as nat)
    }
}

/// `stats` describes the pages `sorted`, taken in that order.
pub open spec fn describes(stats: NvsStatistics, sorted: Seq<ThinPage>) -> bool {
    &&& stats.entries_per_page@ == sorted.map_values(|p: ThinPage| page_entry_statistics(p))
    &&& stats.pages.empty == count_in_state(sorted, ThinPageState::Uninitialized)
    &&& stats.pages.active == count_in_state(sorted, ThinPageState::Active)
    &&& stats.pages.full == count_in_state(sorted, ThinPageState::Full)
    &&& stats.pages.erasing == count_in_state(sorted, ThinPageState::Freeing)
    &&& stats.pages.corrupted == count_in_state(sorted, ThinPageState::Corrupt) + count_in_state(
        sorted,
        ThinPageState::Invalid,
    )
    &&& entry_totals(stats.entries_per_page@) == (
        stats.entries_overall.empty as nat,
        stats.entries_overall.written as nat,
        stats.entries_overall.erased as nat,
        stats.entries_overall.illegal as nat,
    )
}

proof fn lemma_count_bound(pages: Seq<ThinPage>, state: ThinPageState)
    ensures
        count_in_state(pages, state) <= pages.len(),
    decreases pages.len(),
{
    if pages.len() > 0 {
        lemma_count_bound(pages.drop_last(), state);
    }
}

proof fn lemma_count_two_bound(pages: Seq<ThinPage>, a: ThinPageState, b: ThinPageState)
    requires
        a != b,
    ensures
        count_in_state(pages, a) + count_in_state(pages, b) <= pages.len(),
    decreases pages.len(),
{
    if pages.len() > 0 {
        lemma_count_two_bound(pages.drop_last(), a, b);
    }
}

impl<T> Nvs<T> {
    /// Returns detailed statistics about the NVS partition usage: refused
    /// with `FlashError` once the store is faulted; otherwise the pages in
    /// use and then the free pages, stably ordered by address, counted by
    /// state, with the entries of each page and of all pages.
    pub fn statistics(&mut self) -> (res: Result<NvsStatistics, Error>)
        ensures
            old(self).spec_faulted() ==> res == Err::<NvsStatistics, Error>(Error::FlashError),
            !old(self).spec_faulted() ==> res is Ok,
            res matches Ok(stats) ==> describes(stats, stable_by_address(old(self).spec_tables().all_pages())),
            res matches Ok(stats) ==> forall|k: int|
                0 <= k < stats.entries_per_page@.len() ==> #[trigger] entry_sum(stats.entries_per_page@[k]) == ENTRIES_PER_PAGE,
            res matches Ok(stats) ==> entry_sum(stats.entries_overall) == ENTRIES_PER_PAGE * stats.entries_per_page@.len(),
            res is Ok ==> sorted_by_address(stable_by_address(old(self).spec_tables().all_pages())),
            res is Ok ==> is_permutation(stable_by_address(old(self).spec_tables().all_pages()), old(self).spec_tables().all_pages()),
            *final(self) == *old(self),
    {
        if self.faulted {
            return Err(Error::FlashError);
        }
        let total: usize = self.tables.page_count();
        let sorted = sort_pages_by_address(&self.tables.pages, &self.tables.free_pages);
        proof {
            vstd::seq_lib::to_multiset_len(sorted@);
            vstd::seq_lib::to_multiset_len(self.tables.all_pages());
        }
        let n: usize = sorted.len();
        assert(n == total);
        let mut page_stats = PageStatistics { empty: 0, active: 0, full: 0, erasing: 0, corrupted: 0 };
        let mut entries_per_page: Vec<EntryStatistics> = Vec::new();
        let mut overall = EntryStatistics { empty: 0, written: 0, erased: 0, illegal: 0 };
        let mut i: usize = 0;
        while i < n
            invariant
                n == sorted@.len(),
                n <= MAX_PAGES,
                i <= n,
                page_stats.empty == count_in_state(sorted@.take(i as int), ThinPageState::Uninitialized),
                page_stats.active == count_in_state(sorted@.take(i as int), ThinPageState::Active),
                page_stats.full == count_in_state(sorted@.take(i as int), ThinPageState::Full),
                page_stats.erasing == count_in_state(sorted@.take(i as int), ThinPageState::Freeing),
                page_stats.corrupted == count_in_state(sorted@.take(i as int), ThinPageState::Corrupt)
                    + count_in_state(sorted@.take(i as int), ThinPageState::Invalid),
                entries_per_page@ == sorted@.take(i as int).map_values(|p: ThinPage| page_entry_statistics(p)),
                entry_totals(entries_per_page@) == (
                    overall.empty as nat,
                    overall.written as nat,
                    overall.erased as nat,
                    overall.illegal as nat,
                ),
                overall.empty + overall.written + overall.erased + overall.illegal == 126 * i,
                forall|k: int| 0 <= k < i ==> #[trigger] entry_sum(entries_per_page@[k]) == ENTRIES_PER_PAGE,
            decreases n - i,
        {
            let page = sorted[i];
            let ghost prefix = sorted@.take(i as int);
            let ghost next = sorted@.take(i + 1);
            proof {
                assert(next.drop_last() =~= prefix);
                assert(next.last() == page);
                lemma_count_bound(prefix, ThinPageState::Uninitialized);
                lemma_count_bound(prefix, ThinPageState::Active);
                lemma_count_bound(prefix, ThinPageState::Full);
                lemma_count_bound(prefix, ThinPageState::Freeing);
                lemma_count_two_bound(prefix, ThinPageState::Corrupt, ThinPageState::Invalid);
            }
            match page.get_state() {
                ThinPageState::Active => page_stats.active = page_stats.active + 1,
                ThinPageState::Full => page_stats.full = page_stats.full + 1,
                ThinPageState::Freeing => page_stats.erasing = page_stats.erasing + 1,
                ThinPageState::Corrupt => page_stats.corrupted = page_stats.corrupted + 1,
                ThinPageState::Invalid => page_stats.corrupted = page_stats.corrupted + 1,
                ThinPageState::Uninitialized => page_stats.empty = page_stats.empty + 1,
            }
            let entry = if *page.get_state() == ThinPageState::Corrupt {
                EntryStatistics { empty: 0, written: 0, erased: 0, illegal: ENTRIES_PER_PAGE }
            } else {
                let (empty, written, erased, illegal) = page.get_entry_statistics();
                EntryStatistics { empty, written, erased, illegal }
            };
            let ghost before = entries_per_page@;
            entries_per_page.push(entry);
            overall = EntryStatistics {
                empty: overall.empty + entry.empty,
                written: overall.written + entry.written,
                erased: overall.erased + entry.erased,
                illegal: overall.illegal + entry.illegal,
            };
            proof {
                assert(entries_per_page@.drop_last() =~= before);
                assert(entries_per_page@ =~= next.map_values(|p: ThinPage| page_entry_statistics(p)));
            }
            i = i + 1;
        }
        assert(sorted@.take(n as int) =~= sorted@);
        let stats = NvsStatistics { pages: page_stats, entries_per_page, entries_overall: overall };
        assert(describes(stats, sorted@));
        Ok(stats)
    }
}

/// The state indicator of one page for `state`.
pub open spec fn in_state(page: ThinPage, state: ThinPageState) -> nat {
    if page.spec_state() == state {
        1
    } else {
        0
    }
}

proof fn lemma_count_remove(pages: Seq<ThinPage>, j: int, state: ThinPageState)
    requires
        0 <= j < pages.len(),
    ensures
        count_in_state(pages, state) == count_in_state(pages.remove(j), state) + in_state(pages[j], state),
    decreases pages.len(),
{
    if j < pages.len() - 1 {
        lemma_count_remove(pages.drop_last(), j, state);
        assert(pages.remove(j).drop_last() =~= pages.drop_last().remove(j));
        assert(pages.remove(j).last() == pages.last());
    } else {
        assert(pages.remove(j) =~= pages.drop_last());
    }
}

/// How many pages are in a state depends only on which pages there are,
/// not on their order.
pub proof fn lemma_count_permutation(a: Seq<ThinPage>, b: Seq<ThinPage>, state: ThinPageState)
    requires
        a.to_multiset() == b.to_multiset(),
    ensures
        count_in_state(a, state) == count_in_state(b, state),
    decreases a.len(),
{
    broadcast use vstd::seq_lib::group_to_multiset_ensures;
    vstd::seq_lib::to_multiset_len(a);
    vstd::seq_lib::to_multiset_len(b);
    if a.len() > 0 {
        let x = a.last();
        assert(a.to_multiset().count(x) > 0) by {
            vstd::seq_lib::to_multiset_contains(a, x);
            assert(a.contains(x)) by {
                assert(a[a.len() - 1] == x);
            }
        }
        vstd::seq_lib::to_multiset_contains(b, x);
        let j = choose|j: int| 0 <= j < b.len() && b[j] == x;
        vstd::seq_lib::to_multiset_remove(b, j);
        vstd::seq_lib::to_multiset_remove(a, a.len() - 1);
        assert(a.remove(a.len() - 1) =~= a.drop_last());
        lemma_count_permutation(a.drop_last(), b.remove(j), state);
        lemma_count_remove(b, j, state);
    }
}

proof fn lemma_counts_add_up(pages: Seq<ThinPage>)
    ensures
        count_in_state(pages, ThinPageState::Uninitialized) + count_in_state(pages, ThinPageState::Active)
            + count_in_state(pages, ThinPageState::Full) + count_in_state(pages, ThinPageState::Freeing)
            + count_in_state(pages, ThinPageState::Corrupt) + count_in_state(pages, ThinPageState::Invalid)
            == pages.len(),
    decreases pages.len(),
{
    if pages.len() > 0 {
        lemma_counts_add_up(pages.drop_last());
    }
}

/// Statistics of the pages `all`, whatever order they were found in:
/// every page is counted once by its state, there is one line of entry
/// counts per page, and the page counts are those of `all` itself.
pub proof fn lemma_statistics_cover_all_pages(stats: NvsStatistics, sorted: Seq<ThinPage>, all: Seq<ThinPage>)
    requires
        describes(stats, sorted),
        is_permutation(sorted, all),
    ensures
        stats.pages.empty + stats.pages.active + stats.pages.full + stats.pages.erasing + stats.pages.corrupted == all.len(),
        stats.entries_per_page@.len() == all.len(),
        stats.pages.empty == count_in_state(all, ThinPageState::Uninitialized),
        stats.pages.active == count_in_state(all, ThinPageState::Active),
        stats.pages.full == count_in_state(all, ThinPageState::Full),
        stats.pages.erasing == count_in_state(all, ThinPageState::Freeing),
        stats.pages.corrupted == count_in_state(all, ThinPageState::Corrupt) + count_in_state(all, ThinPageState::Invalid),
{
    vstd::seq_lib::to_multiset_len(sorted);
    vstd::seq_lib::to_multiset_len(all);
    lemma_counts_add_up(sorted);
    lemma_count_permutation(sorted, all, ThinPageState::Uninitialized);
    lemma_count_permutation(sorted, all, ThinPageState::Active);
    lemma_count_permutation(sorted, all, ThinPageState::Full);
    lemma_count_permutation(sorted, all, ThinPageState::Freeing);
    lemma_count_permutation(sorted, all, ThinPageState::Corrupt);
    lemma_count_permutation(sorted, all, ThinPageState::Invalid);
}


/// Statistics are fixed by the pages they describe: two results for the
/// same pages are equal, so two calls on an unchanged store agree.
pub proof fn lemma_statistics_determined(a: NvsStatistics, b: NvsStatistics, sorted: Seq<ThinPage>)
    requires
        describes(a, sorted),
        describes(b, sorted),
    ensures
        a.pages == b.pages,
        a.entries_per_page@ == b.entries_per_page@,
        a.entries_overall == b.entries_overall,
{
}

/// Each page has its row in the statistics, at its place in `sorted`: a
/// page that is not corrupt reports its own empty, written, erased and
/// illegal counts, field for field; a corrupt page reports all its
/// entries as illegal.
pub proof fn lemma_statistics_rows(stats: NvsStatistics, sorted: Seq<ThinPage>)
    requires
        describes(stats, sorted),
    ensures
        stats.entries_per_page@.len() == sorted.len(),
        forall|k: int| 0 <= k < sorted.len() && sorted[k].spec_state() != ThinPageState::Corrupt ==> {
            &&& (#[trigger] stats.entries_per_page@[k]).empty == sorted[k].spec_entry_statistics().0
            &&& stats.entries_per_page@[k].written == sorted[k].spec_entry_statistics().1
            &&& stats.entries_per_page@[k].erased == sorted[k].spec_entry_statistics().2
            &&& stats.entries_per_page@[k].illegal == sorted[k].spec_entry_statistics().3
        },
        forall|k: int| 0 <= k < sorted.len() && sorted[k].spec_state() == ThinPageState::Corrupt ==> {
            &&& (#[trigger] stats.entries_per_page@[k]).empty == 0
            &&& stats.entries_per_page@[k].written == 0
            &&& stats.entries_per_page@[k].erased == 0
            &&& stats.entries_per_page@[k].illegal == ENTRIES_PER_PAGE
        },
{
}

proof fn lemma_count_is_filter(pages: Seq<ThinPage>, state: ThinPageState, pred: spec_fn(ThinPage) -> bool)
    requires
        forall|p: ThinPage| #[trigger] pred(p) == (p.spec_state() == state),
    ensures
        count_in_state(pages, state) == pages.filter(pred).len(),
    decreases pages.len(),
{
    reveal(Seq::filter);
    if pages.len() > 0 {
        lemma_count_is_filter(pages.drop_last(), state, pred);
        assert(pred(pages.last()) == (pages.last().spec_state() == state));
    }
}

proof fn lemma_count_two_is_filter(pages: Seq<ThinPage>, a: ThinPageState, b: ThinPageState, pred: spec_fn(ThinPage) -> bool)
    requires
        a != b,
        forall|p: ThinPage| #[trigger] pred(p) == (p.spec_state() == a || p.spec_state() == b),
    ensures
        count_in_state(pages, a) + count_in_state(pages, b) == pages.filter(pred).len(),
    decreases pages.len(),
{
    reveal(Seq::filter);
    if pages.len() > 0 {
        lemma_count_two_is_filter(pages.drop_last(), a, b, pred);
        assert(pred(pages.last()) == (pages.last().spec_state() == a || pages.last().spec_state() == b));
    }
}

/// The page counts of the statistics are the numbers of pages in each
/// state: empty pages are uninitialized ones, erasing pages are those
/// being freed, and corrupted pages are the corrupt and the invalid ones.
pub proof fn lemma_statistics_page_counts(stats: NvsStatistics, sorted: Seq<ThinPage>)
    requires
        describes(stats, sorted),
    ensures
        stats.pages.empty == sorted.filter(|p: ThinPage| p.spec_state() == ThinPageState::Uninitialized).len(),
        stats.pages.active == sorted.filter(|p: ThinPage| p.spec_state() == ThinPageState::Active).len(),
        stats.pages.full == sorted.filter(|p: ThinPage| p.spec_state() == ThinPageState::Full).len(),
        stats.pages.erasing == sorted.filter(|p: ThinPage| p.spec_state() == ThinPageState::Freeing).len(),
        stats.pages.corrupted == sorted.filter(
            |p: ThinPage| p.spec_state() == ThinPageState::Corrupt || p.spec_state() == ThinPageState::Invalid,
        ).len(),
{
    lemma_count_is_filter(sorted, ThinPageState::Uninitialized, |p: ThinPage| p.spec_state() == ThinPageState::Uninitialized);
    lemma_count_is_filter(sorted, ThinPageState::Active, |p: ThinPage| p.spec_state() == ThinPageState::Active);
    lemma_count_is_filter(sorted, ThinPageState::Full, |p: ThinPage| p.spec_state() == ThinPageState::Full);
    lemma_count_is_filter(sorted, ThinPageState::Freeing, |p: ThinPage| p.spec_state() == ThinPageState::Freeing);
    lemma_count_two_is_filter(
        sorted,
        ThinPageState::Corrupt,
        ThinPageState::Invalid,
        |p: ThinPage| p.spec_state() == ThinPageState::Corrupt || p.spec_state() == ThinPageState::Invalid,
    );
}

proof fn lemma_totals_are_sums(entries: Seq<EntryStatistics>)
    ensures
        entry_totals(entries).0 == entries.fold_left(0int, |acc: int, e: EntryStatistics| acc + e.empty),
        entry_totals(entries).1 == entries.fold_left(0int, |acc: int, e: EntryStatistics| acc + e.written),
        entry_totals(entries).2 == entries.fold_left(0int, |acc: int, e: EntryStatistics| acc + e.erased),
        entry_totals(entries).3 == entries.fold_left(0int, |acc: int, e: EntryStatistics| acc + e.illegal),
    decreases entries.len(),
{
    if entries.len() > 0 {
        lemma_totals_are_sums(entries.drop_last());
    }
}

/// The overall entry counts of the statistics are the sums, field by
/// field, of the rows of the pages: overall empty entries are the sum of
/// the rows' empty entries, and likewise written, erased and illegal.
pub proof fn lemma_statistics_overall(stats: NvsStatistics, sorted: Seq<ThinPage>)
    requires
        describes(stats, sorted),
    ensures
        stats.entries_overall.empty == stats.entries_per_page@.fold_left(0int, |acc: int, e: EntryStatistics| acc + e.empty),
        stats.entries_overall.written == stats.entries_per_page@.fold_left(0int, |acc: int, e: EntryStatistics| acc + e.written),
        stats.entries_overall.erased == stats.entries_per_page@.fold_left(0int, |acc: int, e: EntryStatistics| acc + e.erased),
        stats.entries_overall.illegal == stats.entries_per_page@.fold_left(0int, |acc: int, e: EntryStatistics| acc + e.illegal),
{
    lemma_totals_are_sums(stats.entries_per_page@);
}

/// A partition is accepted exactly when its offset and its size are whole
/// sectors of 4096 bytes and it has at most 65535 sectors; the answer is
/// then the number of sectors, whatever the offset. An offset that is not
/// whole sectors is refused as such before the size is looked at; a size
/// that is not whole sectors, or too many sectors, is refused as a size.
pub proof fn lemma_partition_geometry(offset: usize, size: usize)
    ensures
        offset % 4096 == 0 && size % 4096 == 0 && size / 4096 <= 65535 ==> partition_geometry(offset, size)
            == Ok::<u16, Error>((size / 4096) as u16),
        offset % 4096 != 0 ==> partition_geometry(offset, size) == Err::<u16, Error>(Error::InvalidPartitionOffset),
        offset % 4096 == 0 && (size % 4096 != 0 || size / 4096 > 65535) ==> partition_geometry(offset, size)
            == Err::<u16, Error>(Error::InvalidPartitionSize),
        partition_geometry(offset, size) matches Ok(n) ==> n as int * 4096 == size,
{
}

} // verus!
