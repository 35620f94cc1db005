//! What the store keeps in memory about each flash page.
use vstd::prelude::*;
use vstd::seq_lib::*;

verus! {

/// Number of entries in a page.
pub const ENTRIES_PER_PAGE: u32 = 126;

/// Size of a flash sector, which is also the size of a page.
pub const FLASH_SECTOR_SIZE: usize = 4096;

/// The state recorded in a page header.
#[derive(Debug, Clone, Copy, PartialEq, Eq, Structural)]
pub enum ThinPageState {
    Uninitialized,
    Active,
    Full,
    Freeing,
    Corrupt,
    Invalid,
}

/// A page as the store tracks it: its flash address, its state, and how
/// many of its entries are empty, written, erased and illegal.
#[derive(Debug, Clone, Copy)]
pub struct ThinPage {
    address: usize,
    state: ThinPageState,
    empty: u32,
    written: u32,
    erased: u32,
    illegal: u32,
}

impl ThinPage {
    /// Every entry of the page is in exactly one of the four states.
    #[verifier::type_invariant]
    spec fn counts_cover_page(self) -> bool {
        self.empty + self.written + self.erased + self.illegal == ENTRIES_PER_PAGE
    }

    pub closed spec fn spec_address(self) -> usize {
        self.address
    }

    pub closed spec fn spec_state(self) -> ThinPageState {
        self.state
    }

    /// Empty, written, erased and illegal entries, in that order.
    pub closed spec fn spec_entry_statistics(self) -> (u32, u32, u32, u32) {
        (self.empty, self.written, self.erased, self.illegal)
    }

    /// A page record; the counts must cover the entries of one page.
    pub fn new(address: usize, state: ThinPageState, empty: u32, written: u32, erased: u32, illegal: u32) -> (page: ThinPage)
        requires
            empty + written + erased + illegal == ENTRIES_PER_PAGE,
        ensures
            page.spec_address() == address,
            page.spec_state() == state,
            page.spec_entry_statistics() == (empty, written, erased, illegal),
    {
        ThinPage { address, state, empty, written, erased, illegal }
    }

    pub fn address(&self) -> (a: usize)
        ensures
            a == self.spec_address(),
    {
        self.address
    }

    pub fn get_state(&self) -> (s: &ThinPageState)
        ensures
            *s == self.spec_state(),
    {
        &self.state
    }

    /// Empty, written, erased and illegal entries, in that order.
    pub fn get_entry_statistics(&self) -> (stats: (u32, u32, u32, u32))
        ensures
            stats == self.spec_entry_statistics(),
            stats.0 + stats.1 + stats.2 + stats.3 == ENTRIES_PER_PAGE,
    {
        proof {
            use_type_invariant(self);
        }
        (self.empty, self.written, self.erased, self.illegal)
    }
}

/// Addresses never decrease along the sequence.
pub open spec fn sorted_by_address(pages: Seq<ThinPage>) -> bool {
    forall|i: int, j: int|
        0 <= i < j < pages.len() ==> #[trigger] pages[i].spec_address() <= #[trigger] pages[j].spec_address()
}

/// A sequence holding the same pages as `pages`, each as often.
pub open spec fn is_permutation(a: Seq<ThinPage>, b: Seq<ThinPage>) -> bool {
    a.to_multiset() == b.to_multiset()
}

/// `page` placed into `pages` after every page whose address is not
/// larger than its own, and before the others that follow them.
pub open spec fn placed_by_address(pages: Seq<ThinPage>, page: ThinPage) -> Seq<ThinPage>
    decreases pages.len(),
{
    if pages.len() == 0 {
        seq![page]
    } else if pages.last().spec_address() <= page.spec_address() {
        pages.push(page)
    } else {
        placed_by_address(pages.drop_last(), page).push(pages.last())
    }
}

/// The pages ordered by address, where pages of equal address keep the
/// order they have in `pages` (a stable sort by address).
pub open spec fn stable_by_address(pages: Seq<ThinPage>) -> Seq<ThinPage>
    decreases pages.len(),
{
    if pages.len() == 0 {
        Seq::empty()
    } else {
        placed_by_address(stable_by_address(pages.drop_last()), pages.last())
    }
}

/// Pages already in address order keep their order: in particular pages
/// of equal address stay in the order they came in.
pub proof fn lemma_sorted_pages_stay(pages: Seq<ThinPage>)
    requires
        sorted_by_address(pages),
    ensures
        stable_by_address(pages) == pages,
    decreases pages.len(),
{
    if pages.len() > 0 {
        let rest = pages.drop_last();
        assert(sorted_by_address(rest)) by {
            assert forall|i: int, j: int| 0 <= i < j < rest.len() implies #[trigger] rest[i].spec_address()
                <= #[trigger] rest[j].spec_address() by {
                assert(pages[i].spec_address() <= pages[j].spec_address());
            }
        }
        lemma_sorted_pages_stay(rest);
        if rest.len() > 0 {
            assert(pages[rest.len() - 1].spec_address() <= pages[pages.len() - 1].spec_address());
        } else {
            assert(pages =~= seq![pages.last()]);
        }
        assert(rest.push(pages.last()) =~= pages);
    }
}

/// In a sorted sequence, inserting at the first position whose address is
/// larger is placing by address.
proof fn lemma_insert_is_placed(pages: Seq<ThinPage>, page: ThinPage, p: int)
    requires
        sorted_by_address(pages),
        0 <= p <= pages.len(),
        forall|k: int| 0 <= k < p ==> #[trigger] pages[k].spec_address() <= page.spec_address(),
        p < pages.len() ==> pages[p].spec_address() > page.spec_address(),
    ensures
        pages.insert(p, page) == placed_by_address(pages, page),
    decreases pages.len(),
{
    if pages.len() == 0 {
        assert(pages.insert(p, page) =~= seq![page]);
    } else if pages.last().spec_address() <= page.spec_address() {
        if p < pages.len() {
            assert(pages[p].spec_address() <= pages[pages.len() - 1].spec_address());
        }
        assert(pages.insert(p, page) =~= pages.push(page));
    } else {
        let rest = pages.drop_last();
        if p == pages.len() {
            assert(pages[pages.len() - 1].spec_address() <= page.spec_address());
        }
        assert forall|a: int, b: int| 0 <= a < b < rest.len() implies
            #[trigger] rest[a].spec_address() <= #[trigger] rest[b].spec_address() by {
            assert(pages[a].spec_address() <= pages[b].spec_address());
        }
        lemma_insert_is_placed(rest, page, p);
        assert(pages.insert(p, page) =~= rest.insert(p, page).push(pages.last()));
    }
}

/// Inserts `page` into `out` after every page whose address is not larger.
fn insert_by_address(out: &mut Vec<ThinPage>, page: ThinPage)
    requires
        sorted_by_address(old(out)@),
    ensures
        sorted_by_address(final(out)@),
        final(out)@.to_multiset() == old(out)@.to_multiset().insert(page),
        final(out)@ == placed_by_address(old(out)@, page),
{
    let mut j: usize = 0;
    while j < out.len() && out[j].address() <= page.address()
        invariant
            j <= out@.len(),
            forall|k: int| 0 <= k < j ==> #[trigger] out@[k].spec_address() <= page.spec_address(),
        decreases out@.len() - j,
    {
        j = j + 1;
    }
    let ghost before = out@;
    out.insert(j, page);
    proof {
        lemma_insert_is_placed(before, page, j as int);
        to_multiset_insert(before, j as int, page);
        assert forall|a: int, b: int| 0 <= a < b < out@.len() implies
            #[trigger] out@[a].spec_address() <= #[trigger] out@[b].spec_address() by {
            if b < j {
                assert(out@[a] == before[a] && out@[b] == before[b]);
            } else if b == j {
                assert(out@[a] == before[a]);
            } else if a == j {
                assert(out@[b] == before[b - 1]);
                if j < before.len() {
                    assert(before[j as int].spec_address() > page.spec_address());
                    if b - 1 > j {
                        assert(before[j as int].spec_address() <= before[b - 1].spec_address());
                    }
                }
            } else if a < j {
                assert(out@[a] == before[a] && out@[b] == before[b - 1]);
                if a < b - 1 {
                    assert(before[a].spec_address() <= before[b - 1].spec_address());
                } else {
                    assert(a == j - 1 || a < j);
                }
            } else {
                assert(out@[a] == before[a - 1] && out@[b] == before[b - 1]);
            }
        }
    }
}

/// The pages of `first` and then of `second`, ordered by address; pages
/// with equal addresses keep that order.
pub fn sort_pages_by_address(first: &Vec<ThinPage>, second: &Vec<ThinPage>) -> (sorted: Vec<ThinPage>)
    ensures
        sorted@ == stable_by_address(first@ + second@),
        sorted_by_address(sorted@),
        is_permutation(sorted@, first@ + second@),
{
    let mut out: Vec<ThinPage> = Vec::new();
    let ghost all = first@ + second@;
    let mut i: usize = 0;
    assert(out@ =~= first@.take(0));
    while i < first.len()
        invariant
            i <= first@.len(),
            sorted_by_address(out@),
            out@.to_multiset() == first@.take(i as int).to_multiset(),
            out@ == stable_by_address(first@.take(i as int)),
        decreases first@.len() - i,
    {
        insert_by_address(&mut out, first[i]);
        proof {
            assert(first@.take(i + 1) =~= first@.take(i as int).push(first@[i as int]));
            assert(first@.take(i + 1).drop_last() =~= first@.take(i as int));
            to_multiset_build(first@.take(i as int), first@[i as int]);
        }
        i = i + 1;
    }
    assert(first@.take(i as int) =~= first@);
    assert(second@.take(0) =~= Seq::<ThinPage>::empty());
    assert(first@ + second@.take(0) =~= first@);
    let mut k: usize = 0;
    while k < second.len()
        invariant
            k <= second@.len(),
            sorted_by_address(out@),
            out@.to_multiset() == (first@ + second@.take(k as int)).to_multiset(),
            out@ == stable_by_address(first@ + second@.take(k as int)),
        decreases second@.len() - k,
    {
        insert_by_address(&mut out, second[k]);
        proof {
            assert(first@ + second@.take(k + 1) =~= (first@ + second@.take(k as int)).push(second@[k as int]));
            assert((first@ + second@.take(k + 1)).drop_last() =~= first@ + second@.take(k as int));
            to_multiset_build(first@ + second@.take(k as int), second@[k as int]);
        }
        k = k + 1;
    }
    assert(second@.take(k as int) =~= second@);
    assert(first@ + second@.take(k as int) =~= first@ + second@);
    out
}

} // verus!
