//! Pre-allocated storage for values of one type, addressed by `usize` keys.
//!
//! Keys are split over pages whose sizes double: page `p` holds
//! `PAGE_INITIAL_SIZE << p` entries and its first key is the number of entries
//! in all pages before it. Freed entries of a page form a list threaded
//! through the vacant entries, so that the most recently freed slot is reused
//! first.
use vstd::prelude::*;

verus! {

use vstd::set_lib::*;
use vstd::arithmetic::power2::{pow2, lemma_pow2_unfold, lemma_pow2_strictly_increases, lemma2_to64, lemma_pow2_pos};
use vstd::std_specs::bits::{u64_leading_zeros, axiom_u64_leading_zeros};
use vstd::bits::lemma_u64_shr_is_div;

/// Number of pages of a slab.
pub const NUM_PAGES: usize = 26;
/// Number of slots of the first page; each next page has twice as many.
pub const PAGE_INITIAL_SIZE: usize = 64;
/// Every this many removals the slab tries to give back its last page.
pub const COMPACT_INTERVAL: u32 = 2048;

/// Number of slots of page `p`.
pub open spec fn page_capacity(p: int) -> int {
    64 * pow2(p as nat) as int
}

/// First key of page `p`: the slots of all pages before it.
pub open spec fn page_start(p: int) -> int {
    64 * pow2(p as nat) as int - 64
}

pub open spec fn page_of_from(key: int, i: int) -> int
    decreases 25 - i,
{
    if i >= 25 || key < page_start(i + 1) {
        i
    } else {
        page_of_from(key, i + 1)
    }
}

/// The page that holds `key`: the last page holds every key from its start on.
pub open spec fn page_of(key: int) -> int {
    page_of_from(key, 0)
}

pub proof fn lemma_page_geometry(i: int, j: int)
    requires
        0 <= i <= j,
    ensures
        page_start(i) <= page_start(j),
        i < j ==> page_start(i) < page_start(j),
        page_start(i + 1) == page_start(i) + page_capacity(i),
        page_capacity(i) >= 64,
        page_start(0) == 0,
{
    lemma2_to64();
    lemma_pow2_pos(i as nat);
    lemma_pow2_unfold((i + 1) as nat);
    if i < j {
        lemma_pow2_strictly_increases(i as nat, j as nat);
    }
}

/// Concrete sizes of the pages that a slab can hold.
pub proof fn lemma_page_bounds(p: int)
    requires
        0 <= p < 26,
    ensures
        page_capacity(p) <= 0x8000_0000,
        page_start(p + 1) <= 0xFFFF_FFC0,
        page_start(25) == 0x7FFF_FFC0,
        page_capacity(25) == 0x8000_0000,
{
    lemma2_to64();
    lemma_page_geometry(p, 25);
    lemma_page_geometry(p + 1, 26);
}

proof fn lemma_page_of_from(key: int, p: int, i: int)
    requires
        0 <= i <= p <= 25,
        page_start(p) <= key,
        p < 25 ==> key < page_start(p + 1),
    ensures
        page_of_from(key, i) == p,
    decreases p - i,
{
    if i < p {
        lemma_page_geometry(i + 1, p);
        lemma_page_of_from(key, p, i + 1);
    }
}

/// A key in the range of page `p` belongs to page `p`.
pub proof fn lemma_page_of(key: int, p: int)
    requires
        0 <= p <= 25,
        page_start(p) <= key,
        p < 25 ==> key < page_start(p + 1),
    ensures
        page_of(key) == p,
{
    lemma_page_of_from(key, p, 0);
}

proof fn lemma_bit_length(x: u64)
    ensures
        x < pow2((64 - u64_leading_zeros(x)) as nat),
        x > 0 ==> pow2((63 - u64_leading_zeros(x)) as nat) <= x,
    decreases x,
{
    axiom_u64_leading_zeros(x);
    reveal(u64_leading_zeros);
    if x == 0 {
        lemma2_to64();
    } else {
        let h = (x / 2) as u64;
        lemma_bit_length(h);
        axiom_u64_leading_zeros(h);
        let b = 64 - u64_leading_zeros(x);
        assert(u64_leading_zeros(x) == u64_leading_zeros(h) - 1);
        lemma_pow2_unfold(b as nat);
        if h == 0 {
            lemma2_to64();
        } else {
            lemma_pow2_unfold((b - 1) as nat);
        }
    }
}

/// The page that holds `key`.
pub fn getPageIndex(key: usize) -> (r: usize)
    ensures
        r < NUM_PAGES,
        r == page_of(key as int),
        page_start(r as int) <= key,
        r < NUM_PAGES - 1 ==> key < page_start(r as int + 1),
{
    let slot: u64 = (key as u64).saturating_add(64);
    let slot_shifted: u64 = slot >> 7u64;
    let zeros: u32 = slot_shifted.leading_zeros();
    proof {
        axiom_u64_leading_zeros(slot_shifted);
    }
    let bits: u32 = 64 - zeros;
    let r: usize = if bits < 25 {
        bits as usize
    } else {
        NUM_PAGES - 1
    };
    proof {
        lemma_u64_shr_is_div(slot, 7u64);
        lemma2_to64();
        lemma_bit_length(slot_shifted);
        let x = slot_shifted as int;
        assert(x == slot as int / 128);
        assert(x * 128 <= slot < x * 128 + 128);
        let b = bits as int;
        if x == 0 {
            assert(b == 0);
            lemma_page_geometry(0, 1);
        } else {
            assert(pow2((b - 1) as nat) <= x < pow2(b as nat));
            lemma_pow2_unfold(b as nat);
            if slot == u64::MAX {
                assert(x == 0x1FF_FFFF_FFFF_FFFF);
                if b < 25 {
                    lemma_pow2_strictly_increases(b as nat, 25);
                    assert(false);
                }
            }
            if b < 25 {
                assert(page_start(b) <= key);
                assert(key < page_start(b + 1));
            } else {
                if b > 25 {
                    lemma_pow2_strictly_increases(24, (b - 1) as nat);
                }
                assert(page_start(25) <= key);
            }
        }
        lemma_page_of(key as int, r as int);
    }
    r
}

/// One slot of a page.
pub enum PageEntry<T> {
    /// A free slot; holds the index of the next free slot of the page.
    Vacant(usize),
    /// A slot in use.
    Occupied(T),
}

impl<T> PageEntry<T> {
    pub fn as_ref(&self) -> (r: Option<&T>)
        ensures
            match self {
                PageEntry::Vacant(_) => r is None,
                PageEntry::Occupied(v) => r == Some(v),
            },
    {
        match self {
            PageEntry::Vacant(_) => None,
            PageEntry::Occupied(inner) => Some(inner),
        }
    }

    pub fn as_mut(&mut self) -> (r: Option<&mut T>)
        ensures
            *old(self) is Vacant ==> r is None && *final(self) == *old(self),
            *old(self) is Occupied ==> r is Some && *r.unwrap() == (*old(self))->Occupied_0
                && *final(self) == PageEntry::Occupied(*final(r.unwrap())),
    {
        match self {
            PageEntry::Vacant(_) => None,
            PageEntry::Occupied(inner) => Some(inner),
        }
    }

    pub fn is_vacant(&self) -> (r: bool)
        ensures
            r == self is Vacant,
    {
        match self {
            PageEntry::Vacant(_) => true,
            PageEntry::Occupied(_) => false,
        }
    }

    /// The value of an occupied slot.
    pub fn unwrap_unchecked(self) -> (r: T)
        requires
            self is Occupied,
        ensures
            r == self->Occupied_0,
    {
        match self {
            PageEntry::Occupied(inner) => inner,
            PageEntry::Vacant(_) => vstd::pervasive::unreached(),
        }
    }
}

/// What the contracts follow of a page slot of a slab: whether a page is
/// allocated there, how many values it holds, how many of its slots have
/// been used at least once (a prefix), and its free slots below that
/// prefix, most recently freed first.
pub struct PageState {
    pub allocated: bool,
    pub used: nat,
    pub init_len: nat,
    pub free_list: Seq<usize>,
}

/// A page slot with no page.
pub open spec fn unallocated_page() -> PageState {
    PageState { allocated: false, used: 0, init_len: 0, free_list: Seq::empty() }
}

/// The slot that the next allocation in a page takes: the most recently
/// freed one, or else the first slot never used.
pub open spec fn next_slot(st: PageState) -> int {
    if st.free_list.len() > 0 {
        st.free_list[0] as int
    } else {
        st.init_len as int
    }
}

/// A page slot after one allocation (a page is allocated if there was none).
pub open spec fn after_alloc(st: PageState) -> PageState {
    if st.free_list.len() > 0 {
        PageState { allocated: true, used: st.used + 1, free_list: st.free_list.drop_first(), ..st }
    } else {
        PageState { allocated: true, used: st.used + 1, init_len: st.init_len + 1, ..st }
    }
}

/// A page slot after its slot `slot` was freed.
pub open spec fn after_free(st: PageState, slot: usize) -> PageState {
    PageState { used: (st.used - 1) as nat, free_list: seq![slot].add(st.free_list), ..st }
}

/// A page: a run of slots of fixed capacity, of which a prefix has been used
/// at least once.
pub struct Page<T> {
    entries: Vec<PageEntry<T>>,
    capacity: usize,
    usedEntryCount: usize,
    nextWritableEntryIndex: usize,
    entryCountInPrevPages: usize,
    free_list: Ghost<Seq<usize>>,
}

impl<T> Page<T> {
    /// The slot that the free list leads to after its `i`-th element.
    pub closed spec fn free_link(&self, i: int) -> usize {
        if i + 1 < self.free_list@.len() {
            self.free_list@[i + 1]
        } else {
            self.entries.len()
        }
    }

    pub closed spec fn wf(&self) -> bool {
        let fl = self.free_list@;
        &&& self.entries.len() <= self.capacity
        &&& self.usedEntryCount + fl.len() == self.entries.len()
        &&& fl.no_duplicates()
        &&& forall|i: int| 0 <= i < fl.len() ==> #[trigger] fl[i] < self.entries.len()
        &&& forall|i: int|
            0 <= i < fl.len() ==> self.entries@[#[trigger] fl[i] as int] == PageEntry::<T>::Vacant(
                self.free_link(i),
            )
        &&& self.nextWritableEntryIndex == (if fl.len() > 0 {
            fl[0]
        } else {
            self.entries.len()
        })
        &&& forall|j: int|
            0 <= j < self.entries.len() && (#[trigger] self.entries@[j]) is Vacant
                ==> fl.contains(j as usize)
        &&& self.entryCountInPrevPages + self.capacity <= usize::MAX
    }

    /// The values held, by their index in the page.
    pub closed spec fn view(&self) -> Map<usize, T> {
        Map::new(
            |j: usize| j < self.entries.len() && self.entries@[j as int] is Occupied,
            |j: usize| self.entries@[j as int]->Occupied_0,
        )
    }

    pub closed spec fn spec_capacity(&self) -> nat {
        self.capacity as nat
    }

    /// The bookkeeping of the page.
    pub closed spec fn state(&self) -> PageState {
        PageState {
            allocated: true,
            used: self.usedEntryCount as nat,
            init_len: self.entries.len() as nat,
            free_list: self.free_list@,
        }
    }

    pub closed spec fn spec_prev(&self) -> nat {
        self.entryCountInPrevPages as nat
    }

    pub closed spec fn spec_used(&self) -> nat {
        self.usedEntryCount as nat
    }

    /// Every value is held at an index below the capacity, and the count of
    /// values is the used count.
    pub proof fn lemma_count(&self)
        requires
            self.wf(),
        ensures
            self@.dom().finite(),
            self@.dom().len() == self.spec_used(),
            self.spec_used() <= self.spec_capacity(),
            forall|j: usize| #[trigger] self@.dom().contains(j) ==> j < self.spec_capacity(),
    {
        let len = self.entries.len();
        let fl = self.free_list@;
        let range = Set::<usize>::range(0, len);
        let fs = fl.to_set();
        let dom = self@.dom();
        range_set_properties::<usize>(0, len);
        fl.unique_seq_to_set();
        assert(fs.subset_of(range)) by {
            assert forall|x: usize| fs.contains(x) implies range.contains(x) by {
                let i = choose|i: int| 0 <= i < fl.len() && fl[i] == x;
                assert(fl[i] < len);
            }
        }
        assert(dom.subset_of(range));
        lemma_len_subset(dom, range);
        lemma_len_subset(fs, range);
        assert(dom.disjoint(fs)) by {
            assert forall|x: usize| dom.contains(x) implies !fs.contains(x) by {
                if fs.contains(x) {
                    let i = choose|i: int| 0 <= i < fl.len() && fl[i] == x;
                    assert(self.entries@[fl[i] as int] is Vacant);
                }
            }
        }
        assert(dom + fs =~= range) by {
            assert forall|x: usize| range.contains(x) implies (dom + fs).contains(x) by {
                if !dom.contains(x) {
                    assert(self.entries@[x as int] is Vacant);
                }
            }
        }
        lemma_set_disjoint_lens(dom, fs);
    }

    /// Creates a page of `size` slots whose first key is `prev_len`.
    pub fn new(size: usize, prev_len: usize) -> (r: Self)
        requires
            prev_len + size <= usize::MAX,
        ensures
            r.wf(),
            r@ == Map::<usize, T>::empty(),
            r.spec_capacity() == size,
            r.spec_prev() == prev_len,
            r.spec_used() == 0,
            r.spec_next_slot() == 0,
            r.state() == (PageState { allocated: true, ..unallocated_page() }),
    {
        let r = Page {
            entries: Vec::new(),
            capacity: size,
            usedEntryCount: 0,
            nextWritableEntryIndex: 0,
            entryCountInPrevPages: prev_len,
            free_list: Ghost(Seq::empty()),
        };
        assert(r@ =~= Map::<usize, T>::empty());
        r
    }


    /// Puts `val` in a free slot: the head of the free list, or else the
    /// first slot never used. Gives the value back when the page is full.
    pub fn allocate(&mut self, val: T) -> (r: Result<usize, T>)
        requires
            old(self).wf(),
        ensures
            final(self).wf(),
            final(self).spec_capacity() == old(self).spec_capacity(),
            final(self).spec_prev() == old(self).spec_prev(),
            old(self).spec_used() < old(self).spec_capacity() <==> r is Ok,
            match r {
                Ok(i) => {
                    &&& i == old(self).spec_next_slot()
                    &&& i == next_slot(old(self).state())
                    &&& final(self).state() == after_alloc(old(self).state())
                    &&& i < old(self).spec_capacity()
                    &&& !old(self)@.dom().contains(i)
                    &&& final(self)@ == old(self)@.insert(i, val)
                    &&& final(self).spec_used() == old(self).spec_used() + 1
                },
                Err(v) => v == val && *final(self) == *old(self),
            },
    {
        let next = self.nextWritableEntryIndex;
        if self.usedEntryCount == self.capacity {
            return Err(val);
        }
        proof {
            self.lemma_count();
        }
        let ghost fl = self.free_list@;
        if next >= self.entries.len() {
            // the free list is empty: take the first slot never used
            self.entries.push(PageEntry::Occupied(val));
            self.nextWritableEntryIndex = next + 1;
            proof {
                assert(fl.len() == 0);
                assert(self.entries@ == old(self).entries@.push(PageEntry::Occupied(val)));
                assert forall|j: int|
                    0 <= j < self.entries.len() && (#[trigger] self.entries@[j]) is Vacant implies self.free_list@.contains(
                    j as usize,
                ) by {
                    assert(old(self).entries@[j] is Vacant);
                }
                assert(self@ =~= old(self)@.insert(next, val));
            }
        } else {
            // pop the head of the free list
            let mut slot = PageEntry::Occupied(val);
            std::mem::swap(&mut self.entries[next], &mut slot);
            proof {
                assert(fl.len() > 0);
                assert(old(self).entries@[fl[0] as int] == PageEntry::<T>::Vacant(old(self).free_link(0)));
            }
            match slot {
                PageEntry::Vacant(following) => {
                    self.nextWritableEntryIndex = following;
                },
                PageEntry::Occupied(_) => {
                    proof {
                        assert(false);
                    }
                },
            }
            proof {
                self.free_list@ = fl.drop_first();
                let nfl = self.free_list@;
                assert forall|i: int| 0 <= i < nfl.len() implies self.entries@[#[trigger] nfl[i] as int]
                    == PageEntry::<T>::Vacant(self.free_link(i)) by {
                    assert(nfl[i] == fl[i + 1]);
                    assert(fl[i + 1] != fl[0]);
                    assert(old(self).entries@[fl[i + 1] as int] == PageEntry::<T>::Vacant(
                        old(self).free_link(i + 1),
                    ));
                }
                assert forall|j: int|
                    0 <= j < self.entries.len() && (#[trigger] self.entries@[j]) is Vacant implies nfl.contains(
                    j as usize,
                ) by {
                    assert(j != next);
                    assert(old(self).entries@[j] is Vacant);
                    assert(fl.contains(j as usize));
                    let k = choose|k: int| 0 <= k < fl.len() && fl[k] == j as usize;
                    assert(k != 0);
                    assert(nfl[k - 1] == j as usize);
                }
                assert forall|i: int| 0 <= i < nfl.len() implies #[trigger] nfl[i] < self.entries.len() by {
                    assert(nfl[i] == fl[i + 1]);
                }
                assert(self@ =~= old(self)@.insert(next, val));
            }
        }
        self.usedEntryCount = self.usedEntryCount + 1;
        Ok(next)
    }

    /// The slot that the next successful `allocate` takes.
    pub closed spec fn spec_next_slot(&self) -> usize {
        self.nextWritableEntryIndex
    }

    /// The next slot is the one that the bookkeeping names.
    pub proof fn lemma_next_slot(&self)
        requires
            self.wf(),
        ensures
            self.spec_next_slot() == next_slot(self.state()),
            self.state().allocated,
            self.state().used == self.spec_used(),
    {
    }

    pub fn get(&self, slot: usize) -> (r: Option<&T>)
        requires
            self.wf(),
        ensures
            match r {
                Some(v) => self@.dom().contains(slot) && *v == self@[slot],
                None => !self@.dom().contains(slot),
            },
    {
        if slot >= self.entries.len() {
            return None;
        }
        self.entries[slot].as_ref()
    }

    pub fn get_mut(&mut self, slot: usize) -> (r: Option<&mut T>)
        requires
            old(self).wf(),
        ensures
            final(self).wf(),
            final(self).spec_capacity() == old(self).spec_capacity(),
            final(self).spec_prev() == old(self).spec_prev(),
            final(self).spec_used() == old(self).spec_used(),
            final(self).spec_next_slot() == old(self).spec_next_slot(),
            final(self).state() == old(self).state(),
            match r {
                Some(v) => {
                    &&& old(self)@.dom().contains(slot)
                    &&& *v == old(self)@[slot]
                    &&& final(self)@ == old(self)@.insert(slot, *final(v))
                },
                None => !old(self)@.dom().contains(slot) && final(self)@ == old(self)@,
            },
    {
        if slot >= self.entries.len() {
            return None;
        }
        self.entries[slot].as_mut()
    }

    /// Frees the slot `entryIndex` and gives back its value, if it held one.
    pub fn remove(&mut self, entryIndex: usize) -> (r: Option<T>)
        requires
            old(self).wf(),
        ensures
            final(self).wf(),
            final(self).spec_capacity() == old(self).spec_capacity(),
            final(self).spec_prev() == old(self).spec_prev(),
            final(self)@ == old(self)@.remove(entryIndex),
            match r {
                Some(v) => {
                    &&& old(self)@.dom().contains(entryIndex)
                    &&& v == old(self)@[entryIndex]
                    &&& final(self).spec_used() == old(self).spec_used() - 1
                    &&& final(self).spec_next_slot() == entryIndex
                    &&& final(self).state() == after_free(old(self).state(), entryIndex)
                },
                None => !old(self)@.dom().contains(entryIndex) && *final(self) == *old(self),
            },
    {
        if entryIndex >= self.entries.len() {
            proof {
                assert(old(self)@.remove(entryIndex) =~= old(self)@);
            }
            return None;
        }
        if self.entries[entryIndex].is_vacant() {
            proof {
                assert(old(self)@.remove(entryIndex) =~= old(self)@);
            }
            return None;
        }
        proof {
            self.lemma_count();
            assert(self@.dom().contains(entryIndex));
            vstd::set_lib::lemma_set_empty_equivalency_len(self@.dom());
        }
        let ghost fl = self.free_list@;
        let mut slot = PageEntry::Vacant(self.nextWritableEntryIndex);
        std::mem::swap(&mut self.entries[entryIndex], &mut slot);
        self.nextWritableEntryIndex = entryIndex;
        self.usedEntryCount = self.usedEntryCount - 1;
        proof {
            self.free_list@ = seq![entryIndex].add(fl);
            let nfl = self.free_list@;
            assert(!fl.contains(entryIndex)) by {
                if fl.contains(entryIndex) {
                    let k = choose|k: int| 0 <= k < fl.len() && fl[k] == entryIndex;
                    assert(old(self).entries@[fl[k] as int] is Vacant);
                }
            }
            assert(nfl.no_duplicates()) by {
                assert forall|a: int, b: int| 0 <= a < b < nfl.len() implies nfl[a] != nfl[b] by {
                    if a == 0 {
                        assert(nfl[b] == fl[b - 1]);
                    } else {
                        assert(nfl[a] == fl[a - 1] && nfl[b] == fl[b - 1]);
                    }
                }
            }
            assert forall|i: int| 0 <= i < nfl.len() implies #[trigger] nfl[i] < self.entries.len() by {
                if i > 0 {
                    assert(nfl[i] == fl[i - 1]);
                }
            }
            assert forall|i: int| 0 <= i < nfl.len() implies self.entries@[#[trigger] nfl[i] as int]
                == PageEntry::<T>::Vacant(self.free_link(i)) by {
                if i > 0 {
                    assert(nfl[i] == fl[i - 1]);
                    assert(fl[i - 1] != entryIndex);
                    assert(old(self).entries@[fl[i - 1] as int] == PageEntry::<T>::Vacant(
                        old(self).free_link(i - 1),
                    ));
                }
            }
            assert forall|j: int|
                0 <= j < self.entries.len() && (#[trigger] self.entries@[j]) is Vacant implies nfl.contains(
                j as usize,
            ) by {
                if j != entryIndex {
                    assert(old(self).entries@[j] is Vacant);
                    let k = choose|k: int| 0 <= k < fl.len() && fl[k] == j as usize;
                    assert(nfl[k + 1] == j as usize);
                } else {
                    assert(nfl[0] == entryIndex);
                }
            }
            assert(self@ =~= old(self)@.remove(entryIndex));
        }
        Some(slot.unwrap_unchecked())
    }

    pub fn is_empty(&self) -> (r: bool)
        requires
            self.wf(),
        ensures
            r == (self@.dom().len() == 0),
            r == (self.spec_used() == 0),
    {
        proof {
            self.lemma_count();
        }
        self.usedEntryCount == 0
    }

    pub fn is_full(&self) -> (r: bool)
        requires
            self.wf(),
        ensures
            r == (self@.dom().len() == self.spec_capacity()),
            r == (self.spec_used() == self.spec_capacity()),
    {
        proof {
            self.lemma_count();
        }
        self.usedEntryCount == self.capacity
    }
}

} // verus!

verus! {

/// The number of values held by a page slot of a slab.
pub open spec fn used_of<T>(page: Option<Page<T>>) -> nat {
    match page {
        Some(page) => page.spec_used(),
        None => 0,
    }
}

/// The number of values held by the first `n` page slots.
pub open spec fn used_upto<T>(pages: Seq<Option<Page<T>>>, n: int) -> nat
    decreases n,
{
    if n <= 0 {
        0
    } else {
        used_upto(pages, n - 1) + used_of(pages[n - 1])
    }
}

proof fn lemma_page_of_range(key: int, i: int)
    requires
        0 <= i <= 25,
    ensures
        i <= page_of_from(key, i) <= 25,
        page_start(i) <= key ==> page_start(page_of_from(key, i)) <= key,
        page_of_from(key, i) < 25 ==> key < page_start(page_of_from(key, i) + 1),
    decreases 25 - i,
{
    if i < 25 && key >= page_start(i + 1) {
        lemma_page_of_range(key, i + 1);
    }
}

/// Every key falls in the range of its page.
pub broadcast proof fn lemma_key_in_page(key: int)
    requires
        0 <= key,
    ensures
        0 <= #[trigger] page_of(key) <= 25,
        page_start(page_of(key)) <= key,
        page_of(key) < 25 ==> key < page_start(page_of(key) + 1),
{
    lemma_page_of_range(key, 0);
    lemma_page_geometry(0, 0);
}

/// Pre-allocated storage for values of one type.
pub struct Slab<T> {
    pages: Vec<Option<Page<T>>>,
    currentWritePageIndex: usize,
    generation: u32,
}

impl<T> Slab<T> {
    pub closed spec fn page_wf(&self, p: int) -> bool {
        match self.pages@[p] {
            None => true,
            Some(page) => {
                &&& page.wf()
                &&& page.spec_capacity() == page_capacity(p)
                &&& page.spec_prev() == page_start(p)
            },
        }
    }

    pub closed spec fn wf(&self) -> bool {
        &&& self.pages.len() == NUM_PAGES
        &&& self.currentWritePageIndex < NUM_PAGES
        &&& forall|p: int|
            #![trigger self.page_wf(p)]
            #![trigger self.pages@[p]]
            0 <= p < NUM_PAGES ==> self.page_wf(p)
    }

    /// The index of `key` inside its page.
    pub open spec fn local_index(key: usize) -> usize {
        (key - page_start(page_of(key as int))) as usize
    }

    pub closed spec fn has_key(&self, key: usize) -> bool {
        let p = page_of(key as int);
        &&& self.pages@[p] is Some
        &&& self.pages@[p]->Some_0@.dom().contains(Self::local_index(key))
    }

    /// The values held, by key.
    pub closed spec fn view(&self) -> Map<usize, T> {
        Map::new(
            |k: usize| self.has_key(k),
            |k: usize| self.pages@[page_of(k as int)]->Some_0@[Self::local_index(k)],
        )
    }

    /// The bookkeeping of page slot `p`.
    pub closed spec fn page_state(&self, p: int) -> PageState {
        match self.pages@[p] {
            Some(page) => page.state(),
            None => unallocated_page(),
        }
    }

    /// Whether page `p` has been allocated.
    pub open spec fn page_allocated(&self, p: int) -> bool {
        self.page_state(p).allocated
    }

    /// The last allocated page below `n`, or -1 when none is.
    pub open spec fn last_allocated_before(&self, n: int) -> int
        decreases n,
    {
        if n <= 0 {
            -1
        } else if self.page_allocated(n - 1) {
            n - 1
        } else {
            self.last_allocated_before(n - 1)
        }
    }

    proof fn lemma_last_allocated(&self, n: int)
        requires
            0 <= n <= NUM_PAGES,
        ensures
            -1 <= self.last_allocated_before(n) < n,
            self.last_allocated_before(n) >= 0 ==> self.page_allocated(self.last_allocated_before(n)),
        decreases n,
    {
        if n > 0 {
            self.lemma_last_allocated(n - 1);
        }
    }

    proof fn lemma_last_allocated_same(a: &Self, b: &Self, n: int)
        requires
            0 <= n <= NUM_PAGES,
            forall|q: int| 0 <= q < n ==> #[trigger] a.page_allocated(q) == b.page_allocated(q),
        ensures
            a.last_allocated_before(n) == b.last_allocated_before(n),
        decreases n,
    {
        if n > 0 {
            Self::lemma_last_allocated_same(a, b, n - 1);
        }
    }

    /// Number of removals seen, modulo 2^32.
    pub closed spec fn spec_generation(&self) -> u32 {
        self.generation
    }

    /// The page from which `insert` starts looking for a free slot.
    pub closed spec fn spec_current_page(&self) -> int {
        self.currentWritePageIndex as int
    }

    pub closed spec fn keys_upto(&self, n: int) -> Set<usize> {
        Set::new(|k: usize| page_of(k as int) < n && self.has_key(k))
    }

    proof fn lemma_page_keys(&self, p: int)
        requires
            self.wf(),
            0 <= p < NUM_PAGES,
        ensures
            self.keys_upto(p + 1) == self.keys_upto(p) + Set::new(
                |k: usize| page_of(k as int) == p && self.has_key(k),
            ),
            self.keys_upto(p).disjoint(
                Set::new(|k: usize| page_of(k as int) == p && self.has_key(k)),
            ),
            Set::new(|k: usize| page_of(k as int) == p && self.has_key(k)).finite(),
            Set::new(|k: usize| page_of(k as int) == p && self.has_key(k)).len() == used_of(
                self.pages@[p],
            ),
    {
        let pk = Set::new(|k: usize| page_of(k as int) == p && self.has_key(k));
        assert(self.keys_upto(p + 1) =~= self.keys_upto(p) + pk);
        assert(self.page_wf(p));
        match self.pages@[p] {
            None => {
                assert(pk =~= Set::empty());
            },
            Some(page) => {
                page.lemma_count();
                lemma_page_bounds(p);
                let start = page_start(p);
                let f = |j: usize| (j + start) as usize;
                let dom = page@.dom();
                assert forall|j: usize| #[trigger] dom.contains(j) implies page_of((j + start) as int) == p
                    && (j + start) <= usize::MAX by {
                    lemma_page_geometry(p, p);
                    lemma_page_of(j + start, p);
                }
                assert(dom.map(f) =~= pk) by {
                    assert forall|k: usize| pk.contains(k) implies dom.map(f).contains(k) by {
                        lemma_key_in_page(k as int);
                        let j = Self::local_index(k);
                        assert(dom.contains(j));
                        assert(f(j) == k);
                    }
                    assert forall|k: usize| dom.map(f).contains(k) implies pk.contains(k) by {
                        let j = choose|j: usize| dom.contains(j) && f(j) == k;
                        assert(page_of(k as int) == p);
                        assert(Self::local_index(k) == j);
                    }
                }
                assert(vstd::relations::injective_on(f, dom));
                lemma_map_size(dom, pk, f);
            },
        }
    }

    proof fn lemma_keys_upto(&self, n: int)
        requires
            self.wf(),
            0 <= n <= NUM_PAGES,
        ensures
            self.keys_upto(n).finite(),
            self.keys_upto(n).len() == used_upto(self.pages@, n),
        decreases n,
    {
        if n == 0 {
            assert(self.keys_upto(0) =~= Set::empty()) by {
                assert forall|k: usize| !self.keys_upto(0).contains(k) by {
                    lemma_page_of_range(k as int, 0);
                }
            }
        } else {
            self.lemma_keys_upto(n - 1);
            self.lemma_page_keys(n - 1);
            lemma_set_disjoint_lens(
                self.keys_upto(n - 1),
                Set::new(|k: usize| page_of(k as int) == n - 1 && self.has_key(k)),
            );
        }
    }

    /// The values held by a slab are finitely many.
    pub proof fn lemma_finite(&self)
        requires
            self.wf(),
        ensures
            self@.dom().finite(),
    {
        self.lemma_len();
    }

    /// The number of values held is the sum of the pages' used counts.
    proof fn lemma_len(&self)
        requires
            self.wf(),
        ensures
            self@.dom().finite(),
            self@.dom().len() == used_upto(self.pages@, NUM_PAGES as int),
    {
        self.lemma_keys_upto(NUM_PAGES as int);
        assert(self@.dom() =~= self.keys_upto(NUM_PAGES as int)) by {
            assert forall|k: usize| self@.dom().contains(k) implies page_of(k as int) < 26 by {
                lemma_page_of_range(k as int, 0);
            }
        }
    }

    proof fn lemma_used_bound(&self, n: int)
        requires
            self.wf(),
            0 <= n <= NUM_PAGES,
        ensures
            used_upto(self.pages@, n) <= page_start(n),
        decreases n,
    {
        if n > 0 {
            self.lemma_used_bound(n - 1);
            assert(self.page_wf(n - 1));
            match self.pages@[n - 1] {
                Some(page) => {
                    page.lemma_count();
                    assert(used_of(self.pages@[n - 1]) <= page_capacity(n - 1));
                },
                None => {},
            }
            lemma_page_geometry(n - 1, n);
            assert(used_upto(self.pages@, n) == used_upto(self.pages@, n - 1) + used_of(self.pages@[n - 1]));
        } else {
            lemma_page_geometry(0, 0);
        }
    }

    /// An empty slab.
    pub fn new() -> (r: Self)
        ensures
            r.wf(),
            r@ == Map::<usize, T>::empty(),
            r.spec_generation() == 0,
            r.spec_current_page() == 0,
            forall|p: int| 0 <= p < NUM_PAGES ==> #[trigger] r.page_state(p) == unallocated_page(),
            r.spec_next_key() == 0,
    {
        let mut pages: Vec<Option<Page<T>>> = Vec::new();
        let mut i: usize = 0;
        while i < NUM_PAGES
            invariant
                i <= NUM_PAGES,
                pages.len() == i,
                forall|p: int| 0 <= p < i ==> pages@[p] is None,
            decreases NUM_PAGES - i,
        {
            pages.push(None);
            i = i + 1;
        }
        let r = Slab { pages, currentWritePageIndex: 0, generation: 0 };
        assert(r@ =~= Map::<usize, T>::empty()) by {
            assert forall|k: usize| !r@.dom().contains(k) by {
                lemma_key_in_page(k as int);
            }
        }
        proof {
            lemma_page_geometry(0, 0);
        }
        r
    }

    /// The number of values held.
    pub fn len(&self) -> (r: usize)
        requires
            self.wf(),
        ensures
            self@.dom().finite(),
            r == self@.dom().len(),
    {
        let mut acc: usize = 0;
        let mut i: usize = 0;
        proof {
            self.lemma_len();
            lemma_page_bounds(25);
        }
        while i < NUM_PAGES
            invariant
                self.wf(),
                i <= NUM_PAGES,
                acc == used_upto(self.pages@, i as int),
            decreases NUM_PAGES - i,
        {
            proof {
                self.lemma_used_bound(i as int + 1);
                lemma_page_bounds(i as int);
                assert(self.page_wf(i as int));
            }
            match &self.pages[i] {
                Some(page) => {
                    acc = acc + page.usedEntryCount;
                },
                None => {},
            }
            i = i + 1;
        }
        acc
    }

    /// Number of values held by page `p`.
    pub open spec fn page_used(&self, p: int) -> nat {
        self.page_state(p).used
    }

    /// Page `p` is allocated and every slot of it holds a value.
    pub open spec fn page_full(&self, p: int) -> bool {
        self.page_allocated(p) && self.page_used(p) == page_capacity(p)
    }

    /// The last allocated page, or -1 when none is.
    pub open spec fn last_allocated_page(&self) -> int {
        self.last_allocated_before(NUM_PAGES as int)
    }

    /// Takes the value of page slot `p` out, leaving `None` there.
    fn take_page(&mut self, p: usize) -> (r: Option<Page<T>>)
        requires
            p < old(self).pages.len(),
        ensures
            r == old(self).pages@[p as int],
            final(self).pages@ == old(self).pages@.update(p as int, None),
            final(self).currentWritePageIndex == old(self).currentWritePageIndex,
            final(self).generation == old(self).generation,
    {
        let mut slot: Option<Page<T>> = None;
        std::mem::swap(&mut self.pages[p], &mut slot);
        slot
    }

    /// A key outside page `p` keeps its value when only page slot `p` changes.
    proof fn lemma_other_page(a: &Self, b: &Self, p: int, k: usize)
        requires
            a.pages.len() == NUM_PAGES,
            b.pages.len() == NUM_PAGES,
            0 <= p < NUM_PAGES,
            forall|q: int| 0 <= q < NUM_PAGES && q != p ==> b.pages@[q] == a.pages@[q],
            page_of(k as int) != p,
        ensures
            b@.dom().contains(k) == a@.dom().contains(k),
            a@.dom().contains(k) ==> b@[k] == a@[k],
    {
        lemma_key_in_page(k as int);
        assert(b.pages@[page_of(k as int)] == a.pages@[page_of(k as int)]);
    }

    /// The first page from `i` on that is not full (or not allocated).
    pub open spec fn first_open_page_from(&self, i: int) -> int
        decreases NUM_PAGES - i,
    {
        if i >= NUM_PAGES {
            NUM_PAGES as int
        } else if !self.page_full(i) {
            i
        } else {
            self.first_open_page_from(i + 1)
        }
    }

    /// The key that the next `insert` returns: the next free slot of the
    /// first page, from the page of the last insertion on, that is not full.
    pub open spec fn spec_next_key(&self) -> int {
        let p = self.first_open_page_from(self.spec_current_page());
        page_start(p) + next_slot(self.page_state(p))
    }

    /// The next key depends only on the pages and the page of the last insertion.
    proof fn lemma_same_next_key_at(a: &Self, b: &Self)
        requires
            a.pages@ == b.pages@,
        ensures
            a.currentWritePageIndex == b.currentWritePageIndex ==> a.first_open_page_from(a.currentWritePageIndex as int)
                == b.first_open_page_from(b.currentWritePageIndex as int),
    {
        if a.currentWritePageIndex == b.currentWritePageIndex {
            Self::lemma_same_open_page(a, b, a.currentWritePageIndex as int);
        }
    }

    proof fn lemma_same_open_page(a: &Self, b: &Self, i: int)
        requires
            a.pages@ == b.pages@,
        ensures
            a.first_open_page_from(i) == b.first_open_page_from(i),
        decreases NUM_PAGES - i,
    {
        if i < NUM_PAGES {
            Self::lemma_same_open_page(a, b, i + 1);
        }
    }

    /// Some page from the one of the last insertion on has a free slot (or
    /// is not allocated yet): `insert` finds a slot.
    pub open spec fn spec_has_free_slot(&self) -> bool {
        exists|q: int| self.spec_current_page() <= q < NUM_PAGES && !self.page_full(q)
    }

    /// Whether `insert` finds a free slot.
    pub fn has_free_slot(&self) -> (r: bool)
        requires
            self.wf(),
        ensures
            r == self.spec_has_free_slot(),
    {
        let mut q = self.currentWritePageIndex;
        while q < NUM_PAGES
            invariant
                self.wf(),
                self.currentWritePageIndex <= q <= NUM_PAGES,
                forall|i: int| self.currentWritePageIndex <= i < q ==> #[trigger] self.page_full(i),
            decreases NUM_PAGES - q,
        {
            proof {
                assert(self.page_wf(q as int));
            }
            let full = match &self.pages[q] {
                Some(page) => page.is_full(),
                None => false,
            };
            if !full {
                proof {
                    assert(!self.page_full(q as int));
                }
                return true;
            }
            q = q + 1;
        }
        false
    }

    /// A slab that holds fewer values than the last page has slots always
    /// has a free slot.
    pub proof fn lemma_free_slot(&self)
        requires
            self.wf(),
            self@.dom().len() < 0x8000_0000,
        ensures
            self.spec_has_free_slot(),
    {
        self.lemma_len();
        lemma_page_bounds(25);
        assert(used_upto(self.pages@, 26) == used_upto(self.pages@, 25) + used_of(self.pages@[25]));
        assert(!self.page_full(25));
    }

    /// What `insert` makes of `before`: `val` stored under `key`, which was
    /// free and is the key that `before` gives out next.
    pub open spec fn inserted(before: Self, after: Self, key: usize, val: T) -> bool {
        &&& after.wf()
        &&& !before@.dom().contains(key)
        &&& after@ == before@.insert(key, val)
        &&& key == before.spec_next_key()
    }

    /// What `remove` of `key` makes of `before`, with `r` its result: the key
    /// is gone and its value, if it had one, is `r`. Unless the removal was
    /// one that compacts, a freed key is the next one given out when it lies
    /// on the page of the last insertion, and a removal that finds nothing
    /// leaves the next key as it was.
    pub open spec fn removed(before: Self, after: Self, key: usize, r: Option<T>) -> bool {
        &&& after.wf()
        &&& after@ == before@.remove(key)
        &&& match r {
            Some(v) => before@.dom().contains(key) && v == before@[key],
            None => !before@.dom().contains(key),
        }
        &&& (r is Some && after.spec_generation() % COMPACT_INTERVAL != 0
            && before.spec_current_page() == page_of(key as int)
            ==> after.spec_next_key() == key)
        &&& (r is None && after.spec_generation() % COMPACT_INTERVAL != 0
            ==> after.spec_next_key() == before.spec_next_key())
    }

    /// Stores `val` and returns its key. Looks for a free slot from the page
    /// of the last insertion on, and allocates pages as needed.
    pub fn insert(&mut self, val: T) -> (r: usize)
        requires
            old(self).wf(),
            old(self).spec_has_free_slot(),
        ensures
            Self::inserted(*old(self), *final(self), r, val),
            final(self).spec_current_page() == old(self).first_open_page_from(
                old(self).spec_current_page(),
            ),
            final(self).spec_generation() == old(self).spec_generation(),
            final(self).page_state(final(self).spec_current_page()) == after_alloc(
                old(self).page_state(final(self).spec_current_page()),
            ),
            forall|q: int|
                0 <= q < NUM_PAGES && q != final(self).spec_current_page() ==> #[trigger] final(self).page_state(q)
                    == old(self).page_state(q),
            final(self)@.dom().finite(),
            final(self)@.dom().len() == old(self)@.dom().len() + 1,
    {
        let currentWritePageIndex = self.currentWritePageIndex;
        let mut writePageIndex = currentWritePageIndex;
        let mut value = val;
        while writePageIndex < NUM_PAGES
            invariant
                self.wf(),
                self@ == old(self)@,
                old(self).spec_has_free_slot(),
                forall|q: int| writePageIndex <= q < NUM_PAGES ==> #[trigger] self.pages@[q] == old(self).pages@[q],
                forall|q: int| 0 <= q < NUM_PAGES ==> #[trigger] self.page_state(q) == old(self).page_state(q),
                old(self).wf(),
                self.generation == old(self).generation,
                value == val,
                currentWritePageIndex < NUM_PAGES,
                currentWritePageIndex <= writePageIndex <= NUM_PAGES,
                forall|q: int|
                    currentWritePageIndex <= q < writePageIndex ==> #[trigger] old(self).page_full(q),
                currentWritePageIndex == old(self).currentWritePageIndex,
                old(self).first_open_page_from(currentWritePageIndex as int) == old(self).first_open_page_from(writePageIndex as int),
            decreases NUM_PAGES - writePageIndex,
        {
            let ghost before = *self;
            proof {
                assert(self.page_wf(writePageIndex as int));
                lemma_page_bounds(writePageIndex as int);
            }
            let slot = self.take_page(writePageIndex);
            let mut page = match slot {
                Some(page) => page,
                None => {
                    proof {
                        lemma2_to64();
                        vstd::bits::lemma_usize_shl_is_mul(64, writePageIndex);
                    }
                    let size = PAGE_INITIAL_SIZE << writePageIndex;
                    let page = Page::new(size, size - PAGE_INITIAL_SIZE);
                    proof {
                        assert(page.wf() && page@ == Map::<usize, T>::empty());
                    }
                    page
                },
            };
            let ghost page_before = page;
            let res = page.allocate(value);
            let prev = page.entryCountInPrevPages;
            self.pages.set(writePageIndex, Some(page));
            proof {
                let p = writePageIndex as int;
                assert(self.pages@ == before.pages@.update(p, self.pages@[p]));
                assert forall|q: int| 0 <= q < NUM_PAGES implies #[trigger] self.page_wf(q) by {
                    assert(before.page_wf(q));
                }
                assert(page_before@.dom().finite()) by {
                    page_before.lemma_count();
                }
            }
            match res {
                Ok(entryIndex) => {
                    self.currentWritePageIndex = writePageIndex;
                    proof {
                        let p = writePageIndex as int;
                        let key = entryIndex + prev;
                        lemma_page_geometry(p, p);
                        lemma_page_of(key, p);
                        assert(Self::local_index(key as usize) == entryIndex);
                        assert(old(self).pages@[p] == before.pages@[p]);
                        assert(!old(self).page_full(p)) by {
                            if before.pages@[p] is Some {
                                assert(before.pages@[p] == Some(page_before));
                            }
                        }
                        assert(old(self).first_open_page_from(p) == p);
                        assert(key == old(self).spec_next_key()) by {
                            if before.pages@[p] is Some {
                                assert(before.pages@[p] == Some(page_before));
                            }
                        }
                        assert(!old(self)@.dom().contains(key as usize)) by {
                            if before.pages@[p] is None {
                            } else {
                                assert(before.pages@[p] == Some(page_before));
                            }
                        }
                        assert(self@ =~= old(self)@.insert(key as usize, val)) by {
                            assert forall|k: usize| (#[trigger] self@.dom().contains(k)
                                == old(self)@.insert(key as usize, val).dom().contains(k))
                                && (self@.dom().contains(k) ==> self@[k] == old(self)@.insert(key as usize, val)[k]) by {
                                lemma_key_in_page(k as int);
                                if page_of(k as int) == p {
                                    if k != key {
                                        assert(Self::local_index(k) != entryIndex);
                                    }
                                } else {
                                    Self::lemma_other_page(&before, self, p, k);
                                }
                            }
                        }
                    }
                    proof {
                        self.lemma_len();
                        old(self).lemma_len();
                        assert forall|q: int|
                            0 <= q < NUM_PAGES && q != self.spec_current_page() implies #[trigger] self.page_state(q)
                                == old(self).page_state(q) by {
                            assert(self.pages@[q] == before.pages@[q]);
                            assert(before.page_state(q) == old(self).page_state(q));
                        }
                    }
                    return entryIndex + prev;
                },
                Err(v) => {
                    value = v;
                    proof {
                        assert(self@ =~= old(self)@) by {
                            assert forall|k: usize| (#[trigger] self@.dom().contains(k)
                                == old(self)@.dom().contains(k))
                                && (self@.dom().contains(k) ==> self@[k] == old(self)@[k]) by {
                                lemma_key_in_page(k as int);
                                if page_of(k as int) != writePageIndex as int {
                                    Self::lemma_other_page(&before, self, writePageIndex as int, k);
                                }
                            }
                        }
                        assert(self.page_used(writePageIndex as int) == page_capacity(writePageIndex as int));
                        assert(old(self).pages@[writePageIndex as int] == before.pages@[writePageIndex as int]);
                        assert(before.pages@[writePageIndex as int] is Some) by {
                            if before.pages@[writePageIndex as int] is None {
                                lemma_page_geometry(writePageIndex as int, writePageIndex as int);
                            }
                        }
                        assert(old(self).page_full(writePageIndex as int));
                        assert forall|q: int| 0 <= q < NUM_PAGES implies #[trigger] self.page_state(q) == old(self).page_state(q) by {
                            assert(before.page_state(q) == old(self).page_state(q));
                            if q != writePageIndex as int {
                                assert(self.pages@[q] == before.pages@[q]);
                            }
                        }
                        assert forall|q: int| writePageIndex + 1 <= q < NUM_PAGES implies #[trigger] self.pages@[q] == old(self).pages@[q] by {
                            assert(before.pages@[q] == old(self).pages@[q]);
                        }
                    }
                },
            }

            writePageIndex = writePageIndex + 1;
        }
        proof {
            let q = choose|q: int| old(self).currentWritePageIndex <= q < NUM_PAGES && !old(self).page_full(q);
            assert(old(self).page_full(q));
        }
        vstd::pervasive::unreached()
    }

    /// The value under `key`, if any.
    pub fn get(&self, key: usize) -> (r: Option<&T>)
        requires
            self.wf(),
        ensures
            match r {
                Some(v) => self@.dom().contains(key) && *v == self@[key],
                None => !self@.dom().contains(key),
            },
    {
        let pageIndex = getPageIndex(key);
        proof {
            assert(self.page_wf(pageIndex as int));
        }
        match &self.pages[pageIndex] {
            Some(page) => page.get(key - page.entryCountInPrevPages),
            None => None,
        }
    }

    /// A mutable reference to the value under `key`, if any.
    pub fn get_mut(&mut self, key: usize) -> (r: Option<&mut T>)
        requires
            old(self).wf(),
        ensures
            final(self).wf(),
            final(self).spec_generation() == old(self).spec_generation(),
            final(self).spec_current_page() == old(self).spec_current_page(),
            match r {
                Some(v) => {
                    &&& old(self)@.dom().contains(key)
                    &&& *v == old(self)@[key]
                    &&& final(self)@ == old(self)@.insert(key, *final(v))
                },
                None => !old(self)@.dom().contains(key) && final(self)@ == old(self)@,
            },
    {
        broadcast use lemma_key_in_page;

        let pageIndex = getPageIndex(key);
        proof {
            assert(self.page_wf(pageIndex as int));
        }
        if self.pages[pageIndex].is_none() {
            return None;
        }
        let page = self.page_mut(pageIndex);
        let prev = page.entryCountInPrevPages;
        page.get_mut(key - prev)
    }

    /// A mutable reference to the allocated page `p`.
    fn page_mut(&mut self, p: usize) -> (r: &mut Page<T>)
        requires
            p < old(self).pages.len(),
            old(self).pages@[p as int] is Some,
        ensures
            *r == old(self).pages@[p as int]->Some_0,
            final(self).pages@ == old(self).pages@.update(p as int, Some(*final(r))),
            final(self).currentWritePageIndex == old(self).currentWritePageIndex,
            final(self).generation == old(self).generation,
    {
        match &mut self.pages[p] {
            Some(page) => page,
            None => vstd::pervasive::unreached(),
        }
    }

    /// Page `q` holds no value exactly when no key of the slab lies in it.
    proof fn lemma_page_empty(&self, q: int)
        requires
            self.wf(),
            0 <= q < NUM_PAGES,
            self.pages@[q] is Some,
        ensures
            (self.page_used(q) == 0) == (forall|k: usize| #[trigger] self@.dom().contains(k) ==> page_of(k as int) != q),
    {
        broadcast use lemma_key_in_page;

        assert(self.page_wf(q));
        let page = self.pages@[q]->Some_0;
        page.lemma_count();
        lemma_page_bounds(q);
        if page.spec_used() == 0 {
            vstd::set_lib::lemma_set_empty_equivalency_len(page@.dom());
            assert forall|k: usize| #[trigger] self@.dom().contains(k) implies page_of(k as int) != q by {
                if page_of(k as int) == q {
                    assert(page@.dom().contains(Self::local_index(k)));
                }
            }
        } else {
            vstd::set_lib::lemma_set_empty_equivalency_len(page@.dom());
            let j = page@.dom().choose();
            assert(page@.dom().contains(j));
            let k = (j + page_start(q)) as usize;
            lemma_page_geometry(q, q);
            lemma_page_of(k as int, q);
            assert(Self::local_index(k) == j);
            assert(self@.dom().contains(k));
        }
    }

    /// Removes the value under `key` and gives it back, if there was one.
    pub fn remove(&mut self, key: usize) -> (r: Option<T>)
        requires
            old(self).wf(),
        ensures
            Self::removed(*old(self), *final(self), key, r),
            final(self)@.dom().finite(),
            final(self)@.dom().len() == (if r is Some {
                old(self)@.dom().len() - 1
            } else {
                old(self)@.dom().len() as int
            }),
            old(self).page_allocated(page_of(key as int)) ==> final(self).counted_removal(
                *old(self),
                |q: int| Self::state_after_removal(*old(self), key, r is Some, q),
            ),
            !old(self).page_allocated(page_of(key as int)) ==> *final(self) == *old(self),
    {
        let page_id = getPageIndex(key);
        proof {
            assert(self.page_wf(page_id as int));
        }
        if self.pages[page_id].is_none() {
            proof {
                assert(old(self)@.remove(key) =~= old(self)@);
                self.lemma_len();
            }
            return None;
        }
        let ghost before = *self;
        let slot = self.take_page(page_id);
        let mut page = slot.unwrap();
        let ghost page_before = page;
        let val = page.remove(key - page.entryCountInPrevPages);
        self.pages.set(page_id, Some(page));
        let ghost middle = *self;
        proof {
            let p = page_id as int;
            assert(self.pages@ == before.pages@.update(p, self.pages@[p]));
            assert forall|q: int| 0 <= q < NUM_PAGES implies #[trigger] self.page_wf(q) by {
                assert(before.page_wf(q));
            }
            assert(Self::local_index(key) == key - page_start(p));
            assert(self@ =~= old(self)@.remove(key)) by {
                assert forall|k: usize| (#[trigger] self@.dom().contains(k)
                    == old(self)@.remove(key).dom().contains(k))
                    && (self@.dom().contains(k) ==> self@[k] == old(self)@.remove(key)[k]) by {
                    lemma_key_in_page(k as int);
                    if page_of(k as int) == p {
                        if k != key {
                            assert(Self::local_index(k) != Self::local_index(key));
                        }
                    } else {
                        Self::lemma_other_page(&before, self, p, k);
                    }
                }
            }
            assert(forall|q: int| 0 <= q < NUM_PAGES ==> (#[trigger] self.page_allocated(q) == before.page_allocated(q)));
            assert(forall|q: int| 0 <= q < NUM_PAGES && q != p ==> #[trigger] self.pages@[q] == before.pages@[q]);
        }
        proof {
            let p = page_id as int;
            page_before.lemma_next_slot();
            assert forall|q: int| 0 <= q < NUM_PAGES implies #[trigger] middle.page_state(q)
                == Self::state_after_removal(*old(self), key, val is Some, q) by {
                if q != p {
                    assert(middle.pages@[q] == before.pages@[q]);
                }
            }
        }
        self.mark_remove();
        proof {
            assert forall|q: int| 0 <= q < NUM_PAGES implies (#[trigger] middle.page_allocated(q) == before.page_allocated(q)) by {
                if q != page_id as int {
                    assert(middle.pages@[q] == before.pages@[q]);
                }
            }
            Self::lemma_last_allocated_same(&middle, &before, 26);
            old(self).lemma_len();
            if val is None {
                assert(middle.pages@ =~= before.pages@);
                Self::lemma_same_next_key_at(&middle, &before);
            } else if self.spec_generation() % COMPACT_INTERVAL != 0 && old(self).spec_current_page() == page_of(key as int) {
                let p = page_id as int;
                assert(!middle.page_full(p));
                assert(middle.first_open_page_from(p) == p);
                assert(middle.spec_next_key() == key);
            }
        }
        val
    }

    /// Counting a removal when the slab was `prev`: the count of removals
    /// goes up by one, and every `COMPACT_INTERVAL` removals insertion
    /// starts over from the first page and the last allocated page is given
    /// back if it holds no value and is not the first page. `before(q)` is
    /// page slot `q` just before the count.
    pub open spec fn counted_removal(&self, prev: Self, before: spec_fn(int) -> PageState) -> bool {
        let g = prev.spec_generation().wrapping_add(1);
        let last = prev.last_allocated_page();
        &&& self.spec_generation() == g
        &&& self.spec_current_page() == (if g % COMPACT_INTERVAL == 0 {
            0
        } else {
            prev.spec_current_page()
        })
        &&& forall|q: int|
            0 <= q < NUM_PAGES ==> #[trigger] self.page_state(q) == (if g % COMPACT_INTERVAL == 0
                && q == last && q > 0 && before(q).used == 0 {
                unallocated_page()
            } else {
                before(q)
            })
    }

    /// Page slot `q` once `key` is removed from `prev`, `found` saying
    /// whether it held a value (before the removal is counted).
    pub open spec fn state_after_removal(prev: Self, key: usize, found: bool, q: int) -> PageState {
        if found && q == page_of(key as int) {
            after_free(prev.page_state(q), Self::local_index(key))
        } else {
            prev.page_state(q)
        }
    }

    /// Counts one removal. Every `COMPACT_INTERVAL` removals, insertion
    /// starts over from the first page, and the last allocated page is
    /// dropped if it is empty and is not the first page.
    pub fn mark_remove(&mut self)
        requires
            old(self).wf(),
        ensures
            final(self).wf(),
            final(self).counted_removal(*old(self), |q: int| old(self).page_state(q)),
            final(self)@ == old(self)@,
            final(self).spec_generation() == old(self).spec_generation().wrapping_add(1),
            final(self).spec_generation() % COMPACT_INTERVAL != 0 ==> final(self).spec_next_key()
                == old(self).spec_next_key(),
    {
        let ghost q = old(self).last_allocated_page();
        let ghost mut dropped = false;
        proof {
            old(self).lemma_last_allocated(NUM_PAGES as int);
        }
        self.generation = self.generation.wrapping_add(1);
        if self.generation % COMPACT_INTERVAL == 0 {
            self.currentWritePageIndex = 0;
            let mut pageIndex: usize = NUM_PAGES;
            let mut found = false;
            while pageIndex > 0 && !found
                invariant
                    0 <= pageIndex <= NUM_PAGES,
                    self.pages@ == old(self).pages@,
                    self.pages.len() == NUM_PAGES,
                    found ==> q == pageIndex,
                    !found ==> q == old(self).last_allocated_before(pageIndex as int),
                decreases pageIndex + (if found { 0int } else { 1int }),
            {
                if self.pages[pageIndex - 1].is_some() {
                    found = true;
                }
                pageIndex = pageIndex - 1;
            }
            if found {
                proof {
                    assert(old(self).page_wf(pageIndex as int));
                }
                let is_empty = match &self.pages[pageIndex] {
                    Some(page) => page.is_empty(),
                    None => false,
                };
                if is_empty && pageIndex > 0 {
                    self.pages.set(pageIndex, None);
                    proof {
                        dropped = true;
                    }
                }
            }
        }
        proof {
            let g = self.generation;
            assert(dropped ==> g % COMPACT_INTERVAL == 0 && q > 0 && old(self).page_used(q) == 0
                && self.pages@ == old(self).pages@.update(q, None));
            assert(!dropped ==> self.pages@ == old(self).pages@);
            assert(g % COMPACT_INTERVAL == 0 && q > 0 && old(self).page_used(q) == 0 ==> dropped);
            assert forall|p: int| 0 <= p < NUM_PAGES implies #[trigger] self.page_wf(p) by {
                assert(old(self).page_wf(p));
            }
            assert(self@ =~= old(self)@) by {
                assert forall|k: usize| (#[trigger] self@.dom().contains(k)
                    == old(self)@.dom().contains(k))
                    && (self@.dom().contains(k) ==> self@[k] == old(self)@[k]) by {
                    lemma_key_in_page(k as int);
                    if dropped && page_of(k as int) == q {
                        let page = old(self).pages@[q]->Some_0;
                        assert(old(self).page_wf(q));
                        page.lemma_count();
                        vstd::set_lib::lemma_set_empty_equivalency_len(page@.dom());
                        assert(!page@.dom().contains(Self::local_index(k)));
                    } else if dropped {
                        Self::lemma_other_page(old(self), self, q, k);
                    }
                }
            }
            if q >= 0 {
                old(self).lemma_page_empty(q);
            }
            assert forall|p: int| 0 <= p < NUM_PAGES implies #[trigger] self.page_state(p) == (if g
                % COMPACT_INTERVAL == 0 && p == q && p > 0 && old(self).page_state(p).used == 0 {
                unallocated_page()
            } else {
                old(self).page_state(p)
            }) by {
                if !(dropped && p == q) {
                    assert(self.pages@[p] == old(self).pages@[p]);
                }
            }
            if g % COMPACT_INTERVAL != 0 {
                assert(self.pages@ == old(self).pages@);
                assert(self.currentWritePageIndex == old(self).currentWritePageIndex);
                Self::lemma_same_next_key_at(old(self), self);
            }
        }
    }

}

} // verus!
