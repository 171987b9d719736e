//! Waker pages and the reference-counted references to them that the scheduler
//! hands out.
//!
//! A page lives in a `WakerPageTable`, at an address that is a nonzero multiple
//! of `WAKER_PAGE_SIZE`. A `WakerPageRef` holds such an address; cloning it
//! counts one more reference in the page, dropping it counts one fewer, and the
//! page is released when its last reference is dropped.

use vstd::prelude::*;

verus! {

/// Size in bytes of a waker page; pages are aligned to it.
pub const WAKER_PAGE_SIZE: usize = 64;
/// Number of futures that one page tracks (one bit each).
pub const WAKER_BIT_LENGTH: usize = 64;

/// The state of a waker page that the references act on: its reference count.
#[derive(Clone, Copy, Debug)]
pub struct WakerPage {
    pub refcount: u64,
}

impl WakerPage {
    /// Counts one more reference, wrapping at `u64::MAX`, and returns the count
    /// before the increment.
    pub fn refcount_inc(&mut self) -> (old_count: u64)
        ensures
            old_count == old(self).refcount,
            final(self).refcount == (if old(self).refcount == u64::MAX {
                0
            } else {
                old(self).refcount + 1
            }),
    {
        let old_count = self.refcount;
        self.refcount = self.refcount.wrapping_add(1);
        old_count
    }

    /// Counts one reference fewer and returns the count before the decrement;
    /// returns `None`, leaving the count at zero, when there is no reference.
    pub fn refcount_dec(&mut self) -> (r: Option<u64>)
        ensures
            old(self).refcount == 0 ==> r is None && final(self).refcount == 0,
            old(self).refcount > 0 ==> r == Some(old(self).refcount) && final(self).refcount
                == old(self).refcount - 1,
    {
        if self.refcount == 0 {
            None
        } else {
            let old_count = self.refcount;
            self.refcount = self.refcount - 1;
            Some(old_count)
        }
    }

    /// The number of references to the page.
    pub fn refcount(&self) -> (n: u64)
        ensures
            n == self.refcount,
    {
        self.refcount
    }

    /// Puts the page in its initial state: one reference.
    pub fn reset(&mut self)
        ensures
            final(self).refcount == 1,
    {
        self.refcount = 1;
    }
}

/// Address of the page in slot `i` of a table.
pub open spec fn slot_address(i: int) -> int {
    (i + 1) * WAKER_PAGE_SIZE as int
}

/// Slot of the page at address `a`.
pub open spec fn address_slot(a: int) -> int {
    a / WAKER_PAGE_SIZE as int - 1
}

/// Whether `a` is a valid page address: a nonzero multiple of the page size.
pub open spec fn is_page_address(a: int) -> bool {
    a > 0 && a % WAKER_PAGE_SIZE as int == 0
}

/// Largest number of slots a table may have, so that every byte address of
/// every page fits in a `usize`.
pub open spec fn max_slots() -> int {
    usize::MAX as int / WAKER_PAGE_SIZE as int - 2
}

/// The memory that waker pages are allocated from.
pub struct WakerPageTable {
    slots: Vec<Option<WakerPage>>,
}

impl View for WakerPageTable {
    type V = Map<usize, u64>;

    /// The live pages: for each address, its reference count.
    closed spec fn view(&self) -> Map<usize, u64> {
        Map::new(
            |a: usize|
                is_page_address(a as int) && address_slot(a as int) < self.slots@.len()
                    && self.slots@[address_slot(a as int)] is Some,
            |a: usize| self.slots@[address_slot(a as int)].unwrap().refcount,
        )
    }
}

impl WakerPageTable {
    /// The table is small enough for every address of every page to fit in a
    /// `usize`.
    pub closed spec fn wf(&self) -> bool {
        self.slots@.len() <= max_slots()
    }

    /// Number of slots, live or free.
    pub closed spec fn spec_slots(&self) -> nat {
        self.slots@.len()
    }

    /// An empty table.
    pub fn new() -> (t: WakerPageTable)
        ensures
            t.view() == Map::<usize, u64>::empty(),
            t.spec_slots() == 0,
            t.wf(),
    {
        let t = WakerPageTable { slots: Vec::new() };
        assert(t.view() =~= Map::<usize, u64>::empty());
        t
    }

    /// Slot of a page address, if the address is a valid one within the table.
    fn slot_of(&self, addr: usize) -> (r: Option<usize>)
        ensures
            r matches Some(i) ==> i as int == address_slot(addr as int) && i < self.slots@.len()
                && is_page_address(addr as int),
            r is None ==> !self.view().contains_key(addr),
    {
        if addr == 0 || addr % WAKER_PAGE_SIZE != 0 {
            return None;
        }
        let i = addr / WAKER_PAGE_SIZE - 1;
        if i < self.slots.len() {
            Some(i)
        } else {
            None
        }
    }

    /// Whether a live page is at address `addr`.
    pub fn contains(&self, addr: usize) -> (b: bool)
        ensures
            b == self.view().contains_key(addr),
    {
        match self.slot_of(addr) {
            Some(i) => self.slots[i].is_some(),
            None => false,
        }
    }

    /// The page at address `addr`.
    pub fn page(&self, addr: usize) -> (p: &WakerPage)
        requires
            self.view().contains_key(addr),
        ensures
            p.refcount == self.view()[addr],
    {
        let i = addr / WAKER_PAGE_SIZE - 1;
        match &self.slots[i] {
            Some(p) => p,
            None => vstd::pervasive::unreached(),
        }
    }

    /// A live page of a table that is `wf` has a page address, and all its
    /// byte addresses fit in a `usize`.
    pub proof fn lemma_live_page(&self, addr: usize)
        requires
            self.wf(),
            self.view().contains_key(addr),
        ensures
            is_page_address(addr as int),
            addr as int + WAKER_PAGE_SIZE as int <= usize::MAX as int,
    {
    }

    /// Two page addresses in the table are equal when their slots are.
    proof fn lemma_slot_address(a: usize, i: int)
        requires
            is_page_address(a as int),
            address_slot(a as int) == i,
        ensures
            a as int == slot_address(i),
    {
    }

    /// Counts one more reference to the page at `addr` and returns the count
    /// before the increment.
    pub fn refcount_inc(&mut self, addr: usize) -> (old_count: u64)
        requires
            old(self).view().contains_key(addr),
            old(self).view()[addr] < u64::MAX,
        ensures
            final(self).wf() == old(self).wf(),
            old_count == old(self).view()[addr],
            final(self).view() == old(self).view().insert(addr, (old_count + 1) as u64),
            final(self).spec_slots() == old(self).spec_slots(),
    {
        let i = addr / WAKER_PAGE_SIZE - 1;
        let mut page = match self.slots[i] {
            Some(p) => p,
            None => vstd::pervasive::unreached(),
        };
        let old_count = page.refcount_inc();
        self.slots.set(i, Some(page));
        proof {
            assert forall|a: usize| #[trigger] self.view().contains_key(a) == old(self).view().insert(
                addr,
                (old_count + 1) as u64,
            ).contains_key(a) by {
                if is_page_address(a as int) && address_slot(a as int) == i {
                    Self::lemma_slot_address(a, i as int);
                    Self::lemma_slot_address(addr, i as int);
                }
            }
            assert(self.view() =~= old(self).view().insert(addr, (old_count + 1) as u64));
        }
        old_count
    }

    /// Counts one reference fewer to the page at `addr` and returns the count
    /// before the decrement, or `None` when the page has no reference left. The
    /// page stays in the table, even at zero references.
    pub fn refcount_dec(&mut self, addr: usize) -> (r: Option<u64>)
        requires
            old(self).view().contains_key(addr),
        ensures
            final(self).wf() == old(self).wf(),
            old(self).view()[addr] == 0 ==> r is None && final(self).view() == old(self).view(),
            old(self).view()[addr] > 0 ==> r == Some(old(self).view()[addr]) && final(self).view()
                == old(self).view().insert(addr, (old(self).view()[addr] - 1) as u64),
            final(self).spec_slots() == old(self).spec_slots(),
    {
        let i = addr / WAKER_PAGE_SIZE - 1;
        let mut page = match self.slots[i] {
            Some(p) => p,
            None => vstd::pervasive::unreached(),
        };
        let r = page.refcount_dec();
        self.slots.set(i, Some(page));
        proof {
            assert forall|a: usize| #[trigger] self.view().contains_key(a) == old(self).view().contains_key(a)
                by {
                if is_page_address(a as int) && address_slot(a as int) == i {
                    Self::lemma_slot_address(a, i as int);
                    Self::lemma_slot_address(addr, i as int);
                }
            }
            if r is Some {
                assert(self.view() =~= old(self).view().insert(addr, page.refcount));
            } else {
                assert(self.view() =~= old(self).view());
            }
        }
        r
    }

    /// Releases the page at `addr`.
    pub fn deallocate(&mut self, addr: usize)
        requires
            old(self).view().contains_key(addr),
        ensures
            final(self).wf() == old(self).wf(),
            final(self).view() == old(self).view().remove(addr),
            final(self).spec_slots() == old(self).spec_slots(),
    {
        let i = addr / WAKER_PAGE_SIZE - 1;
        self.slots.set(i, None);
        proof {
            assert forall|a: usize| #[trigger] self.view().contains_key(a) == old(self).view().remove(
                addr,
            ).contains_key(a) by {
                if is_page_address(a as int) && address_slot(a as int) == i {
                    Self::lemma_slot_address(a, i as int);
                    Self::lemma_slot_address(addr, i as int);
                }
            }
            assert(self.view() =~= old(self).view().remove(addr));
        }
    }

    /// Allocates a page in its initial state (one reference) at a page address
    /// that holds no live page, and returns that address. A free slot is reused
    /// when there is one; otherwise the table grows by one slot, which requires
    /// room for it.
    pub fn allocate(&mut self) -> (addr: usize)
        requires
            old(self).wf(),
            old(self).spec_slots() < max_slots() || exists|a: usize|
                is_page_address(a as int) && address_slot(a as int) < old(self).spec_slots()
                    && !old(self).view().contains_key(a),
        ensures
            final(self).wf(),
            is_page_address(addr as int),
            !old(self).view().contains_key(addr),
            final(self).view() == old(self).view().insert(addr, 1),
            addr as int + WAKER_PAGE_SIZE as int <= usize::MAX as int,
    {
        let mut page = WakerPage { refcount: 0 };
        page.reset();
        let n = self.slots.len();
        let mut i: usize = 0;
        while i < n
            invariant
                n == self.slots@.len(),
                self.slots@ == old(self).slots@,
                i <= n,
                forall|j: int| 0 <= j < i ==> #[trigger] self.slots@[j] is Some,
            ensures
                i <= n,
                self.slots@ == old(self).slots@,
                forall|j: int| 0 <= j < i ==> #[trigger] self.slots@[j] is Some,
                i < n ==> self.slots@[i as int] is None,
            decreases n - i,
        {
            if self.slots[i].is_none() {
                break;
            }
            i = i + 1;
        }
        if i == n {
            proof {
                if !(n < max_slots()) {
                    let a = choose|a: usize|
                        is_page_address(a as int) && address_slot(a as int) < old(self).spec_slots()
                            && !old(self).view().contains_key(a);
                    assert(self.slots@[address_slot(a as int)] is Some);
                }
            }
            self.slots.push(Some(page));
        } else {
            self.slots.set(i, Some(page));
        }
        let addr: usize = (i + 1) * WAKER_PAGE_SIZE;
        proof {
            assert(address_slot(addr as int) == i);
            assert(i < n ==> old(self).slots@[i as int] is None);
            assert forall|a: usize| #[trigger] self.view().contains_key(a) == old(self).view().insert(
                addr,
                1,
            ).contains_key(a) by {
                if is_page_address(a as int) && address_slot(a as int) == i {
                    Self::lemma_slot_address(a, i as int);
                }
            }
            assert(self.view() =~= old(self).view().insert(addr, 1));
        }
        addr
    }
}

/// The pages after one more reference to the page at `a` is counted.
pub open spec fn after_clone(pages: Map<usize, u64>, a: usize) -> Map<usize, u64> {
    pages.insert(a, (pages[a] + 1) as u64)
}

/// The pages after one reference to the page at `a` is dropped: the page is
/// released when that was its last reference.
pub open spec fn after_drop(pages: Map<usize, u64>, a: usize) -> Map<usize, u64> {
    if pages[a] == 1 {
        pages.remove(a)
    } else {
        pages.insert(a, (pages[a] - 1) as u64)
    }
}

/// A reference to a waker page: the page's address in a `WakerPageTable`.
pub struct WakerPageRef(usize);

impl WakerPageRef {
    /// Address of the referenced page.
    pub closed spec fn spec_addr(&self) -> usize {
        self.0
    }

    /// A reference to the page at address `page`, which must not be null. The
    /// reference count of the page is not changed.
    pub fn new(page: usize) -> (r: WakerPageRef)
        requires
            page != 0,
        ensures
            r.spec_addr() == page,
    {
        WakerPageRef(page)
    }

    /// Address of the referenced page.
    pub fn addr(&self) -> (a: usize)
        ensures
            a == self.spec_addr(),
    {
        self.0
    }

    /// Counts one more reference to the page and returns the raw waker
    /// reference for slot `ix` of the page: the page's address plus `ix`.
    /// Because pages are aligned to their size and `ix` is below the number of
    /// slots, the page address and the slot are recovered from the raw reference
    /// by masking off its low bits or keeping only them.
    pub fn as_raw_waker_ref(&self, pages: &mut WakerPageTable, ix: usize) -> (r: usize)
        requires
            ix < WAKER_BIT_LENGTH,
            old(pages).wf(),
            old(pages).view().contains_key(self.spec_addr()),
            old(pages).view()[self.spec_addr()] < u64::MAX,
        ensures
            final(pages).wf(),
            final(pages).view() == after_clone(old(pages).view(), self.spec_addr()),
            r as int == self.spec_addr() + ix,
            r & !((WAKER_PAGE_SIZE - 1) as usize) == self.spec_addr(),
            r & ((WAKER_PAGE_SIZE - 1) as usize) == ix,
    {
        proof {
            pages.lemma_live_page(self.0);
        }
        // One more reference is counted for the raw waker reference.
        let _old_refcount = pages.refcount_inc(self.0);
        let r: usize = self.0 + ix;
        proof {
            lemma_raw_waker_ref_decodes(self.0, ix);
        }
        r
    }

    /// A new reference to the same page, counted in the page.
    pub fn clone(&self, pages: &mut WakerPageTable) -> (r: WakerPageRef)
        requires
            old(pages).view().contains_key(self.spec_addr()),
            old(pages).view()[self.spec_addr()] < u64::MAX,
        ensures
            r.spec_addr() == self.spec_addr(),
            final(pages).view() == after_clone(old(pages).view(), self.spec_addr()),
            final(pages).wf() == old(pages).wf(),
    {
        let _old_refcount = pages.refcount_inc(self.0);
        WakerPageRef(self.0)
    }

    /// Drops this reference: the page's count goes down by one, and the page is
    /// released when this was its last reference. A page with no reference
    /// left is never dropped from (that would be a double free).
    pub fn drop(self, pages: &mut WakerPageTable)
        requires
            old(pages).view().contains_key(self.spec_addr()),
            old(pages).view()[self.spec_addr()] > 0,
        ensures
            final(pages).view() == after_drop(old(pages).view(), self.spec_addr()),
            final(pages).wf() == old(pages).wf(),
    {
        match pages.refcount_dec(self.0) {
            Some(1) => {
                pages.deallocate(self.0);
                assert(pages.view() =~= old(pages).view().remove(self.0));
            },
            Some(_) => {},
            None => {},
        }
    }

    /// The referenced page.
    pub fn deref<'a>(&self, pages: &'a WakerPageTable) -> (p: &'a WakerPage)
        requires
            pages.view().contains_key(self.spec_addr()),
        ensures
            p.refcount == pages.view()[self.spec_addr()],
    {
        pages.page(self.0)
    }

    /// The number of references to the referenced page.
    pub fn refcount(&self, pages: &WakerPageTable) -> (n: u64)
        requires
            pages.view().contains_key(self.spec_addr()),
        ensures
            n == pages.view()[self.spec_addr()],
    {
        self.deref(pages).refcount()
    }

    /// Allocates a new page in its initial state and returns the one reference
    /// to it.
    pub fn default(pages: &mut WakerPageTable) -> (r: WakerPageRef)
        requires
            old(pages).wf(),
            old(pages).spec_slots() < max_slots() || exists|a: usize|
                is_page_address(a as int) && address_slot(a as int) < old(pages).spec_slots()
                    && !old(pages).view().contains_key(a),
        ensures
            !old(pages).view().contains_key(r.spec_addr()),
            final(pages).view() == old(pages).view().insert(r.spec_addr(), 1),
            final(pages).wf(),
    {
        let addr = pages.allocate();
        WakerPageRef(addr)
    }
}

/// A raw waker reference, the address of a page aligned to the page size plus
/// a slot number below it, gives back the page address when its low bits are
/// masked off and the slot when only they are kept.
pub proof fn lemma_raw_waker_ref_decodes(page: usize, ix: usize)
    requires
        page as int % WAKER_PAGE_SIZE as int == 0,
        ix < WAKER_BIT_LENGTH,
        page as int + ix <= usize::MAX as int,
    ensures
        ((page + ix) as usize) & !((WAKER_PAGE_SIZE - 1) as usize) == page,
        ((page + ix) as usize) & ((WAKER_PAGE_SIZE - 1) as usize) == ix,
{
    assert(page % 64 == 0 && ix < 64 ==> ((page + ix) as usize) & !63usize == page
        && ((page + ix) as usize) & 63usize == ix) by (bit_vector);
}

/// Cloning a reference and then dropping the clone leaves every page's count
/// as it was, for any page that holds at least one reference.
pub proof fn lemma_clone_then_drop(pages: Map<usize, u64>, a: usize)
    requires
        pages.contains_key(a),
        1 <= pages[a] < u64::MAX,
    ensures
        after_drop(after_clone(pages, a), a) == pages,
{
    assert(after_drop(after_clone(pages, a), a) =~= pages);
}

} // verus!
