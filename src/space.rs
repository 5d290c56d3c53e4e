//! The demand-paged user address space behind pointer validation.
//!
//! Areas are mapped lazily: a page of an area is only committed when a
//! validation asks for it, and stays committed afterwards. Memory contents
//! are kept per address: each address holds the last value stored there (a
//! word, or a byte of a string), and one that was never written reads as
//! zero, as a freshly committed page does.
use vstd::prelude::*;

verus! {

/// The size of a page, in bytes.
pub const PAGE_SIZE: usize = 4096;

/// Relies on `memory_addr::align_down_4k`: the greatest multiple of the page
/// size that is not above `addr`.
#[verifier::external_body]
fn align_down_4k(addr: usize) -> (r: usize)
    ensures
        r as int == page_base(addr as int),
{
    memory_addr::align_down_4k(addr)
}

/// The base address of the page that holds `addr`.
pub open spec fn page_base(addr: int) -> int {
    addr - addr % (PAGE_SIZE as int)
}

/// The last byte (exclusive) of the span `[start, end)`; an empty span is
/// taken as the single byte at `start`.
pub open spec fn span_end(start: int, end: int) -> int {
    if end > start {
        end
    } else {
        start + 1
    }
}

/// `page` is the base of a page that the span `[start, end)` touches.
pub open spec fn in_span(page: int, start: int, end: int) -> bool {
    page % (PAGE_SIZE as int) == 0 && page_base(start) <= page && page < span_end(start, end)
}

/// An aligned address below the next page boundary after another aligned
/// address is at most that address.
proof fn lemma_aligned_below(q: int, p: int)
    requires
        q % (PAGE_SIZE as int) == 0,
        p % (PAGE_SIZE as int) == 0,
        q < p + PAGE_SIZE,
    ensures
        q <= p,
{
    let a = q / 4096;
    let b = p / 4096;
    assert(q == 4096 * a && p == 4096 * b);
    assert(a <= b) by (nonlinear_arith)
        requires
            q == 4096 * a,
            p == 4096 * b,
            q < p + 4096,
    ;
}

/// A lazily mapped area `[start, end)` of the address space.
#[derive(Clone, Copy, Debug, PartialEq, Eq, Structural)]
pub struct Area {
    pub start: usize,
    pub end: usize,
}

/// A user address space: its mapped areas, its committed pages and the
/// contents of the words that were written.
pub struct AddressSpace {
    areas: Vec<Area>,
    pages: Vec<usize>,
    words: Vec<(usize, u64)>,
}

impl AddressSpace {
    /// The mapped areas.
    pub closed spec fn areas(self) -> Seq<Area> {
        self.areas@
    }

    /// The committed pages, in the order they were committed.
    pub closed spec fn page_list(self) -> Seq<usize> {
        self.pages@
    }

    /// The page with base address `page` is committed.
    pub closed spec fn present(self, page: int) -> bool {
        self.pages@.contains(page as usize) && 0 <= page <= usize::MAX
    }

    /// The word stored at `addr`: the last value written there, or zero.
    pub closed spec fn word(self, addr: int) -> u64 {
        if exists|i: int| 0 <= i < self.words@.len() && self.words@[i].0 == addr {
            let i = choose|i: int| 0 <= i < self.words@.len() && self.words@[i].0 == addr;
            self.words@[i].1
        } else {
            0
        }
    }

    /// Word addresses are stored once each.
    pub closed spec fn wf(self) -> bool {
        forall|i: int, j: int|
            0 <= i < self.words@.len() && 0 <= j < self.words@.len() && i != j
                ==> self.words@[i].0 != self.words@[j].0
    }

    /// One mapped area holds every byte of the span `[start, end)`.
    pub open spec fn covers(self, start: int, end: int) -> bool {
        exists|i: int|
            0 <= i < self.areas().len() && self.areas()[i].start <= start && start
                < self.areas()[i].end && span_end(start, end) <= self.areas()[i].end
    }

    /// `next` is `self` with every page of the span `[start, end)` committed,
    /// and nothing else changed.
    pub open spec fn committed(self, next: Self, start: int, end: int) -> bool {
        &&& next.areas() == self.areas()
        &&& forall|a: int| next.word(a) == self.word(a)
        &&& forall|p: int| next.present(p) == (self.present(p) || in_span(p, start, end))
    }

    /// `next` holds the same areas, pages and words as `self`.
    pub open spec fn same(self, next: Self) -> bool {
        &&& next.areas() == self.areas()
        &&& forall|a: int| next.word(a) == self.word(a)
        &&& forall|p: int| next.present(p) == self.present(p)
    }

    /// What validating `[start, end)` on `self` with outcome `ok` leaves as
    /// `next`: success exactly when one area holds the span, every page of the
    /// span committed on success, nothing touched on failure, and no page
    /// committed again when the span was already present.
    pub open spec fn validation(self, next: Self, start: int, end: int, ok: bool) -> bool {
        &&& ok == self.covers(start, end)
        &&& ok ==> self.committed(next, start, end)
        &&& !ok ==> self.same(next)
        &&& (forall|p: int| in_span(p, start, end) ==> self.present(p)) ==> next.page_list()
            == self.page_list()
    }

    /// An empty address space: no area, no page, no word written.
    pub fn new() -> (r: Self)
        ensures
            r.wf(),
            r.areas() == Seq::<Area>::empty(),
            forall|p: int| !r.present(p),
            forall|a: int| r.word(a) == 0,
    {
        AddressSpace { areas: Vec::new(), pages: Vec::new(), words: Vec::new() }
    }

    /// Maps the area `[start, end)` lazily: none of its pages is committed.
    pub fn map_area(&mut self, start: usize, end: usize)
        requires
            old(self).wf(),
        ensures
            final(self).wf(),
            final(self).areas() == old(self).areas().push(Area { start, end }),
            forall|p: int| final(self).present(p) == old(self).present(p),
            forall|a: int| final(self).word(a) == old(self).word(a),
    {
        self.areas.push(Area { start, end });
        assert(self.words@ == old(self).words@);
    }

    /// Whether the page with base address `page` is committed.
    pub fn is_present(&self, page: usize) -> (r: bool)
        ensures
            r == self.present(page as int),
    {
        let mut i: usize = 0;
        while i < self.pages.len()
            invariant
                i <= self.pages@.len(),
                forall|j: int| 0 <= j < i ==> self.pages@[j] != page,
            decreases self.pages@.len() - i,
        {
            if self.pages[i] == page {
                return true;
            }
            i = i + 1;
        }
        false
    }

    /// The number of committed pages.
    pub fn page_count(&self) -> (r: usize)
        ensures
            r == self.page_list().len(),
    {
        self.pages.len()
    }

    /// Whether one mapped area holds every byte of `[start, end)`.
    fn find_area(&self, start: usize, end: usize) -> (r: bool)
        ensures
            r == self.covers(start as int, end as int),
    {
        let mut i: usize = 0;
        while i < self.areas.len()
            invariant
                i <= self.areas@.len(),
                forall|j: int|
                    0 <= j < i ==> !(self.areas@[j].start <= start && start < self.areas@[j].end
                        && span_end(start as int, end as int) <= self.areas@[j].end),
            decreases self.areas@.len() - i,
        {
            let a = self.areas[i];
            if a.start <= start && start < a.end && (end <= start || end <= a.end) {
                assert(self.areas()[i as int] == a);
                assert(span_end(start as int, end as int) <= a.end);
                return true;
            }
            i = i + 1;
        }
        false
    }

    /// Checks that one mapped area holds the span `[start, end)` and commits
    /// each of its pages that is not committed yet. An empty span stands for
    /// the single byte at `start`. On failure nothing changes.
    pub fn ensure_present(&mut self, start: usize, end: usize) -> (r: bool)
        requires
            old(self).wf(),
        ensures
            final(self).wf(),
            old(self).validation(*final(self), start as int, end as int, r),
    {
        if !self.find_area(start, end) {
            return false;
        }
        let last: usize = if end > start { end } else { start + 1 };
        let mut p: usize = align_down_4k(start);
        let mut done = false;
        let ghost old_pages = self.pages@;
        while !done
            invariant
                self.wf(),
                self.areas@ == old(self).areas@,
                self.words@ == old(self).words@,
                last as int == span_end(start as int, end as int),
                p as int % (PAGE_SIZE as int) == 0,
                page_base(start as int) <= p < last,
                done ==> last - p <= PAGE_SIZE,
                self.pages@.len() >= old_pages.len(),
                old_pages == old(self).pages@,
                forall|q: int|
                    0 <= q <= usize::MAX ==> (#[trigger] self.pages@.contains(q as usize) == (
                    old_pages.contains(q as usize) || (in_span(q, start as int, end as int) && (
                    done || q < p)))),
                (forall|q: int| in_span(q, start as int, end as int) ==> old(self).present(q))
                    ==> self.pages@ == old_pages,
            decreases last - p + (if done { 0int } else { 1int }),
        {
            let ghost before = self.pages@;
            assert(in_span(p as int, start as int, end as int));
            if !self.is_present(p) {
                self.pages.push(p);
                assert forall|q: int|
                    0 <= q <= usize::MAX implies (#[trigger] self.pages@.contains(q as usize) == (
                    before.contains(q as usize) || q == p)) by {
                    if before.contains(q as usize) {
                        let k = choose|k: int| 0 <= k < before.len() && before[k] == q as usize;
                        assert(self.pages@[k] == q as usize);
                    }
                    if q == p {
                        assert(self.pages@[before.len() as int] == p);
                    }
                }
            }
            assert forall|q: int| in_span(q, start as int, end as int) && q < p + PAGE_SIZE implies q
                <= p by {
                lemma_aligned_below(q, p as int);
            }
            if last - p <= PAGE_SIZE {
                done = true;
            } else {
                p = p + PAGE_SIZE;
            }
        }
        assert forall|q: int| in_span(q, start as int, end as int) implies q < p + PAGE_SIZE by {}
        true
    }

    /// The index of the entry of `addr` among the written words.
    fn word_index(&self, addr: usize) -> (r: Option<usize>)
        ensures
            match r {
                Some(i) => i < self.words@.len() && self.words@[i as int].0 == addr,
                None => forall|i: int| 0 <= i < self.words@.len() ==> self.words@[i].0 != addr,
            },
    {
        let mut i: usize = 0;
        while i < self.words.len()
            invariant
                i <= self.words@.len(),
                forall|j: int| 0 <= j < i ==> self.words@[j].0 != addr,
            decreases self.words@.len() - i,
        {
            if self.words[i].0 == addr {
                return Some(i);
            }
            i = i + 1;
        }
        None
    }

    /// The word stored at `addr`.
    pub fn read_word(&self, addr: usize) -> (r: u64)
        requires
            self.wf(),
        ensures
            r == self.word(addr as int),
    {
        match self.word_index(addr) {
            Some(i) => self.words[i].1,
            None => 0,
        }
    }

    /// Stores `value` at `addr`.
    pub fn write_word(&mut self, addr: usize, value: u64)
        requires
            old(self).wf(),
        ensures
            final(self).wf(),
            final(self).areas() == old(self).areas(),
            final(self).page_list() == old(self).page_list(),
            forall|p: int| final(self).present(p) == old(self).present(p),
            final(self).word(addr as int) == value,
            forall|a: int| a != addr ==> final(self).word(a) == old(self).word(a),
    {
        match self.word_index(addr) {
            Some(i) => {
                self.words.set(i, (addr, value));
                assert forall|a: int| a != addr implies self.word(a) == old(self).word(a) by {
                    if exists|k: int| 0 <= k < self.words@.len() && self.words@[k].0 == a {
                        let k = choose|k: int| 0 <= k < self.words@.len() && self.words@[k].0 == a;
                        assert(old(self).words@[k].0 == a);
                    }
                    if exists|k: int| 0 <= k < old(self).words@.len() && old(self).words@[k].0 == a {
                        let k = choose|k: int|
                            0 <= k < old(self).words@.len() && old(self).words@[k].0 == a;
                        assert(self.words@[k].0 == a);
                    }
                }
                assert(self.words@[i as int].0 == addr);
            },
            None => {
                self.words.push((addr, value));
                let n = self.words.len() - 1;
                assert(self.words@[n as int].0 == addr);
                assert forall|a: int| a != addr implies self.word(a) == old(self).word(a) by {
                    if exists|k: int| 0 <= k < self.words@.len() && self.words@[k].0 == a {
                        let k = choose|k: int| 0 <= k < self.words@.len() && self.words@[k].0 == a;
                        assert(old(self).words@[k].0 == a);
                    }
                    if exists|k: int| 0 <= k < old(self).words@.len() && old(self).words@[k].0 == a {
                        let k = choose|k: int|
                            0 <= k < old(self).words@.len() && old(self).words@[k].0 == a;
                        assert(self.words@[k].0 == a);
                    }
                }
            },
        }
    }
}

} // verus!
