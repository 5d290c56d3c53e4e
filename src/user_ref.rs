//! Typed user addresses that are validated before every access.
use vstd::prelude::*;
use core::marker::PhantomData;
use crate::errno::SyscallError;
use crate::space::AddressSpace;

verus! {

/// The size in bytes of a word of user memory.
pub const WORD_SIZE: usize = 8;

/// How much of the memory behind a user address must be present before
/// access is granted.
#[derive(Clone, Copy, Debug, PartialEq, Eq, Structural)]
pub enum CheckType {
    /// The word at the address.
    Lazy,
    /// As many bytes as the element type occupies.
    TypeLazy,
    /// The range from the address up to the given end address.
    RangeLazy(usize),
}

/// `a + b`, saturated at the top of the address space.
pub open spec fn saturating(a: int, b: int) -> usize {
    if a + b > usize::MAX {
        usize::MAX
    } else {
        (a + b) as usize
    }
}

/// The end (exclusive) of the span that `mode` asks to validate at `addr`
/// for elements of type `T`.
pub open spec fn check_end<T>(addr: usize, mode: CheckType) -> usize {
    match mode {
        CheckType::Lazy => saturating(addr as int, WORD_SIZE as int),
        CheckType::TypeLazy => saturating(addr as int, size_of::<T>() as int),
        CheckType::RangeLazy(end) => end,
    }
}

/// A user-space address of an element of type `T`. It is never read or
/// written before the memory behind it is validated.
pub struct UserRef<T> {
    addr: usize,
    marker: PhantomData<T>,
}

impl<T> Clone for UserRef<T> {
    fn clone(&self) -> Self {
        UserRef { addr: self.addr, marker: PhantomData }
    }
}

impl<T> Copy for UserRef<T> {

}

impl<T> UserRef<T> {
    /// The address.
    pub closed spec fn address(self) -> usize {
        self.addr
    }

    /// The span `[start, end)` that `mode` validates.
    pub open spec fn span_end(self, mode: CheckType) -> usize {
        check_end::<T>(self.address(), mode)
    }

    /// What validating in `mode` does to `space`, with outcome `ok`.
    pub open spec fn validated(
        self,
        space: AddressSpace,
        next: AddressSpace,
        mode: CheckType,
        ok: bool,
    ) -> bool {
        space.validation(next, self.address() as int, self.span_end(mode) as int, ok)
    }

    /// A user reference to `addr`.
    pub fn new(addr: usize) -> (r: Self)
        ensures
            r.address() == addr,
    {
        UserRef { addr, marker: PhantomData }
    }

    /// The address, as an integer.
    pub fn get_usize(&self) -> (r: usize)
        ensures
            r == self.address(),
    {
        self.addr
    }

    /// Whether the address is null.
    pub fn is_null(&self) -> (r: bool)
        ensures
            r == (self.address() == 0),
    {
        self.addr == 0
    }

    /// Whether the address is not null.
    pub fn is_valid(&self) -> (r: bool)
        ensures
            r == (self.address() != 0),
    {
        self.addr != 0
    }

    /// Ensures that the word at the address is present.
    pub fn manual_alloc_for_lazy_is_ok(&self, space: &mut AddressSpace) -> (r: bool)
        requires
            old(space).wf(),
        ensures
            final(space).wf(),
            self.validated(*old(space), *final(space), CheckType::Lazy, r),
    {
        let end: usize = if self.addr > usize::MAX - WORD_SIZE {
            usize::MAX
        } else {
            self.addr + WORD_SIZE
        };
        space.ensure_present(self.addr, end)
    }

    /// Ensures that the bytes of one element at the address are present.
    pub fn manual_alloc_type_for_lazy_is_ok(&self, space: &mut AddressSpace) -> (r: bool)
        requires
            old(space).wf(),
        ensures
            final(space).wf(),
            self.validated(*old(space), *final(space), CheckType::TypeLazy, r),
    {
        let size = core::mem::size_of::<T>();
        let end: usize = if self.addr > usize::MAX - size {
            usize::MAX
        } else {
            self.addr + size
        };
        space.ensure_present(self.addr, end)
    }

    /// Ensures that the range from the address up to `end` is present.
    pub fn manual_alloc_range_for_lazy_is_ok(&self, space: &mut AddressSpace, end: usize) -> (r:
        bool)
        requires
            old(space).wf(),
        ensures
            final(space).wf(),
            self.validated(*old(space), *final(space), CheckType::RangeLazy(end), r),
    {
        space.ensure_present(self.addr, end)
    }

    /// Validates the address in `mode`: the address on success, `EFAULT`
    /// when the memory cannot be made present.
    pub fn validate(&self, space: &mut AddressSpace, mode: CheckType) -> (r: Result<
        usize,
        SyscallError,
    >)
        requires
            old(space).wf(),
        ensures
            final(space).wf(),
            self.validated(*old(space), *final(space), mode, r is Ok),
            r is Ok ==> r == Ok::<usize, SyscallError>(self.address()),
            r is Err ==> r == Err::<usize, SyscallError>(SyscallError::EFAULT),
    {
        let ok = match mode {
            CheckType::Lazy => self.manual_alloc_for_lazy_is_ok(space),
            CheckType::TypeLazy => self.manual_alloc_type_for_lazy_is_ok(space),
            CheckType::RangeLazy(end) => self.manual_alloc_range_for_lazy_is_ok(space, end),
        };
        if ok {
            Ok(self.addr)
        } else {
            Err(SyscallError::EFAULT)
        }
    }

    /// The validated address, for reading.
    pub fn get_ptr(&self, space: &mut AddressSpace, mode: CheckType) -> (r: Result<
        usize,
        SyscallError,
    >)
        requires
            old(space).wf(),
        ensures
            final(space).wf(),
            self.validated(*old(space), *final(space), mode, r is Ok),
            r is Ok ==> r == Ok::<usize, SyscallError>(self.address()),
            r is Err ==> r == Err::<usize, SyscallError>(SyscallError::EFAULT),
    {
        self.validate(space, mode)
    }

    /// The validated address, for writing.
    pub fn get_mut_ptr(&self, space: &mut AddressSpace, mode: CheckType) -> (r: Result<
        usize,
        SyscallError,
    >)
        requires
            old(space).wf(),
        ensures
            final(space).wf(),
            self.validated(*old(space), *final(space), mode, r is Ok),
            r is Ok ==> r == Ok::<usize, SyscallError>(self.address()),
            r is Err ==> r == Err::<usize, SyscallError>(SyscallError::EFAULT),
    {
        self.validate(space, mode)
    }

    /// Validates in `mode`, then reads the word at the address.
    pub fn get_ref(&self, space: &mut AddressSpace, mode: CheckType) -> (r: Result<
        u64,
        SyscallError,
    >)
        requires
            old(space).wf(),
        ensures
            final(space).wf(),
            self.validated(*old(space), *final(space), mode, r is Ok),
            r is Ok ==> r == Ok::<u64, SyscallError>(old(space).word(self.address() as int)),
            r is Err ==> r == Err::<u64, SyscallError>(SyscallError::EFAULT),
    {
        match self.validate(space, mode) {
            Ok(addr) => Ok(space.read_word(addr)),
            Err(e) => Err(e),
        }
    }

    /// Validates in `mode`, then stores `value` at the address.
    pub fn write(&self, space: &mut AddressSpace, mode: CheckType, value: u64) -> (r: Result<
        (),
        SyscallError,
    >)
        requires
            old(space).wf(),
        ensures
            final(space).wf(),
            r is Err ==> r == Err::<(), SyscallError>(SyscallError::EFAULT) && self.validated(
                *old(space),
                *final(space),
                mode,
                false,
            ),
            r is Ok ==> old(space).covers(self.address() as int, self.span_end(mode) as int),
            r is Ok ==> final(space).areas() == old(space).areas(),
            r is Ok ==> forall|p: int|
                final(space).present(p) == (old(space).present(p) || crate::space::in_span(
                    p,
                    self.address() as int,
                    self.span_end(mode) as int,
                )),
            r is Ok ==> final(space).word(self.address() as int) == value,
            r is Ok ==> forall|a: int|
                a != self.address() ==> final(space).word(a) == old(space).word(a),
    {
        match self.validate(space, mode) {
            Ok(addr) => {
                space.write_word(addr, value);
                Ok(())
            },
            Err(e) => Err(e),
        }
    }
}

impl UserRef<u64> {
    /// The span that `mode` validates holds word `index` of the array that
    /// starts at the address.
    pub open spec fn spans_word(self, index: usize, mode: CheckType) -> bool {
        self.address() + (index + 1) * (WORD_SIZE as int) <= self.span_end(mode)
    }

    /// Validates in `mode`, then reads word `index` of the array that starts
    /// at the address. The span of `mode` must hold that word.
    pub fn get_t(&self, space: &mut AddressSpace, index: usize, mode: CheckType) -> (r: Result<
        u64,
        SyscallError,
    >)
        requires
            old(space).wf(),
            self.spans_word(index, mode),
        ensures
            final(space).wf(),
            self.validated(*old(space), *final(space), mode, r is Ok),
            r is Ok ==> r == Ok::<u64, SyscallError>(
                old(space).word(word_addr(self.address(), index as int)),
            ),
            r is Err ==> r == Err::<u64, SyscallError>(SyscallError::EFAULT),
    {
        match self.validate(space, mode) {
            Ok(addr) => Ok(space.read_word(addr + index * WORD_SIZE)),
            Err(e) => Err(e),
        }
    }

    /// Validates in `mode`, then stores `value` as word `index` of the array
    /// that starts at the address. The span of `mode` must hold that word.
    pub fn write_offset(&self, space: &mut AddressSpace, index: usize, value: u64, mode: CheckType)
        -> (r: Result<(), SyscallError>)
        requires
            old(space).wf(),
            self.spans_word(index, mode),
        ensures
            final(space).wf(),
            r is Err ==> r == Err::<(), SyscallError>(SyscallError::EFAULT) && self.validated(
                *old(space),
                *final(space),
                mode,
                false,
            ),
            r is Ok ==> old(space).covers(self.address() as int, self.span_end(mode) as int),
            r is Ok ==> final(space).areas() == old(space).areas(),
            r is Ok ==> forall|p: int|
                final(space).present(p) == (old(space).present(p) || crate::space::in_span(
                    p,
                    self.address() as int,
                    self.span_end(mode) as int,
                )),
            r is Ok ==> final(space).word(word_addr(self.address(), index as int)) == value,
            r is Ok ==> forall|a: int|
                a != word_addr(self.address(), index as int) ==> final(space).word(a) == old(
                    space,
                ).word(a),
    {
        match self.validate(space, mode) {
            Ok(addr) => {
                space.write_word(addr + index * WORD_SIZE, value);
                Ok(())
            },
            Err(e) => Err(e),
        }
    }
}

/// The byte stored at `addr`.
pub open spec fn byte_at(space: AddressSpace, addr: int) -> u8 {
    space.word(addr) as u8
}

/// The byte at `addr` is mapped and not zero.
pub open spec fn string_byte(space: AddressSpace, addr: int) -> bool {
    space.covers(addr, addr) && byte_at(space, addr) != 0
}

/// The first `k` bytes at `addr` are mapped and none of them is zero.
pub open spec fn scan_ok(space: AddressSpace, addr: usize, k: int) -> bool {
    forall|i: int| 0 <= i < k ==> #[trigger] string_byte(space, addr + i)
}

impl UserRef<u8> {
    /// Reads the zero-terminated string at the address, validating each
    /// byte as the scan reaches it, so that a string running into an
    /// unmapped page faults there. `EFAULT` at the first unmapped byte before
    /// the terminator, `EINVAL` when no terminator comes within `max_len`
    /// bytes. The bytes before the terminator are returned.
    pub fn raw_ptr_to_ref_str(&self, space: &mut AddressSpace, max_len: usize) -> (r: Result<
        Vec<u8>,
        SyscallError,
    >)
        requires
            old(space).wf(),
            self.address() + max_len <= usize::MAX,
        ensures
            final(space).wf(),
            final(space).areas() == old(space).areas(),
            forall|a: int| final(space).word(a) == old(space).word(a),
            forall|p: int| old(space).present(p) ==> final(space).present(p),
            match r {
                Ok(v) => {
                    let n = v@.len() as int;
                    &&& n < max_len
                    &&& scan_ok(*old(space), self.address(), n)
                    &&& old(space).covers(self.address() + n, self.address() + n)
                    &&& byte_at(*old(space), self.address() + n) == 0
                    &&& forall|j: int| 0 <= j < n ==> v@[j] == byte_at(*old(space), self.address() + j)
                },
                Err(SyscallError::EFAULT) => exists|k: int|
                    0 <= k < max_len && scan_ok(*old(space), self.address(), k) && !old(space).covers(
                        self.address() + k,
                        self.address() + k,
                    ),
                Err(SyscallError::EINVAL) => scan_ok(*old(space), self.address(), max_len as int),
                Err(_) => false,
            },
    {
        let addr = self.addr;
        let ghost s0 = *space;
        let mut v: Vec<u8> = Vec::new();
        let mut i: usize = 0;
        while i < max_len
            invariant
                space.wf(),
                s0 == *old(space),
                addr == self.address(),
                addr + max_len <= usize::MAX,
                i <= max_len,
                v@.len() == i,
                space.areas() == s0.areas(),
                forall|a: int| space.word(a) == s0.word(a),
                forall|p: int| s0.present(p) ==> space.present(p),
                scan_ok(s0, addr, i as int),
                forall|j: int| 0 <= j < i ==> v@[j] == byte_at(s0, addr + j),
            decreases max_len - i,
        {
            let a = addr + i;
            if !space.ensure_present(a, a) {
                return Err(SyscallError::EFAULT);
            }
            let w = space.read_word(a);
            let b = #[verifier::truncate] (w as u8);
            if b == 0 {
                return Ok(v);
            }
            v.push(b);
            proof {
                assert(s0.covers(a as int, a as int));
                assert(s0.word(a as int) == w);
                assert(string_byte(s0, addr + i));
                assert forall|j: int| 0 <= j < i + 1 implies #[trigger] string_byte(s0, addr + j) by {
                    if j == i {
                        assert(string_byte(s0, addr + i));
                    }
                }
            }
            i = i + 1;
        }
        Err(SyscallError::EINVAL)
    }
}

impl<T> From<usize> for UserRef<T> {
    fn from(addr: usize) -> (r: UserRef<T>) {
        UserRef { addr, marker: PhantomData }
    }
}

impl<T> vstd::std_specs::convert::FromSpecImpl<usize> for UserRef<T> {
    open spec fn obeys_from_spec() -> bool {
        true
    }

    closed spec fn from_spec(addr: usize) -> UserRef<T> {
        UserRef { addr, marker: PhantomData }
    }
}

/// A user-space array of `len` elements of type `T`.
pub struct UserRefSlice<T> {
    useref: UserRef<T>,
    len: usize,
}

impl<T> Clone for UserRefSlice<T> {
    fn clone(&self) -> Self {
        UserRefSlice { useref: self.useref, len: self.len }
    }
}

impl<T> Copy for UserRefSlice<T> {

}

impl<T> UserRefSlice<T> {
    /// The reference to the first element.
    pub closed spec fn start(self) -> UserRef<T> {
        self.useref
    }

    /// The number of elements.
    pub closed spec fn count(self) -> usize {
        self.len
    }

    /// The array of `len` elements starting at `useref`.
    pub fn new(useref: UserRef<T>, len: usize) -> (r: Self)
        ensures
            r.start() == useref,
            r.count() == len,
    {
        UserRefSlice { useref, len }
    }

    /// The reference to the first element.
    pub fn useref(&self) -> (r: UserRef<T>)
        ensures
            r == self.start(),
    {
        self.useref
    }

    /// The number of elements.
    pub fn len(&self) -> (r: usize)
        ensures
            r == self.count(),
    {
        self.len
    }

    /// Whether the address of the first element is null.
    pub fn is_null(&self) -> (r: bool)
        ensures
            r == (self.start().address() == 0),
    {
        self.useref.is_null()
    }

    /// Whether the array holds at least one element.
    pub fn is_valid(&self) -> (r: bool)
        ensures
            r == (self.count() != 0),
    {
        self.len != 0
    }

    /// Ensures that the range from the first element up to `end` is present.
    pub fn manual_alloc_range_for_lazy_is_ok(&self, space: &mut AddressSpace, end: usize) -> (r:
        bool)
        requires
            old(space).wf(),
        ensures
            final(space).wf(),
            self.start().validated(*old(space), *final(space), CheckType::RangeLazy(end), r),
    {
        self.useref.manual_alloc_range_for_lazy_is_ok(space, end)
    }
}

impl<T> From<(UserRef<T>, usize)> for UserRefSlice<T> {
    fn from(parts: (UserRef<T>, usize)) -> (r: UserRefSlice<T>) {
        UserRefSlice { useref: parts.0, len: parts.1 }
    }
}

impl<T> vstd::std_specs::convert::FromSpecImpl<(UserRef<T>, usize)> for UserRefSlice<T> {
    open spec fn obeys_from_spec() -> bool {
        true
    }

    closed spec fn from_spec(parts: (UserRef<T>, usize)) -> UserRefSlice<T> {
        UserRefSlice { useref: parts.0, len: parts.1 }
    }
}

/// The address of word `i` of an array of words at `addr`.
pub open spec fn word_addr(addr: usize, i: int) -> int {
    addr + i * (WORD_SIZE as int)
}

impl UserRefSlice<u64> {
    /// The span that `mode` validates holds every word of the array.
    pub open spec fn spans(self, mode: CheckType) -> bool {
        self.start().address() + self.count() * (WORD_SIZE as int) <= self.start().span_end(mode)
    }

    /// Validates in `mode`, then reads the words of the array. The span of
    /// `mode` must hold the whole array; for more than one word only a range
    /// check can.
    pub fn from_raw_parts(&self, space: &mut AddressSpace, mode: CheckType) -> (r: Result<
        Vec<u64>,
        SyscallError,
    >)
        requires
            old(space).wf(),
            self.spans(mode),
        ensures
            final(space).wf(),
            self.start().validated(*old(space), *final(space), mode, r is Ok),
            r is Err ==> r == Err::<Vec<u64>, SyscallError>(SyscallError::EFAULT),
            r is Ok ==> r->Ok_0@.len() == self.count() && forall|i: int|
                0 <= i < self.count() ==> r->Ok_0@[i] == old(space).word(
                    word_addr(self.start().address(), i),
                ),
    {
        let addr = match self.useref.validate(space, mode) {
            Ok(a) => a,
            Err(e) => return Err(e),
        };
        let mut v: Vec<u64> = Vec::new();
        let mut i: usize = 0;
        while i < self.len
            invariant
                space.wf(),
                addr == self.useref.address(),
                self.spans(mode),
                i <= self.len,
                v@.len() == i,
                forall|a: int| space.word(a) == old(space).word(a),
                forall|j: int| 0 <= j < i ==> v@[j] == old(space).word(word_addr(addr, j)),
            decreases self.len - i,
        {
            proof {
                assert(addr + (i + 1) * 8 <= addr + self.len * 8) by (nonlinear_arith)
                    requires
                        i < self.len,
                ;
            }
            let w = space.read_word(addr + i * WORD_SIZE);
            v.push(w);
            i = i + 1;
        }
        Ok(v)
    }

    /// Validates in `mode`, then copies the first `len` words of `src` into
    /// the array. The span of `mode` must hold the whole array.
    pub fn copy_nonoverlapping(
        &self,
        space: &mut AddressSpace,
        src: &Vec<u64>,
        len: usize,
        mode: CheckType,
    ) -> (r: Result<(), SyscallError>)
        requires
            old(space).wf(),
            self.spans(mode),
            len <= src@.len(),
            len <= self.count(),
        ensures
            final(space).wf(),
            r is Err ==> r == Err::<(), SyscallError>(SyscallError::EFAULT) && self.start().validated(
                *old(space),
                *final(space),
                mode,
                false,
            ),
            r is Ok ==> old(space).covers(
                self.start().address() as int,
                self.start().span_end(mode) as int,
            ),
            r is Ok ==> final(space).areas() == old(space).areas(),
            r is Ok ==> forall|p: int|
                final(space).present(p) == (old(space).present(p) || crate::space::in_span(
                    p,
                    self.start().address() as int,
                    self.start().span_end(mode) as int,
                )),
            r is Ok ==> forall|i: int|
                0 <= i < len ==> final(space).word(word_addr(self.start().address(), i))
                    == src@[i],
            r is Ok ==> forall|a: int|
                (forall|i: int| 0 <= i < len ==> a != word_addr(self.start().address(), i))
                    ==> final(space).word(a) == old(space).word(a),
    {
        let addr = match self.useref.validate(space, mode) {
            Ok(a) => a,
            Err(e) => return Err(e),
        };
        let ghost mid = *space;
        let mut i: usize = 0;
        while i < len
            invariant
                space.wf(),
                addr == self.useref.address(),
                self.spans(mode),
                len <= src@.len(),
                len <= self.len,
                i <= len,
                space.areas() == mid.areas(),
                forall|p: int| space.present(p) == mid.present(p),
                forall|j: int| 0 <= j < i ==> space.word(word_addr(addr, j)) == src@[j],
                forall|a: int|
                    (forall|j: int| 0 <= j < i ==> a != word_addr(addr, j)) ==> space.word(
                        a,
                    ) == mid.word(a),
            decreases len - i,
        {
            proof {
                assert(addr + (i + 1) * 8 <= addr + self.len * 8) by (nonlinear_arith)
                    requires
                        i < len,
                        len <= self.len,
                ;
            }
            let a = addr + i * WORD_SIZE;
            space.write_word(a, src[i]);
            proof {
                assert forall|j: int| 0 <= j < i implies word_addr(addr, j) != a by {
                    assert(j * 8 < i * 8) by (nonlinear_arith)
                        requires
                            j < i,
                    ;
                }
                assert forall|b: int|
                    (forall|j: int| 0 <= j < i + 1 ==> b != word_addr(addr, j)) implies space.word(
                    b,
                ) == mid.word(b) by {
                    assert(b != word_addr(addr, i as int));
                }
            }
            i = i + 1;
        }
        Ok(())
    }
}

/// Validating an address that no mapped area holds fails in every mode and
/// leaves the address space as it was.
pub proof fn lemma_unmapped_faults<T>(
    space: AddressSpace,
    next: AddressSpace,
    r: UserRef<T>,
    mode: CheckType,
    ok: bool,
)
    requires
        forall|i: int|
            0 <= i < space.areas().len() ==> !(#[trigger] space.areas()[i].start <= r.address()
                < space.areas()[i].end),
        r.validated(space, next, mode, ok),
    ensures
        !ok,
        space.same(next),
{
}

/// A successful validation leaves every page of its span present, and
/// validating the same span again succeeds without committing any page.
pub proof fn lemma_validation_durable<T>(
    space: AddressSpace,
    next: AddressSpace,
    again: AddressSpace,
    r: UserRef<T>,
    mode: CheckType,
    ok: bool,
)
    requires
        r.validated(space, next, mode, true),
        r.validated(next, again, mode, ok),
    ensures
        forall|p: int|
            crate::space::in_span(p, r.address() as int, r.span_end(mode) as int) ==> next.present(p),
        ok,
        again.page_list() == next.page_list(),
        next.same(again),
{
    let s = r.address() as int;
    let e = r.span_end(mode) as int;
    let i = choose|i: int|
        0 <= i < space.areas().len() && space.areas()[i].start <= s && s < space.areas()[i].end
            && crate::space::span_end(s, e) <= space.areas()[i].end;
    assert(next.areas()[i] == space.areas()[i]);
}

} // verus!
