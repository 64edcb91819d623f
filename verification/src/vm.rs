//! Access to user memory.
//!
//! User memory is reached through [`UserMemory`], which records the accesses
//! that are made. The functions of this module are specified by the accesses
//! they make and by what they return for each possible outcome.

use vstd::prelude::*;
use crate::errno::AxError;
use crate::vm_io::{
    lemma_continues_itself, lemma_continues_on, read_access, UserMemory, VmAccess, VmIo,
};

verus! {

/// Errors of user-memory accesses.
#[derive(Debug, Clone, Copy, PartialEq, Eq, Structural)]
pub enum VmError {
    /// The address is invalid: misaligned, null or out of range.
    BadAddress,
    /// The access is not allowed, such as a write to read-only memory.
    AccessDenied,
    /// No terminator was found within the search limit of
    /// [`vm_load_until_nul`].
    TooLong,
}

/// Result of a user-memory access.
pub type VmResult<T> = Result<T, VmError>;

/// The system-call error that a user-memory error turns into.
pub open spec fn ax_error_of(err: VmError) -> AxError {
    match err {
        VmError::BadAddress | VmError::AccessDenied => AxError::BadAddress,
        VmError::TooLong => AxError::NameTooLong,
    }
}

impl From<VmError> for AxError {
    fn from(err: VmError) -> (r: Self) {
        match err {
            VmError::BadAddress | VmError::AccessDenied => AxError::BadAddress,
            VmError::TooLong => AxError::NameTooLong,
        }
    }
}

impl vstd::std_specs::convert::FromSpecImpl<VmError> for AxError {
    open spec fn obeys_from_spec() -> bool {
        true
    }

    open spec fn from_spec(err: VmError) -> Self {
        ax_error_of(err)
    }
}

/// Reads user memory at `ptr` into `buf`, all of it by one [`VmIo::read`], whose
/// result is returned.
///
/// `ptr` need not be aligned.
pub fn vm_read_slice<V: VmIo>(vm: &mut UserMemory<V>, ptr: usize, buf: &mut [u8]) -> (r: VmResult<()>)
    ensures
        final(buf)@.len() == old(buf)@.len(),
        exists|io: &mut V, b: &mut [u8]| #[trigger]
            call_ensures(V::read, (io, ptr, b), r) && *io == old(vm).inner() && *final(io)
                == final(vm).inner() && b@ == old(buf)@ && final(b)@ == final(buf)@,
        final(vm).continues(*old(vm)),
        final(vm).accesses() == old(vm).accesses().push(read_access(ptr, final(buf)@, r)),
{
    vm.read(ptr, buf)
}

/// Writes `buf` to user memory at `ptr`, all of it by one [`VmIo::write`], whose
/// result is returned.
///
/// `ptr` need not be aligned.
pub fn vm_write_slice<V: VmIo>(vm: &mut UserMemory<V>, ptr: usize, buf: &[u8]) -> (r: VmResult<()>)
    ensures
        exists|io: &mut V| #[trigger]
            call_ensures(V::write, (io, ptr, buf), r) && *io == old(vm).inner() && *final(io)
                == final(vm).inner(),
        final(vm).continues(*old(vm)),
        final(vm).accesses() == old(vm).accesses().push(
            VmAccess::Write { start: ptr, data: buf@, result: r },
        ),
{
    vm.write(ptr, buf)
}

/// Loads `len` elements of `size` bytes each from user memory at `ptr`, as
/// the bytes that make them up.
pub fn vm_load_any<V: VmIo>(vm: &mut UserMemory<V>, ptr: usize, len: usize, size: usize) -> (r: VmResult<
    Vec<u8>,
>)
    requires
        len * size <= isize::MAX,
    ensures
        ({
            let outcome: VmResult<Seq<u8>> = match r {
                Ok(v) => Ok(v@),
                Err(e) => Err(e),
            };
            final(vm).accesses() == old(vm).accesses().push(
                VmAccess::Read { start: ptr, len: (len * size) as nat, outcome },
            )
        }),
        final(vm).continues(*old(vm)),
        r matches Ok(v) ==> v@.len() == len * size,
{
    let mut buf: Vec<u8> = vec![0u8; len * size];
    let outcome = vm_read_slice(vm, ptr, buf.as_mut_slice());
    match outcome {
        Ok(_) => Ok(buf),
        Err(e) => Err(e),
    }
}

/// Loads `len` elements of `size` bytes each, of a type for which every bit
/// pattern is a value.
pub fn vm_load<V: VmIo>(vm: &mut UserMemory<V>, ptr: usize, len: usize, size: usize) -> (r: VmResult<Vec<u8>>)
    requires
        len * size <= isize::MAX,
    ensures
        ({
            let outcome: VmResult<Seq<u8>> = match r {
                Ok(v) => Ok(v@),
                Err(e) => Err(e),
            };
            final(vm).accesses() == old(vm).accesses().push(
                VmAccess::Read { start: ptr, len: (len * size) as nat, outcome },
            )
        }),
        final(vm).continues(*old(vm)),
        r matches Ok(v) ==> v@.len() == len * size,
{
    vm_load_any(vm, ptr, len, size)
}

/// The search limit of [`vm_load_until_nul`], in bytes.
pub const MAX_BYTES: usize = 131072;

/// The granularity of the reads of [`vm_load_until_nul`], in bytes.
pub const CHUNK_SIZE: usize = 32;

/// The element sizes that divide a chunk.
pub open spec fn divides_chunk(size: int) -> bool {
    size == 1 || size == 2 || size == 4 || size == 8 || size == 16 || size == 32
}

/// All bytes of `bytes` are zero.
pub open spec fn all_zero(bytes: Seq<u8>) -> bool {
    forall|j: int| 0 <= j < bytes.len() ==> bytes[j] == 0
}

/// Element `i` of `data`, whose elements have `size` bytes.
pub open spec fn element(data: Seq<u8>, size: int, i: int) -> Seq<u8> {
    data.subrange(i * size, (i + 1) * size)
}

/// None of the first `n` elements of `data` is zero.
pub open spec fn no_zero_element(data: Seq<u8>, size: int, n: int) -> bool {
    forall|i: int| 0 <= i < n ==> !all_zero(#[trigger] element(data, size, i))
}

/// Element `p` is the first zero element of `data`.
pub open spec fn first_zero_at(data: Seq<u8>, size: int, p: int) -> bool {
    &&& 0 <= p < data.len() as int / size
    &&& all_zero(element(data, size, p))
    &&& no_zero_element(data, size, p)
}

/// Where the read number `k` of a search that begins at `ptr` begins: at
/// `ptr`, and from then on at the chunk boundaries above it.
pub open spec fn chunk_start(ptr: int, k: int) -> int {
    if k == 0 {
        ptr
    } else {
        (ptr / (CHUNK_SIZE as int) + k) * CHUNK_SIZE
    }
}

/// `a` is the read number `k` of a search that begins at `ptr`.
pub open spec fn is_chunk_read(ptr: int, k: int, a: VmAccess) -> bool {
    a matches VmAccess::Read { start, len, outcome } && start == chunk_start(ptr, k) && len
        == chunk_start(ptr, k + 1) - chunk_start(ptr, k) && (outcome matches Ok(d) ==> d.len()
        == len)
}

/// The bytes that a successful read brought.
pub open spec fn read_data(a: VmAccess) -> Seq<u8> {
    match a {
        VmAccess::Read { outcome: Ok(d), .. } => d,
        _ => Seq::empty(),
    }
}

/// Read number `k` succeeded without a zero element, and the limit is not
/// reached behind it: the search goes on.
pub open spec fn search_goes_on(ptr: int, size: int, k: int, a: VmAccess) -> bool {
    &&& is_chunk_read(ptr, k, a)
    &&& a matches VmAccess::Read { outcome: Ok(d), .. } && no_zero_element(
        d,
        size,
        d.len() as int / size,
    )
    &&& (chunk_start(ptr, k + 1) - ptr) / size < MAX_BYTES as int / size
}

/// `v` consists of the data of the reads `reads`, followed by `rest`.
pub open spec fn is_joined(ptr: int, reads: Seq<VmAccess>, rest: Seq<u8>, v: Seq<u8>) -> bool {
    &&& v.len() == chunk_start(ptr, reads.len() as int) - ptr + rest.len()
    &&& forall|k: int|
        #![trigger reads[k]]
        0 <= k < reads.len() ==> v.subrange(
            chunk_start(ptr, k) - ptr,
            chunk_start(ptr, k + 1) - ptr,
        ) == read_data(reads[k])
    &&& v.skip(chunk_start(ptr, reads.len() as int) - ptr) == rest
}

/// What a search for a zero element returns after the reads `reads`.
///
/// All reads but the last let the search go on. The last one decides: its
/// error is returned; or, with its first zero element, the elements before
/// it, unless they reach the limit. When the next read would touch the last
/// chunk of the address space, the address is rejected.
pub open spec fn until_nul_outcome(
    ptr: int,
    size: int,
    reads: Seq<VmAccess>,
    r: VmResult<Seq<u8>>,
) -> bool {
    let n = reads.len() as int;
    ||| {
        &&& forall|k: int| 0 <= k < n ==> search_goes_on(ptr, size, k, #[trigger] reads[k])
        &&& chunk_start(ptr, n) + CHUNK_SIZE > usize::MAX
        &&& r == Err::<Seq<u8>, VmError>(VmError::BadAddress)
    }
    ||| {
        &&& n > 0
        &&& forall|k: int| 0 <= k < n - 1 ==> search_goes_on(ptr, size, k, #[trigger] reads[k])
        &&& is_chunk_read(ptr, n - 1, reads[n - 1])
        &&& chunk_start(ptr, n - 1) + CHUNK_SIZE <= usize::MAX
        &&& match reads[n - 1] {
            VmAccess::Read { outcome: Err(e), .. } => r == Err::<Seq<u8>, VmError>(e),
            VmAccess::Read { outcome: Ok(d), .. } => {
                let before = (chunk_start(ptr, n - 1) - ptr) / size;
                ||| {
                    &&& no_zero_element(d, size, d.len() as int / size)
                    &&& before + d.len() as int / size >= MAX_BYTES as int / size
                    &&& r == Err::<Seq<u8>, VmError>(VmError::TooLong)
                }
                ||| exists|p: int|
                    {
                        &&& #[trigger] first_zero_at(d, size, p)
                        &&& if before + p >= MAX_BYTES as int / size {
                            r == Err::<Seq<u8>, VmError>(VmError::TooLong)
                        } else {
                            &&& r matches Ok(v)
                            &&& is_joined(ptr, reads.drop_last(), d.take(p * size), v)
                        }
                    }
            },
            _ => false,
        }
    }
}

/// Whether all bytes of an element are zero.
fn is_zero(bytes: &[u8]) -> (r: bool)
    ensures
        r == all_zero(bytes@),
{
    let mut i: usize = 0;
    while i < bytes.len()
        invariant
            i <= bytes@.len(),
            forall|j: int| 0 <= j < i ==> bytes@[j] == 0,
        decreases bytes@.len() - i,
    {
        if bytes[i] != 0 {
            return false;
        }
        i = i + 1;
    }
    true
}

/// The position of the first zero element of `data`.
fn first_zero(data: &[u8], size: usize) -> (r: Option<usize>)
    requires
        size > 0,
    ensures
        match r {
            Some(p) => first_zero_at(data@, size as int, p as int),
            None => no_zero_element(data@, size as int, data@.len() as int / size as int),
        },
{
    let total: usize = data.len();
    let n: usize = total / size;
    let mut i: usize = 0;
    while i < n
        invariant
            size > 0,
            n == data@.len() / size as nat,
            data@.len() <= usize::MAX,
            i <= n,
            no_zero_element(data@, size as int, i as int),
        decreases n - i,
    {
        assert((i + 1) * size <= data@.len() && i * size <= (i + 1) * size && (i + 1) * size == i
            * size + size) by (nonlinear_arith)
            requires
                i + 1 <= n,
                size > 0,
                n == data@.len() / size as nat,
        ;
        let from: usize = i * size;
        let bytes = vstd::slice::slice_subrange(data, from, from + size);
        if is_zero(bytes) {
            return Some(i);
        }
        i = i + 1;
    }
    None
}

/// Facts about multiples of `size` below a chunk boundary.
proof fn lemma_chunk_multiple(x: int, y: int, size: int)
    requires
        divides_chunk(size),
        x % size == 0,
        x < 32 * y,
    ensures
        (32 * y - x) % size == 0,
        (32 * y - x) / size >= 1,
{
    if size == 1 {
        assert(x % 1 == 0);
        assert((32 * y - x) % 1 == 0);
        assert((32 * y - x) / 1 >= 1);
    } else if size == 2 {
        assert(x % 2 == 0);
        assert((32 * y - x) % 2 == 0);
        assert((32 * y - x) / 2 >= 1);
    } else if size == 4 {
        assert(x % 4 == 0);
        assert((32 * y - x) % 4 == 0);
        assert((32 * y - x) / 4 >= 1);
    } else if size == 8 {
        assert(x % 8 == 0);
        assert((32 * y - x) % 8 == 0);
        assert((32 * y - x) / 8 >= 1);
    } else if size == 16 {
        assert(x % 16 == 0);
        assert((32 * y - x) % 16 == 0);
        assert((32 * y - x) / 16 >= 1);
    } else {
        assert(x % 32 == 0);
        assert((32 * y - x) % 32 == 0);
        assert((32 * y - x) / 32 >= 1);
    }
}

/// The distance to the next chunk boundary is a positive multiple of `size`.
proof fn lemma_chunk_step(ptr: int, size: int, k: int)
    requires
        divides_chunk(size),
        ptr >= 0,
        ptr % size == 0,
        k >= 0,
    ensures
        chunk_start(ptr, k) >= ptr,
        chunk_start(ptr, k + 1) == (chunk_start(ptr, k) / 32 + 1) * 32,
        chunk_start(ptr, k + 1) > chunk_start(ptr, k),
        (chunk_start(ptr, k + 1) - chunk_start(ptr, k)) / size >= 1,
        (chunk_start(ptr, k) - ptr) % size == 0,
{
    let q = ptr / 32;
    let c = chunk_start(ptr, k);
    if k > 0 {
        assert(c == 32 * (q + k));
        assert(c / 32 == q + k);
        lemma_chunk_multiple(ptr, q + k, size);
        lemma_chunk_multiple(0, q + k, size);
        assert(c % size == 0);
        lemma_chunk_multiple(c, q + k + 1, size);
    } else {
        lemma_chunk_multiple(ptr, q + 1, size);
        assert((ptr - ptr) % size == 0);
    }
}

/// Splits an exact quotient of a sum.
proof fn lemma_div_sum(a: int, b: int, size: int)
    requires
        divides_chunk(size),
        a >= 0,
        b >= 0,
        a % size == 0,
    ensures
        (a + b) / size == a / size + b / size,
{
    if size == 1 {
        assert(a % 1 == 0);
        assert((a + b) / 1 == a / 1 + b / 1);
    } else if size == 2 {
        assert(a % 2 == 0);
        assert((a + b) / 2 == a / 2 + b / 2);
    } else if size == 4 {
        assert(a % 4 == 0);
        assert((a + b) / 4 == a / 4 + b / 4);
    } else if size == 8 {
        assert(a % 8 == 0);
        assert((a + b) / 8 == a / 8 + b / 8);
    } else if size == 16 {
        assert(a % 16 == 0);
        assert((a + b) / 16 == a / 16 + b / 16);
    } else {
        assert(a % 32 == 0);
        assert((a + b) / 32 == a / 32 + b / 32);
    }
}

/// Loads elements of `size` bytes from user memory at `ptr` up to, and
/// without, the first zero element, as the bytes that make them up.
///
/// `align` is the alignment of the element type. The search reads chunk by
/// chunk and never beyond the chunk that holds the zero element, so that a
/// terminated array at the end of a mapping is loaded without a fault. Elements
/// have to fill chunks evenly: one that lay across a chunk boundary would keep
/// the search from going on.
pub fn vm_load_until_nul<V: VmIo>(vm: &mut UserMemory<V>, ptr: usize, size: usize, align: usize) -> (r:
    VmResult<Vec<u8>>)
    requires
        align > 0,
        divides_chunk(size as int),
        ptr % align != 0 || ptr % size == 0,
    ensures
        final(vm).continues(*old(vm)),
        ({
            let reads = final(vm).accesses().skip(old(vm).accesses().len() as int);
            let outcome: VmResult<Seq<u8>> = match r {
                Ok(v) => Ok(v@),
                Err(e) => Err(e),
            };
            if ptr % align != 0 {
                reads == Seq::<VmAccess>::empty() && outcome == Err::<Seq<u8>, VmError>(
                    VmError::BadAddress,
                )
            } else {
                until_nul_outcome(ptr as int, size as int, reads, outcome)
            }
        }),
{
    let ghost first = *vm;
    let ghost before = vm.accesses();
    proof {
        lemma_continues_itself(first);
    }
    if ptr % align != 0 {
        assert(vm.accesses().skip(before.len() as int) =~= Seq::<VmAccess>::empty());
        return Err(VmError::BadAddress);
    }
    let mut result: Vec<u8> = Vec::new();
    let mut start: usize = ptr;
    let ghost mut reads = Seq::<VmAccess>::empty();
    proof {
        assert(before + reads =~= before);
        assert(result@.skip(0) =~= Seq::<u8>::empty());
    }
    loop
        invariant
            divides_chunk(size as int),
            align > 0,
            ptr % align == 0,
            ptr % size == 0,
            before == old(vm).accesses(),
            first == *old(vm),
            vm.continues(first),
            vm.accesses() == before + reads,
            start == chunk_start(ptr as int, reads.len() as int),
            is_joined(ptr as int, reads, Seq::<u8>::empty(), result@),
            forall|k: int|
                0 <= k < reads.len() ==> search_goes_on(
                    ptr as int,
                    size as int,
                    k,
                    #[trigger] reads[k],
                ),
            result@.len() / size as nat <= MAX_BYTES as nat / size as nat,
        decreases MAX_BYTES as int / size as int - result@.len() as int / size as int,
    {
        let ghost n = reads.len() as int;
        proof {
            lemma_chunk_step(ptr as int, size as int, n);
            assert(vm.accesses().skip(before.len() as int) =~= reads);
        }
        if start > usize::MAX - CHUNK_SIZE {
            return Err(VmError::BadAddress);
        }
        let end: usize = (start / CHUNK_SIZE + 1) * CHUNK_SIZE;
        let chunk_len: usize = end - start;
        let mut buf: Vec<u8> = vec![0u8; chunk_len];
        let ghost middle = *vm;
        let outcome = vm.read(start, buf.as_mut_slice());
        let ghost access = read_access(start, buf@, outcome);
        let ghost all = reads.push(access);
        proof {
            lemma_continues_on(first, middle, *vm);
            assert(vm.accesses() =~= before + all);
            assert(vm.accesses().skip(before.len() as int) =~= all);
            assert(all.drop_last() =~= reads);
            assert(is_chunk_read(ptr as int, n, access));
        }
        if let Err(e) = outcome {
            return Err(e);
        }
        let pos = first_zero(buf.as_slice(), size);
        proof {
            lemma_div_sum(result@.len() as int, buf@.len() as int, size as int);
        }
        let done: usize = result.len() / size;
        match pos {
            Some(p) => {
                proof {
                    assert(first_zero_at(buf@, size as int, p as int));
                    assert(p * size <= buf@.len()) by (nonlinear_arith)
                        requires
                            p <= buf@.len() as int / size as int,
                            size > 0,
                    ;
                }
                if done + p >= MAX_BYTES / size {
                    return Err(VmError::TooLong);
                }
                let ghost got = result@;
                let rest = vstd::slice::slice_subrange(buf.as_slice(), 0, p * size);
                result.extend_from_slice(rest);
                proof {
                    let v = result@;
                    assert(v =~= got + buf@.take(p * size));
                    assert forall|k: int| #![trigger reads[k]] 0 <= k < n implies v.subrange(
                        chunk_start(ptr as int, k) - ptr,
                        chunk_start(ptr as int, k + 1) - ptr,
                    ) == read_data(reads[k]) by {
                        lemma_prefix_chunk(ptr as int, size as int, reads, got, v, k);
                    }
                    assert(v.skip(got.len() as int) =~= buf@.take(p * size));
                    assert(is_joined(ptr as int, reads, buf@.take(p * size), v));
                }
                return Ok(result);
            },
            None => {
                if done + chunk_len / size >= MAX_BYTES / size {
                    return Err(VmError::TooLong);
                }
                let ghost got = result@;
                result.extend_from_slice(buf.as_slice());
                proof {
                    let v = result@;
                    assert(v =~= got + buf@);
                    assert forall|k: int| #![trigger all[k]] 0 <= k < n + 1 implies v.subrange(
                        chunk_start(ptr as int, k) - ptr,
                        chunk_start(ptr as int, k + 1) - ptr,
                    ) == read_data(all[k]) by {
                        if k < n {
                            assert(all[k] == reads[k]);
                            lemma_prefix_chunk(ptr as int, size as int, reads, got, v, k);
                        } else {
                            assert(v.subrange(got.len() as int, v.len() as int) =~= buf@);
                        }
                    }
                    assert(v.skip(v.len() as int) =~= Seq::<u8>::empty());
                    assert(is_joined(ptr as int, all, Seq::<u8>::empty(), v));
                    assert forall|k: int| 0 <= k < n + 1 implies search_goes_on(
                        ptr as int,
                        size as int,
                        k,
                        #[trigger] all[k],
                    ) by {
                        if k < n {
                            assert(all[k] == reads[k]);
                        }
                    }
                    reads = all;
                }
                start = end;
            },
        }
    }
}

/// Chunk `k` of the joined data is the same in every extension of it.
proof fn lemma_prefix_chunk(
    ptr: int,
    size: int,
    reads: Seq<VmAccess>,
    got: Seq<u8>,
    v: Seq<u8>,
    k: int,
)
    requires
        divides_chunk(size),
        ptr >= 0,
        ptr % size == 0,
        is_joined(ptr, reads, Seq::<u8>::empty(), got),
        got.is_prefix_of(v),
        0 <= k < reads.len(),
    ensures
        v.subrange(chunk_start(ptr, k) - ptr, chunk_start(ptr, k + 1) - ptr) == read_data(reads[k]),
{
    let n = reads.len() as int;
    lemma_chunk_step(ptr, size, k);
    assert(chunk_start(ptr, k + 1) <= chunk_start(ptr, n));
    let a = chunk_start(ptr, k) - ptr;
    let b = chunk_start(ptr, k + 1) - ptr;
    assert(v.subrange(a, b) =~= got.subrange(a, b));
    assert(got.subrange(a, b) == read_data(reads[k]));
}

/// Every successful read among `accesses` shows the contents `mem`.
pub open spec fn shows(accesses: Seq<VmAccess>, mem: spec_fn(int) -> u8) -> bool {
    forall|k: int, j: int|
        #![trigger read_data(accesses[k])[j]]
        0 <= k < accesses.len() && 0 <= j < read_data(accesses[k]).len() ==> read_data(
            accesses[k],
        )[j] == mem(accesses[k]->Read_start + j)
}

/// The element number `e` of the array at `ptr` in the memory `mem`.
pub open spec fn memory_element(mem: spec_fn(int) -> u8, ptr: int, size: int, e: int) -> Seq<u8> {
    Seq::new(size as nat, |j: int| mem(ptr + e * size + j))
}

/// On memory that does not change during the search, [`vm_load_until_nul`]
/// returns exactly the array that begins at `ptr`: the memory from there to
/// the first zero element, and no element of it is zero.
pub proof fn law_until_nul_loads_the_array(
    ptr: int,
    size: int,
    reads: Seq<VmAccess>,
    v: Seq<u8>,
    mem: spec_fn(int) -> u8,
)
    requires
        divides_chunk(size),
        ptr >= 0,
        ptr % size == 0,
        until_nul_outcome(ptr, size, reads, Ok(v)),
        shows(reads, mem),
    ensures
        v.len() as int % size == 0,
        v.len() as int / size < MAX_BYTES as int / size,
        forall|i: int| 0 <= i < v.len() ==> v[i] == mem(ptr + i),
        forall|e: int|
            0 <= e < v.len() as int / size ==> !all_zero(
                #[trigger] memory_element(mem, ptr, size, e),
            ),
        all_zero(memory_element(mem, ptr, size, v.len() as int / size)),
{
    let n = reads.len() as int;
    let d = read_data(reads[n - 1]);
    let before = chunk_start(ptr, n - 1) - ptr;
    let p = choose|p: int|
        first_zero_at(d, size, p) && is_joined(ptr, reads.drop_last(), d.take(p * size), v);
    lemma_chunk_step(ptr, size, n - 1);
    assert(p * size + size <= d.len() && 0 <= p * size) by (nonlinear_arith)
        requires
            0 <= p < d.len() as int / size,
            size > 0,
    ;
    assert(v.len() == before + p * size);
    lemma_exact(before, p, size);
    assert forall|i: int| 0 <= i < v.len() implies v[i] == mem(ptr + i) by {
        lemma_joined_byte(ptr, size, reads, p, v, mem, i);
    }
    let last = v.len() as int / size;
    assert(memory_element(mem, ptr, size, last) =~= element(d, size, p)) by {
        assert((p + 1) * size == p * size + size) by (nonlinear_arith);
        lemma_exact(v.len() as int, 0, size);
        assert forall|j: int| 0 <= j < size implies #[trigger] memory_element(
            mem,
            ptr,
            size,
            last,
        )[j] == element(d, size, p)[j] by {
            assert(read_data(reads[n - 1])[p * size + j] == mem(
                reads[n - 1]->Read_start + (p * size + j),
            ));
        }
    }
    assert forall|e: int| 0 <= e < last implies !all_zero(
        #[trigger] memory_element(mem, ptr, size, e),
    ) by {
        lemma_nonzero_element(ptr, size, reads, p, mem, e);
    }
}

/// When [`vm_load_until_nul`] gives up because an array is too long, and not
/// because a read failed, no element of the array up to the limit is zero, on
/// memory that does not change during the search.
pub proof fn law_too_long_means_not_terminated(
    ptr: int,
    size: int,
    reads: Seq<VmAccess>,
    mem: spec_fn(int) -> u8,
    e: int,
)
    requires
        divides_chunk(size),
        ptr >= 0,
        ptr % size == 0,
        until_nul_outcome(ptr, size, reads, Err(VmError::TooLong)),
        forall|k: int| 0 <= k < reads.len() ==> (#[trigger] reads[k])->outcome is Ok,
        shows(reads, mem),
        0 <= e < MAX_BYTES as int / size,
    ensures
        !all_zero(memory_element(mem, ptr, size, e)),
{
    let n = reads.len() as int;
    let d = read_data(reads[n - 1]);
    let count = d.len() as int / size;
    if no_zero_element(d, size, count) {
        lemma_chunk_step(ptr, size, n - 1);
        assert(count >= 0);
        lemma_nonzero_element(ptr, size, reads, count, mem, e);
    } else {
        let p = choose|p: int| first_zero_at(d, size, p);
        lemma_nonzero_element(ptr, size, reads, p, mem, e);
    }
}

/// Quotients of multiples of `size` are exact.
proof fn lemma_exact(a: int, p: int, size: int)
    requires
        divides_chunk(size),
        a % size == 0,
    ensures
        (a + p * size) % size == 0,
        (a + p * size) / size == a / size + p,
        (a / size) * size == a,
{
    if size == 1 {
        assert(a % 1 == 0);
        assert((a + p * 1) % 1 == 0);
        assert((a + p * 1) / 1 == a / 1 + p);
        assert((a / 1) * 1 == a);
    } else if size == 2 {
        assert(a % 2 == 0);
        assert((a + p * 2) % 2 == 0);
        assert((a + p * 2) / 2 == a / 2 + p);
        assert((a / 2) * 2 == a);
    } else if size == 4 {
        assert(a % 4 == 0);
        assert((a + p * 4) % 4 == 0);
        assert((a + p * 4) / 4 == a / 4 + p);
        assert((a / 4) * 4 == a);
    } else if size == 8 {
        assert(a % 8 == 0);
        assert((a + p * 8) % 8 == 0);
        assert((a + p * 8) / 8 == a / 8 + p);
        assert((a / 8) * 8 == a);
    } else if size == 16 {
        assert(a % 16 == 0);
        assert((a + p * 16) % 16 == 0);
        assert((a + p * 16) / 16 == a / 16 + p);
        assert((a / 16) * 16 == a);
    } else {
        assert(a % 32 == 0);
        assert((a + p * 32) % 32 == 0);
        assert((a + p * 32) / 32 == a / 32 + p);
        assert((a / 32) * 32 == a);
    }
}

/// A multiple of `size` that is below the distance of two others is so by a
/// whole element.
proof fn lemma_quotient_below(q: int, a: int, b: int, size: int)
    requires
        size > 0,
        (a / size) * size == a,
        (b / size) * size == b,
        q * size < b - a,
    ensures
        q < (b - a) / size,
{
    let x = a / size;
    let y = b / size;
    let n = y - x;
    assert(size * n == y * size - x * size) by (nonlinear_arith)
        requires
            n == y - x,
    ;
    assert(q < n) by (nonlinear_arith)
        requires
            q * size < size * n,
            size > 0,
    ;
    vstd::arithmetic::div_mod::lemma_div_multiples_vanish(n, size);
}

/// The chunk that the byte at distance `i` lies in.
proof fn lemma_chunk_of(ptr: int, n: int, i: int) -> (k: int)
    requires
        ptr >= 0,
        n >= 0,
        0 <= i < chunk_start(ptr, n) - ptr,
    ensures
        0 <= k < n,
        chunk_start(ptr, k) - ptr <= i < chunk_start(ptr, k + 1) - ptr,
{
    let k = (ptr + i) / 32 - ptr / 32;
    assert(0 <= k);
    assert(chunk_start(ptr, k + 1) == (ptr / 32 + k + 1) * 32);
    k
}

/// Each byte of the joined data comes from the memory at its place.
proof fn lemma_joined_byte(
    ptr: int,
    size: int,
    reads: Seq<VmAccess>,
    p: int,
    v: Seq<u8>,
    mem: spec_fn(int) -> u8,
    i: int,
)
    requires
        divides_chunk(size),
        ptr >= 0,
        ptr % size == 0,
        until_nul_outcome(ptr, size, reads, Ok(v)),
        shows(reads, mem),
        0 <= p * size <= read_data(reads[reads.len() - 1]).len(),
        is_joined(
            ptr,
            reads.drop_last(),
            read_data(reads[reads.len() - 1]).take(p * size),
            v,
        ),
        0 <= i < v.len(),
    ensures
        v[i] == mem(ptr + i),
{
    let n = reads.len() as int;
    let d = read_data(reads[n - 1]);
    let before = chunk_start(ptr, n - 1) - ptr;
    lemma_chunk_step(ptr, size, n - 1);
    if i < before {
        let k = lemma_chunk_of(ptr, n - 1, i);
        lemma_chunk_step(ptr, size, k);
        let a = chunk_start(ptr, k) - ptr;
        let b = chunk_start(ptr, k + 1) - ptr;
        assert(b <= before);
        assert(reads.drop_last()[k] == reads[k]);
        assert(v.subrange(a, b) == read_data(reads[k]));
        assert(v.subrange(a, b)[i - a] == v[i]);
        assert(search_goes_on(ptr, size, k, reads[k]));
        assert(read_data(reads[k])[i - a] == mem(reads[k]->Read_start + (i - a)));
    } else {
        assert(v.skip(before)[i - before] == v[i]);
        assert(d.take(p * size)[i - before] == d[i - before]);
        assert(read_data(reads[n - 1])[i - before] == mem(reads[n - 1]->Read_start + (i - before)));
    }
}

/// Element `q` of the read number `k` is the element of the memory at its
/// place.
proof fn lemma_element_in_memory(
    ptr: int,
    size: int,
    reads: Seq<VmAccess>,
    mem: spec_fn(int) -> u8,
    k: int,
    q: int,
    e: int,
)
    requires
        size > 0,
        0 <= k < reads.len(),
        is_chunk_read(ptr, k, reads[k]),
        shows(reads, mem),
        0 <= q < read_data(reads[k]).len() as int / size,
        ptr + e * size == chunk_start(ptr, k) + q * size,
    ensures
        element(read_data(reads[k]), size, q) == memory_element(mem, ptr, size, e),
{
    let d = read_data(reads[k]);
    assert((q + 1) * size == q * size + size && 0 <= q * size) by (nonlinear_arith)
        requires
            0 <= q,
            size > 0,
    ;
    assert((q + 1) * size <= d.len()) by (nonlinear_arith)
        requires
            q < d.len() as int / size,
            size > 0,
    ;
    assert forall|j: int| 0 <= j < size implies #[trigger] element(d, size, q)[j]
        == memory_element(mem, ptr, size, e)[j] by {
        assert(read_data(reads[k])[q * size + j] == mem(reads[k]->Read_start + (q * size + j)));
    }
    assert(element(d, size, q) =~= memory_element(mem, ptr, size, e));
}

/// A search that went on, and found no zero among the first `m` elements of
/// its last read, has found none in memory so far.
proof fn lemma_nonzero_element(
    ptr: int,
    size: int,
    reads: Seq<VmAccess>,
    m: int,
    mem: spec_fn(int) -> u8,
    e: int,
)
    requires
        divides_chunk(size),
        ptr >= 0,
        ptr % size == 0,
        reads.len() > 0,
        forall|k: int|
            0 <= k < reads.len() - 1 ==> search_goes_on(ptr, size, k, #[trigger] reads[k]),
        is_chunk_read(ptr, reads.len() - 1, reads[reads.len() - 1]),
        shows(reads, mem),
        0 <= m <= read_data(reads[reads.len() - 1]).len() as int / size,
        no_zero_element(read_data(reads[reads.len() - 1]), size, m),
        0 <= e < (chunk_start(ptr, reads.len() - 1) - ptr) / size + m,
    ensures
        !all_zero(memory_element(mem, ptr, size, e)),
{
    let n = reads.len() as int;
    let i = e * size;
    lemma_chunk_step(ptr, size, n - 1);
    let before = chunk_start(ptr, n - 1) - ptr;
    lemma_exact(before, 0, size);
    let whole = before / size;
    assert(0 <= i < before + m * size) by (nonlinear_arith)
        requires
            0 <= e < whole + m,
            whole * size == before,
            i == e * size,
            size > 0,
    ;
    let k = if i < before {
        lemma_chunk_of(ptr, n - 1, i)
    } else {
        n - 1
    };
    lemma_chunk_step(ptr, size, k);
    let a = chunk_start(ptr, k) - ptr;
    let d = read_data(reads[k]);
    let skipped = a / size;
    let q = e - skipped;
    lemma_exact(a, 0, size);
    assert(i - a == q * size && 0 <= q) by (nonlinear_arith)
        requires
            i == e * size,
            skipped * size == a,
            i >= a,
            q == e - skipped,
            size > 0,
    ;
    if k < n - 1 {
        let b = chunk_start(ptr, k + 1) - ptr;
        assert(search_goes_on(ptr, size, k, reads[k]));
        lemma_chunk_step(ptr, size, k + 1);
        lemma_exact(b, 0, size);
        lemma_quotient_below(q, a, b, size);
    } else {
        assert(q < m) by (nonlinear_arith)
            requires
                q * size < m * size,
                size > 0,
        ;
    }
    assert(!all_zero(element(d, size, q)));
    lemma_element_in_memory(ptr, size, reads, mem, k, q, e);
}

/// User memory after the access `a`: a successful write stores its data, and
/// nothing else changes anything.
pub open spec fn memory_after(mem: spec_fn(int) -> u8, a: VmAccess) -> spec_fn(int) -> u8 {
    match a {
        VmAccess::Write { start, data, result: Ok(_) } => |i: int|
            if start <= i < start + data.len() {
                data[i - start]
            } else {
                mem(i)
            },
        _ => mem,
    }
}

/// A successful read of the memory `mem`.
pub open spec fn reads_memory(mem: spec_fn(int) -> u8, a: VmAccess) -> bool {
    a matches VmAccess::Read { start, len, outcome: Ok(d) } && d =~= Seq::new(
        len,
        |j: int| mem(start + j),
    )
}

/// On memory that nothing else changes, what [`vm_write_slice`] stored is what
/// [`vm_read_slice`] gives back from the same place.
pub proof fn law_read_gives_back_write(
    mem: spec_fn(int) -> u8,
    ptr: usize,
    data: Seq<u8>,
    back: Seq<u8>,
)
    requires
        back.len() == data.len(),
        reads_memory(
            memory_after(mem, VmAccess::Write { start: ptr, data, result: Ok(()) }),
            read_access(ptr, back, Ok(())),
        ),
    ensures
        back == data,
{
    assert(back =~= data);
}

/// An address that cannot be accessed is a bad address, whatever the reason, and
/// what has no end in reach has too long a name; on the way through `from` too.
pub proof fn law_memory_errors_are_passed_on(err: VmError, r: AxError)
    requires
        call_ensures(<AxError as From<VmError>>::from, (err,), r),
    ensures
        r == ax_error_of(err),
        r is NameTooLong <==> err is TooLong,
        r is BadAddress <==> err is BadAddress || err is AccessDenied,
{
}

/// Bytes are read once, in full, from where they are, and the result is that of
/// the read.
pub proof fn law_bytes_are_read_once<V: VmIo>(
    vm: &mut UserMemory<V>,
    ptr: usize,
    buf: &mut [u8],
    r: VmResult<()>,
)
    requires
        call_ensures(vm_read_slice, (vm, ptr, buf), r),
    ensures
        final(vm).accesses().len() == old(vm).accesses().len() + 1,
        final(vm).accesses().drop_last() == old(vm).accesses(),
        final(vm).accesses().last() matches VmAccess::Read { start, len, outcome } && {
            &&& start == ptr && len == old(buf)@.len()
            &&& outcome is Ok <==> r is Ok
            &&& r is Ok ==> outcome->Ok_0 == final(buf)@
            &&& r matches Err(e) ==> outcome->Err_0 == e
        },
{
    assert(final(vm).accesses().drop_last() =~= old(vm).accesses());
}

/// Bytes are written once, in full, to where they belong, and the result is that
/// of the write.
pub proof fn law_bytes_are_written_once<V: VmIo>(
    vm: &mut UserMemory<V>,
    ptr: usize,
    buf: &[u8],
    r: VmResult<()>,
)
    requires
        call_ensures(vm_write_slice, (vm, ptr, buf), r),
    ensures
        final(vm).accesses().len() == old(vm).accesses().len() + 1,
        final(vm).accesses().drop_last() == old(vm).accesses(),
        final(vm).accesses().last() matches VmAccess::Write { start, data, result } && start == ptr
            && data == buf@ && result == r,
{
    assert(final(vm).accesses().drop_last() =~= old(vm).accesses());
}

/// Elements are loaded by one read, of as many bytes as they have together, and
/// what was read is what comes back, whether every bit pattern is a value or not.
pub proof fn law_elements_are_loaded_at_once<V: VmIo>(
    vm: &mut UserMemory<V>,
    ptr: usize,
    len: usize,
    size: usize,
    r: VmResult<Vec<u8>>,
)
    requires
        len * size <= isize::MAX,
        call_ensures(vm_load, (vm, ptr, len, size), r) || call_ensures(
            vm_load_any,
            (vm, ptr, len, size),
            r,
        ),
    ensures
        final(vm).accesses().len() == old(vm).accesses().len() + 1,
        final(vm).accesses().drop_last() == old(vm).accesses(),
        final(vm).accesses().last() matches VmAccess::Read { start, len: asked, outcome } && {
            &&& start == ptr && asked == len * size
            &&& outcome is Ok <==> r is Ok
            &&& r matches Ok(v) ==> v@ == outcome->Ok_0 && v@.len() == len * size
            &&& r matches Err(e) ==> outcome->Err_0 == e
        },
{
    assert(len * size >= 0) by (nonlinear_arith);
    assert(final(vm).accesses().drop_last() =~= old(vm).accesses());
}

/// The reads of a search go on from `ptr` one behind the other, and none of them
/// reaches over a boundary of 32 bytes.
pub open spec fn reads_on(ptr: int, reads: Seq<VmAccess>) -> bool {
    &&& forall|k: int|
        #![trigger reads[k]]
        0 <= k < reads.len() ==> {
            &&& reads[k] is Read && reads[k]->len > 0
            &&& reads[k]->Read_start / 32 == (reads[k]->Read_start + reads[k]->len - 1) / 32
            &&& (reads[k]->Read_start + reads[k]->len) % 32 == 0
            &&& k == 0 ==> reads[k]->Read_start == ptr
            &&& k > 0 ==> reads[k]->Read_start == reads[k - 1]->Read_start + reads[k - 1]->len
        }
    &&& forall|k: int| 0 <= k < reads.len() - 1 ==> (#[trigger] reads[k])->outcome is Ok
}

/// The reads of a search go on.
pub proof fn lemma_reads_on(ptr: int, size: int, reads: Seq<VmAccess>, r: VmResult<Seq<u8>>)
    requires
        divides_chunk(size),
        ptr >= 0,
        ptr % size == 0,
        until_nul_outcome(ptr, size, reads, r),
    ensures
        reads_on(ptr, reads),
{
    assert forall|k: int| #![trigger reads[k]] 0 <= k < reads.len() implies {
        &&& reads[k] is Read && reads[k]->len > 0
        &&& reads[k]->Read_start / 32 == (reads[k]->Read_start + reads[k]->len - 1) / 32
        &&& (reads[k]->Read_start + reads[k]->len) % 32 == 0
        &&& k == 0 ==> reads[k]->Read_start == ptr
        &&& k > 0 ==> reads[k]->Read_start == reads[k - 1]->Read_start + reads[k - 1]->len
    } by {
        lemma_chunk_step(ptr, size, k);
        assert(is_chunk_read(ptr, k, reads[k]));
        let c = chunk_start(ptr, k) / 32;
        assert(chunk_start(ptr, k + 1) == 32 * c + 32);
        if k > 0 {
            assert(is_chunk_read(ptr, k - 1, reads[k - 1]));
        }
    }
    assert forall|k: int| 0 <= k < reads.len() - 1 implies (#[trigger] reads[k])->outcome is Ok by {
        assert(search_goes_on(ptr, size, k, reads[k]));
    }
}

/// All of the reads brought what was asked for.
pub open spec fn all_worked(reads: Seq<VmAccess>) -> bool {
    forall|k: int| 0 <= k < reads.len() ==> (#[trigger] reads[k])->outcome is Ok
}

/// The place behind the last of the reads from `ptr` on.
pub open spec fn reads_end(ptr: int, reads: Seq<VmAccess>) -> int {
    if reads.len() == 0 {
        ptr
    } else {
        reads.last()->Read_start + reads.last()->len
    }
}

/// A search that failed has either a read that failed, or found no end, or came to
/// the end of the addresses.
pub proof fn lemma_failed_search(ptr: int, size: int, reads: Seq<VmAccess>, cause: VmError)
    requires
        divides_chunk(size),
        ptr >= 0,
        ptr % size == 0,
        until_nul_outcome(ptr, size, reads, Err(cause)),
    ensures
        !all_worked(reads) ==> reads.last()->outcome == Err::<Seq<u8>, VmError>(cause),
        all_worked(reads) ==> cause is TooLong || (cause is BadAddress && reads_end(ptr, reads) + 32
            > usize::MAX),
{
    let n = reads.len() as int;
    lemma_reads_on(ptr, size, reads, Err(cause));
    if all_worked(reads) {
        if n > 0 {
            lemma_chunk_step(ptr, size, n - 1);
            assert(is_chunk_read(ptr, n - 1, reads[n - 1]));
        }
    } else {
        let k = choose|k: int| 0 <= k < n && !((#[trigger] reads[k])->outcome is Ok);
        assert(k == n - 1);
        assert(!search_goes_on(ptr, size, k, reads[k]));
    }
}

/// A search that succeeded has no read that failed.
proof fn lemma_found_end(ptr: int, size: int, reads: Seq<VmAccess>, v: Seq<u8>)
    requires
        until_nul_outcome(ptr, size, reads, Ok(v)),
    ensures
        reads.len() > 0,
        all_worked(reads),
{
    let n = reads.len() as int;
    assert forall|k: int| 0 <= k < n implies (#[trigger] reads[k])->outcome is Ok by {
        if k < n - 1 {
            assert(search_goes_on(ptr, size, k, reads[k]));
        }
    }
}

/// The element `e` of the array at `ptr` is zero.
pub open spec fn is_terminator(mem: spec_fn(int) -> u8, ptr: int, size: int, e: int) -> bool {
    forall|j: int| 0 <= j < size ==> #[trigger] mem(ptr + e * size + j) == 0
}

/// An element is zero when its bytes in memory are.
proof fn lemma_terminator(mem: spec_fn(int) -> u8, ptr: int, size: int, e: int)
    requires
        size >= 0,
    ensures
        is_terminator(mem, ptr, size, e) <==> all_zero(memory_element(mem, ptr, size, e)),
{
    let m = memory_element(mem, ptr, size, e);
    if all_zero(m) {
        assert forall|j: int| 0 <= j < size implies #[trigger] mem(ptr + e * size + j) == 0 by {
            assert(m[j] == 0);
        }
    }
}

/// A terminated array is loaded up to its terminator: on memory that does not
/// change meanwhile, what comes back is what stands at `ptr`, element for element
/// up to the first that is zero, which is not loaded, and which is one of as many
/// as have room in 131072 bytes. No read reaches over a boundary of 32 bytes, so
/// none goes beyond the 32 bytes that the terminator is in.
pub proof fn law_terminated_array_is_loaded<V: VmIo>(
    vm: &mut UserMemory<V>,
    ptr: usize,
    size: usize,
    align: usize,
    v: Vec<u8>,
    mem: spec_fn(int) -> u8,
)
    requires
        align > 0,
        divides_chunk(size as int),
        ptr % align != 0 || ptr % size == 0,
        call_ensures(vm_load_until_nul, (vm, ptr, size, align), Ok(v)),
        shows(final(vm).accesses().skip(old(vm).accesses().len() as int), mem),
    ensures
        ptr % align == 0,
        ({
            let reads = final(vm).accesses().skip(old(vm).accesses().len() as int);
            let n = v@.len() as int / size as int;
            &&& reads_on(ptr as int, reads) && all_worked(reads) && reads.len() > 0
            &&& v@.len() == n * size && n < 131072int / size as int
            &&& forall|i: int| 0 <= i < v@.len() ==> #[trigger] v@[i] == mem(ptr + i)
            &&& forall|e: int|
                0 <= e < n ==> !(#[trigger] is_terminator(mem, ptr as int, size as int, e))
            &&& is_terminator(mem, ptr as int, size as int, n)
        }),
{
    let reads = final(vm).accesses().skip(old(vm).accesses().len() as int);
    let p = ptr as int;
    let z = size as int;
    let n = v@.len() as int / z;
    lemma_reads_on(p, z, reads, Ok(v@));
    lemma_found_end(p, z, reads, v@);
    law_until_nul_loads_the_array(p, z, reads, v@, mem);
    lemma_exact(v@.len() as int, 0, z);
    lemma_terminator(mem, p, z, n);
    assert forall|e: int| 0 <= e < n implies !(#[trigger] is_terminator(mem, p, z, e)) by {
        lemma_terminator(mem, p, z, e);
        assert(!all_zero(memory_element(mem, p, z, e)));
    }
}

/// An array at an address that is not aligned is refused unread. A read that
/// failed is the reason why an array is not loaded. What has no terminator among
/// as many elements as have room in 131072 bytes is too long. Otherwise only the
/// end of the addresses keeps an array from being loaded.
pub proof fn law_array_is_refused<V: VmIo>(
    vm: &mut UserMemory<V>,
    ptr: usize,
    size: usize,
    align: usize,
    cause: VmError,
    mem: spec_fn(int) -> u8,
)
    requires
        align > 0,
        divides_chunk(size as int),
        ptr % align != 0 || ptr % size == 0,
        call_ensures(vm_load_until_nul, (vm, ptr, size, align), Err(cause)),
        shows(final(vm).accesses().skip(old(vm).accesses().len() as int), mem),
    ensures
        ({
            let reads = final(vm).accesses().skip(old(vm).accesses().len() as int);
            &&& ptr % align != 0 ==> reads.len() == 0 && cause is BadAddress
            &&& ptr % align == 0 ==> reads_on(ptr as int, reads)
            &&& ptr % align == 0 && !all_worked(reads) ==> reads.last()->outcome == Err::<
                Seq<u8>,
                VmError,
            >(cause)
            &&& ptr % align == 0 && all_worked(reads) ==> {
                ||| cause is TooLong && forall|e: int|
                    0 <= e < 131072int / size as int ==> !(#[trigger] is_terminator(
                        mem,
                        ptr as int,
                        size as int,
                        e,
                    ))
                ||| cause is BadAddress && reads_end(ptr as int, reads) + 32 > usize::MAX
            }
        }),
{
    let reads = final(vm).accesses().skip(old(vm).accesses().len() as int);
    let p = ptr as int;
    let z = size as int;
    if ptr % align == 0 {
        lemma_reads_on(p, z, reads, Err(cause));
        lemma_failed_search(p, z, reads, cause);
        if all_worked(reads) && cause is TooLong {
            assert forall|e: int| 0 <= e < 131072int / z implies !(#[trigger] is_terminator(
                mem,
                p,
                z,
                e,
            )) by {
                law_too_long_means_not_terminated(p, z, reads, mem, e);
                lemma_terminator(mem, p, z, e);
            }
        }
    }
}

} // verus!
