//! Cross-process memory access: `process_vm_readv` and `process_vm_writev`.
//!
//! Both calls see the two I/O vectors as two byte streams and copy byte `k`
//! of one to byte `k` of the other, piece by piece. [`CopyVm`] decides which
//! piece comes next and when to stop; the embedding kernel moves the bytes.
//! The caller has to be root, that is, to have the effective user id zero.

use ax_memory_addr::{align_down_4k, align_up_4k};
use vstd::prelude::*;
use crate::errno::{AxError, AxResult};
use crate::vm::ax_error_of;
use crate::vm_io::{lemma_continues_itself, lemma_continues_on, UserMemory, VmAccess, VmIo};
use crate::vm_ptr::{ConstPtr, VmPtr};
use crate::words::{
    law_word_is_a_number, law_word_of_bytes, lemma_number_in_part, number_at, read_word, word_value,
};

verus! {

/// The largest number of entries of an I/O vector.
pub const IOV_MAX: usize = 1024;

/// The size of an entry of an I/O vector in user memory.
pub const IOVEC_SIZE: usize = 16;

/// An entry of an I/O vector: a piece of memory.
#[derive(Debug, Clone, Copy, PartialEq, Eq, Structural)]
pub struct IoVec {
    /// The address of the piece.
    pub iov_base: usize,
    /// The length of the piece; negative lengths are malformed.
    pub iov_len: isize,
}

/// The pages that have to be present before the `len` bytes at `addr` of
/// another process can be accessed, as their start and size.
pub fn ptrace_populate_remote_range(addr: usize, len: usize) -> (r: AxResult<(usize, usize)>)
    requires
        addr + len > usize::MAX || addr + len + 4096 <= usize::MAX,
    ensures
        match r {
            Ok((start, size)) => {
                let end = addr + len + 4095;
                &&& addr + len <= usize::MAX
                &&& start == addr - addr % 4096
                &&& start + size == end - end % 4096
            },
            Err(e) => e == AxError::BadAddress && addr + len > usize::MAX,
        },
{
    let end: usize = match addr.checked_add(len) {
        Some(end) => end,
        None => {
            return Err(AxError::BadAddress);
        },
    };
    let page_start: usize = align_down_4k(addr);
    let page_end: usize = align_up_4k(end);
    Ok((page_start, page_end - page_start))
}

/// The populated pages hold every byte that is accessed.
pub proof fn law_populated_pages_cover_the_range(addr: usize, len: usize, start: usize, size: usize)
    requires
        start == addr - addr % 4096,
        start + size == (addr + len + 4095) - (addr + len + 4095) % 4096,
    ensures
        start % 4096 == 0,
        size % 4096 == 0,
        start <= addr,
        addr + len <= start + size,
        addr + len > start + size - 4096,
{
}

/// The entry that the sixteen bytes `b` make up.
pub open spec fn iovec_of(b: Seq<u8>) -> IoVec {
    IoVec {
        iov_base: (word_value(b.subrange(0, 8)) as u64) as usize,
        iov_len: ((word_value(b.subrange(8, 16)) as u64) as i64) as isize,
    }
}

/// The entry that `bytes` make up.
fn decode_iovec(bytes: &[u8]) -> (r: IoVec)
    requires
        bytes@.len() == IOVEC_SIZE,
    ensures
        r == iovec_of(bytes@),
{
    let base: u64 = read_word(bytes, 0);
    let len: u64 = read_word(bytes, 8);
    IoVec { iov_base: base as usize, iov_len: (len as i64) as isize }
}

/// The number of bytes in the pieces of `iovecs`.
pub open spec fn total_len(iovecs: Seq<IoVec>) -> int
    decreases iovecs.len(),
{
    if iovecs.len() == 0 {
        0
    } else {
        total_len(iovecs.drop_last()) + iovecs.last().iov_len
    }
}

/// No entry is malformed and the whole fits in `isize`.
pub open spec fn is_valid(iovecs: Seq<IoVec>) -> bool {
    &&& forall|i: int| 0 <= i < iovecs.len() ==> (#[trigger] iovecs[i]).iov_len >= 0
    &&& total_len(iovecs) <= isize::MAX
}

/// Entry `k` of the vector at `iov` was asked for by `a`.
pub open spec fn is_iovec_read(iov: usize, k: int, a: VmAccess) -> bool {
    a matches VmAccess::Read { start, len, outcome } && start == iov.wrapping_add(
        (IOVEC_SIZE * k) as usize,
    ) && len == IOVEC_SIZE && (outcome matches Ok(d) ==> d.len() == IOVEC_SIZE)
}

/// The entry that `a` read.
pub open spec fn iovec_read(a: VmAccess) -> IoVec {
    match a {
        VmAccess::Read { outcome: Ok(d), .. } => iovec_of(d),
        _ => arbitrary(),
    }
}

/// The entries that `reads` read.
pub open spec fn iovecs_read(reads: Seq<VmAccess>) -> Seq<IoVec> {
    reads.map_values(|a: VmAccess| iovec_read(a))
}

/// All of `reads` succeeded, and what they read is a valid vector.
pub open spec fn all_accepted(reads: Seq<VmAccess>) -> bool {
    &&& forall|k: int|
        0 <= k < reads.len() ==> (#[trigger] reads[k] matches VmAccess::Read { outcome: Ok(_), .. })
    &&& is_valid(iovecs_read(reads))
}

/// What reading the vector of `iovcnt` entries at `iov` returns after the
/// reads `reads`.
///
/// The entries are read in order until one cannot be read, is malformed or
/// brings the length of the whole over the limit; that one decides the error.
pub open spec fn read_iovecs_outcome(
    iov: usize,
    iovcnt: usize,
    reads: Seq<VmAccess>,
    r: AxResult<Seq<IoVec>>,
) -> bool {
    let n = reads.len() as int;
    &&& forall|k: int| 0 <= k < n ==> is_iovec_read(iov, k, #[trigger] reads[k])
    &&& if iovcnt > IOV_MAX {
        n == 0 && r == Err::<Seq<IoVec>, AxError>(AxError::InvalidInput)
    } else if all_accepted(reads) {
        n == iovcnt && r == Ok::<Seq<IoVec>, AxError>(iovecs_read(reads))
    } else {
        &&& 0 < n <= iovcnt
        &&& all_accepted(reads.drop_last())
        &&& r == Err::<Seq<IoVec>, AxError>(
            match reads.last() {
                VmAccess::Read { outcome: Err(e), .. } => ax_error_of(e),
                _ => AxError::InvalidInput,
            },
        )
    }
}

/// Reads the I/O vector of `iovcnt` entries at `iov`.
pub fn ptrace_read_iovecs<V: VmIo>(vm: &mut UserMemory<V>, iov: usize, iovcnt: usize) -> (r: AxResult<
    Vec<IoVec>,
>)
    ensures
        final(vm).continues(*old(vm)),
        ({
            let reads = final(vm).accesses().skip(old(vm).accesses().len() as int);
            let outcome: AxResult<Seq<IoVec>> = match r {
                Ok(v) => Ok(v@),
                Err(e) => Err(e),
            };
            read_iovecs_outcome(iov, iovcnt, reads, outcome)
        }),
        r matches Ok(v) ==> v@.len() == iovcnt && is_valid(v@),
{
    let ghost first = *vm;
    let ghost before = vm.accesses();
    let ghost mut reads = Seq::<VmAccess>::empty();
    let mut iovecs: Vec<IoVec> = Vec::new();
    proof {
        lemma_continues_itself(first);
        assert(vm.accesses().skip(before.len() as int) =~= reads);
        assert(before + reads =~= before);
        assert(iovecs_read(reads) =~= iovecs@);
    }
    if iovcnt > IOV_MAX {
        return Err(AxError::InvalidInput);
    }
    let mut total: usize = 0;
    let mut idx: usize = 0;
    while idx < iovcnt
        invariant
            idx <= iovcnt <= IOV_MAX,
            before == old(vm).accesses(),
            first == *old(vm),
            vm.continues(first),
            vm.accesses() == before + reads,
            vm.accesses().skip(before.len() as int) == reads,
            reads.len() == idx,
            iovecs@ == iovecs_read(reads),
            all_accepted(reads),
            forall|k: int| 0 <= k < reads.len() ==> is_iovec_read(iov, k, #[trigger] reads[k]),
            total == total_len(iovecs@),
        decreases iovcnt - idx,
    {
        let ptr = ConstPtr { addr: iov.wrapping_add(IOVEC_SIZE * idx), size: IOVEC_SIZE };
        let ghost middle = *vm;
        let outcome = ptr.vm_read(vm);
        let ghost access = vm.accesses().last();
        let ghost all = reads.push(access);
        proof {
            lemma_continues_on(first, middle, *vm);
            assert(vm.accesses() =~= before + all);
            assert(vm.accesses().skip(before.len() as int) =~= all);
            assert(all.drop_last() =~= reads);
        }
        let bytes = match outcome {
            Ok(bytes) => bytes,
            Err(e) => {
                proof {
                    assert(!(all[idx as int] matches VmAccess::Read { outcome: Ok(_), .. }));
                }
                return Err(AxError::from(e));
            },
        };
        let entry = decode_iovec(bytes.as_slice());
        proof {
            assert(iovecs_read(all) =~= iovecs@.push(entry));
            assert(iovecs@.push(entry).drop_last() =~= iovecs@);
            assert(iovecs_read(all)[idx as int] == entry);
        }
        if entry.iov_len < 0 {
            return Err(AxError::InvalidInput);
        }
        total = match total.checked_add(entry.iov_len as usize) {
            Some(len) => if len <= isize::MAX as usize {
                len
            } else {
                return Err(AxError::InvalidInput);
            },
            None => {
                return Err(AxError::InvalidInput);
            },
        };
        iovecs.push(entry);
        proof {
            reads = all;
        }
        idx = idx + 1;
    }
    Ok(iovecs)
}

/// One more entry makes the whole longer by its length.
proof fn lemma_total_step(iovecs: Seq<IoVec>, i: int)
    requires
        0 <= i < iovecs.len(),
    ensures
        total_len(iovecs.take(i + 1)) == total_len(iovecs.take(i)) + iovecs[i].iov_len,
{
    let t = iovecs.take(i + 1);
    assert(t.drop_last() =~= iovecs.take(i));
}

/// Fewer entries of a valid vector are not longer.
proof fn lemma_total_mono(iovecs: Seq<IoVec>, i: int, j: int)
    requires
        is_valid(iovecs),
        0 <= i <= j <= iovecs.len(),
    ensures
        total_len(iovecs.take(i)) <= total_len(iovecs.take(j)),
    decreases j - i,
{
    if i < j {
        lemma_total_step(iovecs, j - 1);
        lemma_total_mono(iovecs, i, j - 1);
    }
}

/// The whole vector is what its first `len` entries are.
proof fn lemma_total_all(iovecs: Seq<IoVec>)
    ensures
        total_len(iovecs.take(iovecs.len() as int)) == total_len(iovecs),
        total_len(iovecs.take(0)) == 0,
{
    assert(iovecs.take(iovecs.len() as int) =~= iovecs);
}

/// Byte `pos` of the stream lies in entry `i`.
pub open spec fn holds_byte(iovecs: Seq<IoVec>, pos: int, i: int) -> bool {
    &&& 0 <= i < iovecs.len()
    &&& total_len(iovecs.take(i)) <= pos < total_len(iovecs.take(i + 1))
}

/// The entry that byte `pos` of the stream lies in.
pub open spec fn entry_at(iovecs: Seq<IoVec>, pos: int) -> int {
    choose|i: int| holds_byte(iovecs, pos, i)
}

/// Where in that entry byte `pos` lies.
pub open spec fn offset_at(iovecs: Seq<IoVec>, pos: int) -> int {
    pos - total_len(iovecs.take(entry_at(iovecs, pos)))
}

/// How many bytes that entry still holds from byte `pos` on.
pub open spec fn rest_at(iovecs: Seq<IoVec>, pos: int) -> int {
    iovecs[entry_at(iovecs, pos)].iov_len - offset_at(iovecs, pos)
}

/// No two entries hold the same byte.
proof fn lemma_entry_unique(iovecs: Seq<IoVec>, pos: int, i: int, j: int)
    requires
        is_valid(iovecs),
        holds_byte(iovecs, pos, i),
        holds_byte(iovecs, pos, j),
    ensures
        i == j,
{
    if i < j {
        lemma_total_mono(iovecs, i + 1, j);
    } else if j < i {
        lemma_total_mono(iovecs, j + 1, i);
    }
}

/// Entry `i` is the one that holds byte `pos`.
pub proof fn lemma_entry_at(iovecs: Seq<IoVec>, pos: int, i: int)
    requires
        is_valid(iovecs),
        holds_byte(iovecs, pos, i),
    ensures
        entry_at(iovecs, pos) == i,
{
    lemma_entry_unique(iovecs, pos, i, entry_at(iovecs, pos));
}

/// Moves `idx` to the first entry, from itself on, that still holds bytes at
/// the offset; in a later entry the offset is zero. Lengths are taken as
/// unsigned numbers.
pub fn skip_empty(iovecs: &Vec<IoVec>, idx: &mut usize, offset: &mut usize)
    ensures
        if *old(idx) >= iovecs@.len() || *old(offset) < iovecs@[*old(idx) as int].iov_len as usize {
            *final(idx) == *old(idx) && *final(offset) == *old(offset)
        } else {
            &&& *final(offset) == 0
            &&& *old(idx) < *final(idx) <= iovecs@.len()
            &&& forall|j: int|
                *old(idx) < j < *final(idx) ==> (#[trigger] iovecs@[j]).iov_len as usize == 0
            &&& *final(idx) < iovecs@.len() ==> iovecs@[*final(idx) as int].iov_len as usize > 0
        },
{
    let ghost first = *idx;
    let ghost first_offset = *offset;
    while *idx < iovecs.len() && *offset >= iovecs[*idx].iov_len as usize
        invariant
            first <= *idx,
            first < iovecs@.len() ==> *idx <= iovecs@.len(),
            *idx == first ==> *offset == first_offset,
            *idx > first ==> {
                &&& first < iovecs@.len()
                &&& *offset == 0
                &&& first_offset >= iovecs@[first as int].iov_len as usize
            },
            forall|j: int| first < j < *idx ==> (#[trigger] iovecs@[j]).iov_len as usize == 0,
        decreases iovecs@.len() - *idx,
    {
        *idx = *idx + 1;
        *offset = 0;
    }
}

/// `idx` and `offset` denote byte `pos` of the stream.
pub open spec fn is_position(iovecs: Seq<IoVec>, idx: int, offset: int, pos: int) -> bool {
    &&& 0 <= idx <= iovecs.len()
    &&& 0 <= offset
    &&& if idx < iovecs.len() {
        offset <= iovecs[idx].iov_len
    } else {
        offset == 0
    }
    &&& total_len(iovecs.take(idx)) + offset == pos
}

/// Skipping empty entries does not change the position, and brings it into
/// the entry that holds the byte.
proof fn lemma_skip(
    iovecs: Seq<IoVec>,
    idx: int,
    offset: int,
    pos: int,
    new_idx: int,
    new_offset: int,
)
    requires
        is_valid(iovecs),
        is_position(iovecs, idx, offset, pos),
        if idx >= iovecs.len() || offset < iovecs[idx].iov_len {
            new_idx == idx && new_offset == offset
        } else {
            &&& new_offset == 0
            &&& idx < new_idx <= iovecs.len()
            &&& forall|j: int| idx < j < new_idx ==> (#[trigger] iovecs[j]).iov_len == 0
            &&& new_idx < iovecs.len() ==> iovecs[new_idx].iov_len > 0
        },
    ensures
        is_position(iovecs, new_idx, new_offset, pos),
        new_idx < iovecs.len() ==> holds_byte(iovecs, pos, new_idx) && pos < total_len(iovecs),
        new_idx == iovecs.len() ==> pos == total_len(iovecs),
        pos <= total_len(iovecs),
{
    lemma_total_all(iovecs);
    if new_idx != idx {
        lemma_total_step(iovecs, idx);
        lemma_total_empty(iovecs, idx + 1, new_idx);
    }
    if new_idx < iovecs.len() {
        lemma_total_step(iovecs, new_idx);
        lemma_total_mono(iovecs, new_idx + 1, iovecs.len() as int);
    }
}

/// Empty entries add nothing.
proof fn lemma_total_empty(iovecs: Seq<IoVec>, i: int, j: int)
    requires
        0 <= i <= j <= iovecs.len(),
        forall|k: int| i <= k < j ==> (#[trigger] iovecs[k]).iov_len == 0,
    ensures
        total_len(iovecs.take(i)) == total_len(iovecs.take(j)),
    decreases j - i,
{
    if i < j {
        lemma_total_step(iovecs, j - 1);
        lemma_total_empty(iovecs, i, j - 1);
    }
}

/// What to do next in a cross-process copy.
#[derive(Debug, Clone, Copy, PartialEq, Eq)]
pub enum CopyStep {
    /// Move `len` bytes between `local_addr` of the caller and `remote_addr`
    /// of the other process.
    Transfer { local_addr: usize, remote_addr: usize, len: usize },
    /// The call returns this.
    Return(AxResult<isize>),
}

/// How the transfer of a piece went.
#[derive(Debug, Clone, Copy, PartialEq, Eq, Structural)]
pub enum TransferOutcome {
    /// All bytes were moved.
    Moved,
    /// The memory of the caller could not be accessed.
    LocalFailed(AxError),
    /// The memory of the other process could not be accessed.
    RemoteFailed(AxError),
}

/// A cross-process copy in progress.
#[derive(Debug)]
pub struct CopyVm {
    /// The memory of the caller.
    pub local: Vec<IoVec>,
    /// The memory of the other process.
    pub remote: Vec<IoVec>,
    /// Whether the other process is written.
    pub write_remote: bool,
    /// The number of bytes copied so far.
    pub copied: usize,
    /// The entry of `local` to continue with.
    pub local_idx: usize,
    /// The offset in that entry.
    pub local_off: usize,
    /// The entry of `remote` to continue with.
    pub remote_idx: usize,
    /// The offset in that entry.
    pub remote_off: usize,
    /// The length of the piece that is being moved; zero if there is none.
    pub chunk_len: usize,
}

/// The smaller of two lengths.
pub open spec fn min_len(a: int, b: int) -> int {
    if a <= b {
        a
    } else {
        b
    }
}

/// The step that follows once `copied` bytes have been copied.
///
/// The piece that is moved next begins at byte `copied` of both streams and
/// is as long as the shorter of what is left of the two entries. An address
/// in the other process must not wrap round; one of the caller may.
pub open spec fn copy_step(local: Seq<IoVec>, remote: Seq<IoVec>, copied: int) -> CopyStep {
    if copied >= min_len(total_len(local), total_len(remote)) {
        CopyStep::Return(Ok(copied as isize))
    } else {
        let l = local[entry_at(local, copied)];
        let r = remote[entry_at(remote, copied)];
        if r.iov_base + offset_at(remote, copied) > usize::MAX {
            CopyStep::Return(Err(AxError::BadAddress))
        } else {
            CopyStep::Transfer {
                local_addr: l.iov_base.wrapping_add(offset_at(local, copied) as usize),
                remote_addr: (r.iov_base + offset_at(remote, copied)) as usize,
                len: min_len(rest_at(local, copied), rest_at(remote, copied)) as usize,
            }
        }
    }
}

impl CopyVm {
    /// The positions in both vectors are that of byte `copied`, and a piece
    /// that is being moved lies in one entry of each.
    pub open spec fn wf(&self) -> bool {
        &&& is_valid(self.local@)
        &&& is_valid(self.remote@)
        &&& is_position(
            self.local@,
            self.local_idx as int,
            self.local_off as int,
            self.copied as int,
        )
        &&& is_position(
            self.remote@,
            self.remote_idx as int,
            self.remote_off as int,
            self.copied as int,
        )
        &&& self.chunk_len > 0 ==> {
            &&& self.local_idx < self.local@.len()
            &&& self.remote_idx < self.remote@.len()
            &&& self.local_off + self.chunk_len <= self.local@[self.local_idx as int].iov_len
            &&& self.remote_off + self.chunk_len <= self.remote@[self.remote_idx as int].iov_len
        }
    }

    /// A copy between two valid vectors, of which nothing is copied yet.
    pub fn new(local: Vec<IoVec>, remote: Vec<IoVec>, write_remote: bool) -> (r: CopyVm)
        requires
            is_valid(local@),
            is_valid(remote@),
        ensures
            r.wf(),
            r.chunk_len == 0,
            r.local == local,
            r.remote == remote,
            r.write_remote == write_remote,
            r.copied == 0,
    {
        proof {
            lemma_total_all(local@);
            lemma_total_all(remote@);
        }
        CopyVm {
            local,
            remote,
            write_remote,
            copied: 0,
            local_idx: 0,
            local_off: 0,
            remote_idx: 0,
            remote_off: 0,
            chunk_len: 0,
        }
    }

    /// The next step.
    pub fn next(&mut self) -> (step: CopyStep)
        requires
            old(self).wf(),
        ensures
            final(self).wf(),
            final(self).local@ == old(self).local@,
            final(self).remote@ == old(self).remote@,
            final(self).write_remote == old(self).write_remote,
            final(self).copied == old(self).copied,
            step == copy_step(old(self).local@, old(self).remote@, old(self).copied as int),
            final(self).chunk_len == match step {
                CopyStep::Transfer { len, .. } => len,
                CopyStep::Return(_) => 0,
            },
            step matches CopyStep::Transfer { len, .. } ==> len > 0,
    {
        self.chunk_len = 0;
        let ghost pos = self.copied as int;
        let ghost before = *self;
        skip_empty(&self.local, &mut self.local_idx, &mut self.local_off);
        skip_empty(&self.remote, &mut self.remote_idx, &mut self.remote_off);
        proof {
            lemma_skip(
                self.local@,
                before.local_idx as int,
                before.local_off as int,
                pos,
                self.local_idx as int,
                self.local_off as int,
            );
            lemma_skip(
                self.remote@,
                before.remote_idx as int,
                before.remote_off as int,
                pos,
                self.remote_idx as int,
                self.remote_off as int,
            );
        }
        if self.local_idx >= self.local.len() || self.remote_idx >= self.remote.len() {
            return CopyStep::Return(Ok(self.copied as isize));
        }
        let l = self.local[self.local_idx];
        let r = self.remote[self.remote_idx];
        proof {
            lemma_entry_at(self.local@, pos, self.local_idx as int);
            lemma_entry_at(self.remote@, pos, self.remote_idx as int);
            lemma_total_step(self.local@, self.local_idx as int);
            lemma_total_step(self.remote@, self.remote_idx as int);
        }
        let local_len: usize = l.iov_len as usize - self.local_off;
        let remote_len: usize = r.iov_len as usize - self.remote_off;
        let chunk_len: usize = if local_len <= remote_len {
            local_len
        } else {
            remote_len
        };
        let local_addr: usize = l.iov_base.wrapping_add(self.local_off);
        let remote_addr: usize = match r.iov_base.checked_add(self.remote_off) {
            Some(addr) => addr,
            None => {
                return CopyStep::Return(Err(AxError::BadAddress));
            },
        };
        self.chunk_len = chunk_len;
        CopyStep::Transfer { local_addr, remote_addr, len: chunk_len }
    }

    /// Takes note of how the transfer of the last piece went. Unless the copy
    /// goes on, what the call returns.
    ///
    /// When the other process is written and its memory fails after at least
    /// one piece, the call returns the number of bytes copied so far; every
    /// other failure is an error.
    pub fn transferred(&mut self, outcome: TransferOutcome) -> (r: Option<AxResult<isize>>)
        requires
            old(self).wf(),
            old(self).chunk_len > 0,
        ensures
            final(self).wf(),
            final(self).chunk_len == 0,
            final(self).local@ == old(self).local@,
            final(self).remote@ == old(self).remote@,
            final(self).write_remote == old(self).write_remote,
            r == (match outcome {
                TransferOutcome::Moved => None::<AxResult<isize>>,
                TransferOutcome::LocalFailed(e) => Some(Err(e)),
                TransferOutcome::RemoteFailed(e) => if old(self).write_remote && old(self).copied
                    > 0 {
                    Some(Ok(old(self).copied as isize))
                } else {
                    Some(Err(e))
                },
            }),
            final(self).copied == old(self).copied + (if outcome is Moved {
                old(self).chunk_len as int
            } else {
                0
            }),
            final(self).copied <= min_len(total_len(old(self).local@), total_len(old(self).remote@)),
    {
        let chunk_len: usize = self.chunk_len;
        self.chunk_len = 0;
        proof {
            let li = self.local_idx as int;
            let ri = self.remote_idx as int;
            lemma_total_all(self.local@);
            lemma_total_all(self.remote@);
            lemma_total_step(self.local@, li);
            lemma_total_step(self.remote@, ri);
            lemma_total_mono(self.local@, li + 1, self.local@.len() as int);
            lemma_total_mono(self.remote@, ri + 1, self.remote@.len() as int);
        }
        match outcome {
            TransferOutcome::Moved => {
                self.copied = self.copied + chunk_len;
                self.local_off = self.local_off + chunk_len;
                self.remote_off = self.remote_off + chunk_len;
                None
            },
            TransferOutcome::LocalFailed(e) => Some(Err(e)),
            TransferOutcome::RemoteFailed(e) => {
                if self.write_remote && self.copied > 0 {
                    Some(Ok(self.copied as isize))
                } else {
                    Some(Err(e))
                }
            },
        }
    }
}

/// The address of byte `pos` of the stream, not reduced to the address range.
pub open spec fn byte_addr(iovecs: Seq<IoVec>, pos: int) -> int {
    iovecs[entry_at(iovecs, pos)].iov_base + offset_at(iovecs, pos)
}

/// Some entry holds each byte of the stream.
proof fn lemma_some_entry(iovecs: Seq<IoVec>, pos: int, n: int) -> (i: int)
    requires
        is_valid(iovecs),
        0 <= n <= iovecs.len(),
        0 <= pos < total_len(iovecs.take(n)),
    ensures
        holds_byte(iovecs, pos, i),
    decreases n,
{
    lemma_total_all(iovecs);
    if n == 0 || pos >= total_len(iovecs.take(n - 1)) {
        n - 1
    } else {
        lemma_some_entry(iovecs, pos, n - 1)
    }
}

/// The entry of a byte of the stream holds that byte at least, and ends within
/// the stream.
proof fn lemma_rest(iovecs: Seq<IoVec>, pos: int)
    requires
        is_valid(iovecs),
        0 <= pos < total_len(iovecs),
    ensures
        0 < rest_at(iovecs, pos) <= isize::MAX,
        0 <= offset_at(iovecs, pos) <= isize::MAX,
        pos + rest_at(iovecs, pos) <= total_len(iovecs),
{
    lemma_total_all(iovecs);
    let i = lemma_some_entry(iovecs, pos, iovecs.len() as int);
    lemma_entry_at(iovecs, pos, i);
    lemma_total_step(iovecs, i);
    lemma_total_mono(iovecs, i + 1, iovecs.len() as int);
}

/// The bytes of one entry stand one after the other.
proof fn lemma_contiguous(iovecs: Seq<IoVec>, pos: int, k: int)
    requires
        is_valid(iovecs),
        0 <= pos < total_len(iovecs),
        0 <= k < rest_at(iovecs, pos),
    ensures
        byte_addr(iovecs, pos + k) == byte_addr(iovecs, pos) + k,
{
    lemma_total_all(iovecs);
    let i = lemma_some_entry(iovecs, pos, iovecs.len() as int);
    lemma_entry_at(iovecs, pos, i);
    lemma_total_step(iovecs, i);
    lemma_total_mono(iovecs, i + 1, iovecs.len() as int);
    assert(holds_byte(iovecs, pos + k, i));
    lemma_entry_at(iovecs, pos + k, i);
}

/// Every step of a copy moves a piece that is not empty, begins at byte
/// `copied` of both streams and ends within both.
pub proof fn law_pieces_are_not_empty(local: Seq<IoVec>, remote: Seq<IoVec>, copied: int)
    requires
        is_valid(local),
        is_valid(remote),
        0 <= copied,
        copy_step(local, remote, copied) is Transfer,
    ensures
        copy_step(local, remote, copied) matches CopyStep::Transfer {
            local_addr,
            remote_addr,
            len,
        } && {
            &&& len > 0
            &&& copied + len <= min_len(total_len(local), total_len(remote))
            &&& remote_addr == byte_addr(remote, copied)
            &&& local_addr == byte_addr(local, copied) || local_addr + usize::MAX + 1 == byte_addr(
                local,
                copied,
            )
        },
{
    lemma_rest(local, copied);
    lemma_rest(remote, copied);
}

/// Every step of a copy moves byte `k` of one stream to or from byte `k` of
/// the other: the piece is contiguous in both.
pub proof fn law_bytes_correspond(local: Seq<IoVec>, remote: Seq<IoVec>, copied: int, k: int)
    requires
        is_valid(local),
        is_valid(remote),
        0 <= copied,
        copy_step(local, remote, copied) matches CopyStep::Transfer { len, .. } && 0 <= k < len,
    ensures
        copy_step(local, remote, copied) matches CopyStep::Transfer { local_addr, remote_addr, .. }
            && {
            &&& byte_addr(remote, copied + k) == remote_addr + k
            &&& byte_addr(local, copied + k) == local_addr + k || byte_addr(local, copied + k)
                == local_addr + usize::MAX + 1 + k
        },
{
    law_pieces_are_not_empty(local, remote, copied);
    lemma_rest(local, copied);
    lemma_rest(remote, copied);
    lemma_contiguous(local, copied, k);
    lemma_contiguous(remote, copied, k);
}

/// A copy in which nothing fails returns the length of the shorter stream.
pub proof fn law_complete_copy(local: Seq<IoVec>, remote: Seq<IoVec>, copied: int, n: isize)
    requires
        is_valid(local),
        is_valid(remote),
        0 <= copied <= min_len(total_len(local), total_len(remote)),
        copy_step(local, remote, copied) == CopyStep::Return(Ok(n)),
    ensures
        n == min_len(total_len(local), total_len(remote)),
        n == copied,
{
}

/// The process id that a call names; ids beyond the range of process ids
/// belong to no process.
pub fn tracee_pid(pid: usize) -> (r: AxResult<u32>)
    ensures
        r == (if pid <= u32::MAX {
            Ok::<u32, AxError>(pid as u32)
        } else {
            Err(AxError::NoSuchProcess)
        }),
{
    if pid <= 0xffff_ffff {
        Ok(pid as u32)
    } else {
        Err(AxError::NoSuchProcess)
    }
}

/// What reading first the local and then the remote vector returns after the
/// reads `reads`; an error of the first keeps the second from being read.
pub open spec fn read_both_outcome(
    local_iov: usize,
    liovcnt: usize,
    remote_iov: usize,
    riovcnt: usize,
    reads: Seq<VmAccess>,
    r: AxResult<(Seq<IoVec>, Seq<IoVec>)>,
) -> bool {
    ||| r matches Err(e) && read_iovecs_outcome(local_iov, liovcnt, reads, Err(e))
    ||| {
        let n = liovcnt as int;
        let local = iovecs_read(reads.take(n));
        &&& n <= reads.len()
        &&& read_iovecs_outcome(local_iov, liovcnt, reads.take(n), Ok(local))
        &&& match r {
            Ok((l, r)) => l == local && read_iovecs_outcome(
                remote_iov,
                riovcnt,
                reads.skip(n),
                Ok(r),
            ),
            Err(e) => read_iovecs_outcome(remote_iov, riovcnt, reads.skip(n), Err(e)),
        }
    }
}

/// Starts a copy between the caller, whose effective user id is `euid`, and
/// another process; `found` tells whether there is such a process.
pub fn copy_vm<V: VmIo>(
    vm: &mut UserMemory<V>,
    found: bool,
    euid: u32,
    local_iov: usize,
    liovcnt: usize,
    remote_iov: usize,
    riovcnt: usize,
    write_remote: bool,
) -> (r: AxResult<CopyVm>)
    ensures
        final(vm).continues(*old(vm)),
        !found ==> r == Err::<CopyVm, AxError>(AxError::NoSuchProcess),
        found && euid != 0 ==> r == Err::<CopyVm, AxError>(AxError::OperationNotPermitted),
        !found || euid != 0 ==> final(vm).accesses() == old(vm).accesses(),
        found && euid == 0 ==> {
            let reads = final(vm).accesses().skip(old(vm).accesses().len() as int);
            let outcome: AxResult<(Seq<IoVec>, Seq<IoVec>)> = match r {
                Ok(c) => Ok((c.local@, c.remote@)),
                Err(e) => Err(e),
            };
            read_both_outcome(local_iov, liovcnt, remote_iov, riovcnt, reads, outcome)
        },
        r matches Ok(c) ==> c.wf() && c.chunk_len == 0 && c.copied == 0 && c.write_remote
            == write_remote,
{
    let ghost first = *vm;
    let ghost before = vm.accesses();
    proof {
        lemma_continues_itself(first);
    }
    if !found {
        return Err(AxError::NoSuchProcess);
    }
    if euid != 0 {
        return Err(AxError::OperationNotPermitted);
    }
    let local = match ptrace_read_iovecs(vm, local_iov, liovcnt) {
        Ok(v) => v,
        Err(e) => {
            return Err(e);
        },
    };
    let ghost second = *vm;
    let ghost middle = vm.accesses();
    let remote_read = ptrace_read_iovecs(vm, remote_iov, riovcnt);
    proof {
        lemma_continues_on(first, second, *vm);
        let n = liovcnt as int;
        let all = vm.accesses().skip(before.len() as int);
        assert(all.take(n) =~= middle.skip(before.len() as int));
        assert(all.skip(n) =~= vm.accesses().skip(middle.len() as int));
    }
    match remote_read {
        Ok(remote) => Ok(CopyVm::new(local, remote, write_remote)),
        Err(e) => Err(e),
    }
}

/// Starts `process_vm_readv`: a copy from the other process to the caller.
pub fn sys_process_vm_readv<V: VmIo>(
    vm: &mut UserMemory<V>,
    found: bool,
    euid: u32,
    local_iov: usize,
    liovcnt: usize,
    remote_iov: usize,
    riovcnt: usize,
    flags: usize,
) -> (r: AxResult<CopyVm>)
    ensures
        final(vm).continues(*old(vm)),
        flags != 0 ==> r == Err::<CopyVm, AxError>(AxError::InvalidInput),
        flags == 0 && !found ==> r == Err::<CopyVm, AxError>(AxError::NoSuchProcess),
        flags == 0 && found && euid != 0 ==> r == Err::<CopyVm, AxError>(
            AxError::OperationNotPermitted,
        ),
        flags != 0 || !found || euid != 0 ==> final(vm).accesses() == old(vm).accesses(),
        flags == 0 && found && euid == 0 ==> {
            let reads = final(vm).accesses().skip(old(vm).accesses().len() as int);
            let outcome: AxResult<(Seq<IoVec>, Seq<IoVec>)> = match r {
                Ok(c) => Ok((c.local@, c.remote@)),
                Err(e) => Err(e),
            };
            read_both_outcome(local_iov, liovcnt, remote_iov, riovcnt, reads, outcome)
        },
        r matches Ok(c) ==> c.wf() && c.chunk_len == 0 && c.copied == 0 && !c.write_remote,
{
    proof {
        lemma_continues_itself(*vm);
    }
    if flags != 0 {
        return Err(AxError::InvalidInput);
    }
    copy_vm(vm, found, euid, local_iov, liovcnt, remote_iov, riovcnt, false)
}

/// Starts `process_vm_writev`: a copy from the caller to the other process.
pub fn sys_process_vm_writev<V: VmIo>(
    vm: &mut UserMemory<V>,
    found: bool,
    euid: u32,
    local_iov: usize,
    liovcnt: usize,
    remote_iov: usize,
    riovcnt: usize,
    flags: usize,
) -> (r: AxResult<CopyVm>)
    ensures
        final(vm).continues(*old(vm)),
        flags != 0 ==> r == Err::<CopyVm, AxError>(AxError::InvalidInput),
        flags == 0 && !found ==> r == Err::<CopyVm, AxError>(AxError::NoSuchProcess),
        flags == 0 && found && euid != 0 ==> r == Err::<CopyVm, AxError>(
            AxError::OperationNotPermitted,
        ),
        flags != 0 || !found || euid != 0 ==> final(vm).accesses() == old(vm).accesses(),
        flags == 0 && found && euid == 0 ==> {
            let reads = final(vm).accesses().skip(old(vm).accesses().len() as int);
            let outcome: AxResult<(Seq<IoVec>, Seq<IoVec>)> = match r {
                Ok(c) => Ok((c.local@, c.remote@)),
                Err(e) => Err(e),
            };
            read_both_outcome(local_iov, liovcnt, remote_iov, riovcnt, reads, outcome)
        },
        r matches Ok(c) ==> c.wf() && c.chunk_len == 0 && c.copied == 0 && c.write_remote,
{
    proof {
        lemma_continues_itself(*vm);
    }
    if flags != 0 {
        return Err(AxError::InvalidInput);
    }
    copy_vm(vm, found, euid, local_iov, liovcnt, remote_iov, riovcnt, true)
}

/// The addresses of the bytes of the pieces, one after the other.
pub open spec fn stream(iovecs: Seq<IoVec>) -> Seq<int>
    decreases iovecs.len(),
{
    if iovecs.len() == 0 {
        Seq::empty()
    } else {
        let piece = iovecs.last();
        stream(iovecs.drop_last()) + Seq::new(
            piece.iov_len as nat,
            |k: int| piece.iov_base + k,
        )
    }
}

/// The stream is as long as its pieces.
proof fn lemma_stream_len(iovecs: Seq<IoVec>)
    requires
        forall|i: int| 0 <= i < iovecs.len() ==> (#[trigger] iovecs[i]).iov_len >= 0,
    ensures
        stream(iovecs).len() == total_len(iovecs),
    decreases iovecs.len(),
{
    if iovecs.len() > 0 {
        assert(iovecs[iovecs.len() - 1].iov_len >= 0);
        assert forall|i: int| 0 <= i < iovecs.len() - 1 implies (
        #[trigger] iovecs.drop_last()[i]).iov_len >= 0 by {
            assert(iovecs[i].iov_len >= 0);
        }
        lemma_stream_len(iovecs.drop_last());
    }
}

/// The first pieces are the beginning of the stream.
proof fn lemma_stream_take(iovecs: Seq<IoVec>, n: int)
    requires
        0 <= n <= iovecs.len(),
    ensures
        stream(iovecs.take(n)).is_prefix_of(stream(iovecs)),
    decreases iovecs.len(),
{
    if n == iovecs.len() {
        assert(iovecs.take(n) =~= iovecs);
    } else {
        lemma_stream_take(iovecs.drop_last(), n);
        assert(iovecs.drop_last().take(n) =~= iovecs.take(n));
        let a = stream(iovecs.take(n));
        let b = stream(iovecs.drop_last());
        assert(a == b.take(a.len() as int));
        assert(a =~= stream(iovecs).take(a.len() as int));
    }
}

/// The address of a byte is the one at its place in the stream.
proof fn lemma_stream_byte(iovecs: Seq<IoVec>, pos: int)
    requires
        is_valid(iovecs),
        0 <= pos < total_len(iovecs),
    ensures
        stream(iovecs).len() == total_len(iovecs),
        stream(iovecs)[pos] == byte_addr(iovecs, pos),
{
    lemma_total_all(iovecs);
    lemma_stream_len(iovecs);
    let i = lemma_some_entry(iovecs, pos, iovecs.len() as int);
    lemma_entry_at(iovecs, pos, i);
    lemma_total_step(iovecs, i);
    let t = iovecs.take(i + 1);
    let head = iovecs.take(i);
    assert(t.drop_last() =~= head);
    assert forall|j: int| 0 <= j < head.len() implies (#[trigger] head[j]).iov_len >= 0 by {
        assert(iovecs[j].iov_len >= 0);
    }
    assert forall|j: int| 0 <= j < t.len() implies (#[trigger] t[j]).iov_len >= 0 by {
        assert(iovecs[j].iov_len >= 0);
    }
    lemma_stream_len(head);
    lemma_stream_len(t);
    lemma_stream_take(iovecs, i + 1);
    assert(stream(t) == stream(iovecs).take(stream(t).len() as int));
    assert(stream(iovecs)[pos] == stream(t)[pos]);
    assert(stream(t)[pos] == t.last().iov_base + (pos - stream(head).len()));
}

/// The place `pos` of the stream is the end of one of its pieces.
pub open spec fn ends_piece(iovecs: Seq<IoVec>, pos: int) -> bool {
    exists|i: int|
        0 <= i < iovecs.len() && stream(#[trigger] iovecs.take(i + 1)).len() == pos
}

/// A piece that reaches to the end of its entry ends one.
proof fn lemma_rest_ends_piece(iovecs: Seq<IoVec>, pos: int)
    requires
        is_valid(iovecs),
        0 <= pos < total_len(iovecs),
    ensures
        ends_piece(iovecs, pos + rest_at(iovecs, pos)),
{
    lemma_total_all(iovecs);
    let i = lemma_some_entry(iovecs, pos, iovecs.len() as int);
    lemma_entry_at(iovecs, pos, i);
    lemma_total_step(iovecs, i);
    let t = iovecs.take(i + 1);
    assert forall|j: int| 0 <= j < t.len() implies (#[trigger] t[j]).iov_len >= 0 by {
        assert(iovecs[j].iov_len >= 0);
    }
    lemma_stream_len(t);
    assert(stream(iovecs.take(i + 1)).len() == pos + rest_at(iovecs, pos));
}

/// A copy moves byte for byte: each step goes on where the copy is, moves at
/// least one byte, and each byte from the place in one stream to the same place
/// in the other. It goes to the end of a piece, and does not go beyond either
/// stream. It is over, with the number of bytes copied, once one of the streams
/// is; and it fails only if the next byte of the other process is beyond all
/// addresses.
pub proof fn law_copy_moves_byte_for_byte(copy: &mut CopyVm, step: CopyStep)
    requires
        old(copy).wf(),
        call_ensures(CopyVm::next, (copy, ), step),
    ensures
        ({
            let local = stream(old(copy).local@);
            let remote = stream(old(copy).remote@);
            let copied = old(copy).copied as int;
            &&& copied <= local.len() && copied <= remote.len()
            &&& step matches CopyStep::Transfer { local_addr, remote_addr, len } ==> {
                &&& len > 0
                &&& copied + len <= local.len() && copied + len <= remote.len()
                &&& forall|k: int|
                    0 <= k < len ==> #[trigger] remote[copied + k] == remote_addr + k
                &&& forall|k: int|
                    0 <= k < len ==> (#[trigger] local[copied + k] == local_addr + k
                        || local[copied + k] == local_addr + k + usize::MAX + 1)
                &&& ends_piece(old(copy).local@, copied + len) || ends_piece(
                    old(copy).remote@,
                    copied + len,
                )
                &&& final(copy).chunk_len == len
            }
            &&& step matches CopyStep::Return(Ok(n)) ==> n == copied && (copied == local.len()
                || copied == remote.len())
            &&& step matches CopyStep::Return(Err(e)) ==> {
                &&& e == AxError::BadAddress
                &&& copied < local.len() && copied < remote.len()
                &&& remote[copied] > usize::MAX
            }
        }),
        final(copy).copied == old(copy).copied,
        final(copy).local@ == old(copy).local@ && final(copy).remote@ == old(copy).remote@,
        final(copy).write_remote == old(copy).write_remote,
{
    let local = old(copy).local@;
    let remote = old(copy).remote@;
    let copied = old(copy).copied as int;
    lemma_stream_len(local);
    lemma_stream_len(remote);
    lemma_position_within(local, old(copy).local_idx as int, old(copy).local_off as int, copied);
    lemma_position_within(
        remote,
        old(copy).remote_idx as int,
        old(copy).remote_off as int,
        copied,
    );
    if copied < total_len(local) && copied < total_len(remote) {
        lemma_stream_byte(remote, copied);
        lemma_rest(local, copied);
        lemma_rest(remote, copied);
        lemma_rest_ends_piece(local, copied);
        lemma_rest_ends_piece(remote, copied);
    }
    if let CopyStep::Transfer { local_addr, remote_addr, len } = step {
        law_pieces_are_not_empty(local, remote, copied);
        assert forall|k: int| 0 <= k < len implies #[trigger] stream(remote)[copied + k]
            == remote_addr + k by {
            law_bytes_correspond(local, remote, copied, k);
            lemma_stream_byte(remote, copied + k);
        }
        assert forall|k: int| 0 <= k < len implies (#[trigger] stream(local)[copied + k]
            == local_addr + k || stream(local)[copied + k] == local_addr + k + usize::MAX
            + 1) by {
            law_bytes_correspond(local, remote, copied, k);
            lemma_stream_byte(local, copied + k);
        }
    }
}

/// A position is not beyond the stream.
proof fn lemma_position_within(iovecs: Seq<IoVec>, idx: int, offset: int, pos: int)
    requires
        is_valid(iovecs),
        is_position(iovecs, idx, offset, pos),
    ensures
        0 <= pos <= total_len(iovecs),
{
    lemma_total_all(iovecs);
    lemma_total_mono(iovecs, 0, idx);
    if idx < iovecs.len() {
        lemma_total_step(iovecs, idx);
        lemma_total_mono(iovecs, idx + 1, iovecs.len() as int);
    }
}

/// A piece that was moved counts in full, and one that was not does not count. A
/// copy ends with the error of the memory that failed; but what was already
/// written to the other process is told in place of an error of that process.
pub proof fn law_moved_pieces_are_counted(
    copy: &mut CopyVm,
    outcome: TransferOutcome,
    r: Option<AxResult<isize>>,
)
    requires
        old(copy).wf(),
        old(copy).chunk_len > 0,
        call_ensures(CopyVm::transferred, (copy, outcome), r),
    ensures
        r is None <==> outcome is Moved,
        outcome is Moved ==> final(copy).copied == old(copy).copied + old(copy).chunk_len,
        !(outcome is Moved) ==> final(copy).copied == old(copy).copied,
        outcome matches TransferOutcome::LocalFailed(e) ==> r == Some(Err::<isize, AxError>(e)),
        outcome matches TransferOutcome::RemoteFailed(e) ==> {
            &&& !old(copy).write_remote || old(copy).copied == 0 ==> r == Some(
                Err::<isize, AxError>(e),
            )
            &&& old(copy).write_remote && old(copy).copied > 0 ==> r is Some && r->0 is Ok
                && r->0->Ok_0 == old(copy).copied
        },
        final(copy).chunk_len == 0 && final(copy).wf(),
{
    lemma_position_within(
        old(copy).local@,
        old(copy).local_idx as int,
        old(copy).local_off as int,
        old(copy).copied as int,
    );
}

/// The entry that sixteen bytes make up, as numbers, on machines whose addresses
/// have sixty-four bits.
proof fn lemma_iovec_numbers(d: Seq<u8>)
    requires
        usize::BITS == 64,
        d.len() == 16,
    ensures
        iovec_of(d).iov_base == number_at(d, 0, 8),
        0 <= number_at(d, 8, 8),
        iovec_of(d).iov_len >= 0 <==> number_at(d, 8, 8) < 0x8000_0000_0000_0000,
        iovec_of(d).iov_len >= 0 ==> iovec_of(d).iov_len == number_at(d, 8, 8),
{
    law_word_is_a_number(d.subrange(0, 8));
    law_word_is_a_number(d.subrange(8, 16));
    lemma_number_in_part(d, 0, 8, 0, 8);
    lemma_number_in_part(d, 8, 16, 0, 8);
    law_word_of_bytes(d.subrange(0, 8));
    law_word_of_bytes(d.subrange(8, 16));
    let x = word_value(d.subrange(8, 16)) as u64;
    assert(x < 0x8000_0000_0000_0000 ==> (x as i64) == x) by (bit_vector);
    assert(x >= 0x8000_0000_0000_0000 ==> (x as i64) < 0) by (bit_vector);
}

/// The bytes that a read brought.
pub open spec fn bytes_of(a: VmAccess) -> Seq<u8> {
    a->outcome->Ok_0
}

/// The read `k` of the entries at `iov`: sixteen bytes, at a distance of sixteen
/// from the one before, where addresses go round.
pub open spec fn reads_entry(a: VmAccess, iov: usize, k: int) -> bool {
    &&& a is Read && a->len == 16
    &&& a->Read_start == iov + 16 * k || a->Read_start + usize::MAX + 1 == iov + 16 * k
    &&& a->outcome is Ok ==> bytes_of(a).len() == 16
}

/// The sum of the lengths in the entries that were read.
pub open spec fn described_len(reads: Seq<VmAccess>) -> int {
    reads.fold_left(0, |sum: int, a: VmAccess| sum + number_at(bytes_of(a), 8, 8))
}

/// The sum of the lengths is that of the entries.
proof fn lemma_described_len(reads: Seq<VmAccess>, iov: usize)
    requires
        usize::BITS == 64,
        forall|k: int| 0 <= k < reads.len() ==> is_iovec_read(iov, k, #[trigger] reads[k]),
        forall|k: int|
            0 <= k < reads.len() ==> (#[trigger] reads[k] matches VmAccess::Read {
                outcome: Ok(_),
                ..
            }),
        forall|k: int|
            0 <= k < reads.len() ==> (#[trigger] iovecs_read(reads)[k]).iov_len >= 0,
    ensures
        described_len(reads) == total_len(iovecs_read(reads)),
    decreases reads.len(),
{
    reveal_with_fuel(Seq::fold_left, 2);
    if reads.len() > 0 {
        let init = reads.drop_last();
        let last = reads[reads.len() - 1];
        assert(is_iovec_read(iov, reads.len() - 1, last));
        assert(iovecs_read(reads).drop_last() =~= iovecs_read(init));
        assert forall|k: int| 0 <= k < init.len() implies (
        #[trigger] iovecs_read(init)[k]).iov_len >= 0 by {
            assert(iovecs_read(reads)[k].iov_len >= 0);
        }
        assert forall|k: int| 0 <= k < init.len() implies is_iovec_read(
            iov,
            k,
            #[trigger] init[k],
        ) by {
            assert(is_iovec_read(iov, k, reads[k]));
        }
        assert forall|k: int| 0 <= k < init.len() implies (#[trigger] init[k] matches
            VmAccess::Read { outcome: Ok(_), .. }) by {
            assert(reads[k] matches VmAccess::Read { outcome: Ok(_), .. });
        }
        lemma_described_len(init, iov);
        assert(iovecs_read(reads)[reads.len() - 1].iov_len >= 0);
        lemma_iovec_numbers(bytes_of(last));
    }
}

/// The vector `v` is what the reads brought: entry for entry an address and a
/// length, lowest byte first.
pub open spec fn is_vector_read(v: Seq<IoVec>, iov: usize, reads: Seq<VmAccess>) -> bool {
    &&& v.len() == reads.len()
    &&& forall|k: int|
        #![trigger reads[k]]
        0 <= k < reads.len() ==> {
            &&& reads_entry(reads[k], iov, k)
            &&& reads[k]->outcome is Ok
            &&& v[k].iov_base == number_at(bytes_of(reads[k]), 0, 8)
            &&& v[k].iov_len == number_at(bytes_of(reads[k]), 8, 8)
        }
    &&& described_len(reads) < 0x8000_0000_0000_0000
}

/// A vector was refused by the last read: it failed, with this error; or the
/// entry it brought has a length that is none, or makes the whole too long.
pub open spec fn is_vector_refused(e: AxError, iov: usize, reads: Seq<VmAccess>) -> bool {
    let last = reads.last();
    &&& reads.len() > 0
    &&& forall|k: int| 0 <= k < reads.len() ==> reads_entry(#[trigger] reads[k], iov, k)
    &&& forall|k: int| 0 <= k < reads.len() - 1 ==> (#[trigger] reads[k])->outcome is Ok
    &&& described_len(reads.drop_last()) < 0x8000_0000_0000_0000
    &&& last->outcome is Err ==> e == ax_error_of(last->outcome->Err_0)
    &&& last->outcome is Ok ==> e == AxError::InvalidInput && described_len(reads)
        >= 0x8000_0000_0000_0000
}

/// What reading a vector brings, in numbers.
proof fn lemma_vector_read(iov: usize, iovcnt: usize, reads: Seq<VmAccess>, r: AxResult<Seq<IoVec>>)
    requires
        usize::BITS == 64,
        read_iovecs_outcome(iov, iovcnt, reads, r),
    ensures
        iovcnt > 1024 ==> reads.len() == 0 && r == Err::<Seq<IoVec>, AxError>(
            AxError::InvalidInput,
        ),
        r matches Ok(v) ==> iovcnt <= 1024 && v.len() == iovcnt && is_vector_read(v, iov, reads),
        r matches Err(e) ==> iovcnt > 1024 || (reads.len() <= iovcnt && is_vector_refused(
            e,
            iov,
            reads,
        )),
{
    assert forall|k: int| 0 <= k < reads.len() implies reads_entry(#[trigger] reads[k], iov, k) by {
        assert(is_iovec_read(iov, k, reads[k]));
        assert(0 <= 16 * k <= 16 * 1024);
    }
    if iovcnt <= IOV_MAX {
        if all_accepted(reads) {
            let v = iovecs_read(reads);
            lemma_described_len(reads, iov);
            assert forall|k: int| #![trigger reads[k]] 0 <= k < reads.len() implies {
                &&& reads[k]->outcome is Ok
                &&& v[k].iov_base == number_at(bytes_of(reads[k]), 0, 8)
                &&& v[k].iov_len == number_at(bytes_of(reads[k]), 8, 8)
            } by {
                assert(is_iovec_read(iov, k, reads[k]));
                assert(v[k].iov_len >= 0);
                lemma_iovec_numbers(bytes_of(reads[k]));
            }
        } else {
            let init = reads.drop_last();
            let last = reads[reads.len() - 1];
            assert(is_iovec_read(iov, reads.len() - 1, last));
            assert forall|k: int| 0 <= k < init.len() implies is_iovec_read(
                iov,
                k,
                #[trigger] init[k],
            ) by {
                assert(is_iovec_read(iov, k, reads[k]));
            }
            assert forall|k: int| 0 <= k < reads.len() - 1 implies (
            #[trigger] reads[k])->outcome is Ok by {
                assert(init[k] == reads[k]);
            }
            lemma_described_len(init, iov);
            if last->outcome is Ok {
                let all = iovecs_read(reads);
                lemma_iovec_numbers(bytes_of(last));
                lemma_described_nonneg(init);
                assert(described_len(reads) == described_len(init) + number_at(
                    bytes_of(last),
                    8,
                    8,
                )) by {
                    reveal_with_fuel(Seq::fold_left, 2);
                }
                assert(all.drop_last() =~= iovecs_read(init));
                if described_len(reads) < 0x8000_0000_0000_0000 {
                    assert forall|k: int| 0 <= k < all.len() implies (
                    #[trigger] all[k]).iov_len >= 0 by {
                        if k < init.len() {
                            assert(all[k] == iovecs_read(init)[k]);
                        }
                    }
                    assert forall|k: int| 0 <= k < reads.len() implies (#[trigger] reads[k] matches
                        VmAccess::Read { outcome: Ok(_), .. }) by {
                        if k < init.len() {
                            assert(init[k] == reads[k]);
                        }
                    }
                    lemma_described_len(reads, iov);
                }
            }
        }
    }
}

/// Lengths that are sums are not negative.
proof fn lemma_described_nonneg(reads: Seq<VmAccess>)
    ensures
        described_len(reads) >= 0,
    decreases reads.len(),
{
    reveal_with_fuel(Seq::fold_left, 2);
    if reads.len() > 0 {
        lemma_described_nonneg(reads.drop_last());
        lemma_number_nonneg(bytes_of(reads.last()), 8, 8);
    }
}

/// Numbers of bytes are not negative.
proof fn lemma_number_nonneg(b: Seq<u8>, at: int, n: nat)
    ensures
        number_at(b, at, n) >= 0,
    decreases n,
{
    if n > 0 {
        lemma_number_nonneg(b, at + 1, (n - 1) as nat);
    }
}

/// A vector has at most 1024 entries; they are read one after the other, sixteen
/// bytes each, and are the addresses and lengths that stand there. A vector is
/// refused exactly for the first entry that cannot be read, or whose length is
/// none or makes the whole longer than can be told.
pub proof fn law_vector_is_what_was_read<V: VmIo>(
    vm: &mut UserMemory<V>,
    iov: usize,
    iovcnt: usize,
    r: AxResult<Vec<IoVec>>,
)
    requires
        usize::BITS == 64,
        call_ensures(ptrace_read_iovecs, (vm, iov, iovcnt), r),
    ensures
        ({
            let reads = final(vm).accesses().skip(old(vm).accesses().len() as int);
            &&& iovcnt > 1024 ==> reads.len() == 0 && r == Err::<Vec<IoVec>, AxError>(
                AxError::InvalidInput,
            )
            &&& r matches Ok(v) ==> iovcnt <= 1024 && v@.len() == iovcnt && is_vector_read(
                v@,
                iov,
                reads,
            )
            &&& r matches Err(e) ==> iovcnt > 1024 || (reads.len() <= iovcnt && is_vector_refused(
                e,
                iov,
                reads,
            ))
        }),
{
    let reads = final(vm).accesses().skip(old(vm).accesses().len() as int);
    let outcome: AxResult<Seq<IoVec>> = match r {
        Ok(v) => Ok(v@),
        Err(e) => Err(e),
    };
    lemma_vector_read(iov, iovcnt, reads, outcome);
}

/// The copy begins with what was read of both vectors, the local one first.
pub open spec fn begins_copy(
    c: CopyVm,
    local_iov: usize,
    liovcnt: usize,
    remote_iov: usize,
    riovcnt: usize,
    reads: Seq<VmAccess>,
) -> bool {
    &&& c.local@.len() == liovcnt && c.remote@.len() == riovcnt
    &&& reads.len() == liovcnt + riovcnt
    &&& is_vector_read(c.local@, local_iov, reads.take(liovcnt as int))
    &&& is_vector_read(c.remote@, remote_iov, reads.skip(liovcnt as int))
    &&& c.copied == 0 && c.chunk_len == 0
}

/// What reading both vectors brings, in numbers.
proof fn lemma_both_read(
    local_iov: usize,
    liovcnt: usize,
    remote_iov: usize,
    riovcnt: usize,
    reads: Seq<VmAccess>,
    r: AxResult<(Seq<IoVec>, Seq<IoVec>)>,
)
    requires
        usize::BITS == 64,
        read_both_outcome(local_iov, liovcnt, remote_iov, riovcnt, reads, r),
    ensures
        r matches Ok((l, m)) ==> {
            &&& l.len() == liovcnt && m.len() == riovcnt
            &&& reads.len() == liovcnt + riovcnt
            &&& is_vector_read(l, local_iov, reads.take(liovcnt as int))
            &&& is_vector_read(m, remote_iov, reads.skip(liovcnt as int))
        },
        r matches Err(e) ==> {
            ||| e == AxError::InvalidInput && (liovcnt > 1024 || riovcnt > 1024)
            ||| is_vector_refused(e, local_iov, reads)
            ||| is_vector_refused(e, remote_iov, reads.skip(liovcnt as int))
        },
{
    let n = liovcnt as int;
    match r {
        Ok((l, m)) => {
            lemma_vector_read(local_iov, liovcnt, reads.take(n), Ok(l));
            lemma_vector_read(remote_iov, riovcnt, reads.skip(n), Ok(m));
        },
        Err(e) => {
            if read_iovecs_outcome(local_iov, liovcnt, reads, Err(e)) {
                lemma_vector_read(local_iov, liovcnt, reads, Err(e));
            } else {
                lemma_vector_read(remote_iov, riovcnt, reads.skip(n), Err(e));
            }
        },
    }
}

/// A copy is for root, from or to a process that there is, and without flags;
/// nothing is read before that is clear. It then begins with what both vectors
/// say, and goes the way that was asked for.
pub proof fn law_copy_begins_with_both_vectors<V: VmIo>(
    vm: &mut UserMemory<V>,
    found: bool,
    euid: u32,
    local_iov: usize,
    liovcnt: usize,
    remote_iov: usize,
    riovcnt: usize,
    write_remote: bool,
    r: AxResult<CopyVm>,
)
    requires
        usize::BITS == 64,
        call_ensures(
            copy_vm,
            (vm, found, euid, local_iov, liovcnt, remote_iov, riovcnt, write_remote),
            r,
        ),
    ensures
        ({
            let reads = final(vm).accesses().skip(old(vm).accesses().len() as int);
            &&& !found || euid > 0 ==> reads.len() == 0 && r is Err
            &&& !found ==> r->Err_0 is NoSuchProcess
            &&& found && euid > 0 ==> r->Err_0 is OperationNotPermitted
            &&& r matches Ok(c) ==> {
                &&& c.write_remote == write_remote
                &&& begins_copy(c, local_iov, liovcnt, remote_iov, riovcnt, reads)
            }
            &&& found && euid == 0 && r is Err ==> {
                ||| r->Err_0 is InvalidInput && (liovcnt > 1024 || riovcnt > 1024)
                ||| is_vector_refused(r->Err_0, local_iov, reads)
                ||| is_vector_refused(r->Err_0, remote_iov, reads.skip(liovcnt as int))
            }
        }),
{
    let reads = final(vm).accesses().skip(old(vm).accesses().len() as int);
    if found && euid == 0 {
        let outcome: AxResult<(Seq<IoVec>, Seq<IoVec>)> = match r {
            Ok(c) => Ok((c.local@, c.remote@)),
            Err(e) => Err(e),
        };
        lemma_both_read(local_iov, liovcnt, remote_iov, riovcnt, reads, outcome);
    }
}

/// Reading from another process is a copy that does not write it.
pub proof fn law_readv_does_not_write<V: VmIo>(
    vm: &mut UserMemory<V>,
    found: bool,
    euid: u32,
    local_iov: usize,
    liovcnt: usize,
    remote_iov: usize,
    riovcnt: usize,
    flags: usize,
    r: AxResult<CopyVm>,
)
    requires
        usize::BITS == 64,
        call_ensures(
            sys_process_vm_readv,
            (vm, found, euid, local_iov, liovcnt, remote_iov, riovcnt, flags),
            r,
        ),
    ensures
        ({
            let reads = final(vm).accesses().skip(old(vm).accesses().len() as int);
            &&& flags != 0 || !found || euid > 0 ==> reads.len() == 0 && r is Err
            &&& flags != 0 ==> r->Err_0 is InvalidInput
            &&& flags == 0 && !found ==> r->Err_0 is NoSuchProcess
            &&& flags == 0 && found && euid > 0 ==> r->Err_0 is OperationNotPermitted
            &&& r matches Ok(c) ==> {
                &&& !c.write_remote
                &&& begins_copy(c, local_iov, liovcnt, remote_iov, riovcnt, reads)
            }
            &&& flags == 0 && found && euid == 0 && r is Err ==> {
                ||| r->Err_0 is InvalidInput && (liovcnt > 1024 || riovcnt > 1024)
                ||| is_vector_refused(r->Err_0, local_iov, reads)
                ||| is_vector_refused(r->Err_0, remote_iov, reads.skip(liovcnt as int))
            }
        }),
{
    let reads = final(vm).accesses().skip(old(vm).accesses().len() as int);
    if flags == 0 && found && euid == 0 {
        let outcome: AxResult<(Seq<IoVec>, Seq<IoVec>)> = match r {
            Ok(c) => Ok((c.local@, c.remote@)),
            Err(e) => Err(e),
        };
        lemma_both_read(local_iov, liovcnt, remote_iov, riovcnt, reads, outcome);
    }
}

/// Writing to another process is a copy that writes it.
pub proof fn law_writev_writes<V: VmIo>(
    vm: &mut UserMemory<V>,
    found: bool,
    euid: u32,
    local_iov: usize,
    liovcnt: usize,
    remote_iov: usize,
    riovcnt: usize,
    flags: usize,
    r: AxResult<CopyVm>,
)
    requires
        usize::BITS == 64,
        call_ensures(
            sys_process_vm_writev,
            (vm, found, euid, local_iov, liovcnt, remote_iov, riovcnt, flags),
            r,
        ),
    ensures
        ({
            let reads = final(vm).accesses().skip(old(vm).accesses().len() as int);
            &&& flags != 0 || !found || euid > 0 ==> reads.len() == 0 && r is Err
            &&& flags != 0 ==> r->Err_0 is InvalidInput
            &&& flags == 0 && !found ==> r->Err_0 is NoSuchProcess
            &&& flags == 0 && found && euid > 0 ==> r->Err_0 is OperationNotPermitted
            &&& r matches Ok(c) ==> {
                &&& c.write_remote
                &&& begins_copy(c, local_iov, liovcnt, remote_iov, riovcnt, reads)
            }
            &&& flags == 0 && found && euid == 0 && r is Err ==> {
                ||| r->Err_0 is InvalidInput && (liovcnt > 1024 || riovcnt > 1024)
                ||| is_vector_refused(r->Err_0, local_iov, reads)
                ||| is_vector_refused(r->Err_0, remote_iov, reads.skip(liovcnt as int))
            }
        }),
{
    let reads = final(vm).accesses().skip(old(vm).accesses().len() as int);
    if flags == 0 && found && euid == 0 {
        let outcome: AxResult<(Seq<IoVec>, Seq<IoVec>)> = match r {
            Ok(c) => Ok((c.local@, c.remote@)),
            Err(e) => Err(e),
        };
        lemma_both_read(local_iov, liovcnt, remote_iov, riovcnt, reads, outcome);
    }
}

/// A process is the one with the id that is named; where the id is none, there
/// is no such process.
pub proof fn law_tracee_is_the_one_named(pid: usize, r: AxResult<u32>)
    requires
        call_ensures(tracee_pid, (pid,), r),
    ensures
        r matches Ok(p) ==> p == pid,
        r matches Err(e) ==> e is NoSuchProcess,
        r is Ok <==> pid < 0x1_0000_0000,
{
}

/// The pages that are made present are whole, hold every byte of the range, and
/// are no more than needed for that.
pub proof fn law_range_is_made_present(addr: usize, len: usize, r: AxResult<(usize, usize)>)
    requires
        addr + len > usize::MAX || addr + len + 4096 <= usize::MAX,
        call_ensures(ptrace_populate_remote_range, (addr, len), r),
    ensures
        r is Ok <==> addr + len <= usize::MAX,
        r matches Err(e) ==> e is BadAddress,
        r matches Ok((start, size)) ==> {
            &&& start % 4096 == 0 && size % 4096 == 0
            &&& start <= addr < start + 4096
            &&& addr + len <= start + size < addr + len + 4096
        },
{
}

/// Skipping empty pieces stays at the byte of the stream, and comes to a piece
/// that holds it unless the stream is over.
pub proof fn law_skipping_stays_at_the_byte(
    iovecs: &Vec<IoVec>,
    idx: &mut usize,
    offset: &mut usize,
    pos: int,
)
    requires
        is_valid(iovecs@),
        is_position(iovecs@, *old(idx) as int, *old(offset) as int, pos),
        call_ensures(skip_empty, (iovecs, idx, offset), ()),
    ensures
        is_position(iovecs@, *final(idx) as int, *final(offset) as int, pos),
        ({
            let i = *final(idx) as int;
            let piece = iovecs@[i];
            &&& i < iovecs@.len() ==> stream(iovecs@)[pos] == piece.iov_base + *final(offset)
            &&& i < iovecs@.len() ==> *final(offset) < piece.iov_len
        }),
        *final(idx) >= iovecs@.len() ==> pos == stream(iovecs@).len(),
{
    lemma_skip(
        iovecs@,
        *old(idx) as int,
        *old(offset) as int,
        pos,
        *final(idx) as int,
        *final(offset) as int,
    );
    lemma_stream_len(iovecs@);
    if *final(idx) < iovecs@.len() {
        lemma_position_within(iovecs@, *final(idx) as int, *final(offset) as int, pos);
        lemma_stream_byte(iovecs@, pos);
        lemma_entry_at(iovecs@, pos, *final(idx) as int);
        lemma_total_step(iovecs@, *final(idx) as int);
    }
}

/// A new copy is between the vectors that it is given, goes the way that it is
/// told, and has copied nothing.
pub proof fn law_new_copy_has_copied_nothing(
    local: Vec<IoVec>,
    remote: Vec<IoVec>,
    write_remote: bool,
    r: CopyVm,
)
    requires
        is_valid(local@),
        is_valid(remote@),
        call_ensures(CopyVm::new, (local, remote, write_remote), r),
    ensures
        r.local == local && r.remote == remote && r.write_remote == write_remote,
        r.copied == 0 && r.chunk_len == 0,
{
}

} // verus!
