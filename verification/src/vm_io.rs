//! The door to user memory.

use vstd::prelude::*;
use crate::vm::VmResult;

verus! {

/// The interface to user memory, implemented by the embedding kernel.
///
/// User memory is shared with running user code, so nothing is promised of the
/// bytes that come back.
pub trait VmIo: Sized {
    /// A door `before` that is asked to read at `start` into a buffer that holds
    /// `asked` may answer `r`, leave `got` in the buffer and become `after`. An
    /// implementation that says nothing of it may do anything.
    open spec fn may_read(
        before: Self,
        start: usize,
        asked: Seq<u8>,
        got: Seq<u8>,
        r: VmResult<()>,
        after: Self,
    ) -> bool {
        true
    }

    /// A door `before` that is asked to write `data` at `start` may answer `r`
    /// and become `after`. An implementation that says nothing of it may do
    /// anything.
    open spec fn may_write(
        before: Self,
        start: usize,
        data: Seq<u8>,
        r: VmResult<()>,
        after: Self,
    ) -> bool {
        true
    }

    /// Creates an instance.
    fn new() -> Self;

    /// Reads user memory starting at `start` into `buf`.
    fn read(&mut self, start: usize, buf: &mut [u8]) -> (r: VmResult<()>)
        ensures
            final(buf)@.len() == old(buf)@.len(),
            Self::may_read(*old(self), start, old(buf)@, final(buf)@, r, *final(self)),
    ;

    /// Writes `buf` to user memory starting at `start`.
    fn write(&mut self, start: usize, buf: &[u8]) -> (r: VmResult<()>)
        ensures
            Self::may_write(*old(self), start, buf@, r, *final(self)),
    ;
}

/// One access to user memory together with its outcome.
pub ghost enum VmAccess {
    /// `len` bytes were asked for at `start`.
    Read { start: usize, len: nat, outcome: VmResult<Seq<u8>> },
    /// `data` was to be stored at `start`.
    Write { start: usize, data: Seq<u8>, result: VmResult<()> },
}

/// The read of `len` bytes at `start` that `r` reports, with `data` in the
/// buffer afterwards.
pub open spec fn read_access(start: usize, data: Seq<u8>, r: VmResult<()>) -> VmAccess {
    VmAccess::Read {
        start,
        len: data.len(),
        outcome: match r {
            Ok(_) => Ok(data),
            Err(e) => Err(e),
        },
    }
}

/// The access `a` is what the door `before` may answer, becoming `after`. Of a
/// door that is not known, nothing but asking it shows that.
pub open spec fn door_access<V: VmIo>(before: V, a: VmAccess, after: V) -> bool {
    match a {
        VmAccess::Read { start, len, outcome } => exists|asked: Seq<u8>, got: Seq<u8>, r: VmResult<()>|
            {
                &&& #[trigger] V::may_read(before, start, asked, got, r, after)
                &&& asked.len() == len
                &&& a == read_access(start, got, r)
            },
        VmAccess::Write { start, data, result } => V::may_write(before, start, data, result, after),
    }
}

/// The accesses are answers of one door, each of them by what the one before
/// left of it.
pub open spec fn is_chain<V: VmIo>(doors: Seq<V>, accesses: Seq<VmAccess>) -> bool {
    &&& doors.len() == accesses.len() + 1
    &&& forall|k: int|
        0 <= k < accesses.len() ==> door_access(doors[k], #[trigger] accesses[k], doors[k + 1])
}

/// The accesses lead from the door `before` to the door `after`.
pub open spec fn leads<V: VmIo>(before: V, accesses: Seq<VmAccess>, after: V) -> bool {
    exists|doors: Seq<V>| #[trigger]
        is_chain(doors, accesses) && doors[0] == before && doors.last() == after
}

/// User memory, with a record of the accesses that were made to it.
pub struct UserMemory<V> {
    io: V,
    log: Ghost<Seq<VmAccess>>,
}

impl<V: VmIo> UserMemory<V> {
    /// The accesses that were made, oldest first.
    pub closed spec fn accesses(&self) -> Seq<VmAccess> {
        self.log@
    }

    /// What is behind the door, as a specification value.
    pub closed spec fn inner(&self) -> V {
        self.io
    }

    /// User memory behind a new door that nothing has accessed yet.
    pub fn new() -> (r: Self)
        ensures
            r.accesses() == Seq::<VmAccess>::empty(),
            call_ensures(V::new, (), r.inner()),
    {
        UserMemory::over(V::new())
    }

    /// User memory behind `io` that nothing has accessed yet.
    pub fn over(io: V) -> (r: Self)
        ensures
            r.accesses() == Seq::<VmAccess>::empty(),
            r.inner() == io,
    {
        UserMemory { io, log: Ghost(Seq::empty()) }
    }

    /// What is behind the door.
    pub fn io(&self) -> (r: &V)
        ensures
            *r == self.inner(),
    {
        &self.io
    }

    /// What is behind the door, without the door.
    pub fn into_inner(self) -> (r: V)
        ensures
            r == self.inner(),
    {
        self.io
    }

    /// This is `before` after some more accesses, all of which went through the
    /// door.
    pub open spec fn continues(self, before: Self) -> bool {
        &&& before.accesses().is_prefix_of(self.accesses())
        &&& leads(
            before.inner(),
            self.accesses().skip(before.accesses().len() as int),
            self.inner(),
        )
    }

    /// Reads user memory starting at `start` into `buf`.
    pub fn read(&mut self, start: usize, buf: &mut [u8]) -> (r: VmResult<()>)
        ensures
            final(buf)@.len() == old(buf)@.len(),
            exists|io: &mut V, b: &mut [u8]| #[trigger]
                call_ensures(V::read, (io, start, b), r) && *io == old(self).inner() && *final(io)
                    == final(self).inner() && b@ == old(buf)@ && final(b)@ == final(buf)@,
            final(self).continues(*old(self)),
            final(self).accesses() == old(self).accesses().push(
                read_access(start, final(buf)@, r),
            ),
    {
        let ghost before = *self;
        let ghost asked = buf@;
        let r = self.io.read(start, buf);
        self.log = Ghost(self.log@.push(read_access(start, buf@, r)));
        proof {
            let a = read_access(start, buf@, r);
            assert(V::may_read(before.io, start, asked, buf@, r, self.io));
            lemma_leads_by(before.io, a, self.io);
            assert(self.accesses().skip(before.accesses().len() as int) =~= seq![a]);
        }
        r
    }

    /// Writes `buf` to user memory starting at `start`.
    pub fn write(&mut self, start: usize, buf: &[u8]) -> (r: VmResult<()>)
        ensures
            exists|io: &mut V| #[trigger]
                call_ensures(V::write, (io, start, buf), r) && *io == old(self).inner()
                    && *final(io) == final(self).inner(),
            final(self).continues(*old(self)),
            final(self).accesses() == old(self).accesses().push(
                VmAccess::Write { start, data: buf@, result: r },
            ),
    {
        let ghost before = *self;
        let r = self.io.write(start, buf);
        self.log = Ghost(self.log@.push(VmAccess::Write { start, data: buf@, result: r }));
        proof {
            let a = VmAccess::Write { start, data: buf@, result: r };
            lemma_leads_by(before.io, a, self.io);
            assert(self.accesses().skip(before.accesses().len() as int) =~= seq![a]);
        }
        r
    }
}

/// One access leads from the door before it to the door after it.
proof fn lemma_leads_by<V: VmIo>(before: V, a: VmAccess, after: V)
    requires
        door_access(before, a, after),
    ensures
        leads(before, seq![a], after),
{
    assert(is_chain(seq![before, after], seq![a]));
}

/// Memory continues itself.
pub proof fn lemma_continues_itself<V: VmIo>(vm: UserMemory<V>)
    ensures
        vm.continues(vm),
{
    assert(vm.accesses().skip(vm.accesses().len() as int) =~= Seq::<VmAccess>::empty());
    assert(is_chain(seq![vm.inner()], Seq::<VmAccess>::empty()));
}

/// What continues a continuation continues the beginning.
pub proof fn lemma_continues_on<V: VmIo>(
    first: UserMemory<V>,
    middle: UserMemory<V>,
    last: UserMemory<V>,
)
    requires
        middle.continues(first),
        last.continues(middle),
    ensures
        last.continues(first),
{
    let n = first.accesses().len() as int;
    let m = middle.accesses().len() as int;
    let s = middle.accesses().skip(n);
    let t = last.accesses().skip(m);
    let all = last.accesses().skip(n);
    let ds = choose|doors: Seq<V>| #[trigger]
        is_chain(doors, s) && doors[0] == first.inner() && doors.last() == middle.inner();
    let dt = choose|doors: Seq<V>| #[trigger]
        is_chain(doors, t) && doors[0] == middle.inner() && doors.last() == last.inner();
    let doors = ds.drop_last() + dt;
    assert(all =~= s + t);
    assert forall|k: int| 0 <= k < all.len() implies door_access(
        doors[k],
        #[trigger] all[k],
        doors[k + 1],
    ) by {
        if k < s.len() {
            assert(door_access(ds[k], s[k], ds[k + 1]));
        } else {
            assert(door_access(dt[k - s.len()], t[k - s.len()], dt[k - s.len() + 1]));
        }
    }
    assert(is_chain(doors, all));
}

/// A door that was put in front of memory is the one in front of it, and nothing
/// was accessed through it yet.
pub proof fn law_door_is_the_one_put_there<V: VmIo>(
    io: V,
    vm: UserMemory<V>,
    seen: &V,
    back: V,
)
    requires
        call_ensures(UserMemory::<V>::over, (io,), vm),
        call_ensures(UserMemory::<V>::io, (&vm,), seen),
        call_ensures(UserMemory::<V>::into_inner, (vm,), back),
    ensures
        *seen == io && back == io && vm.accesses().len() == 0,
{
}

/// Each read and each write is recorded as it was made, behind those before it.
pub proof fn law_accesses_are_recorded<V: VmIo>(
    reading: &mut UserMemory<V>,
    from: usize,
    buf: &mut [u8],
    read: VmResult<()>,
    writing: &mut UserMemory<V>,
    to: usize,
    data: &[u8],
    written: VmResult<()>,
)
    requires
        call_ensures(UserMemory::<V>::read, (reading, from, buf), read),
        call_ensures(UserMemory::<V>::write, (writing, to, data), written),
    ensures
        final(reading).accesses() == old(reading).accesses().push(
            VmAccess::Read {
                start: from,
                len: old(buf)@.len(),
                outcome: match read {
                    Ok(_) => Ok(final(buf)@),
                    Err(e) => Err(e),
                },
            },
        ),
        final(writing).accesses() == old(writing).accesses().push(
            VmAccess::Write { start: to, data: data@, result: written },
        ),
{
}

/// Memory behind a new door was not accessed yet, and the door is a new one.
pub proof fn law_new_memory_is_untouched<V: VmIo>(vm: UserMemory<V>)
    requires
        call_ensures(UserMemory::<V>::new, (), vm),
    ensures
        vm.accesses().len() == 0 && call_ensures(V::new, (), vm.inner()),
{
}

} // verus!
