//! Typed user pointers.
//!
//! A user pointer is an address together with the size of the value it
//! denotes. Values are exchanged as the bytes that make them up.

use vstd::prelude::*;
use crate::vm::{vm_load_any, vm_write_slice, VmResult};
use crate::vm_io::{UserMemory, VmAccess, VmIo};

verus! {

/// A pointer into user memory.
pub trait VmPtr: Copy {
    /// The address, as a specification value.
    spec fn spec_ptr(self) -> usize;

    /// The size of the value pointed to, as a specification value.
    spec fn spec_size(self) -> usize;

    /// The address.
    fn as_ptr(self) -> (r: usize)
        ensures
            r == self.spec_ptr(),
    ;

    /// The size of the value pointed to.
    fn target_size(self) -> (r: usize)
        ensures
            r == self.spec_size(),
    ;

    /// `None` for the null pointer, the pointer itself otherwise.
    fn nullable(self) -> (r: Option<Self>)
        ensures
            r == (if self.spec_ptr() == 0 {
                None::<Self>
            } else {
                Some(self)
            }),
    {
        if self.as_ptr() == 0 {
            None
        } else {
            Some(self)
        }
    }

    /// Reads the bytes of the value pointed to, which need not be a value of
    /// its type.
    fn vm_read_uninit<V: VmIo>(self, vm: &mut UserMemory<V>) -> (r: VmResult<Vec<u8>>)
        requires
            self.spec_size() <= isize::MAX,
        ensures
            ({
                let outcome: VmResult<Seq<u8>> = match r {
                    Ok(v) => Ok(v@),
                    Err(e) => Err(e),
                };
                final(vm).accesses() == old(vm).accesses().push(
                    VmAccess::Read {
                        start: self.spec_ptr(),
                        len: self.spec_size() as nat,
                        outcome,
                    },
                )
            }),
            final(vm).continues(*old(vm)),
            r matches Ok(v) ==> v@.len() == self.spec_size(),
    {
        vm_load_any(vm, self.as_ptr(), 1, self.target_size())
    }

    /// Reads the bytes of a value for which every bit pattern is valid.
    fn vm_read<V: VmIo>(self, vm: &mut UserMemory<V>) -> (r: VmResult<Vec<u8>>)
        requires
            self.spec_size() <= isize::MAX,
        ensures
            ({
                let outcome: VmResult<Seq<u8>> = match r {
                    Ok(v) => Ok(v@),
                    Err(e) => Err(e),
                };
                final(vm).accesses() == old(vm).accesses().push(
                    VmAccess::Read {
                        start: self.spec_ptr(),
                        len: self.spec_size() as nat,
                        outcome,
                    },
                )
            }),
            final(vm).continues(*old(vm)),
            r matches Ok(v) ==> v@.len() == self.spec_size(),
    {
        self.vm_read_uninit(vm)
    }
}

/// A pointer through which user memory may be overwritten.
pub trait VmMutPtr: VmPtr {
    /// Overwrites the value pointed to with the value made up of `value`.
    fn vm_write<V: VmIo>(self, vm: &mut UserMemory<V>, value: &[u8]) -> (r: VmResult<()>)
        requires
            value@.len() == self.spec_size(),
        ensures
            final(vm).continues(*old(vm)),
            final(vm).accesses() == old(vm).accesses().push(
                VmAccess::Write { start: self.spec_ptr(), data: value@, result: r },
            ),
    {
        vm_write_slice(vm, self.as_ptr(), value)
    }
}

/// A pointer for reading.
#[derive(Debug, Clone, Copy)]
pub struct ConstPtr {
    /// The address.
    pub addr: usize,
    /// The size of the value pointed to.
    pub size: usize,
}

impl VmPtr for ConstPtr {
    open spec fn spec_ptr(self) -> usize {
        self.addr
    }

    open spec fn spec_size(self) -> usize {
        self.size
    }

    fn as_ptr(self) -> usize {
        self.addr
    }

    fn target_size(self) -> usize {
        self.size
    }
}

/// A pointer for reading and writing.
#[derive(Debug, Clone, Copy)]
pub struct MutPtr {
    /// The address.
    pub addr: usize,
    /// The size of the value pointed to.
    pub size: usize,
}

impl VmPtr for MutPtr {
    open spec fn spec_ptr(self) -> usize {
        self.addr
    }

    open spec fn spec_size(self) -> usize {
        self.size
    }

    fn as_ptr(self) -> usize {
        self.addr
    }

    fn target_size(self) -> usize {
        self.size
    }
}

impl VmMutPtr for MutPtr {

}

/// A pointer for reading and writing that is never null.
#[derive(Debug, Clone, Copy)]
pub struct NonNullPtr {
    addr: usize,
    size: usize,
}

impl NonNullPtr {
    #[verifier::type_invariant]
    spec fn wf(self) -> bool {
        self.addr != 0
    }

    /// A pointer to `addr`, unless that is null.
    pub fn new(addr: usize, size: usize) -> (r: Option<Self>)
        ensures
            r is None <==> addr == 0,
            r matches Some(p) ==> p.spec_ptr() == addr && p.spec_size() == size,
    {
        if addr == 0 {
            None
        } else {
            Some(NonNullPtr { addr, size })
        }
    }

    /// The address, which is not null.
    pub fn get(self) -> (r: usize)
        ensures
            r == self.spec_ptr(),
            r != 0,
    {
        proof {
            use_type_invariant(&self);
        }
        self.addr
    }
}

impl VmPtr for NonNullPtr {
    closed spec fn spec_ptr(self) -> usize {
        self.addr
    }

    closed spec fn spec_size(self) -> usize {
        self.size
    }

    fn as_ptr(self) -> usize {
        self.addr
    }

    fn target_size(self) -> usize {
        self.size
    }
}

impl VmMutPtr for NonNullPtr {

}

/// The null pointer points to nothing, and every other one to what it points to.
pub proof fn law_null_points_to_nothing<P: VmPtr>(p: P, addr: usize, r: Option<P>)
    requires
        call_ensures(P::as_ptr, (p,), addr),
        call_ensures(P::nullable, (p,), r),
    ensures
        r is None <==> addr == 0,
        r matches Some(q) ==> q == p,
{
}

/// Pointers have the address and the size that they were made with, and one that
/// is never null is not made of null.
pub proof fn law_pointers_are_as_made(
    c: ConstPtr,
    m: MutPtr,
    addr: usize,
    size: usize,
    c_addr: usize,
    c_size: usize,
    m_addr: usize,
    m_size: usize,
    n: Option<NonNullPtr>,
    n_addr: usize,
    n_size: usize,
    n_get: usize,
)
    requires
        call_ensures(<ConstPtr as VmPtr>::as_ptr, (c,), c_addr),
        call_ensures(<ConstPtr as VmPtr>::target_size, (c,), c_size),
        call_ensures(<MutPtr as VmPtr>::as_ptr, (m,), m_addr),
        call_ensures(<MutPtr as VmPtr>::target_size, (m,), m_size),
        call_ensures(NonNullPtr::new, (addr, size), n),
        n matches Some(p) ==> {
            &&& call_ensures(<NonNullPtr as VmPtr>::as_ptr, (p,), n_addr)
            &&& call_ensures(<NonNullPtr as VmPtr>::target_size, (p,), n_size)
            &&& call_ensures(NonNullPtr::get, (p,), n_get)
        },
    ensures
        c_addr == c.addr && c_size == c.size && m_addr == m.addr && m_size == m.size,
        n is Some <==> addr != 0,
        n is Some ==> n_addr == addr && n_get == addr && n_size == size,
{
}

} // verus!
