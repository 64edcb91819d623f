//! Auxiliary vector entries.

use vstd::prelude::*;

verus! {

/// End of the vector.
pub const AT_NULL: usize = 0;

/// Address of the program headers.
pub const AT_PHDR: usize = 3;

/// Size of a program header.
pub const AT_PHENT: usize = 4;

/// Number of program headers.
pub const AT_PHNUM: usize = 5;

/// Page size.
pub const AT_PAGESZ: usize = 6;

/// Load address of the dynamic linker.
pub const AT_BASE: usize = 7;

/// Entry point of the program.
pub const AT_ENTRY: usize = 9;

/// Real user id.
pub const AT_UID: usize = 11;

/// Effective user id.
pub const AT_EUID: usize = 12;

/// Real group id.
pub const AT_GID: usize = 13;

/// Effective group id.
pub const AT_EGID: usize = 14;

/// CPU capabilities.
pub const AT_HWCAP: usize = 16;

/// Whether the program runs with raised privileges.
pub const AT_SECURE: usize = 23;

/// Address of sixteen random bytes.
pub const AT_RANDOM: usize = 25;

/// Address of the name the program was started with.
pub const AT_EXECFN: usize = 31;

/// One entry of the auxiliary vector.
#[derive(Debug, Clone, Copy, PartialEq, Eq, Structural)]
pub struct AuxEntry {
    /// What the entry is about, one of the `AT_` numbers.
    pub kind: usize,
    /// The value.
    pub value: usize,
}

/// Some entry of `auxv` is of the kind `kind`.
pub open spec fn has_kind(auxv: Seq<AuxEntry>, kind: usize) -> bool {
    exists|i: int| 0 <= i < auxv.len() && (#[trigger] auxv[i]).kind == kind
}

/// Whether some entry of `auxv` is of the kind `kind`.
pub fn contains_kind(auxv: &Vec<AuxEntry>, kind: usize) -> (r: bool)
    ensures
        r == has_kind(auxv@, kind),
{
    let mut i: usize = 0;
    while i < auxv.len()
        invariant
            i <= auxv@.len(),
            forall|j: int| 0 <= j < i ==> (#[trigger] auxv@[j]).kind != kind,
        decreases auxv@.len() - i,
    {
        if auxv[i].kind == kind {
            return true;
        }
        i = i + 1;
    }
    false
}

/// A kind is there if some entry has it, and not if all have another.
pub proof fn law_kinds_are_found(auxv: &Vec<AuxEntry>, kind: usize, r: bool)
    requires
        call_ensures(contains_kind, (auxv, kind), r),
    ensures
        r ==> exists|i: int| 0 <= i < auxv@.len() && (#[trigger] auxv@[i]).kind == kind,
        !r ==> forall|i: int| 0 <= i < auxv@.len() ==> (#[trigger] auxv@[i]).kind != kind,
{
}

} // verus!
