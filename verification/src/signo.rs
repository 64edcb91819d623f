//! Signal numbers.

use vstd::prelude::*;

verus! {

/// Illegal instruction.
pub const SIGILL: u8 = 4;

/// Trace or breakpoint trap.
pub const SIGTRAP: u8 = 5;

/// Bus error.
pub const SIGBUS: u8 = 7;

/// Invalid memory reference.
pub const SIGSEGV: u8 = 11;

/// A child stopped or terminated.
pub const SIGCHLD: u8 = 17;

/// The highest signal number.
pub const SIG_MAX: u8 = 64;

/// A signal.
#[derive(Debug, Clone, Copy, PartialEq, Eq, Structural)]
pub struct Signo {
    /// The number of the signal, from 1 to [`SIG_MAX`].
    pub number: u8,
}

impl Signo {
    /// The number is that of a signal.
    pub open spec fn wf(self) -> bool {
        1 <= self.number <= SIG_MAX
    }

    /// The signal with the number `number`, if there is one.
    pub fn from_repr(number: u8) -> (r: Option<Signo>)
        ensures
            r == (if 1 <= number <= SIG_MAX {
                Some(Signo { number })
            } else {
                None
            }),
    {
        if 1 <= number && number <= SIG_MAX {
            Some(Signo { number })
        } else {
            None
        }
    }
}

/// There is a signal for each number from one to sixty-four, and it has that
/// number.
pub proof fn law_signals_have_their_numbers(number: u8, r: Option<Signo>)
    requires
        call_ensures(Signo::from_repr, (number,), r),
    ensures
        r is Some <==> 0 < number <= 64,
        r matches Some(signo) ==> signo.number == number && signo.wf(),
{
}

} // verus!
