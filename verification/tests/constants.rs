use kernel_elf_parser::AuxType;
use linux_raw_sys::general;
use starry_task::signo::Signo;
use starry_task::{auxv, clone, exec, signo, wait};

#[test]
fn wait_options_are_those_of_linux() {
    assert_eq!(wait::WNOHANG, general::WNOHANG);
    assert_eq!(wait::WUNTRACED, general::WUNTRACED);
    assert_eq!(wait::WEXITED, general::WEXITED);
    assert_eq!(wait::WCONTINUED, general::WCONTINUED);
    assert_eq!(wait::WNOWAIT, general::WNOWAIT);
    assert_eq!(wait::WNOTHREAD, general::__WNOTHREAD);
    assert_eq!(wait::WALL, general::__WALL);
    assert_eq!(wait::WCLONE, general::__WCLONE);
    assert_eq!(wait::P_ALL, general::P_ALL);
    assert_eq!(wait::P_PID, general::P_PID);
    assert_eq!(wait::P_PGID, general::P_PGID);
    assert_eq!(wait::P_PIDFD, general::P_PIDFD);
    assert_eq!(
        wait::WAITPID_MASK,
        wait::WNOHANG
            | wait::WUNTRACED
            | wait::WCONTINUED
            | wait::WNOTHREAD
            | wait::WALL
            | wait::WCLONE
    );
    assert_eq!(
        wait::WAITID_MASK,
        wait::WAITPID_MASK | wait::WEXITED | wait::WNOWAIT
    );
    assert_eq!(
        wait::SIGINFO_SIZE,
        std::mem::size_of::<general::siginfo>()
    );
}

#[test]
fn clone_flags_are_those_of_linux() {
    let known = [
        (clone::CLONE_VM, general::CLONE_VM as u64),
        (clone::CLONE_FS, general::CLONE_FS as u64),
        (clone::CLONE_FILES, general::CLONE_FILES as u64),
        (clone::CLONE_SIGHAND, general::CLONE_SIGHAND as u64),
        (clone::CLONE_PIDFD, general::CLONE_PIDFD as u64),
        (clone::CLONE_VFORK, general::CLONE_VFORK as u64),
        (clone::CLONE_PARENT, general::CLONE_PARENT as u64),
        (clone::CLONE_THREAD, general::CLONE_THREAD as u64),
        (clone::CLONE_SYSVSEM, general::CLONE_SYSVSEM as u64),
        (clone::CLONE_SETTLS, general::CLONE_SETTLS as u64),
        (clone::CLONE_PARENT_SETTID, general::CLONE_PARENT_SETTID as u64),
        (clone::CLONE_CHILD_CLEARTID, general::CLONE_CHILD_CLEARTID as u64),
        (clone::CLONE_DETACHED, general::CLONE_DETACHED as u64),
        (clone::CLONE_CHILD_SETTID, general::CLONE_CHILD_SETTID as u64),
        (clone::CLONE_IO, general::CLONE_IO as u64),
        (clone::CLONE_CLEAR_SIGHAND, 0x1_0000_0000),
    ];
    let mut mask = 0u64;
    for (ours, theirs) in known {
        assert_eq!(ours, theirs);
        mask |= ours;
    }
    assert_eq!(clone::CLONE_MASK, mask);
}

#[test]
fn exec_flags_are_those_of_linux() {
    assert_eq!(exec::AT_EMPTY_PATH, general::AT_EMPTY_PATH);
    assert_eq!(exec::AT_SYMLINK_NOFOLLOW, general::AT_SYMLINK_NOFOLLOW);
    assert_eq!(
        exec::EXECVEAT_MASK,
        exec::AT_EMPTY_PATH | exec::AT_SYMLINK_NOFOLLOW
    );
}

#[test]
fn signal_numbers_are_those_of_linux() {
    assert_eq!(signo::SIGILL as u32, general::SIGILL);
    assert_eq!(signo::SIGTRAP as u32, general::SIGTRAP);
    assert_eq!(signo::SIGBUS as u32, general::SIGBUS);
    assert_eq!(signo::SIGSEGV as u32, general::SIGSEGV);
    assert_eq!(signo::SIGCHLD as u32, general::SIGCHLD);
    assert_eq!(starry_task::user::SEGV_MAPERR as u32, general::SEGV_MAPERR);
    assert_eq!(starry_task::user::SEGV_ACCERR as u32, general::SEGV_ACCERR);
}

#[test]
fn auxiliary_vector_kinds_are_those_of_the_parser() {
    assert_eq!(auxv::AT_NULL, AuxType::NULL as usize);
    assert_eq!(auxv::AT_PHDR, AuxType::PHDR as usize);
    assert_eq!(auxv::AT_PHENT, AuxType::PHENT as usize);
    assert_eq!(auxv::AT_PHNUM, AuxType::PHNUM as usize);
    assert_eq!(auxv::AT_PAGESZ, AuxType::PAGESZ as usize);
    assert_eq!(auxv::AT_BASE, AuxType::BASE as usize);
    assert_eq!(auxv::AT_ENTRY, AuxType::ENTRY as usize);
    assert_eq!(auxv::AT_UID, AuxType::UID as usize);
    assert_eq!(auxv::AT_EUID, AuxType::EUID as usize);
    assert_eq!(auxv::AT_GID, AuxType::GID as usize);
    assert_eq!(auxv::AT_EGID, AuxType::EGID as usize);
    assert_eq!(auxv::AT_HWCAP, AuxType::HWCAP as usize);
    assert_eq!(auxv::AT_SECURE, AuxType::SECURE as usize);
    assert_eq!(auxv::AT_RANDOM, AuxType::RANDOM as usize);
    assert_eq!(auxv::AT_EXECFN, AuxType::EXECFN as usize);
}

#[test]
fn signals_have_numbers_from_one_to_sixty_four() {
    assert_eq!(Signo::from_repr(0), None);
    assert_eq!(Signo::from_repr(1), Some(Signo { number: 1 }));
    assert_eq!(Signo::from_repr(64), Some(Signo { number: 64 }));
    assert_eq!(Signo::from_repr(65), None);
}
