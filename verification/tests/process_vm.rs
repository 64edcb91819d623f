use starry_task::errno::AxError;
use starry_task::process_vm::{
    copy_vm, ptrace_populate_remote_range, ptrace_read_iovecs, skip_empty, sys_process_vm_readv,
    sys_process_vm_writev, tracee_pid, CopyStep, CopyVm, IoVec, TransferOutcome,
};
use starry_task::vm::{VmError, VmResult};
use starry_task::vm_io::{UserMemory, VmIo};

struct Memory {
    bytes: Vec<u8>,
}

impl VmIo for Memory {
    fn new() -> Self {
        Memory { bytes: Vec::new() }
    }

    fn read(&mut self, start: usize, buf: &mut [u8]) -> VmResult<()> {
        let end = start.checked_add(buf.len()).ok_or(VmError::BadAddress)?;
        if end > self.bytes.len() {
            return Err(VmError::BadAddress);
        }
        buf.copy_from_slice(&self.bytes[start..end]);
        Ok(())
    }

    fn write(&mut self, _start: usize, _buf: &[u8]) -> VmResult<()> {
        Err(VmError::AccessDenied)
    }
}

fn iov(base: usize, len: isize) -> IoVec {
    IoVec { iov_base: base, iov_len: len }
}

fn memory(entries: &[IoVec]) -> UserMemory<Memory> {
    let mut bytes = Vec::new();
    for e in entries {
        bytes.extend_from_slice(&(e.iov_base as u64).to_le_bytes());
        bytes.extend_from_slice(&(e.iov_len as i64).to_le_bytes());
    }
    UserMemory::over(Memory { bytes })
}

#[test]
fn vectors_are_read_from_user_memory() {
    let entries = [iov(0x1000, 5), iov(0x2000, 0), iov(0x3000, 7)];
    let mut vm = memory(&entries);
    assert_eq!(ptrace_read_iovecs(&mut vm, 0, 3), Ok(entries.to_vec()));
    assert_eq!(ptrace_read_iovecs(&mut vm, 16, 2), Ok(entries[1..].to_vec()));
    assert_eq!(ptrace_read_iovecs(&mut vm, 0, 0), Ok(vec![]));
    assert_eq!(ptrace_read_iovecs(&mut vm, 0, 4), Err(AxError::BadAddress));
}

#[test]
fn malformed_vectors_are_rejected() {
    let mut many = memory(&[iov(0, 1); 1025]);
    assert_eq!(ptrace_read_iovecs(&mut many, 0, 1025), Err(AxError::InvalidInput));
    assert!(ptrace_read_iovecs(&mut many, 0, 1024).is_ok());
    let mut negative = memory(&[iov(0, 1), iov(0, -1)]);
    assert_eq!(ptrace_read_iovecs(&mut negative, 0, 2), Err(AxError::InvalidInput));
    let mut long = memory(&[iov(0, isize::MAX), iov(0, 1)]);
    assert_eq!(ptrace_read_iovecs(&mut long, 0, 2), Err(AxError::InvalidInput));
    assert!(ptrace_read_iovecs(&mut long, 0, 1).is_ok());
}

#[test]
fn populated_pages_cover_the_range() {
    assert_eq!(ptrace_populate_remote_range(0x1ffe, 4), Ok((0x1000, 0x2000)));
    assert_eq!(ptrace_populate_remote_range(0x1000, 0x1000), Ok((0x1000, 0x1000)));
    assert_eq!(ptrace_populate_remote_range(0x1000, 0), Ok((0x1000, 0)));
    assert_eq!(
        ptrace_populate_remote_range(usize::MAX, 2),
        Err(AxError::BadAddress)
    );
}

#[test]
fn empty_entries_are_skipped() {
    let iovecs = vec![iov(0, 4), iov(0, 0), iov(0, 0), iov(0, 3), iov(0, 0)];
    let (mut idx, mut offset) = (0, 2);
    skip_empty(&iovecs, &mut idx, &mut offset);
    assert_eq!((idx, offset), (0, 2));
    offset = 4;
    skip_empty(&iovecs, &mut idx, &mut offset);
    assert_eq!((idx, offset), (3, 0));
    offset = 3;
    skip_empty(&iovecs, &mut idx, &mut offset);
    assert_eq!((idx, offset), (5, 0));
    // A negative length is a large one.
    let (mut idx, mut offset) = (0, 100);
    skip_empty(&vec![IoVec { iov_base: 0, iov_len: -1 }], &mut idx, &mut offset);
    assert_eq!((idx, offset), (0, 100));
}

/// Moves bytes between two memories as the steps of a copy say.
fn run(copy: &mut CopyVm, local: &mut [u8], remote: &mut [u8]) -> Result<isize, AxError> {
    loop {
        match copy.next() {
            CopyStep::Return(r) => return r,
            CopyStep::Transfer { local_addr, remote_addr, len } => {
                let l = local.get_mut(local_addr..local_addr + len);
                let r = remote.get_mut(remote_addr..remote_addr + len);
                let outcome = match (l, r) {
                    (None, _) => TransferOutcome::LocalFailed(AxError::BadAddress),
                    (_, None) => TransferOutcome::RemoteFailed(AxError::PermissionDenied),
                    (Some(l), Some(r)) => {
                        if copy.write_remote {
                            r.copy_from_slice(l);
                        } else {
                            l.copy_from_slice(r);
                        }
                        TransferOutcome::Moved
                    }
                };
                if let Some(r) = copy.transferred(outcome) {
                    return r;
                }
            }
        }
    }
}

#[test]
fn byte_k_goes_to_byte_k() {
    let local = vec![iov(0, 3), iov(10, 0), iov(20, 4), iov(30, 5)];
    let remote = vec![iov(5, 0), iov(1, 6), iov(50, 1), iov(40, 20)];
    let mut l = vec![0u8; 64];
    let mut r: Vec<u8> = (100..164).collect();
    let mut copy = CopyVm::new(local, remote, false);
    assert_eq!(run(&mut copy, &mut l, &mut r), Ok(12));
    let stream: Vec<u8> = l[0..3].iter().chain(&l[20..24]).chain(&l[30..35]).copied().collect();
    let expected: Vec<u8> = r[1..7].iter().chain(&r[50..51]).chain(&r[40..45]).copied().collect();
    assert_eq!(stream, expected);
}

#[test]
fn a_complete_copy_returns_the_shorter_length() {
    let mut mem = vec![0u8; 32];
    let mut other = vec![1u8; 32];
    let mut copy = CopyVm::new(vec![iov(0, 4)], vec![iov(0, 9)], true);
    assert_eq!(run(&mut copy, &mut mem, &mut other), Ok(4));
    assert_eq!(&other[..5], &[0, 0, 0, 0, 1]);
    let mut none = CopyVm::new(vec![], vec![iov(0, 9)], true);
    assert_eq!(run(&mut none, &mut mem, &mut other), Ok(0));
}

#[test]
fn a_failing_write_returns_what_was_copied() {
    let mut mem = vec![7u8; 32];
    let mut other = vec![0u8; 8];
    let remote = vec![iov(0, 8), iov(100, 8)];
    let mut write = CopyVm::new(vec![iov(0, 16)], remote.clone(), true);
    assert_eq!(run(&mut write, &mut mem, &mut other), Ok(8));
    let mut read = CopyVm::new(vec![iov(0, 16)], remote, false);
    assert_eq!(
        run(&mut read, &mut mem, &mut other),
        Err(AxError::PermissionDenied)
    );
    let mut at_once = CopyVm::new(vec![iov(0, 16)], vec![iov(100, 8)], true);
    assert_eq!(
        run(&mut at_once, &mut mem, &mut other),
        Err(AxError::PermissionDenied)
    );
    let mut local = CopyVm::new(vec![iov(0, 4), iov(90, 4)], vec![iov(0, 8)], true);
    assert_eq!(run(&mut local, &mut mem, &mut other), Err(AxError::BadAddress));
}

#[test]
fn a_remote_address_must_not_wrap_round() {
    let mut copy = CopyVm::new(vec![iov(0, 4), iov(0, 4)], vec![iov(usize::MAX - 3, 8)], true);
    assert_eq!(
        copy.next(),
        CopyStep::Transfer { local_addr: 0, remote_addr: usize::MAX - 3, len: 4 }
    );
    assert_eq!(copy.transferred(TransferOutcome::Moved), None);
    assert_eq!(copy.next(), CopyStep::Return(Err(AxError::BadAddress)));
}

#[test]
fn calls_check_their_arguments_in_order() {
    let entries = [iov(0, 1), iov(0, 1)];
    let mut vm = memory(&entries);
    let started = sys_process_vm_readv(&mut vm, true, 0, 0, 1, 16, 1, 0).unwrap();
    assert!(!started.write_remote);
    assert!(sys_process_vm_writev(&mut vm, true, 0, 0, 1, 16, 1, 0).unwrap().write_remote);
    let mut errors = Vec::new();
    errors.push(sys_process_vm_readv(&mut vm, false, 5, 0, 9, 16, 1, 1).unwrap_err());
    errors.push(sys_process_vm_writev(&mut vm, false, 5, 0, 9, 16, 1, 0).unwrap_err());
    errors.push(sys_process_vm_writev(&mut vm, true, 5, 0, 9, 16, 1, 0).unwrap_err());
    errors.push(copy_vm(&mut vm, true, 0, 0, 9, 16, 1, true).unwrap_err());
    assert_eq!(
        errors,
        vec![
            AxError::InvalidInput,
            AxError::NoSuchProcess,
            AxError::OperationNotPermitted,
            AxError::BadAddress,
        ]
    );
    assert_eq!(tracee_pid(17), Ok(17));
    assert_eq!(tracee_pid(1 << 32), Err(AxError::NoSuchProcess));
}
