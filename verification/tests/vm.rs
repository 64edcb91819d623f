use starry_task::errno::AxError;
use starry_task::vm::{
    vm_load, vm_load_any, vm_load_until_nul, vm_read_slice, vm_write_slice, VmError, VmResult,
    CHUNK_SIZE, MAX_BYTES,
};
use starry_task::vm_io::{UserMemory, VmIo};
use starry_task::vm_ptr::{ConstPtr, MutPtr, NonNullPtr, VmMutPtr, VmPtr};

/// Memory that is mapped from `base` on; writes below `read_only` are refused.
struct Memory {
    base: usize,
    read_only: usize,
    bytes: Vec<u8>,
    reads: Vec<(usize, usize)>,
}

impl Memory {
    fn at(base: usize, bytes: Vec<u8>) -> UserMemory<Memory> {
        UserMemory::over(Memory { base, read_only: 0, bytes, reads: Vec::new() })
    }

    fn range(&self, start: usize, len: usize) -> VmResult<std::ops::Range<usize>> {
        let from = start.checked_sub(self.base).ok_or(VmError::BadAddress)?;
        if from + len > self.bytes.len() {
            return Err(VmError::BadAddress);
        }
        Ok(from..from + len)
    }
}

impl VmIo for Memory {
    fn new() -> Self {
        Memory { base: 0x1000, read_only: 0, bytes: vec![0; 32], reads: Vec::new() }
    }

    fn read(&mut self, start: usize, buf: &mut [u8]) -> VmResult<()> {
        self.reads.push((start, buf.len()));
        let range = self.range(start, buf.len())?;
        buf.copy_from_slice(&self.bytes[range]);
        Ok(())
    }

    fn write(&mut self, start: usize, buf: &[u8]) -> VmResult<()> {
        let range = self.range(start, buf.len())?;
        if start < self.read_only {
            return Err(VmError::AccessDenied);
        }
        self.bytes[range].copy_from_slice(buf);
        Ok(())
    }
}

#[test]
fn memory_errors_become_system_call_errors() {
    assert_eq!(AxError::from(VmError::BadAddress), AxError::BadAddress);
    assert_eq!(AxError::from(VmError::AccessDenied), AxError::BadAddress);
    assert_eq!(AxError::from(VmError::TooLong), AxError::NameTooLong);
}

#[test]
fn what_was_written_is_read_back() {
    let mut vm = Memory::at(0x1000, vec![0; 64]);
    // The addresses need not be aligned.
    assert_eq!(vm_write_slice(&mut vm, 0x1003, b"hello"), Ok(()));
    let mut buf = [0u8; 5];
    assert_eq!(vm_read_slice(&mut vm, 0x1003, &mut buf), Ok(()));
    assert_eq!(&buf, b"hello");
    assert_eq!(
        vm_read_slice(&mut vm, 0x103e, &mut buf),
        Err(VmError::BadAddress)
    );
    let mut inner = vm.into_inner();
    inner.read_only = 0x1010;
    let mut vm = UserMemory::over(inner);
    assert_eq!(
        vm_write_slice(&mut vm, 0x1003, b"x"),
        Err(VmError::AccessDenied)
    );
}

#[test]
fn arrays_are_loaded_as_bytes() {
    let mut vm = Memory::at(0x1000, (0..64).collect());
    assert_eq!(vm_load(&mut vm, 0x1001, 2, 4), Ok(vec![1, 2, 3, 4, 5, 6, 7, 8]));
    assert_eq!(vm_load_any(&mut vm, 0x1010, 3, 1), Ok(vec![16, 17, 18]));
    assert_eq!(vm.io().reads, vec![(0x1001, 8), (0x1010, 3)]);
    assert_eq!(vm_load(&mut vm, 0x2000, 1, 1), Err(VmError::BadAddress));
}

#[test]
fn a_string_is_loaded_up_to_its_terminator() {
    let mut bytes = vec![b'x'; 100];
    bytes[70] = 0;
    let mut vm = Memory::at(0x1000, bytes);
    assert_eq!(
        vm_load_until_nul(&mut vm, 0x1005, 1, 1),
        Ok(vec![b'x'; 65])
    );
    // The reads end at chunk boundaries.
    assert_eq!(CHUNK_SIZE, 32);
    assert_eq!(vm.io().reads, vec![(0x1005, 27), (0x1020, 32), (0x1040, 32)]);
}

#[test]
fn a_string_at_the_end_of_a_mapping_is_loaded() {
    let mut bytes = vec![b'y'; 64];
    bytes[63] = 0;
    let mut vm = Memory::at(0x1000, bytes);
    assert_eq!(
        vm_load_until_nul(&mut vm, 0x1030, 1, 1),
        Ok(vec![b'y'; 15])
    );
    let mut unterminated = Memory::at(0x1000, vec![b'y'; 64]);
    assert_eq!(
        vm_load_until_nul(&mut unterminated, 0x1030, 1, 1),
        Err(VmError::BadAddress)
    );
}

#[test]
fn only_a_whole_zero_element_ends_an_array() {
    let mut bytes = Vec::new();
    for word in [0x100u64, 0x1_0000_0000, 7, 0, 9] {
        bytes.extend_from_slice(&word.to_le_bytes());
    }
    bytes.resize(64, 1);
    let mut vm = Memory::at(0x1000, bytes.clone());
    assert_eq!(
        vm_load_until_nul(&mut vm, 0x1000, 8, 8),
        Ok(bytes[..24].to_vec())
    );
    assert_eq!(
        vm_load_until_nul(&mut vm, 0x1004, 8, 8),
        Err(VmError::BadAddress)
    );
}

#[test]
fn an_array_without_terminator_is_too_long() {
    let mut bytes = vec![1; MAX_BYTES + 64];
    let mut vm = Memory::at(0x1000, bytes.clone());
    assert_eq!(
        vm_load_until_nul(&mut vm, 0x1000, 1, 1),
        Err(VmError::TooLong)
    );
    bytes[MAX_BYTES] = 0;
    let mut vm = Memory::at(0x1000, bytes.clone());
    assert_eq!(
        vm_load_until_nul(&mut vm, 0x1000, 1, 1),
        Err(VmError::TooLong)
    );
    bytes[MAX_BYTES - 1] = 0;
    let mut vm = Memory::at(0x1000, bytes);
    assert_eq!(
        vm_load_until_nul(&mut vm, 0x1000, 1, 1),
        Ok(vec![1; MAX_BYTES - 1])
    );
}

#[test]
fn the_end_of_the_address_space_is_rejected() {
    let mut vm = Memory::at(0x1000, vec![1; 64]);
    assert_eq!(
        vm_load_until_nul(&mut vm, usize::MAX - 7, 8, 8),
        Err(VmError::BadAddress)
    );
    assert!(vm.io().reads.is_empty());
}

#[test]
fn pointers_read_and_write_values() {
    let mut vm: UserMemory<Memory> = UserMemory::new();
    let ptr = MutPtr { addr: 0x1008, size: 4 };
    assert_eq!(ptr.vm_write(&mut vm, &[1, 2, 3, 4]), Ok(()));
    assert_eq!(ptr.vm_read(&mut vm), Ok(vec![1, 2, 3, 4]));
    let same = ConstPtr { addr: 0x1008, size: 4 };
    assert_eq!(same.vm_read_uninit(&mut vm), Ok(vec![1, 2, 3, 4]));
    assert_eq!((same.as_ptr(), same.target_size()), (0x1008, 4));
    let bad = ConstPtr { addr: 0x8, size: 4 };
    assert_eq!(bad.vm_read(&mut vm), Err(VmError::BadAddress));
}

#[test]
fn null_pointers_are_told_apart() {
    assert!(MutPtr { addr: 0, size: 4 }.nullable().is_none());
    assert_eq!(
        MutPtr { addr: 16, size: 4 }.nullable().map(|p| p.addr),
        Some(16)
    );
    assert!(NonNullPtr::new(0, 4).is_none());
    let ptr = NonNullPtr::new(0x1004, 2).unwrap();
    assert_eq!((ptr.get(), ptr.target_size()), (0x1004, 2));
    let mut vm = Memory::at(0x1000, vec![0; 32]);
    assert_eq!(ptr.vm_write(&mut vm, &[9, 8]), Ok(()));
    assert_eq!(ptr.vm_read(&mut vm), Ok(vec![9, 8]));
}
