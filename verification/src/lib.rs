//! Decision core of the Starry task layer: user-memory access, program
//! loading, process creation, `execve`, `wait` and cross-process copies.
//!
//! Everything here is plain computation on plain values. What has to touch
//! page tables, files, the scheduler or hardware is described by the values
//! this crate returns and is carried out by the embedding kernel.

pub mod arch;
pub mod auxv;
pub mod clone;
pub mod elf;
pub mod elf_cache;
pub mod entry;
pub mod errno;
pub mod exec;
pub mod loader;
pub mod paging;
pub mod process;
pub mod process_tree;
pub mod process_vm;
pub mod signo;
pub mod stack;
pub mod text;
pub mod thread;
pub mod user;
pub mod vm;
pub mod vm_io;
pub mod vm_ptr;
pub mod vm_stat;
pub mod wait;
pub mod words;
