# starry_task

The decision core of the Starry task layer, written and proved in Verus: access
to user memory, program loading, `clone`, `execve`, `waitpid` and `waitid`,
cross-process copies, the loop of a user task, and the state of threads and
processes.

`src/` holds plain computation on plain values. Where a system call alternates
between deciding and acting, it is a state machine or a list of operations:
the library says what to do next, and the embedding kernel does it and reports
what came of it. `app/` holds the drivers that do so; each names what it needs
of the kernel as a trait.

| Module | Contents |
|---|---|
| `vm_io`, `vm`, `vm_ptr` | user memory and a record of the accesses to it |
| `arch`, `words`, `text`, `paging`, `errno`, `signo` | architectures, bytes, strings, pages, errors, signals |
| `auxv`, `stack` | the initial stack of a program |
| `elf`, `elf_cache`, `loader` | ELF images, their cache, loading programs and scripts |
| `process`, `process_tree`, `thread`, `vm_stat` | state of processes and threads |
| `clone`, `exec`, `wait`, `process_vm` | the system calls |
| `user`, `entry` | the loop of a user task, the first process |

What differs between x86_64, aarch64, riscv64 and loongarch64 is decided by a
value of `arch::Arch`, and the layout of user address spaces is a value of
`loader::UserLayout`, so nothing in the library is compiled for one of them.

Functions named `law_...` state what holds across several calls.
