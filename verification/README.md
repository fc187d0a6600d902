# Verified kernel core

The verified library (`src/`, crate `lib`) holds the decision-making parts of
a small Raspberry Pi 3 teaching kernel, each with a Verus contract:

- `allocator`: alignment helpers and a size-class ("bin") allocator with
  bump allocation and LIFO reuse of freed blocks.
- `fat32`: decoding of the MBR partition entry, the FAT32 extended BIOS
  parameter block, FAT entries, directory-entry dates, times and attributes;
  volume geometry, cluster reads, cluster-chain walking as a state machine,
  and file seeking and reading.
- `traps`: exception-syndrome decoding, the interrupt handler table, and the
  register effects of the system calls.
- `vm`: ARMv8 page descriptors and the two-level page tables of the kernel
  and of user processes.
- `process`: process creation, initial context and readiness.
- `shell`: line editing, command parsing and command decoding.
- `atag`: decoding of the firmware's boot tags.

`app/` is the unverified glue: block-device reads, the console loop of the
shell, the global-allocator adapter, system-call dispatch, and a host harness
that mounts a FAT32 image and reports its geometry, then runs the shell on
standard input and output. Directory lookup is not part of this code base, so
the harness's shell sees an empty root directory, not the image's files.
`tests/` exercises the library on concrete values.
