# axvm

The virtual machine of a type-1 hypervisor, with its decisions verified in Verus.

The library in `src/` decides; the host acts. Where a VM is assembled, where a
vCPU runs or where a debugger is served, the library is a state machine: it names
the next action, the host carries it out and hands back the outcome.

- `assembly`: from a configuration to a complete VM, one action at a time
- `vm`: the VM itself: booting, its vCPUs, guest memory
- `access`: guest virtual memory, page by page
- `run`: a run of a vCPU, and how its exits are served
- `memory`: guest memory in segments that need not be contiguous
- `flags`, `paging`, `config`, `error`: mapping flags, reaching a guest's page
  tables, configurations, errors
- `gdb`: the debug server, the register files of RISC-V and x86-64, and single
  steps of RISC-V guests

The proof functions named `law_..` state what holds of the library as a whole: that
a read of guest memory has all the bytes asked for and gives back what was written,
that an assembly goes through its plan and comes to an end, that a planted
breakpoint can be taken out again.

Four functions are trusted rather than proved: the decoding of 16-bit and 32-bit
RISC-V instructions by `raki`, the reading of mapping flags by `axaddrspace`, and
the sharing of a vCPU by `Arc::clone`.

`app/` is the host side: it carries out the actions on `axvcpu`, `axaddrspace`,
`axdevice` and `gdbstub`. `tests/` runs the library on concrete values.
