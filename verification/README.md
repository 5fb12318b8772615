# vm_cross_arch

A cross-architecture translation layer for a virtual machine: IR blocks are
encoded as x86-64, ARM64 or RISC-V64 machine code (and PowerPC words are
decoded and encoded), translations are cached, and guest conventions (open
flags, file modes, signals, socket arguments, system calls) are mapped onto
the host's.

`src/` is the library, written in Verus: every function carries a
`requires`/`ensures` contract over a mathematical model of its data, and the
laws that relate several functions (what a cache returns after an insert,
that decoding undoes encoding, that rescheduling only permutes operations,
and so on) are proof functions beside them.

`app/` holds what runs around the library: floating-point rates and
averages, host detection, and the drivers that call execution engines,
translators and interrupt handlers and hand their answers to the library.

`tests/` exercises the library through its public interface.
