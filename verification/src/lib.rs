//! A verified model of a stub dynamic loader.
//!
//! The program this library is the core of runs as the `PT_INTERP` of other
//! dynamically linked executables.  It does not resolve symbols itself: it
//! discovers, through a set of environment variables, the path of the real
//! dynamic linker, rewrites the environment and the initial stack so that
//! linker sees the intended library search path, maps that linker into the
//! address space, and hands control to it.  A small entry trampoline later
//! restores the caller's view of `LD_LIBRARY_PATH` so child processes are
//! not polluted.
//!
//! Everything the loader decides or computes is in this crate, stated over a
//! plain-value model of the process state: byte strings live in a
//! [`args::StringArena`] and are addressed by small handles, the initial
//! stack is a vector of machine words, and the ELF file is a vector of
//! bytes.  The thin runtime that feeds real memory into this model and
//! carries its plans out with actual system calls lives outside the
//! library.

pub mod arch;
pub mod args;
pub mod auxv;
pub mod cstr;
pub mod elf;
pub mod fixup;
pub mod laws;
pub mod run;
pub mod sys;
