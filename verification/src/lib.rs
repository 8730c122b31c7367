//! Interception of the syscalls of a traced process on x86-64 Linux.
//!
//! A [`ctrl::Script`] says what to inject when the process reaches a hooked syscall: further
//! syscalls, memory staged on its heap, and the value that the intercepted syscall returns.
//! A [`trace::Tracer`] holds the hooks and the named slots of one session and decides, stop
//! by stop, what is done to the process next; a driver carries that out with the tracing
//! primitives of the operating system and reports back. [`session::Session`] is the state of
//! a session in mathematical terms, with the laws that hold of it.
pub mod regs;
pub mod store;
pub mod ctrl;
pub mod session;
pub mod trace;
pub mod util;
pub mod common;
