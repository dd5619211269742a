//! Patching an aarch64 Android kernel image so that a process that presents a secret root
//! key is made root, and the tools around such a kernel: hiding the key in a directory
//! name, finding a process, and putting a directory in front of its `PATH` through the
//! tracer.
//!
//! The library decides and computes; it makes no system call. Whoever uses it assembles the
//! trampolines, reads and writes the image, and makes the trace requests it asks for.

pub mod asm_helper;
pub mod cli;
pub mod encrypt;
pub mod hook;
pub mod inject;
pub mod injector;
pub mod input;
pub mod number;
pub mod patcher;
pub mod process_wrapper;
pub mod ptrace_wrapper;
pub mod root;
pub mod text;
pub mod word;
