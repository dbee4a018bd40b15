//! The decision core of a type-1 hypervisor's virtual machine: how a VM is
//! assembled from its configuration, how the exits of its vCPUs are served, how
//! guest memory is read and written, and how a debugger steps the guest.
//!
//! Hardware, page tables, emulated devices and the debugger's connection stay
//! outside: the functions here take what those returned and say what to do next.
#![allow(unused_imports)]

pub mod access;
pub mod assembly;
pub mod config;
pub mod error;
pub mod flags;
pub mod gdb;
pub mod memory;
pub mod paging;
pub mod run;
pub mod vm;
