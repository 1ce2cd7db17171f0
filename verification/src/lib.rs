//! EASE kernel logic: allocators, collections, scheduling, process and
//! file-descriptor bookkeeping, program loading, the shell's text
//! handling, and the bookkeeping behind the kernel's diagnostics, written
//! as verified Verus code. Hardware access (CSRs, MMIO, context switches)
//! lives outside this crate; the functions here take what the hardware
//! reports as plain values and hand back the decisions to act on.

pub mod arena;
pub mod commands;
pub mod completion;
pub mod console;
pub mod deadline;
pub mod fd;
pub mod font;
pub mod freelist;
pub mod ipi;
pub mod irqsoff;
pub mod keyboard;
pub mod line_editor;
pub mod percpu;
pub mod process;
pub mod profile;
pub mod region;
pub mod sched;
pub mod spinlock;
pub mod spsc;
pub mod stack;
pub mod sync;
pub mod text;
pub mod threads;
pub mod timer;
pub mod trace;
pub mod trap;
pub mod userloader;
pub mod usermem;
pub mod vt_parse;
pub mod waitqueue;
