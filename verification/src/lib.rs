//! A guarded bump allocator for a 32-bit guest linear memory.
//!
//! The allocator tracks live allocations inside a guest's linear memory,
//! places every user region directly before a permanently unmapped guard
//! page, stamps canary bytes into the round-up slack so stray writes are
//! detectable, and describes the page-protection transitions the host must
//! apply when memory is handed out or reclaimed.

pub mod canary;
pub mod config;
pub mod ctx_data;
pub mod fault;
pub mod imports;
pub mod plan;
pub mod report;
