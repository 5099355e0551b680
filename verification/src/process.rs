use vstd::prelude::*;

verus! {

use x86_64::structures::paging::PageTable;

/// The 4 KiB page table of `x86_64`, held by a [`Process`] as an opaque value.
#[verifier::external_type_specification]
#[verifier::external_body]
pub struct ExPageTable(PageTable);

/// A running process: its id, its page table, the kernel stack used while it
/// is in kernel mode, and its saved user-space registers.
pub struct Process {
    pub pid: usize,
    pub page_table: PageTable,
    pub kernel_stack: KernelStack,
    pub ctx: UserContext,
}

/// The kernel stack used for interrupts and system calls while a process runs
/// in kernel mode.
pub struct KernelStack {
    pub start: usize,
    pub end: usize,
}

/// The user-space registers saved when a process is interrupted or switched out.
pub struct UserContext {
    /// Instruction pointer.
    pub rip: usize,
    /// Stack pointer.
    pub rsp: usize,
    /// Flags register.
    pub rflags: usize,
    pub rax: usize,
    pub rbx: usize,
    pub rcx: usize,
    pub rdx: usize,
    pub rsi: usize,
    pub rdi: usize,
    pub rbp: usize,
    pub r8: usize,
    pub r9: usize,
    pub r10: usize,
    pub r11: usize,
    pub r12: usize,
    pub r13: usize,
    pub r14: usize,
    pub r15: usize,
}

} // verus!
