use vstd::prelude::*;

verus! {

/// Virtual address of the user code page.
pub const USER_CODE_BASE: u64 = 0x4000_0000_0000;

/// Virtual address of the lowest byte of the user stack.
pub const USER_STACK_BASE: u64 = 0x4000_0000_2000;

/// One past the top of the user stack: the initial user stack pointer.
pub const USER_STACK_TOP: u64 = 0x4000_0000_3000;

/// Size of a page, and the most a user program may occupy.
pub const PAGE_SIZE: u64 = 4096;

/// Syscall number of `sys_exit(code)`.
pub const SYS_EXIT: u64 = 0;

/// Syscall number of `sys_print(ptr, len)`.
pub const SYS_PRINT: u64 = 1;

/// Largest byte count that `sys_print` accepts.
pub const SYS_PRINT_MAX: u64 = 4096;

/// The general-purpose registers that the syscall entry saves, and the
/// interrupt frame the CPU pushed below them. `rax` carries the syscall number
/// in and the result out; `rdi` and `rsi` carry the arguments.
pub struct SyscallFrame {
    pub r15: u64,
    pub r14: u64,
    pub r13: u64,
    pub r12: u64,
    pub r11: u64,
    pub r10: u64,
    pub r9: u64,
    pub r8: u64,
    pub rdi: u64,
    pub rsi: u64,
    pub rbp: u64,
    pub rbx: u64,
    pub rdx: u64,
    pub rcx: u64,
    pub rax: u64,
    pub rip: u64,
    pub cs: u64,
    pub rflags: u64,
    pub user_rsp: u64,
    pub user_ss: u64,
}

/// What the kernel does for a syscall once its result is in the frame.
#[derive(Debug, Clone, Copy, PartialEq, Eq, Structural)]
pub enum SyscallAction {
    /// Terminate the calling process with `code`.
    Exit { code: i32 },
    /// Print `len` bytes of user memory starting at `ptr`.
    Print { ptr: u64, len: u64 },
    /// A print of `len` bytes was refused as too long.
    PrintTooLong { len: u64 },
    /// The syscall number `number` is unknown.
    Unknown { number: u64 },
}

/// Decodes the syscall in `frame` and stores its result in `frame.rax`: the
/// byte count for an accepted print, `u64::MAX` for a refused print or an
/// unknown syscall. Every other register is left as it was.
pub fn syscall_dispatch(frame: &mut SyscallFrame) -> (r: SyscallAction)
    ensures
        old(frame).rax == SYS_EXIT ==> {
            &&& r == SyscallAction::Exit { code: old(frame).rdi as i32 }
            &&& *final(frame) == *old(frame)
        },
        old(frame).rax == SYS_PRINT && old(frame).rsi <= SYS_PRINT_MAX ==> {
            &&& r == SyscallAction::Print { ptr: old(frame).rdi, len: old(frame).rsi }
            &&& *final(frame) == (SyscallFrame { rax: old(frame).rsi, ..*old(frame) })
        },
        old(frame).rax == SYS_PRINT && old(frame).rsi > SYS_PRINT_MAX ==> {
            &&& r == SyscallAction::PrintTooLong { len: old(frame).rsi }
            &&& *final(frame) == (SyscallFrame { rax: u64::MAX, ..*old(frame) })
        },
        old(frame).rax != SYS_EXIT && old(frame).rax != SYS_PRINT ==> {
            &&& r == SyscallAction::Unknown { number: old(frame).rax }
            &&& *final(frame) == (SyscallFrame { rax: u64::MAX, ..*old(frame) })
        },
{
    let number = frame.rax;
    if number == SYS_EXIT {
        SyscallAction::Exit { code: frame.rdi as i32 }
    } else if number == SYS_PRINT {
        let len = frame.rsi;
        if len > SYS_PRINT_MAX {
            frame.rax = u64::MAX;
            SyscallAction::PrintTooLong { len }
        } else {
            frame.rax = len;
            SyscallAction::Print { ptr: frame.rdi, len }
        }
    } else {
        frame.rax = u64::MAX;
        SyscallAction::Unknown { number }
    }
}

/// Checks that a user program fits in the one code page it is loaded into.
pub fn check_program(program: &[u8]) -> (r: Result<(), &'static str>)
    ensures
        r is Ok <==> program@.len() <= PAGE_SIZE,
        r matches Err(msg) ==> msg@ == "program doesn't fit in one page"@,
{
    if program.len() as u64 > PAGE_SIZE {
        Err("program doesn't fit in one page")
    } else {
        Ok(())
    }
}

/// The user code page and the user stack are page aligned, apart, and the
/// stack top lies one page above its base.
pub proof fn lemma_user_layout()
    ensures
        USER_CODE_BASE % PAGE_SIZE == 0,
        USER_STACK_BASE % PAGE_SIZE == 0,
        USER_STACK_TOP % PAGE_SIZE == 0,
        USER_STACK_TOP == USER_STACK_BASE + PAGE_SIZE,
        USER_CODE_BASE + PAGE_SIZE <= USER_STACK_BASE,
{
}

} // verus!
