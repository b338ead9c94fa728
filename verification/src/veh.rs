//! Decisions of the Windows structured-exception logger: whether to install
//! it, how to name an exception code, and the crash report it writes.

use crate::text::{decimal, push_char, push_decimal, push_str};
use vstd::prelude::*;

verus! {

/// The name, and a hint at the cause, of a Windows exception code (as
/// `ntstatus.h` defines them).
pub open spec fn spec_exception_name(code: u32) -> Seq<char> {
    if code == 0xC0000005 {
        "STATUS_ACCESS_VIOLATION (null/wild pointer deref or unmapped memory)"@
    } else if code == 0xC00000FD {
        "STATUS_STACK_OVERFLOW (exhausted thread stack)"@
    } else if code == 0xC000001D {
        "STATUS_ILLEGAL_INSTRUCTION (CPU decoded an invalid opcode)"@
    } else if code == 0xC0000025 {
        "STATUS_NONCONTINUABLE_EXCEPTION (a non-continuable exception was continued)"@
    } else if code == 0xC0000094 {
        "STATUS_INTEGER_DIVIDE_BY_ZERO"@
    } else if code == 0xC0000095 {
        "STATUS_INTEGER_OVERFLOW"@
    } else if code == 0xC0000096 {
        "STATUS_PRIVILEGED_INSTRUCTION (user-mode executed a kernel-only instruction)"@
    } else if code == 0xC00000F6 {
        "STATUS_INVALID_WORKING_SET (working set limit issue)"@
    } else if code == 0xC0000142 {
        "STATUS_DLL_INIT_FAILED (a DLL failed to initialise)"@
    } else if code == 0xC0000374 {
        "STATUS_HEAP_CORRUPTION"@
    } else if code == 0xC0000409 {
        "STATUS_STACK_BUFFER_OVERRUN (__fastfail / GS cookie failure)"@
    } else if code == 0xC000041D {
        "STATUS_FATAL_USER_CALLBACK_EXCEPTION (exception during a user callback)"@
    } else if code == 0xC0000420 {
        "STATUS_ASSERTION_FAILURE"@
    } else if code == 0x80000003 {
        "STATUS_BREAKPOINT (debug breakpoint / __debugbreak())"@
    } else if code == 0x80000004 {
        "STATUS_SINGLE_STEP (single-step trap)"@
    } else {
        "UNKNOWN (see ntstatus.h)"@
    }
}

/// The name, and a hint at the cause, of a Windows exception code.
pub fn exception_name(code: u32) -> (r: &'static str)
    ensures
        r@ == spec_exception_name(code),
{
    match code {
        0xC0000005 => "STATUS_ACCESS_VIOLATION (null/wild pointer deref or unmapped memory)",
        0xC00000FD => "STATUS_STACK_OVERFLOW (exhausted thread stack)",
        0xC000001D => "STATUS_ILLEGAL_INSTRUCTION (CPU decoded an invalid opcode)",
        0xC0000025 => "STATUS_NONCONTINUABLE_EXCEPTION (a non-continuable exception was continued)",
        0xC0000094 => "STATUS_INTEGER_DIVIDE_BY_ZERO",
        0xC0000095 => "STATUS_INTEGER_OVERFLOW",
        0xC0000096 => "STATUS_PRIVILEGED_INSTRUCTION (user-mode executed a kernel-only instruction)",
        0xC00000F6 => "STATUS_INVALID_WORKING_SET (working set limit issue)",
        0xC0000142 => "STATUS_DLL_INIT_FAILED (a DLL failed to initialise)",
        0xC0000374 => "STATUS_HEAP_CORRUPTION",
        0xC0000409 => "STATUS_STACK_BUFFER_OVERRUN (__fastfail / GS cookie failure)",
        0xC000041D => "STATUS_FATAL_USER_CALLBACK_EXCEPTION (exception during a user callback)",
        0xC0000420 => "STATUS_ASSERTION_FAILURE",
        0x80000003 => "STATUS_BREAKPOINT (debug breakpoint / __debugbreak())",
        0x80000004 => "STATUS_SINGLE_STEP (single-step trap)",
        _ => "UNKNOWN (see ntstatus.h)",
    }
}

/// Marks the handler as installed; returns whether it is to be registered
/// now, which is only on the first call.
pub fn init(installed: &mut bool) -> (register: bool)
    ensures
        register == !*old(installed),
        *final(installed),
{
    let first = !*installed;
    *installed = true;
    first
}

/// The upper-case hexadecimal digit `d` (below sixteen).
pub open spec fn hex_char(d: nat) -> char {
    if d < 10 {
        ((48 + d) as u8) as char
    } else {
        ((55 + d) as u8) as char
    }
}

/// The last `width` upper-case hexadecimal digits of `n`, leading zeros
/// included: `n` in full, zero-padded, when it is below `16^width`.
pub open spec fn hex_fixed(n: nat, width: nat) -> Seq<char>
    decreases width,
{
    if width == 0 {
        Seq::empty()
    } else {
        hex_fixed(n / 16, (width - 1) as nat).push(hex_char(n % 16))
    }
}

/// Appends the last `width` upper-case hexadecimal digits of `n`.
fn push_hex_fixed(out: &mut String, n: u64, width: u32)
    ensures
        final(out)@ == old(out)@ + hex_fixed(n as nat, width as nat),
    decreases width,
{
    if width > 0 {
        push_hex_fixed(out, n / 16, width - 1);
        let d = (n % 16) as u8;
        let c = if d < 10 {
            (48u8 + d) as char
        } else {
            (55u8 + d) as char
        };
        push_char(out, c);
    }
    assert(out@ =~= old(out)@ + hex_fixed(n as nat, width as nat));
}

/// The crash report of a Windows exception: the time (seconds since the
/// epoch), the build, the code in eight hexadecimal digits with its name,
/// the address in sixteen, the thread and the backtrace.
pub open spec fn spec_veh_header(
    now: u64,
    build_hash: Seq<char>,
    build_time: Seq<char>,
    code: u32,
    address: u64,
    thread_id: u32,
    backtrace: Seq<char>,
) -> Seq<char> {
    "\n\n================ VEH EXCEPTION ================\ntime       : epoch+"@ + decimal(
        now as nat,
    ) + " (utc)\nbuild      : "@ + build_hash + " (built "@ + build_time + ")\nexception  : 0x"@
        + hex_fixed(code as nat, 8) + " ("@ + spec_exception_name(code) + ")\naddress    : 0x"@
        + hex_fixed(address as nat, 16) + "\nthread id  : "@ + decimal(thread_id as nat)
        + "\n---------------- backtrace ----------------\n"@ + backtrace
        + "\n=============================================\n"@
}

/// The crash report written when a Windows exception reaches the handler.
pub fn veh_header(
    now: u64,
    build_hash: &str,
    build_time: &str,
    code: u32,
    address: u64,
    thread_id: u32,
    backtrace: &str,
) -> (r: String)
    ensures
        r@ == spec_veh_header(now, build_hash@, build_time@, code, address, thread_id, backtrace@),
{
    let mut out = String::new();
    push_str(&mut out, "\n\n================ VEH EXCEPTION ================\ntime       : epoch+");
    push_decimal(&mut out, now);
    push_str(&mut out, " (utc)\nbuild      : ");
    push_str(&mut out, build_hash);
    push_str(&mut out, " (built ");
    push_str(&mut out, build_time);
    push_str(&mut out, ")\nexception  : 0x");
    push_hex_fixed(&mut out, code as u64, 8);
    push_str(&mut out, " (");
    push_str(&mut out, exception_name(code));
    push_str(&mut out, ")\naddress    : 0x");
    push_hex_fixed(&mut out, address, 16);
    push_str(&mut out, "\nthread id  : ");
    push_decimal(&mut out, thread_id as u64);
    push_str(&mut out, "\n---------------- backtrace ----------------\n");
    push_str(&mut out, backtrace);
    push_str(&mut out, "\n=============================================\n");
    assert(out@ =~= spec_veh_header(
        now,
        build_hash@,
        build_time@,
        code,
        address,
        thread_id,
        backtrace@,
    ));
    out
}

/// The name of the crash file of a Windows exception at `now` seconds
/// since the epoch.
pub fn veh_crash_file_name(now: u64) -> (r: String)
    ensures
        r@ == "crash-veh-"@ + decimal(now as nat) + ".log"@,
{
    let mut out = String::new();
    push_str(&mut out, "crash-veh-");
    push_decimal(&mut out, now);
    push_str(&mut out, ".log");
    assert(out@ =~= "crash-veh-"@ + decimal(now as nat) + ".log"@);
    out
}

} // verus!
