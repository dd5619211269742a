//! The two hooks and the assembly text of their trampolines.
//!
//! A hook replaces the first instruction of a kernel function, the hookee, by a branch to a
//! trampoline, the hooker. The hooker runs the replaced instruction in a slot kept for it
//! and ends with a branch back to the hookee's second instruction.

use vstd::prelude::*;
use vstd::string::StringExecFns;
use crate::number::{decimal, push_decimal, push_signed_decimal, signed_decimal};

verus! {

/// The hook on `do_execve`: a task that passes the root key as its first argument gets
/// root credentials and loses its seccomp filter.
#[derive(Clone, Copy, Debug)]
pub struct DoExecveHook {
    pub root_key_size: usize,
    pub hooker_entry: usize,
    pub hookee_entry: usize,
    pub cred_offset: usize,
    pub seccomp_offset: usize,
}

/// The hook on `avc_denied`: access is granted to a task with the credentials that the other
/// hook gives.
#[derive(Clone, Copy, Debug)]
pub struct AVCDeniedHook {
    pub hooker_entry: usize,
    pub hookee_entry: usize,
    pub cred_offset: usize,
}

/// What every hook has: the entry of the function it hooks and the entry of its trampoline,
/// as offsets into the image.
pub trait Hook {
    spec fn spec_hookee_entry(&self) -> usize;

    spec fn spec_hooker_entry(&self) -> usize;

    fn hookee_entry(&self) -> (r: usize)
        ensures
            r == self.spec_hookee_entry(),
    ;

    fn hooker_entry(&self) -> (r: usize)
        ensures
            r == self.spec_hooker_entry(),
    ;
}

impl Hook for DoExecveHook {
    open spec fn spec_hookee_entry(&self) -> usize {
        self.hookee_entry
    }

    open spec fn spec_hooker_entry(&self) -> usize {
        self.hooker_entry
    }

    fn hookee_entry(&self) -> (r: usize) {
        self.hookee_entry
    }

    fn hooker_entry(&self) -> (r: usize) {
        self.hooker_entry
    }
}

impl Hook for AVCDeniedHook {
    open spec fn spec_hookee_entry(&self) -> usize {
        self.hookee_entry
    }

    open spec fn spec_hooker_entry(&self) -> usize {
        self.hooker_entry
    }

    fn hookee_entry(&self) -> (r: usize) {
        self.hookee_entry
    }

    fn hooker_entry(&self) -> (r: usize) {
        self.hooker_entry
    }
}

/// Index of the closing branch in the `do_execve` trampoline: the number of instructions
/// before it.
pub const DO_EXECVE_BRANCH_INDEX: usize = 39;

/// Index of the closing branch in the `avc_denied` trampoline.
pub const AVC_DENIED_BRANCH_INDEX: usize = 28;

/// Index of the slot for the hookee's first instruction in the `do_execve` trampoline.
pub const DO_EXECVE_RESERVED_INDEX: usize = 0;

/// Index of the slot for the hookee's first instruction in the `avc_denied` trampoline.
pub const AVC_DENIED_RESERVED_INDEX: usize = 27;

/// Bytes in an instruction.
pub const INSTRUCTION_SIZE: usize = 4;

/// Why a hook cannot be planned.
#[derive(Clone, Copy, Debug, PartialEq, Eq)]
pub enum HookError {
    /// An entry is not a multiple of the instruction size.
    Misaligned,
    /// A branch between hookee and hooker would span more than a branch can.
    BranchOutOfRange,
    /// An offset into the task structure is too large to add to.
    OffsetOutOfRange,
    /// The key has not the length that the trampoline is written for.
    KeySizeUnsupported,
}

/// A branch instruction holds its displacement as a signed number of 26 bits, counted in
/// instructions.
pub open spec fn fits_imm26(words: int) -> bool {
    -0x200_0000 <= words < 0x200_0000
}

/// A branch at `from` can reach `to`: both are instruction addresses, and their distance in
/// instructions fits the branch.
pub open spec fn branch_reaches(from: int, to: int) -> bool {
    from % 4 == 0 && to % 4 == 0 && fits_imm26((to - from) / 4)
}

/// Displacement of the branch that ends a trampoline: from the branch, `index` instructions
/// after the hooker's entry, to the hookee's second instruction.
pub open spec fn jump_back_displacement(hookee_entry: usize, hooker_entry: usize, index: usize) -> int {
    (hookee_entry + 4) - (hooker_entry + index * 4)
}

/// Displacement of the branch that replaces the hookee's first instruction.
pub open spec fn jump_to_hooker_displacement(hookee_entry: usize, hooker_entry: usize) -> int {
    hooker_entry - hookee_entry
}

/// Both entries are instruction addresses.
pub open spec fn entries_aligned(hookee_entry: usize, hooker_entry: usize) -> bool {
    hookee_entry % 4 == 0 && hooker_entry % 4 == 0
}

/// A displacement in bytes between instruction addresses that a branch can hold.
pub open spec fn displacement_fits(disp: int) -> bool {
    -0x800_0000 <= disp < 0x800_0000
}

/// Between aligned entries, a byte displacement in range is a whole number of instructions
/// that fits in the 26 signed bits of a branch: the branch from the trampoline's end
/// reaches the hookee's second instruction.
pub proof fn lemma_jump_back_fits(hookee_entry: usize, hooker_entry: usize, index: usize)
    requires
        entries_aligned(hookee_entry, hooker_entry),
        displacement_fits(jump_back_displacement(hookee_entry, hooker_entry, index)),
    ensures
        jump_back_displacement(hookee_entry, hooker_entry, index) % 4 == 0,
        fits_imm26(jump_back_displacement(hookee_entry, hooker_entry, index) / 4),
        branch_reaches(hooker_entry + index * 4, hookee_entry + 4),
{
}

/// The same for the branch from the hookee to the trampoline.
pub proof fn lemma_jump_to_hooker_fits(hookee_entry: usize, hooker_entry: usize)
    requires
        entries_aligned(hookee_entry, hooker_entry),
        displacement_fits(jump_to_hooker_displacement(hookee_entry, hooker_entry)),
    ensures
        jump_to_hooker_displacement(hookee_entry, hooker_entry) % 4 == 0,
        fits_imm26(jump_to_hooker_displacement(hookee_entry, hooker_entry) / 4),
        branch_reaches(hookee_entry as int, hooker_entry as int),
{
}

/// The displacement of a branch from `from` to `to`, when both are aligned and the branch
/// can span it.
pub fn branch_displacement(from: u128, to: u128) -> (r: Result<i64, HookError>)
    requires
        from <= 2 * usize::MAX,
        to <= 2 * usize::MAX,
    ensures
        r == if from % 4 != 0 || to % 4 != 0 {
            Err::<i64, HookError>(HookError::Misaligned)
        } else if !displacement_fits(to - from) {
            Err::<i64, HookError>(HookError::BranchOutOfRange)
        } else {
            Ok::<i64, HookError>((to - from) as i64)
        },
{
    if from % 4 != 0 || to % 4 != 0 {
        return Err(HookError::Misaligned);
    }
    if to >= from {
        if to - from >= 0x800_0000 {
            return Err(HookError::BranchOutOfRange);
        }
        Ok((to - from) as i64)
    } else {
        if from - to > 0x800_0000 {
            return Err(HookError::BranchOutOfRange);
        }
        Ok(-((from - to) as i64))
    }
}

/// What keeps a hook's two branches from being made, if anything: an entry that is no
/// instruction address, or a branch, from the hookee to the trampoline or from the
/// trampoline's end back, that spans more than a branch can.
pub open spec fn hook_error(hookee_entry: usize, hooker_entry: usize, branch_index: usize) -> Option<
    HookError,
> {
    if !entries_aligned(hookee_entry, hooker_entry) {
        Some(HookError::Misaligned)
    } else if !displacement_fits(jump_back_displacement(hookee_entry, hooker_entry, branch_index))
        || !displacement_fits(jump_to_hooker_displacement(hookee_entry, hooker_entry)) {
        Some(HookError::BranchOutOfRange)
    } else {
        None
    }
}

/// What keeps the `do_execve` hook from being planned, if anything: its branches, a key of
/// another length than the trampoline reaches back over, or a seccomp offset too large to
/// add to.
pub open spec fn do_execve_hook_error(hook: DoExecveHook) -> Option<HookError> {
    if hook_error(hook.hookee_entry, hook.hooker_entry, DO_EXECVE_BRANCH_INDEX) is Some {
        hook_error(hook.hookee_entry, hook.hooker_entry, DO_EXECVE_BRANCH_INDEX)
    } else if hook.root_key_size != HOOKED_KEY_SIZE {
        Some(HookError::KeySizeUnsupported)
    } else if hook.seccomp_offset + 8 > usize::MAX {
        Some(HookError::OffsetOutOfRange)
    } else {
        None
    }
}

/// What keeps the `avc_denied` hook from being planned, if anything: its branches.
pub open spec fn avc_denied_hook_error(hook: AVCDeniedHook) -> Option<HookError> {
    hook_error(hook.hookee_entry, hook.hooker_entry, AVC_DENIED_BRANCH_INDEX)
}

/// Checks the two branches of a hook and gives the displacement of the branch back.
pub fn check_hook(hookee_entry: usize, hooker_entry: usize, branch_index: usize) -> (r: Result<
    i64,
    HookError,
>)
    requires
        branch_index <= 1024,
    ensures
        match hook_error(hookee_entry, hooker_entry, branch_index) {
            Some(e) => r == Err::<i64, HookError>(e),
            None => r == Ok::<i64, HookError>(
                jump_back_displacement(hookee_entry, hooker_entry, branch_index) as i64,
            ),
        },
{
    let from: u128 = hooker_entry as u128 + (branch_index * INSTRUCTION_SIZE) as u128;
    let to: u128 = hookee_entry as u128 + INSTRUCTION_SIZE as u128;
    if hookee_entry % 4 != 0 || hooker_entry % 4 != 0 {
        return Err(HookError::Misaligned);
    }
    let back = branch_displacement(from, to);
    let there = branch_displacement(hookee_entry as u128, hooker_entry as u128);
    match (back, there) {
        (Ok(d), Ok(_)) => Ok(d),
        _ => Err(HookError::BranchOutOfRange),
    }
}

/// Checks the `do_execve` hook and gives the displacement of the branch back.
pub fn check_do_execve_hook(hook: &DoExecveHook) -> (r: Result<i64, HookError>)
    ensures
        match do_execve_hook_error(*hook) {
            Some(e) => r == Err::<i64, HookError>(e),
            None => r == Ok::<i64, HookError>(
                jump_back_displacement(
                    hook.hookee_entry,
                    hook.hooker_entry,
                    DO_EXECVE_BRANCH_INDEX,
                ) as i64,
            ),
        },
{
    let back = match check_hook(hook.hookee_entry, hook.hooker_entry, DO_EXECVE_BRANCH_INDEX) {
        Ok(d) => d,
        Err(e) => {
            return Err(e);
        },
    };
    if hook.root_key_size != HOOKED_KEY_SIZE {
        return Err(HookError::KeySizeUnsupported);
    }
    if hook.seccomp_offset > usize::MAX - 8 {
        return Err(HookError::OffsetOutOfRange);
    }
    Ok(back)
}

/// Index of the instruction in the `do_execve` trampoline that takes the key's address.
pub const DO_EXECVE_ADR_INDEX: usize = 9;

/// What that instruction adds to its own address.
pub const DO_EXECVE_ADR_DISPLACEMENT: i64 = -84;

/// The key's length that the trampoline is written for.
pub const HOOKED_KEY_SIZE: usize = 48;

/// The instruction that takes the key's address reaches the start of a key of
/// `HOOKED_KEY_SIZE` bytes that ends where the trampoline begins. A hook with a key of
/// another length is refused.
pub proof fn lemma_key_address(hooker_entry: usize)
    ensures
        hooker_entry + DO_EXECVE_ADR_INDEX * INSTRUCTION_SIZE + DO_EXECVE_ADR_DISPLACEMENT
            == hooker_entry - HOOKED_KEY_SIZE,
{
}

/// The text of an assembly program: each line followed by a line feed.
pub open spec fn render(program: Seq<Seq<char>>) -> Seq<char>
    decreases program.len(),
{
    if program.len() == 0 {
        Seq::empty()
    } else {
        render(program.drop_last()) + program.last() + seq!['\n']
    }
}

/// The trampoline of the `do_execve` hook, one instruction to a line.
///
/// The first line keeps the slot for the hookee's first instruction. The key lies just
/// before the trampoline; the `ADR` at index 9 reaches back over nine instructions and the
/// 48 bytes of the key. The last line, at `DO_EXECVE_BRANCH_INDEX`, branches back by
/// `jump_back`.
pub open spec fn do_execve_program(
    root_key_size: usize,
    cred_offset: usize,
    seccomp_offset: usize,
    jump_back: int,
) -> Seq<Seq<char>> {
    seq![
        "MOV X0, X0"@,
        "STP X7, X8, [sp, #-16]!"@,
        "STP X9, X10, [sp, #-16]!"@,
        "STP X11, X12, [sp, #-16]!"@,
        "MOV X7, 0xFFFFFFFFFFFFF001"@,
        "CMP X1, X7"@,
        "BCS #120"@,
        "LDR X7, [X1]"@,
        "CBZ X7, #112"@,
        "ADR X8, #-84"@,
        "MOV X9, #0"@,
        "LDRB W10, [X7, X9]"@,
        "CBZ W10, #96"@,
        "LDRB W11, [X8, X9]"@,
        "CBZ W11, #88"@,
        "CMP W10, W11"@,
        "B.NE #80"@,
        "ADD X9, X9, 1"@,
        "CMP X9, #"@ + decimal(root_key_size as nat),
        "BLT #-32"@,
        "MRS X8, SP_EL0"@,
        "LDR X10, [X8, #"@ + decimal(cred_offset as nat) + "]"@,
        "MOV X7, #4"@,
        "MOV W9, WZR"@,
        "STR W9, [X10, X7]"@,
        "ADD X7, X7, 4"@,
        "CMP X7, #40"@,
        "BLT #-12"@,
        "MOV W9, 0xFFFFFFFF"@,
        "CMP X7, #80"@,
        "BLT #-24"@,
        "LDXR W10, [X8]"@,
        "BIC W10, W10,#0xFFF"@,
        "STXR W11, W10, [X8]"@,
        "STR WZR, [X8, #"@ + decimal(seccomp_offset as nat) + "]"@,
        "STR XZR, [X8, #"@ + decimal((seccomp_offset + 8) as nat) + "]"@,
        "LDP X11, X12, [sp], #16"@,
        "LDP X9, X10, [sp], #16"@,
        "LDP X7, X8, [sp], #16"@,
        "B #"@ + signed_decimal(jump_back),
    ]
}

/// The trampoline of the `avc_denied` hook, one instruction to a line.
///
/// The slot for the hookee's first instruction is the line at `AVC_DENIED_RESERVED_INDEX`;
/// the last line, at `AVC_DENIED_BRANCH_INDEX`, branches back by `jump_back`.
pub open spec fn avc_denied_program(cred_offset: usize, jump_back: int) -> Seq<Seq<char>> {
    seq![
        "STP X9, X10, [sp, #-16]!"@,
        "STP X7, X8, [sp, #-16]!"@,
        "MRS X7, SP_EL0"@,
        "LDR X7, [X7, #"@ + decimal(cred_offset as nat) + "]"@,
        "CBZ X7, #84"@,
        "MOV X8, #4"@,
        "MOV W9, WZR"@,
        "LDR W10, [X7, X8]"@,
        "CMP W10, W9"@,
        "B.NE #64"@,
        "ADD X8, X8, 4"@,
        "CMP X8, #36"@,
        "BLT #-20"@,
        "ADD X8, X8, 12"@,
        "MOV X9, 0x3FFFFFFFFF"@,
        "LDR X10, [X7, X8]"@,
        "ADD X8, X8, 8"@,
        "CMP X10, X9"@,
        "B.CC #28"@,
        "CMP X8, #72"@,
        "BLT #-20"@,
        "LDP X9, X10, [sp], #16"@,
        "LDP X7, X8, [sp], #16"@,
        "MOV W0, WZR"@,
        "RET"@,
        "LDP X9, X10, [sp], #16"@,
        "LDP X7, X8, [sp], #16"@,
        "MOV X0, X0"@,
        "B #"@ + signed_decimal(jump_back),
    ]
}

/// The one-line program that replaces the hookee's first instruction.
pub open spec fn jump_program(displacement: int) -> Seq<Seq<char>> {
    seq!["B #"@ + signed_decimal(displacement)]
}

/// The `do_execve` trampoline has one instruction more than the index of its closing
/// branch, and that branch is its last line.
pub proof fn lemma_do_execve_program_shape(
    root_key_size: usize,
    cred_offset: usize,
    seccomp_offset: usize,
    jump_back: int,
)
    ensures
        do_execve_program(root_key_size, cred_offset, seccomp_offset, jump_back).len()
            == DO_EXECVE_BRANCH_INDEX + 1,
        do_execve_program(
            root_key_size,
            cred_offset,
            seccomp_offset,
            jump_back,
        )[DO_EXECVE_BRANCH_INDEX as int] == "B #"@ + signed_decimal(jump_back),
        do_execve_program(
            root_key_size,
            cred_offset,
            seccomp_offset,
            jump_back,
        )[DO_EXECVE_RESERVED_INDEX as int] == "MOV X0, X0"@,
{
}

/// The `avc_denied` trampoline has one instruction more than the index of its closing
/// branch, that branch is its last line, and the reserved slot stands just before it.
pub proof fn lemma_avc_denied_program_shape(cred_offset: usize, jump_back: int)
    ensures
        avc_denied_program(cred_offset, jump_back).len() == AVC_DENIED_BRANCH_INDEX + 1,
        avc_denied_program(cred_offset, jump_back)[AVC_DENIED_BRANCH_INDEX as int] == "B #"@
            + signed_decimal(jump_back),
        avc_denied_program(cred_offset, jump_back)[AVC_DENIED_RESERVED_INDEX as int]
            == "MOV X0, X0"@,
{
}

/// Appends line `k` of `program` to a text that holds the lines before it.
fn emit(text: &mut String, line: &str, Ghost(program): Ghost<Seq<Seq<char>>>, Ghost(k): Ghost<int>)
    requires
        0 <= k < program.len(),
        old(text)@ == render(program.take(k)),
        line@ == program[k],
    ensures
        final(text)@ == render(program.take(k + 1)),
{
    text.append(line);
    text.push('\n');
    proof {
        let p = program.take(k + 1);
        assert(p.drop_last() =~= program.take(k));
        assert(p.last() == program[k]);
        assert(final(text)@ =~= render(p.drop_last()) + p.last() + seq!['\n']);
    }
}

/// A line made of a prefix, a decimal number and a suffix.
fn numbered(prefix: &str, n: usize, suffix: &str) -> (r: String)
    ensures
        r@ == prefix@ + decimal(n as nat) + suffix@,
{
    let mut line = String::from_str(prefix);
    push_decimal(&mut line, n as u64);
    line.append(suffix);
    line
}

/// A branch by a signed displacement.
fn branch_line(displacement: i64) -> (r: String)
    ensures
        r@ == "B #"@ + signed_decimal(displacement as int),
{
    let mut line = String::from_str("B #");
    push_signed_decimal(&mut line, displacement);
    line
}

/// The assembly text of the `do_execve` trampoline for `hook`.
///
/// Fails when an entry is misaligned, when a branch between hookee and trampoline cannot
/// span the way, when the key has not the length the trampoline reaches back over, or
/// when the second seccomp field's offset cannot be computed.
pub fn do_execve_hooker_asm(hook: &DoExecveHook) -> (r: Result<String, HookError>)
    ensures
        match do_execve_hook_error(*hook) {
            Some(e) => r == Err::<String, HookError>(e),
            None => r is Ok && r->Ok_0@ == render(
                do_execve_program(
                    hook.root_key_size,
                    hook.cred_offset,
                    hook.seccomp_offset,
                    jump_back_displacement(
                        hook.hookee_entry,
                        hook.hooker_entry,
                        DO_EXECVE_BRANCH_INDEX,
                    ),
                ),
            ),
        },
{
    let jump_back: i64 = match check_do_execve_hook(hook) {
        Ok(d) => d,
        Err(e) => {
            return Err(e);
        },
    };
    let ghost p = do_execve_program(
        hook.root_key_size,
        hook.cred_offset,
        hook.seccomp_offset,
        jump_back as int,
    );
    let mut t = String::new();
    assert(t@ =~= render(p.take(0)));
    emit(&mut t, "MOV X0, X0", Ghost(p), Ghost(0));
    emit(&mut t, "STP X7, X8, [sp, #-16]!", Ghost(p), Ghost(1));
    emit(&mut t, "STP X9, X10, [sp, #-16]!", Ghost(p), Ghost(2));
    emit(&mut t, "STP X11, X12, [sp, #-16]!", Ghost(p), Ghost(3));
    emit(&mut t, "MOV X7, 0xFFFFFFFFFFFFF001", Ghost(p), Ghost(4));
    emit(&mut t, "CMP X1, X7", Ghost(p), Ghost(5));
    emit(&mut t, "BCS #120", Ghost(p), Ghost(6));
    emit(&mut t, "LDR X7, [X1]", Ghost(p), Ghost(7));
    emit(&mut t, "CBZ X7, #112", Ghost(p), Ghost(8));
    emit(&mut t, "ADR X8, #-84", Ghost(p), Ghost(9));
    emit(&mut t, "MOV X9, #0", Ghost(p), Ghost(10));
    emit(&mut t, "LDRB W10, [X7, X9]", Ghost(p), Ghost(11));
    emit(&mut t, "CBZ W10, #96", Ghost(p), Ghost(12));
    emit(&mut t, "LDRB W11, [X8, X9]", Ghost(p), Ghost(13));
    emit(&mut t, "CBZ W11, #88", Ghost(p), Ghost(14));
    emit(&mut t, "CMP W10, W11", Ghost(p), Ghost(15));
    emit(&mut t, "B.NE #80", Ghost(p), Ghost(16));
    emit(&mut t, "ADD X9, X9, 1", Ghost(p), Ghost(17));
    let key_check = numbered("CMP X9, #", hook.root_key_size, "");
    proof {
        reveal_strlit("");
        assert(key_check@ =~= p[18]);
    }
    emit(&mut t, key_check.as_str(), Ghost(p), Ghost(18));
    emit(&mut t, "BLT #-32", Ghost(p), Ghost(19));
    emit(&mut t, "MRS X8, SP_EL0", Ghost(p), Ghost(20));
    let load_cred = numbered("LDR X10, [X8, #", hook.cred_offset, "]");
    emit(&mut t, load_cred.as_str(), Ghost(p), Ghost(21));
    emit(&mut t, "MOV X7, #4", Ghost(p), Ghost(22));
    emit(&mut t, "MOV W9, WZR", Ghost(p), Ghost(23));
    emit(&mut t, "STR W9, [X10, X7]", Ghost(p), Ghost(24));
    emit(&mut t, "ADD X7, X7, 4", Ghost(p), Ghost(25));
    emit(&mut t, "CMP X7, #40", Ghost(p), Ghost(26));
    emit(&mut t, "BLT #-12", Ghost(p), Ghost(27));
    emit(&mut t, "MOV W9, 0xFFFFFFFF", Ghost(p), Ghost(28));
    emit(&mut t, "CMP X7, #80", Ghost(p), Ghost(29));
    emit(&mut t, "BLT #-24", Ghost(p), Ghost(30));
    emit(&mut t, "LDXR W10, [X8]", Ghost(p), Ghost(31));
    emit(&mut t, "BIC W10, W10,#0xFFF", Ghost(p), Ghost(32));
    emit(&mut t, "STXR W11, W10, [X8]", Ghost(p), Ghost(33));
    let clear_mode = numbered("STR WZR, [X8, #", hook.seccomp_offset, "]");
    emit(&mut t, clear_mode.as_str(), Ghost(p), Ghost(34));
    let clear_filter = numbered("STR XZR, [X8, #", hook.seccomp_offset + 8, "]");
    emit(&mut t, clear_filter.as_str(), Ghost(p), Ghost(35));
    emit(&mut t, "LDP X11, X12, [sp], #16", Ghost(p), Ghost(36));
    emit(&mut t, "LDP X9, X10, [sp], #16", Ghost(p), Ghost(37));
    emit(&mut t, "LDP X7, X8, [sp], #16", Ghost(p), Ghost(38));
    let back = branch_line(jump_back);
    emit(&mut t, back.as_str(), Ghost(p), Ghost(39));
    assert(p.take(40) =~= p);
    Ok(t)
}

/// The assembly text of the `avc_denied` trampoline for `hook`.
///
/// Fails when an entry is misaligned or when a branch between hookee and trampoline cannot
/// span the way.
pub fn avc_denied_hooker_asm(hook: &AVCDeniedHook) -> (r: Result<String, HookError>)
    ensures
        match avc_denied_hook_error(*hook) {
            Some(e) => r == Err::<String, HookError>(e),
            None => r is Ok && r->Ok_0@ == render(
                avc_denied_program(
                    hook.cred_offset,
                    jump_back_displacement(
                        hook.hookee_entry,
                        hook.hooker_entry,
                        AVC_DENIED_BRANCH_INDEX,
                    ),
                ),
            ),
        },
{
    let jump_back: i64 = match check_hook(
        hook.hookee_entry,
        hook.hooker_entry,
        AVC_DENIED_BRANCH_INDEX,
    ) {
        Ok(d) => d,
        Err(e) => {
            return Err(e);
        },
    };
    let ghost p = avc_denied_program(hook.cred_offset, jump_back as int);
    let mut t = String::new();
    assert(t@ =~= render(p.take(0)));
    emit(&mut t, "STP X9, X10, [sp, #-16]!", Ghost(p), Ghost(0));
    emit(&mut t, "STP X7, X8, [sp, #-16]!", Ghost(p), Ghost(1));
    emit(&mut t, "MRS X7, SP_EL0", Ghost(p), Ghost(2));
    let load_cred = numbered("LDR X7, [X7, #", hook.cred_offset, "]");
    emit(&mut t, load_cred.as_str(), Ghost(p), Ghost(3));
    emit(&mut t, "CBZ X7, #84", Ghost(p), Ghost(4));
    emit(&mut t, "MOV X8, #4", Ghost(p), Ghost(5));
    emit(&mut t, "MOV W9, WZR", Ghost(p), Ghost(6));
    emit(&mut t, "LDR W10, [X7, X8]", Ghost(p), Ghost(7));
    emit(&mut t, "CMP W10, W9", Ghost(p), Ghost(8));
    emit(&mut t, "B.NE #64", Ghost(p), Ghost(9));
    emit(&mut t, "ADD X8, X8, 4", Ghost(p), Ghost(10));
    emit(&mut t, "CMP X8, #36", Ghost(p), Ghost(11));
    emit(&mut t, "BLT #-20", Ghost(p), Ghost(12));
    emit(&mut t, "ADD X8, X8, 12", Ghost(p), Ghost(13));
    emit(&mut t, "MOV X9, 0x3FFFFFFFFF", Ghost(p), Ghost(14));
    emit(&mut t, "LDR X10, [X7, X8]", Ghost(p), Ghost(15));
    emit(&mut t, "ADD X8, X8, 8", Ghost(p), Ghost(16));
    emit(&mut t, "CMP X10, X9", Ghost(p), Ghost(17));
    emit(&mut t, "B.CC #28", Ghost(p), Ghost(18));
    emit(&mut t, "CMP X8, #72", Ghost(p), Ghost(19));
    emit(&mut t, "BLT #-20", Ghost(p), Ghost(20));
    emit(&mut t, "LDP X9, X10, [sp], #16", Ghost(p), Ghost(21));
    emit(&mut t, "LDP X7, X8, [sp], #16", Ghost(p), Ghost(22));
    emit(&mut t, "MOV W0, WZR", Ghost(p), Ghost(23));
    emit(&mut t, "RET", Ghost(p), Ghost(24));
    emit(&mut t, "LDP X9, X10, [sp], #16", Ghost(p), Ghost(25));
    emit(&mut t, "LDP X7, X8, [sp], #16", Ghost(p), Ghost(26));
    emit(&mut t, "MOV X0, X0", Ghost(p), Ghost(27));
    let back = branch_line(jump_back);
    emit(&mut t, back.as_str(), Ghost(p), Ghost(28));
    assert(p.take(29) =~= p);
    Ok(t)
}

/// The assembly text of the branch that replaces the hookee's first instruction.
///
/// Fails when an entry is misaligned or the branch cannot span the way to the trampoline.
pub fn jump_to_hooker_asm<H: Hook>(hook: &H) -> (r: Result<String, HookError>)
    ensures
        !entries_aligned(hook.spec_hookee_entry(), hook.spec_hooker_entry()) ==> r == Err::<
            String,
            HookError,
        >(HookError::Misaligned),
        entries_aligned(hook.spec_hookee_entry(), hook.spec_hooker_entry()) && !displacement_fits(
            jump_to_hooker_displacement(hook.spec_hookee_entry(), hook.spec_hooker_entry()),
        ) ==> r == Err::<String, HookError>(HookError::BranchOutOfRange),
        entries_aligned(hook.spec_hookee_entry(), hook.spec_hooker_entry()) && displacement_fits(
            jump_to_hooker_displacement(hook.spec_hookee_entry(), hook.spec_hooker_entry()),
        ) ==> r is Ok && r->Ok_0@ == render(
            jump_program(
                jump_to_hooker_displacement(hook.spec_hookee_entry(), hook.spec_hooker_entry()),
            ),
        ),
{
    let from: u128 = hook.hookee_entry() as u128;
    let to: u128 = hook.hooker_entry() as u128;
    let jump: i64 = match branch_displacement(from, to) {
        Ok(d) => d,
        Err(e) => {
            return Err(e);
        },
    };
    let ghost p = jump_program(jump as int);
    let mut t = String::new();
    assert(t@ =~= render(p.take(0)));
    let line = branch_line(jump);
    emit(&mut t, line.as_str(), Ghost(p), Ghost(0));
    assert(p.take(1) =~= p);
    Ok(t)
}

} // verus!
