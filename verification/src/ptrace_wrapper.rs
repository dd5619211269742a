//! The bookkeeping of a trace session on an aarch64 process, and the requests it is made of.
//!
//! Nothing here touches a process. A session says which trace requests are to be made, in
//! which order, and what each answer means; whoever drives it makes the requests.

use vstd::prelude::*;
use crate::word::{
    byte_of, bytes_of_word, overlay, overlay_tail, peek, poke, poke_words, word_at, word_of,
    write_data_spec, Memory, WORD_SIZE,
};

verus! {

/// Arguments that travel in registers; further ones go to the stack.
pub const NUM_PARAM_REGS: usize = 8;

/// The link register's index.
pub const LINK_REG: usize = 30;

/// General-purpose registers of an aarch64 thread.
#[derive(Clone, Copy, Debug, PartialEq, Eq)]
pub struct UserRegs {
    pub regs: [u64; 31],
    pub sp: u64,
    pub pc: u64,
    pub pstate: u64,
}

impl UserRegs {
    /// All registers zero.
    pub fn zeroed() -> (r: UserRegs)
        ensures
            r.sp == 0,
            r.pc == 0,
            r.pstate == 0,
            forall|i: int| 0 <= i < 31 ==> r.regs@[i] == 0,
    {
        UserRegs { regs: [0u64; 31], sp: 0, pc: 0, pstate: 0 }
    }
}

/// One request to the tracer, on the session's target.
#[derive(Clone, Copy, Debug, PartialEq, Eq)]
pub enum PtraceRequest {
    /// Attach to the target.
    Attach,
    /// Wait until the target stops.
    Wait,
    /// Read the general-purpose registers.
    GetRegs,
    /// Write the general-purpose registers.
    SetRegs(UserRegs),
    /// Let the target run.
    Cont,
    /// Let the target run to its next system call boundary.
    Syscall,
    /// Read the word at an address.
    Peek(u64),
    /// Write a word at an address.
    Poke(u64, u64),
    /// Detach from the target.
    Detach,
}

/// The answer to a request: the value the request returned, and the registers read by
/// `GetRegs` (for any other request they carry no meaning).
#[derive(Clone, Copy, Debug, PartialEq, Eq)]
pub struct PtraceReply {
    pub ret: i64,
    pub regs: UserRegs,
}

/// Why a session gave up.
#[derive(Clone, Copy, Debug, PartialEq, Eq)]
pub enum PtraceError {
    AttachFailed(i64),
    GetRegsFailed(i64),
    SetRegsFailed(i64),
    ContinueFailed(i64),
    SyscallFailed(i64),
    /// The stack pointer leaves no room for the arguments that go to the stack.
    StackOutOfRange,
    /// A transfer would run past the end of the address space.
    AddressOutOfRange,
}

/// Requests whose negative return value ends the session. The others are not checked.
pub open spec fn must_succeed(req: PtraceRequest) -> bool {
    req is Attach || req is GetRegs || req is SetRegs || req is Cont || req is Syscall
}

/// The error for a failed request.
pub open spec fn failure_of(req: PtraceRequest, ret: i64) -> PtraceError
    recommends
        must_succeed(req),
{
    match req {
        PtraceRequest::Attach => PtraceError::AttachFailed(ret),
        PtraceRequest::GetRegs => PtraceError::GetRegsFailed(ret),
        PtraceRequest::SetRegs(_) => PtraceError::SetRegsFailed(ret),
        PtraceRequest::Cont => PtraceError::ContinueFailed(ret),
        _ => PtraceError::SyscallFailed(ret),
    }
}

/// What a reply means for the request it answers: the error, if the request had to succeed
/// and did not.
pub fn check_reply(req: &PtraceRequest, ret: i64) -> (r: Option<PtraceError>)
    ensures
        r == if must_succeed(*req) && ret < 0 {
            Some(failure_of(*req, ret))
        } else {
            None
        },
{
    if ret >= 0 {
        return None;
    }
    match req {
        PtraceRequest::Attach => Some(PtraceError::AttachFailed(ret)),
        PtraceRequest::GetRegs => Some(PtraceError::GetRegsFailed(ret)),
        PtraceRequest::SetRegs(_) => Some(PtraceError::SetRegsFailed(ret)),
        PtraceRequest::Cont => Some(PtraceError::ContinueFailed(ret)),
        PtraceRequest::Syscall => Some(PtraceError::SyscallFailed(ret)),
        _ => None,
    }
}

/// Arguments that go to the stack: those after the first eight.
pub open spec fn stack_params(params: Seq<u64>) -> Seq<u64> {
    if params.len() > NUM_PARAM_REGS {
        params.subrange(NUM_PARAM_REGS as int, params.len() as int)
    } else {
        Seq::empty()
    }
}

/// The stack pointer for a call with `params`: lowered by one word for each argument that goes
/// to the stack.
pub open spec fn call_sp(sp: u64, params: Seq<u64>) -> int {
    sp - 8 * stack_params(params).len()
}

/// `after` holds the registers for a call of `fun_addr` with `params`, made from `before`:
/// the first eight arguments in X0 to X7, the stack pointer lowered for the others, the
/// program counter at the function, and the link register zero, so that the return faults
/// and stops the target. All other registers stay.
pub open spec fn is_call_regs(
    before: UserRegs,
    after: UserRegs,
    fun_addr: u64,
    params: Seq<u64>,
) -> bool {
    &&& after.pc == fun_addr
    &&& after.pstate == before.pstate
    &&& after.sp == call_sp(before.sp, params)
    &&& forall|i: int|
        0 <= i < 31 ==> #[trigger] after.regs@[i] == if i < params.len() && i < NUM_PARAM_REGS {
            params[i]
        } else if i == LINK_REG {
            0
        } else {
            before.regs@[i]
        }
}

/// The pokes that put `words` on the stack from `sp` upwards.
pub open spec fn stack_pokes(sp: int, words: Seq<u64>) -> Seq<PtraceRequest> {
    Seq::new(words.len(), |k: int| PtraceRequest::Poke((sp + 8 * k) as u64, words[k]))
}

/// What follows the register write of a call: run the target until the return to address
/// zero stops it, step it over two system call boundaries, and read the registers.
pub open spec fn call_tail() -> Seq<PtraceRequest> {
    seq![
        PtraceRequest::Cont,
        PtraceRequest::Wait,
        PtraceRequest::Syscall,
        PtraceRequest::Wait,
        PtraceRequest::Syscall,
        PtraceRequest::Wait,
        PtraceRequest::GetRegs,
    ]
}

/// The requests of a remote call, once the target's registers are known: the stack
/// arguments, the registers for the call, then `call_tail`.
pub open spec fn call_requests(regs: UserRegs, sp: int, params: Seq<u64>) -> Seq<PtraceRequest> {
    stack_pokes(sp, stack_params(params)) + seq![PtraceRequest::SetRegs(regs)] + call_tail()
}

/// A call can be prepared when the lowered stack pointer is an address.
pub open spec fn call_fits(sp: u64, params: Seq<u64>) -> bool {
    call_sp(sp, params) >= 0
}

/// The pokes that write the whole words of `data` from `dest` on.
pub open spec fn word_pokes(dest: int, data: Seq<u8>) -> Seq<PtraceRequest> {
    Seq::new(
        (data.len() / 8) as nat,
        |k: int| PtraceRequest::Poke((dest + 8 * k) as u64, word_of(data.subrange(8 * k, 8 * k + 8))),
    )
}

/// The requests that begin a write of `data` at `dest`: a poke for each whole word and, for
/// a shorter rest, a peek of the word that the rest goes into.
pub open spec fn write_requests(dest: int, data: Seq<u8>) -> Seq<PtraceRequest> {
    if data.len() % 8 == 0 {
        word_pokes(dest, data)
    } else {
        word_pokes(dest, data).push(PtraceRequest::Peek((dest + 8 * (data.len() / 8)) as u64))
    }
}

/// The rest of `data` after its whole words.
pub open spec fn tail_of(data: Seq<u8>) -> Seq<u8> {
    data.subrange(8 * (data.len() as int / 8), data.len() as int)
}

/// A transfer of `len` bytes at `addr` stays inside the address space, the whole of its
/// last word included.
pub open spec fn transfer_fits(addr: u64, len: nat) -> bool {
    addr + len + 8 <= u64::MAX
}

/// The peeks that read `size` bytes from `src` on: one for each word that holds any of
/// them.
pub open spec fn read_requests(src: int, size: nat) -> Seq<PtraceRequest> {
    Seq::new(((size + 7) / 8) as nat, |k: int| PtraceRequest::Peek((src + 8 * k) as u64))
}

/// The first `size` bytes of `words`, each word giving eight bytes, lowest address first.
pub open spec fn bytes_of_words(words: Seq<u64>, size: nat) -> Seq<u8> {
    Seq::new(size, |i: int| byte_of(words[i / 8], i % 8))
}

/// Memory after a request: a poke writes its word, every other request leaves memory as it
/// is.
pub open spec fn after_request(mem: Memory, req: PtraceRequest) -> Memory {
    match req {
        PtraceRequest::Poke(addr, word) => poke(mem, addr as int, word),
        _ => mem,
    }
}

/// Memory after the first `n` of `reqs`, made in order.
pub open spec fn after_requests(mem: Memory, reqs: Seq<PtraceRequest>, n: int) -> Memory
    decreases n,
{
    if n <= 0 {
        mem
    } else {
        after_request(after_requests(mem, reqs, n - 1), reqs[n - 1])
    }
}

proof fn lemma_word_pokes_store(mem: Memory, dest: u64, data: Seq<u8>, k: int)
    requires
        transfer_fits(dest, data.len()),
        0 <= k <= data.len() / 8,
    ensures
        after_requests(mem, write_requests(dest as int, data), k) == poke_words(
            mem,
            dest as int,
            data,
            k as nat,
        ),
    decreases k,
{
    if k > 0 {
        lemma_word_pokes_store(mem, dest, data, k - 1);
        assert(write_requests(dest as int, data)[k - 1] == word_pokes(dest as int, data)[k - 1]);
    }
}

/// The requests of a write, made on a process, store the data: the requests that begin
/// the write, then, for a rest shorter than a word, the poke of the peeked word with the
/// rest laid over it, leave memory as a write of the data in word-sized chunks does.
pub proof fn lemma_write_requests_store(mem: Memory, dest: u64, data: Seq<u8>)
    requires
        transfer_fits(dest, data.len()),
    ensures
        ({
            let begun = after_requests(
                mem,
                write_requests(dest as int, data),
                write_requests(dest as int, data).len() as int,
            );
            let at = dest + 8 * (data.len() / 8);
            if data.len() % 8 == 0 {
                begun == write_data_spec(mem, dest as int, data)
            } else {
                after_request(
                    begun,
                    PtraceRequest::Poke(at as u64, overlay(peek(begun, at), tail_of(data))),
                ) == write_data_spec(mem, dest as int, data)
            }
        }),
{
    let cnt: int = data.len() as int / 8;
    lemma_word_pokes_store(mem, dest, data, cnt);
    if data.len() % 8 != 0 {
        let reqs = write_requests(dest as int, data);
        assert(reqs.len() == cnt + 1);
        assert(reqs[cnt] is Peek);
        assert(after_requests(mem, reqs, cnt + 1) == after_requests(mem, reqs, cnt));
    }
}

/// A trace session on one target.
pub struct PtraceWrapper {
    pub target: i32,
    pub regs: UserRegs,
    pub bak_regs: Option<UserRegs>,
}

impl PtraceWrapper {
    /// The session that an attach request opened, or the error when the request failed.
    /// The new session has no saved registers.
    pub fn attach(pid: i32, ret: i64) -> (r: Result<PtraceWrapper, PtraceError>)
        ensures
            ret < 0 ==> r == Err::<PtraceWrapper, PtraceError>(PtraceError::AttachFailed(ret)),
            ret >= 0 ==> r is Ok && r->Ok_0.target == pid && r->Ok_0.bak_regs is None,
    {
        if ret < 0 {
            return Err(PtraceError::AttachFailed(ret));
        }
        Ok(PtraceWrapper { target: pid, regs: UserRegs::zeroed(), bak_regs: None })
    }

    /// What the return value of a request to let the target run means.
    pub fn continue_run(&self, ret: i64) -> (r: Result<(), PtraceError>)
        ensures
            r == if ret < 0 {
                Err::<(), PtraceError>(PtraceError::ContinueFailed(ret))
            } else {
                Ok::<(), PtraceError>(())
            },
    {
        if ret < 0 {
            Err(PtraceError::ContinueFailed(ret))
        } else {
            Ok(())
        }
    }

    /// The value that a finished call returned: X0.
    pub fn get_retval(regs: &UserRegs) -> (r: u64)
        ensures
            r == regs.regs@[0],
    {
        regs.regs[0]
    }

    /// Prepares a call of the function at `fun_addr` in the target, whose registers are
    /// `regs`. The session's working registers become those of the call, and the requests to
    /// make are returned; X0 of the registers that the last of them reads is the
    /// function's result.
    pub fn call(&mut self, fun_addr: u64, parameters: &[u64], regs: UserRegs) -> (r: Result<
        Vec<PtraceRequest>,
        PtraceError,
    >)
        ensures
            final(self).target == old(self).target,
            final(self).bak_regs == old(self).bak_regs,
            !call_fits(regs.sp, parameters@) ==> r == Err::<Vec<PtraceRequest>, PtraceError>(
                PtraceError::StackOutOfRange,
            ) && final(self).regs == old(self).regs,
            call_fits(regs.sp, parameters@) ==> r is Ok && is_call_regs(
                regs,
                final(self).regs,
                fun_addr,
                parameters@,
            ) && r->Ok_0@ == call_requests(
                final(self).regs,
                call_sp(regs.sp, parameters@),
                parameters@,
            ),
    {
        let n: usize = parameters.len();
        let in_regs: usize = if n < NUM_PARAM_REGS {
            n
        } else {
            NUM_PARAM_REGS
        };
        let on_stack: usize = n - in_regs;
        assert(on_stack == stack_params(parameters@).len());
        if on_stack as u128 * 8 > regs.sp as u128 {
            return Err(PtraceError::StackOutOfRange);
        }
        let sp: u64 = regs.sp - (on_stack as u64) * 8;
        let mut next = regs;
        let mut i: usize = 0;
        while i < in_regs
            invariant
                i <= in_regs <= NUM_PARAM_REGS,
                in_regs <= parameters@.len(),
                next.sp == regs.sp,
                next.pc == regs.pc,
                next.pstate == regs.pstate,
                forall|j: int|
                    0 <= j < 31 ==> #[trigger] next.regs@[j] == if j < i {
                        parameters@[j]
                    } else {
                        regs.regs@[j]
                    },
            decreases in_regs - i,
        {
            next.regs[i] = parameters[i];
            i += 1;
        }
        next.sp = sp;
        next.pc = fun_addr;
        next.regs[LINK_REG] = 0;
        let mut script: Vec<PtraceRequest> = Vec::new();
        let ghost words = stack_params(parameters@);
        let mut k: usize = 0;
        while k < on_stack
            invariant
                k <= on_stack,
                on_stack == words.len(),
                words == stack_params(parameters@),
                n == parameters@.len(),
                n == in_regs + on_stack,
                on_stack > 0 ==> in_regs == NUM_PARAM_REGS,
                sp + 8 * on_stack == regs.sp,
                script@ == stack_pokes(sp as int, words.subrange(0, k as int)),
            decreases on_stack - k,
        {
            let addr: u64 = sp + (k as u64) * 8;
            script.push(PtraceRequest::Poke(addr, parameters[NUM_PARAM_REGS + k]));
            k += 1;
            assert(script@ =~= stack_pokes(sp as int, words.subrange(0, k as int)));
        }
        assert(words.subrange(0, k as int) =~= words);
        script.push(PtraceRequest::SetRegs(next));
        script.push(PtraceRequest::Cont);
        script.push(PtraceRequest::Wait);
        script.push(PtraceRequest::Syscall);
        script.push(PtraceRequest::Wait);
        script.push(PtraceRequest::Syscall);
        script.push(PtraceRequest::Wait);
        script.push(PtraceRequest::GetRegs);
        assert(script@ =~= call_requests(next, sp as int, parameters@));
        self.regs = next;
        Ok(script)
    }

    /// The requests that begin a write of `data` at `dest`. When the length of `data` is no
    /// multiple of the word size, the last request peeks the word that the rest goes into,
    /// and `write_tail` gives the poke that ends the write.
    pub fn write_data(dest: u64, data: &[u8]) -> (r: Result<Vec<PtraceRequest>, PtraceError>)
        ensures
            !transfer_fits(dest, data@.len()) ==> r == Err::<Vec<PtraceRequest>, PtraceError>(
                PtraceError::AddressOutOfRange,
            ),
            transfer_fits(dest, data@.len()) ==> r is Ok && r->Ok_0@ == write_requests(
                dest as int,
                data@,
            ),
    {
        let size: usize = data.len();
        if dest as u128 + size as u128 + 8 > u64::MAX as u128 {
            return Err(PtraceError::AddressOutOfRange);
        }
        let cnt: usize = size / WORD_SIZE;
        let mut script: Vec<PtraceRequest> = Vec::new();
        let mut k: usize = 0;
        while k < cnt
            invariant
                k <= cnt,
                cnt == data@.len() / 8,
                data@.len() == size,
                dest + data@.len() + 8 <= u64::MAX,
                script@.len() == k,
                forall|j: int| 0 <= j < k ==> script@[j] == word_pokes(dest as int, data@)[j],
            decreases cnt - k,
        {
            let w: u64 = word_at(data, k * WORD_SIZE);
            script.push(PtraceRequest::Poke(dest + (k as u64) * 8, w));
            k += 1;
        }
        assert(script@ =~= word_pokes(dest as int, data@));
        if size % WORD_SIZE != 0 {
            script.push(PtraceRequest::Peek(dest + (cnt as u64) * 8));
        }
        Ok(script)
    }

    /// The poke that ends a write whose length is no multiple of the word size: the word
    /// that the peek returned, with its low bytes replaced by the rest of `data`.
    pub fn write_tail(dest: u64, data: &[u8], peeked: u64) -> (r: PtraceRequest)
        requires
            transfer_fits(dest, data@.len()),
        ensures
            r == PtraceRequest::Poke(
                (dest + 8 * (data@.len() / 8)) as u64,
                overlay(peeked, tail_of(data@)),
            ),
    {
        let size: usize = data.len();
        let cnt: usize = size / WORD_SIZE;
        let tail = vstd::slice::slice_subrange(data, cnt * WORD_SIZE, size);
        let w: u64 = overlay_tail(peeked, tail);
        PtraceRequest::Poke(dest + (cnt as u64) * 8, w)
    }

    /// The peeks that read `size` bytes from `src` on.
    pub fn read_requests(src: u64, size: usize) -> (r: Result<Vec<PtraceRequest>, PtraceError>)
        ensures
            !transfer_fits(src, size as nat) ==> r == Err::<Vec<PtraceRequest>, PtraceError>(
                PtraceError::AddressOutOfRange,
            ),
            transfer_fits(src, size as nat) ==> r is Ok && r->Ok_0@ == read_requests(
                src as int,
                size as nat,
            ),
    {
        if src as u128 + size as u128 + 8 > u64::MAX as u128 {
            return Err(PtraceError::AddressOutOfRange);
        }
        let cnt: usize = size / WORD_SIZE + if size % WORD_SIZE != 0 {
            1usize
        } else {
            0usize
        };
        let mut script: Vec<PtraceRequest> = Vec::new();
        let mut k: usize = 0;
        while k < cnt
            invariant
                k <= cnt,
                cnt == (size + 7) / 8,
                src + size + 8 <= u64::MAX,
                script@.len() == k,
                forall|j: int|
                    0 <= j < k ==> script@[j] == PtraceRequest::Peek((src + 8 * j) as u64),
            decreases cnt - k,
        {
            script.push(PtraceRequest::Peek(src + (k as u64) * 8));
            k += 1;
        }
        assert(script@ =~= read_requests(src as int, size as nat));
        Ok(script)
    }

    /// The `size` bytes that the peeked `words` hold.
    pub fn read_data(words: &[u64], size: usize) -> (r: Vec<u8>)
        requires
            size <= 8 * words@.len(),
        ensures
            r@ == bytes_of_words(words@, size as nat),
    {
        let mut out: Vec<u8> = Vec::new();
        let mut i: usize = 0;
        while i < size
            invariant
                i <= size <= 8 * words@.len(),
                out@ == bytes_of_words(words@, i as nat),
            decreases size - i,
        {
            let bytes = bytes_of_word(words[i / WORD_SIZE]);
            out.push(bytes[i % WORD_SIZE]);
            i += 1;
            assert(out@ =~= bytes_of_words(words@, i as nat));
        }
        out
    }

    /// Marks the session as detached. Returns whether a detach request is to be made:
    /// `false` when the session was detached before.
    pub fn detach(&mut self) -> (r: bool)
        ensures
            r == (old(self).target != 0),
            final(self).target == 0,
            final(self).regs == old(self).regs,
            final(self).bak_regs == old(self).bak_regs,
    {
        if self.target != 0 {
            self.target = 0;
            true
        } else {
            false
        }
    }

    /// Keeps `regs`, the registers just read from the target, to be written back later.
    pub fn backup_regs(&mut self, regs: UserRegs)
        ensures
            final(self).bak_regs == Some(regs),
            final(self).target == old(self).target,
            final(self).regs == old(self).regs,
    {
        self.bak_regs = Some(regs);
    }

    /// Hands out the saved registers, which are to be written back to the target, and
    /// forgets them.
    pub fn restore_regs(&mut self) -> (r: Option<UserRegs>)
        ensures
            r == old(self).bak_regs,
            final(self).bak_regs is None,
            final(self).target == old(self).target,
            final(self).regs == old(self).regs,
    {
        self.bak_regs.take()
    }
}

} // verus!
