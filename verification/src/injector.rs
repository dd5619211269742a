//! The injection itself: putting a directory in front of the `PATH` of a running process.
//!
//! The driver is a state machine. It hands out one trace request at a time and takes the
//! answer to it; whoever runs it makes the requests on the target. In the target it maps a
//! scratch page, writes the variable's name there, asks for the variable's value, reads it
//! byte by byte, writes the new value behind the name, sets the variable, reads it back,
//! and unmaps the page. However it ends once it is attached, it writes back the registers it
//! saved, if it saved any, and detaches.

use vstd::prelude::*;
use vstd::slice::slice_to_vec;
use vstd::string::StringSliceAdditionalSpecFns;
use vstd::utf8::valid_utf8;
use crate::inject::{
    prepare_getenv_params, prepare_mmap_params, prepare_munmap_params, prepare_setenv_params,
    InjectHelper, MAP_ANON_PRIVATE, PROT_RWX, SCRATCH_SIZE,
};
use crate::ptrace_wrapper::{
    call_fits, call_requests, call_sp, check_reply, failure_of, is_call_regs, must_succeed,
    read_requests, tail_of, transfer_fits, write_requests, PtraceError, PtraceReply,
    PtraceRequest, PtraceWrapper, UserRegs,
};
use crate::text::{find_byte, index_of, string_from_utf8};
use crate::word::{byte_of, overlay};

verus! {

/// Why an injection failed.
#[derive(Clone, Copy, Debug, PartialEq, Eq)]
pub enum InjectError {
    /// A trace request failed or could not be made.
    Ptrace(PtraceError),
    /// `setenv` in the target returned this value, not zero.
    SetenvFailed(u64),
    /// The variable's value is not valid UTF-8.
    InvalidUtf8,
    /// The new value holds a zero byte.
    InteriorNul,
}

/// The functions that the injection calls in the target, in the order of the calls.
#[derive(Clone, Copy, Debug, PartialEq, Eq)]
pub enum RemoteCall {
    Mmap,
    GetenvOld,
    Setenv,
    GetenvNew,
    Munmap,
}

/// The two writes to the scratch page.
#[derive(Clone, Copy, Debug, PartialEq, Eq)]
pub enum RemoteWrite {
    Name,
    Value,
}

/// What the driver is waiting for.
#[derive(Clone, Copy, Debug, PartialEq, Eq)]
pub enum Phase {
    /// Attaching and waiting for the target to stop.
    Attach,
    /// Reading the registers to save.
    Backup,
    /// Reading the registers before a call.
    CallRegs(RemoteCall),
    /// Running a call.
    CallRun(RemoteCall),
    /// Writing whole words, and peeking the word of a shorter rest.
    Write(RemoteWrite),
    /// Poking the word of a shorter rest.
    WriteTail(RemoteWrite),
    /// Reading the old value, one byte with each peek.
    ReadOld,
    /// Reading the new value back.
    ReadNew,
    /// Writing the saved registers back.
    Restore,
    /// Detaching.
    Detach,
    /// Over.
    Finished,
}

/// What the driver wants next.
#[derive(Clone, Copy, Debug, PartialEq, Eq)]
pub enum Action {
    /// Make this request and come back with the answer.
    Request(PtraceRequest),
    /// The injection is over.
    Done(Result<(), InjectError>),
}

/// The name of the variable, with the zero byte that ends it.
pub open spec fn path_name() -> Seq<u8> {
    seq![0x50u8, 0x41u8, 0x54u8, 0x48u8, 0u8]
}

/// The driver's state.
pub struct DriverState {
    pub helper: InjectHelper,
    /// The directory to put in front.
    pub path: Seq<u8>,
    pub session: PtraceWrapper,
    pub phase: Phase,
    /// The requests of the current phase, and how many of them were handed out.
    pub script: Seq<PtraceRequest>,
    pub pos: int,
    /// Address of the scratch page.
    pub scratch: u64,
    /// Address of the value being read, and how many of its bytes were read.
    pub env_addr: u64,
    pub count: u64,
    /// The bytes being read or written.
    pub buff: Seq<u8>,
    /// The first error, once there was one.
    pub failure: Option<InjectError>,
}

/// The registers for a call: the one value that `is_call_regs` admits.
pub open spec fn call_regs(before: UserRegs, fun_addr: u64, params: Seq<u64>) -> UserRegs {
    choose|after: UserRegs| is_call_regs(before, after, fun_addr, params)
}

proof fn lemma_call_regs(before: UserRegs, after: UserRegs, fun_addr: u64, params: Seq<u64>)
    requires
        is_call_regs(before, after, fun_addr, params),
    ensures
        call_regs(before, fun_addr, params) == after,
{
    let c = call_regs(before, fun_addr, params);
    assert(is_call_regs(before, c, fun_addr, params));
    assert forall|i: int| 0 <= i < 31 implies c.regs@[i] == after.regs@[i] by {}
    assert(c.regs@ =~= after.regs@);
    assert(c.regs == after.regs);
}

/// The result that a finished driver reports.
pub open spec fn outcome(s: DriverState) -> Result<(), InjectError> {
    match s.failure {
        Some(e) => Err(e),
        None => Ok(()),
    }
}

pub open spec fn finish(s: DriverState) -> (DriverState, Action) {
    (DriverState { phase: Phase::Finished, ..s }, Action::Done(outcome(s)))
}

/// Begins a phase: its first request goes out.
pub open spec fn issue(s: DriverState, phase: Phase, script: Seq<PtraceRequest>) -> (
    DriverState,
    Action,
)
    recommends
        script.len() > 0,
{
    (DriverState { phase, script, pos: 1, ..s }, Action::Request(script[0]))
}

/// Detaches, when the session is attached, and then finishes.
pub open spec fn detach_step(s: DriverState) -> (DriverState, Action) {
    if s.session.target != 0 {
        issue(
            DriverState { session: PtraceWrapper { target: 0, ..s.session }, ..s },
            Phase::Detach,
            seq![PtraceRequest::Detach],
        )
    } else {
        finish(s)
    }
}

/// The way out: write the saved registers back, if any are saved, then detach.
pub open spec fn cleanup(s: DriverState) -> (DriverState, Action) {
    match s.session.bak_regs {
        Some(r) => issue(
            DriverState { session: PtraceWrapper { bak_regs: None, ..s.session }, ..s },
            Phase::Restore,
            seq![PtraceRequest::SetRegs(r)],
        ),
        None => detach_step(s),
    }
}

/// Gives up with `e`, by the way out; the first error is the one reported.
pub open spec fn fail(s: DriverState, e: InjectError) -> (DriverState, Action) {
    let s1 = DriverState {
        failure: if s.failure is Some {
            s.failure
        } else {
            Some(e)
        },
        ..s
    };
    if s.phase is Restore || s.phase is Detach {
        detach_step(s1)
    } else {
        cleanup(s1)
    }
}

/// A call begins by reading the registers.
pub open spec fn begin_call(s: DriverState, c: RemoteCall) -> (DriverState, Action) {
    issue(s, Phase::CallRegs(c), seq![PtraceRequest::GetRegs])
}

/// Address of the value in the scratch page: behind the name.
pub open spec fn value_addr(s: DriverState) -> int {
    s.scratch + 5
}

/// The address of the function of a call.
pub open spec fn call_addr(s: DriverState, c: RemoteCall) -> u64 {
    match c {
        RemoteCall::Mmap => s.helper.mmap_addr,
        RemoteCall::GetenvOld => s.helper.getenv_addr,
        RemoteCall::Setenv => s.helper.setenv_addr,
        RemoteCall::GetenvNew => s.helper.getenv_addr,
        RemoteCall::Munmap => s.helper.munmap_addr,
    }
}

/// The arguments of a call.
pub open spec fn call_params(s: DriverState, c: RemoteCall) -> Seq<u64> {
    match c {
        RemoteCall::Mmap => seq![
            0u64,
            SCRATCH_SIZE as u64,
            PROT_RWX as u64,
            MAP_ANON_PRIVATE as u64,
            0u64,
            0u64,
        ],
        RemoteCall::GetenvOld => seq![s.scratch],
        RemoteCall::Setenv => seq![s.scratch, value_addr(s) as u64, 1u64],
        RemoteCall::GetenvNew => seq![s.scratch],
        RemoteCall::Munmap => seq![s.scratch, SCRATCH_SIZE as u64],
    }
}

/// Where a write goes: the name to the start of the scratch page, the value behind it.
pub open spec fn write_dest(s: DriverState, w: RemoteWrite) -> int {
    match w {
        RemoteWrite::Name => s.scratch as int,
        RemoteWrite::Value => value_addr(s),
    }
}

/// A write of `buff` begins, at the place of `w`.
pub open spec fn begin_write(s: DriverState, w: RemoteWrite) -> (DriverState, Action) {
    let dest = write_dest(s, w);
    if dest > u64::MAX || !transfer_fits(dest as u64, s.buff.len()) {
        fail(s, InjectError::Ptrace(PtraceError::AddressOutOfRange))
    } else {
        issue(s, Phase::Write(w), write_requests(dest, s.buff))
    }
}

/// What follows a finished write.
pub open spec fn after_write(s: DriverState, w: RemoteWrite) -> (DriverState, Action) {
    match w {
        RemoteWrite::Name => begin_call(s, RemoteCall::GetenvOld),
        RemoteWrite::Value => begin_call(s, RemoteCall::Setenv),
    }
}

/// The next byte of the value is asked for.
pub open spec fn begin_read(s: DriverState, phase: Phase) -> (DriverState, Action) {
    let addr: int = s.env_addr + s.count;
    if addr > u64::MAX || !transfer_fits(addr as u64, 1) {
        fail(s, InjectError::Ptrace(PtraceError::AddressOutOfRange))
    } else {
        issue(s, phase, read_requests(addr, 1))
    }
}

/// What a finished call leads to, given the value it returned.
pub open spec fn after_call(s: DriverState, c: RemoteCall, ret: u64) -> (DriverState, Action) {
    match c {
        RemoteCall::Mmap => begin_write(
            DriverState { scratch: ret, buff: path_name(), ..s },
            RemoteWrite::Name,
        ),
        RemoteCall::GetenvOld => begin_read(
            DriverState { env_addr: ret, count: 0, buff: s.path.push(0x3au8), ..s },
            Phase::ReadOld,
        ),
        RemoteCall::Setenv => if ret != 0 {
            fail(s, InjectError::SetenvFailed(ret))
        } else {
            begin_call(s, RemoteCall::GetenvNew)
        },
        RemoteCall::GetenvNew => begin_read(
            DriverState { env_addr: ret, count: 0, buff: Seq::empty(), ..s },
            Phase::ReadNew,
        ),
        RemoteCall::Munmap => cleanup(s),
    }
}

/// What the end of the value leads to: the new value is written, or the page unmapped.
pub open spec fn after_value(s: DriverState) -> (DriverState, Action) {
    if !valid_utf8(s.buff) {
        fail(s, InjectError::InvalidUtf8)
    } else if s.phase is ReadNew {
        begin_call(s, RemoteCall::Munmap)
    } else if index_of(s.buff, 0u8, 0) < s.buff.len() {
        fail(s, InjectError::InteriorNul)
    } else {
        begin_write(DriverState { buff: s.buff.push(0u8), ..s }, RemoteWrite::Value)
    }
}

/// What the last answer of a phase leads to.
pub open spec fn after_phase(s: DriverState, reply: PtraceReply) -> (DriverState, Action) {
    match s.phase {
        Phase::Attach => issue(s, Phase::Backup, seq![PtraceRequest::GetRegs]),
        Phase::Backup => begin_call(
            DriverState { session: PtraceWrapper { bak_regs: Some(reply.regs), ..s.session }, ..s },
            RemoteCall::Mmap,
        ),
        Phase::CallRegs(c) => {
            let params = call_params(s, c);
            if (c is Setenv && value_addr(s) > u64::MAX) {
                fail(s, InjectError::Ptrace(PtraceError::AddressOutOfRange))
            } else if !call_fits(reply.regs.sp, params) {
                fail(s, InjectError::Ptrace(PtraceError::StackOutOfRange))
            } else {
                let regs = call_regs(reply.regs, call_addr(s, c), params);
                issue(
                    DriverState { session: PtraceWrapper { regs, ..s.session }, ..s },
                    Phase::CallRun(c),
                    call_requests(regs, call_sp(reply.regs.sp, params), params),
                )
            }
        },
        Phase::CallRun(c) => after_call(s, c, reply.regs.regs@[0]),
        Phase::Write(w) => if s.buff.len() % 8 != 0 {
            let dest = write_dest(s, w);
            issue(
                s,
                Phase::WriteTail(w),
                seq![
                    PtraceRequest::Poke(
                        (dest + 8 * (s.buff.len() / 8)) as u64,
                        overlay(reply.ret as u64, tail_of(s.buff)),
                    ),
                ],
            )
        } else {
            after_write(s, w)
        },
        Phase::WriteTail(w) => after_write(s, w),
        Phase::ReadOld | Phase::ReadNew => {
            let b = byte_of(reply.ret as u64, 0);
            if b != 0 {
                if s.count == u64::MAX {
                    fail(s, InjectError::Ptrace(PtraceError::AddressOutOfRange))
                } else {
                    begin_read(
                        DriverState { buff: s.buff.push(b), count: (s.count + 1) as u64, ..s },
                        s.phase,
                    )
                }
            } else {
                after_value(s)
            }
        },
        Phase::Restore => detach_step(s),
        Phase::Detach => finish(s),
        Phase::Finished => finish(s),
    }
}

/// The driver's step: the state and the action that follow an answer.
///
/// A finished driver stays finished. An answer that says that a request which had to
/// succeed has failed ends the injection: a failed attach at once, any later failure by
/// the way out. Otherwise the next request of the phase goes out, or, after the last, the
/// next phase begins.
pub open spec fn step_spec(s: DriverState, reply: PtraceReply) -> (DriverState, Action) {
    if s.phase is Finished {
        (s, Action::Done(outcome(s)))
    } else if must_succeed(s.script[s.pos - 1]) && reply.ret < 0 {
        let e = InjectError::Ptrace(failure_of(s.script[s.pos - 1], reply.ret));
        if s.phase is Attach && s.pos == 1 {
            finish(DriverState { failure: Some(e), ..s })
        } else {
            fail(s, e)
        }
    } else if s.pos < s.script.len() {
        (DriverState { pos: s.pos + 1, ..s }, Action::Request(s.script[s.pos]))
    } else {
        after_phase(s, reply)
    }
}

/// The state in which an injection begins, its first request handed out.
pub open spec fn initial_state(
    pid: i32,
    helper: InjectHelper,
    path: Seq<u8>,
    regs: UserRegs,
) -> DriverState {
    DriverState {
        helper,
        path,
        session: PtraceWrapper { target: pid, regs, bak_regs: None },
        phase: Phase::Attach,
        script: seq![PtraceRequest::Attach, PtraceRequest::Wait],
        pos: 1,
        scratch: 0,
        env_addr: 0,
        count: 0,
        buff: Seq::empty(),
        failure: None,
    }
}

/// The state of a driver is sound: while it runs, a request of its script is out, and a
/// write that is under way stays inside the address space.
pub open spec fn state_wf(s: DriverState) -> bool {
    &&& s.phase is Finished || 1 <= s.pos <= s.script.len()
    &&& s.phase matches Phase::Write(w) ==> write_dest(s, w) <= u64::MAX && transfer_fits(
        write_dest(s, w) as u64,
        s.buff.len(),
    )
}

/// No exit without restoring: when a running driver that holds saved registers of an
/// attached target gives up, its next request writes those registers back, the one after
/// that detaches, whatever the answers are, and only then does it finish, reporting the
/// first error.
pub proof fn lemma_failure_restores_and_detaches(
    s: DriverState,
    e: InjectError,
    r1: PtraceReply,
    r2: PtraceReply,
)
    requires
        s.session.bak_regs is Some,
        s.session.target != 0,
        !(s.phase is Restore) && !(s.phase is Detach) && !(s.phase is Finished),
    ensures
        fail(s, e).1 == Action::Request(PtraceRequest::SetRegs(s.session.bak_regs->Some_0)),
        step_spec(fail(s, e).0, r1).1 == Action::Request(PtraceRequest::Detach),
        step_spec(step_spec(fail(s, e).0, r1).0, r2).1 == Action::Done(
            Err(
                if s.failure is Some {
                    s.failure->Some_0
                } else {
                    e
                },
            ),
        ),
        step_spec(step_spec(fail(s, e).0, r1).0, r2).0.phase is Finished,
{
    let s1 = fail(s, e).0;
    assert(s1.script =~= seq![PtraceRequest::SetRegs(s.session.bak_regs->Some_0)]);
    let s2 = step_spec(s1, r1).0;
    assert(s2.script =~= seq![PtraceRequest::Detach]);
}

/// A finished driver stays as it is and repeats its result.
pub proof fn lemma_finished_stays(s: DriverState, reply: PtraceReply)
    requires
        s.phase is Finished,
    ensures
        step_spec(s, reply) == (s, Action::Done(outcome(s))),
{
}

/// The driver of one injection.
pub struct InjectDriver {
    helper: InjectHelper,
    path: Vec<u8>,
    session: PtraceWrapper,
    phase: Phase,
    script: Vec<PtraceRequest>,
    pos: usize,
    scratch: u64,
    env_addr: u64,
    count: u64,
    buff: Vec<u8>,
    failure: Option<InjectError>,
}

impl View for InjectDriver {
    type V = DriverState;

    closed spec fn view(&self) -> DriverState {
        DriverState {
            helper: self.helper,
            path: self.path@,
            session: self.session,
            phase: self.phase,
            script: self.script@,
            pos: self.pos as int,
            scratch: self.scratch,
            env_addr: self.env_addr,
            count: self.count,
            buff: self.buff@,
            failure: self.failure,
        }
    }
}

impl InjectDriver {
    /// The driver is sound.
    pub open spec fn wf(&self) -> bool {
        state_wf(self@)
    }

    fn finish(&mut self) -> (a: Action)
        ensures
            (final(self)@, a) == finish(old(self)@),
            final(self).wf(),
    {
        self.phase = Phase::Finished;
        match self.failure {
            Some(e) => Action::Done(Err(e)),
            None => Action::Done(Ok(())),
        }
    }

    fn issue(&mut self, phase: Phase, script: Vec<PtraceRequest>) -> (a: Action)
        requires
            script@.len() > 0,
            phase matches Phase::Write(w) ==> write_dest(old(self)@, w) <= u64::MAX
                && transfer_fits(write_dest(old(self)@, w) as u64, old(self)@.buff.len()),
        ensures
            (final(self)@, a) == issue(old(self)@, phase, script@),
            final(self).wf(),
    {
        let first = script[0];
        self.phase = phase;
        self.script = script;
        self.pos = 1;
        Action::Request(first)
    }

    fn issue_one(&mut self, phase: Phase, req: PtraceRequest) -> (a: Action)
        requires
            !(phase is Write),
        ensures
            (final(self)@, a) == issue(old(self)@, phase, seq![req]),
            final(self).wf(),
    {
        let mut script: Vec<PtraceRequest> = Vec::with_capacity(1);
        script.push(req);
        assert(script@ =~= seq![req]);
        self.issue(phase, script)
    }

    fn detach_step(&mut self) -> (a: Action)
        ensures
            (final(self)@, a) == detach_step(old(self)@),
            final(self).wf(),
    {
        if self.session.detach() {
            self.issue_one(Phase::Detach, PtraceRequest::Detach)
        } else {
            self.finish()
        }
    }

    fn cleanup(&mut self) -> (a: Action)
        ensures
            (final(self)@, a) == cleanup(old(self)@),
            final(self).wf(),
    {
        match self.session.restore_regs() {
            Some(r) => self.issue_one(Phase::Restore, PtraceRequest::SetRegs(r)),
            None => self.detach_step(),
        }
    }

    fn fail(&mut self, e: InjectError) -> (a: Action)
        ensures
            (final(self)@, a) == fail(old(self)@, e),
            final(self).wf(),
    {
        if self.failure.is_none() {
            self.failure = Some(e);
        }
        match self.phase {
            Phase::Restore | Phase::Detach => self.detach_step(),
            _ => self.cleanup(),
        }
    }

    fn begin_call(&mut self, c: RemoteCall) -> (a: Action)
        ensures
            (final(self)@, a) == begin_call(old(self)@, c),
            final(self).wf(),
    {
        self.issue_one(Phase::CallRegs(c), PtraceRequest::GetRegs)
    }

    fn write_dest(&self, w: RemoteWrite) -> (r: Option<u64>)
        ensures
            r == if write_dest(self@, w) > u64::MAX {
                None
            } else {
                Some(write_dest(self@, w) as u64)
            },
    {
        match w {
            RemoteWrite::Name => Some(self.scratch),
            RemoteWrite::Value => self.scratch.checked_add(5),
        }
    }

    fn begin_write(&mut self, w: RemoteWrite) -> (a: Action)
        requires
            old(self)@.buff.len() > 0,
        ensures
            (final(self)@, a) == begin_write(old(self)@, w),
            final(self).wf(),
    {
        let dest: u64 = match self.write_dest(w) {
            Some(d) => d,
            None => {
                return self.fail(InjectError::Ptrace(PtraceError::AddressOutOfRange));
            },
        };
        match PtraceWrapper::write_data(dest, self.buff.as_slice()) {
            Ok(script) => self.issue(Phase::Write(w), script),
            Err(e) => self.fail(InjectError::Ptrace(e)),
        }
    }

    fn after_write(&mut self, w: RemoteWrite) -> (a: Action)
        ensures
            (final(self)@, a) == after_write(old(self)@, w),
            final(self).wf(),
    {
        match w {
            RemoteWrite::Name => self.begin_call(RemoteCall::GetenvOld),
            RemoteWrite::Value => self.begin_call(RemoteCall::Setenv),
        }
    }

    fn begin_read(&mut self, phase: Phase) -> (a: Action)
        requires
            phase is ReadOld || phase is ReadNew,
        ensures
            (final(self)@, a) == begin_read(old(self)@, phase),
            final(self).wf(),
    {
        let addr: u64 = match self.env_addr.checked_add(self.count) {
            Some(x) => x,
            None => {
                return self.fail(InjectError::Ptrace(PtraceError::AddressOutOfRange));
            },
        };
        match PtraceWrapper::read_requests(addr, 1) {
            Ok(script) => self.issue(phase, script),
            Err(e) => self.fail(InjectError::Ptrace(e)),
        }
    }

    fn call_params(&self, c: RemoteCall) -> (r: Option<Vec<u64>>)
        ensures
            match r {
                Some(p) => p@ == call_params(self@, c) && !(c is Setenv && value_addr(self@)
                    > u64::MAX),
                None => c is Setenv && value_addr(self@) > u64::MAX,
            },
    {
        match c {
            RemoteCall::Mmap => Some(
                prepare_mmap_params(0, SCRATCH_SIZE, PROT_RWX, MAP_ANON_PRIVATE),
            ),
            RemoteCall::GetenvOld => Some(prepare_getenv_params(self.scratch)),
            RemoteCall::Setenv => match self.scratch.checked_add(5) {
                Some(v) => Some(prepare_setenv_params(self.scratch, v, 1)),
                None => None,
            },
            RemoteCall::GetenvNew => Some(prepare_getenv_params(self.scratch)),
            RemoteCall::Munmap => Some(prepare_munmap_params(self.scratch, SCRATCH_SIZE)),
        }
    }

    fn call_addr(&self, c: RemoteCall) -> (r: u64)
        ensures
            r == call_addr(self@, c),
    {
        match c {
            RemoteCall::Mmap => self.helper.mmap_addr,
            RemoteCall::GetenvOld => self.helper.getenv_addr,
            RemoteCall::Setenv => self.helper.setenv_addr,
            RemoteCall::GetenvNew => self.helper.getenv_addr,
            RemoteCall::Munmap => self.helper.munmap_addr,
        }
    }

    fn run_call(&mut self, c: RemoteCall, regs: UserRegs) -> (a: Action)
        requires
            old(self)@.phase == Phase::CallRegs(c),
        ensures
            (final(self)@, a) == after_phase(old(self)@, PtraceReply { ret: 0, regs }),
            final(self).wf(),
    {
        let params = match self.call_params(c) {
            Some(p) => p,
            None => {
                return self.fail(InjectError::Ptrace(PtraceError::AddressOutOfRange));
            },
        };
        let addr: u64 = self.call_addr(c);
        match self.session.call(addr, params.as_slice(), regs) {
            Ok(script) => {
                proof {
                    lemma_call_regs(regs, self.session.regs, addr, params@);
                }
                self.issue(Phase::CallRun(c), script)
            },
            Err(e) => self.fail(InjectError::Ptrace(e)),
        }
    }

    fn after_call(&mut self, c: RemoteCall, ret: u64) -> (a: Action)
        ensures
            (final(self)@, a) == after_call(old(self)@, c, ret),
            final(self).wf(),
    {
        match c {
            RemoteCall::Mmap => {
                self.scratch = ret;
                let mut name: Vec<u8> = Vec::with_capacity(5);
                name.push(0x50);
                name.push(0x41);
                name.push(0x54);
                name.push(0x48);
                name.push(0);
                assert(name@ =~= path_name());
                self.buff = name;
                self.begin_write(RemoteWrite::Name)
            },
            RemoteCall::GetenvOld => {
                self.env_addr = ret;
                self.count = 0;
                let mut buff: Vec<u8> = slice_to_vec(self.path.as_slice());
                buff.push(0x3a);
                self.buff = buff;
                self.begin_read(Phase::ReadOld)
            },
            RemoteCall::Setenv => {
                if ret != 0 {
                    self.fail(InjectError::SetenvFailed(ret))
                } else {
                    self.begin_call(RemoteCall::GetenvNew)
                }
            },
            RemoteCall::GetenvNew => {
                self.env_addr = ret;
                self.count = 0;
                self.buff = Vec::new();
                self.begin_read(Phase::ReadNew)
            },
            RemoteCall::Munmap => self.cleanup(),
        }
    }

    fn after_value(&mut self) -> (a: Action)
        requires
            old(self)@.phase is ReadOld || old(self)@.phase is ReadNew,
        ensures
            (final(self)@, a) == after_value(old(self)@),
            final(self).wf(),
    {
        if string_from_utf8(slice_to_vec(self.buff.as_slice())).is_none() {
            return self.fail(InjectError::InvalidUtf8);
        }
        match self.phase {
            Phase::ReadNew => self.begin_call(RemoteCall::Munmap),
            _ => {
                if find_byte(self.buff.as_slice(), 0, 0) < self.buff.len() {
                    return self.fail(InjectError::InteriorNul);
                }
                self.buff.push(0);
                self.begin_write(RemoteWrite::Value)
            },
        }
    }

    fn after_phase(&mut self, reply: &PtraceReply) -> (a: Action)
        requires
            !(old(self)@.phase is Finished),
            old(self).wf(),
        ensures
            (final(self)@, a) == after_phase(old(self)@, *reply),
            final(self).wf(),
    {
        match self.phase {
            Phase::Attach => self.issue_one(Phase::Backup, PtraceRequest::GetRegs),
            Phase::Backup => {
                self.session.backup_regs(reply.regs);
                self.begin_call(RemoteCall::Mmap)
            },
            Phase::CallRegs(c) => self.run_call(c, reply.regs),
            Phase::CallRun(c) => {
                let ret: u64 = PtraceWrapper::get_retval(&reply.regs);
                self.after_call(c, ret)
            },
            Phase::Write(w) => {
                if self.buff.len() % 8 != 0 {
                    let dest: u64 = match w {
                        RemoteWrite::Name => self.scratch,
                        RemoteWrite::Value => self.scratch + 5,
                    };
                    let peeked: u64 = #[verifier::truncate]
                    (reply.ret as u64);
                    let req = PtraceWrapper::write_tail(dest, self.buff.as_slice(), peeked);
                    self.issue_one(Phase::WriteTail(w), req)
                } else {
                    self.after_write(w)
                }
            },
            Phase::WriteTail(w) => self.after_write(w),
            Phase::ReadOld | Phase::ReadNew => {
                let word: u64 = #[verifier::truncate]
                (reply.ret as u64);
                let b: u8 = (word % 0x100) as u8;
                if b != 0 {
                    if self.count == u64::MAX {
                        return self.fail(InjectError::Ptrace(PtraceError::AddressOutOfRange));
                    }
                    self.buff.push(b);
                    self.count = self.count + 1;
                    let phase = self.phase;
                    self.begin_read(phase)
                } else {
                    self.after_value()
                }
            },
            Phase::Restore => self.detach_step(),
            Phase::Detach => self.finish(),
            Phase::Finished => self.finish(),
        }
    }

    /// Takes the answer to the request that is out and says what to do next.
    pub fn step(&mut self, reply: &PtraceReply) -> (a: Action)
        requires
            old(self).wf(),
        ensures
            (final(self)@, a) == step_spec(old(self)@, *reply),
            final(self).wf(),
    {
        if let Phase::Finished = self.phase {
            return match self.failure {
                Some(e) => Action::Done(Err(e)),
                None => Action::Done(Ok(())),
            };
        }
        let last = self.script[self.pos - 1];
        match check_reply(&last, reply.ret) {
            Some(e) => {
                let attach_failed = match self.phase {
                    Phase::Attach => self.pos == 1,
                    _ => false,
                };
                if attach_failed {
                    self.failure = Some(InjectError::Ptrace(e));
                    return self.finish();
                }
                return self.fail(InjectError::Ptrace(e));
            },
            None => {},
        }
        if self.pos < self.script.len() {
            let next = self.script[self.pos];
            self.pos = self.pos + 1;
            return Action::Request(next);
        }
        self.after_phase(reply)
    }
}

/// Begins the injection of `path_to_add` into the `PATH` of process `pid`. Returns the
/// driver and the first request to make: an attach.
pub fn inject_path_to_pid(pid: i32, helper: InjectHelper, path_to_add: &str) -> (r: (
    InjectDriver,
    PtraceRequest,
))
    ensures
        r.0.wf(),
        r.1 == PtraceRequest::Attach,
        exists|regs: UserRegs| r.0@ == initial_state(pid, helper, path_to_add.spec_bytes(), regs),
{
    let mut script: Vec<PtraceRequest> = Vec::with_capacity(2);
    script.push(PtraceRequest::Attach);
    script.push(PtraceRequest::Wait);
    assert(script@ =~= seq![PtraceRequest::Attach, PtraceRequest::Wait]);
    let regs = UserRegs::zeroed();
    let driver = InjectDriver {
        helper,
        path: slice_to_vec(path_to_add.as_bytes()),
        session: PtraceWrapper { target: pid, regs, bak_regs: None },
        phase: Phase::Attach,
        script,
        pos: 1,
        scratch: 0,
        env_addr: 0,
        count: 0,
        buff: Vec::new(),
        failure: None,
    };
    assert(driver@ == initial_state(pid, helper, path_to_add.spec_bytes(), regs));
    (driver, PtraceRequest::Attach)
}

} // verus!
