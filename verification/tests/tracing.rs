use std::collections::HashMap;

use skroot::inject::{
    prepare_getenv_params, prepare_mmap_params, prepare_munmap_params, prepare_setenv_params,
    InjectHelper, MAP_ANON_PRIVATE, PROT_RWX, SCRATCH_SIZE,
};
use skroot::injector::{inject_path_to_pid, Action, InjectError};
use skroot::ptrace_wrapper::{
    check_reply, PtraceError, PtraceReply, PtraceRequest, PtraceWrapper, UserRegs,
};
use skroot::word::{bytes_of_word, overlay_tail, word_at};

fn regs_with(sp: u64) -> UserRegs {
    let mut r = UserRegs::zeroed();
    for i in 0..31 {
        r.regs[i] = 0x1000 + i as u64;
    }
    r.sp = sp;
    r.pc = 0x4444;
    r.pstate = 0x6000_0000;
    r
}

/// A stand-in for a traced process: memory, registers, and four functions at known
/// addresses.
struct Tracee {
    mem: HashMap<u64, u8>,
    regs: UserRegs,
    env: u64,
    setenv_result: u64,
    fail: Option<PtraceRequest>,
    log: Vec<PtraceRequest>,
}

const MMAP: u64 = 0x7100_0000;
const MUNMAP: u64 = 0x7100_0100;
const GETENV: u64 = 0x7100_0200;
const SETENV: u64 = 0x7100_0300;
const PAGE: u64 = 0x7f00_0000;

impl Tracee {
    fn new(path: &[u8]) -> Tracee {
        let mut t = Tracee {
            mem: HashMap::new(),
            regs: regs_with(0x7fff_0000),
            env: 0x5000,
            setenv_result: 0,
            fail: None,
            log: Vec::new(),
        };
        t.store(0x5000, path);
        t.store(0x5000 + path.len() as u64, &[0]);
        t
    }

    fn store(&mut self, addr: u64, bytes: &[u8]) {
        for (i, b) in bytes.iter().enumerate() {
            self.mem.insert(addr + i as u64, *b);
        }
    }

    fn load(&self, addr: u64, n: usize) -> Vec<u8> {
        (0..n as u64).map(|i| *self.mem.get(&(addr + i)).unwrap_or(&0xcc)).collect()
    }

    fn c_string(&self, addr: u64) -> Vec<u8> {
        let mut out = Vec::new();
        let mut a = addr;
        loop {
            let b = *self.mem.get(&a).unwrap_or(&0);
            if b == 0 {
                return out;
            }
            out.push(b);
            a += 1;
        }
    }

    fn run_call(&mut self) {
        let args = self.regs.regs;
        let ret = match self.regs.pc {
            MMAP => PAGE,
            MUNMAP => 0,
            GETENV => self.env,
            SETENV => {
                if self.setenv_result == 0 {
                    let value = self.c_string(args[1]);
                    self.env = 0x9000;
                    self.store(0x9000, &value);
                    self.store(0x9000 + value.len() as u64, &[0]);
                }
                self.setenv_result
            }
            _ => panic!("call of an unknown function"),
        };
        self.regs.regs[0] = ret;
        self.regs.pc = 0;
    }

    fn answer(&mut self, req: PtraceRequest) -> PtraceReply {
        self.log.push(req);
        let mut reply = PtraceReply { ret: 0, regs: UserRegs::zeroed() };
        if self.fail == Some(req) {
            reply.ret = -1;
            return reply;
        }
        match req {
            PtraceRequest::GetRegs => reply.regs = self.regs,
            PtraceRequest::SetRegs(r) => self.regs = r,
            PtraceRequest::Cont => self.run_call(),
            PtraceRequest::Peek(addr) => {
                reply.ret = word_at(&self.load(addr, 8), 0) as i64;
            }
            PtraceRequest::Poke(addr, word) => {
                let bytes = bytes_of_word(word);
                self.store(addr, &bytes);
            }
            _ => {}
        }
        reply
    }
}

fn helper() -> InjectHelper {
    InjectHelper { mmap_addr: MMAP, munmap_addr: MUNMAP, getenv_addr: GETENV, setenv_addr: SETENV }
}

fn run(tracee: &mut Tracee, pid: i32, path: &str) -> Result<(), InjectError> {
    let (mut driver, first) = inject_path_to_pid(pid, helper(), path);
    let mut req = first;
    for _ in 0..100_000 {
        let reply = tracee.answer(req);
        match driver.step(&reply) {
            Action::Request(next) => req = next,
            Action::Done(result) => {
                // A finished driver repeats its result.
                assert_eq!(driver.step(&reply), Action::Done(result));
                return result;
            }
        }
    }
    panic!("the driver did not finish");
}

#[test]
fn words_and_bytes() {
    assert_eq!(bytes_of_word(0x0807_0605_0403_0201), vec![1, 2, 3, 4, 5, 6, 7, 8]);
    assert_eq!(word_at(&[0, 1, 2, 3, 4, 5, 6, 7, 8], 1), 0x0807_0605_0403_0201);
    assert_eq!(word_at(&[0xff; 8], 0), u64::MAX);
    assert_eq!(overlay_tail(0x0807_0605_0403_0201, &[0xaa, 0xbb]), 0x0807_0605_0403_bbaa);
    assert_eq!(overlay_tail(7, &[]), 7);
    assert_eq!(overlay_tail(u64::MAX, &[0; 8]), 0);
}

#[test]
fn write_then_read_returns_the_data() {
    for len in 0usize..=33 {
        let data: Vec<u8> = (0..len).map(|i| (i * 7 + 1) as u8).collect();
        let mut t = Tracee::new(b"");
        let base = 0x2000u64;
        t.store(base - 8, &[0x55; 64]);
        let script = PtraceWrapper::write_data(base, &data).unwrap();
        assert_eq!(script.len(), len / 8 + if len % 8 != 0 { 1 } else { 0 });
        let mut last = 0i64;
        for req in script {
            last = t.answer(req).ret;
        }
        if len % 8 != 0 {
            assert_eq!(t.log.last(), Some(&PtraceRequest::Peek(base + 8 * (len as u64 / 8))));
            let poke = PtraceWrapper::write_tail(base, &data, last as u64);
            t.answer(poke);
        }
        // What lies around the data is as it was.
        assert_eq!(t.load(base - 8, 8), vec![0x55; 8]);
        assert_eq!(t.load(base + len as u64, 56 - len), vec![0x55; 56 - len]);
        assert_eq!(t.load(base, len), data);

        let peeks = PtraceWrapper::read_requests(base, len).unwrap();
        assert_eq!(peeks.len(), (len + 7) / 8);
        let words: Vec<u64> = peeks.into_iter().map(|p| t.answer(p).ret as u64).collect();
        assert_eq!(PtraceWrapper::read_data(&words, len), data);
    }
}

#[test]
fn transfers_past_the_address_space_are_refused() {
    assert_eq!(PtraceWrapper::write_data(u64::MAX - 8, b"x"), Err(PtraceError::AddressOutOfRange));
    assert_eq!(PtraceWrapper::write_data(u64::MAX - 9, b"x"), Ok(vec![PtraceRequest::Peek(u64::MAX - 9)]));
    assert_eq!(PtraceWrapper::read_requests(u64::MAX, 0), Err(PtraceError::AddressOutOfRange));
    assert_eq!(PtraceWrapper::read_requests(16, 9), Ok(vec![PtraceRequest::Peek(16), PtraceRequest::Peek(24)]));
}

#[test]
fn call_puts_eight_arguments_in_registers_and_the_rest_on_the_stack() {
    let before = regs_with(0x7fff_0000);
    let mut session = PtraceWrapper::attach(42, 0).unwrap();
    assert_eq!(session.target, 42);
    assert!(session.bak_regs.is_none());
    let params: Vec<u64> = (1..=10).collect();
    let script = session.call(0xabcd, &params, before).unwrap();
    let mut want = before;
    for i in 0..8 {
        want.regs[i] = i as u64 + 1;
    }
    want.regs[30] = 0;
    want.sp = 0x7fff_0000 - 16;
    want.pc = 0xabcd;
    assert_eq!(session.regs, want);
    assert_eq!(
        script,
        vec![
            PtraceRequest::Poke(0x7fff_0000 - 16, 9),
            PtraceRequest::Poke(0x7fff_0000 - 8, 10),
            PtraceRequest::SetRegs(want),
            PtraceRequest::Cont,
            PtraceRequest::Wait,
            PtraceRequest::Syscall,
            PtraceRequest::Wait,
            PtraceRequest::Syscall,
            PtraceRequest::Wait,
            PtraceRequest::GetRegs,
        ]
    );
    assert_eq!(PtraceWrapper::get_retval(&want), 1);
}

#[test]
fn call_with_few_arguments_keeps_the_other_registers() {
    let before = regs_with(64);
    let mut session = PtraceWrapper::attach(1, 0).unwrap();
    let script = session.call(0x10, &[7, 8], before).unwrap();
    assert_eq!(script.len(), 8);
    assert_eq!(session.regs.regs[0], 7);
    assert_eq!(session.regs.regs[1], 8);
    assert_eq!(session.regs.regs[2], before.regs[2]);
    assert_eq!(session.regs.regs[29], before.regs[29]);
    assert_eq!(session.regs.regs[30], 0);
    assert_eq!(session.regs.sp, 64);
    assert_eq!(session.regs.pstate, before.pstate);
    let none: [u64; 0] = [];
    assert_eq!(session.call(0x10, &none, before).unwrap().len(), 8);
}

#[test]
fn call_without_room_on_the_stack_is_refused() {
    let mut session = PtraceWrapper::attach(1, 0).unwrap();
    let kept = session.regs;
    let params = [0u64; 10];
    assert_eq!(session.call(0x10, &params, regs_with(15)), Err(PtraceError::StackOutOfRange));
    assert_eq!(session.regs, kept);
    assert!(session.call(0x10, &params, regs_with(16)).is_ok());
    assert_eq!(session.regs.sp, 0);
}

#[test]
fn session_bookkeeping() {
    assert_eq!(PtraceWrapper::attach(5, -1).err(), Some(PtraceError::AttachFailed(-1)));
    let mut session = PtraceWrapper::attach(5, 0).unwrap();
    assert_eq!(session.continue_run(0), Ok(()));
    assert_eq!(session.continue_run(-3), Err(PtraceError::ContinueFailed(-3)));
    assert_eq!(session.restore_regs(), None);
    let saved = regs_with(9);
    session.backup_regs(saved);
    assert_eq!(session.restore_regs(), Some(saved));
    assert_eq!(session.restore_regs(), None);
    assert!(session.detach());
    assert_eq!(session.target, 0);
    assert!(!session.detach());
}

#[test]
fn replies_that_end_a_session() {
    assert_eq!(check_reply(&PtraceRequest::Attach, -1), Some(PtraceError::AttachFailed(-1)));
    assert_eq!(check_reply(&PtraceRequest::GetRegs, -2), Some(PtraceError::GetRegsFailed(-2)));
    assert_eq!(check_reply(&PtraceRequest::SetRegs(UserRegs::zeroed()), -3), Some(PtraceError::SetRegsFailed(-3)));
    assert_eq!(check_reply(&PtraceRequest::Cont, -4), Some(PtraceError::ContinueFailed(-4)));
    assert_eq!(check_reply(&PtraceRequest::Syscall, -5), Some(PtraceError::SyscallFailed(-5)));
    assert_eq!(check_reply(&PtraceRequest::Attach, 0), None);
    assert_eq!(check_reply(&PtraceRequest::Wait, -1), None);
    assert_eq!(check_reply(&PtraceRequest::Peek(0), -1), None);
    assert_eq!(check_reply(&PtraceRequest::Poke(0, 0), -1), None);
    assert_eq!(check_reply(&PtraceRequest::Detach, -1), None);
}

#[test]
fn call_arguments() {
    assert_eq!(
        prepare_mmap_params(0, SCRATCH_SIZE, PROT_RWX, MAP_ANON_PRIVATE),
        vec![0, 0x4000, 7, 0x22, 0, 0]
    );
    // Negative protection and flags are widened with their sign.
    assert_eq!(
        prepare_mmap_params(8, 16, -1, i32::MIN),
        vec![8, 16, u64::MAX, 0xffff_ffff_8000_0000, 0, 0]
    );
    assert_eq!(prepare_munmap_params(0x7000, 0x4000), vec![0x7000, 0x4000]);
    assert_eq!(prepare_getenv_params(0x1234), vec![0x1234]);
    assert_eq!(prepare_setenv_params(1, 6, 1), vec![1, 6, 1]);
}

#[test]
fn injection_puts_the_directory_in_front() {
    let mut t = Tracee::new(b"/system/bin:/vendor/bin");
    let before = t.regs;
    assert_eq!(run(&mut t, 77, "/data/local/su_x"), Ok(()));
    assert_eq!(t.c_string(t.env), b"/data/local/su_x:/system/bin:/vendor/bin".to_vec());
    assert_eq!(t.c_string(PAGE), b"PATH".to_vec());
    assert_eq!(t.c_string(PAGE + 5), b"/data/local/su_x:/system/bin:/vendor/bin".to_vec());
    // The registers are as they were, and the session is closed.
    assert_eq!(t.regs, before);
    assert_eq!(t.log[0], PtraceRequest::Attach);
    assert_eq!(t.log[1], PtraceRequest::Wait);
    assert_eq!(t.log[2], PtraceRequest::GetRegs);
    let n = t.log.len();
    assert_eq!(t.log[n - 2], PtraceRequest::SetRegs(before));
    assert_eq!(t.log[n - 1], PtraceRequest::Detach);
    assert_eq!(t.log.iter().filter(|r| **r == PtraceRequest::Detach).count(), 1);
    assert_eq!(t.log.iter().filter(|r| **r == PtraceRequest::Cont).count(), 5);
}

#[test]
fn injection_with_values_of_many_lengths() {
    for len in 0usize..20 {
        let old: Vec<u8> = (0..len).map(|i| b'a' + (i % 26) as u8).collect();
        let mut t = Tracee::new(&old);
        assert_eq!(run(&mut t, 3, "/p"), Ok(()));
        let mut want = b"/p:".to_vec();
        want.extend_from_slice(&old);
        assert_eq!(t.c_string(t.env), want);
    }
}

#[test]
fn failed_attach_ends_at_once() {
    let mut t = Tracee::new(b"/bin");
    t.fail = Some(PtraceRequest::Attach);
    assert_eq!(run(&mut t, 77, "/su"), Err(InjectError::Ptrace(PtraceError::AttachFailed(-1))));
    assert_eq!(t.log, vec![PtraceRequest::Attach]);
}

#[test]
fn failure_before_the_registers_are_saved_detaches() {
    let mut t = Tracee::new(b"/bin");
    t.fail = Some(PtraceRequest::GetRegs);
    assert_eq!(run(&mut t, 77, "/su"), Err(InjectError::Ptrace(PtraceError::GetRegsFailed(-1))));
    assert_eq!(t.log, vec![PtraceRequest::Attach, PtraceRequest::Wait, PtraceRequest::GetRegs, PtraceRequest::Detach]);
}

#[test]
fn failure_after_the_registers_are_saved_restores_and_detaches() {
    let mut t = Tracee::new(b"/bin");
    let before = t.regs;
    t.fail = Some(PtraceRequest::Cont);
    assert_eq!(run(&mut t, 77, "/su"), Err(InjectError::Ptrace(PtraceError::ContinueFailed(-1))));
    let n = t.log.len();
    assert_eq!(t.log[n - 3], PtraceRequest::Cont);
    assert_eq!(t.log[n - 2], PtraceRequest::SetRegs(before));
    assert_eq!(t.log[n - 1], PtraceRequest::Detach);
    assert_eq!(t.regs, before);
}

#[test]
fn setenv_that_fails_is_reported() {
    let mut t = Tracee::new(b"/bin");
    let before = t.regs;
    t.setenv_result = 0xffff_ffff;
    assert_eq!(run(&mut t, 77, "/su"), Err(InjectError::SetenvFailed(0xffff_ffff)));
    assert_eq!(t.c_string(t.env), b"/bin".to_vec());
    let n = t.log.len();
    assert_eq!(t.log[n - 2], PtraceRequest::SetRegs(before));
    assert_eq!(t.log[n - 1], PtraceRequest::Detach);
}

#[test]
fn values_that_cannot_be_set_are_refused() {
    let mut t = Tracee::new(b"/bin\xff");
    assert_eq!(run(&mut t, 77, "/su"), Err(InjectError::InvalidUtf8));
    assert_eq!(t.log.last(), Some(&PtraceRequest::Detach));
    let mut t = Tracee::new(b"/bin");
    assert_eq!(run(&mut t, 77, "/s\0u"), Err(InjectError::InteriorNul));
    assert_eq!(t.log.last(), Some(&PtraceRequest::Detach));
}

#[test]
fn target_zero_is_never_detached() {
    let mut t = Tracee::new(b"/bin");
    assert_eq!(run(&mut t, 0, "/su"), Ok(()));
    assert!(!t.log.contains(&PtraceRequest::Detach));
}
