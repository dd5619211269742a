//! Finding the process to inject into, and the addresses and arguments of the functions
//! that the injection calls in it.

use vstd::prelude::*;
use vstd::slice::{slice_subrange, slice_to_vec};
use vstd::string::StringSliceAdditionalSpecFns;
use vstd::utf8::{encode_utf8, valid_utf8};
use crate::number::{all_digits, parse_dec, parse_dec_spec};
use crate::process_wrapper::{so_base_spec, ProcessWrapper};
use crate::text::{
    has_prefix, index_of, lemma_index_of, line_between, line_span, starts_with, string_from_utf8,
    LF,
};

verus! {

/// Size of the scratch mapping made in the target.
pub const SCRATCH_SIZE: usize = 0x4000;

/// Readable, writable and executable.
pub const PROT_RWX: i32 = 7;

/// Anonymous and private.
pub const MAP_ANON_PRIVATE: i32 = 0x22;

/// The arguments of `mmap`: address, size, protection, flags, and a zero file and offset.
/// Protection and flags are widened as the machine widens a signed number.
pub fn prepare_mmap_params(addr: u64, size: usize, prot: i32, flags: i32) -> (r: Vec<u64>)
    ensures
        r@ == seq![addr, size as u64, prot as u64, flags as u64, 0u64, 0u64],
{
    let mut r: Vec<u64> = Vec::with_capacity(6);
    r.push(addr);
    r.push(size as u64);
    let prot_word: u64 = #[verifier::truncate]
    (prot as u64);
    let flags_word: u64 = #[verifier::truncate]
    (flags as u64);
    r.push(prot_word);
    r.push(flags_word);
    r.push(0);
    r.push(0);
    assert(r@ =~= seq![addr, size as u64, prot as u64, flags as u64, 0u64, 0u64]);
    r
}

/// The arguments of `munmap`: address and size.
pub fn prepare_munmap_params(addr: u64, size: usize) -> (r: Vec<u64>)
    ensures
        r@ == seq![addr, size as u64],
{
    let mut r: Vec<u64> = Vec::with_capacity(2);
    r.push(addr);
    r.push(size as u64);
    assert(r@ =~= seq![addr, size as u64]);
    r
}

/// The argument of `getenv`: the address of the variable's name.
pub fn prepare_getenv_params(name: u64) -> (r: Vec<u64>)
    ensures
        r@ == seq![name],
{
    let mut r: Vec<u64> = Vec::with_capacity(1);
    r.push(name);
    assert(r@ =~= seq![name]);
    r
}

/// The arguments of `setenv`: the addresses of name and value, and the overwrite flag.
pub fn prepare_setenv_params(name: u64, value: u64, rewrite: usize) -> (r: Vec<u64>)
    ensures
        r@ == seq![name, value, rewrite as u64],
{
    let mut r: Vec<u64> = Vec::with_capacity(3);
    r.push(name);
    r.push(value);
    r.push(rewrite as u64);
    assert(r@ =~= seq![name, value, rewrite as u64]);
    r
}

/// Why a function's address in the target is not known.
#[derive(Clone, Copy, Debug, PartialEq, Eq)]
pub enum ResolutionError {
    /// The library is not in this process's map.
    NotMappedHere,
    /// The library is not in the target's map.
    NotMappedInTarget,
    /// The symbol was not found, or lies below the library's base.
    SymbolNotFound,
    /// The address in the target would lie outside the address space.
    AddressOutOfRange,
}

/// Addresses of four functions of the C library, as the dynamic linker resolved them in this
/// process. Zero stands for a symbol that was not found.
#[derive(Clone, Copy, Debug)]
pub struct LibcSymbols {
    pub mmap: usize,
    pub munmap: usize,
    pub getenv: usize,
    pub setenv: usize,
}

/// The addresses of the same four functions in the target.
#[derive(Clone, Copy, Debug, PartialEq, Eq)]
pub struct InjectHelper {
    pub mmap_addr: u64,
    pub munmap_addr: u64,
    pub getenv_addr: u64,
    pub setenv_addr: u64,
}

/// The address in the target of a symbol that lies at `symbol` here: the target's base plus
/// the symbol's offset from the base here.
pub open spec fn remote_address(target_base: usize, self_base: usize, symbol: usize) -> Result<
    u64,
    ResolutionError,
> {
    if symbol == 0 || symbol < self_base {
        Err(ResolutionError::SymbolNotFound)
    } else if target_base + (symbol - self_base) > u64::MAX {
        Err(ResolutionError::AddressOutOfRange)
    } else {
        Ok((target_base + (symbol - self_base)) as u64)
    }
}

pub fn resolve_remote(target_base: usize, self_base: usize, symbol: usize) -> (r: Result<
    u64,
    ResolutionError,
>)
    ensures
        r == remote_address(target_base, self_base, symbol),
{
    if symbol == 0 || symbol < self_base {
        return Err(ResolutionError::SymbolNotFound);
    }
    let offset: usize = symbol - self_base;
    let sum: u128 = target_base as u128 + offset as u128;
    if sum > u64::MAX as u128 {
        return Err(ResolutionError::AddressOutOfRange);
    }
    Ok(sum as u64)
}

/// The helper for given bases: each function's address here, moved to the target's base.
/// The first function that cannot be moved decides the error, in the order `mmap`, `munmap`,
/// `getenv`, `setenv`.
pub open spec fn helper_spec(target_base: usize, self_base: usize, symbols: LibcSymbols) -> Result<
    InjectHelper,
    ResolutionError,
> {
    match remote_address(target_base, self_base, symbols.mmap) {
        Err(e) => Err(e),
        Ok(mmap_addr) => match remote_address(target_base, self_base, symbols.munmap) {
            Err(e) => Err(e),
            Ok(munmap_addr) => match remote_address(target_base, self_base, symbols.getenv) {
                Err(e) => Err(e),
                Ok(getenv_addr) => match remote_address(target_base, self_base, symbols.setenv) {
                    Err(e) => Err(e),
                    Ok(setenv_addr) => Ok(
                        InjectHelper { mmap_addr, munmap_addr, getenv_addr, setenv_addr },
                    ),
                },
            },
        },
    }
}

impl InjectHelper {
    /// Resolves the four functions in the target. `libc_path` is the library's path,
    /// `symbols` what the dynamic linker found in this process. The library must stand in
    /// the map of this process and in that of the target.
    pub fn new(
        self_process: &ProcessWrapper,
        target_process: &ProcessWrapper,
        libc_path: &str,
        symbols: LibcSymbols,
    ) -> (r: Result<InjectHelper, ResolutionError>)
        ensures
            r == match self_process.spec_maps() {
                None => Err(ResolutionError::NotMappedHere),
                Some(own) => match so_base_spec(own, libc_path.spec_bytes()) {
                    None => Err(ResolutionError::NotMappedHere),
                    Some(self_base) => match target_process.spec_maps() {
                        None => Err(ResolutionError::NotMappedInTarget),
                        Some(theirs) => match so_base_spec(theirs, libc_path.spec_bytes()) {
                            None => Err(ResolutionError::NotMappedInTarget),
                            Some(target_base) => helper_spec(target_base, self_base, symbols),
                        },
                    },
                },
            },
    {
        let self_base: usize = match self_process.get_so_base(libc_path) {
            Some(b) => b,
            None => {
                return Err(ResolutionError::NotMappedHere);
            },
        };
        let target_base: usize = match target_process.get_so_base(libc_path) {
            Some(b) => b,
            None => {
                return Err(ResolutionError::NotMappedInTarget);
            },
        };
        let mmap_addr: u64 = match resolve_remote(target_base, self_base, symbols.mmap) {
            Ok(a) => a,
            Err(e) => {
                return Err(e);
            },
        };
        let munmap_addr: u64 = match resolve_remote(target_base, self_base, symbols.munmap) {
            Ok(a) => a,
            Err(e) => {
                return Err(e);
            },
        };
        let getenv_addr: u64 = match resolve_remote(target_base, self_base, symbols.getenv) {
            Ok(a) => a,
            Err(e) => {
                return Err(e);
            },
        };
        let setenv_addr: u64 = match resolve_remote(target_base, self_base, symbols.setenv) {
            Ok(a) => a,
            Err(e) => {
                return Err(e);
            },
        };
        Ok(InjectHelper { mmap_addr, munmap_addr, getenv_addr, setenv_addr })
    }
}

/// One entry of the process directory, as read in one poll: its name, whether it is a
/// directory, and the contents of its `cmdline` file when that could be opened.
pub struct ProcEntry {
    pub name: String,
    pub is_dir: bool,
    pub cmdline: Option<Vec<u8>>,
}

/// The first line of a command line, when it has one.
pub open spec fn first_line(cmdline: Seq<u8>) -> Option<Seq<u8>> {
    if cmdline.len() == 0 {
        None
    } else {
        Some(line_between(cmdline, 0, index_of(cmdline, LF, 0)))
    }
}

/// A command line belongs to `cmd` when its first line begins with `cmd`. A first line
/// that is not valid UTF-8 reads as empty.
pub open spec fn cmdline_matches(cmdline: Seq<u8>, cmd: Seq<u8>) -> bool {
    match first_line(cmdline) {
        None => false,
        Some(line) => if valid_utf8(line) {
            has_prefix(line, cmd)
        } else {
            cmd.len() == 0
        },
    }
}

/// The process id that a directory name stands for; zero when the name is no number that
/// fits.
pub open spec fn pid_of_name(name: Seq<u8>) -> i32 {
    match parse_dec_spec(name, i32::MAX as int) {
        Some(v) => v as i32,
        None => 0,
    }
}

/// An entry is a process that runs `cmd`: a directory whose name is all digits and whose
/// command line belongs to `cmd`.
pub open spec fn entry_matches(
    name: Seq<u8>,
    is_dir: bool,
    cmdline: Option<Seq<u8>>,
    cmd: Seq<u8>,
) -> bool {
    is_dir && all_digits(name) && cmdline is Some && cmdline_matches(cmdline->Some_0, cmd)
}

pub open spec fn cmdline_view(c: Option<Vec<u8>>) -> Option<Seq<u8>> {
    match c {
        Some(v) => Some(v@),
        None => None,
    }
}

/// The id found among the first `n` entries: that of the last entry that runs `cmd`, zero
/// when there is none.
pub open spec fn found_pid(entries: Seq<ProcEntry>, cmd: Seq<u8>, n: int) -> i32
    decreases n,
{
    if n <= 0 {
        0
    } else {
        let e = entries[n - 1];
        if entry_matches(encode_utf8(e.name@), e.is_dir, cmdline_view(e.cmdline), cmd) {
            pid_of_name(encode_utf8(e.name@))
        } else {
            found_pid(entries, cmd, n - 1)
        }
    }
}

/// The search found no process.
#[derive(Clone, Copy, Debug, PartialEq, Eq)]
pub enum FindError {
    NotFound,
    Timeout,
}

fn name_is_digits(name: &[u8]) -> (r: bool)
    ensures
        r == all_digits(name@),
{
    let mut i: usize = 0;
    while i < name.len()
        invariant
            i <= name@.len(),
            forall|j: int| 0 <= j < i ==> 0x30 <= #[trigger] name@[j] <= 0x39,
        decreases name@.len() - i,
    {
        if name[i] < 0x30 || name[i] > 0x39 {
            return false;
        }
        i += 1;
    }
    true
}

fn cmdline_belongs(cmdline: &[u8], cmd: &[u8]) -> (r: bool)
    ensures
        r == cmdline_matches(cmdline@, cmd@),
{
    if cmdline.len() == 0 {
        return false;
    }
    let span = line_span(cmdline, 0);
    let line = slice_subrange(cmdline, span.start, span.end);
    match string_from_utf8(slice_to_vec(line)) {
        Some(_) => starts_with(line, cmd),
        None => cmd.len() == 0,
    }
}

/// One poll of the process directory: the id of the process that runs `cmd`. Where
/// several entries match, the last one counts.
pub fn _find_pid_by_cmd(cmd: &str, entries: &[ProcEntry]) -> (r: Result<i32, FindError>)
    ensures
        r == if found_pid(entries@, cmd.spec_bytes(), entries@.len() as int) == 0 {
            Err::<i32, FindError>(FindError::NotFound)
        } else {
            Ok::<i32, FindError>(found_pid(entries@, cmd.spec_bytes(), entries@.len() as int))
        },
{
    let wanted = cmd.as_bytes();
    let mut target_pid: i32 = 0;
    let mut i: usize = 0;
    while i < entries.len()
        invariant
            i <= entries@.len(),
            wanted@ == cmd.spec_bytes(),
            target_pid == found_pid(entries@, wanted@, i as int),
        decreases entries@.len() - i,
    {
        let e = &entries[i];
        let name = e.name.as_str().as_bytes();
        if e.is_dir && name_is_digits(name) {
            match &e.cmdline {
                Some(c) => {
                    if cmdline_belongs(c.as_slice(), wanted) {
                        target_pid =
                        match parse_dec(name, i32::MAX as u64) {
                            Some(v) => v as i32,
                            None => 0,
                        };
                    }
                },
                None => {},
            }
        }
        i += 1;
    }
    if target_pid == 0 {
        Err(FindError::NotFound)
    } else {
        Ok(target_pid)
    }
}

/// What the search does after a poll.
#[derive(Clone, Copy, Debug, PartialEq, Eq)]
pub enum FindStep {
    /// The process was found.
    Found(i32),
    /// The time is up.
    TimedOut,
    /// Yield the processor and poll again.
    Retry,
}

/// One round of the search for the process that runs `cmd`. `elapsed` is the time since the
/// search began, `entries` the process directory as just read. The time limit is looked at
/// first: once it is reached the search is over, whatever the poll holds; so with a limit
/// of zero the search times out on its first round.
pub fn find_pid_by_cmd(
    cmd: &str,
    timeout_nanos: u128,
    elapsed_nanos: u128,
    entries: &[ProcEntry],
) -> (r: FindStep)
    ensures
        r == if elapsed_nanos >= timeout_nanos {
            FindStep::TimedOut
        } else if found_pid(entries@, cmd.spec_bytes(), entries@.len() as int) == 0 {
            FindStep::Retry
        } else {
            FindStep::Found(found_pid(entries@, cmd.spec_bytes(), entries@.len() as int))
        },
        timeout_nanos == 0 ==> r == FindStep::TimedOut,
{
    if elapsed_nanos >= timeout_nanos {
        return FindStep::TimedOut;
    }
    match _find_pid_by_cmd(cmd, entries) {
        Ok(pid) => FindStep::Found(pid),
        Err(_) => FindStep::Retry,
    }
}

} // verus!
