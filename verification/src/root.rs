//! Becoming root, and the shell that is started as root.
//!
//! The decisions are made here; the system calls are made by whoever calls.

use vstd::prelude::*;
use vstd::slice::slice_subrange;
use vstd::string::{StringExecFns, StringSliceAdditionalSpecFns};
use vstd::utf8::encode_utf8;
use crate::encrypt::{uncry_bytes, uncry_spec};
use crate::number::{parse_unsigned, parse_unsigned_spec};
use crate::text::{find_byte, has_prefix, index_of, starts_with};

verus! {

/// Why root was not had.
#[derive(Clone, Copy, Debug, PartialEq, Eq)]
pub enum RootError {
    /// The program has no directory above it.
    KeyNotFound,
    /// The directory of the program does not carry a key.
    KeyNotInParentDir,
    /// What the directory carries hides no key.
    KeyUnreadable,
    /// The key holds a zero byte.
    KeyHasNul,
    /// The kernel did not grant root.
    GetRootFailed,
}

/// What to do to become root.
#[derive(Debug)]
pub enum RootStep {
    /// Nothing: the process is root.
    AlreadyRoot,
    /// Present this key to the kernel, then look whether the process is root.
    Elevate(String),
}

/// What a deployed directory's name begins with.
pub open spec fn su_mark() -> Seq<u8> {
    seq![0x73u8, 0x75u8, 0x5fu8]
}

/// The key that the name of the program's directory carries: the name begins with `su_`,
/// and what follows hides the key under the day's cipher key.
pub open spec fn root_key_spec(parent_dir_name: Option<Seq<u8>>, default_key: Seq<u8>) -> Result<
    Seq<char>,
    RootError,
> {
    match parent_dir_name {
        None => Err(RootError::KeyNotFound),
        Some(name) => if !has_prefix(name, su_mark()) {
            Err(RootError::KeyNotInParentDir)
        } else {
            match uncry_spec(name.subrange(3, name.len() as int), default_key) {
                Some(key) => Ok(key),
                None => Err(RootError::KeyUnreadable),
            }
        },
    }
}

pub open spec fn name_bytes(name: Option<&str>) -> Option<Seq<u8>> {
    match name {
        Some(n) => Some(n.spec_bytes()),
        None => None,
    }
}

/// Reads the root key off the name of the program's directory.
pub fn get_root_key(parent_dir_name: Option<&str>, default_key: &str) -> (r: Result<
    String,
    RootError,
>)
    ensures
        match root_key_spec(name_bytes(parent_dir_name), default_key.spec_bytes()) {
            Ok(key) => r is Ok && r->Ok_0@ == key,
            Err(e) => r == Err::<String, RootError>(e),
        },
{
    let name = match parent_dir_name {
        Some(n) => n.as_bytes(),
        None => {
            return Err(RootError::KeyNotFound);
        },
    };
    let mark: [u8; 3] = [0x73, 0x75, 0x5f];
    assert(mark@ =~= su_mark());
    if !starts_with(name, mark.as_slice()) {
        return Err(RootError::KeyNotInParentDir);
    }
    match uncry_bytes(slice_subrange(name, 3, name.len()), default_key.as_bytes()) {
        Some(key) => Ok(key),
        None => Err(RootError::KeyUnreadable),
    }
}

/// What becoming root with `root_key` takes: nothing for a process that is root, else the
/// key, which must hold no zero byte to be presented.
pub open spec fn root_step_spec(is_root: bool, root_key: Seq<char>) -> Result<
    Option<Seq<char>>,
    RootError,
> {
    if is_root {
        Ok(None)
    } else if index_of(encode_utf8(root_key), 0u8, 0) < encode_utf8(root_key).len() {
        Err(RootError::KeyHasNul)
    } else {
        Ok(Some(root_key))
    }
}

/// A step, as contracts see it: the key to present, if any.
pub open spec fn step_key(step: RootStep) -> Option<Seq<char>> {
    match step {
        RootStep::AlreadyRoot => None,
        RootStep::Elevate(key) => Some(key@),
    }
}

/// Says what to do to become root with `root_key`. `is_root` tells whether the process is
/// root already.
pub fn get_root_by_root_key(is_root: bool, root_key: &str) -> (r: Result<RootStep, RootError>)
    ensures
        match root_step_spec(is_root, root_key@) {
            Ok(k) => r is Ok && step_key(r->Ok_0) == k,
            Err(e) => r is Err && r->Err_0 == e,
        },
{
    if is_root {
        return Ok(RootStep::AlreadyRoot);
    }
    let bytes = root_key.as_bytes();
    if find_byte(bytes, 0, 0) < bytes.len() {
        return Err(RootError::KeyHasNul);
    }
    Ok(RootStep::Elevate(root_key.to_owned()))
}

/// What the look after presenting the key means.
pub fn root_granted(is_root: bool) -> (r: Result<(), RootError>)
    ensures
        r == if is_root {
            Ok::<(), RootError>(())
        } else {
            Err::<(), RootError>(RootError::GetRootFailed)
        },
{
    if is_root {
        Ok(())
    } else {
        Err(RootError::GetRootFailed)
    }
}

/// Says what to do to become root with the key that the program's directory carries. A
/// process that is root needs no key, and the directory is not looked at.
pub fn get_root(is_root: bool, parent_dir_name: Option<&str>, default_key: &str) -> (r: Result<
    RootStep,
    RootError,
>)
    ensures
        is_root ==> r is Ok && step_key(r->Ok_0) is None,
        !is_root ==> match root_key_spec(name_bytes(parent_dir_name), default_key.spec_bytes()) {
            Err(e) => r is Err && r->Err_0 == e,
            Ok(key) => match root_step_spec(false, key) {
                Ok(k) => r is Ok && step_key(r->Ok_0) == k,
                Err(e) => r is Err && r->Err_0 == e,
            },
        },
{
    if is_root {
        return Ok(RootStep::AlreadyRoot);
    }
    let root_key = match get_root_key(parent_dir_name, default_key) {
        Ok(k) => k,
        Err(e) => {
            return Err(e);
        },
    };
    get_root_by_root_key(false, root_key.as_str())
}

/// The options of the shell command, as read off its command line.
pub struct SuOptions {
    /// The shell to use in place of the default.
    pub shell: Option<String>,
    /// Make the shell a login shell.
    pub login: bool,
    /// Keep the environment.
    pub preserve_env: bool,
    /// Run in the global mount namespace.
    pub mount_master: bool,
    /// The command to pass to the shell.
    pub command: Option<String>,
    /// The arguments that are no options.
    pub free: Vec<String>,
}

/// How the shell is started.
pub struct ShellPlan {
    pub shell: String,
    pub args: Vec<String>,
    pub arg0: String,
    /// The user to become, when one was named.
    pub user: Option<String>,
    pub is_login: bool,
    pub preserve_env: bool,
    pub mount_master: bool,
}

/// The texts of a list of strings.
pub open spec fn texts(v: Seq<String>) -> Seq<Seq<char>> {
    Seq::new(v.len(), |i: int| v[i]@)
}

/// Words joined by single spaces.
pub open spec fn join_words(words: Seq<Seq<char>>) -> Seq<char>
    decreases words.len(),
{
    if words.len() == 0 {
        Seq::empty()
    } else if words.len() == 1 {
        words[0]
    } else {
        join_words(words.drop_last()) + seq![' '] + words.last()
    }
}

pub open spec fn text_of(s: Option<String>) -> Option<Seq<char>> {
    match s {
        Some(t) => Some(t@),
        None => None,
    }
}

/// The shell that is started when none is named.
pub open spec fn default_shell() -> Seq<char> {
    "/system/bin/sh"@
}

/// The shell to start.
pub open spec fn plan_shell_text(opts: SuOptions) -> Seq<char> {
    match opts.shell {
        Some(s) => s@,
        None => default_shell(),
    }
}

/// With a command, every free argument belongs to the command; without one, the free
/// arguments begin at the first.
pub open spec fn plan_first_free(opts: SuOptions) -> int {
    if opts.command is Some {
        opts.free@.len() as int
    } else {
        0
    }
}

/// A lone `-` at the start of the free arguments asks for a login shell.
pub open spec fn plan_dash(opts: SuOptions) -> bool {
    plan_first_free(opts) < opts.free@.len() && opts.free@[plan_first_free(opts)]@ == "-"@
}

pub open spec fn plan_is_login(opts: SuOptions) -> bool {
    opts.login || plan_dash(opts)
}

/// The user is the free argument after the dash, if there is one.
pub open spec fn plan_user(opts: SuOptions) -> Option<Seq<char>> {
    let at = plan_first_free(opts) + if plan_dash(opts) {
        1int
    } else {
        0int
    };
    if at < opts.free@.len() {
        Some(opts.free@[at]@)
    } else {
        None
    }
}

/// The shell's arguments: with a command, `-c` and the command joined with the free
/// arguments; without one, none.
pub open spec fn plan_args(opts: SuOptions) -> Seq<Seq<char>> {
    match opts.command {
        Some(c) => seq!["-c"@, join_words(seq![c@] + texts(opts.free@))],
        None => Seq::empty(),
    }
}

/// The name the shell is started under: `-` for a login shell, else the shell's path.
pub open spec fn plan_arg0(opts: SuOptions) -> Seq<char> {
    if plan_is_login(opts) {
        "-"@
    } else {
        plan_shell_text(opts)
    }
}

/// Plans the start of the shell from the options.
pub fn plan_shell(opts: &SuOptions) -> (r: ShellPlan)
    ensures
        r.shell@ == plan_shell_text(*opts),
        texts(r.args@) == plan_args(*opts),
        r.arg0@ == plan_arg0(*opts),
        text_of(r.user) == plan_user(*opts),
        r.is_login == plan_is_login(*opts),
        r.preserve_env == opts.preserve_env,
        r.mount_master == opts.mount_master,
{
    let shell = match &opts.shell {
        Some(s) => s.clone(),
        None => String::from_str("/system/bin/sh"),
    };
    let mut is_login = opts.login;
    let mut free_idx: usize = 0;
    let mut args: Vec<String> = Vec::new();
    match &opts.command {
        Some(cmd) => {
            free_idx = opts.free.len();
            let mut joined = cmd.clone();
            let mut i: usize = 0;
            while i < opts.free.len()
                invariant
                    i <= opts.free@.len(),
                    joined@ == join_words((seq![cmd@] + texts(opts.free@)).take(i + 1)),
                decreases opts.free@.len() - i,
            {
                joined.push(' ');
                joined.append(opts.free[i].as_str());
                proof {
                    let all = seq![cmd@] + texts(opts.free@);
                    assert(all.take(i + 2).drop_last() =~= all.take(i + 1));
                    assert(all.take(i + 2).last() == opts.free@[i as int]@);
                    assert(joined@ =~= join_words(all.take(i + 1)) + seq![' '] + opts.free@[i as int]@);
                }
                i += 1;
            }
            proof {
                let all = seq![cmd@] + texts(opts.free@);
                assert(all.take(opts.free@.len() as int + 1) =~= all);
            }
            args.push(String::from_str("-c"));
            args.push(joined);
            assert(texts(args@) =~= plan_args(*opts));
        },
        None => {
            assert(texts(args@) =~= plan_args(*opts));
        },
    }
    let dash = String::from_str("-");
    if free_idx < opts.free.len() && opts.free[free_idx] == dash {
        is_login = true;
        free_idx += 1;
    }
    let user = if free_idx < opts.free.len() {
        Some(opts.free[free_idx].clone())
    } else {
        None
    };
    let arg0 = if is_login {
        String::from_str("-")
    } else {
        shell.clone()
    };
    ShellPlan {
        shell,
        args,
        arg0,
        user,
        is_login,
        preserve_env: opts.preserve_env,
        mount_master: opts.mount_master,
    }
}

/// What the shell command prints in place of starting a shell.
#[derive(Clone, Copy, Debug, PartialEq, Eq)]
pub enum SuNotice {
    Help,
    Version,
    VersionCode,
}

/// What is printed for the three flags: help goes before the version, the version before
/// the version code; with none of them a shell is started.
pub fn su_notice(help: bool, version: bool, version_code: bool) -> (r: Option<SuNotice>)
    ensures
        r == if help {
            Some(SuNotice::Help)
        } else if version {
            Some(SuNotice::Version)
        } else if version_code {
            Some(SuNotice::VersionCode)
        } else {
            None
        },
{
    if help {
        Some(SuNotice::Help)
    } else if version {
        Some(SuNotice::Version)
    } else if version_code {
        Some(SuNotice::VersionCode)
    } else {
        None
    }
}

/// The user id to run as: the one the user database has for the name, else the name read
/// as a number, else root.
pub open spec fn uid_spec(name: Seq<u8>, pw_uid: Option<u32>) -> u32 {
    match pw_uid {
        Some(uid) => uid,
        None => match parse_unsigned_spec(name, u32::MAX as int) {
            Some(v) => v as u32,
            None => 0,
        },
    }
}

/// The user id to run as, for a name and what the user database says of it.
pub fn uid_for(name: &str, pw_uid: Option<u32>) -> (r: u32)
    ensures
        r == uid_spec(name.spec_bytes(), pw_uid),
{
    match pw_uid {
        Some(uid) => uid,
        None => match parse_unsigned(name.as_bytes(), u32::MAX as u64) {
            Some(v) => v as u32,
            None => 0,
        },
    }
}

/// An argument as the option reader wants it: `-mm` reads as `-M`, `-cn` as `-z`.
pub open spec fn normal_arg(arg: Seq<char>) -> Seq<char> {
    if arg == "-mm"@ {
        "-M"@
    } else if arg == "-cn"@ {
        "-z"@
    } else {
        arg
    }
}

/// Rewrites the two long options that the option reader cannot read.
pub fn normalize_su_args(args: &[String]) -> (r: Vec<String>)
    ensures
        r@.len() == args@.len(),
        forall|i: int| 0 <= i < args@.len() ==> #[trigger] r@[i]@ == normal_arg(args@[i]@),
{
    let mm = String::from_str("-mm");
    let cn = String::from_str("-cn");
    let mut out: Vec<String> = Vec::with_capacity(args.len());
    let mut i: usize = 0;
    while i < args.len()
        invariant
            i <= args@.len(),
            mm@ == "-mm"@,
            cn@ == "-cn"@,
            out@.len() == i,
            forall|j: int| 0 <= j < i ==> #[trigger] out@[j]@ == normal_arg(args@[j]@),
        decreases args@.len() - i,
    {
        let a = if args[i] == mm {
            String::from_str("-M")
        } else if args[i] == cn {
            String::from_str("-z")
        } else {
            args[i].clone()
        };
        out.push(a);
        i += 1;
    }
    out
}

} // verus!
