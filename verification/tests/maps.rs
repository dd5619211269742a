use skroot::inject::{
    _find_pid_by_cmd, find_pid_by_cmd, resolve_remote, FindError, FindStep, InjectHelper,
    LibcSymbols, ProcEntry, ResolutionError,
};
use skroot::process_wrapper::{ProcessWrapper, STATIC_BASE};

const MAPS: &str = "\
00008000-0000a000 r-xp 00000000 fd:00 10 /system/bin/static_tool
5555550000-5555560000 r-xp 00000000 fd:00 11 /system/bin/app_process64
7f8a000000-7f8a1c0000 r-xp 00000000 fd:00 1234 /apex/com.android.runtime/lib64/bionic/libc.so
7f8a1c0000-7f8a1d0000 r--p 001c0000 fd:00 1234 /apex/com.android.runtime/lib64/bionic/libc.so
7f8b000000-7f8b010000 rw-p 00000000 00:00 0 [anon:libc_malloc]
7fff000000-7fff021000 rw-p 00000000 00:00 0 [stack]
";

fn process(pid: i32, maps: &str) -> ProcessWrapper {
    ProcessWrapper::new(pid, Some(maps.to_string()))
}

fn entry(name: &str, is_dir: bool, cmdline: Option<&[u8]>) -> ProcEntry {
    ProcEntry { name: name.to_string(), is_dir, cmdline: cmdline.map(|c| c.to_vec()) }
}

#[test]
fn base_of_a_shared_object() {
    let p = process(10, MAPS);
    assert_eq!(p.target(), 10);
    assert_eq!(p.get_so_base("libc.so"), Some(0x7f8a000000));
    assert_eq!(p.get_so_base("/apex/com.android.runtime/lib64/bionic/libc.so"), Some(0x7f8a000000));
    assert_eq!(p.get_so_base("app_process"), Some(0x5555550000));
    assert_eq!(p.get_so_base("[stack]"), Some(0x7fff000000));
    assert_eq!(p.get_so_base("libm.so"), None);
    // Every line contains the empty text: the first line counts.
    assert_eq!(p.get_so_base(""), Some(0));
}

#[test]
fn base_at_the_static_load_address_is_zero() {
    assert_eq!(STATIC_BASE, 0x8000);
    let p = process(10, MAPS);
    assert_eq!(p.get_so_base("static_tool"), Some(0));
    assert_eq!(process(1, "8000-9000 r-xp /bin/x\n").get_so_base("/bin/x"), Some(0));
    assert_eq!(process(1, "8001-9000 r-xp /bin/x\n").get_so_base("/bin/x"), Some(0x8001));
    assert_eq!(process(1, "0x8000-9000 r-xp /bin/x\n").get_so_base("/bin/x"), None);
}

#[test]
fn base_of_lines_that_are_no_mappings() {
    assert_eq!(process(1, "no dash here libc.so\n").get_so_base("libc.so"), None);
    assert_eq!(process(1, "zz-10 libc.so\n").get_so_base("libc.so"), None);
    assert_eq!(process(1, "-10 libc.so\n").get_so_base("libc.so"), None);
    assert_eq!(process(1, "+1f-10 libc.so\n").get_so_base("libc.so"), Some(0x1f));
    // The first line that contains the text decides, also when a later one is good.
    assert_eq!(process(1, "libc.so\n10-20 libc.so\n").get_so_base("libc.so"), None);
    assert_eq!(process(1, "1F-20 libc.so").get_so_base("libc.so"), Some(0x1f));
    assert_eq!(process(1, "10-20 libc.so\r\n").get_so_base("libc.so\r"), None);
    assert_eq!(process(1, "").get_so_base("libc.so"), None);
    assert_eq!(ProcessWrapper::new(1, None).get_so_base("libc.so"), None);
    assert_eq!(process(1, "fffffffffffffffff-0 libc.so\n").get_so_base("libc.so"), None);
}

#[test]
fn path_of_a_shared_object() {
    let p = process(10, MAPS);
    let libc = "/apex/com.android.runtime/lib64/bionic/libc.so".to_string();
    assert_eq!(p.get_so_path("libc"), Some(libc.clone()));
    assert_eq!(p.get_so_path("libc.so"), Some(libc));
    assert_eq!(p.get_so_path("libm"), None);
    assert_eq!(p.get_so_path("app_process64"), None);
    assert_eq!(ProcessWrapper::new(1, None).get_so_path("libc"), None);
    assert_eq!(process(1, "10-20 r-xp libc.so (deleted)\n").get_so_path("libc"), None);
    assert_eq!(
        process(1, "10-20 r-xp /data/\u{00e9}t\u{00e9}/libc.so (deleted)\r\nnext").get_so_path("libc"),
        Some("/data/\u{00e9}t\u{00e9}/libc.so (deleted)".to_string())
    );
}

#[test]
fn remote_addresses() {
    assert_eq!(resolve_remote(0x7000_0000, 0x1000, 0x1234), Ok(0x7000_0234));
    assert_eq!(resolve_remote(0, 0, 5), Ok(5));
    assert_eq!(resolve_remote(0x7000_0000, 0x1000, 0), Err(ResolutionError::SymbolNotFound));
    assert_eq!(resolve_remote(0x7000_0000, 0x1000, 0xfff), Err(ResolutionError::SymbolNotFound));
    assert_eq!(resolve_remote(usize::MAX, 0, 1), Err(ResolutionError::AddressOutOfRange));
}

#[test]
fn helper_moves_the_symbols_to_the_target() {
    let me = process(1, "7000000000-7000100000 r-xp 0 0 0 /system/lib64/libc.so\n");
    let target = process(2, MAPS);
    let symbols = LibcSymbols {
        mmap: 0x7000000100,
        munmap: 0x7000000200,
        getenv: 0x7000000300,
        setenv: 0x7000000400,
    };
    assert_eq!(
        InjectHelper::new(&me, &target, "libc.so", symbols),
        Ok(InjectHelper {
            mmap_addr: 0x7f8a000100,
            munmap_addr: 0x7f8a000200,
            getenv_addr: 0x7f8a000300,
            setenv_addr: 0x7f8a000400,
        })
    );
    assert_eq!(InjectHelper::new(&me, &target, "libm.so", symbols), Err(ResolutionError::NotMappedHere));
    assert_eq!(
        InjectHelper::new(&me, &process(3, "10-20 /bin/sh\n"), "libc.so", symbols),
        Err(ResolutionError::NotMappedInTarget)
    );
    assert_eq!(
        InjectHelper::new(&me, &ProcessWrapper::new(3, None), "libc.so", symbols),
        Err(ResolutionError::NotMappedInTarget)
    );
    let missing = LibcSymbols { getenv: 0, ..symbols };
    assert_eq!(InjectHelper::new(&me, &target, "libc.so", missing), Err(ResolutionError::SymbolNotFound));
}

#[test]
fn process_is_found_by_the_start_of_its_command_line() {
    let entries = vec![
        entry("1", true, Some(b"/init\0second_stage\0")),
        entry("self", true, Some(b"com.example.test\0")),
        entry("120", false, Some(b"com.example.test\0")),
        entry("345", true, Some(b"com.example.test\0--flag\0")),
        entry("400", true, None),
        entry("401", true, Some(b"")),
        entry("402", true, Some(b"xcom.example.test\0")),
    ];
    assert_eq!(_find_pid_by_cmd("com.example.test", &entries), Ok(345));
    assert_eq!(_find_pid_by_cmd("com.example", &entries), Ok(345));
    assert_eq!(_find_pid_by_cmd("/init", &entries), Ok(1));
    assert_eq!(_find_pid_by_cmd("com.example.test2", &entries), Err(FindError::NotFound));
    assert_eq!(_find_pid_by_cmd("x", &[]), Err(FindError::NotFound));
}

#[test]
fn the_last_matching_process_counts() {
    let entries = vec![
        entry("10", true, Some(b"app\0")),
        entry("20", true, Some(b"app:service\0")),
        entry("30", true, Some(b"other\0")),
    ];
    assert_eq!(_find_pid_by_cmd("app", &entries), Ok(20));
    // Every process with a command line runs the empty command.
    assert_eq!(_find_pid_by_cmd("", &entries), Ok(30));
}

#[test]
fn only_the_first_line_of_a_command_line_counts() {
    let entries = vec![entry("10", true, Some(b"first\nsecond\0"))];
    assert_eq!(_find_pid_by_cmd("first", &entries), Ok(10));
    assert_eq!(_find_pid_by_cmd("second", &entries), Err(FindError::NotFound));
    let broken = vec![entry("11", true, Some(b"\xffapp\0"))];
    assert_eq!(_find_pid_by_cmd("app", &broken), Err(FindError::NotFound));
    assert_eq!(_find_pid_by_cmd("", &broken), Ok(11));
}

#[test]
fn names_that_are_no_process_ids() {
    assert_eq!(_find_pid_by_cmd("a", &[entry("0", true, Some(b"a"))]), Err(FindError::NotFound));
    assert_eq!(_find_pid_by_cmd("a", &[entry("2147483647", true, Some(b"a"))]), Ok(2147483647));
    assert_eq!(_find_pid_by_cmd("a", &[entry("2147483648", true, Some(b"a"))]), Err(FindError::NotFound));
    assert_eq!(_find_pid_by_cmd("a", &[entry("+5", true, Some(b"a"))]), Err(FindError::NotFound));
    assert_eq!(_find_pid_by_cmd("a", &[entry("007", true, Some(b"a"))]), Ok(7));
    // A later match whose name is no id hides an earlier one.
    let entries = vec![entry("5", true, Some(b"a")), entry("99999999999", true, Some(b"a"))];
    assert_eq!(_find_pid_by_cmd("a", &entries), Err(FindError::NotFound));
}

#[test]
fn search_with_no_time_times_out_on_its_first_round() {
    let entries = vec![entry("345", true, Some(b"com.example.test\0"))];
    assert_eq!(find_pid_by_cmd("com.example.test", 0, 0, &entries), FindStep::TimedOut);
    assert_eq!(find_pid_by_cmd("com.example.test", 0, 7, &[]), FindStep::TimedOut);
}

#[test]
fn search_goes_on_until_the_time_is_up() {
    let entries = vec![entry("345", true, Some(b"com.example.test\0"))];
    let five_seconds: u128 = 5_000_000_000;
    assert_eq!(find_pid_by_cmd("com.example.test", five_seconds, 0, &entries), FindStep::Found(345));
    assert_eq!(find_pid_by_cmd("com.example.test", five_seconds, five_seconds - 1, &entries), FindStep::Found(345));
    assert_eq!(find_pid_by_cmd("com.example.test", five_seconds, five_seconds, &entries), FindStep::TimedOut);
    assert_eq!(find_pid_by_cmd("nothing", five_seconds, 1, &entries), FindStep::Retry);
}
