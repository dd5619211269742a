use skroot::asm_helper::{asm_to_be_bytes, read_bytes_from, AsmError, LINE_ENDLING};
use skroot::hook::{
    avc_denied_hooker_asm, branch_displacement, check_do_execve_hook, check_hook,
    do_execve_hooker_asm, jump_to_hooker_asm,
    AVCDeniedHook, DoExecveHook, Hook, HookError, AVC_DENIED_BRANCH_INDEX,
    AVC_DENIED_RESERVED_INDEX, DO_EXECVE_BRANCH_INDEX,
};
use skroot::patcher::{PatchError, Patcher};

const KEY: &str = "abcdefghijklmnopqrstuvwxABCDEFGHIJKLMNOPQRSTUVWX";

fn branch_bytes(displacement: i64) -> Vec<u8> {
    let word: u32 = 0x1400_0000 | (((displacement / 4) as u32) & 0x03ff_ffff);
    word.to_be_bytes().to_vec()
}

fn decode_branch(bytes: &[u8]) -> i64 {
    let word = u32::from_be_bytes([bytes[0], bytes[1], bytes[2], bytes[3]]);
    assert_eq!(word >> 26, 0b000101);
    let imm = (word & 0x03ff_ffff) as i64;
    let signed = if imm >= 1 << 25 { imm - (1 << 26) } else { imm };
    signed * 4
}

fn execve_hook() -> DoExecveHook {
    DoExecveHook {
        root_key_size: 48,
        hooker_entry: 0x1030,
        hookee_entry: 0x800000,
        cred_offset: 0x5e0,
        seccomp_offset: 0x880,
    }
}

#[test]
fn test_asm_to_bytes() {
    let listing = format!("AARCH64 GAS  input.txt \t\t\tpage 1{}{}   1 0000 E00300AA \tMOV X0, X0{}", LINE_ENDLING, LINE_ENDLING, LINE_ENDLING);
    let bytes = u32::from_str_radix("E00300AA", 16).unwrap().to_be_bytes();
    assert_eq!(&bytes as &[u8], &asm_to_be_bytes(0, listing.as_bytes()).unwrap());
}

#[test]
fn listing_word_is_emitted_most_significant_byte_first() {
    assert_eq!(
        read_bytes_from(b"   1 0000 AA0003E0 \tMOV X0, X0\n"),
        Ok(vec![0xaa, 0x00, 0x03, 0xe0])
    );
    assert_eq!(read_bytes_from(b"1 0 1\n"), Ok(vec![0, 0, 0, 1]));
}

#[test]
fn listing_of_several_lines() {
    let listing = b"AARCH64 GAS  in.txt\n\n\n   1 0000 E00300AA \tMOV X0, X0\r\n   2 0004 C0035FD6 \tRET\n  \t \nAARCH64 GAS  in.txt page 2\n   3 0008 1F2003D5 \tNOP";
    assert_eq!(
        read_bytes_from(listing),
        Ok(vec![0xe0, 0x03, 0x00, 0xaa, 0xc0, 0x03, 0x5f, 0xd6, 0x1f, 0x20, 0x03, 0xd5])
    );
    assert_eq!(read_bytes_from(b""), Ok(Vec::new()));
}

#[test]
fn listing_errors() {
    assert_eq!(asm_to_be_bytes(1, b"   1 0000 E00300AA \tMOV X0, X0\n"), Err(AsmError::AssemblerInvocationFailed));
    assert_eq!(asm_to_be_bytes(-1, b""), Err(AsmError::AssemblerInvocationFailed));
    assert_eq!(read_bytes_from(b"   1 0000\n"), Err(AsmError::ListingParseError));
    assert_eq!(read_bytes_from(b"   1 0000 XYZ MOV\n"), Err(AsmError::ListingParseError));
    assert_eq!(read_bytes_from(b"   1 0000 1E00300AA MOV\n"), Err(AsmError::ListingParseError));
    assert_eq!(read_bytes_from(b"   1 0000 E00300AA \xff\n"), Err(AsmError::ListingParseError));
    assert_eq!(
        read_bytes_from(b"   1 0000 E00300AA MOV\nbad\n"),
        Err(AsmError::ListingParseError)
    );
}

#[test]
fn do_execve_trampoline_text() {
    let hook = execve_hook();
    let text = do_execve_hooker_asm(&hook).unwrap();
    let lines: Vec<&str> = text.lines().collect();
    assert!(text.ends_with('\n'));
    assert_eq!(lines.len(), DO_EXECVE_BRANCH_INDEX + 1);
    assert_eq!(lines.len(), 40);
    assert_eq!(lines[0], "MOV X0, X0");
    assert_eq!(lines[4], "MOV X7, 0xFFFFFFFFFFFFF001");
    assert_eq!(lines[9], "ADR X8, #-84");
    assert_eq!(lines[18], "CMP X9, #48");
    assert_eq!(lines[21], "LDR X10, [X8, #1504]");
    assert_eq!(lines[34], "STR WZR, [X8, #2176]");
    assert_eq!(lines[35], "STR XZR, [X8, #2184]");
    let back: i64 = (0x800000 + 4) - (0x1030 + 39 * 4);
    assert_eq!(back, 8384312);
    assert_eq!(lines[39], format!("B #{}", back));
    // The key lies 48 bytes before the trampoline; the ADR is its tenth instruction.
    assert_eq!(9 * 4 - 84, -48);
}

#[test]
fn avc_denied_trampoline_text() {
    let hook = AVCDeniedHook { hooker_entry: 0x10d0, hookee_entry: 0x810000, cred_offset: 0x5e0 };
    let text = avc_denied_hooker_asm(&hook).unwrap();
    let lines: Vec<&str> = text.lines().collect();
    assert_eq!(lines.len(), AVC_DENIED_BRANCH_INDEX + 1);
    assert_eq!(lines.len(), 29);
    assert_eq!(lines[0], "STP X9, X10, [sp, #-16]!");
    assert_eq!(lines[3], "LDR X7, [X7, #1504]");
    assert_eq!(lines[24], "RET");
    assert_eq!(lines[AVC_DENIED_RESERVED_INDEX], "MOV X0, X0");
    let back: i64 = (0x810000 + 4) - (0x10d0 + 28 * 4);
    assert_eq!(lines[28], format!("B #{}", back));
}

#[test]
fn trampoline_before_its_hookee_branches_forward_and_after_it_backward() {
    let after = DoExecveHook { hooker_entry: 0x900000, hookee_entry: 0x1000, ..execve_hook() };
    let text = do_execve_hooker_asm(&after).unwrap();
    assert_eq!(text.lines().last().unwrap(), "B #-9433240");
    assert_eq!(jump_to_hooker_asm(&after).unwrap(), "B #9433088\n");
    assert_eq!(jump_to_hooker_asm(&execve_hook()).unwrap(), "B #-8384464\n");
}

#[test]
fn hook_errors() {
    let odd = DoExecveHook { hookee_entry: 0x800002, ..execve_hook() };
    assert_eq!(do_execve_hooker_asm(&odd), Err(HookError::Misaligned));
    assert_eq!(jump_to_hooker_asm(&odd), Err(HookError::Misaligned));
    let odd = AVCDeniedHook { hooker_entry: 0x1031, hookee_entry: 0x810000, cred_offset: 8 };
    assert_eq!(avc_denied_hooker_asm(&odd), Err(HookError::Misaligned));
    let far = DoExecveHook { hookee_entry: 0x1000_0000, hooker_entry: 0, ..execve_hook() };
    assert_eq!(do_execve_hooker_asm(&far), Err(HookError::BranchOutOfRange));
    assert_eq!(jump_to_hooker_asm(&far), Err(HookError::BranchOutOfRange));
    let far = AVCDeniedHook { hooker_entry: 0x1000_0000, hookee_entry: 0, cred_offset: 8 };
    assert_eq!(avc_denied_hooker_asm(&far), Err(HookError::BranchOutOfRange));
    let big = DoExecveHook { seccomp_offset: usize::MAX - 3, ..execve_hook() };
    assert_eq!(do_execve_hooker_asm(&big), Err(HookError::OffsetOutOfRange));
    // The trampoline reaches back over a key of 48 bytes and no other.
    let short = DoExecveHook { root_key_size: 47, ..execve_hook() };
    assert_eq!(do_execve_hooker_asm(&short), Err(HookError::KeySizeUnsupported));
    assert_eq!(check_do_execve_hook(&short), Err(HookError::KeySizeUnsupported));
    assert_eq!(check_do_execve_hook(&execve_hook()), Ok(8384312));
    assert_eq!(check_hook(0, 0x4000_0002, 28), Err(HookError::Misaligned));
    assert_eq!(check_hook(0, 0x4000_0000, 28), Err(HookError::BranchOutOfRange));
    // The branch to the trampoline is held to its reach as the branch back is.
    // The branch back spans 0x7fffffc there, the branch to the trampoline 0x8000000.
    assert_eq!(check_hook(0, 0x800_0000, 0), Err(HookError::BranchOutOfRange));
    assert_eq!(check_hook(0x7ff_fffc, 0, 0), Err(HookError::BranchOutOfRange));
    assert_eq!(check_hook(0x7ff_fff8, 0, 0), Ok(0x7ff_fffc));
    assert_eq!(check_hook(0x7ff_fffc, 0, 28), Ok(0x800_0000 - 112));
}

#[test]
fn branch_displacement_limits() {
    assert_eq!(branch_displacement(0, 0), Ok(0));
    assert_eq!(branch_displacement(8, 4), Ok(-4));
    assert_eq!(branch_displacement(0, 0x7ff_fffc), Ok(0x7ff_fffc));
    assert_eq!(branch_displacement(0, 0x800_0000), Err(HookError::BranchOutOfRange));
    assert_eq!(branch_displacement(0x800_0000, 0), Ok(-0x800_0000));
    assert_eq!(branch_displacement(0x800_0004, 0), Err(HookError::BranchOutOfRange));
    assert_eq!(branch_displacement(2, 4), Err(HookError::Misaligned));
    assert_eq!(branch_displacement(4, 6), Err(HookError::Misaligned));
    // A displacement in range fits the 26 signed bits of a branch, counted in instructions.
    for d in [0i64, 4, -4, 0x7ff_fffc, -0x800_0000] {
        assert_eq!(decode_branch(&branch_bytes(d)), d);
    }
}

#[test]
fn hook_trait_gives_the_entries() {
    let h = execve_hook();
    assert_eq!(h.hookee_entry(), 0x800000);
    assert_eq!(h.hooker_entry(), 0x1030);
    let a = AVCDeniedHook { hooker_entry: 1, hookee_entry: 2, cred_offset: 3 };
    assert_eq!(a.hookee_entry(), 2);
    assert_eq!(a.hooker_entry(), 1);
}

#[test]
fn patch_a_zero_filled_image() {
    let size = 16 * 1024 * 1024;
    let mut patcher = Patcher::new(vec![0u8; size], false);
    let mut next = patcher.patch_root_key(KEY, 0x1000);
    assert_eq!(next, 0x1030);

    let execve = DoExecveHook { hooker_entry: next, ..execve_hook() };
    let hooker: Vec<u8> = (0..160u32).map(|i| (i % 250 + 1) as u8).collect();
    let jump = branch_bytes(0x1030 - 0x800000);
    next = patcher.patch_do_execve(execve, hooker.clone(), jump.clone()).unwrap();
    assert_eq!(next, 0x1030 + 160);

    let avc = AVCDeniedHook { hooker_entry: next, hookee_entry: 0x810000, cred_offset: 0x5e0 };
    let avc_hooker: Vec<u8> = (0..116u32).map(|i| (i % 250 + 1) as u8).collect();
    let avc_jump = branch_bytes(next as i64 - 0x810000);
    assert_eq!(patcher.patch_avc_denied(avc, avc_hooker.clone(), avc_jump.clone()), Ok(next + 116));

    assert_eq!(patcher.patch_count(), 5);
    assert_eq!(patcher.patch(0).bytes, KEY.as_bytes());
    assert!(patcher.patch(0).check);
    assert_eq!(patcher.patch(1).offset, 0x1030);
    assert!(patcher.patch(1).check);
    assert_eq!(patcher.patch(2).offset, 0x800000);
    assert!(!patcher.patch(2).check);
    // Nothing is written before the patches are applied.
    assert!(patcher.image().iter().all(|b| *b == 0));
    assert!(patcher.backup().is_none());

    assert_eq!(patcher.apply_patches(), Ok(()));
    let image = patcher.image();
    assert_eq!(image.len(), size);
    assert_eq!(patcher.backup().as_ref().unwrap(), &vec![0u8; size]);
    assert_eq!(&image[0x1000..0x1030], KEY.as_bytes());
    // The hookee's first instruction is a branch to the trampoline.
    assert_eq!(decode_branch(&image[0x800000..0x800004]), 0x1030 - 0x800000);
    assert_eq!(decode_branch(&image[0x810000..0x810004]), 0x10d0 - 0x810000);
    // The slot of each trampoline holds the hookee's first instruction, here zero.
    assert_eq!(&image[0x1030..0x1034], &[0u8; 4]);
    assert_eq!(&image[0x1034..0x1030 + 160], &hooker[4..]);
    let slot = 0x10d0 + 27 * 4;
    assert_eq!(&image[slot..slot + 4], &[0u8; 4]);
    assert_eq!(&image[0x10d0..slot], &avc_hooker[..27 * 4]);
    assert_eq!(&image[slot + 4..0x10d0 + 116], &avc_hooker[28 * 4..]);
}

#[test]
fn slot_takes_the_first_instruction_of_the_hookee() {
    let mut image = vec![0u8; 0x400];
    image[0x200..0x204].copy_from_slice(&[0xde, 0xad, 0xbe, 0xef]);
    let mut patcher = Patcher::new(image, true);
    let hook = AVCDeniedHook { hooker_entry: 0x100, hookee_entry: 0x200, cred_offset: 8 };
    assert_eq!(patcher.patch_avc_denied(hook, vec![7u8; 116], vec![1, 2, 3, 4]), Ok(0x100 + 116));
    assert_eq!(&patcher.patch(0).bytes[27 * 4..28 * 4], &[0xde, 0xad, 0xbe, 0xef]);
    assert_eq!(&patcher.patch(0).bytes[..27 * 4], &[7u8; 27 * 4][..]);
    assert_eq!(patcher.apply_patches(), Ok(()));
    assert!(patcher.backup().is_none());
    assert_eq!(&patcher.image()[0x200..0x204], &[1, 2, 3, 4]);
}

#[test]
fn hookee_outside_the_image_cannot_be_read() {
    let mut patcher = Patcher::new(vec![0u8; 2 * 1024 * 1024], false);
    let next = patcher.patch_root_key(KEY, 0x1000);
    let hook = DoExecveHook { hooker_entry: next, ..execve_hook() };
    assert_eq!(
        patcher.patch_do_execve(hook, vec![1u8; 160], vec![1u8; 4]),
        Err(PatchError::ReadOutOfRange { offset: 0x800000, size: 4 })
    );
    assert_eq!(patcher.patch_count(), 1);
    assert_eq!(patcher.read_bytes(0x1ffffe, 4), Err(PatchError::ReadOutOfRange { offset: 0x1ffffe, size: 4 }));
    assert_eq!(patcher.read_bytes(0x1ffffc, 4), Ok(vec![0u8; 4]));
}

#[test]
fn assembled_sizes_are_held_to_the_branch_index() {
    let mut patcher = Patcher::new(vec![0u8; 0x1000], false);
    let hook = DoExecveHook { hooker_entry: 0x100, hookee_entry: 0x800, ..execve_hook() };
    assert_eq!(
        patcher.patch_do_execve(hook, vec![1u8; 156], vec![1u8; 4]),
        Err(PatchError::HookerSizeMismatch { expected: 160, actual: 156 })
    );
    assert_eq!(
        patcher.patch_do_execve(hook, vec![1u8; 160], vec![1u8; 8]),
        Err(PatchError::JumpSizeMismatch { actual: 8 })
    );
    let avc = AVCDeniedHook { hooker_entry: 0x100, hookee_entry: 0x800, cred_offset: 8 };
    assert_eq!(
        patcher.patch_avc_denied(avc, vec![1u8; 160], vec![1u8; 4]),
        Err(PatchError::HookerSizeMismatch { expected: 116, actual: 160 })
    );
    assert_eq!(patcher.patch_count(), 0);
}

#[test]
fn hooks_that_cannot_be_planned_are_not_staged() {
    let mut patcher = Patcher::new(vec![0u8; 0x1000], false);
    let odd = AVCDeniedHook { hooker_entry: 0x4000_0002, hookee_entry: 0, cred_offset: 8 };
    assert_eq!(
        patcher.patch_avc_denied(odd, vec![1u8; 116], vec![1u8; 4]),
        Err(PatchError::Hook(HookError::Misaligned))
    );
    let far = AVCDeniedHook { hooker_entry: 0x4000_0000, hookee_entry: 0, cred_offset: 8 };
    assert_eq!(
        patcher.patch_avc_denied(far, vec![1u8; 116], vec![1u8; 4]),
        Err(PatchError::Hook(HookError::BranchOutOfRange))
    );
    let top = AVCDeniedHook { hooker_entry: usize::MAX - 3, hookee_entry: 0x800, cred_offset: 8 };
    assert_eq!(
        patcher.patch_avc_denied(top, vec![1u8; 116], vec![1u8; 4]),
        Err(PatchError::Hook(HookError::BranchOutOfRange))
    );
    let odd = DoExecveHook { hooker_entry: 0x102, hookee_entry: 0x800, ..execve_hook() };
    assert_eq!(
        patcher.patch_do_execve(odd, vec![1u8; 160], vec![1u8; 4]),
        Err(PatchError::Hook(HookError::Misaligned))
    );
    let far = DoExecveHook { hooker_entry: 0x4000_0000, hookee_entry: 0, ..execve_hook() };
    assert_eq!(
        patcher.patch_do_execve(far, vec![1u8; 160], vec![1u8; 4]),
        Err(PatchError::Hook(HookError::BranchOutOfRange))
    );
    let short = DoExecveHook { hooker_entry: 0x100, hookee_entry: 0x800, root_key_size: 16, ..execve_hook() };
    assert_eq!(
        patcher.patch_do_execve(short, vec![1u8; 160], vec![1u8; 4]),
        Err(PatchError::Hook(HookError::KeySizeUnsupported))
    );
    assert_eq!(patcher.patch_count(), 0);
}

#[test]
fn checked_patch_of_no_bytes_is_applied_anywhere() {
    let mut patcher = Patcher::new(vec![5u8; 8], true);
    assert_eq!(patcher.patch_root_key("", 100), 100);
    assert_eq!(patcher.patch_root_key("", 4), 4);
    assert_eq!(patcher.apply_patches(), Ok(()));
    assert_eq!(patcher.image(), &vec![5u8; 8]);
}

#[test]
fn checked_patch_over_a_used_region_fails_and_writes_nothing() {
    let mut image = vec![0u8; 0x100];
    image[0x2f] = 1;
    let mut patcher = Patcher::new(image.clone(), false);
    patcher.patch_root_key(KEY, 0);
    assert_eq!(patcher.apply_patches(), Err(PatchError::NonZeroTargetRegion { offset: 0 }));
    assert_eq!(patcher.image(), &image);
    assert_eq!(patcher.backup().as_ref(), Some(&image));
}

#[test]
fn patches_before_the_failing_one_stay_written() {
    let mut image = vec![0u8; 0x100];
    image[0x80] = 9;
    let mut patcher = Patcher::new(image, false);
    patcher.patch_root_key("first", 0x10);
    patcher.patch_root_key("second", 0x7c);
    patcher.patch_root_key("third", 0xa0);
    assert_eq!(patcher.apply_patches(), Err(PatchError::NonZeroTargetRegion { offset: 0x7c }));
    assert_eq!(&patcher.image()[0x10..0x15], b"first");
    assert_eq!(&patcher.image()[0x7c..0x82], &[0, 0, 0, 0, 9, 0]);
    assert_eq!(&patcher.image()[0xa0..0xa5], &[0u8; 5]);
    // Applying twice fails on the first patch: its region is no longer zero.
    assert_eq!(patcher.apply_patches(), Err(PatchError::NonZeroTargetRegion { offset: 0x10 }));
}

#[test]
fn checked_patch_past_the_end_cannot_be_checked() {
    let mut patcher = Patcher::new(vec![0u8; 8], true);
    patcher.patch_root_key("0123456789", 4);
    assert_eq!(patcher.apply_patches(), Err(PatchError::ReadOutOfRange { offset: 4, size: 10 }));
    assert_eq!(patcher.image(), &vec![0u8; 8]);
}

#[test]
fn unchecked_patch_past_the_end_makes_the_image_longer() {
    let mut patcher = Patcher::new(vec![5u8; 0x20], true);
    let hook = AVCDeniedHook { hooker_entry: 0x40, hookee_entry: 0x1c, cred_offset: 8 };
    // The trampoline is checked and lies past the end: it cannot be applied.
    patcher.patch_avc_denied(hook, vec![7u8; 116], vec![1, 2, 3, 4]).unwrap();
    assert_eq!(patcher.apply_patches(), Err(PatchError::ReadOutOfRange { offset: 0x40, size: 116 }));
    assert_eq!(patcher.image().len(), 0x20);
}

#[test]
fn an_existing_backup_is_kept() {
    let mut patcher = Patcher::new(vec![0u8; 0x40], true);
    patcher.patch_root_key("key", 0);
    assert_eq!(patcher.apply_patches(), Ok(()));
    assert!(patcher.backup().is_none());
    let mut fresh = Patcher::new(vec![0u8; 0x40], false);
    fresh.patch_root_key("key", 0);
    fresh.patch_root_key("more", 8);
    assert_eq!(fresh.apply_patches(), Ok(()));
    assert_eq!(fresh.backup().as_ref(), Some(&vec![0u8; 0x40]));
    // A second run does not replace the backup with the patched image.
    let _ = fresh.apply_patches();
    assert_eq!(fresh.backup().as_ref(), Some(&vec![0u8; 0x40]));
}
