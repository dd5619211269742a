//! Staging patches for a kernel image and applying them.
//!
//! The image is held in memory. Patches are staged first and written only by
//! `apply_patches`, in the order in which they were staged. Before the first write the
//! image is kept as a backup, unless a backup exists already.

use vstd::prelude::*;
use vstd::slice::slice_to_vec;
use vstd::string::StringSliceAdditionalSpecFns;
use crate::hook::{
    avc_denied_hook_error, check_do_execve_hook, check_hook, do_execve_hook_error, AVCDeniedHook,
    DoExecveHook, Hook, HookError, AVC_DENIED_BRANCH_INDEX, AVC_DENIED_RESERVED_INDEX,
    DO_EXECVE_BRANCH_INDEX, DO_EXECVE_RESERVED_INDEX, INSTRUCTION_SIZE,
};

verus! {

/// A staged patch: bytes to write at an offset. With `check`, the bytes that the patch
/// replaces must all be zero.
pub struct PatchInfo {
    pub offset: usize,
    pub bytes: Vec<u8>,
    pub check: bool,
}

/// Why a patch was not staged or not written.
#[derive(Clone, Copy, Debug, PartialEq, Eq)]
pub enum PatchError {
    /// The hook cannot be planned.
    Hook(HookError),
    /// A read would run past the end of the image.
    ReadOutOfRange { offset: usize, size: usize },
    /// The region that a checked patch replaces holds a byte that is not zero.
    NonZeroTargetRegion { offset: usize },
    /// The assembled trampoline has not the number of instructions that its branch was
    /// computed for.
    HookerSizeMismatch { expected: usize, actual: usize },
    /// The assembled branch to the trampoline is not one instruction.
    JumpSizeMismatch { actual: usize },
    /// The end of a patch lies beyond the largest offset.
    OffsetOutOfRange,
}

/// `image` with `bytes` written at `offset`. A write past the end makes the image longer,
/// and what lies between the old end and the write is zero. A write of nothing changes
/// nothing.
pub open spec fn write_at(image: Seq<u8>, offset: int, bytes: Seq<u8>) -> Seq<u8> {
    if bytes.len() == 0 {
        image
    } else {
        Seq::new(
            if image.len() >= offset + bytes.len() {
                image.len()
            } else {
                (offset + bytes.len()) as nat
            },
            |i: int|
                if offset <= i < offset + bytes.len() {
                    bytes[i - offset]
                } else if i < image.len() {
                    image[i]
                } else {
                    0u8
                },
        )
    }
}

/// The `size` bytes of `image` from `offset` on are all zero.
pub open spec fn region_is_zero(image: Seq<u8>, offset: int, size: int) -> bool {
    forall|i: int| offset <= i < offset + size ==> #[trigger] image[i] == 0
}

/// What keeps a patch from being written to `image`, if anything: its end lies beyond the
/// largest offset, or it is checked and the region it replaces is not wholly inside the
/// image or not zero. Nothing keeps a patch of no bytes from being written.
pub open spec fn patch_error(image: Seq<u8>, p: PatchInfo) -> Option<PatchError> {
    if p.bytes@.len() == 0 {
        None
    } else if p.offset + p.bytes@.len() > usize::MAX {
        Some(PatchError::OffsetOutOfRange)
    } else if p.check && p.offset + p.bytes@.len() > image.len() {
        Some(PatchError::ReadOutOfRange { offset: p.offset, size: p.bytes@.len() as usize })
    } else if p.check && !region_is_zero(image, p.offset as int, p.bytes@.len() as int) {
        Some(PatchError::NonZeroTargetRegion { offset: p.offset })
    } else {
        None
    }
}

/// The image after the first `n` patches were applied in order, and the error that stopped
/// the work, if any. The patch that fails writes nothing, nor does any after it; those
/// before it stay written.
pub open spec fn apply_spec(image: Seq<u8>, patches: Seq<PatchInfo>, n: int) -> (
    Seq<u8>,
    Option<PatchError>,
)
    decreases n,
{
    if n <= 0 {
        (image, None)
    } else {
        let (before, stopped) = apply_spec(image, patches, n - 1);
        if stopped is Some {
            (before, stopped)
        } else {
            match patch_error(before, patches[n - 1]) {
                Some(e) => (before, Some(e)),
                None => (write_at(before, patches[n - 1].offset as int, patches[n - 1].bytes@), None),
            }
        }
    }
}

/// A checked patch over a region that holds a byte that is not zero fails with
/// `NonZeroTargetRegion` and leaves the image as it was.
pub proof fn lemma_checked_patch_keeps_nonzero_region(image: Seq<u8>, p: PatchInfo, at: int)
    requires
        p.check,
        p.offset + p.bytes@.len() <= image.len() <= usize::MAX,
        p.offset <= at < p.offset + p.bytes@.len(),
        image[at] != 0,
    ensures
        apply_spec(image, seq![p], 1) == (
            image,
            Some(PatchError::NonZeroTargetRegion { offset: p.offset }),
        ),
{
    reveal_with_fuel(apply_spec, 2);
    assert(seq![p][0] == p);
    assert(!region_is_zero(image, p.offset as int, p.bytes@.len() as int));
    assert(patch_error(image, p) == Some(PatchError::NonZeroTargetRegion { offset: p.offset }));
}

/// `hooker` with the four bytes from `start` on replaced by `saved`.
pub open spec fn with_saved_instruction(hooker: Seq<u8>, start: int, saved: Seq<u8>) -> Seq<u8> {
    Seq::new(
        hooker.len(),
        |i: int|
            if start <= i < start + 4 {
                saved[i - start]
            } else {
                hooker[i]
            },
    )
}

/// What comes of staging a hook: the error, or the two patches and the offset behind the
/// trampoline.
///
/// A hook that cannot be planned (`refused`) is not staged.
/// The assembled trampoline must have `branch_index + 1` instructions and the assembled
/// jump one. The hookee's first instruction is read from the image and put into the
/// trampoline's slot at instruction `reserved_index`. The trampoline is staged at the hooker's
/// entry, checked; the jump is staged at the hookee's entry, unchecked, for the hookee's
/// code lies there.
pub open spec fn hook_patches(
    refused: Option<HookError>,
    image: Seq<u8>,
    hookee_entry: usize,
    hooker_entry: usize,
    branch_index: usize,
    reserved_index: usize,
    hooker_bytes: Seq<u8>,
    jump_bytes: Seq<u8>,
) -> Result<(PatchInfoView, PatchInfoView, usize), PatchError> {
    let expected = (branch_index + 1) * 4;
    if refused is Some {
        Err(PatchError::Hook(refused->Some_0))
    } else if hooker_bytes.len() != expected {
        Err(
            PatchError::HookerSizeMismatch {
                expected: expected as usize,
                actual: hooker_bytes.len() as usize,
            },
        )
    } else if jump_bytes.len() != 4 {
        Err(PatchError::JumpSizeMismatch { actual: jump_bytes.len() as usize })
    } else if hookee_entry + 4 > image.len() {
        Err(PatchError::ReadOutOfRange { offset: hookee_entry, size: 4 })
    } else if hooker_entry + expected > usize::MAX {
        Err(PatchError::OffsetOutOfRange)
    } else {
        Ok(
            (
                PatchInfoView {
                    offset: hooker_entry,
                    bytes: with_saved_instruction(
                        hooker_bytes,
                        reserved_index * 4,
                        image.subrange(hookee_entry as int, hookee_entry + 4),
                    ),
                    check: true,
                },
                PatchInfoView { offset: hookee_entry, bytes: jump_bytes, check: false },
                (hooker_entry + expected) as usize,
            ),
        )
    }
}

/// A patch, as contracts see it.
pub struct PatchInfoView {
    pub offset: usize,
    pub bytes: Seq<u8>,
    pub check: bool,
}

impl View for PatchInfo {
    type V = PatchInfoView;

    open spec fn view(&self) -> PatchInfoView {
        PatchInfoView { offset: self.offset, bytes: self.bytes@, check: self.check }
    }
}

/// The patches of `ps`, as contracts see them.
pub open spec fn views(ps: Seq<PatchInfo>) -> Seq<PatchInfoView> {
    Seq::new(ps.len(), |i: int| ps[i]@)
}

/// An image and the patches staged for it.
pub struct Patcher {
    image: Vec<u8>,
    patches: Vec<PatchInfo>,
    has_backup: bool,
    backup: Option<Vec<u8>>,
}

impl Patcher {
    /// The image as it stands.
    pub closed spec fn spec_image(&self) -> Seq<u8> {
        self.image@
    }

    /// The staged patches, in the order of staging.
    pub closed spec fn spec_patches(&self) -> Seq<PatchInfo> {
        self.patches@
    }

    /// A backup exists: it did when the patcher was made, or one was taken since.
    pub closed spec fn spec_has_backup(&self) -> bool {
        self.has_backup
    }

    /// The backup that this patcher took, if it took one.
    pub closed spec fn spec_backup(&self) -> Option<Seq<u8>> {
        match self.backup {
            Some(b) => Some(b@),
            None => None,
        }
    }

    /// A patcher for `image`, with no patch staged. `has_backup` says whether a backup of
    /// the image exists already.
    pub fn new(image: Vec<u8>, has_backup: bool) -> (r: Patcher)
        ensures
            r.spec_image() == image@,
            r.spec_patches() == Seq::<PatchInfo>::empty(),
            r.spec_has_backup() == has_backup,
            r.spec_backup() is None,
    {
        Patcher { image, patches: Vec::new(), has_backup, backup: None }
    }

    /// The image as it stands.
    pub fn image(&self) -> (r: &Vec<u8>)
        ensures
            r@ == self.spec_image(),
    {
        &self.image
    }

    /// The backup that this patcher took, if it took one.
    pub fn backup(&self) -> (r: &Option<Vec<u8>>)
        ensures
            match *r {
                Some(b) => self.spec_backup() == Some(b@),
                None => self.spec_backup() is None,
            },
    {
        &self.backup
    }

    /// Number of staged patches.
    pub fn patch_count(&self) -> (r: usize)
        ensures
            r == self.spec_patches().len(),
    {
        self.patches.len()
    }

    /// The staged patch at `index`.
    pub fn patch(&self, index: usize) -> (r: &PatchInfo)
        requires
            index < self.spec_patches().len(),
        ensures
            *r == self.spec_patches()[index as int],
    {
        &self.patches[index]
    }

    fn add_patch(&mut self, offset: usize, bytes: Vec<u8>, check: bool)
        ensures
            final(self).spec_patches() == old(self).spec_patches().push(
                PatchInfo { offset, bytes, check },
            ),
            final(self).spec_image() == old(self).spec_image(),
            final(self).spec_has_backup() == old(self).spec_has_backup(),
            final(self).spec_backup() == old(self).spec_backup(),
    {
        self.patches.push(PatchInfo { offset, bytes, check });
    }

    /// Stages the root key at `offset`, checked, and returns the offset behind it.
    pub fn patch_root_key(&mut self, root_key: &str, offset: usize) -> (r: usize)
        requires
            offset + root_key.spec_bytes().len() <= usize::MAX,
        ensures
            r == offset + root_key.spec_bytes().len(),
            views(final(self).spec_patches()) == views(old(self).spec_patches()).push(
                PatchInfoView { offset, bytes: root_key.spec_bytes(), check: true },
            ),
            final(self).spec_image() == old(self).spec_image(),
            final(self).spec_has_backup() == old(self).spec_has_backup(),
            final(self).spec_backup() == old(self).spec_backup(),
    {
        let bytes = slice_to_vec(root_key.as_bytes());
        let size: usize = bytes.len();
        self.add_patch(offset, bytes, true);
        assert(views(final(self).spec_patches()) =~= views(old(self).spec_patches()).push(
            PatchInfoView { offset, bytes: root_key.spec_bytes(), check: true },
        ));
        offset + size
    }

    /// The `size` bytes of the image from `offset` on.
    pub fn read_bytes(&self, offset: usize, size: usize) -> (r: Result<Vec<u8>, PatchError>)
        ensures
            offset + size > self.spec_image().len() ==> r == Err::<Vec<u8>, PatchError>(
                PatchError::ReadOutOfRange { offset, size },
            ),
            offset + size <= self.spec_image().len() ==> r is Ok && r->Ok_0@
                == self.spec_image().subrange(offset as int, offset + size),
    {
        if offset > self.image.len() || size > self.image.len() - offset {
            return Err(PatchError::ReadOutOfRange { offset, size });
        }
        Ok(slice_to_vec(vstd::slice::slice_subrange(self.image.as_slice(), offset, offset + size)))
    }

    fn add_hook_patches<H: Hook>(
        &mut self,
        hook: &H,
        branch_index: usize,
        reserved_index: usize,
        hooker_bytes: Vec<u8>,
        jump_bytes: Vec<u8>,
    ) -> (r: Result<usize, PatchError>)
        requires
            reserved_index <= branch_index <= 1024,
        ensures
            final(self).spec_image() == old(self).spec_image(),
            final(self).spec_has_backup() == old(self).spec_has_backup(),
            final(self).spec_backup() == old(self).spec_backup(),
            match hook_patches(
                None,
                old(self).spec_image(),
                hook.spec_hookee_entry(),
                hook.spec_hooker_entry(),
                branch_index,
                reserved_index,
                hooker_bytes@,
                jump_bytes@,
            ) {
                Err(e) => r == Err::<usize, PatchError>(e) && final(self).spec_patches() == old(
                    self,
                ).spec_patches(),
                Ok((hooker, jump, next)) => r == Ok::<usize, PatchError>(next) && views(
                    final(self).spec_patches(),
                ) == views(old(self).spec_patches()).push(hooker).push(jump),
            },
    {
        let expected: usize = (branch_index + 1) * INSTRUCTION_SIZE;
        if hooker_bytes.len() != expected {
            return Err(PatchError::HookerSizeMismatch { expected, actual: hooker_bytes.len() });
        }
        if jump_bytes.len() != INSTRUCTION_SIZE {
            return Err(PatchError::JumpSizeMismatch { actual: jump_bytes.len() });
        }
        let hookee: usize = hook.hookee_entry();
        let hooker: usize = hook.hooker_entry();
        let saved = match self.read_bytes(hookee, INSTRUCTION_SIZE) {
            Ok(b) => b,
            Err(e) => {
                return Err(e);
            },
        };
        if hooker > usize::MAX - expected {
            return Err(PatchError::OffsetOutOfRange);
        }
        let mut spliced = hooker_bytes;
        let start: usize = reserved_index * INSTRUCTION_SIZE;
        let mut k: usize = 0;
        while k < INSTRUCTION_SIZE
            invariant
                k <= 4,
                start + 4 <= spliced@.len(),
                spliced@.len() == hooker_bytes@.len(),
                spliced@.len() == expected,
                saved@.len() == 4,
                forall|i: int|
                    0 <= i < spliced@.len() ==> spliced@[i] == if start <= i < start + k {
                        saved@[i - start]
                    } else {
                        hooker_bytes@[i]
                    },
            decreases 4 - k,
        {
            spliced[start + k] = saved[k];
            k += 1;
        }
        assert(spliced@ =~= with_saved_instruction(hooker_bytes@, start as int, saved@));
        self.add_patch(hooker, spliced, true);
        self.add_patch(hookee, jump_bytes, false);
        proof {
            let hp = hook_patches(
                None,
                old(self).spec_image(),
                hook.spec_hookee_entry(),
                hook.spec_hooker_entry(),
                branch_index,
                reserved_index,
                hooker_bytes@,
                jump_bytes@,
            );
            assert(views(final(self).spec_patches()) =~= views(old(self).spec_patches()).push(
                hp->Ok_0.0,
            ).push(hp->Ok_0.1));
        }
        Ok(hooker + expected)
    }

    /// Stages the `do_execve` hook, when it can be planned: the trampoline assembled from
    /// `do_execve_hooker_asm`, with the hookee's first instruction in its first slot, and
    /// the jump assembled from `jump_to_hooker_asm`. Returns the offset behind the
    /// trampoline.
    pub fn patch_do_execve(
        &mut self,
        hook: DoExecveHook,
        hooker_bytes: Vec<u8>,
        jump_bytes: Vec<u8>,
    ) -> (r: Result<usize, PatchError>)
        ensures
            final(self).spec_image() == old(self).spec_image(),
            final(self).spec_has_backup() == old(self).spec_has_backup(),
            final(self).spec_backup() == old(self).spec_backup(),
            match hook_patches(
                do_execve_hook_error(hook),
                old(self).spec_image(),
                hook.hookee_entry,
                hook.hooker_entry,
                DO_EXECVE_BRANCH_INDEX,
                DO_EXECVE_RESERVED_INDEX,
                hooker_bytes@,
                jump_bytes@,
            ) {
                Err(e) => r == Err::<usize, PatchError>(e) && final(self).spec_patches() == old(
                    self,
                ).spec_patches(),
                Ok((hooker, jump, next)) => r == Ok::<usize, PatchError>(next) && views(
                    final(self).spec_patches(),
                ) == views(old(self).spec_patches()).push(hooker).push(jump),
            },
    {
        match check_do_execve_hook(&hook) {
            Ok(_) => {},
            Err(e) => {
                return Err(PatchError::Hook(e));
            },
        }
        self.add_hook_patches(
            &hook,
            DO_EXECVE_BRANCH_INDEX,
            DO_EXECVE_RESERVED_INDEX,
            hooker_bytes,
            jump_bytes,
        )
    }

    /// Stages the `avc_denied` hook, when it can be planned: the trampoline assembled from
    /// `avc_denied_hooker_asm`, with the hookee's first instruction in the slot before its
    /// closing branch, and the jump assembled from `jump_to_hooker_asm`. Returns the offset
    /// behind the trampoline.
    pub fn patch_avc_denied(
        &mut self,
        hook: AVCDeniedHook,
        hooker_bytes: Vec<u8>,
        jump_bytes: Vec<u8>,
    ) -> (r: Result<usize, PatchError>)
        ensures
            final(self).spec_image() == old(self).spec_image(),
            final(self).spec_has_backup() == old(self).spec_has_backup(),
            final(self).spec_backup() == old(self).spec_backup(),
            match hook_patches(
                avc_denied_hook_error(hook),
                old(self).spec_image(),
                hook.hookee_entry,
                hook.hooker_entry,
                AVC_DENIED_BRANCH_INDEX,
                AVC_DENIED_RESERVED_INDEX,
                hooker_bytes@,
                jump_bytes@,
            ) {
                Err(e) => r == Err::<usize, PatchError>(e) && final(self).spec_patches() == old(
                    self,
                ).spec_patches(),
                Ok((hooker, jump, next)) => r == Ok::<usize, PatchError>(next) && views(
                    final(self).spec_patches(),
                ) == views(old(self).spec_patches()).push(hooker).push(jump),
            },
    {
        match check_hook(hook.hookee_entry, hook.hooker_entry, AVC_DENIED_BRANCH_INDEX) {
            Ok(_) => {},
            Err(e) => {
                return Err(PatchError::Hook(e));
            },
        }
        self.add_hook_patches(
            &hook,
            AVC_DENIED_BRANCH_INDEX,
            AVC_DENIED_RESERVED_INDEX,
            hooker_bytes,
            jump_bytes,
        )
    }

    /// Writes the staged patch at `index` to the image, when nothing keeps it from being
    /// written.
    fn write_bytes(&mut self, index: usize) -> (r: Result<(), PatchError>)
        requires
            index < old(self).spec_patches().len(),
        ensures
            final(self).spec_patches() == old(self).spec_patches(),
            final(self).spec_has_backup() == old(self).spec_has_backup(),
            final(self).spec_backup() == old(self).spec_backup(),
            match patch_error(old(self).spec_image(), old(self).spec_patches()[index as int]) {
                Some(e) => r == Err::<(), PatchError>(e) && final(self).spec_image() == old(
                    self,
                ).spec_image(),
                None => r is Ok && final(self).spec_image() == write_at(
                    old(self).spec_image(),
                    old(self).spec_patches()[index as int].offset as int,
                    old(self).spec_patches()[index as int].bytes@,
                ),
            },
    {
        let offset: usize = self.patches[index].offset;
        let size: usize = self.patches[index].bytes.len();
        let check: bool = self.patches[index].check;
        if size == 0 {
            return Ok(());
        }
        if offset > usize::MAX - size {
            return Err(PatchError::OffsetOutOfRange);
        }
        if check {
            if offset + size > self.image.len() {
                return Err(PatchError::ReadOutOfRange { offset, size });
            }
            let mut i: usize = 0;
            while i < size
                invariant
                    i <= size,
                    offset + size <= self.image@.len() <= usize::MAX,
                    index < self.patches@.len(),
                    offset == self.patches@[index as int].offset,
                    size == self.patches@[index as int].bytes@.len(),
                    check == self.patches@[index as int].check,
                    check,
                    self.image == old(self).image,
                    self.patches == old(self).patches,
                    self.has_backup == old(self).has_backup,
                    self.backup == old(self).backup,
                    forall|j: int| offset <= j < offset + i ==> #[trigger] self.image@[j] == 0,
                decreases size - i,
            {
                if self.image[offset + i] != 0 {
                    return Err(PatchError::NonZeroTargetRegion { offset });
                }
                i += 1;
            }
        }
        let ghost before = self.image@;
        let ghost bytes = self.patches@[index as int].bytes@;
        while self.image.len() < offset + size
            invariant
                offset + size <= usize::MAX,
                self.patches == old(self).patches,
                self.has_backup == old(self).has_backup,
                self.backup == old(self).backup,
                before.len() <= self.image@.len(),
                forall|j: int| 0 <= j < before.len() ==> self.image@[j] == before[j],
                forall|j: int| before.len() <= j < self.image@.len() ==> self.image@[j] == 0,
                self.image@.len() <= before.len() || self.image@.len() <= offset + size,
            decreases offset + size - self.image@.len(),
        {
            self.image.push(0);
        }
        let ghost grown = self.image@;
        let mut k: usize = 0;
        while k < size
            invariant
                k <= size,
                index < self.patches@.len(),
                self.patches == old(self).patches,
                self.has_backup == old(self).has_backup,
                self.backup == old(self).backup,
                bytes == self.patches@[index as int].bytes@,
                size == bytes.len(),
                offset + size <= self.image@.len() <= usize::MAX,
                self.image@.len() == grown.len(),
                forall|j: int|
                    0 <= j < grown.len() ==> self.image@[j] == if offset <= j < offset + k {
                        bytes[j - offset]
                    } else {
                        grown[j]
                    },
            decreases size - k,
        {
            let b: u8 = self.patches[index].bytes[k];
            self.image[offset + k] = b;
            k += 1;
        }
        assert(self.image@ =~= write_at(before, offset as int, bytes));
        Ok(())
    }

    /// Applies the staged patches to the image, in the order of staging, and stops at the
    /// first that cannot be written. The patches before that one stay written; the backup
    /// is what undoes them. Before anything is written the image is kept as the backup,
    /// unless a backup exists; an existing backup is never replaced. The patches stay
    /// staged.
    pub fn apply_patches(&mut self) -> (r: Result<(), PatchError>)
        ensures
            final(self).spec_patches() == old(self).spec_patches(),
            final(self).spec_has_backup(),
            final(self).spec_backup() == if old(self).spec_has_backup() {
                old(self).spec_backup()
            } else {
                Some(old(self).spec_image())
            },
            final(self).spec_image() == apply_spec(
                old(self).spec_image(),
                old(self).spec_patches(),
                old(self).spec_patches().len() as int,
            ).0,
            r == match apply_spec(
                old(self).spec_image(),
                old(self).spec_patches(),
                old(self).spec_patches().len() as int,
            ).1 {
                Some(e) => Err::<(), PatchError>(e),
                None => Ok::<(), PatchError>(()),
            },
    {
        if !self.has_backup {
            self.backup = Some(slice_to_vec(self.image.as_slice()));
            self.has_backup = true;
        }
        let ghost image0 = self.image@;
        let ghost patches = self.patches@;
        let n: usize = self.patches.len();
        let mut i: usize = 0;
        while i < n
            invariant
                i <= n,
                n == patches.len(),
                self.patches@ == patches,
                patches == old(self).spec_patches(),
                image0 == old(self).spec_image(),
                self.has_backup,
                self.spec_backup() == if old(self).spec_has_backup() {
                    old(self).spec_backup()
                } else {
                    Some(old(self).spec_image())
                },
                apply_spec(image0, patches, i as int) == (self.image@, None::<PatchError>),
            decreases n - i,
        {
            match self.write_bytes(i) {
                Ok(()) => {},
                Err(e) => {
                    proof {
                        lemma_stopped_stays(image0, patches, i + 1, n as int);
                    }
                    return Err(e);
                },
            }
            i += 1;
        }
        Ok(())
    }
}

/// Once a patch has failed, the patches after it change nothing.
proof fn lemma_stopped_stays(image: Seq<u8>, patches: Seq<PatchInfo>, k: int, n: int)
    requires
        0 <= k <= n,
        apply_spec(image, patches, k).1 is Some,
    ensures
        apply_spec(image, patches, n) == apply_spec(image, patches, k),
    decreases n - k,
{
    if k < n {
        lemma_stopped_stays(image, patches, k, n - 1);
    }
}

} // verus!
