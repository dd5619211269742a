//! Deploying the shell command under a directory whose name carries the root key.

use vstd::prelude::*;
use vstd::string::{StringExecFns, StringSliceAdditionalSpecFns};
use vstd::utf8::encode_utf8;
use crate::root::su_mark;
use crate::text::{has_prefix, starts_with};

verus! {

/// One entry of the directory to deploy into, as read before deploying: its name, the day of
/// the month it was last modified, and whether it holds the shell command.
pub struct DeployEntry {
    pub name: String,
    pub modified_day: u8,
    pub has_su: bool,
}

/// What deploying does: the entries to remove, by index and in order, and the entry to use
/// again, if there is one. With none to use again a new directory is made.
pub struct DeployPlan {
    pub remove: Vec<usize>,
    pub reuse: Option<usize>,
}

/// The name marks a deployed directory.
pub open spec fn is_deployed(e: DeployEntry) -> bool {
    has_prefix(encode_utf8(e.name@), su_mark())
}

/// The scan of the first `n` entries, in order: the deployed directories of another day are
/// removed; the first one of today that holds the shell command is used again and ends the
/// scan.
pub open spec fn deploy_scan(entries: Seq<DeployEntry>, today: u8, n: int) -> (Seq<usize>, Option<usize>)
    decreases n,
{
    if n <= 0 {
        (Seq::empty(), None)
    } else {
        let (removed, reuse) = deploy_scan(entries, today, n - 1);
        let e = entries[n - 1];
        if reuse is Some || !is_deployed(e) {
            (removed, reuse)
        } else if e.modified_day != today {
            (removed.push((n - 1) as usize), None)
        } else if e.has_su {
            (removed, Some((n - 1) as usize))
        } else {
            (removed, None)
        }
    }
}

/// Plans a deployment on day `today` of the month into a directory that holds `entries`.
pub fn deploy_su(today: u8, entries: &[DeployEntry]) -> (r: DeployPlan)
    ensures
        (r.remove@, r.reuse) == deploy_scan(entries@, today, entries@.len() as int),
{
    let mark: [u8; 3] = [0x73, 0x75, 0x5f];
    assert(mark@ =~= su_mark());
    let mut remove: Vec<usize> = Vec::new();
    let mut i: usize = 0;
    while i < entries.len()
        invariant
            i <= entries@.len(),
            mark@ == su_mark(),
            (remove@, None::<usize>) == deploy_scan(entries@, today, i as int),
        decreases entries@.len() - i,
    {
        let e = &entries[i];
        if starts_with(e.name.as_str().as_bytes(), mark.as_slice()) {
            if e.modified_day != today {
                remove.push(i);
            } else if e.has_su {
                proof {
                    lemma_scan_ends(entries@, today, i + 1, entries@.len() as int);
                }
                return DeployPlan { remove, reuse: Some(i) };
            }
        }
        i += 1;
    }
    DeployPlan { remove, reuse: None }
}

/// Once a directory is used again, the entries after it change nothing.
proof fn lemma_scan_ends(entries: Seq<DeployEntry>, today: u8, k: int, n: int)
    requires
        0 <= k <= n,
        deploy_scan(entries, today, k).1 is Some,
    ensures
        deploy_scan(entries, today, n) == deploy_scan(entries, today, k),
    decreases n - k,
{
    if k < n {
        lemma_scan_ends(entries, today, k, n - 1);
    }
}

/// A deployment on the day of an earlier one finds that one's directory: when the scan
/// meets a deployed directory of today that holds the shell command, and none before it, it
/// uses it again and removes nothing.
pub proof fn lemma_same_day_reuses(entries: Seq<DeployEntry>, today: u8)
    requires
        entries.len() >= 1,
        entries.len() <= usize::MAX,
        is_deployed(entries[0]),
        entries[0].modified_day == today,
        entries[0].has_su,
    ensures
        deploy_scan(entries, today, entries.len() as int) == (Seq::<usize>::empty(), Some(0usize)),
{
    reveal_with_fuel(deploy_scan, 2);
    lemma_scan_ends(entries, today, 1, entries.len() as int);
}

/// The name of the directory for a hidden key: `su_` and the cipher text.
pub fn deploy_dir_name(encrypted_root_key: &str) -> (r: String)
    ensures
        r@ == "su_"@ + encrypted_root_key@,
{
    let mut name = String::from_str("su_");
    name.append(encrypted_root_key);
    name
}

} // verus!
