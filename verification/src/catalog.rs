//! The in-memory catalogs behind the backup and allow/block-list endpoints:
//! simple stores keyed by generated identifiers, kept unique.

use vstd::prelude::*;

use crate::hosts::{active_entries, get_hosts_file_count, read_error, HostsFs};
use crate::text::chars_eq;

verus! {

/// One stored backup configuration.
#[derive(Debug)]
pub struct BackupConfig {
    pub id: String,
    pub name: String,
    pub description: Option<String>,
    pub created_at: u64,
    pub entries_count: usize,
}

/// The body of a create-backup request.
#[derive(Debug)]
pub struct CreateBackupRequest {
    pub name: String,
    pub description: Option<String>,
}

/// One allow-list pattern.
#[derive(Debug)]
pub struct AllowListEntry {
    pub id: String,
    pub pattern: String,
    pub description: Option<String>,
    pub enabled: bool,
    pub created_at: u64,
}

/// One block-list pattern.
#[derive(Debug)]
pub struct BlockListEntry {
    pub id: String,
    pub pattern: String,
    pub description: Option<String>,
    pub enabled: bool,
    pub created_at: u64,
}

impl BackupConfig {
    /// An equal copy.
    pub fn duplicate(&self) -> (r: Self)
        ensures
            r == *self,
    {
        BackupConfig {
            id: self.id.clone(),
            name: self.name.clone(),
            description: match &self.description {
                Some(s) => Some(s.clone()),
                None => None,
            },
            created_at: self.created_at,
            entries_count: self.entries_count,
        }
    }
}

impl AllowListEntry {
    /// An equal copy.
    pub fn duplicate(&self) -> (r: Self)
        ensures
            r == *self,
    {
        AllowListEntry {
            id: self.id.clone(),
            pattern: self.pattern.clone(),
            description: match &self.description {
                Some(s) => Some(s.clone()),
                None => None,
            },
            enabled: self.enabled,
            created_at: self.created_at,
        }
    }
}

impl BlockListEntry {
    /// An equal copy.
    pub fn duplicate(&self) -> (r: Self)
        ensures
            r == *self,
    {
        BlockListEntry {
            id: self.id.clone(),
            pattern: self.pattern.clone(),
            description: match &self.description {
                Some(s) => Some(s.clone()),
                None => None,
            },
            enabled: self.enabled,
            created_at: self.created_at,
        }
    }
}

/// The identifiers are pairwise distinct, as in a map keyed by them.
pub open spec fn unique_backup_ids(bs: Seq<BackupConfig>) -> bool {
    forall|i: int, j: int|
        0 <= i < j < bs.len() ==> (#[trigger] bs[i]).id@ != (#[trigger] bs[j]).id@
}

/// The in-memory catalogs, each a list with map semantics over unique ids.
#[derive(Debug)]
pub struct Catalogs {
    pub backups: Vec<BackupConfig>,
    pub allow_lists: Vec<AllowListEntry>,
    pub block_lists: Vec<BlockListEntry>,
}

impl Catalogs {
    /// The catalogs are well-formed when backup identifiers are unique.
    pub open spec fn wf(&self) -> bool {
        unique_backup_ids(self.backups@)
    }

    /// Empty catalogs.
    pub fn new() -> (r: Self)
        ensures
            r.wf(),
            r.backups@.len() == 0,
            r.allow_lists@.len() == 0,
            r.block_lists@.len() == 0,
    {
        Catalogs { backups: Vec::new(), allow_lists: Vec::new(), block_lists: Vec::new() }
    }

    /// Stores a new backup configuration under the given identifier: an
    /// existing configuration with the same identifier is replaced, as in a
    /// map insert; otherwise the new one is appended.
    #[verifier::loop_isolation(false)]
    pub fn create_backup(
        &mut self,
        req: &CreateBackupRequest,
        id: String,
        entries_count: usize,
        now: u64,
    ) -> (r: BackupConfig)
        requires
            old(self).wf(),
        ensures
            final(self).wf(),
            r.id == id && r.name@ == req.name@ && r.created_at == now && r.entries_count
                == entries_count,
            r.description is Some <==> req.description is Some,
            r.description is Some ==> r.description.unwrap()@ == req.description.unwrap()@,
            final(self).allow_lists@ == old(self).allow_lists@,
            final(self).block_lists@ == old(self).block_lists@,
            (exists|i: int|
                0 <= i < old(self).backups@.len() && (#[trigger] old(self).backups@[i]).id@ == id@
                    && final(self).backups@ == old(self).backups@.update(i, r)) || ((forall|i: int|
                0 <= i < old(self).backups@.len() ==> (#[trigger] old(self).backups@[i]).id@
                    != id@) && final(self).backups@ == old(self).backups@.push(r)),
    {
        let cfg = BackupConfig {
            id: id.clone(),
            name: req.name.clone(),
            description: match &req.description {
                Some(s) => Some(s.clone()),
                None => None,
            },
            created_at: now,
            entries_count,
        };
        let out = cfg.duplicate();
        let n = self.backups.len();
        let mut i: usize = 0;
        while i < n
            invariant
                i <= n == self.backups@.len(),
                self == old(self),
                forall|k: int| 0 <= k < i ==> (#[trigger] self.backups@[k]).id@ != id@,
                cfg.id@ == id@,
            decreases n - i,
        {
            let idc = crate::text::to_chars(self.backups[i].id.as_str());
            let newc = crate::text::to_chars(id.as_str());
            if chars_eq(&idc, &newc) {
                let ghost pre = self.backups@;
                let _ = self.backups.remove(i);
                self.backups.insert(i, cfg);
                proof {
                    assert(self.backups@ =~= pre.update(i as int, cfg));
                    assert(unique_backup_ids(self.backups@)) by {
                        assert(forall|k: int|
                            0 <= k < self.backups@.len() && k != i ==> (
                            #[trigger] self.backups@[k]).id@ == pre[k].id@);
                    }
                }
                return out;
            }
            i = i + 1;
        }
        self.backups.push(cfg);
        out
    }

    /// The stored backup configurations, in insertion order.
    pub fn get_backups(&self) -> (r: Vec<BackupConfig>)
        ensures
            r@ == self.backups@,
    {
        let n = self.backups.len();
        let mut r: Vec<BackupConfig> = Vec::new();
        let mut i: usize = 0;
        while i < n
            invariant
                i <= n == self.backups@.len(),
                r@ == self.backups@.take(i as int),
            decreases n - i,
        {
            let e = self.backups[i].duplicate();
            r.push(e);
            i = i + 1;
            assert(r@ =~= self.backups@.take(i as int));
        }
        proof {
            assert(r@ =~= self.backups@);
        }
        r
    }

    /// The stored allow-list entries, in insertion order.
    pub fn get_allow_lists(&self) -> (r: Vec<AllowListEntry>)
        ensures
            r@ == self.allow_lists@,
    {
        let n = self.allow_lists.len();
        let mut r: Vec<AllowListEntry> = Vec::new();
        let mut i: usize = 0;
        while i < n
            invariant
                i <= n == self.allow_lists@.len(),
                r@ == self.allow_lists@.take(i as int),
            decreases n - i,
        {
            let e = self.allow_lists[i].duplicate();
            r.push(e);
            i = i + 1;
            assert(r@ =~= self.allow_lists@.take(i as int));
        }
        proof {
            assert(r@ =~= self.allow_lists@);
        }
        r
    }

    /// The stored block-list entries, in insertion order.
    pub fn get_block_lists(&self) -> (r: Vec<BlockListEntry>)
        ensures
            r@ == self.block_lists@,
    {
        let n = self.block_lists.len();
        let mut r: Vec<BlockListEntry> = Vec::new();
        let mut i: usize = 0;
        while i < n
            invariant
                i <= n == self.block_lists@.len(),
                r@ == self.block_lists@.take(i as int),
            decreases n - i,
        {
            let e = self.block_lists[i].duplicate();
            r.push(e);
            i = i + 1;
            assert(r@ =~= self.block_lists@.take(i as int));
        }
        proof {
            assert(r@ =~= self.block_lists@);
        }
        r
    }
}

/// The counters the statistics endpoint reports.
#[derive(Debug)]
pub struct SystemStats {
    pub host_entries: usize,
    pub backups: usize,
    pub allow_lists: usize,
    pub block_lists: usize,
}

/// Assembles the statistics: the hosts-file record count (zero when the
/// file cannot be read) and the size of each catalog.
pub fn get_stats(fs: &HostsFs, catalogs: &Catalogs, now: u64) -> (r: SystemStats)
    ensures
        read_error(*fs) is None ==> r.host_entries as int == active_entries(*fs).len(),
        read_error(*fs) is Some ==> r.host_entries == 0,
        r.backups == catalogs.backups@.len(),
        r.allow_lists == catalogs.allow_lists@.len(),
        r.block_lists == catalogs.block_lists@.len(),
{
    let host_entries = match get_hosts_file_count(fs, now) {
        Ok(c) => c,
        Err(_) => 0,
    };
    SystemStats {
        host_entries,
        backups: catalogs.backups.len(),
        allow_lists: catalogs.allow_lists.len(),
        block_lists: catalogs.block_lists.len(),
    }
}

/// Relies on uuid's `Uuid::new_v4` and its `Display` form: a random
/// version-4 identifier rendered as the 36-character hyphenated form.
#[verifier::external_body]
pub fn generate_id() -> (r: String)
    ensures
        r@.len() == 36,
{
    uuid::Uuid::new_v4().to_string()
}

} // verus!
