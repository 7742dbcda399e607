//! The backup-file listing: of the files found in the backup directory,
//! keep those with the backup extension and order them newest first.

use vstd::prelude::*;

use vstd::multiset::Multiset;

verus! {

/// One backup file as the desktop commands report it.
#[derive(Debug)]
pub struct BackupFile {
    pub filename: String,
    pub backup_date: String,
    pub file_path: String,
}

/// One directory entry offered to the listing: its names, its formatted
/// date, and its size and creation instant as the filesystem reports them.
#[derive(Debug)]
pub struct BackupListing {
    pub filename: String,
    pub file_path: String,
    pub backup_date: String,
    pub file_size: u64,
    pub created_timestamp: u64,
}

impl BackupListing {
    /// An equal copy.
    pub fn duplicate(&self) -> (r: Self)
        ensures
            r == *self,
    {
        BackupListing {
            filename: self.filename.clone(),
            file_path: self.file_path.clone(),
            backup_date: self.backup_date.clone(),
            file_size: self.file_size,
            created_timestamp: self.created_timestamp,
        }
    }
}

/// Whether `s` ends with `suffix`.
pub open spec fn ends_with(s: Seq<char>, suffix: Seq<char>) -> bool {
    s.len() >= suffix.len() && s.subrange(s.len() - suffix.len(), s.len() as int) == suffix
}

/// A backup file carries the `.backup` extension.
pub open spec fn is_backup_name(s: Seq<char>) -> bool {
    ends_with(s, ".backup"@)
}

/// Decides whether a filename carries the `.backup` extension.
pub fn has_backup_suffix(name: &str) -> (r: bool)
    ensures
        r == is_backup_name(name@),
{
    proof {
        reveal_strlit(".backup");
    }
    let n = name.unicode_len();
    if n < 7 {
        return false;
    }
    let r = name.get_char(n - 7) == '.' && name.get_char(n - 6) == 'b' && name.get_char(n - 5)
        == 'a' && name.get_char(n - 4) == 'c' && name.get_char(n - 3) == 'k' && name.get_char(
        n - 2,
    ) == 'u' && name.get_char(n - 1) == 'p';
    proof {
        let s = name@;
        let tail = s.subrange(s.len() - 7, s.len() as int);
        assert(tail[0] == s[s.len() - 7]);
        assert(tail[1] == s[s.len() - 6]);
        assert(tail[2] == s[s.len() - 5]);
        assert(tail[3] == s[s.len() - 4]);
        assert(tail[4] == s[s.len() - 3]);
        assert(tail[5] == s[s.len() - 2]);
        assert(tail[6] == s[s.len() - 1]);
        if r {
            assert(tail =~= ".backup"@);
        }
    }
    r
}

/// Newest first by creation instant.
pub open spec fn sorted_newest_first(s: Seq<BackupListing>) -> bool {
    forall|i: int, j: int|
        0 <= i < j < s.len() ==> (#[trigger] s[i]).created_timestamp >= (
        #[trigger] s[j]).created_timestamp
}

/// Keeps the entries with the backup extension and orders them newest
/// first: the result is a permutation of exactly those entries.
pub fn get_backup_files(candidates: &Vec<BackupListing>) -> (r: Vec<BackupListing>)
    ensures
        sorted_newest_first(r@),
        r@.to_multiset() == candidates@.filter(
            |b: BackupListing| is_backup_name(b.filename@),
        ).to_multiset(),
        forall|i: int| 0 <= i < r@.len() ==> is_backup_name((#[trigger] r@[i]).filename@),
{
    broadcast use vstd::seq_lib::group_to_multiset_ensures;

    let ghost pred = |b: BackupListing| is_backup_name(b.filename@);
    let n = candidates.len();
    let mut rest: Vec<BackupListing> = Vec::new();
    let mut i: usize = 0;
    proof {
        reveal(Seq::filter);
    }
    while i < n
        invariant
            i <= n == candidates@.len(),
            rest@ == candidates@.take(i as int).filter(pred),
            pred == (|b: BackupListing| is_backup_name(b.filename@)),
        decreases n - i,
    {
        proof {
            reveal(Seq::filter);
            assert(candidates@.take(i + 1).drop_last() =~= candidates@.take(i as int));
            assert(candidates@.take(i + 1).last() == candidates@[i as int]);
        }
        if has_backup_suffix(candidates[i].filename.as_str()) {
            let e = candidates[i].duplicate();
            rest.push(e);
        }
        i = i + 1;
    }
    proof {
        assert(candidates@.take(n as int) =~= candidates@);
    }
    let ghost chosen = rest@;
    // selection sort, newest first
    let mut out: Vec<BackupListing> = Vec::new();
    while rest.len() > 0
        invariant
            out@.to_multiset().add(rest@.to_multiset()) == chosen.to_multiset(),
            sorted_newest_first(out@),
            forall|j: int, k: int|
                0 <= j < out@.len() && 0 <= k < rest@.len() ==> (
                #[trigger] out@[j]).created_timestamp >= (#[trigger] rest@[k]).created_timestamp,
            forall|j: int| 0 <= j < out@.len() ==> is_backup_name((#[trigger] out@[j]).filename@),
            forall|k: int| 0 <= k < rest@.len() ==> is_backup_name((#[trigger] rest@[k]).filename@),
        decreases rest@.len(),
    {
        let m = rest.len();
        let mut best: usize = 0;
        let mut k: usize = 1;
        while k < m
            invariant
                best < k <= m == rest@.len(),
                forall|j: int|
                    0 <= j < k ==> rest@[best as int].created_timestamp >= (
                    #[trigger] rest@[j]).created_timestamp,
            decreases m - k,
        {
            if rest[k].created_timestamp > rest[best].created_timestamp {
                best = k;
            }
            k = k + 1;
        }
        let ghost pre_rest = rest@;
        let ghost pre_out = out@;
        let x = rest.remove(best);
        out.push(x);
        proof {
            pre_out.to_multiset_ensures();
            pre_rest.to_multiset_ensures();
            assert(x == pre_rest[best as int]);
            assert(out@ == pre_out.push(x));
            assert(pre_out.push(x).to_multiset() =~= pre_out.to_multiset().insert(x));
            assert(rest@ == pre_rest.remove(best as int));
            assert(pre_rest.remove(best as int).to_multiset() =~= pre_rest.to_multiset().remove(
                pre_rest[best as int],
            ));
            assert(pre_rest.to_multiset().count(x) > 0) by {
                assert(pre_rest.contains(x));
            }
            assert(out@.to_multiset().add(rest@.to_multiset()) =~= chosen.to_multiset());
            assert forall|j: int, kk: int|
                0 <= j < out@.len() && 0 <= kk < rest@.len() implies (
            #[trigger] out@[j]).created_timestamp >= (#[trigger] rest@[kk]).created_timestamp by {
                if j < pre_out.len() {
                    assert(out@[j] == pre_out[j]);
                }
                if kk < best {
                    assert(rest@[kk] == pre_rest[kk]);
                } else {
                    assert(rest@[kk] == pre_rest[kk + 1]);
                }
            }
        }
    }
    proof {
        assert(rest@.to_multiset() =~= Multiset::<BackupListing>::empty());
        assert(out@.to_multiset() =~= chosen.to_multiset());
    }
    out
}

/// The name of a timestamped backup file.
pub open spec fn backup_filename_s(timestamp: Seq<char>) -> Seq<char> {
    "hosts_"@ + timestamp + ".backup"@
}

/// Builds the name of a timestamped backup file.
pub fn backup_filename(timestamp: &str) -> (r: String)
    ensures
        r@ == backup_filename_s(timestamp@),
{
    let mut r = String::from_str("hosts_");
    r.append(timestamp);
    r.append(".backup");
    r
}

} // verus!
