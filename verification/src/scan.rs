//! Accumulation of a one-level directory scan: among the immediate entries of
//! the target directory, regular files are counted and their sizes summed;
//! every other kind of entry (directory, symlink, device, FIFO, socket) is
//! skipped.

use vstd::prelude::*;

verus! {

/// What the scan reads of one directory entry: whether its metadata calls it
/// a regular file, and its reported length in bytes.
#[derive(Clone, Copy, PartialEq, Eq, Structural, Debug)]
pub struct EntryMeta {
    pub is_file: bool,
    pub size: u64,
}

/// Outcome of a scan: how many regular files were seen and how many bytes
/// they hold in aggregate.
#[derive(Clone, Copy, PartialEq, Eq, Structural, Debug)]
pub struct ScanResult {
    pub file_count: u64,
    pub total_bytes: u64,
}

/// How many of the entries are regular files.
pub open spec fn spec_file_count(entries: Seq<EntryMeta>) -> int
    decreases entries.len(),
{
    if entries.len() == 0 {
        0
    } else {
        spec_file_count(entries.drop_last()) + if entries.last().is_file {
            1int
        } else {
            0int
        }
    }
}

/// The byte sum over the entries that are regular files.
pub open spec fn spec_total_bytes(entries: Seq<EntryMeta>) -> int
    decreases entries.len(),
{
    if entries.len() == 0 {
        0
    } else {
        spec_total_bytes(entries.drop_last()) + if entries.last().is_file {
            entries.last().size as int
        } else {
            0int
        }
    }
}

proof fn lemma_counts_nonneg(entries: Seq<EntryMeta>)
    ensures
        0 <= spec_file_count(entries) <= entries.len(),
        0 <= spec_total_bytes(entries),
    decreases entries.len(),
{
    if entries.len() > 0 {
        lemma_counts_nonneg(entries.drop_last());
    }
}

/// Folds the metadata of a directory's immediate entries into the file count
/// and the aggregate size. Sizes are accumulated in a 64-bit unsigned
/// integer, so the caller owes a sum that fits in it.
pub fn scan_entries(entries: &Vec<EntryMeta>) -> (r: ScanResult)
    requires
        spec_total_bytes(entries@) <= u64::MAX,
    ensures
        r.file_count == spec_file_count(entries@),
        r.total_bytes == spec_total_bytes(entries@),
{
    let mut file_count: u64 = 0;
    let mut total_bytes: u64 = 0;
    let mut i: usize = 0;
    while i < entries.len()
        invariant
            i <= entries.len(),
            spec_total_bytes(entries@) <= u64::MAX,
            file_count == spec_file_count(entries@.take(i as int)),
            total_bytes == spec_total_bytes(entries@.take(i as int)),
        decreases entries.len() - i,
    {
        proof {
            assert(entries@.take(i + 1).drop_last() =~= entries@.take(i as int));
            assert(entries@.take(i + 1).last() == entries@[i as int]);
            lemma_counts_nonneg(entries@.take(i as int));
            lemma_scan_prefix_le(entries@, i + 1);
        }
        let e = entries[i];
        if e.is_file {
            file_count = file_count + 1;
            total_bytes = total_bytes + e.size;
        }
        i = i + 1;
    }
    proof {
        assert(entries@.take(entries@.len() as int) =~= entries@);
    }
    ScanResult { file_count, total_bytes }
}

/// When none of the entries is a regular file, the scan counts nothing and
/// sums nothing.
pub proof fn lemma_no_regular_files_scans_empty(entries: Seq<EntryMeta>)
    requires
        forall|i: int| 0 <= i < entries.len() ==> !(#[trigger] entries[i]).is_file,
    ensures
        spec_file_count(entries) == 0,
        spec_total_bytes(entries) == 0,
    decreases entries.len(),
{
    if entries.len() > 0 {
        assert(forall|i: int|
            0 <= i < entries.drop_last().len() ==> !(#[trigger] entries.drop_last()[i]).is_file);
        lemma_no_regular_files_scans_empty(entries.drop_last());
    }
}

/// An entry that is not a regular file — a subdirectory, a symlink, a
/// device node — contributes nothing: inserting one anywhere leaves both
/// the file count and the byte total unchanged.
pub proof fn lemma_non_file_contributes_nothing(entries: Seq<EntryMeta>, i: int, e: EntryMeta)
    requires
        0 <= i <= entries.len(),
        !e.is_file,
    ensures
        spec_file_count(entries.insert(i, e)) == spec_file_count(entries),
        spec_total_bytes(entries.insert(i, e)) == spec_total_bytes(entries),
    decreases entries.len(),
{
    let grown = entries.insert(i, e);
    if i == entries.len() {
        assert(grown.drop_last() =~= entries);
        assert(grown.last() == e);
    } else {
        assert(grown.last() == entries.last());
        assert(grown.drop_last() =~= entries.drop_last().insert(i, e));
        lemma_non_file_contributes_nothing(entries.drop_last(), i, e);
    }
}

/// A prefix of the entries never counts more files or more bytes than the
/// whole sequence.
proof fn lemma_scan_prefix_le(entries: Seq<EntryMeta>, n: int)
    requires
        0 <= n <= entries.len(),
    ensures
        spec_file_count(entries.take(n)) <= spec_file_count(entries),
        spec_total_bytes(entries.take(n)) <= spec_total_bytes(entries),
    decreases entries.len() - n,
{
    if n < entries.len() {
        lemma_scan_prefix_le(entries, n + 1);
        assert(entries.take(n + 1).drop_last() =~= entries.take(n));
        lemma_counts_nonneg(entries.take(n));
    } else {
        assert(entries.take(n) =~= entries);
    }
}

} // verus!
