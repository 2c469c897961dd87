//! The sorting report: an accumulator that groups moved file names under a
//! composite key and keeps a running total, with the invariant that the total
//! equals the sum of all per-key list lengths.

use vstd::prelude::*;
use crate::text::str_eq;

verus! {

/// One group of the report: the composite key and the file names recorded
/// under it, in the order they were recorded.
pub struct ReportEntry {
    pub key: String,
    pub files: Vec<String>,
}

/// The character sequences of a list of strings.
pub open spec fn files_view(files: Seq<String>) -> Seq<Seq<char>> {
    files.map_values(|s: String| s@)
}

/// Sum of the group sizes.
pub open spec fn sum_files(s: Seq<ReportEntry>) -> nat
    decreases s.len(),
{
    if s.len() == 0 {
        0
    } else {
        sum_files(s.drop_last()) + s.last().files@.len()
    }
}

proof fn lemma_sum_files_push(s: Seq<ReportEntry>, e: ReportEntry)
    ensures
        sum_files(s.push(e)) == sum_files(s) + e.files@.len(),
{
    assert(s.push(e).drop_last() =~= s);
    assert(s.push(e).last() == e);
}

proof fn lemma_sum_files_update(s: Seq<ReportEntry>, i: int, e: ReportEntry)
    requires
        0 <= i < s.len(),
    ensures
        sum_files(s.update(i, e)) + s[i].files@.len() == sum_files(s) + e.files@.len(),
    decreases s.len(),
{
    if i == s.len() - 1 {
        assert(s.update(i, e).drop_last() =~= s.drop_last());
        assert(s.update(i, e).last() == e);
    } else {
        assert(s.update(i, e).drop_last() =~= s.drop_last().update(i, e));
        assert(s.update(i, e).last() == s.last());
        lemma_sum_files_update(s.drop_last(), i, e);
    }
}

proof fn lemma_files_view_push(files: Seq<String>, f: String)
    ensures
        files_view(files.push(f)) == files_view(files).push(f@),
{
    assert(files_view(files.push(f)) =~= files_view(files).push(f@));
}

/// A mapping from composite keys to the ordered list of file names recorded
/// under each, held as a vector of groups with pairwise distinct keys.
pub struct ReportMap {
    pub entries: Vec<ReportEntry>,
}

impl ReportMap {
    /// The keys, in insertion order.
    pub open spec fn keys(&self) -> Seq<Seq<char>> {
        self.entries@.map_values(|e: ReportEntry| e.key@)
    }

    /// Keys are pairwise distinct.
    pub open spec fn wf(&self) -> bool {
        forall|i: int, j: int|
            0 <= i < j < self.entries@.len() ==> self.entries@[i].key@ != self.entries@[j].key@
    }

    /// Some group carries this key.
    pub open spec fn spec_contains_key(&self, k: Seq<char>) -> bool {
        exists|i: int| 0 <= i < self.entries@.len() && self.entries@[i].key@ == k
    }

    /// The file names recorded under a key that some group carries.
    pub open spec fn spec_files_of(&self, k: Seq<char>) -> Seq<Seq<char>> {
        let i = choose|i: int| 0 <= i < self.entries@.len() && self.entries@[i].key@ == k;
        files_view(self.entries@[i].files@)
    }

    /// Sum of all per-key list lengths.
    pub open spec fn total_len(&self) -> nat {
        sum_files(self.entries@)
    }

    /// With distinct keys, the group at `i` is the one its key selects.
    proof fn lemma_files_of_at(&self, i: int)
        requires
            self.wf(),
            0 <= i < self.entries@.len(),
        ensures
            self.spec_contains_key(self.entries@[i].key@),
            self.spec_files_of(self.entries@[i].key@) == files_view(self.entries@[i].files@),
    {
        let k = self.entries@[i].key@;
        let w = choose|w: int| 0 <= w < self.entries@.len() && self.entries@[w].key@ == k;
        assert(w == i);
    }

    pub fn new() -> (r: ReportMap)
        ensures
            r.wf(),
            r.entries@.len() == 0,
            r.total_len() == 0,
            forall|k: Seq<char>| !r.spec_contains_key(k),
    {
        ReportMap { entries: Vec::new() }
    }

    /// Whether a group with this key exists.
    pub fn contains_key(&self, key: &str) -> (r: bool)
        ensures
            r == self.spec_contains_key(key@),
    {
        let n = self.entries.len();
        let mut i: usize = 0;
        while i < n
            invariant
                n == self.entries@.len(),
                i <= n,
                forall|j: int| 0 <= j < i ==> self.entries@[j].key@ != key@,
            decreases n - i,
        {
            if str_eq(self.entries[i].key.as_str(), key) {
                return true;
            }
            i += 1;
        }
        false
    }

    /// The list of file names under a key, if any group carries it.
    pub fn get(&self, key: &str) -> (r: Option<&Vec<String>>)
        requires
            self.wf(),
        ensures
            match r {
                Some(v) => self.spec_contains_key(key@)
                    && files_view(v@) == self.spec_files_of(key@),
                None => !self.spec_contains_key(key@),
            },
    {
        let n = self.entries.len();
        let mut i: usize = 0;
        while i < n
            invariant
                n == self.entries@.len(),
                i <= n,
                self.wf(),
                forall|j: int| 0 <= j < i ==> self.entries@[j].key@ != key@,
            decreases n - i,
        {
            if str_eq(self.entries[i].key.as_str(), key) {
                proof {
                    self.lemma_files_of_at(i as int);
                }
                return Some(&self.entries[i].files);
            }
            i += 1;
        }
        None
    }

    /// Number of groups.
    pub fn num_groups(&self) -> (n: usize)
        ensures
            n == self.entries@.len(),
    {
        self.entries.len()
    }

    /// The group at a position, for walking the report.
    pub fn group_at(&self, i: usize) -> (e: &ReportEntry)
        requires
            i < self.entries@.len(),
        ensures
            *e == self.entries@[i as int],
    {
        &self.entries[i]
    }

    /// Append a file name to the group with this key, creating the group if
    /// no group carries it yet.
    pub fn add(&mut self, key: String, filename: String)
        requires
            old(self).wf(),
        ensures
            final(self).wf(),
            final(self).spec_contains_key(key@),
            final(self).spec_files_of(key@) == (if old(self).spec_contains_key(key@) {
                old(self).spec_files_of(key@).push(filename@)
            } else {
                seq![filename@]
            }),
            forall|k: Seq<char>|
                k != key@ ==> (#[trigger] final(self).spec_contains_key(k)
                    <==> old(self).spec_contains_key(k)),
            forall|k: Seq<char>|
                k != key@ && old(self).spec_contains_key(k)
                    ==> #[trigger] final(self).spec_files_of(k) == old(self).spec_files_of(k),
            final(self).total_len() == old(self).total_len() + 1,
            final(self).keys() == (if old(self).spec_contains_key(key@) {
                old(self).keys()
            } else {
                old(self).keys().push(key@)
            }),
    {
        let n = self.entries.len();
        let mut i: usize = 0;
        while i < n
            invariant
                *self == *old(self),
                old(self).wf(),
                n == self.entries@.len(),
                i <= n,
                forall|j: int| 0 <= j < i ==> self.entries@[j].key@ != key@,
            decreases n - i,
        {
            if str_eq(self.entries[i].key.as_str(), key.as_str()) {
                let ghost old_entries = self.entries@;
                let ghost old_files = self.entries@[i as int].files@;
                self.entries[i].files.push(filename);
                proof {
                    let ii = i as int;
                    let e = self.entries@[ii];
                    assert(e.key@ == key@);
                    assert(e.files@ == old_files.push(filename));
                    assert(self.entries@ =~= old_entries.update(ii, e));
                    lemma_sum_files_update(old_entries, ii, e);
                    lemma_files_view_push(old_files, filename);
                    assert(self.keys() =~= old(self).keys());
                    // the key selects exactly the group at ii, before and after
                    assert forall|w: int|
                        0 <= w < self.entries@.len() && self.entries@[w].key@
                            == key@ implies w == ii by {
                        if w != ii {
                            assert(old_entries[w].key@ == key@);
                            assert(old_entries[ii].key@ == key@);
                            if w < ii {
                                assert(old_entries[w].key@ != old_entries[ii].key@);
                            } else {
                                assert(old_entries[ii].key@ != old_entries[w].key@);
                            }
                        }
                    }
                    assert(self.wf());
                    old(self).lemma_files_of_at(ii);
                    self.lemma_files_of_at(ii);
                    assert forall|k: Seq<char>|
                        k != key@ implies (#[trigger] final(self).spec_contains_key(k)
                        <==> old(self).spec_contains_key(k)) by {
                        if old(self).spec_contains_key(k) {
                            let w = choose|w: int|
                                0 <= w < old_entries.len() && old_entries[w].key@ == k;
                            assert(self.entries@[w].key@ == k);
                        }
                        if self.spec_contains_key(k) {
                            let w = choose|w: int|
                                0 <= w < self.entries@.len() && self.entries@[w].key@ == k;
                            assert(old_entries[w].key@ == k);
                        }
                    }
                    assert forall|k: Seq<char>|
                        k != key@ && old(self).spec_contains_key(k)
                        implies #[trigger] final(self).spec_files_of(k) == old(self).spec_files_of(
                        k) by {
                        let w = choose|w: int|
                            0 <= w < old_entries.len() && old_entries[w].key@ == k;
                        old(self).lemma_files_of_at(w);
                        self.lemma_files_of_at(w);
                    }
                }
                return ;
            }
            i += 1;
        }
        let ghost old_entries = self.entries@;
        let mut files: Vec<String> = Vec::new();
        files.push(filename);
        let entry = ReportEntry { key, files };
        self.entries.push(entry);
        proof {
            let n_ = old_entries.len() as int;
            lemma_sum_files_push(old_entries, entry);
            assert(self.keys() =~= old(self).keys().push(entry.key@));
            assert(forall|w: int|
                0 <= w < self.entries@.len() && self.entries@[w].key@ == entry.key@ ==> w == n_);
            self.lemma_files_of_at(n_);
            assert(files_view(entry.files@) =~= seq![filename@]);
            assert forall|k: Seq<char>|
                k != entry.key@ implies (#[trigger] final(self).spec_contains_key(k)
                <==> old(self).spec_contains_key(k)) by {
                if old(self).spec_contains_key(k) {
                    let w = choose|w: int| 0 <= w < old_entries.len() && old_entries[w].key@ == k;
                    assert(self.entries@[w].key@ == k);
                }
                if self.spec_contains_key(k) {
                    let w = choose|w: int|
                        0 <= w < self.entries@.len() && self.entries@[w].key@ == k;
                    assert(w != n_);
                    assert(old_entries[w].key@ == k);
                }
            }
            assert forall|k: Seq<char>|
                k != entry.key@ && old(self).spec_contains_key(k)
                implies #[trigger] final(self).spec_files_of(k) == old(self).spec_files_of(k) by {
                let w = choose|w: int| 0 <= w < old_entries.len() && old_entries[w].key@ == k;
                old(self).lemma_files_of_at(w);
                self.lemma_files_of_at(w);
            }
        }
    }
}

/// The decimal digit characters.
pub open spec fn digit_char(d: nat) -> char {
    if d == 0 {
        '0'
    } else if d == 1 {
        '1'
    } else if d == 2 {
        '2'
    } else if d == 3 {
        '3'
    } else if d == 4 {
        '4'
    } else if d == 5 {
        '5'
    } else if d == 6 {
        '6'
    } else if d == 7 {
        '7'
    } else if d == 8 {
        '8'
    } else {
        '9'
    }
}

/// The decimal rendering of a number, most significant digit first.
pub open spec fn spec_dec_str(n: nat) -> Seq<char>
    decreases n,
{
    if n < 10 {
        seq![digit_char(n)]
    } else {
        spec_dec_str(n / 10).push(digit_char(n % 10))
    }
}

/// One decimal digit as a string slice.
fn digit_str(d: usize) -> (r: &'static str)
    requires
        d < 10,
    ensures
        r@ == seq![digit_char(d as nat)],
{
    let r = if d == 0 {
        "0"
    } else if d == 1 {
        "1"
    } else if d == 2 {
        "2"
    } else if d == 3 {
        "3"
    } else if d == 4 {
        "4"
    } else if d == 5 {
        "5"
    } else if d == 6 {
        "6"
    } else if d == 7 {
        "7"
    } else if d == 8 {
        "8"
    } else {
        "9"
    };
    proof {
        reveal_strlit("0");
        reveal_strlit("1");
        reveal_strlit("2");
        reveal_strlit("3");
        reveal_strlit("4");
        reveal_strlit("5");
        reveal_strlit("6");
        reveal_strlit("7");
        reveal_strlit("8");
        reveal_strlit("9");
        assert(r@ =~= seq![digit_char(d as nat)]);
    }
    r
}

/// Append the decimal rendering of a number.
fn push_dec(n: usize, out: &mut String)
    ensures
        final(out)@ == old(out)@ + spec_dec_str(n as nat),
    decreases n,
{
    if n < 10 {
        out.append(digit_str(n));
        assert(out@ =~= old(out)@ + spec_dec_str(n as nat));
    } else {
        assert(n / 10 < n);
        push_dec(n / 10, out);
        out.append(digit_str(n % 10));
        assert(out@ =~= old(out)@ + spec_dec_str(n as nat));
    }
}

/// The composite key under which a file with this extension and destination
/// folder is recorded: `<extension> -> <folder>`.
pub open spec fn report_key(extension: Seq<char>, folder: Seq<char>) -> Seq<char> {
    extension + " -> "@ + folder
}

/// Report of a sorting run: the moved file names grouped by composite key,
/// and the total number of files moved.
pub struct SortingReport {
    pub files_moved: ReportMap,
    pub total_files: usize,
}

impl SortingReport {
    /// Keys are pairwise distinct and the total equals the sum of all
    /// per-key list lengths.
    pub open spec fn wf(&self) -> bool {
        &&& self.files_moved.wf()
        &&& self.total_files == self.files_moved.total_len()
    }

    pub fn new() -> (r: SortingReport)
        ensures
            r.wf(),
            r.total_files == 0,
            r.files_moved.entries@.len() == 0,
            forall|k: Seq<char>| !r.files_moved.spec_contains_key(k),
    {
        SortingReport { files_moved: ReportMap::new(), total_files: 0 }
    }

    /// Record one moved file under the key built from its extension and
    /// destination folder, and count it.
    pub fn add_file_moved(&mut self, extension: String, folder: String, filename: String)
        requires
            old(self).wf(),
            old(self).total_files < usize::MAX,
        ensures
            final(self).wf(),
            final(self).total_files == old(self).total_files + 1,
            final(self).files_moved.spec_contains_key(report_key(extension@, folder@)),
            final(self).files_moved.spec_files_of(report_key(extension@, folder@))
                == (if old(self).files_moved.spec_contains_key(report_key(extension@, folder@)) {
                old(self).files_moved.spec_files_of(report_key(extension@, folder@)).push(
                    filename@,
                )
            } else {
                seq![filename@]
            }),
            forall|k: Seq<char>|
                k != report_key(extension@, folder@)
                    ==> (#[trigger] final(self).files_moved.spec_contains_key(k)
                    <==> old(self).files_moved.spec_contains_key(k)),
            forall|k: Seq<char>|
                k != report_key(extension@, folder@) && old(self).files_moved.spec_contains_key(k)
                    ==> #[trigger] final(self).files_moved.spec_files_of(k)
                    == old(self).files_moved.spec_files_of(k),
    {
        let mut key = extension;
        key.append(" -> ");
        key.append(folder.as_str());
        self.files_moved.add(key, filename);
        self.total_files = self.total_files + 1;
    }

    /// Produce the human-readable summary: the total count, then for each
    /// key its file count and enumerated file names.
    pub fn summary(&self) -> (r: String)
        ensures
            r@ == spec_summary(*self),
    {
        let mut out = String::from_str("\n=== File Sorting Summary ===\nTotal files moved: ");
        push_dec(self.total_files, &mut out);
        out.append("\n\n");
        let ghost header = out@;
        let n = self.files_moved.num_groups();
        let mut i: usize = 0;
        while i < n
            invariant
                n == self.files_moved.entries@.len(),
                i <= n,
                out@ == header + spec_groups_text(self.files_moved.entries@.subrange(0, i as int)),
            decreases n - i,
        {
            let ghost at_group = out@;
            let group = self.files_moved.group_at(i);
            out.append(group.key.as_str());
            out.append(": ");
            push_dec(group.files.len(), &mut out);
            out.append(" files\n");
            let ghost at_lines = out@;
            let m = group.files.len();
            let mut j: usize = 0;
            while j < m
                invariant
                    m == group.files@.len(),
                    j <= m,
                    out@ == at_lines + spec_file_lines(
                        files_view(group.files@).subrange(0, j as int),
                    ),
                decreases m - j,
            {
                out.append("  - ");
                out.append(group.files[j].as_str());
                out.append("\n");
                proof {
                    let fv = files_view(group.files@);
                    assert(fv.subrange(0, j + 1).drop_last() =~= fv.subrange(0, j as int));
                    assert(fv.subrange(0, j + 1).last() == group.files@[j as int]@);
                    assert(out@ =~= at_lines + spec_file_lines(fv.subrange(0, j + 1)));
                }
                j += 1;
            }
            out.append("\n");
            proof {
                let entries = self.files_moved.entries@;
                let fv = files_view(group.files@);
                assert(fv.subrange(0, fv.len() as int) =~= fv);
                assert(entries.subrange(0, i + 1).drop_last() =~= entries.subrange(0, i as int));
                assert(entries.subrange(0, i + 1).last() == entries[i as int]);
                assert(out@ =~= header + spec_groups_text(entries.subrange(0, i + 1)));
            }
            i += 1;
        }
        proof {
            let entries = self.files_moved.entries@;
            assert(entries.subrange(0, entries.len() as int) =~= entries);
        }
        out
    }
}

/// The lines enumerating the file names of one group.
pub open spec fn spec_file_lines(files: Seq<Seq<char>>) -> Seq<char>
    decreases files.len(),
{
    if files.len() == 0 {
        Seq::empty()
    } else {
        spec_file_lines(files.drop_last()) + "  - "@ + files.last() + "\n"@
    }
}

/// The summary text of one group: its key, its file count, and its lines.
pub open spec fn spec_group_text(e: ReportEntry) -> Seq<char> {
    e.key@ + ": "@ + spec_dec_str(e.files@.len()) + " files\n"@ + spec_file_lines(
        files_view(e.files@),
    ) + "\n"@
}

/// The summary texts of all groups, in order.
pub open spec fn spec_groups_text(s: Seq<ReportEntry>) -> Seq<char>
    decreases s.len(),
{
    if s.len() == 0 {
        Seq::empty()
    } else {
        spec_groups_text(s.drop_last()) + spec_group_text(s.last())
    }
}

/// The whole summary text of a report.
pub open spec fn spec_summary(r: SortingReport) -> Seq<char> {
    "\n=== File Sorting Summary ===\nTotal files moved: "@ + spec_dec_str(r.total_files as nat)
        + "\n\n"@ + spec_groups_text(r.files_moved.entries@)
}

} // verus!
