//! The sorter proper: extension and stem splitting of a file name, the HTML
//! category heuristics, and the placement of every file of a source
//! directory into its destination subfolder.

use vstd::prelude::*;
use crate::text::{
    lowered, lowercase, spec_contains, spec_starts_with, str_contains, str_eq, str_starts_with,
};
use crate::report::{report_key, SortingReport};

verus! {

/// Category of an HTML file, decided by filename and content heuristics.
#[derive(Debug, Clone, Copy, PartialEq, Eq, Structural)]
pub enum HtmlCategory {
    Index,
    Template,
    Component,
    Page,
    Unknown,
}

impl HtmlCategory {
    /// The folder name each category maps to.
    pub open spec fn spec_folder_name(&self) -> Seq<char> {
        match self {
            HtmlCategory::Index => "index"@,
            HtmlCategory::Template => "templates"@,
            HtmlCategory::Component => "components"@,
            HtmlCategory::Page => "pages"@,
            HtmlCategory::Unknown => "other"@,
        }
    }

    /// Get the folder name for this category.
    pub fn folder_name(&self) -> (r: &'static str)
        ensures
            r@ == self.spec_folder_name(),
    {
        match self {
            HtmlCategory::Index => "index",
            HtmlCategory::Template => "templates",
            HtmlCategory::Component => "components",
            HtmlCategory::Page => "pages",
            HtmlCategory::Unknown => "other",
        }
    }
}

/// Index of the last `.` in the name, or `-1` if there is none.
pub open spec fn last_dot(s: Seq<char>) -> int
    decreases s.len(),
{
    if s.len() == 0 {
        -1
    } else if s[s.len() - 1] == '.' {
        s.len() - 1
    } else {
        last_dot(s.drop_last())
    }
}

/// `last_dot` finds the rightmost dot: no dot lies to its right, and a
/// result of `-1` means the name holds no dot at all.
pub proof fn lemma_last_dot(s: Seq<char>)
    ensures
        last_dot(s) == -1 ==> forall|j: int| 0 <= j < s.len() ==> s[j] != '.',
        last_dot(s) >= 0 ==> 0 <= last_dot(s) < s.len() && s[last_dot(s)] == '.' && forall|j: int|
            last_dot(s) < j < s.len() ==> s[j] != '.',
    decreases s.len(),
{
    if s.len() > 0 && s[s.len() - 1] != '.' {
        lemma_last_dot(s.drop_last());
        assert(forall|j: int| 0 <= j < s.len() - 1 ==> s.drop_last()[j] == s[j]);
    }
}

/// A position with a dot and none to its right is the one `last_dot` finds.
pub proof fn lemma_last_dot_unique(s: Seq<char>, d: int)
    requires
        0 <= d < s.len(),
        s[d] == '.',
        forall|j: int| d < j < s.len() ==> s[j] != '.',
    ensures
        last_dot(s) == d,
    decreases s.len(),
{
    if d < s.len() - 1 {
        assert(s[s.len() - 1] != '.');
        assert(forall|j: int| 0 <= j < s.len() - 1 ==> s.drop_last()[j] == s[j]);
        lemma_last_dot_unique(s.drop_last(), d);
    }
}

/// A name without a dot has no last dot.
pub proof fn lemma_no_dot(s: Seq<char>)
    requires
        forall|j: int| 0 <= j < s.len() ==> s[j] != '.',
    ensures
        last_dot(s) == -1,
    decreases s.len(),
{
    if s.len() > 0 {
        assert(forall|j: int| 0 <= j < s.len() - 1 ==> s.drop_last()[j] == s[j]);
        lemma_no_dot(s.drop_last());
    }
}

/// The name carries an extension: a dot stands after at least one leading
/// character, as in `Path::extension`, so a name such as `.gitignore` has
/// none.
pub open spec fn has_extension(s: Seq<char>) -> bool {
    last_dot(s) >= 1
}

/// The portion of the name after the final dot.
pub open spec fn spec_extension(s: Seq<char>) -> Seq<char> {
    s.subrange(last_dot(s) + 1, s.len() as int)
}

/// The portion of the name before the final dot, or the whole name where no
/// extension exists.
pub open spec fn spec_stem(s: Seq<char>) -> Seq<char> {
    if has_extension(s) {
        s.subrange(0, last_dot(s))
    } else {
        s
    }
}

/// Find the position of the last dot of the name, if any.
fn find_last_dot(name: &str) -> (r: Option<usize>)
    ensures
        match r {
            Some(d) => last_dot(name@) == d as int,
            None => last_dot(name@) == -1,
        },
{
    let n = name.unicode_len();
    let mut i: usize = n;
    while i > 0
        invariant
            n == name@.len(),
            i <= n,
            forall|j: int| i <= j < n ==> name@[j] != '.',
        decreases i,
    {
        i -= 1;
        if name.get_char(i) == '.' {
            proof {
                lemma_last_dot_unique(name@, i as int);
            }
            return Some(i);
        }
    }
    proof {
        lemma_no_dot(name@);
    }
    None
}

/// The extension of a file name, as `Path::extension` derives it.
pub fn file_extension(name: &str) -> (r: Option<&str>)
    ensures
        match r {
            Some(e) => has_extension(name@) && e@ == spec_extension(name@),
            None => !has_extension(name@),
        },
{
    let n = name.unicode_len();
    match find_last_dot(name) {
        Some(d) => {
            if d >= 1 {
                proof {
                    lemma_last_dot(name@);
                }
                Some(name.substring_char(d + 1, n))
            } else {
                None
            }
        },
        None => None,
    }
}

/// The stem of a file name, as `Path::file_stem` derives it.
pub fn file_stem(name: &str) -> (r: &str)
    ensures
        r@ == spec_stem(name@),
{
    let n = name.unicode_len();
    match find_last_dot(name) {
        Some(d) => {
            if d >= 1 {
                proof {
                    lemma_last_dot(name@);
                }
                name.substring_char(0, d)
            } else {
                name
            }
        },
        None => name,
    }
}

/// Category read off the lowercased content alone: template and layout
/// keywords first, then component and widget, then a page when both an
/// `<html` and a `<head` tag occur, else unknown.
pub open spec fn spec_content_category(content_l: Seq<char>) -> HtmlCategory {
    if spec_contains(content_l, "template"@) || spec_contains(content_l, "layout"@) {
        HtmlCategory::Template
    } else if spec_contains(content_l, "component"@) || spec_contains(content_l, "widget"@) {
        HtmlCategory::Component
    } else if spec_contains(content_l, "<html"@) && spec_contains(content_l, "<head"@) {
        HtmlCategory::Page
    } else {
        HtmlCategory::Unknown
    }
}

/// Category of an HTML file from its lowercased stem and content: the
/// filename rules first, the content rules only where none of them applies.
pub open spec fn spec_categorize(stem_l: Seq<char>, content_l: Seq<char>) -> HtmlCategory {
    if stem_l == "index"@ || stem_l == "home"@ || stem_l == "main"@ {
        HtmlCategory::Index
    } else if spec_contains(stem_l, "template"@) || spec_contains(stem_l, "layout"@) {
        HtmlCategory::Template
    } else if spec_contains(stem_l, "component"@) || spec_starts_with(stem_l, "comp_"@) {
        HtmlCategory::Component
    } else {
        spec_content_category(content_l)
    }
}

/// Category of a file given its name and content.
pub open spec fn spec_category_of(name: Seq<char>, content: Seq<char>) -> HtmlCategory {
    spec_categorize(lowered(spec_stem(name)), lowered(content))
}

/// The lowercase extension of a file name, or the sentinel for a name
/// without one.
pub open spec fn spec_extension_key(name: Seq<char>) -> Seq<char> {
    if has_extension(name) {
        lowered(spec_extension(name))
    } else {
        "no_extension"@
    }
}

/// The name carries an `html` or `htm` extension.
pub open spec fn spec_is_html(name: Seq<char>) -> bool {
    spec_extension_key(name) == "html"@ || spec_extension_key(name) == "htm"@
}

/// The destination subfolder of a file: `html/<category-folder>` for HTML
/// files, the lowercase extension (or the sentinel) for every other file.
pub open spec fn spec_folder_of(name: Seq<char>, content: Seq<char>) -> Seq<char> {
    if spec_is_html(name) {
        "html/"@ + spec_category_of(name, content).spec_folder_name()
    } else {
        spec_extension_key(name)
    }
}

/// The report key of a file: its extension and destination folder combined.
pub open spec fn spec_key_of(name: Seq<char>, content: Seq<char>) -> Seq<char> {
    report_key(spec_extension_key(name), spec_folder_of(name, content))
}

/// The lowercase extension of a file name, or the sentinel for none.
pub fn extension_key(file_name: &str) -> (r: String)
    ensures
        r@ == spec_extension_key(file_name@),
{
    match file_extension(file_name) {
        Some(e) => lowercase(e),
        None => String::from_str("no_extension"),
    }
}

/// Whether the file name carries an `html` or `htm` extension.
pub fn is_html_file(file_name: &str) -> (r: bool)
    ensures
        r == spec_is_html(file_name@),
{
    let k = extension_key(file_name);
    let b1 = str_eq(k.as_str(), "html");
    let b2 = str_eq(k.as_str(), "htm");
    b1 || b2
}

/// One file of the source directory as handed to the sorter: its name, and
/// for HTML files its content (empty where unreadable).
pub struct FileEntry {
    pub name: String,
    pub content: String,
}

/// The report key a file is recorded under.
pub open spec fn spec_file_key(e: FileEntry) -> Seq<char> {
    spec_key_of(e.name@, e.content@)
}

/// The file names recorded under one key after sorting the files in order.
pub open spec fn names_for_key(files: Seq<FileEntry>, k: Seq<char>) -> Seq<Seq<char>>
    decreases files.len(),
{
    if files.len() == 0 {
        Seq::empty()
    } else {
        let prefix = names_for_key(files.drop_last(), k);
        if spec_file_key(files.last()) == k {
            prefix.push(files.last().name@)
        } else {
            prefix
        }
    }
}

/// What a finished run's report holds, as a function of the files sorted, in
/// order: the total equals the number of files, and a key is present exactly
/// where some file was recorded under it, with precisely those files' names.
pub open spec fn describes_run(report: SortingReport, files: Seq<FileEntry>) -> bool {
    &&& report.wf()
    &&& report.total_files == files.len()
    &&& forall|k: Seq<char>|
        #[trigger] report.files_moved.spec_contains_key(k) <==> names_for_key(files, k).len() != 0
    &&& forall|k: Seq<char>|
        #[trigger] report.files_moved.spec_contains_key(k)
            ==> report.files_moved.spec_files_of(k) == names_for_key(files, k)
}

/// Where one file goes: its destination subfolder under the target
/// directory, with the extension and name it was recorded under.
pub struct Placement {
    pub file_name: String,
    pub extension: String,
    pub target_folder: String,
}

/// File sorter that organizes files by extension and HTML categories.
pub struct FileSorter {
    pub source_dir: String,
    pub target_dir: String,
}

impl FileSorter {
    /// Create a new file sorter.
    pub fn new(source_dir: String, target_dir: String) -> (r: FileSorter)
        ensures
            r.source_dir == source_dir,
            r.target_dir == target_dir,
    {
        FileSorter { source_dir, target_dir }
    }

    /// Detect HTML category by analyzing file content.
    pub fn detect_html_category_by_content(&self, content: &str) -> (c: HtmlCategory)
        ensures
            c == spec_content_category(lowered(content@)),
    {
        let lc = lowercase(content);
        let l = lc.as_str();
        if str_contains(l, "template") || str_contains(l, "layout") {
            HtmlCategory::Template
        } else if str_contains(l, "component") || str_contains(l, "widget") {
            HtmlCategory::Component
        } else if str_contains(l, "<html") && str_contains(l, "<head") {
            HtmlCategory::Page
        } else {
            HtmlCategory::Unknown
        }
    }

    /// Detect HTML file category based on filename and content.
    pub fn detect_html_category(&self, file_name: &str, content: &str) -> (c: HtmlCategory)
        ensures
            c == spec_category_of(file_name@, content@),
    {
        let stem = file_stem(file_name);
        let sl = lowercase(stem);
        let s = sl.as_str();
        if str_eq(s, "index") || str_eq(s, "home") || str_eq(s, "main") {
            HtmlCategory::Index
        } else if str_contains(s, "template") || str_contains(s, "layout") {
            HtmlCategory::Template
        } else if str_contains(s, "component") || str_starts_with(s, "comp_") {
            HtmlCategory::Component
        } else {
            self.detect_html_category_by_content(content)
        }
    }

    /// Sort a single file: compute its destination subfolder from extension
    /// and category and record it in the report.
    pub fn sort_single_file(&self, file_name: &str, content: &str, report: &mut SortingReport) -> (r:
        Placement)
        requires
            old(report).wf(),
            old(report).total_files < usize::MAX,
        ensures
            final(report).wf(),
            final(report).total_files == old(report).total_files + 1,
            r.file_name@ == file_name@,
            r.extension@ == spec_extension_key(file_name@),
            r.target_folder@ == spec_folder_of(file_name@, content@),
            final(report).files_moved.spec_contains_key(spec_key_of(file_name@, content@)),
            final(report).files_moved.spec_files_of(spec_key_of(file_name@, content@)) == (if old(
                report,
            ).files_moved.spec_contains_key(spec_key_of(file_name@, content@)) {
                old(report).files_moved.spec_files_of(spec_key_of(file_name@, content@)).push(
                    file_name@,
                )
            } else {
                seq![file_name@]
            }),
            forall|k: Seq<char>|
                k != spec_key_of(file_name@, content@)
                    ==> (#[trigger] final(report).files_moved.spec_contains_key(k)
                    <==> old(report).files_moved.spec_contains_key(k)),
            forall|k: Seq<char>|
                k != spec_key_of(file_name@, content@)
                    && old(report).files_moved.spec_contains_key(k)
                    ==> #[trigger] final(report).files_moved.spec_files_of(k)
                    == old(report).files_moved.spec_files_of(k),
    {
        let ext = extension_key(file_name);
        let b1 = str_eq(ext.as_str(), "html");
        let b2 = str_eq(ext.as_str(), "htm");
        let folder: String = if b1 || b2 {
            let cat = self.detect_html_category(file_name, content);
            let mut f = String::from_str("html/");
            f.append(cat.folder_name());
            f
        } else {
            ext.clone()
        };
        report.add_file_moved(ext.clone(), folder.clone(), String::from_str(file_name));
        Placement {
            file_name: String::from_str(file_name),
            extension: ext,
            target_folder: folder,
        }
    }

    /// Sort files by extension and HTML categories: compute every file's
    /// placement and the report of the whole run.
    pub fn sort_files(&self, files: Vec<FileEntry>) -> (r: (SortingReport, Vec<Placement>))
        ensures
            describes_run(r.0, files@),
            r.1@.len() == files@.len(),
            forall|i: int|
                0 <= i < files@.len() ==> {
                    &&& (#[trigger] r.1@[i]).file_name@ == files@[i].name@
                    &&& r.1@[i].extension@ == spec_extension_key(files@[i].name@)
                    &&& r.1@[i].target_folder@ == spec_folder_of(
                        files@[i].name@,
                        files@[i].content@,
                    )
                },
    {
        let mut report = SortingReport::new();
        let mut placements: Vec<Placement> = Vec::new();
        let n = files.len();
        let mut i: usize = 0;
        while i < n
            invariant
                n == files@.len(),
                i <= n,
                report.wf(),
                report.total_files == i,
                placements@.len() == i,
                forall|j: int|
                    0 <= j < i ==> {
                        &&& (#[trigger] placements@[j]).file_name@ == files@[j].name@
                        &&& placements@[j].extension@ == spec_extension_key(files@[j].name@)
                        &&& placements@[j].target_folder@ == spec_folder_of(
                            files@[j].name@,
                            files@[j].content@,
                        )
                    },
                forall|k: Seq<char>|
                    #[trigger] report.files_moved.spec_contains_key(k) <==> names_for_key(
                        files@.subrange(0, i as int),
                        k,
                    ).len() != 0,
                forall|k: Seq<char>|
                    #[trigger] report.files_moved.spec_contains_key(k)
                        ==> report.files_moved.spec_files_of(k) == names_for_key(
                        files@.subrange(0, i as int),
                        k,
                    ),
            decreases n - i,
        {
            let ghost pre = files@.subrange(0, i as int);
            let ghost prior = report;
            let entry = &files[i];
            let p = self.sort_single_file(entry.name.as_str(), entry.content.as_str(), &mut report);
            placements.push(p);
            proof {
                let post = files@.subrange(0, i + 1 as int);
                assert(post.drop_last() =~= pre);
                assert(post.last() == files@[i as int]);
                let ki = spec_file_key(files@[i as int]);
                assert forall|k: Seq<char>|
                    #[trigger] report.files_moved.spec_contains_key(k) <==> names_for_key(
                        post,
                        k,
                    ).len() != 0 by {
                    if k == ki {
                        assert(names_for_key(post, k) == names_for_key(pre, k).push(
                            files@[i as int].name@,
                        ));
                    } else {
                        assert(names_for_key(post, k) == names_for_key(pre, k));
                        assert(report.files_moved.spec_contains_key(k)
                            <==> prior.files_moved.spec_contains_key(k));
                    }
                }
                assert forall|k: Seq<char>|
                    #[trigger] report.files_moved.spec_contains_key(k) implies
                    report.files_moved.spec_files_of(k) == names_for_key(post, k) by {
                    if k == ki {
                        assert(names_for_key(post, k) == names_for_key(pre, k).push(
                            files@[i as int].name@,
                        ));
                        if prior.files_moved.spec_contains_key(ki) {
                            assert(prior.files_moved.spec_files_of(ki) == names_for_key(pre, ki));
                        } else {
                            assert(names_for_key(pre, ki).len() == 0);
                            assert(names_for_key(pre, ki) =~= Seq::<Seq<char>>::empty());
                            assert(seq![files@[i as int].name@] =~= Seq::<Seq<
                                char,
                            >>::empty().push(files@[i as int].name@));
                        }
                    } else {
                        assert(names_for_key(post, k) == names_for_key(pre, k));
                        assert(prior.files_moved.spec_contains_key(k));
                    }
                }
            }
            i += 1;
        }
        proof {
            assert(files@.subrange(0, n as int) =~= files@);
        }
        (report, placements)
    }
}

} // verus!
