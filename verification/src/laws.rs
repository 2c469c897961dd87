//! Statements of what holds of the sorter as a whole: where a file lands
//! from its extension alone, how the fixed file names categorize, and that
//! every sorted file is recorded under its key.

use vstd::prelude::*;
use crate::text::{
    ascii_lower_seq, char_is_ascii, lowered, seq_is_ascii, spec_contains, spec_starts_with,
};
use crate::report::{report_key, SortingReport};
use crate::sorter::{
    describes_run, has_extension, lemma_last_dot_unique, names_for_key, spec_category_of,
    spec_extension, spec_extension_key, spec_file_key, spec_folder_of, spec_is_html, spec_key_of,
    spec_stem, FileEntry, HtmlCategory,
};

verus! {

/// A needle longer than the haystack never occurs in it.
pub proof fn lemma_contains_needs_room(hay: Seq<char>, needle: Seq<char>)
    requires
        needle.len() > hay.len(),
    ensures
        !spec_contains(hay, needle),
{
}

/// An ASCII sequence without uppercase letters is its own lowercase form.
pub proof fn lemma_lowered_fixed(s: Seq<char>)
    requires
        seq_is_ascii(s),
        forall|i: int| 0 <= i < s.len() ==> !('A' <= #[trigger] s[i] <= 'Z'),
    ensures
        lowered(s) == s,
{
    assert forall|i: int| 0 <= i < s.len() implies ascii_lower_seq(s)[i] == s[i] by {
        assert(!('A' <= s[i] <= 'Z'));
    }
    assert(ascii_lower_seq(s) =~= s);
}

/// A file with a known extension, not `html` or `htm`, lands in the folder
/// named by that extension, and its report key is `<E> -> <E>` for that
/// extension `E`, whatever the content.
pub proof fn lemma_known_extension_folder(name: Seq<char>, content: Seq<char>)
    requires
        has_extension(name),
        lowered(spec_extension(name)) != "html"@,
        lowered(spec_extension(name)) != "htm"@,
    ensures
        spec_folder_of(name, content) == lowered(spec_extension(name)),
        spec_key_of(name, content) == report_key(
            lowered(spec_extension(name)),
            lowered(spec_extension(name)),
        ),
{
}

/// A file without an extension lands in the `no_extension` folder, whatever
/// the content.
pub proof fn lemma_no_extension_folder(name: Seq<char>, content: Seq<char>)
    requires
        !has_extension(name),
    ensures
        spec_extension_key(name) == "no_extension"@,
        spec_folder_of(name, content) == "no_extension"@,
{
    reveal_strlit("no_extension");
    reveal_strlit("html");
    reveal_strlit("htm");
    assert("no_extension"@.len() == 12);
    assert("html"@.len() == 4);
    assert("htm"@.len() == 3);
    assert(!spec_is_html(name));
}

/// A file whose stem is exactly `index` categorizes as `Index`, whatever its
/// content.
pub proof fn lemma_index_stem_is_index(name: Seq<char>, content: Seq<char>)
    requires
        spec_stem(name) == "index"@,
    ensures
        spec_category_of(name, content) == HtmlCategory::Index,
{
    reveal_strlit("index");
    assert(seq_is_ascii("index"@)) by {
        assert forall|i: int| 0 <= i < "index"@.len() implies char_is_ascii("index"@[i]) by {
            assert("index"@.len() == 5);
        }
    }
    assert forall|i: int| 0 <= i < "index"@.len() implies !('A' <= #[trigger] "index"@[i]
        <= 'Z') by {
        assert("index"@.len() == 5);
    }
    lemma_lowered_fixed("index"@);
}

/// The file named `index.html` in particular categorizes as `Index`,
/// whatever its content.
pub proof fn lemma_index_html_is_index(content: Seq<char>)
    ensures
        spec_category_of("index.html"@, content) == HtmlCategory::Index,
{
    reveal_strlit("index.html");
    reveal_strlit("index");
    assert("index.html"@[5] == '.');
    assert(forall|j: int| 5 < j < "index.html"@.len() ==> "index.html"@[j] != '.');
    lemma_last_dot_unique("index.html"@, 5);
    assert(spec_stem("index.html"@) =~= "index"@);
    lemma_index_stem_is_index("index.html"@, content);
}

/// A file whose lowercased stem matches none of the filename rules, and
/// whose lowercased content holds `<html` and `<head` but none of the
/// template, layout, component or widget keywords, categorizes as `Page`.
pub proof fn lemma_page_by_content(name: Seq<char>, content: Seq<char>)
    requires
        lowered(spec_stem(name)) != "index"@,
        lowered(spec_stem(name)) != "home"@,
        lowered(spec_stem(name)) != "main"@,
        !spec_contains(lowered(spec_stem(name)), "template"@),
        !spec_contains(lowered(spec_stem(name)), "layout"@),
        !spec_contains(lowered(spec_stem(name)), "component"@),
        !spec_starts_with(lowered(spec_stem(name)), "comp_"@),
        !spec_contains(lowered(content), "template"@),
        !spec_contains(lowered(content), "layout"@),
        !spec_contains(lowered(content), "component"@),
        !spec_contains(lowered(content), "widget"@),
        spec_contains(lowered(content), "<html"@),
        spec_contains(lowered(content), "<head"@),
    ensures
        spec_category_of(name, content) == HtmlCategory::Page,
{
}

/// The file named `foo.html` in particular categorizes as `Page` when its
/// lowercased content holds `<html` and `<head` and none of the keywords.
pub proof fn lemma_foo_html_is_page(content: Seq<char>)
    requires
        !spec_contains(lowered(content), "template"@),
        !spec_contains(lowered(content), "layout"@),
        !spec_contains(lowered(content), "component"@),
        !spec_contains(lowered(content), "widget"@),
        spec_contains(lowered(content), "<html"@),
        spec_contains(lowered(content), "<head"@),
    ensures
        spec_category_of("foo.html"@, content) == HtmlCategory::Page,
{
    reveal_strlit("foo.html");
    reveal_strlit("foo");
    reveal_strlit("index");
    reveal_strlit("home");
    reveal_strlit("main");
    reveal_strlit("template");
    reveal_strlit("layout");
    reveal_strlit("component");
    reveal_strlit("comp_");
    assert("foo.html"@[3] == '.');
    assert(forall|j: int| 3 < j < "foo.html"@.len() ==> "foo.html"@[j] != '.');
    lemma_last_dot_unique("foo.html"@, 3);
    assert(spec_stem("foo.html"@) =~= "foo"@);
    assert(seq_is_ascii("foo"@)) by {
        assert forall|i: int| 0 <= i < "foo"@.len() implies char_is_ascii("foo"@[i]) by {
            assert("foo"@.len() == 3);
        }
    }
    assert forall|i: int| 0 <= i < "foo"@.len() implies !('A' <= #[trigger] "foo"@[i] <= 'Z') by {
        assert("foo"@.len() == 3);
    }
    lemma_lowered_fixed("foo"@);
    let stem_l = lowered(spec_stem("foo.html"@));
    assert(stem_l == "foo"@);
    lemma_contains_needs_room("foo"@, "template"@);
    lemma_contains_needs_room("foo"@, "layout"@);
    lemma_contains_needs_room("foo"@, "component"@);
    assert(!spec_starts_with("foo"@, "comp_"@));
    lemma_page_by_content("foo.html"@, content);
}

/// Sorting keeps no state between runs: two reports of runs over the same
/// files, each fresh, agree on the total and on every key's list, so a
/// second run counts every file again.
pub proof fn lemma_sort_is_stateless(files: Seq<FileEntry>, a: SortingReport, b: SortingReport)
    requires
        describes_run(a, files),
        describes_run(b, files),
    ensures
        a.total_files == b.total_files,
        forall|k: Seq<char>|
            #[trigger] a.files_moved.spec_contains_key(k) <==> b.files_moved.spec_contains_key(k),
        forall|k: Seq<char>|
            #[trigger] a.files_moved.spec_contains_key(k) ==> a.files_moved.spec_files_of(k)
                == b.files_moved.spec_files_of(k),
{
    assert forall|k: Seq<char>|
        #[trigger] a.files_moved.spec_contains_key(k) implies a.files_moved.spec_files_of(k)
        == b.files_moved.spec_files_of(k) by {
        assert(b.files_moved.spec_contains_key(k));
    }
}

/// A finished run's report records every file: the report holds the file's
/// key, and the list under that key holds the file's name.
pub proof fn lemma_run_records_every_file(report: SortingReport, files: Seq<FileEntry>, i: int)
    requires
        describes_run(report, files),
        0 <= i < files.len(),
    ensures
        report.files_moved.spec_contains_key(spec_file_key(files[i])),
        report.files_moved.spec_files_of(spec_file_key(files[i])).contains(files[i].name@),
{
    lemma_names_for_key_contains(files, i);
    let k = spec_file_key(files[i]);
    assert(names_for_key(files, k).len() != 0);
    assert(report.files_moved.spec_contains_key(k));
}

/// Every sorted file is recorded: its name stands in the list that the run
/// keeps for its key.
pub proof fn lemma_names_for_key_contains(files: Seq<FileEntry>, i: int)
    requires
        0 <= i < files.len(),
    ensures
        names_for_key(files, spec_file_key(files[i])).contains(files[i].name@),
    decreases files.len(),
{
    let k = spec_file_key(files[i]);
    if i == files.len() - 1 {
        let prefix = names_for_key(files.drop_last(), k);
        assert(names_for_key(files, k) == prefix.push(files[i].name@));
        assert(names_for_key(files, k)[prefix.len() as int] == files[i].name@);
    } else {
        lemma_names_for_key_contains(files.drop_last(), i);
        assert(files.drop_last()[i] == files[i]);
        let prefix = names_for_key(files.drop_last(), k);
        let w = choose|w: int| 0 <= w < prefix.len() && prefix[w] == files[i].name@;
        if spec_file_key(files.last()) == k {
            assert(names_for_key(files, k) == prefix.push(files.last().name@));
            assert(names_for_key(files, k)[w] == files[i].name@);
        } else {
            assert(names_for_key(files, k) == prefix);
        }
    }
}

} // verus!
