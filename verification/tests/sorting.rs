use file_sorter::{FileEntry, FileSorter, HtmlCategory, SortingReport};

fn sorter() -> FileSorter {
    FileSorter::new("source".to_string(), "target".to_string())
}

fn entry(name: &str, content: &str) -> FileEntry {
    FileEntry { name: name.to_string(), content: content.to_string() }
}

#[test]
fn test_html_category_detection() {
    assert_eq!(HtmlCategory::Index.folder_name(), "index");
    assert_eq!(HtmlCategory::Template.folder_name(), "templates");
    assert_eq!(HtmlCategory::Component.folder_name(), "components");
    assert_eq!(HtmlCategory::Page.folder_name(), "pages");
    assert_eq!(HtmlCategory::Unknown.folder_name(), "other");
}

#[test]
fn test_file_sorter_creation() {
    let sorter = FileSorter::new("source".to_string(), "target".to_string());
    assert_eq!(sorter.source_dir, "source");
    assert_eq!(sorter.target_dir, "target");
}

#[test]
fn test_sorting_report() {
    let mut report = SortingReport::new();
    report.add_file_moved("txt".to_string(), "txt".to_string(), "test.txt".to_string());

    assert_eq!(report.total_files, 1);
    assert!(report.files_moved.contains_key("txt -> txt"));
}

#[test]
fn known_extension_goes_to_extension_folder() {
    let (report, placements) = sorter().sort_files(vec![entry("notes.txt", "")]);
    assert_eq!(placements.len(), 1);
    assert_eq!(placements[0].file_name, "notes.txt");
    assert_eq!(placements[0].extension, "txt");
    assert_eq!(placements[0].target_folder, "txt");
    let files = report.files_moved.get("txt -> txt").unwrap();
    assert!(files.iter().any(|f| f == "notes.txt"));
}

#[test]
fn uppercase_extension_is_lowercased() {
    let (_, placements) = sorter().sort_files(vec![entry("Report.TXT", "")]);
    assert_eq!(placements[0].extension, "txt");
    assert_eq!(placements[0].target_folder, "txt");
}

#[test]
fn index_html_is_index_regardless_of_content() {
    let s = sorter();
    assert_eq!(s.detect_html_category("index.html", "TEMPLATE widget <html>"), HtmlCategory::Index);
    assert_eq!(s.detect_html_category("index.html", ""), HtmlCategory::Index);
    assert_eq!(s.detect_html_category("home.html", "anything"), HtmlCategory::Index);
    assert_eq!(s.detect_html_category("main.htm", "anything"), HtmlCategory::Index);
}

#[test]
fn uppercase_stem_is_lowercased_before_matching() {
    let s = sorter();
    assert_eq!(s.detect_html_category("HOME.HTML", "x"), HtmlCategory::Index);
    assert_eq!(s.detect_html_category("MyLayout.html", ""), HtmlCategory::Template);
}

#[test]
fn page_detected_from_html_and_head_tags() {
    let s = sorter();
    assert_eq!(
        s.detect_html_category("foo.html", "<html><head></head><body>Hi</body></html>"),
        HtmlCategory::Page
    );
}

#[test]
fn content_keywords_decide_category() {
    let s = sorter();
    assert_eq!(s.detect_html_category("a.html", "my TEMPLATE here"), HtmlCategory::Template);
    assert_eq!(s.detect_html_category("a.html", "a layout thing"), HtmlCategory::Template);
    assert_eq!(s.detect_html_category("a.html", "some widget"), HtmlCategory::Component);
    assert_eq!(s.detect_html_category("a.html", "a component"), HtmlCategory::Component);
    assert_eq!(s.detect_html_category("a.html", ""), HtmlCategory::Unknown);
    assert_eq!(s.detect_html_category("a.html", "<html>no head tag"), HtmlCategory::Unknown);
}

#[test]
fn filename_rules_win_over_content() {
    let s = sorter();
    assert_eq!(s.detect_html_category("site_template.html", "widget"), HtmlCategory::Template);
    assert_eq!(s.detect_html_category("comp_button.html", "template"), HtmlCategory::Component);
    assert_eq!(s.detect_html_category("my_component.html", ""), HtmlCategory::Component);
}

#[test]
fn file_without_extension_goes_to_sentinel_folder() {
    let (report, placements) = sorter().sort_files(vec![entry("README", "")]);
    assert_eq!(placements[0].extension, "no_extension");
    assert_eq!(placements[0].target_folder, "no_extension");
    assert!(report.files_moved.contains_key("no_extension -> no_extension"));
}

#[test]
fn hidden_file_has_no_extension() {
    let (_, placements) = sorter().sort_files(vec![entry(".gitignore", "")]);
    assert_eq!(placements[0].target_folder, "no_extension");
}

#[test]
fn only_the_last_extension_counts() {
    let (_, placements) = sorter().sort_files(vec![entry("archive.tar.gz", "")]);
    assert_eq!(placements[0].extension, "gz");
    assert_eq!(placements[0].target_folder, "gz");
}

#[test]
fn total_files_counts_every_file_and_matches_group_sums() {
    let files = vec![
        entry("a.txt", ""),
        entry("b.txt", ""),
        entry("c.md", ""),
        entry("index.html", "<html><head></head></html>"),
        entry("README", ""),
    ];
    let (report, placements) = sorter().sort_files(files);
    assert_eq!(report.total_files, 5);
    assert_eq!(placements.len(), 5);
    let mut sum = 0;
    for i in 0..report.files_moved.num_groups() {
        sum += report.files_moved.group_at(i).files.len();
    }
    assert_eq!(sum, 5);
}

#[test]
fn sorting_twice_fills_a_fresh_report_each_time() {
    let files = || vec![entry("a.txt", ""), entry("b.html", "<html><head>x")];
    let (first, _) = sorter().sort_files(files());
    let (second, _) = sorter().sort_files(files());
    assert_eq!(first.total_files, 2);
    assert_eq!(second.total_files, 2);
    assert!(first.files_moved.contains_key("txt -> txt"));
    assert!(second.files_moved.contains_key("txt -> txt"));
    assert!(second.files_moved.contains_key("html -> html/pages"));
}

#[test]
fn example_run_places_three_files() {
    let files = vec![
        entry("index.html", "<html><head></head><body>Home</body></html>"),
        entry("style.css", ""),
        entry("comp_button.html", ""),
    ];
    let (report, placements) = sorter().sort_files(files);
    assert_eq!(report.total_files, 3);
    assert_eq!(placements[0].file_name, "index.html");
    assert_eq!(placements[0].target_folder, "html/index");
    assert_eq!(placements[1].file_name, "style.css");
    assert_eq!(placements[1].target_folder, "css");
    assert_eq!(placements[2].file_name, "comp_button.html");
    assert_eq!(placements[2].target_folder, "html/components");
    assert!(report.files_moved.contains_key("html -> html/index"));
    assert!(report.files_moved.contains_key("css -> css"));
    assert!(report.files_moved.contains_key("html -> html/components"));
}

#[test]
fn report_groups_files_under_one_key_in_order() {
    let mut report = SortingReport::new();
    report.add_file_moved("txt".to_string(), "txt".to_string(), "a.txt".to_string());
    report.add_file_moved("md".to_string(), "md".to_string(), "b.md".to_string());
    report.add_file_moved("txt".to_string(), "txt".to_string(), "c.txt".to_string());
    assert_eq!(report.total_files, 3);
    assert_eq!(report.files_moved.num_groups(), 2);
    let txt = report.files_moved.get("txt -> txt").unwrap();
    assert_eq!(txt, &vec!["a.txt".to_string(), "c.txt".to_string()]);
    assert!(report.files_moved.get("pdf -> pdf").is_none());
}

#[test]
fn summary_lists_total_and_groups() {
    let mut report = SortingReport::new();
    report.add_file_moved("txt".to_string(), "txt".to_string(), "a.txt".to_string());
    report.add_file_moved("txt".to_string(), "txt".to_string(), "b.txt".to_string());
    assert_eq!(
        report.summary(),
        "\n=== File Sorting Summary ===\nTotal files moved: 2\n\ntxt -> txt: 2 files\n  - a.txt\n  - b.txt\n\n"
    );
    let empty = SortingReport::new();
    assert_eq!(empty.summary(), "\n=== File Sorting Summary ===\nTotal files moved: 0\n\n");
}

#[test]
fn summary_renders_multi_digit_totals() {
    let mut report = SortingReport::new();
    let mut i = 0;
    while i < 12 {
        report.add_file_moved("txt".to_string(), "txt".to_string(), format!("f{}.txt", i));
        i += 1;
    }
    assert_eq!(report.total_files, 12);
    assert!(report.summary().contains("Total files moved: 12\n"));
}

#[test]
fn htm_extension_is_sorted_as_html() {
    let (report, placements) = sorter().sort_files(vec![entry("old_page.htm", "layout")]);
    assert_eq!(placements[0].extension, "htm");
    assert_eq!(placements[0].target_folder, "html/templates");
    assert!(report.files_moved.contains_key("htm -> html/templates"));
}

#[test]
fn helpers_split_names_like_std_paths() {
    assert_eq!(file_sorter::file_stem("index.html"), "index");
    assert_eq!(file_sorter::file_extension("index.html"), Some("html"));
    assert_eq!(file_sorter::file_extension(".gitignore"), None);
    assert_eq!(file_sorter::file_extension("README"), None);
    assert_eq!(file_sorter::file_stem("archive.tar.gz"), "archive.tar");
    assert!(file_sorter::is_html_file("A.HTML"));
    assert!(!file_sorter::is_html_file("a.css"));
    assert_eq!(file_sorter::extension_key("Photo.JPeG"), "jpeg");
}
