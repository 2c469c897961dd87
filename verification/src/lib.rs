pub mod laws;
pub mod report;
pub mod sorter;
pub mod text;

pub use crate::report::{ReportEntry, ReportMap, SortingReport};
pub use crate::sorter::{
    extension_key, file_extension, file_stem, is_html_file, FileEntry, FileSorter, HtmlCategory,
    Placement,
};
