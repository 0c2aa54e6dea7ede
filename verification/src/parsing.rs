//! What the index keeps of the parsers' output: import statements.

use vstd::prelude::*;
use crate::text::opt_view;
use crate::types::FileId;

verus! {

/// An import statement of a file.
#[derive(Debug, Clone, PartialEq, Eq)]
pub struct Import {
    /// The imported path, such as `serde::Serialize`.
    pub path: String,
    /// The name under which the import is used, where it is renamed.
    pub alias: Option<String>,
    /// The file that holds the import.
    pub file_id: FileId,
    /// Whether everything under the path is imported.
    pub is_glob: bool,
    /// Whether only the type is imported.
    pub is_type_only: bool,
}

/// The mathematical content of an [`Import`].
pub struct ImportView {
    pub path: Seq<char>,
    pub alias: Option<Seq<char>>,
    pub file_id: FileId,
    pub is_glob: bool,
    pub is_type_only: bool,
}

impl View for Import {
    type V = ImportView;

    open spec fn view(&self) -> ImportView {
        ImportView {
            path: self.path@,
            alias: opt_view(self.alias),
            file_id: self.file_id,
            is_glob: self.is_glob,
            is_type_only: self.is_type_only,
        }
    }
}

} // verus!
