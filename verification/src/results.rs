use vstd::prelude::*;

verus! {

/// The bounded slice of lines surrounding one matching line, together with
/// its 1-based position among the matches of the same file.
pub struct ContextWindow {
    pub occurrence_number: u64,
    pub window_contents: Vec<String>,
}

/// All matches found in a single file.  Built only when at least one line
/// of the file contains the searched text.
pub struct FileSearchResult {
    pub found_text: String,
    pub file_name: String,
    pub file_path: String,
    pub number_of_occurrences: u64,
    pub context_windows: Vec<ContextWindow>,
}

/// The contents of one file, as handed to the search engine: its base name,
/// its full path, and its lines.
pub struct FileData {
    pub file_name: String,
    pub file_path: String,
    pub lines: Vec<String>,
}

/// Mathematical image of a `ContextWindow`.
#[verifier::ext_equal]
pub ghost struct WindowModel {
    pub occurrence_number: int,
    pub window_contents: Seq<Seq<char>>,
}

/// Mathematical image of a `FileSearchResult`.
#[verifier::ext_equal]
pub ghost struct ResultModel {
    pub found_text: Seq<char>,
    pub file_name: Seq<char>,
    pub file_path: Seq<char>,
    pub number_of_occurrences: int,
    pub context_windows: Seq<WindowModel>,
}

/// Mathematical image of a `FileData`.
#[verifier::ext_equal]
pub ghost struct FileModel {
    pub file_name: Seq<char>,
    pub file_path: Seq<char>,
    pub lines: Seq<Seq<char>>,
}

impl View for ContextWindow {
    type V = WindowModel;

    open spec fn view(&self) -> WindowModel {
        WindowModel {
            occurrence_number: self.occurrence_number as int,
            window_contents: self.window_contents.deep_view(),
        }
    }
}

impl DeepView for ContextWindow {
    type V = WindowModel;

    open spec fn deep_view(&self) -> WindowModel {
        self.view()
    }
}

impl View for FileSearchResult {
    type V = ResultModel;

    open spec fn view(&self) -> ResultModel {
        ResultModel {
            found_text: self.found_text@,
            file_name: self.file_name@,
            file_path: self.file_path@,
            number_of_occurrences: self.number_of_occurrences as int,
            context_windows: self.context_windows.deep_view(),
        }
    }
}

impl DeepView for FileSearchResult {
    type V = ResultModel;

    open spec fn deep_view(&self) -> ResultModel {
        self.view()
    }
}

impl View for FileData {
    type V = FileModel;

    open spec fn view(&self) -> FileModel {
        FileModel {
            file_name: self.file_name@,
            file_path: self.file_path@,
            lines: self.lines.deep_view(),
        }
    }
}

impl DeepView for FileData {
    type V = FileModel;

    open spec fn deep_view(&self) -> FileModel {
        self.view()
    }
}

} // verus!
