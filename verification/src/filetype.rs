//! The kind of a file, told by its name, and what is highlighted in files of that kind.

use vstd::prelude::*;
use vstd::string::{StrSliceExecFns, StringExecFns};

verus! {

/// What a highlighter marks in a file.
#[derive(Clone, Copy, Debug, PartialEq, Eq, Structural)]
pub struct HighlightingOptions {
    /// Whether numbers are marked.
    pub numbers: bool,
}

impl Default for HighlightingOptions {
    /// Nothing is marked.
    fn default() -> (options: HighlightingOptions)
        ensures
            !options.numbers,
    {
        HighlightingOptions { numbers: false }
    }
}

/// The kind of a file: its name for the reader, and what is highlighted in it.
pub struct FileType {
    name: String,
    hl_options: HighlightingOptions,
}

/// The ending of the names of Rust source files.
pub open spec fn rust_ending() -> Seq<char> {
    seq!['.', 'r', 's']
}

impl FileType {
    /// The name of the kind.
    pub closed spec fn name_spec(&self) -> Seq<char> {
        self.name@
    }

    /// What is highlighted in files of the kind.
    pub closed spec fn options_spec(&self) -> HighlightingOptions {
        self.hl_options
    }

    /// The kind of a file of which nothing is known.
    pub open spec fn is_unknown(&self) -> bool {
        &&& self.name_spec() == "No filetype"@
        &&& !self.options_spec().numbers
    }

    /// The kind of a Rust source file.
    pub open spec fn is_rust(&self) -> bool {
        &&& self.name_spec() == "Rust"@
        &&& self.options_spec().numbers
    }

    /// The name of the kind.
    pub fn name(&self) -> (name: String)
        ensures
            name@ == self.name_spec(),
    {
        self.name.clone()
    }

    /// What is highlighted in files of the kind.
    pub fn highlighting_options(&self) -> (options: HighlightingOptions)
        ensures
            options == self.options_spec(),
    {
        self.hl_options
    }

    /// The kind of the file named `file_name`: Rust where the name ends in `.rs`, and
    /// unknown otherwise.
    pub fn from(file_name: &str) -> (kind: FileType)
        ensures
            rust_ending().is_suffix_of(file_name@) ==> kind.is_rust(),
            !rust_ending().is_suffix_of(file_name@) ==> kind.is_unknown(),
    {
        let count = file_name.unicode_len();
        if count >= 3 && file_name.get_char(count - 3) == '.' && file_name.get_char(count - 2)
            == 'r' && file_name.get_char(count - 1) == 's' {
            assert(file_name@.subrange(count - 3, count as int) =~= rust_ending());
            return FileType {
                name: String::from_str("Rust"),
                hl_options: HighlightingOptions { numbers: true },
            };
        }
        proof {
            if rust_ending().is_suffix_of(file_name@) {
                let ending = file_name@.subrange(count - 3, count as int);
                assert(ending[0] == '.' && ending[1] == 'r' && ending[2] == 's');
            }
        }
        FileType::default()
    }
}

impl Default for FileType {
    /// The kind of a file of which nothing is known.
    fn default() -> (kind: FileType)
        ensures
            kind.is_unknown(),
    {
        FileType {
            name: String::from_str("No filetype"),
            hl_options: HighlightingOptions::default(),
        }
    }
}

} // verus!
