//! A conversion run: what to do with each entry of the manifest, the files
//! generated so far, and the two listings made of them at the end.

use crate::cube_file::{
    declarations, definitions, CubeFile, ImageFile, SuccessNotice, TextFile, Variable,
};
use crate::encode::{decimal, push_decimal};
use crate::ident::{
    extension, get_extension_from_filename, is_asset_path, lemma_asset_path_has_period,
    names_asset,
};
use vstd::prelude::*;
use vstd::string::*;

verus! {

/// The two kinds of asset.
#[derive(Clone, Copy, Debug, PartialEq, Eq, Structural)]
pub enum FileType {
    Text,
    Image,
}

impl FileType {
    /// The kind that an extension stands for: `png` is an image, everything
    /// else a text.
    pub open spec fn of(extension: Seq<char>) -> FileType {
        if extension == "png"@ {
            FileType::Image
        } else {
            FileType::Text
        }
    }

    /// The kind of asset that a file with this extension is taken for.
    pub fn from(extention: &str) -> (kind: FileType)
        ensures
            kind == FileType::of(extention@),
    {
        let len: usize = extention.unicode_len();
        if len == 3 && extention.get_char(0) == 'p' && extention.get_char(1) == 'n'
            && extention.get_char(2) == 'g' {
            proof {
                reveal_strlit("png");
                assert(extention@ =~= "png"@);
            }
            FileType::Image
        } else {
            proof {
                reveal_strlit("png");
            }
            FileType::Text
        }
    }
}

/// What a run does with one entry of the manifest.
#[derive(Clone, Copy, Debug, PartialEq, Eq, Structural)]
pub enum Action {
    /// The file does not exist: the entry is passed over and the run goes on.
    Skip,
    /// The file exists and its path names no asset: the run ends here.
    Abort,
    /// The file exists: it is read and converted as an asset of this kind.
    Convert(FileType),
}

/// What a run does with the entry `path`, given whether a file exists there.
pub open spec fn action_for(path: Seq<char>, exists: bool) -> Action {
    if !exists {
        Action::Skip
    } else if !is_asset_path(path) {
        Action::Abort
    } else {
        Action::Convert(FileType::of(extension(path)))
    }
}

/// Decides what to do with the entry `path`, given whether a file exists there.
pub fn plan_entry(path: &str, exists: bool) -> (action: Action)
    ensures
        action == action_for(path@, exists),
{
    if !exists {
        Action::Skip
    } else if !names_asset(path) {
        Action::Abort
    } else {
        proof {
            lemma_asset_path_has_period(path@);
        }
        Action::Convert(FileType::from(get_extension_from_filename(path)))
    }
}

/// A generated file of either kind.
pub enum GeneratedFile {
    Text(TextFile),
    Image(ImageFile),
}

impl CubeFile for GeneratedFile {
    open spec fn source(&self) -> Seq<char> {
        match self {
            GeneratedFile::Text(file) => file.source(),
            GeneratedFile::Image(file) => file.source(),
        }
    }

    open spec fn variables(&self) -> Seq<Variable> {
        match self {
            GeneratedFile::Text(file) => file.variables(),
            GeneratedFile::Image(file) => file.variables(),
        }
    }

    open spec fn kind(&self) -> Seq<char> {
        match self {
            GeneratedFile::Text(file) => file.kind(),
            GeneratedFile::Image(file) => file.kind(),
        }
    }

    fn cpp_string(&self) -> (s: String) {
        match self {
            GeneratedFile::Text(file) => file.cpp_string(),
            GeneratedFile::Image(file) => file.cpp_string(),
        }
    }

    fn header_string(&self) -> (s: String) {
        match self {
            GeneratedFile::Text(file) => file.header_string(),
            GeneratedFile::Image(file) => file.header_string(),
        }
    }

    fn parse_success_message(&self) -> (notice: SuccessNotice) {
        match self {
            GeneratedFile::Text(file) => file.parse_success_message(),
            GeneratedFile::Image(file) => file.parse_success_message(),
        }
    }
}

/// The definition fragments of `files`, in order, a blank line behind each.
pub open spec fn definition_blocks(files: Seq<GeneratedFile>) -> Seq<char>
    decreases files.len(),
{
    if files.len() == 0 {
        Seq::empty()
    } else {
        definition_blocks(files.drop_last()) + definitions(files.last().variables()) + "\n\n"@
    }
}

/// The declaration fragments of `files`, in order, a blank line behind each.
pub open spec fn declaration_blocks(files: Seq<GeneratedFile>) -> Seq<char>
    decreases files.len(),
{
    if files.len() == 0 {
        Seq::empty()
    } else {
        declaration_blocks(files.drop_last()) + declarations(
            files.last().variables(),
            files.last().source(),
        ) + "\n\n"@
    }
}

/// The listing of definitions: the definition fragments and nothing else.
pub open spec fn cpp_listing(files: Seq<GeneratedFile>) -> Seq<char> {
    definition_blocks(files)
}

/// The listing of declarations: the include guard, then the declaration fragments.
pub open spec fn header_listing(files: Seq<GeneratedFile>) -> Seq<char> {
    "#pragma once\n\n"@ + declaration_blocks(files)
}

/// The state of a run: the files generated so far, in the order of the
/// manifest, and the entries passed over.
pub struct Conversion {
    pub files: Vec<GeneratedFile>,
    pub missing: Vec<String>,
}

impl Conversion {
    /// A run that has seen no entry yet.
    pub fn new() -> (run: Conversion)
        ensures
            run.files@.len() == 0,
            run.missing@.len() == 0,
    {
        Conversion { files: Vec::new(), missing: Vec::new() }
    }

    /// Records a generated file behind those recorded before.
    ///
    /// A file whose symbol an earlier one has already is recorded all the
    /// same: keeping the symbols apart is left to the caller.
    pub fn add(&mut self, file: GeneratedFile)
        ensures
            final(self).files@ == old(self).files@.push(file),
            final(self).missing@ == old(self).missing@,
    {
        self.files.push(file);
    }

    /// Records that the entry `path` was passed over. The generated files,
    /// and with them both listings, stay as they are.
    pub fn skip(&mut self, path: String)
        ensures
            final(self).files@ == old(self).files@,
            final(self).missing@ == old(self).missing@.push(path),
            cpp_listing(final(self).files@) == cpp_listing(old(self).files@),
            header_listing(final(self).files@) == header_listing(old(self).files@),
    {
        self.missing.push(path);
    }

    /// The listing of definitions of the files recorded so far.
    pub fn cpp_string(&self) -> (listing: String)
        ensures
            listing@ == cpp_listing(self.files@),
    {
        let mut listing = String::new();
        let mut i: usize = 0;
        while i < self.files.len()
            invariant
                i <= self.files.len(),
                listing@ == definition_blocks(self.files@.take(i as int)),
            decreases self.files.len() - i,
        {
            let fragment = self.files[i].cpp_string();
            listing.append(fragment.as_str());
            listing.append("\n\n");
            proof {
                let next = self.files@.take(i + 1);
                assert(next.drop_last() =~= self.files@.take(i as int));
                assert(next.last() == self.files@[i as int]);
            }
            i = i + 1;
        }
        assert(self.files@.take(i as int) =~= self.files@);
        listing
    }

    /// The listing of declarations of the files recorded so far.
    pub fn header_string(&self) -> (listing: String)
        ensures
            listing@ == header_listing(self.files@),
    {
        let mut listing = String::from_str("#pragma once\n\n");
        let mut i: usize = 0;
        while i < self.files.len()
            invariant
                i <= self.files.len(),
                listing@ == header_listing(self.files@.take(i as int)),
            decreases self.files.len() - i,
        {
            let fragment = self.files[i].header_string();
            listing.append(fragment.as_str());
            listing.append("\n\n");
            proof {
                let next = self.files@.take(i + 1);
                assert(next.drop_last() =~= self.files@.take(i as int));
                assert(next.last() == self.files@[i as int]);
            }
            i = i + 1;
        }
        assert(self.files@.take(i as int) =~= self.files@);
        listing
    }

    /// The line of the summary that counts the converted files.
    pub fn converted_summary(&self) -> (line: String)
        ensures
            line@ == decimal(self.files@.len()) + " files converted"@,
    {
        let mut line = String::new();
        push_decimal(&mut line, self.files.len() as u64);
        line.append(" files converted");
        line
    }

    /// The line of the summary that counts the entries passed over.
    pub fn not_converted_summary(&self) -> (line: String)
        ensures
            line@ == decimal(self.missing@.len()) + " files not converted"@,
    {
        let mut line = String::new();
        push_decimal(&mut line, self.missing.len() as u64);
        line.append(" files not converted");
        line
    }
}

/// The notice that the entry `path` was passed over.
pub fn missing_notice(path: &str) -> (line: String)
    ensures
        line@ == "File doesn't exist: "@ + path@,
{
    let mut line = String::from_str("File doesn't exist: ");
    line.append(path);
    line
}

/// The name of the file that takes the listing of declarations.
pub fn header_file_name(base: &str) -> (name: String)
    ensures
        name@ == base@ + ".h"@,
{
    let mut name = String::from_str(base);
    name.append(".h");
    name
}

/// The name of the file that takes the listing of definitions.
pub fn cpp_file_name(base: &str) -> (name: String)
    ensures
        name@ == base@ + ".cpp"@,
{
    let mut name = String::from_str(base);
    name.append(".cpp");
    name
}

} // verus!
