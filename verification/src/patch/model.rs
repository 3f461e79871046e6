//! Hunks, chunks and parse errors, with the mathematical values they stand for.
use crate::paths::{join_path, joined, PathRules};
use crate::text::{
    copy_option, copy_strings, decimal, decimal_string, opt_text, strip, texts, trim_of,
};
use vstd::prelude::*;
use vstd::string::*;

verus! {

pub const BEGIN_PATCH_MARKER: &'static str = "*** Begin Patch";

pub const END_PATCH_MARKER: &'static str = "*** End Patch";

pub const ADD_FILE_MARKER: &'static str = "*** Add File: ";

pub const DELETE_FILE_MARKER: &'static str = "*** Delete File: ";

pub const UPDATE_FILE_MARKER: &'static str = "*** Update File: ";

pub const MOVE_TO_MARKER: &'static str = "*** Move to: ";

pub const EOF_MARKER: &'static str = "*** End of File";

pub const CHANGE_CONTEXT_MARKER: &'static str = "@@ ";

pub const EMPTY_CHANGE_CONTEXT_MARKER: &'static str = "@@";

/// Why a patch was refused.
#[derive(Debug, PartialEq)]
pub enum ParseError {
    InvalidPatchError(String),
    InvalidHunkError { message: String, line_number: usize },
}

/// What a [`ParseError`] says.
pub enum ErrorModel {
    InvalidPatch(Seq<char>),
    InvalidHunk { message: Seq<char>, line_number: nat },
}

impl View for ParseError {
    type V = ErrorModel;

    open spec fn view(&self) -> ErrorModel {
        match self {
            ParseError::InvalidPatchError(message) => ErrorModel::InvalidPatch(message@),
            ParseError::InvalidHunkError { message, line_number } => ErrorModel::InvalidHunk {
                message: message@,
                line_number: *line_number as nat,
            },
        }
    }
}

impl Clone for ParseError {
    fn clone(&self) -> (r: Self)
        ensures
            r@ == self@,
    {
        match self {
            ParseError::InvalidPatchError(message) => ParseError::InvalidPatchError(
                message.clone(),
            ),
            ParseError::InvalidHunkError { message, line_number } => ParseError::InvalidHunkError {
                message: message.clone(),
                line_number: *line_number,
            },
        }
    }
}

/// The sentence that reports an error to a reader.
pub open spec fn error_text(error: ErrorModel) -> Seq<char> {
    match error {
        ErrorModel::InvalidPatch(message) => "invalid patch: "@ + message,
        ErrorModel::InvalidHunk { message, line_number } => "invalid hunk at line "@ + decimal(
            line_number,
        ) + ", "@ + message,
    }
}

impl ParseError {
    /// Returns the sentence that reports this error to a reader.
    pub fn to_string(&self) -> (r: String)
        ensures
            r@ == error_text(self@),
    {
        let mut r = String::new();
        match self {
            ParseError::InvalidPatchError(message) => {
                r.append("invalid patch: ");
                r.append(message.as_str());
                assert(r@ =~= error_text(self@));
            },
            ParseError::InvalidHunkError { message, line_number } => {
                r.append("invalid hunk at line ");
                let digits = decimal_string(*line_number as u64);
                r.append(digits.as_str());
                r.append(", ");
                r.append(message.as_str());
                assert(r@ =~= error_text(self@));
            },
        }
        r
    }
}

/// One contiguous change inside a file.
#[derive(Debug, PartialEq)]
pub struct UpdateFileChunk {
    /// A single line of context used to narrow down the position of the chunk
    /// (this is usually a class, method, or function definition.)
    pub change_context: Option<String>,
    /// A contiguous block of lines that should be replaced with `new_lines`.
    /// `old_lines` must occur strictly after `change_context`.
    pub old_lines: Vec<String>,
    pub new_lines: Vec<String>,
    /// If set to true, `old_lines` must occur at the end of the source file.
    /// (Tolerance around trailing newlines should be encouraged.)
    pub is_end_of_file: bool,
}

/// What an [`UpdateFileChunk`] says.
pub struct ChunkModel {
    pub change_context: Option<Seq<char>>,
    pub old_lines: Seq<Seq<char>>,
    pub new_lines: Seq<Seq<char>>,
    pub is_end_of_file: bool,
}

impl View for UpdateFileChunk {
    type V = ChunkModel;

    open spec fn view(&self) -> ChunkModel {
        ChunkModel {
            change_context: opt_text(self.change_context),
            old_lines: texts(self.old_lines@),
            new_lines: texts(self.new_lines@),
            is_end_of_file: self.is_end_of_file,
        }
    }
}

impl Clone for UpdateFileChunk {
    fn clone(&self) -> (r: Self)
        ensures
            r@ == self@,
    {
        UpdateFileChunk {
            change_context: copy_option(&self.change_context),
            old_lines: copy_strings(&self.old_lines),
            new_lines: copy_strings(&self.new_lines),
            is_end_of_file: self.is_end_of_file,
        }
    }
}

/// What a sequence of chunks says.
pub open spec fn chunk_models(chunks: Seq<UpdateFileChunk>) -> Seq<ChunkModel> {
    Seq::new(chunks.len(), |i: int| chunks[i]@)
}

/// What a patch does to one file.
#[derive(Debug, PartialEq)]
pub enum Hunk {
    AddFile { path: String, contents: String },
    DeleteFile { path: String },
    UpdateFile {
        path: String,
        move_path: Option<String>,
        /// Chunks should be in order, i.e. the `change_context` of one chunk
        /// should occur later in the file than the previous chunk.
        chunks: Vec<UpdateFileChunk>,
    },
}

/// What a [`Hunk`] says.
pub enum HunkModel {
    AddFile { path: Seq<char>, contents: Seq<char> },
    DeleteFile { path: Seq<char> },
    UpdateFile { path: Seq<char>, move_path: Option<Seq<char>>, chunks: Seq<ChunkModel> },
}

impl View for Hunk {
    type V = HunkModel;

    open spec fn view(&self) -> HunkModel {
        match self {
            Hunk::AddFile { path, contents } => HunkModel::AddFile {
                path: path@,
                contents: contents@,
            },
            Hunk::DeleteFile { path } => HunkModel::DeleteFile { path: path@ },
            Hunk::UpdateFile { path, move_path, chunks } => HunkModel::UpdateFile {
                path: path@,
                move_path: opt_text(*move_path),
                chunks: chunk_models(chunks@),
            },
        }
    }
}

impl Clone for Hunk {
    fn clone(&self) -> (r: Self)
        ensures
            r@ == self@,
    {
        match self {
            Hunk::AddFile { path, contents } => Hunk::AddFile {
                path: path.clone(),
                contents: contents.clone(),
            },
            Hunk::DeleteFile { path } => Hunk::DeleteFile { path: path.clone() },
            Hunk::UpdateFile { path, move_path, chunks } => Hunk::UpdateFile {
                path: path.clone(),
                move_path: copy_option(move_path),
                chunks: copy_chunks(chunks),
            },
        }
    }
}

/// What a sequence of hunks says.
pub open spec fn hunk_models(hunks: Seq<Hunk>) -> Seq<HunkModel> {
    Seq::new(hunks.len(), |i: int| hunks[i]@)
}

pub proof fn lemma_chunk_models_push(chunks: Seq<UpdateFileChunk>, chunk: UpdateFileChunk)
    ensures
        chunk_models(chunks.push(chunk)) == chunk_models(chunks).push(chunk@),
{
    assert(chunk_models(chunks.push(chunk)) =~= chunk_models(chunks).push(chunk@));
}

pub proof fn lemma_hunk_models_push(hunks: Seq<Hunk>, hunk: Hunk)
    ensures
        hunk_models(hunks.push(hunk)) == hunk_models(hunks).push(hunk@),
{
    assert(hunk_models(hunks.push(hunk)) =~= hunk_models(hunks).push(hunk@));
}

/// Returns a copy of a list of chunks.
pub fn copy_chunks(v: &Vec<UpdateFileChunk>) -> (r: Vec<UpdateFileChunk>)
    ensures
        chunk_models(r@) == chunk_models(v@),
{
    let mut r: Vec<UpdateFileChunk> = Vec::new();
    let mut i: usize = 0;
    while i < v.len()
        invariant
            i <= v.len(),
            r@.len() == i,
            forall|k: int| 0 <= k < i ==> (#[trigger] r@[k])@ == v@[k]@,
        decreases v.len() - i,
    {
        r.push(v[i].clone());
        i += 1;
    }
    assert(chunk_models(r@) =~= chunk_models(v@));
    r
}

/// Returns a copy of a list of hunks.
pub fn copy_hunks(v: &Vec<Hunk>) -> (r: Vec<Hunk>)
    ensures
        hunk_models(r@) == hunk_models(v@),
{
    let mut r: Vec<Hunk> = Vec::new();
    let mut i: usize = 0;
    while i < v.len()
        invariant
            i <= v.len(),
            r@.len() == i,
            forall|k: int| 0 <= k < i ==> (#[trigger] r@[k])@ == v@[k]@,
        decreases v.len() - i,
    {
        r.push(v[i].clone());
        i += 1;
    }
    assert(hunk_models(r@) =~= hunk_models(v@));
    r
}

/// The path that a hunk affects: for a rename, where the file goes.
pub open spec fn affected_path(hunk: HunkModel) -> Seq<char> {
    match hunk {
        HunkModel::AddFile { path, .. } => path,
        HunkModel::DeleteFile { path } => path,
        HunkModel::UpdateFile { path, move_path, .. } => match move_path {
            Some(destination) => destination,
            None => path,
        },
    }
}

/// The path of the file that a hunk names in its header: for a rename, where the file is.
pub open spec fn header_path(hunk: HunkModel) -> Seq<char> {
    match hunk {
        HunkModel::AddFile { path, .. } => path,
        HunkModel::DeleteFile { path } => path,
        HunkModel::UpdateFile { path, .. } => path,
    }
}

impl Hunk {
    /// Returns where the file is that this hunk names in its header, seen from the directory
    /// `cwd`. Parts such as `.` and `..` are kept as they are written.
    pub fn resolve_path(&self, rules: PathRules, cwd: &str) -> (r: String)
        ensures
            r@ == joined(rules@, cwd@, header_path(self@)),
    {
        let path = match self {
            Hunk::UpdateFile { path, .. } => path.as_str(),
            Hunk::AddFile { .. } => self.path(),
            Hunk::DeleteFile { .. } => self.path(),
        };
        join_path(rules, cwd, path)
    }

    /// Returns the path affected by this hunk, using the move destination for rename hunks.
    pub fn path(&self) -> (r: &str)
        ensures
            r@ == affected_path(self@),
    {
        match self {
            Hunk::AddFile { path, .. } => path.as_str(),
            Hunk::DeleteFile { path } => path.as_str(),
            Hunk::UpdateFile { path, move_path, .. } => match move_path {
                Some(destination) => destination.as_str(),
                None => path.as_str(),
            },
        }
    }
}

/// The hunk that a header line opens.
pub enum HeaderModel {
    Add(Seq<char>),
    Delete(Seq<char>),
    Update(Seq<char>),
}

/// The header that a line is, white space around it aside.
pub open spec fn header_of(line: Seq<char>) -> Option<HeaderModel> {
    let trimmed = trim_of(line);
    match strip(trimmed, ADD_FILE_MARKER@) {
        Some(path) => Some(HeaderModel::Add(path)),
        None => match strip(trimmed, DELETE_FILE_MARKER@) {
            Some(path) => Some(HeaderModel::Delete(path)),
            None => match strip(trimmed, UPDATE_FILE_MARKER@) {
                Some(path) => Some(HeaderModel::Update(path)),
                None => None,
            },
        },
    }
}

/// A hunk affects the file that its header names, unless it renames it: then it affects the file
/// under its new name, while the header still names the old one.
pub proof fn law_paths_of_hunks(hunk: HunkModel)
    ensures
        affected_path(hunk) != header_path(hunk) ==> hunk is UpdateFile && hunk->move_path == Some(
            affected_path(hunk),
        ),
        hunk matches HunkModel::UpdateFile { path, move_path: Some(destination), .. } ==> {
            affected_path(hunk) == destination && header_path(hunk) == path
        },
        hunk matches HunkModel::UpdateFile { path, move_path: None, .. } ==> affected_path(hunk)
            == path && header_path(hunk) == path,
        hunk matches HunkModel::AddFile { path, .. } ==> affected_path(hunk) == path,
        hunk matches HunkModel::DeleteFile { path } ==> affected_path(hunk) == path,
{
}

/// The sentence that reports an error ends in its message, and names the line if there is one.
pub proof fn law_errors_are_reported(error: ErrorModel)
    ensures
        error matches ErrorModel::InvalidPatch(message) ==> message.is_suffix_of(error_text(error)),
        error matches ErrorModel::InvalidHunk { message, line_number } ==> {
            &&& message.is_suffix_of(error_text(error))
            &&& ("invalid hunk at line "@ + decimal(line_number)).is_prefix_of(error_text(error))
        },
{
    let text = error_text(error);
    match error {
        ErrorModel::InvalidPatch(message) => {
            assert(message =~= text.subrange(text.len() - message.len(), text.len() as int));
        },
        ErrorModel::InvalidHunk { message, line_number } => {
            assert(message =~= text.subrange(text.len() - message.len(), text.len() as int));
            let start = "invalid hunk at line "@ + decimal(line_number);
            assert(start =~= text.subrange(0, start.len() as int));
        },
    }
}

/// Where the file of a hunk is found: under the name in its header, while what the hunk affects is
/// the file under its new name, if it has one.
pub proof fn law_finding_the_file_of_a_hunk(
    hunk: &Hunk,
    rules: PathRules,
    cwd: &str,
    found: String,
    affected: &str,
)
    requires
        call_ensures(Hunk::resolve_path, (hunk, rules, cwd), found),
        call_ensures(Hunk::path, (hunk,), affected),
    ensures
        *hunk matches Hunk::AddFile { path, .. } ==> affected@ == path@ && found@ == joined(
            rules@,
            cwd@,
            path@,
        ),
        *hunk matches Hunk::DeleteFile { path } ==> affected@ == path@ && found@ == joined(
            rules@,
            cwd@,
            path@,
        ),
        *hunk matches Hunk::UpdateFile { path, move_path, .. } ==> {
            &&& found@ == joined(rules@, cwd@, path@)
            &&& move_path matches Some(destination) ==> affected@ == destination@
            &&& move_path is None ==> affected@ == path@
        },
{
}

/// An error is reported with its message at the end, and with its line if it has one.
pub proof fn law_reporting_an_error(error: &ParseError, text: String)
    requires
        call_ensures(ParseError::to_string, (error,), text),
    ensures
        *error matches ParseError::InvalidPatchError(message) ==> message@.is_suffix_of(text@),
        *error matches ParseError::InvalidHunkError { message, line_number } ==> {
            &&& message@.is_suffix_of(text@)
            &&& ("invalid hunk at line "@ + decimal(line_number as nat)).is_prefix_of(text@)
        },
{
    law_errors_are_reported(error@);
}

} // verus!
