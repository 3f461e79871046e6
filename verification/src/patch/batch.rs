//! Parsing a complete patch.
use crate::patch::model::{
    chunk_models, header_of, hunk_models, lemma_chunk_models_push, lemma_hunk_models_push,
    ChunkModel, ErrorModel, HeaderModel, Hunk, HunkModel, ParseError, UpdateFileChunk,
    ADD_FILE_MARKER, BEGIN_PATCH_MARKER, CHANGE_CONTEXT_MARKER, DELETE_FILE_MARKER,
    EMPTY_CHANGE_CONTEXT_MARKER, END_PATCH_MARKER, EOF_MARKER, MOVE_TO_MARKER, UPDATE_FILE_MARKER,
};
use crate::text::{
    chars_of, concat3, ends_with, find, find_after_last, find_char, first_char, join, join_of,
    last_place, lemma_find_char, lemma_last_place_bounds, lemma_texts_push, lines, lines_of,
    opt_text, same_text, starts_with, strip, strip_prefix, texts, trim, trim_of, without_first,
};
use vstd::prelude::*;
use vstd::slice::slice_subrange;
use vstd::string::*;

verus! {

/// How strictly the boundaries of a patch are held to the format.
#[derive(Clone, Copy, PartialEq, Eq, Structural)]
pub enum ParseMode {
    /// Parse the patch text argument as is.
    Strict,
    /// Also accept a patch that is wrapped in a heredoc: a first line that starts with `<<EOF`,
    /// `<<'EOF'` or `<<"EOF"`, and a last line that ends in `EOF`. These two lines are dropped, what is left is
    /// trimmed, and the rest is the text of the patch. Some callers hand over the heredoc
    /// literally, where a shell would have passed its contents on.
    Lenient,
}

/// A parsed patch.
#[derive(Debug, PartialEq)]
pub struct ApplyPatchArgs {
    /// The text of the patch, without a heredoc around it.
    pub patch: String,
    pub hunks: Vec<Hunk>,
    pub workdir: Option<String>,
}

/// What an [`ApplyPatchArgs`] says.
pub struct PatchModel {
    pub patch: Seq<char>,
    pub hunks: Seq<HunkModel>,
    pub workdir: Option<Seq<char>>,
}

impl View for ApplyPatchArgs {
    type V = PatchModel;

    open spec fn view(&self) -> PatchModel {
        PatchModel {
            patch: self.patch@,
            hunks: hunk_models(self.hunks@),
            workdir: opt_text(self.workdir),
        }
    }
}

// ---------------------------------------------------------------------------------------------
// What a patch means
// ---------------------------------------------------------------------------------------------

/// A line of a chunk: one that is empty or starts with a space, a plus or a minus.
pub open spec fn is_change_line(line: Seq<char>) -> bool {
    line.len() == 0 || line[0] == ' ' || line[0] == '+' || line[0] == '-'
}

/// How many lines at the start of `lines` are change lines.
pub open spec fn body_len(lines: Seq<Seq<char>>) -> nat
    decreases lines.len(),
{
    if lines.len() == 0 || !is_change_line(lines[0]) {
        0
    } else {
        1 + body_len(lines.drop_first())
    }
}

/// What a change line holds behind its first character.
pub open spec fn change_text(line: Seq<char>) -> Seq<char> {
    if line.len() == 0 {
        line
    } else {
        line.skip(1)
    }
}

/// The old side of a chunk with one change line more: an added line is not on it.
pub open spec fn add_old(old_lines: Seq<Seq<char>>, line: Seq<char>) -> Seq<Seq<char>> {
    if line.len() > 0 && line[0] == '+' {
        old_lines
    } else {
        old_lines.push(change_text(line))
    }
}

/// The new side of a chunk with one change line more: a removed line is not on it.
pub open spec fn add_new(new_lines: Seq<Seq<char>>, line: Seq<char>) -> Seq<Seq<char>> {
    if line.len() > 0 && line[0] == '-' {
        new_lines
    } else {
        new_lines.push(change_text(line))
    }
}

/// The lines that a sequence of change lines takes away or leaves as they are.
pub open spec fn old_side(lines: Seq<Seq<char>>) -> Seq<Seq<char>>
    decreases lines.len(),
{
    if lines.len() == 0 {
        seq![]
    } else {
        add_old(old_side(lines.drop_last()), lines.last())
    }
}

/// The lines that a sequence of change lines puts in or leaves as they are.
pub open spec fn new_side(lines: Seq<Seq<char>>) -> Seq<Seq<char>>
    decreases lines.len(),
{
    if lines.len() == 0 {
        seq![]
    } else {
        add_new(new_side(lines.drop_last()), lines.last())
    }
}

/// The context that a line announces: nothing where it is no context line, and an empty context
/// where it is the bare marker.
pub open spec fn context_of(line: Seq<char>) -> Option<Option<Seq<char>>> {
    if line == EMPTY_CHANGE_CONTEXT_MARKER@ {
        Some(None)
    } else {
        match strip(line, CHANGE_CONTEXT_MARKER@) {
            Some(context) => Some(Some(context)),
            None => None,
        }
    }
}

pub open spec fn invalid_hunk<T>(message: Seq<char>, line_number: nat) -> Result<T, ErrorModel> {
    Err(ErrorModel::InvalidHunk { message, line_number })
}

pub open spec fn no_lines_message() -> Seq<char> {
    "Update hunk does not contain any lines"@
}

pub open spec fn missing_context_message(line: Seq<char>) -> Seq<char> {
    "Expected update hunk to start with a @@ context marker, got: '"@ + line + "'"@
}

pub open spec fn unexpected_line_message(line: Seq<char>) -> Seq<char> {
    "Unexpected line found in update hunk: '"@ + line
        + "'. Every line should start with ' ' (context line), '+' (added line), or '-' (removed line)"@
}

pub open spec fn empty_update_message(path: Seq<char>) -> Seq<char> {
    "Update file hunk for path '"@ + path + "' is empty"@
}

pub open spec fn bad_header_message(line: Seq<char>) -> Seq<char> {
    "'"@ + line
        + "' is not a valid hunk header. Valid hunk headers: '*** Add File: {path}', '*** Delete File: {path}', '*** Update File: {path}'"@
}

/// The chunk at the start of `lines` and the number of lines it takes up: a context line, which
/// may be missing where `allow_missing_context` says so, then as many change lines as there are,
/// but at least one, then an end-of-file line if there is one.
pub open spec fn chunk_of(
    lines: Seq<Seq<char>>,
    line_number: nat,
    allow_missing_context: bool,
) -> Result<(ChunkModel, nat), ErrorModel> {
    let context = context_of(lines[0]);
    let start: nat = if context is Some {
        1
    } else {
        0
    };
    let body = lines.skip(start as int);
    let n = body_len(body);
    let eof = n < body.len() && body[n as int] == EOF_MARKER@;
    if lines.len() == 0 {
        invalid_hunk(no_lines_message(), line_number)
    } else if context is None && !allow_missing_context {
        invalid_hunk(missing_context_message(lines[0]), line_number)
    } else if body.len() == 0 || (n == 0 && eof) {
        invalid_hunk(no_lines_message(), line_number + 1)
    } else if n == 0 {
        invalid_hunk(unexpected_line_message(body[0]), line_number + 1)
    } else {
        Ok(
            (
                ChunkModel {
                    change_context: match context {
                        Some(text) => text,
                        None => None,
                    },
                    old_lines: old_side(body.take(n as int)),
                    new_lines: new_side(body.take(n as int)),
                    is_end_of_file: eof,
                },
                if eof {
                    start + n + 1
                } else {
                    start + n
                },
            ),
        )
    }
}

/// The chunks at the start of `lines` and the number of lines they take up. Blank lines between
/// chunks are skipped; a line that starts with a star ends them. Only the first chunk may lack
/// its context line.
pub open spec fn chunks_of(lines: Seq<Seq<char>>, line_number: nat, first: bool) -> Result<
    (Seq<ChunkModel>, nat),
    ErrorModel,
>
    decreases lines.len(),
{
    if lines.len() == 0 {
        Ok((seq![], 0))
    } else if trim_of(lines[0]).len() == 0 {
        match chunks_of(lines.skip(1), line_number + 1, first) {
            Ok((rest, used)) => Ok((rest, used + 1)),
            Err(error) => Err(error),
        }
    } else if lines[0][0] == '*' {
        Ok((seq![], 0))
    } else {
        proof {
            lemma_chunk_taken(lines, line_number, first);
        }
        match chunk_of(lines, line_number, first) {
            Ok((chunk, taken)) => match chunks_of(
                lines.skip(taken as int),
                line_number + taken,
                false,
            ) {
                Ok((rest, used)) => Ok((seq![chunk] + rest, taken + used)),
                Err(error) => Err(error),
            },
            Err(error) => Err(error),
        }
    }
}

/// How many lines at the start of `lines` begin with a plus.
pub open spec fn added_len(lines: Seq<Seq<char>>) -> nat
    decreases lines.len(),
{
    if lines.len() == 0 || lines[0].len() == 0 || lines[0][0] != '+' {
        0
    } else {
        1 + added_len(lines.drop_first())
    }
}

/// The text that a sequence of added lines spells, each ended by a line feed.
pub open spec fn added_text(lines: Seq<Seq<char>>) -> Seq<char>
    decreases lines.len(),
{
    if lines.len() == 0 {
        seq![]
    } else {
        (added_text(lines.drop_last()) + lines.last().skip(1)).push('\n')
    }
}

/// Where the file goes that an update hunk with these further lines is about, if it is renamed.
pub open spec fn move_path_of(lines: Seq<Seq<char>>) -> Option<Seq<char>> {
    if lines.len() == 0 {
        None
    } else {
        strip(lines[0], MOVE_TO_MARKER@)
    }
}

/// The update hunk with the given path and further lines, and the number of those lines that it
/// takes up. Its header stands at `line_number`.
pub open spec fn update_of(path: Seq<char>, lines: Seq<Seq<char>>, line_number: nat) -> Result<
    (HunkModel, nat),
    ErrorModel,
> {
    let move_path = move_path_of(lines);
    let skipped: nat = if move_path is Some {
        1
    } else {
        0
    };
    match chunks_of(lines.skip(skipped as int), line_number + 1 + skipped, true) {
        Ok((chunks, used)) => if chunks.len() == 0 {
            invalid_hunk(empty_update_message(path), line_number)
        } else {
            Ok((HunkModel::UpdateFile { path, move_path, chunks }, skipped + used))
        },
        Err(error) => Err(error),
    }
}

/// The hunk at the start of `lines`, whose first line stands at `line_number`, and the number of
/// lines it takes up.
pub open spec fn hunk_of(lines: Seq<Seq<char>>, line_number: nat) -> Result<
    (HunkModel, nat),
    ErrorModel,
> {
    let rest = lines.skip(1);
    match header_of(lines[0]) {
        Some(HeaderModel::Add(path)) => {
            let n = added_len(rest);
            Ok((HunkModel::AddFile { path, contents: added_text(rest.take(n as int)) }, 1 + n))
        },
        Some(HeaderModel::Delete(path)) => Ok((HunkModel::DeleteFile { path }, 1)),
        Some(HeaderModel::Update(path)) => match update_of(path, rest, line_number) {
            Ok((hunk, used)) => Ok((hunk, 1 + used)),
            Err(error) => Err(error),
        },
        None => invalid_hunk(bad_header_message(trim_of(lines[0])), line_number),
    }
}

/// The hunks that `lines` hold, the first of which stands at `line_number`.
pub open spec fn hunks_of(lines: Seq<Seq<char>>, line_number: nat) -> Result<
    Seq<HunkModel>,
    ErrorModel,
>
    decreases lines.len(),
{
    if lines.len() == 0 {
        Ok(seq![])
    } else {
        proof {
            lemma_hunk_taken(lines, line_number);
        }
        match hunk_of(lines, line_number) {
            Ok((hunk, taken)) => match hunks_of(lines.skip(taken as int), line_number + taken) {
                Ok(rest) => Ok(seq![hunk] + rest),
                Err(error) => Err(error),
            },
            Err(error) => Err(error),
        }
    }
}

/// What is wrong with the first and last line of a patch, if anything is.
pub open spec fn boundary_error(lines: Seq<Seq<char>>) -> Option<ErrorModel> {
    if lines.len() > 0 && trim_of(lines[0]) != BEGIN_PATCH_MARKER@ {
        Some(
            ErrorModel::InvalidPatch("The first line of the patch must be '*** Begin Patch'"@),
        )
    } else if lines.len() == 0 || trim_of(lines.last()) != END_PATCH_MARKER@ {
        Some(ErrorModel::InvalidPatch("The last line of the patch must be '*** End Patch'"@))
    } else {
        None
    }
}

/// Whether a line opens a heredoc: it starts with the marker, possibly quoted.
pub open spec fn opens_heredoc(line: Seq<char>) -> bool {
    "<<EOF"@.is_prefix_of(line) || "<<'EOF'"@.is_prefix_of(line) || "<<\"EOF\""@.is_prefix_of(line)
}

/// Whether `lines` are wrapped in a heredoc, with room for a patch inside.
pub open spec fn is_heredoc(lines: Seq<Seq<char>>) -> bool {
    &&& lines.len() >= 4
    &&& opens_heredoc(lines[0])
    &&& "EOF"@.is_suffix_of(lines.last())
}

/// What stands between the first and the last line of a text.
pub open spec fn inner_text(text: Seq<char>) -> Seq<char> {
    let start = find_char(text, '\n') as int + 1;
    let end = last_place(text, '\n');
    if start <= end {
        text.subrange(start, end)
    } else {
        seq![]
    }
}

/// The lines of a text without the white space around it, if they are a patch, boundary lines
/// included.
pub open spec fn bare_lines_of(text: Seq<char>) -> Result<Seq<Seq<char>>, ErrorModel> {
    let lines = lines_of(trim_of(text));
    match boundary_error(lines) {
        None => Ok(lines),
        Some(error) => Err(error),
    }
}

/// The lines of a text that are the patch, boundary lines included. What a heredoc holds is taken
/// for the text of the patch.
pub open spec fn patch_lines_of(text: Seq<char>, mode: ParseMode) -> Result<
    Seq<Seq<char>>,
    ErrorModel,
> {
    if mode == ParseMode::Lenient && bare_lines_of(text) is Err && is_heredoc(
        lines_of(trim_of(text)),
    ) {
        bare_lines_of(inner_text(trim_of(text)))
    } else {
        bare_lines_of(text)
    }
}

/// What a patch text means.
pub open spec fn patch_of(patch: Seq<char>, mode: ParseMode) -> Result<PatchModel, ErrorModel> {
    match patch_lines_of(patch, mode) {
        Ok(lines) => match hunks_of(lines.subrange(1, lines.len() - 1), 2) {
            Ok(hunks) => Ok(PatchModel { patch: join_of(lines, "\n"@), hunks, workdir: None }),
            Err(error) => Err(error),
        },
        Err(error) => Err(error),
    }
}

// ---------------------------------------------------------------------------------------------
// How many lines each part takes up
// ---------------------------------------------------------------------------------------------

pub proof fn lemma_body_len(lines: Seq<Seq<char>>)
    ensures
        body_len(lines) <= lines.len(),
        forall|i: int| 0 <= i < body_len(lines) ==> is_change_line(#[trigger] lines[i]),
        body_len(lines) < lines.len() ==> !is_change_line(lines[body_len(lines) as int]),
    decreases lines.len(),
{
    if lines.len() > 0 && is_change_line(lines[0]) {
        let rest = lines.drop_first();
        lemma_body_len(rest);
        assert forall|i: int| 0 <= i < body_len(lines) implies is_change_line(
            #[trigger] lines[i],
        ) by {
            if i > 0 {
                assert(lines[i] == rest[i - 1]);
            }
        }
    }
}

/// The body of a chunk ends at the first line that is no change line.
pub proof fn lemma_body_len_is(lines: Seq<Seq<char>>, n: int)
    requires
        0 <= n <= lines.len(),
        forall|i: int| 0 <= i < n ==> is_change_line(#[trigger] lines[i]),
        n < lines.len() ==> !is_change_line(lines[n]),
    ensures
        body_len(lines) == n,
{
    lemma_body_len(lines);
    let m = body_len(lines) as int;
    if m < n {
        assert(is_change_line(lines[m]));
    }
    if n < m {
        assert(is_change_line(lines[n]));
    }
}

pub proof fn lemma_chunk_taken(lines: Seq<Seq<char>>, line_number: nat, first: bool)
    ensures
        (match chunk_of(lines, line_number, first) {
            Ok((_, taken)) => 0 < taken <= lines.len(),
            Err(_) => true,
        }),
{
    lemma_body_len(lines.skip(0));
    lemma_body_len(lines.skip(1));
}

pub proof fn lemma_chunks_used(lines: Seq<Seq<char>>, line_number: nat, first: bool)
    ensures
        (match chunks_of(lines, line_number, first) {
            Ok((_, used)) => used <= lines.len(),
            Err(_) => true,
        }),
    decreases lines.len(),
{
    if lines.len() == 0 {
    } else if trim_of(lines[0]).len() == 0 {
        lemma_chunks_used(lines.skip(1), line_number + 1, first);
    } else if lines[0][0] == '*' {
    } else {
        lemma_chunk_taken(lines, line_number, first);
        match chunk_of(lines, line_number, first) {
            Ok((_, taken)) => lemma_chunks_used(
                lines.skip(taken as int),
                line_number + taken,
                false,
            ),
            Err(_) => {},
        }
    }
}

pub proof fn lemma_added_len(lines: Seq<Seq<char>>)
    ensures
        added_len(lines) <= lines.len(),
        forall|i: int|
            0 <= i < added_len(lines) ==> #[trigger] lines[i].len() > 0 && lines[i][0] == '+',
        added_len(lines) < lines.len() ==> {
            let next = lines[added_len(lines) as int];
            next.len() == 0 || next[0] != '+'
        },
    decreases lines.len(),
{
    if lines.len() > 0 && lines[0].len() > 0 && lines[0][0] == '+' {
        let rest = lines.drop_first();
        lemma_added_len(rest);
        assert forall|i: int| 0 <= i < added_len(lines) implies #[trigger] lines[i].len() > 0
            && lines[i][0] == '+' by {
            if i > 0 {
                assert(lines[i] == rest[i - 1]);
            }
        }
    }
}

/// The added lines end at the first line that does not begin with a plus.
pub proof fn lemma_added_len_is(lines: Seq<Seq<char>>, n: int)
    requires
        0 <= n <= lines.len(),
        forall|i: int| 0 <= i < n ==> #[trigger] lines[i].len() > 0 && lines[i][0] == '+',
        n < lines.len() ==> lines[n].len() == 0 || lines[n][0] != '+',
    ensures
        added_len(lines) == n,
{
    lemma_added_len(lines);
    let m = added_len(lines) as int;
    if m < n {
        assert(lines[m].len() > 0);
    }
    if n < m {
        assert(lines[n].len() > 0);
    }
}

pub proof fn lemma_hunk_taken(lines: Seq<Seq<char>>, line_number: nat)
    requires
        lines.len() > 0,
    ensures
        (match hunk_of(lines, line_number) {
            Ok((_, taken)) => 0 < taken <= lines.len(),
            Err(_) => true,
        }),
{
    let rest = lines.skip(1);
    lemma_added_len(rest);
    lemma_chunks_used(rest.skip(0), line_number + 1, true);
    lemma_chunks_used(rest.skip(1), line_number + 2, true);
}

// ---------------------------------------------------------------------------------------------
// The parser
// ---------------------------------------------------------------------------------------------

/// Whether the outcome of a function that parses a part is the one that the part means.
pub open spec fn agrees<T: View>(
    result: Result<(T, usize), ParseError>,
    meaning: Result<(T::V, nat), ErrorModel>,
) -> bool {
    match result {
        Ok((part, taken)) => meaning == Ok::<(T::V, nat), ErrorModel>((part@, taken as nat)),
        Err(error) => meaning == Err::<(T::V, nat), ErrorModel>(error@),
    }
}

fn hunk_error(message: String, line_number: usize) -> (e: ParseError)
    ensures
        e@ == (ErrorModel::InvalidHunk { message: message@, line_number: line_number as nat }),
{
    ParseError::InvalidHunkError { message, line_number }
}

/// Returns the context that a line announces.
pub fn parse_context(line: &str) -> (r: Option<Option<String>>)
    ensures
        context_of(line@) == (match r {
            Some(context) => Some(opt_text(context)),
            None => None,
        }),
{
    if same_text(line, EMPTY_CHANGE_CONTEXT_MARKER) {
        return Some(None);
    }
    match strip_prefix(line, CHANGE_CONTEXT_MARKER) {
        Some(context) => Some(Some(context.to_owned())),
        None => None,
    }
}

/// Adds a change line to the sides of a chunk; returns false, and changes nothing, where the line
/// is no change line.
pub fn push_change_line(
    line: &str,
    old_lines: &mut Vec<String>,
    new_lines: &mut Vec<String>,
) -> (r: bool)
    ensures
        r == is_change_line(line@),
        r ==> texts(final(old_lines)@) == add_old(texts(old(old_lines)@), line@),
        r ==> texts(final(new_lines)@) == add_new(texts(old(new_lines)@), line@),
        !r ==> final(old_lines)@ == old(old_lines)@ && final(new_lines)@ == old(new_lines)@,
{
    match first_char(line) {
        None => {
            let old_line = String::new();
            let new_line = String::new();
            proof {
                lemma_texts_push(old_lines@, old_line);
                lemma_texts_push(new_lines@, new_line);
                assert(old_line@ =~= line@);
                assert(new_line@ =~= line@);
            }
            old_lines.push(old_line);
            new_lines.push(new_line);
            true
        },
        Some(c) => {
            if c == ' ' {
                let old_line = without_first(line).to_owned();
                let new_line = without_first(line).to_owned();
                proof {
                    lemma_texts_push(old_lines@, old_line);
                    lemma_texts_push(new_lines@, new_line);
                }
                old_lines.push(old_line);
                new_lines.push(new_line);
                true
            } else if c == '+' {
                let new_line = without_first(line).to_owned();
                proof {
                    lemma_texts_push(new_lines@, new_line);
                }
                new_lines.push(new_line);
                true
            } else if c == '-' {
                let old_line = without_first(line).to_owned();
                proof {
                    lemma_texts_push(old_lines@, old_line);
                }
                old_lines.push(old_line);
                true
            } else {
                false
            }
        },
    }
}

/// Parses the chunk at the start of `lines`, the first of which stands at `line_number`. Returns
/// it with the number of lines it takes up.
pub fn parse_update_file_chunk(
    lines: &[String],
    line_number: usize,
    allow_missing_context: bool,
) -> (r: Result<(UpdateFileChunk, usize), ParseError>)
    requires
        line_number < usize::MAX,
    ensures
        agrees(r, chunk_of(texts(lines@), line_number as nat, allow_missing_context)),
{
    let ghost all = texts(lines@);
    if lines.len() == 0 {
        return Err(
            hunk_error("Update hunk does not contain any lines".to_owned(), line_number),
        );
    }
    let context = parse_context(lines[0].as_str());
    let start: usize = match &context {
        Some(_) => 1,
        None => 0,
    };
    if context.is_none() && !allow_missing_context {
        return Err(
            hunk_error(
                concat3(
                    "Expected update hunk to start with a @@ context marker, got: '",
                    lines[0].as_str(),
                    "'",
                ),
                line_number,
            ),
        );
    }
    if start >= lines.len() {
        return Err(
            hunk_error("Update hunk does not contain any lines".to_owned(), line_number + 1),
        );
    }
    let change_context: Option<String> = match context {
        Some(text) => text,
        None => None,
    };
    let mut old_lines: Vec<String> = Vec::new();
    let mut new_lines: Vec<String> = Vec::new();
    let mut index: usize = start;
    let ghost body = all.skip(start as int);
    proof {
        assert(body.take(0) =~= seq![]);
        assert(texts(old_lines@) =~= seq![]);
        assert(texts(new_lines@) =~= seq![]);
    }
    while index < lines.len()
        invariant
            start <= index <= lines.len(),
            all == texts(lines@),
            body == all.skip(start as int),
            forall|k: int| 0 <= k < index - start ==> is_change_line(#[trigger] body[k]),
            texts(old_lines@) == old_side(body.take(index - start)),
            texts(new_lines@) == new_side(body.take(index - start)),
        ensures
            index < lines.len() ==> !is_change_line(body[index - start]),
        decreases lines.len() - index,
    {
        assert(body[index - start] == lines@[index as int]@);
        assert(body.take(index - start + 1).drop_last() =~= body.take(index - start));
        if !push_change_line(lines[index].as_str(), &mut old_lines, &mut new_lines) {
            break;
        }
        index += 1;
    }
    proof {
        lemma_body_len_is(body, index - start);
    }
    if index < lines.len() {
        assert(body[index - start] == lines@[index as int]@);
    }
    let is_end_of_file = index < lines.len() && same_text(lines[index].as_str(), EOF_MARKER);
    if index == start {
        if is_end_of_file {
            return Err(
                hunk_error("Update hunk does not contain any lines".to_owned(), line_number + 1),
            );
        }
        return Err(
            hunk_error(
                concat3(
                    "Unexpected line found in update hunk: '",
                    lines[index].as_str(),
                    "'. Every line should start with ' ' (context line), '+' (added line), or '-' (removed line)",
                ),
                line_number + 1,
            ),
        );
    }
    let taken: usize = if is_end_of_file {
        index + 1
    } else {
        index
    };
    Ok((UpdateFileChunk { change_context, old_lines, new_lines, is_end_of_file }, taken))
}

/// Parses the added lines at the start of `lines`. Returns the text they spell with their number.
fn parse_added_lines(lines: &[String]) -> (r: (String, usize))
    ensures
        r.1 == added_len(texts(lines@)),
        r.0@ == added_text(texts(lines@).take(r.1 as int)),
{
    let ghost all = texts(lines@);
    let mut contents = String::new();
    let mut index: usize = 0;
    proof {
        assert(all.take(0) =~= seq![]);
        assert(contents@ =~= seq![]);
    }
    while index < lines.len()
        invariant
            index <= lines.len(),
            all == texts(lines@),
            forall|k: int| 0 <= k < index ==> #[trigger] all[k].len() > 0 && all[k][0] == '+',
            contents@ == added_text(all.take(index as int)),
        ensures
            index < lines.len() ==> all[index as int].len() == 0 || all[index as int][0] != '+',
        decreases lines.len() - index,
    {
        assert(all[index as int] == lines@[index as int]@);
        match first_char(lines[index].as_str()) {
            None => break,
            Some(c) => {
                if c != '+' {
                    break;
                }
            },
        }
        assert(all.take(index + 1).drop_last() =~= all.take(index as int));
        contents.append(without_first(lines[index].as_str()));
        contents.push('\n');
        index += 1;
    }
    proof {
        lemma_added_len_is(all, index as int);
    }
    (contents, index)
}

/// What chunks already parsed, together with those still to come, add up to.
pub open spec fn after_chunks(
    done: Seq<ChunkModel>,
    used: nat,
    rest: Result<(Seq<ChunkModel>, nat), ErrorModel>,
) -> Result<(Seq<ChunkModel>, nat), ErrorModel> {
    match rest {
        Ok((chunks, more)) => Ok((done + chunks, used + more)),
        Err(error) => Err(error),
    }
}

/// Parses the chunks at the start of `lines`, the first of which stands at `line_number`. Returns
/// them with the number of lines they take up.
fn parse_chunks(
    lines: &[String],
    line_number: usize,
) -> (r: Result<(Vec<UpdateFileChunk>, usize), ParseError>)
    requires
        line_number + lines@.len() <= usize::MAX,
    ensures
        (match r {
            Ok((chunks, used)) => chunks_of(texts(lines@), line_number as nat, true) == Ok::<
                (Seq<ChunkModel>, nat),
                ErrorModel,
            >((chunk_models(chunks@), used as nat)) && used <= lines@.len(),
            Err(error) => chunks_of(texts(lines@), line_number as nat, true) == Err::<
                (Seq<ChunkModel>, nat),
                ErrorModel,
            >(error@),
        }),
{
    let ghost all = texts(lines@);
    let ghost meaning = chunks_of(all, line_number as nat, true);
    let mut chunks: Vec<UpdateFileChunk> = Vec::new();
    let mut used: usize = 0;
    proof {
        assert(all.skip(0) =~= all);
        assert(chunk_models(chunks@) =~= seq![]);
        match meaning {
            Ok((parts, _)) => assert(seq![] + parts =~= parts),
            Err(_) => {},
        }
    }
    while used < lines.len()
        invariant
            used <= lines.len(),
            line_number + lines@.len() <= usize::MAX,
            all == texts(lines@),
            meaning == chunks_of(all, line_number as nat, true),
            meaning == after_chunks(
                chunk_models(chunks@),
                used as nat,
                chunks_of(
                    all.skip(used as int),
                    (line_number + used) as nat,
                    chunks@.len() == 0,
                ),
            ),
        ensures
            meaning == Ok::<(Seq<ChunkModel>, nat), ErrorModel>(
                (chunk_models(chunks@), used as nat),
            ),
        decreases lines.len() - used,
    {
        let ghost rest = all.skip(used as int);
        let line = lines[used].as_str();
        assert(rest[0] == line@);
        if trim(line).is_empty() {
            assert(rest.skip(1) =~= all.skip(used + 1));
            used += 1;
            continue;
        }
        assert(line@.len() > 0);
        if first_char(line) == Some('*') {
            assert(chunk_models(chunks@) + seq![] =~= chunk_models(chunks@));
            break;
        }
        let remaining = slice_subrange(lines, used, lines.len());
        assert(texts(remaining@) =~= rest);
        proof {
            lemma_chunk_taken(rest, (line_number + used) as nat, chunks@.len() == 0);
        }
        match parse_update_file_chunk(remaining, line_number + used, chunks.is_empty()) {
            Ok((chunk, taken)) => {
                proof {
                    lemma_chunk_models_push(chunks@, chunk);
                    assert(rest.skip(taken as int) =~= all.skip(used + taken));
                    match chunks_of(
                        all.skip(used + taken),
                        (line_number + used + taken) as nat,
                        false,
                    ) {
                        Ok((parts, _)) => assert(chunk_models(chunks@) + (seq![chunk@] + parts)
                            =~= chunk_models(chunks@).push(chunk@) + parts),
                        Err(_) => {},
                    }
                }
                chunks.push(chunk);
                used += taken;
            },
            Err(error) => return Err(error),
        }
    }
    Ok((chunks, used))
}

/// Attempts to parse a single hunk from the start of lines.
/// Returns the parsed hunk and the number of lines parsed (or a ParseError).
pub fn parse_one_hunk(
    lines: &[String],
    line_number: usize,
) -> (r: Result<(Hunk, usize), ParseError>)
    requires
        lines@.len() > 0,
        line_number + lines@.len() <= usize::MAX,
    ensures
        agrees(r, hunk_of(texts(lines@), line_number as nat)),
{
    let ghost all = texts(lines@);
    let first_line = trim(lines[0].as_str());
    let rest = slice_subrange(lines, 1, lines.len());
    proof {
        assert(texts(rest@) =~= all.skip(1));
        assert(all[0] == lines@[0]@);
    }
    if let Some(path) = strip_prefix(first_line, ADD_FILE_MARKER) {
        let (contents, added) = parse_added_lines(rest);
        proof {
            lemma_added_len(all.skip(1));
        }
        return Ok((Hunk::AddFile { path: path.to_owned(), contents }, added + 1));
    }
    if let Some(path) = strip_prefix(first_line, DELETE_FILE_MARKER) {
        return Ok((Hunk::DeleteFile { path: path.to_owned() }, 1));
    }
    if let Some(path) = strip_prefix(first_line, UPDATE_FILE_MARKER) {
        let mut move_path: Option<String> = None;
        let mut parsed_lines: usize = 1;
        if rest.len() > 0 {
            assert(all.skip(1)[0] == rest@[0]@);
            if let Some(destination) = strip_prefix(rest[0].as_str(), MOVE_TO_MARKER) {
                move_path = Some(destination.to_owned());
                parsed_lines = 2;
            }
        }
        let remaining = slice_subrange(lines, parsed_lines, lines.len());
        assert(texts(remaining@) =~= all.skip(1).skip(parsed_lines - 1));
        match parse_chunks(remaining, line_number + parsed_lines) {
            Ok((chunks, used)) => {
                if chunks.is_empty() {
                    return Err(
                        hunk_error(
                            concat3("Update file hunk for path '", path, "' is empty"),
                            line_number,
                        ),
                    );
                }
                return Ok(
                    (
                        Hunk::UpdateFile { path: path.to_owned(), move_path, chunks },
                        parsed_lines + used,
                    ),
                );
            },
            Err(error) => return Err(error),
        }
    }
    Err(
        hunk_error(
            concat3(
                "'",
                first_line,
                "' is not a valid hunk header. Valid hunk headers: '*** Add File: {path}', '*** Delete File: {path}', '*** Update File: {path}'",
            ),
            line_number,
        ),
    )
}

/// Checks the first and last line of a patch.
fn check_start_and_end_lines_strict(
    first_line: Option<&str>,
    last_line: Option<&str>,
) -> (r: Result<(), ParseError>)
    requires
        first_line is Some <==> last_line is Some,
    ensures
        (match r {
            Ok(_) => first_line is Some && boundary_error(seq![first_line->0@, last_line->0@])
                is None,
            Err(error) => Some(error@) == (match first_line {
                Some(first) => boundary_error(seq![first@, last_line->0@]),
                None => boundary_error(seq![]),
            }),
        }),
{
    if let Some(first) = first_line {
        if !same_text(trim(first), BEGIN_PATCH_MARKER) {
            return Err(
                ParseError::InvalidPatchError(
                    "The first line of the patch must be '*** Begin Patch'".to_owned(),
                ),
            );
        }
    }
    if let Some(last) = last_line {
        if same_text(trim(last), END_PATCH_MARKER) {
            return Ok(());
        }
    }
    Err(
        ParseError::InvalidPatchError(
            "The last line of the patch must be '*** End Patch'".to_owned(),
        ),
    )
}

/// Checks the start and end lines of the patch text for `apply_patch`,
/// returning an error if they do not match the expected markers.
fn check_patch_boundaries_strict(lines: &[String]) -> (r: Result<(), ParseError>)
    ensures
        (match r {
            Ok(_) => boundary_error(texts(lines@)) is None,
            Err(error) => boundary_error(texts(lines@)) == Some(error@),
        }),
{
    let ghost all = texts(lines@);
    if lines.len() == 0 {
        check_start_and_end_lines_strict(None, None)
    } else {
        proof {
            assert(all[0] == lines@[0]@);
            assert(all.last() == lines@[lines@.len() - 1]@);
        }
        check_start_and_end_lines_strict(
            Some(lines[0].as_str()),
            Some(lines[lines.len() - 1].as_str()),
        )
    }
}

/// Returns what stands between the first and the last line of a text.
fn strip_outer_lines(text: &str) -> (r: &str)
    ensures
        r@ == inner_text(text@),
{
    let chars = chars_of(text);
    let start: usize = find(chars.as_slice(), '\n');
    let after: usize = find_after_last(chars.as_slice(), '\n');
    proof {
        lemma_find_char(text@, '\n');
        lemma_last_place_bounds(text@, '\n');
    }
    if start < chars.len() && start + 1 < after {
        text.substring_char(start + 1, after - 1)
    } else {
        let r = text.substring_char(0, 0);
        assert(r@ =~= inner_text(text@));
        r
    }
}

/// If the lines of a text are a patch, returns them. If the first line starts with `<<EOF`
/// (possibly quoted) and the last line ends in `EOF`, takes what stands between these two for the
/// text of the patch, and returns the lines of that. There must be at least 4 lines then, because
/// the heredoc markers take up 2 lines and the patch text must have at least 2 lines.
fn check_patch_boundaries_lenient(text: &str) -> (r: Result<Vec<String>, ParseError>)
    ensures
        (match r {
            Ok(lines) => patch_lines_of(text@, ParseMode::Lenient) == Ok::<
                Seq<Seq<char>>,
                ErrorModel,
            >(texts(lines@)),
            Err(error) => patch_lines_of(text@, ParseMode::Lenient) == Err::<
                Seq<Seq<char>>,
                ErrorModel,
            >(error@),
        }),
{
    let trimmed = trim(text);
    let all = lines(trimmed);
    let ghost whole = texts(all@);
    let original_error = match check_patch_boundaries_strict(all.as_slice()) {
        Ok(_) => return Ok(all),
        Err(error) => error,
    };
    if all.len() < 4 {
        return Err(original_error);
    }
    proof {
        assert(whole[0] == all@[0]@);
        assert(whole.last() == all@[all@.len() - 1]@);
    }
    let first = all[0].as_str();
    let last = all[all.len() - 1].as_str();
    if (starts_with(first, "<<EOF") || starts_with(first, "<<'EOF'") || starts_with(
        first,
        "<<\"EOF\"",
    )) && ends_with(last, "EOF") {
        let inner = lines(trim(strip_outer_lines(trimmed)));
        match check_patch_boundaries_strict(inner.as_slice()) {
            Ok(_) => Ok(inner),
            Err(error) => Err(error),
        }
    } else {
        Err(original_error)
    }
}

/// What hunks already parsed, together with those still to come, add up to.
pub open spec fn after_hunks(
    done: Seq<HunkModel>,
    rest: Result<Seq<HunkModel>, ErrorModel>,
) -> Result<Seq<HunkModel>, ErrorModel> {
    match rest {
        Ok(hunks) => Ok(done + hunks),
        Err(error) => Err(error),
    }
}

/// Parses a patch.
pub fn parse_patch_text(patch: &str, mode: ParseMode) -> (r: Result<ApplyPatchArgs, ParseError>)
    ensures
        (match r {
            Ok(args) => patch_of(patch@, mode) == Ok::<PatchModel, ErrorModel>(args@),
            Err(error) => patch_of(patch@, mode) == Err::<PatchModel, ErrorModel>(error@),
        }),
{
    let patch_lines = match mode {
        ParseMode::Strict => {
            let all = lines(trim(patch));
            match check_patch_boundaries_strict(all.as_slice()) {
                Ok(_) => all,
                Err(error) => return Err(error),
            }
        },
        ParseMode::Lenient => match check_patch_boundaries_lenient(patch) {
            Ok(lines) => lines,
            Err(error) => return Err(error),
        },
    };
    let ghost whole = texts(patch_lines@);
    assert(whole.len() >= 2) by {
        lemma_boundaries(whole);
    }
    let hunk_lines = slice_subrange(patch_lines.as_slice(), 1, patch_lines.len() - 1);
    let ghost body = texts(hunk_lines@);
    assert(body =~= whole.subrange(1, whole.len() - 1));
    let ghost meaning = hunks_of(body, 2);
    let mut hunks: Vec<Hunk> = Vec::new();
    let mut used: usize = 0;
    proof {
        assert(body.skip(0) =~= body);
        assert(hunk_models(hunks@) =~= seq![]);
        match meaning {
            Ok(parts) => assert(seq![] + parts =~= parts),
            Err(_) => {},
        }
    }
    while used < hunk_lines.len()
        invariant
            used <= hunk_lines.len(),
            hunk_lines@.len() + 2 <= usize::MAX,
            body == texts(hunk_lines@),
            meaning == hunks_of(body, 2),
            meaning == after_hunks(
                hunk_models(hunks@),
                hunks_of(body.skip(used as int), (2 + used) as nat),
            ),
            patch_lines_of(patch@, mode) == Ok::<Seq<Seq<char>>, ErrorModel>(whole),
            body == whole.subrange(1, whole.len() - 1),
        decreases hunk_lines.len() - used,
    {
        let ghost rest = body.skip(used as int);
        let remaining = slice_subrange(hunk_lines, used, hunk_lines.len());
        assert(texts(remaining@) =~= rest);
        proof {
            lemma_hunk_taken(rest, (2 + used) as nat);
        }
        match parse_one_hunk(remaining, 2 + used) {
            Ok((hunk, taken)) => {
                proof {
                    lemma_hunk_models_push(hunks@, hunk);
                    assert(rest.skip(taken as int) =~= body.skip(used + taken));
                    match hunks_of(body.skip(used + taken), (2 + used + taken) as nat) {
                        Ok(parts) => assert(hunk_models(hunks@) + (seq![hunk@] + parts)
                            =~= hunk_models(hunks@).push(hunk@) + parts),
                        Err(_) => {},
                    }
                }
                hunks.push(hunk);
                used += taken;
            },
            Err(error) => return Err(error),
        }
    }
    proof {
        assert(hunk_models(hunks@) + seq![] =~= hunk_models(hunks@));
    }
    let patch = join(patch_lines.as_slice(), "\n");
    Ok(ApplyPatchArgs { patch, hunks, workdir: None })
}

/// A patch with the right boundary lines has two of them.
pub proof fn lemma_boundaries(lines: Seq<Seq<char>>)
    requires
        boundary_error(lines) is None,
    ensures
        lines.len() >= 2,
{
    if lines.len() == 1 {
        reveal_strlit("*** Begin Patch");
        reveal_strlit("*** End Patch");
        assert(BEGIN_PATCH_MARKER@.len() != END_PATCH_MARKER@.len());
    }
}

/// Parses a patch, also one that is wrapped in a heredoc.
pub fn parse_patch(patch: &str) -> (r: Result<ApplyPatchArgs, ParseError>)
    ensures
        (match r {
            Ok(args) => patch_of(patch@, ParseMode::Lenient) == Ok::<PatchModel, ErrorModel>(args@),
            Err(error) => patch_of(patch@, ParseMode::Lenient) == Err::<PatchModel, ErrorModel>(
                error@,
            ),
        }),
{
    parse_patch_text(patch, ParseMode::Lenient)
}

} // verus!
