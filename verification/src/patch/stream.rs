//! Following a patch while it is still being written.
use crate::patch::batch::{
    add_new, add_old, context_of, is_change_line, parse_context, push_change_line,
};
use crate::patch::model::{
    chunk_models, copy_chunks, copy_hunks, header_of, hunk_models,
    lemma_chunk_models_push, lemma_hunk_models_push, ChunkModel, HeaderModel, Hunk, HunkModel,
    UpdateFileChunk, ADD_FILE_MARKER, BEGIN_PATCH_MARKER, DELETE_FILE_MARKER, END_PATCH_MARKER,
    EOF_MARKER, MOVE_TO_MARKER, UPDATE_FILE_MARKER,
};
use crate::text::{
    copy_option, first_char, opt_text, same_text, strip, strip_prefix, trim, trim_cr,
    trim_cr_of, trim_of, without_first,
};
use vstd::prelude::*;
use vstd::string::*;

verus! {

// ---------------------------------------------------------------------------------------------
// What a patch in the making means
// ---------------------------------------------------------------------------------------------

/// Where in a patch its last complete line has led.
pub enum PhaseModel {
    NotStarted,
    StartedPatch,
    AddFile { path: Seq<char>, contents: Seq<char> },
    DeleteFile { path: Seq<char> },
    UpdateFile {
        path: Seq<char>,
        move_path: Option<Seq<char>>,
        can_accept_move: bool,
        chunks: Seq<ChunkModel>,
        current_chunk: Option<ChunkModel>,
    },
    EndedPatch,
    Invalid,
}

/// What a [`StreamingPatchParser`] has made of the text so far: the beginning of the line that is
/// not complete yet, the place in the patch, and the hunks that are complete.
pub struct StreamModel {
    pub line_buffer: Seq<char>,
    pub phase: PhaseModel,
    pub hunks: Seq<HunkModel>,
}

/// Whether there is anything in a chunk.
pub open spec fn counts(chunk: ChunkModel) -> bool {
    chunk.old_lines.len() > 0 || chunk.new_lines.len() > 0 || chunk.is_end_of_file
}

/// A chunk with nothing in it yet.
pub open spec fn empty_chunk(change_context: Option<Seq<char>>) -> ChunkModel {
    ChunkModel { change_context, old_lines: seq![], new_lines: seq![], is_end_of_file: false }
}

/// The chunks of an update, the one being written last, if there is anything in it.
pub open spec fn settled(chunks: Seq<ChunkModel>, current_chunk: Option<ChunkModel>) -> Seq<
    ChunkModel,
> {
    match current_chunk {
        Some(chunk) => if counts(chunk) {
            chunks.push(chunk)
        } else {
            chunks
        },
        None => chunks,
    }
}

/// The hunk being written. An update appears once there is anything in it.
pub open spec fn pending_hunk(phase: PhaseModel) -> Option<HunkModel> {
    match phase {
        PhaseModel::AddFile { path, contents } => Some(HunkModel::AddFile { path, contents }),
        PhaseModel::DeleteFile { path } => Some(HunkModel::DeleteFile { path }),
        PhaseModel::UpdateFile { path, move_path, chunks, current_chunk, .. } => {
            let all = settled(chunks, current_chunk);
            if all.len() > 0 {
                Some(HunkModel::UpdateFile { path, move_path, chunks: all })
            } else {
                None
            }
        },
        _ => None,
    }
}

/// The complete hunks, then the one being written.
pub open spec fn visible_hunks(phase: PhaseModel, hunks: Seq<HunkModel>) -> Seq<HunkModel> {
    match pending_hunk(phase) {
        Some(hunk) => hunks.push(hunk),
        None => hunks,
    }
}

/// The place in the patch behind a header.
pub open spec fn opened(header: HeaderModel) -> PhaseModel {
    match header {
        HeaderModel::Add(path) => PhaseModel::AddFile { path, contents: seq![] },
        HeaderModel::Delete(path) => PhaseModel::DeleteFile { path },
        HeaderModel::Update(path) => PhaseModel::UpdateFile {
            path,
            move_path: None,
            can_accept_move: true,
            chunks: seq![],
            current_chunk: None,
        },
    }
}

/// A chunk with one line more. A line that is no change line leaves it as it is.
pub open spec fn chunk_with(chunk: ChunkModel, line: Seq<char>) -> ChunkModel {
    if is_change_line(line) {
        ChunkModel {
            old_lines: add_old(chunk.old_lines, line),
            new_lines: add_new(chunk.new_lines, line),
            ..chunk
        }
    } else {
        chunk
    }
}

/// Where a line inside an update leads that is neither a header nor the end of the patch: the
/// destination of a rename, which only the lines at the start of the update can be; the context
/// of the next chunk; the end of the file; or a line of the chunk being written.
pub open spec fn update_line(
    path: Seq<char>,
    move_path: Option<Seq<char>>,
    can_accept_move: bool,
    chunks: Seq<ChunkModel>,
    current_chunk: Option<ChunkModel>,
    line: Seq<char>,
) -> PhaseModel {
    let trimmed = trim_of(line);
    let destination = strip(trimmed, MOVE_TO_MARKER@);
    if can_accept_move && move_path is None && destination is Some {
        PhaseModel::UpdateFile {
            path,
            move_path: destination,
            can_accept_move,
            chunks,
            current_chunk,
        }
    } else {
        match context_of(trimmed) {
            Some(context) => PhaseModel::UpdateFile {
                path,
                move_path,
                can_accept_move: false,
                chunks: settled(chunks, current_chunk),
                current_chunk: Some(empty_chunk(context)),
            },
            None => if trimmed == EOF_MARKER@ {
                PhaseModel::UpdateFile {
                    path,
                    move_path,
                    can_accept_move: false,
                    chunks: match current_chunk {
                        Some(chunk) => chunks.push(ChunkModel { is_end_of_file: true, ..chunk }),
                        None => chunks,
                    },
                    current_chunk: None,
                }
            } else {
                PhaseModel::UpdateFile {
                    path,
                    move_path,
                    can_accept_move: false,
                    chunks,
                    current_chunk: Some(
                        chunk_with(
                            match current_chunk {
                                Some(chunk) => chunk,
                                None => empty_chunk(None),
                            },
                            line,
                        ),
                    ),
                }
            },
        }
    }
}

/// Where a line inside a hunk leads that is neither a header nor the end of the patch.
pub open spec fn hunk_line(phase: PhaseModel, line: Seq<char>) -> PhaseModel {
    match phase {
        PhaseModel::AddFile { path, contents } => if line.len() > 0 && line[0] == '+' {
            PhaseModel::AddFile { path, contents: (contents + line.skip(1)).push('\n') }
        } else {
            phase
        },
        PhaseModel::UpdateFile { path, move_path, can_accept_move, chunks, current_chunk } =>
            update_line(path, move_path, can_accept_move, chunks, current_chunk, line),
        _ => phase,
    }
}

/// Where a complete line leads, and the hunks that are complete then.
pub open spec fn next_line(phase: PhaseModel, hunks: Seq<HunkModel>, line: Seq<char>) -> (
    PhaseModel,
    Seq<HunkModel>,
) {
    match phase {
        PhaseModel::NotStarted => if trim_of(line) == BEGIN_PATCH_MARKER@ {
            (PhaseModel::StartedPatch, hunks)
        } else {
            (PhaseModel::Invalid, hunks)
        },
        PhaseModel::EndedPatch => (phase, hunks),
        PhaseModel::Invalid => (phase, hunks),
        _ => if trim_of(line) == END_PATCH_MARKER@ {
            (PhaseModel::EndedPatch, visible_hunks(phase, hunks))
        } else {
            match header_of(line) {
                Some(header) => (opened(header), visible_hunks(phase, hunks)),
                None => (hunk_line(phase, line), hunks),
            }
        },
    }
}

/// What one character more makes of the text so far.
pub open spec fn push_char(stream: StreamModel, c: char) -> StreamModel {
    if c == '\n' {
        let (phase, hunks) = next_line(
            stream.phase,
            stream.hunks,
            trim_cr_of(stream.line_buffer),
        );
        StreamModel { line_buffer: seq![], phase, hunks }
    } else {
        StreamModel { line_buffer: stream.line_buffer.push(c), ..stream }
    }
}

/// What more text makes of the text so far.
pub open spec fn push_text(stream: StreamModel, text: Seq<char>) -> StreamModel
    decreases text.len(),
{
    if text.len() == 0 {
        stream
    } else {
        push_char(push_text(stream, text.drop_last()), text.last())
    }
}

/// Before any text.
pub open spec fn empty_stream() -> StreamModel {
    StreamModel { line_buffer: seq![], phase: PhaseModel::NotStarted, hunks: seq![] }
}

/// The hunks that the text so far shows.
pub open spec fn shown(stream: StreamModel) -> Seq<HunkModel> {
    visible_hunks(stream.phase, stream.hunks)
}

// ---------------------------------------------------------------------------------------------
// The parser
// ---------------------------------------------------------------------------------------------

#[derive(Debug)]
enum StreamingParserState {
    NotStarted,
    StartedPatch,
    AddFile { path: String, contents: String },
    DeleteFile { path: String },
    UpdateFile {
        path: String,
        move_path: Option<String>,
        can_accept_move: bool,
        chunks: Vec<UpdateFileChunk>,
        current_chunk: Option<UpdateFileChunk>,
    },
    EndedPatch,
    Invalid,
}

spec fn opt_chunk(chunk: Option<UpdateFileChunk>) -> Option<ChunkModel> {
    match chunk {
        Some(chunk) => Some(chunk@),
        None => None,
    }
}

impl View for StreamingParserState {
    type V = PhaseModel;

    closed spec fn view(&self) -> PhaseModel {
        match self {
            StreamingParserState::NotStarted => PhaseModel::NotStarted,
            StreamingParserState::StartedPatch => PhaseModel::StartedPatch,
            StreamingParserState::AddFile { path, contents } => PhaseModel::AddFile {
                path: path@,
                contents: contents@,
            },
            StreamingParserState::DeleteFile { path } => PhaseModel::DeleteFile { path: path@ },
            StreamingParserState::UpdateFile {
                path,
                move_path,
                can_accept_move,
                chunks,
                current_chunk,
            } => PhaseModel::UpdateFile {
                path: path@,
                move_path: opt_text(*move_path),
                can_accept_move: *can_accept_move,
                chunks: chunk_models(chunks@),
                current_chunk: opt_chunk(*current_chunk),
            },
            StreamingParserState::EndedPatch => PhaseModel::EndedPatch,
            StreamingParserState::Invalid => PhaseModel::Invalid,
        }
    }
}

/// Follows a patch that arrives piece by piece, and shows its hunks as far as complete lines
/// have spelled them.
#[derive(Debug)]
pub struct StreamingPatchParser {
    line_buffer: String,
    state: StreamingParserState,
    hunks: Vec<Hunk>,
}

impl View for StreamingPatchParser {
    type V = StreamModel;

    closed spec fn view(&self) -> StreamModel {
        StreamModel {
            line_buffer: self.line_buffer@,
            phase: self.state@,
            hunks: hunk_models(self.hunks@),
        }
    }
}

impl Default for StreamingPatchParser {
    fn default() -> (r: Self)
        ensures
            r@ == empty_stream(),
    {
        let r = StreamingPatchParser {
            line_buffer: String::new(),
            state: StreamingParserState::NotStarted,
            hunks: Vec::new(),
        };
        assert(r@.line_buffer =~= seq![]);
        assert(r@.hunks =~= seq![]);
        r
    }
}

/// Tells whether there is anything in a chunk.
fn chunk_counts(chunk: &UpdateFileChunk) -> (r: bool)
    ensures
        r == counts(chunk@),
{
    !chunk.old_lines.is_empty() || !chunk.new_lines.is_empty() || chunk.is_end_of_file
}

/// Returns the chunks with the one being written behind them, if there is anything in it.
fn settle(chunks: Vec<UpdateFileChunk>, current_chunk: Option<UpdateFileChunk>) -> (r: Vec<
    UpdateFileChunk,
>)
    ensures
        chunk_models(r@) == settled(chunk_models(chunks@), opt_chunk(current_chunk)),
{
    let mut chunks = chunks;
    if let Some(chunk) = current_chunk {
        if chunk_counts(&chunk) {
            proof {
                lemma_chunk_models_push(chunks@, chunk);
            }
            chunks.push(chunk);
        }
    }
    chunks
}

/// Returns a chunk with nothing in it.
fn new_chunk(change_context: Option<String>) -> (r: UpdateFileChunk)
    ensures
        r@ == empty_chunk(opt_text(change_context)),
{
    let r = UpdateFileChunk {
        change_context,
        old_lines: Vec::new(),
        new_lines: Vec::new(),
        is_end_of_file: false,
    };
    assert(r@.old_lines =~= seq![]);
    assert(r@.new_lines =~= seq![]);
    r
}

/// Returns the place in the patch behind a line, if the line is a header.
fn open_header(line: &str) -> (r: Option<StreamingParserState>)
    ensures
        (match r {
            Some(state) => header_of(line@) is Some && state@ == opened(header_of(line@)->0),
            None => header_of(line@) is None,
        }),
{
    let trimmed = trim(line);
    if let Some(path) = strip_prefix(trimmed, ADD_FILE_MARKER) {
        let contents = String::new();
        assert(contents@ =~= seq![]);
        return Some(StreamingParserState::AddFile { path: path.to_owned(), contents });
    }
    if let Some(path) = strip_prefix(trimmed, DELETE_FILE_MARKER) {
        return Some(StreamingParserState::DeleteFile { path: path.to_owned() });
    }
    if let Some(path) = strip_prefix(trimmed, UPDATE_FILE_MARKER) {
        let chunks: Vec<UpdateFileChunk> = Vec::new();
        assert(chunk_models(chunks@) =~= seq![]);
        return Some(
            StreamingParserState::UpdateFile {
                path: path.to_owned(),
                move_path: None,
                can_accept_move: true,
                chunks,
                current_chunk: None,
            },
        );
    }
    None
}

/// Returns where a line inside an update leads that is neither a header nor the end of the patch.
fn process_update_line(
    path: String,
    move_path: Option<String>,
    can_accept_move: bool,
    chunks: Vec<UpdateFileChunk>,
    current_chunk: Option<UpdateFileChunk>,
    line: &str,
) -> (r: StreamingParserState)
    ensures
        r@ == update_line(
            path@,
            opt_text(move_path),
            can_accept_move,
            chunk_models(chunks@),
            opt_chunk(current_chunk),
            line@,
        ),
{
    let trimmed = trim(line);
    if can_accept_move && move_path.is_none() {
        if let Some(destination) = strip_prefix(trimmed, MOVE_TO_MARKER) {
            return StreamingParserState::UpdateFile {
                path,
                move_path: Some(destination.to_owned()),
                can_accept_move,
                chunks,
                current_chunk,
            };
        }
    }
    if let Some(change_context) = parse_context(trimmed) {
        return StreamingParserState::UpdateFile {
            path,
            move_path,
            can_accept_move: false,
            chunks: settle(chunks, current_chunk),
            current_chunk: Some(new_chunk(change_context)),
        };
    }
    if same_text(trimmed, EOF_MARKER) {
        let mut chunks = chunks;
        if let Some(chunk) = current_chunk {
            let mut chunk = chunk;
            chunk.is_end_of_file = true;
            proof {
                lemma_chunk_models_push(chunks@, chunk);
            }
            chunks.push(chunk);
        }
        return StreamingParserState::UpdateFile {
            path,
            move_path,
            can_accept_move: false,
            chunks,
            current_chunk: None,
        };
    }
    let mut chunk = match current_chunk {
        Some(chunk) => chunk,
        None => new_chunk(None),
    };
    let mut old_lines: Vec<String> = Vec::new();
    let mut new_lines: Vec<String> = Vec::new();
    core::mem::swap(&mut old_lines, &mut chunk.old_lines);
    core::mem::swap(&mut new_lines, &mut chunk.new_lines);
    let is_change = push_change_line(line, &mut old_lines, &mut new_lines);
    chunk.old_lines = old_lines;
    chunk.new_lines = new_lines;
    StreamingParserState::UpdateFile {
        path,
        move_path,
        can_accept_move: false,
        chunks,
        current_chunk: Some(chunk),
    }
}

/// Returns the hunk being written.
fn finish_hunk(state: StreamingParserState) -> (r: Option<Hunk>)
    ensures
        pending_hunk(state@) == (match r {
            Some(hunk) => Some(hunk@),
            None => None,
        }),
{
    match state {
        StreamingParserState::AddFile { path, contents } => Some(Hunk::AddFile { path, contents }),
        StreamingParserState::DeleteFile { path } => Some(Hunk::DeleteFile { path }),
        StreamingParserState::UpdateFile { path, move_path, chunks, current_chunk, .. } => {
            let chunks = settle(chunks, current_chunk);
            if chunks.is_empty() {
                None
            } else {
                Some(Hunk::UpdateFile { path, move_path, chunks })
            }
        },
        _ => None,
    }
}

impl StreamingPatchParser {
    /// Takes in more text and returns the hunks that the text so far shows, if there are any.
    pub fn push_delta(&mut self, delta: &str) -> (r: Option<Vec<Hunk>>)
        ensures
            final(self)@ == push_text(old(self)@, delta@),
            (match r {
                Some(hunks) => hunks@.len() > 0 && hunk_models(hunks@) == shown(final(self)@),
                None => shown(final(self)@).len() == 0,
            }),
    {
        let ghost start = self@;
        for c in it: delta.chars()
            invariant
                it.seq() == delta@,
                self@ == push_text(start, delta@.take(it.index() as int)),
        {
            assert(delta@.take(it.index() as int + 1).drop_last() =~= delta@.take(
                it.index() as int,
            ));
            if c == '\n' {
                let mut line = String::new();
                core::mem::swap(&mut line, &mut self.line_buffer);
                self.process_line(trim_cr(line.as_str()));
                assert(self.line_buffer@ =~= seq![]);
            } else {
                self.line_buffer.push(c);
            }
        }
        assert(delta@.take(delta@.len() as int) =~= delta@);
        let hunks = self.current_hunks();
        if hunks.is_empty() {
            None
        } else {
            Some(hunks)
        }
    }

    /// Takes in a complete line. The line that is still arriving is left alone, the hunks that are
    /// complete stay, and at most one joins them at the end, on the line that ends the patch or on
    /// the header of the next hunk. A patch that has ended, or has turned out not to be one, stays
    /// as it is.
    pub fn process_line(&mut self, line: &str)
        ensures
            (final(self)@.phase, final(self)@.hunks) == next_line(
                old(self)@.phase,
                old(self)@.hunks,
                line@,
            ),
            final(self)@.line_buffer == old(self)@.line_buffer,
            final(self)@.hunks == old(self)@.hunks || exists|hunk: HunkModel|
                final(self)@.hunks == #[trigger] old(self)@.hunks.push(hunk),
            final(self)@.hunks != old(self)@.hunks ==> trim_of(line@) == END_PATCH_MARKER@
                || header_of(line@) is Some,
            old(self)@.phase is EndedPatch || old(self)@.phase is Invalid ==> final(self)@
                == old(self)@,
    {
        let mut state = StreamingParserState::Invalid;
        core::mem::swap(&mut state, &mut self.state);
        match state {
            StreamingParserState::NotStarted => {
                if same_text(trim(line), BEGIN_PATCH_MARKER) {
                    self.state = StreamingParserState::StartedPatch;
                }
            },
            StreamingParserState::EndedPatch => {
                self.state = StreamingParserState::EndedPatch;
            },
            StreamingParserState::Invalid => {},
            _ => {
                let next = if same_text(trim(line), END_PATCH_MARKER) {
                    Some(StreamingParserState::EndedPatch)
                } else {
                    open_header(line)
                };
                match next {
                    Some(next_state) => {
                        if let Some(hunk) = finish_hunk(state) {
                            proof {
                                lemma_hunk_models_push(self.hunks@, hunk);
                            }
                            self.hunks.push(hunk);
                        }
                        self.state = next_state;
                    },
                    None => {
                        self.state = process_hunk_line(state, line);
                    },
                }
            },
        }
    }

    /// Returns the hunks that the text so far shows.
    pub fn current_hunks(&self) -> (r: Vec<Hunk>)
        ensures
            hunk_models(r@) == shown(self@),
    {
        let mut hunks = copy_hunks(&self.hunks);
        if let Some(hunk) = finish_hunk(copy_state(&self.state)) {
            proof {
                lemma_hunk_models_push(hunks@, hunk);
            }
            hunks.push(hunk);
        }
        hunks
    }
}

/// Returns where a line inside a hunk leads that is neither a header nor the end of the patch.
fn process_hunk_line(state: StreamingParserState, line: &str) -> (r: StreamingParserState)
    ensures
        r@ == hunk_line(state@, line@),
{
    match state {
        StreamingParserState::AddFile { path, contents } => {
            let mut contents = contents;
            if first_char(line) == Some('+') {
                contents.append(without_first(line));
                contents.push('\n');
            }
            StreamingParserState::AddFile { path, contents }
        },
        StreamingParserState::UpdateFile {
            path,
            move_path,
            can_accept_move,
            chunks,
            current_chunk,
        } => process_update_line(path, move_path, can_accept_move, chunks, current_chunk, line),
        other => other,
    }
}

/// Returns a copy of a place in the patch.
fn copy_state(state: &StreamingParserState) -> (r: StreamingParserState)
    ensures
        r@ == state@,
{
    match state {
        StreamingParserState::NotStarted => StreamingParserState::NotStarted,
        StreamingParserState::StartedPatch => StreamingParserState::StartedPatch,
        StreamingParserState::AddFile { path, contents } => StreamingParserState::AddFile {
            path: path.clone(),
            contents: contents.clone(),
        },
        StreamingParserState::DeleteFile { path } => StreamingParserState::DeleteFile {
            path: path.clone(),
        },
        StreamingParserState::UpdateFile {
            path,
            move_path,
            can_accept_move,
            chunks,
            current_chunk,
        } => StreamingParserState::UpdateFile {
            path: path.clone(),
            move_path: copy_option(move_path),
            can_accept_move: *can_accept_move,
            chunks: copy_chunks(chunks),
            current_chunk: match current_chunk {
                Some(chunk) => Some(chunk.clone()),
                None => None,
            },
        },
        StreamingParserState::EndedPatch => StreamingParserState::EndedPatch,
        StreamingParserState::Invalid => StreamingParserState::Invalid,
    }
}

impl Clone for StreamingPatchParser {
    fn clone(&self) -> (r: Self)
        ensures
            r@ == self@,
    {
        StreamingPatchParser {
            line_buffer: self.line_buffer.clone(),
            state: copy_state(&self.state),
            hunks: copy_hunks(&self.hunks),
        }
    }
}

} // verus!
