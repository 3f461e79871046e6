//! The patches that the grammar writes, what they mean, and that both parsers read them so.
use crate::patch::batch::{
    added_text, boundary_error, change_text, chunk_of, chunks_of, context_of, hunk_of, hunks_of,
    is_change_line, lemma_added_len_is, lemma_body_len_is, move_path_of, new_side, old_side,
    patch_of, update_of, ParseMode, PatchModel,
};
use crate::patch::model::{
    header_of, ChunkModel, ErrorModel, HeaderModel, HunkModel, ADD_FILE_MARKER,
    BEGIN_PATCH_MARKER, CHANGE_CONTEXT_MARKER, DELETE_FILE_MARKER, EMPTY_CHANGE_CONTEXT_MARKER,
    END_PATCH_MARKER, EOF_MARKER, MOVE_TO_MARKER, UPDATE_FILE_MARKER,
};
use crate::text::{
    chop_cr, is_space, join_of, lemma_join_cons, lemma_lines_join, lemma_trim_fixed, lines_of,
    one_line, strip, trim_of,
};
use vstd::prelude::*;

verus! {

// ---------------------------------------------------------------------------------------------
// The texts of the grammar
// ---------------------------------------------------------------------------------------------

/// What a change line does with its text. An empty line keeps an empty text.
pub enum ChangeKind {
    Kept,
    Blank,
    Added,
    Removed,
}

/// `change_line`
pub struct ChangeText {
    pub kind: ChangeKind,
    pub text: Seq<char>,
}

/// A `change_context`, if there is one, the change lines that follow it, and an `eof_line`, if
/// there is one. A context without text is the bare marker.
pub struct ChunkText {
    pub context: Option<Option<Seq<char>>>,
    pub changes: Seq<ChangeText>,
    pub ends_file: bool,
}

/// `hunk`
pub enum HunkText {
    Add { path: Seq<char>, lines: Seq<Seq<char>> },
    Delete { path: Seq<char> },
    Update { path: Seq<char>, move_to: Option<Seq<char>>, chunks: Seq<ChunkText> },
}

pub open spec fn sign(kind: ChangeKind) -> char {
    match kind {
        ChangeKind::Kept => ' ',
        ChangeKind::Blank => ' ',
        ChangeKind::Added => '+',
        ChangeKind::Removed => '-',
    }
}

pub open spec fn change_line(change: ChangeText) -> Seq<char> {
    if change.kind is Blank {
        seq![]
    } else {
        seq![sign(change.kind)] + change.text
    }
}

pub open spec fn change_lines(changes: Seq<ChangeText>) -> Seq<Seq<char>> {
    Seq::new(changes.len(), |i: int| change_line(changes[i]))
}

pub open spec fn context_line(context: Option<Seq<char>>) -> Seq<char> {
    match context {
        Some(text) => CHANGE_CONTEXT_MARKER@ + text,
        None => EMPTY_CHANGE_CONTEXT_MARKER@,
    }
}

pub open spec fn context_lines(context: Option<Option<Seq<char>>>) -> Seq<Seq<char>> {
    match context {
        Some(context) => seq![context_line(context)],
        None => seq![],
    }
}

pub open spec fn eof_lines(ends_file: bool) -> Seq<Seq<char>> {
    if ends_file {
        seq![EOF_MARKER@]
    } else {
        seq![]
    }
}

pub open spec fn chunk_lines(chunk: ChunkText) -> Seq<Seq<char>> {
    context_lines(chunk.context) + change_lines(chunk.changes) + eof_lines(chunk.ends_file)
}

pub open spec fn chunks_lines(chunks: Seq<ChunkText>) -> Seq<Seq<char>>
    decreases chunks.len(),
{
    if chunks.len() == 0 {
        seq![]
    } else {
        chunk_lines(chunks[0]) + chunks_lines(chunks.drop_first())
    }
}

pub open spec fn added_lines(lines: Seq<Seq<char>>) -> Seq<Seq<char>> {
    Seq::new(lines.len(), |i: int| seq!['+'] + lines[i])
}

pub open spec fn move_lines(move_to: Option<Seq<char>>) -> Seq<Seq<char>> {
    match move_to {
        Some(path) => seq![MOVE_TO_MARKER@ + path],
        None => seq![],
    }
}

/// The lines that a hunk is written in.
pub open spec fn hunk_lines(hunk: HunkText) -> Seq<Seq<char>> {
    match hunk {
        HunkText::Add { path, lines } => seq![ADD_FILE_MARKER@ + path] + added_lines(lines),
        HunkText::Delete { path } => seq![DELETE_FILE_MARKER@ + path],
        HunkText::Update { path, move_to, chunks } => seq![UPDATE_FILE_MARKER@ + path]
            + move_lines(move_to) + chunks_lines(chunks),
    }
}

pub open spec fn hunks_lines(hunks: Seq<HunkText>) -> Seq<Seq<char>>
    decreases hunks.len(),
{
    if hunks.len() == 0 {
        seq![]
    } else {
        hunk_lines(hunks[0]) + hunks_lines(hunks.drop_first())
    }
}

/// The lines that a patch is written in.
pub open spec fn patch_lines(hunks: Seq<HunkText>) -> Seq<Seq<char>> {
    seq![BEGIN_PATCH_MARKER@] + hunks_lines(hunks) + seq![END_PATCH_MARKER@]
}

/// The text that a patch is written in, without a line feed at its end.
pub open spec fn patch_text(hunks: Seq<HunkText>) -> Seq<char> {
    join_of(patch_lines(hunks), "\n"@)
}

// ---------------------------------------------------------------------------------------------
// What they mean
// ---------------------------------------------------------------------------------------------

/// The texts that changes keep or remove, in order.
pub open spec fn old_texts(changes: Seq<ChangeText>) -> Seq<Seq<char>>
    decreases changes.len(),
{
    if changes.len() == 0 {
        seq![]
    } else if changes.last().kind is Added {
        old_texts(changes.drop_last())
    } else {
        old_texts(changes.drop_last()).push(changes.last().text)
    }
}

/// The texts that changes keep or add, in order.
pub open spec fn new_texts(changes: Seq<ChangeText>) -> Seq<Seq<char>>
    decreases changes.len(),
{
    if changes.len() == 0 {
        seq![]
    } else if changes.last().kind is Removed {
        new_texts(changes.drop_last())
    } else {
        new_texts(changes.drop_last()).push(changes.last().text)
    }
}

pub open spec fn chunk_meaning(chunk: ChunkText) -> ChunkModel {
    ChunkModel {
        change_context: match chunk.context {
            Some(context) => context,
            None => None,
        },
        old_lines: old_texts(chunk.changes),
        new_lines: new_texts(chunk.changes),
        is_end_of_file: chunk.ends_file,
    }
}

pub open spec fn chunk_meanings(chunks: Seq<ChunkText>) -> Seq<ChunkModel> {
    Seq::new(chunks.len(), |i: int| chunk_meaning(chunks[i]))
}

/// The lines, each ended by a line feed.
pub open spec fn file_text(lines: Seq<Seq<char>>) -> Seq<char>
    decreases lines.len(),
{
    if lines.len() == 0 {
        seq![]
    } else {
        (file_text(lines.drop_last()) + lines.last()).push('\n')
    }
}

pub open spec fn hunk_meaning(hunk: HunkText) -> HunkModel {
    match hunk {
        HunkText::Add { path, lines } => HunkModel::AddFile { path, contents: file_text(lines) },
        HunkText::Delete { path } => HunkModel::DeleteFile { path },
        HunkText::Update { path, move_to, chunks } => HunkModel::UpdateFile {
            path,
            move_path: move_to,
            chunks: chunk_meanings(chunks),
        },
    }
}

pub open spec fn hunk_meanings(hunks: Seq<HunkText>) -> Seq<HunkModel> {
    Seq::new(hunks.len(), |i: int| hunk_meaning(hunks[i]))
}

// ---------------------------------------------------------------------------------------------
// Which of them are read as they are meant
// ---------------------------------------------------------------------------------------------

/// A text that can stand at the end of a line.
pub open spec fn fits_line(text: Seq<char>) -> bool {
    one_line(text) && (text.len() > 0 ==> text.last() != '\r')
}

/// A text that is still there when the line that ends in it is trimmed.
pub open spec fn is_name(text: Seq<char>) -> bool {
    one_line(text) && text.len() > 0 && !is_space(text.last())
}

/// A change whose line says what its text is.
pub open spec fn change_ok(change: ChangeText) -> bool {
    fits_line(change.text) && (change.kind is Blank ==> change.text.len() == 0)
}

/// A chunk that can stand in an update. There is at least one change line. Only the first chunk
/// may do without a context line, and its first change line is not blank then.
pub open spec fn chunk_ok(chunk: ChunkText, first: bool) -> bool {
    &&& chunk.changes.len() > 0
    &&& forall|i: int| 0 <= i < chunk.changes.len() ==> change_ok(#[trigger] chunk.changes[i])
    &&& match chunk.context {
        Some(Some(text)) => fits_line(text),
        Some(None) => true,
        None => first && trim_of(change_line(chunk.changes[0])).len() > 0,
    }
}

pub open spec fn chunks_ok(chunks: Seq<ChunkText>, first: bool) -> bool {
    forall|i: int|
        0 <= i < chunks.len() ==> chunk_ok(#[trigger] chunks[i], first && i == 0)
}

/// A hunk that is read as it is meant. Its path does not end in white space, and an update has at
/// least one chunk.
pub open spec fn hunk_ok(hunk: HunkText) -> bool {
    match hunk {
        HunkText::Add { path, lines } => {
            &&& is_name(path)
            &&& forall|i: int| 0 <= i < lines.len() ==> fits_line(#[trigger] lines[i])
        },
        HunkText::Delete { path } => is_name(path),
        HunkText::Update { path, move_to, chunks } => {
            &&& is_name(path)
            &&& match move_to {
                Some(destination) => fits_line(destination),
                None => true,
            }
            &&& chunks.len() > 0
            &&& chunks_ok(chunks, true)
        },
    }
}

pub open spec fn hunks_ok(hunks: Seq<HunkText>) -> bool {
    forall|i: int| 0 <= i < hunks.len() ==> #[trigger] hunk_ok(hunks[i])
}

// ---------------------------------------------------------------------------------------------
// Reading a patch at once
// ---------------------------------------------------------------------------------------------

/// Reveals the markers.
pub proof fn lemma_markers()
    ensures
        BEGIN_PATCH_MARKER@ =~= seq![
            '*', '*', '*', ' ', 'B', 'e', 'g', 'i', 'n', ' ', 'P', 'a', 't', 'c', 'h',
        ],
        END_PATCH_MARKER@ =~= seq!['*', '*', '*', ' ', 'E', 'n', 'd', ' ', 'P', 'a', 't', 'c', 'h'],
        ADD_FILE_MARKER@ =~= seq![
            '*', '*', '*', ' ', 'A', 'd', 'd', ' ', 'F', 'i', 'l', 'e', ':', ' ',
        ],
        DELETE_FILE_MARKER@ =~= seq![
            '*', '*', '*', ' ', 'D', 'e', 'l', 'e', 't', 'e', ' ', 'F', 'i', 'l', 'e', ':', ' ',
        ],
        UPDATE_FILE_MARKER@ =~= seq![
            '*', '*', '*', ' ', 'U', 'p', 'd', 'a', 't', 'e', ' ', 'F', 'i', 'l', 'e', ':', ' ',
        ],
        MOVE_TO_MARKER@ =~= seq![
            '*', '*', '*', ' ', 'M', 'o', 'v', 'e', ' ', 't', 'o', ':', ' ',
        ],
        EOF_MARKER@ =~= seq![
            '*', '*', '*', ' ', 'E', 'n', 'd', ' ', 'o', 'f', ' ', 'F', 'i', 'l', 'e',
        ],
        CHANGE_CONTEXT_MARKER@ =~= seq!['@', '@', ' '],
        EMPTY_CHANGE_CONTEXT_MARKER@ =~= seq!['@', '@'],
{
    reveal_strlit("*** Begin Patch");
    reveal_strlit("*** End Patch");
    reveal_strlit("*** Add File: ");
    reveal_strlit("*** Delete File: ");
    reveal_strlit("*** Update File: ");
    reveal_strlit("*** Move to: ");
    reveal_strlit("*** End of File");
    reveal_strlit("@@ ");
    reveal_strlit("@@");
}

/// What follows a prefix is what stands behind it.
pub proof fn lemma_strip_own(prefix: Seq<char>, rest: Seq<char>)
    ensures
        strip(prefix + rest, prefix) == Some(rest),
{
    assert((prefix + rest).subrange(0, prefix.len() as int) =~= prefix);
    assert((prefix + rest).skip(prefix.len() as int) =~= rest);
}

/// A text that differs from a prefix somewhere does not start with it.
pub proof fn lemma_strip_other(s: Seq<char>, prefix: Seq<char>, i: int)
    requires
        0 <= i < prefix.len(),
        i >= s.len() || s[i] != prefix[i],
    ensures
        strip(s, prefix) is None,
{
    if prefix.is_prefix_of(s) {
        assert(s.subrange(0, prefix.len() as int)[i] == s[i]);
    }
}

/// A header is recognised.
pub proof fn lemma_header(path: Seq<char>)
    requires
        is_name(path),
    ensures
        header_of(ADD_FILE_MARKER@ + path) == Some(HeaderModel::Add(path)),
        header_of(DELETE_FILE_MARKER@ + path) == Some(HeaderModel::Delete(path)),
        header_of(UPDATE_FILE_MARKER@ + path) == Some(HeaderModel::Update(path)),
{
    lemma_markers();
    let add = ADD_FILE_MARKER@ + path;
    let delete = DELETE_FILE_MARKER@ + path;
    let update = UPDATE_FILE_MARKER@ + path;
    lemma_trim_fixed(add);
    lemma_trim_fixed(delete);
    lemma_trim_fixed(update);
    lemma_strip_own(ADD_FILE_MARKER@, path);
    lemma_strip_own(DELETE_FILE_MARKER@, path);
    lemma_strip_own(UPDATE_FILE_MARKER@, path);
    lemma_strip_other(delete, ADD_FILE_MARKER@, 4);
    lemma_strip_other(update, ADD_FILE_MARKER@, 4);
    lemma_strip_other(update, DELETE_FILE_MARKER@, 4);
}

proof fn lemma_sides(changes: Seq<ChangeText>)
    requires
        forall|i: int| 0 <= i < changes.len() ==> change_ok(#[trigger] changes[i]),
    ensures
        old_side(change_lines(changes)) == old_texts(changes),
        new_side(change_lines(changes)) == new_texts(changes),
    decreases changes.len(),
{
    if changes.len() > 0 {
        assert forall|i: int| 0 <= i < changes.drop_last().len() implies change_ok(
            #[trigger] changes.drop_last()[i],
        ) by {
            assert(changes.drop_last()[i] == changes[i]);
        }
        assert(change_ok(changes[changes.len() - 1]));
        lemma_sides(changes.drop_last());
        let lines = change_lines(changes);
        assert(lines.drop_last() =~= change_lines(changes.drop_last()));
        assert(lines.last() == change_line(changes.last()));
        if !(changes.last().kind is Blank) {
            assert(lines.last()[0] == sign(changes.last().kind));
        }
        assert(change_text(lines.last()) =~= changes.last().text);
    }
}

/// A context line is recognised, and a change line is none.
pub proof fn lemma_context(context: Option<Seq<char>>)
    ensures
        context_of(context_line(context)) == Some(context),
        !is_change_line(context_line(context)),
        context_line(context).len() > 0,
        context_line(context)[0] == '@',
        context_line(context) != EOF_MARKER@,
{
    lemma_markers();
    match context {
        Some(text) => {
            lemma_strip_own(CHANGE_CONTEXT_MARKER@, text);
            assert(context_line(context)[2] == ' ');
        },
        None => {},
    }
}

/// A change line that is not blank starts with its sign.
proof fn lemma_first_change(change: ChangeText)
    requires
        trim_of(change_line(change)).len() > 0,
    ensures
        change_line(change).len() > 0,
        change_line(change)[0] == sign(change.kind),
{
    let (i, j) = crate::text::lemma_trim_bounds(change_line(change));
}

/// Whether the lines behind a chunk leave it as it is: they start with neither a change line nor
/// an end-of-file line.
spec fn ends_chunk(rest: Seq<Seq<char>>) -> bool {
    rest.len() > 0 ==> !is_change_line(rest[0]) && rest[0] != EOF_MARKER@
}

proof fn lemma_chunk_read(
    chunk: ChunkText,
    rest: Seq<Seq<char>>,
    line_number: nat,
    first: bool,
)
    requires
        chunk_ok(chunk, first),
        ends_chunk(rest),
    ensures
        chunk_of(chunk_lines(chunk) + rest, line_number, first) == Ok::<
            (ChunkModel, nat),
            ErrorModel,
        >((chunk_meaning(chunk), chunk_lines(chunk).len())),
        chunk_lines(chunk).len() > 0,
        trim_of(chunk_lines(chunk)[0]).len() > 0,
        chunk_lines(chunk)[0].len() > 0,
        chunk_lines(chunk)[0][0] != '*',
{
    lemma_markers();
    let lines = chunk_lines(chunk) + rest;
    let changes = change_lines(chunk.changes);
    let tail = eof_lines(chunk.ends_file) + rest;
    let n = changes.len() as int;
    match chunk.context {
        Some(context) => {
            lemma_context(context);
            assert(lines[0] == context_line(context));
            assert(lines.skip(1) =~= changes + tail);
            assert(trim_of(lines[0]).len() > 0) by {
                let b = crate::text::lemma_trim_bounds(lines[0]);
                if b.0 == b.1 {
                    assert(is_space(lines[0][0]));
                }
            }
        },
        None => {
            assert(lines =~= changes + tail);
            assert(lines.skip(0) =~= changes + tail);
            assert(lines[0] == change_line(chunk.changes[0]));
            lemma_first_change(chunk.changes[0]);
            assert(context_of(lines[0]) is None) by {
                lemma_strip_other(lines[0], CHANGE_CONTEXT_MARKER@, 0);
                assert(lines[0] != EMPTY_CHANGE_CONTEXT_MARKER@);
            }
        },
    }
    assert(chunk_lines(chunk)[0] == lines[0]);
    let body = changes + tail;
    assert forall|i: int| 0 <= i < n implies is_change_line(#[trigger] body[i]) by {
        assert(body[i] == change_line(chunk.changes[i]));
        if !(chunk.changes[i].kind is Blank) {
            assert(body[i][0] == sign(chunk.changes[i].kind));
        }
    }
    if n < body.len() {
        assert(body[n] == tail[0]);
        if chunk.ends_file {
            assert(tail[0] == EOF_MARKER@);
        } else {
            assert(tail[0] == rest[0]);
        }
    }
    lemma_body_len_is(body, n);
    assert(body.take(n) =~= changes);
    lemma_sides(chunk.changes);
}

/// Whether the lines behind an update leave it as it is: they start with a line that starts with
/// a star and is no end-of-file line.
pub open spec fn ends_update(rest: Seq<Seq<char>>) -> bool {
    rest.len() > 0 ==> rest[0].len() > 0 && rest[0][0] == '*' && rest[0] != EOF_MARKER@
        && trim_of(rest[0]).len() > 0
}

proof fn lemma_chunks_read(
    chunks: Seq<ChunkText>,
    rest: Seq<Seq<char>>,
    line_number: nat,
    first: bool,
)
    requires
        chunks_ok(chunks, first),
        ends_update(rest),
    ensures
        chunks_of(chunks_lines(chunks) + rest, line_number, first) == Ok::<
            (Seq<ChunkModel>, nat),
            ErrorModel,
        >((chunk_meanings(chunks), chunks_lines(chunks).len())),
    decreases chunks.len(),
{
    let lines = chunks_lines(chunks) + rest;
    if chunks.len() == 0 {
        assert(lines =~= rest);
        assert(chunk_meanings(chunks) =~= seq![]);
    } else {
        let more = chunks.drop_first();
        let tail = chunks_lines(more) + rest;
        assert(chunk_ok(chunks[0], first));
        assert forall|i: int| 0 <= i < more.len() implies chunk_ok(
            #[trigger] more[i],
            false && i == 0,
        ) by {
            assert(more[i] == chunks[i + 1]);
        }
        assert(lines =~= chunk_lines(chunks[0]) + tail);
        assert(ends_chunk(tail)) by {
            if more.len() > 0 {
                assert(chunk_ok(more[0], false));
                assert(more[0].context is Some);
                lemma_context(more[0].context->0);
                assert(tail[0] == context_line(more[0].context->0));
            } else {
                assert(tail =~= rest);
            }
        }
        lemma_chunk_read(chunks[0], tail, line_number, first);
        let taken = chunk_lines(chunks[0]).len();
        assert(lines[0] == chunk_lines(chunks[0])[0]);
        assert(lines.skip(taken as int) =~= tail);
        lemma_chunks_read(more, rest, line_number + taken, false);
        assert(seq![chunk_meaning(chunks[0])] + chunk_meanings(more) =~= chunk_meanings(chunks));
    }
}

proof fn lemma_added_text(lines: Seq<Seq<char>>)
    ensures
        added_text(added_lines(lines)) == file_text(lines),
    decreases lines.len(),
{
    if lines.len() > 0 {
        lemma_added_text(lines.drop_last());
        assert(added_lines(lines).drop_last() =~= added_lines(lines.drop_last()));
        assert(added_lines(lines).last().skip(1) =~= lines.last());
    }
}

/// A header does not continue the hunk before it.
proof fn lemma_header_ends_update(path: Seq<char>, rest: Seq<Seq<char>>)
    requires
        is_name(path),
    ensures
        ends_update(seq![ADD_FILE_MARKER@ + path] + rest),
        ends_update(seq![DELETE_FILE_MARKER@ + path] + rest),
        ends_update(seq![UPDATE_FILE_MARKER@ + path] + rest),
{
    lemma_markers();
    let add = ADD_FILE_MARKER@ + path;
    let delete = DELETE_FILE_MARKER@ + path;
    let update = UPDATE_FILE_MARKER@ + path;
    lemma_trim_fixed(add);
    lemma_trim_fixed(delete);
    lemma_trim_fixed(update);
    assert(add[4] == 'A');
    assert(delete[4] == 'D');
    assert(update[4] == 'U');
    assert(EOF_MARKER@[4] == 'E');
}

proof fn lemma_add_read(
    path: Seq<char>,
    texts: Seq<Seq<char>>,
    rest: Seq<Seq<char>>,
    line_number: nat,
)
    requires
        is_name(path),
        ends_update(rest),
    ensures
        hunk_of(seq![ADD_FILE_MARKER@ + path] + added_lines(texts) + rest, line_number) == Ok::<
            (HunkModel, nat),
            ErrorModel,
        >((HunkModel::AddFile { path, contents: file_text(texts) }, 1 + texts.len())),
{
    let added = added_lines(texts);
    let lines = seq![ADD_FILE_MARKER@ + path] + added + rest;
    lemma_header(path);
    assert(lines[0] == ADD_FILE_MARKER@ + path);
    assert(lines.skip(1) =~= added + rest);
    let n = added.len() as int;
    assert forall|i: int| 0 <= i < n implies #[trigger] lines.skip(1)[i].len() > 0
        && lines.skip(1)[i][0] == '+' by {
        assert(lines.skip(1)[i] == added[i]);
    }
    if n < lines.skip(1).len() {
        assert(lines.skip(1)[n] == rest[0]);
    }
    lemma_added_len_is(lines.skip(1), n);
    assert(lines.skip(1).take(n) =~= added);
    lemma_added_text(texts);
}

proof fn lemma_update_read(
    path: Seq<char>,
    move_to: Option<Seq<char>>,
    chunks: Seq<ChunkText>,
    rest: Seq<Seq<char>>,
    line_number: nat,
)
    requires
        hunk_ok(HunkText::Update { path, move_to, chunks }),
        ends_update(rest),
    ensures
        update_of(path, move_lines(move_to) + chunks_lines(chunks) + rest, line_number) == Ok::<
            (HunkModel, nat),
            ErrorModel,
        >(
            (
                HunkModel::UpdateFile { path, move_path: move_to, chunks: chunk_meanings(chunks) },
                (move_lines(move_to) + chunks_lines(chunks)).len(),
            ),
        ),
{
    let body = chunks_lines(chunks) + rest;
    let further = move_lines(move_to) + chunks_lines(chunks) + rest;
    assert(further =~= move_lines(move_to) + body);
    match move_to {
        Some(destination) => {
            lemma_strip_own(MOVE_TO_MARKER@, destination);
            assert(further[0] == MOVE_TO_MARKER@ + destination);
            assert(further.skip(1) =~= body);
            lemma_chunks_read(chunks, rest, line_number + 1 + 1, true);
        },
        None => {
            assert(further =~= body);
            assert(further.skip(0) =~= body);
            assert(chunk_ok(chunks[0], true));
            lemma_chunk_first(chunks[0]);
            assert(further[0] == chunk_lines(chunks[0])[0]);
            assert(move_path_of(further) is None) by {
                lemma_markers();
                lemma_strip_other(further[0], MOVE_TO_MARKER@, 0);
            }
            lemma_chunks_read(chunks, rest, line_number + 1 + 0, true);
        },
    }
}

proof fn lemma_hunk_read(hunk: HunkText, rest: Seq<Seq<char>>, line_number: nat)
    requires
        hunk_ok(hunk),
        ends_update(rest),
    ensures
        hunk_of(hunk_lines(hunk) + rest, line_number) == Ok::<(HunkModel, nat), ErrorModel>(
            (hunk_meaning(hunk), hunk_lines(hunk).len()),
        ),
        ends_update(hunk_lines(hunk)),
        hunk_lines(hunk).len() > 0,
{
    let lines = hunk_lines(hunk) + rest;
    match hunk {
        HunkText::Add { path, lines: texts } => {
            lemma_header_ends_update(path, added_lines(texts));
            lemma_add_read(path, texts, rest, line_number);
        },
        HunkText::Delete { path } => {
            lemma_header_ends_update(path, seq![]);
            assert(hunk_lines(hunk) =~= seq![DELETE_FILE_MARKER@ + path] + seq![]);
            lemma_header(path);
            assert(lines[0] == DELETE_FILE_MARKER@ + path);
        },
        HunkText::Update { path, move_to, chunks } => {
            let further = move_lines(move_to) + chunks_lines(chunks);
            lemma_header_ends_update(path, further);
            assert(hunk_lines(hunk) =~= seq![UPDATE_FILE_MARKER@ + path] + further);
            lemma_header(path);
            assert(lines[0] == UPDATE_FILE_MARKER@ + path);
            assert(lines.skip(1) =~= further + rest);
            lemma_update_read(path, move_to, chunks, rest, line_number);
        },
    }
}

/// A chunk does not start with a star.
proof fn lemma_chunk_first(chunk: ChunkText)
    requires
        chunk.changes.len() > 0,
        chunk.context is None ==> trim_of(change_line(chunk.changes[0])).len() > 0,
    ensures
        chunk_lines(chunk).len() > 0,
        chunk_lines(chunk)[0].len() > 0,
        chunk_lines(chunk)[0][0] != '*',
{
    match chunk.context {
        Some(context) => {
            lemma_context(context);
            assert(chunk_lines(chunk)[0] == context_line(context));
        },
        None => {
            assert(chunk_lines(chunk)[0] == change_line(chunk.changes[0]));
            lemma_first_change(chunk.changes[0]);
        },
    }
}

proof fn lemma_hunks_read(hunks: Seq<HunkText>, line_number: nat)
    requires
        hunks_ok(hunks),
    ensures
        hunks_of(hunks_lines(hunks), line_number) == Ok::<Seq<HunkModel>, ErrorModel>(
            hunk_meanings(hunks),
        ),
        ends_update(hunks_lines(hunks)),
    decreases hunks.len(),
{
    if hunks.len() == 0 {
        assert(hunk_meanings(hunks) =~= seq![]);
    } else {
        let more = hunks.drop_first();
        assert(hunk_ok(hunks[0]));
        assert forall|i: int| 0 <= i < more.len() implies #[trigger] hunk_ok(more[i]) by {
            assert(hunk_ok(hunks[i + 1]));
        }
        let taken = hunk_lines(hunks[0]).len();
        lemma_hunks_read(more, line_number + taken);
        lemma_hunk_read(hunks[0], hunks_lines(more), line_number);
        assert(hunks_lines(hunks).skip(taken as int) =~= hunks_lines(more));
        assert(seq![hunk_meaning(hunks[0])] + hunk_meanings(more) =~= hunk_meanings(hunks));
        assert(hunks_lines(hunks)[0] == hunk_lines(hunks[0])[0]);
    }
}

/// Hunks of the grammar are read up to what follows them, and that is read by itself.
pub proof fn lemma_hunks_before(hunks: Seq<HunkText>, rest: Seq<Seq<char>>, line_number: nat)
    requires
        hunks_ok(hunks),
        ends_update(rest),
    ensures
        hunks_of(hunks_lines(hunks) + rest, line_number) == (match hunks_of(
            rest,
            line_number + hunks_lines(hunks).len(),
        ) {
            Ok(more) => Ok::<Seq<HunkModel>, ErrorModel>(hunk_meanings(hunks) + more),
            Err(error) => Err::<Seq<HunkModel>, ErrorModel>(error),
        }),
        ends_update(hunks_lines(hunks) + rest),
    decreases hunks.len(),
{
    let all = hunks_lines(hunks) + rest;
    if hunks.len() == 0 {
        assert(all =~= rest);
        match hunks_of(rest, line_number) {
            Ok(more) => assert(hunk_meanings(hunks) + more =~= more),
            Err(_) => {},
        }
    } else {
        let later = hunks.drop_first();
        assert(hunk_ok(hunks[0]));
        assert forall|i: int| 0 <= i < later.len() implies #[trigger] hunk_ok(later[i]) by {
            assert(hunk_ok(hunks[i + 1]));
        }
        let taken = hunk_lines(hunks[0]).len();
        lemma_hunks_before(later, rest, line_number + taken);
        let tail = hunks_lines(later) + rest;
        assert(all =~= hunk_lines(hunks[0]) + tail);
        lemma_hunk_read(hunks[0], tail, line_number);
        assert(all.skip(taken as int) =~= tail);
        assert(all[0] == hunk_lines(hunks[0])[0]);
        assert(seq![hunk_meaning(hunks[0])] + hunk_meanings(later) =~= hunk_meanings(hunks));
        match hunks_of(rest, line_number + hunks_lines(hunks).len()) {
            Ok(more) => assert(seq![hunk_meaning(hunks[0])] + (hunk_meanings(later) + more)
                =~= hunk_meanings(hunks) + more),
            Err(_) => {},
        }
    }
}

/// Whether each of the lines can stand in a text as one line.
pub open spec fn all_fit(lines: Seq<Seq<char>>) -> bool {
    forall|i: int| 0 <= i < lines.len() ==> fits_line(#[trigger] lines[i])
}

proof fn lemma_fits_behind(marker: Seq<char>, text: Seq<char>)
    requires
        fits_line(marker),
        fits_line(text),
    ensures
        fits_line(marker + text),
{
    let line = marker + text;
    assert forall|i: int| 0 <= i < line.len() implies #[trigger] line[i] != '\n' by {
        if i < marker.len() {
            assert(line[i] == marker[i]);
        } else {
            assert(line[i] == text[i - marker.len()]);
        }
    }
    if text.len() == 0 {
        assert(line =~= marker);
    }
}

proof fn lemma_all_fit_append(first: Seq<Seq<char>>, second: Seq<Seq<char>>)
    requires
        all_fit(first),
        all_fit(second),
    ensures
        all_fit(first + second),
{
    let both = first + second;
    assert forall|i: int| 0 <= i < both.len() implies fits_line(#[trigger] both[i]) by {
        if i < first.len() {
            assert(both[i] == first[i]);
        } else {
            assert(both[i] == second[i - first.len()]);
        }
    }
}

proof fn lemma_markers_fit()
    ensures
        fits_line(BEGIN_PATCH_MARKER@),
        fits_line(END_PATCH_MARKER@),
        fits_line(ADD_FILE_MARKER@),
        fits_line(DELETE_FILE_MARKER@),
        fits_line(UPDATE_FILE_MARKER@),
        fits_line(MOVE_TO_MARKER@),
        fits_line(EOF_MARKER@),
        fits_line(CHANGE_CONTEXT_MARKER@),
        fits_line(EMPTY_CHANGE_CONTEXT_MARKER@),
{
    lemma_markers();
}

/// Whether the texts in a chunk can stand at the end of a line.
pub open spec fn chunk_fits(chunk: ChunkText) -> bool {
    &&& forall|i: int|
        0 <= i < chunk.changes.len() ==> fits_line((#[trigger] chunk.changes[i]).text)
    &&& chunk.context matches Some(Some(text)) ==> fits_line(text)
}

/// Whether the texts in a hunk can stand at the end of a line.
pub open spec fn hunk_fits(hunk: HunkText) -> bool {
    match hunk {
        HunkText::Add { path, lines } => fits_line(path) && all_fit(lines),
        HunkText::Delete { path } => fits_line(path),
        HunkText::Update { path, move_to, chunks } => {
            &&& fits_line(path)
            &&& move_to matches Some(destination) ==> fits_line(destination)
            &&& forall|i: int| 0 <= i < chunks.len() ==> chunk_fits(#[trigger] chunks[i])
        },
    }
}

/// Whether the texts in hunks can stand at the end of a line.
pub open spec fn hunks_fit(hunks: Seq<HunkText>) -> bool {
    forall|i: int| 0 <= i < hunks.len() ==> #[trigger] hunk_fits(hunks[i])
}

proof fn lemma_chunk_fits(chunk: ChunkText)
    requires
        chunk_fits(chunk),
    ensures
        all_fit(chunk_lines(chunk)),
{
    lemma_markers_fit();
    let changes = change_lines(chunk.changes);
    assert forall|i: int| 0 <= i < changes.len() implies fits_line(#[trigger] changes[i]) by {
        assert(fits_line(chunk.changes[i].text));
        if !(chunk.changes[i].kind is Blank) {
            assert(fits_line(seq![sign(chunk.changes[i].kind)]));
            lemma_fits_behind(seq![sign(chunk.changes[i].kind)], chunk.changes[i].text);
        }
    }
    match chunk.context {
        Some(Some(text)) => lemma_fits_behind(CHANGE_CONTEXT_MARKER@, text),
        _ => {},
    }
    lemma_all_fit_append(context_lines(chunk.context), changes);
    lemma_all_fit_append(context_lines(chunk.context) + changes, eof_lines(chunk.ends_file));
}

proof fn lemma_chunks_fit(chunks: Seq<ChunkText>)
    requires
        forall|i: int| 0 <= i < chunks.len() ==> chunk_fits(#[trigger] chunks[i]),
    ensures
        all_fit(chunks_lines(chunks)),
    decreases chunks.len(),
{
    if chunks.len() > 0 {
        let more = chunks.drop_first();
        assert forall|i: int| 0 <= i < more.len() implies chunk_fits(#[trigger] more[i]) by {
            assert(more[i] == chunks[i + 1]);
        }
        lemma_chunk_fits(chunks[0]);
        lemma_chunks_fit(more);
        lemma_all_fit_append(chunk_lines(chunks[0]), chunks_lines(more));
    }
}

proof fn lemma_hunk_fits(hunk: HunkText)
    requires
        hunk_fits(hunk),
    ensures
        all_fit(hunk_lines(hunk)),
{
    lemma_markers_fit();
    match hunk {
        HunkText::Add { path, lines } => {
            lemma_fits_behind(ADD_FILE_MARKER@, path);
            let added = added_lines(lines);
            assert forall|i: int| 0 <= i < added.len() implies fits_line(#[trigger] added[i]) by {
                assert(fits_line(lines[i]));
                assert(fits_line(seq!['+']));
                lemma_fits_behind(seq!['+'], lines[i]);
            }
            lemma_all_fit_append(seq![ADD_FILE_MARKER@ + path], added);
        },
        HunkText::Delete { path } => {
            lemma_fits_behind(DELETE_FILE_MARKER@, path);
        },
        HunkText::Update { path, move_to, chunks } => {
            lemma_fits_behind(UPDATE_FILE_MARKER@, path);
            match move_to {
                Some(destination) => lemma_fits_behind(MOVE_TO_MARKER@, destination),
                None => {},
            }
            lemma_chunks_fit(chunks);
            lemma_all_fit_append(seq![UPDATE_FILE_MARKER@ + path], move_lines(move_to));
            lemma_all_fit_append(
                seq![UPDATE_FILE_MARKER@ + path] + move_lines(move_to),
                chunks_lines(chunks),
            );
        },
    }
}

proof fn lemma_hunks_fit(hunks: Seq<HunkText>)
    requires
        hunks_fit(hunks),
    ensures
        all_fit(hunks_lines(hunks)),
    decreases hunks.len(),
{
    if hunks.len() > 0 {
        let more = hunks.drop_first();
        assert(hunk_fits(hunks[0]));
        assert forall|i: int| 0 <= i < more.len() implies #[trigger] hunk_fits(more[i]) by {
            assert(hunk_fits(hunks[i + 1]));
        }
        lemma_hunk_fits(hunks[0]);
        lemma_hunks_fit(more);
        lemma_all_fit_append(hunk_lines(hunks[0]), hunks_lines(more));
    }
}

/// The lines of a patch survive being written down.
pub proof fn lemma_patch_lines(hunks: Seq<HunkText>)
    requires
        hunks_fit(hunks),
    ensures
        all_fit(patch_lines(hunks)),
        lines_of(patch_text(hunks)) == patch_lines(hunks),
        patch_text(hunks).len() > 0,
        patch_text(hunks)[0] == '*',
        patch_text(hunks).last() == 'h',
{
    lemma_markers_fit();
    lemma_hunks_fit(hunks);
    let lines = patch_lines(hunks);
    lemma_all_fit_append(seq![BEGIN_PATCH_MARKER@], hunks_lines(hunks));
    lemma_all_fit_append(
        seq![BEGIN_PATCH_MARKER@] + hunks_lines(hunks),
        seq![END_PATCH_MARKER@],
    );
    assert forall|i: int| 0 <= i < lines.len() implies one_line(#[trigger] lines[i]) by {
        assert(fits_line(lines[i]));
    }
    assert forall|i: int| 0 <= i < lines.len() - 1 implies chop_cr(#[trigger] lines[i])
        == lines[i] by {
        assert(fits_line(lines[i]));
    }
    lemma_markers();
    assert(lines.last() == END_PATCH_MARKER@);
    lemma_lines_join(lines);
    let rest = hunks_lines(hunks) + seq![END_PATCH_MARKER@];
    assert(lines =~= seq![BEGIN_PATCH_MARKER@] + rest);
    lemma_join_cons(BEGIN_PATCH_MARKER@, rest, "\n"@);
    assert(patch_text(hunks) == join_of(lines.drop_last(), "\n"@) + "\n"@ + END_PATCH_MARKER@);
}

/// A patch that the grammar writes parses to what it means, with or without a line feed at its
/// end, strictly and leniently.
///
/// What the grammar also allows and the parser does not read so is left out: an update without
/// chunks, a chunk without change lines, paths that end in white space, texts that end in a
/// carriage return, and an update whose first line is blank.
pub proof fn law_grammar_parses(hunks: Seq<HunkText>, mode: ParseMode)
    requires
        hunks_ok(hunks),
    ensures
        patch_of(patch_text(hunks), mode) == Ok::<PatchModel, ErrorModel>(
            PatchModel {
                patch: patch_text(hunks),
                hunks: hunk_meanings(hunks),
                workdir: None,
            },
        ),
        patch_of(patch_text(hunks) + "\n"@, mode) == patch_of(patch_text(hunks), mode),
{
    let text = patch_text(hunks);
    let lines = patch_lines(hunks);
    assert forall|i: int| 0 <= i < hunks.len() implies #[trigger] hunk_fits(hunks[i]) by {
        assert(hunk_ok(hunks[i]));
    }
    lemma_patch_lines(hunks);
    lemma_trim_fixed(text);
    reveal_strlit("\n");
    crate::text::lemma_trim_middle(text + "\n"@, 0, text.len() as int);
    assert((text + "\n"@).subrange(0, text.len() as int) =~= text);
    assert(boundary_error(lines) is None) by {
        lemma_markers();
        lemma_trim_fixed(BEGIN_PATCH_MARKER@);
        lemma_trim_fixed(END_PATCH_MARKER@);
        assert(lines[0] == BEGIN_PATCH_MARKER@);
        assert(lines.last() == END_PATCH_MARKER@);
    }
    assert(lines.subrange(1, lines.len() - 1) =~= hunks_lines(hunks));
    lemma_hunks_read(hunks, 2);
}

} // verus!
