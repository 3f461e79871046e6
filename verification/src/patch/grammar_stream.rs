//! A patch that the grammar writes, arriving piece by piece, shows the hunks it means.
use crate::patch::batch::{context_of, patch_of, ParseMode};
use crate::patch::grammar::{
    added_lines, all_fit, change_line, change_lines, change_ok, chunk_lines, chunk_meaning, chunk_meanings,
    chunks_lines, context_line, context_lines, eof_lines, file_text, fits_line, hunk_fits,
    hunk_lines, hunk_meaning, hunk_meanings, hunks_lines, hunks_ok, is_name, law_grammar_parses,
    lemma_header, lemma_markers, lemma_patch_lines, lemma_strip_other, lemma_strip_own,
    move_lines, new_texts, old_texts, patch_lines, patch_text, sign, ChangeKind, ChangeText,
    ChunkText, HunkText,
};
use crate::patch::model::{
    header_of, ChunkModel, HunkModel, ADD_FILE_MARKER, BEGIN_PATCH_MARKER, CHANGE_CONTEXT_MARKER,
    DELETE_FILE_MARKER, END_PATCH_MARKER, EOF_MARKER, MOVE_TO_MARKER, UPDATE_FILE_MARKER,
};
use crate::patch::stream::{
    empty_chunk, empty_stream, next_line, pending_hunk, push_text, settled, shown, visible_hunks,
    PhaseModel, StreamModel,
};
use crate::patch::stream_laws::{law_pieces, law_waits_for_complete_lines};
use crate::text::{
    is_space, join_of, lemma_trim_bounds, lemma_trim_fixed, strip, trim_cr_of, trim_of,
};
use vstd::prelude::*;

verus! {

// ---------------------------------------------------------------------------------------------
// Line by line
// ---------------------------------------------------------------------------------------------

/// Where complete lines lead, and the hunks that are complete then.
pub open spec fn after_lines(
    phase: PhaseModel,
    hunks: Seq<HunkModel>,
    lines: Seq<Seq<char>>,
) -> (PhaseModel, Seq<HunkModel>)
    decreases lines.len(),
{
    if lines.len() == 0 {
        (phase, hunks)
    } else {
        let before = after_lines(phase, hunks, lines.drop_last());
        next_line(before.0, before.1, lines.last())
    }
}

proof fn lemma_after_append(
    phase: PhaseModel,
    hunks: Seq<HunkModel>,
    first: Seq<Seq<char>>,
    second: Seq<Seq<char>>,
)
    ensures
        after_lines(phase, hunks, first + second) == after_lines(
            after_lines(phase, hunks, first).0,
            after_lines(phase, hunks, first).1,
            second,
        ),
    decreases second.len(),
{
    if second.len() == 0 {
        assert(first + second =~= first);
    } else {
        lemma_after_append(phase, hunks, first, second.drop_last());
        assert((first + second).drop_last() =~= first + second.drop_last());
        assert((first + second).last() == second.last());
    }
}

proof fn lemma_after_one(phase: PhaseModel, hunks: Seq<HunkModel>, line: Seq<char>)
    ensures
        after_lines(phase, hunks, seq![line]) == next_line(phase, hunks, line),
{
    assert(seq![line].drop_last() =~= seq![]);
    assert(after_lines(phase, hunks, seq![line].drop_last()) == (phase, hunks));
}

/// The lines, each ended by a line feed, as text.
spec fn ended(lines: Seq<Seq<char>>) -> Seq<char>
    decreases lines.len(),
{
    if lines.len() == 0 {
        seq![]
    } else {
        ended(lines.drop_last()) + lines.last() + "\n"@
    }
}

proof fn lemma_join_ended(lines: Seq<Seq<char>>)
    requires
        lines.len() > 0,
    ensures
        join_of(lines, "\n"@) == ended(lines.drop_last()) + lines.last(),
    decreases lines.len(),
{
    if lines.len() == 1 {
        assert(ended(lines.drop_last()) + lines.last() =~= lines[0]);
    } else {
        lemma_join_ended(lines.drop_last());
        assert(join_of(lines, "\n"@) =~= ended(lines.drop_last()) + lines.last());
    }
}

proof fn lemma_push_ended(stream: StreamModel, lines: Seq<Seq<char>>)
    requires
        stream.line_buffer.len() == 0,
        all_fit(lines),
    ensures
        push_text(stream, ended(lines)).line_buffer.len() == 0,
        (push_text(stream, ended(lines)).phase, push_text(stream, ended(lines)).hunks)
            == after_lines(stream.phase, stream.hunks, lines),
    decreases lines.len(),
{
    if lines.len() > 0 {
        let before = lines.drop_last();
        let last = lines.last();
        lemma_push_ended(stream, before);
        let middle = push_text(stream, ended(before));
        assert(fits_line(last));
        law_waits_for_complete_lines(middle, last);
        assert(middle.line_buffer + last =~= last);
        law_pieces(stream, ended(before), last);
        let text = ended(lines);
        reveal_strlit("\n");
        assert(text.drop_last() =~= ended(before) + last);
        assert(text.last() == '\n');
        assert(trim_cr_of(last) == last);
    }
}

// ---------------------------------------------------------------------------------------------
// Which patches arrive as they are meant
// ---------------------------------------------------------------------------------------------

/// Whether a line, white space around it aside, is a marker: it is not taken for the text of a
/// file then.
pub open spec fn looks_like_marker(line: Seq<char>) -> bool {
    ||| trim_of(line) == END_PATCH_MARKER@
    ||| trim_of(line) == EOF_MARKER@
    ||| header_of(line) is Some
    ||| context_of(trim_of(line)) is Some
}

/// Whether a line, white space around it aside, names the destination of a rename.
pub open spec fn looks_like_move(line: Seq<char>) -> bool {
    strip(trim_of(line), MOVE_TO_MARKER@) is Some
}

/// A chunk that is taken for what it is while it arrives: no line that it keeps looks like a
/// marker, and none at the start of an update looks like a rename.
pub open spec fn chunk_plain(chunk: ChunkText, first: bool, can_accept_move: bool) -> bool {
    &&& chunk.changes.len() > 0
    &&& forall|i: int| 0 <= i < chunk.changes.len() ==> change_ok(#[trigger] chunk.changes[i])
    &&& forall|i: int|
        0 <= i < chunk.changes.len() && (#[trigger] chunk.changes[i]).kind is Kept
            ==> !looks_like_marker(change_line(chunk.changes[i]))
    &&& match chunk.context {
        Some(Some(text)) => is_name(text),
        Some(None) => true,
        None => first && (can_accept_move && chunk.changes[0].kind is Kept ==> !looks_like_move(
            change_line(chunk.changes[0]),
        )),
    }
}

pub open spec fn chunks_plain(
    chunks: Seq<ChunkText>,
    first: bool,
    can_accept_move: bool,
) -> bool {
    forall|i: int|
        0 <= i < chunks.len() ==> chunk_plain(
            #[trigger] chunks[i],
            first && i == 0,
            can_accept_move,
        )
}

/// A hunk that is taken for what it is while it arrives.
pub open spec fn hunk_plain(hunk: HunkText) -> bool {
    match hunk {
        HunkText::Add { path, lines } => is_name(path) && all_fit(lines),
        HunkText::Delete { path } => is_name(path),
        HunkText::Update { path, move_to, chunks } => {
            &&& is_name(path)
            &&& match move_to {
                Some(destination) => is_name(destination),
                None => true,
            }
            &&& chunks.len() > 0
            &&& chunks_plain(chunks, true, move_to is None)
        },
    }
}

pub open spec fn hunks_plain(hunks: Seq<HunkText>) -> bool {
    forall|i: int| 0 <= i < hunks.len() ==> #[trigger] hunk_plain(hunks[i])
}

// ---------------------------------------------------------------------------------------------
// Inside an update
// ---------------------------------------------------------------------------------------------

spec fn updating(
    path: Seq<char>,
    move_path: Option<Seq<char>>,
    can_accept_move: bool,
    chunks: Seq<ChunkModel>,
    current_chunk: Option<ChunkModel>,
) -> PhaseModel {
    PhaseModel::UpdateFile { path, move_path, can_accept_move, chunks, current_chunk }
}

/// A line that starts with a plus or a minus looks like no marker, and neither does an empty one.
proof fn lemma_signed_is_plain(change: ChangeText)
    requires
        !(change.kind is Kept),
    ensures
        !looks_like_marker(change_line(change)),
        !looks_like_move(change_line(change)),
{
    lemma_markers();
    let line = change_line(change);
    let b = lemma_trim_bounds(line);
    let trimmed = trim_of(line);
    if change.kind is Blank {
        assert(trimmed.len() == 0);
    } else {
        assert(line[0] == sign(change.kind));
        assert(b.0 == 0) by {
            if b.0 > 0 {
                assert(is_space(line[0]));
            }
        }
        assert(b.1 > 0) by {
            if b.1 == 0 {
                assert(is_space(line[0]));
            }
        }
        assert(trimmed[0] == line[0]);
    }
    lemma_strip_other(trimmed, ADD_FILE_MARKER@, 0);
    lemma_strip_other(trimmed, DELETE_FILE_MARKER@, 0);
    lemma_strip_other(trimmed, UPDATE_FILE_MARKER@, 0);
    lemma_strip_other(trimmed, MOVE_TO_MARKER@, 0);
    lemma_strip_other(trimmed, CHANGE_CONTEXT_MARKER@, 0);
}

/// What a change line does to an update.
proof fn lemma_change_arrives(
    path: Seq<char>,
    move_path: Option<Seq<char>>,
    can_accept_move: bool,
    chunks: Seq<ChunkModel>,
    current_chunk: Option<ChunkModel>,
    hunks: Seq<HunkModel>,
    change: ChangeText,
)
    requires
        change_ok(change),
        change.kind is Kept ==> !looks_like_marker(change_line(change)),
        change.kind is Kept && can_accept_move && move_path is None ==> !looks_like_move(
            change_line(change),
        ),
    ensures
        ({
            let chunk = match current_chunk {
                Some(chunk) => chunk,
                None => empty_chunk(None),
            };
            next_line(
                updating(path, move_path, can_accept_move, chunks, current_chunk),
                hunks,
                change_line(change),
            ) == (
                updating(
                    path,
                    move_path,
                    false,
                    chunks,
                    Some(
                        ChunkModel {
                            old_lines: if change.kind is Added {
                                chunk.old_lines
                            } else {
                                chunk.old_lines.push(change.text)
                            },
                            new_lines: if change.kind is Removed {
                                chunk.new_lines
                            } else {
                                chunk.new_lines.push(change.text)
                            },
                            ..chunk
                        },
                    ),
                ),
                hunks,
            )
        }),
{
    if !(change.kind is Kept) {
        lemma_signed_is_plain(change);
    }
    let line = change_line(change);
    if change.kind is Blank {
        assert(line =~= change.text);
    } else {
        assert(line[0] == sign(change.kind));
        assert(line.skip(1) =~= change.text);
    }
}

/// What the change lines of a chunk do to an update.
proof fn lemma_changes_arrive(
    path: Seq<char>,
    move_path: Option<Seq<char>>,
    can_accept_move: bool,
    chunks: Seq<ChunkModel>,
    current_chunk: Option<ChunkModel>,
    context: Option<Seq<char>>,
    hunks: Seq<HunkModel>,
    changes: Seq<ChangeText>,
)
    requires
        changes.len() > 0,
        current_chunk == Some(empty_chunk(context)) || (current_chunk is None && context is None),
        forall|i: int| 0 <= i < changes.len() ==> change_ok(#[trigger] changes[i]),
        forall|i: int|
            0 <= i < changes.len() && (#[trigger] changes[i]).kind is Kept ==> !looks_like_marker(
                change_line(changes[i]),
            ),
        changes[0].kind is Kept && can_accept_move && move_path is None ==> !looks_like_move(
            change_line(changes[0]),
        ),
    ensures
        after_lines(
            updating(path, move_path, can_accept_move, chunks, current_chunk),
            hunks,
            change_lines(changes),
        ) == (
            updating(
                path,
                move_path,
                false,
                chunks,
                Some(
                    ChunkModel {
                        change_context: context,
                        old_lines: old_texts(changes),
                        new_lines: new_texts(changes),
                        is_end_of_file: false,
                    },
                ),
            ),
            hunks,
        ),
    decreases changes.len(),
{
    let start = updating(path, move_path, can_accept_move, chunks, current_chunk);
    let lines = change_lines(changes);
    let before = changes.drop_last();
    assert(lines.drop_last() =~= change_lines(before));
    assert(lines.last() == change_line(changes.last()));
    assert(changes.last() == changes[changes.len() - 1]);
    if changes.len() == 1 {
        assert(before =~= seq![]);
        assert(after_lines(start, hunks, lines.drop_last()) == (start, hunks));
        assert(old_texts(before) =~= seq![]);
        assert(new_texts(before) =~= seq![]);
        lemma_change_arrives(
            path,
            move_path,
            can_accept_move,
            chunks,
            current_chunk,
            hunks,
            changes[0],
        );
    } else {
        assert forall|i: int|
            0 <= i < before.len() && (#[trigger] before[i]).kind is Kept implies !looks_like_marker(
            change_line(before[i]),
        ) by {
            assert(before[i] == changes[i]);
        }
        assert forall|i: int| 0 <= i < before.len() implies change_ok(#[trigger] before[i]) by {
            assert(before[i] == changes[i]);
        }
        lemma_changes_arrive(
            path,
            move_path,
            can_accept_move,
            chunks,
            current_chunk,
            context,
            hunks,
            before,
        );
        lemma_change_arrives(
            path,
            move_path,
            false,
            chunks,
            Some(
                ChunkModel {
                    change_context: context,
                    old_lines: old_texts(before),
                    new_lines: new_texts(before),
                    is_end_of_file: false,
                },
            ),
            hunks,
            changes.last(),
        );
    }
}

/// What a context line does to an update.
proof fn lemma_context_arrives(
    path: Seq<char>,
    move_path: Option<Seq<char>>,
    can_accept_move: bool,
    chunks: Seq<ChunkModel>,
    current_chunk: Option<ChunkModel>,
    hunks: Seq<HunkModel>,
    context: Option<Seq<char>>,
)
    requires
        context matches Some(text) ==> is_name(text),
    ensures
        next_line(
            updating(path, move_path, can_accept_move, chunks, current_chunk),
            hunks,
            context_line(context),
        ) == (
            updating(
                path,
                move_path,
                false,
                settled(chunks, current_chunk),
                Some(empty_chunk(context)),
            ),
            hunks,
        ),
{
    lemma_markers();
    crate::patch::grammar::lemma_context(context);
    let line = context_line(context);
    lemma_trim_fixed(line);
    lemma_strip_other(line, ADD_FILE_MARKER@, 0);
    lemma_strip_other(line, DELETE_FILE_MARKER@, 0);
    lemma_strip_other(line, UPDATE_FILE_MARKER@, 0);
    lemma_strip_other(line, MOVE_TO_MARKER@, 0);
}

/// What an end-of-file line does to an update.
proof fn lemma_eof_arrives(
    path: Seq<char>,
    move_path: Option<Seq<char>>,
    chunks: Seq<ChunkModel>,
    chunk: ChunkModel,
    hunks: Seq<HunkModel>,
)
    ensures
        next_line(
            updating(path, move_path, false, chunks, Some(chunk)),
            hunks,
            EOF_MARKER@,
        ) == (
            updating(
                path,
                move_path,
                false,
                chunks.push(ChunkModel { is_end_of_file: true, ..chunk }),
                None,
            ),
            hunks,
        ),
{
    lemma_markers();
    let line = EOF_MARKER@;
    lemma_trim_fixed(line);
    assert(line[8] != END_PATCH_MARKER@[8]);
    lemma_strip_other(line, ADD_FILE_MARKER@, 4);
    lemma_strip_other(line, DELETE_FILE_MARKER@, 4);
    lemma_strip_other(line, UPDATE_FILE_MARKER@, 4);
    lemma_strip_other(line, CHANGE_CONTEXT_MARKER@, 0);
}

/// A chunk, once it has arrived, stands behind those before it.
proof fn lemma_chunk_arrives(
    path: Seq<char>,
    move_path: Option<Seq<char>>,
    can_accept_move: bool,
    chunks: Seq<ChunkModel>,
    current_chunk: Option<ChunkModel>,
    hunks: Seq<HunkModel>,
    chunk: ChunkText,
) -> (r: (Seq<ChunkModel>, Option<ChunkModel>))
    requires
        chunk_plain(chunk, current_chunk is None, can_accept_move && move_path is None),
    ensures
        after_lines(
            updating(path, move_path, can_accept_move, chunks, current_chunk),
            hunks,
            chunk_lines(chunk),
        ) == (updating(path, move_path, false, r.0, r.1), hunks),
        settled(r.0, r.1) == settled(chunks, current_chunk).push(chunk_meaning(chunk)),
{
    let start = updating(path, move_path, can_accept_move, chunks, current_chunk);
    let context: Option<Seq<char>> = match chunk.context {
        Some(context) => context,
        None => None,
    };
    let head = context_lines(chunk.context);
    let changes = change_lines(chunk.changes);
    let tail = eof_lines(chunk.ends_file);
    let settled_chunks = settled(chunks, current_chunk);
    let body = ChunkModel {
        change_context: context,
        old_lines: old_texts(chunk.changes),
        new_lines: new_texts(chunk.changes),
        is_end_of_file: false,
    };
    lemma_after_append(start, hunks, head, changes);
    lemma_after_append(start, hunks, head + changes, tail);
    match chunk.context {
        Some(context) => {
            lemma_context_arrives(
                path,
                move_path,
                can_accept_move,
                chunks,
                current_chunk,
                hunks,
                context,
            );
            lemma_after_one(start, hunks, context_line(context));
            lemma_changes_arrive(
                path,
                move_path,
                false,
                settled_chunks,
                Some(empty_chunk(context)),
                context,
                hunks,
                chunk.changes,
            );
        },
        None => {
            lemma_changes_arrive(
                path,
                move_path,
                can_accept_move,
                chunks,
                current_chunk,
                None,
                hunks,
                chunk.changes,
            );
        },
    }
    assert(after_lines(start, hunks, head + changes) == (
        updating(path, move_path, false, settled_chunks, Some(body)),
        hunks,
    ));
    assert(body.old_lines.len() > 0 || body.new_lines.len() > 0);
    if chunk.ends_file {
        lemma_eof_arrives(path, move_path, settled_chunks, body, hunks);
        lemma_after_one(
            updating(path, move_path, false, settled_chunks, Some(body)),
            hunks,
            EOF_MARKER@,
        );
        (settled_chunks.push(ChunkModel { is_end_of_file: true, ..body }), None)
    } else {
        (settled_chunks, Some(body))
    }
}

/// Chunks, once they have arrived, stand behind those before them.
proof fn lemma_chunks_arrive(
    path: Seq<char>,
    move_path: Option<Seq<char>>,
    can_accept_move: bool,
    chunks: Seq<ChunkModel>,
    current_chunk: Option<ChunkModel>,
    hunks: Seq<HunkModel>,
    more: Seq<ChunkText>,
    first: bool,
) -> (r: PhaseModel)
    requires
        chunks_plain(more, first, can_accept_move && move_path is None),
        first ==> current_chunk is None,
    ensures
        after_lines(
            updating(path, move_path, can_accept_move, chunks, current_chunk),
            hunks,
            chunks_lines(more),
        ) == (r, hunks),
        r matches PhaseModel::UpdateFile { path: p, move_path: m, chunks: c, current_chunk: k, .. }
            && p == path && m == move_path && settled(c, k) == settled(chunks, current_chunk)
            + chunk_meanings(more),
    decreases more.len(),
{
    let start = updating(path, move_path, can_accept_move, chunks, current_chunk);
    if more.len() == 0 {
        assert(settled(chunks, current_chunk) + chunk_meanings(more) =~= settled(
            chunks,
            current_chunk,
        ));
        start
    } else {
        let rest = more.drop_first();
        assert(chunk_plain(more[0], first, can_accept_move && move_path is None));
        let next = lemma_chunk_arrives(
            path,
            move_path,
            can_accept_move,
            chunks,
            current_chunk,
            hunks,
            more[0],
        );
        assert forall|i: int| 0 <= i < rest.len() implies chunk_plain(
            #[trigger] rest[i],
            false && i == 0,
            false && move_path is None,
        ) by {
            assert(rest[i] == more[i + 1]);
        }
        let r = lemma_chunks_arrive(
            path,
            move_path,
            false,
            next.0,
            next.1,
            hunks,
            rest,
            false,
        );
        lemma_after_append(start, hunks, chunk_lines(more[0]), chunks_lines(rest));
        assert(settled(chunks, current_chunk).push(chunk_meaning(more[0])) + chunk_meanings(rest)
            =~= settled(chunks, current_chunk) + chunk_meanings(more));
        r
    }
}

// ---------------------------------------------------------------------------------------------
// Hunk by hunk
// ---------------------------------------------------------------------------------------------

spec fn is_open(phase: PhaseModel) -> bool {
    !(phase is NotStarted || phase is EndedPatch || phase is Invalid)
}

proof fn lemma_header_is_not_end(path: Seq<char>)
    requires
        is_name(path),
    ensures
        trim_of(ADD_FILE_MARKER@ + path) != END_PATCH_MARKER@,
        trim_of(DELETE_FILE_MARKER@ + path) != END_PATCH_MARKER@,
        trim_of(UPDATE_FILE_MARKER@ + path) != END_PATCH_MARKER@,
{
    lemma_markers();
    let add = ADD_FILE_MARKER@ + path;
    let delete = DELETE_FILE_MARKER@ + path;
    let update = UPDATE_FILE_MARKER@ + path;
    lemma_trim_fixed(add);
    lemma_trim_fixed(delete);
    lemma_trim_fixed(update);
    assert(add[4] == 'A');
    assert(delete[4] == 'D');
    assert(update[4] == 'U');
    assert(END_PATCH_MARKER@[4] == 'E');
}

proof fn lemma_header_arrives(phase: PhaseModel, hunks: Seq<HunkModel>, path: Seq<char>)
    requires
        is_open(phase),
        is_name(path),
    ensures
        next_line(phase, hunks, ADD_FILE_MARKER@ + path) == (
            PhaseModel::AddFile { path, contents: seq![] },
            visible_hunks(phase, hunks),
        ),
        next_line(phase, hunks, DELETE_FILE_MARKER@ + path) == (
            PhaseModel::DeleteFile { path },
            visible_hunks(phase, hunks),
        ),
        next_line(phase, hunks, UPDATE_FILE_MARKER@ + path) == (
            updating(path, None, true, seq![], None),
            visible_hunks(phase, hunks),
        ),
{
    lemma_header(path);
    lemma_header_is_not_end(path);
}

proof fn lemma_added_arrive(
    path: Seq<char>,
    hunks: Seq<HunkModel>,
    lines: Seq<Seq<char>>,
)
    ensures
        after_lines(
            PhaseModel::AddFile { path, contents: seq![] },
            hunks,
            added_lines(lines),
        ) == (PhaseModel::AddFile { path, contents: file_text(lines) }, hunks),
    decreases lines.len(),
{
    let start = PhaseModel::AddFile { path, contents: seq![] };
    let added = added_lines(lines);
    if lines.len() > 0 {
        lemma_added_arrive(path, hunks, lines.drop_last());
        assert(added.drop_last() =~= added_lines(lines.drop_last()));
        let line = added.last();
        assert(line == seq!['+'] + lines.last());
        let change = ChangeText { kind: ChangeKind::Added, text: lines.last() };
        assert(change_line(change) == line);
        lemma_signed_is_plain(change);
        assert(line.skip(1) =~= lines.last());
    }
}

proof fn lemma_move_arrives(path: Seq<char>, hunks: Seq<HunkModel>, destination: Seq<char>)
    requires
        is_name(destination),
    ensures
        next_line(
            updating(path, None, true, seq![], None),
            hunks,
            MOVE_TO_MARKER@ + destination,
        ) == (updating(path, Some(destination), true, seq![], None), hunks),
{
    lemma_markers();
    let line = MOVE_TO_MARKER@ + destination;
    lemma_trim_fixed(line);
    lemma_strip_own(MOVE_TO_MARKER@, destination);
    assert(line[4] == 'M');
    lemma_strip_other(line, ADD_FILE_MARKER@, 4);
    lemma_strip_other(line, DELETE_FILE_MARKER@, 4);
    lemma_strip_other(line, UPDATE_FILE_MARKER@, 4);
}

/// A hunk, once it has arrived, is shown behind those before it.
proof fn lemma_hunk_arrives(phase: PhaseModel, hunks: Seq<HunkModel>, hunk: HunkText) -> (r:
    PhaseModel)
    requires
        is_open(phase),
        hunk_plain(hunk),
    ensures
        after_lines(phase, hunks, hunk_lines(hunk)) == (r, visible_hunks(phase, hunks)),
        is_open(r),
        pending_hunk(r) == Some(hunk_meaning(hunk)),
{
    let complete = visible_hunks(phase, hunks);
    match hunk {
        HunkText::Add { path, lines } => {
            lemma_header_arrives(phase, hunks, path);
            lemma_after_one(phase, hunks, ADD_FILE_MARKER@ + path);
            lemma_after_append(phase, hunks, seq![ADD_FILE_MARKER@ + path], added_lines(lines));
            lemma_added_arrive(path, complete, lines);
            PhaseModel::AddFile { path, contents: file_text(lines) }
        },
        HunkText::Delete { path } => {
            lemma_header_arrives(phase, hunks, path);
            lemma_after_one(phase, hunks, DELETE_FILE_MARKER@ + path);
            PhaseModel::DeleteFile { path }
        },
        HunkText::Update { path, move_to, chunks } => {
            let header = seq![UPDATE_FILE_MARKER@ + path];
            let opened = updating(path, None, true, seq![], None);
            lemma_header_arrives(phase, hunks, path);
            lemma_after_one(phase, hunks, UPDATE_FILE_MARKER@ + path);
            lemma_after_append(phase, hunks, header, move_lines(move_to));
            lemma_after_append(phase, hunks, header + move_lines(move_to), chunks_lines(chunks));
            match move_to {
                Some(destination) => {
                    lemma_move_arrives(path, complete, destination);
                    lemma_after_one(opened, complete, MOVE_TO_MARKER@ + destination);
                },
                None => {},
            }
            let r = lemma_chunks_arrive(
                path,
                move_to,
                true,
                seq![],
                None,
                complete,
                chunks,
                true,
            );
            assert(settled(seq![], None) + chunk_meanings(chunks) =~= chunk_meanings(chunks));
            r
        },
    }
}

/// Hunks, once they have arrived, are shown behind those before them.
proof fn lemma_hunks_arrive(phase: PhaseModel, hunks: Seq<HunkModel>, more: Seq<HunkText>)
    requires
        is_open(phase),
        hunks_plain(more),
    ensures
        ({
            let after = after_lines(phase, hunks, hunks_lines(more));
            &&& is_open(after.0)
            &&& visible_hunks(after.0, after.1) == visible_hunks(phase, hunks) + hunk_meanings(
                more,
            )
        }),
    decreases more.len(),
{
    if more.len() == 0 {
        assert(visible_hunks(phase, hunks) + hunk_meanings(more) =~= visible_hunks(phase, hunks));
    } else {
        let rest = more.drop_first();
        assert(hunk_plain(more[0]));
        assert forall|i: int| 0 <= i < rest.len() implies #[trigger] hunk_plain(rest[i]) by {
            assert(hunk_plain(more[i + 1]));
        }
        let r = lemma_hunk_arrives(phase, hunks, more[0]);
        lemma_hunks_arrive(r, visible_hunks(phase, hunks), rest);
        lemma_after_append(phase, hunks, hunk_lines(more[0]), hunks_lines(rest));
        assert(visible_hunks(phase, hunks).push(hunk_meaning(more[0])) + hunk_meanings(rest)
            =~= visible_hunks(phase, hunks) + hunk_meanings(more));
    }
}

/// A patch that the grammar writes shows, when its text has arrived, the hunks it means, whether
/// or not the line feed behind its last line has arrived too.
///
/// Lines that the grammar takes for text and a patch in the making cannot tell from markers are
/// left out, as are contexts and destinations that end in white space.
pub proof fn law_grammar_arrives(hunks: Seq<HunkText>)
    requires
        hunks_plain(hunks),
    ensures
        shown(push_text(empty_stream(), patch_text(hunks))) == hunk_meanings(hunks),
        shown(push_text(empty_stream(), patch_text(hunks) + "\n"@)) == hunk_meanings(hunks),
        push_text(empty_stream(), patch_text(hunks) + "\n"@).phase is EndedPatch,
{
    let lines = patch_lines(hunks);
    let body = seq![BEGIN_PATCH_MARKER@] + hunks_lines(hunks);
    assert forall|i: int| 0 <= i < hunks.len() implies #[trigger] hunk_fits(hunks[i]) by {
        assert(hunk_plain(hunks[i]));
    }
    lemma_patch_lines(hunks);
    lemma_markers();
    lemma_trim_fixed(BEGIN_PATCH_MARKER@);
    lemma_trim_fixed(END_PATCH_MARKER@);
    assert(lines.drop_last() =~= body);
    assert(lines.last() == END_PATCH_MARKER@);
    lemma_join_ended(lines);
    assert forall|i: int| 0 <= i < body.len() implies fits_line(#[trigger] body[i]) by {
        assert(body[i] == lines[i]);
    }
    lemma_push_ended(empty_stream(), body);
    let middle = push_text(empty_stream(), ended(body));
    law_pieces(empty_stream(), ended(body), END_PATCH_MARKER@);
    law_waits_for_complete_lines(middle, END_PATCH_MARKER@);
    lemma_after_append(
        PhaseModel::NotStarted,
        seq![],
        seq![BEGIN_PATCH_MARKER@],
        hunks_lines(hunks),
    );
    lemma_after_one(PhaseModel::NotStarted, seq![], BEGIN_PATCH_MARKER@);
    lemma_hunks_arrive(PhaseModel::StartedPatch, seq![], hunks);
    assert(visible_hunks(PhaseModel::StartedPatch, seq![]) + hunk_meanings(hunks)
        =~= hunk_meanings(hunks));
    let text = patch_text(hunks) + "\n"@;
    assert(ended(lines) =~= text);
    lemma_push_ended(empty_stream(), lines);
}

/// A patch that the grammar writes and that is plain enough shows, when it has arrived, the hunks
/// that it parses to.
pub proof fn law_arrival_agrees_with_parsing(hunks: Seq<HunkText>, mode: ParseMode)
    requires
        hunks_plain(hunks),
        hunks_ok(hunks),
    ensures
        patch_of(patch_text(hunks), mode) matches Ok(model) && model.hunks == shown(
            push_text(empty_stream(), patch_text(hunks)),
        ),
{
    law_grammar_arrives(hunks);
    law_grammar_parses(hunks, mode);
}

} // verus!
