//! What single lines do to a patch that is still being written.
use crate::patch::batch_laws::{is_blank, lemma_trim_padded};
use crate::patch::chunk_laws::{is_line_of_chunk, opens_chunk, says};
use crate::patch::grammar::{hunk_meanings, lemma_markers, lemma_strip_other, patch_text, HunkText};
use crate::patch::grammar_stream::{hunks_plain, law_grammar_arrives};
use crate::patch::model::{
    hunk_models, ChunkModel, Hunk, HunkModel, ADD_FILE_MARKER, DELETE_FILE_MARKER, MOVE_TO_MARKER,
};
use crate::patch::stream::{
    empty_stream, next_line, push_text, shown, visible_hunks, PhaseModel, StreamModel,
    StreamingPatchParser,
};
use crate::patch::stream_laws::{law_end_is_final, law_pieces, law_waits_for_complete_lines};
use crate::text::{one_line, trim_cr_of, trim_of};
use vstd::prelude::*;

verus! {

/// Whether a line, white space around it aside, is one that starts or ends a hunk or the patch.
pub open spec fn is_boundary(line: Seq<char>) -> bool {
    ||| trim_of(line) == "*** End Patch"@
    ||| "*** Add File: "@.is_prefix_of(trim_of(line))
    ||| "*** Delete File: "@.is_prefix_of(trim_of(line))
    ||| "*** Update File: "@.is_prefix_of(trim_of(line))
}

/// Whether a patch is under way: it has begun and has not ended.
pub open spec fn under_way(phase: PhaseModel) -> bool {
    !(phase is NotStarted) && !(phase is EndedPatch) && !(phase is Invalid)
}

/// A complete line at the end of which a carriage return stands is the line without it.
pub proof fn law_carriage_returns_are_dropped(stream: StreamModel, line: Seq<char>)
    requires
        one_line(line),
    ensures
        push_text(stream, line + seq!['\r', '\n']) == push_text(stream, line + seq!['\n']),
{
    let with = line + seq!['\r'];
    assert forall|i: int| 0 <= i < with.len() implies with[i] != '\n' by {
        if i < line.len() {
            assert(with[i] == line[i]);
        }
    }
    law_waits_for_complete_lines(stream, line);
    law_waits_for_complete_lines(stream, with);
    assert((line + seq!['\r', '\n']).drop_last() =~= with);
    assert((line + seq!['\n']).drop_last() =~= line);
    let buffer = stream.line_buffer + line;
    assert(stream.line_buffer + with =~= buffer.push('\r'));
    assert(buffer.push('\r').drop_last() =~= buffer);
    assert(trim_cr_of(buffer.push('\r')) == trim_cr_of(buffer));
}

/// A complete line without a carriage return at its end is taken in as it is.
pub proof fn law_lines_are_taken_in(stream: StreamModel, line: Seq<char>)
    requires
        one_line(line),
        stream.line_buffer.len() == 0,
        line.len() > 0 ==> line.last() != '\r',
    ensures
        ({
            let after = push_text(stream, line + seq!['\n']);
            &&& (after.phase, after.hunks) == next_line(stream.phase, stream.hunks, line)
            &&& after.line_buffer.len() == 0
        }),
{
    law_waits_for_complete_lines(stream, line);
    assert((line + seq!['\n']).drop_last() =~= line);
    assert(stream.line_buffer + line =~= line);
}

/// White space around the first and the last line of a patch, around a header, around the line
/// that opens a chunk, around the end of the file and around the destination of a rename makes no
/// difference.
pub proof fn law_padded_markers_arrive(
    phase: PhaseModel,
    hunks: Seq<HunkModel>,
    before: Seq<char>,
    line: Seq<char>,
    after: Seq<char>,
)
    requires
        is_blank(before),
        is_blank(after),
        trim_of(line) == line,
        phase is NotStarted || phase is EndedPatch || phase is Invalid || is_boundary(line) || (
        phase is UpdateFile && (opens_chunk(line) || line == "*** End of File"@)),
    ensures
        next_line(phase, hunks, before + line + after) == next_line(phase, hunks, line),
{
    lemma_markers();
    reveal_strlit("@@");
    reveal_strlit("@@ ");
    reveal_strlit("*** End of File");
    lemma_trim_padded(before, line, after);
}

/// How a patch begins. Nothing is shown of a text whose first line is not the marker, and nothing
/// of what stands in the same line; the marker itself shows nothing.
pub proof fn law_patches_begin_with_their_marker(line: Seq<char>, rest: Seq<char>)
    requires
        one_line(line),
    ensures
        trim_of(trim_cr_of(line)) != "*** Begin Patch"@ ==> shown(
            push_text(empty_stream(), line + seq!['\n'] + rest),
        ).len() == 0,
        shown(empty_stream()).len() == 0,
        shown(push_text(empty_stream(), line + seq!['\n'])).len() == 0,
        trim_of(trim_cr_of(line)) == "*** Begin Patch"@ ==> under_way(
            push_text(empty_stream(), line + seq!['\n']).phase,
        ),
{
    let stream = empty_stream();
    let whole = line + seq!['\n'];
    law_waits_for_complete_lines(stream, line);
    assert(whole.drop_last() =~= line);
    assert(stream.line_buffer + line =~= line);
    let after = push_text(stream, whole);
    law_pieces(stream, whole, rest);
    if trim_of(trim_cr_of(line)) != "*** Begin Patch"@ {
        law_end_is_final(after, rest);
    }
}

/// The line that ends a patch completes what is being written and shows nothing new; the header of
/// a hunk completes it, too, and a header of a new file or of a deletion shows that hunk at once.
pub proof fn law_boundaries_complete_a_hunk(
    phase: PhaseModel,
    hunks: Seq<HunkModel>,
    line: Seq<char>,
)
    requires
        under_way(phase),
    ensures
        ({
            let before = visible_hunks(phase, hunks);
            let next = next_line(phase, hunks, line);
            let text = trim_of(line);
            &&& text == "*** End Patch"@ ==> next.0 is EndedPatch && next.1 == before
            &&& is_boundary(line) && text != "*** End Patch"@ ==> next.1 == before
            &&& "*** Add File: "@.is_prefix_of(text) ==> visible_hunks(next.0, next.1)
                == before.push(
                HunkModel::AddFile { path: text.skip(14), contents: seq![] },
            )
            &&& "*** Delete File: "@.is_prefix_of(text) ==> visible_hunks(next.0, next.1)
                == before.push(HunkModel::DeleteFile { path: text.skip(17) })
            &&& "*** Update File: "@.is_prefix_of(text) ==> visible_hunks(next.0, next.1) == before
            &&& !is_boundary(line) ==> next.1 == hunks
        }),
{
    lemma_markers();
    reveal_strlit("*** Add File: ");
    reveal_strlit("*** Delete File: ");
    reveal_strlit("*** Update File: ");
    reveal_strlit("*** End Patch");
    let text = trim_of(line);
    if "*** Add File: "@.is_prefix_of(text) {
        assert(text.subrange(0, 14)[4] == text[4]);
    }
    if "*** Delete File: "@.is_prefix_of(text) {
        assert(text.subrange(0, 17)[4] == text[4]);
        lemma_strip_other(text, ADD_FILE_MARKER@, 4);
    }
    if "*** Update File: "@.is_prefix_of(text) {
        assert(text.subrange(0, 17)[4] == text[4]);
        lemma_strip_other(text, ADD_FILE_MARKER@, 4);
        lemma_strip_other(text, DELETE_FILE_MARKER@, 4);
    }
}

/// What a line does to a new file: one that starts with a plus adds what stands behind it, and any
/// other that is no boundary is passed over. A deletion takes in no lines.
pub proof fn law_lines_of_a_new_file(
    path: Seq<char>,
    contents: Seq<char>,
    hunks: Seq<HunkModel>,
    line: Seq<char>,
)
    requires
        !is_boundary(line),
    ensures
        next_line(PhaseModel::AddFile { path, contents }, hunks, line) == (
            PhaseModel::AddFile {
                path,
                contents: if line.len() > 0 && line[0] == '+' {
                    contents + line.skip(1) + seq!['\n']
                } else {
                    contents
                },
            },
            hunks,
        ),
        next_line(PhaseModel::DeleteFile { path }, hunks, line) == (
            PhaseModel::DeleteFile { path },
            hunks,
        ),
        next_line(PhaseModel::StartedPatch, hunks, line) == (PhaseModel::StartedPatch, hunks),
{
    lemma_markers();
    reveal_strlit("*** Add File: ");
    reveal_strlit("*** Delete File: ");
    reveal_strlit("*** Update File: ");
    reveal_strlit("*** End Patch");
    if line.len() > 0 {
        assert(contents + line.skip(1) + seq!['\n'] =~= (contents + line.skip(1)).push('\n'));
    }
}

/// What a line does to an update. At its start, and only there, it may be renamed, once. A line
/// that opens a chunk starts one with that context, an end-of-file line ends the one being written,
/// and any other line that is empty or starts with a space, a plus or a minus is added to it: to
/// both of its sides, to the new one, or to the old one. Every other line is passed over.
pub proof fn law_lines_of_an_update(
    path: Seq<char>,
    move_path: Option<Seq<char>>,
    can_accept_move: bool,
    chunks: Seq<ChunkModel>,
    chunk: ChunkModel,
    hunks: Seq<HunkModel>,
    line: Seq<char>,
)
    requires
        !is_boundary(line),
    ensures
        ({
            let text = trim_of(line);
            let phase = PhaseModel::UpdateFile {
                path,
                move_path,
                can_accept_move,
                chunks,
                current_chunk: Some(chunk),
            };
            let next = next_line(phase, hunks, line).0;
            let renames = can_accept_move && move_path is None && "*** Move to: "@.is_prefix_of(
                text,
            );
            &&& next_line(phase, hunks, line).1 == hunks
            &&& next is UpdateFile
            &&& next->UpdateFile_path == path
            &&& renames ==> next == (PhaseModel::UpdateFile {
                path,
                move_path: Some(text.skip(13)),
                can_accept_move,
                chunks,
                current_chunk: Some(chunk),
            })
            &&& !renames ==> next->move_path == move_path && !next->can_accept_move
            &&& opens_chunk(text) ==> next->current_chunk == Some(
                ChunkModel {
                    change_context: if text == "@@"@ {
                        None
                    } else {
                        Some(text.skip(3))
                    },
                    old_lines: seq![],
                    new_lines: seq![],
                    is_end_of_file: false,
                },
            )
            &&& opens_chunk(text) && (chunk.old_lines.len() > 0 || chunk.new_lines.len() > 0
                || chunk.is_end_of_file) ==> next->UpdateFile_chunks == chunks.push(chunk)
            &&& text == "*** End of File"@ && !renames ==> next->current_chunk is None
                && next->UpdateFile_chunks == chunks.push(
                ChunkModel { is_end_of_file: true, ..chunk },
            )
            &&& !renames && !opens_chunk(text) && text != "*** End of File"@ ==> {
                let added = next->current_chunk->0;
                &&& next->UpdateFile_chunks == chunks
                &&& next->current_chunk is Some
                &&& added.change_context == chunk.change_context
                &&& added.is_end_of_file == chunk.is_end_of_file
                &&& is_line_of_chunk(line) && (line.len() == 0 || line[0] != '+')
                    ==> added.old_lines == chunk.old_lines.push(says(line))
                &&& is_line_of_chunk(line) && (line.len() == 0 || line[0] != '-')
                    ==> added.new_lines == chunk.new_lines.push(says(line))
                &&& !is_line_of_chunk(line) || (line.len() > 0 && line[0] == '+')
                    ==> added.old_lines == chunk.old_lines
                &&& !is_line_of_chunk(line) || (line.len() > 0 && line[0] == '-')
                    ==> added.new_lines == chunk.new_lines
            }
        }),
{
    lemma_markers();
    reveal_strlit("*** Add File: ");
    reveal_strlit("*** Delete File: ");
    reveal_strlit("*** Update File: ");
    reveal_strlit("*** End Patch");
    reveal_strlit("*** Move to: ");
    reveal_strlit("*** End of File");
    reveal_strlit("@@");
    reveal_strlit("@@ ");
    let signs = seq![' ', '+', '-'];
    assert(signs[0] == ' ' && signs[1] == '+' && signs[2] == '-');
    let text = trim_of(line);
    if "@@ "@.is_prefix_of(text) {
        assert(text.subrange(0, 3)[2] == text[2]);
        lemma_strip_other(text, MOVE_TO_MARKER@, 0);
    }
    if text == "@@"@ {
        lemma_strip_other(text, MOVE_TO_MARKER@, 0);
    }
    if line.len() == 0 {
        assert(says(line) =~= line);
    }
}

/// What arrives is added to what has arrived, in whatever pieces, and what is handed out is what is
/// shown then, and nothing where nothing is.
pub proof fn law_pieces_that_arrive(
    parser: &mut StreamingPatchParser,
    piece: &str,
    now_shown: Option<Vec<Hunk>>,
)
    requires
        call_ensures(StreamingPatchParser::push_delta, (parser, piece), now_shown),
    ensures
        final(parser)@ == push_text(old(parser)@, piece@),
        now_shown is Some <==> shown(push_text(old(parser)@, piece@)).len() > 0,
        now_shown matches Some(hunks) ==> hunk_models(hunks@) == shown(
            push_text(old(parser)@, piece@),
        ),
{
}

/// A patch that is written as the grammar says shows, once its last line is complete, what it
/// means.
pub proof fn law_patches_that_have_arrived(
    parser: &mut StreamingPatchParser,
    text: &str,
    hunks: Seq<HunkText>,
    now_shown: Option<Vec<Hunk>>,
)
    requires
        call_ensures(StreamingPatchParser::push_delta, (parser, text), now_shown),
        old(parser)@ == empty_stream(),
        hunks_plain(hunks),
        hunks.len() > 0,
        text@ == patch_text(hunks) + "\n"@,
    ensures
        now_shown is Some,
        hunk_models(now_shown->0@) == hunk_meanings(hunks),
{
    law_grammar_arrives(hunks);
    assert(hunk_meanings(hunks).len() == hunks.len());
}

/// An update in which no chunk is being written goes on as if one without context and without lines
/// were, but that there is nothing that could end with the file.
pub proof fn law_updates_before_a_chunk(
    path: Seq<char>,
    move_path: Option<Seq<char>>,
    can_accept_move: bool,
    chunks: Seq<ChunkModel>,
    hunks: Seq<HunkModel>,
    line: Seq<char>,
)
    requires
        !is_boundary(line),
    ensures
        ({
            let text = trim_of(line);
            let empty = ChunkModel {
                change_context: None,
                old_lines: seq![],
                new_lines: seq![],
                is_end_of_file: false,
            };
            let phase = PhaseModel::UpdateFile {
                path,
                move_path,
                can_accept_move,
                chunks,
                current_chunk: None,
            };
            let other = PhaseModel::UpdateFile {
                path,
                move_path,
                can_accept_move,
                chunks,
                current_chunk: Some(empty),
            };
            let next = next_line(phase, hunks, line).0;
            let renames = can_accept_move && move_path is None && "*** Move to: "@.is_prefix_of(
                text,
            );
            &&& next_line(phase, hunks, line).1 == hunks
            &&& renames ==> next == (PhaseModel::UpdateFile {
                path,
                move_path: Some(text.skip(13)),
                can_accept_move,
                chunks,
                current_chunk: None,
            })
            &&& !renames && text == "*** End of File"@ ==> next == (PhaseModel::UpdateFile {
                path,
                move_path,
                can_accept_move: false,
                chunks,
                current_chunk: None,
            })
            &&& !renames && text != "*** End of File"@ ==> next == next_line(other, hunks, line).0
        }),
{
    lemma_markers();
    reveal_strlit("*** Add File: ");
    reveal_strlit("*** Delete File: ");
    reveal_strlit("*** Update File: ");
    reveal_strlit("*** End Patch");
    reveal_strlit("*** Move to: ");
    reveal_strlit("*** End of File");
}

/// What is shown of an update: its complete chunks, and the one being written if there is anything
/// in it. Where there is nothing at all, the update is not shown. New files and deletions are shown
/// as they are, and before the first hunk nothing is.
pub proof fn law_what_is_shown(
    path: Seq<char>,
    contents: Seq<char>,
    move_path: Option<Seq<char>>,
    can_accept_move: bool,
    chunks: Seq<ChunkModel>,
    chunk: ChunkModel,
    hunks: Seq<HunkModel>,
)
    ensures
        ({
            let writing = |current: Option<ChunkModel>|
                PhaseModel::UpdateFile {
                    path,
                    move_path,
                    can_accept_move,
                    chunks,
                    current_chunk: current,
                };
            let update = |all: Seq<ChunkModel>|
                HunkModel::UpdateFile { path, move_path, chunks: all };
            let filled = chunk.old_lines.len() > 0 || chunk.new_lines.len() > 0
                || chunk.is_end_of_file;
            &&& filled ==> visible_hunks(writing(Some(chunk)), hunks) == hunks.push(
                update(chunks.push(chunk)),
            )
            &&& !filled ==> visible_hunks(writing(Some(chunk)), hunks) == visible_hunks(
                writing(None),
                hunks,
            )
            &&& chunks.len() > 0 ==> visible_hunks(writing(None), hunks) == hunks.push(
                update(chunks),
            )
            &&& chunks.len() == 0 ==> visible_hunks(writing(None), hunks) == hunks
            &&& visible_hunks(PhaseModel::AddFile { path, contents }, hunks) == hunks.push(
                HunkModel::AddFile { path, contents },
            )
            &&& visible_hunks(PhaseModel::DeleteFile { path }, hunks) == hunks.push(
                HunkModel::DeleteFile { path },
            )
            &&& visible_hunks(PhaseModel::NotStarted, hunks) == hunks
            &&& visible_hunks(PhaseModel::StartedPatch, hunks) == hunks
            &&& visible_hunks(PhaseModel::EndedPatch, hunks) == hunks
            &&& visible_hunks(PhaseModel::Invalid, hunks) == hunks
        }),
{
}

/// What can be asked for at any time is what is shown, and a complete line that is handed over does
/// what it does when it arrives, whatever else is arriving.
pub proof fn law_handing_over_a_line(
    parser: &mut StreamingPatchParser,
    line: &str,
    before: Vec<Hunk>,
    after: Vec<Hunk>,
)
    requires
        call_ensures(StreamingPatchParser::process_line, (parser, line), ()),
        call_ensures(StreamingPatchParser::current_hunks, (old(parser),), before),
        call_ensures(StreamingPatchParser::current_hunks, (final(parser),), after),
    ensures
        hunk_models(before@) == shown(old(parser)@),
        hunk_models(after@) == shown(final(parser)@),
        final(parser)@.line_buffer == old(parser)@.line_buffer,
        (final(parser)@.phase, final(parser)@.hunks) == next_line(
            old(parser)@.phase,
            old(parser)@.hunks,
            line@,
        ),
        under_way(old(parser)@.phase) && trim_of(line@) == "*** End Patch"@ ==> hunk_models(after@)
            == hunk_models(before@),
        !under_way(old(parser)@.phase) && !(old(parser)@.phase is NotStarted) ==> hunk_models(
            after@,
        ) == hunk_models(before@),
{
    if under_way(old(parser)@.phase) {
        law_boundaries_complete_a_hunk(old(parser)@.phase, old(parser)@.hunks, line@);
    }
}

} // verus!
