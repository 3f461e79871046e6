//! What holds of every patch that arrives piece by piece.
use crate::patch::model::{affected_path, header_of, header_path, HunkModel, END_PATCH_MARKER};
use crate::patch::stream::{
    counts, empty_stream, next_line, pending_hunk, push_char, push_text, shown, visible_hunks,
    PhaseModel, StreamModel,
};
use crate::text::{trim_cr_of, trim_of};
use vstd::prelude::*;

verus! {

/// How a text is cut into pieces makes no difference.
pub proof fn law_pieces(stream: StreamModel, first: Seq<char>, second: Seq<char>)
    ensures
        push_text(push_text(stream, first), second) == push_text(stream, first + second),
    decreases second.len(),
{
    if second.len() == 0 {
        assert(first + second =~= first);
    } else {
        law_pieces(stream, first, second.drop_last());
        assert((first + second).drop_last() =~= first + second.drop_last());
        assert((first + second).last() == second.last());
    }
}

/// Until a line is complete, it changes nothing that is shown.
pub proof fn law_waits_for_complete_lines(stream: StreamModel, text: Seq<char>)
    requires
        forall|i: int| 0 <= i < text.len() ==> text[i] != '\n',
    ensures
        push_text(stream, text).line_buffer == stream.line_buffer + text,
        push_text(stream, text).phase == stream.phase,
        push_text(stream, text).hunks == stream.hunks,
        shown(push_text(stream, text)) == shown(stream),
    decreases text.len(),
{
    if text.len() == 0 {
        assert(stream.line_buffer + text =~= stream.line_buffer);
    } else {
        law_waits_for_complete_lines(stream, text.drop_last());
        assert(stream.line_buffer + text =~= (stream.line_buffer + text.drop_last()).push(
            text.last(),
        ));
    }
}

/// Once the patch has ended, or has turned out not to be one, no text changes what is shown.
pub proof fn law_end_is_final(stream: StreamModel, text: Seq<char>)
    requires
        stream.phase is EndedPatch || stream.phase is Invalid,
    ensures
        push_text(stream, text).phase == stream.phase,
        shown(push_text(stream, text)) == shown(stream),
        push_text(stream, text).hunks == stream.hunks,
    decreases text.len(),
{
    if text.len() > 0 {
        law_end_is_final(stream, text.drop_last());
    }
}

/// Whether a hunk is more than its header: an update has chunks, and there is something in each.
pub open spec fn has_substance(hunk: HunkModel) -> bool {
    match hunk {
        HunkModel::UpdateFile { chunks, .. } => {
            &&& chunks.len() > 0
            &&& forall|i: int| 0 <= i < chunks.len() ==> counts(#[trigger] chunks[i])
        },
        _ => true,
    }
}

/// What holds of every place in a patch that text can lead to: there is something in each chunk
/// that is complete, and a rename is accepted only while an update has no chunk.
pub open spec fn phase_ok(phase: PhaseModel) -> bool {
    match phase {
        PhaseModel::UpdateFile { can_accept_move, chunks, current_chunk, .. } => {
            &&& forall|i: int| 0 <= i < chunks.len() ==> counts(#[trigger] chunks[i])
            &&& can_accept_move ==> chunks.len() == 0 && current_chunk is None
        },
        _ => true,
    }
}

/// What holds of every stream that text can lead to.
pub open spec fn stream_ok(stream: StreamModel) -> bool {
    &&& phase_ok(stream.phase)
    &&& forall|i: int| 0 <= i < stream.hunks.len() ==> has_substance(#[trigger] stream.hunks[i])
}

/// Whether a hunk is another with more of it: of the same kind and about the same files. What is
/// added to a file goes on as it began. An update renames the file as before, if it does, and its
/// chunks but the last stay as they are.
pub open spec fn grows(earlier: HunkModel, later: HunkModel) -> bool {
    &&& header_path(later) == header_path(earlier)
    &&& affected_path(later) == affected_path(earlier)
    &&& match (earlier, later) {
        (
            HunkModel::AddFile { contents, .. },
            HunkModel::AddFile { contents: more, .. },
        ) => contents.is_prefix_of(more),
        (HunkModel::DeleteFile { .. }, HunkModel::DeleteFile { .. }) => true,
        (
            HunkModel::UpdateFile { move_path, chunks, .. },
            HunkModel::UpdateFile { move_path: to, chunks: more, .. },
        ) => {
            &&& to == move_path
            &&& chunks.len() <= more.len()
            &&& forall|i: int| 0 <= i < chunks.len() - 1 ==> #[trigger] more[i] == chunks[i]
        },
        _ => false,
    }
}

/// Whether `later` shows at least the hunks that `earlier` shows, each in its place: the last of
/// them with more of it, and the others unchanged.
pub open spec fn keeps(earlier: Seq<HunkModel>, later: Seq<HunkModel>) -> bool {
    &&& earlier.len() <= later.len()
    &&& forall|i: int| #![trigger earlier[i]]
        0 <= i < earlier.len() - 1 ==> later[i] == earlier[i]
    &&& earlier.len() > 0 ==> grows(earlier.last(), later[earlier.len() - 1])
}

proof fn lemma_keeps_again(first: Seq<HunkModel>, second: Seq<HunkModel>, third: Seq<HunkModel>)
    requires
        keeps(first, second),
        keeps(second, third),
    ensures
        keeps(first, third),
{
    assert forall|i: int| #![trigger first[i]] 0 <= i < first.len() - 1 implies third[i]
        == first[i] by {
        assert(second[i] == first[i]);
    }
    if first.len() > 0 {
        let n = first.len() - 1;
        assert(grows(first[n], second[n]));
        if n < second.len() - 1 {
            assert(third[n] == second[n]);
        } else {
            assert(grows(second[n], third[n]));
        }
        lemma_grows_again(first[n], second[n], third[n]);
    }
}

proof fn lemma_grows_again(first: HunkModel, second: HunkModel, third: HunkModel)
    requires
        grows(first, second),
        grows(second, third) || second == third,
    ensures
        grows(first, third),
{
    match (first, second, third) {
        (
            HunkModel::AddFile { contents: a, .. },
            HunkModel::AddFile { contents: b, .. },
            HunkModel::AddFile { contents: c, .. },
        ) => {
            assert(b.is_prefix_of(c)) by {
                assert(b =~= b.subrange(0, b.len() as int));
            }
            assert(a =~= b.subrange(0, a.len() as int));
            assert(b =~= c.subrange(0, b.len() as int));
            assert(a =~= c.subrange(0, a.len() as int));
        },
        _ => {},
    }
}

/// What one complete line may change: the hunks that are complete stay, and at most one joins
/// them at the end, on the line that ends the patch or on the header of the next hunk. A patch
/// that has ended, or has turned out not to be one, stays as it is.
pub proof fn law_what_a_line_may_change(
    phase: PhaseModel,
    hunks: Seq<HunkModel>,
    line: Seq<char>,
)
    ensures
        ({
            let next = next_line(phase, hunks, line);
            &&& next.1 == hunks || exists|hunk: HunkModel| next.1 == #[trigger] hunks.push(hunk)
            &&& next.1 != hunks ==> trim_of(line) == END_PATCH_MARKER@ || header_of(line) is Some
            &&& phase is EndedPatch || phase is Invalid ==> next == (phase, hunks)
        }),
{
    let next = next_line(phase, hunks, line);
    match pending_hunk(phase) {
        Some(hunk) => assert(next.1 == hunks || next.1 == hunks.push(hunk)),
        None => assert(next.1 == hunks),
    }
}

/// The same of the parser's text: while a line is not complete, and once it is, what is complete
/// stays, at most one hunk joins it, and nothing is left of the line that was completed.
pub proof fn law_what_a_character_may_change(stream: StreamModel, c: char)
    ensures
        ({
            let next = push_char(stream, c);
            let line = trim_cr_of(stream.line_buffer);
            &&& c != '\n' ==> next == (StreamModel {
                line_buffer: stream.line_buffer.push(c),
                ..stream
            })
            &&& c == '\n' ==> next.line_buffer.len() == 0
            &&& next.hunks == stream.hunks || exists|hunk: HunkModel|
                next.hunks == #[trigger] stream.hunks.push(hunk)
            &&& next.hunks != stream.hunks ==> c == '\n' && (trim_of(line) == END_PATCH_MARKER@
                || header_of(line) is Some)
        }),
{
    law_what_a_line_may_change(stream.phase, stream.hunks, trim_cr_of(stream.line_buffer));
}

proof fn lemma_next_line_ok(phase: PhaseModel, hunks: Seq<HunkModel>, line: Seq<char>)
    requires
        phase_ok(phase),
        forall|i: int| 0 <= i < hunks.len() ==> has_substance(#[trigger] hunks[i]),
    ensures
        phase_ok(next_line(phase, hunks, line).0),
        forall|i: int|
            0 <= i < next_line(phase, hunks, line).1.len() ==> has_substance(
                #[trigger] next_line(phase, hunks, line).1[i],
            ),
        hunks.is_prefix_of(next_line(phase, hunks, line).1),
        keeps(
            visible_hunks(phase, hunks),
            visible_hunks(next_line(phase, hunks, line).0, next_line(phase, hunks, line).1),
        ),
{
    let next = next_line(phase, hunks, line);
    let before = visible_hunks(phase, hunks);
    let after = visible_hunks(next.0, next.1);
    assert forall|i: int| 0 <= i < before.len() implies has_substance(#[trigger] before[i]) by {
        if i < hunks.len() {
            assert(before[i] == hunks[i]);
        }
    }
    assert(hunks.is_prefix_of(before));
    assert(hunks.is_prefix_of(next.1));
    assert(next.1 == hunks || next.1 == before);
    if next.1 == hunks {
        assert forall|i: int| 0 <= i < hunks.len() implies after[i] == before[i] by {}
    } else {
        assert forall|i: int| 0 <= i < before.len() implies after[i] == before[i] by {}
    }
    if before.len() > 0 {
        lemma_last_grows(phase, hunks, line);
    }
}

/// The last hunk that is shown grows, if a line changes it at all.
proof fn lemma_last_grows(phase: PhaseModel, hunks: Seq<HunkModel>, line: Seq<char>)
    requires
        phase_ok(phase),
        visible_hunks(phase, hunks).len() > 0,
    ensures
        ({
            let next = next_line(phase, hunks, line);
            let before = visible_hunks(phase, hunks);
            let after = visible_hunks(next.0, next.1);
            before.len() <= after.len() && grows(before.last(), after[before.len() - 1])
        }),
{
    let next = next_line(phase, hunks, line);
    let before = visible_hunks(phase, hunks);
    let after = visible_hunks(next.0, next.1);
    let last = before.last();
    match last {
        HunkModel::AddFile { contents, .. } => {
            assert(contents =~= contents.subrange(0, contents.len() as int));
        },
        _ => {},
    }
    match phase {
        PhaseModel::AddFile { contents, .. } => {
            let more = (contents + line.skip(1)).push('\n');
            assert(contents =~= more.subrange(0, contents.len() as int));
        },
        _ => {},
    }
}

/// Every stream that text leads to is in order, if the one that it starts from is.
pub proof fn law_stream_stays_ok(stream: StreamModel, text: Seq<char>)
    requires
        stream_ok(stream),
    ensures
        stream_ok(push_text(stream, text)),
    decreases text.len(),
{
    if text.len() > 0 {
        law_stream_stays_ok(stream, text.drop_last());
        let before = push_text(stream, text.drop_last());
        if text.last() == '\n' {
            lemma_next_line_ok(before.phase, before.hunks, trim_cr_of(before.line_buffer));
        }
    }
}

/// A new stream is in order, so every stream that any text leads to is. All that it shows has
/// substance.
pub proof fn law_shown_hunks_have_substance(text: Seq<char>)
    ensures
        stream_ok(push_text(empty_stream(), text)),
        forall|i: int|
            0 <= i < shown(push_text(empty_stream(), text)).len() ==> has_substance(
                #[trigger] shown(push_text(empty_stream(), text))[i],
            ),
{
    law_stream_stays_ok(empty_stream(), text);
    let stream = push_text(empty_stream(), text);
    assert forall|i: int| 0 <= i < shown(stream).len() implies has_substance(
        #[trigger] shown(stream)[i],
    ) by {
        if i < stream.hunks.len() {
            assert(shown(stream)[i] == stream.hunks[i]);
        }
    }
}

/// What is shown never goes away: more text shows at least the hunks that were shown before, each
/// in its place, the last of them with more of it and the others unchanged. So the number of
/// hunks never decreases while a patch arrives.
pub proof fn law_hunks_never_vanish(stream: StreamModel, text: Seq<char>)
    requires
        stream_ok(stream),
    ensures
        shown(stream).len() <= shown(push_text(stream, text)).len(),
        keeps(shown(stream), shown(push_text(stream, text))),
        stream.hunks.is_prefix_of(push_text(stream, text).hunks),
    decreases text.len(),
{
    if text.len() > 0 {
        law_hunks_never_vanish(stream, text.drop_last());
        law_stream_stays_ok(stream, text.drop_last());
        let middle = push_text(stream, text.drop_last());
        let after = push_text(stream, text);
        if text.last() == '\n' {
            lemma_next_line_ok(middle.phase, middle.hunks, trim_cr_of(middle.line_buffer));
        } else {
            lemma_keeps_itself(shown(middle));
        }
        assert(keeps(shown(middle), shown(after)));
        lemma_keeps_again(shown(stream), shown(middle), shown(after));
        assert forall|i: int| 0 <= i < stream.hunks.len() implies stream.hunks[i]
            == after.hunks[i] by {
            assert(stream.hunks[i] == middle.hunks[i]);
            assert(middle.hunks[i] == after.hunks[i]);
        }
        assert(stream.hunks.is_prefix_of(after.hunks));
    } else {
        lemma_keeps_itself(shown(stream));
        assert(stream.hunks.is_prefix_of(stream.hunks));
    }
}

proof fn lemma_keeps_itself(hunks: Seq<HunkModel>)
    ensures
        keeps(hunks, hunks),
{
    if hunks.len() > 0 {
        match hunks.last() {
            HunkModel::AddFile { contents, .. } => {
                assert(contents =~= contents.subrange(0, contents.len() as int));
            },
            _ => {},
        }
    }
}

} // verus!
