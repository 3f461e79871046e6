//! What the lines of a patch say, whether or not the grammar writes them.
use crate::patch::batch::{
    added_len, added_text, body_len, boundary_error, chunk_of, chunks_of, context_of, hunk_of,
    hunks_of, is_change_line, lemma_added_len, lemma_body_len, lemma_boundaries, new_side, old_side,
    parse_one_hunk, parse_patch, parse_patch_text, parse_update_file_chunk, patch_of,
    push_change_line, ApplyPatchArgs, ParseMode, PatchModel,
};
use crate::patch::grammar::{
    ends_update, hunk_meanings, hunks_lines, hunks_ok, is_name, law_grammar_parses, lemma_header,
    lemma_hunks_before, lemma_markers, lemma_strip_other, patch_text, HunkText,
};
use crate::patch::model::{
    header_of, hunk_models, ChunkModel, ErrorModel, Hunk, HunkModel, ParseError, UpdateFileChunk,
    ADD_FILE_MARKER, DELETE_FILE_MARKER,
};
use crate::text::{
    holds, join_of, lemma_holds_end, lemma_holds_further, lines_of, run_together, strip, texts,
    trim_of,
};
use vstd::prelude::*;

verus! {

/// Whether a line can be one of the lines that a chunk changes or keeps: it is empty, or it starts
/// with a space, a plus or a minus.
pub open spec fn is_line_of_chunk(line: Seq<char>) -> bool {
    line.len() == 0 || seq![' ', '+', '-'].contains(line[0])
}

/// Whether a line opens a chunk.
pub open spec fn opens_chunk(line: Seq<char>) -> bool {
    line == "@@"@ || "@@ "@.is_prefix_of(line)
}

/// What a line of a chunk says: an empty line says nothing, and any other what stands behind its
/// sign.
pub open spec fn says(line: Seq<char>) -> Seq<char> {
    if line.len() == 0 {
        seq![]
    } else {
        line.skip(1)
    }
}

/// The lines of a chunk that were there before the change: all but the added ones.
pub open spec fn old_text(lines: Seq<Seq<char>>) -> Seq<Seq<char>> {
    lines.filter(|line: Seq<char>| line.len() == 0 || line[0] != '+').map_values(
        |line: Seq<char>| says(line),
    )
}

/// The lines of a chunk that are there after the change: all but the removed ones.
pub open spec fn new_text(lines: Seq<Seq<char>>) -> Seq<Seq<char>> {
    lines.filter(|line: Seq<char>| line.len() == 0 || line[0] != '-').map_values(
        |line: Seq<char>| says(line),
    )
}

proof fn lemma_sides_are(lines: Seq<Seq<char>>)
    requires
        forall|i: int| 0 <= i < lines.len() ==> is_line_of_chunk(#[trigger] lines[i]),
    ensures
        old_side(lines) == old_text(lines),
        new_side(lines) == new_text(lines),
    decreases lines.len(),
{
    reveal(Seq::filter);
    if lines.len() == 0 {
        assert(old_side(lines) =~= old_text(lines));
        assert(new_side(lines) =~= new_text(lines));
    } else {
        let before = lines.drop_last();
        let last = lines.last();
        assert forall|i: int| 0 <= i < before.len() implies is_line_of_chunk(
            #[trigger] before[i],
        ) by {
            assert(before[i] == lines[i]);
        }
        lemma_sides_are(before);
        assert(is_line_of_chunk(lines[lines.len() - 1]));
        if last.len() == 0 {
            assert(says(last) =~= last);
        }
        assert(old_side(lines) =~= old_text(lines));
        assert(new_side(lines) =~= new_text(lines));
    }
}

/// What a chunk is, line by line. It is opened by a context line, which only the first chunk of an
/// update can do without, and takes in all the lines behind it that are empty or start with a
/// space, a plus or a minus; there has to be one. An end-of-file line right behind them belongs to
/// it, too. An empty line, like one that starts with a space, stands on both sides of the change;
/// a line that starts with a plus only on the new one, and one that starts with a minus only on the
/// old one; each side has them in their order.
pub proof fn law_what_a_chunk_is(lines: Seq<Seq<char>>, line_number: nat, first: bool)
    ensures
        ({
            let start: int = if lines.len() > 0 && opens_chunk(lines[0]) {
                1
            } else {
                0
            };
            let read = chunk_of(lines, line_number, first);
            &&& read is Ok <==> lines.len() > 0 && (opens_chunk(lines[0]) || first) && start
                < lines.len() && is_line_of_chunk(lines[start])
            &&& read matches Ok((chunk, taken)) ==> {
                let end = if chunk.is_end_of_file {
                    taken - 1
                } else {
                    taken as int
                };
                &&& start < end <= lines.len()
                &&& taken <= lines.len()
                &&& forall|i: int|
                    start <= i < end ==> is_line_of_chunk(#[trigger] lines[i])
                &&& chunk.is_end_of_file <==> end < lines.len() && lines[end]
                    == "*** End of File"@
                &&& end < lines.len() ==> !is_line_of_chunk(lines[end])
                &&& chunk.old_lines == old_text(lines.subrange(start, end))
                &&& chunk.new_lines == new_text(lines.subrange(start, end))
                &&& start == 0 || lines[0] == "@@"@ ==> chunk.change_context is None
                &&& start == 1 && lines[0] != "@@"@ ==> chunk.change_context is Some && lines[0]
                    == "@@ "@ + chunk.change_context->0
            }
            &&& read matches Err(error) ==> {
                &&& error is InvalidHunk
                &&& error->line_number == (if lines.len() == 0 || (start == 0 && !first) {
                    line_number
                } else {
                    line_number + 1
                })
            }
        }),
{
    lemma_markers();
    reveal_strlit("*** End of File");
    reveal_strlit("@@");
    reveal_strlit("@@ ");
    if lines.len() > 0 {
        assert forall|line: Seq<char>| #[trigger] is_change_line(line) == is_line_of_chunk(line) by {
            let signs = seq![' ', '+', '-'];
            assert(signs[0] == ' ' && signs[1] == '+' && signs[2] == '-');
        }
        let context = context_of(lines[0]);
        assert(context is Some <==> opens_chunk(lines[0]));
        let start: int = if context is Some {
            1
        } else {
            0
        };
        let body = lines.skip(start);
        let n = body_len(body) as int;
        lemma_body_len(body);
        if n > 0 {
            assert(is_change_line(body[0]));
            assert(body[0] == lines[start]);
        } else if body.len() > 0 {
            assert(body[0] == lines[start]);
        }
        let mine = body.take(n);
        assert(mine =~= lines.subrange(start, start + n));
        assert forall|i: int| 0 <= i < mine.len() implies is_line_of_chunk(#[trigger] mine[i]) by {
            assert(is_change_line(body[i]));
        }
        lemma_sides_are(mine);
        assert forall|i: int| start <= i < start + n implies is_line_of_chunk(
            #[trigger] lines[i],
        ) by {
            assert(lines[i] == body[i - start]);
            assert(is_change_line(body[i - start]));
        }
        if n < body.len() {
            assert(body[n] == lines[start + n]);
            assert(!is_change_line(body[n]));
        }
        match strip(lines[0], "@@ "@) {
            Some(text) => assert(lines[0] =~= "@@ "@ + text),
            None => {},
        }
    }
}

/// Blank lines before a chunk are skipped: the chunks behind them are the same, and stand that
/// many lines further down.
pub proof fn law_blank_lines_before_chunks(
    blanks: Seq<Seq<char>>,
    lines: Seq<Seq<char>>,
    line_number: nat,
    first: bool,
)
    requires
        forall|i: int| 0 <= i < blanks.len() ==> trim_of(#[trigger] blanks[i]).len() == 0,
    ensures
        chunks_of(blanks + lines, line_number, first) == (match chunks_of(
            lines,
            line_number + blanks.len(),
            first,
        ) {
            Ok((chunks, used)) => Ok::<(Seq<ChunkModel>, nat), ErrorModel>(
                (chunks, used + blanks.len()),
            ),
            Err(error) => Err::<(Seq<ChunkModel>, nat), ErrorModel>(error),
        }),
    decreases blanks.len(),
{
    if blanks.len() == 0 {
        assert(blanks + lines =~= lines);
    } else {
        let rest = blanks.skip(1);
        assert forall|i: int| 0 <= i < rest.len() implies trim_of(#[trigger] rest[i]).len() == 0 by {
            assert(rest[i] == blanks[i + 1]);
        }
        law_blank_lines_before_chunks(rest, lines, line_number + 1, first);
        assert((blanks + lines).skip(1) =~= rest + lines);
        assert((blanks + lines)[0] == blanks[0]);
        assert(trim_of(blanks[0]).len() == 0);
    }
}

/// A patch is made of the lines between its first and its last, which have to be the two markers,
/// white space around them aside. Its text is those lines.
pub proof fn law_what_a_patch_is(text: Seq<char>)
    ensures
        ({
            let lines = lines_of(trim_of(text));
            let begins = lines.len() > 0 && trim_of(lines[0]) == "*** Begin Patch"@;
            let ends = lines.len() > 0 && trim_of(lines.last()) == "*** End Patch"@;
            let read = patch_of(text, ParseMode::Strict);
            &&& lines.len() > 0 && !begins ==> read == Err::<PatchModel, ErrorModel>(
                ErrorModel::InvalidPatch("The first line of the patch must be '*** Begin Patch'"@),
            )
            &&& (begins && !ends) || lines.len() == 0 ==> read == Err::<PatchModel, ErrorModel>(
                ErrorModel::InvalidPatch("The last line of the patch must be '*** End Patch'"@),
            )
            &&& begins && ends ==> lines.len() >= 2
            &&& begins && ends ==> (match hunks_of(lines.subrange(1, lines.len() - 1), 2) {
                Ok(hunks) => read == Ok::<PatchModel, ErrorModel>(
                    PatchModel { patch: join_of(lines, "\n"@), hunks, workdir: None },
                ),
                Err(error) => read == Err::<PatchModel, ErrorModel>(error),
            })
        }),
{
    let lines = lines_of(trim_of(text));
    if boundary_error(lines) is None {
        lemma_boundaries(lines);
    }
}

/// Only a text that starts with a heredoc marker, quoted or not, and whose last line ends in the
/// marker is read in another way leniently than strictly.
pub proof fn law_only_heredocs_are_read_leniently(text: Seq<char>)
    requires
        ({
            let lines = lines_of(trim_of(text));
            ||| lines.len() < 4
            ||| !("<<EOF"@.is_prefix_of(lines[0]) || "<<'EOF'"@.is_prefix_of(lines[0])
                || "<<\"EOF\""@.is_prefix_of(lines[0]))
            ||| !"EOF"@.is_suffix_of(lines.last())
        }),
    ensures
        patch_of(text, ParseMode::Lenient) == patch_of(text, ParseMode::Strict),
{
}

/// Whichever of the three ways the marker of a heredoc is written in, what the heredoc holds is
/// read as the patch.
pub proof fn law_heredocs_of_every_kind(line: Seq<char>, patch: Seq<char>)
    requires
        crate::text::one_line(line),
        patch.contains('\n'),
    ensures
        ({
            let plain = crate::patch::batch_laws::heredoc("<<EOF"@ + line, patch);
            let single = crate::patch::batch_laws::heredoc("<<'EOF'"@ + line, patch);
            let double = crate::patch::batch_laws::heredoc("<<\"EOF\""@ + line, patch);
            let read = patch_of(patch, ParseMode::Strict);
            &&& patch_of(plain, ParseMode::Lenient) == read
            &&& patch_of(single, ParseMode::Lenient) == read
            &&& patch_of(double, ParseMode::Lenient) == read
        }),
{
    lemma_opening("<<EOF"@, line, patch);
    lemma_opening("<<'EOF'"@, line, patch);
    lemma_opening("<<\"EOF\""@, line, patch);
}

proof fn lemma_opening(marker: Seq<char>, line: Seq<char>, patch: Seq<char>)
    requires
        crate::text::one_line(line),
        patch.contains('\n'),
        marker == "<<EOF"@ || marker == "<<'EOF'"@ || marker == "<<\"EOF\""@,
    ensures
        patch_of(crate::patch::batch_laws::heredoc(marker + line, patch), ParseMode::Lenient)
            == patch_of(patch, ParseMode::Strict),
{
    reveal_strlit("<<EOF");
    reveal_strlit("<<'EOF'");
    reveal_strlit("<<\"EOF\"");
    let opening = marker + line;
    assert(marker =~= opening.subrange(0, marker.len() as int));
    assert forall|k: int| 0 <= k < opening.len() implies #[trigger] opening[k] != '\n' by {
        if k < marker.len() {
            assert(opening[k] == marker[k]);
        } else {
            assert(opening[k] == line[k - marker.len()]);
        }
    }
    crate::patch::batch_laws::law_heredoc_is_transparent(opening, patch);
}

/// A line that starts with a star, stands where a hunk should start and is no header is reported,
/// with what it says and where it stands. What comes before it and after it does not matter.
pub proof fn law_bad_headers_are_reported(
    hunks: Seq<HunkText>,
    line: Seq<char>,
    more: Seq<Seq<char>>,
    line_number: nat,
)
    requires
        hunks_ok(hunks),
        line.len() > 0,
        line[0] == '*',
        line != "*** End of File"@,
        trim_of(line).len() > 0,
        !"*** Add File: "@.is_prefix_of(trim_of(line)),
        !"*** Delete File: "@.is_prefix_of(trim_of(line)),
        !"*** Update File: "@.is_prefix_of(trim_of(line)),
    ensures
        ({
            let read = hunks_of(hunks_lines(hunks) + (seq![line] + more), line_number);
            &&& read is Err
            &&& read->Err_0 is InvalidHunk
            &&& read->Err_0->line_number == line_number + hunks_lines(hunks).len()
            &&& holds(read->Err_0->message, trim_of(line))
        }),
{
    let rest = seq![line] + more;
    assert(rest[0] == line);
    lemma_hunks_before(hunks, rest, line_number);
    assert(header_of(line) is None);
    let message = crate::patch::batch::bad_header_message(trim_of(line));
    lemma_holds_end("'"@, trim_of(line));
    lemma_holds_further(
        "'"@ + trim_of(line),
        trim_of(line),
        "' is not a valid hunk header. Valid hunk headers: '*** Add File: {path}', '*** Delete File: {path}', '*** Update File: {path}'"@,
    );
}

/// An update without changes is reported, with its path and where its header stands. What comes
/// before it does not matter, nor what comes after it, as long as that starts with a star.
pub proof fn law_empty_updates_are_reported(
    hunks: Seq<HunkText>,
    path: Seq<char>,
    blanks: Seq<Seq<char>>,
    more: Seq<Seq<char>>,
    line_number: nat,
)
    requires
        hunks_ok(hunks),
        is_name(path),
        ends_update(more),
        more.len() > 0 ==> !"*** Move to: "@.is_prefix_of(more[0]),
        forall|i: int| 0 <= i < blanks.len() ==> trim_of(#[trigger] blanks[i]).len() == 0,
    ensures
        ({
            let header = seq!["*** Update File: "@ + path];
            let read = hunks_of(
                hunks_lines(hunks) + (header + (blanks + more)),
                line_number,
            );
            &&& read is Err
            &&& read->Err_0 is InvalidHunk
            &&& read->Err_0->line_number == line_number + hunks_lines(hunks).len()
            &&& holds(read->Err_0->message, path)
        }),
{
    lemma_markers();
    reveal_strlit("*** Update File: ");
    reveal_strlit("*** Move to: ");
    let line = "*** Update File: "@ + path;
    let further = blanks + more;
    let rest = seq![line] + further;
    assert(rest[0] == line);
    lemma_header(path);
    crate::text::lemma_trim_fixed(line);
    assert(line[4] == 'U');
    lemma_hunks_before(hunks, rest, line_number);
    let n = line_number + hunks_lines(hunks).len();
    assert(rest.skip(1) =~= further);
    assert(further.skip(0) =~= further);
    assert(crate::patch::batch::move_path_of(further) is None) by {
        if further.len() > 0 && blanks.len() > 0 {
            assert(further[0] == blanks[0]);
            assert(trim_of(blanks[0]).len() == 0);
            let (i, j) = crate::text::lemma_trim_bounds(blanks[0]);
            if further[0].len() > 0 {
                assert(crate::text::is_space(further[0][0]));
            }
            lemma_strip_other(further[0], "*** Move to: "@, 0);
        } else if further.len() > 0 {
            assert(further[0] == more[0]);
        }
    }
    law_blank_lines_before_chunks(blanks, more, n + 1, true);
    lemma_holds_end("Update file hunk for path '"@, path);
    lemma_holds_further("Update file hunk for path '"@ + path, path, "' is empty"@);
}

/// What one line adds to a chunk that is read: an empty line, or one that starts with a space, is
/// added to both sides, one that starts with a plus to the new side and one that starts with a
/// minus to the old one. Any other line is refused and changes nothing.
pub proof fn law_adding_a_line(
    line: &str,
    old_lines: &mut Vec<String>,
    new_lines: &mut Vec<String>,
    taken: bool,
)
    requires
        call_ensures(push_change_line, (line, old_lines, new_lines), taken),
    ensures
        taken <==> is_line_of_chunk(line@),
        texts(final(old_lines)@) == (if taken && (line@.len() == 0 || line@[0] != '+') {
            texts(old(old_lines)@).push(says(line@))
        } else {
            texts(old(old_lines)@)
        }),
        texts(final(new_lines)@) == (if taken && (line@.len() == 0 || line@[0] != '-') {
            texts(old(new_lines)@).push(says(line@))
        } else {
            texts(old(new_lines)@)
        }),
{
    let signs = seq![' ', '+', '-'];
    assert(signs[0] == ' ' && signs[1] == '+' && signs[2] == '-');
    if line@.len() == 0 {
        assert(says(line@) =~= line@);
    }
}

/// A patch that is written as the grammar says is read as what it means, whichever function reads
/// it: new files with their lines, deletions, and updates with their renames and with every kept,
/// added, removed and empty line on the side or sides on which it belongs.
pub proof fn law_reading_a_patch(
    patch: &str,
    mode: ParseMode,
    hunks: Seq<HunkText>,
    read: Result<ApplyPatchArgs, ParseError>,
    again: Result<ApplyPatchArgs, ParseError>,
)
    requires
        call_ensures(parse_patch_text, (patch, mode), read),
        call_ensures(parse_patch, (patch,), again),
        hunks_ok(hunks),
        patch@ == patch_text(hunks) || patch@ == patch_text(hunks) + "\n"@,
    ensures
        read is Ok,
        again is Ok,
        hunk_models(read->Ok_0.hunks@) == hunk_meanings(hunks),
        hunk_models(again->Ok_0.hunks@) == hunk_meanings(hunks),
        read->Ok_0.patch@ == patch_text(hunks),
        again->Ok_0.patch@ == patch_text(hunks),
        read->Ok_0.workdir is None,
        again->Ok_0.workdir is None,
{
    law_grammar_parses(hunks, mode);
    law_grammar_parses(hunks, ParseMode::Lenient);
}

/// A patch in a heredoc is read as the patch, by the function that reads leniently, and with the
/// same hunks and the same text as the strict one reads without the heredoc.
pub proof fn law_reading_a_heredoc(
    whole: &str,
    line: Seq<char>,
    patch: &str,
    read: Result<ApplyPatchArgs, ParseError>,
    strictly: Result<ApplyPatchArgs, ParseError>,
)
    requires
        call_ensures(parse_patch, (whole,), read),
        call_ensures(parse_patch_text, (patch, ParseMode::Strict), strictly),
        crate::text::one_line(line),
        patch@.contains('\n'),
        whole@ == crate::patch::batch_laws::heredoc("<<EOF"@ + line, patch@) || whole@
            == crate::patch::batch_laws::heredoc("<<'EOF'"@ + line, patch@) || whole@
            == crate::patch::batch_laws::heredoc("<<\"EOF\""@ + line, patch@),
    ensures
        read is Ok <==> strictly is Ok,
        read is Ok ==> read->Ok_0@ == strictly->Ok_0@,
        read is Err ==> read->Err_0@ == strictly->Err_0@,
{
    law_heredocs_of_every_kind(line, patch@);
}

/// The lines of a new file, without their signs, each ended by a line feed.
pub open spec fn file_of(lines: Seq<Seq<char>>) -> Seq<char> {
    run_together(lines.map_values(|line: Seq<char>| line.skip(1).push('\n')))
}

proof fn lemma_file_of(lines: Seq<Seq<char>>)
    ensures
        added_text(lines) == file_of(lines),
    decreases lines.len(),
{
    let pieces = lines.map_values(|line: Seq<char>| line.skip(1).push('\n'));
    if lines.len() == 0 {
        assert(added_text(lines) =~= file_of(lines));
    } else {
        let before = lines.drop_last();
        lemma_file_of(before);
        assert(pieces.drop_last() =~= before.map_values(
            |line: Seq<char>| line.skip(1).push('\n'),
        ));
        assert(pieces.last() == lines.last().skip(1).push('\n'));
        assert((added_text(before) + lines.last().skip(1)).push('\n') =~= added_text(before)
            + lines.last().skip(1).push('\n'));
    }
}

/// What a hunk is, by its header. A new file holds the lines right behind the header that start
/// with a plus, without the plus, and takes in no others. A deletion takes in no lines. An update
/// goes by the chunks behind its header, or behind the line with its new name if there is one, and
/// there has to be one. Any other line is no header, and is reported with its number.
pub proof fn law_what_a_hunk_is(lines: Seq<Seq<char>>, line_number: nat)
    requires
        lines.len() > 0,
    ensures
        ({
            let text = trim_of(lines[0]);
            let read = hunk_of(lines, line_number);
            let added = "*** Add File: "@.is_prefix_of(text);
            let deleted = "*** Delete File: "@.is_prefix_of(text);
            let updated = "*** Update File: "@.is_prefix_of(text);
            &&& added ==> read is Ok && read->Ok_0.0 is AddFile && {
                let taken = read->Ok_0.1 as int;
                &&& 1 <= taken <= lines.len()
                &&& read->Ok_0.0->AddFile_path == text.skip(14)
                &&& read->Ok_0.0->contents == file_of(lines.subrange(1, taken))
                &&& forall|i: int|
                    1 <= i < taken ==> (#[trigger] lines[i]).len() > 0 && lines[i][0] == '+'
                &&& taken < lines.len() ==> lines[taken].len() == 0 || lines[taken][0] != '+'
            }
            &&& deleted ==> read == Ok::<(HunkModel, nat), ErrorModel>(
                (HunkModel::DeleteFile { path: text.skip(17) }, 1),
            )
            &&& updated ==> {
                let moved = lines.len() > 1 && "*** Move to: "@.is_prefix_of(lines[1]);
                let start: int = if moved {
                    2
                } else {
                    1
                };
                let chunks = chunks_of(lines.skip(start), line_number + start as nat, true);
                &&& chunks matches Err(error) ==> read == Err::<(HunkModel, nat), ErrorModel>(error)
                &&& chunks matches Ok((found, used)) ==> if found.len() == 0 {
                    &&& read is Err
                    &&& read->Err_0 is InvalidHunk
                    &&& read->Err_0->line_number == line_number
                } else {
                    read == Ok::<(HunkModel, nat), ErrorModel>(
                        (
                            HunkModel::UpdateFile {
                                path: text.skip(17),
                                move_path: if moved {
                                    Some(lines[1].skip(13))
                                } else {
                                    None
                                },
                                chunks: found,
                            },
                            used + start as nat,
                        ),
                    )
                }
            }
            &&& !added && !deleted && !updated ==> {
                &&& read is Err
                &&& read->Err_0 is InvalidHunk
                &&& read->Err_0->line_number == line_number
                &&& holds(read->Err_0->message, text)
            }
        }),
{
    lemma_markers();
    reveal_strlit("*** Add File: ");
    reveal_strlit("*** Delete File: ");
    reveal_strlit("*** Update File: ");
    reveal_strlit("*** Move to: ");
    let text = trim_of(lines[0]);
    let rest = lines.skip(1);
    if "*** Add File: "@.is_prefix_of(text) {
        assert(text.subrange(0, 14)[4] == text[4]);
        let n = added_len(rest) as int;
        lemma_added_len(rest);
        lemma_file_of(rest.take(n));
        assert(rest.take(n) =~= lines.subrange(1, n + 1));
        assert forall|i: int| 1 <= i < n + 1 implies (#[trigger] lines[i]).len() > 0 && lines[i][0]
            == '+' by {
            assert(lines[i] == rest[i - 1]);
        }
        if n < rest.len() {
            assert(rest[n] == lines[n + 1]);
        }
    } else if "*** Delete File: "@.is_prefix_of(text) {
        assert(text.subrange(0, 17)[4] == text[4]);
        lemma_strip_other(text, ADD_FILE_MARKER@, 4);
    } else if "*** Update File: "@.is_prefix_of(text) {
        assert(text.subrange(0, 17)[4] == text[4]);
        lemma_strip_other(text, ADD_FILE_MARKER@, 4);
        lemma_strip_other(text, DELETE_FILE_MARKER@, 4);
        assert(rest.skip(0) =~= lines.skip(1));
        if lines.len() > 1 {
            assert(rest[0] == lines[1]);
            assert(rest.skip(1) =~= lines.skip(2));
        }
    } else {
        lemma_holds_end("'"@, text);
        lemma_holds_further(
            "'"@ + text,
            text,
            "' is not a valid hunk header. Valid hunk headers: '*** Add File: {path}', '*** Delete File: {path}', '*** Update File: {path}'"@,
        );
    }
    if "*** Delete File: "@.is_prefix_of(text) || "*** Update File: "@.is_prefix_of(text) {
        assert(text.subrange(0, 17)[4] == text[4]);
        assert(!"*** Add File: "@.is_prefix_of(text)) by {
            if "*** Add File: "@.is_prefix_of(text) {
                assert(text.subrange(0, 14)[4] == text[4]);
            }
        }
    }
}

/// Hunks follow each other: what stands behind one is read as the next, on its own lines and with
/// its own line numbers, and an error anywhere refuses all of them.
pub proof fn law_hunks_follow_each_other(lines: Seq<Seq<char>>, line_number: nat)
    requires
        lines.len() > 0,
    ensures
        hunks_of(Seq::<Seq<char>>::empty(), line_number) == Ok::<Seq<HunkModel>, ErrorModel>(
            Seq::empty(),
        ),
        hunk_of(lines, line_number) matches Err(error) ==> hunks_of(lines, line_number) == Err::<
            Seq<HunkModel>,
            ErrorModel,
        >(error),
        hunk_of(lines, line_number) matches Ok((hunk, taken)) ==> {
            let rest = hunks_of(lines.skip(taken as int), line_number + taken);
            &&& 0 < taken <= lines.len()
            &&& rest matches Ok(more) ==> hunks_of(lines, line_number) is Ok && hunks_of(
                lines,
                line_number,
            )->Ok_0 == seq![hunk] + more
            &&& rest is Err ==> hunks_of(lines, line_number) == rest
        },
{
    crate::patch::batch::lemma_hunk_taken(lines, line_number);
}

/// Chunks follow each other in the same way. Blank lines before one are skipped, only the first may
/// lack its context, and a line that starts with a star ends them.
pub proof fn law_chunks_follow_each_other(lines: Seq<Seq<char>>, line_number: nat, first: bool)
    ensures
        lines.len() == 0 ==> chunks_of(lines, line_number, first) == Ok::<
            (Seq<ChunkModel>, nat),
            ErrorModel,
        >((Seq::empty(), 0)),
        lines.len() > 0 && trim_of(lines[0]).len() > 0 && lines[0][0] == '*' ==> chunks_of(
            lines,
            line_number,
            first,
        ) == Ok::<(Seq<ChunkModel>, nat), ErrorModel>((Seq::empty(), 0)),
        lines.len() > 0 && trim_of(lines[0]).len() > 0 && lines[0][0] != '*' ==> {
            let all = chunks_of(lines, line_number, first);
            &&& chunk_of(lines, line_number, first) matches Err(error) ==> all == Err::<
                (Seq<ChunkModel>, nat),
                ErrorModel,
            >(error)
            &&& chunk_of(lines, line_number, first) matches Ok((chunk, taken)) ==> {
                let rest = chunks_of(lines.skip(taken as int), line_number + taken, false);
                &&& rest matches Ok((more, used)) ==> all == Ok::<
                    (Seq<ChunkModel>, nat),
                    ErrorModel,
                >((seq![chunk] + more, taken + used))
                &&& rest matches Err(error) ==> all == Err::<(Seq<ChunkModel>, nat), ErrorModel>(
                    error,
                )
            }
        },
{
    crate::patch::batch::lemma_chunk_taken(lines, line_number, first);
}

/// Why a chunk is refused is said with the line that is wrong, if there is one.
pub proof fn law_why_a_chunk_is_refused(lines: Seq<Seq<char>>, line_number: nat, first: bool)
    requires
        lines.len() > 0,
        chunk_of(lines, line_number, first) is Err,
    ensures
        ({
            let message = chunk_of(lines, line_number, first)->Err_0->message;
            let opened = opens_chunk(lines[0]);
            &&& !opened && !first ==> holds(message, lines[0])
            &&& opened && lines.len() > 1 && lines[1] != "*** End of File"@ ==> holds(
                message,
                lines[1],
            )
            &&& opened && (lines.len() == 1 || lines[1] == "*** End of File"@) ==> message
                == "Update hunk does not contain any lines"@
            &&& !opened && first && lines[0] != "*** End of File"@ ==> holds(message, lines[0])
        }),
{
    lemma_markers();
    reveal_strlit("*** End of File");
    reveal_strlit("@@");
    reveal_strlit("@@ ");
    let context = context_of(lines[0]);
    let start: int = if context is Some {
        1
    } else {
        0
    };
    let body = lines.skip(start);
    lemma_body_len(body);
    if body.len() > 0 {
        assert(body[0] == lines[start]);
        lemma_holds_end("Unexpected line found in update hunk: '"@, body[0]);
        lemma_holds_further(
            "Unexpected line found in update hunk: '"@ + body[0],
            body[0],
            "'. Every line should start with ' ' (context line), '+' (added line), or '-' (removed line)"@,
        );
    }
    lemma_holds_end(
        "Expected update hunk to start with a @@ context marker, got: '"@,
        lines[0],
    );
    lemma_holds_further(
        "Expected update hunk to start with a @@ context marker, got: '"@ + lines[0],
        lines[0],
        "'"@,
    );
}

/// A chunk that is read is what its lines say, and takes up as many of them as belong to it.
pub proof fn law_reading_a_chunk(
    lines: &[String],
    line_number: usize,
    first: bool,
    read: Result<(UpdateFileChunk, usize), ParseError>,
)
    requires
        call_ensures(parse_update_file_chunk, (lines, line_number, first), read),
    ensures
        ({
            let all = texts(lines@);
            let start: int = if all.len() > 0 && opens_chunk(all[0]) {
                1
            } else {
                0
            };
            &&& read is Ok <==> all.len() > 0 && (opens_chunk(all[0]) || first) && start
                < all.len() && is_line_of_chunk(all[start])
            &&& read matches Ok((chunk, taken)) ==> {
                let end = if chunk.is_end_of_file {
                    taken - 1
                } else {
                    taken as int
                };
                &&& start < end <= all.len()
                &&& texts(chunk.old_lines@) == old_text(all.subrange(start, end))
                &&& texts(chunk.new_lines@) == new_text(all.subrange(start, end))
                &&& end < all.len() ==> !is_line_of_chunk(all[end])
            }
        }),
{
    law_what_a_chunk_is(texts(lines@), line_number as nat, first);
}

/// A hunk that is read is of the kind that its header names, for the file that it names.
pub proof fn law_reading_a_hunk(
    lines: &[String],
    line_number: usize,
    read: Result<(Hunk, usize), ParseError>,
)
    requires
        call_ensures(parse_one_hunk, (lines, line_number), read),
        lines@.len() > 0,
    ensures
        ({
            let text = trim_of(lines@[0]@);
            let added = "*** Add File: "@.is_prefix_of(text);
            let deleted = "*** Delete File: "@.is_prefix_of(text);
            let updated = "*** Update File: "@.is_prefix_of(text);
            &&& read is Ok ==> added || deleted || updated
            &&& added ==> read is Ok && read->Ok_0.0 is AddFile && read->Ok_0.0@->AddFile_path
                == text.skip(14) && read->Ok_0.0@->contents == file_of(
                texts(lines@).subrange(1, read->Ok_0.1 as int),
            )
            &&& deleted ==> read is Ok && read->Ok_0.0@ == (HunkModel::DeleteFile {
                path: text.skip(17),
            }) && read->Ok_0.1 == 1
            &&& updated && read is Ok ==> read->Ok_0.0 is UpdateFile
                && read->Ok_0.0@->UpdateFile_path == text.skip(17)
        }),
{
    let all = texts(lines@);
    assert(all[0] == lines@[0]@);
    law_what_a_hunk_is(all, line_number as nat);
    law_header_kinds(trim_of(all[0]));
}

/// A line is the header of at most one kind of hunk.
pub proof fn law_header_kinds(text: Seq<char>)
    ensures
        !("*** Add File: "@.is_prefix_of(text) && "*** Delete File: "@.is_prefix_of(text)),
        !("*** Add File: "@.is_prefix_of(text) && "*** Update File: "@.is_prefix_of(text)),
        !("*** Delete File: "@.is_prefix_of(text) && "*** Update File: "@.is_prefix_of(text)),
{
    reveal_strlit("*** Add File: ");
    reveal_strlit("*** Delete File: ");
    reveal_strlit("*** Update File: ");
    if "*** Add File: "@.is_prefix_of(text) {
        assert(text.subrange(0, 14)[4] == text[4]);
    }
    if "*** Delete File: "@.is_prefix_of(text) {
        assert(text.subrange(0, 17)[4] == text[4]);
    }
    if "*** Update File: "@.is_prefix_of(text) {
        assert(text.subrange(0, 17)[4] == text[4]);
    }
}

} // verus!
