//! What holds of every patch that is parsed at once.
use crate::patch::batch::{
    bare_lines_of, boundary_error, chunk_of, chunks_of, hunk_of, hunks_of, inner_text, is_heredoc,
    lemma_body_len, lemma_chunk_taken, lemma_hunk_taken, new_side, old_side, opens_heredoc,
    patch_lines_of, patch_of, ParseMode, PatchModel,
};
use crate::patch::model::{ChunkModel, ErrorModel, HunkModel, BEGIN_PATCH_MARKER};
use crate::text::{
    chop_cr, is_space, join_of, lemma_join_lines, lemma_lines_cons, lemma_lines_single,
    lemma_trim_bounds, lemma_trim_idempotent, lemma_trim_middle, lines_of, one_line, trim_of,
};
use vstd::prelude::*;

verus! {

/// Whether a hunk says something to do: an update has chunks, and each of them has lines.
pub open spec fn has_lines(hunk: HunkModel) -> bool {
    match hunk {
        HunkModel::UpdateFile { chunks, .. } => {
            &&& chunks.len() > 0
            &&& forall|i: int| 0 <= i < chunks.len() ==> chunk_has_lines(#[trigger] chunks[i])
        },
        _ => true,
    }
}

pub open spec fn chunk_has_lines(chunk: ChunkModel) -> bool {
    chunk.old_lines.len() > 0 || chunk.new_lines.len() > 0
}

/// Whether an error names a line from `low` up to, but not including, `high`.
pub open spec fn error_within(error: ErrorModel, low: int, high: int) -> bool {
    match error {
        ErrorModel::InvalidHunk { line_number, .. } => low <= line_number < high,
        ErrorModel::InvalidPatch(_) => false,
    }
}

proof fn lemma_chunk(lines: Seq<Seq<char>>, line_number: nat, first: bool)
    requires
        lines.len() > 0,
    ensures
        (match chunk_of(lines, line_number, first) {
            Ok((chunk, _)) => chunk_has_lines(chunk),
            Err(error) => error_within(
                error,
                line_number as int,
                (line_number + lines.len() + 1) as int,
            ),
        }),
{
    lemma_body_len(lines.skip(0));
    lemma_body_len(lines.skip(1));
    match chunk_of(lines, line_number, first) {
        Ok(_) => {
            reveal_with_fuel(old_side, 2);
            reveal_with_fuel(new_side, 2);
        },
        Err(_) => {},
    }
}

proof fn lemma_chunks(lines: Seq<Seq<char>>, line_number: nat, first: bool)
    ensures
        (match chunks_of(lines, line_number, first) {
            Ok((chunks, _)) => forall|i: int|
                0 <= i < chunks.len() ==> chunk_has_lines(#[trigger] chunks[i]),
            Err(error) => error_within(
                error,
                line_number as int,
                (line_number + lines.len() + 1) as int,
            ),
        }),
    decreases lines.len(),
{
    if lines.len() == 0 {
    } else if trim_of(lines[0]).len() == 0 {
        lemma_chunks(lines.skip(1), line_number + 1, first);
    } else if lines[0][0] == '*' {
    } else {
        lemma_chunk_taken(lines, line_number, first);
        lemma_chunk(lines, line_number, first);
        match chunk_of(lines, line_number, first) {
            Ok((chunk, taken)) => {
                lemma_chunks(lines.skip(taken as int), line_number + taken, false);
                match chunks_of(lines.skip(taken as int), line_number + taken, false) {
                    Ok((rest, _)) => {
                        let all = seq![chunk] + rest;
                        assert forall|i: int| 0 <= i < all.len() implies chunk_has_lines(
                            #[trigger] all[i],
                        ) by {
                            if i > 0 {
                                assert(all[i] == rest[i - 1]);
                            }
                        }
                    },
                    Err(_) => {},
                }
            },
            Err(_) => {},
        }
    }
}

proof fn lemma_hunk(lines: Seq<Seq<char>>, line_number: nat)
    requires
        lines.len() > 0,
    ensures
        (match hunk_of(lines, line_number) {
            Ok((hunk, _)) => has_lines(hunk),
            Err(error) => error_within(
                error,
                line_number as int,
                (line_number + lines.len() + 1) as int,
            ),
        }),
{
    let rest = lines.skip(1);
    lemma_chunks(rest.skip(0), line_number + 1, true);
    lemma_chunks(rest.skip(1), line_number + 2, true);
}

proof fn lemma_hunks(lines: Seq<Seq<char>>, line_number: nat)
    ensures
        (match hunks_of(lines, line_number) {
            Ok(hunks) => forall|i: int| 0 <= i < hunks.len() ==> has_lines(#[trigger] hunks[i]),
            Err(error) => error_within(
                error,
                line_number as int,
                (line_number + lines.len() + 1) as int,
            ),
        }),
    decreases lines.len(),
{
    if lines.len() > 0 {
        lemma_hunk_taken(lines, line_number);
        lemma_hunk(lines, line_number);
        match hunk_of(lines, line_number) {
            Ok((hunk, taken)) => {
                lemma_hunks(lines.skip(taken as int), line_number + taken);
                match hunks_of(lines.skip(taken as int), line_number + taken) {
                    Ok(rest) => {
                        let all = seq![hunk] + rest;
                        assert forall|i: int| 0 <= i < all.len() implies has_lines(
                            #[trigger] all[i],
                        ) by {
                            if i > 0 {
                                assert(all[i] == rest[i - 1]);
                            }
                        }
                    },
                    Err(_) => {},
                }
            },
            Err(_) => {},
        }
    }
}

/// Every update in a patch that parses has chunks, and each of them has lines.
pub proof fn law_parsed_updates_have_lines(patch: Seq<char>, mode: ParseMode)
    ensures
        (match patch_of(patch, mode) {
            Ok(model) => forall|i: int|
                0 <= i < model.hunks.len() ==> has_lines(#[trigger] model.hunks[i]),
            Err(_) => true,
        }),
{
    match patch_lines_of(patch, mode) {
        Ok(lines) => lemma_hunks(lines.subrange(1, lines.len() - 1), 2),
        Err(_) => {},
    }
}

/// The line that a hunk error names is one of the patch, counted from one, and not its first.
pub proof fn law_error_names_a_line_of_the_patch(patch: Seq<char>, mode: ParseMode)
    ensures
        (match (patch_lines_of(patch, mode), patch_of(patch, mode)) {
            (Ok(lines), Err(error)) => error_within(error, 2, lines.len() as int + 1),
            (Err(error), outcome) => error is InvalidPatch && outcome == Err::<
                PatchModel,
                ErrorModel,
            >(error),
            _ => true,
        }),
{
    match patch_lines_of(patch, mode) {
        Ok(lines) => {
            crate::patch::batch::lemma_boundaries(lines);
            lemma_hunks(lines.subrange(1, lines.len() - 1), 2);
        },
        Err(_) => {},
    }
}

/// What parses strictly parses leniently, to the same hunks.
pub proof fn law_lenient_accepts_what_strict_accepts(patch: Seq<char>)
    requires
        patch_of(patch, ParseMode::Strict) is Ok,
    ensures
        patch_of(patch, ParseMode::Lenient) == patch_of(patch, ParseMode::Strict),
{
}

/// A text without carriage returns whose lines are a patch is, without the white space around it,
/// the text of that patch, and parses as it does.
proof fn lemma_bare_text(text: Seq<char>)
    requires
        bare_lines_of(text) is Ok,
        !text.contains('\r'),
    ensures
        join_of(bare_lines_of(text)->Ok_0, "\n"@) == trim_of(text),
        bare_lines_of(trim_of(text)) == bare_lines_of(text),
{
    let trimmed = trim_of(text);
    let lines = lines_of(trimmed);
    crate::patch::batch::lemma_boundaries(lines);
    lemma_trim_idempotent(text);
    let (i, j) = lemma_trim_bounds(text);
    assert(trimmed.len() > 0);
    assert(trimmed.last() == text[j - 1]);
    assert(!trimmed.contains('\r')) by {
        if trimmed.contains('\r') {
            let k = trimmed.index_of('\r');
            assert(text[i + k] == '\r');
            assert(text.contains('\r'));
        }
    }
    lemma_join_lines(trimmed);
}

/// The text of a parsed patch parses again, strictly and leniently, to the same patch.
///
/// A text with carriage returns is left out: a line that ends in two of them is read with one, and
/// without any the second time.
pub proof fn law_parsed_text_parses_again(patch: Seq<char>, mode: ParseMode, again: ParseMode)
    requires
        patch_of(patch, mode) is Ok,
        !patch.contains('\r'),
    ensures
        patch_of(patch_of(patch, mode)->Ok_0.patch, again) == patch_of(patch, mode),
{
    if bare_lines_of(patch) is Ok {
        lemma_bare_text(patch);
    } else {
        let trimmed = trim_of(patch);
        let inner = inner_text(trimmed);
        let (i, j) = lemma_trim_bounds(patch);
        assert(!inner.contains('\r')) by {
            if inner.contains('\r') {
                let k = inner.index_of('\r');
                let start = crate::text::find_char(trimmed, '\n') as int + 1;
                crate::text::lemma_last_place_bounds(trimmed, '\n');
                assert(inner[k] == trimmed[start + k]);
                assert(trimmed[start + k] == patch[i + start + k]);
                assert(patch.contains('\r'));
            }
        }
        lemma_bare_text(inner);
    }
}

/// A text of white space alone.
pub open spec fn is_blank(s: Seq<char>) -> bool {
    forall|i: int| 0 <= i < s.len() ==> is_space(#[trigger] s[i])
}

/// White space around a line does not matter where the line is trimmed.
pub proof fn lemma_trim_padded(before: Seq<char>, line: Seq<char>, after: Seq<char>)
    requires
        is_blank(before),
        is_blank(after),
    ensures
        trim_of(before + line + after) == trim_of(line),
{
    let padded = before + line + after;
    let n = before.len() as int;
    let (i, j) = lemma_trim_bounds(line);
    if i < j {
        assert forall|k: int| 0 <= k < n + i implies is_space(#[trigger] padded[k]) by {
            if k < n {
                assert(padded[k] == before[k]);
            } else {
                assert(padded[k] == line[k - n]);
            }
        }
        assert forall|k: int| n + j <= k < padded.len() implies is_space(#[trigger] padded[k]) by {
            if k < n + line.len() {
                assert(padded[k] == line[k - n]);
            } else {
                assert(padded[k] == after[k - n - line.len()]);
            }
        }
        assert(padded[n + i] == line[i]);
        assert(padded[n + j - 1] == line[j - 1]);
        lemma_trim_middle(padded, n + i, n + j);
        assert(padded.subrange(n + i, n + j) =~= line.subrange(i, j));
    } else {
        assert forall|k: int| 0 <= k < padded.len() implies is_space(#[trigger] padded[k]) by {
            if k < n {
                assert(padded[k] == before[k]);
            } else if k < n + line.len() {
                assert(padded[k] == line[k - n]);
            } else {
                assert(padded[k] == after[k - n - line.len()]);
            }
        }
        crate::text::lemma_trim_blank(padded);
        assert(trim_of(padded) =~= trim_of(line));
    }
}

/// White space around the marker that a patch begins or ends with, or around the header of a
/// hunk, changes nothing.
pub proof fn law_white_space_around_markers(
    lines: Seq<Seq<char>>,
    before: Seq<char>,
    after: Seq<char>,
    line_number: nat,
)
    requires
        lines.len() > 1,
        is_blank(before),
        is_blank(after),
    ensures
        ({
            let first = lines.update(0, before + lines[0] + after);
            let last = lines.update(lines.len() - 1, before + lines.last() + after);
            &&& boundary_error(first) == boundary_error(lines)
            &&& boundary_error(last) == boundary_error(lines)
            &&& hunk_of(first, line_number) == hunk_of(lines, line_number)
        }),
{
    lemma_trim_padded(before, lines[0], after);
    lemma_trim_padded(before, lines.last(), after);
    let first = lines.update(0, before + lines[0] + after);
    let last = lines.update(lines.len() - 1, before + lines.last() + after);
    assert(first.last() == lines.last());
    assert(last[0] == lines[0]);
    assert(first.skip(1) =~= lines.skip(1));
}

/// The lines of `s` with a line feed and one line more behind it.
proof fn lemma_lines_snoc(s: Seq<char>, last: Seq<char>)
    requires
        one_line(last),
        last.len() > 0,
    ensures
        lines_of(s + "\n"@ + last).last() == last,
        lines_of(s + "\n"@ + last).len() >= 2,
        s.contains('\n') ==> lines_of(s + "\n"@ + last).len() >= 3,
    decreases s.len(),
{
    reveal_strlit("\n");
    crate::text::lemma_find_char(s, '\n');
    let end = crate::text::find_char(s, '\n') as int;
    if end >= s.len() {
        lemma_lines_cons(s, last);
        lemma_lines_single(last);
    } else {
        let head = s.take(end);
        let tail = s.skip(end + 1);
        assert(one_line(head));
        assert(s + "\n"@ + last =~= head + "\n"@ + (tail + "\n"@ + last));
        lemma_lines_cons(head, tail + "\n"@ + last);
        lemma_lines_snoc(tail, last);
    }
}

/// A patch text in a heredoc.
pub open spec fn heredoc(opening: Seq<char>, patch: Seq<char>) -> Seq<char> {
    opening + "\n"@ + patch + "\nEOF\n"@
}

/// What a heredoc holds parses leniently as it would by itself strictly, whichever way the heredoc
/// marker is quoted and whatever else stands on its line. It takes up more than one line.
pub proof fn law_heredoc_is_transparent(opening: Seq<char>, patch: Seq<char>)
    requires
        opens_heredoc(opening),
        one_line(opening),
        patch.contains('\n'),
    ensures
        patch_of(heredoc(opening, patch), ParseMode::Lenient) == patch_of(
            patch,
            ParseMode::Strict,
        ),
        patch_of(heredoc(opening, patch), ParseMode::Strict) == Err::<PatchModel, ErrorModel>(
            ErrorModel::InvalidPatch("The first line of the patch must be '*** Begin Patch'"@),
        ),
{
    reveal_strlit("<<EOF");
    reveal_strlit("<<'EOF'");
    reveal_strlit("<<\"EOF\"");
    reveal_strlit("\nEOF\n");
    reveal_strlit("EOF");
    reveal_strlit("\n");
    reveal_strlit("*** Begin Patch");
    let whole = heredoc(opening, patch);
    let rest = patch + "\n"@ + "EOF"@;
    let inner = opening + "\n"@ + rest;
    lemma_chopped_opening(opening);
    assert(whole =~= inner + "\n"@);
    assert(whole[0] == '<');
    assert(whole[whole.len() - 2] == 'F');
    assert(whole[whole.len() - 1] == '\n');
    lemma_trim_middle(whole, 0, whole.len() - 1);
    assert(whole.subrange(0, whole.len() - 1) =~= inner);
    assert(one_line("EOF"@));
    lemma_lines_cons(opening, rest);
    let first = chop_cr(opening);
    lemma_lines_snoc(patch, "EOF"@);
    let lines = lines_of(trim_of(whole));
    assert(lines == seq![first] + lines_of(rest));
    assert(lines[0] == first);
    assert(lines.last() == "EOF"@);
    assert("EOF"@.is_suffix_of("EOF"@)) by {
        assert("EOF"@ =~= "EOF"@.subrange(0, 3));
    }
    let (i, j) = lemma_trim_bounds(first);
    assert(trim_of(lines[0])[0] == '<');
    assert(BEGIN_PATCH_MARKER@[0] == '*');
    assert(is_heredoc(lines));
    lemma_inside_heredoc(opening, patch, "EOF"@);
}

/// A carriage return at the end of its line is not part of what opens a heredoc.
proof fn lemma_chopped_opening(opening: Seq<char>)
    requires
        opens_heredoc(opening),
    ensures
        opens_heredoc(chop_cr(opening)),
        chop_cr(opening).len() > 0,
        chop_cr(opening)[0] == '<',
        opening.len() > 0,
        opening[0] == '<',
{
    reveal_strlit("<<EOF");
    reveal_strlit("<<'EOF'");
    reveal_strlit("<<\"EOF\"");
    let chopped = chop_cr(opening);
    let marker = if "<<EOF"@.is_prefix_of(opening) {
        "<<EOF"@
    } else if "<<'EOF'"@.is_prefix_of(opening) {
        "<<'EOF'"@
    } else {
        "<<\"EOF\""@
    };
    assert(marker =~= opening.subrange(0, marker.len() as int));
    assert(opening[marker.len() - 1] == marker.last());
    assert(marker[0] == opening[0]);
    assert(marker =~= chopped.subrange(0, marker.len() as int));
}

proof fn lemma_inside_heredoc(opening: Seq<char>, patch: Seq<char>, last: Seq<char>)
    requires
        one_line(opening),
        one_line(last),
    ensures
        inner_text(opening + "\n"@ + (patch + "\n"@ + last)) == patch,
{
    reveal_strlit("\n");
    let text = opening + "\n"@ + (patch + "\n"@ + last);
    let start = opening.len() as int;
    let end = opening.len() + 1 + patch.len() as int;
    assert forall|k: int| 0 <= k < start implies #[trigger] text[k] != '\n' by {
        assert(text[k] == opening[k]);
    }
    assert(text[start] == '\n');
    crate::text::lemma_find_char_is(text, '\n', start);
    assert(text[end] == '\n');
    assert forall|k: int| end < k < text.len() implies #[trigger] text[k] != '\n' by {
        assert(text[k] == last[k - end - 1]);
    }
    crate::text::lemma_last_place(text, '\n', end);
    assert(text.subrange(start + 1, end) =~= patch);
}

/// A heredoc may have white space around it, and its last line only has to end in the marker: what
/// stands before it on that line is dropped with it.
pub proof fn law_heredocs_end_in_their_marker(
    before: Seq<char>,
    opening: Seq<char>,
    patch: Seq<char>,
    rest: Seq<char>,
    after: Seq<char>,
)
    requires
        is_blank(before),
        is_blank(after),
        opens_heredoc(opening),
        one_line(opening),
        one_line(rest),
        patch.contains('\n'),
    ensures
        patch_of(
            before + (opening + "\n"@ + (patch + "\n"@ + (rest + "EOF"@))) + after,
            ParseMode::Lenient,
        ) == patch_of(patch, ParseMode::Strict),
{
    reveal_strlit("<<EOF");
    reveal_strlit("<<'EOF'");
    reveal_strlit("<<\"EOF\"");
    reveal_strlit("EOF");
    reveal_strlit("\n");
    reveal_strlit("*** Begin Patch");
    let last = rest + "EOF"@;
    let tail = patch + "\n"@ + last;
    let inner = opening + "\n"@ + tail;
    lemma_chopped_opening(opening);
    assert(inner[0] == '<');
    assert(inner.last() == 'F');
    lemma_trim_padded(before, inner, after);
    crate::text::lemma_trim_fixed(inner);
    assert forall|k: int| 0 <= k < last.len() implies #[trigger] last[k] != '\n' by {
        if k < rest.len() {
            assert(last[k] == rest[k]);
        } else {
            assert(last[k] == "EOF"@[k - rest.len()]);
        }
    }
    lemma_lines_cons(opening, tail);
    lemma_lines_snoc(patch, last);
    let lines = lines_of(inner);
    let first = chop_cr(opening);
    assert(lines == seq![first] + lines_of(tail));
    assert(lines[0] == first);
    assert(lines.last() == last);
    assert("EOF"@.is_suffix_of(last)) by {
        assert("EOF"@ =~= last.subrange(last.len() - 3, last.len() as int));
    }
    let (i, j) = lemma_trim_bounds(first);
    assert(trim_of(lines[0])[0] == '<');
    assert(BEGIN_PATCH_MARKER@[0] == '*');
    assert(is_heredoc(lines));
    lemma_inside_heredoc(opening, patch, last);
}

} // verus!
