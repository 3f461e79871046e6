//! Plain texts: where markers stand without white space around them, a text that parses is one
//! that the grammar writes, and so it shows the same hunks when it arrives.
use crate::patch::batch::{
    added_len, bare_lines_of, body_len, chunk_of, chunks_of, context_of, hunk_of, hunks_of,
    is_change_line, is_heredoc, lemma_added_len, lemma_body_len, lemma_boundaries,
    lemma_chunk_taken, lemma_chunks_used, lemma_hunk_taken, move_path_of, opens_heredoc,
    patch_lines_of, patch_of, update_of, ParseMode,
};
use crate::patch::grammar::{
    added_lines, change_line, change_lines, chunk_lines, chunk_ok, chunks_lines, chunks_ok,
    context_lines, fits_line, hunk_lines, hunk_ok, hunks_lines, hunks_ok, is_name,
    lemma_markers, move_lines, patch_lines, patch_text, ChangeKind, ChangeText, ChunkText,
    HunkText,
};
use crate::patch::grammar_stream::{
    chunk_plain, chunks_plain, hunk_plain, hunks_plain, law_arrival_agrees_with_parsing,
    law_grammar_arrives, looks_like_marker, looks_like_move,
};
use crate::patch::model::{
    header_of, HeaderModel, ADD_FILE_MARKER, BEGIN_PATCH_MARKER, CHANGE_CONTEXT_MARKER,
    DELETE_FILE_MARKER, EMPTY_CHANGE_CONTEXT_MARKER, END_PATCH_MARKER, EOF_MARKER, MOVE_TO_MARKER,
    UPDATE_FILE_MARKER,
};
use crate::patch::stream::{empty_stream, push_text, shown};
use crate::text::{
    find_char, is_space, lemma_find_char, lemma_join_lines, lemma_trim_bounds, lines_of, one_line,
    strip, trim_of,
};
use vstd::prelude::*;

verus! {

/// Whether a line starts as markers do.
pub open spec fn starts_like_marker(line: Seq<char>) -> bool {
    "***"@.is_prefix_of(line) || "@@"@.is_prefix_of(line)
}

/// A line that is not blank, and has no white space around it if it starts as markers do.
pub open spec fn line_unpadded(line: Seq<char>) -> bool {
    &&& trim_of(line).len() > 0
    &&& starts_like_marker(trim_of(line)) ==> trim_of(line) == line
}

/// Such a line, as it stands in a text without carriage returns.
spec fn line_plain(line: Seq<char>) -> bool {
    line_unpadded(line) && !line.contains('\r') && one_line(line)
}

spec fn lines_plain(lines: Seq<Seq<char>>) -> bool {
    forall|i: int| 0 <= i < lines.len() ==> line_plain(#[trigger] lines[i])
}

/// A text without white space around it, without carriage returns and blank lines, whose markers
/// stand without white space around them.
pub open spec fn text_plain(text: Seq<char>) -> bool {
    &&& trim_of(text) == text
    &&& !text.contains('\r')
    &&& forall|i: int| 0 <= i < lines_of(text).len() ==> line_unpadded(#[trigger] lines_of(text)[i])
}

// ---------------------------------------------------------------------------------------------
// Lines
// ---------------------------------------------------------------------------------------------

/// A line that starts with a space is no marker, however it is trimmed.
proof fn lemma_kept_is_plain(line: Seq<char>)
    requires
        line_plain(line),
        line[0] == ' ',
    ensures
        !looks_like_marker(line),
        !looks_like_move(line),
{
    let trimmed = trim_of(line);
    let (i, j) = lemma_trim_bounds(line);
    assert(trimmed != line) by {
        if trimmed == line {
            assert(!is_space(trimmed[0]));
        }
    }
    assert(!starts_like_marker(trimmed));
    lemma_not_a_marker(trimmed);
    assert(header_of(line) is None);
}

/// What does not start as markers do is none.
proof fn lemma_not_a_marker(s: Seq<char>)
    requires
        !starts_like_marker(s),
    ensures
        s != END_PATCH_MARKER@,
        s != EOF_MARKER@,
        context_of(s) is None,
        strip(s, ADD_FILE_MARKER@) is None,
        strip(s, DELETE_FILE_MARKER@) is None,
        strip(s, UPDATE_FILE_MARKER@) is None,
        strip(s, MOVE_TO_MARKER@) is None,
{
    reveal_strlit("***");
    reveal_strlit("@@");
    lemma_markers();
    lemma_prefix(s, END_PATCH_MARKER@, "***"@);
    lemma_prefix(s, EOF_MARKER@, "***"@);
    lemma_prefix(s, ADD_FILE_MARKER@, "***"@);
    lemma_prefix(s, DELETE_FILE_MARKER@, "***"@);
    lemma_prefix(s, UPDATE_FILE_MARKER@, "***"@);
    lemma_prefix(s, MOVE_TO_MARKER@, "***"@);
    lemma_prefix(s, CHANGE_CONTEXT_MARKER@, "@@"@);
    lemma_prefix(s, EMPTY_CHANGE_CONTEXT_MARKER@, "@@"@);
}

/// What does not start with the start of a marker does not start with the marker.
proof fn lemma_prefix(s: Seq<char>, marker: Seq<char>, start: Seq<char>)
    requires
        start.len() <= marker.len(),
        forall|k: int| 0 <= k < start.len() ==> start[k] == marker[k],
    ensures
        strip(s, marker) is Some ==> start.is_prefix_of(s) && s == marker + strip(s, marker)->0,
        s == marker ==> start.is_prefix_of(s),
{
    if strip(s, marker) is Some {
        let rest = strip(s, marker)->0;
        assert(s =~= marker + rest);
        assert(start =~= s.subrange(0, start.len() as int));
    }
    if s == marker {
        assert(start =~= s.subrange(0, start.len() as int));
    }
}

/// A plain line that starts with a marker which ends in a space names something behind it.
proof fn lemma_named(line: Seq<char>, marker: Seq<char>, start: Seq<char>)
    requires
        line_plain(line),
        start == "***"@ || start == "@@"@,
        0 < start.len() <= marker.len(),
        forall|k: int| 0 <= k < start.len() ==> start[k] == marker[k],
        marker.last() == ' ',
        strip(trim_of(line), marker) is Some,
    ensures
        trim_of(line) == line,
        line == marker + strip(line, marker)->0,
        is_name(strip(line, marker)->0),
{
    let trimmed = trim_of(line);
    lemma_prefix(trimmed, marker, start);
    assert(trimmed == line);
    let name = strip(line, marker)->0;
    let (i, j) = lemma_trim_bounds(line);
    assert(i == 0 && j == line.len());
    assert(!is_space(line.last()));
    if name.len() == 0 {
        assert(line =~= marker);
    }
    assert(name.last() == line.last());
    assert forall|k: int| 0 <= k < name.len() implies #[trigger] name[k] != '\n' by {
        assert(line[k + marker.len()] == name[k]);
    }
}

// ---------------------------------------------------------------------------------------------
// Chunks
// ---------------------------------------------------------------------------------------------

/// The change that a change line writes.
spec fn change_of(line: Seq<char>) -> ChangeText {
    ChangeText {
        kind: if line[0] == '+' {
            ChangeKind::Added
        } else if line[0] == '-' {
            ChangeKind::Removed
        } else {
            ChangeKind::Kept
        },
        text: line.skip(1),
    }
}

proof fn lemma_change_of(line: Seq<char>)
    requires
        line_plain(line),
        is_change_line(line),
    ensures
        line.len() > 0,
        change_line(change_of(line)) == line,
        fits_line(change_of(line).text),
        change_of(line).kind is Kept ==> line[0] == ' ',
{
    assert(line.len() > 0) by {
        if line.len() == 0 {
            let (i, j) = lemma_trim_bounds(line);
        }
    }
    assert(change_line(change_of(line)) =~= line);
    let text = line.skip(1);
    assert forall|k: int| 0 <= k < text.len() implies #[trigger] text[k] != '\n' by {
        assert(line[k + 1] == text[k]);
    }
    if text.len() > 0 && text.last() == '\r' {
        assert(line[line.len() - 1] == '\r');
        assert(line.contains('\r'));
    }
}

/// The chunk that a plain text spells.
spec fn chunk_written(lines: Seq<Seq<char>>) -> ChunkText {
    let context = context_of(lines[0]);
    let start: int = if context is Some {
        1
    } else {
        0
    };
    let body = lines.skip(start);
    let n = body_len(body);
    ChunkText {
        context,
        changes: Seq::new(n, |i: int| change_of(body[i])),
        ends_file: n < body.len() && body[n as int] == EOF_MARKER@,
    }
}

proof fn lemma_chunk_written(
    lines: Seq<Seq<char>>,
    line_number: nat,
    first: bool,
    can_accept_move: bool,
)
    requires
        lines_plain(lines),
        chunk_of(lines, line_number, first) is Ok,
    ensures
        chunk_lines(chunk_written(lines)) == lines.take(
            chunk_of(lines, line_number, first)->Ok_0.1 as int,
        ),
        chunk_ok(chunk_written(lines), first),
        chunk_plain(chunk_written(lines), first, can_accept_move),
{
    let chunk = chunk_written(lines);
    let taken = chunk_of(lines, line_number, first)->Ok_0.1 as int;
    let context = context_of(lines[0]);
    let start: int = if context is Some {
        1
    } else {
        0
    };
    let body = lines.skip(start);
    let n = body_len(body) as int;
    lemma_body_len(body);
    assert(line_plain(lines[0]));
    assert forall|i: int| 0 <= i < n implies {
        let change = #[trigger] chunk.changes[i];
        &&& change_line(change) == body[i]
        &&& fits_line(change.text)
        &&& change.kind is Kept ==> !looks_like_marker(body[i]) && !looks_like_move(body[i])
    } by {
        let line = body[i];
        assert(line == lines[i + start]);
        assert(line_plain(lines[i + start]));
        lemma_change_of(line);
        if change_of(line).kind is Kept {
            lemma_kept_is_plain(line);
        }
    }
    assert(change_lines(chunk.changes) =~= body.take(n));
    if context is Some {
        lemma_context_written(lines[0]);
        assert(context_lines(chunk.context) =~= lines.take(1));
    } else {
        assert(context_lines(chunk.context) =~= lines.take(0));
        assert(change_line(chunk.changes[0]) == lines[0]);
    }
    assert(chunk_lines(chunk) =~= lines.take(taken));
}

proof fn lemma_context_written(line: Seq<char>)
    requires
        line_plain(line),
        context_of(line) is Some,
    ensures
        context_lines(context_of(line)) == seq![line],
        context_of(line)->0 matches Some(text) ==> is_name(text),
{
    reveal_strlit("***");
    reveal_strlit("@@");
    lemma_markers();
    let trimmed = trim_of(line);
    if line != EMPTY_CHANGE_CONTEXT_MARKER@ {
        lemma_prefix(line, CHANGE_CONTEXT_MARKER@, "@@"@);
        let (i, j) = lemma_trim_bounds(line);
        assert(i == 0) by {
            if i > 0 {
                assert(is_space(line[0]));
            }
        }
        assert("@@"@.is_prefix_of(trimmed)) by {
            assert(j >= 2) by {
                if j < 2 {
                    assert(is_space(line[1]));
                }
            }
            assert("@@"@ =~= trimmed.subrange(0, 2));
        }
        assert(trimmed == line);
        lemma_named(line, CHANGE_CONTEXT_MARKER@, "@@"@);
    }
    assert(context_lines(context_of(line)) =~= seq![line]);
}

/// The chunks that plain lines spell which parse as chunks.
proof fn lemma_chunks_written(
    lines: Seq<Seq<char>>,
    line_number: nat,
    first: bool,
    can_accept_move: bool,
) -> (chunks: Seq<ChunkText>)
    requires
        lines_plain(lines),
        chunks_of(lines, line_number, first) is Ok,
    ensures
        chunks_lines(chunks) == lines.take(chunks_of(lines, line_number, first)->Ok_0.1 as int),
        chunks.len() == chunks_of(lines, line_number, first)->Ok_0.0.len(),
        chunks_ok(chunks, first),
        chunks_plain(chunks, first, can_accept_move),
    decreases lines.len(),
{
    let (models, used) = chunks_of(lines, line_number, first)->Ok_0;
    if lines.len() > 0 {
        assert(line_plain(lines[0]));
    }
    if lines.len() == 0 || lines[0][0] == '*' {
        assert(lines.take(0) =~= seq![]);
        assert(models.len() == 0);
        seq![]
    } else {
        lemma_chunk_taken(lines, line_number, first);
        lemma_chunk_written(lines, line_number, first, can_accept_move);
        let chunk = chunk_written(lines);
        let taken = chunk_of(lines, line_number, first)->Ok_0.1 as int;
        let tail = lines.skip(taken);
        assert forall|i: int| 0 <= i < tail.len() implies line_plain(#[trigger] tail[i]) by {
            assert(tail[i] == lines[i + taken]);
        }
        let rest = lemma_chunks_written(
            tail,
            line_number + taken as nat,
            false,
            can_accept_move,
        );
        lemma_chunks_used(tail, line_number + taken as nat, false);
        let chunks = seq![chunk] + rest;
        assert(chunks.drop_first() =~= rest);
        assert(chunks[0] == chunk);
        let more = chunks_of(tail, line_number + taken as nat, false)->Ok_0.1 as int;
        assert(lines.take(taken) + tail.take(more) =~= lines.take(taken + more));
        assert forall|i: int| 0 <= i < chunks.len() implies chunk_ok(
            #[trigger] chunks[i],
            first && i == 0,
        ) && chunk_plain(chunks[i], first && i == 0, can_accept_move) by {
            if i > 0 {
                assert(chunks[i] == rest[i - 1]);
            }
        }
        chunks
    }
}

// ---------------------------------------------------------------------------------------------
// Hunks
// ---------------------------------------------------------------------------------------------

/// The hunk that plain lines spell which parse as a hunk.
proof fn lemma_hunk_written(lines: Seq<Seq<char>>, line_number: nat) -> (hunk: HunkText)
    requires
        lines.len() > 0,
        lines_plain(lines),
        hunk_of(lines, line_number) is Ok,
    ensures
        hunk_lines(hunk) == lines.take(hunk_of(lines, line_number)->Ok_0.1 as int),
        hunk_ok(hunk),
        hunk_plain(hunk),
{
    reveal_strlit("***");
    lemma_markers();
    let line = lines[0];
    let rest = lines.skip(1);
    assert(line_plain(line));
    assert forall|i: int| 0 <= i < rest.len() implies line_plain(#[trigger] rest[i]) by {
        assert(rest[i] == lines[i + 1]);
    }
    match header_of(line)->0 {
        HeaderModel::Add(path) => {
            lemma_named(line, ADD_FILE_MARKER@, "***"@);
            lemma_add_written(path, lines)
        },
        HeaderModel::Delete(path) => {
            lemma_named(line, DELETE_FILE_MARKER@, "***"@);
            let hunk = HunkText::Delete { path };
            assert(hunk_lines(hunk) =~= lines.take(1));
            hunk
        },
        HeaderModel::Update(path) => {
            lemma_named(line, UPDATE_FILE_MARKER@, "***"@);
            lemma_update_written(path, lines, line_number)
        },
    }
}

proof fn lemma_add_written(path: Seq<char>, lines: Seq<Seq<char>>) -> (hunk: HunkText)
    requires
        lines.len() > 0,
        lines_plain(lines),
        is_name(path),
        lines[0] == ADD_FILE_MARKER@ + path,
    ensures
        hunk_lines(hunk) == lines.take(1 + added_len(lines.skip(1)) as int),
        hunk_ok(hunk),
        hunk_plain(hunk),
{
    let rest = lines.skip(1);
    let n = added_len(rest) as int;
    lemma_added_len(rest);
    let texts = Seq::new(n as nat, |i: int| rest[i].skip(1));
    let hunk = HunkText::Add { path, lines: texts };
    assert forall|i: int| 0 <= i < n implies fits_line(#[trigger] texts[i]) && seq!['+'] + texts[i]
        == rest[i] by {
        assert(rest[i].len() > 0);
        assert(rest[i] == lines[i + 1]);
        assert(line_plain(lines[i + 1]));
        lemma_change_of(rest[i]);
        assert(seq!['+'] + texts[i] =~= rest[i]);
    }
    assert(added_lines(texts) =~= rest.take(n));
    assert(hunk_lines(hunk) =~= lines.take(1 + n));
    hunk
}

proof fn lemma_update_written(
    path: Seq<char>,
    lines: Seq<Seq<char>>,
    line_number: nat,
) -> (hunk: HunkText)
    requires
        lines.len() > 0,
        lines_plain(lines),
        is_name(path),
        lines[0] == UPDATE_FILE_MARKER@ + path,
        update_of(path, lines.skip(1), line_number) is Ok,
    ensures
        hunk_lines(hunk) == lines.take(
            1 + update_of(path, lines.skip(1), line_number)->Ok_0.1 as int,
        ),
        hunk_ok(hunk),
        hunk_plain(hunk),
{
    reveal_strlit("***");
    lemma_markers();
    let rest = lines.skip(1);
    let move_to = move_path_of(rest);
    let skipped: int = if move_to is Some {
        1
    } else {
        0
    };
    if move_to is Some {
        assert(rest[0] == lines[1]);
        assert(line_plain(lines[1]));
        lemma_move_written(rest[0]);
        assert(move_lines(move_to) =~= rest.take(1));
    } else {
        assert(move_lines(move_to) =~= rest.take(0));
    }
    let body = rest.skip(skipped);
    assert forall|i: int| 0 <= i < body.len() implies line_plain(#[trigger] body[i]) by {
        assert(body[i] == lines[i + 1 + skipped]);
    }
    let number = (line_number + 1 + skipped) as nat;
    let chunks = lemma_chunks_written(body, number, true, move_to is None);
    lemma_chunks_used(body, number, true);
    let used = chunks_of(body, number, true)->Ok_0.1 as int;
    let hunk = HunkText::Update { path, move_to, chunks };
    assert(hunk_lines(hunk) =~= lines.take(1 + skipped + used));
    hunk
}

proof fn lemma_move_written(line: Seq<char>)
    requires
        line_plain(line),
        strip(line, MOVE_TO_MARKER@) is Some,
    ensures
        line == MOVE_TO_MARKER@ + strip(line, MOVE_TO_MARKER@)->0,
        is_name(strip(line, MOVE_TO_MARKER@)->0),
{
    reveal_strlit("***");
    lemma_markers();
    lemma_prefix(line, MOVE_TO_MARKER@, "***"@);
    let trimmed = trim_of(line);
    let (i, j) = lemma_trim_bounds(line);
    assert(line[0] == '*' && line[1] == '*' && line[2] == '*');
    assert(i == 0) by {
        if i > 0 {
            assert(is_space(line[0]));
        }
    }
    assert(j >= 3) by {
        if j < 3 {
            assert(is_space(line[2]));
        }
    }
    assert("***"@ =~= trimmed.subrange(0, 3));
    assert(trimmed == line);
    lemma_named(line, MOVE_TO_MARKER@, "***"@);
}

/// The hunks that plain lines spell which parse as hunks.
proof fn lemma_hunks_written(lines: Seq<Seq<char>>, line_number: nat) -> (hunks: Seq<HunkText>)
    requires
        lines_plain(lines),
        hunks_of(lines, line_number) is Ok,
    ensures
        hunks_lines(hunks) == lines,
        hunks_ok(hunks),
        hunks_plain(hunks),
    decreases lines.len(),
{
    if lines.len() == 0 {
        assert(lines =~= seq![]);
        seq![]
    } else {
        lemma_hunk_taken(lines, line_number);
        let hunk = lemma_hunk_written(lines, line_number);
        let taken = hunk_of(lines, line_number)->Ok_0.1 as int;
        let tail = lines.skip(taken);
        assert forall|i: int| 0 <= i < tail.len() implies line_plain(#[trigger] tail[i]) by {
            assert(tail[i] == lines[i + taken]);
        }
        let rest = lemma_hunks_written(tail, line_number + taken as nat);
        let hunks = seq![hunk] + rest;
        assert(hunks.drop_first() =~= rest);
        assert(lines.take(taken) + tail =~= lines);
        assert forall|i: int| 0 <= i < hunks.len() implies #[trigger] hunk_ok(hunks[i])
            && hunk_plain(hunks[i]) by {
            if i > 0 {
                assert(hunks[i] == rest[i - 1]);
                assert(hunk_ok(rest[i - 1]));
                assert(hunk_plain(rest[i - 1]));
            }
        }
        assert forall|i: int| 0 <= i < hunks.len() implies #[trigger] hunk_plain(hunks[i]) by {
            assert(hunk_ok(hunks[i]));
        }
        hunks
    }
}

/// A plain patch that parses is one that the grammar writes.
pub proof fn law_plain_patches_are_of_the_grammar(text: Seq<char>) -> (hunks: Seq<HunkText>)
    requires
        text_plain(text),
        patch_of(text, ParseMode::Strict) is Ok,
    ensures
        patch_text(hunks) == text,
        hunks_ok(hunks),
        hunks_plain(hunks),
{
    reveal_strlit("***");
    lemma_markers();
    let lines = lines_of(text);
    lemma_boundaries(lines);
    let (i, j) = lemma_trim_bounds(text);
    assert(text.len() > 0);
    assert(!is_space(text[text.len() - 1]));
    lemma_join_lines(text);
    let first = lines[0];
    let last = lines.last();
    assert forall|k: int| 0 <= k < lines.len() implies line_plain(#[trigger] lines[k]) by {
        assert(line_unpadded(lines_of(text)[k]));
        assert(one_line(lines_of(text)[k]));
    }
    assert(line_plain(lines[0]));
    assert(line_plain(lines[lines.len() - 1]));
    lemma_prefix(trim_of(first), BEGIN_PATCH_MARKER@, "***"@);
    lemma_prefix(trim_of(last), END_PATCH_MARKER@, "***"@);
    let body = lines.subrange(1, lines.len() - 1);
    assert forall|k: int| 0 <= k < body.len() implies line_plain(#[trigger] body[k]) by {
        assert(body[k] == lines[k + 1]);
    }
    let hunks = lemma_hunks_written(body, 2);
    assert(patch_lines(hunks) =~= lines);
    hunks
}

/// A plain patch that parses, in whichever mode, shows, when it has arrived, the hunks that it
/// parses to, whether or not the line feed behind its last line has arrived too.
pub proof fn law_plain_patches_arrive(text: Seq<char>, mode: ParseMode)
    requires
        text_plain(text),
        BEGIN_PATCH_MARKER@.is_prefix_of(text),
        patch_of(text, mode) is Ok,
    ensures
        shown(push_text(empty_stream(), text)) == patch_of(text, mode)->Ok_0.hunks,
        shown(push_text(empty_stream(), text + "\n"@)) == patch_of(text, mode)->Ok_0.hunks,
{
    lemma_no_heredoc(text);
    assert(patch_lines_of(text, mode) == bare_lines_of(text));
    assert(patch_of(text, mode) == patch_of(text, ParseMode::Strict));
    let hunks = law_plain_patches_are_of_the_grammar(text);
    law_arrival_agrees_with_parsing(hunks, mode);
    law_grammar_arrives(hunks);
}

/// What begins as a patch is not wrapped in a heredoc.
proof fn lemma_no_heredoc(text: Seq<char>)
    requires
        trim_of(text) == text,
        BEGIN_PATCH_MARKER@.is_prefix_of(text),
    ensures
        !is_heredoc(lines_of(trim_of(text))),
{
    reveal_strlit("<<EOF");
    reveal_strlit("<<'EOF'");
    reveal_strlit("<<\"EOF\"");
    lemma_markers();
    lemma_find_char(text, '\n');
    let end = find_char(text, '\n') as int;
    let first = lines_of(text)[0];
    assert(BEGIN_PATCH_MARKER@ =~= text.subrange(0, BEGIN_PATCH_MARKER@.len() as int));
    assert(text[0] == BEGIN_PATCH_MARKER@[0]);
    assert(text[1] == BEGIN_PATCH_MARKER@[1]);
    assert(end > 1);
    assert(first[0] == '*');
    if opens_heredoc(first) {
        let marker = if "<<EOF"@.is_prefix_of(first) {
            "<<EOF"@
        } else if "<<'EOF'"@.is_prefix_of(first) {
            "<<'EOF'"@
        } else {
            "<<\"EOF\""@
        };
        assert(marker =~= first.subrange(0, marker.len() as int));
        assert(first[0] == marker[0]);
    }
}

} // verus!
