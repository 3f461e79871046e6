use automode::paths::PathRules;
use automode::patch::batch::{parse_patch, parse_patch_text, ParseMode};
use automode::patch::model::{Hunk, ParseError};
use automode::patch::stream::StreamingPatchParser;

const PATCH: &str = "*** Begin Patch\n*** Add File: a.txt\n+one\n+two\n*** Delete File: b.txt\n*** Update File: c.txt\n*** Move to: d.txt\n@@ fn main()\n context\n-old\n+new\n*** End of File\n*** End Patch";

#[test]
fn renamed_files_are_affected_under_their_new_name() {
    let hunks = parse_patch(PATCH).unwrap().hunks;
    assert_eq!(hunks.len(), 3);
    assert_eq!(hunks[2].path(), "d.txt");
    assert_eq!(hunks[2].resolve_path(PathRules::current(), "/work"), "/work/c.txt");
    assert_eq!(hunks[0].path(), "a.txt");
    assert_eq!(hunks[1].path(), "b.txt");
}

#[test]
fn pieces_of_a_patch_add_up() {
    let mut whole = StreamingPatchParser::default();
    let at_once = whole.push_delta(PATCH);
    assert!(at_once.is_some());
    for size in 1..7 {
        let mut parser = StreamingPatchParser::default();
        let chars: Vec<char> = PATCH.chars().collect();
        let mut last: Option<Vec<Hunk>> = None;
        for piece in chars.chunks(size) {
            let piece: String = piece.iter().collect();
            last = parser.push_delta(&piece);
        }
        assert_eq!(last, at_once);
        assert_eq!(parser.current_hunks(), whole.current_hunks());
    }
}

#[test]
fn arrival_agrees_with_parsing() {
    let mut parser = StreamingPatchParser::default();
    let arrived = parser.push_delta(&format!("{PATCH}\n")).unwrap();
    assert_eq!(arrived, parse_patch(PATCH).unwrap().hunks);
}

#[test]
fn lenient_parsing_accepts_what_strict_parsing_accepts() {
    assert_eq!(
        parse_patch_text(PATCH, ParseMode::Strict),
        parse_patch_text(PATCH, ParseMode::Lenient)
    );
    let heredoc = format!("<<EOF\n{PATCH}\nEOF");
    assert_eq!(
        parse_patch_text(&heredoc, ParseMode::Lenient).unwrap().hunks,
        parse_patch_text(PATCH, ParseMode::Strict).unwrap().hunks
    );
}

#[test]
fn errors_say_where_they_are() {
    let err = parse_patch("*** Begin Patch\n*** Update File: a\n*** End Patch").unwrap_err();
    assert_eq!(
        err,
        ParseError::InvalidHunkError {
            message: "Update file hunk for path 'a' is empty".to_string(),
            line_number: 2,
        }
    );
    assert_eq!(
        err.to_string(),
        "invalid hunk at line 2, Update file hunk for path 'a' is empty"
    );
    assert_eq!(
        parse_patch("nonsense").unwrap_err().to_string(),
        "invalid patch: The first line of the patch must be '*** Begin Patch'"
    );
}

#[test]
fn blank_lines_inside_a_heredoc_are_dropped() {
    let heredoc = format!("<<'EOF'\n\n  \n{PATCH}\n\nEOF\n");
    let args = parse_patch_text(&heredoc, ParseMode::Lenient).unwrap();
    assert_eq!(args, parse_patch_text(PATCH, ParseMode::Strict).unwrap());
    assert_eq!(args.patch, PATCH);
}

#[test]
fn a_heredoc_may_be_opened_with_more_on_its_line() {
    for opening in ["<<EOF -", "<<'EOF' > out", "<<\"EOF\"\r", "<<EOF2"] {
        let heredoc = format!("{opening}\n*** Begin Patch\n*** End Patch\nEOF");
        let args = parse_patch(&heredoc).unwrap();
        assert_eq!(args.patch, "*** Begin Patch\n*** End Patch");
        assert_eq!(args.hunks, Vec::new());
        assert!(parse_patch_text(&heredoc, ParseMode::Strict).is_err());
    }
    assert!(parse_patch("<<\"EOF'\n*** Begin Patch\n*** End Patch\nEOF").is_err());
    assert!(parse_patch(" x<<EOF\n*** Begin Patch\n*** End Patch\nEOF").is_err());
}

#[test]
fn markers_may_be_padded() {
    let padded = PATCH
        .replace("*** Begin Patch", "  *** Begin Patch ")
        .replace("*** Delete File: b.txt", " *** Delete File: b.txt  ")
        .replace("*** End Patch", "\t*** End Patch");
    assert_eq!(
        parse_patch(&padded).unwrap().hunks,
        parse_patch(PATCH).unwrap().hunks
    );
}

#[test]
fn the_returned_text_parses_again() {
    for text in [
        format!("\n {PATCH} \n"),
        format!("<<EOF\n\n{PATCH}\nEOF"),
    ] {
        let args = parse_patch(&text).unwrap();
        assert_eq!(parse_patch(&args.patch).unwrap(), args);
        assert_eq!(parse_patch_text(&args.patch, ParseMode::Strict).unwrap(), args);
    }
}

#[test]
fn plain_patches_arrive_as_they_parse() {
    for patch in [
        PATCH,
        "*** Begin Patch\n*** End Patch",
        "*** Begin Patch\n*** Add File: empty\n*** Add File: a\n+*** End Patch\n+@@\n*** End Patch",
        "*** Begin Patch\n*** Update File: a\n+one\n@@\n-two\n@@ three\n four\n*** Update File: b\n@@\n+x\n*** End Patch",
    ] {
        let hunks = parse_patch(patch).unwrap().hunks;
        let mut parser = StreamingPatchParser::default();
        let arrived = parser.push_delta(&format!("{patch}\n"));
        assert_eq!(arrived, if hunks.is_empty() { None } else { Some(hunks) });
    }
}

#[test]
fn shown_hunks_only_grow() {
    let mut parser = StreamingPatchParser::default();
    let mut before: Vec<Hunk> = Vec::new();
    for c in PATCH.chars() {
        parser.push_delta(&c.to_string());
        let after = parser.current_hunks();
        assert!(before.len() <= after.len());
        for i in 1..before.len() {
            assert_eq!(before[i - 1], after[i - 1]);
        }
        if let (
            Some(Hunk::AddFile { contents: earlier, .. }),
            Some(Hunk::AddFile { contents: later, .. }),
        ) = (before.last(), after.get(before.len().wrapping_sub(1)))
        {
            assert!(later.starts_with(earlier.as_str()));
        }
        if let (
            Some(Hunk::UpdateFile { move_path: earlier, .. }),
            Some(Hunk::UpdateFile { move_path: later, .. }),
        ) = (before.last(), after.get(before.len().wrapping_sub(1)))
        {
            assert_eq!(earlier, later);
        }
        before = after;
    }
}

#[test]
fn complete_lines_leave_the_arriving_one_alone() {
    let mut parser = StreamingPatchParser::default();
    parser.push_delta("*** Begin Pa");
    parser.process_line("*** Begin Patch");
    parser.process_line("*** Delete File: b.txt");
    let shown = parser.current_hunks();
    assert_eq!(shown.len(), 1);
    assert_eq!(shown[0].path(), "b.txt");
    parser.push_delta("tch\n");
    assert_eq!(parser.current_hunks(), shown);
    parser.process_line("*** End Patch");
    parser.process_line("*** Delete File: c.txt");
    assert_eq!(parser.current_hunks(), shown);
}
