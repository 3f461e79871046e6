use automode::paths::PathRules;
use automode::patch::batch::{parse_patch_text, ApplyPatchArgs, ParseMode};
use automode::patch::model::{Hunk, ParseError, UpdateFileChunk};
use automode::patch::stream::StreamingPatchParser;

#[test]
fn test_streaming_patch_parser_streams_complete_lines_before_end_patch() {
    let mut parser = StreamingPatchParser::default();
    parser.push_delta("*** Begin Patch\n*** Add File: src/hello.txt\n+hello\n+wor");
    assert_eq!(
        parser.current_hunks(),
        vec![Hunk::AddFile {
            path: "src/hello.txt".to_string(),
            contents: "hello\n".to_string(),
        }]
    );
    parser.push_delta("\n");
    assert_eq!(
        parser.current_hunks(),
        vec![Hunk::AddFile {
            path: "src/hello.txt".to_string(),
            contents: "hello\nwor\n".to_string(),
        }]
    );

    let mut parser = StreamingPatchParser::default();
    parser.push_delta(
        "*** Begin Patch\n*** Update File: src/old.rs\n*** Move to: src/new.rs\n@@\n-old\n+new\n",
    );
    assert_eq!(
        parser.current_hunks(),
        vec![Hunk::UpdateFile {
            path: "src/old.rs".to_string(),
            move_path: Some("src/new.rs".to_string()),
            chunks: vec![UpdateFileChunk {
                change_context: None,
                old_lines: vec!["old".to_string()],
                new_lines: vec!["new".to_string()],
                is_end_of_file: false,
            }],
        }]
    );

    let mut parser = StreamingPatchParser::default();
    assert_eq!(
        parser.push_delta("*** Begin Patch\n*** Delete File: gone.txt"),
        None
    );
    assert_eq!(
        parser.push_delta("\n"),
        Some(vec![Hunk::DeleteFile {
            path: "gone.txt".to_string(),
        }])
    );
    assert!(
        parse_patch_text(
            "*** Begin Patch\n*** Delete File: gone.txt",
            ParseMode::Strict
        )
        .is_err()
    );

    let mut parser = StreamingPatchParser::default();
    parser.push_delta(
        "*** Begin Patch\n*** Add File: src/one.txt\n+one\n*** Delete File: src/two.txt\n",
    );
    assert_eq!(
        parser.current_hunks(),
        vec![
            Hunk::AddFile {
                path: "src/one.txt".to_string(),
                contents: "one\n".to_string(),
            },
            Hunk::DeleteFile {
                path: "src/two.txt".to_string(),
            },
        ]
    );
}

#[test]
fn test_streaming_patch_parser_large_patch_split_by_character() {
    let patch = "\
*** Begin Patch
*** Add File: docs/release-notes.md
+# Release notes
+
+## CLI
+- Surface apply_patch progress while arguments stream.
+- Keep final patch application gated on the completed tool call.
+- Include file summaries in the progress event payload.
*** Update File: src/config.rs
@@ impl Config
-    pub apply_patch_progress: bool,
+    pub stream_apply_patch_progress: bool,
     pub include_diagnostics: bool,
@@ fn default_progress_interval()
-    Duration::from_millis(500)
+    Duration::from_millis(250)
*** Delete File: src/legacy_patch_progress.rs
*** Update File: crates/cli/src/main.rs
*** Move to: crates/cli/src/bin/codex.rs
@@ fn run()
-    let args = Args::parse();
-    dispatch(args)
+    let cli = Cli::parse();
+    dispatch(cli)
*** Add File: tests/fixtures/apply_patch_progress.json
+{
+  \"type\": \"apply_patch_progress\",
+  \"hunks\": [
+    { \"operation\": \"add\", \"path\": \"docs/release-notes.md\" },
+    { \"operation\": \"update\", \"path\": \"src/config.rs\" }
+  ]
+}
*** Update File: README.md
@@ Development workflow
 Build the Rust workspace before opening a pull request.
+When touching streamed tool calls, include parser coverage for partial input.
+Prefer tests that exercise the exact event payload shape.
*** Delete File: docs/old-apply-patch-progress.md
*** End Patch";

    let mut parser = StreamingPatchParser::default();
    let mut max_hunk_count = 0;
    let mut saw_hunk_counts = Vec::new();
    for ch in patch.chars() {
        if let Some(hunks) = parser.push_delta(&ch.to_string()) {
            let hunk_count = hunks.len();
            assert!(
                hunk_count >= max_hunk_count,
                "hunk count should never decrease while streaming: {hunk_count} < {max_hunk_count}",
            );
            if hunk_count > max_hunk_count {
                saw_hunk_counts.push(hunk_count);
                max_hunk_count = hunk_count;
            }
        }
    }

    assert_eq!(saw_hunk_counts, vec![1, 2, 3, 4, 5, 6, 7]);
    let hunks = parser.current_hunks();
    assert_eq!(hunks.len(), 7);
    assert_eq!(
        hunks
            .iter()
            .map(|hunk| match hunk {
                Hunk::AddFile { .. } => "add",
                Hunk::DeleteFile { .. } => "delete",
                Hunk::UpdateFile {
                    move_path: Some(_), ..
                } => "move-update",
                Hunk::UpdateFile {
                    move_path: None, ..
                } => "update",
            })
            .collect::<Vec<_>>(),
        vec![
            "add",
            "update",
            "delete",
            "move-update",
            "add",
            "update",
            "delete"
        ]
    );
}

#[test]
fn test_streaming_patch_parser_waits_for_complete_lines() {
    let mut parser = StreamingPatchParser::default();
    assert_eq!(parser.push_delta("*** Begin Patch\n"), None);
    assert_eq!(
        parser.push_delta("*** Add File: src/hello.txt\n"),
        Some(vec![Hunk::AddFile {
            path: "src/hello.txt".to_string(),
            contents: String::new(),
        }])
    );
    let empty_add = Some(vec![Hunk::AddFile {
        path: "src/hello.txt".to_string(),
        contents: String::new(),
    }]);
    assert_eq!(parser.push_delta("+hel"), empty_add);
    let empty_add = Some(vec![Hunk::AddFile {
        path: "src/hello.txt".to_string(),
        contents: String::new(),
    }]);
    assert_eq!(parser.push_delta("lo"), empty_add);
    assert_eq!(
        parser.push_delta("\n+world"),
        Some(vec![Hunk::AddFile {
            path: "src/hello.txt".to_string(),
            contents: "hello\n".to_string(),
        }])
    );
    assert_eq!(
        parser.push_delta("\n*** Delete File: src/gone.txt\n"),
        Some(vec![
            Hunk::AddFile {
                path: "src/hello.txt".to_string(),
                contents: "hello\nworld\n".to_string(),
            },
            Hunk::DeleteFile {
                path: "src/gone.txt".to_string(),
            },
        ])
    );
}

#[test]
fn test_parse_patch() {
    assert_eq!(
        parse_patch_text("bad", ParseMode::Strict),
        Err(ParseError::InvalidPatchError(
            "The first line of the patch must be '*** Begin Patch'".to_string()
        ))
    );
    assert_eq!(
        parse_patch_text("*** Begin Patch\nbad", ParseMode::Strict),
        Err(ParseError::InvalidPatchError(
            "The last line of the patch must be '*** End Patch'".to_string()
        ))
    );

    assert_eq!(
        parse_patch_text(
            "*** Begin Patch \n*** Add File: foo\n+hi\n *** End Patch",
            ParseMode::Strict
        )
        .unwrap()
        .hunks,
        vec![Hunk::AddFile {
            path: "foo".to_string(),
            contents: "hi\n".to_string()
        }]
    );
    assert_eq!(
        parse_patch_text(
            "*** Begin Patch\n\
             *** Update File: test.py\n\
             *** End Patch",
            ParseMode::Strict
        ),
        Err(ParseError::InvalidHunkError {
            message: "Update file hunk for path 'test.py' is empty".to_string(),
            line_number: 2,
        })
    );
    assert_eq!(
        parse_patch_text(
            "*** Begin Patch\n\
             *** End Patch",
            ParseMode::Strict
        )
        .unwrap()
        .hunks,
        Vec::new()
    );
    assert_eq!(
        parse_patch_text(
            "*** Begin Patch\n\
             *** Add File: path/add.py\n\
             +abc\n\
             +def\n\
             *** Delete File: path/delete.py\n\
             *** Update File: path/update.py\n\
             *** Move to: path/update2.py\n\
             @@ def f():\n\
             -    pass\n\
             +    return 123\n\
             *** End Patch",
            ParseMode::Strict
        )
        .unwrap()
        .hunks,
        vec![
            Hunk::AddFile {
                path: "path/add.py".to_string(),
                contents: "abc\ndef\n".to_string()
            },
            Hunk::DeleteFile {
                path: "path/delete.py".to_string()
            },
            Hunk::UpdateFile {
                path: "path/update.py".to_string(),
                move_path: Some("path/update2.py".to_string()),
                chunks: vec![UpdateFileChunk {
                    change_context: Some("def f():".to_string()),
                    old_lines: vec!["    pass".to_string()],
                    new_lines: vec!["    return 123".to_string()],
                    is_end_of_file: false
                }]
            }
        ]
    );
    // Update hunk followed by another hunk (Add File).
    assert_eq!(
        parse_patch_text(
            "*** Begin Patch\n\
             *** Update File: file.py\n\
             @@\n\
             +line\n\
             *** Add File: other.py\n\
             +content\n\
             *** End Patch",
            ParseMode::Strict
        )
        .unwrap()
        .hunks,
        vec![
            Hunk::UpdateFile {
                path: "file.py".to_string(),
                move_path: None,
                chunks: vec![UpdateFileChunk {
                    change_context: None,
                    old_lines: vec![],
                    new_lines: vec!["line".to_string()],
                    is_end_of_file: false
                }],
            },
            Hunk::AddFile {
                path: "other.py".to_string(),
                contents: "content\n".to_string()
            }
        ]
    );

    // Update hunk without an explicit @@ header for the first chunk should parse.
    // Use a raw string to preserve the leading space diff marker on the context line.
    assert_eq!(
        parse_patch_text(
            r#"*** Begin Patch
*** Update File: file2.py
 import foo
+bar
*** End Patch"#,
            ParseMode::Strict
        )
        .unwrap()
        .hunks,
        vec![Hunk::UpdateFile {
            path: "file2.py".to_string(),
            move_path: None,
            chunks: vec![UpdateFileChunk {
                change_context: None,
                old_lines: vec!["import foo".to_string()],
                new_lines: vec!["import foo".to_string(), "bar".to_string()],
                is_end_of_file: false,
            }],
        }]
    );
}

#[test]
fn test_parse_patch_accepts_relative_and_absolute_hunk_paths() {
    let dir = tempfile::tempdir().unwrap();
    let absolute_delete = dir.path().join("absolute-delete.py");
    let absolute_update = dir.path().join("absolute-update.py");
    let patch_text = format!(
        r#"*** Begin Patch
*** Add File: relative-add.py
+content
*** Delete File: {}
*** Update File: {}
@@
-old
+new
*** End Patch"#,
        absolute_delete.display(),
        absolute_update.display()
    );

    assert_eq!(
        parse_patch_text(&patch_text, ParseMode::Strict)
            .unwrap()
            .hunks,
        vec![
            Hunk::AddFile {
                path: "relative-add.py".to_string(),
                contents: "content\n".to_string()
            },
            Hunk::DeleteFile {
                path: absolute_delete.display().to_string()
            },
            Hunk::UpdateFile {
                path: absolute_update.display().to_string(),
                move_path: None,
                chunks: vec![UpdateFileChunk {
                    change_context: None,
                    old_lines: vec!["old".to_string()],
                    new_lines: vec!["new".to_string()],
                    is_end_of_file: false
                }]
            },
        ]
    );
}

#[test]
fn test_hunk_resolve_path_accepts_relative_and_absolute_paths() {
    let cwd_dir = tempfile::tempdir().unwrap();
    let cwd = cwd_dir.path().to_path_buf();
    let absolute_dir = tempfile::tempdir().unwrap();
    let absolute_add = absolute_dir.path().join("absolute-add.py");
    let absolute_delete = absolute_dir.path().join("absolute-delete.py");
    let absolute_update = absolute_dir.path().join("absolute-update.py");

    for (hunk, expected_path) in [
        (
            Hunk::AddFile {
                path: "relative-add.py".to_string(),
                contents: String::new(),
            },
            cwd.join("relative-add.py"),
        ),
        (
            Hunk::DeleteFile {
                path: "relative-delete.py".to_string(),
            },
            cwd.join("relative-delete.py"),
        ),
        (
            Hunk::UpdateFile {
                path: "relative-update.py".to_string(),
                move_path: None,
                chunks: Vec::new(),
            },
            cwd.join("relative-update.py"),
        ),
        (
            Hunk::AddFile {
                path: absolute_add.display().to_string(),
                contents: String::new(),
            },
            absolute_add,
        ),
        (
            Hunk::DeleteFile {
                path: absolute_delete.display().to_string(),
            },
            absolute_delete,
        ),
        (
            Hunk::UpdateFile {
                path: absolute_update.display().to_string(),
                move_path: None,
                chunks: Vec::new(),
            },
            absolute_update,
        ),
    ] {
        assert_eq!(
            hunk.resolve_path(PathRules::current(), &cwd.display().to_string()),
            expected_path.display().to_string()
        );
    }
}

#[test]
fn test_parse_patch_lenient() {
    let patch_text = r#"*** Begin Patch
*** Update File: file2.py
 import foo
+bar
*** End Patch"#;
    let expected_patch = vec![Hunk::UpdateFile {
        path: "file2.py".to_string(),
        move_path: None,
        chunks: vec![UpdateFileChunk {
            change_context: None,
            old_lines: vec!["import foo".to_string()],
            new_lines: vec!["import foo".to_string(), "bar".to_string()],
            is_end_of_file: false,
        }],
    }];
    let expected_error =
        ParseError::InvalidPatchError("The first line of the patch must be '*** Begin Patch'".to_string());

    let patch_text_in_heredoc = format!("<<EOF\n{patch_text}\nEOF\n");
    assert_eq!(
        parse_patch_text(&patch_text_in_heredoc, ParseMode::Strict),
        Err(expected_error.clone())
    );
    assert_eq!(
        parse_patch_text(&patch_text_in_heredoc, ParseMode::Lenient),
        Ok(ApplyPatchArgs {
            hunks: expected_patch.clone(),
            patch: patch_text.to_string(),
            workdir: None,
        })
    );

    let patch_text_in_single_quoted_heredoc = format!("<<'EOF'\n{patch_text}\nEOF\n");
    assert_eq!(
        parse_patch_text(&patch_text_in_single_quoted_heredoc, ParseMode::Strict),
        Err(expected_error.clone())
    );
    assert_eq!(
        parse_patch_text(&patch_text_in_single_quoted_heredoc, ParseMode::Lenient),
        Ok(ApplyPatchArgs {
            hunks: expected_patch.clone(),
            patch: patch_text.to_string(),
            workdir: None,
        })
    );

    let patch_text_in_double_quoted_heredoc = format!("<<\"EOF\"\n{patch_text}\nEOF\n");
    assert_eq!(
        parse_patch_text(&patch_text_in_double_quoted_heredoc, ParseMode::Strict),
        Err(expected_error.clone())
    );
    assert_eq!(
        parse_patch_text(&patch_text_in_double_quoted_heredoc, ParseMode::Lenient),
        Ok(ApplyPatchArgs {
            hunks: expected_patch,
            patch: patch_text.to_string(),
            workdir: None,
        })
    );

    let patch_text_in_mismatched_quotes_heredoc = format!("<<\"EOF'\n{patch_text}\nEOF\n");
    assert_eq!(
        parse_patch_text(&patch_text_in_mismatched_quotes_heredoc, ParseMode::Strict),
        Err(expected_error.clone())
    );
    assert_eq!(
        parse_patch_text(&patch_text_in_mismatched_quotes_heredoc, ParseMode::Lenient),
        Err(expected_error.clone())
    );

    let patch_text_with_missing_closing_heredoc =
        "<<EOF\n*** Begin Patch\n*** Update File: file2.py\nEOF\n".to_string();
    assert_eq!(
        parse_patch_text(&patch_text_with_missing_closing_heredoc, ParseMode::Strict),
        Err(expected_error)
    );
    assert_eq!(
        parse_patch_text(&patch_text_with_missing_closing_heredoc, ParseMode::Lenient),
        Err(ParseError::InvalidPatchError(
            "The last line of the patch must be '*** End Patch'".to_string()
        ))
    );
}
