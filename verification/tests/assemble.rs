use fdllm::assemble::{assemble, require_nonempty, FileEntry, TreeSection};

#[test]
fn one_file_has_header_then_content_then_newline() {
    let files = vec![FileEntry { path: "x.txt".to_string(), content: Some("hello".to_string()) }];
    let out = assemble(&None, &files);
    assert_eq!(out, "# NOTE: x.txt:\nhello\n");
}

#[test]
fn unreadable_files_are_skipped() {
    let files = vec![
        FileEntry { path: "gone.txt".to_string(), content: None },
        FileEntry { path: "a.md".to_string(), content: Some("1".to_string()) },
    ];
    assert_eq!(assemble(&None, &files), "# NOTE: a.md:\n1\n");
}

#[test]
fn tree_section_leads_the_output() {
    let tree = Some(TreeSection { path: "/p".to_string(), text: "tree".to_string() });
    let files = vec![FileEntry { path: "a".to_string(), content: Some("x".to_string()) }];
    assert_eq!(assemble(&tree, &files), "# NOTE: Project Tree: /p\ntree\n# NOTE: a:\nx\n");
}

#[test]
fn headers_keep_the_configured_path_verbatim() {
    let files = vec![FileEntry {
        path: "~/notes/todo.txt".to_string(),
        content: Some("done".to_string()),
    }];
    assert_eq!(assemble(&None, &files), "# NOTE: ~/notes/todo.txt:\ndone\n");
}

#[test]
fn empty_output_is_fatal() {
    let out = assemble(&None, &Vec::new());
    assert_eq!(out, "");
    let err = match require_nonempty(out) {
        Err(e) => e,
        Ok(_) => panic!("an empty assembled text must be fatal"),
    };
    assert_eq!(err.exit_code(), 1);
    assert_eq!(err.message(), "No valid files or project tree found to copy");
}

#[test]
fn no_tree_and_only_unreadable_files_is_fatal() {
    let files = vec![
        FileEntry { path: "a".to_string(), content: None },
        FileEntry { path: "b".to_string(), content: None },
    ];
    let out = assemble(&None, &files);
    let err = match require_nonempty(out) {
        Err(e) => e,
        Ok(_) => panic!("a run with nothing readable must be fatal"),
    };
    assert_eq!(err.exit_code(), 1);
    assert_eq!(err.message(), "No valid files or project tree found to copy");
}

#[test]
fn nonempty_output_passes_through() {
    let r = require_nonempty("text".to_string());
    assert_eq!(r.ok().unwrap(), "text");
}
