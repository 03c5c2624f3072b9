use memora_cli::import::{
    files_batch, is_importable, plan_import, select_files, single_memory_batch, DirEntry, ImportPlan,
    ImportSource,
};

fn entry(path: &str, ext: Option<&str>, depth: usize, is_file: bool) -> DirEntry {
    DirEntry { path: path.to_string(), extension: ext.map(|e| e.to_string()), depth, is_file }
}

fn sample() -> Vec<DirEntry> {
    vec![
        entry("d/a.txt", Some("txt"), 1, true),
        entry("d/sub", None, 1, false),
        entry("d/sub/c.txt", Some("txt"), 2, true),
        entry("d/b.md", Some("md"), 1, true),
        entry("d/notes.pdf", Some("pdf"), 1, true),
    ]
}

fn upload_files(plan: ImportPlan) -> Vec<String> {
    match plan {
        ImportPlan::Upload { files } => files,
        _ => panic!("expected an upload"),
    }
}

#[test]
fn non_recursive_takes_top_level_text_files() {
    assert_eq!(select_files(&sample(), false), vec!["d/a.txt".to_string(), "d/b.md".to_string()]);
}

#[test]
fn recursive_takes_subdirectory_files_too() {
    assert_eq!(
        select_files(&sample(), true),
        vec!["d/a.txt".to_string(), "d/sub/c.txt".to_string(), "d/b.md".to_string()]
    );
}

#[test]
fn extension_allow_list() {
    assert!(is_importable(&Some("txt".to_string())));
    assert!(is_importable(&Some("md".to_string())));
    assert!(!is_importable(&Some("TXT".to_string())));
    assert!(!is_importable(&Some("markdown".to_string())));
    assert!(!is_importable(&None));
}

#[test]
fn empty_directory_has_nothing_to_import() {
    let plan = plan_import(ImportSource::Directory { entries: vec![] }, true);
    assert!(matches!(plan, ImportPlan::NothingToImport));
    let only_other = vec![entry("d/x.pdf", Some("pdf"), 1, true), entry("d/y", None, 1, true)];
    assert!(matches!(plan_import(ImportSource::Directory { entries: only_other }, true), ImportPlan::NothingToImport));
}

#[test]
fn missing_path_fails() {
    match plan_import(ImportSource::Missing { path: "nowhere".to_string() }, true) {
        ImportPlan::Missing { message } => assert_eq!(message, "Path does not exist: nowhere"),
        _ => panic!("expected a failure"),
    }
}

#[test]
fn single_file_is_taken_whatever_its_name() {
    let files = upload_files(plan_import(ImportSource::File { path: "notes.pdf".to_string() }, false));
    assert_eq!(files, vec!["notes.pdf".to_string()]);
}

#[test]
fn directory_plan_lists_selection() {
    let files = upload_files(plan_import(ImportSource::Directory { entries: sample() }, false));
    assert_eq!(files, vec!["d/a.txt".to_string(), "d/b.md".to_string()]);
}

#[test]
fn files_batch_uses_first_stem() {
    let b = files_batch("bot".to_string(), vec!["one".to_string(), "two".to_string()], Some("a".to_string()));
    assert_eq!(b.agent_id, "bot");
    assert_eq!(b.document_id, Some("a".to_string()));
    assert_eq!(b.items.len(), 2);
    assert_eq!(b.items[0].content, "one");
    assert_eq!(b.items[1].content, "two");
    assert!(b.items.iter().all(|i| i.context.is_none()));
}

#[test]
fn files_batch_without_stem_generates_id() {
    let b = files_batch("bot".to_string(), vec!["one".to_string()], None);
    let id = b.document_id.unwrap();
    assert!(id.starts_with("cli_put_"));
    assert_eq!(id.chars().count(), 23);
}

#[test]
fn single_memory_batch_keeps_given_id() {
    let b = single_memory_batch("bot".to_string(), "hello".to_string(), Some("greeting".to_string()), Some("doc1".to_string()));
    assert_eq!(b.document_id, Some("doc1".to_string()));
    assert_eq!(b.items.len(), 1);
    assert_eq!(b.items[0].content, "hello");
    assert_eq!(b.items[0].context, Some("greeting".to_string()));
    let g = single_memory_batch("bot".to_string(), "hi".to_string(), None, None);
    assert!(g.document_id.unwrap().starts_with("cli_put_"));
}

#[test]
fn selection_ignores_walk_order() {
    let mut reversed = sample();
    reversed.reverse();
    let mut forward = select_files(&sample(), true);
    let mut backward = select_files(&reversed, true);
    forward.sort();
    backward.sort();
    assert_eq!(forward, backward);
    assert_eq!(forward.len(), 3);
}
