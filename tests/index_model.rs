use nb::{
    apply_batch, apply_operation, lower_operation, plan_batch, read_requests, schema_fields,
    ChangeKind, ChangeRecord, Field, IndexOperation, Note, SyncError, WriterOp, RESULT_LIMIT,
};

fn note(path: &str, body: &str) -> Note {
    let mut n = Note::new(path);
    n.body(body);
    n
}

fn plan(changes: Vec<ChangeRecord>, contents: Vec<Option<String>>) -> Vec<IndexOperation> {
    match plan_batch(&changes, &contents) {
        Ok(ops) => ops,
        Err(e) => panic!("unexpected {:?}", e),
    }
}

fn count_at(docs: &[Note], path: &str) -> usize {
    docs.iter().filter(|d| d.path == path).count()
}

#[test]
fn added_then_modified_leaves_one_document() {
    let mut docs: Vec<Note> = Vec::new();
    apply_batch(
        &mut docs,
        plan(vec![ChangeRecord::new(ChangeKind::Added, "p.md")], vec![Some("first".to_string())]),
    );
    apply_batch(
        &mut docs,
        plan(
            vec![ChangeRecord::new(ChangeKind::Modified, "p.md")],
            vec![Some("second".to_string())],
        ),
    );
    assert_eq!(count_at(&docs, "p.md"), 1);
    assert_eq!(docs[0].body.as_deref(), Some("second"));
}

#[test]
fn deleted_path_leaves_no_document() {
    let mut docs = vec![note("p.md", "unique words"), note("q.md", "other")];
    apply_batch(
        &mut docs,
        plan(vec![ChangeRecord::new(ChangeKind::Deleted, "p.md")], vec![None]),
    );
    assert_eq!(count_at(&docs, "p.md"), 0);
    assert_eq!(docs.len(), 1);
    assert_eq!(docs[0].path, "q.md");
}

#[test]
fn delete_of_unknown_path_is_no_error() {
    let mut docs = vec![note("q.md", "other")];
    apply_operation(&mut docs, IndexOperation::Delete("never.md".to_string()));
    assert_eq!(docs.len(), 1);
}

#[test]
fn reapplying_a_batch_changes_nothing() {
    let ops = || {
        plan(
            vec![
                ChangeRecord::new(ChangeKind::Added, "a.md"),
                ChangeRecord::new(ChangeKind::Deleted, "b.md"),
                ChangeRecord::new(ChangeKind::Modified, "c.md"),
            ],
            vec![Some("A".to_string()), None, Some("C".to_string())],
        )
    };
    let mut docs = vec![note("b.md", "B"), note("c.md", "old C"), note("d.md", "D")];
    apply_batch(&mut docs, ops());
    let once: Vec<(String, Option<String>)> =
        docs.iter().map(|d| (d.path.clone(), d.body.clone())).collect();
    apply_batch(&mut docs, ops());
    let twice: Vec<(String, Option<String>)> =
        docs.iter().map(|d| (d.path.clone(), d.body.clone())).collect();
    assert_eq!(once, twice);
    assert_eq!(
        once,
        vec![
            ("d.md".to_string(), Some("D".to_string())),
            ("a.md".to_string(), Some("A".to_string())),
            ("c.md".to_string(), Some("C".to_string())),
        ]
    );
}

#[test]
fn plan_turns_each_change_into_one_operation() {
    let ops = plan(
        vec![
            ChangeRecord::new(ChangeKind::Deleted, "x.md"),
            ChangeRecord::new(ChangeKind::Modified, "y.md"),
        ],
        vec![None, Some("why".to_string())],
    );
    assert_eq!(ops.len(), 2);
    assert!(matches!(&ops[0], IndexOperation::Delete(p) if p == "x.md"));
    assert!(matches!(&ops[1], IndexOperation::Upsert(n) if n.path == "y.md" && n.body.as_deref() == Some("why")));
}

#[test]
fn plan_errors() {
    let changes = vec![ChangeRecord::new(ChangeKind::Added, "a.md")];
    assert!(matches!(plan_batch(&changes, &vec![]), Err(SyncError::OutOfOrder)));
    assert!(matches!(plan_batch(&changes, &vec![None]), Err(SyncError::ContentReadError(ref p)) if p == "a.md"));
    let renamed = vec![ChangeRecord::new(ChangeKind::Renamed, "r.md")];
    assert!(matches!(plan_batch(&renamed, &vec![Some("x".to_string())]), Err(SyncError::RenameNotSupported(ref p)) if p == "r.md"));
}

#[test]
fn reads_are_requested_for_added_and_modified_only() {
    let changes = vec![
        ChangeRecord::new(ChangeKind::Added, "a.md"),
        ChangeRecord::new(ChangeKind::Deleted, "b.md"),
        ChangeRecord::new(ChangeKind::Modified, "c.md"),
    ];
    assert_eq!(
        read_requests(&changes),
        vec![Some("a.md".to_string()), None, Some("c.md".to_string())]
    );
}

#[test]
fn upsert_lowers_to_delete_then_add() {
    let w = lower_operation(IndexOperation::Upsert(note("n.md", "text")));
    assert_eq!(w.len(), 2);
    assert!(matches!(&w[0], WriterOp::DeleteTerm { field: Field::Path, text } if text == "n.md"));
    match &w[1] {
        WriterOp::AddDocument(fields) => {
            assert_eq!(fields.len(), 2);
            assert_eq!(fields[0].field, Field::Path);
            assert_eq!(fields[0].text, "n.md");
            assert_eq!(fields[1].field, Field::Body);
            assert_eq!(fields[1].text, "text");
        }
        other => panic!("unexpected {:?}", other),
    }
    let w = lower_operation(IndexOperation::Delete("gone.md".to_string()));
    assert_eq!(w.len(), 1);
    assert!(matches!(&w[0], WriterOp::DeleteTerm { field: Field::Path, text } if text == "gone.md"));
}

#[test]
fn note_without_body_has_only_its_path() {
    let fields = Note::new("empty.md").document();
    assert_eq!(fields.len(), 1);
    assert_eq!(fields[0].field, Field::Path);
    assert_eq!(fields[0].text, "empty.md");
}

#[test]
fn schema_has_the_known_fields() {
    let names: Vec<&str> = schema_fields().iter().map(|f| f.name()).collect();
    assert_eq!(names, vec!["path", "title", "body", "mtime", "section"]);
    assert!(!Field::Path.is_tokenized());
    assert!(Field::Body.is_tokenized());
    assert!(!Field::Mtime.is_stored());
    assert!(Field::Title.is_stored());
    assert_eq!(RESULT_LIMIT, 10);
}

#[test]
fn index_git_repo() -> Result<(), String> {
    Ok(())
}
