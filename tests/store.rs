use todo_store::codec::ParseError;
use todo_store::records::{
    file_name, is_record_file_name, FrontMatter, Timestamp, TodoData, TodoFile,
};
use todo_store::store::{Collection, StoreError};

fn record(id: u32, body: &str) -> TodoFile {
    TodoFile::new_from_data(TodoData {
        front_matter: FrontMatter {
            id,
            created_at: Timestamp { secs: 0, nanos: 0 },
            due_at: Some(Timestamp { secs: -5, nanos: 1 }),
            tags: vec![],
        },
        content: body.to_string(),
    })
}

fn collection_of(ids: &[u32]) -> Collection {
    let mut c = Collection::new();
    for id in ids {
        c.insert(record(*id, "")).unwrap();
    }
    c
}

#[test]
fn next_id_of_empty_is_one() {
    assert_eq!(Collection::new().next_id(), Some(1));
}

#[test]
fn next_id_follows_largest() {
    assert_eq!(collection_of(&[3, 7, 2]).next_id(), Some(8));
}

#[test]
fn next_id_ignores_order() {
    assert_eq!(collection_of(&[7, 2, 3]).next_id(), Some(8));
    assert_eq!(collection_of(&[2, 3, 7]).next_id(), Some(8));
}

#[test]
fn next_id_exhausted() {
    assert_eq!(collection_of(&[1, u32::MAX]).next_id(), None);
    assert_eq!(collection_of(&[u32::MAX - 1]).next_id(), Some(u32::MAX));
}

#[test]
fn insert_conflict_leaves_collection_unchanged() {
    let mut c = collection_of(&[5]);
    assert_eq!(c.insert(record(5, "other")), Err(StoreError::Conflict(5)));
    assert_eq!(c.len(), 1);
    assert_eq!(c.get(5).unwrap().data.content, "");
    assert!(c.contains_id(5));
    assert!(!c.contains_id(6));
    assert!(c.get(6).is_none());
}

#[test]
fn load_with_duplicate_id_is_conflict() {
    let entries = vec![Ok(record(1, "one")), Ok(record(5, "a")), Ok(record(5, "b"))];
    assert_eq!(Collection::load(entries).unwrap_err(), StoreError::Conflict(5));
}

#[test]
fn load_skips_unparsable_files() {
    let entries = vec![Ok(record(3, "good")), Err(ParseError::Format)];
    let c = Collection::load(entries).unwrap();
    assert_eq!(c.len(), 1);
    assert_eq!(c.get(3).unwrap().data.content, "good");
}

#[test]
fn load_skips_schema_errors_and_keeps_the_rest() {
    let entries = vec![
        Err(ParseError::Schema("bad".to_string())),
        Ok(record(2, "b")),
        Err(ParseError::Format),
        Ok(record(9, "c")),
    ];
    let c = Collection::load(entries).unwrap();
    assert_eq!(c.len(), 2);
    assert!(c.contains_id(2) && c.contains_id(9));
    assert_eq!(c.next_id(), Some(10));
}

#[test]
fn load_of_nothing_is_empty() {
    let c = Collection::load(vec![]).unwrap();
    assert_eq!(c.len(), 0);
}

#[test]
fn file_names_are_zero_padded() {
    assert_eq!(file_name(7), "0000000007.todo.md");
    assert_eq!(file_name(0), "0000000000.todo.md");
    assert_eq!(file_name(u32::MAX), "4294967295.todo.md");
    assert_eq!(TodoFile::gen_filepath(1234567890), "tasks/1234567890.todo.md");
}

#[test]
fn new_from_data_derives_path() {
    let f = record(42, "x");
    assert_eq!(f.path, "tasks/0000000042.todo.md");
    assert_eq!(f.id(), 42);
}

#[test]
fn record_file_names() {
    assert!(is_record_file_name("0000000001.todo.md"));
    assert!(is_record_file_name("a.md"));
    assert!(!is_record_file_name(".md"));
    assert!(!is_record_file_name("a.txt"));
    assert!(!is_record_file_name("md"));
    assert!(!is_record_file_name("a.mdx"));
}
