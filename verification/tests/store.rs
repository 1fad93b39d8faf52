// The store's operations exercised end to end on concrete index texts and
// documents, with serde_json doing the real encoding and decoding.

use conversation_store::{ConversationError, ConversationManager};

fn manager() -> ConversationManager {
    ConversationManager::new()
}

fn parse_names(text: &str) -> Vec<String> {
    serde_json::from_str::<Vec<String>>(text).expect("index text must be a JSON array of strings")
}

#[test]
fn new_fixes_layout_names() {
    let m = manager();
    assert_eq!(m.dir_name, "chat_conversations");
    assert_eq!(m.index_file_name, "index.json");
}

#[test]
fn init_seeds_missing_index_with_empty_array() {
    let m = manager();
    let seeded = m.init_index_update(false).expect("a missing index must be seeded");
    assert_eq!(parse_names(&seeded), Vec::<String>::new());
}

#[test]
fn init_is_idempotent() {
    let m = manager();
    assert!(m.init_index_update(true).is_none());
}

#[test]
fn save_then_get_returns_equal_document() {
    let m = manager();
    let content: serde_json::Value = serde_json::from_str("{\"messages\": [1, 2, 3]}").unwrap();
    let plan = m.save_conversation("c1.json", &content, "[]").unwrap();
    let conversation = m.get_conversation("c1.json", &plan.content_text).unwrap();
    assert_eq!(conversation.filename, "c1.json");
    assert_eq!(conversation.content, content);
    let reparsed: serde_json::Value = serde_json::from_str(&plan.content_text).unwrap();
    assert_eq!(reparsed, content);
}

#[test]
fn save_appends_new_filename_to_index() {
    let m = manager();
    let content: serde_json::Value = serde_json::from_str("{}").unwrap();
    let plan = m.save_conversation("a.json", &content, "[]").unwrap();
    let new_index = plan.index_update.unwrap().expect("a new filename must be appended");
    assert_eq!(parse_names(&new_index), vec!["a.json".to_string()]);
}

#[test]
fn save_existing_filename_leaves_index_alone() {
    let m = manager();
    let content: serde_json::Value = serde_json::from_str("{}").unwrap();
    let plan = m.save_conversation("a.json", &content, "[\"a.json\", \"b.json\"]").unwrap();
    assert!(plan.index_update.unwrap().is_none());
}

#[test]
fn repeated_saves_index_filename_once() {
    let m = manager();
    let content: serde_json::Value = serde_json::from_str("[true]").unwrap();
    let first = m.save_conversation("c.json", &content, "[]").unwrap();
    let index_text = first.index_update.unwrap().unwrap();
    let second = m.save_conversation("c.json", &content, &index_text).unwrap();
    assert!(second.index_update.unwrap().is_none());
    let listing = m.get_index(&index_text).unwrap();
    assert_eq!(listing.iter().filter(|f| f.as_str() == "c.json").count(), 1);
}

#[test]
fn list_sorts_descending() {
    let m = manager();
    let content: serde_json::Value = serde_json::from_str("{}").unwrap();
    let mut index_text = "[]".to_string();
    for name in ["2024-01-02.json", "2024-03-01.json", "2023-12-31.json"] {
        let plan = m.save_conversation(name, &content, &index_text).unwrap();
        if let Some(updated) = plan.index_update.unwrap() {
            index_text = updated;
        }
    }
    let listing = m.get_index(&index_text).unwrap();
    assert_eq!(
        listing,
        vec![
            "2024-03-01.json".to_string(),
            "2024-01-02.json".to_string(),
            "2023-12-31.json".to_string(),
        ]
    );
}

#[test]
fn list_puts_extensions_before_their_prefix() {
    let m = manager();
    let listing = m.get_index("[\"a\", \"ab\", \"b\"]").unwrap();
    assert_eq!(
        listing,
        vec!["b".to_string(), "ab".to_string(), "a".to_string()]
    );
}

#[test]
fn list_orders_by_code_point() {
    let m = manager();
    let listing = m.get_index("[\"z\", \"\\u00e9\"]").unwrap();
    assert_eq!(listing, vec!["\u{e9}".to_string(), "z".to_string()]);
}

#[test]
fn list_of_empty_index_is_empty() {
    let m = manager();
    assert_eq!(m.get_index("[]").unwrap(), Vec::<String>::new());
}

#[test]
fn list_keeps_duplicates_of_a_corrupted_index() {
    let m = manager();
    let listing = m.get_index("[\"a\", \"a\"]").unwrap();
    assert_eq!(listing, vec!["a".to_string(), "a".to_string()]);
}

#[test]
fn list_rejects_malformed_index() {
    let m = manager();
    let err = m.get_index("not json").unwrap_err();
    assert!(matches!(err, ConversationError::ReadError(_)));
}

#[test]
fn list_rejects_wrongly_shaped_index() {
    let m = manager();
    let err = m.get_index("{\"a\": 1}").unwrap_err();
    assert!(matches!(err, ConversationError::ReadError(_)));
}

#[test]
fn get_rejects_malformed_document() {
    let m = manager();
    let err = m.get_conversation("a.json", "{truncated").unwrap_err();
    assert!(matches!(err, ConversationError::ReadError(_)));
}

#[test]
fn save_then_get_round_trips_a_hard_float() {
    let m = manager();
    let content: serde_json::Value = serde_json::from_str("[51.248178375505404]").unwrap();
    assert_eq!(content[0].as_f64(), Some(51.248178375505404));
    let plan = m.save_conversation("f.json", &content, "[]").unwrap();
    let conversation = m.get_conversation("f.json", &plan.content_text).unwrap();
    assert_eq!(conversation.content, content);
}

#[test]
fn save_rejects_document_nested_deeper_than_the_parser_reads() {
    let m = manager();
    let mut content = serde_json::Value::Null;
    for _ in 0..200 {
        content = serde_json::Value::Array(vec![content]);
    }
    let err = m.save_conversation("deep.json", &content, "[]").unwrap_err();
    assert!(matches!(err, ConversationError::WriteError(_)));
}

#[test]
fn save_accepts_a_deeply_but_readably_nested_document() {
    let m = manager();
    let mut content = serde_json::Value::Null;
    for _ in 0..50 {
        content = serde_json::Value::Array(vec![content]);
    }
    let plan = m.save_conversation("deep.json", &content, "[]").unwrap();
    let conversation = m.get_conversation("deep.json", &plan.content_text).unwrap();
    assert_eq!(conversation.content, content);
}

#[test]
fn save_on_malformed_index_still_renders_document() {
    let m = manager();
    let content: serde_json::Value = serde_json::from_str("\"text\"").unwrap();
    let plan = m.save_conversation("a.json", &content, "oops").unwrap();
    let reparsed: serde_json::Value = serde_json::from_str(&plan.content_text).unwrap();
    assert_eq!(reparsed, content);
    assert!(matches!(plan.index_update, Err(ConversationError::ReadError(_))));
}

#[test]
fn delete_removes_filename_from_index() {
    let m = manager();
    let new_index = m.delete_conversation("b.json", "[\"a.json\", \"b.json\"]").unwrap();
    assert_eq!(parse_names(&new_index), vec!["a.json".to_string()]);
    let listing = m.get_index(&new_index).unwrap();
    assert!(!listing.contains(&"b.json".to_string()));
}

#[test]
fn delete_removes_every_duplicate() {
    let m = manager();
    let new_index = m.delete_conversation("a", "[\"a\", \"b\", \"a\"]").unwrap();
    assert_eq!(parse_names(&new_index), vec!["b".to_string()]);
}

#[test]
fn delete_of_unknown_filename_keeps_index_unchanged() {
    let m = manager();
    let new_index = m.delete_conversation("missing.json", "[\"a.json\", \"b.json\"]").unwrap();
    assert_eq!(
        parse_names(&new_index),
        vec!["a.json".to_string(), "b.json".to_string()]
    );
}

#[test]
fn delete_rejects_malformed_index() {
    let m = manager();
    let err = m.delete_conversation("a.json", "[1, 2]").unwrap_err();
    assert!(matches!(err, ConversationError::ReadError(_)));
}

#[test]
fn clear_empties_index_and_names_old_files() {
    let m = manager();
    let plan = m.clear_all_conversations("[\"a.json\", \"c.json\", \"b.json\"]").unwrap();
    assert_eq!(
        plan.filenames,
        vec!["c.json".to_string(), "b.json".to_string(), "a.json".to_string()]
    );
    assert_eq!(m.get_index(&plan.new_index_text).unwrap(), Vec::<String>::new());
}

#[test]
fn clear_rejects_malformed_index() {
    let m = manager();
    let err = m.clear_all_conversations("").unwrap_err();
    assert!(matches!(err, ConversationError::ReadError(_)));
}

#[test]
fn error_messages_are_carried() {
    let e = ConversationError::WriteError("disk full".to_string());
    assert_eq!(e.message(), "disk full");
}
