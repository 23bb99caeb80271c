use llmpad::error::AppError;
use llmpad::models::{AppSettings, Conversation, Message};
use llmpad::store::{
    create_conversation, delete_conversation, get_conversation, get_conversations, get_message,
    get_messages, get_settings, save_message, save_settings, update_conversation_title, Database,
};
use llmpad::text::precedes;

fn ids(conversations: &[Conversation]) -> Vec<i64> {
    conversations.iter().map(|c| c.id).collect()
}

fn contents(messages: &[Message]) -> Vec<String> {
    messages.iter().map(|m| m.content.clone()).collect()
}

#[test]
fn new_store_is_empty_and_has_default_settings() {
    let db = Database::new();
    assert!(get_conversations(&db).is_empty());
    assert!(get_messages(&db, 1).is_empty());
    let settings = get_settings(&db);
    assert_eq!(settings.api_url, "http://localhost:11434/v1");
    assert_eq!(settings.api_key, "");
    assert_eq!(settings.model, "llama3.2");
}

#[test]
fn create_conversation_gives_ids_from_one_and_stamps_both_times() {
    let mut db = Database::new();
    let a = create_conversation(&mut db, "first".to_string(), "2024-01-01 10:00:00").unwrap();
    let b = create_conversation(&mut db, "second".to_string(), "2024-01-01 10:00:05").unwrap();
    assert_eq!(
        a,
        Conversation {
            id: 1,
            title: "first".to_string(),
            created_at: "2024-01-01 10:00:00".to_string(),
            updated_at: "2024-01-01 10:00:00".to_string(),
        }
    );
    assert_eq!(b.id, 2);
    assert_eq!(b.created_at, "2024-01-01 10:00:05");
    assert_eq!(get_conversation(&db, 1), Ok(a));
    assert_eq!(get_conversation(&db, 3), Err(AppError::NotFound));
}

#[test]
fn create_conversation_stores_the_title_as_given() {
    let mut db = Database::new();
    let long = "x".repeat(60);
    let c = create_conversation(&mut db, long.clone(), "2024-01-01 10:00:00").unwrap();
    assert_eq!(c.title, long);
    let c = create_conversation(&mut db, "short".to_string(), "2024-01-01 10:00:00").unwrap();
    assert_eq!(c.title, "short");
}

#[test]
fn saved_message_is_last_and_brings_its_conversation_to_the_front() {
    let mut db = Database::new();
    let a = create_conversation(&mut db, "a".to_string(), "2024-01-01 10:00:00").unwrap();
    let b = create_conversation(&mut db, "b".to_string(), "2024-01-01 10:00:01").unwrap();
    assert_eq!(ids(&get_conversations(&db)), vec![b.id, a.id]);
    save_message(&mut db, a.id, "user".to_string(), "one".to_string(), "2024-01-01 10:00:02")
        .unwrap();
    save_message(&mut db, b.id, "user".to_string(), "other".to_string(), "2024-01-01 10:00:03")
        .unwrap();
    let m = save_message(
        &mut db,
        a.id,
        "assistant".to_string(),
        "two".to_string(),
        "2024-01-01 10:00:04",
    )
    .unwrap();
    assert_eq!(
        m,
        Message {
            id: 3,
            conversation_id: a.id,
            role: "assistant".to_string(),
            content: "two".to_string(),
            created_at: "2024-01-01 10:00:04".to_string(),
        }
    );
    let listed = get_messages(&db, a.id);
    assert_eq!(contents(&listed), vec!["one".to_string(), "two".to_string()]);
    assert_eq!(listed.last(), Some(&m));
    assert!(listed.iter().all(|x| precedes(&x.created_at, &m.created_at)));
    let conversations = get_conversations(&db);
    assert_eq!(ids(&conversations), vec![a.id, b.id]);
    assert_eq!(conversations[0].updated_at, "2024-01-01 10:00:04");
    assert_eq!(conversations[0].created_at, "2024-01-01 10:00:00");
    assert_eq!(get_message(&db, 3), Ok(m));
    assert_eq!(get_message(&db, 4), Err(AppError::NotFound));
}

#[test]
fn saved_message_in_the_same_second_still_comes_to_the_front() {
    let mut db = Database::new();
    let now = "2024-01-01 10:00:00";
    let a = create_conversation(&mut db, "a".to_string(), now).unwrap();
    let b = create_conversation(&mut db, "b".to_string(), now).unwrap();
    save_message(&mut db, a.id, "user".to_string(), "hi".to_string(), now).unwrap();
    assert_eq!(ids(&get_conversations(&db)), vec![a.id, b.id]);
    save_message(&mut db, b.id, "user".to_string(), "hi".to_string(), now).unwrap();
    assert_eq!(ids(&get_conversations(&db)), vec![b.id, a.id]);
}

#[test]
fn save_message_needs_an_existing_conversation() {
    let mut db = Database::new();
    create_conversation(&mut db, "a".to_string(), "2024-01-01 10:00:00").unwrap();
    let r = save_message(&mut db, 7, "user".to_string(), "lost".to_string(), "2024-01-01 10:00:01");
    assert_eq!(r, Err(AppError::NotFound));
    assert!(get_messages(&db, 7).is_empty());
    assert!(get_messages(&db, 1).is_empty());
    assert_eq!(get_conversations(&db)[0].updated_at, "2024-01-01 10:00:00");
}

#[test]
fn messages_of_a_conversation_without_messages_are_none() {
    let mut db = Database::new();
    let a = create_conversation(&mut db, "a".to_string(), "2024-01-01 10:00:00").unwrap();
    assert_eq!(get_messages(&db, a.id), Vec::<Message>::new());
}

#[test]
fn deleting_a_conversation_removes_its_messages_and_no_others() {
    let mut db = Database::new();
    let a = create_conversation(&mut db, "a".to_string(), "2024-01-01 10:00:00").unwrap();
    let b = create_conversation(&mut db, "b".to_string(), "2024-01-01 10:00:01").unwrap();
    save_message(&mut db, a.id, "user".to_string(), "a1".to_string(), "2024-01-01 10:00:02")
        .unwrap();
    save_message(&mut db, b.id, "user".to_string(), "b1".to_string(), "2024-01-01 10:00:03")
        .unwrap();
    save_message(&mut db, a.id, "assistant".to_string(), "a2".to_string(), "2024-01-01 10:00:04")
        .unwrap();
    delete_conversation(&mut db, a.id);
    assert_eq!(get_messages(&db, a.id), Vec::<Message>::new());
    assert_eq!(get_conversation(&db, a.id), Err(AppError::NotFound));
    assert_eq!(get_message(&db, 1), Err(AppError::NotFound));
    assert_eq!(get_message(&db, 3), Err(AppError::NotFound));
    assert_eq!(contents(&get_messages(&db, b.id)), vec!["b1".to_string()]);
    assert_eq!(ids(&get_conversations(&db)), vec![b.id]);
    let r = save_message(&mut db, a.id, "user".to_string(), "x".to_string(), "2024-01-01 10:00:05");
    assert_eq!(r, Err(AppError::NotFound));
}

#[test]
fn ids_of_deleted_conversations_and_messages_are_not_given_again() {
    let mut db = Database::new();
    let a = create_conversation(&mut db, "a".to_string(), "2024-01-01 10:00:00").unwrap();
    save_message(&mut db, a.id, "user".to_string(), "a1".to_string(), "2024-01-01 10:00:01")
        .unwrap();
    delete_conversation(&mut db, a.id);
    let b = create_conversation(&mut db, "b".to_string(), "2024-01-01 10:00:02").unwrap();
    assert_eq!(b.id, 2);
    let m = save_message(&mut db, b.id, "user".to_string(), "b1".to_string(), "2024-01-01 10:00:03")
        .unwrap();
    assert_eq!(m.id, 2);
}

#[test]
fn deleting_a_missing_conversation_changes_nothing() {
    let mut db = Database::new();
    let a = create_conversation(&mut db, "a".to_string(), "2024-01-01 10:00:00").unwrap();
    save_message(&mut db, a.id, "user".to_string(), "a1".to_string(), "2024-01-01 10:00:01")
        .unwrap();
    delete_conversation(&mut db, 9);
    assert_eq!(ids(&get_conversations(&db)), vec![a.id]);
    assert_eq!(contents(&get_messages(&db, a.id)), vec!["a1".to_string()]);
}

#[test]
fn new_title_counts_as_activity() {
    let mut db = Database::new();
    let a = create_conversation(&mut db, "a".to_string(), "2024-01-01 10:00:00").unwrap();
    let b = create_conversation(&mut db, "b".to_string(), "2024-01-01 10:00:01").unwrap();
    update_conversation_title(&mut db, a.id, "renamed".to_string(), "2024-01-01 10:00:02");
    let listed = get_conversations(&db);
    assert_eq!(ids(&listed), vec![a.id, b.id]);
    assert_eq!(listed[0].title, "renamed");
    assert_eq!(listed[0].created_at, "2024-01-01 10:00:00");
    assert_eq!(listed[0].updated_at, "2024-01-01 10:00:02");
    update_conversation_title(&mut db, 9, "nobody".to_string(), "2024-01-01 10:00:03");
    assert_eq!(get_conversations(&db), listed);
}

#[test]
fn the_clock_of_the_store_does_not_run_backwards() {
    let mut db = Database::new();
    let a = create_conversation(&mut db, "a".to_string(), "2024-01-01 10:00:10").unwrap();
    let m = save_message(&mut db, a.id, "user".to_string(), "late".to_string(), "2024-01-01 09:00:00")
        .unwrap();
    assert_eq!(m.created_at, "2024-01-01 10:00:10");
    let c = get_conversation(&db, a.id).unwrap();
    assert_eq!(c.updated_at, "2024-01-01 10:00:10");
    assert!(precedes(&c.created_at, &c.updated_at));
    let b = create_conversation(&mut db, "b".to_string(), "2023-12-31 23:59:59").unwrap();
    assert_eq!(b.created_at, "2024-01-01 10:00:10");
}

#[test]
fn settings_are_replaced_as_a_whole() {
    let mut db = Database::new();
    let wanted = AppSettings {
        api_url: "https://api.example.com/v1".to_string(),
        api_key: "k-123".to_string(),
        model: "gpt".to_string(),
    };
    save_settings(&mut db, wanted.clone());
    assert_eq!(get_settings(&db), wanted);
    let other = AppSettings {
        api_url: "http://localhost:1".to_string(),
        api_key: String::new(),
        model: "m".to_string(),
    };
    save_settings(&mut db, other.clone());
    assert_eq!(get_settings(&db), other);
}

#[test]
fn time_stamps_compare_as_text() {
    assert!(precedes("", ""));
    assert!(precedes("", "a"));
    assert!(!precedes("a", ""));
    assert!(precedes("2024-01-01 10:00:00", "2024-01-01 10:00:00"));
    assert!(precedes("2024-01-01 10:00:00", "2024-01-01 10:00:01"));
    assert!(!precedes("2024-01-02 00:00:00", "2024-01-01 23:59:59"));
    assert!(precedes("2024-01-01", "2024-01-01 00:00:00"));
    assert!(!precedes("b", "abc"));
}

fn conversation(id: i64, created_at: &str, updated_at: &str) -> Conversation {
    Conversation {
        id,
        title: format!("c{}", id),
        created_at: created_at.to_string(),
        updated_at: updated_at.to_string(),
    }
}

fn message(id: i64, conversation_id: i64, created_at: &str) -> Message {
    Message {
        id,
        conversation_id,
        role: "user".to_string(),
        content: format!("m{}", id),
        created_at: created_at.to_string(),
    }
}

fn malformed() -> AppError {
    AppError::Store { cause: "database disk image is malformed".to_string() }
}

#[test]
fn restored_store_holds_what_was_written_down() {
    let conversations = vec![conversation(2, "t1", "t2"), conversation(1, "t0", "t4")];
    let messages = vec![message(1, 1, "t1"), message(3, 2, "t2"), message(4, 1, "t4")];
    let settings =
        AppSettings { api_url: "u".to_string(), api_key: "k".to_string(), model: "m".to_string() };
    let mut db =
        Database::restore(conversations.clone(), messages.clone(), settings.clone(), 5, 4).unwrap();
    assert_eq!(ids(&get_conversations(&db)), vec![1, 2]);
    assert_eq!(get_messages(&db, 1), vec![messages[0].clone(), messages[2].clone()]);
    assert_eq!(get_messages(&db, 2), vec![messages[1].clone()]);
    assert_eq!(get_settings(&db), settings);
    let c = create_conversation(&mut db, "next".to_string(), "t3").unwrap();
    assert_eq!(c.id, 6);
    assert_eq!(c.created_at, "t4");
    let m = save_message(&mut db, 2, "user".to_string(), "x".to_string(), "t5").unwrap();
    assert_eq!(m.id, 5);
    assert_eq!(m.created_at, "t5");
}

#[test]
fn restored_empty_store_is_a_new_store_with_these_settings() {
    let mut db = Database::restore(Vec::new(), Vec::new(), AppSettings::default(), 0, 0).unwrap();
    assert!(get_conversations(&db).is_empty());
    let c = create_conversation(&mut db, "a".to_string(), "").unwrap();
    assert_eq!(c.id, 1);
    assert_eq!(c.created_at, "");
}

#[test]
fn store_that_was_written_down_is_restored_as_it_was() {
    let mut db = Database::new();
    let a = create_conversation(&mut db, "a".to_string(), "2024-01-01 10:00:00").unwrap();
    let b = create_conversation(&mut db, "b".to_string(), "2024-01-01 10:00:01").unwrap();
    save_message(&mut db, a.id, "user".to_string(), "a1".to_string(), "2024-01-01 10:00:02")
        .unwrap();
    save_message(&mut db, b.id, "user".to_string(), "b1".to_string(), "2024-01-01 10:00:03")
        .unwrap();
    let mut conversations = get_conversations(&db);
    conversations.reverse();
    let mut messages = get_messages(&db, a.id);
    messages.extend(get_messages(&db, b.id));
    let again = Database::restore(conversations, messages, get_settings(&db), 2, 2).unwrap();
    assert_eq!(get_conversations(&again), get_conversations(&db));
    assert_eq!(get_messages(&again, a.id), get_messages(&db, a.id));
    assert_eq!(get_messages(&again, b.id), get_messages(&db, b.id));
}

#[test]
fn restore_refuses_what_is_not_consistent() {
    let settings = AppSettings::default;
    let one = || vec![conversation(1, "t1", "t2")];
    // an id that was never given out
    assert_eq!(Database::restore(one(), Vec::new(), settings(), 0, 0).unwrap_err(), malformed());
    assert_eq!(
        Database::restore(vec![conversation(0, "t1", "t2")], Vec::new(), settings(), 3, 0)
            .unwrap_err(),
        malformed()
    );
    assert_eq!(
        Database::restore(one(), vec![message(2, 1, "t2")], settings(), 1, 1).unwrap_err(),
        malformed()
    );
    // counters below zero
    assert_eq!(
        Database::restore(Vec::new(), Vec::new(), settings(), -1, 0).unwrap_err(),
        malformed()
    );
    assert_eq!(
        Database::restore(Vec::new(), Vec::new(), settings(), 0, -1).unwrap_err(),
        malformed()
    );
    // an id used twice
    assert_eq!(
        Database::restore(
            vec![conversation(1, "t1", "t2"), conversation(1, "t1", "t3")],
            Vec::new(),
            settings(),
            2,
            0
        )
        .unwrap_err(),
        malformed()
    );
    assert_eq!(
        Database::restore(one(), vec![message(1, 1, "t2"), message(1, 1, "t2")], settings(), 1, 2)
            .unwrap_err(),
        malformed()
    );
    // a message of no conversation
    assert_eq!(
        Database::restore(one(), vec![message(1, 2, "t2")], settings(), 2, 1).unwrap_err(),
        malformed()
    );
    // updated before created
    assert_eq!(
        Database::restore(vec![conversation(1, "t2", "t1")], Vec::new(), settings(), 1, 0)
            .unwrap_err(),
        malformed()
    );
    // conversations not in the order of their activity
    assert_eq!(
        Database::restore(
            vec![conversation(1, "t1", "t3"), conversation(2, "t1", "t2")],
            Vec::new(),
            settings(),
            2,
            0
        )
        .unwrap_err(),
        malformed()
    );
    // messages not in the order of their ids, or of their times
    assert_eq!(
        Database::restore(one(), vec![message(2, 1, "t1"), message(1, 1, "t2")], settings(), 1, 2)
            .unwrap_err(),
        malformed()
    );
    assert_eq!(
        Database::restore(one(), vec![message(1, 1, "t2"), message(2, 1, "t1")], settings(), 1, 2)
            .unwrap_err(),
        malformed()
    );
}

fn full() -> AppError {
    AppError::Store { cause: "database or disk is full".to_string() }
}

#[test]
fn no_conversation_is_created_when_no_id_is_left() {
    let mut db =
        Database::restore(Vec::new(), Vec::new(), AppSettings::default(), i64::MAX, 0).unwrap();
    let r = create_conversation(&mut db, "a".to_string(), "t1");
    assert_eq!(r, Err(full()));
    assert_eq!(full().message(), "database or disk is full");
    assert!(get_conversations(&db).is_empty());
}

#[test]
fn last_id_can_still_be_given() {
    let mut db =
        Database::restore(Vec::new(), Vec::new(), AppSettings::default(), i64::MAX - 1, 0).unwrap();
    let c = create_conversation(&mut db, "a".to_string(), "t1").unwrap();
    assert_eq!(c.id, i64::MAX);
    assert_eq!(create_conversation(&mut db, "b".to_string(), "t2"), Err(full()));
    assert_eq!(ids(&get_conversations(&db)), vec![i64::MAX]);
}

#[test]
fn no_message_is_saved_when_no_id_is_left() {
    let conversations = vec![conversation(1, "t1", "t1")];
    let mut db =
        Database::restore(conversations, Vec::new(), AppSettings::default(), 1, i64::MAX).unwrap();
    let r = save_message(&mut db, 1, "user".to_string(), "x".to_string(), "t2");
    assert_eq!(r, Err(full()));
    assert!(get_messages(&db, 1).is_empty());
    assert_eq!(get_conversation(&db, 1).unwrap().updated_at, "t1");
    let r = save_message(&mut db, 2, "user".to_string(), "x".to_string(), "t2");
    assert_eq!(r, Err(AppError::NotFound));
}
