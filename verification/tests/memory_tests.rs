use xiaoshi::memory::Memory;

#[test]
fn test_generate_key() {
    assert_eq!(Memory::generate_key(123456, None), "123456");
    assert_eq!(Memory::generate_key(123456, Some(789)), "789:123456");
}

#[test]
fn test_generate_key_negative_ids() {
    assert_eq!(Memory::generate_key(-5, None), "-5");
    assert_eq!(Memory::generate_key(i64::MIN, Some(-1)), "-1:-9223372036854775808");
}

#[test]
fn test_add_and_get_messages() {
    let mut memory = Memory::new(10, 3600);
    let key = "test_user";

    memory.add_user_message(key, "你好".to_string());
    memory.add_assistant_message(key, "你好！有什么我可以帮你的吗？".to_string());

    let history = memory.get_history(key, "你是一个测试助手。");
    assert_eq!(history.len(), 3); // system + user + assistant
    assert_eq!(history[0].0, "system");
    assert_eq!(history[1].0, "user");
    assert_eq!(history[2].0, "assistant");
}

#[test]
fn test_history_limit() {
    let mut memory = Memory::new(3, 3600);
    let key = "test_user";

    for i in 0..5 {
        memory.add_user_message(key, format!("消息 {}", i));
    }

    assert_eq!(memory.get_message_count(key), 3);
}

#[test]
fn test_clear_history() {
    let mut memory = Memory::new(10, 3600);
    let key = "test_user";

    memory.add_user_message(key, "测试消息".to_string());
    assert_eq!(memory.get_message_count(key), 1);

    memory.clear_history(key);
    assert_eq!(memory.get_message_count(key), 0);
}

#[test]
fn test_timeout_clears_history() {
    let mut memory = Memory::new(10, 60);
    let key = "u";
    memory.add_user_message_at(key, "first".to_string(), 1000);
    // within the timeout the history is kept
    let h = memory.get_history_at(key, "sys", 1050);
    assert_eq!(h.len(), 2);
    // past the timeout the buffer is cleared and only the prompt comes back
    let h = memory.get_history_at(key, "sys", 1061);
    assert_eq!(h.len(), 1);
    assert_eq!(memory.get_message_count(key), 0);
}

#[test]
fn test_timeout_clears_before_user_message() {
    let mut memory = Memory::new(10, 60);
    let key = "u";
    memory.add_user_message_at(key, "first".to_string(), 1000);
    memory.add_user_message_at(key, "second".to_string(), 2000);
    assert_eq!(memory.get_message_count(key), 1);
}

#[test]
fn test_assistant_message_without_entry_is_dropped() {
    let mut memory = Memory::new(10, 3600);
    memory.add_assistant_message("nobody", "reply".to_string());
    assert_eq!(memory.get_message_count("nobody"), 0);
    assert!(!memory.is_initialized("nobody"));
}

#[test]
fn test_message_id_format() {
    let mut memory = Memory::new(10, 3600);
    let id = memory.add_user_message_at("k", "hi".to_string(), 42);
    assert_eq!(id, "msg_k_42_user_0");
    let id2 = memory.add_assistant_message_at("k", "ho".to_string(), 43);
    assert_eq!(id2, "msg_k_43_assistant_1");
}

#[test]
fn test_get_message_ids() {
    let mut memory = Memory::new(10, 3600);
    let key = "k";
    let a = memory.add_user_message_at(key, "one".to_string(), 10);
    let b = memory.add_assistant_message_at(key, "two".to_string(), 11);
    let ids = memory.get_message_ids(key);
    assert_eq!(ids, vec![a, b]);
}

#[test]
fn test_initialize_from_database() {
    let mut memory = Memory::new(2, 3600);
    let rows = vec![
        ("m1".to_string(), "user".to_string(), "a".to_string(), 1u64),
        ("m2".to_string(), "assistant".to_string(), "b".to_string(), 2u64),
        ("m3".to_string(), "user".to_string(), "c".to_string(), 3u64),
    ];
    let count = memory.initialize_from_database_at("k", rows, 100);
    assert_eq!(count, 2); // capped to the limit, oldest dropped
    let ids = memory.get_message_ids("k");
    assert_eq!(ids, vec!["m2".to_string(), "m3".to_string()]);
    assert!(memory.is_initialized("k"));

    // a second load does not overwrite what is there
    let count = memory.initialize_from_database_at(
        "k",
        vec![("m9".to_string(), "user".to_string(), "z".to_string(), 9u64)],
        200,
    );
    assert_eq!(count, 0);
    assert_eq!(memory.get_message_ids("k"), vec!["m2".to_string(), "m3".to_string()]);
}

#[test]
fn test_cleanup_expired() {
    let mut memory = Memory::new(10, 60);
    memory.add_user_message_at("fresh", "x".to_string(), 1000);
    memory.add_user_message_at("stale", "y".to_string(), 100);
    assert_eq!(memory.get_conversation_count(), 2);
    memory.cleanup_expired_at(1010);
    assert_eq!(memory.get_conversation_count(), 1);
    assert_eq!(memory.get_message_count("fresh"), 1);
    assert_eq!(memory.get_message_count("stale"), 0);
}

#[test]
fn test_clear_all() {
    let mut memory = Memory::new(10, 3600);
    memory.add_user_message("a", "x".to_string());
    memory.add_user_message("b", "y".to_string());
    assert_eq!(memory.get_conversation_count(), 2);
    memory.clear_all();
    assert_eq!(memory.get_conversation_count(), 0);
}
