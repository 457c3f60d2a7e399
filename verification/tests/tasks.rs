use pocket_relay_client_shared::servers::{add_server_task, stop_server_tasks};
use pocket_relay_client_shared::text::{
    characters, ends_with, push_decimal, remove_all, starts_with, strip_first, trim,
};

#[test]
fn tasks_are_stopped_once_and_in_order() {
    let mut tasks: Vec<u8> = Vec::new();
    assert!(stop_server_tasks(&mut tasks).is_empty());
    add_server_task(&mut tasks, 1);
    add_server_task(&mut tasks, 2);
    assert_eq!(stop_server_tasks(&mut tasks), [1, 2]);
    assert!(stop_server_tasks(&mut tasks).is_empty());
    add_server_task(&mut tasks, 3);
    assert_eq!(stop_server_tasks(&mut tasks), [3]);
}

#[test]
fn numbers_are_written_in_decimal() {
    for value in [0, 9, 10, 42131, 999, 1000, u64::MAX] {
        let mut text = "a".to_string();
        push_decimal(&mut text, value);
        assert_eq!(text, format!("a{}", value));
    }
}

#[test]
fn text_is_taken_apart() {
    assert!(starts_with("http://a", "http://"));
    assert!(!starts_with("http:/", "http://"));
    assert!(!starts_with("http:/a", "http://"));
    assert!(starts_with("a", ""));
    assert!(ends_with("a/", '/'));
    assert!(!ends_with("/a", '/'));
    assert!(!ends_with("", '/'));
    assert_eq!(strip_first("//a", '/'), "/a");
    assert_eq!(strip_first("\u{E9}a", '\u{E9}'), "a");
    assert_eq!(strip_first("a/", '/'), "a/");
    assert_eq!(strip_first("", '/'), "");
}

#[test]
fn white_space_is_what_the_standard_library_says() {
    for code in 0..0x1_1000u32 {
        if let Some(character) = char::from_u32(code) {
            let text = format!("{}a {}{}", character, 'b', character);
            let trimmed: String = trim(&characters(&text)).into_iter().collect();
            assert_eq!(trimmed, text.trim());
        }
    }
    assert!(trim(&characters(" \n ")).is_empty());
    assert_eq!(remove_all(&['a', 'b', 'a'], 'a'), ['b']);
}
