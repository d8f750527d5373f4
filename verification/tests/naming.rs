use hardlight::naming::snake_to_pascal_case;

#[test]
fn test_snake_to_pascal_case_empty() {
    assert_eq!(snake_to_pascal_case(""), "");
}

#[test]
fn test_snake_to_pascal_case_single_word() {
    assert_eq!(snake_to_pascal_case("hello"), "Hello");
    assert_eq!(snake_to_pascal_case("world"), "World");
}

#[test]
fn test_snake_to_pascal_case_multiple_words() {
    assert_eq!(snake_to_pascal_case("hello_world"), "HelloWorld");
    assert_eq!(snake_to_pascal_case("foo_bar_baz"), "FooBarBaz");
}

#[test]
fn test_snake_to_pascal_case_mixed_case() {
    assert_eq!(snake_to_pascal_case("hello_world_42"), "HelloWorld42");
    assert_eq!(snake_to_pascal_case("foo_BAR_baz"), "FooBarBaz");
}

#[test]
fn underscores_separate_words_wherever_they_stand() {
    assert_eq!(snake_to_pascal_case("_"), "");
    assert_eq!(snake_to_pascal_case("__foo__bar__"), "FooBar");
    assert_eq!(snake_to_pascal_case("a_b"), "AB");
    assert_eq!(snake_to_pascal_case("_1a"), "1a");
}

#[test]
fn joined_words_give_joined_names() {
    for (a, b) in [("hello", "world"), ("", "x"), ("get_all", "IDs"), ("tail_", "_head")] {
        let joined = format!("{}_{}", a, b);
        let parts = format!("{}{}", snake_to_pascal_case(a), snake_to_pascal_case(b));
        assert_eq!(snake_to_pascal_case(&joined), parts);
    }
}

#[test]
fn letters_outside_ascii_change_case_too() {
    assert_eq!(snake_to_pascal_case("\u{e9}tat_\u{e9}T\u{c9}"), "\u{c9}tat\u{c9}t\u{e9}");
    // The upper-case form of a character may be several characters.
    assert_eq!(snake_to_pascal_case("\u{df}"), "SS");
}

#[test]
fn ascii_names_lose_every_underscore() {
    for name in ["become_dog", "MAKE_A_NOISE", "___", "x", "mark_as_done_2"] {
        let pascal = snake_to_pascal_case(name);
        assert!(pascal.chars().all(|c| c.is_ascii() && c != '_'));
    }
}
