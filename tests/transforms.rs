use mt_project::task::{P_WORD, S_CHAR};
use mt_project::{Args, Task};

#[test]
fn positive_test_can_replace_words_that_begin_with_p() {
    let test_string_1 = String::from("perro");
    let test_string_2 = String::from("a perro");
    let test_string_3 = String::from("a small apricot");

    assert_eq!(Task::target_p(test_string_1), String::from("replaced"));
    assert_eq!(Task::target_p(test_string_2), String::from("a replaced"));
    assert_eq!(
        Task::target_p(test_string_3),
        String::from("a small apricot")
    );
}

#[test]
fn positive_test_can_replace_s_char_in_word() {
    let test_string_1 = String::from("si");
    let test_string_2 = String::from("I see that");
    let test_string_3 = String::from("I know");

    assert_eq!(Task::target_s(test_string_1), String::from("thi"));
    assert_eq!(Task::target_s(test_string_2), String::from("I thee that"));
    assert_eq!(Task::target_s(test_string_3), String::from("I know"));
}

#[test]
fn prefix_rule_is_case_sensitive() {
    assert_eq!(Task::target_p(String::from("Perro pan")), "Perro replaced");
}

#[test]
fn prefix_replaces_whole_token_even_when_short() {
    assert_eq!(Task::target_p(String::from("p pp xp")), "replaced replaced xp");
}

#[test]
fn char_rule_keeps_uppercase_s() {
    assert_eq!(Task::target_s(String::from("Sass")), "Sathth");
}

#[test]
fn transforms_collapse_whitespace() {
    let text = String::from("  pan \t\n so  \r\n");
    assert_eq!(Task::target_p(text.clone()), "replaced so");
    assert_eq!(Task::target_s(text), "pan tho");
}

#[test]
fn transforms_of_empty_and_blank_text_are_empty() {
    assert_eq!(Task::target_p(String::new()), "");
    assert_eq!(Task::target_s(String::new()), "");
    assert_eq!(Task::target_p(String::from(" \t\n")), "");
    assert_eq!(Task::target_s(String::from(" \t\n")), "");
}

#[test]
fn unicode_whitespace_separates_tokens() {
    // U+00A0 and U+3000 have the White_Space property.
    assert_eq!(Task::target_p(String::from("a\u{a0}pb\u{3000}c")), "a replaced c");
}

#[test]
fn char_transform_applied_twice_is_applied_once() {
    let once = Task::target_s(String::from("sass is  so\tsss"));
    assert_eq!(once, "thathth ith tho ththth");
    assert_eq!(Task::target_s(once.clone()), once);
}

#[test]
fn prefix_transform_applied_twice_is_applied_once() {
    let once = Task::target_p(String::from(" put the\npen  down "));
    assert_eq!(once, "replaced the replaced down");
    assert_eq!(Task::target_p(once.clone()), once);
}

#[test]
fn task_resolves_each_selector() {
    let p = Task::new(Args::P);
    let s = Task::new(Args::S);
    assert_eq!(p.perform(String::from("pick a song")), "replaced a song");
    assert_eq!(s.perform(String::from("pick a song")), "pick a thong");
}

#[test]
fn replacement_constants() {
    assert_eq!(P_WORD, "replaced");
    assert_eq!(S_CHAR, "th");
}
