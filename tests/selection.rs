use mt_project::{Args, ArgsError, Config, Data};

#[test]
fn positive_test_corectly_counts_the_number_of_words_in_string() {
    let data = Data::new(String::from("I am a test string"));

    assert_eq!(data.get_word_count(), 5);
}

#[test]
fn positive_test_filepath_fields_are_correctly_initialised() {
    let config = Config::new(
        String::from("/home/u/mt-project/config/file-1.txt"),
        String::from("/home/u/mt-project/config/file-2.txt"),
    );

    assert!(config.get_file_1_path().ends_with("file-1.txt"));
    assert!(config.get_file_2_path().ends_with("file-2.txt"));
}

#[test]
fn positive_test_retrieves_the_expected_fields() {
    let config = Config::new(
        String::from("/home/u/mt-project/config/file-1.txt"),
        String::from("/home/u/mt-project/config/file-2.txt"),
    );

    assert!(config.source_path(Args::P).ends_with("file-1.txt"));
    assert!(config.source_path(Args::S).ends_with("file-2.txt"));
}

#[test]
fn word_count_of_empty_text_is_zero() {
    assert_eq!(Data::new(String::new()).get_word_count(), 0);
    assert_eq!(Data::new(String::from(" \t \n ")).get_word_count(), 0);
}

#[test]
fn word_count_ignores_runs_of_whitespace() {
    let data = Data::new(String::from("  one\t\ttwo\n\nthree   four  "));
    assert_eq!(data.get_word_count(), 4);
    assert_eq!(data.get_data(), "  one\t\ttwo\n\nthree   four  ");
}

#[test]
fn word_count_splits_on_every_kind_of_whitespace() {
    let data = Data::new(String::from("a\tb\nc\rd\u{b}e\u{c}f\u{85}g\u{2028}h\u{3000}i"));
    assert_eq!(data.get_word_count(), 9);
    // U+200B is no whitespace, so it stays inside its token.
    assert_eq!(Data::new(String::from("a\u{200b}b")).get_word_count(), 1);
}

#[test]
fn selector_tokens() {
    assert_eq!(Args::from_token("p"), Ok(Args::P));
    assert_eq!(Args::from_token("s"), Ok(Args::S));
}

#[test]
fn unknown_selector_token_is_refused() {
    assert_eq!(Args::from_token(""), Err(ArgsError::InvalidSelector));
    assert_eq!(Args::from_token("P"), Err(ArgsError::InvalidSelector));
    assert_eq!(Args::from_token("ps"), Err(ArgsError::InvalidSelector));
    assert_eq!(Args::from_token("x"), Err(ArgsError::InvalidSelector));
}

#[test]
fn run_pairs_text_with_selected_task() {
    let config = Config::new(String::from("a"), String::from("b"));
    let (data, task) = config.run(Args::S, String::from("so it is")).unwrap();
    assert_eq!(data.get_word_count(), 3);
    assert_eq!(task.perform(data.get_data().clone()), "tho it ith");
}

#[test]
fn run_on_empty_text_gives_none() {
    let config = Config::new(String::from("a"), String::from("b"));
    assert!(config.run(Args::P, String::new()).is_none());
}
