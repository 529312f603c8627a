use slugify::cli::aliasing::{contains_text, heck_aliases, push_all_new, push_new};
use slugify::cli::verbosity::Verbosity;

fn strings(list: &[&str]) -> Vec<String> {
    list.iter().map(|s| s.to_string()).collect()
}

#[test]
fn a_plain_word_has_three_spellings() {
    assert_eq!(heck_aliases("info"), strings(&["info", "Info", "INFO"]));
}

#[test]
fn spellings_come_in_order_and_once() {
    assert_eq!(
        heck_aliases("fooBar baz"),
        strings(&[
            "fooBar baz",
            "fooBarBaz",
            "FooBarBaz",
            "Foo-Bar-Baz",
            "foo_bar_baz",
            "foo-bar-baz",
            "FOO_BAR_BAZ",
            "FOO-BAR-BAZ",
        ])
    );
    assert_eq!(heck_aliases("0"), strings(&["0"]));
    assert_eq!(heck_aliases(""), strings(&[""]));
}

#[test]
fn a_text_is_pushed_only_when_new() {
    let mut list = strings(&["a", "b"]);
    assert!(contains_text(&list, "a"));
    assert!(!contains_text(&list, "c"));
    assert!(!contains_text(&list, "A"));
    push_new(&mut list, String::from("a"));
    assert_eq!(list, strings(&["a", "b"]));
    push_new(&mut list, String::from("c"));
    assert_eq!(list, strings(&["a", "b", "c"]));
    push_all_new(&mut list, &strings(&["c", "d", "a", "d", "e"]));
    assert_eq!(list, strings(&["a", "b", "c", "d", "e"]));
}

#[test]
fn levels_and_numbers() {
    let all = Verbosity::variants();
    assert_eq!(
        all,
        [
            Verbosity::Off,
            Verbosity::Quiet,
            Verbosity::Warning,
            Verbosity::Info,
            Verbosity::Hint,
            Verbosity::Debug,
        ]
    );
    let mut n: u8 = 0;
    for v in all {
        assert_eq!(v.level(), n);
        assert_eq!(Verbosity::from(n), *v);
        n += 1;
    }
    assert_eq!(Verbosity::from(6), Verbosity::Debug);
    assert_eq!(Verbosity::from(255), Verbosity::Debug);
    assert_eq!(Verbosity::default(), Verbosity::Info);
    assert!(Verbosity::Quiet < Verbosity::Hint);
}

#[test]
fn names_of_the_levels() {
    assert_eq!(Verbosity::Off.variant_names(), ["none", "null", "0"]);
    assert_eq!(Verbosity::Quiet.variant_names(), ["quiet", "silent", "1"]);
    assert_eq!(Verbosity::Warning.variant_names(), ["warning", "warn", "2"]);
    assert_eq!(Verbosity::Info.variant_names(), ["info", "extra", "3"]);
    assert_eq!(Verbosity::Hint.variant_names(), ["hint", "tip", "4"]);
    assert_eq!(Verbosity::Debug.variant_names(), ["debug", "dbg", "5"]);
    assert_eq!(Verbosity::Off.to_text(), "none");
    assert_eq!(Verbosity::Debug.to_text(), "debug");
}

#[test]
fn aliases_of_a_level() {
    assert_eq!(
        Verbosity::Info.aliases(),
        strings(&["info", "Info", "INFO", "extra", "Extra", "EXTRA", "3"])
    );
    assert_eq!(
        Verbosity::Off.aliases(),
        strings(&["none", "None", "NONE", "null", "Null", "NULL", "0"])
    );
}

#[test]
fn a_level_is_read_from_any_spelling() {
    assert_eq!(Verbosity::from_str("info", false), Ok(Verbosity::Info));
    assert_eq!(Verbosity::from_str("  WARN \n", false), Ok(Verbosity::Warning));
    assert_eq!(Verbosity::from_str("5", false), Ok(Verbosity::Debug));
    assert_eq!(Verbosity::from_str("Silent", false), Ok(Verbosity::Quiet));
    assert_eq!(Verbosity::from_str("null", true), Ok(Verbosity::Off));
    assert_eq!(Verbosity::from_str("TiP", true), Ok(Verbosity::Hint));
    assert_eq!(Verbosity::from_str("tIP", false), Err(String::from("tIP")));
    assert_eq!(Verbosity::from_str(" Loud ", true), Err(String::from("loud")));
    assert_eq!(Verbosity::from_str(" Loud ", false), Err(String::from("Loud")));
    assert_eq!(Verbosity::from_str("", false), Err(String::new()));
    assert_eq!(Verbosity::from_str("6", true), Err(String::from("6")));
}

#[test]
fn a_level_answers_to_its_spellings_only() {
    assert!(Verbosity::Info.answers_to("extra", false));
    assert!(Verbosity::Info.answers_to("EXTRA", false));
    assert!(!Verbosity::Info.answers_to("eXtra", false));
    assert!(Verbosity::Info.answers_to("extra", true));
    assert!(!Verbosity::Info.answers_to("EXTRA", true));
    assert!(!Verbosity::Info.answers_to("hint", false));
}
