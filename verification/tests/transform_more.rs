use slugify::cli::parameters::SlugifyParameters;
use slugify::cli::string::{join, SlugifyString};
use slugify::errors::Error;
use slugify::plain;
use slugify::string::{finish, join_words, restore_case, slugify_string, slugify_text};

fn strings(list: &[&str]) -> Vec<String> {
    list.iter().map(|s| s.to_string()).collect()
}

fn allowed(c: char, separator: char) -> bool {
    c.is_ascii_alphanumeric() || c == '_' || c == '-' || c == separator
}

/// Every run of characters for which `in_run` holds becomes one separator.
fn collapse(text: &str, separator: char, in_run: &dyn Fn(char) -> bool) -> String {
    let mut out = String::new();
    let mut in_a_run = false;
    for c in text.chars() {
        if in_run(c) {
            if !in_a_run {
                out.push(separator);
            }
            in_a_run = true;
        } else {
            out.push(c);
            in_a_run = false;
        }
    }
    out
}

fn is_slug(slug: &str, separator: char, lowercase: bool) -> bool {
    slug.chars().all(|c| {
        c == separator
            || c == '_'
            || c.is_ascii_digit()
            || c.is_ascii_lowercase()
            || (!lowercase && c.is_ascii_uppercase())
    }) && !slug.starts_with(separator)
        && !slug.ends_with(separator)
}

const SAMPLES: [&str; 12] = [
    "",
    " Foo Baz ",
    "Hello, World!",
    "XMLHttpRequest",
    "snake_case and kebab-case",
    "\u{1b}[32mgreen\u{1b}[m light",
    "Борис Николаевич Ельцин",
    "深圳 2024",
    "!!!",
    "a  --  b__c",
    "tab\tand\nnewline",
    "già fatto: 100%",
];

#[test]
fn text_without_letters_or_digits_has_an_empty_slug() -> Result<(), Error> {
    assert_eq!(slugify_string("", '-')?, "");
    assert_eq!(slugify_string("!!!", '-')?, "");
    assert_eq!(slugify_string(" - _ - ", '_')?, "");
    assert_eq!(slugify_string("\u{e000}\u{ffff}", '-')?, "");
    Ok(())
}

#[test]
fn escape_sequences_are_stripped() -> Result<(), Error> {
    assert_eq!(slugify_string("\u{1b}[32mfoo\u{1b}[m bar", '-')?, "foo-bar");
    assert_eq!(slugify_string("\u{1b}[1;31mRed Alert\u{1b}[0m", '_')?, "red_alert");
    Ok(())
}

#[test]
fn text_is_transliterated() -> Result<(), Error> {
    assert_eq!(slugify_string("René François Lacôte", '-')?, "rene-francois-lacote");
    assert_eq!(slugify_string("Борис", '-')?, "boris");
    assert_eq!(slugify_string("深圳", '-')?, "shen-zhen");
    assert_eq!(slugify_text("深圳", '.', false)?, "Shen.Zhen");
    Ok(())
}

#[test]
fn words_are_split_where_case_changes() -> Result<(), Error> {
    assert_eq!(slugify_string("XMLHttpRequest", '-')?, "xml-http-request");
    assert_eq!(slugify_text("XMLHttpRequest", '-', false)?, "XML-Http-Request");
    assert_eq!(slugify_text("fooBar_baz-Qux 9", '.', false)?, "foo.Bar.baz.Qux.9");
    assert_eq!(slugify_string("fooBar_baz-Qux 9", '.')?, "foo.bar.baz.qux.9");
    Ok(())
}

#[test]
fn any_separator_that_a_pattern_takes() -> Result<(), Error> {
    assert_eq!(slugify_string("Foo Baz", '.')?, "foo.baz");
    assert_eq!(slugify_string("Foo Baz", '+')?, "foo+baz");
    assert_eq!(slugify_string("Foo Baz", '$')?, "foo$baz");
    assert_eq!(slugify_string("Foo Baz", '^')?, "foo^baz");
    assert_eq!(slugify_string("Foo Baz", '→')?, "foo→baz");
    assert_eq!(slugify_string("Foo Baz", ' ')?, "foo baz");
    assert_eq!(slugify_text("Foo Baz", 'É', true)?, "fooÉbaz");
    Ok(())
}

#[test]
fn an_opening_bracket_is_no_separator() {
    assert!(matches!(slugify_string("Foo Baz", '['), Err(Error::PatternCompilationError(_))));
    assert!(matches!(
        slugify_text("Foo Baz", '[', false),
        Err(Error::PatternCompilationError(_))
    ));
    assert!(matches!(
        plain::slugify_string("Foo Baz", '[', true, true),
        Err(Error::PatternCompilationError(_))
    ));
}

#[test]
fn slugs_hold_slug_characters_only() -> Result<(), Error> {
    for separator in ['-', '_', '.', '+', '~', ' ', '$', '&', '^', ':', '#', '→'] {
        for lowercase in [true, false] {
            for sample in SAMPLES {
                let slug = slugify_text(sample, separator, lowercase)?;
                assert!(is_slug(&slug, separator, lowercase), "{sample:?} {separator:?} {slug:?}");
                let plain_slug = plain::slugify_string(sample, separator, true, lowercase)?;
                assert!(
                    plain_slug.chars().all(|c| c == separator
                        || c == '_'
                        || c.is_ascii_digit()
                        || c.is_ascii_lowercase()
                        || (!lowercase && c.is_ascii_uppercase())),
                    "{sample:?} {separator:?} {plain_slug:?}"
                );
            }
        }
    }
    Ok(())
}

#[test]
fn a_slug_is_its_own_slug() -> Result<(), Error> {
    for separator in ['-', '_', '.', '+', '~', ' ', '$'] {
        for lowercase in [true, false] {
            for sample in SAMPLES {
                let once = slugify_text(sample, separator, lowercase)?;
                let twice = slugify_text(&once, separator, lowercase)?;
                assert_eq!(once, twice, "{sample:?} {separator:?}");
            }
        }
    }
    Ok(())
}

#[test]
fn the_matcher_collapses_runs_for_every_plain_separator() -> Result<(), Error> {
    let haystacks = ["a b", "  a!!b__c--d  ", "[x]\\y^z", "é→ü 1.2,3", "$1 ${a} &&--~~", "a\nb\tc"];
    let mut separators: Vec<char> = Vec::new();
    let mut code: u32 = 0;
    while code < 0x250 {
        if let Some(c) = char::from_u32(code) {
            if c != '\\' && c != '[' && c != ']' {
                separators.push(c);
            }
        }
        code += 1;
    }
    separators.extend(['→', '深', '\u{2028}', '\u{feff}', '\u{10ffff}', '😀']);
    for separator in separators {
        for haystack in haystacks {
            let clean = collapse(haystack, separator, &|c| !allowed(c, separator));
            let expected = if separator == '_' || separator == '-' {
                collapse(&clean, separator, &|c| c == '-')
            } else {
                collapse(&clean, separator, &|c| c == '_' || c == '-' || c == separator)
            };
            assert_eq!(
                plain::slugify_string(haystack, separator, false, false)?,
                expected,
                "{haystack:?} {separator:?}"
            );
        }
    }
    Ok(())
}

#[test]
fn the_stages_after_word_splitting() {
    assert_eq!(join_words("foo-bar-baz", '_'), "foo_bar_baz");
    assert_eq!(join_words("foo-bar-baz", '-'), "foo-bar-baz");
    assert_eq!(join_words("-foo--bar-", '.'), "foo..bar");
    assert_eq!(join_words("-foo--bar-", '-'), "-foo--bar-");
    assert_eq!(join_words("", '.'), "");
    assert_eq!(finish("--Foo-Bar--", '-', true), "foo-bar");
    assert_eq!(finish("--Foo-Bar--", '-', false), "Foo-Bar");
    assert_eq!(finish("__Foo-Bar__", '-', false), "__Foo-Bar__");
    assert_eq!(finish("....", '.', true), "");
    assert_eq!(finish("aXa", 'a', true), "x");
    assert_eq!(finish("AxA", 'a', true), "axa");
}

#[test]
fn letters_are_taken_from_the_source_again() {
    assert_eq!(restore_case("foo-baz", "Foo Baz"), "Foo-Baz");
    assert_eq!(restore_case("xml-http-request", "XMLHttpRequest"), "XML-Http-Request");
    assert_eq!(restore_case("a-b", "__A__b__"), "A-b");
    assert_eq!(restore_case("foo-bar", ""), "foo-bar");
    assert_eq!(restore_case("foo-bar", "Fo"), "Foo-bar");
    assert_eq!(restore_case("", "Foo"), "");
    assert_eq!(restore_case("ab", "xAyB"), "AB");
    assert_eq!(restore_case("ab", "xyz"), "ab");
}

#[test]
fn the_plain_transform_keeps_words_as_they_are() -> Result<(), Error> {
    assert_eq!(plain::slugify_string("XMLHttpRequest", '-', true, true)?, "xmlhttprequest");
    assert_eq!(plain::slugify_string("snake_case", '-', true, true)?, "snake_case");
    assert_eq!(plain::slugify_string("snake_case", '.', true, true)?, "snake.case");
    assert_eq!(plain::slugify_string("a -- b", '_', true, true)?, "a___b");
    assert_eq!(plain::slugify_string("a -- b", '-', true, true)?, "a-b");
    assert_eq!(plain::slugify_string("Борис B", '-', true, false)?, "B");
    assert_eq!(plain::slugify_string("", '-', true, true)?, "");
    assert_eq!(plain::shape("--Foo--", '-', true, true), "foo");
    assert_eq!(plain::shape("--Foo--", '-', false, true), "--foo--");
    assert_eq!(plain::shape("--Foo--", '-', true, false), "Foo");
    assert_eq!(plain::shape("--Foo--", '-', false, false), "--Foo--");
    Ok(())
}

#[test]
fn options_of_the_transform() -> Result<(), Error> {
    let defaults = SlugifyParameters::default();
    assert_eq!(defaults.separator(), Some('-'));
    assert_eq!(defaults.non_option_separator(), '-');
    assert!(defaults.trim_matches());
    assert!(defaults.lowercase());
    assert_eq!(defaults.slugify_string(" Foo Baz ")?, "foo-baz");
    let none = SlugifyParameters::new(None, true, true);
    assert_eq!(none.separator(), None);
    assert_eq!(none.non_option_separator(), '-');
    assert!(!none.trim_matches());
    assert!(!none.lowercase());
    assert_eq!(none.slugify_string(" Foo Baz ")?, "Foo-Baz");
    assert_eq!(none.slugify_plain(" Foo Baz ")?, "-Foo-Baz-");
    let dotted = SlugifyParameters::new(Some('.'), false, false);
    assert_eq!(dotted.separator(), Some('.'));
    assert_eq!(dotted.non_option_separator(), '.');
    assert_eq!(dotted.slugify_string("fooBar baz")?, "foo.bar.baz");
    assert_eq!(dotted.slugify_plain("\u{1b}[32mfooBar\u{1b}[m baz")?, "foobar.baz");
    assert!(matches!(
        SlugifyParameters::new(Some('['), false, false).slugify_string("a"),
        Err(Error::PatternCompilationError(_))
    ));
    assert!(matches!(
        SlugifyParameters::new(Some('['), false, false).slugify_plain("a"),
        Err(Error::PatternCompilationError(_))
    ));
    Ok(())
}

#[test]
fn words_are_joined_by_spaces_before_they_are_slugified() -> Result<(), Error> {
    assert_eq!(join(&strings(&["a", "b", "c"]), " "), "a b c");
    assert_eq!(join(&strings(&["a"]), ", "), "a");
    assert_eq!(join(&strings(&["a", ""]), ", "), "a, ");
    assert_eq!(join(&Vec::new(), " "), "");
    let cli = SlugifyString {
        text: strings(&["Hello", "big World"]),
        parameters: SlugifyParameters::default(),
    };
    assert_eq!(cli.slug()?, Some(String::from("hello-big-world")));
    let silent = SlugifyString { text: Vec::new(), parameters: SlugifyParameters::default() };
    assert_eq!(silent.slug()?, None);
    let refused = SlugifyString {
        text: strings(&["x"]),
        parameters: SlugifyParameters::new(Some('['), false, false),
    };
    assert!(matches!(refused.slug(), Err(Error::PatternCompilationError(_))));
    let nothing = SlugifyString {
        text: Vec::new(),
        parameters: SlugifyParameters::new(Some('['), false, false),
    };
    assert_eq!(nothing.slug()?, None);
    Ok(())
}
