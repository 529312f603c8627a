use slugify::cli::names::{
    decimal, find_last, first_free, join_extension, nth_attempt, split_extension, with_filename,
};

fn strings(list: &[&str]) -> Vec<String> {
    list.iter().map(|s| s.to_string()).collect()
}

fn text(v: Vec<char>) -> String {
    v.into_iter().collect()
}

#[test]
fn a_name_splits_at_its_last_dot() {
    assert_eq!(split_extension("a.txt"), (String::from("a"), Some(String::from("txt"))));
    assert_eq!(
        split_extension("archive.tar.gz"),
        (String::from("archive.tar"), Some(String::from("gz")))
    );
    assert_eq!(split_extension("README"), (String::from("README"), None));
    assert_eq!(split_extension(".bashrc"), (String::new(), Some(String::from("bashrc"))));
    assert_eq!(split_extension("trailing."), (String::from("trailing"), Some(String::new())));
    assert_eq!(split_extension(""), (String::new(), None));
}

#[test]
fn stem_and_extension_join_by_a_dot() {
    assert_eq!(join_extension("a", &Some(String::from("txt"))), "a.txt");
    assert_eq!(join_extension("a", &None), "a");
    assert_eq!(join_extension("", &Some(String::from("txt"))), ".txt");
    assert_eq!(join_extension("a", &Some(String::new())), "a.");
    for name in ["a.txt", "archive.tar.gz", "README", ".bashrc", "trailing.", ""] {
        let (stem, extension) = split_extension(name);
        assert_eq!(join_extension(&stem, &extension), name);
    }
}

#[test]
fn the_last_occurrence_is_found() {
    let chars: Vec<char> = "a/b/c".chars().collect();
    assert_eq!(find_last(&chars, '/'), Some(3));
    assert_eq!(find_last(&chars, 'a'), Some(0));
    assert_eq!(find_last(&chars, 'x'), None);
    assert_eq!(find_last(&Vec::new(), 'x'), None);
}

#[test]
fn a_sibling_shares_the_directory() {
    assert_eq!(with_filename("/tmp/dir/Old Name.txt", "old-name.txt"), "/tmp/dir/old-name.txt");
    assert_eq!(with_filename("Old Name", "old-name"), "old-name");
    assert_eq!(with_filename("/Old", "old"), "/old");
    assert_eq!(with_filename("a/b/", "c"), "a/b/c");
}

#[test]
fn numbers_in_decimal() {
    assert_eq!(text(decimal(0)), "0");
    assert_eq!(text(decimal(7)), "7");
    assert_eq!(text(decimal(10)), "10");
    assert_eq!(text(decimal(109)), "109");
    assert_eq!(text(decimal(65535)), "65535");
    assert_eq!(text(decimal(usize::MAX)), usize::MAX.to_string());
}

#[test]
fn attempts_count_from_the_plain_name() {
    let txt = Some(String::from("txt"));
    assert_eq!(nth_attempt("a", &txt, 0), "a.txt");
    assert_eq!(nth_attempt("a", &txt, 1), "a.0.txt");
    assert_eq!(nth_attempt("a", &txt, 2), "a.1.txt");
    assert_eq!(nth_attempt("a", &txt, 12), "a.11.txt");
    assert_eq!(nth_attempt("dir", &None, 0), "dir");
    assert_eq!(nth_attempt("dir", &None, 1), "dir.0");
}

#[test]
fn a_taken_name_gets_the_first_free_number() {
    let txt = Some(String::from("txt"));
    assert_eq!(first_free("a", &txt, "A.txt", &strings(&["A.txt", "a.txt"])), "a.0.txt");
    assert_eq!(first_free("a", &txt, "A.txt", &strings(&["A.txt", "b.txt"])), "a.txt");
    assert_eq!(
        first_free("a", &txt, "A.txt", &strings(&["A.txt", "a.txt", "a.0.txt", "a.1.txt"])),
        "a.2.txt"
    );
    assert_eq!(
        first_free("a", &txt, "A.txt", &strings(&["a.1.txt", "A.txt", "a.txt"])),
        "a.0.txt"
    );
    assert_eq!(first_free("a", &txt, "a.txt", &strings(&["a.txt"])), "a.txt");
    assert_eq!(
        first_free("a", &txt, "a.0.txt", &strings(&["a.txt", "a.0.txt"])),
        "a.0.txt"
    );
    assert_eq!(first_free("a", &txt, "A.txt", &Vec::new()), "a.txt");
    assert_eq!(first_free("d", &None, "D", &strings(&["d", "d.0", "D"])), "d.1");
}
