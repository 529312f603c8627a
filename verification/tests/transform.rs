use slugify::errors::Error;
use slugify::plain;
use slugify::string::{slugify_string, slugify_text};

#[test]
fn test_slugify_string() -> Result<(), Error> {
    assert_eq!(slugify_string(" Foo Baz ", '-')?, "foo-baz");
    assert_eq!(slugify_string(" Foo Baz ", '_')?, "foo_baz");
    Ok(())
}

#[test]
fn test_unicode_data_cyrilic_letters() -> Result<(), Error> {
    assert_eq!(
        slugify_string("ÐÐµ, ÑÑÐŸ ÑÐ°Ð·Ð±ÑÐŽÐžÐ» Ð²Ð°Ñ. Ð¯ Ð¿ÑÐŸÑÑÐŸ ÑÐ»ÐžÑÐºÐŸÐŒ Ð²ÐŸÐ·Ð±ÑÐ¶ÐŽÐµÐœ í Ÿíµµ", '-')?,
        "d-du-nndy-n-ddeg-d-d-ndz-dz-d-d2-ddeg-n-d-d-ndynndy-nd-dz-n-do-dyd-oe-d2dyd-d-ndpdz-du-doe-i-yiuu"
    );
    Ok(())
}

#[test]
fn string_test_slugify_string() -> Result<(), Error> {
    assert_eq!(plain::slugify_string(" Foo Baz ", '-', true, false)?, "Foo-Baz");
    assert_eq!(plain::slugify_string(" Foo Baz ", '-', true, false)?, "Foo-Baz");
    assert_eq!(plain::slugify_string(" Foo Baz ", '_', true, false)?, "Foo_Baz");
    assert_eq!(plain::slugify_string(" Foo Baz ", '-', false, false)?, "-Foo-Baz-");
    assert_eq!(plain::slugify_string(" Foo Baz ", '_', false, false)?, "_Foo_Baz_");

    assert_eq!(plain::slugify_string(" Foo Baz ", '-', true, true)?, "foo-baz");
    assert_eq!(plain::slugify_string(" Foo Baz ", '-', true, true)?, "foo-baz");
    assert_eq!(plain::slugify_string(" Foo Baz ", '_', true, true)?, "foo_baz");
    assert_eq!(plain::slugify_string(" Foo Baz ", '-', false, true)?, "-foo-baz-");
    assert_eq!(plain::slugify_string(" Foo Baz ", '_', false, true)?, "_foo_baz_");
    Ok(())
}

#[test]
fn separator_substitution_keeps_case() -> Result<(), Error> {
    assert_eq!(slugify_text("Foo Baz", '-', false)?, "Foo-Baz");
    assert_eq!(slugify_text("Foo Baz", '_', false)?, "Foo_Baz");
    Ok(())
}

#[test]
fn case_folding() -> Result<(), Error> {
    assert_eq!(slugify_text("Foo Baz", '-', true)?, "foo-baz");
    Ok(())
}
