use eppo_core::rgx::{
    alfanumeric, alphabetic, any_of, digit, ends_with, escape_special_characters, exactly,
    starts_with, Part, RegExp,
};
use eppo_core::sharder::shard_value;
use eppo_core::strings::usize_dec_string;
use eppo_core::toolkit::{batch_searchsorted, searchsorted};

#[test]
fn date_pattern_with_named_groups() {
    let date_pattern = RegExp::new(vec![
        Part::new(None).exactly("2023").group_as("year"),
        Part::new(None).exactly("-"),
        Part::new(None).exactly("10").group_as("month"),
        Part::new(None).exactly("-"),
        Part::new(None).exactly("05").group_as("day"),
    ])
    .unwrap();
    // `exactly` appends its text first; `group_as` then opens the named
    // group, so the group prefix follows the escaped text.
    assert_eq!(
        date_pattern.compile().unwrap(),
        "2023(?P<year>-10(?P<month>-05(?P<day>"
    );
}

#[test]
fn concatenation_of_parts() {
    let pattern = RegExp::new(vec![
        Part::new(Some("a")),
        Part::new(None).digit(),
        Part::new(Some("z")),
    ])
    .unwrap();
    assert_eq!(pattern.compile().unwrap(), "a\\dz");
}

#[test]
fn escape_leaves_plain_text_alone() {
    assert_eq!(escape_special_characters("hello world"), "hello world");
    assert_eq!(escape_special_characters(""), "");
}

#[test]
fn escape_prefixes_every_special_character() {
    assert_eq!(
        escape_special_characters("a.b+c*d?e"),
        "a\\.b\\+c\\*d\\?e"
    );
    assert_eq!(
        escape_special_characters("^$()[]{}|\\"),
        "\\^\\$\\(\\)\\[\\]\\{\\}\\|\\\\"
    );
}

#[test]
fn chainable_builders() {
    let p = Part::new(None)
        .starts_with()
        .exactly("id-")
        .digit()
        .times(4)
        .ends_with();
    assert_eq!(p.pattern, "^id-\\d{4}$");

    assert_eq!(digit().pattern, "\\d");
    assert_eq!(starts_with().pattern, "^");
    assert_eq!(ends_with().pattern, "$");
    assert_eq!(alfanumeric().pattern, "\\w");
    assert_eq!(alphabetic().pattern, "([a-zA-Z])");
    assert_eq!(exactly("3.14").pattern, "3\\.14");
    assert_eq!(Part::new(None).any_character().pattern, ".");
    assert_eq!(Part::new(None).infinity().pattern, "+");
    assert_eq!(
        Part::new(Some("start")).add(&Part::new(Some("-end"))).pattern,
        "start-end"
    );
    assert_eq!(
        Part::new(None).group_as("year").pattern,
        "(?P<year>"
    );
}

#[test]
fn any_of_joins_alternatives() {
    let p = any_of(vec![
        Part::new(Some("cat")),
        Part::new(Some("dog")),
        Part::new(Some("bird")),
    ])
    .unwrap();
    assert_eq!(p.pattern, "(cat|dog|bird)");
    let single = any_of(vec![Part::new(Some("one"))]).unwrap();
    assert_eq!(single.pattern, "(one)");
    let none = any_of(Vec::new()).unwrap();
    assert_eq!(none.pattern, "()");
    let method = Part::new(Some("x"))
        .any_of(vec![Part::new(Some("a")), Part::new(Some("b"))])
        .unwrap();
    assert_eq!(method.pattern, "x(a|b)");
}

#[test]
fn decimal_rendering() {
    assert_eq!(usize_dec_string(0), "0");
    assert_eq!(usize_dec_string(7), "7");
    assert_eq!(usize_dec_string(10), "10");
    assert_eq!(usize_dec_string(90210), "90210");
}

#[test]
fn shard_value_is_pinned_and_stable() {
    // FNV-1a("checkout-allocation-user-42") mod 10000 == 9067: the value
    // is part of the sharder's definition and must never drift.
    assert_eq!(shard_value("checkout-allocation", "user-42", 10_000), 9_067);
    assert_eq!(
        shard_value("checkout-allocation", "user-42", 10_000),
        shard_value("checkout-allocation", "user-42", 10_000)
    );
    // The shard depends on the allocation's selection key and the subject
    // key alone.
    assert_ne!(
        shard_value("checkout-allocation", "user-42", 10_000),
        shard_value("another-allocation", "user-42", 10_000)
    );
}

#[test]
fn test_searchsorted() {
    let array: Vec<i64> = vec![1, 2, 3, 5, 6];
    assert_eq!(searchsorted(&array, 0), 0);
    assert_eq!(searchsorted(&array, 1), 0);
    assert_eq!(searchsorted(&array, 3), 2);
    assert_eq!(searchsorted(&array, 4), 3);
    assert_eq!(searchsorted(&array, 5), 3);
    assert_eq!(searchsorted(&array, 6), 4);
    assert_eq!(searchsorted(&array, 7), 5);
    assert_eq!(batch_searchsorted(&array, &array), vec![0, 1, 2, 3, 4]);
}
