use parse_version::{Version, VersionPart};

#[test]
fn roundtrip_all_numbers() {
    let mut version = Version::new();
    version.set_major(VersionPart::Num(10));
    version.set_minor(VersionPart::Num(0));
    version.set_patch(VersionPart::Num(304));

    let text = version.to_string();
    assert_eq!(text, "10.0.304");

    let back = Version::parse(&text);
    assert_eq!(back.major(), &VersionPart::Num(10));
    assert_eq!(back.minor(), &VersionPart::Num(0));
    assert_eq!(back.patch(), &VersionPart::Num(304));
}

#[test]
fn set_then_get_wildcard() {
    let mut version = Version::parse("1.2.3");

    version.set_minor(VersionPart::Wildcard);

    assert_eq!(version.major(), &VersionPart::Num(1));
    assert_eq!(version.minor(), &VersionPart::Wildcard);
    assert_eq!(version.patch(), &VersionPart::Num(3));
}

#[test]
fn component_equality() {
    assert_ne!(VersionPart::Num(2), VersionPart::Wildcard);
    assert_eq!(VersionPart::Num(2), VersionPart::Num(2));
    assert_ne!(VersionPart::Num(2), VersionPart::Num(3));
    assert_eq!(VersionPart::Wildcard, VersionPart::Wildcard);
}

#[test]
fn bump_major_wildcard_is_noop() {
    let mut version = Version::parse("*.2.3");

    version.bump_major();

    assert_eq!(version.major(), &VersionPart::Wildcard);
    assert_eq!(version.minor(), &VersionPart::Num(2));
    assert_eq!(version.patch(), &VersionPart::Num(3));
}

#[test]
fn bump_minor_wildcard_still_resets_patch() {
    let mut version = Version::parse("1.*.3");

    version.bump_minor();

    assert_eq!(version.major(), &VersionPart::Num(1));
    assert_eq!(version.minor(), &VersionPart::Wildcard);
    assert_eq!(version.patch(), &VersionPart::Num(0));
}

#[test]
fn bump_patch_wildcard_is_noop() {
    let mut version = Version::parse("1.2.*");

    version.bump_patch();

    assert_eq!(version.major(), &VersionPart::Num(1));
    assert_eq!(version.minor(), &VersionPart::Num(2));
    assert_eq!(version.patch(), &VersionPart::Wildcard);
}

#[test]
fn extra_parts_are_ignored() {
    let version = Version::parse("1.2.3.4.5");
    assert_eq!(version.major(), &VersionPart::Num(1));
    assert_eq!(version.minor(), &VersionPart::Num(2));
    assert_eq!(version.patch(), &VersionPart::Num(3));
}

#[test]
fn empty_fields_are_wildcards() {
    let version = Version::parse("..");
    assert_eq!(version.major(), &VersionPart::Wildcard);
    assert_eq!(version.minor(), &VersionPart::Wildcard);
    assert_eq!(version.patch(), &VersionPart::Wildcard);

    let trailing = Version::parse("1.2.");
    assert_eq!(trailing.major(), &VersionPart::Num(1));
    assert_eq!(trailing.minor(), &VersionPart::Num(2));
    assert_eq!(trailing.patch(), &VersionPart::Wildcard);
}

#[test]
fn non_numeric_fields_are_wildcards() {
    let version = Version::parse("abc.2.x9");
    assert_eq!(version.major(), &VersionPart::Wildcard);
    assert_eq!(version.minor(), &VersionPart::Num(2));
    assert_eq!(version.patch(), &VersionPart::Wildcard);
}

#[test]
fn signs_and_spaces_are_rejected() {
    let version = Version::parse("+1. 2.-3");
    assert_eq!(version.major(), &VersionPart::Wildcard);
    assert_eq!(version.minor(), &VersionPart::Wildcard);
    assert_eq!(version.patch(), &VersionPart::Wildcard);
}

#[test]
fn leading_zeros_parse_as_numbers() {
    let version = Version::parse("007.08.9");
    assert_eq!(version.major(), &VersionPart::Num(7));
    assert_eq!(version.minor(), &VersionPart::Num(8));
    assert_eq!(version.patch(), &VersionPart::Num(9));
}

#[test]
fn largest_number_parses_and_overflow_is_wildcard() {
    let version = Version::parse("18446744073709551615.2.18446744073709551616");
    assert_eq!(version.major(), &VersionPart::Num(usize::MAX));
    assert_eq!(version.minor(), &VersionPart::Num(2));
    assert_eq!(version.patch(), &VersionPart::Wildcard);
}

#[test]
fn non_ascii_input_is_handled() {
    let version = Version::parse("\u{3b1}.2.\u{3b2}");
    assert_eq!(version.major(), &VersionPart::Wildcard);
    assert_eq!(version.minor(), &VersionPart::Num(2));
    assert_eq!(version.patch(), &VersionPart::Wildcard);
}

#[test]
fn default_is_all_wildcards() {
    let version = Version::default();
    assert_eq!(version.major(), &VersionPart::Wildcard);
    assert_eq!(version.minor(), &VersionPart::Wildcard);
    assert_eq!(version.patch(), &VersionPart::Wildcard);
    assert_eq!(version.to_string(), "*.*.*");
}

#[test]
fn component_text() {
    assert_eq!(VersionPart::Num(0).to_string(), "0");
    assert_eq!(VersionPart::Num(42).to_string(), "42");
    assert_eq!(VersionPart::Num(1000).to_string(), "1000");
    assert_eq!(VersionPart::Wildcard.to_string(), "*");
}
