use medialog::diagnostic::Diagnostic;
use medialog::schema::{CategoryTag, SeasonField, Status, CATEGORY_COUNT};
use medialog::text::{key_of, same_text};

#[test]
fn category_names_are_read_back() {
    for tag in CategoryTag::all() {
        assert_eq!(CategoryTag::parse(tag.name()), Ok(tag));
    }
}

#[test]
fn category_names_are_the_fixed_ones() {
    let names: Vec<&str> = CategoryTag::all().into_iter().map(|tag| tag.name()).collect();
    assert_eq!(names, vec!["series", "movie", "book", "podcast", "game", "manga"]);
}

#[test]
fn category_order_is_fixed() {
    let tags = CategoryTag::all();
    assert_eq!(tags.len(), CATEGORY_COUNT);
    for (index, tag) in tags.iter().enumerate() {
        assert_eq!(tag.index(), index);
        assert_eq!(CategoryTag::at(index), *tag);
    }
}

#[test]
fn unknown_category_is_invalid() {
    assert_eq!(CategoryTag::parse("movies"), Err(Diagnostic::InvalidCategory));
    assert_eq!(CategoryTag::parse(""), Err(Diagnostic::InvalidCategory));
    assert_eq!(CategoryTag::parse("Series"), Err(Diagnostic::InvalidCategory));
    assert_eq!(CategoryTag::parse("all"), Err(Diagnostic::InvalidCategory));
}

#[test]
fn status_names_are_read_back() {
    let all = [
        Status::Planned,
        Status::InProgress,
        Status::Completed,
        Status::Paused,
        Status::Dropped,
    ];
    for status in all {
        assert_eq!(Status::parse(status.name()), Ok(status));
    }
    assert_eq!(Status::Planned.name(), "planned");
    assert_eq!(Status::InProgress.name(), "in-progress");
    assert_eq!(Status::Completed.name(), "completed");
    assert_eq!(Status::Paused.name(), "paused");
    assert_eq!(Status::Dropped.name(), "dropped");
}

#[test]
fn unknown_status_is_invalid() {
    assert_eq!(Status::parse("done"), Err(Diagnostic::InvalidStatus));
    assert_eq!(Status::parse("p"), Err(Diagnostic::InvalidStatus));
    assert_eq!(Status::parse("PLANNED"), Err(Diagnostic::InvalidStatus));
}

#[test]
fn field_names_are_read_back() {
    let all = [SeasonField::Studio, SeasonField::Rating, SeasonField::Notes, SeasonField::Json];
    for field in all {
        assert_eq!(SeasonField::parse(field.name()), Ok(field));
    }
    assert_eq!(SeasonField::parse("studio"), Ok(SeasonField::Studio));
    assert_eq!(SeasonField::parse("rating"), Ok(SeasonField::Rating));
    assert_eq!(SeasonField::parse("notes"), Ok(SeasonField::Notes));
    assert_eq!(SeasonField::parse("json"), Ok(SeasonField::Json));
}

#[test]
fn unknown_field_is_invalid() {
    assert_eq!(SeasonField::parse("disname"), Err(Diagnostic::InvalidField));
    assert_eq!(SeasonField::parse(""), Err(Diagnostic::InvalidField));
}

#[test]
fn key_is_the_name_in_ascii_lower_case() {
    assert_eq!(key_of("Breaking Bad"), "breaking bad");
    assert_eq!(key_of("ABCXYZ"), "abcxyz");
    assert_eq!(key_of("@[`{09"), "@[`{09");
    assert_eq!(key_of(""), "");
}

#[test]
fn key_keeps_letters_outside_ascii() {
    assert_eq!(key_of("\u{c9}T\u{c9}"), "\u{c9}t\u{c9}");
}

#[test]
fn key_of_a_key_is_the_key() {
    for name in ["Dark", "THE WIRE", "m\u{dc}ller", "x"] {
        let key = key_of(name);
        assert_eq!(key_of(&key), key);
    }
}

#[test]
fn same_text_compares_characters() {
    assert!(same_text("abc", "abc"));
    assert!(!same_text("abc", "abd"));
    assert!(!same_text("abc", "ab"));
    assert!(same_text("", ""));
}
