use medialog::command::{
    add, add_season, edit, edit_season, edit_status, next_item, rank_seasons, Outcome, Rejection,
};
use medialog::diagnostic::Diagnostic;
use medialog::model::Document;
use medialog::query::{rank, RankRecord, RankScope};
use medialog::schema::{CategoryTag, Status};
use medialog::similarity::Suggestion;
use medialog::store::{document_from_text, document_to_text};

fn no_editor(_shown: String) -> String {
    panic!("the editor must not be opened")
}

#[test]
fn added_item_is_there_and_planned_in_every_category() {
    for tag in CategoryTag::all() {
        let mut document = Document::new();
        assert!(!document.has_item(tag, "Solaris"));
        assert_eq!(add(&mut document, "Solaris", tag), Ok(Outcome::Added));
        assert!(document.has_item(tag, "Solaris"));
        assert!(document.category(tag).has_item("solaris"));
        assert_eq!(document.get_item(tag, "solaris").unwrap().status(), Status::Planned);
    }
}

#[test]
fn adding_twice_leaves_the_document_unchanged() {
    let mut document = Document::new();
    add(&mut document, "Solaris", CategoryTag::Movie).unwrap();
    edit_status(&mut document, Status::Completed, "solaris", CategoryTag::Movie).unwrap();
    let before = document.clone();
    assert_eq!(
        add(&mut document, "Solaris", CategoryTag::Movie),
        Err(Rejection { diagnostic: Diagnostic::DuplicateItem, suggestion: None })
    );
    assert_eq!(document, before);
}

#[test]
fn rating_edited_to_seven_is_seven() {
    let mut document = Document::new();
    add(&mut document, "Dark", CategoryTag::Series).unwrap();
    add_season(&mut document, "S1", "dark", CategoryTag::Series, "").unwrap();
    assert_eq!(
        edit_season(&mut document, "s1", "rating", "dark", CategoryTag::Series, |shown: String| {
            assert_eq!(shown, "0");
            String::from("7")
        }),
        Ok(Outcome::SeasonEdited)
    );
    let item = document.get_item(CategoryTag::Series, "dark").unwrap();
    assert_eq!(item.get_season("s1").unwrap().rating, 7);
}

#[test]
fn unrated_seasons_never_appear_in_a_ranking() {
    let mut document = Document::new();
    add(&mut document, "Dark", CategoryTag::Series).unwrap();
    add_season(&mut document, "S1", "dark", CategoryTag::Series, "").unwrap();
    add_season(&mut document, "S2", "dark", CategoryTag::Series, "").unwrap();
    assert_eq!(rank(&document, RankScope::All), Vec::new());
    edit_season(&mut document, "s2", "rating", "dark", CategoryTag::Series, |_s: String| {
        String::from("7")
    })
    .unwrap();
    assert_eq!(
        rank(&document, RankScope::All),
        vec![RankRecord { item: String::from("Dark"), season: String::from("S2"), rating: 7 }]
    );
    edit_season(&mut document, "s2", "rating", "dark", CategoryTag::Series, |_s: String| {
        String::from("0")
    })
    .unwrap();
    assert_eq!(rank(&document, RankScope::All), Vec::new());
}

#[test]
fn rank_all_of_five_nine_zero_three() {
    let mut document = Document::new();
    let rated = [("Alpha", 5), ("Beta", 9), ("Gamma", 0), ("Delta", 3)];
    for (name, rating) in rated {
        add(&mut document, name, CategoryTag::Series).unwrap();
        add_season(&mut document, "S1", name, CategoryTag::Series, "").unwrap();
        let text = format!("{}", rating);
        edit_season(&mut document, "s1", "rating", name, CategoryTag::Series, move |_s: String| {
            text
        })
        .unwrap();
    }
    let expected = vec![
        RankRecord { item: String::from("Beta"), season: String::from("S1"), rating: 9 },
        RankRecord { item: String::from("Alpha"), season: String::from("S1"), rating: 5 },
        RankRecord { item: String::from("Delta"), season: String::from("S1"), rating: 3 },
    ];
    assert_eq!(rank_seasons(&document, RankScope::All), Outcome::Ranked(expected));
}

#[test]
fn next_until_all_consumed() {
    let mut document = Document::new();
    for name in ["One", "Two", "Three"] {
        add(&mut document, name, CategoryTag::Podcast).unwrap();
    }
    assert_eq!(next_item(&document, CategoryTag::Podcast), Outcome::Next(String::from("One")));
    edit_status(&mut document, Status::Dropped, "one", CategoryTag::Podcast).unwrap();
    assert_eq!(next_item(&document, CategoryTag::Podcast), Outcome::Next(String::from("Two")));
    edit_status(&mut document, Status::InProgress, "three", CategoryTag::Podcast).unwrap();
    assert_eq!(next_item(&document, CategoryTag::Podcast), Outcome::Next(String::from("Two")));
    edit_status(&mut document, Status::Paused, "two", CategoryTag::Podcast).unwrap();
    assert_eq!(next_item(&document, CategoryTag::Podcast), Outcome::AllConsumed);
    edit_status(&mut document, Status::Planned, "three", CategoryTag::Podcast).unwrap();
    assert_eq!(next_item(&document, CategoryTag::Podcast), Outcome::Next(String::from("Three")));
}

#[test]
fn one_letter_off_is_suggested_and_a_different_name_is_not() {
    let mut document = Document::new();
    add(&mut document, "Twin Peaks", CategoryTag::Series).unwrap();
    add(&mut document, "Fargo", CategoryTag::Series).unwrap();
    let before = document.clone();
    assert_eq!(
        edit(&mut document, "twin peeks", CategoryTag::Series, no_editor),
        Err(Rejection {
            diagnostic: Diagnostic::ItemNotFound,
            suggestion: Some(Suggestion { display_name: String::from("Twin Peaks"), percent: 93 }),
        })
    );
    assert_eq!(
        edit(&mut document, "xyzxyzxyz", CategoryTag::Series, no_editor),
        Err(Rejection { diagnostic: Diagnostic::ItemNotFound, suggestion: None })
    );
    assert_eq!(document, before);
}

#[test]
fn stored_and_loaded_again_is_the_same_document() {
    let mut document = Document::new();
    add(&mut document, "Twin Peaks", CategoryTag::Series).unwrap();
    add(&mut document, "Dune", CategoryTag::Book).unwrap();
    add(&mut document, "Berserk", CategoryTag::Manga).unwrap();
    add_season(&mut document, "Season 1", "twin peaks", CategoryTag::Series, "abc").unwrap();
    add_season(&mut document, "The Return", "twin peaks", CategoryTag::Series, "").unwrap();
    edit_status(&mut document, Status::Completed, "dune", CategoryTag::Book).unwrap();
    edit_season(
        &mut document,
        "the return",
        "json",
        "twin peaks",
        CategoryTag::Series,
        |_s: String| {
            String::from(
                "{\"disname\":\"The Return\",\"studio\":\"showtime\",\"rating\":10,\"notes\":\"got a light?\\n\"}",
            )
        },
    )
    .unwrap();
    let text = document_to_text(&document);
    let loaded = document_from_text(&text).unwrap();
    assert_eq!(loaded, document);
    assert_eq!(document_to_text(&loaded), text);
}

struct Dice(u64);

impl Dice {
    fn roll(&mut self, sides: u64) -> u64 {
        self.0 = self.0.wrapping_mul(6364136223846793005).wrapping_add(1442695040888963407);
        (self.0 >> 33) % sides
    }

    fn text(&mut self) -> String {
        let letters = [
            'a', 'B', 'z', '0', '9', ' ', '"', '\\', '/', '\n', '\t', '\r', '\u{8}', '\u{c}',
            '\u{1}', '\u{7f}', '\u{e9}', '\u{4e2d}', '\u{1f600}', '{', '}', ':', ',', '\'',
        ];
        let length = self.roll(12);
        let mut text = String::new();
        for _ in 0..length {
            text.push(letters[self.roll(letters.len() as u64) as usize]);
        }
        text
    }

    fn rating(&mut self) -> i32 {
        match self.roll(6) {
            0 => 0,
            1 => i32::MAX,
            2 => i32::MIN,
            3 => -(self.roll(1000) as i32),
            _ => self.roll(11) as i32,
        }
    }
}

#[test]
fn many_documents_are_the_same_after_storing_and_loading() {
    let mut dice = Dice(7);
    let statuses = [
        Status::Planned,
        Status::InProgress,
        Status::Completed,
        Status::Paused,
        Status::Dropped,
    ];
    for _ in 0..300 {
        let mut document = Document::new();
        for tag in CategoryTag::all() {
            for _ in 0..dice.roll(4) {
                let name = dice.text();
                let status = statuses[dice.roll(5) as usize];
                if document.insert_item(tag, &name, &name, status).is_err() {
                    continue;
                }
                for _ in 0..dice.roll(4) {
                    let season = dice.text();
                    let studio = dice.text();
                    if document.insert_season(tag, &name, &season, &season, &studio).is_err() {
                        continue;
                    }
                    let rating = medialog::model::FieldValue::Number(dice.rating());
                    document.set_season_field(tag, &name, &season, "rating", rating).unwrap();
                    let notes = medialog::model::FieldValue::Text(dice.text());
                    document.set_season_field(tag, &name, &season, "notes", notes).unwrap();
                }
            }
        }
        let text = document_to_text(&document);
        assert_eq!(document_from_text(&text), Ok(document), "{}", text);
    }
}
