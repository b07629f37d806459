use medialog::command::{
    add, add_season, apply_field_text, apply_item_text, edit, edit_season, edit_status,
    list_categories, next_item, parse_command, parse_scope, rank_seasons, run, Command, Outcome,
    Rejection,
};
use medialog::diagnostic::Diagnostic;
use medialog::model::Document;
use medialog::query::{RankRecord, RankScope};
use medialog::schema::{CategoryTag, Status};
use medialog::similarity::Suggestion;

fn arguments(words: &[&str]) -> Vec<String> {
    words.iter().map(|word| String::from(*word)).collect()
}

fn turned_down(diagnostic: Diagnostic) -> Rejection {
    Rejection { diagnostic, suggestion: None }
}

fn no_editor(_shown: String) -> String {
    panic!("the editor must not be opened")
}

fn library() -> Document {
    let mut document = Document::new();
    add(&mut document, "Breaking Bad", CategoryTag::Series).unwrap();
    add(&mut document, "Dark", CategoryTag::Series).unwrap();
    add_season(&mut document, "S1", "dark", CategoryTag::Series, "netflix").unwrap();
    document
}

#[test]
fn parse_add_keeps_the_name_as_written() {
    assert_eq!(
        parse_command(&arguments(&["ADD", "Breaking Bad", "Series"])),
        Ok(Command::Add { name: String::from("Breaking Bad"), category: CategoryTag::Series })
    );
}

#[test]
fn parse_edit_lowers_the_name() {
    assert_eq!(
        parse_command(&arguments(&["edit", "Breaking Bad", "series"])),
        Ok(Command::Edit { name: String::from("breaking bad"), category: CategoryTag::Series })
    );
}

#[test]
fn parse_editstatus() {
    assert_eq!(
        parse_command(&arguments(&["editstatus", "Completed", "Dark", "series"])),
        Ok(Command::EditStatus {
            status: Status::Completed,
            name: String::from("dark"),
            category: CategoryTag::Series,
        })
    );
}

#[test]
fn parse_editstatus_looks_at_the_category_before_the_status() {
    assert_eq!(
        parse_command(&arguments(&["editstatus", "finished", "dark", "films"])),
        Err(Diagnostic::InvalidCategory)
    );
    assert_eq!(
        parse_command(&arguments(&["editstatus", "finished", "dark", "series"])),
        Err(Diagnostic::InvalidStatus)
    );
}

#[test]
fn parse_addseason_without_studio() {
    assert_eq!(
        parse_command(&arguments(&["addseason", "S1", "Dark", "series"])),
        Ok(Command::AddSeason {
            season: String::from("S1"),
            name: String::from("dark"),
            category: CategoryTag::Series,
            studio: String::new(),
        })
    );
}

#[test]
fn parse_addseason_with_studio() {
    assert_eq!(
        parse_command(&arguments(&["addseason", "S1", "Dark", "series", "Netflix"])),
        Ok(Command::AddSeason {
            season: String::from("S1"),
            name: String::from("dark"),
            category: CategoryTag::Series,
            studio: String::from("netflix"),
        })
    );
}

#[test]
fn parse_addseason_takes_the_studio_only_where_one_argument_follows() {
    assert_eq!(
        parse_command(&arguments(&["addseason", "S1", "Dark", "series", "Netflix", "more"])),
        Ok(Command::AddSeason {
            season: String::from("S1"),
            name: String::from("dark"),
            category: CategoryTag::Series,
            studio: String::new(),
        })
    );
}

#[test]
fn parse_editseason_leaves_the_field_unread() {
    assert_eq!(
        parse_command(&arguments(&["editseason", "S1", "Year", "Dark", "series"])),
        Ok(Command::EditSeason {
            season: String::from("s1"),
            field: String::from("year"),
            name: String::from("dark"),
            category: CategoryTag::Series,
        })
    );
}

#[test]
fn parse_next_rank_categories_help() {
    assert_eq!(
        parse_command(&arguments(&["next", "Manga"])),
        Ok(Command::Next { category: CategoryTag::Manga })
    );
    assert_eq!(
        parse_command(&arguments(&["rank", "ALL"])),
        Ok(Command::Rank { scope: RankScope::All })
    );
    assert_eq!(
        parse_command(&arguments(&["rank", "book"])),
        Ok(Command::Rank { scope: RankScope::Only(CategoryTag::Book) })
    );
    assert_eq!(parse_command(&arguments(&["Categories"])), Ok(Command::Categories));
    assert_eq!(parse_command(&arguments(&["help", "me"])), Ok(Command::Help));
}

#[test]
fn parse_nothing_is_insufficient_arguments() {
    assert_eq!(parse_command(&Vec::new()), Err(Diagnostic::InsufficientArguments));
}

#[test]
fn parse_unknown_command_is_invalid_command() {
    assert_eq!(parse_command(&arguments(&["remove", "x", "series"])), Err(Diagnostic::InvalidCommand));
    assert_eq!(parse_command(&arguments(&[""])), Err(Diagnostic::InvalidCommand));
}

#[test]
fn parse_too_few_arguments_is_insufficient_arguments() {
    for words in [
        vec!["add"],
        vec!["add", "x"],
        vec!["edit", "x"],
        vec!["editstatus", "planned", "x"],
        vec!["addseason", "s1", "x"],
        vec!["editseason", "s1", "rating", "x"],
        vec!["next"],
        vec!["rank"],
    ] {
        assert_eq!(parse_command(&arguments(&words)), Err(Diagnostic::InsufficientArguments));
    }
}

#[test]
fn parse_looks_at_the_count_before_the_category() {
    assert_eq!(parse_command(&arguments(&["add", "films"])), Err(Diagnostic::InsufficientArguments));
}

#[test]
fn parse_unknown_category_is_invalid_category() {
    for words in [
        vec!["add", "x", "films"],
        vec!["edit", "x", "films"],
        vec!["editstatus", "planned", "x", "films"],
        vec!["addseason", "s1", "x", "films"],
        vec!["editseason", "s1", "rating", "x", "films"],
        vec!["next", "films"],
        vec!["next", "all"],
        vec!["rank", "films"],
    ] {
        assert_eq!(parse_command(&arguments(&words)), Err(Diagnostic::InvalidCategory));
    }
}

#[test]
fn parse_scope_reads_all_and_categories() {
    assert_eq!(parse_scope("all"), Ok(RankScope::All));
    assert_eq!(parse_scope("game"), Ok(RankScope::Only(CategoryTag::Game)));
    assert_eq!(parse_scope("everything"), Err(Diagnostic::InvalidCategory));
}

#[test]
fn add_files_the_item_under_its_lower_case_name() {
    let mut document = Document::new();
    assert_eq!(add(&mut document, "Breaking Bad", CategoryTag::Series), Ok(Outcome::Added));
    let item = document.get_item(CategoryTag::Series, "breaking bad").unwrap();
    assert_eq!(item.display_name(), "Breaking Bad");
    assert_eq!(item.status(), Status::Planned);
    assert_eq!(document.category(CategoryTag::Series).key(0), "breaking bad");
}

#[test]
fn add_of_a_taken_name_is_duplicate_item() {
    let mut document = library();
    let before = document.clone();
    assert_eq!(
        add(&mut document, "DARK", CategoryTag::Series),
        Err(turned_down(Diagnostic::DuplicateItem))
    );
    assert_eq!(document, before);
}

#[test]
fn edit_status_sets_the_status() {
    let mut document = library();
    assert_eq!(
        edit_status(&mut document, Status::Paused, "dark", CategoryTag::Series),
        Ok(Outcome::StatusChanged)
    );
    assert_eq!(document.get_item(CategoryTag::Series, "dark").unwrap().status(), Status::Paused);
}

#[test]
fn edit_status_of_an_absent_item_makes_no_suggestion() {
    let mut document = library();
    let before = document.clone();
    assert_eq!(
        edit_status(&mut document, Status::Paused, "darc", CategoryTag::Series),
        Err(turned_down(Diagnostic::ItemNotFound))
    );
    assert_eq!(document, before);
}

#[test]
fn add_season_files_the_season_under_its_lower_case_name() {
    let document = library();
    let item = document.get_item(CategoryTag::Series, "dark").unwrap();
    assert_eq!(item.season_key(0), "s1");
    let season = item.get_season("s1").unwrap();
    assert_eq!(season.display_name, "S1");
    assert_eq!(season.studio, "netflix");
    assert_eq!(season.rating, 0);
    assert_eq!(season.notes, "");
}

#[test]
fn add_season_to_an_absent_item_is_item_not_found() {
    let mut document = library();
    let before = document.clone();
    assert_eq!(
        add_season(&mut document, "S1", "lost", CategoryTag::Series, ""),
        Err(turned_down(Diagnostic::ItemNotFound))
    );
    assert_eq!(document, before);
}

#[test]
fn add_season_twice_is_duplicate_season() {
    let mut document = library();
    let before = document.clone();
    assert_eq!(
        add_season(&mut document, "s1", "dark", CategoryTag::Series, "other"),
        Err(turned_down(Diagnostic::DuplicateSeason))
    );
    assert_eq!(document, before);
}

#[test]
fn edit_hands_the_item_to_the_editor() {
    let mut document = library();
    let outcome = edit(&mut document, "dark", CategoryTag::Series, |shown: String| {
        assert_eq!(
            shown,
            "{\"disname\":\"Dark\",\"status\":\"planned\",\"s1\":{\"disname\":\"S1\",\"studio\":\"netflix\",\"rating\":0,\"notes\":\"\"}}"
        );
        String::from("{\"disname\":\"DARK\",\"status\":\"completed\"}")
    });
    assert_eq!(outcome, Ok(Outcome::Edited));
    let item = document.get_item(CategoryTag::Series, "dark").unwrap();
    assert_eq!(item.display_name(), "DARK");
    assert_eq!(item.status(), Status::Completed);
    assert_eq!(item.season_count(), 0);
}

#[test]
fn edit_that_hands_the_text_back_changes_nothing() {
    let mut document = library();
    let before = document.clone();
    assert_eq!(
        edit(&mut document, "dark", CategoryTag::Series, |shown: String| shown),
        Ok(Outcome::Edited)
    );
    assert_eq!(document, before);
}

#[test]
fn edit_of_an_absent_item_does_not_open_the_editor() {
    let mut document = library();
    let before = document.clone();
    assert_eq!(
        edit(&mut document, "zzzz", CategoryTag::Series, no_editor),
        Err(turned_down(Diagnostic::ItemNotFound))
    );
    assert_eq!(document, before);
}

#[test]
fn edit_of_a_name_nearly_right_suggests_the_item() {
    let mut document = library();
    assert_eq!(
        edit(&mut document, "breaking bac", CategoryTag::Series, no_editor),
        Err(Rejection {
            diagnostic: Diagnostic::ItemNotFound,
            suggestion: Some(Suggestion { display_name: String::from("Breaking Bad"), percent: 94 }),
        })
    );
}

#[test]
fn edit_with_text_that_is_not_json_is_malformed_editor_output() {
    let mut document = library();
    let before = document.clone();
    assert_eq!(
        edit(&mut document, "dark", CategoryTag::Series, |_shown: String| String::from("{oops")),
        Err(turned_down(Diagnostic::MalformedEditorOutput))
    );
    assert_eq!(document, before);
}

#[test]
fn edit_with_text_that_holds_no_item_is_malformed_editor_output() {
    let mut document = library();
    let before = document.clone();
    assert_eq!(
        apply_item_text(&mut document, "dark", CategoryTag::Series, "{\"disname\":\"Dark\"}"),
        Err(turned_down(Diagnostic::MalformedEditorOutput))
    );
    assert_eq!(document, before);
}

#[test]
fn apply_item_text_looks_the_item_up_before_the_text() {
    let mut document = library();
    assert_eq!(
        apply_item_text(&mut document, "zzzz", CategoryTag::Series, "{oops"),
        Err(turned_down(Diagnostic::ItemNotFound))
    );
}

#[test]
fn edit_season_hands_the_field_to_the_editor() {
    let mut document = library();
    let outcome = edit_season(
        &mut document,
        "s1",
        "studio",
        "dark",
        CategoryTag::Series,
        |shown: String| {
            assert_eq!(shown, "\"netflix\"");
            String::from("\"Wiedemann & Berg\"")
        },
    );
    assert_eq!(outcome, Ok(Outcome::SeasonEdited));
    assert_eq!(
        document.get_item(CategoryTag::Series, "dark").unwrap().get_season("s1").unwrap().studio,
        "Wiedemann & Berg"
    );
}

#[test]
fn edit_season_json_replaces_the_season() {
    let mut document = library();
    let outcome = edit_season(
        &mut document,
        "s1",
        "json",
        "dark",
        CategoryTag::Series,
        |shown: String| {
            assert_eq!(
                shown,
                "{\"disname\":\"S1\",\"studio\":\"netflix\",\"rating\":0,\"notes\":\"\"}"
            );
            String::from("{\"disname\":\"One\",\"studio\":\"w\",\"rating\":10,\"notes\":\"n\"}")
        },
    );
    assert_eq!(outcome, Ok(Outcome::SeasonEdited));
    let item = document.get_item(CategoryTag::Series, "dark").unwrap();
    let season = item.get_season("s1").unwrap();
    assert_eq!(season.display_name, "One");
    assert_eq!(season.studio, "w");
    assert_eq!(season.rating, 10);
    assert_eq!(season.notes, "n");
}

#[test]
fn edit_season_json_with_a_field_missing_is_malformed_season() {
    let mut document = library();
    let before = document.clone();
    assert_eq!(
        apply_field_text(
            &mut document,
            "s1",
            "json",
            "dark",
            CategoryTag::Series,
            "{\"disname\":\"One\",\"studio\":\"w\",\"notes\":\"n\"}"
        ),
        Err(turned_down(Diagnostic::MalformedSeason))
    );
    assert_eq!(document, before);
}

#[test]
fn edit_season_rating_that_is_no_integer_is_malformed_season() {
    let mut document = library();
    let before = document.clone();
    for text in ["\"seven\"", "7.5", "null", "[7]"] {
        assert_eq!(
            apply_field_text(&mut document, "s1", "rating", "dark", CategoryTag::Series, text),
            Err(turned_down(Diagnostic::MalformedSeason))
        );
    }
    assert_eq!(document, before);
}

#[test]
fn edit_season_text_that_is_not_json_is_malformed_editor_output() {
    let mut document = library();
    let before = document.clone();
    assert_eq!(
        edit_season(&mut document, "s1", "notes", "dark", CategoryTag::Series, |_shown: String| {
            String::from("not quoted")
        }),
        Err(turned_down(Diagnostic::MalformedEditorOutput))
    );
    assert_eq!(document, before);
}

#[test]
fn edit_season_looks_for_item_then_season_then_field() {
    let mut document = library();
    assert_eq!(
        edit_season(&mut document, "s9", "year", "lost", CategoryTag::Series, no_editor),
        Err(turned_down(Diagnostic::ItemNotFound))
    );
    assert_eq!(
        edit_season(&mut document, "s9", "year", "dark", CategoryTag::Series, no_editor),
        Err(turned_down(Diagnostic::SeasonNotFound))
    );
    assert_eq!(
        edit_season(&mut document, "s1", "year", "dark", CategoryTag::Series, no_editor),
        Err(turned_down(Diagnostic::InvalidField))
    );
}

#[test]
fn edit_season_of_a_name_nearly_right_suggests_the_item() {
    let mut document = library();
    assert_eq!(
        edit_season(&mut document, "s1", "rating", "darl", CategoryTag::Series, no_editor),
        Err(Rejection {
            diagnostic: Diagnostic::ItemNotFound,
            suggestion: Some(Suggestion { display_name: String::from("Dark"), percent: 83 }),
        })
    );
}

#[test]
fn next_item_names_the_first_planned_item() {
    let mut document = library();
    assert_eq!(
        next_item(&document, CategoryTag::Series),
        Outcome::Next(String::from("Breaking Bad"))
    );
    edit_status(&mut document, Status::Completed, "breaking bad", CategoryTag::Series).unwrap();
    assert_eq!(next_item(&document, CategoryTag::Series), Outcome::Next(String::from("Dark")));
    assert_eq!(next_item(&document, CategoryTag::Book), Outcome::AllConsumed);
}

#[test]
fn rank_seasons_gives_the_ranking() {
    let mut document = library();
    add_season(&mut document, "S2", "dark", CategoryTag::Series, "").unwrap();
    apply_field_text(&mut document, "s1", "rating", "dark", CategoryTag::Series, "6").unwrap();
    apply_field_text(&mut document, "s2", "rating", "dark", CategoryTag::Series, "8").unwrap();
    assert_eq!(
        rank_seasons(&document, RankScope::All),
        Outcome::Ranked(vec![
            RankRecord { item: String::from("Dark"), season: String::from("S2"), rating: 8 },
            RankRecord { item: String::from("Dark"), season: String::from("S1"), rating: 6 },
        ])
    );
}

#[test]
fn list_categories_gives_the_fixed_set() {
    assert_eq!(list_categories(), Outcome::Categories(CategoryTag::all()));
}

#[test]
fn outcomes_that_change_the_document() {
    for outcome in [
        Outcome::Added,
        Outcome::Edited,
        Outcome::StatusChanged,
        Outcome::SeasonAdded,
        Outcome::SeasonEdited,
    ] {
        assert!(outcome.changes_document());
    }
    for outcome in [
        Outcome::Next(String::from("x")),
        Outcome::AllConsumed,
        Outcome::Ranked(Vec::new()),
        Outcome::Categories(Vec::new()),
        Outcome::Help,
    ] {
        assert!(!outcome.changes_document());
    }
}

#[test]
fn run_carries_out_each_command() {
    let mut document = Document::new();
    let steps: Vec<(Vec<&str>, Outcome)> = vec![
        (vec!["add", "Dark", "series"], Outcome::Added),
        (vec!["addseason", "S1", "dark", "series", "Netflix"], Outcome::SeasonAdded),
        (vec!["editstatus", "in-progress", "DARK", "series"], Outcome::StatusChanged),
        (vec!["next", "series"], Outcome::AllConsumed),
        (vec!["rank", "all"], Outcome::Ranked(Vec::new())),
        (vec!["categories"], Outcome::Categories(CategoryTag::all())),
        (vec!["help"], Outcome::Help),
    ];
    for (words, expected) in steps {
        let command = parse_command(&arguments(&words)).unwrap();
        assert_eq!(run(&mut document, command, no_editor), Ok(expected));
    }
    let command = parse_command(&arguments(&["editseason", "s1", "rating", "dark", "series"]));
    assert_eq!(
        run(&mut document, command.unwrap(), |_shown: String| String::from("9")),
        Ok(Outcome::SeasonEdited)
    );
    let command = parse_command(&arguments(&["edit", "dark", "series"]));
    assert_eq!(
        run(&mut document, command.unwrap(), |shown: String| shown.replace("Dark", "Dunkel")),
        Ok(Outcome::Edited)
    );
    let item = document.get_item(CategoryTag::Series, "dark").unwrap();
    assert_eq!(item.display_name(), "Dunkel");
    assert_eq!(item.status(), Status::InProgress);
    assert_eq!(item.get_season("s1").unwrap().rating, 9);
    assert_eq!(item.get_season("s1").unwrap().studio, "netflix");
}

#[test]
fn run_of_a_command_that_is_turned_down_changes_nothing() {
    let mut document = library();
    let before = document.clone();
    let command = parse_command(&arguments(&["add", "dark", "series"])).unwrap();
    assert_eq!(run(&mut document, command, no_editor), Err(turned_down(Diagnostic::DuplicateItem)));
    assert_eq!(document, before);
}
