use medialog::model::{Category, Document, FieldValue, Item};
use medialog::query::{next, next_planned, rank, sort_by_rating, walk, RankRecord, RankScope};
use medialog::schema::{CategoryTag, Status};

fn record(item: &str, season: &str, rating: i32) -> RankRecord {
    RankRecord { item: String::from(item), season: String::from(season), rating }
}

fn rated(document: &mut Document, tag: CategoryTag, item: &str, season: &str, rating: i32) {
    if !document.has_item(tag, item) {
        document.insert_item(tag, item, item, Status::Planned).unwrap();
    }
    document.insert_season(tag, item, season, season, "").unwrap();
    document.set_season_field(tag, item, season, "rating", FieldValue::Number(rating)).unwrap();
}

#[test]
fn next_is_the_first_planned_item() {
    let mut document = Document::new();
    document.insert_item(CategoryTag::Book, "a", "A", Status::Completed).unwrap();
    document.insert_item(CategoryTag::Book, "b", "B", Status::Planned).unwrap();
    document.insert_item(CategoryTag::Book, "c", "C", Status::Planned).unwrap();
    assert_eq!(next(&document, CategoryTag::Book), Some(String::from("B")));
    assert_eq!(next_planned(document.category(CategoryTag::Book)), Some(1));
}

#[test]
fn next_of_an_empty_category_is_none() {
    let document = Document::new();
    assert_eq!(next(&document, CategoryTag::Book), None);
    assert_eq!(next_planned(&Category::new()), None);
}

#[test]
fn next_looks_at_one_category_only() {
    let mut document = Document::new();
    document.insert_item(CategoryTag::Movie, "a", "A", Status::Planned).unwrap();
    assert_eq!(next(&document, CategoryTag::Book), None);
    assert_eq!(next(&document, CategoryTag::Movie), Some(String::from("A")));
}

#[test]
fn next_passes_over_every_status_but_planned() {
    let mut document = Document::new();
    let others = [Status::InProgress, Status::Completed, Status::Paused, Status::Dropped];
    for (i, status) in others.into_iter().enumerate() {
        let name = format!("n{}", i);
        document.insert_item(CategoryTag::Game, &name, &name, status).unwrap();
    }
    assert_eq!(next(&document, CategoryTag::Game), None);
    document.insert_item(CategoryTag::Game, "last", "Last", Status::Planned).unwrap();
    assert_eq!(next(&document, CategoryTag::Game), Some(String::from("Last")));
}

#[test]
fn walk_leaves_out_unrated_seasons() {
    let mut document = Document::new();
    rated(&mut document, CategoryTag::Series, "a", "s1", 4);
    rated(&mut document, CategoryTag::Series, "a", "s2", 0);
    rated(&mut document, CategoryTag::Series, "a", "s3", -1);
    assert_eq!(
        walk(&document, RankScope::Only(CategoryTag::Series)),
        vec![record("a", "s1", 4), record("a", "s3", -1)]
    );
}

#[test]
fn walk_of_all_goes_by_the_fixed_order_of_categories() {
    let mut document = Document::new();
    rated(&mut document, CategoryTag::Manga, "m", "v1", 1);
    rated(&mut document, CategoryTag::Book, "b", "v1", 2);
    rated(&mut document, CategoryTag::Series, "s", "v1", 3);
    rated(&mut document, CategoryTag::Game, "g", "v1", 4);
    rated(&mut document, CategoryTag::Podcast, "p", "v1", 5);
    rated(&mut document, CategoryTag::Movie, "f", "v1", 6);
    assert_eq!(
        walk(&document, RankScope::All),
        vec![
            record("s", "v1", 3),
            record("f", "v1", 6),
            record("b", "v1", 2),
            record("p", "v1", 5),
            record("g", "v1", 4),
            record("m", "v1", 1),
        ]
    );
}

#[test]
fn walk_uses_display_names() {
    let mut document = Document::new();
    document.insert_item(CategoryTag::Series, "dark", "Dark", Status::Planned).unwrap();
    document.insert_season(CategoryTag::Series, "dark", "s1", "Season One", "").unwrap();
    document
        .set_season_field(CategoryTag::Series, "dark", "s1", "rating", FieldValue::Number(8))
        .unwrap();
    assert_eq!(walk(&document, RankScope::All), vec![record("Dark", "Season One", 8)]);
}

#[test]
fn sort_is_by_falling_rating() {
    let sorted = sort_by_rating(vec![record("a", "1", 5), record("b", "1", 9), record("c", "1", 3)]);
    assert_eq!(sorted, vec![record("b", "1", 9), record("a", "1", 5), record("c", "1", 3)]);
}

#[test]
fn sort_keeps_the_order_of_equal_ratings() {
    let sorted = sort_by_rating(vec![
        record("a", "1", 5),
        record("b", "1", 7),
        record("c", "1", 5),
        record("d", "1", 7),
        record("e", "1", 5),
    ]);
    assert_eq!(
        sorted,
        vec![
            record("b", "1", 7),
            record("d", "1", 7),
            record("a", "1", 5),
            record("c", "1", 5),
            record("e", "1", 5),
        ]
    );
}

#[test]
fn sort_of_nothing_is_nothing() {
    assert_eq!(sort_by_rating(Vec::new()), Vec::new());
}

#[test]
fn sort_of_negative_ratings() {
    let sorted = sort_by_rating(vec![
        record("a", "1", -5),
        record("b", "1", i32::MAX),
        record("c", "1", i32::MIN),
        record("d", "1", 1),
    ]);
    let ratings: Vec<i32> = sorted.iter().map(|r| r.rating).collect();
    assert_eq!(ratings, vec![i32::MAX, 1, -5, i32::MIN]);
}

#[test]
fn rank_of_one_category_leaves_the_others_out() {
    let mut document = Document::new();
    rated(&mut document, CategoryTag::Series, "a", "s1", 4);
    rated(&mut document, CategoryTag::Movie, "b", "s1", 9);
    assert_eq!(rank(&document, RankScope::Only(CategoryTag::Series)), vec![record("a", "s1", 4)]);
    assert_eq!(rank(&document, RankScope::Only(CategoryTag::Book)), Vec::new());
}

#[test]
fn rank_of_all_ties_stand_in_walk_order() {
    let mut document = Document::new();
    rated(&mut document, CategoryTag::Manga, "m", "v1", 7);
    rated(&mut document, CategoryTag::Series, "s", "v1", 7);
    rated(&mut document, CategoryTag::Series, "s", "v2", 9);
    rated(&mut document, CategoryTag::Series, "s", "v3", 7);
    assert_eq!(
        rank(&document, RankScope::All),
        vec![
            record("s", "v2", 9),
            record("s", "v1", 7),
            record("s", "v3", 7),
            record("m", "v1", 7),
        ]
    );
}

#[test]
fn rank_does_not_change_the_document() {
    let mut document = Document::new();
    rated(&mut document, CategoryTag::Series, "a", "s1", 4);
    let before = document.clone();
    rank(&document, RankScope::All);
    next(&document, CategoryTag::Series);
    assert_eq!(document, before);
}

#[test]
fn item_without_seasons_gives_no_record() {
    let mut document = Document::new();
    document.insert_item(CategoryTag::Series, "a", "A", Status::Planned).unwrap();
    assert_eq!(rank(&document, RankScope::All), Vec::new());
    let item = Item::new("A", Status::Planned);
    assert_eq!(item.season_count(), 0);
}
