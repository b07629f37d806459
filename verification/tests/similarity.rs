use medialog::model::Category;
use medialog::schema::Status;
use medialog::similarity::{
    first_highest, pick_suggestion, scores_for, suggest, Similarity, Suggestion, ONE_BITS,
    THRESHOLD_BITS,
};

fn score(value: f64) -> Similarity {
    Similarity::from_bits(value.to_bits()).unwrap()
}

fn category(names: &[&str]) -> Category {
    let mut category = Category::new();
    for name in names {
        category.insert_item(name, name, Status::Planned).unwrap();
    }
    category
}

#[test]
fn named_bit_patterns() {
    assert_eq!(ONE_BITS, 1.0f64.to_bits());
    assert_eq!(THRESHOLD_BITS, 0.80f64.to_bits());
}

#[test]
fn similarity_is_the_jaro_similarity() {
    for (a, b) in [("martha", "marhta"), ("dark", "darl"), ("abc", "xyz"), ("", ""), ("a", "")] {
        assert_eq!(Similarity::between(a, b).bits(), strsim::jaro(a, b).to_bits());
    }
}

#[test]
fn similarity_of_equal_texts_is_one() {
    assert_eq!(Similarity::between("dark", "dark").bits(), ONE_BITS);
    assert_eq!(Similarity::between("dark", "dark").percent(), 100);
}

#[test]
fn similarity_of_texts_with_nothing_in_common_is_zero() {
    assert_eq!(Similarity::between("abc", "xyz").bits(), 0);
    assert_eq!(Similarity::between("abc", "xyz").percent(), 0);
}

#[test]
fn from_bits_takes_patterns_up_to_one() {
    assert!(Similarity::from_bits(0).is_some());
    assert!(Similarity::from_bits(ONE_BITS).is_some());
    assert!(Similarity::from_bits(ONE_BITS + 1).is_none());
    assert!(Similarity::from_bits((-0.5f64).to_bits()).is_none());
    assert!(Similarity::from_bits(f64::NAN.to_bits()).is_none());
}

#[test]
fn percent_is_cut_off_not_rounded() {
    assert_eq!(score(0.999).percent(), 99);
    assert_eq!(score(0.9444444444444445).percent(), 94);
    assert_eq!(score(0.8333333333333334).percent(), 83);
    assert_eq!(score(0.5).percent(), 50);
    assert_eq!(score(0.25).percent(), 25);
    assert_eq!(score(0.125).percent(), 12);
    assert_eq!(score(0.0099).percent(), 0);
    assert_eq!(score(0.01).percent(), 1);
    assert_eq!(score(1.0).percent(), 100);
    assert_eq!(score(0.0).percent(), 0);
}

#[test]
fn percent_of_very_small_numbers_is_zero() {
    assert_eq!(score(1e-300).percent(), 0);
    assert_eq!(score(f64::MIN_POSITIVE).percent(), 0);
    assert_eq!(score(5e-324).percent(), 0);
    assert_eq!(score(1e-18).percent(), 0);
    assert_eq!(score(1e-19).percent(), 0);
    assert_eq!(score(1e-20).percent(), 0);
}

#[test]
fn percent_is_of_the_number_held() {
    // The double nearest to 0.83 lies below 0.83.
    assert_eq!(score(0.83).percent(), 82);
    // The double nearest to 0.57 lies below 0.57.
    assert_eq!(score(0.57).percent(), 56);
    // The double nearest to 0.9 lies above 0.9.
    assert_eq!(score(0.9).percent(), 90);
}

#[test]
fn threshold_is_not_itself_above_the_threshold() {
    assert!(!score(0.80).exceeds_threshold());
    assert!(!score(0.7999999).exceeds_threshold());
    assert!(score(0.8000000000000002).exceeds_threshold());
    assert!(score(1.0).exceeds_threshold());
    assert!(!score(0.0).exceeds_threshold());
}

#[test]
fn first_highest_takes_the_first_of_equal_scores() {
    assert_eq!(first_highest(&Vec::new()), None);
    assert_eq!(first_highest(&vec![score(0.5)]), Some(0));
    assert_eq!(first_highest(&vec![score(0.5), score(0.9), score(0.9), score(0.1)]), Some(1));
    assert_eq!(first_highest(&vec![score(0.0), score(0.0)]), Some(0));
    assert_eq!(first_highest(&vec![score(0.1), score(0.2), score(0.3)]), Some(2));
}

#[test]
fn pick_suggestion_needs_a_score_above_the_threshold() {
    let items = category(&["Alpha", "Beta"]);
    assert_eq!(pick_suggestion(&items, &vec![score(0.80), score(0.5)]), None);
    assert_eq!(
        pick_suggestion(&items, &vec![score(0.5), score(0.81)]),
        Some(Suggestion { display_name: String::from("Beta"), percent: 81 })
    );
}

#[test]
fn pick_suggestion_takes_the_first_of_equal_scores() {
    let items = category(&["Alpha", "Beta", "Gamma"]);
    assert_eq!(
        pick_suggestion(&items, &vec![score(0.875), score(0.96875), score(0.96875)]),
        Some(Suggestion { display_name: String::from("Beta"), percent: 96 })
    );
}

#[test]
fn pick_suggestion_of_an_empty_category_is_none() {
    assert_eq!(pick_suggestion(&Category::new(), &Vec::new()), None);
}

#[test]
fn scores_are_of_the_keys() {
    let items = category(&["Dark", "Heat"]);
    let scores = scores_for("dark", &items);
    assert_eq!(scores.len(), 2);
    assert_eq!(scores[0].bits(), ONE_BITS);
    assert_eq!(scores[1].bits(), strsim::jaro("dark", "heat").to_bits());
}

#[test]
fn suggest_names_the_item_most_alike() {
    let items = category(&["Breaking Bad", "Better Call Saul", "Dark"]);
    assert_eq!(
        suggest("breaking bac", &items),
        Some(Suggestion { display_name: String::from("Breaking Bad"), percent: 94 })
    );
}

#[test]
fn suggest_gives_the_display_name_not_the_key() {
    let mut items = Category::new();
    items.insert_item("the wire", "The Wire (2002)", Status::Planned).unwrap();
    assert_eq!(
        suggest("the wirr", &items),
        Some(Suggestion { display_name: String::from("The Wire (2002)"), percent: 91 })
    );
}

#[test]
fn suggest_is_silent_for_a_name_unlike_any() {
    let items = category(&["Breaking Bad", "Dark"]);
    assert_eq!(suggest("zzzzqqqq", &items), None);
    assert_eq!(suggest("dork", &Category::new()), None);
}

struct Dice(u64);

impl Dice {
    fn roll(&mut self, sides: u64) -> u64 {
        self.0 = self.0.wrapping_mul(6364136223846793005).wrapping_add(1442695040888963407);
        (self.0 >> 33) % sides
    }

    fn word(&mut self) -> String {
        let length = self.roll(9);
        let mut word = String::new();
        for _ in 0..length {
            word.push(['a', 'b', 'c', 'd', '\u{e9}'][self.roll(5) as usize]);
        }
        word
    }
}

#[test]
fn similarity_of_many_pairs_is_from_zero_to_one() {
    let mut dice = Dice(2024);
    for _ in 0..20000 {
        let a = dice.word();
        let b = dice.word();
        let similarity = Similarity::between(&a, &b);
        assert!(similarity.bits() <= ONE_BITS, "{:?} {:?}", a, b);
        let value = f64::from_bits(similarity.bits());
        assert!((0.0..=1.0).contains(&value), "{:?} {:?}", a, b);
        let percent = similarity.percent();
        assert!(percent <= 100);
        assert!(f64::from(percent) <= value * 100.0 + 1e-9, "{:?} {:?}", a, b);
        assert!(f64::from(percent) + 1.0 > value * 100.0 - 1e-9, "{:?} {:?}", a, b);
        assert_eq!(Similarity::from_bits(similarity.bits()), Some(similarity));
    }
}

#[test]
fn order_of_bit_patterns_is_the_order_of_the_numbers() {
    let values = [0.0, 5e-324, 1e-300, 0.01, 0.5, 0.7999999, 0.8, 0.8000001, 0.99, 1.0];
    for pair in values.windows(2) {
        assert!(pair[0] < pair[1]);
        assert!(score(pair[0]).bits() < score(pair[1]).bits());
    }
}
