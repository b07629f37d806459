//! The stored form of a document: JSON text, written and read by the `json`
//! crate.
//!
//! A document is stored as an object with one member for each category. A
//! category is an object with one member for each item, under the item's
//! key. An item is an object with the members `disname` and `status`,
//! followed by one member for each season, under the season's key. A season
//! is an object with the members `disname`, `studio`, `rating` and `notes`.
//!
//! What the `json` crate does is not proved here. It is stated in the
//! contracts of the private functions at the head of this file, over a few
//! names for what a JSON value holds. Everything below them is proved from
//! those contracts.

use vstd::prelude::*;
use vstd::utf8::encode_utf8;
use json::JsonValue;
use crate::diagnostic::Diagnostic;
use crate::model::{
    Category, CategoryView, Document, DocumentView, FieldValue, FieldValueView, Item, ItemView,
    Season, SeasonView, category_wf, document_wf, empty_document, has_key, is_reserved, item_wf,
    viewed,
};
use crate::schema::{
    CategoryTag, SeasonField, Status, CATEGORY_COUNT, all_categories, lemma_category_names,
    lemma_status_names,
};
use crate::text::{owned, same_text, spec_key};

verus! {

/// `json::JsonValue`: one JSON value. Nothing is known of what it holds but
/// what the functions below say.
#[verifier::external_type_specification]
#[verifier::external_body]
pub struct ExJsonValue(json::JsonValue);

/// `json::Error`: why a text could not be read. Nothing is known of it.
#[verifier::external_type_specification]
#[verifier::external_body]
pub struct ExJsonError(json::Error);

/// The value that a text is read as, where it is JSON.
pub uninterp spec fn json_parse(text: Seq<char>) -> Option<JsonValue>;

/// The value that a text is read as, where it can be read and is JSON.
pub open spec fn json_read(text: Seq<char>) -> Option<JsonValue> {
    if can_be_read(text) {
        json_parse(text)
    } else {
        None
    }
}

/// The text that a value is written as.
pub uninterp spec fn json_text(value: JsonValue) -> Seq<char>;

/// Whether a value is an object.
pub uninterp spec fn json_is_object(value: JsonValue) -> bool;

/// The members of an object, each with its key, in the order in which they
/// were put in.
pub uninterp spec fn json_members(value: JsonValue) -> Seq<(Seq<char>, JsonValue)>;

/// The text of a value that is a string.
pub uninterp spec fn json_string(value: JsonValue) -> Option<Seq<char>>;

/// The parts of a value that is a number: whether it is positive, its
/// decimal mantissa and its decimal exponent.
pub uninterp spec fn json_number(value: JsonValue) -> Option<(bool, u64, i16)>;

/// The most digits in a row that a text may hold if it is to be read. The
/// `json` crate counts the digits of a fraction in sixteen bits.
pub const MAX_DIGIT_RUN: usize = 32767;

/// Whether a byte is one of the digits `0` to `9`.
pub open spec fn is_digit(byte: u8) -> bool {
    0x30 <= byte && byte <= 0x39
}

/// The length of the run of digits that ends just before place `end`.
pub open spec fn digit_run(bytes: Seq<u8>, end: int) -> nat
    decreases end,
{
    if end <= 0 || end > bytes.len() || !is_digit(bytes[end - 1]) {
        0
    } else {
        1 + digit_run(bytes, end - 1)
    }
}

/// Whether a text can be read: no run of digits in it is longer than
/// `MAX_DIGIT_RUN`.
pub open spec fn can_be_read(text: Seq<char>) -> bool {
    forall|end: int|
        0 <= end <= encode_utf8(text).len() ==> #[trigger] digit_run(encode_utf8(text), end)
            <= MAX_DIGIT_RUN
}

/// Whether a text can be read.
pub fn check_digit_runs(text: &str) -> (r: bool)
    ensures
        r == can_be_read(text@),
{
    let bytes = text.as_bytes();
    let mut run: usize = 0;
    let mut i: usize = 0;
    while i < bytes.len()
        invariant
            i <= bytes@.len(),
            bytes@ == encode_utf8(text@),
            run == digit_run(bytes@, i as int),
            run <= MAX_DIGIT_RUN,
            forall|end: int| 0 <= end <= i ==> #[trigger] digit_run(bytes@, end) <= MAX_DIGIT_RUN,
        decreases bytes@.len() - i,
    {
        let byte: u8 = bytes[i];
        if 0x30 <= byte && byte <= 0x39 {
            if run == MAX_DIGIT_RUN {
                assert(digit_run(bytes@, i + 1) == MAX_DIGIT_RUN + 1);
                return false;
            }
            run += 1;
        } else {
            run = 0;
        }
        i += 1;
    }
    true
}

/// `json::parse`: reads a text as one JSON value, or fails. The same text
/// is read as the same value. Texts with too long a run of digits are left
/// out: on a fraction of more than 32768 digits the function may panic.
#[verifier::external_body]
fn parse(text: &str) -> (r: Result<JsonValue, json::Error>)
    requires
        can_be_read(text@),
    ensures
        r is Ok <==> json_parse(text@) is Some,
        r is Ok ==> r->Ok_0 == json_parse(text@)->Some_0,
{
    json::parse(text)
}

/// Reads a text as one JSON value. A text that cannot be read, or is not
/// JSON, gives `None`.
fn read(text: &str) -> (r: Option<JsonValue>)
    ensures
        r == json_read(text@),
{
    if !check_digit_runs(text) {
        return None;
    }
    match parse(text) {
        Ok(value) => Some(value),
        Err(_) => None,
    }
}

/// `json::stringify`: writes a value as JSON text. The same value is written
/// as the same text.
#[verifier::external_body]
fn stringify(value: JsonValue) -> (r: String)
    ensures
        r@ == json_text(value),
{
    json::stringify(value)
}

/// `JsonValue::is_object`: whether the value is an object.
#[verifier::external_body]
fn is_object(value: &JsonValue) -> (r: bool)
    ensures
        r == json_is_object(*value),
{
    value.is_object()
}

/// `JsonValue::entries`, gathered in a list: the members of the value with
/// their keys, in the order in which they were put in.
#[verifier::external_body]
fn members<'a>(value: &'a JsonValue) -> (r: Vec<(&'a str, &'a JsonValue)>)
    ensures
        r@.len() == json_members(*value).len(),
        forall|i: int|
            0 <= i < r@.len() ==> (#[trigger] r@[i]).0@ == json_members(*value)[i].0 && *r@[i].1
                == json_members(*value)[i].1,
{
    value.entries().collect()
}

/// `JsonValue::as_str`: the text of a value that is a string, and `None`
/// for any other value.
#[verifier::external_body]
fn as_string<'a>(value: &'a JsonValue) -> (r: Option<&'a str>)
    ensures
        r is Some <==> json_string(*value) is Some,
        r is Some ==> r->Some_0@ == json_string(*value)->Some_0,
{
    value.as_str()
}

/// `JsonValue::as_number` and `Number::as_parts`: the sign, mantissa and
/// exponent of a value that is a number, and `None` for any other value.
#[verifier::external_body]
fn as_parts(value: &JsonValue) -> (r: Option<(bool, u64, i16)>)
    ensures
        r == json_number(*value),
{
    match value.as_number() {
        Some(number) => Some(number.as_parts()),
        None => None,
    }
}

/// `JsonValue::new_object`: a value that is an object without members.
#[verifier::external_body]
fn new_object() -> (r: JsonValue)
    ensures
        json_is_object(r),
        json_members(r) == Seq::<(Seq<char>, JsonValue)>::empty(),
{
    JsonValue::new_object()
}

/// `JsonValue::insert` on a value that is an object, with a key that the
/// object does not have yet: the value stays an object, and the member is
/// added at the end.
#[verifier::external_body]
fn insert_member(object: &mut JsonValue, key: &str, value: JsonValue)
    requires
        json_is_object(*old(object)),
        !has_key(json_members(*old(object)), key@),
    ensures
        json_is_object(*final(object)),
        json_members(*final(object)) == json_members(*old(object)).push((key@, value)),
{
    let _ = object.insert(key, value);
}

/// `JsonValue::from` on a text: a value that is a string and holds that
/// text.
#[verifier::external_body]
fn string_value(text: &str) -> (r: JsonValue)
    ensures
        json_string(r) == Some(text@),
{
    JsonValue::from(text)
}

/// `Number::from_parts` with the exponent 0, in `JsonValue::Number`: a value
/// that is a number with that sign, that mantissa and the exponent 0.
#[verifier::external_body]
fn number_value(positive: bool, mantissa: u64) -> (r: JsonValue)
    ensures
        json_number(r) == Some((positive, mantissa, 0i16)),
{
    JsonValue::Number(json::number::Number::from_parts(positive, mantissa, 0))
}

/// The integer that the parts of a number stand for, where it is one that a
/// rating can hold.
pub open spec fn integer_of(parts: (bool, u64, i16)) -> Option<i32> {
    if parts.2 != 0 {
        None
    } else if parts.0 && parts.1 <= i32::MAX {
        Some(parts.1 as i32)
    } else if !parts.0 && parts.1 <= -(i32::MIN as int) {
        Some((-(parts.1 as int)) as i32)
    } else {
        None
    }
}

/// The parts that an integer is stored as.
pub open spec fn parts_of(number: i32) -> (bool, u64, i16) {
    if number >= 0 {
        (true, number as u64, 0i16)
    } else {
        (false, (-(number as int)) as u64, 0i16)
    }
}

/// An integer is read back from its parts.
pub proof fn lemma_integer_parts(number: i32)
    ensures
        integer_of(parts_of(number)) == Some(number),
{
}

/// The integer that the parts of a number stand for.
fn to_integer(parts: (bool, u64, i16)) -> (r: Option<i32>)
    ensures
        r == integer_of(parts),
{
    if parts.2 != 0 {
        None
    } else if parts.0 && parts.1 <= 0x7FFF_FFFF {
        Some(parts.1 as i32)
    } else if !parts.0 && parts.1 <= 0x8000_0000 {
        let magnitude: i64 = parts.1 as i64;
        Some((0 - magnitude) as i32)
    } else {
        None
    }
}

/// The value that an integer is stored as.
fn integer_value(number: i32) -> (r: JsonValue)
    ensures
        json_number(r) == Some(parts_of(number)),
{
    if number >= 0 {
        number_value(true, number as u64)
    } else {
        let wide: i64 = number as i64;
        number_value(false, (0 - wide) as u64)
    }
}

/// A season in the reading: the fields that have been read so far.
pub struct SeasonDraft {
    pub display_name: Option<Seq<char>>,
    pub studio: Option<Seq<char>>,
    pub rating: Option<i32>,
    pub notes: Option<Seq<char>>,
}

/// The draft before anything has been read.
pub open spec fn blank_season() -> SeasonDraft {
    SeasonDraft { display_name: None, studio: None, rating: None, notes: None }
}

/// What one member adds to a season in the reading. `None` stands for a
/// member that a season cannot have: an unknown key, or a value of the wrong
/// kind.
pub open spec fn season_step(draft: SeasonDraft, key: Seq<char>, value: JsonValue) -> Option<
    SeasonDraft,
> {
    if key == "disname"@ {
        match json_string(value) {
            Some(text) => Some(SeasonDraft { display_name: Some(text), ..draft }),
            None => None,
        }
    } else if key == "studio"@ {
        match json_string(value) {
            Some(text) => Some(SeasonDraft { studio: Some(text), ..draft }),
            None => None,
        }
    } else if key == "rating"@ {
        match json_number(value) {
            Some(parts) => match integer_of(parts) {
                Some(number) => Some(SeasonDraft { rating: Some(number), ..draft }),
                None => None,
            },
            None => None,
        }
    } else if key == "notes"@ {
        match json_string(value) {
            Some(text) => Some(SeasonDraft { notes: Some(text), ..draft }),
            None => None,
        }
    } else {
        None
    }
}

/// The draft after the members have been read one by one.
pub open spec fn season_read(members: Seq<(Seq<char>, JsonValue)>) -> Option<SeasonDraft>
    decreases members.len(),
{
    if members.len() == 0 {
        Some(blank_season())
    } else {
        match season_read(members.drop_last()) {
            Some(draft) => season_step(draft, members.last().0, members.last().1),
            None => None,
        }
    }
}

/// The season that a draft amounts to, where every field has been read.
pub open spec fn season_of_draft(draft: SeasonDraft) -> Option<SeasonView> {
    if draft.display_name is Some && draft.studio is Some && draft.rating is Some
        && draft.notes is Some {
        Some(
            SeasonView {
                display_name: draft.display_name->Some_0,
                studio: draft.studio->Some_0,
                rating: draft.rating->Some_0,
                notes: draft.notes->Some_0,
            },
        )
    } else {
        None
    }
}

/// The season that a value holds: the value is an object with the members
/// `disname`, `studio` and `notes`, which are strings, and `rating`, which
/// is an integer, and with no other member.
pub open spec fn season_of_json(value: JsonValue) -> Option<SeasonView> {
    if json_is_object(value) {
        match season_read(json_members(value)) {
            Some(draft) => season_of_draft(draft),
            None => None,
        }
    } else {
        None
    }
}

/// What `encode_season` builds.
pub open spec fn encodes_season(value: JsonValue, season: SeasonView) -> bool {
    let members = json_members(value);
    &&& json_is_object(value)
    &&& members.len() == 4
    &&& members[0].0 == "disname"@
    &&& json_string(members[0].1) == Some(season.display_name)
    &&& members[1].0 == "studio"@
    &&& json_string(members[1].1) == Some(season.studio)
    &&& members[2].0 == "rating"@
    &&& json_number(members[2].1) == Some(parts_of(season.rating))
    &&& members[3].0 == "notes"@
    &&& json_string(members[3].1) == Some(season.notes)
}

/// The names of the members of a stored item and of a stored season differ
/// from each other.
pub proof fn lemma_member_names()
    ensures
        "disname"@ != "status"@,
        "disname"@ != "studio"@,
        "disname"@ != "rating"@,
        "disname"@ != "notes"@,
        "studio"@ != "rating"@,
        "studio"@ != "notes"@,
        "rating"@ != "notes"@,
{
    reveal_strlit("disname");
    reveal_strlit("status");
    reveal_strlit("studio");
    reveal_strlit("rating");
    reveal_strlit("notes");
    assert("disname"@.len() == 7);
    assert("status"@.len() == 6);
    assert("notes"@.len() == 5);
    assert("studio"@.len() == 6 && "studio"@[0] == 's');
    assert("rating"@.len() == 6 && "rating"@[0] == 'r');
}

/// Once a member has been turned down, the reading fails.
proof fn lemma_season_read_fails(members: Seq<(Seq<char>, JsonValue)>, count: int)
    requires
        0 <= count <= members.len(),
        season_read(members.take(count)) is None,
    ensures
        season_read(members) is None,
    decreases members.len() - count,
{
    if count == members.len() {
        assert(members.take(count) =~= members);
    } else {
        assert(members.take(count + 1).drop_last() =~= members.take(count));
        lemma_season_read_fails(members, count + 1);
    }
}

/// Reading one member more.
proof fn lemma_season_read_next(members: Seq<(Seq<char>, JsonValue)>, count: int)
    requires
        0 <= count < members.len(),
    ensures
        season_read(members.take(count + 1)) == match season_read(members.take(count)) {
            Some(draft) => season_step(draft, members[count].0, members[count].1),
            None => None,
        },
{
    assert(members.take(count + 1).drop_last() =~= members.take(count));
}

/// What `encode_season` builds is read back as the season.
pub proof fn lemma_season_read_back(value: JsonValue, season: SeasonView)
    requires
        encodes_season(value, season),
    ensures
        season_of_json(value) == Some(season),
{
    let members = json_members(value);
    lemma_member_names();
    lemma_integer_parts(season.rating);
    lemma_season_read_next(members, 0);
    lemma_season_read_next(members, 1);
    lemma_season_read_next(members, 2);
    lemma_season_read_next(members, 3);
}

/// The value that a season is stored as.
pub fn encode_season(season: &Season) -> (r: JsonValue)
    ensures
        encodes_season(r, season@),
{
    proof {
        lemma_member_names();
    }
    let mut object = new_object();
    insert_member(&mut object, "disname", string_value(season.display_name.as_str()));
    insert_member(&mut object, "studio", string_value(season.studio.as_str()));
    insert_member(&mut object, "rating", integer_value(season.rating));
    insert_member(&mut object, "notes", string_value(season.notes.as_str()));
    object
}

/// The season that a value holds, if it holds one.
pub fn decode_season(value: &JsonValue) -> (r: Option<Season>)
    ensures
        viewed(r) == season_of_json(*value),
{
    if !is_object(value) {
        return None;
    }
    let listed = members(value);
    let ghost all = json_members(*value);
    let mut display_name: Option<String> = None;
    let mut studio: Option<String> = None;
    let mut rating: Option<i32> = None;
    let mut notes: Option<String> = None;
    let mut i: usize = 0;
    while i < listed.len()
        invariant
            i <= listed@.len(),
            listed@.len() == all.len(),
            all == json_members(*value),
            forall|j: int|
                0 <= j < listed@.len() ==> (#[trigger] listed@[j]).0@ == all[j].0 && *listed@[j].1
                    == all[j].1,
            season_read(all.take(i as int)) == Some(
                SeasonDraft {
                    display_name: viewed(display_name),
                    studio: viewed(studio),
                    rating,
                    notes: viewed(notes),
                },
            ),
        decreases listed@.len() - i,
    {
        let key: &str = listed[i].0;
        let member: &JsonValue = listed[i].1;
        proof {
            lemma_season_read_next(all, i as int);
        }
        let mut accepted: bool = false;
        if same_text(key, "disname") {
            if let Some(text) = as_string(member) {
                display_name = Some(owned(text));
                accepted = true;
            }
        } else if same_text(key, "studio") {
            if let Some(text) = as_string(member) {
                studio = Some(owned(text));
                accepted = true;
            }
        } else if same_text(key, "rating") {
            if let Some(parts) = as_parts(member) {
                if let Some(number) = to_integer(parts) {
                    rating = Some(number);
                    accepted = true;
                }
            }
        } else if same_text(key, "notes") {
            if let Some(text) = as_string(member) {
                notes = Some(owned(text));
                accepted = true;
            }
        }
        if !accepted {
            proof {
                lemma_season_read_fails(all, i as int + 1);
            }
            return None;
        }
        i += 1;
    }
    assert(all.take(i as int) =~= all);
    match (display_name, studio, rating, notes) {
        (Some(display_name), Some(studio), Some(rating), Some(notes)) => {
            let season = Season { display_name, studio, rating, notes };
            Some(season)
        },
        _ => None,
    }
}

/// An item in the reading: the attributes that have been read so far, and
/// the seasons.
pub struct ItemDraft {
    pub display_name: Option<Seq<char>>,
    pub status: Option<Status>,
    pub seasons: Seq<(Seq<char>, SeasonView)>,
}

/// The draft before anything has been read.
pub open spec fn blank_item() -> ItemDraft {
    ItemDraft { display_name: None, status: None, seasons: Seq::empty() }
}

/// What one member adds to an item in the reading. The members `disname`
/// and `status` are attributes; every other member is a season, filed under
/// the lower-case form of the member's key. `None` stands for a member that
/// an item cannot have.
pub open spec fn item_step(draft: ItemDraft, key: Seq<char>, value: JsonValue) -> Option<
    ItemDraft,
> {
    if key == "disname"@ {
        match json_string(value) {
            Some(text) => Some(ItemDraft { display_name: Some(text), ..draft }),
            None => None,
        }
    } else if key == "status"@ {
        match json_string(value) {
            Some(text) => match Status::spec_parse(text) {
                Some(status) => Some(ItemDraft { status: Some(status), ..draft }),
                None => None,
            },
            None => None,
        }
    } else {
        match season_of_json(value) {
            Some(season) => if has_key(draft.seasons, spec_key(key)) || is_reserved(
                spec_key(key),
            ) {
                None
            } else {
                Some(ItemDraft { seasons: draft.seasons.push((spec_key(key), season)), ..draft })
            },
            None => None,
        }
    }
}

/// The draft after the members have been read one by one.
pub open spec fn item_read(members: Seq<(Seq<char>, JsonValue)>) -> Option<ItemDraft>
    decreases members.len(),
{
    if members.len() == 0 {
        Some(blank_item())
    } else {
        match item_read(members.drop_last()) {
            Some(draft) => item_step(draft, members.last().0, members.last().1),
            None => None,
        }
    }
}

/// The item that a draft amounts to, where both attributes have been read.
pub open spec fn item_of_draft(draft: ItemDraft) -> Option<ItemView> {
    if draft.display_name is Some && draft.status is Some {
        Some(
            ItemView {
                display_name: draft.display_name->Some_0,
                status: draft.status->Some_0,
                seasons: draft.seasons,
            },
        )
    } else {
        None
    }
}

/// The item that a value holds: the value is an object with the members
/// `disname`, a string, and `status`, the name of a status, and every other
/// member of it holds a season.
pub open spec fn item_of_json(value: JsonValue) -> Option<ItemView> {
    if json_is_object(value) {
        match item_read(json_members(value)) {
            Some(draft) => item_of_draft(draft),
            None => None,
        }
    } else {
        None
    }
}

/// What `encode_item` builds.
pub open spec fn encodes_item(value: JsonValue, item: ItemView) -> bool {
    let members = json_members(value);
    &&& json_is_object(value)
    &&& members.len() == item.seasons.len() + 2
    &&& members[0].0 == "disname"@
    &&& json_string(members[0].1) == Some(item.display_name)
    &&& members[1].0 == "status"@
    &&& json_string(members[1].1) == Some(item.status.spec_name())
    &&& forall|i: int|
        0 <= i < item.seasons.len() ==> (#[trigger] members[i + 2]).0 == item.seasons[i].0
            && encodes_season(members[i + 2].1, item.seasons[i].1)
}

/// Once a member has been turned down, the reading fails.
proof fn lemma_item_read_fails(members: Seq<(Seq<char>, JsonValue)>, count: int)
    requires
        0 <= count <= members.len(),
        item_read(members.take(count)) is None,
    ensures
        item_read(members) is None,
    decreases members.len() - count,
{
    if count == members.len() {
        assert(members.take(count) =~= members);
    } else {
        assert(members.take(count + 1).drop_last() =~= members.take(count));
        lemma_item_read_fails(members, count + 1);
    }
}

/// Reading one member more.
proof fn lemma_item_read_next(members: Seq<(Seq<char>, JsonValue)>, count: int)
    requires
        0 <= count < members.len(),
    ensures
        item_read(members.take(count + 1)) == match item_read(members.take(count)) {
            Some(draft) => item_step(draft, members[count].0, members[count].1),
            None => None,
        },
{
    assert(members.take(count + 1).drop_last() =~= members.take(count));
}

/// What has been read of what `encode_item` builds after the two attributes
/// and `count` seasons.
proof fn lemma_item_read_seasons(value: JsonValue, item: ItemView, count: int)
    requires
        encodes_item(value, item),
        item_wf(item),
        0 <= count <= item.seasons.len(),
    ensures
        item_read(json_members(value).take(count + 2)) == Some(
            ItemDraft {
                display_name: Some(item.display_name),
                status: Some(item.status),
                seasons: item.seasons.take(count),
            },
        ),
    decreases count,
{
    let members = json_members(value);
    lemma_member_names();
    if count == 0 {
        lemma_status_names(item.status, item.status.spec_name());
        lemma_item_read_next(members, 0);
        lemma_item_read_next(members, 1);
        assert(item.seasons.take(0) =~= Seq::<(Seq<char>, SeasonView)>::empty());
    } else {
        lemma_item_read_seasons(value, item, count - 1);
        lemma_item_read_next(members, count + 1);
        let key = item.seasons[count - 1].0;
        let season = item.seasons[count - 1].1;
        lemma_season_read_back(members[count + 1].1, season);
        let before = item.seasons.take(count - 1);
        assert(!has_key(before, key)) by {
            if has_key(before, key) {
                let j = choose|j: int| 0 <= j < before.len() && (#[trigger] before[j]).0 == key;
                assert(item.seasons[j].0 == before[j].0);
            }
        }
        assert(before.push((key, season)) =~= item.seasons.take(count));
    }
}

/// What `encode_item` builds is read back as the item.
pub proof fn lemma_item_read_back(value: JsonValue, item: ItemView)
    requires
        encodes_item(value, item),
        item_wf(item),
    ensures
        item_of_json(value) == Some(item),
{
    let members = json_members(value);
    lemma_item_read_seasons(value, item, item.seasons.len() as int);
    assert(members.take(item.seasons.len() as int + 2) =~= members);
}

/// The value that an item is stored as.
pub fn encode_item(item: &Item) -> (r: JsonValue)
    ensures
        encodes_item(r, item@),
{
    proof {
        lemma_member_names();
    }
    item.well_formed();
    let mut object = new_object();
    insert_member(&mut object, "disname", string_value(item.display_name()));
    insert_member(&mut object, "status", string_value(item.status().name()));
    let mut i: usize = 0;
    while i < item.season_count()
        invariant
            i <= item@.seasons.len(),
            item_wf(item@),
            json_is_object(object),
            json_members(object).len() == i + 2,
            json_members(object)[0].0 == "disname"@,
            json_string(json_members(object)[0].1) == Some(item@.display_name),
            json_members(object)[1].0 == "status"@,
            json_string(json_members(object)[1].1) == Some(item@.status.spec_name()),
            forall|j: int|
                0 <= j < i ==> (#[trigger] json_members(object)[j + 2]).0 == item@.seasons[j].0
                    && encodes_season(json_members(object)[j + 2].1, item@.seasons[j].1),
        decreases item@.seasons.len() - i,
    {
        let ghost before = json_members(object);
        let key = item.season_key(i);
        let value = encode_season(item.season(i));
        assert(!has_key(before, key@)) by {
            if has_key(before, key@) {
                let j = choose|j: int| 0 <= j < before.len() && (#[trigger] before[j]).0 == key@;
                if j >= 2 {
                    assert(before[(j - 2) + 2].0 == item@.seasons[j - 2].0);
                }
            }
        }
        insert_member(&mut object, key, value);
        i += 1;
    }
    object
}

/// The item that a value holds, if it holds one.
pub fn decode_item(value: &JsonValue) -> (r: Option<Item>)
    ensures
        viewed(r) == item_of_json(*value),
{
    if !is_object(value) {
        return None;
    }
    let listed = members(value);
    let ghost all = json_members(*value);
    let mut display_name: Option<String> = None;
    let mut status: Option<Status> = None;
    let mut item = Item::new("", Status::Planned);
    let mut i: usize = 0;
    while i < listed.len()
        invariant
            i <= listed@.len(),
            listed@.len() == all.len(),
            all == json_members(*value),
            forall|j: int|
                0 <= j < listed@.len() ==> (#[trigger] listed@[j]).0@ == all[j].0 && *listed@[j].1
                    == all[j].1,
            item_read(all.take(i as int)) == Some(
                ItemDraft { display_name: viewed(display_name), status, seasons: item@.seasons },
            ),
        decreases listed@.len() - i,
    {
        let key: &str = listed[i].0;
        let member: &JsonValue = listed[i].1;
        proof {
            lemma_item_read_next(all, i as int);
        }
        let mut accepted: bool = false;
        if same_text(key, "disname") {
            if let Some(text) = as_string(member) {
                display_name = Some(owned(text));
                accepted = true;
            }
        } else if same_text(key, "status") {
            if let Some(text) = as_string(member) {
                if let Ok(read) = Status::parse(text) {
                    status = Some(read);
                    accepted = true;
                }
            }
        } else {
            if let Some(season) = decode_season(member) {
                if item.push_season(key, season).is_ok() {
                    accepted = true;
                }
            }
        }
        if !accepted {
            proof {
                lemma_item_read_fails(all, i as int + 1);
            }
            return None;
        }
        i += 1;
    }
    assert(all.take(i as int) =~= all);
    match (display_name, status) {
        (Some(display_name), Some(status)) => {
            item.set_display_name(display_name.as_str());
            item.put_status(status);
            Some(item)
        },
        _ => None,
    }
}

/// What one member adds to a category in the reading: an item, filed under
/// the lower-case form of the member's key. `None` stands for a member that
/// does not hold an item, or whose key is taken.
pub open spec fn category_step(category: CategoryView, key: Seq<char>, value: JsonValue) -> Option<
    CategoryView,
> {
    match item_of_json(value) {
        Some(item) => if has_key(category, spec_key(key)) {
            None
        } else {
            Some(category.push((spec_key(key), item)))
        },
        None => None,
    }
}

/// The category after the members have been read one by one.
pub open spec fn category_read(members: Seq<(Seq<char>, JsonValue)>) -> Option<CategoryView>
    decreases members.len(),
{
    if members.len() == 0 {
        Some(Seq::empty())
    } else {
        match category_read(members.drop_last()) {
            Some(category) => category_step(category, members.last().0, members.last().1),
            None => None,
        }
    }
}

/// The category that a value holds: the value is an object, and every
/// member of it holds an item.
pub open spec fn category_of_json(value: JsonValue) -> Option<CategoryView> {
    if json_is_object(value) {
        category_read(json_members(value))
    } else {
        None
    }
}

/// What `encode_category` builds.
pub open spec fn encodes_category(value: JsonValue, category: CategoryView) -> bool {
    let members = json_members(value);
    &&& json_is_object(value)
    &&& members.len() == category.len()
    &&& forall|i: int|
        0 <= i < category.len() ==> (#[trigger] members[i]).0 == category[i].0 && encodes_item(
            members[i].1,
            category[i].1,
        )
}

/// Once a member has been turned down, the reading fails.
proof fn lemma_category_read_fails(members: Seq<(Seq<char>, JsonValue)>, count: int)
    requires
        0 <= count <= members.len(),
        category_read(members.take(count)) is None,
    ensures
        category_read(members) is None,
    decreases members.len() - count,
{
    if count == members.len() {
        assert(members.take(count) =~= members);
    } else {
        assert(members.take(count + 1).drop_last() =~= members.take(count));
        lemma_category_read_fails(members, count + 1);
    }
}

/// Reading one member more.
proof fn lemma_category_read_next(members: Seq<(Seq<char>, JsonValue)>, count: int)
    requires
        0 <= count < members.len(),
    ensures
        category_read(members.take(count + 1)) == match category_read(members.take(count)) {
            Some(category) => category_step(category, members[count].0, members[count].1),
            None => None,
        },
{
    assert(members.take(count + 1).drop_last() =~= members.take(count));
}

/// What has been read of what `encode_category` builds after `count` items.
proof fn lemma_category_read_items(value: JsonValue, category: CategoryView, count: int)
    requires
        encodes_category(value, category),
        category_wf(category),
        0 <= count <= category.len(),
    ensures
        category_read(json_members(value).take(count)) == Some(category.take(count)),
    decreases count,
{
    let members = json_members(value);
    if count > 0 {
        lemma_category_read_items(value, category, count - 1);
        lemma_category_read_next(members, count - 1);
        let key = category[count - 1].0;
        let item = category[count - 1].1;
        lemma_item_read_back(members[count - 1].1, item);
        let before = category.take(count - 1);
        assert(!has_key(before, key)) by {
            if has_key(before, key) {
                let j = choose|j: int| 0 <= j < before.len() && (#[trigger] before[j]).0 == key;
                assert(category[j].0 == before[j].0);
            }
        }
        assert(before.push((key, item)) =~= category.take(count));
    }
}

/// What `encode_category` builds is read back as the category.
pub proof fn lemma_category_read_back(value: JsonValue, category: CategoryView)
    requires
        encodes_category(value, category),
        category_wf(category),
    ensures
        category_of_json(value) == Some(category),
{
    let members = json_members(value);
    lemma_category_read_items(value, category, category.len() as int);
    assert(members.take(category.len() as int) =~= members);
}

/// The value that a category is stored as.
pub fn encode_category(category: &Category) -> (r: JsonValue)
    ensures
        encodes_category(r, category@),
{
    category.well_formed();
    let mut object = new_object();
    let mut i: usize = 0;
    while i < category.len()
        invariant
            i <= category@.len(),
            category_wf(category@),
            json_is_object(object),
            json_members(object).len() == i,
            forall|j: int|
                0 <= j < i ==> (#[trigger] json_members(object)[j]).0 == category@[j].0
                    && encodes_item(json_members(object)[j].1, category@[j].1),
        decreases category@.len() - i,
    {
        let ghost before = json_members(object);
        let key = category.key(i);
        let value = encode_item(category.item(i));
        assert(!has_key(before, key@)) by {
            if has_key(before, key@) {
                let j = choose|j: int| 0 <= j < before.len() && (#[trigger] before[j]).0 == key@;
                assert(before[j].0 == category@[j].0);
            }
        }
        insert_member(&mut object, key, value);
        i += 1;
    }
    object
}

/// The category that a value holds, if it holds one.
pub fn decode_category(value: &JsonValue) -> (r: Option<Category>)
    ensures
        viewed(r) == category_of_json(*value),
{
    if !is_object(value) {
        return None;
    }
    let listed = members(value);
    let ghost all = json_members(*value);
    let mut category = Category::new();
    let mut i: usize = 0;
    while i < listed.len()
        invariant
            i <= listed@.len(),
            listed@.len() == all.len(),
            all == json_members(*value),
            forall|j: int|
                0 <= j < listed@.len() ==> (#[trigger] listed@[j]).0@ == all[j].0 && *listed@[j].1
                    == all[j].1,
            category_read(all.take(i as int)) == Some(category@),
        decreases listed@.len() - i,
    {
        let key: &str = listed[i].0;
        let member: &JsonValue = listed[i].1;
        proof {
            lemma_category_read_next(all, i as int);
        }
        let mut accepted: bool = false;
        if let Some(item) = decode_item(member) {
            if category.push_item(key, item).is_ok() {
                accepted = true;
            }
        }
        if !accepted {
            proof {
                lemma_category_read_fails(all, i as int + 1);
            }
            return None;
        }
        i += 1;
    }
    assert(all.take(i as int) =~= all);
    Some(category)
}

/// What one member adds to a document in the reading: the category that the
/// member's key names. `None` stands for a member whose key names no
/// category, or that does not hold a category.
pub open spec fn document_step(document: DocumentView, key: Seq<char>, value: JsonValue) -> Option<
    DocumentView,
> {
    match CategoryTag::spec_parse(key) {
        Some(tag) => match category_of_json(value) {
            Some(category) => Some(document.insert(tag, category)),
            None => None,
        },
        None => None,
    }
}

/// The document after the members have been read one by one, starting from
/// the document without items.
pub open spec fn document_read(members: Seq<(Seq<char>, JsonValue)>) -> Option<DocumentView>
    decreases members.len(),
{
    if members.len() == 0 {
        Some(empty_document())
    } else {
        match document_read(members.drop_last()) {
            Some(document) => document_step(document, members.last().0, members.last().1),
            None => None,
        }
    }
}

/// The document that a value holds: the value is an object, every member of
/// it is named by a category and holds a category. A category without a
/// member has no items.
pub open spec fn document_of_json(value: JsonValue) -> Option<DocumentView> {
    if json_is_object(value) {
        document_read(json_members(value))
    } else {
        None
    }
}

/// What `encode_document` builds: one member for each category, in the fixed
/// order.
pub open spec fn encodes_document(value: JsonValue, document: DocumentView) -> bool {
    let members = json_members(value);
    &&& json_is_object(value)
    &&& members.len() == CATEGORY_COUNT
    &&& forall|i: int|
        0 <= i < CATEGORY_COUNT ==> (#[trigger] members[i]).0 == all_categories()[i].spec_name()
            && encodes_category(members[i].1, document[all_categories()[i]])
}

/// Once a member has been turned down, the reading fails.
proof fn lemma_document_read_fails(members: Seq<(Seq<char>, JsonValue)>, count: int)
    requires
        0 <= count <= members.len(),
        document_read(members.take(count)) is None,
    ensures
        document_read(members) is None,
    decreases members.len() - count,
{
    if count == members.len() {
        assert(members.take(count) =~= members);
    } else {
        assert(members.take(count + 1).drop_last() =~= members.take(count));
        lemma_document_read_fails(members, count + 1);
    }
}

/// Reading one member more.
proof fn lemma_document_read_next(members: Seq<(Seq<char>, JsonValue)>, count: int)
    requires
        0 <= count < members.len(),
    ensures
        document_read(members.take(count + 1)) == match document_read(members.take(count)) {
            Some(document) => document_step(document, members[count].0, members[count].1),
            None => None,
        },
{
    assert(members.take(count + 1).drop_last() =~= members.take(count));
}

/// The document that has the first `count` categories of `document` and no
/// item in the others.
pub open spec fn leading_categories(document: DocumentView, count: int) -> DocumentView {
    Map::new(
        |tag: CategoryTag| true,
        |tag: CategoryTag|
            if tag.spec_index() < count {
                document[tag]
            } else {
                Seq::<(Seq<char>, ItemView)>::empty()
            },
    )
}

/// What has been read of what `encode_document` builds after `count`
/// categories.
proof fn lemma_document_read_categories(value: JsonValue, document: DocumentView, count: int)
    requires
        encodes_document(value, document),
        document_wf(document),
        0 <= count <= CATEGORY_COUNT,
    ensures
        document_read(json_members(value).take(count)) == Some(
            leading_categories(document, count),
        ),
    decreases count,
{
    let members = json_members(value);
    if count > 0 {
        lemma_document_read_categories(value, document, count - 1);
        lemma_document_read_next(members, count - 1);
        let tag = all_categories()[count - 1];
        lemma_category_names(tag, tag.spec_name());
        lemma_category_read_back(members[count - 1].1, document[tag]);
    }
}

/// What `encode_document` builds is read back as the document.
pub proof fn lemma_document_read_back(value: JsonValue, document: DocumentView)
    requires
        encodes_document(value, document),
        document_wf(document),
    ensures
        document_of_json(value) == Some(document),
{
    let members = json_members(value);
    lemma_document_read_categories(value, document, CATEGORY_COUNT as int);
    assert(members.take(CATEGORY_COUNT as int) =~= members);
    assert(leading_categories(document, CATEGORY_COUNT as int) =~= document);
}

/// The value that a document is stored as.
pub fn encode_document(document: &Document) -> (r: JsonValue)
    ensures
        encodes_document(r, document@),
{
    let mut object = new_object();
    let mut i: usize = 0;
    while i < CATEGORY_COUNT
        invariant
            i <= CATEGORY_COUNT,
            json_is_object(object),
            json_members(object).len() == i,
            forall|j: int|
                0 <= j < i ==> (#[trigger] json_members(object)[j]).0
                    == all_categories()[j].spec_name() && encodes_category(
                    json_members(object)[j].1,
                    document@[all_categories()[j]],
                ),
        decreases CATEGORY_COUNT - i,
    {
        let ghost before = json_members(object);
        let tag = CategoryTag::at(i);
        let value = encode_category(document.category(tag));
        assert(!has_key(before, tag.spec_name())) by {
            if has_key(before, tag.spec_name()) {
                let j = choose|j: int|
                    0 <= j < before.len() && (#[trigger] before[j]).0 == tag.spec_name();
                lemma_category_names(all_categories()[j], tag.spec_name());
                lemma_category_names(tag, tag.spec_name());
            }
        }
        insert_member(&mut object, tag.name(), value);
        i += 1;
    }
    object
}

/// The document that a value holds, if it holds one.
pub fn decode_document(value: &JsonValue) -> (r: Option<Document>)
    ensures
        viewed(r) == document_of_json(*value),
{
    if !is_object(value) {
        return None;
    }
    let listed = members(value);
    let ghost all = json_members(*value);
    let mut document = Document::new();
    let mut i: usize = 0;
    while i < listed.len()
        invariant
            i <= listed@.len(),
            listed@.len() == all.len(),
            all == json_members(*value),
            forall|j: int|
                0 <= j < listed@.len() ==> (#[trigger] listed@[j]).0@ == all[j].0 && *listed@[j].1
                    == all[j].1,
            document_read(all.take(i as int)) == Some(document@),
        decreases listed@.len() - i,
    {
        let key: &str = listed[i].0;
        let member: &JsonValue = listed[i].1;
        proof {
            lemma_document_read_next(all, i as int);
        }
        let mut accepted: bool = false;
        if let Ok(tag) = CategoryTag::parse(key) {
            if let Some(category) = decode_category(member) {
                document.set_category(tag, category);
                accepted = true;
            }
        }
        if !accepted {
            proof {
                lemma_document_read_fails(all, i as int + 1);
            }
            return None;
        }
        i += 1;
    }
    assert(all.take(i as int) =~= all);
    Some(document)
}

/// The document that a text holds.
pub open spec fn document_of_text(text: Seq<char>) -> Option<DocumentView> {
    match json_read(text) {
        Some(value) => document_of_json(value),
        None => None,
    }
}

/// Whether `text` is the text that a document is stored as: the text of a
/// value such as `encode_document` builds.
pub open spec fn stores_document(text: Seq<char>, document: DocumentView) -> bool {
    exists|value: JsonValue|
        #![trigger encodes_document(value, document)]
        encodes_document(value, document) && text == json_text(value)
}

/// The text that a document is stored as.
pub fn document_to_text(document: &Document) -> (r: String)
    ensures
        stores_document(r@, document@),
{
    let value = encode_document(document);
    stringify(value)
}

/// Reads a stored document. A text that cannot be read or is not JSON, or
/// whose value does not hold a document, is `MalformedDocument`.
pub fn document_from_text(text: &str) -> (r: Result<Document, Diagnostic>)
    ensures
        match document_of_text(text@) {
            Some(document) => r is Ok && r->Ok_0@ == document,
            None => r is Err && r->Err_0 == Diagnostic::MalformedDocument,
        },
{
    match read(text) {
        Some(value) => match decode_document(&value) {
            Some(document) => Ok(document),
            None => Err(Diagnostic::MalformedDocument),
        },
        None => Err(Diagnostic::MalformedDocument),
    }
}

/// The document to work on, given what is stored, if anything is: the
/// stored document, or the document without items where nothing is stored
/// yet.
pub open spec fn spec_open(stored: Option<Seq<char>>) -> Option<DocumentView> {
    match stored {
        Some(text) => document_of_text(text),
        None => Some(empty_document()),
    }
}

/// The document to work on. Where nothing is stored yet, that is no error:
/// the document then has every category and no item.
pub fn open(stored: Option<&str>) -> (r: Result<Document, Diagnostic>)
    ensures
        match spec_open(
            match stored {
                Some(text) => Some(text@),
                None => None,
            },
        ) {
            Some(document) => r is Ok && r->Ok_0@ == document,
            None => r is Err && r->Err_0 == Diagnostic::MalformedDocument,
        },
{
    match stored {
        Some(text) => document_from_text(text),
        None => Ok(Document::new()),
    }
}

/// The item that a text holds.
pub open spec fn item_of_text(text: Seq<char>) -> Option<ItemView> {
    match json_read(text) {
        Some(value) => item_of_json(value),
        None => None,
    }
}

/// Whether `text` is the text in which an item is handed to the editor: the
/// text of a value such as `encode_item` builds.
pub open spec fn shows_item(text: Seq<char>, item: ItemView) -> bool {
    exists|value: JsonValue|
        #![trigger encodes_item(value, item)]
        encodes_item(value, item) && text == json_text(value)
}

/// The text in which an item is handed to the editor.
pub fn item_to_text(item: &Item) -> (r: String)
    ensures
        shows_item(r@, item@),
{
    let value = encode_item(item);
    stringify(value)
}

/// Reads an item as it comes back from the editor. A text that cannot be
/// read or is not JSON, or whose value does not hold an item, is
/// `MalformedEditorOutput`.
pub fn item_from_text(text: &str) -> (r: Result<Item, Diagnostic>)
    ensures
        match item_of_text(text@) {
            Some(item) => r is Ok && r->Ok_0@ == item,
            None => r is Err && r->Err_0 == Diagnostic::MalformedEditorOutput,
        },
{
    match read(text) {
        Some(value) => match decode_item(&value) {
            Some(item) => Ok(item),
            None => Err(Diagnostic::MalformedEditorOutput),
        },
        None => Err(Diagnostic::MalformedEditorOutput),
    }
}

/// Whether a value holds a field of a season: a string for `studio` and
/// `notes`, a number for `rating`, the stored season for `json`.
pub open spec fn holds_field(value: JsonValue, season: SeasonView, field: SeasonField) -> bool {
    match field {
        SeasonField::Studio => json_string(value) == Some(season.studio),
        SeasonField::Rating => json_number(value) == Some(parts_of(season.rating)),
        SeasonField::Notes => json_string(value) == Some(season.notes),
        SeasonField::Json => encodes_season(value, season),
    }
}

/// Whether `text` is the text in which a field of a season is handed to the
/// editor.
pub open spec fn shows_field(text: Seq<char>, season: SeasonView, field: SeasonField) -> bool {
    exists|value: JsonValue|
        #![trigger holds_field(value, season, field)]
        holds_field(value, season, field) && text == json_text(value)
}

/// The text in which a field of a season is handed to the editor.
pub fn field_to_text(season: &Season, field: SeasonField) -> (r: String)
    ensures
        shows_field(r@, season@, field),
{
    let value = match field {
        SeasonField::Studio => string_value(season.studio.as_str()),
        SeasonField::Rating => integer_value(season.rating),
        SeasonField::Notes => string_value(season.notes.as_str()),
        SeasonField::Json => encode_season(season),
    };
    assert(holds_field(value, season@, field));
    stringify(value)
}

/// What a value offers for a field: a text where it is a string, a number
/// where it is an integer, a season where it is an object that holds one.
/// Any other value fits no field.
pub open spec fn field_of_json(value: JsonValue) -> Result<FieldValueView, Diagnostic> {
    if json_string(value) is Some {
        Ok(FieldValueView::Text(json_string(value)->Some_0))
    } else if json_number(value) is Some {
        match integer_of(json_number(value)->Some_0) {
            Some(number) => Ok(FieldValueView::Number(number)),
            None => Err(Diagnostic::MalformedSeason),
        }
    } else {
        match season_of_json(value) {
            Some(season) => Ok(FieldValueView::Record(season)),
            None => Err(Diagnostic::MalformedSeason),
        }
    }
}

/// What a text offers for a field. A text that cannot be read or is not
/// JSON is `MalformedEditorOutput`; JSON that fits no field is
/// `MalformedSeason`.
pub open spec fn field_of_text(text: Seq<char>) -> Result<FieldValueView, Diagnostic> {
    match json_read(text) {
        Some(value) => field_of_json(value),
        None => Err(Diagnostic::MalformedEditorOutput),
    }
}

/// Reads a value for a field as it comes back from the editor.
pub fn field_from_text(text: &str) -> (r: Result<FieldValue, Diagnostic>)
    ensures
        match field_of_text(text@) {
            Ok(value) => r is Ok && r->Ok_0@ == value,
            Err(diagnostic) => r is Err && r->Err_0 == diagnostic,
        },
{
    let value = match read(text) {
        Some(value) => value,
        None => {
            return Err(Diagnostic::MalformedEditorOutput);
        },
    };
    if let Some(found) = as_string(&value) {
        return Ok(FieldValue::Text(owned(found)));
    }
    if let Some(parts) = as_parts(&value) {
        return match to_integer(parts) {
            Some(number) => Ok(FieldValue::Number(number)),
            None => Err(Diagnostic::MalformedSeason),
        };
    }
    match decode_season(&value) {
        Some(season) => Ok(FieldValue::Record(season)),
        None => Err(Diagnostic::MalformedSeason),
    }
}

} // verus!
