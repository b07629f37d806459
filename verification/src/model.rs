//! The document: categories of items, items with their seasons.
//!
//! Items and seasons are filed under keys, the lower-case form of their
//! names, in the order in which they were added. Every type here is seen in
//! contracts through its view; the views are plain sequences and maps.

use vstd::prelude::*;
use crate::diagnostic::Diagnostic;
use crate::schema::{CategoryTag, SeasonField, Status};
use crate::text::{is_key, key_of, lemma_key_is_key, owned, same_text, spec_key};

verus! {

/// Whether some entry is filed under `key`.
pub open spec fn has_key<V>(entries: Seq<(Seq<char>, V)>, key: Seq<char>) -> bool {
    exists|i: int| 0 <= i < entries.len() && (#[trigger] entries[i]).0 == key
}

/// The place of an entry filed under `key`.
pub open spec fn index_of<V>(entries: Seq<(Seq<char>, V)>, key: Seq<char>) -> int {
    choose|i: int| 0 <= i < entries.len() && (#[trigger] entries[i]).0 == key
}

/// What is filed under `key`.
pub open spec fn value_of<V>(entries: Seq<(Seq<char>, V)>, key: Seq<char>) -> V {
    entries[index_of(entries, key)].1
}

/// No two entries are filed under the same key.
pub open spec fn distinct_keys<V>(entries: Seq<(Seq<char>, V)>) -> bool {
    forall|i: int, j: int|
        0 <= i < j < entries.len() ==> (#[trigger] entries[i]).0 != (#[trigger] entries[j]).0
}

/// Every entry is filed under a key in lower case.
pub open spec fn keys_normal<V>(entries: Seq<(Seq<char>, V)>) -> bool {
    forall|i: int| 0 <= i < entries.len() ==> is_key((#[trigger] entries[i]).0)
}

/// Where keys are distinct, the entry under a key is the only one.
pub proof fn lemma_index_of<V>(entries: Seq<(Seq<char>, V)>, key: Seq<char>, i: int)
    requires
        distinct_keys(entries),
        0 <= i < entries.len(),
        entries[i].0 == key,
    ensures
        has_key(entries, key),
        index_of(entries, key) == i,
        value_of(entries, key) == entries[i].1,
{
}

/// The view of a value that may not be there.
pub open spec fn viewed<T: View>(value: Option<T>) -> Option<T::V> {
    match value {
        Some(value) => Some(value@),
        None => None,
    }
}

/// What follows from the rule of an operation: on `Ok` the value is the one
/// the rule gives, on `Err` the diagnostic is the rule's and the value is
/// untouched.
pub open spec fn applied<T>(
    rule: Result<T, Diagnostic>,
    before: T,
    after: T,
    r: Result<(), Diagnostic>,
) -> bool {
    match rule {
        Ok(value) => r is Ok && after == value,
        Err(diagnostic) => r == Err::<(), Diagnostic>(diagnostic) && after == before,
    }
}

/// One season of an item.
#[derive(Debug, PartialEq, Eq)]
pub struct Season {
    /// The season's name as the user wrote it.
    pub display_name: String,
    pub studio: String,
    /// 0 stands for "not rated yet".
    pub rating: i32,
    pub notes: String,
}

#[verifier::ext_equal]
pub struct SeasonView {
    pub display_name: Seq<char>,
    pub studio: Seq<char>,
    pub rating: i32,
    pub notes: Seq<char>,
}

impl View for Season {
    type V = SeasonView;

    open spec fn view(&self) -> SeasonView {
        SeasonView {
            display_name: self.display_name@,
            studio: self.studio@,
            rating: self.rating,
            notes: self.notes@,
        }
    }
}

impl Clone for Season {
    fn clone(&self) -> (r: Self)
        ensures
            r@ == self@,
    {
        Season {
            display_name: self.display_name.clone(),
            studio: self.studio.clone(),
            rating: self.rating,
            notes: self.notes.clone(),
        }
    }
}

/// A value offered for a field of a season, or for the season as a whole.
#[derive(Debug, PartialEq, Eq)]
pub enum FieldValue {
    Text(String),
    Number(i32),
    Record(Season),
}

#[verifier::ext_equal]
pub enum FieldValueView {
    Text(Seq<char>),
    Number(i32),
    Record(SeasonView),
}

impl View for FieldValue {
    type V = FieldValueView;

    open spec fn view(&self) -> FieldValueView {
        match self {
            FieldValue::Text(text) => FieldValueView::Text(text@),
            FieldValue::Number(number) => FieldValueView::Number(*number),
            FieldValue::Record(season) => FieldValueView::Record(season@),
        }
    }
}

/// A season as it is when first added: not rated, without notes.
pub open spec fn new_season(display_name: Seq<char>, studio: Seq<char>) -> SeasonView {
    SeasonView { display_name, studio, rating: 0, notes: Seq::empty() }
}

/// The rule of `Season::set_field`. The field name is looked at first; a
/// value of the wrong kind for the field is a malformed season.
pub open spec fn spec_set_field(
    season: SeasonView,
    field_name: Seq<char>,
    value: FieldValueView,
) -> Result<SeasonView, Diagnostic> {
    match SeasonField::spec_parse(field_name) {
        None => Err(Diagnostic::InvalidField),
        Some(SeasonField::Studio) => match value {
            FieldValueView::Text(text) => Ok(SeasonView { studio: text, ..season }),
            _ => Err(Diagnostic::MalformedSeason),
        },
        Some(SeasonField::Rating) => match value {
            FieldValueView::Number(number) => Ok(SeasonView { rating: number, ..season }),
            _ => Err(Diagnostic::MalformedSeason),
        },
        Some(SeasonField::Notes) => match value {
            FieldValueView::Text(text) => Ok(SeasonView { notes: text, ..season }),
            _ => Err(Diagnostic::MalformedSeason),
        },
        Some(SeasonField::Json) => match value {
            FieldValueView::Record(record) => Ok(record),
            _ => Err(Diagnostic::MalformedSeason),
        },
    }
}

impl Season {
    /// A season that is not rated and has no notes.
    pub fn new(display_name: &str, studio: &str) -> (r: Season)
        ensures
            r@ == new_season(display_name@, studio@),
    {
        Season {
            display_name: owned(display_name),
            studio: owned(studio),
            rating: 0,
            notes: String::new(),
        }
    }

    /// Sets the field called `field_name` (`studio`, `rating` or `notes`), or
    /// with `json` replaces the season as a whole.
    pub fn set_field(&mut self, field_name: &str, value: FieldValue) -> (r: Result<(), Diagnostic>)
        ensures
            applied(spec_set_field(old(self)@, field_name@, value@), old(self)@, final(self)@, r),
    {
        let field = match SeasonField::parse(field_name) {
            Ok(field) => field,
            Err(diagnostic) => {
                return Err(diagnostic);
            },
        };
        match (field, value) {
            (SeasonField::Studio, FieldValue::Text(text)) => {
                self.studio = text;
                Ok(())
            },
            (SeasonField::Rating, FieldValue::Number(number)) => {
                self.rating = number;
                Ok(())
            },
            (SeasonField::Notes, FieldValue::Text(text)) => {
                self.notes = text;
                Ok(())
            },
            (SeasonField::Json, FieldValue::Record(record)) => {
                *self = record;
                Ok(())
            },
            _ => Err(Diagnostic::MalformedSeason),
        }
    }
}

/// The attribute names of an item in its stored form. No season can be filed
/// under one of them.
pub open spec fn is_reserved(key: Seq<char>) -> bool {
    key == "disname"@ || key == "status"@
}

#[verifier::ext_equal]
pub struct ItemView {
    pub display_name: Seq<char>,
    pub status: Status,
    /// The seasons with their keys, in the order in which they were added.
    pub seasons: Seq<(Seq<char>, SeasonView)>,
}

/// What holds of every item: its seasons are filed under distinct lower-case
/// keys, none of them reserved.
pub open spec fn item_wf(item: ItemView) -> bool {
    &&& distinct_keys(item.seasons)
    &&& keys_normal(item.seasons)
    &&& forall|i: int| 0 <= i < item.seasons.len() ==> !is_reserved((#[trigger] item.seasons[i]).0)
}

/// An item as it is when first added: without seasons.
pub open spec fn new_item(display_name: Seq<char>, status: Status) -> ItemView {
    ItemView { display_name, status, seasons: Seq::empty() }
}

/// The rule of `Item::set_status`.
pub open spec fn spec_set_status(item: ItemView, status: Seq<char>) -> Result<
    ItemView,
    Diagnostic,
> {
    match Status::spec_parse(status) {
        Some(status) => Ok(ItemView { status, ..item }),
        None => Err(Diagnostic::InvalidStatus),
    }
}

/// The rule of `Item::push_season`: a season is added at the end, under the
/// lower-case form of `key`, unless that key is taken.
pub open spec fn spec_push_season(item: ItemView, key: Seq<char>, season: SeasonView) -> Result<
    ItemView,
    Diagnostic,
> {
    let key = spec_key(key);
    if has_key(item.seasons, key) || is_reserved(key) {
        Err(Diagnostic::DuplicateSeason)
    } else {
        Ok(ItemView { seasons: item.seasons.push((key, season)), ..item })
    }
}

/// The rule of `Item::get_season`.
pub open spec fn spec_get_season(item: ItemView, key: Seq<char>) -> Result<SeasonView, Diagnostic> {
    let key = spec_key(key);
    if has_key(item.seasons, key) {
        Ok(value_of(item.seasons, key))
    } else {
        Err(Diagnostic::SeasonNotFound)
    }
}

/// The rule of `Item::set_season_field`: the season is looked up first, then
/// the field is set by the rule of `Season::set_field`.
pub open spec fn spec_set_season_field(
    item: ItemView,
    key: Seq<char>,
    field_name: Seq<char>,
    value: FieldValueView,
) -> Result<ItemView, Diagnostic> {
    let key = spec_key(key);
    if !has_key(item.seasons, key) {
        Err(Diagnostic::SeasonNotFound)
    } else {
        let i = index_of(item.seasons, key);
        match spec_set_field(item.seasons[i].1, field_name, value) {
            Ok(season) => Ok(ItemView { seasons: item.seasons.update(i, (key, season)), ..item }),
            Err(diagnostic) => Err(diagnostic),
        }
    }
}

/// What has been set is what is found: after a field of a season has been
/// set, the season found under the same key is the old one with that field
/// set, and every other season is as it was.
pub proof fn lemma_set_then_get(
    item: ItemView,
    key: Seq<char>,
    field_name: Seq<char>,
    value: FieldValueView,
)
    requires
        item_wf(item),
        spec_set_season_field(item, key, field_name, value) is Ok,
    ensures
        spec_get_season(item, key) is Ok,
        spec_get_season(spec_set_season_field(item, key, field_name, value)->Ok_0, key)
            == spec_set_field(spec_get_season(item, key)->Ok_0, field_name, value),
        item_wf(spec_set_season_field(item, key, field_name, value)->Ok_0),
        forall|other: Seq<char>|
            spec_key(other) != spec_key(key) ==> #[trigger] spec_get_season(
                spec_set_season_field(item, key, field_name, value)->Ok_0,
                other,
            ) == spec_get_season(item, other),
{
    let filed = spec_key(key);
    let i = index_of(item.seasons, filed);
    let after = spec_set_season_field(item, key, field_name, value)->Ok_0;
    assert(item_wf(after));
    lemma_index_of(after.seasons, filed, i);
    assert forall|other: Seq<char>| spec_key(other) != spec_key(key) implies #[trigger]
        spec_get_season(after, other) == spec_get_season(item, other) by {
        let wanted = spec_key(other);
        if has_key(item.seasons, wanted) {
            lemma_index_of(after.seasons, wanted, index_of(item.seasons, wanted));
        }
    }
}

/// A season that has been added is found: after `push_season` has
/// succeeded, the season found under the key is the one that was added.
pub proof fn lemma_push_then_get(item: ItemView, key: Seq<char>, season: SeasonView)
    requires
        item_wf(item),
        spec_push_season(item, key, season) is Ok,
    ensures
        spec_get_season(spec_push_season(item, key, season)->Ok_0, key) == Ok::<
            SeasonView,
            Diagnostic,
        >(season),
        item_wf(spec_push_season(item, key, season)->Ok_0),
{
    let after = spec_push_season(item, key, season)->Ok_0;
    lemma_key_is_key(key);
    assert(item_wf(after));
    lemma_index_of(after.seasons, spec_key(key), item.seasons.len() as int);
}

/// One item of a category.
#[derive(Debug, PartialEq, Eq)]
pub struct Item {
    display_name: String,
    status: Status,
    seasons: Vec<(String, Season)>,
}

spec fn seasons_view(seasons: Seq<(String, Season)>) -> Seq<(Seq<char>, SeasonView)> {
    Seq::new(seasons.len(), |i: int| (seasons[i].0@, seasons[i].1@))
}

impl View for Item {
    type V = ItemView;

    closed spec fn view(&self) -> ItemView {
        ItemView {
            display_name: self.display_name@,
            status: self.status,
            seasons: seasons_view(self.seasons@),
        }
    }
}

impl Clone for Item {
    fn clone(&self) -> (r: Self)
        ensures
            r@ == self@,
    {
        proof {
            use_type_invariant(self);
        }
        let mut seasons: Vec<(String, Season)> = Vec::new();
        let mut i: usize = 0;
        while i < self.seasons.len()
            invariant
                i <= self.seasons.len(),
                seasons@.len() == i,
                forall|j: int|
                    0 <= j < i ==> (#[trigger] seasons@[j]).0@ == self.seasons@[j].0@
                        && seasons@[j].1@ == self.seasons@[j].1@,
            decreases self.seasons.len() - i,
        {
            let key = self.seasons[i].0.clone();
            let season = self.seasons[i].1.clone();
            seasons.push((key, season));
            i += 1;
        }
        assert(seasons_view(seasons@) =~= seasons_view(self.seasons@));
        Item { display_name: self.display_name.clone(), status: self.status, seasons }
    }
}

impl Item {
    #[verifier::type_invariant]
    spec fn inv(&self) -> bool {
        item_wf(self@)
    }

    /// An item without seasons.
    pub fn new(display_name: &str, status: Status) -> (r: Item)
        ensures
            r@ == new_item(display_name@, status),
    {
        Item { display_name: owned(display_name), status, seasons: Vec::new() }
    }

    /// States what holds of every item.
    pub fn well_formed(&self)
        ensures
            item_wf(self@),
    {
        proof {
            use_type_invariant(self);
        }
    }

    /// The item's name as the user wrote it.
    pub fn display_name(&self) -> (r: &str)
        ensures
            r@ == self@.display_name,
    {
        self.display_name.as_str()
    }

    pub fn status(&self) -> (r: Status)
        ensures
            r == self@.status,
    {
        self.status
    }

    pub fn set_display_name(&mut self, display_name: &str)
        ensures
            final(self)@ == (ItemView { display_name: display_name@, ..old(self)@ }),
    {
        proof {
            use_type_invariant(&*self);
        }
        self.display_name = owned(display_name);
    }

    pub fn put_status(&mut self, status: Status)
        ensures
            final(self)@ == (ItemView { status, ..old(self)@ }),
    {
        proof {
            use_type_invariant(&*self);
        }
        self.status = status;
    }

    /// Sets the status to the one that `status` names. Any other text is
    /// `InvalidStatus`.
    pub fn set_status(&mut self, status: &str) -> (r: Result<(), Diagnostic>)
        ensures
            applied(spec_set_status(old(self)@, status@), old(self)@, final(self)@, r),
    {
        match Status::parse(status) {
            Ok(status) => {
                self.put_status(status);
                Ok(())
            },
            Err(diagnostic) => Err(diagnostic),
        }
    }

    pub fn season_count(&self) -> (r: usize)
        ensures
            r == self@.seasons.len(),
    {
        self.seasons.len()
    }

    /// The key of the season at place `index`.
    pub fn season_key(&self, index: usize) -> (r: &str)
        requires
            index < self@.seasons.len(),
        ensures
            r@ == self@.seasons[index as int].0,
    {
        self.seasons[index].0.as_str()
    }

    /// The season at place `index`.
    pub fn season(&self, index: usize) -> (r: &Season)
        requires
            index < self@.seasons.len(),
        ensures
            r@ == self@.seasons[index as int].1,
    {
        &self.seasons[index].1
    }

    /// The place of the season filed under the lower-case form of `key`.
    pub fn season_position(&self, key: &str) -> (r: Option<usize>)
        ensures
            r is Some <==> has_key(self@.seasons, spec_key(key@)),
            r is Some ==> r->Some_0 == index_of(self@.seasons, spec_key(key@)),
            r is Some ==> r->Some_0 < self@.seasons.len(),
    {
        proof {
            use_type_invariant(self);
        }
        let wanted = key_of(key);
        let mut i: usize = 0;
        while i < self.seasons.len()
            invariant
                i <= self.seasons.len(),
                wanted@ == spec_key(key@),
                item_wf(self@),
                forall|j: int| 0 <= j < i ==> (#[trigger] self@.seasons[j]).0 != wanted@,
            decreases self.seasons.len() - i,
        {
            if self.seasons[i].0 == wanted {
                proof {
                    lemma_index_of(self@.seasons, wanted@, i as int);
                }
                return Some(i);
            }
            i += 1;
        }
        None
    }

    pub fn has_season(&self, key: &str) -> (r: bool)
        ensures
            r == has_key(self@.seasons, spec_key(key@)),
    {
        self.season_position(key).is_some()
    }

    /// The season filed under the lower-case form of `key`, or
    /// `SeasonNotFound`.
    pub fn get_season(&self, key: &str) -> (r: Result<&Season, Diagnostic>)
        ensures
            match spec_get_season(self@, key@) {
                Ok(season) => r is Ok && r->Ok_0@ == season,
                Err(diagnostic) => r is Err && r->Err_0 == diagnostic,
            },
    {
        match self.season_position(key) {
            Some(i) => Ok(&self.seasons[i].1),
            None => Err(Diagnostic::SeasonNotFound),
        }
    }

    /// Adds `season` at the end, under the lower-case form of `key`. A key
    /// that is taken, by a season or by an attribute of the item, is
    /// `DuplicateSeason`.
    pub fn push_season(&mut self, key: &str, season: Season) -> (r: Result<(), Diagnostic>)
        ensures
            applied(spec_push_season(old(self)@, key@, season@), old(self)@, final(self)@, r),
    {
        proof {
            use_type_invariant(&*self);
        }
        let filed = key_of(key);
        if same_text(filed.as_str(), "disname") || same_text(filed.as_str(), "status") {
            return Err(Diagnostic::DuplicateSeason);
        }
        if self.season_position(filed.as_str()).is_some() {
            return Err(Diagnostic::DuplicateSeason);
        }
        let ghost before = self@;
        let mut seasons = Vec::new();
        std::mem::swap(&mut seasons, &mut self.seasons);
        seasons.push((filed, season));
        assert(seasons_view(seasons@) =~= before.seasons.push((filed@, season@)));
        self.seasons = seasons;
        Ok(())
    }

    /// Adds a season that is not rated and has no notes.
    pub fn insert_season(&mut self, key: &str, display_name: &str, studio: &str) -> (r: Result<
        (),
        Diagnostic,
    >)
        ensures
            applied(
                spec_push_season(old(self)@, key@, new_season(display_name@, studio@)),
                old(self)@,
                final(self)@,
                r,
            ),
    {
        self.push_season(key, Season::new(display_name, studio))
    }

    /// Sets a field of the season filed under the lower-case form of `key`.
    pub fn set_season_field(
        &mut self,
        key: &str,
        field_name: &str,
        value: FieldValue,
    ) -> (r: Result<(), Diagnostic>)
        ensures
            applied(
                spec_set_season_field(old(self)@, key@, field_name@, value@),
                old(self)@,
                final(self)@,
                r,
            ),
    {
        proof {
            use_type_invariant(&*self);
        }
        let i = match self.season_position(key) {
            Some(i) => i,
            None => {
                return Err(Diagnostic::SeasonNotFound);
            },
        };
        let ghost before = self@;
        let mut seasons = Vec::new();
        std::mem::swap(&mut seasons, &mut self.seasons);
        let r = seasons[i].1.set_field(field_name, value);
        assert(seasons_view(seasons@) =~= match r {
            Ok(_) => before.seasons.update(i as int, (spec_key(key@), seasons@[i as int].1@)),
            Err(_) => before.seasons,
        });
        self.seasons = seasons;
        r
    }
}

/// The items of a category with their keys, in the order in which they were
/// added.
pub type CategoryView = Seq<(Seq<char>, ItemView)>;

/// What holds of every category: its items are filed under distinct
/// lower-case keys, and each item is well formed.
pub open spec fn category_wf(category: CategoryView) -> bool {
    &&& distinct_keys(category)
    &&& keys_normal(category)
    &&& forall|i: int| 0 <= i < category.len() ==> item_wf((#[trigger] category[i]).1)
}

/// The rule of `Category::push_item`: an item is added at the end, under the
/// lower-case form of `key`, unless that key is taken.
pub open spec fn spec_push_item(category: CategoryView, key: Seq<char>, item: ItemView) -> Result<
    CategoryView,
    Diagnostic,
> {
    let key = spec_key(key);
    if has_key(category, key) {
        Err(Diagnostic::DuplicateItem)
    } else {
        Ok(category.push((key, item)))
    }
}

/// The rule of `Category::get_item`.
pub open spec fn spec_get_item(category: CategoryView, key: Seq<char>) -> Result<
    ItemView,
    Diagnostic,
> {
    let key = spec_key(key);
    if has_key(category, key) {
        Ok(value_of(category, key))
    } else {
        Err(Diagnostic::ItemNotFound)
    }
}

/// The rule of every change to one item of a category: the item is looked up
/// first, then `change` says what becomes of it.
pub open spec fn spec_change_item(
    category: CategoryView,
    key: Seq<char>,
    change: spec_fn(ItemView) -> Result<ItemView, Diagnostic>,
) -> Result<CategoryView, Diagnostic> {
    let key = spec_key(key);
    if !has_key(category, key) {
        Err(Diagnostic::ItemNotFound)
    } else {
        let i = index_of(category, key);
        match change(category[i].1) {
            Ok(item) => Ok(category.update(i, (key, item))),
            Err(diagnostic) => Err(diagnostic),
        }
    }
}

/// The items of one category.
#[derive(Debug, PartialEq, Eq)]
pub struct Category {
    items: Vec<(String, Item)>,
}

spec fn items_view(items: Seq<(String, Item)>) -> CategoryView {
    Seq::new(items.len(), |i: int| (items[i].0@, items[i].1@))
}

impl View for Category {
    type V = CategoryView;

    closed spec fn view(&self) -> CategoryView {
        items_view(self.items@)
    }
}

impl Clone for Category {
    fn clone(&self) -> (r: Self)
        ensures
            r@ == self@,
    {
        proof {
            use_type_invariant(self);
        }
        let mut items: Vec<(String, Item)> = Vec::new();
        let mut i: usize = 0;
        while i < self.items.len()
            invariant
                i <= self.items.len(),
                items@.len() == i,
                forall|j: int|
                    0 <= j < i ==> (#[trigger] items@[j]).0@ == self.items@[j].0@ && items@[j].1@
                        == self.items@[j].1@,
            decreases self.items.len() - i,
        {
            let key = self.items[i].0.clone();
            let item = self.items[i].1.clone();
            items.push((key, item));
            i += 1;
        }
        assert(items_view(items@) =~= items_view(self.items@));
        Category { items }
    }
}

impl Category {
    #[verifier::type_invariant]
    spec fn inv(&self) -> bool {
        category_wf(self@)
    }

    /// A category without items.
    pub fn new() -> (r: Category)
        ensures
            r@ == Seq::<(Seq<char>, ItemView)>::empty(),
    {
        Category { items: Vec::new() }
    }

    /// States what holds of every category.
    pub fn well_formed(&self)
        ensures
            category_wf(self@),
    {
        proof {
            use_type_invariant(self);
        }
    }

    pub fn len(&self) -> (r: usize)
        ensures
            r == self@.len(),
    {
        self.items.len()
    }

    /// The key of the item at place `index`.
    pub fn key(&self, index: usize) -> (r: &str)
        requires
            index < self@.len(),
        ensures
            r@ == self@[index as int].0,
    {
        self.items[index].0.as_str()
    }

    /// The item at place `index`.
    pub fn item(&self, index: usize) -> (r: &Item)
        requires
            index < self@.len(),
        ensures
            r@ == self@[index as int].1,
    {
        &self.items[index].1
    }

    /// The place of the item filed under the lower-case form of `key`.
    pub fn position(&self, key: &str) -> (r: Option<usize>)
        ensures
            r is Some <==> has_key(self@, spec_key(key@)),
            r is Some ==> r->Some_0 == index_of(self@, spec_key(key@)),
            r is Some ==> r->Some_0 < self@.len(),
    {
        proof {
            use_type_invariant(self);
        }
        let wanted = key_of(key);
        let mut i: usize = 0;
        while i < self.items.len()
            invariant
                i <= self.items.len(),
                wanted@ == spec_key(key@),
                category_wf(self@),
                forall|j: int| 0 <= j < i ==> (#[trigger] self@[j]).0 != wanted@,
            decreases self.items.len() - i,
        {
            if self.items[i].0 == wanted {
                proof {
                    lemma_index_of(self@, wanted@, i as int);
                }
                return Some(i);
            }
            i += 1;
        }
        None
    }

    pub fn has_item(&self, key: &str) -> (r: bool)
        ensures
            r == has_key(self@, spec_key(key@)),
    {
        self.position(key).is_some()
    }

    /// The item filed under the lower-case form of `key`, or `ItemNotFound`.
    pub fn get_item(&self, key: &str) -> (r: Result<&Item, Diagnostic>)
        ensures
            match spec_get_item(self@, key@) {
                Ok(item) => r is Ok && r->Ok_0@ == item,
                Err(diagnostic) => r is Err && r->Err_0 == diagnostic,
            },
    {
        match self.position(key) {
            Some(i) => Ok(&self.items[i].1),
            None => Err(Diagnostic::ItemNotFound),
        }
    }

    /// Adds `item` at the end, under the lower-case form of `key`. A key that
    /// is taken is `DuplicateItem`.
    pub fn push_item(&mut self, key: &str, item: Item) -> (r: Result<(), Diagnostic>)
        ensures
            applied(spec_push_item(old(self)@, key@, item@), old(self)@, final(self)@, r),
    {
        proof {
            use_type_invariant(&*self);
        }
        if self.position(key).is_some() {
            return Err(Diagnostic::DuplicateItem);
        }
        item.well_formed();
        let filed = key_of(key);
        let ghost before = self@;
        let mut items = Vec::new();
        std::mem::swap(&mut items, &mut self.items);
        items.push((filed, item));
        assert(items_view(items@) =~= before.push((spec_key(key@), item@)));
        self.items = items;
        Ok(())
    }

    /// Adds an item without seasons.
    pub fn insert_item(
        &mut self,
        key: &str,
        display_name: &str,
        initial_status: Status,
    ) -> (r: Result<(), Diagnostic>)
        ensures
            applied(
                spec_push_item(old(self)@, key@, new_item(display_name@, initial_status)),
                old(self)@,
                final(self)@,
                r,
            ),
    {
        self.push_item(key, Item::new(display_name, initial_status))
    }

    /// Puts `item` in the place of the item filed under the lower-case form of
    /// `key`.
    pub fn replace_item(&mut self, key: &str, item: Item) -> (r: Result<(), Diagnostic>)
        ensures
            applied(
                spec_change_item(
                    old(self)@,
                    key@,
                    |found: ItemView| Ok::<ItemView, Diagnostic>(item@),
                ),
                old(self)@,
                final(self)@,
                r,
            ),
    {
        proof {
            use_type_invariant(&*self);
        }
        let i = match self.position(key) {
            Some(i) => i,
            None => {
                return Err(Diagnostic::ItemNotFound);
            },
        };
        item.well_formed();
        let ghost before = self@;
        let mut items = Vec::new();
        std::mem::swap(&mut items, &mut self.items);
        items[i].1 = item;
        assert(items_view(items@) =~= before.update(i as int, (spec_key(key@), item@)));
        self.items = items;
        Ok(())
    }

    /// Sets the status of the item filed under the lower-case form of `key`.
    pub fn set_status(&mut self, key: &str, status: Status) -> (r: Result<(), Diagnostic>)
        ensures
            applied(
                spec_change_item(
                    old(self)@,
                    key@,
                    |item: ItemView| Ok::<ItemView, Diagnostic>(ItemView { status, ..item }),
                ),
                old(self)@,
                final(self)@,
                r,
            ),
    {
        proof {
            use_type_invariant(&*self);
        }
        let i = match self.position(key) {
            Some(i) => i,
            None => {
                return Err(Diagnostic::ItemNotFound);
            },
        };
        let ghost before = self@;
        let mut items = Vec::new();
        std::mem::swap(&mut items, &mut self.items);
        items[i].1.put_status(status);
        items[i].1.well_formed();
        assert(items_view(items@) =~= before.update(
            i as int,
            (spec_key(key@), items@[i as int].1@),
        ));
        self.items = items;
        Ok(())
    }

    /// Adds `season` to the item filed under the lower-case form of `key`.
    pub fn push_season(&mut self, key: &str, season_key: &str, season: Season) -> (r: Result<
        (),
        Diagnostic,
    >)
        ensures
            applied(
                spec_change_item(
                    old(self)@,
                    key@,
                    |item: ItemView| spec_push_season(item, season_key@, season@),
                ),
                old(self)@,
                final(self)@,
                r,
            ),
    {
        proof {
            use_type_invariant(&*self);
        }
        let i = match self.position(key) {
            Some(i) => i,
            None => {
                return Err(Diagnostic::ItemNotFound);
            },
        };
        let ghost before = self@;
        let mut items = Vec::new();
        std::mem::swap(&mut items, &mut self.items);
        let r = items[i].1.push_season(season_key, season);
        items[i].1.well_formed();
        assert(items_view(items@) =~= match r {
            Ok(_) => before.update(i as int, (spec_key(key@), items@[i as int].1@)),
            Err(_) => before,
        });
        self.items = items;
        r
    }

    /// Sets a field of a season of the item filed under the lower-case form
    /// of `key`.
    pub fn set_season_field(
        &mut self,
        key: &str,
        season_key: &str,
        field_name: &str,
        value: FieldValue,
    ) -> (r: Result<(), Diagnostic>)
        ensures
            applied(
                spec_change_item(
                    old(self)@,
                    key@,
                    |item: ItemView| spec_set_season_field(item, season_key@, field_name@, value@),
                ),
                old(self)@,
                final(self)@,
                r,
            ),
    {
        proof {
            use_type_invariant(&*self);
        }
        let i = match self.position(key) {
            Some(i) => i,
            None => {
                return Err(Diagnostic::ItemNotFound);
            },
        };
        let ghost before = self@;
        let mut items = Vec::new();
        std::mem::swap(&mut items, &mut self.items);
        let r = items[i].1.set_season_field(season_key, field_name, value);
        items[i].1.well_formed();
        assert(items_view(items@) =~= match r {
            Ok(_) => before.update(i as int, (spec_key(key@), items@[i as int].1@)),
            Err(_) => before,
        });
        self.items = items;
        r
    }
}

/// The categories of a document, each under its tag.
pub type DocumentView = Map<CategoryTag, CategoryView>;

/// What holds of every document: it has every category of the fixed set, and
/// each is well formed.
pub open spec fn document_wf(document: DocumentView) -> bool {
    &&& forall|tag: CategoryTag| #[trigger] document.dom().contains(tag)
    &&& forall|tag: CategoryTag| category_wf(#[trigger] document[tag])
}

/// The document in which every category is there and none has an item.
pub open spec fn empty_document() -> DocumentView {
    Map::new(|tag: CategoryTag| true, |tag: CategoryTag| Seq::<(Seq<char>, ItemView)>::empty())
}

/// The rule of every change to one category of a document.
pub open spec fn spec_change_category(
    document: DocumentView,
    tag: CategoryTag,
    changed: Result<CategoryView, Diagnostic>,
) -> Result<DocumentView, Diagnostic> {
    match changed {
        Ok(category) => Ok(document.insert(tag, category)),
        Err(diagnostic) => Err(diagnostic),
    }
}

/// The rule of `Document::get_category`.
pub open spec fn spec_get_category(document: DocumentView, tag: Seq<char>) -> Result<
    CategoryView,
    Diagnostic,
> {
    match CategoryTag::spec_parse(tag) {
        Some(tag) => Ok(document[tag]),
        None => Err(Diagnostic::InvalidCategory),
    }
}

/// The whole ledger: one category for each tag of the fixed set.
#[derive(Debug, PartialEq, Eq)]
pub struct Document {
    series: Category,
    movie: Category,
    book: Category,
    podcast: Category,
    game: Category,
    manga: Category,
}

impl View for Document {
    type V = DocumentView;

    closed spec fn view(&self) -> DocumentView {
        Map::new(
            |tag: CategoryTag| true,
            |tag: CategoryTag|
                match tag {
                    CategoryTag::Series => self.series@,
                    CategoryTag::Movie => self.movie@,
                    CategoryTag::Book => self.book@,
                    CategoryTag::Podcast => self.podcast@,
                    CategoryTag::Game => self.game@,
                    CategoryTag::Manga => self.manga@,
                },
        )
    }
}

impl Clone for Document {
    fn clone(&self) -> (r: Self)
        ensures
            r@ == self@,
    {
        Document {
            series: self.series.clone(),
            movie: self.movie.clone(),
            book: self.book.clone(),
            podcast: self.podcast.clone(),
            game: self.game.clone(),
            manga: self.manga.clone(),
        }
    }
}

impl Document {
    /// The document to start from: every category, no item.
    pub fn new() -> (r: Document)
        ensures
            r@ == empty_document(),
    {
        Document {
            series: Category::new(),
            movie: Category::new(),
            book: Category::new(),
            podcast: Category::new(),
            game: Category::new(),
            manga: Category::new(),
        }
    }

    /// States what holds of every document.
    pub fn well_formed(&self)
        ensures
            document_wf(self@),
    {
        self.series.well_formed();
        self.movie.well_formed();
        self.book.well_formed();
        self.podcast.well_formed();
        self.game.well_formed();
        self.manga.well_formed();
    }

    /// The category under `tag`.
    pub fn category(&self, tag: CategoryTag) -> (r: &Category)
        ensures
            r@ == self@[tag],
    {
        match tag {
            CategoryTag::Series => &self.series,
            CategoryTag::Movie => &self.movie,
            CategoryTag::Book => &self.book,
            CategoryTag::Podcast => &self.podcast,
            CategoryTag::Game => &self.game,
            CategoryTag::Manga => &self.manga,
        }
    }

    /// The category that `tag` names. Any other text is `InvalidCategory`.
    pub fn get_category(&self, tag: &str) -> (r: Result<&Category, Diagnostic>)
        ensures
            match spec_get_category(self@, tag@) {
                Ok(category) => r is Ok && r->Ok_0@ == category,
                Err(diagnostic) => r is Err && r->Err_0 == diagnostic,
            },
    {
        match CategoryTag::parse(tag) {
            Ok(tag) => Ok(self.category(tag)),
            Err(diagnostic) => Err(diagnostic),
        }
    }

    /// Puts `category` in the place of the one under `tag`.
    pub fn set_category(&mut self, tag: CategoryTag, category: Category)
        ensures
            final(self)@ == old(self)@.insert(tag, category@),
    {
        match tag {
            CategoryTag::Series => {
                self.series = category;
            },
            CategoryTag::Movie => {
                self.movie = category;
            },
            CategoryTag::Book => {
                self.book = category;
            },
            CategoryTag::Podcast => {
                self.podcast = category;
            },
            CategoryTag::Game => {
                self.game = category;
            },
            CategoryTag::Manga => {
                self.manga = category;
            },
        }
    }

    /// Takes the category under `tag` out, leaving one without items.
    fn take_category(&mut self, tag: CategoryTag) -> (r: Category)
        ensures
            r@ == old(self)@[tag],
            final(self)@ == old(self)@.insert(tag, Seq::<(Seq<char>, ItemView)>::empty()),
    {
        let mut category = Category::new();
        match tag {
            CategoryTag::Series => {
                std::mem::swap(&mut category, &mut self.series);
            },
            CategoryTag::Movie => {
                std::mem::swap(&mut category, &mut self.movie);
            },
            CategoryTag::Book => {
                std::mem::swap(&mut category, &mut self.book);
            },
            CategoryTag::Podcast => {
                std::mem::swap(&mut category, &mut self.podcast);
            },
            CategoryTag::Game => {
                std::mem::swap(&mut category, &mut self.game);
            },
            CategoryTag::Manga => {
                std::mem::swap(&mut category, &mut self.manga);
            },
        }
        category
    }

    pub fn has_item(&self, tag: CategoryTag, key: &str) -> (r: bool)
        ensures
            r == has_key(self@[tag], spec_key(key@)),
    {
        self.category(tag).has_item(key)
    }

    /// The item of category `tag` filed under the lower-case form of `key`,
    /// or `ItemNotFound`.
    pub fn get_item(&self, tag: CategoryTag, key: &str) -> (r: Result<&Item, Diagnostic>)
        ensures
            match spec_get_item(self@[tag], key@) {
                Ok(item) => r is Ok && r->Ok_0@ == item,
                Err(diagnostic) => r is Err && r->Err_0 == diagnostic,
            },
    {
        self.category(tag).get_item(key)
    }

    /// Adds an item without seasons to category `tag`.
    pub fn insert_item(
        &mut self,
        tag: CategoryTag,
        key: &str,
        display_name: &str,
        initial_status: Status,
    ) -> (r: Result<(), Diagnostic>)
        ensures
            applied(
                spec_change_category(
                    old(self)@,
                    tag,
                    spec_push_item(old(self)@[tag], key@, new_item(display_name@, initial_status)),
                ),
                old(self)@,
                final(self)@,
                r,
            ),
    {
        let mut category = self.take_category(tag);
        let r = category.insert_item(key, display_name, initial_status);
        self.set_category(tag, category);
        assert(r is Err ==> self@ =~= old(self)@);
        assert(r is Ok ==> self@ =~= old(self)@.insert(tag, category@));
        r
    }

    /// Puts `item` in the place of the item of category `tag` filed under
    /// the lower-case form of `key`.
    pub fn replace_item(&mut self, tag: CategoryTag, key: &str, item: Item) -> (r: Result<
        (),
        Diagnostic,
    >)
        ensures
            applied(
                spec_change_category(
                    old(self)@,
                    tag,
                    spec_change_item(
                        old(self)@[tag],
                        key@,
                        |found: ItemView| Ok::<ItemView, Diagnostic>(item@),
                    ),
                ),
                old(self)@,
                final(self)@,
                r,
            ),
    {
        let mut category = self.take_category(tag);
        let r = category.replace_item(key, item);
        self.set_category(tag, category);
        assert(r is Err ==> self@ =~= old(self)@);
        assert(r is Ok ==> self@ =~= old(self)@.insert(tag, category@));
        r
    }

    /// Sets the status of an item of category `tag`.
    pub fn set_status(&mut self, tag: CategoryTag, key: &str, status: Status) -> (r: Result<
        (),
        Diagnostic,
    >)
        ensures
            applied(
                spec_change_category(
                    old(self)@,
                    tag,
                    spec_change_item(
                        old(self)@[tag],
                        key@,
                        |item: ItemView| Ok::<ItemView, Diagnostic>(ItemView { status, ..item }),
                    ),
                ),
                old(self)@,
                final(self)@,
                r,
            ),
    {
        let mut category = self.take_category(tag);
        let r = category.set_status(key, status);
        self.set_category(tag, category);
        assert(r is Err ==> self@ =~= old(self)@);
        assert(r is Ok ==> self@ =~= old(self)@.insert(tag, category@));
        r
    }

    /// Adds a season, not rated and without notes, to an item of category
    /// `tag`.
    pub fn insert_season(
        &mut self,
        tag: CategoryTag,
        key: &str,
        season_key: &str,
        display_name: &str,
        studio: &str,
    ) -> (r: Result<(), Diagnostic>)
        ensures
            applied(
                spec_change_category(
                    old(self)@,
                    tag,
                    spec_change_item(
                        old(self)@[tag],
                        key@,
                        |item: ItemView|
                            spec_push_season(item, season_key@, new_season(display_name@, studio@)),
                    ),
                ),
                old(self)@,
                final(self)@,
                r,
            ),
    {
        let mut category = self.take_category(tag);
        let r = category.push_season(key, season_key, Season::new(display_name, studio));
        self.set_category(tag, category);
        assert(r is Err ==> self@ =~= old(self)@);
        assert(r is Ok ==> self@ =~= old(self)@.insert(tag, category@));
        r
    }

    /// Sets a field of a season of an item of category `tag`.
    pub fn set_season_field(
        &mut self,
        tag: CategoryTag,
        key: &str,
        season_key: &str,
        field_name: &str,
        value: FieldValue,
    ) -> (r: Result<(), Diagnostic>)
        ensures
            applied(
                spec_change_category(
                    old(self)@,
                    tag,
                    spec_change_item(
                        old(self)@[tag],
                        key@,
                        |item: ItemView|
                            spec_set_season_field(item, season_key@, field_name@, value@),
                    ),
                ),
                old(self)@,
                final(self)@,
                r,
            ),
    {
        let mut category = self.take_category(tag);
        let r = category.set_season_field(key, season_key, field_name, value);
        self.set_category(tag, category);
        assert(r is Err ==> self@ =~= old(self)@);
        assert(r is Ok ==> self@ =~= old(self)@.insert(tag, category@));
        r
    }
}

} // verus!
