//! The fixed sets: categories, statuses and the editable fields of a season.
//!
//! Each set is a closed enum. Text becomes a member of a set only through
//! `parse`, which is where an unknown name is turned down.

use vstd::prelude::*;
use crate::diagnostic::Diagnostic;
use crate::text::same_text;

verus! {

/// The category an item is filed under.
#[derive(Clone, Copy, Debug, PartialEq, Eq, Structural)]
pub enum CategoryTag {
    Series,
    Movie,
    Book,
    Podcast,
    Game,
    Manga,
}

/// How many categories there are.
pub const CATEGORY_COUNT: usize = 6;

/// The categories in their fixed order.
pub open spec fn all_categories() -> Seq<CategoryTag> {
    seq![
        CategoryTag::Series,
        CategoryTag::Movie,
        CategoryTag::Book,
        CategoryTag::Podcast,
        CategoryTag::Game,
        CategoryTag::Manga,
    ]
}

impl CategoryTag {
    /// The name by which the category is written.
    pub open spec fn spec_name(self) -> Seq<char> {
        match self {
            CategoryTag::Series => "series"@,
            CategoryTag::Movie => "movie"@,
            CategoryTag::Book => "book"@,
            CategoryTag::Podcast => "podcast"@,
            CategoryTag::Game => "game"@,
            CategoryTag::Manga => "manga"@,
        }
    }

    /// The category that a text names, if it names one.
    pub open spec fn spec_parse(text: Seq<char>) -> Option<CategoryTag> {
        if text == "series"@ {
            Some(CategoryTag::Series)
        } else if text == "movie"@ {
            Some(CategoryTag::Movie)
        } else if text == "book"@ {
            Some(CategoryTag::Book)
        } else if text == "podcast"@ {
            Some(CategoryTag::Podcast)
        } else if text == "game"@ {
            Some(CategoryTag::Game)
        } else if text == "manga"@ {
            Some(CategoryTag::Manga)
        } else {
            None
        }
    }

    /// The place of the category in the fixed order.
    pub open spec fn spec_index(self) -> int {
        match self {
            CategoryTag::Series => 0,
            CategoryTag::Movie => 1,
            CategoryTag::Book => 2,
            CategoryTag::Podcast => 3,
            CategoryTag::Game => 4,
            CategoryTag::Manga => 5,
        }
    }

    pub fn name(self) -> (r: &'static str)
        ensures
            r@ == self.spec_name(),
    {
        match self {
            CategoryTag::Series => "series",
            CategoryTag::Movie => "movie",
            CategoryTag::Book => "book",
            CategoryTag::Podcast => "podcast",
            CategoryTag::Game => "game",
            CategoryTag::Manga => "manga",
        }
    }

    /// Reads a category name. Any other text is `InvalidCategory`.
    pub fn parse(text: &str) -> (r: Result<CategoryTag, Diagnostic>)
        ensures
            r == match Self::spec_parse(text@) {
                Some(tag) => Ok::<CategoryTag, Diagnostic>(tag),
                None => Err(Diagnostic::InvalidCategory),
            },
    {
        if same_text(text, "series") {
            Ok(CategoryTag::Series)
        } else if same_text(text, "movie") {
            Ok(CategoryTag::Movie)
        } else if same_text(text, "book") {
            Ok(CategoryTag::Book)
        } else if same_text(text, "podcast") {
            Ok(CategoryTag::Podcast)
        } else if same_text(text, "game") {
            Ok(CategoryTag::Game)
        } else if same_text(text, "manga") {
            Ok(CategoryTag::Manga)
        } else {
            Err(Diagnostic::InvalidCategory)
        }
    }

    pub fn index(self) -> (r: usize)
        ensures
            r == self.spec_index(),
            r < CATEGORY_COUNT,
            all_categories()[r as int] == self,
    {
        match self {
            CategoryTag::Series => 0,
            CategoryTag::Movie => 1,
            CategoryTag::Book => 2,
            CategoryTag::Podcast => 3,
            CategoryTag::Game => 4,
            CategoryTag::Manga => 5,
        }
    }

    /// The category at a place of the fixed order.
    pub fn at(index: usize) -> (r: CategoryTag)
        requires
            index < CATEGORY_COUNT,
        ensures
            r == all_categories()[index as int],
            r.spec_index() == index,
    {
        if index == 0 {
            CategoryTag::Series
        } else if index == 1 {
            CategoryTag::Movie
        } else if index == 2 {
            CategoryTag::Book
        } else if index == 3 {
            CategoryTag::Podcast
        } else if index == 4 {
            CategoryTag::Game
        } else {
            CategoryTag::Manga
        }
    }

    /// Every category, in the fixed order.
    pub fn all() -> (r: Vec<CategoryTag>)
        ensures
            r@ == all_categories(),
    {
        let mut tags: Vec<CategoryTag> = Vec::new();
        tags.push(CategoryTag::Series);
        tags.push(CategoryTag::Movie);
        tags.push(CategoryTag::Book);
        tags.push(CategoryTag::Podcast);
        tags.push(CategoryTag::Game);
        tags.push(CategoryTag::Manga);
        tags
    }
}

/// A category's name reads back as the category, and no other text does.
pub proof fn lemma_category_names(tag: CategoryTag, text: Seq<char>)
    ensures
        CategoryTag::spec_parse(tag.spec_name()) == Some(tag),
        CategoryTag::spec_parse(text) == Some(tag) <==> text == tag.spec_name(),
{
    reveal_strlit("series");
    reveal_strlit("movie");
    reveal_strlit("book");
    reveal_strlit("podcast");
    reveal_strlit("game");
    reveal_strlit("manga");
    assert("series"@.len() == 6 && "podcast"@.len() == 7);
    assert("movie"@.len() == 5 && "movie"@[1] == 'o');
    assert("manga"@.len() == 5 && "manga"@[1] == 'a');
    assert("book"@.len() == 4 && "book"@[0] == 'b');
    assert("game"@.len() == 4 && "game"@[0] == 'g');
}

/// Where the user stands with an item.
#[derive(Clone, Copy, Debug, PartialEq, Eq, Structural)]
pub enum Status {
    Planned,
    InProgress,
    Completed,
    Paused,
    Dropped,
}

impl Status {
    /// The name by which the status is written.
    pub open spec fn spec_name(self) -> Seq<char> {
        match self {
            Status::Planned => "planned"@,
            Status::InProgress => "in-progress"@,
            Status::Completed => "completed"@,
            Status::Paused => "paused"@,
            Status::Dropped => "dropped"@,
        }
    }

    /// The status that a text names, if it names one.
    pub open spec fn spec_parse(text: Seq<char>) -> Option<Status> {
        if text == "planned"@ {
            Some(Status::Planned)
        } else if text == "in-progress"@ {
            Some(Status::InProgress)
        } else if text == "completed"@ {
            Some(Status::Completed)
        } else if text == "paused"@ {
            Some(Status::Paused)
        } else if text == "dropped"@ {
            Some(Status::Dropped)
        } else {
            None
        }
    }

    pub fn name(self) -> (r: &'static str)
        ensures
            r@ == self.spec_name(),
    {
        match self {
            Status::Planned => "planned",
            Status::InProgress => "in-progress",
            Status::Completed => "completed",
            Status::Paused => "paused",
            Status::Dropped => "dropped",
        }
    }

    /// Reads a status name. Any other text is `InvalidStatus`.
    pub fn parse(text: &str) -> (r: Result<Status, Diagnostic>)
        ensures
            r == match Self::spec_parse(text@) {
                Some(status) => Ok::<Status, Diagnostic>(status),
                None => Err(Diagnostic::InvalidStatus),
            },
    {
        if same_text(text, "planned") {
            Ok(Status::Planned)
        } else if same_text(text, "in-progress") {
            Ok(Status::InProgress)
        } else if same_text(text, "completed") {
            Ok(Status::Completed)
        } else if same_text(text, "paused") {
            Ok(Status::Paused)
        } else if same_text(text, "dropped") {
            Ok(Status::Dropped)
        } else {
            Err(Diagnostic::InvalidStatus)
        }
    }
}

/// A status's name reads back as the status, and no other text does.
pub proof fn lemma_status_names(status: Status, text: Seq<char>)
    ensures
        Status::spec_parse(status.spec_name()) == Some(status),
        Status::spec_parse(text) == Some(status) <==> text == status.spec_name(),
{
    reveal_strlit("planned");
    reveal_strlit("in-progress");
    reveal_strlit("completed");
    reveal_strlit("paused");
    reveal_strlit("dropped");
    assert("planned"@.len() == 7 && "planned"@[0] == 'p');
    assert("dropped"@.len() == 7 && "dropped"@[0] == 'd');
    assert("in-progress"@.len() == 11 && "completed"@.len() == 9 && "paused"@.len() == 6);
}

/// What of a season the editor can be opened on.
#[derive(Clone, Copy, Debug, PartialEq, Eq, Structural)]
pub enum SeasonField {
    Studio,
    Rating,
    Notes,
    /// The season as a whole.
    Json,
}

impl SeasonField {
    /// The name by which the field is written.
    pub open spec fn spec_name(self) -> Seq<char> {
        match self {
            SeasonField::Studio => "studio"@,
            SeasonField::Rating => "rating"@,
            SeasonField::Notes => "notes"@,
            SeasonField::Json => "json"@,
        }
    }

    /// The field that a text names, if it names one.
    pub open spec fn spec_parse(text: Seq<char>) -> Option<SeasonField> {
        if text == "studio"@ {
            Some(SeasonField::Studio)
        } else if text == "rating"@ {
            Some(SeasonField::Rating)
        } else if text == "notes"@ {
            Some(SeasonField::Notes)
        } else if text == "json"@ {
            Some(SeasonField::Json)
        } else {
            None
        }
    }

    pub fn name(self) -> (r: &'static str)
        ensures
            r@ == self.spec_name(),
    {
        match self {
            SeasonField::Studio => "studio",
            SeasonField::Rating => "rating",
            SeasonField::Notes => "notes",
            SeasonField::Json => "json",
        }
    }

    /// Reads a field name. Any other text is `InvalidField`.
    pub fn parse(text: &str) -> (r: Result<SeasonField, Diagnostic>)
        ensures
            r == match Self::spec_parse(text@) {
                Some(field) => Ok::<SeasonField, Diagnostic>(field),
                None => Err(Diagnostic::InvalidField),
            },
    {
        if same_text(text, "studio") {
            Ok(SeasonField::Studio)
        } else if same_text(text, "rating") {
            Ok(SeasonField::Rating)
        } else if same_text(text, "notes") {
            Ok(SeasonField::Notes)
        } else if same_text(text, "json") {
            Ok(SeasonField::Json)
        } else {
            Err(Diagnostic::InvalidField)
        }
    }
}

/// A field's name reads back as the field, and no other text does.
pub proof fn lemma_field_names(field: SeasonField, text: Seq<char>)
    ensures
        SeasonField::spec_parse(field.spec_name()) == Some(field),
        SeasonField::spec_parse(text) == Some(field) <==> text == field.spec_name(),
{
    reveal_strlit("studio");
    reveal_strlit("rating");
    reveal_strlit("notes");
    reveal_strlit("json");
    assert("studio"@.len() == 6 && "studio"@[0] == 's');
    assert("rating"@.len() == 6 && "rating"@[0] == 'r');
    assert("notes"@.len() == 5 && "json"@.len() == 4);
}

} // verus!
