//! The commands: how a line of arguments is read as one, and what each does
//! to a document.
//!
//! A command either succeeds, with an outcome, or is turned down, with a
//! diagnostic; a command that is turned down leaves the document as it was.
//! The two commands that open an editor are handed the editor as a function
//! from the text shown to the text that comes back.

use vstd::prelude::*;
use crate::diagnostic::Diagnostic;
use crate::model::{
    Document, DocumentView, FieldValueView, ItemView, category_wf, distinct_keys, document_wf,
    has_key, index_of, lemma_index_of, lemma_push_then_get, lemma_set_then_get, new_item,
    new_season, spec_change_category, spec_change_item, spec_get_item, spec_get_season,
    spec_push_item, spec_push_season, spec_set_season_field, value_of, viewed,
};
use crate::query::{
    RankRecord, RankRecordView, RankScope, all_consumed, is_first_planned, is_ranking, next, rank,
    records_view, walked_records,
};
use crate::schema::{CategoryTag, SeasonField, Status, all_categories, lemma_field_names};
use crate::similarity::{Suggestion, SuggestionView, spec_scores, spec_suggestion, suggest};
use crate::store::{
    field_from_text, field_of_text, field_to_text, item_from_text, item_of_text, item_to_text,
    shows_field, shows_item,
};
use crate::text::{key_of, lemma_key_is_key, owned, same_text, spec_key};

verus! {

/// One command with its arguments.
#[derive(Debug, PartialEq, Eq)]
pub enum Command {
    /// Adds an item; `name` is the name as the user wrote it.
    Add { name: String, category: CategoryTag },
    /// Opens the editor on an item.
    Edit { name: String, category: CategoryTag },
    /// Sets the status of an item.
    EditStatus { status: Status, name: String, category: CategoryTag },
    /// Adds a season to an item; `season` is the season's name as the user
    /// wrote it.
    AddSeason { season: String, name: String, category: CategoryTag, studio: String },
    /// Opens the editor on a field of a season.
    EditSeason { season: String, field: String, name: String, category: CategoryTag },
    /// Asks for the next planned item of a category.
    Next { category: CategoryTag },
    /// Asks for the ranking of the rated seasons.
    Rank { scope: RankScope },
    /// Asks for the categories.
    Categories,
    /// Asks for the list of commands.
    Help,
}

#[verifier::ext_equal]
pub enum CommandView {
    Add { name: Seq<char>, category: CategoryTag },
    Edit { name: Seq<char>, category: CategoryTag },
    EditStatus { status: Status, name: Seq<char>, category: CategoryTag },
    AddSeason { season: Seq<char>, name: Seq<char>, category: CategoryTag, studio: Seq<char> },
    EditSeason { season: Seq<char>, field: Seq<char>, name: Seq<char>, category: CategoryTag },
    Next { category: CategoryTag },
    Rank { scope: RankScope },
    Categories,
    Help,
}

impl View for Command {
    type V = CommandView;

    open spec fn view(&self) -> CommandView {
        match self {
            Command::Add { name, category } => CommandView::Add {
                name: name@,
                category: *category,
            },
            Command::Edit { name, category } => CommandView::Edit {
                name: name@,
                category: *category,
            },
            Command::EditStatus { status, name, category } => CommandView::EditStatus {
                status: *status,
                name: name@,
                category: *category,
            },
            Command::AddSeason { season, name, category, studio } => CommandView::AddSeason {
                season: season@,
                name: name@,
                category: *category,
                studio: studio@,
            },
            Command::EditSeason { season, field, name, category } => CommandView::EditSeason {
                season: season@,
                field: field@,
                name: name@,
                category: *category,
            },
            Command::Next { category } => CommandView::Next { category: *category },
            Command::Rank { scope } => CommandView::Rank { scope: *scope },
            Command::Categories => CommandView::Categories,
            Command::Help => CommandView::Help,
        }
    }
}

/// The texts of a list of arguments.
pub open spec fn texts(arguments: Seq<String>) -> Seq<Seq<char>> {
    Seq::new(arguments.len(), |i: int| arguments[i]@)
}

/// The scope that an argument of `rank` names: a category, or `all`.
pub open spec fn spec_parse_scope(text: Seq<char>) -> Result<RankScope, Diagnostic> {
    match CategoryTag::spec_parse(text) {
        Some(tag) => Ok(RankScope::Only(tag)),
        None => if text == "all"@ {
            Ok(RankScope::All)
        } else {
            Err(Diagnostic::InvalidCategory)
        },
    }
}

/// The category that an argument names, whatever the case of its letters.
pub open spec fn spec_category_argument(text: Seq<char>) -> Result<CategoryTag, Diagnostic> {
    match CategoryTag::spec_parse(spec_key(text)) {
        Some(tag) => Ok(tag),
        None => Err(Diagnostic::InvalidCategory),
    }
}

/// Whether `r` is what the rule gives.
pub open spec fn reads_as(
    rule: Result<CommandView, Diagnostic>,
    r: Result<Command, Diagnostic>,
) -> bool {
    match rule {
        Ok(command) => r is Ok && r->Ok_0@ == command,
        Err(diagnostic) => r is Err && r->Err_0 == diagnostic,
    }
}

/// The rule of `add <name> <category>`.
pub open spec fn spec_read_add(arguments: Seq<Seq<char>>) -> Result<CommandView, Diagnostic> {
    if arguments.len() < 3 {
        Err(Diagnostic::InsufficientArguments)
    } else {
        match spec_category_argument(arguments[2]) {
            Ok(category) => Ok(CommandView::Add { name: arguments[1], category }),
            Err(diagnostic) => Err(diagnostic),
        }
    }
}

/// The rule of `edit <name> <category>`.
pub open spec fn spec_read_edit(arguments: Seq<Seq<char>>) -> Result<CommandView, Diagnostic> {
    if arguments.len() < 3 {
        Err(Diagnostic::InsufficientArguments)
    } else {
        match spec_category_argument(arguments[2]) {
            Ok(category) => Ok(CommandView::Edit { name: spec_key(arguments[1]), category }),
            Err(diagnostic) => Err(diagnostic),
        }
    }
}

/// The rule of `editstatus <status> <name> <category>`. The category is
/// looked at before the status.
pub open spec fn spec_read_edit_status(arguments: Seq<Seq<char>>) -> Result<
    CommandView,
    Diagnostic,
> {
    if arguments.len() < 4 {
        Err(Diagnostic::InsufficientArguments)
    } else {
        match spec_category_argument(arguments[3]) {
            Ok(category) => match Status::spec_parse(spec_key(arguments[1])) {
                Some(status) => Ok(
                    CommandView::EditStatus { status, name: spec_key(arguments[2]), category },
                ),
                None => Err(Diagnostic::InvalidStatus),
            },
            Err(diagnostic) => Err(diagnostic),
        }
    }
}

/// The rule of `addseason <season> <name> <category> [studio]`. The studio
/// is taken where just one argument follows the category.
pub open spec fn spec_read_add_season(arguments: Seq<Seq<char>>) -> Result<
    CommandView,
    Diagnostic,
> {
    if arguments.len() < 4 {
        Err(Diagnostic::InsufficientArguments)
    } else {
        match spec_category_argument(arguments[3]) {
            Ok(category) => Ok(
                CommandView::AddSeason {
                    season: arguments[1],
                    name: spec_key(arguments[2]),
                    category,
                    studio: if arguments.len() == 5 {
                        spec_key(arguments[4])
                    } else {
                        Seq::empty()
                    },
                },
            ),
            Err(diagnostic) => Err(diagnostic),
        }
    }
}

/// The rule of `editseason <season> <field> <name> <category>`. The field
/// is not looked at here: it is turned down only once the item and the
/// season have been found.
pub open spec fn spec_read_edit_season(arguments: Seq<Seq<char>>) -> Result<
    CommandView,
    Diagnostic,
> {
    if arguments.len() < 5 {
        Err(Diagnostic::InsufficientArguments)
    } else {
        match spec_category_argument(arguments[4]) {
            Ok(category) => Ok(
                CommandView::EditSeason {
                    season: spec_key(arguments[1]),
                    field: spec_key(arguments[2]),
                    name: spec_key(arguments[3]),
                    category,
                },
            ),
            Err(diagnostic) => Err(diagnostic),
        }
    }
}

/// The rule of `next <category>`.
pub open spec fn spec_read_next(arguments: Seq<Seq<char>>) -> Result<CommandView, Diagnostic> {
    if arguments.len() < 2 {
        Err(Diagnostic::InsufficientArguments)
    } else {
        match spec_category_argument(arguments[1]) {
            Ok(category) => Ok(CommandView::Next { category }),
            Err(diagnostic) => Err(diagnostic),
        }
    }
}

/// The rule of `rank <category|all>`.
pub open spec fn spec_read_rank(arguments: Seq<Seq<char>>) -> Result<CommandView, Diagnostic> {
    if arguments.len() < 2 {
        Err(Diagnostic::InsufficientArguments)
    } else {
        match spec_parse_scope(spec_key(arguments[1])) {
            Ok(scope) => Ok(CommandView::Rank { scope }),
            Err(diagnostic) => Err(diagnostic),
        }
    }
}

/// The rule of `parse_command`. The first argument names the command,
/// whatever the case of its letters. The number of arguments is looked at
/// before the arguments themselves. Arguments beyond those that a command
/// takes are passed over.
pub open spec fn spec_parse_command(arguments: Seq<Seq<char>>) -> Result<CommandView, Diagnostic> {
    if arguments.len() == 0 {
        Err(Diagnostic::InsufficientArguments)
    } else {
        let command = spec_key(arguments[0]);
        if command == "add"@ {
            spec_read_add(arguments)
        } else if command == "edit"@ {
            spec_read_edit(arguments)
        } else if command == "editstatus"@ {
            spec_read_edit_status(arguments)
        } else if command == "addseason"@ {
            spec_read_add_season(arguments)
        } else if command == "editseason"@ {
            spec_read_edit_season(arguments)
        } else if command == "next"@ {
            spec_read_next(arguments)
        } else if command == "rank"@ {
            spec_read_rank(arguments)
        } else if command == "categories"@ {
            Ok(CommandView::Categories)
        } else if command == "help"@ {
            Ok(CommandView::Help)
        } else {
            Err(Diagnostic::InvalidCommand)
        }
    }
}

/// The argument at place `index`.
fn argument(arguments: &Vec<String>, index: usize) -> (r: &str)
    requires
        index < arguments@.len(),
    ensures
        r@ == texts(arguments@)[index as int],
{
    arguments[index].as_str()
}

/// Reads the category that an argument names.
fn category_argument(text: &str) -> (r: Result<CategoryTag, Diagnostic>)
    ensures
        r == spec_category_argument(text@),
{
    let lowered = key_of(text);
    CategoryTag::parse(lowered.as_str())
}

/// Reads the scope of a ranking: a category name, or `all`.
pub fn parse_scope(text: &str) -> (r: Result<RankScope, Diagnostic>)
    ensures
        r == spec_parse_scope(text@),
{
    match CategoryTag::parse(text) {
        Ok(tag) => Ok(RankScope::Only(tag)),
        Err(_) => if same_text(text, "all") {
            Ok(RankScope::All)
        } else {
            Err(Diagnostic::InvalidCategory)
        },
    }
}

fn read_add(arguments: &Vec<String>) -> (r: Result<Command, Diagnostic>)
    ensures
        reads_as(spec_read_add(texts(arguments@)), r),
{
    if arguments.len() < 3 {
        return Err(Diagnostic::InsufficientArguments);
    }
    match category_argument(argument(arguments, 2)) {
        Ok(category) => Ok(Command::Add { name: owned(argument(arguments, 1)), category }),
        Err(diagnostic) => Err(diagnostic),
    }
}

fn read_edit(arguments: &Vec<String>) -> (r: Result<Command, Diagnostic>)
    ensures
        reads_as(spec_read_edit(texts(arguments@)), r),
{
    if arguments.len() < 3 {
        return Err(Diagnostic::InsufficientArguments);
    }
    match category_argument(argument(arguments, 2)) {
        Ok(category) => Ok(Command::Edit { name: key_of(argument(arguments, 1)), category }),
        Err(diagnostic) => Err(diagnostic),
    }
}

fn read_edit_status(arguments: &Vec<String>) -> (r: Result<Command, Diagnostic>)
    ensures
        reads_as(spec_read_edit_status(texts(arguments@)), r),
{
    if arguments.len() < 4 {
        return Err(Diagnostic::InsufficientArguments);
    }
    let category = match category_argument(argument(arguments, 3)) {
        Ok(category) => category,
        Err(diagnostic) => {
            return Err(diagnostic);
        },
    };
    let lowered = key_of(argument(arguments, 1));
    match Status::parse(lowered.as_str()) {
        Ok(status) => Ok(
            Command::EditStatus { status, name: key_of(argument(arguments, 2)), category },
        ),
        Err(diagnostic) => Err(diagnostic),
    }
}

fn read_add_season(arguments: &Vec<String>) -> (r: Result<Command, Diagnostic>)
    ensures
        reads_as(spec_read_add_season(texts(arguments@)), r),
{
    if arguments.len() < 4 {
        return Err(Diagnostic::InsufficientArguments);
    }
    let category = match category_argument(argument(arguments, 3)) {
        Ok(category) => category,
        Err(diagnostic) => {
            return Err(diagnostic);
        },
    };
    let studio = if arguments.len() == 5 {
        key_of(argument(arguments, 4))
    } else {
        String::new()
    };
    Ok(
        Command::AddSeason {
            season: owned(argument(arguments, 1)),
            name: key_of(argument(arguments, 2)),
            category,
            studio,
        },
    )
}

fn read_edit_season(arguments: &Vec<String>) -> (r: Result<Command, Diagnostic>)
    ensures
        reads_as(spec_read_edit_season(texts(arguments@)), r),
{
    if arguments.len() < 5 {
        return Err(Diagnostic::InsufficientArguments);
    }
    match category_argument(argument(arguments, 4)) {
        Ok(category) => Ok(
            Command::EditSeason {
                season: key_of(argument(arguments, 1)),
                field: key_of(argument(arguments, 2)),
                name: key_of(argument(arguments, 3)),
                category,
            },
        ),
        Err(diagnostic) => Err(diagnostic),
    }
}

fn read_next(arguments: &Vec<String>) -> (r: Result<Command, Diagnostic>)
    ensures
        reads_as(spec_read_next(texts(arguments@)), r),
{
    if arguments.len() < 2 {
        return Err(Diagnostic::InsufficientArguments);
    }
    match category_argument(argument(arguments, 1)) {
        Ok(category) => Ok(Command::Next { category }),
        Err(diagnostic) => Err(diagnostic),
    }
}

fn read_rank(arguments: &Vec<String>) -> (r: Result<Command, Diagnostic>)
    ensures
        reads_as(spec_read_rank(texts(arguments@)), r),
{
    if arguments.len() < 2 {
        return Err(Diagnostic::InsufficientArguments);
    }
    let lowered = key_of(argument(arguments, 1));
    match parse_scope(lowered.as_str()) {
        Ok(scope) => Ok(Command::Rank { scope }),
        Err(diagnostic) => Err(diagnostic),
    }
}

/// Reads the arguments of one call, without the program's own name, as a
/// command.
pub fn parse_command(arguments: &Vec<String>) -> (r: Result<Command, Diagnostic>)
    ensures
        reads_as(spec_parse_command(texts(arguments@)), r),
{
    if arguments.len() == 0 {
        return Err(Diagnostic::InsufficientArguments);
    }
    let command = key_of(argument(arguments, 0));
    if same_text(command.as_str(), "add") {
        read_add(arguments)
    } else if same_text(command.as_str(), "edit") {
        read_edit(arguments)
    } else if same_text(command.as_str(), "editstatus") {
        read_edit_status(arguments)
    } else if same_text(command.as_str(), "addseason") {
        read_add_season(arguments)
    } else if same_text(command.as_str(), "editseason") {
        read_edit_season(arguments)
    } else if same_text(command.as_str(), "next") {
        read_next(arguments)
    } else if same_text(command.as_str(), "rank") {
        read_rank(arguments)
    } else if same_text(command.as_str(), "categories") {
        Ok(Command::Categories)
    } else if same_text(command.as_str(), "help") {
        Ok(Command::Help)
    } else {
        Err(Diagnostic::InvalidCommand)
    }
}

/// What a command that succeeded has done or found.
#[derive(Debug, PartialEq, Eq)]
pub enum Outcome {
    /// An item was added.
    Added,
    /// An item was replaced by what came back from the editor.
    Edited,
    /// The status of an item was set.
    StatusChanged,
    /// A season was added.
    SeasonAdded,
    /// A field of a season was set to what came back from the editor.
    SeasonEdited,
    /// The name, as the user wrote it, of the next planned item.
    Next(String),
    /// No item of the category is planned.
    AllConsumed,
    /// The ranking asked for.
    Ranked(Vec<RankRecord>),
    /// The categories, in the fixed order.
    Categories(Vec<CategoryTag>),
    /// The list of commands was asked for.
    Help,
}

#[verifier::ext_equal]
pub enum OutcomeView {
    Added,
    Edited,
    StatusChanged,
    SeasonAdded,
    SeasonEdited,
    Next(Seq<char>),
    AllConsumed,
    Ranked(Seq<RankRecordView>),
    Categories(Seq<CategoryTag>),
    Help,
}

impl View for Outcome {
    type V = OutcomeView;

    open spec fn view(&self) -> OutcomeView {
        match self {
            Outcome::Added => OutcomeView::Added,
            Outcome::Edited => OutcomeView::Edited,
            Outcome::StatusChanged => OutcomeView::StatusChanged,
            Outcome::SeasonAdded => OutcomeView::SeasonAdded,
            Outcome::SeasonEdited => OutcomeView::SeasonEdited,
            Outcome::Next(name) => OutcomeView::Next(name@),
            Outcome::AllConsumed => OutcomeView::AllConsumed,
            Outcome::Ranked(records) => OutcomeView::Ranked(records_view(records@)),
            Outcome::Categories(tags) => OutcomeView::Categories(tags@),
            Outcome::Help => OutcomeView::Help,
        }
    }
}

/// Whether an outcome is one of a command that changes the document.
pub open spec fn spec_changes_document(outcome: OutcomeView) -> bool {
    outcome is Added || outcome is Edited || outcome is StatusChanged || outcome is SeasonAdded
        || outcome is SeasonEdited
}

impl Outcome {
    /// Whether the document has to be stored again after this outcome.
    pub fn changes_document(&self) -> (r: bool)
        ensures
            r == spec_changes_document(self@),
    {
        match self {
            Outcome::Added => true,
            Outcome::Edited => true,
            Outcome::StatusChanged => true,
            Outcome::SeasonAdded => true,
            Outcome::SeasonEdited => true,
            _ => false,
        }
    }
}

/// Why a command was turned down, and what is offered in place of a name
/// that was not found.
#[derive(Debug, PartialEq, Eq)]
pub struct Rejection {
    pub diagnostic: Diagnostic,
    pub suggestion: Option<Suggestion>,
}

#[verifier::ext_equal]
pub struct RejectionView {
    pub diagnostic: Diagnostic,
    pub suggestion: Option<SuggestionView>,
}

impl View for Rejection {
    type V = RejectionView;

    open spec fn view(&self) -> RejectionView {
        RejectionView { diagnostic: self.diagnostic, suggestion: viewed(self.suggestion) }
    }
}

/// What follows from the rule of a command that changes the document. On
/// `Ok` the document is the one the rule gives and the outcome is `outcome`.
/// On `Err` the document is untouched and the diagnostic is the rule's; the
/// suggestion goes with `ItemNotFound` and with no other diagnostic.
pub open spec fn settled(
    rule: Result<DocumentView, Diagnostic>,
    outcome: OutcomeView,
    suggestion: Option<SuggestionView>,
    before: DocumentView,
    after: DocumentView,
    r: Result<Outcome, Rejection>,
) -> bool {
    match rule {
        Ok(document) => r is Ok && r->Ok_0@ == outcome && after == document,
        Err(diagnostic) => {
            &&& r is Err
            &&& r->Err_0@.diagnostic == diagnostic
            &&& r->Err_0@.suggestion == if diagnostic == Diagnostic::ItemNotFound {
                suggestion
            } else {
                None
            }
            &&& after == before
        },
    }
}

/// The suggestion made when `name` is not found in a category.
pub open spec fn spec_suggest(
    document: DocumentView,
    name: Seq<char>,
    category: CategoryTag,
) -> Option<SuggestionView> {
    spec_suggestion(document[category], spec_scores(spec_key(name), document[category]))
}

/// The rule of `add`: the item is filed under the lower-case form of its
/// name, with the status `planned` and without seasons.
pub open spec fn spec_add(
    document: DocumentView,
    name: Seq<char>,
    category: CategoryTag,
) -> Result<DocumentView, Diagnostic> {
    spec_change_category(
        document,
        category,
        spec_push_item(document[category], name, new_item(name, Status::Planned)),
    )
}

/// The rule of `edit_status`.
pub open spec fn spec_edit_status(
    document: DocumentView,
    status: Status,
    name: Seq<char>,
    category: CategoryTag,
) -> Result<DocumentView, Diagnostic> {
    spec_change_category(
        document,
        category,
        spec_change_item(
            document[category],
            name,
            |item: ItemView| Ok::<ItemView, Diagnostic>(ItemView { status, ..item }),
        ),
    )
}

/// The rule of `add_season`: the season is filed under the lower-case form
/// of its name, not rated and without notes.
pub open spec fn spec_add_season(
    document: DocumentView,
    season: Seq<char>,
    name: Seq<char>,
    category: CategoryTag,
    studio: Seq<char>,
) -> Result<DocumentView, Diagnostic> {
    spec_change_category(
        document,
        category,
        spec_change_item(
            document[category],
            name,
            |item: ItemView| spec_push_season(item, season, new_season(season, studio)),
        ),
    )
}

/// The rule of `apply_item_text`: the item is looked up first, then the
/// text is read.
pub open spec fn spec_apply_item_text(
    document: DocumentView,
    name: Seq<char>,
    category: CategoryTag,
    text: Seq<char>,
) -> Result<DocumentView, Diagnostic> {
    spec_change_category(
        document,
        category,
        spec_change_item(
            document[category],
            name,
            |found: ItemView|
                match item_of_text(text) {
                    Some(item) => Ok::<ItemView, Diagnostic>(item),
                    None => Err(Diagnostic::MalformedEditorOutput),
                },
        ),
    )
}

/// What has to be there before the editor is opened on a field of a season:
/// the item, then the season, then a field of that name.
pub open spec fn spec_field_to_edit(
    item: ItemView,
    season: Seq<char>,
    field: Seq<char>,
) -> Result<SeasonField, Diagnostic> {
    match spec_get_season(item, season) {
        Ok(_) => match SeasonField::spec_parse(field) {
            Some(field) => Ok(field),
            None => Err(Diagnostic::InvalidField),
        },
        Err(diagnostic) => Err(diagnostic),
    }
}

/// The rule of `apply_field_text`: the item is looked up, then the season,
/// then the field; then the text is read, and the field is set.
pub open spec fn spec_apply_field_text(
    document: DocumentView,
    season: Seq<char>,
    field: Seq<char>,
    name: Seq<char>,
    category: CategoryTag,
    text: Seq<char>,
) -> Result<DocumentView, Diagnostic> {
    spec_change_category(
        document,
        category,
        spec_change_item(
            document[category],
            name,
            |item: ItemView|
                match spec_field_to_edit(item, season, field) {
                    Ok(_) => match field_of_text(text) {
                        Ok(value) => spec_set_season_field(item, season, field, value),
                        Err(diagnostic) => Err(diagnostic),
                    },
                    Err(diagnostic) => Err(diagnostic),
                },
        ),
    )
}

/// The rejection for a name that was not found, with the suggestion.
fn not_found(document: &Document, name: &str, category: CategoryTag) -> (r: Rejection)
    ensures
        r@.diagnostic == Diagnostic::ItemNotFound,
        r@.suggestion == spec_suggest(document@, name@, category),
{
    let query = key_of(name);
    Rejection {
        diagnostic: Diagnostic::ItemNotFound,
        suggestion: suggest(query.as_str(), document.category(category)),
    }
}

/// The rejection that goes with a diagnostic other than `ItemNotFound`.
fn rejected(diagnostic: Diagnostic) -> (r: Rejection)
    ensures
        r@ == (RejectionView { diagnostic, suggestion: None }),
{
    Rejection { diagnostic, suggestion: None }
}

/// `add <name> <category>`: adds an item under the lower-case form of
/// `name`, planned, without seasons. A name that is taken is
/// `DuplicateItem`.
pub fn add(
    document: &mut Document,
    name: &str,
    category: CategoryTag,
) -> (r: Result<Outcome, Rejection>)
    ensures
        settled(
            spec_add(old(document)@, name@, category),
            OutcomeView::Added,
            None,
            old(document)@,
            final(document)@,
            r,
        ),
{
    match document.insert_item(category, name, name, Status::Planned) {
        Ok(()) => Ok(Outcome::Added),
        Err(diagnostic) => Err(rejected(diagnostic)),
    }
}

/// `editstatus <status> <name> <category>`: sets the status of an item.
pub fn edit_status(
    document: &mut Document,
    status: Status,
    name: &str,
    category: CategoryTag,
) -> (r: Result<Outcome, Rejection>)
    ensures
        settled(
            spec_edit_status(old(document)@, status, name@, category),
            OutcomeView::StatusChanged,
            None,
            old(document)@,
            final(document)@,
            r,
        ),
{
    match document.set_status(category, name, status) {
        Ok(()) => Ok(Outcome::StatusChanged),
        Err(diagnostic) => Err(rejected(diagnostic)),
    }
}

/// `addseason <season> <name> <category> [studio]`: adds a season to an
/// item, under the lower-case form of `season`, not rated and without
/// notes.
pub fn add_season(
    document: &mut Document,
    season: &str,
    name: &str,
    category: CategoryTag,
    studio: &str,
) -> (r: Result<Outcome, Rejection>)
    ensures
        settled(
            spec_add_season(old(document)@, season@, name@, category, studio@),
            OutcomeView::SeasonAdded,
            None,
            old(document)@,
            final(document)@,
            r,
        ),
{
    match document.insert_season(category, name, season, season, studio) {
        Ok(()) => Ok(Outcome::SeasonAdded),
        Err(diagnostic) => Err(rejected(diagnostic)),
    }
}

/// Puts the item that `text` holds in the place of the item called `name`.
/// This is the second half of `edit`: what is done with the text that came
/// back from the editor.
pub fn apply_item_text(
    document: &mut Document,
    name: &str,
    category: CategoryTag,
    text: &str,
) -> (r: Result<Outcome, Rejection>)
    ensures
        settled(
            spec_apply_item_text(old(document)@, name@, category, text@),
            OutcomeView::Edited,
            spec_suggest(old(document)@, name@, category),
            old(document)@,
            final(document)@,
            r,
        ),
{
    if !document.has_item(category, name) {
        return Err(not_found(document, name, category));
    }
    let item = match item_from_text(text) {
        Ok(item) => item,
        Err(diagnostic) => {
            return Err(rejected(diagnostic));
        },
    };
    match document.replace_item(category, name, item) {
        Ok(()) => Ok(Outcome::Edited),
        Err(diagnostic) => Err(rejected(diagnostic)),
    }
}

/// Sets a field of a season to what `text` holds. This is the second half
/// of `edit_season`: what is done with the text that came back from the
/// editor.
pub fn apply_field_text(
    document: &mut Document,
    season: &str,
    field: &str,
    name: &str,
    category: CategoryTag,
    text: &str,
) -> (r: Result<Outcome, Rejection>)
    ensures
        settled(
            spec_apply_field_text(old(document)@, season@, field@, name@, category, text@),
            OutcomeView::SeasonEdited,
            spec_suggest(old(document)@, name@, category),
            old(document)@,
            final(document)@,
            r,
        ),
{
    let item = match document.get_item(category, name) {
        Ok(item) => item,
        Err(_) => {
            return Err(not_found(document, name, category));
        },
    };
    if !item.has_season(season) {
        return Err(rejected(Diagnostic::SeasonNotFound));
    }
    if let Err(diagnostic) = SeasonField::parse(field) {
        return Err(rejected(diagnostic));
    }
    let value = match field_from_text(text) {
        Ok(value) => value,
        Err(diagnostic) => {
            return Err(rejected(diagnostic));
        },
    };
    match document.set_season_field(category, name, season, field, value) {
        Ok(()) => Ok(Outcome::SeasonEdited),
        Err(diagnostic) => Err(rejected(diagnostic)),
    }
}

/// What `edit` ensures. Where the item is not found the editor is not
/// opened. Where it is found, the editor is handed the item's text, and
/// what comes back is applied by the rule of `apply_item_text`.
pub open spec fn edit_done<F: FnOnce(String) -> String>(
    edit_text: F,
    name: Seq<char>,
    category: CategoryTag,
    before: DocumentView,
    after: DocumentView,
    r: Result<Outcome, Rejection>,
) -> bool {
    match spec_get_item(before[category], name) {
        Ok(item) => exists|shown: String, edited: String|
            #![trigger call_ensures(edit_text, (shown,), edited)]
            {
                &&& shows_item(shown@, item)
                &&& call_ensures(edit_text, (shown,), edited)
                &&& settled(
                    spec_apply_item_text(before, name, category, edited@),
                    OutcomeView::Edited,
                    None,
                    before,
                    after,
                    r,
                )
            },
        Err(diagnostic) => settled(
            Err(diagnostic),
            OutcomeView::Edited,
            spec_suggest(before, name, category),
            before,
            after,
            r,
        ),
    }
}

/// What `edit_season` ensures. Where the item, the season or the field is
/// not found the editor is not opened. Where they are found, the editor is
/// handed the field's text, and what comes back is applied by the rule of
/// `apply_field_text`.
pub open spec fn edit_season_done<F: FnOnce(String) -> String>(
    edit_text: F,
    season: Seq<char>,
    field: Seq<char>,
    name: Seq<char>,
    category: CategoryTag,
    before: DocumentView,
    after: DocumentView,
    r: Result<Outcome, Rejection>,
) -> bool {
    match spec_get_item(before[category], name) {
        Ok(item) => match spec_field_to_edit(item, season, field) {
            Ok(found) => exists|shown: String, edited: String|
                #![trigger call_ensures(edit_text, (shown,), edited)]
                {
                    &&& shows_field(shown@, spec_get_season(item, season)->Ok_0, found)
                    &&& call_ensures(edit_text, (shown,), edited)
                    &&& settled(
                        spec_apply_field_text(before, season, field, name, category, edited@),
                        OutcomeView::SeasonEdited,
                        None,
                        before,
                        after,
                        r,
                    )
                },
            Err(diagnostic) => settled(
                Err(diagnostic),
                OutcomeView::SeasonEdited,
                None,
                before,
                after,
                r,
            ),
        },
        Err(diagnostic) => settled(
            Err(diagnostic),
            OutcomeView::SeasonEdited,
            spec_suggest(before, name, category),
            before,
            after,
            r,
        ),
    }
}

/// `edit <name> <category>`: hands the item to the editor and puts what
/// comes back in its place. A name that is not found is `ItemNotFound`,
/// with a suggestion where a name is alike enough; text that does not hold
/// an item is `MalformedEditorOutput`.
pub fn edit<F: FnOnce(String) -> String>(
    document: &mut Document,
    name: &str,
    category: CategoryTag,
    edit_text: F,
) -> (r: Result<Outcome, Rejection>)
    requires
        forall|shown: String| call_requires(edit_text, (shown,)),
    ensures
        edit_done(edit_text, name@, category, old(document)@, final(document)@, r),
{
    let shown = match document.get_item(category, name) {
        Ok(item) => item_to_text(item),
        Err(_) => {
            return Err(not_found(document, name, category));
        },
    };
    let edited = edit_text(shown);
    apply_item_text(document, name, category, edited.as_str())
}

/// `editseason <season> <field> <name> <category>`: hands a field of a
/// season, or with `json` the whole season, to the editor and sets it to
/// what comes back. An item that is not found is `ItemNotFound`, with a
/// suggestion where a name is alike enough; then a season that is not found
/// is `SeasonNotFound`; then a field of another name is `InvalidField`.
/// Text that is not JSON is `MalformedEditorOutput`; JSON that does not fit
/// the field is `MalformedSeason`.
pub fn edit_season<F: FnOnce(String) -> String>(
    document: &mut Document,
    season: &str,
    field: &str,
    name: &str,
    category: CategoryTag,
    edit_text: F,
) -> (r: Result<Outcome, Rejection>)
    requires
        forall|shown: String| call_requires(edit_text, (shown,)),
    ensures
        edit_season_done(
            edit_text,
            season@,
            field@,
            name@,
            category,
            old(document)@,
            final(document)@,
            r,
        ),
{
    let item = match document.get_item(category, name) {
        Ok(item) => item,
        Err(_) => {
            return Err(not_found(document, name, category));
        },
    };
    let found = match item.get_season(season) {
        Ok(found) => found,
        Err(diagnostic) => {
            return Err(rejected(diagnostic));
        },
    };
    let shown = match SeasonField::parse(field) {
        Ok(field) => field_to_text(found, field),
        Err(diagnostic) => {
            return Err(rejected(diagnostic));
        },
    };
    let edited = edit_text(shown);
    apply_field_text(document, season, field, name, category, edited.as_str())
}

/// What `next_item` ensures: the outcome names the first planned item of
/// the category, or says that there is none.
pub open spec fn next_found(
    document: DocumentView,
    category: CategoryTag,
    outcome: OutcomeView,
) -> bool {
    match outcome {
        OutcomeView::Next(name) => exists|index: int|
            is_first_planned(document[category], index) && name
                == document[category][index].1.display_name,
        OutcomeView::AllConsumed => all_consumed(document[category]),
        _ => false,
    }
}

/// `next <category>`: the first planned item of the category, in the order
/// in which the items were added.
pub fn next_item(document: &Document, category: CategoryTag) -> (r: Outcome)
    ensures
        next_found(document@, category, r@),
{
    match next(document, category) {
        Some(name) => Outcome::Next(name),
        None => Outcome::AllConsumed,
    }
}

/// What `rank_seasons` ensures: the outcome is the ranking of the scope.
pub open spec fn rank_found(
    document: DocumentView,
    scope: RankScope,
    outcome: OutcomeView,
) -> bool {
    match outcome {
        OutcomeView::Ranked(records) => {
            &&& is_ranking(records, walked_records(document, scope))
            &&& forall|i: int| 0 <= i < records.len() ==> (#[trigger] records[i]).rating != 0
        },
        _ => false,
    }
}

/// `rank <category|all>`: the rated seasons of the scope by falling rating.
pub fn rank_seasons(document: &Document, scope: RankScope) -> (r: Outcome)
    ensures
        rank_found(document@, scope, r@),
{
    Outcome::Ranked(rank(document, scope))
}

/// `categories`: the categories in the fixed order.
pub fn list_categories() -> (r: Outcome)
    ensures
        r@ == OutcomeView::Categories(all_categories()),
{
    Outcome::Categories(CategoryTag::all())
}

/// What `run` ensures: what the command's own function ensures.
pub open spec fn run_done<F: FnOnce(String) -> String>(
    edit_text: F,
    command: CommandView,
    before: DocumentView,
    after: DocumentView,
    r: Result<Outcome, Rejection>,
) -> bool {
    match command {
        CommandView::Add { name, category } => settled(
            spec_add(before, name, category),
            OutcomeView::Added,
            None,
            before,
            after,
            r,
        ),
        CommandView::Edit { name, category } => edit_done(
            edit_text,
            name,
            category,
            before,
            after,
            r,
        ),
        CommandView::EditStatus { status, name, category } => settled(
            spec_edit_status(before, status, name, category),
            OutcomeView::StatusChanged,
            None,
            before,
            after,
            r,
        ),
        CommandView::AddSeason { season, name, category, studio } => settled(
            spec_add_season(before, season, name, category, studio),
            OutcomeView::SeasonAdded,
            None,
            before,
            after,
            r,
        ),
        CommandView::EditSeason { season, field, name, category } => edit_season_done(
            edit_text,
            season,
            field,
            name,
            category,
            before,
            after,
            r,
        ),
        CommandView::Next { category } => r is Ok && next_found(before, category, r->Ok_0@)
            && after == before,
        CommandView::Rank { scope } => r is Ok && rank_found(before, scope, r->Ok_0@) && after
            == before,
        CommandView::Categories => r is Ok && r->Ok_0@ == OutcomeView::Categories(
            all_categories(),
        ) && after == before,
        CommandView::Help => r is Ok && r->Ok_0@ == OutcomeView::Help && after == before,
    }
}

/// Carries out one command on the document. `edit_text` is the editor: it
/// is called once at most, by `edit` and `editseason`, with the text to
/// show, and gives the text that comes back.
pub fn run<F: FnOnce(String) -> String>(
    document: &mut Document,
    command: Command,
    edit_text: F,
) -> (r: Result<Outcome, Rejection>)
    requires
        forall|shown: String| call_requires(edit_text, (shown,)),
    ensures
        run_done(edit_text, command@, old(document)@, final(document)@, r),
{
    match command {
        Command::Add { name, category } => self::add(document, name.as_str(), category),
        Command::Edit { name, category } => edit(document, name.as_str(), category, edit_text),
        Command::EditStatus { status, name, category } => edit_status(
            document,
            status,
            name.as_str(),
            category,
        ),
        Command::AddSeason { season, name, category, studio } => add_season(
            document,
            season.as_str(),
            name.as_str(),
            category,
            studio.as_str(),
        ),
        Command::EditSeason { season, field, name, category } => edit_season(
            document,
            season.as_str(),
            field.as_str(),
            name.as_str(),
            category,
            edit_text,
        ),
        Command::Next { category } => Ok(next_item(document, category)),
        Command::Rank { scope } => Ok(rank_seasons(document, scope)),
        Command::Categories => Ok(list_categories()),
        Command::Help => Ok(Outcome::Help),
    }
}

/// An item that has been added is there: `add` with a name that is not
/// taken succeeds, after it the category has an item under the lower-case
/// form of the name, that item is planned and has no seasons, and the
/// document is still well formed.
pub proof fn lemma_added_item_is_there(
    document: DocumentView,
    name: Seq<char>,
    category: CategoryTag,
)
    requires
        document_wf(document),
        !has_key(document[category], spec_key(name)),
    ensures
        spec_add(document, name, category) is Ok,
        has_key(spec_add(document, name, category)->Ok_0[category], spec_key(name)),
        spec_get_item(spec_add(document, name, category)->Ok_0[category], name) == Ok::<
            ItemView,
            Diagnostic,
        >(new_item(name, Status::Planned)),
        value_of(spec_add(document, name, category)->Ok_0[category], spec_key(name)).status
            == Status::Planned,
        document_wf(spec_add(document, name, category)->Ok_0),
{
    let key = spec_key(name);
    let before = document[category];
    let after = spec_add(document, name, category)->Ok_0;
    let added = before.push((key, new_item(name, Status::Planned)));
    lemma_key_is_key(name);
    assert(category_wf(added));
    lemma_index_of(added, key, before.len() as int);
    assert forall|tag: CategoryTag| category_wf(#[trigger] after[tag]) by {
        assert(category_wf(document[tag]));
    }
}

/// Adding a name that is taken is turned down as `DuplicateItem`; so is
/// adding the same name again after it has been added.
pub proof fn lemma_add_again_is_duplicate(
    document: DocumentView,
    name: Seq<char>,
    category: CategoryTag,
)
    ensures
        has_key(document[category], spec_key(name)) ==> spec_add(document, name, category) == Err::<
            DocumentView,
            Diagnostic,
        >(Diagnostic::DuplicateItem),
        spec_add(document, name, category) is Ok ==> spec_add(
            spec_add(document, name, category)->Ok_0,
            name,
            category,
        ) == Err::<DocumentView, Diagnostic>(Diagnostic::DuplicateItem),
{
    if spec_add(document, name, category) is Ok {
        let key = spec_key(name);
        let added = document[category].push((key, new_item(name, Status::Planned)));
        assert(added[added.len() - 1].0 == key);
    }
}

/// A rating that has been entered is the rating that is found: once
/// `add_season` has succeeded, `apply_field_text` on the field `rating` of
/// that season, with a text that reads as the integer `number`, succeeds,
/// and the season then found has the rating `number`.
pub proof fn lemma_entered_rating_is_found(
    document: DocumentView,
    season: Seq<char>,
    name: Seq<char>,
    category: CategoryTag,
    studio: Seq<char>,
    text: Seq<char>,
    number: i32,
)
    requires
        document_wf(document),
        spec_add_season(document, season, name, category, studio) is Ok,
        field_of_text(text) == Ok::<FieldValueView, Diagnostic>(FieldValueView::Number(number)),
    ensures
        ({
            let added = spec_add_season(document, season, name, category, studio)->Ok_0;
            let edited = spec_apply_field_text(added, season, "rating"@, name, category, text);
            &&& edited is Ok
            &&& spec_get_item(edited->Ok_0[category], name) is Ok
            &&& spec_get_season(spec_get_item(edited->Ok_0[category], name)->Ok_0, season) is Ok
            &&& spec_get_season(
                spec_get_item(edited->Ok_0[category], name)->Ok_0,
                season,
            )->Ok_0.rating == number
        }),
{
    let key = spec_key(name);
    let before = document[category];
    let i = index_of(before, key);
    let item = before[i].1;
    let fresh = new_season(season, studio);
    lemma_push_then_get(item, season, fresh);
    let with_season = spec_push_season(item, season, fresh)->Ok_0;
    let category_added = before.update(i, (key, with_season));
    assert(distinct_keys(category_added));
    lemma_index_of(category_added, key, i);
    lemma_field_names(SeasonField::Rating, "rating"@);
    let value = FieldValueView::Number(number);
    lemma_set_then_get(with_season, season, "rating"@, value);
    let rated = spec_set_season_field(with_season, season, "rating"@, value)->Ok_0;
    let category_edited = category_added.update(i, (key, rated));
    assert(distinct_keys(category_edited));
    lemma_index_of(category_edited, key, i);
}

/// A command that is turned down leaves the document as it was, and a
/// suggestion is made for no diagnostic but `ItemNotFound`.
pub proof fn lemma_rejection_changes_nothing(
    rule: Result<DocumentView, Diagnostic>,
    outcome: OutcomeView,
    suggestion: Option<SuggestionView>,
    before: DocumentView,
    after: DocumentView,
    r: Result<Outcome, Rejection>,
)
    requires
        settled(rule, outcome, suggestion, before, after, r),
    ensures
        r is Err ==> after == before,
        r is Err && r->Err_0@.diagnostic != Diagnostic::ItemNotFound
            ==> r->Err_0@.suggestion is None,
        r is Ok <==> rule is Ok,
{
}

} // verus!
