//! Questions put to a document: what comes next, and what ranks highest.
//!
//! Neither changes the document.

use vstd::prelude::*;
use crate::model::{Category, CategoryView, Document, DocumentView, Item, SeasonView};
use crate::schema::{CategoryTag, Status, CATEGORY_COUNT, all_categories};
use crate::text::owned;

verus! {

/// Whether the item at place `index` is the first planned one.
pub open spec fn is_first_planned(category: CategoryView, index: int) -> bool {
    &&& 0 <= index < category.len()
    &&& category[index].1.status == Status::Planned
    &&& forall|j: int| 0 <= j < index ==> (#[trigger] category[j]).1.status != Status::Planned
}

/// Whether no item of the category is planned.
pub open spec fn all_consumed(category: CategoryView) -> bool {
    forall|j: int| 0 <= j < category.len() ==> (#[trigger] category[j]).1.status != Status::Planned
}

/// The place of the first item whose status is `planned`, in the order in
/// which the items were added; `None` when no item is planned.
pub fn next_planned(category: &Category) -> (r: Option<usize>)
    ensures
        match r {
            Some(index) => is_first_planned(category@, index as int),
            None => all_consumed(category@),
        },
        r is None <==> all_consumed(category@),
{
    let mut i: usize = 0;
    while i < category.len()
        invariant
            i <= category@.len(),
            forall|j: int| 0 <= j < i ==> (#[trigger] category@[j]).1.status != Status::Planned,
        decreases category@.len() - i,
    {
        if category.item(i).status() == Status::Planned {
            return Some(i);
        }
        i += 1;
    }
    None
}

/// The name, as the user wrote it, of the first planned item of category
/// `tag`; `None` when every item has been consumed.
pub fn next(document: &Document, tag: CategoryTag) -> (r: Option<String>)
    ensures
        match r {
            Some(name) => exists|index: int|
                is_first_planned(document@[tag], index) && name@
                    == document@[tag][index].1.display_name,
            None => all_consumed(document@[tag]),
        },
        r is None <==> all_consumed(document@[tag]),
{
    let category = document.category(tag);
    match next_planned(category) {
        Some(index) => Some(owned(category.item(index).display_name())),
        None => None,
    }
}

/// There is one first planned item at most, and none where no item is
/// planned.
pub proof fn lemma_first_planned_is_one(category: CategoryView, i: int, j: int)
    requires
        is_first_planned(category, i),
    ensures
        !all_consumed(category),
        is_first_planned(category, j) ==> i == j,
{
}

/// One line of a ranking: a rated season and the item it belongs to.
#[derive(Debug, PartialEq, Eq)]
pub struct RankRecord {
    /// The item's name as the user wrote it.
    pub item: String,
    /// The season's name as the user wrote it.
    pub season: String,
    pub rating: i32,
}

#[verifier::ext_equal]
pub struct RankRecordView {
    pub item: Seq<char>,
    pub season: Seq<char>,
    pub rating: i32,
}

impl View for RankRecord {
    type V = RankRecordView;

    open spec fn view(&self) -> RankRecordView {
        RankRecordView { item: self.item@, season: self.season@, rating: self.rating }
    }
}

/// The views of a list of records.
pub open spec fn records_view(records: Seq<RankRecord>) -> Seq<RankRecordView> {
    Seq::new(records.len(), |i: int| records[i]@)
}

/// What a ranking covers.
#[derive(Clone, Copy, Debug, PartialEq, Eq, Structural)]
pub enum RankScope {
    /// Every category, in the fixed order.
    All,
    /// One category.
    Only(CategoryTag),
}

/// The record of a season of the item called `item`.
pub open spec fn record_of(item: Seq<char>, season: SeasonView) -> RankRecordView {
    RankRecordView { item, season: season.display_name, rating: season.rating }
}

/// The records of the rated seasons among `seasons`, in their order. A season
/// whose rating is 0 is not rated and gives no record.
pub open spec fn season_records(item: Seq<char>, seasons: Seq<(Seq<char>, SeasonView)>) -> Seq<
    RankRecordView,
>
    decreases seasons.len(),
{
    if seasons.len() == 0 {
        Seq::empty()
    } else {
        let before = season_records(item, seasons.drop_last());
        let season = seasons.last().1;
        if season.rating != 0 {
            before.push(record_of(item, season))
        } else {
            before
        }
    }
}

/// The records of the rated seasons of the items of a category, item by item.
pub open spec fn category_records(category: CategoryView) -> Seq<RankRecordView>
    decreases category.len(),
{
    if category.len() == 0 {
        Seq::empty()
    } else {
        let item = category.last().1;
        category_records(category.drop_last()) + season_records(item.display_name, item.seasons)
    }
}

/// The records of the first `count` categories of the fixed order.
pub open spec fn leading_records(document: DocumentView, count: nat) -> Seq<RankRecordView>
    decreases count,
{
    if count == 0 {
        Seq::empty()
    } else {
        leading_records(document, (count - 1) as nat) + category_records(
            document[all_categories()[count - 1]],
        )
    }
}

/// The records that a ranking of `scope` is made of, in the order of the
/// walk: category by category, item by item, season by season.
pub open spec fn walked_records(document: DocumentView, scope: RankScope) -> Seq<RankRecordView> {
    match scope {
        RankScope::All => leading_records(document, CATEGORY_COUNT as nat),
        RankScope::Only(tag) => category_records(document[tag]),
    }
}

/// The records of one rating, in their order.
pub open spec fn with_rating(records: Seq<RankRecordView>, rating: i32) -> Seq<RankRecordView>
    decreases records.len(),
{
    if records.len() == 0 {
        Seq::empty()
    } else {
        let before = with_rating(records.drop_last(), rating);
        if records.last().rating == rating {
            before.push(records.last())
        } else {
            before
        }
    }
}

/// No record is followed by one of a higher rating.
pub open spec fn descending(records: Seq<RankRecordView>) -> bool {
    forall|i: int, j: int|
        0 <= i < j < records.len() ==> (#[trigger] records[i]).rating >= (
        #[trigger] records[j]).rating
}

/// `ranked` holds the records of `walked` by falling rating, and the records
/// of one rating stand as they stood in `walked`.
pub open spec fn is_ranking(ranked: Seq<RankRecordView>, walked: Seq<RankRecordView>) -> bool {
    &&& ranked.len() == walked.len()
    &&& descending(ranked)
    &&& forall|rating: i32| #[trigger] with_rating(ranked, rating) == with_rating(walked, rating)
}

/// The records of one rating in two lists joined are those of the first
/// followed by those of the second.
pub proof fn lemma_with_rating_joined(a: Seq<RankRecordView>, b: Seq<RankRecordView>, rating: i32)
    ensures
        with_rating(a + b, rating) == with_rating(a, rating) + with_rating(b, rating),
    decreases b.len(),
{
    if b.len() > 0 {
        lemma_with_rating_joined(a, b.drop_last(), rating);
        assert((a + b).drop_last() =~= a + b.drop_last());
    }
}

/// A list without a record of some rating has no records of that rating.
pub proof fn lemma_with_rating_none(records: Seq<RankRecordView>, rating: i32)
    requires
        forall|i: int| 0 <= i < records.len() ==> (#[trigger] records[i]).rating != rating,
    ensures
        with_rating(records, rating) == Seq::<RankRecordView>::empty(),
    decreases records.len(),
{
    if records.len() > 0 {
        lemma_with_rating_none(records.drop_last(), rating);
    }
}

/// The records picked out for a rating have that rating and are records of
/// the list.
pub proof fn lemma_with_rating_members(records: Seq<RankRecordView>, rating: i32)
    ensures
        with_rating(records, rating).len() <= records.len(),
        forall|i: int|
            0 <= i < with_rating(records, rating).len() ==> {
                &&& (#[trigger] with_rating(records, rating)[i]).rating == rating
                &&& records.contains(with_rating(records, rating)[i])
            },
    decreases records.len(),
{
    if records.len() > 0 {
        let before = records.drop_last();
        lemma_with_rating_members(before, rating);
        assert forall|i: int| 0 <= i < with_rating(records, rating).len() implies {
            &&& (#[trigger] with_rating(records, rating)[i]).rating == rating
            &&& records.contains(with_rating(records, rating)[i])
        } by {
            if i < with_rating(before, rating).len() {
                let found = with_rating(before, rating)[i];
                let j = choose|j: int| 0 <= j < before.len() && before[j] == found;
                assert(records[j] == found);
            }
        }
    }
}

/// A record of the list is among the records picked out for its rating.
pub proof fn lemma_with_rating_has(records: Seq<RankRecordView>, index: int)
    requires
        0 <= index < records.len(),
    ensures
        with_rating(records, records[index].rating).contains(records[index]),
    decreases records.len(),
{
    let rating = records[index].rating;
    let before = records.drop_last();
    if index == records.len() - 1 {
        let picked = with_rating(records, rating);
        assert(picked[picked.len() - 1] == records[index]);
    } else {
        lemma_with_rating_has(before, index);
        let found = before[index];
        let i = choose|i: int|
            0 <= i < with_rating(before, rating).len() && with_rating(before, rating)[i] == found;
        assert(with_rating(records, rating)[i] == found);
    }
}

/// A ranking holds the records of the walk and no others.
pub proof fn lemma_ranking_keeps_records(ranked: Seq<RankRecordView>, walked: Seq<RankRecordView>)
    requires
        is_ranking(ranked, walked),
    ensures
        forall|record: RankRecordView| ranked.contains(record) <==> walked.contains(record),
{
    assert forall|record: RankRecordView| ranked.contains(record) implies walked.contains(
        record,
    ) by {
        let i = choose|i: int| 0 <= i < ranked.len() && ranked[i] == record;
        lemma_with_rating_has(ranked, i);
        lemma_with_rating_members(walked, record.rating);
    }
    assert forall|record: RankRecordView| walked.contains(record) implies ranked.contains(
        record,
    ) by {
        let i = choose|i: int| 0 <= i < walked.len() && walked[i] == record;
        lemma_with_rating_has(walked, i);
        lemma_with_rating_members(ranked, record.rating);
    }
}

/// The last record of a list that is in falling order has the lowest
/// rating of the list; two such lists with the same records of every rating
/// end in the same rating.
proof fn lemma_same_last_rating(a: Seq<RankRecordView>, b: Seq<RankRecordView>)
    requires
        a.len() > 0,
        b.len() > 0,
        descending(b),
        forall|rating: i32| #[trigger] with_rating(a, rating) == with_rating(b, rating),
    ensures
        a.last().rating >= b.last().rating,
{
    let rating = a.last().rating;
    lemma_with_rating_has(a, a.len() - 1);
    lemma_with_rating_members(b, rating);
    let picked = with_rating(b, rating);
    let i = choose|i: int| 0 <= i < picked.len() && picked[i] == a.last();
    let j = choose|j: int| 0 <= j < b.len() && b[j] == picked[i];
    assert(b[j].rating >= b.last().rating);
}

/// A list has one ranking only: two lists in falling order that hold the
/// same records of every rating, in the same order, are the same list.
pub proof fn lemma_ranking_is_one(
    first: Seq<RankRecordView>,
    second: Seq<RankRecordView>,
    walked: Seq<RankRecordView>,
)
    requires
        is_ranking(first, walked),
        is_ranking(second, walked),
    ensures
        first == second,
{
    assert(forall|rating: i32| #[trigger]
        with_rating(first, rating) == with_rating(walked, rating));
    lemma_same_order(first, second);
}

/// Two lists in falling order, of one length, that hold the same records of
/// every rating are the same list.
proof fn lemma_same_order(a: Seq<RankRecordView>, b: Seq<RankRecordView>)
    requires
        a.len() == b.len(),
        descending(a),
        descending(b),
        forall|rating: i32| #[trigger] with_rating(a, rating) == with_rating(b, rating),
    ensures
        a == b,
    decreases a.len(),
{
    if a.len() > 0 {
        lemma_same_last_rating(a, b);
        lemma_same_last_rating(b, a);
        let lowest = a.last().rating;
        assert(with_rating(a, lowest).last() == a.last());
        let shorter_a = a.drop_last();
        let shorter_b = b.drop_last();
        assert forall|rating: i32| #[trigger]
            with_rating(shorter_a, rating) == with_rating(shorter_b, rating) by {
            if rating == lowest {
                assert(with_rating(shorter_a, rating) =~= with_rating(a, rating).drop_last());
            }
        }
        assert(descending(shorter_a));
        assert(descending(shorter_b));
        lemma_same_order(shorter_a, shorter_b);
        assert(b =~= shorter_b.push(b.last()));
    }
}

/// No record of a walk has the rating 0.
pub proof fn lemma_season_records_rated(item: Seq<char>, seasons: Seq<(Seq<char>, SeasonView)>)
    ensures
        forall|i: int|
            0 <= i < season_records(item, seasons).len() ==> (#[trigger] season_records(
                item,
                seasons,
            )[i]).rating != 0,
    decreases seasons.len(),
{
    if seasons.len() > 0 {
        lemma_season_records_rated(item, seasons.drop_last());
        let before = season_records(item, seasons.drop_last());
        let all = season_records(item, seasons);
        assert forall|i: int| 0 <= i < all.len() implies (#[trigger] all[i]).rating != 0 by {
            if i < before.len() {
                assert(all[i] == before[i]);
            }
        }
    }
}

/// No record of a walk has the rating 0.
pub proof fn lemma_category_records_rated(category: CategoryView)
    ensures
        forall|i: int|
            0 <= i < category_records(category).len() ==> (#[trigger] category_records(
                category,
            )[i]).rating != 0,
    decreases category.len(),
{
    if category.len() > 0 {
        lemma_category_records_rated(category.drop_last());
        lemma_season_records_rated(category.last().1.display_name, category.last().1.seasons);
        let before = category_records(category.drop_last());
        let added = season_records(category.last().1.display_name, category.last().1.seasons);
        let all = category_records(category);
        assert forall|i: int| 0 <= i < all.len() implies (#[trigger] all[i]).rating != 0 by {
            if i < before.len() {
                assert(all[i] == before[i]);
            } else {
                assert(all[i] == added[i - before.len()]);
            }
        }
    }
}

/// No record of a walk has the rating 0.
pub proof fn lemma_leading_records_rated(document: DocumentView, count: nat)
    ensures
        forall|i: int|
            0 <= i < leading_records(document, count).len() ==> (#[trigger] leading_records(
                document,
                count,
            )[i]).rating != 0,
    decreases count,
{
    if count > 0 {
        lemma_leading_records_rated(document, (count - 1) as nat);
        lemma_category_records_rated(document[all_categories()[count - 1]]);
        let before = leading_records(document, (count - 1) as nat);
        let added = category_records(document[all_categories()[count - 1]]);
        let all = leading_records(document, count);
        assert forall|i: int| 0 <= i < all.len() implies (#[trigger] all[i]).rating != 0 by {
            if i < before.len() {
                assert(all[i] == before[i]);
            } else {
                assert(all[i] == added[i - before.len()]);
            }
        }
    }
}

/// A season that is not rated appears in no ranking: every record of a
/// ranking of a walk has a rating other than 0.
pub proof fn lemma_ranking_is_rated(
    ranked: Seq<RankRecordView>,
    document: DocumentView,
    scope: RankScope,
)
    requires
        is_ranking(ranked, walked_records(document, scope)),
    ensures
        forall|i: int| 0 <= i < ranked.len() ==> (#[trigger] ranked[i]).rating != 0,
{
    let walked = walked_records(document, scope);
    match scope {
        RankScope::All => {
            lemma_leading_records_rated(document, CATEGORY_COUNT as nat);
        },
        RankScope::Only(tag) => {
            lemma_category_records_rated(document[tag]);
        },
    }
    lemma_ranking_keeps_records(ranked, walked);
    assert forall|i: int| 0 <= i < ranked.len() implies (#[trigger] ranked[i]).rating != 0 by {
        assert(walked.contains(ranked[i]));
    }
}

/// Adds the records of the rated seasons of `item` to `out`.
fn collect_item(item: &Item, out: &mut Vec<RankRecord>)
    ensures
        records_view(final(out)@) == records_view(old(out)@) + season_records(
            item@.display_name,
            item@.seasons,
        ),
{
    let ghost start = records_view(out@);
    let ghost name = item@.display_name;
    let ghost seasons = item@.seasons;
    let mut i: usize = 0;
    while i < item.season_count()
        invariant
            i <= seasons.len(),
            name == item@.display_name,
            seasons == item@.seasons,
            records_view(out@) == start + season_records(name, seasons.take(i as int)),
        decreases seasons.len() - i,
    {
        let season = item.season(i);
        let ghost before = records_view(out@);
        assert(seasons.take(i + 1).drop_last() =~= seasons.take(i as int));
        assert(seasons.take(i + 1).last() == seasons[i as int]);
        if season.rating != 0 {
            out.push(
                RankRecord {
                    item: owned(item.display_name()),
                    season: season.display_name.clone(),
                    rating: season.rating,
                },
            );
            assert(records_view(out@) =~= before.push(record_of(name, season@)));
        }
        i += 1;
        assert(records_view(out@) =~= start + season_records(name, seasons.take(i as int)));
    }
    assert(seasons.take(i as int) =~= seasons);
}

/// Adds the records of the rated seasons of the items of `category` to `out`.
fn collect_category(category: &Category, out: &mut Vec<RankRecord>)
    ensures
        records_view(final(out)@) == records_view(old(out)@) + category_records(category@),
{
    let ghost start = records_view(out@);
    let ghost items = category@;
    let mut i: usize = 0;
    assert(records_view(out@) =~= start + category_records(items.take(0)));
    while i < category.len()
        invariant
            i <= items.len(),
            items == category@,
            records_view(out@) == start + category_records(items.take(i as int)),
        decreases items.len() - i,
    {
        assert(items.take(i + 1).drop_last() =~= items.take(i as int));
        collect_item(category.item(i), out);
        i += 1;
    }
    assert(items.take(i as int) =~= items);
}

/// The records that a ranking of `scope` is made of, in the order of the
/// walk.
pub fn walk(document: &Document, scope: RankScope) -> (r: Vec<RankRecord>)
    ensures
        records_view(r@) == walked_records(document@, scope),
{
    let mut out: Vec<RankRecord> = Vec::new();
    match scope {
        RankScope::Only(tag) => {
            collect_category(document.category(tag), &mut out);
        },
        RankScope::All => {
            let mut i: usize = 0;
            while i < CATEGORY_COUNT
                invariant
                    i <= CATEGORY_COUNT,
                    records_view(out@) == leading_records(document@, i as nat),
                decreases CATEGORY_COUNT - i,
            {
                let tag = CategoryTag::at(i);
                collect_category(document.category(tag), &mut out);
                i += 1;
            }
        },
    }
    out
}

/// Orders records by falling rating; records of one rating stay as they
/// stood.
pub fn sort_by_rating(records: Vec<RankRecord>) -> (r: Vec<RankRecord>)
    ensures
        is_ranking(records_view(r@), records_view(records@)),
{
    let ghost walked = records_view(records@);
    let mut rest = records;
    let mut out: Vec<RankRecord> = Vec::new();
    assert(walked.skip(walked.len() as int) =~= Seq::<RankRecordView>::empty());
    while rest.len() > 0
        invariant
            rest@.len() <= walked.len(),
            records_view(rest@) == walked.take(rest@.len() as int),
            is_ranking(records_view(out@), walked.skip(rest@.len() as int)),
        decreases rest@.len(),
    {
        let ghost taken = rest@.len() as int;
        let ghost sorted = records_view(out@);
        let ghost later = walked.skip(taken);
        let ghost full = rest@;
        let record = rest.pop().unwrap();
        assert(record@ == walked[taken - 1]) by {
            assert(records_view(full)[taken - 1] == walked.take(taken)[taken - 1]);
        }
        assert(records_view(rest@) =~= walked.take(taken - 1)) by {
            assert forall|j: int| 0 <= j < taken - 1 implies records_view(rest@)[j]
                == walked[j] by {
                assert(records_view(full)[j] == walked.take(taken)[j]);
            }
        }
        let mut place: usize = 0;
        while place < out.len() && out[place].rating > record.rating
            invariant
                place <= out@.len(),
                forall|j: int| 0 <= j < place ==> (#[trigger] out@[j]).rating > record.rating,
            decreases out@.len() - place,
        {
            place += 1;
        }
        out.insert(place, record);
        proof {
            let placed = records_view(out@);
            let head = sorted.take(place as int);
            let tail = sorted.skip(place as int);
            let single = seq![record@];
            assert(placed =~= head + single + tail);
            assert(sorted =~= head + tail);
            assert(walked.skip(taken - 1) =~= single + later);
            assert forall|i: int, j: int| 0 <= i < j < placed.len() implies (
            #[trigger] placed[i]).rating >= (#[trigger] placed[j]).rating by {
                if i > place {
                    assert(sorted[i - 1].rating >= sorted[j - 1].rating);
                } else if i == place {
                    assert(sorted[place as int].rating >= sorted[j - 1].rating);
                }
            }
            assert forall|rating: i32| #[trigger]
                with_rating(placed, rating) == with_rating(walked.skip(taken - 1), rating) by {
                lemma_with_rating_joined(head + single, tail, rating);
                lemma_with_rating_joined(head, single, rating);
                lemma_with_rating_joined(head, tail, rating);
                lemma_with_rating_joined(single, later, rating);
                assert(with_rating(single.drop_last(), rating) =~= Seq::<RankRecordView>::empty());
                assert(single.last() == record@);
                if record.rating == rating {
                    lemma_with_rating_none(head, rating);
                    assert(with_rating(placed, rating) =~= single + with_rating(tail, rating));
                } else {
                    assert(with_rating(placed, rating) =~= with_rating(head, rating) + with_rating(
                        tail,
                        rating,
                    ));
                    assert(with_rating(walked.skip(taken - 1), rating) =~= with_rating(
                        later,
                        rating,
                    ));
                }
            }
        }
    }
    out
}

/// The ranking of `scope`: the rated seasons by falling rating, those of one
/// rating in the order of the walk. A season whose rating is 0 is not rated
/// and is left out.
pub fn rank(document: &Document, scope: RankScope) -> (r: Vec<RankRecord>)
    ensures
        is_ranking(records_view(r@), walked_records(document@, scope)),
        forall|i: int| 0 <= i < r@.len() ==> (#[trigger] r@[i]).rating != 0,
{
    let ranked = sort_by_rating(walk(document, scope));
    proof {
        lemma_ranking_is_rated(records_view(ranked@), document@, scope);
        assert forall|i: int| 0 <= i < ranked@.len() implies (#[trigger] ranked@[i]).rating
            != 0 by {
            assert(records_view(ranked@)[i].rating != 0);
        }
    }
    ranked
}

} // verus!
