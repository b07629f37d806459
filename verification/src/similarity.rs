//! How alike two names are, and the suggestion made when a name is not
//! found.
//!
//! A similarity is a number from 0 to 1, held as the bit pattern of a double:
//! one sign bit (always 0 here), eleven bits of exponent, fifty-two bits of
//! fraction. Among such numbers the order of the bit patterns is the order of
//! the numbers, so similarities are compared as integers.

use vstd::prelude::*;
use vstd::arithmetic::div_mod::{lemma_basic_div, lemma_div_multiples_vanish_quotient};
use vstd::arithmetic::power2::{
    lemma2_to64, lemma2_to64_rest, lemma_pow2_adds, lemma_pow2_pos, lemma_pow2_strictly_increases,
    lemma_pow2_unfold, pow2,
};
use vstd::bits::lemma_u64_shr_is_div;
use crate::model::{Category, CategoryView, viewed};
use crate::text::owned;

verus! {

/// The bit pattern of 1.
pub const ONE_BITS: u64 = 0x3FF0_0000_0000_0000;

/// The bit pattern of the double nearest to 0.80. A suggestion is made only
/// for a similarity above it.
pub const THRESHOLD_BITS: u64 = 0x3FE9_9999_9999_999A;

/// 2 to the power 52: the weight of the hidden bit of a double's
/// significand.
pub const HIDDEN_BIT: u64 = 0x10_0000_0000_0000;

/// The bit pattern of the Jaro similarity of two texts.
pub uninterp spec fn jaro_bits(a: Seq<char>, b: Seq<char>) -> u64;

/// `strsim::jaro`: the Jaro similarity of the two texts, a double between
/// 0.0 and 1.0, handed back as its bit pattern. The same texts give the same
/// similarity.
#[verifier::external_body]
fn jaro(a: &str, b: &str) -> (r: u64)
    ensures
        r == jaro_bits(a@, b@),
        r <= ONE_BITS,
{
    strsim::jaro(a, b).to_bits()
}

/// The exponent field of a bit pattern.
pub open spec fn exponent_of(bits: u64) -> int {
    bits as int / HIDDEN_BIT as int
}

/// The fraction field of a bit pattern.
pub open spec fn fraction_of(bits: u64) -> int {
    bits as int % HIDDEN_BIT as int
}

/// The number that a bit pattern stands for, times 2 to the power 1074,
/// which makes it a whole number. With exponent field `e` above 0 and
/// fraction field `f` the number is `(2^52 + f) * 2^(e - 1075)`; with `e`
/// equal to 0 it is `f * 2^(-1074)`.
pub open spec fn spec_scaled(bits: u64) -> int {
    if exponent_of(bits) == 0 {
        fraction_of(bits)
    } else {
        (HIDDEN_BIT + fraction_of(bits)) * pow2((exponent_of(bits) - 1) as nat)
    }
}

/// The whole hundredths in the number that a bit pattern stands for: one
/// hundred times the number, cut off.
pub open spec fn spec_percent(bits: u64) -> int {
    (100 * spec_scaled(bits)) / (pow2(1074) as int)
}

/// Up to the bit pattern of 1, the order of the bit patterns is the order
/// of the numbers they stand for.
pub proof fn lemma_bit_order(a: u64, b: u64)
    requires
        a < b <= ONE_BITS,
    ensures
        spec_scaled(a) < spec_scaled(b),
{
    let ea = exponent_of(a);
    let eb = exponent_of(b);
    let fa = fraction_of(a);
    let fb = fraction_of(b);
    assert(ea <= eb && (ea == eb ==> fa < fb) && 0 <= ea && 0 <= fa < HIDDEN_BIT && 0 <= fb
        < HIDDEN_BIT) by {
        assert(ea > eb ==> ea * HIDDEN_BIT >= (eb + 1) * HIDDEN_BIT) by (nonlinear_arith)
            requires
                HIDDEN_BIT > 0,
        ;
    }
    if ea == eb {
        if ea > 0 {
            let weight = pow2((ea - 1) as nat) as int;
            lemma_pow2_pos((ea - 1) as nat);
            assert((HIDDEN_BIT + fa) * weight < (HIDDEN_BIT + fb) * weight) by (nonlinear_arith)
                requires
                    fa < fb,
                    weight > 0,
            ;
        }
    } else {
        let high = pow2((eb - 1) as nat) as int;
        lemma_pow2_pos((eb - 1) as nat);
        assert(HIDDEN_BIT * high <= (HIDDEN_BIT + fb) * high) by (nonlinear_arith)
            requires
                fb >= 0,
                high > 0,
        ;
        if ea == 0 {
            assert(HIDDEN_BIT * 1 <= HIDDEN_BIT * high) by (nonlinear_arith)
                requires
                    high >= 1,
            ;
        } else {
            let low = pow2((ea - 1) as nat) as int;
            lemma_pow2_pos((ea - 1) as nat);
            lemma_pow2_unfold(ea as nat);
            if ea < eb - 1 {
                lemma_pow2_strictly_increases(ea as nat, (eb - 1) as nat);
            }
            assert((HIDDEN_BIT + fa) * low < HIDDEN_BIT * high) by (nonlinear_arith)
                requires
                    0 <= fa < HIDDEN_BIT,
                    low > 0,
                    2 * low <= high,
            ;
        }
    }
}

/// The hundredths of a bit pattern of at most `ONE_BITS`, as they are
/// computed: nothing for an exponent field of 0, else one hundred times the
/// significand, shifted right.
proof fn lemma_percent_by_shift(bits: u64)
    requires
        bits <= ONE_BITS,
    ensures
        exponent_of(bits) == 0 ==> spec_percent(bits) == 0,
        exponent_of(bits) > 0 ==> spec_percent(bits) == (100 * (HIDDEN_BIT + fraction_of(bits)))
            / (pow2((1075 - exponent_of(bits)) as nat) as int),
        0 <= exponent_of(bits) <= 1023,
{
    let e = exponent_of(bits);
    let f = fraction_of(bits);
    lemma2_to64();
    lemma2_to64_rest();
    if e == 0 {
        lemma_pow2_strictly_increases(59, 1074);
        lemma_basic_div(100 * f, pow2(1074) as int);
    } else {
        let low = pow2((e - 1) as nat) as int;
        let high = pow2((1075 - e) as nat) as int;
        let scaled = 100 * (HIDDEN_BIT + f);
        lemma_pow2_pos((e - 1) as nat);
        lemma_pow2_pos((1075 - e) as nat);
        lemma_pow2_adds((e - 1) as nat, (1075 - e) as nat);
        lemma_div_multiples_vanish_quotient(low, scaled, high);
        assert(100 * ((HIDDEN_BIT + f) * low) == low * scaled) by (nonlinear_arith)
            requires
                scaled == 100 * (HIDDEN_BIT + f),
        ;
    }
}

/// How alike two names are: a number from 0 (nothing in common) to 1 (the
/// same).
#[derive(Clone, Copy, Debug, PartialEq, Eq)]
pub struct Similarity {
    bits: u64,
}

impl Similarity {
    /// The bit pattern of the similarity.
    pub closed spec fn spec_bits(self) -> u64 {
        self.bits
    }

    #[verifier::type_invariant]
    spec fn inv(self) -> bool {
        self.bits <= ONE_BITS
    }

    /// The similarity with the given bit pattern; `None` for a pattern above
    /// that of 1.
    pub fn from_bits(bits: u64) -> (r: Option<Similarity>)
        ensures
            r is Some <==> bits <= ONE_BITS,
            r is Some ==> r->Some_0.spec_bits() == bits,
    {
        if bits <= ONE_BITS {
            Some(Similarity { bits })
        } else {
            None
        }
    }

    /// The Jaro similarity of two texts.
    pub fn between(a: &str, b: &str) -> (r: Similarity)
        ensures
            r.spec_bits() == jaro_bits(a@, b@),
            r.spec_bits() <= ONE_BITS,
    {
        Similarity { bits: jaro(a, b) }
    }

    pub fn bits(self) -> (r: u64)
        ensures
            r == self.spec_bits(),
            r <= ONE_BITS,
    {
        proof {
            use_type_invariant(self);
        }
        self.bits
    }

    /// Whether the similarity is above the threshold for a suggestion.
    pub fn exceeds_threshold(self) -> (r: bool)
        ensures
            r == (self.spec_bits() > THRESHOLD_BITS),
    {
        self.bits > THRESHOLD_BITS
    }

    /// The similarity in whole hundredths, cut off, not rounded.
    pub fn percent(self) -> (r: u8)
        ensures
            r == spec_percent(self.spec_bits()),
            r <= 100,
    {
        proof {
            use_type_invariant(self);
            lemma_percent_by_shift(self.bits);
        }
        let bits: u64 = self.bits;
        let exponent: u64 = bits >> 52;
        let fraction: u64 = bits & 0xF_FFFF_FFFF_FFFF;
        assert(exponent == bits / 0x10_0000_0000_0000) by (bit_vector)
            requires
                exponent == bits >> 52,
        ;
        assert(fraction == bits % 0x10_0000_0000_0000) by (bit_vector)
            requires
                fraction == bits & 0xF_FFFF_FFFF_FFFF,
        ;
        assert(exponent <= 1023 && (exponent == 1023 ==> fraction == 0)) by (bit_vector)
            requires
                exponent == bits >> 52,
                fraction == bits & 0xF_FFFF_FFFF_FFFF,
                bits <= 0x3FF0_0000_0000_0000,
        ;
        if exponent == 0 {
            return 0;
        }
        let shift: u64 = 1075 - exponent;
        let scaled: u64 = 100 * (HIDDEN_BIT + fraction);
        if shift >= 64 {
            proof {
                lemma2_to64();
                lemma2_to64_rest();
                lemma_pow2_strictly_increases(60, shift as nat);
                lemma_basic_div(scaled as int, pow2(shift as nat) as int);
            }
            return 0;
        }
        proof {
            lemma_u64_shr_is_div(scaled, shift);
        }
        assert((scaled >> shift) <= 100) by (bit_vector)
            requires
                52 <= shift < 64,
                scaled < 100 * 0x20_0000_0000_0000,
                shift == 52 ==> scaled == 100 * 0x10_0000_0000_0000,
        ;
        (scaled >> shift) as u8
    }
}

/// What is offered in place of a name that was not found.
#[derive(Debug, PartialEq, Eq)]
pub struct Suggestion {
    /// The name, as the user wrote it, of the item whose key is most like
    /// the name asked for.
    pub display_name: String,
    /// How alike the two are, in whole hundredths.
    pub percent: u8,
}

#[verifier::ext_equal]
pub struct SuggestionView {
    pub display_name: Seq<char>,
    pub percent: int,
}

impl View for Suggestion {
    type V = SuggestionView;

    open spec fn view(&self) -> SuggestionView {
        SuggestionView { display_name: self.display_name@, percent: self.percent as int }
    }
}

/// Whether `index` is the place of the first of the highest scores.
pub open spec fn is_first_highest(scores: Seq<u64>, index: int) -> bool {
    &&& 0 <= index < scores.len()
    &&& forall|j: int| 0 <= j < index ==> (#[trigger] scores[j]) < scores[index]
    &&& forall|j: int| index <= j < scores.len() ==> (#[trigger] scores[j]) <= scores[index]
}

/// The rule of the suggestion: the item whose score is the highest, the
/// first of them where several are, if that score is above the threshold.
pub open spec fn spec_suggestion(category: CategoryView, scores: Seq<u64>) -> Option<
    SuggestionView,
> {
    if exists|index: int| is_first_highest(scores, index) && scores[index] > THRESHOLD_BITS {
        let index = choose|index: int|
            is_first_highest(scores, index) && scores[index] > THRESHOLD_BITS;
        Some(
            SuggestionView {
                display_name: category[index].1.display_name,
                percent: spec_percent(scores[index]),
            },
        )
    } else {
        None
    }
}

/// The similarities of `query` to the keys of a category, item by item.
pub open spec fn spec_scores(query: Seq<char>, category: CategoryView) -> Seq<u64> {
    Seq::new(category.len(), |i: int| jaro_bits(query, category[i].0))
}

/// The bit patterns of a list of similarities.
pub open spec fn bits_of(scores: Seq<Similarity>) -> Seq<u64> {
    Seq::new(scores.len(), |i: int| scores[i].spec_bits())
}

/// There is one first place of the highest score at most.
pub proof fn lemma_first_highest_is_one(scores: Seq<u64>, i: int, j: int)
    requires
        is_first_highest(scores, i),
        is_first_highest(scores, j),
    ensures
        i == j,
{
    if i < j {
        assert(scores[j] <= scores[i]);
    } else if j < i {
        assert(scores[i] <= scores[j]);
    }
}

/// A list that is not empty has a first place of the highest score.
pub proof fn lemma_first_highest_exists(scores: Seq<u64>) -> (index: int)
    requires
        scores.len() > 0,
    ensures
        is_first_highest(scores, index),
    decreases scores.len(),
{
    if scores.len() == 1 {
        0
    } else {
        let shorter = scores.drop_last();
        let before = lemma_first_highest_exists(shorter);
        assert(forall|j: int| 0 <= j < shorter.len() ==> shorter[j] == scores[j]);
        if scores.last() > scores[before] {
            scores.len() - 1
        } else {
            before
        }
    }
}

/// When a suggestion is made: a suggestion is made just where some score
/// is above the threshold, and it is of the item at the first place of the
/// highest score.
pub proof fn lemma_suggestion_is_made(category: CategoryView, scores: Seq<u64>)
    ensures
        spec_suggestion(category, scores) is Some <==> exists|i: int|
            0 <= i < scores.len() && #[trigger] scores[i] > THRESHOLD_BITS,
        forall|index: int|
            is_first_highest(scores, index) && scores[index] > THRESHOLD_BITS
                ==> spec_suggestion(category, scores) == Some(
                SuggestionView {
                    display_name: category[index].1.display_name,
                    percent: spec_percent(scores[index]),
                },
            ),
{
    if exists|i: int| 0 <= i < scores.len() && #[trigger] scores[i] > THRESHOLD_BITS {
        let i = choose|i: int| 0 <= i < scores.len() && #[trigger] scores[i] > THRESHOLD_BITS;
        let highest = lemma_first_highest_exists(scores);
        assert(scores[highest] >= scores[i]);
    }
    assert forall|index: int|
        is_first_highest(scores, index) && scores[index] > THRESHOLD_BITS implies spec_suggestion(
        category,
        scores,
    ) == Some(
        SuggestionView {
            display_name: category[index].1.display_name,
            percent: spec_percent(scores[index]),
        },
    ) by {
        let chosen = choose|chosen: int|
            is_first_highest(scores, chosen) && scores[chosen] > THRESHOLD_BITS;
        lemma_first_highest_is_one(scores, chosen, index);
    }
}

/// The place of the first of the highest scores; `None` for an empty list.
pub fn first_highest(scores: &Vec<Similarity>) -> (r: Option<usize>)
    ensures
        match r {
            Some(index) => is_first_highest(bits_of(scores@), index as int),
            None => scores@.len() == 0,
        },
{
    if scores.len() == 0 {
        return None;
    }
    let mut best: usize = 0;
    let mut i: usize = 1;
    while i < scores.len()
        invariant
            1 <= i <= scores@.len(),
            best < i,
            forall|j: int|
                0 <= j < best ==> (#[trigger] bits_of(scores@)[j]) < bits_of(scores@)[best as int],
            forall|j: int|
                best <= j < i ==> (#[trigger] bits_of(scores@)[j]) <= bits_of(scores@)[best as int],
        decreases scores@.len() - i,
    {
        if scores[i].bits() > scores[best].bits() {
            best = i;
        }
        i += 1;
    }
    Some(best)
}

/// The suggestion for a category whose items have the given scores, one
/// score for each item.
pub fn pick_suggestion(category: &Category, scores: &Vec<Similarity>) -> (r: Option<Suggestion>)
    requires
        scores@.len() == category@.len(),
    ensures
        viewed(r) == spec_suggestion(category@, bits_of(scores@)),
{
    let ghost bits = bits_of(scores@);
    match first_highest(scores) {
        Some(index) => {
            let score = scores[index];
            if score.exceeds_threshold() {
                proof {
                    let chosen = choose|chosen: int|
                        is_first_highest(bits, chosen) && bits[chosen] > THRESHOLD_BITS;
                    lemma_first_highest_is_one(bits, chosen, index as int);
                }
                Some(
                    Suggestion {
                        display_name: owned(category.item(index).display_name()),
                        percent: score.percent(),
                    },
                )
            } else {
                proof {
                    assert forall|other: int| is_first_highest(bits, other) implies !(bits[other]
                        > THRESHOLD_BITS) by {
                        lemma_first_highest_is_one(bits, other, index as int);
                    }
                }
                None
            }
        },
        None => None,
    }
}

/// The similarities of `query` to the keys of a category, item by item.
pub fn scores_for(query: &str, category: &Category) -> (r: Vec<Similarity>)
    ensures
        bits_of(r@) == spec_scores(query@, category@),
{
    let mut scores: Vec<Similarity> = Vec::new();
    let mut i: usize = 0;
    while i < category.len()
        invariant
            i <= category@.len(),
            scores@.len() == i,
            forall|j: int|
                0 <= j < i ==> (#[trigger] scores@[j]).spec_bits() == jaro_bits(
                    query@,
                    category@[j].0,
                ),
        decreases category@.len() - i,
    {
        scores.push(Similarity::between(query, category.key(i)));
        i += 1;
    }
    scores
}

/// The suggestion made when `query` is not a key of the category: the item
/// whose key is most like `query`, if it is alike enough.
pub fn suggest(query: &str, category: &Category) -> (r: Option<Suggestion>)
    ensures
        viewed(r) == spec_suggestion(category@, spec_scores(query@, category@)),
{
    let scores = scores_for(query, category);
    assert(scores@.len() == bits_of(scores@).len());
    pick_suggestion(category, &scores)
}

} // verus!
