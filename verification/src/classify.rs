//! The decision rule and its evaluation: tie-broken classification and the
//! confusion matrix it fills.

use vstd::prelude::*;
use crate::email::EmailType;

verus! {

/// The outcome of comparing a record's two log-likelihood scores.
#[derive(Debug, Clone, Copy, PartialEq, Eq, Structural)]
pub enum ScoreOrder {
    /// The spam score is strictly larger.
    SpamHigher,
    /// The ham score is strictly larger.
    HamHigher,
    /// The two scores are exactly equal.
    Tied,
}

/// Relies on rand's `random::<bool>()`: one draw from the uniform
/// distribution over `{true, false}` — a fair coin. Nothing can be promised
/// of a single random outcome.
#[verifier::external_body]
pub(crate) fn coin_flip() -> bool {
    rand::random::<bool>()
}

/// Decides a label from the score comparison: the strictly higher score
/// wins, and an exact tie is broken by a fair coin flip, so on a tie either
/// label may come out.
pub fn decide(order: ScoreOrder) -> (r: EmailType)
    ensures
        order == ScoreOrder::SpamHigher ==> r == EmailType::Spam,
        order == ScoreOrder::HamHigher ==> r == EmailType::Ham,
{
    match order {
        ScoreOrder::SpamHigher => EmailType::Spam,
        ScoreOrder::HamHigher => EmailType::Ham,
        ScoreOrder::Tied => if coin_flip() {
            EmailType::Spam
        } else {
            EmailType::Ham
        },
    }
}

/// A 2×2 grid of counts indexed by (actual, predicted) labels, in the fixed
/// order (Spam, Ham) on both axes. Cells only ever grow, by exactly one per
/// evaluated record.
#[derive(Debug, Clone, Copy, PartialEq, Eq, Structural)]
pub struct ConfusionMatrix {
    pub spam_as_spam: u64,
    pub spam_as_ham: u64,
    pub ham_as_spam: u64,
    pub ham_as_ham: u64,
}

/// How many of `pairs` are exactly the (actual, predicted) pair `(a, p)`.
pub open spec fn cell_count(pairs: Seq<(EmailType, EmailType)>, a: EmailType, p: EmailType) -> int
    decreases pairs.len(),
{
    if pairs.len() == 0 {
        0
    } else {
        cell_count(pairs.drop_last(), a, p) + if pairs.last() == (a, p) {
            1int
        } else {
            0int
        }
    }
}

/// How many of `outcomes` carry the actual label `a`.
pub open spec fn label_count(outcomes: Seq<(EmailType, ScoreOrder)>, a: EmailType) -> int
    decreases outcomes.len(),
{
    if outcomes.len() == 0 {
        0
    } else {
        label_count(outcomes.drop_last(), a) + if outcomes.last().0 == a {
            1int
        } else {
            0int
        }
    }
}

/// How many of `outcomes` carry the actual label `a` together with the score
/// comparison `o`.
pub open spec fn outcome_count(
    outcomes: Seq<(EmailType, ScoreOrder)>,
    a: EmailType,
    o: ScoreOrder,
) -> int
    decreases outcomes.len(),
{
    if outcomes.len() == 0 {
        0
    } else {
        outcome_count(outcomes.drop_last(), a, o) + if outcomes.last() == (a, o) {
            1int
        } else {
            0int
        }
    }
}

impl ConfusionMatrix {
    /// The cell selected by an (actual, predicted) pair of labels.
    pub open spec fn spec_cell(self, actual: EmailType, predicted: EmailType) -> u64 {
        match (actual, predicted) {
            (EmailType::Spam, EmailType::Spam) => self.spam_as_spam,
            (EmailType::Spam, EmailType::Ham) => self.spam_as_ham,
            (EmailType::Ham, EmailType::Spam) => self.ham_as_spam,
            (EmailType::Ham, EmailType::Ham) => self.ham_as_ham,
        }
    }

    /// The diagonal: records whose prediction matched their label.
    pub open spec fn spec_correct(self) -> int {
        self.spam_as_spam + self.ham_as_ham
    }

    /// The off-diagonal: records whose prediction missed their label.
    pub open spec fn spec_mistaken(self) -> int {
        self.spam_as_ham + self.ham_as_spam
    }

    /// The number of records counted so far.
    pub open spec fn spec_total(self) -> int {
        self.spam_as_spam + self.spam_as_ham + self.ham_as_spam + self.ham_as_ham
    }

    /// The zero matrix: no record evaluated yet.
    pub fn new() -> (m: ConfusionMatrix)
        ensures
            forall|a: EmailType, p: EmailType| #[trigger] m.spec_cell(a, p) == 0,
            m.spec_total() == 0,
    {
        ConfusionMatrix { spam_as_spam: 0, spam_as_ham: 0, ham_as_spam: 0, ham_as_ham: 0 }
    }

    /// Counts one evaluated record: exactly the (actual, predicted) cell
    /// grows, by one; no cell is ever decremented.
    pub fn record(&mut self, actual: EmailType, predicted: EmailType)
        requires
            old(self).spec_total() < u64::MAX,
        ensures
            final(self).spec_cell(actual, predicted) == old(self).spec_cell(actual, predicted) + 1,
            forall|a: EmailType, p: EmailType|
                (a, p) != (actual, predicted)
                    ==> #[trigger] final(self).spec_cell(a, p) == old(self).spec_cell(a, p),
            final(self).spec_total() == old(self).spec_total() + 1,
    {
        match (actual, predicted) {
            (EmailType::Spam, EmailType::Spam) => {
                self.spam_as_spam = self.spam_as_spam + 1;
            },
            (EmailType::Spam, EmailType::Ham) => {
                self.spam_as_ham = self.spam_as_ham + 1;
            },
            (EmailType::Ham, EmailType::Spam) => {
                self.ham_as_spam = self.ham_as_spam + 1;
            },
            (EmailType::Ham, EmailType::Ham) => {
                self.ham_as_ham = self.ham_as_ham + 1;
            },
        }
    }

    /// The diagonal sum: the number of correctly classified records.
    pub fn trace(&self) -> (r: u64)
        requires
            self.spec_total() <= u64::MAX,
        ensures
            r == self.spec_correct(),
    {
        self.spam_as_spam + self.ham_as_ham
    }

    /// The off-diagonal sum: the number of misclassified records.
    pub fn mistakes(&self) -> (r: u64)
        requires
            self.spec_total() <= u64::MAX,
        ensures
            r == self.spec_mistaken(),
    {
        self.spam_as_ham + self.ham_as_spam
    }

    /// The sum of all four cells.
    pub fn total(&self) -> (r: u64)
        requires
            self.spec_total() <= u64::MAX,
        ensures
            r == self.spec_total(),
    {
        self.spam_as_spam + self.spam_as_ham + self.ham_as_spam + self.ham_as_ham
    }

    /// Correct and mistaken classifications partition the evaluated records:
    /// whenever any record was counted, accuracy and error rate — the two
    /// sums each divided by the total — add up to one.
    pub proof fn lemma_correct_mistaken_partition(m: ConfusionMatrix)
        ensures
            m.spec_correct() + m.spec_mistaken() == m.spec_total(),
    {
    }
}

/// The four cell tallies of any run of (actual, predicted) pairs cover it:
/// they sum to the number of pairs.
pub proof fn lemma_cell_counts_cover(pairs: Seq<(EmailType, EmailType)>)
    ensures
        cell_count(pairs, EmailType::Spam, EmailType::Spam) + cell_count(
            pairs,
            EmailType::Spam,
            EmailType::Ham,
        ) + cell_count(pairs, EmailType::Ham, EmailType::Spam) + cell_count(
            pairs,
            EmailType::Ham,
            EmailType::Ham,
        ) == pairs.len(),
    decreases pairs.len(),
{
    if pairs.len() > 0 {
        lemma_cell_counts_cover(pairs.drop_last());
        let l = pairs.last();
        assert(l == (l.0, l.1));
    }
}

/// Accumulates the confusion matrix of known (actual, predicted) pairs:
/// every cell equals the manual tally of its pair, and the total equals the
/// number of records.
pub fn tally(pairs: &Vec<(EmailType, EmailType)>) -> (m: ConfusionMatrix)
    requires
        pairs@.len() <= u64::MAX,
    ensures
        forall|a: EmailType, p: EmailType|
            #[trigger] m.spec_cell(a, p) == cell_count(pairs@, a, p),
        m.spec_total() == pairs@.len(),
{
    let mut m = ConfusionMatrix::new();
    let n = pairs.len();
    for k in 0..n
        invariant
            n == pairs@.len() <= u64::MAX,
            forall|a: EmailType, p: EmailType|
                #[trigger] m.spec_cell(a, p) == cell_count(pairs@.take(k as int), a, p),
            m.spec_total() == k,
    {
        proof {
            assert(pairs@.take(k + 1).drop_last() =~= pairs@.take(k as int));
            assert(pairs@.take(k + 1).last() == pairs@[k as int]);
        }
        let (a, p) = pairs[k];
        m.record(a, p);
    }
    proof {
        assert(pairs@.take(n as int) =~= pairs@);
    }
    m
}

/// Applies the decision rule to every record's score comparison and
/// accumulates the confusion matrix, as the evaluator does over one holdout
/// subset.
///
/// Each row of the matrix counts exactly the records with that actual
/// label; within a row, the strictly-decided outcomes land in their forced
/// cell, and only tied outcomes can move between the two cells (the coin
/// decides them).
pub fn evaluate(outcomes: &Vec<(EmailType, ScoreOrder)>) -> (m: ConfusionMatrix)
    requires
        outcomes@.len() <= u64::MAX,
    ensures
        m.spec_total() == outcomes@.len(),
        m.spec_cell(EmailType::Spam, EmailType::Spam) + m.spec_cell(EmailType::Spam, EmailType::Ham)
            == label_count(outcomes@, EmailType::Spam),
        m.spec_cell(EmailType::Ham, EmailType::Spam) + m.spec_cell(EmailType::Ham, EmailType::Ham)
            == label_count(outcomes@, EmailType::Ham),
        forall|a: EmailType|
            outcome_count(outcomes@, a, ScoreOrder::SpamHigher)
                <= #[trigger] m.spec_cell(a, EmailType::Spam)
                <= outcome_count(outcomes@, a, ScoreOrder::SpamHigher) + outcome_count(
                outcomes@,
                a,
                ScoreOrder::Tied,
            ),
        forall|a: EmailType|
            outcome_count(outcomes@, a, ScoreOrder::HamHigher)
                <= #[trigger] m.spec_cell(a, EmailType::Ham)
                <= outcome_count(outcomes@, a, ScoreOrder::HamHigher) + outcome_count(
                outcomes@,
                a,
                ScoreOrder::Tied,
            ),
{
    let mut m = ConfusionMatrix::new();
    let n = outcomes.len();
    for k in 0..n
        invariant
            n == outcomes@.len() <= u64::MAX,
            m.spec_total() == k,
            m.spec_cell(EmailType::Spam, EmailType::Spam) + m.spec_cell(
                EmailType::Spam,
                EmailType::Ham,
            ) == label_count(outcomes@.take(k as int), EmailType::Spam),
            m.spec_cell(EmailType::Ham, EmailType::Spam) + m.spec_cell(
                EmailType::Ham,
                EmailType::Ham,
            ) == label_count(outcomes@.take(k as int), EmailType::Ham),
            forall|a: EmailType|
                outcome_count(outcomes@.take(k as int), a, ScoreOrder::SpamHigher)
                    <= #[trigger] m.spec_cell(a, EmailType::Spam)
                    <= outcome_count(outcomes@.take(k as int), a, ScoreOrder::SpamHigher)
                    + outcome_count(outcomes@.take(k as int), a, ScoreOrder::Tied),
            forall|a: EmailType|
                outcome_count(outcomes@.take(k as int), a, ScoreOrder::HamHigher)
                    <= #[trigger] m.spec_cell(a, EmailType::Ham)
                    <= outcome_count(outcomes@.take(k as int), a, ScoreOrder::HamHigher)
                    + outcome_count(outcomes@.take(k as int), a, ScoreOrder::Tied),
    {
        proof {
            assert(outcomes@.take(k + 1).drop_last() =~= outcomes@.take(k as int));
            assert(outcomes@.take(k + 1).last() == outcomes@[k as int]);
        }
        let (a, o) = outcomes[k];
        let p = decide(o);
        m.record(a, p);
    }
    proof {
        assert(outcomes@.take(n as int) =~= outcomes@);
    }
    m
}

} // verus!
