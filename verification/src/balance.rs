//! Class balancing: cyclic oversampling of one class out of the adjust split.

use vstd::prelude::*;
use crate::email::{EmailType, Entry};
use crate::errors::EmptyClassError;

verus! {

/// The subsequence of `s` whose labels equal `t`, in original order.
pub open spec fn class_only(s: Seq<Entry>, t: EmailType) -> Seq<Entry>
    decreases s.len(),
{
    if s.len() == 0 {
        Seq::empty()
    } else if s.last().1 == t {
        class_only(s.drop_last(), t) + seq![s.last()]
    } else {
        class_only(s.drop_last(), t)
    }
}

/// Every record that `class_only` keeps carries the requested label.
pub proof fn lemma_class_only_labels(s: Seq<Entry>, t: EmailType)
    ensures
        forall|j: int|
            0 <= j < class_only(s, t).len() ==> (#[trigger] class_only(s, t)[j]).1 == t,
    decreases s.len(),
{
    if s.len() > 0 {
        lemma_class_only_labels(s.drop_last(), t);
    }
}

/// `class_only` keeps nothing exactly when no record carries the label.
pub proof fn lemma_class_only_empty(s: Seq<Entry>, t: EmailType)
    ensures
        class_only(s, t).len() == 0 <==> (forall|i: int| 0 <= i < s.len() ==> (#[trigger] s[i]).1 != t),
    decreases s.len(),
{
    if s.len() > 0 {
        lemma_class_only_empty(s.drop_last(), t);
        assert(forall|i: int| 0 <= i < s.len() - 1 ==> #[trigger] s[i] == s.drop_last()[i]);
    }
}

/// Produces a class-pure sequence of length `adjust.len()` by repeating the
/// records of `target`'s class cyclically, in their original relative order.
///
/// Fails with `EmptyClassError` — rather than cycling forever — exactly when
/// the adjust split holds no record of the requested class.
pub fn balance(adjust: &Vec<Entry>, target: EmailType) -> (r: Result<Vec<Entry>, EmptyClassError>)
    ensures
        r is Err <==> class_only(adjust@, target).len() == 0,
        r is Err <==> (forall|i: int| 0 <= i < adjust@.len() ==> (#[trigger] adjust@[i]).1 != target),
        r is Ok ==> r->Ok_0@.len() == adjust@.len(),
        r is Ok ==> forall|j: int|
            0 <= j < r->Ok_0@.len() ==> #[trigger] r->Ok_0@[j] == class_only(adjust@, target)[
                j % (class_only(adjust@, target).len() as int)
            ],
        r is Ok ==> forall|j: int| 0 <= j < r->Ok_0@.len() ==> (#[trigger] r->Ok_0@[j]).1 == target,
{
    let n = adjust.len();
    let mut kept: Vec<Entry> = Vec::new();
    for i in 0..n
        invariant
            n == adjust@.len(),
            kept@ == class_only(adjust@.take(i as int), target),
    {
        proof {
            assert(adjust@.take(i + 1).drop_last() =~= adjust@.take(i as int));
            assert(adjust@.take(i + 1).last() == adjust@[i as int]);
        }
        let e = adjust[i];
        if e.1 == target {
            kept.push(e);
        }
    }
    proof {
        assert(adjust@.take(n as int) =~= adjust@);
        lemma_class_only_empty(adjust@, target);
    }
    if kept.len() == 0 {
        return Err(EmptyClassError);
    }

    let flen = kept.len();
    let mut out: Vec<Entry> = Vec::new();
    for k in 0..n
        invariant
            n == adjust@.len(),
            kept@ == class_only(adjust@, target),
            flen == kept@.len(),
            0 < flen,
            out@.len() == k,
            forall|j: int| 0 <= j < k ==> #[trigger] out@[j] == kept@[j % (flen as int)],
    {
        let idx = k % flen;
        out.push(kept[idx]);
    }
    proof {
        lemma_class_only_labels(adjust@, target);
    }
    Ok(out)
}

} // verus!
