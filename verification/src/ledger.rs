//! The ledger of purchases not yet sold, kept so that the purchase with the
//! lowest buy rate is always at hand.

use vstd::prelude::*;
use crate::models::Purchase;

verus! {

/// Whether the buy rates never fall from one purchase to the next.
pub open spec fn ascending(queue: Seq<Purchase>) -> bool {
    forall|i: int, j: int|
        0 <= i <= j < queue.len() ==> queue[i].rate.scaled() <= queue[j].rate.scaled()
}

/// How many purchases at the head of `queue` meet `holds`, one after the
/// other: the place of the first purchase that does not, or the length of
/// the queue where all do.
pub open spec fn leading(queue: Seq<Purchase>, holds: spec_fn(Purchase) -> bool) -> nat
    decreases queue.len(),
{
    if queue.len() > 0 && holds(queue[0]) {
        1 + leading(queue.skip(1), holds)
    } else {
        0
    }
}

/// `leading` is the one position `k` with `holds` at every place before it
/// and not at `k` itself, if the queue goes that far.
pub proof fn lemma_leading_is(queue: Seq<Purchase>, holds: spec_fn(Purchase) -> bool, k: int)
    requires
        0 <= k <= queue.len(),
        forall|i: int| 0 <= i < k ==> holds(#[trigger] queue[i]),
        k < queue.len() ==> !holds(queue[k]),
    ensures
        leading(queue, holds) == k,
    decreases queue.len(),
{
    if k > 0 {
        let rest = queue.skip(1);
        assert(holds(queue[0]));
        assert forall|i: int| 0 <= i < k - 1 implies holds(#[trigger] rest[i]) by {
            assert(rest[i] == queue[i + 1]);
        }
        lemma_leading_is(rest, holds, k - 1);
    }
}

/// `holds` is met at every place before `leading`, and not at `leading`
/// itself, if the queue goes that far.
pub proof fn lemma_leading_splits(queue: Seq<Purchase>, holds: spec_fn(Purchase) -> bool)
    ensures
        leading(queue, holds) <= queue.len(),
        forall|i: int| 0 <= i < leading(queue, holds) ==> holds(#[trigger] queue[i]),
        leading(queue, holds) < queue.len() ==> !holds(queue[leading(queue, holds) as int]),
    decreases queue.len(),
{
    if queue.len() > 0 && holds(queue[0]) {
        let rest = queue.skip(1);
        lemma_leading_splits(rest, holds);
        assert forall|i: int| 0 <= i < leading(queue, holds) implies holds(#[trigger] queue[i]) by {
            if i > 0 {
                assert(rest[i - 1] == queue[i]);
            }
        }
        if leading(queue, holds) < queue.len() {
            assert(rest[leading(rest, holds) as int] == queue[leading(queue, holds) as int]);
        }
    }
}

/// Tells of a purchase whether it was bought at a rate that is not above the
/// rate of `purchase`.
pub open spec fn no_dearer_than(purchase: Purchase) -> spec_fn(Purchase) -> bool {
    |other: Purchase| other.rate.scaled() <= purchase.rate.scaled()
}

/// How many purchases at the head of `queue` were bought at a rate that is
/// not above that of `purchase`. In an ascending queue these are all such
/// purchases, so this is where `purchase` goes: behind the purchases that are
/// as good or better, among them those of its own rate that came before it.
pub open spec fn rank(queue: Seq<Purchase>, purchase: Purchase) -> nat {
    leading(queue, no_dearer_than(purchase))
}

/// The queue after `purchase` has entered it.
pub open spec fn with_purchase(queue: Seq<Purchase>, purchase: Purchase) -> Seq<Purchase> {
    queue.insert(rank(queue, purchase) as int, purchase)
}

/// The queue that is left of `purchases` entering an empty ledger one after
/// the other.
pub open spec fn filled(purchases: Seq<Purchase>) -> Seq<Purchase>
    decreases purchases.len(),
{
    if purchases.len() == 0 {
        Seq::empty()
    } else {
        with_purchase(filled(purchases.drop_last()), purchases.last())
    }
}

/// A purchase that enters an ascending queue leaves it ascending, and what
/// the queue holds is what it held and the purchase.
pub proof fn lemma_with_purchase(queue: Seq<Purchase>, purchase: Purchase)
    requires
        ascending(queue),
    ensures
        ascending(with_purchase(queue, purchase)),
        with_purchase(queue, purchase).to_multiset() == queue.to_multiset().insert(purchase),
{
    lemma_leading_splits(queue, no_dearer_than(purchase));
    let k = rank(queue, purchase) as int;
    let after = with_purchase(queue, purchase);
    assert forall|i: int, j: int| 0 <= i <= j < after.len() implies after[i].rate.scaled()
        <= after[j].rate.scaled() by {
        if j < k {
            assert(after[i] == queue[i] && after[j] == queue[j]);
        } else if j == k {
            if i < k {
                assert(after[i] == queue[i]);
            }
        } else {
            assert(after[j] == queue[j - 1]);
            if i < k {
                assert(after[i] == queue[i]);
            } else if i == k {
                assert(queue[k].rate.scaled() <= queue[j - 1].rate.scaled());
            } else {
                assert(after[i] == queue[i - 1]);
            }
        }
    }
    vstd::seq_lib::to_multiset_insert(queue, k, purchase);
}

/// Whatever purchases enter an empty ledger, in whatever order, the queue
/// holds exactly them, and taking the best again and again gives them in an
/// order in which the buy rate never falls.
pub proof fn lemma_pops_ascend(purchases: Seq<Purchase>)
    ensures
        ascending(filled(purchases)),
        filled(purchases).to_multiset() == purchases.to_multiset(),
    decreases purchases.len(),
{
    if purchases.len() == 0 {
        assert(purchases =~= Seq::empty());
    } else {
        let before = purchases.drop_last();
        lemma_pops_ascend(before);
        lemma_with_purchase(filled(before), purchases.last());
        assert(before.push(purchases.last()) =~= purchases);
        vstd::seq_lib::to_multiset_build(before, purchases.last());
    }
}

/// The purchases not yet sold. Its view is the queue in which they leave:
/// the purchase with the lowest buy rate first, and among purchases of one
/// rate the one that entered first.
#[derive(Debug)]
pub struct PurchaseAccount {
    /// The queue back to front, so that the best purchase is taken from the
    /// end.
    items: Vec<Purchase>,
}

impl View for PurchaseAccount {
    type V = Seq<Purchase>;

    closed spec fn view(&self) -> Seq<Purchase> {
        self.items@.reverse()
    }
}

impl PurchaseAccount {
    #[verifier::type_invariant]
    spec fn descending(self) -> bool {
        forall|i: int, j: int|
            0 <= i <= j < self.items.len() ==> self.items[i].rate.scaled()
                >= self.items[j].rate.scaled()
    }

    /// A ledger without purchases.
    pub fn new() -> (account: Self)
        ensures
            account@ == Seq::<Purchase>::empty(),
    {
        Self { items: Vec::new() }
    }

    /// How many purchases the ledger holds.
    pub fn len(&self) -> (n: usize)
        ensures
            n == self@.len(),
    {
        self.items.len()
    }

    pub fn is_empty(&self) -> (b: bool)
        ensures
            b == (self@.len() == 0),
    {
        self.items.len() == 0
    }

    /// Adds a purchase. Nothing is checked of its identifier: the caller
    /// sees to it that identifiers are unique.
    pub fn insert(&mut self, purchase: Purchase)
        ensures
            final(self)@ == with_purchase(old(self)@, purchase),
            ascending(old(self)@),
            ascending(final(self)@),
    {
        proof {
            use_type_invariant(&*self);
        }
        let n = self.items.len();
        let mut lo: usize = 0;
        let mut hi: usize = n;
        while lo < hi
            invariant
                n == self.items.len(),
                lo <= hi <= n,
                self.descending(),
                forall|t: int| 0 <= t < lo ==> self.items[t].rate.scaled() > purchase.rate.scaled(),
                forall|t: int|
                    hi <= t < n ==> self.items[t].rate.scaled() <= purchase.rate.scaled(),
            decreases hi - lo,
        {
            let mid = lo + (hi - lo) / 2;
            if self.items[mid].rate > purchase.rate {
                lo = mid + 1;
            } else {
                hi = mid;
            }
        }
        let ghost before = self@;
        let ghost stored = self.items@;
        let ghost k = n - lo;
        proof {
            assert forall|i: int| 0 <= i < k implies before[i].rate.scaled()
                <= purchase.rate.scaled() by {
                assert(before[i] == stored[n - 1 - i]);
            }
            if k < n {
                assert(before[k] == stored[lo - 1]);
            }
            lemma_leading_is(before, no_dearer_than(purchase), k);
            self.lemma_ascending();
            lemma_with_purchase(before, purchase);
        }
        let mut items: Vec<Purchase> = Vec::new();
        std::mem::swap(&mut self.items, &mut items);
        items.insert(lo, purchase);
        std::mem::swap(&mut self.items, &mut items);
        proof {
            let after = self.items@.reverse();
            assert(after =~= before.insert(k, purchase));
            assert forall|i: int, j: int| 0 <= i <= j < self.items.len() implies self.items[i].rate.scaled()
                >= self.items[j].rate.scaled() by {
                assert(self.items[i] == after[n - i] && self.items[j] == after[n - j]);
            }
        }
    }

    /// The purchase with the lowest buy rate, which stays in the ledger.
    pub fn peek_best(&self) -> (best: Option<&Purchase>)
        ensures
            ascending(self@),
            match best {
                Some(purchase) => self@.len() > 0 && *purchase == self@[0],
                None => self@.len() == 0,
            },
    {
        proof {
            use_type_invariant(self);
            self.lemma_ascending();
        }
        let n = self.items.len();
        if n == 0 {
            None
        } else {
            Some(&self.items[n - 1])
        }
    }

    /// The purchase that is `i` places behind the best one, if the ledger
    /// holds that many.
    pub fn peek_nth(&self, i: usize) -> (found: Option<&Purchase>)
        ensures
            ascending(self@),
            match found {
                Some(purchase) => i < self@.len() && *purchase == self@[i as int],
                None => i >= self@.len(),
            },
    {
        proof {
            use_type_invariant(self);
            self.lemma_ascending();
        }
        let n = self.items.len();
        if i >= n {
            None
        } else {
            Some(&self.items[n - 1 - i])
        }
    }

    /// Takes out the purchase that `peek_best` shows.
    pub fn pop_best(&mut self) -> (best: Option<Purchase>)
        ensures
            ascending(old(self)@),
            ascending(final(self)@),
            match best {
                Some(purchase) => old(self)@.len() > 0 && purchase == old(self)@[0] && final(self)@
                    == old(self)@.skip(1),
                None => old(self)@.len() == 0 && final(self)@ == old(self)@,
            },
    {
        proof {
            use_type_invariant(&*self);
            self.lemma_ascending();
        }
        let ghost before = self@;
        let mut items: Vec<Purchase> = Vec::new();
        std::mem::swap(&mut self.items, &mut items);
        let best = items.pop();
        proof {
            assert forall|i: int, j: int| 0 <= i <= j < items.len() implies items[i].rate.scaled()
                >= items[j].rate.scaled() by {
                assert(items[i] == before[before.len() - 1 - i]);
                assert(items[j] == before[before.len() - 1 - j]);
            }
        }
        std::mem::swap(&mut self.items, &mut items);
        proof {
            assert(self.items@.reverse() =~= if best is Some {
                before.skip(1)
            } else {
                before
            });
            self.lemma_ascending();
        }
        best
    }

    /// The queue of a ledger is ascending.
    proof fn lemma_ascending(&self)
        requires
            self.descending(),
        ensures
            ascending(self@),
    {
        let stored = self.items@;
        let n = stored.len();
        assert forall|i: int, j: int| 0 <= i <= j < self@.len() implies self@[i].rate.scaled()
            <= self@[j].rate.scaled() by {
            assert(self@[i] == stored[n - 1 - i] && self@[j] == stored[n - 1 - j]);
        }
    }
}

impl Clone for PurchaseAccount {
    fn clone(&self) -> (account: Self)
        ensures
            account@ == self@,
    {
        proof {
            use_type_invariant(self);
        }
        let items = self.items.clone();
        assert(items@ =~= self.items@);
        Self { items }
    }
}

impl Default for PurchaseAccount {
    fn default() -> (account: Self)
        ensures
            account@ == Seq::<Purchase>::empty(),
    {
        PurchaseAccount::new()
    }
}

} // verus!
