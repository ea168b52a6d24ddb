//! The seller decides when to sell bitcoin that was bought earlier. It owns
//! the ledger of purchases, takes in new purchases and readings of the
//! current exchange rate, and answers a reading with an offer to sell the
//! purchases that yield the margin asked for.

use vstd::prelude::*;
use std::time::Instant;
use crate::decimal::{BtcExchangeRate, Percentage};
use crate::error::Error;
use crate::ledger::{
    ascending, leading, lemma_leading_is, lemma_leading_splits, lemma_with_purchase, no_dearer_than,
    rank, with_purchase, PurchaseAccount,
};
use crate::models::{is_random_id, Fee, Offer, Purchase};

verus! {

/// Makes `std::time::Instant` known to the verifier, as a value that is
/// carried along and never looked into.
#[verifier::external_type_specification]
#[verifier::external_body]
pub struct ExInstant(std::time::Instant);

/// The age, in nanoseconds, beyond which a trend reading is discarded: five
/// minutes.
pub const STALE_AFTER_NANOS: u128 = 300_000_000_000;

#[derive(Debug)]
pub enum Message {
    /// An update on the current exchange rate.
    TrendReading {
        current_trend: BtcExchangeRate,
        /// When the rate was observed. Readings older than five minutes are
        /// discarded.
        observed_at: Instant,
    },
    /// A purchase was made that the seller is now going to try to sell for a
    /// better price.
    NewPurchase(Purchase),
}

/// What the seller keeps between messages.
#[derive(Debug)]
pub struct State {
    /// The purchases made so far and not yet sold.
    pub account: PurchaseAccount,
    /// What the marketplace charges for a sale. The fee paid to buy is part
    /// of each purchase's rate already.
    pub fee: Fee,
    /// The least we expect to earn on each purchase, in percent of its price.
    pub min_margin: Percentage,
}

/// Tells of a purchase whether it is worth selling at `rate`.
pub open spec fn worth_selling(
    rate: BtcExchangeRate,
    fee: Fee,
    min_margin: Percentage,
) -> spec_fn(Purchase) -> bool {
    |purchase: Purchase| purchase.profitable(rate, fee, min_margin)
}

/// How many purchases at the head of the queue are worth selling at `rate`,
/// one after the other. The scan does not look past the first that is not.
pub open spec fn sellable(
    queue: Seq<Purchase>,
    rate: BtcExchangeRate,
    fee: Fee,
    min_margin: Percentage,
) -> nat {
    leading(queue, worth_selling(rate, fee, min_margin))
}

/// Whether the arithmetic stays in range for every purchase that the scan
/// looks at: those worth selling and the first that is not.
pub open spec fn collectable(
    queue: Seq<Purchase>,
    rate: BtcExchangeRate,
    fee: Fee,
    min_margin: Percentage,
) -> bool {
    forall|i: int|
        0 <= i <= sellable(queue, rate, fee, min_margin) && i < queue.len() ==> (
        #[trigger] queue[i]).spec_is_profitable(rate, fee, min_margin) is Some
}

/// What a round of profit collecting at `rate` makes of the queue `before`:
/// the purchases worth selling leave it, in their order, as one offer at that
/// rate, and there is no offer where there is none to sell.
pub open spec fn collected(
    before: Seq<Purchase>,
    rate: BtcExchangeRate,
    fee: Fee,
    min_margin: Percentage,
    offer: Option<Offer>,
    after: Seq<Purchase>,
) -> bool {
    let sold = sellable(before, rate, fee, min_margin) as int;
    &&& after == before.skip(sold)
    &&& match offer {
        Some(offer) => {
            &&& sold > 0
            &&& offer.rate == rate
            &&& offer.purchases@ == before.take(sold)
            &&& is_random_id(offer.id)
        },
        None => sold == 0,
    }
}

/// Looks at the purchases we have made and sells the ones which make profit,
/// starting with the one bought at the lowest rate and stopping at the first
/// that does not yield the margin.
pub fn collect_profit(
    account: &mut PurchaseAccount,
    rate: BtcExchangeRate,
    fee: Fee,
    min_margin: Percentage,
) -> (offer: Option<Offer>)
    requires
        collectable(old(account)@, rate, fee, min_margin),
    ensures
        ascending(old(account)@),
        collected(old(account)@, rate, fee, min_margin, offer, final(account)@),
{
    let ghost before = account@;
    let ghost worth = worth_selling(rate, fee, min_margin);
    let mut purchases_to_sell: Vec<Purchase> = Vec::new();
    loop
        invariant
            purchases_to_sell@ + account@ == before,
            purchases_to_sell@.len() <= sellable(before, rate, fee, min_margin),
            collectable(before, rate, fee, min_margin),
            worth == worth_selling(rate, fee, min_margin),
            purchases_to_sell@.len() > 0 ==> ascending(before),
        ensures
            purchases_to_sell@ + account@ == before,
            purchases_to_sell@.len() == sellable(before, rate, fee, min_margin),
            ascending(before),
        decreases account@.len(),
    {
        let ghost sold = purchases_to_sell@.len() as int;
        proof {
            lemma_leading_splits(before, worth);
            if account@.len() > 0 {
                assert(before[sold] == account@[0]);
            }
        }
        let sell = match account.peek_best() {
            Some(top_purchase) => top_purchase.is_profitable(rate, fee, min_margin),
            None => false,
        };
        proof {
            if sold == 0 {
                assert(account@ =~= before);
            }
        }
        if !sell {
            proof {
                assert(sold == sellable(before, rate, fee, min_margin)) by {
                    if sold < sellable(before, rate, fee, min_margin) {
                        assert(worth(before[sold]));
                    }
                }
            }
            break;
        }
        proof {
            assert(worth(before[sold]));
            assert(sold < sellable(before, rate, fee, min_margin)) by {
                if sold == sellable(before, rate, fee, min_margin) {
                    assert(!worth(before[sold]));
                }
            }
        }
        match account.pop_best() {
            Some(purchase) => {
                purchases_to_sell.push(purchase);
            },
            None => {},
        }
        proof {
            assert(purchases_to_sell@ + account@ =~= before);
        }
    }
    proof {
        let sold = purchases_to_sell@.len() as int;
        assert(account@ =~= before.skip(sold));
        assert(purchases_to_sell@ =~= before.take(sold));
    }
    if purchases_to_sell.len() > 0 {
        Some(Offer::new(rate, purchases_to_sell))
    } else {
        None
    }
}

/// Whether a round of profit collecting at `rate` can be computed on this
/// ledger: whether the arithmetic stays in range for each purchase that the
/// round looks at.
pub fn is_collectable(
    account: &PurchaseAccount,
    rate: BtcExchangeRate,
    fee: Fee,
    min_margin: Percentage,
) -> (b: bool)
    ensures
        b == collectable(account@, rate, fee, min_margin),
{
    let ghost queue = account@;
    let ghost worth = worth_selling(rate, fee, min_margin);
    let n = account.len();
    let mut i: usize = 0;
    loop
        invariant
            queue == account@,
            n == queue.len(),
            i <= n,
            forall|j: int| 0 <= j < i ==> worth(#[trigger] queue[j]),
            worth == worth_selling(rate, fee, min_margin),
        decreases queue.len() - i,
    {
        match account.peek_nth(i) {
            None => {
                proof {
                    lemma_leading_is(queue, worth, i as int);
                    assert forall|j: int|
                        0 <= j <= sellable(queue, rate, fee, min_margin) && j
                            < queue.len() implies (#[trigger] queue[j]).spec_is_profitable(
                        rate,
                        fee,
                        min_margin,
                    ) is Some by {
                        assert(worth(queue[j]));
                    }
                }
                return true;
            },
            Some(purchase) => {
                if !purchase.evaluable(rate, fee, min_margin) {
                    proof {
                        lemma_leading_is(queue, worth, i as int);
                    }
                    return false;
                }
                if !purchase.is_profitable(rate, fee, min_margin) {
                    proof {
                        lemma_leading_is(queue, worth, i as int);
                        assert forall|j: int|
                            0 <= j <= sellable(queue, rate, fee, min_margin) && j
                                < queue.len() implies (#[trigger] queue[j]).spec_is_profitable(
                            rate,
                            fee,
                            min_margin,
                        ) is Some by {
                            if j < i {
                                assert(worth(queue[j]));
                            }
                        }
                    }
                    return true;
                }
                i = i + 1;
            },
        }
    }
}

/// What a round of profit collecting leaves in the ledger yields nothing in a
/// second round at the same rate, fee and margin. The second round can be
/// computed wherever the first could, sells no purchase and leaves the ledger
/// as it found it.
pub proof fn lemma_second_round_is_empty(
    queue: Seq<Purchase>,
    rate: BtcExchangeRate,
    fee: Fee,
    min_margin: Percentage,
)
    ensures
        sellable(queue, rate, fee, min_margin) <= queue.len(),
        sellable(queue.skip(sellable(queue, rate, fee, min_margin) as int), rate, fee, min_margin)
            == 0,
        collectable(queue, rate, fee, min_margin) ==> collectable(
            queue.skip(sellable(queue, rate, fee, min_margin) as int),
            rate,
            fee,
            min_margin,
        ),
        forall|first: Option<Offer>, left: Seq<Purchase>, second: Option<Offer>, last: Seq<Purchase>|
            collected(queue, rate, fee, min_margin, first, left) && collected(
                left,
                rate,
                fee,
                min_margin,
                second,
                last,
            ) ==> second is None && last == left,
{
    let worth = worth_selling(rate, fee, min_margin);
    lemma_leading_splits(queue, worth);
    let sold = sellable(queue, rate, fee, min_margin) as int;
    let left = queue.skip(sold);
    if left.len() > 0 {
        assert(left[0] == queue[sold]);
    }
    lemma_leading_is(left, worth, 0);
    assert(left.skip(0) =~= left);
}

impl State {
    /// The state of a seller that has not heard of any purchase yet.
    pub fn new(fee: Fee, min_margin: Percentage) -> (state: Self)
        ensures
            state.account@ == Seq::<Purchase>::empty(),
            state.fee == fee,
            state.min_margin == min_margin,
    {
        State { account: PurchaseAccount::new(), fee, min_margin }
    }
}

/// Whether a reading of that age is too old to act on.
pub open spec fn is_stale(age_nanos: u128) -> bool {
    age_nanos > STALE_AFTER_NANOS
}

/// Calls `std::time::Instant::elapsed` and reads the duration in nanoseconds.
/// Nothing is claimed of the result: it depends on the clock, and each call
/// may give another one.
#[verifier::external_body]
fn nanos_since(instant: &Instant) -> (age_nanos: u128) {
    instant.elapsed().as_nanos()
}

/// Answers a reading of the exchange rate that was observed `age_nanos`
/// nanoseconds ago. A reading older than five minutes is turned down and the
/// ledger stays as it is, whatever the rate. Any other reading starts a round
/// of profit collecting at that rate.
pub fn handle_reading(current_trend: BtcExchangeRate, age_nanos: u128, state: &mut State) -> (r:
    Result<Option<Offer>, Error>)
    requires
        !is_stale(age_nanos) ==> collectable(
            old(state).account@,
            current_trend,
            old(state).fee,
            old(state).min_margin,
        ),
    ensures
        final(state).fee == old(state).fee,
        final(state).min_margin == old(state).min_margin,
        match r {
            Err(e) => {
                &&& is_stale(age_nanos)
                &&& e.is_outdated_message()
                &&& *final(state) == *old(state)
            },
            Ok(offer) => {
                &&& !is_stale(age_nanos)
                &&& ascending(old(state).account@)
                &&& collected(
                    old(state).account@,
                    current_trend,
                    old(state).fee,
                    old(state).min_margin,
                    offer,
                    final(state).account@,
                )
            },
        },
{
    if age_nanos > STALE_AFTER_NANOS {
        Err(Error::outdated_message())
    } else {
        Ok(collect_profit(&mut state.account, current_trend, state.fee, state.min_margin))
    }
}

/// Whether `route` can deal with the message in this state: a reading needs
/// the round of profit collecting that it may start to stay in range.
pub open spec fn routable(message: Message, state: State) -> bool {
    message matches Message::TrendReading { current_trend, .. } ==> collectable(
        state.account@,
        current_trend,
        state.fee,
        state.min_margin,
    )
}

/// What `route` may make of a message: a purchase enters the ledger and
/// nothing is offered; a reading is either turned down as outdated, with the
/// ledger untouched, or answered by a round of profit collecting at its rate.
pub open spec fn routed(
    message: Message,
    before: State,
    r: Result<Option<Offer>, Error>,
    after: State,
) -> bool {
    &&& after.fee == before.fee
    &&& after.min_margin == before.min_margin
    &&& match message {
        Message::NewPurchase(purchase) => {
            &&& r matches Ok(None)
            &&& after.account@ == with_purchase(before.account@, purchase)
        },
        Message::TrendReading { current_trend, .. } => match r {
            Err(e) => e.is_outdated_message() && after == before,
            Ok(offer) => ascending(before.account@) && collected(
                before.account@,
                current_trend,
                before.fee,
                before.min_margin,
                offer,
                after.account@,
            ),
        },
    }
}

/// Considers the message and, if appropriate, commands bitcoin to be sold.
/// How old a reading is, the clock says at the time of the call.
pub fn route(message: Message, state: &mut State) -> (r: Result<Option<Offer>, Error>)
    requires
        routable(message, *old(state)),
    ensures
        routed(message, *old(state), r, *final(state)),
{
    match message {
        Message::TrendReading { current_trend, observed_at } => {
            let age_nanos = nanos_since(&observed_at);
            handle_reading(current_trend, age_nanos, state)
        },
        Message::NewPurchase(purchase) => {
            state.account.insert(purchase);
            Ok(None)
        },
    }
}

/// What the channels of the seller report to it.
#[derive(Debug)]
pub enum Event {
    /// The next message of the inbound stream.
    Received(Message),
    /// The inbound stream is closed: no message will ever arrive.
    InputClosed,
    /// The offer handed out last was taken by the outbound stream.
    Sent,
    /// The offer handed out last could not be sent: its consumer is gone.
    OutputClosed,
}

/// Why the seller stops.
#[derive(Clone, Copy, Debug, PartialEq, Eq, Structural)]
pub enum Halt {
    InputClosed,
    OutputClosed,
    /// A reading that is not outdated would start a round of profit
    /// collecting whose arithmetic leaves the range of the decimals.
    OutOfRange,
}

/// What the seller does next.
#[derive(Debug)]
pub enum Action {
    /// Wait for the next inbound message.
    Receive,
    /// Send the offer on the outbound stream, and report how that went.
    Send(Offer),
    /// Log that a message was not processed, then wait for the next one.
    Warn(Error),
    /// End the loop for good.
    Stop(Halt),
}

/// Whether `route` can deal with the message in this state.
pub fn is_routable(message: &Message, state: &State) -> (b: bool)
    ensures
        b == routable(*message, *state),
{
    match message {
        Message::TrendReading { current_trend, .. } => is_collectable(
            &state.account,
            *current_trend,
            state.fee,
            state.min_margin,
        ),
        Message::NewPurchase(_) => true,
    }
}

/// What the seller makes of a reading that was observed `age_nanos`
/// nanoseconds ago. The age is looked at first: an outdated reading is
/// turned down with a warning, whatever its rate, and nothing changes. A
/// reading that is acted on starts a round of profit collecting on the
/// ledger, which is in ascending order, and the offer, if there is one, is
/// sent. Only where the arithmetic of that round leaves
/// the range of the decimals does the seller stop, with nothing changed.
pub open spec fn answered(
    before: State,
    current_trend: BtcExchangeRate,
    age_nanos: u128,
    action: Action,
    after: State,
) -> bool {
    if is_stale(age_nanos) {
        &&& action matches Action::Warn(e)
        &&& e.is_outdated_message()
        &&& after == before
    } else if !collectable(before.account@, current_trend, before.fee, before.min_margin) {
        &&& action == Action::Stop(Halt::OutOfRange)
        &&& after == before
    } else {
        &&& after.fee == before.fee
        &&& after.min_margin == before.min_margin
        &&& ascending(before.account@)
        &&& match action {
            Action::Receive => collected(
                before.account@,
                current_trend,
                before.fee,
                before.min_margin,
                None,
                after.account@,
            ),
            Action::Send(offer) => collected(
                before.account@,
                current_trend,
                before.fee,
                before.min_margin,
                Some(offer),
                after.account@,
            ),
            _ => false,
        }
    }
}

/// Answers a reading of the exchange rate that was observed `age_nanos`
/// nanoseconds ago with what the seller does next.
pub fn answer_reading(current_trend: BtcExchangeRate, age_nanos: u128, state: &mut State) -> (action:
    Action)
    ensures
        answered(*old(state), current_trend, age_nanos, action, *final(state)),
{
    if age_nanos <= STALE_AFTER_NANOS && !is_collectable(
        &state.account,
        current_trend,
        state.fee,
        state.min_margin,
    ) {
        return Action::Stop(Halt::OutOfRange);
    }
    match handle_reading(current_trend, age_nanos, state) {
        Ok(Some(offer)) => Action::Send(offer),
        Ok(None) => Action::Receive,
        Err(e) => Action::Warn(e),
    }
}

/// What the seller makes of an event in `before`: whether `action` and the
/// state `after` are a way to go on. A closed channel ends the loop. A
/// purchase enters the ledger. A reading is answered as one of some age: how
/// old it is, the clock says when the seller looks at it.
pub open spec fn stepped(before: State, event: Event, action: Action, after: State) -> bool {
    match event {
        Event::InputClosed => action == Action::Stop(Halt::InputClosed) && after == before,
        Event::OutputClosed => action == Action::Stop(Halt::OutputClosed) && after == before,
        Event::Sent => action == Action::Receive && after == before,
        Event::Received(Message::NewPurchase(purchase)) => {
            &&& action == Action::Receive
            &&& after.fee == before.fee
            &&& after.min_margin == before.min_margin
            &&& after.account@ == with_purchase(before.account@, purchase)
        },
        Event::Received(Message::TrendReading { current_trend, .. }) => exists|age_nanos: u128|
            #[trigger] answered(before, current_trend, age_nanos, action, after),
    }
}

/// One turn of the seller's loop: from the state and what the channels
/// reported to the new state and what to do next. The loop ends when the
/// inbound stream is closed or an offer cannot be sent. A message that is
/// turned down does not end it. Messages are dealt with in the order in
/// which they are handed in, each to its end before the next.
pub fn step(state: &mut State, event: Event) -> (action: Action)
    ensures
        stepped(*old(state), event, action, *final(state)),
{
    match event {
        Event::InputClosed => Action::Stop(Halt::InputClosed),
        Event::OutputClosed => Action::Stop(Halt::OutputClosed),
        Event::Sent => Action::Receive,
        Event::Received(Message::TrendReading { current_trend, observed_at }) => {
            let age_nanos = nanos_since(&observed_at);
            let action = answer_reading(current_trend, age_nanos, state);
            assert(answered(*old(state), current_trend, age_nanos, action, *state));
            action
        },
        Event::Received(Message::NewPurchase(purchase)) => {
            match route(Message::NewPurchase(purchase), state) {
                Ok(Some(offer)) => Action::Send(offer),
                Ok(None) => Action::Receive,
                Err(e) => Action::Warn(e),
            }
        },
    }
}

/// A reading that is acted on while the best purchase is worth selling is
/// answered by an offer at the reading's rate that starts with that purchase,
/// and the ledger loses what the offer holds. The one exception is a round
/// whose arithmetic leaves the range at a purchase further back: then the
/// seller stops and nothing is sold.
pub proof fn lemma_best_is_sold_first(
    before: State,
    current_trend: BtcExchangeRate,
    age_nanos: u128,
    action: Action,
    after: State,
)
    requires
        answered(before, current_trend, age_nanos, action, after),
        !is_stale(age_nanos),
        before.account@.len() > 0,
        before.account@[0].profitable(current_trend, before.fee, before.min_margin),
    ensures
        if collectable(before.account@, current_trend, before.fee, before.min_margin) {
            &&& action matches Action::Send(offer)
            &&& offer.rate == current_trend
            &&& 0 < offer.purchases@.len() <= before.account@.len()
            &&& offer.purchases@[0] == before.account@[0]
            &&& offer.purchases@ == before.account@.take(offer.purchases@.len() as int)
            &&& after.account@ == before.account@.skip(offer.purchases@.len() as int)
        } else {
            action == Action::Stop(Halt::OutOfRange) && after == before
        },
{
    lemma_leading_splits(
        before.account@,
        worth_selling(current_trend, before.fee, before.min_margin),
    );
}

/// A purchase that arrives before a reading is part of what the reading is
/// evaluated against: it is in the ledger when the seller turns to the
/// reading. Whatever the seller then does, the purchase is accounted for.
/// Where an offer is sent, the round ran on the ledger with the purchase in
/// it, and the purchase is in the offer exactly if the scan reached its
/// place. In every other case it is still in the ledger.
pub proof fn lemma_purchase_precedes_reading(
    start: State,
    purchase: Purchase,
    first: Action,
    mid: State,
    reading: Message,
    second: Action,
    end: State,
)
    requires
        ascending(start.account@),
        stepped(start, Event::Received(Message::NewPurchase(purchase)), first, mid),
        reading is TrendReading,
        stepped(mid, Event::Received(reading), second, end),
    ensures
        first == Action::Receive,
        mid.account@ == with_purchase(start.account@, purchase),
        ascending(mid.account@),
        rank(start.account@, purchase) < mid.account@.len(),
        mid.account@[rank(start.account@, purchase) as int] == purchase,
        match second {
            Action::Send(offer) => {
                let place = rank(start.account@, purchase) as int;
                let sold = offer.purchases@.len() as int;
                &&& collected(
                    with_purchase(start.account@, purchase),
                    reading->current_trend,
                    start.fee,
                    start.min_margin,
                    Some(offer),
                    end.account@,
                )
                &&& if place < sold {
                    offer.purchases@[place] == purchase
                } else {
                    end.account@[place - sold] == purchase
                }
            },
            _ => end.account@ == mid.account@,
        },
{
    let before = start.account@;
    lemma_leading_splits(before, no_dearer_than(purchase));
    lemma_with_purchase(before, purchase);
    let trend = reading->current_trend;
    lemma_leading_splits(mid.account@, worth_selling(trend, mid.fee, mid.min_margin));
    let age_nanos = choose|age_nanos: u128| #[trigger] answered(mid, trend, age_nanos, second, end);
    assert(answered(mid, trend, age_nanos, second, end));
    if second is Receive && !is_stale(age_nanos) {
        assert(mid.account@.skip(0) =~= mid.account@);
    }
}

} // verus!
