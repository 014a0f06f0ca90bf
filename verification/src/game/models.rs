//! Data models of the example game, and the transactions on a player's
//! "resource A" count.
use vstd::prelude::*;

use crate::components::resource::{
    InvalidAddition, InvalidSet, InvalidSubtraction, Resource, ResourceView,
};
use crate::snowflake::Snowflake;

verus! {

/// A player's count of "resource A": a [`Resource`] that may not go below zero.
#[derive(Clone, Debug)]
pub struct ResourceA(pub Resource);

impl From<i64> for ResourceA {
    /// A resource A count of `val`, with a lower cap of zero and no upper cap.
    fn from(val: i64) -> (r: ResourceA)
        ensures
            r.0@ == (ResourceView { val: val as int, min: Some(0), max: None }),
    {
        ResourceA(Resource::new(val, Some(0), None))
    }
}

impl vstd::std_specs::convert::FromSpecImpl<i64> for ResourceA {
    open spec fn obeys_from_spec() -> bool {
        true
    }

    open spec fn from_spec(v: i64) -> ResourceA {
        ResourceA(Resource::spec_new(v, Some(0), None))
    }
}

impl Default for ResourceA {
    /// A resource A count of zero, with a lower cap of zero and no upper cap.
    fn default() -> (r: ResourceA)
        ensures
            r.0@ == (ResourceView { val: 0, min: Some(0), max: None }),
    {
        ResourceA(Resource::new(0, Some(0), None))
    }
}

/// The kinds of card in the example game.
#[derive(Debug, Clone, Copy, PartialEq, Eq, Structural)]
pub enum CardType {
    TypeA,
    TypeB,
    TypeC,
    TypeD,
}

/// The name of a card.
#[derive(Debug, Clone)]
pub struct CardName(pub String);

impl CardName {
    /// A card name.
    pub fn new(name: String) -> (r: CardName)
        ensures
            r.0@ == name@,
    {
        CardName(name)
    }
}

/// A transaction on a player's resource A.
#[derive(Debug, Clone, Copy)]
pub enum Transaction {
    /// Add this amount.
    Add(i64),
    /// Subtract this amount.
    Sub(i64),
    /// Set the count to this amount.
    SetValue(i64),
    /// Move this amount from the given player to this one.
    TransferFrom(Snowflake, i64),
}

/// Why a resource A transaction was refused.
#[derive(Debug)]
pub enum ResourceAError {
    Subtraction(InvalidSubtraction),
    Addition(InvalidAddition),
    Assignment(InvalidSet),
}

/// The outcome of a transaction on the player's count `cur` (and, for a
/// transfer, on the other player's count `src`): the new counts of both
/// players, or `None` if the transaction is refused.
pub open spec fn transaction_outcome(cur: ResourceView, src: ResourceView, tx: Transaction) -> Option<
    (ResourceView, Option<ResourceView>),
> {
    match tx {
        Transaction::Add(v) => match cur.checked_add(v as int) {
            Some(c) => Some((c, None)),
            None => None,
        },
        Transaction::Sub(v) => match cur.checked_sub(v as int) {
            Some(c) => Some((c, None)),
            None => None,
        },
        Transaction::SetValue(v) => match cur.checked_set(v as int) {
            Some(c) => Some((c, None)),
            None => None,
        },
        Transaction::TransferFrom(_, v) => match src.checked_sub(v as int) {
            Some(s) => match cur.checked_add(v as int) {
                Some(c) => Some((c, Some(s))),
                None => None,
            },
            None => None,
        },
    }
}

/// The arithmetic of the transaction stays within `i64`.
pub open spec fn transaction_fits(cur: ResourceView, src: ResourceView, tx: Transaction) -> bool {
    match tx {
        Transaction::Add(v) => i64::MIN <= cur.val + v <= i64::MAX,
        Transaction::Sub(v) => i64::MIN <= cur.val - v <= i64::MAX,
        Transaction::SetValue(_) => true,
        Transaction::TransferFrom(_, v) => {
            &&& i64::MIN <= src.val - v <= i64::MAX
            &&& i64::MIN <= cur.val + v <= i64::MAX
        },
    }
}

/// Applies a resource A transaction.
///
/// `current` is the player's count, `source` the count of the player named
/// by a transfer (not used otherwise). Additions, subtractions and sets are
/// checked against the caps of `current`; a transfer is a checked
/// subtraction from `source` followed by a checked addition to `current`.
/// On success, the new count of the player and, for a transfer, of the
/// other player are returned; a refused transaction returns the error of
/// the refused step and no new counts.
pub fn resource_a_transaction(current: ResourceA, source: ResourceA, tx: Transaction) -> (r: Result<
    (ResourceA, Option<ResourceA>),
    ResourceAError,
>)
    requires
        transaction_fits(current.0@, source.0@, tx),
    ensures
        match r {
            Ok((c, s)) => transaction_outcome(current.0@, source.0@, tx) == Some(
                (
                    c.0@,
                    match s {
                        Some(x) => Some(x.0@),
                        None => None,
                    },
                ),
            ),
            Err(e) => {
                &&& transaction_outcome(current.0@, source.0@, tx) is None
                &&& match tx {
                    Transaction::Add(_) => e is Addition,
                    Transaction::Sub(_) => e is Subtraction,
                    Transaction::SetValue(_) => e is Assignment,
                    Transaction::TransferFrom(_, v) => if source.0@.checked_sub(v as int) is None {
                        e is Subtraction
                    } else {
                        e is Addition
                    },
                }
            },
        },
{
    let mut rsc_a = current;
    match tx {
        Transaction::Add(val) => {
            match rsc_a.0.checked_add(Resource::new(val, None, None)) {
                Ok(()) => Ok((rsc_a, None)),
                Err(e) => Err(ResourceAError::Addition(e)),
            }
        },
        Transaction::Sub(val) => {
            match rsc_a.0.checked_sub(Resource::new(val, None, None)) {
                Ok(()) => Ok((rsc_a, None)),
                Err(e) => Err(ResourceAError::Subtraction(e)),
            }
        },
        Transaction::SetValue(val) => {
            match rsc_a.0.checked_set(Resource::new(val, None, None)) {
                Ok(()) => Ok((rsc_a, None)),
                Err(e) => Err(ResourceAError::Assignment(e)),
            }
        },
        Transaction::TransferFrom(_, val) => {
            let mut other = source;
            match other.0.checked_sub(Resource::new(val, None, None)) {
                Ok(()) => {},
                Err(e) => {
                    return Err(ResourceAError::Subtraction(e));
                },
            }
            match rsc_a.0.checked_add(Resource::new(val, None, None)) {
                Ok(()) => Ok((rsc_a, Some(other))),
                Err(e) => Err(ResourceAError::Addition(e)),
            }
        },
    }
}

/// An accepted transfer moves resource A from one player to the other
/// without creating or destroying any.
pub proof fn law_transfer_conserves_total(cur: ResourceView, src: ResourceView, from: Snowflake, v: i64)
    requires
        transaction_outcome(cur, src, Transaction::TransferFrom(from, v)) is Some,
    ensures
        ({
            let (c, s) = transaction_outcome(cur, src, Transaction::TransferFrom(from, v)).unwrap();
            c.val + s.unwrap().val == cur.val + src.val
        }),
{
}

/// With the caps of resource A (a lower cap of zero, no upper cap) and
/// counts that respect them, an addition is accepted exactly when the count
/// stays non-negative (so always for a non-negative amount), a subtraction
/// exactly when the player holds enough, a set exactly to a non-negative
/// count, and a transfer exactly when the other player holds enough and the
/// receiving count stays non-negative. No accepted transaction leaves a
/// negative count.
pub proof fn law_resource_a_acceptance(cur: ResourceView, src: ResourceView, from: Snowflake, v: i64)
    requires
        cur.min == Some(0int),
        cur.max is None,
        src.min == Some(0int),
        src.max is None,
        cur.val >= 0,
        src.val >= 0,
    ensures
        transaction_outcome(cur, src, Transaction::Add(v)) is Some <==> cur.val + v >= 0,
        v >= 0 ==> transaction_outcome(cur, src, Transaction::Add(v)) is Some,
        transaction_outcome(cur, src, Transaction::Sub(v)) is Some <==> v <= cur.val,
        transaction_outcome(cur, src, Transaction::SetValue(v)) is Some <==> v >= 0,
        transaction_outcome(cur, src, Transaction::TransferFrom(from, v)) is Some <==> (v <= src.val && cur.val
            + v >= 0),
        forall|tx: Transaction|
            #[trigger] transaction_outcome(cur, src, tx) is Some ==> {
                let (c, s) = transaction_outcome(cur, src, tx).unwrap();
                &&& c.val >= 0
                &&& (s matches Some(x) ==> x.val >= 0)
            },
{
}

/// Each resource A transaction is accepted exactly when every count it
/// changes stays within its own caps (a cap itself included), and then
/// yields exactly the new counts with the caps unchanged: an addition
/// gives `cur + v`, a subtraction `cur - v`, a set `v`, and a transfer
/// `cur + v` for the player and `src - v` for the other player.
pub proof fn law_transaction_results(cur: ResourceView, src: ResourceView, from: Snowflake, v: i64)
    ensures
        ({
            let n = cur.val + v;
            (cur.min matches Some(m) ==> m <= n) && (cur.max matches Some(m) ==> n <= m)
        }) ==> transaction_outcome(cur, src, Transaction::Add(v)) == Some(
            (ResourceView { val: cur.val + v, min: cur.min, max: cur.max }, None::<ResourceView>),
        ),
        ({
            let n = cur.val + v;
            (cur.min matches Some(m) && n < m) || (cur.max matches Some(m) && n > m)
        }) ==> transaction_outcome(cur, src, Transaction::Add(v)) is None,
        ({
            let n = cur.val - v;
            (cur.min matches Some(m) ==> m <= n) && (cur.max matches Some(m) ==> n <= m)
        }) ==> transaction_outcome(cur, src, Transaction::Sub(v)) == Some(
            (ResourceView { val: cur.val - v, min: cur.min, max: cur.max }, None::<ResourceView>),
        ),
        ({
            let n = cur.val - v;
            (cur.min matches Some(m) && n < m) || (cur.max matches Some(m) && n > m)
        }) ==> transaction_outcome(cur, src, Transaction::Sub(v)) is None,
        ((cur.min matches Some(m) ==> m <= v) && (cur.max matches Some(m) ==> v <= m))
            ==> transaction_outcome(cur, src, Transaction::SetValue(v)) == Some(
            (ResourceView { val: v as int, min: cur.min, max: cur.max }, None::<ResourceView>),
        ),
        ((cur.min matches Some(m) && v < m) || (cur.max matches Some(m) && v > m)) ==> transaction_outcome(
            cur,
            src,
            Transaction::SetValue(v),
        ) is None,
        transaction_outcome(cur, src, Transaction::SetValue(v)) is Some ==> transaction_outcome(
            cur,
            src,
            Transaction::SetValue(v),
        ).unwrap().0.val == v,
        ({
            let n = cur.val + v;
            let k = src.val - v;
            &&& (cur.min matches Some(m) ==> m <= n) && (cur.max matches Some(m) ==> n <= m)
            &&& (src.min matches Some(m) ==> m <= k) && (src.max matches Some(m) ==> k <= m)
        }) ==> transaction_outcome(cur, src, Transaction::TransferFrom(from, v)) == Some(
            (
                ResourceView { val: cur.val + v, min: cur.min, max: cur.max },
                Some(ResourceView { val: src.val - v, min: src.min, max: src.max }),
            ),
        ),
        ({
            let n = cur.val + v;
            let k = src.val - v;
            ||| (cur.min matches Some(m) && n < m) || (cur.max matches Some(m) && n > m)
            ||| (src.min matches Some(m) && k < m) || (src.max matches Some(m) && k > m)
        }) ==> transaction_outcome(cur, src, Transaction::TransferFrom(from, v)) is None,
{
    crate::components::resource::law_checked_ops_accept_within_caps(cur, v as int);
    crate::components::resource::law_checked_ops_accept_within_caps(src, v as int);
    assert(cur.checked_add((cur.val + v) - cur.val) == cur.checked_add(v as int));
    assert(cur.checked_sub(cur.val - (cur.val - v)) == cur.checked_sub(v as int));
    assert(src.checked_sub(src.val - (src.val - v)) == src.checked_sub(v as int));
    assert(cur.checked_set(v as int) == cur.checked_set(v as int));
}

} // verus!
