//! Player resource accounts and the resource transactions that the
//! players API applies to them.
use vstd::prelude::*;

use std::collections::HashMap;
use vstd::std_specs::iter::IteratorSpec;

use crate::local_storage::id_values;
use crate::server::local_storage::page_of_some_listing;
use crate::snowflake::Snowflake;

verus! {

broadcast use vstd::std_specs::hash::group_hash_axioms;

/// The count of resource `rsc` in `m`, where a missing entry counts as zero.
pub open spec fn count_of(m: Map<u64, u64>, rsc: u64) -> int {
    if m.contains_key(rsc) {
        m[rsc] as int
    } else {
        0
    }
}

/// A player's resource counts, keyed by resource ID.
pub struct PlayerResources {
    resources: HashMap<u64, u64>,
}

impl View for PlayerResources {
    type V = Map<u64, u64>;

    closed spec fn view(&self) -> Map<u64, u64> {
        self.resources@
    }
}

impl PlayerResources {
    /// A player holding no resources.
    pub fn new() -> (r: PlayerResources)
        ensures
            r@ == Map::<u64, u64>::empty(),
    {
        PlayerResources { resources: HashMap::new() }
    }

    /// The count of a resource, if the player has an entry for it.
    pub fn get_resource(&self, rsc: u64) -> (r: Option<u64>)
        ensures
            r == (if self@.contains_key(rsc) {
                Some(self@[rsc])
            } else {
                None
            }),
    {
        match self.resources.get(&rsc) {
            Some(v) => Some(*v),
            None => None,
        }
    }

    /// Sets the count of a resource.
    pub fn set_resource(&mut self, rsc: u64, count: u64)
        ensures
            final(self)@ == old(self)@.insert(rsc, count),
    {
        self.resources.insert(rsc, count);
    }

    /// Every (resource, count) entry, each once, in no particular order.
    pub fn entries(&self) -> (r: Vec<(u64, u64)>)
        ensures
            r@.to_set() == self@.kv_pairs(),
            r@.len() == self@.dom().len(),
    {
        let mut out: Vec<(u64, u64)> = Vec::new();
        let ghost pairs = vstd::std_specs::hash::spec_hash_map_iter(&self.resources).remaining().unref();
        for entry in it: self.resources.iter()
            invariant
                pairs == it.seq().unref(),
                out@ == pairs.take(it.index()),
        {
            let (k, v) = entry;
            out.push((*k, *v));
            proof {
                assert(pairs.take(it.index() + 1) =~= pairs.take(it.index()).push((*k, *v)));
            }
        }
        proof {
            assert(out@ =~= pairs);
        }
        out
    }

    /// An independent copy of these resource counts.
    pub fn duplicate(&self) -> (r: PlayerResources)
        ensures
            r@ == self@,
    {
        PlayerResources { resources: self.resources.clone() }
    }
}

/// In-memory storage of players' resource accounts, keyed by player ID.
pub struct PlayerStore {
    players: HashMap<u64, PlayerResources>,
}

impl View for PlayerStore {
    type V = Map<u64, Map<u64, u64>>;

    closed spec fn view(&self) -> Map<u64, Map<u64, u64>> {
        Map::new(|k: u64| self.players@.contains_key(k), |k: u64| self.players@[k]@)
    }
}

impl PlayerStore {
    /// An empty store.
    pub fn new() -> (r: PlayerStore)
        ensures
            r@ == Map::<u64, Map<u64, u64>>::empty(),
    {
        let r = PlayerStore { players: HashMap::new() };
        assert(r@ =~= Map::<u64, Map<u64, u64>>::empty());
        r
    }

    /// Checks whether a player with this ID is stored.
    pub fn contains_player(&self, id: Snowflake) -> (r: bool)
        ensures
            r == self@.contains_key(id@),
    {
        let key: u64 = id.into();
        self.players.contains_key(&key)
    }

    /// A copy of the stored account of this player, if any.
    pub fn load(&self, id: Snowflake) -> (r: Option<PlayerResources>)
        ensures
            match r {
                Some(p) => self@.contains_key(id@) && p@ == self@[id@],
                None => !self@.contains_key(id@),
            },
    {
        let key: u64 = id.into();
        match self.players.get(&key) {
            Some(p) => Some(p.duplicate()),
            None => None,
        }
    }

    /// Stores a player's account, replacing any previous one.
    pub fn store(&mut self, id: Snowflake, player: PlayerResources)
        ensures
            final(self)@ == old(self)@.insert(id@, player@),
    {
        let key: u64 = id.into();
        self.players.insert(key, player);
        assert(self@ =~= old(self)@.insert(id@, player@));
    }

    /// Lists up to `limit` player IDs, skipping the first `page * limit`,
    /// in the order the store hands them out.
    pub fn keys(&self, page: u64, limit: u64) -> (r: Vec<Snowflake>)
        requires
            page * limit <= u64::MAX,
        ensures
            page_of_some_listing(id_values(r@), self@.dom(), page as int, limit as int),
    {
        assert(self@.dom() =~= self.players@.dom());
        crate::server::local_storage::page_of_keys(&self.players, page, limit)
    }

    /// An independent copy of the whole store.
    pub fn duplicate(&self) -> (r: PlayerStore)
        ensures
            r@ == self@,
    {
        let mut players: HashMap<u64, PlayerResources> = HashMap::new();
        let ghost pairs = vstd::std_specs::hash::spec_hash_map_iter(&self.players).remaining().unref();
        for entry in it: self.players.iter()
            invariant
                pairs == it.seq().unref(),
                pairs.no_duplicates(),
                players@.dom() == pairs.take(it.index()).map_values(|kv: (u64, PlayerResources)| kv.0).to_set(),
                forall|k: u64| #[trigger] players@.contains_key(k) ==> self.players@.contains_key(k)
                    && players@[k]@ == self.players@[k]@,
        {
            let (k, v) = entry;
            proof {
                assert(self.players@.contains_key(*k) && self.players@[*k] == *v);
            }
            players.insert(*k, v.duplicate());
            proof {
                let keys_before = pairs.take(it.index()).map_values(|kv: (u64, PlayerResources)| kv.0);
                let keys_after = pairs.take(it.index() + 1).map_values(|kv: (u64, PlayerResources)| kv.0);
                assert(keys_after =~= keys_before.push(*k));
                keys_before.lemma_push_to_set_commute(*k);
            }
        }
        let r = PlayerStore { players };
        proof {
            assert forall|k: u64| self.players@.contains_key(k) implies #[trigger] r.players@.contains_key(k) by {
                assert(self.players@.kv_pairs().contains((k, self.players@[k])));
                assert(pairs.to_set().contains((k, self.players@[k])));
                let j = choose|j: int| 0 <= j < pairs.len() && pairs[j] == (k, self.players@[k]);
                assert(pairs.take(pairs.len() as int) =~= pairs);
                assert(pairs.map_values(|kv: (u64, PlayerResources)| kv.0)[j] == k);
            }
            assert(r@ =~= self@);
        }
        r
    }

    /// Deletes a player's account, if stored.
    pub fn delete(&mut self, id: Snowflake)
        ensures
            final(self)@ == old(self)@.remove(id@),
    {
        let key: u64 = id.into();
        self.players.remove(&key);
        assert(self@ =~= old(self)@.remove(id@));
    }
}

/// The stored account of this player.
pub fn get_player(store: &PlayerStore, id: Snowflake) -> (r: Result<PlayerResources, TransactionError>)
    ensures
        match r {
            Ok(p) => store@.contains_key(id@) && p@ == store@[id@],
            Err(e) => !store@.contains_key(id@) && e == TransactionError::PlayerNotFound(id),
        },
{
    match store.load(id) {
        Some(p) => Ok(p),
        None => Err(TransactionError::PlayerNotFound(id)),
    }
}

/// Deletes the account of this player; fails if there is none.
pub fn delete_player(store: &mut PlayerStore, id: Snowflake) -> (r: Result<(), TransactionError>)
    ensures
        match r {
            Ok(()) => old(store)@.contains_key(id@) && final(store)@ == old(store)@.remove(id@),
            Err(e) => {
                &&& !old(store)@.contains_key(id@)
                &&& e == TransactionError::PlayerNotFound(id)
                &&& final(store)@ == old(store)@
            },
        },
{
    if !store.contains_player(id) {
        return Err(TransactionError::PlayerNotFound(id));
    }
    store.delete(id);
    Ok(())
}

/// Stores a new player, holding no resources, under this ID and returns
/// its account.
pub fn new_player(store: &mut PlayerStore, id: Snowflake) -> (r: PlayerResources)
    ensures
        r@ == Map::<u64, u64>::empty(),
        final(store)@ == old(store)@.insert(id@, Map::<u64, u64>::empty()),
{
    store.store(id, PlayerResources::new());
    PlayerResources::new()
}

/// The IDs of the players on page `page` (with `limit` players per page)
/// of the store's listing.
pub fn list_players(store: &PlayerStore, page: u64, limit: u64) -> (r: Vec<Snowflake>)
    requires
        page * limit <= u64::MAX,
    ensures
        page_of_some_listing(id_values(r@), store@.dom(), page as int, limit as int),
{
    store.keys(page, limit)
}

/// One operation of a resource transaction on a player.
#[derive(Clone, Copy, Debug)]
pub enum Transaction {
    /// Add (resource, count).
    Add(u64, u64),
    /// Subtract (resource, count); refused if the player has less.
    Sub(u64, u64),
    /// Set (resource, count) to exactly that count.
    SetCount(u64, u64),
    /// Move (resource, count) from another player (given by ID) to this
    /// one; refused if the other player has less.
    TransferFrom(Snowflake, u64, u64),
}

/// Why a resource transaction was refused.
#[derive(Clone, Copy, Debug, PartialEq, Eq, Structural)]
pub enum TransactionError {
    /// No player with this ID is stored.
    PlayerNotFound(Snowflake),
    /// Attempted to subtract `count` from the `current` amount of `resource`.
    NotEnough { count: u64, current: u64, resource: u64 },
}

impl TransactionError {
    /// The HTTP status code that reports this error: 404 for a missing
    /// player, 400 for a refused subtraction.
    pub fn status_code(&self) -> (r: u16)
        ensures
            r == (match self {
                TransactionError::PlayerNotFound(_) => 404u16,
                TransactionError::NotEnough { .. } => 400u16,
            }),
    {
        match self {
            TransactionError::PlayerNotFound(_) => 404,
            TransactionError::NotEnough { .. } => 400,
        }
    }
}

/// The state of a transaction run: still going (with the store as it is
/// now and the working copy of the player), refused, or overflowing a
/// resource count (which the server does not survive).
pub enum RunState {
    Running { store: Map<u64, Map<u64, u64>>, player: Map<u64, u64> },
    Refused { store: Map<u64, Map<u64, u64>>, err: TransactionError },
    Overflow,
}

/// The effect of one operation on a running transaction; a refused or
/// overflowed run stays as it is.
pub open spec fn step(st: RunState, tx: Transaction) -> RunState {
    match st {
        RunState::Running { store, player } => match tx {
            Transaction::Add(rsc, count) => {
                let cur = count_of(player, rsc);
                if cur + count > u64::MAX {
                    RunState::Overflow
                } else {
                    RunState::Running { store, player: player.insert(rsc, (cur + count) as u64) }
                }
            },
            Transaction::Sub(rsc, count) => {
                let cur = count_of(player, rsc);
                if count > cur {
                    RunState::Refused {
                        store,
                        err: TransactionError::NotEnough { count, current: cur as u64, resource: rsc },
                    }
                } else {
                    RunState::Running { store, player: player.insert(rsc, (cur - count) as u64) }
                }
            },
            Transaction::SetCount(rsc, count) => RunState::Running { store, player: player.insert(rsc, count) },
            Transaction::TransferFrom(other, rsc, count) => {
                if !store.contains_key(other@) {
                    RunState::Refused { store, err: TransactionError::PlayerNotFound(other) }
                } else {
                    let cur_a = count_of(player, rsc);
                    let cur_b = count_of(store[other@], rsc);
                    if count > cur_b {
                        RunState::Refused {
                            store,
                            err: TransactionError::NotEnough { count, current: cur_b as u64, resource: rsc },
                        }
                    } else if cur_a + count > u64::MAX {
                        RunState::Overflow
                    } else {
                        RunState::Running {
                            store: store.insert(other@, store[other@].insert(rsc, (cur_b - count) as u64)),
                            player: player.insert(rsc, (cur_a + count) as u64),
                        }
                    }
                }
            },
        },
        _ => st,
    }
}

/// The state after applying the operations `txs` in order.
pub open spec fn run(st: RunState, txs: Seq<Transaction>) -> RunState
    decreases txs.len(),
{
    if txs.len() == 0 {
        st
    } else {
        step(run(st, txs.drop_last()), txs.last())
    }
}

/// The run of `txs` on player `id` of `store`, which starts from the
/// stored account of that player.
pub open spec fn transaction_run(store: Map<u64, Map<u64, u64>>, id: u64, txs: Seq<Transaction>) -> RunState {
    run(RunState::Running { store, player: store[id] }, txs)
}

/// The operation transfers from player `id` to itself.
pub open spec fn is_self_transfer(tx: Transaction, id: u64) -> bool {
    match tx {
        Transaction::TransferFrom(other, _, _) => other@ == id,
        _ => false,
    }
}

/// Once a prefix of the operations stops the run, the whole run ends the
/// same way.
proof fn lemma_prefix_stops(st: RunState, txs: Seq<Transaction>, i: int)
    requires
        0 <= i <= txs.len(),
        !(run(st, txs.take(i)) is Running),
    ensures
        run(st, txs) == run(st, txs.take(i)),
    decreases txs.len() - i,
{
    if i < txs.len() {
        assert(txs.take(i + 1).drop_last() =~= txs.take(i));
        lemma_prefix_stops(st, txs, i + 1);
    } else {
        assert(txs.take(i) =~= txs);
    }
}

/// How [`apply_transactions`] ended.
pub enum TransactionOutcome {
    /// Every operation was accepted; the player's new account.
    Done(PlayerResources),
    /// An operation was refused.
    Refused(TransactionError),
    /// An operation would overflow a resource count; it was not applied.
    Overflowed,
}

/// Runs the operations on player `id`, stopping at the first refused or
/// overflowing one (see [`player_resource_transaction`]).
fn apply_transactions(store: &mut PlayerStore, id: Snowflake, transactions: &Vec<Transaction>) -> (r:
    TransactionOutcome)
    requires
        forall|i: int| 0 <= i < transactions@.len() ==> !is_self_transfer(#[trigger] transactions@[i], id@),
    ensures
        !old(store)@.contains_key(id@) ==> r == TransactionOutcome::Refused(TransactionError::PlayerNotFound(id))
            && final(store)@ == old(store)@,
        old(store)@.contains_key(id@) ==> match transaction_run(old(store)@, id@, transactions@) {
            RunState::Running { store: s, player: p } => {
                &&& r matches TransactionOutcome::Done(pl) && pl@ == p
                &&& final(store)@ == s.insert(id@, p)
            },
            RunState::Refused { store: s, err } => {
                &&& r == TransactionOutcome::Refused(err)
                &&& final(store)@ == s
            },
            RunState::Overflow => r is Overflowed,
        },
{
    let ghost init = RunState::Running { store: old(store)@, player: old(store)@[id@] };
    let mut pl = match store.load(id) {
        None => {
            return TransactionOutcome::Refused(TransactionError::PlayerNotFound(id));
        },
        Some(p) => p,
    };
    let n = transactions.len();
    let mut i: usize = 0;
    while i < n
        invariant
            n == transactions@.len(),
            0 <= i <= n,
            init == (RunState::Running { store: old(store)@, player: old(store)@[id@] }),
            old(store)@.contains_key(id@),
            forall|j: int| 0 <= j < transactions@.len() ==> !is_self_transfer(#[trigger] transactions@[j], id@),
            run(init, transactions@.take(i as int)) == (RunState::Running { store: store@, player: pl@ }),
        decreases n - i,
    {
        let ghost before = run(init, transactions@.take(i as int));
        proof {
            assert(transactions@.take(i + 1).drop_last() =~= transactions@.take(i as int));
            assert(transactions@.take(i + 1).last() == transactions@[i as int]);
        }
        let ghost after = run(init, transactions@.take(i + 1));
        assert(after == step(before, transactions@[i as int]));
        match transactions[i] {
            Transaction::Add(rsc, count) => {
                let cur = match pl.get_resource(rsc) {
                    Some(v) => v,
                    None => 0,
                };
                if cur > u64::MAX - count {
                    proof {
                        lemma_prefix_stops(init, transactions@, i + 1);
                    }
                    return TransactionOutcome::Overflowed;
                }
                pl.set_resource(rsc, cur + count);
            },
            Transaction::Sub(rsc, count) => {
                let cur = match pl.get_resource(rsc) {
                    Some(v) => v,
                    None => 0,
                };
                if count > cur {
                    proof {
                        lemma_prefix_stops(init, transactions@, i + 1);
                    }
                    return TransactionOutcome::Refused(
                        TransactionError::NotEnough { count, current: cur, resource: rsc },
                    );
                }
                pl.set_resource(rsc, cur - count);
            },
            Transaction::SetCount(rsc, count) => {
                pl.set_resource(rsc, count);
            },
            Transaction::TransferFrom(other_id, rsc, count) => {
                let mut other = match store.load(other_id) {
                    None => {
                        proof {
                            lemma_prefix_stops(init, transactions@, i + 1);
                        }
                        return TransactionOutcome::Refused(TransactionError::PlayerNotFound(other_id));
                    },
                    Some(o) => o,
                };
                let cur_a = match pl.get_resource(rsc) {
                    Some(v) => v,
                    None => 0,
                };
                let cur_b = match other.get_resource(rsc) {
                    Some(v) => v,
                    None => 0,
                };
                if count > cur_b {
                    proof {
                        lemma_prefix_stops(init, transactions@, i + 1);
                    }
                    return TransactionOutcome::Refused(
                        TransactionError::NotEnough { count, current: cur_b, resource: rsc },
                    );
                }
                if cur_a > u64::MAX - count {
                    proof {
                        lemma_prefix_stops(init, transactions@, i + 1);
                    }
                    return TransactionOutcome::Overflowed;
                }
                pl.set_resource(rsc, cur_a + count);
                other.set_resource(rsc, cur_b - count);
                store.store(other_id, other);
            },
        }
        assert(run(init, transactions@.take(i + 1)) == (RunState::Running { store: store@, player: pl@ }));
        i = i + 1;
    }
    proof {
        assert(transactions@.take(n as int) =~= transactions@);
    }
    store.store(id, pl.duplicate());
    TransactionOutcome::Done(pl)
}

/// Applies a list of resource transactions to the player `id` in `store`.
///
/// The player's account is loaded and changed operation by operation.
/// A transfer takes the resource from the other player and stores that
/// player at once; the requesting player is stored only once every
/// operation has been accepted. The first refused operation ends the run:
/// the requesting player's stored account is then left as it was, while
/// transfers accepted before it stay stored.
///
/// [`transaction_overflows`] tells beforehand whether a resource count
/// would overflow, which the caller must rule out.
pub fn player_resource_transaction(
    store: &mut PlayerStore,
    id: Snowflake,
    transactions: &Vec<Transaction>,
) -> (r: Result<PlayerResources, TransactionError>)
    requires
        forall|i: int| 0 <= i < transactions@.len() ==> !is_self_transfer(#[trigger] transactions@[i], id@),
        old(store)@.contains_key(id@) ==> !(transaction_run(old(store)@, id@, transactions@) is Overflow),
    ensures
        !old(store)@.contains_key(id@) ==> r == Err::<PlayerResources, TransactionError>(
            TransactionError::PlayerNotFound(id),
        ) && final(store)@ == old(store)@,
        old(store)@.contains_key(id@) ==> match transaction_run(old(store)@, id@, transactions@) {
            RunState::Running { store: s, player: p } => {
                &&& r matches Ok(pl) && pl@ == p
                &&& final(store)@ == s.insert(id@, p)
            },
            RunState::Refused { store: s, err } => {
                &&& r == Err::<PlayerResources, TransactionError>(err)
                &&& final(store)@ == s
            },
            RunState::Overflow => false,
        },
{
    match apply_transactions(store, id, transactions) {
        TransactionOutcome::Done(pl) => Ok(pl),
        TransactionOutcome::Refused(e) => Err(e),
        TransactionOutcome::Overflowed => {
            assert(false);
            Err(TransactionError::PlayerNotFound(id))
        },
    }
}

/// Whether running the operations on player `id` would overflow a
/// resource count; the store is not changed.
pub fn transaction_overflows(store: &PlayerStore, id: Snowflake, transactions: &Vec<Transaction>) -> (r: bool)
    requires
        forall|i: int| 0 <= i < transactions@.len() ==> !is_self_transfer(#[trigger] transactions@[i], id@),
    ensures
        r == (store@.contains_key(id@) && transaction_run(store@, id@, transactions@) is Overflow),
{
    let mut scratch = store.duplicate();
    match apply_transactions(&mut scratch, id, transactions) {
        TransactionOutcome::Overflowed => true,
        _ => false,
    }
}

/// Whether some operation transfers from the player `id` itself.
pub fn has_self_transfer(id: Snowflake, transactions: &Vec<Transaction>) -> (r: bool)
    ensures
        r == exists|i: int| 0 <= i < transactions@.len() && is_self_transfer(#[trigger] transactions@[i], id@),
{
    let mut i: usize = 0;
    while i < transactions.len()
        invariant
            0 <= i <= transactions@.len(),
            forall|j: int| 0 <= j < i ==> !is_self_transfer(#[trigger] transactions@[j], id@),
        decreases transactions@.len() - i,
    {
        match transactions[i] {
            Transaction::TransferFrom(other, _, _) => {
                proof {
                    crate::snowflake::lemma_snowflake_view_injective(other, id);
                }
                if other == id {
                    assert(is_self_transfer(transactions@[i as int], id@));
                    return true;
                }
            },
            _ => {},
        }
        i = i + 1;
    }
    false
}

/// An accepted transfer moves resource without creating or destroying
/// any: the two players' counts add up to the same total before and after.
pub proof fn law_transfer_conserves(
    store: Map<u64, Map<u64, u64>>,
    player: Map<u64, u64>,
    other: Snowflake,
    rsc: u64,
    count: u64,
)
    requires
        step(RunState::Running { store, player }, Transaction::TransferFrom(other, rsc, count)) is Running,
    ensures
        ({
            let after = step(RunState::Running { store, player }, Transaction::TransferFrom(other, rsc, count));
            count_of(after->player, rsc) + count_of(after->Running_store[other@], rsc) == count_of(player, rsc)
                + count_of(store[other@], rsc)
        }),
{
}

/// Adding an amount and then subtracting it again gives back the starting
/// count of that resource.
pub proof fn law_add_then_sub_restores_count(
    store: Map<u64, Map<u64, u64>>,
    player: Map<u64, u64>,
    rsc: u64,
    count: u64,
)
    requires
        step(RunState::Running { store, player }, Transaction::Add(rsc, count)) is Running,
    ensures
        ({
            let st = step(
                step(RunState::Running { store, player }, Transaction::Add(rsc, count)),
                Transaction::Sub(rsc, count),
            );
            &&& st is Running
            &&& count_of(st->player, rsc) == count_of(player, rsc)
            &&& st->Running_store == store
        }),
{
}

/// The run never touches the requesting player's stored account before it
/// ends; so a refused transaction leaves that account exactly as it was.
pub proof fn law_refused_run_keeps_player(store: Map<u64, Map<u64, u64>>, id: u64, txs: Seq<Transaction>)
    requires
        store.contains_key(id),
        forall|i: int| 0 <= i < txs.len() ==> !is_self_transfer(#[trigger] txs[i], id),
    ensures
        transaction_run(store, id, txs) is Running ==> (transaction_run(store, id, txs)->Running_store).contains_key(id)
            && (transaction_run(store, id, txs)->Running_store)[id] == store[id],
        transaction_run(store, id, txs) is Refused ==> (transaction_run(store, id, txs)->Refused_store).contains_key(id)
            && (transaction_run(store, id, txs)->Refused_store)[id] == store[id],
    decreases txs.len(),
{
    if txs.len() > 0 {
        let pre = txs.drop_last();
        assert forall|i: int| 0 <= i < pre.len() implies !is_self_transfer(#[trigger] pre[i], id) by {
            assert(pre[i] == txs[i]);
        }
        law_refused_run_keeps_player(store, id, pre);
        assert(!is_self_transfer(txs[txs.len() - 1], id));
    }
}

/// What one accepted or refused operation does to a running transaction:
/// - a set makes the count exactly the given one;
/// - an addition adds the amount, unless the count would overflow;
/// - a subtraction takes the amount off when the player holds at least
///   that much (all of it included), and is refused otherwise;
/// - a transfer moves the amount from the other player to this one when
///   the other player is stored and holds at least that much (all of it
///   included) and the receiving count does not overflow; it is refused
///   when the other player is missing or holds less.
/// No operation touches another resource of the player, and only a
/// transfer touches the store, and there only the other player's count.
pub proof fn law_step_results(store: Map<u64, Map<u64, u64>>, player: Map<u64, u64>, rsc: u64, n: u64, other: Snowflake, r2: u64)
    requires
        r2 != rsc,
    ensures
        ({
            let st = step(RunState::Running { store, player }, Transaction::SetCount(rsc, n));
            &&& st is Running
            &&& count_of(st->player, rsc) == n
            &&& count_of(st->player, r2) == count_of(player, r2)
            &&& st->Running_store == store
        }),
        ({
            let st = step(RunState::Running { store, player }, Transaction::Add(rsc, n));
            &&& count_of(player, rsc) + n <= u64::MAX ==> st is Running && count_of(st->player, rsc) == count_of(player, rsc) + n
                && count_of(st->player, r2) == count_of(player, r2) && st->Running_store == store
            &&& count_of(player, rsc) + n > u64::MAX ==> st is Overflow
        }),
        ({
            let st = step(RunState::Running { store, player }, Transaction::Sub(rsc, n));
            &&& n <= count_of(player, rsc) ==> st is Running && count_of(st->player, rsc) == count_of(player, rsc) - n
                && count_of(st->player, r2) == count_of(player, r2) && st->Running_store == store
            &&& n > count_of(player, rsc) ==> st == RunState::Refused {
                store,
                err: TransactionError::NotEnough { count: n, current: count_of(player, rsc) as u64, resource: rsc },
            }
        }),
        ({
            let st = step(RunState::Running { store, player }, Transaction::TransferFrom(other, rsc, n));
            &&& !store.contains_key(other@) ==> st == RunState::Refused {
                store,
                err: TransactionError::PlayerNotFound(other),
            }
            &&& store.contains_key(other@) && n > count_of(store[other@], rsc) ==> st == RunState::Refused {
                store,
                err: TransactionError::NotEnough {
                    count: n,
                    current: count_of(store[other@], rsc) as u64,
                    resource: rsc,
                },
            }
            &&& store.contains_key(other@) && n <= count_of(store[other@], rsc) && count_of(player, rsc) + n
                <= u64::MAX ==> {
                &&& st is Running
                &&& count_of(st->player, rsc) == count_of(player, rsc) + n
                &&& count_of(st->player, r2) == count_of(player, r2)
                &&& st->Running_store.contains_key(other@)
                &&& count_of(st->Running_store[other@], rsc) == count_of(store[other@], rsc) - n
                &&& count_of(st->Running_store[other@], r2) == count_of(store[other@], r2)
                &&& forall|k: u64| k != other@ ==> #[trigger] st->Running_store.contains_key(k) == store.contains_key(k)
                    && (store.contains_key(k) ==> st->Running_store[k] == store[k])
            }
        }),
{
}

} // verus!
