//! The example game's entities and their components: players, which may
//! carry an inventory and a resource A count, and cards, which may carry a
//! name and a card type.
//!
//! Entity kinds and component kinds are registered before use, each once;
//! an entity can only be created once its kind is registered, and a
//! component can only be attached once it is registered for the entity's
//! kind.
use vstd::prelude::*;

use std::collections::HashMap;

use crate::components::inventory::{snowflake_values, Inventory};
use crate::components::resource::{Resource, ResourceView};
use crate::game::models::{
    resource_a_transaction, transaction_fits, transaction_outcome, CardName, CardType, ResourceA, ResourceAError,
    Transaction,
};
use crate::local_storage::{id_values, sorted_keys, to_snowflakes};
use crate::paging::{page_of, page_window, sorted_listing};
use crate::snowflake::Snowflake;

verus! {

broadcast use vstd::std_specs::hash::group_hash_axioms;

/// The kinds of entity in the game.
#[derive(Clone, Copy, Debug, PartialEq, Eq, Structural)]
pub enum EntityKind {
    Player,
    Card,
}

/// The kinds of component in the game.
#[derive(Clone, Copy, Debug, PartialEq, Eq, Structural)]
pub enum ComponentKind {
    /// A card's name.
    CardName,
    /// A card's value.
    CardValue,
    /// A card's type.
    CardType,
    /// The cards a player holds.
    Inventory,
    /// A player's resource A count.
    ResourceA,
}

/// Why an entity manager operation failed.
#[derive(Debug)]
pub enum GameError {
    /// The entity kind was registered already.
    EntityAlreadyRegistered(EntityKind),
    /// The entity kind is not registered.
    EntityNotRegistered(EntityKind),
    /// The component was registered already for this entity kind.
    ComponentAlreadyRegistered(EntityKind, ComponentKind),
    /// The component is not registered for this entity kind.
    ComponentNotRegistered(EntityKind, ComponentKind),
    /// No player with this ID is stored.
    PlayerNotFound(Snowflake),
    /// No card with this ID is stored.
    CardNotFound(Snowflake),
    /// A resource A transaction was refused.
    BadTransaction(ResourceAError),
}

/// The mathematical state of an [`EntityManager`].
pub struct EntityManagerView {
    /// The registered entity kinds.
    pub kinds: Set<EntityKind>,
    /// The registered (entity kind, component kind) pairs.
    pub components: Set<(EntityKind, ComponentKind)>,
    /// The IDs of the stored players.
    pub players: Set<u64>,
    /// The IDs of the stored cards.
    pub cards: Set<u64>,
    /// The inventory components of players: the card IDs each holds.
    pub inventories: Map<u64, Set<u64>>,
    /// The resource A components of players.
    pub resource_a: Map<u64, ResourceView>,
    /// The name components of cards.
    pub card_names: Map<u64, Seq<char>>,
    /// The type components of cards.
    pub card_types: Map<u64, CardType>,
}

/// Keeps the game's entities and their components in memory.
pub struct EntityManager {
    kinds: Vec<EntityKind>,
    components: Vec<(EntityKind, ComponentKind)>,
    players: HashMap<u64, ()>,
    cards: HashMap<u64, ()>,
    inventories: HashMap<u64, Inventory>,
    resource_a: HashMap<u64, ResourceA>,
    card_names: HashMap<u64, CardName>,
    card_types: HashMap<u64, CardType>,
}

impl View for EntityManager {
    type V = EntityManagerView;

    closed spec fn view(&self) -> EntityManagerView {
        EntityManagerView {
            kinds: self.kinds@.to_set(),
            components: self.components@.to_set(),
            players: self.players@.dom(),
            cards: self.cards@.dom(),
            inventories: Map::new(|k: u64| self.inventories@.contains_key(k), |k: u64| self.inventories@[k]@),
            resource_a: Map::new(|k: u64| self.resource_a@.contains_key(k), |k: u64| self.resource_a@[k].0@),
            card_names: Map::new(|k: u64| self.card_names@.contains_key(k), |k: u64| self.card_names@[k].0@),
            card_types: self.card_types@,
        }
    }
}

/// The resource A count of a player without the component: zero, with a
/// lower cap of zero and no upper cap.
pub open spec fn default_resource_a() -> ResourceView {
    ResourceView { val: 0, min: Some(0), max: None }
}

impl EntityManager {
    /// The registered entity kinds.
    pub open spec fn entity_kinds(&self) -> Set<EntityKind> {
        self@.kinds
    }

    /// The components registered for an entity kind.
    pub open spec fn components_of(&self, kind: EntityKind) -> Set<ComponentKind> {
        Set::new(|c: ComponentKind| self@.components.contains((kind, c)))
    }

    /// The IDs of the stored entities of a kind.
    pub open spec fn stored_ids(&self, kind: EntityKind) -> Set<u64> {
        match kind {
            EntityKind::Player => self@.players,
            EntityKind::Card => self@.cards,
        }
    }

    /// A player with this ID is stored.
    pub open spec fn has_player(&self, id: u64) -> bool {
        self@.players.contains(id)
    }

    /// The card IDs in a player's inventory; none if the player has no
    /// inventory component.
    pub open spec fn inventory_of(&self, id: u64) -> Set<u64> {
        if self@.inventories.contains_key(id) {
            self@.inventories[id]
        } else {
            Set::empty()
        }
    }

    /// A player's resource A count; the default count if the player has no
    /// resource A component.
    pub open spec fn resource_a_of(&self, id: u64) -> ResourceView {
        if self@.resource_a.contains_key(id) {
            self@.resource_a[id]
        } else {
            default_resource_a()
        }
    }

    /// An entity manager with nothing registered or stored.
    pub fn new() -> (r: EntityManager)
        ensures
            r@.kinds == Set::<EntityKind>::empty(),
            r@.components == Set::<(EntityKind, ComponentKind)>::empty(),
            r@.players == Set::<u64>::empty(),
            r@.cards == Set::<u64>::empty(),
            r@.inventories == Map::<u64, Set<u64>>::empty(),
            r@.resource_a == Map::<u64, ResourceView>::empty(),
            r@.card_names == Map::<u64, Seq<char>>::empty(),
            r@.card_types == Map::<u64, CardType>::empty(),
    {
        let r = EntityManager {
            kinds: Vec::new(),
            components: Vec::new(),
            players: HashMap::new(),
            cards: HashMap::new(),
            inventories: HashMap::new(),
            resource_a: HashMap::new(),
            card_names: HashMap::new(),
            card_types: HashMap::new(),
        };
        proof {
            assert(r@.kinds =~= Set::<EntityKind>::empty());
            assert(r@.components =~= Set::<(EntityKind, ComponentKind)>::empty());
            assert(r@.inventories =~= Map::<u64, Set<u64>>::empty());
            assert(r@.resource_a =~= Map::<u64, ResourceView>::empty());
            assert(r@.card_names =~= Map::<u64, Seq<char>>::empty());
        }
        r
    }

    /// Whether an entity kind is registered.
    pub fn has_kind(&self, kind: EntityKind) -> (r: bool)
        ensures
            r == self@.kinds.contains(kind),
    {
        let mut i: usize = 0;
        while i < self.kinds.len()
            invariant
                0 <= i <= self.kinds@.len(),
                forall|j: int| 0 <= j < i ==> self.kinds@[j] != kind,
            decreases self.kinds@.len() - i,
        {
            if self.kinds[i] == kind {
                assert(self.kinds@.to_set().contains(self.kinds@[i as int]));
                return true;
            }
            i = i + 1;
        }
        false
    }

    /// Whether a component is registered for an entity kind.
    pub fn has_component(&self, kind: EntityKind, component: ComponentKind) -> (r: bool)
        ensures
            r == self@.components.contains((kind, component)),
    {
        let mut i: usize = 0;
        while i < self.components.len()
            invariant
                0 <= i <= self.components@.len(),
                forall|j: int| 0 <= j < i ==> self.components@[j] != (kind, component),
            decreases self.components@.len() - i,
        {
            let (k, c) = self.components[i];
            if k == kind && c == component {
                assert(self.components@.to_set().contains(self.components@[i as int]));
                return true;
            }
            i = i + 1;
        }
        false
    }

    /// Registers an entity kind; fails, changing nothing, if it is
    /// registered already.
    pub fn register_entity(&mut self, kind: EntityKind) -> (r: Result<(), GameError>)
        ensures
            match r {
                Ok(()) => {
                    &&& !old(self)@.kinds.contains(kind)
                    &&& final(self)@ == (EntityManagerView { kinds: old(self)@.kinds.insert(kind), ..old(self)@ })
                },
                Err(e) => {
                    &&& old(self)@.kinds.contains(kind)
                    &&& e matches GameError::EntityAlreadyRegistered(k) && k == kind
                    &&& final(self)@ == old(self)@
                },
            },
    {
        if self.has_kind(kind) {
            return Err(GameError::EntityAlreadyRegistered(kind));
        }
        self.kinds.push(kind);
        proof {
            assert(self.kinds@ == old(self).kinds@.push(kind));
            assert(self.kinds@.to_set() =~= old(self).kinds@.to_set().insert(kind)) by {
                old(self).kinds@.lemma_push_to_set_commute(kind);
            }
            assert(self@.inventories =~= old(self)@.inventories);
            assert(self@.resource_a =~= old(self)@.resource_a);
            assert(self@.card_names =~= old(self)@.card_names);
        }
        Ok(())
    }

    /// Registers a component for a registered entity kind; fails, changing
    /// nothing, if the kind is not registered or the component is
    /// registered for it already.
    pub fn register_component(&mut self, kind: EntityKind, component: ComponentKind) -> (r: Result<
        (),
        GameError,
    >)
        ensures
            match r {
                Ok(()) => {
                    &&& old(self)@.kinds.contains(kind)
                    &&& !old(self)@.components.contains((kind, component))
                    &&& final(self)@ == (EntityManagerView {
                        components: old(self)@.components.insert((kind, component)),
                        ..old(self)@
                    })
                },
                Err(e) => {
                    &&& final(self)@ == old(self)@
                    &&& if !old(self)@.kinds.contains(kind) {
                        e matches GameError::EntityNotRegistered(k) && k == kind
                    } else {
                        &&& old(self)@.components.contains((kind, component))
                        &&& e matches GameError::ComponentAlreadyRegistered(k, c) && k == kind && c == component
                    }
                },
            },
    {
        if !self.has_kind(kind) {
            return Err(GameError::EntityNotRegistered(kind));
        }
        if self.has_component(kind, component) {
            return Err(GameError::ComponentAlreadyRegistered(kind, component));
        }
        self.components.push((kind, component));
        proof {
            assert(self.components@.to_set() =~= old(self).components@.to_set().insert((kind, component))) by {
                old(self).components@.lemma_push_to_set_commute((kind, component));
            }
            assert(self@.inventories =~= old(self)@.inventories);
            assert(self@.resource_a =~= old(self)@.resource_a);
            assert(self@.card_names =~= old(self)@.card_names);
        }
        Ok(())
    }
}

impl EntityManager {
    /// Whether a player with this ID is stored.
    pub fn contains_player(&self, id: Snowflake) -> (r: bool)
        ensures
            r == self.has_player(id@),
    {
        let key: u64 = id.into();
        self.players.contains_key(&key)
    }

    /// Whether a card with this ID is stored.
    pub fn contains_card(&self, id: Snowflake) -> (r: bool)
        ensures
            r == self@.cards.contains(id@),
    {
        let key: u64 = id.into();
        self.cards.contains_key(&key)
    }

    /// Stores a player with this ID; its components are left as they are.
    /// Fails, changing nothing, if players are not a registered kind.
    pub fn create_player(&mut self, id: Snowflake) -> (r: Result<(), GameError>)
        ensures
            match r {
                Ok(()) => {
                    &&& old(self)@.kinds.contains(EntityKind::Player)
                    &&& final(self)@ == (EntityManagerView { players: old(self)@.players.insert(id@), ..old(self)@ })
                },
                Err(e) => {
                    &&& !old(self)@.kinds.contains(EntityKind::Player)
                    &&& e matches GameError::EntityNotRegistered(k) && k == EntityKind::Player
                    &&& final(self)@ == old(self)@
                },
            },
    {
        if !self.has_kind(EntityKind::Player) {
            return Err(GameError::EntityNotRegistered(EntityKind::Player));
        }
        let key: u64 = id.into();
        self.players.insert(key, ());
        proof {
            assert(self@.inventories =~= old(self)@.inventories);
            assert(self@.resource_a =~= old(self)@.resource_a);
            assert(self@.card_names =~= old(self)@.card_names);
        }
        Ok(())
    }

    /// Stores a card with this ID, with its name and type components.
    /// Fails, changing nothing, if cards are not a registered kind or these
    /// components are not registered for cards.
    pub fn create_card(&mut self, id: Snowflake, name: CardName, card_type: CardType) -> (r: Result<
        (),
        GameError,
    >)
        ensures
            match r {
                Ok(()) => {
                    &&& old(self)@.kinds.contains(EntityKind::Card)
                    &&& old(self)@.components.contains((EntityKind::Card, ComponentKind::CardType))
                    &&& old(self)@.components.contains((EntityKind::Card, ComponentKind::CardName))
                    &&& final(self)@ == (EntityManagerView {
                        cards: old(self)@.cards.insert(id@),
                        card_names: old(self)@.card_names.insert(id@, name.0@),
                        card_types: old(self)@.card_types.insert(id@, card_type),
                        ..old(self)@
                    })
                },
                Err(e) => {
                    &&& final(self)@ == old(self)@
                    &&& if !old(self)@.kinds.contains(EntityKind::Card) {
                        e matches GameError::EntityNotRegistered(k) && k == EntityKind::Card
                    } else if !old(self)@.components.contains((EntityKind::Card, ComponentKind::CardType)) {
                        e matches GameError::ComponentNotRegistered(k, c) && k == EntityKind::Card && c
                            == ComponentKind::CardType
                    } else {
                        &&& !old(self)@.components.contains((EntityKind::Card, ComponentKind::CardName))
                        &&& e matches GameError::ComponentNotRegistered(k, c) && k == EntityKind::Card && c
                            == ComponentKind::CardName
                    }
                },
            },
    {
        if !self.has_kind(EntityKind::Card) {
            return Err(GameError::EntityNotRegistered(EntityKind::Card));
        }
        if !self.has_component(EntityKind::Card, ComponentKind::CardType) {
            return Err(GameError::ComponentNotRegistered(EntityKind::Card, ComponentKind::CardType));
        }
        if !self.has_component(EntityKind::Card, ComponentKind::CardName) {
            return Err(GameError::ComponentNotRegistered(EntityKind::Card, ComponentKind::CardName));
        }
        let key: u64 = id.into();
        let ghost name_view = name.0@;
        self.cards.insert(key, ());
        self.card_types.insert(key, card_type);
        self.card_names.insert(key, name);
        proof {
            assert(self@.inventories =~= old(self)@.inventories);
            assert(self@.resource_a =~= old(self)@.resource_a);
            assert(self@.card_names =~= old(self)@.card_names.insert(id@, name_view));
        }
        Ok(())
    }

    /// The resource A component of a player, or the default count.
    pub fn load_resource_a(&self, id: Snowflake) -> (r: ResourceA)
        ensures
            r.0@ == self.resource_a_of(id@),
    {
        let key: u64 = id.into();
        match self.resource_a.get(&key) {
            Some(rsc) => ResourceA(Resource::new(rsc.0.val(), rsc.0.min(), rsc.0.max())),
            None => ResourceA::default(),
        }
    }

    /// Attaches a resource A component to a player. Fails, changing
    /// nothing, if resource A is not registered for players.
    pub fn set_resource_a(&mut self, id: Snowflake, rsc: ResourceA) -> (r: Result<(), GameError>)
        ensures
            match r {
                Ok(()) => {
                    &&& old(self)@.components.contains((EntityKind::Player, ComponentKind::ResourceA))
                    &&& final(self)@ == (EntityManagerView {
                        resource_a: old(self)@.resource_a.insert(id@, rsc.0@),
                        ..old(self)@
                    })
                },
                Err(e) => {
                    &&& !old(self)@.components.contains((EntityKind::Player, ComponentKind::ResourceA))
                    &&& e matches GameError::ComponentNotRegistered(k, c) && k == EntityKind::Player && c
                        == ComponentKind::ResourceA
                    &&& final(self)@ == old(self)@
                },
            },
    {
        if !self.has_component(EntityKind::Player, ComponentKind::ResourceA) {
            return Err(GameError::ComponentNotRegistered(EntityKind::Player, ComponentKind::ResourceA));
        }
        self.store_resource_a(id, rsc);
        Ok(())
    }

    /// Sets the resource A component of a player.
    fn store_resource_a(&mut self, id: Snowflake, rsc: ResourceA)
        ensures
            final(self)@ == (EntityManagerView {
                resource_a: old(self)@.resource_a.insert(id@, rsc.0@),
                ..old(self)@
            }),
    {
        let key: u64 = id.into();
        let ghost v = rsc.0@;
        self.resource_a.insert(key, rsc);
        proof {
            assert(self@.inventories =~= old(self)@.inventories);
            assert(self@.resource_a =~= old(self)@.resource_a.insert(id@, v));
            assert(self@.card_names =~= old(self)@.card_names);
        }
    }
}

impl EntityManager {
    /// Deletes a stored player together with the components attached to it
    /// (its inventory and its resource A count). Deleting a player that is
    /// not stored changes nothing.
    pub fn delete_player(&mut self, id: Snowflake)
        ensures
            final(self)@ == (if old(self)@.players.contains(id@) {
                EntityManagerView {
                    players: old(self)@.players.remove(id@),
                    inventories: old(self)@.inventories.remove(id@),
                    resource_a: old(self)@.resource_a.remove(id@),
                    ..old(self)@
                }
            } else {
                old(self)@
            }),
    {
        let key: u64 = id.into();
        if !self.players.contains_key(&key) {
            return;
        }
        self.inventories.remove(&key);
        self.resource_a.remove(&key);
        self.players.remove(&key);
        proof {
            assert(self@.players =~= old(self)@.players.remove(id@));
            assert(self@.inventories =~= old(self)@.inventories.remove(id@));
            assert(self@.resource_a =~= old(self)@.resource_a.remove(id@));
            assert(self@.card_names =~= old(self)@.card_names);
        }
    }

    /// Deletes a stored card together with the components attached to it
    /// (its name and its type). Deleting a card that is not stored changes
    /// nothing.
    pub fn delete_card(&mut self, id: Snowflake)
        ensures
            final(self)@ == (if old(self)@.cards.contains(id@) {
                EntityManagerView {
                    cards: old(self)@.cards.remove(id@),
                    card_names: old(self)@.card_names.remove(id@),
                    card_types: old(self)@.card_types.remove(id@),
                    ..old(self)@
                }
            } else {
                old(self)@
            }),
    {
        let key: u64 = id.into();
        if !self.cards.contains_key(&key) {
            return;
        }
        self.card_names.remove(&key);
        self.card_types.remove(&key);
        self.cards.remove(&key);
        proof {
            assert(self@.cards =~= old(self)@.cards.remove(id@));
            assert(self@.inventories =~= old(self)@.inventories);
            assert(self@.resource_a =~= old(self)@.resource_a);
            assert(self@.card_names =~= old(self)@.card_names.remove(id@));
        }
    }

    /// Page `page` (with `limit` IDs per page) of the stored players' IDs,
    /// in increasing order.
    pub fn player_keys(&self, page: u64, limit: u64) -> (r: Vec<Snowflake>)
        requires
            page * limit <= u64::MAX,
        ensures
            id_values(r@) == page_of(sorted_listing(self@.players), page as int, limit as int),
    {
        let sorted = sorted_keys(&self.players);
        let window = page_window(&sorted, page, limit);
        to_snowflakes(&window)
    }

    /// Page `page` (with `limit` IDs per page) of the stored cards' IDs, in
    /// increasing order.
    pub fn card_keys(&self, page: u64, limit: u64) -> (r: Vec<Snowflake>)
        requires
            page * limit <= u64::MAX,
        ensures
            id_values(r@) == page_of(sorted_listing(self@.cards), page as int, limit as int),
    {
        let sorted = sorted_keys(&self.cards);
        let window = page_window(&sorted, page, limit);
        to_snowflakes(&window)
    }
}

/// The card IDs of a player's inventory, each once, in no particular
/// order. Fails if the player is not stored, or if a card of the inventory
/// is not stored as a card.
pub fn get_inventory(em: &EntityManager, player: Snowflake) -> (r: Result<Vec<Snowflake>, GameError>)
    ensures
        match r {
            Ok(ids) => {
                &&& em.has_player(player@)
                &&& em.inventory_of(player@).subset_of(em@.cards)
                &&& snowflake_values(ids@).to_set() == em.inventory_of(player@)
                &&& snowflake_values(ids@).no_duplicates()
            },
            Err(e) => if !em.has_player(player@) {
                e matches GameError::PlayerNotFound(p) && p == player
            } else {
                e matches GameError::CardNotFound(c) && em.inventory_of(player@).contains(c@) && !em@.cards.contains(
                    c@,
                )
            },
        },
{
    if !em.contains_player(player) {
        return Err(GameError::PlayerNotFound(player));
    }
    let key: u64 = player.into();
    match em.inventories.get(&key) {
        None => {
            let ids: Vec<Snowflake> = Vec::new();
            proof {
                assert(snowflake_values(ids@) =~= Seq::<u64>::empty());
                assert(em.inventory_of(player@) =~= Set::<u64>::empty());
            }
            Ok(ids)
        },
        Some(inv) => {
            let ids = inv.iter_ids();
            proof {
                assert(em.inventory_of(player@) == inv@);
            }
            let mut i: usize = 0;
            while i < ids.len()
                invariant
                    0 <= i <= ids@.len(),
                    em.has_player(player@),
                    snowflake_values(ids@).to_set() == em.inventory_of(player@),
                    forall|j: int| 0 <= j < i ==> em@.cards.contains(#[trigger] snowflake_values(ids@)[j]),
                decreases ids@.len() - i,
            {
                let c = ids[i];
                proof {
                    assert(snowflake_values(ids@)[i as int] == c@);
                    assert(snowflake_values(ids@).to_set().contains(c@));
                }
                if !em.contains_card(c) {
                    assert(em.inventory_of(player@).contains(c@));
                    return Err(GameError::CardNotFound(c));
                }
                i = i + 1;
            }
            proof {
                assert forall|x: u64| em.inventory_of(player@).contains(x) implies em@.cards.contains(x) by {
                    assert(snowflake_values(ids@).to_set().contains(x));
                    let j = choose|j: int| 0 <= j < snowflake_values(ids@).len() && snowflake_values(ids@)[j] == x;
                    assert(em@.cards.contains(snowflake_values(ids@)[j]));
                }
            }
            Ok(ids)
        },
    }
}

/// Adds the stored card `card` to a player's inventory (an empty one if
/// the player has none yet), stores the inventory and returns the card IDs
/// the inventory held before, each once, followed by `card` (so a card
/// that was held already is listed twice). Fails, changing nothing, if the player is not stored,
/// inventories are not registered for players, the card is not stored, or
/// a card already in the inventory is not stored.
pub fn add_to_inventory(em: &mut EntityManager, player: Snowflake, card: Snowflake) -> (r: Result<
    Vec<Snowflake>,
    GameError,
>)
    ensures
        match r {
            Ok(ids) => {
                &&& old(em).has_player(player@)
                &&& old(em)@.components.contains((EntityKind::Player, ComponentKind::Inventory))
                &&& old(em)@.cards.contains(card@)
                &&& old(em).inventory_of(player@).subset_of(old(em)@.cards)
                &&& final(em)@ == (EntityManagerView {
                    inventories: old(em)@.inventories.insert(player@, old(em).inventory_of(player@).insert(card@)),
                    ..old(em)@
                })
                &&& final(em).inventory_of(player@) == old(em).inventory_of(player@).insert(card@)
                &&& ids@.len() >= 1
                &&& ids@.last() == card
                &&& snowflake_values(ids@.drop_last()).to_set() == old(em).inventory_of(player@)
                &&& snowflake_values(ids@.drop_last()).no_duplicates()
            },
            Err(e) => {
                &&& final(em)@ == old(em)@
                &&& if !old(em).has_player(player@) {
                    e matches GameError::PlayerNotFound(p) && p == player
                } else if !old(em)@.components.contains((EntityKind::Player, ComponentKind::Inventory)) {
                    e matches GameError::ComponentNotRegistered(k, c) && k == EntityKind::Player && c
                        == ComponentKind::Inventory
                } else if !old(em)@.cards.contains(card@) {
                    e matches GameError::CardNotFound(c) && c == card
                } else {
                    e matches GameError::CardNotFound(c) && old(em).inventory_of(player@).contains(c@)
                        && !old(em)@.cards.contains(c@)
                }
            },
        },
{
    if !em.contains_player(player) {
        return Err(GameError::PlayerNotFound(player));
    }
    if !em.has_component(EntityKind::Player, ComponentKind::Inventory) {
        return Err(GameError::ComponentNotRegistered(EntityKind::Player, ComponentKind::Inventory));
    }
    if !em.contains_card(card) {
        return Err(GameError::CardNotFound(card));
    }
    let mut ids = match get_inventory(em, player) {
        Err(e) => {
            return Err(e);
        },
        Ok(ids) => ids,
    };
    let ghost held = ids@;
    ids.push(card);
    proof {
        assert(ids@.drop_last() =~= held);
    }
    let key: u64 = player.into();
    let mut inv = match em.inventories.remove(&key) {
        Some(i) => i,
        None => Inventory::empty(),
    };
    proof {
        assert(inv@ == old(em).inventory_of(player@));
    }
    inv.insert(card);
    let ghost new_inv = inv@;
    em.inventories.insert(key, inv);
    proof {
        assert(em@.inventories =~= old(em)@.inventories.insert(player@, new_inv));
        assert(em@.resource_a =~= old(em)@.resource_a);
        assert(em@.card_names =~= old(em)@.card_names);
    }
    Ok(ids)
}

impl EntityManager {
    /// A copy of a player's inventory; an empty one if it has none.
    fn inventory_copy(&self, id: Snowflake) -> (r: Inventory)
        ensures
            r@ == self.inventory_of(id@),
    {
        let key: u64 = id.into();
        match self.inventories.get(&key) {
            Some(inv) => Inventory::from(inv.iter_ids()),
            None => Inventory::empty(),
        }
    }

    /// Attaches an inventory component to a player.
    fn put_inventory(&mut self, id: Snowflake, inv: Inventory)
        ensures
            final(self)@ == (EntityManagerView {
                inventories: old(self)@.inventories.insert(id@, inv@),
                ..old(self)@
            }),
    {
        let key: u64 = id.into();
        let ghost v = inv@;
        self.inventories.insert(key, inv);
        proof {
            assert(self@.inventories =~= old(self)@.inventories.insert(id@, v));
            assert(self@.resource_a =~= old(self)@.resource_a);
            assert(self@.card_names =~= old(self)@.card_names);
        }
    }
}

/// The card is in the player's inventory and is stored as a card.
pub open spec fn holds_card(em: EntityManager, player: u64, card: u64) -> bool {
    em.inventory_of(player).contains(card) && em@.cards.contains(card)
}

/// Why a player's card could not be reached: the player is not stored,
/// inventories are not registered for players, or the player does not
/// hold the card (it is not in the inventory, or not stored as a card).
pub open spec fn card_lookup_error(em: EntityManager, player: Snowflake, card: Snowflake, e: GameError) -> bool {
    if !em.has_player(player@) {
        e matches GameError::PlayerNotFound(p) && p == player
    } else if !em@.components.contains((EntityKind::Player, ComponentKind::Inventory)) {
        e matches GameError::ComponentNotRegistered(k, c) && k == EntityKind::Player && c == ComponentKind::Inventory
    } else {
        &&& !holds_card(em, player@, card@)
        &&& e matches GameError::CardNotFound(c) && c == card
    }
}

/// The player can reach the card: the player is stored, inventories are
/// registered for players, and the player holds the card.
pub open spec fn card_reachable(em: EntityManager, player: u64, card: u64) -> bool {
    &&& em.has_player(player)
    &&& em@.components.contains((EntityKind::Player, ComponentKind::Inventory))
    &&& holds_card(em, player, card)
}

/// Looks a card up in a player's inventory and returns its ID.
pub fn get_card(em: &EntityManager, player: Snowflake, card: Snowflake) -> (r: Result<Snowflake, GameError>)
    ensures
        match r {
            Ok(c) => card_reachable(*em, player@, card@) && c == card,
            Err(e) => !card_reachable(*em, player@, card@) && card_lookup_error(*em, player, card, e),
        },
{
    if !em.contains_player(player) {
        return Err(GameError::PlayerNotFound(player));
    }
    if !em.has_component(EntityKind::Player, ComponentKind::Inventory) {
        return Err(GameError::ComponentNotRegistered(EntityKind::Player, ComponentKind::Inventory));
    }
    let inv = em.inventory_copy(player);
    if !inv.contains(card) || !em.contains_card(card) {
        return Err(GameError::CardNotFound(card));
    }
    Ok(card)
}

/// Takes a card out of a player's inventory and returns its ID; the card
/// itself stays stored. Fails, changing nothing, as [`get_card`] does.
pub fn delete_card(em: &mut EntityManager, player: Snowflake, card: Snowflake) -> (r: Result<Snowflake, GameError>)
    ensures
        match r {
            Ok(c) => {
                &&& card_reachable(*old(em), player@, card@)
                &&& c == card
                &&& final(em)@ == (EntityManagerView {
                    inventories: old(em)@.inventories.insert(player@, old(em).inventory_of(player@).remove(card@)),
                    ..old(em)@
                })
            },
            Err(e) => {
                &&& !card_reachable(*old(em), player@, card@)
                &&& card_lookup_error(*old(em), player, card, e)
                &&& final(em)@ == old(em)@
            },
        },
{
    match get_card(em, player, card) {
        Err(e) => {
            return Err(e);
        },
        Ok(_) => {},
    }
    let mut inv = em.inventory_copy(player);
    inv.remove(card);
    em.put_inventory(player, inv);
    Ok(card)
}

/// Moves a card from one player's inventory to another's (an empty one if
/// that player has none yet). Fails, changing nothing, if the first player
/// cannot reach the card as [`get_card`] says, or if the second player is
/// not stored.
pub fn move_card(em: &mut EntityManager, from: Snowflake, card: Snowflake, to: Snowflake) -> (r: Result<
    (),
    GameError,
>)
    requires
        from@ != to@,
    ensures
        match r {
            Ok(()) => {
                &&& card_reachable(*old(em), from@, card@)
                &&& old(em).has_player(to@)
                &&& final(em)@ == (EntityManagerView {
                    inventories: old(em)@.inventories.insert(from@, old(em).inventory_of(from@).remove(card@)).insert(
                        to@,
                        old(em).inventory_of(to@).insert(card@),
                    ),
                    ..old(em)@
                })
            },
            Err(e) => {
                &&& final(em)@ == old(em)@
                &&& if !card_reachable(*old(em), from@, card@) {
                    card_lookup_error(*old(em), from, card, e)
                } else {
                    &&& !old(em).has_player(to@)
                    &&& e matches GameError::PlayerNotFound(p) && p == to
                }
            },
        },
{
    match get_card(em, from, card) {
        Err(e) => {
            return Err(e);
        },
        Ok(_) => {},
    }
    if !em.contains_player(to) {
        return Err(GameError::PlayerNotFound(to));
    }
    let mut src = em.inventory_copy(from);
    let mut dest = em.inventory_copy(to);
    src.remove(card);
    dest.insert(card);
    em.put_inventory(to, dest);
    em.put_inventory(from, src);
    proof {
        assert(em@.inventories =~= old(em)@.inventories.insert(from@, old(em).inventory_of(from@).remove(card@)).insert(
            to@,
            old(em).inventory_of(to@).insert(card@),
        ));
    }
    Ok(())
}

/// The resource A count that a transaction takes from: that of the other
/// player of a transfer, and the default count otherwise.
pub open spec fn source_resource_a(em: EntityManager, tx: Transaction) -> ResourceView {
    match tx {
        Transaction::TransferFrom(from, _) => em.resource_a_of(from@),
        _ => default_resource_a(),
    }
}

/// The operation transfers from the player `id` itself.
pub open spec fn transfers_from_self(tx: Transaction, id: u64) -> bool {
    match tx {
        Transaction::TransferFrom(from, _) => from@ == id,
        _ => false,
    }
}

/// A transfer names another player that is not stored.
pub open spec fn transfer_source_missing(em: EntityManager, tx: Transaction) -> bool {
    match tx {
        Transaction::TransferFrom(from, _) => !em.has_player(from@),
        _ => false,
    }
}

/// The resource A components after an accepted transaction: the player's
/// new count `c` and, for a transfer, the other player's new count.
pub open spec fn resource_a_after(
    m: Map<u64, ResourceView>,
    player: u64,
    tx: Transaction,
    c: ResourceView,
    s: Option<ResourceView>,
) -> Map<u64, ResourceView> {
    match (tx, s) {
        (Transaction::TransferFrom(from, _), Some(x)) => m.insert(from@, x).insert(player, c),
        _ => m.insert(player, c),
    }
}

/// Applies a resource A transaction to a stored player: the player's count
/// (the default if it has none) is changed as
/// [`resource_a_transaction`] says, and, for a transfer, so is the other
/// player's; both are stored and the player's new count is returned.
/// Fails, changing nothing, if the player is not stored, resource A is not
/// registered for players, the other player of a transfer is not stored,
/// or the transaction is refused.
pub fn player_resource_a_transaction(em: &mut EntityManager, player: Snowflake, tx: Transaction) -> (r: Result<
    i64,
    GameError,
>)
    requires
        !transfers_from_self(tx, player@),
        transaction_fits(old(em).resource_a_of(player@), source_resource_a(*old(em), tx), tx),
    ensures
        match r {
            Ok(v) => {
                &&& old(em).has_player(player@)
                &&& old(em)@.components.contains((EntityKind::Player, ComponentKind::ResourceA))
                &&& !transfer_source_missing(*old(em), tx)
                &&& transaction_outcome(old(em).resource_a_of(player@), source_resource_a(*old(em), tx), tx) matches Some(
                    (c, s),
                ) && v == c.val && final(em)@ == (EntityManagerView {
                    resource_a: resource_a_after(old(em)@.resource_a, player@, tx, c, s),
                    ..old(em)@
                })
            },
            Err(e) => {
                &&& final(em)@ == old(em)@
                &&& if !old(em).has_player(player@) {
                    e matches GameError::PlayerNotFound(p) && p == player
                } else if !old(em)@.components.contains((EntityKind::Player, ComponentKind::ResourceA)) {
                    e matches GameError::ComponentNotRegistered(k, c) && k == EntityKind::Player && c
                        == ComponentKind::ResourceA
                } else if transfer_source_missing(*old(em), tx) {
                    e matches GameError::PlayerNotFound(p) && tx matches Transaction::TransferFrom(from, _) && p
                        == from
                } else {
                    &&& transaction_outcome(
                        old(em).resource_a_of(player@),
                        source_resource_a(*old(em), tx),
                        tx,
                    ) is None
                    &&& e is BadTransaction
                }
            },
        },
{
    if !em.contains_player(player) {
        return Err(GameError::PlayerNotFound(player));
    }
    if !em.has_component(EntityKind::Player, ComponentKind::ResourceA) {
        return Err(GameError::ComponentNotRegistered(EntityKind::Player, ComponentKind::ResourceA));
    }
    let current = em.load_resource_a(player);
    let source = match tx {
        Transaction::TransferFrom(from, _) => {
            if !em.contains_player(from) {
                return Err(GameError::PlayerNotFound(from));
            }
            em.load_resource_a(from)
        },
        _ => ResourceA::default(),
    };
    match resource_a_transaction(current, source, tx) {
        Err(e) => Err(GameError::BadTransaction(e)),
        Ok((c, s)) => {
            let v = c.0.val();
            match (tx, s) {
                (Transaction::TransferFrom(from, _), Some(x)) => {
                    em.store_resource_a(from, x);
                },
                _ => {},
            }
            em.store_resource_a(player, c);
            Ok(v)
        },
    }
}

/// The stored resource A counts all have a lower cap of zero and are not
/// negative.
pub open spec fn resource_a_well_capped(m: Map<u64, ResourceView>) -> bool {
    forall|k: u64| #[trigger] m.contains_key(k) ==> m[k].val >= 0 && m[k].min == Some(0int)
}

/// Resource A never goes below zero: if every stored count has a lower cap
/// of zero and is not negative, so is every count after an accepted
/// transaction (a refused one changes nothing), whatever the upper caps.
pub proof fn law_resource_a_stays_non_negative(em: EntityManager, player: u64, tx: Transaction)
    requires
        resource_a_well_capped(em@.resource_a),
        transaction_outcome(em.resource_a_of(player), source_resource_a(em, tx), tx) is Some,
    ensures
        ({
            let (c, s) = transaction_outcome(em.resource_a_of(player), source_resource_a(em, tx), tx).unwrap();
            resource_a_well_capped(resource_a_after(em@.resource_a, player, tx, c, s))
        }),
{
    let cur = em.resource_a_of(player);
    let src = source_resource_a(em, tx);
    assert(cur.val >= 0 && cur.min == Some(0int));
    if let Transaction::TransferFrom(f, _) = tx {
        assert(src.val >= 0 && src.min == Some(0int));
    }
    let (c, s) = transaction_outcome(cur, src, tx).unwrap();
    let after = resource_a_after(em@.resource_a, player, tx, c, s);
    assert forall|k: u64| #[trigger] after.contains_key(k) implies after[k].val >= 0 && after[k].min == Some(0int) by {
        if k == player {
        } else if s is Some && tx is TransferFrom && k == (tx->TransferFrom_0)@ {
        } else {
            assert(em@.resource_a.contains_key(k));
        }
    }
}

/// The entity manager of the game: players and cards registered as entity
/// kinds, with name, value and type components for cards and inventory and
/// resource A components for players, and nothing stored yet.
pub fn setup_entity_manager() -> (em: EntityManager)
    ensures
        em.entity_kinds() == set![EntityKind::Player, EntityKind::Card],
        em.components_of(EntityKind::Card) == set![
            ComponentKind::CardName,
            ComponentKind::CardValue,
            ComponentKind::CardType,
        ],
        em.components_of(EntityKind::Player) == set![ComponentKind::Inventory, ComponentKind::ResourceA],
        forall|k: EntityKind| #[trigger] em.stored_ids(k).is_empty(),
        em@.inventories == Map::<u64, Set<u64>>::empty(),
        em@.resource_a == Map::<u64, ResourceView>::empty(),
        em@.card_names == Map::<u64, Seq<char>>::empty(),
        em@.card_types == Map::<u64, CardType>::empty(),
{
    let mut em = EntityManager::new();
    let r1 = em.register_entity(EntityKind::Player);
    assert(r1 is Ok);
    let r2 = em.register_entity(EntityKind::Card);
    assert(r2 is Ok);
    let r3 = em.register_component(EntityKind::Card, ComponentKind::CardName);
    assert(r3 is Ok);
    let r4 = em.register_component(EntityKind::Card, ComponentKind::CardValue);
    assert(r4 is Ok);
    let r5 = em.register_component(EntityKind::Card, ComponentKind::CardType);
    assert(r5 is Ok);
    let r6 = em.register_component(EntityKind::Player, ComponentKind::Inventory);
    assert(r6 is Ok);
    let r7 = em.register_component(EntityKind::Player, ComponentKind::ResourceA);
    assert(r7 is Ok);
    proof {
        assert(em.entity_kinds() =~= set![EntityKind::Player, EntityKind::Card]);
        assert(em.components_of(EntityKind::Card) =~= set![
            ComponentKind::CardName,
            ComponentKind::CardValue,
            ComponentKind::CardType,
        ]);
        assert(em.components_of(EntityKind::Player) =~= set![ComponentKind::Inventory, ComponentKind::ResourceA]);
        assert forall|k: EntityKind| #[trigger] em.stored_ids(k).is_empty() by {
            match k {
                EntityKind::Player => assert(em.stored_ids(k) =~= Set::<u64>::empty()),
                EntityKind::Card => assert(em.stored_ids(k) =~= Set::<u64>::empty()),
            }
        }
    }
    em
}

} // verus!
