use akashi::game::models::{resource_a_transaction, CardName, ResourceA, ResourceAError, Transaction};
use akashi::game::utils::{card_not_found, player_not_found, BadTransactionError, ObjectNotFoundError, Pagination};
use akashi::game::entities::{
    add_to_inventory, delete_card, get_card, get_inventory, move_card, player_resource_a_transaction,
    setup_entity_manager, ComponentKind, EntityKind, EntityManager, GameError,
};
use akashi::game::models::CardType;
use akashi::snowflake::{GenerateStep, SnowflakeGenerator};
use akashi::Snowflake;

fn next_id(g: &mut SnowflakeGenerator, now: &mut u64) -> Snowflake {
    loop {
        match g.generate_at(*now) {
            GenerateStep::Ready(id) => return id,
            GenerateStep::Wait(_) => *now += 1,
        }
    }
}

fn new_player(em: &mut EntityManager, g: &mut SnowflakeGenerator, now: &mut u64) -> Snowflake {
    let id = next_id(g, now);
    em.create_player(id).unwrap();
    id
}

fn stored_resource_a(em: &EntityManager, id: Snowflake) -> i64 {
    em.load_resource_a(id).0.val()
}

#[test]
fn player_test_player_transaction_add() {
    let mut em = setup_entity_manager();
    let mut g = SnowflakeGenerator::new(0, 0);
    let mut now: u64 = 1;
    let id = new_player(&mut em, &mut g, &mut now);
    let resp = player_resource_a_transaction(&mut em, id, Transaction::Add(10)).unwrap();
    assert_eq!(resp, stored_resource_a(&em, id));
    assert_eq!(stored_resource_a(&em, id), 10);
}

#[test]
fn player_test_player_transaction_sub() {
    let mut em = setup_entity_manager();
    let mut g = SnowflakeGenerator::new(0, 0);
    let mut now: u64 = 1;
    let id = new_player(&mut em, &mut g, &mut now);
    em.set_resource_a(id, 50.into()).unwrap();
    let resp = player_resource_a_transaction(&mut em, id, Transaction::Sub(25)).unwrap();
    assert_eq!(resp, stored_resource_a(&em, id));
    assert_eq!(stored_resource_a(&em, id), 25);
}

#[test]
fn player_test_player_transaction_sub_validate() {
    let mut em = setup_entity_manager();
    let mut g = SnowflakeGenerator::new(0, 0);
    let mut now: u64 = 1;
    let id = new_player(&mut em, &mut g, &mut now);
    em.set_resource_a(id, 50.into()).unwrap();
    let r = player_resource_a_transaction(&mut em, id, Transaction::Sub(60));
    assert!(matches!(r, Err(GameError::BadTransaction(ResourceAError::Subtraction(_)))));
    assert_eq!(stored_resource_a(&em, id), 50);
}

#[test]
fn player_test_player_transaction_set() {
    let mut em = setup_entity_manager();
    let mut g = SnowflakeGenerator::new(0, 0);
    let mut now: u64 = 1;
    let id = new_player(&mut em, &mut g, &mut now);
    let resp = player_resource_a_transaction(&mut em, id, Transaction::SetValue(100)).unwrap();
    assert_eq!(resp, stored_resource_a(&em, id));
    assert_eq!(stored_resource_a(&em, id), 100);
}

#[test]
fn transaction_set_below_zero_is_refused() {
    let r = resource_a_transaction(ResourceA::default(), ResourceA::default(), Transaction::SetValue(-1));
    assert!(matches!(r, Err(ResourceAError::Assignment(_))));
}

#[test]
fn transaction_add_below_zero_is_refused() {
    let r = resource_a_transaction(ResourceA::default(), ResourceA::default(), Transaction::Add(-5));
    assert!(matches!(r, Err(ResourceAError::Addition(_))));
}

#[test]
fn player_test_player_transaction_transfer() {
    let mut em = setup_entity_manager();
    let mut g = SnowflakeGenerator::new(0, 0);
    let mut now: u64 = 1;
    let id_1 = new_player(&mut em, &mut g, &mut now);
    let id_2 = new_player(&mut em, &mut g, &mut now);
    em.set_resource_a(id_1, 110.into()).unwrap();
    em.set_resource_a(id_2, 0.into()).unwrap();
    let resp = player_resource_a_transaction(&mut em, id_2, Transaction::TransferFrom(id_1, 50)).unwrap();
    assert_eq!(resp, stored_resource_a(&em, id_2));
    assert_eq!(stored_resource_a(&em, id_2), 50);
    assert_eq!(stored_resource_a(&em, id_1), 60);
}

#[test]
fn player_test_player_transaction_transfer_validate() {
    let mut em = setup_entity_manager();
    let mut g = SnowflakeGenerator::new(0, 0);
    let mut now: u64 = 1;
    let id_1 = new_player(&mut em, &mut g, &mut now);
    let id_2 = new_player(&mut em, &mut g, &mut now);
    em.set_resource_a(id_1, 50.into()).unwrap();
    em.set_resource_a(id_2, 0.into()).unwrap();
    let r = player_resource_a_transaction(&mut em, id_2, Transaction::TransferFrom(id_1, 60));
    assert!(matches!(r, Err(GameError::BadTransaction(_))));
    assert_eq!(stored_resource_a(&em, id_1), 50);
    assert_eq!(stored_resource_a(&em, id_2), 0);
}

#[test]
fn transaction_on_missing_players_is_refused() {
    let mut em = setup_entity_manager();
    let id = Snowflake::from(5u64);
    assert!(matches!(player_resource_a_transaction(&mut em, id, Transaction::Add(1)), Err(GameError::PlayerNotFound(p)) if p == id));
    em.create_player(id).unwrap();
    let other = Snowflake::from(6u64);
    assert!(matches!(player_resource_a_transaction(&mut em, id, Transaction::TransferFrom(other, 1)), Err(GameError::PlayerNotFound(p)) if p == other));
}

#[test]
fn entity_manager_setup_and_registration() {
    let mut em = setup_entity_manager();
    assert!(em.has_kind(EntityKind::Player));
    assert!(em.has_kind(EntityKind::Card));
    assert!(em.has_component(EntityKind::Card, ComponentKind::CardValue));
    assert!(em.has_component(EntityKind::Player, ComponentKind::Inventory));
    assert!(!em.has_component(EntityKind::Player, ComponentKind::CardName));
    assert!(matches!(em.register_entity(EntityKind::Player), Err(GameError::EntityAlreadyRegistered(_))));
    assert!(matches!(
        em.register_component(EntityKind::Player, ComponentKind::ResourceA),
        Err(GameError::ComponentAlreadyRegistered(_, _))
    ));
    let mut bare = EntityManager::new();
    assert!(matches!(bare.create_player(Snowflake::from(1u64)), Err(GameError::EntityNotRegistered(_))));
    assert!(matches!(
        bare.register_component(EntityKind::Card, ComponentKind::CardName),
        Err(GameError::EntityNotRegistered(_))
    ));
}

#[test]
fn inventories_of_players() {
    let mut em = setup_entity_manager();
    let mut g = SnowflakeGenerator::new(0, 0);
    let mut now: u64 = 1;
    let player = new_player(&mut em, &mut g, &mut now);
    assert_eq!(get_inventory(&em, player).unwrap(), Vec::<Snowflake>::new());
    let card_a = next_id(&mut g, &mut now);
    let card_b = next_id(&mut g, &mut now);
    assert!(matches!(add_to_inventory(&mut em, player, card_a), Err(GameError::CardNotFound(c)) if c == card_a));
    em.create_card(card_a, CardName::new("Alice".to_owned()), CardType::TypeA).unwrap();
    em.create_card(card_b, CardName::new("Bob".to_owned()), CardType::TypeB).unwrap();
    assert_eq!(add_to_inventory(&mut em, player, card_a).unwrap(), vec![card_a]);
    let mut ids = add_to_inventory(&mut em, player, card_b).unwrap();
    ids.sort_unstable();
    let mut expected = vec![card_a, card_b];
    expected.sort_unstable();
    assert_eq!(ids, expected);
    let mut listed = get_inventory(&em, player).unwrap();
    listed.sort_unstable();
    assert_eq!(listed, expected);
    let stranger = next_id(&mut g, &mut now);
    assert!(matches!(get_inventory(&em, stranger), Err(GameError::PlayerNotFound(_))));
    assert!(matches!(add_to_inventory(&mut em, stranger, card_a), Err(GameError::PlayerNotFound(_))));
}

#[test]
fn resource_a_has_zero_floor() {
    let r = ResourceA::default();
    assert_eq!(r.0.val(), 0);
    assert_eq!(r.0.min(), Some(0));
    assert_eq!(r.0.max(), None);
    let r: ResourceA = 25.into();
    assert_eq!(r.0.val(), 25);
    assert_eq!(r.0.min(), Some(0));
}

#[test]
fn game_pagination_defaults() {
    let p = Pagination::new();
    assert_eq!((p.page, p.limit), (0, 20));
    assert_eq!(Pagination::default(), p);
}

#[test]
fn not_found_errors_name_the_kind() {
    let id = Snowflake::from(5u64);
    let e: ObjectNotFoundError = player_not_found(id);
    assert_eq!(e.obj_type, "player");
    assert_eq!(e.id, id);
    assert_eq!(card_not_found(id).obj_type, "card");
    assert_eq!(ObjectNotFoundError::new("thing", id).obj_type, "thing");
}

#[test]
fn bad_transaction_message() {
    let e = BadTransactionError::new("nope".to_owned());
    assert_eq!(e.0, "nope");
    assert_eq!(CardName::new("Alice".to_owned()).0, "Alice");
}

#[test]
fn adding_a_held_card_lists_it_twice() {
    let mut em = setup_entity_manager();
    let player = Snowflake::from(1u64);
    let card = Snowflake::from(2u64);
    em.create_player(player).unwrap();
    em.create_card(card, CardName::new("Alice".to_owned()), CardType::TypeA).unwrap();
    assert_eq!(add_to_inventory(&mut em, player, card).unwrap(), vec![card]);
    assert_eq!(add_to_inventory(&mut em, player, card).unwrap(), vec![card, card]);
    assert_eq!(get_inventory(&em, player).unwrap(), vec![card]);
}

#[test]
fn cards_of_players_inventories() {
    let mut em = setup_entity_manager();
    let (p1, p2, p3) = (Snowflake::from(1u64), Snowflake::from(2u64), Snowflake::from(3u64));
    let card = Snowflake::from(10u64);
    em.create_player(p1).unwrap();
    em.create_player(p2).unwrap();
    em.create_card(card, CardName::new("Card".to_owned()), CardType::TypeC).unwrap();
    assert!(matches!(get_card(&em, p1, card), Err(GameError::CardNotFound(c)) if c == card));
    add_to_inventory(&mut em, p1, card).unwrap();
    assert_eq!(get_card(&em, p1, card).unwrap(), card);
    assert!(matches!(get_card(&em, p3, card), Err(GameError::PlayerNotFound(p)) if p == p3));
    assert!(matches!(move_card(&mut em, p1, card, p3), Err(GameError::PlayerNotFound(p)) if p == p3));
    assert_eq!(get_inventory(&em, p1).unwrap(), vec![card]);
    move_card(&mut em, p1, card, p2).unwrap();
    assert_eq!(get_inventory(&em, p1).unwrap(), Vec::<Snowflake>::new());
    assert_eq!(get_inventory(&em, p2).unwrap(), vec![card]);
    assert_eq!(delete_card(&mut em, p2, card).unwrap(), card);
    assert_eq!(get_inventory(&em, p2).unwrap(), Vec::<Snowflake>::new());
    assert!(em.contains_card(card));
    assert!(matches!(delete_card(&mut em, p2, card), Err(GameError::CardNotFound(_))));
}

#[test]
fn deleting_entities_clears_their_components() {
    let mut em = setup_entity_manager();
    let (p1, p2) = (Snowflake::from(5u64), Snowflake::from(3u64));
    let card = Snowflake::from(10u64);
    em.create_player(p1).unwrap();
    em.create_player(p2).unwrap();
    em.create_card(card, CardName::new("Card".to_owned()), CardType::TypeD).unwrap();
    em.set_resource_a(p1, 25.into()).unwrap();
    add_to_inventory(&mut em, p1, card).unwrap();
    assert_eq!(em.player_keys(0, 20), vec![p2, p1]);
    assert_eq!(em.player_keys(1, 1), vec![p1]);
    em.delete_player(p1);
    assert!(!em.contains_player(p1));
    assert_eq!(em.player_keys(0, 20), vec![p2]);
    assert_eq!(stored_resource_a(&em, p1), 0);
    em.create_player(p1).unwrap();
    assert_eq!(get_inventory(&em, p1).unwrap(), Vec::<Snowflake>::new());
    assert_eq!(em.card_keys(0, 20), vec![card]);
    em.delete_card(card);
    assert!(!em.contains_card(card));
    assert_eq!(em.card_keys(0, 20), Vec::<Snowflake>::new());
}
