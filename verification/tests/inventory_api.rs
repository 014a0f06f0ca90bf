use akashi::server::card::{Card, Inventory};
use akashi::server::inventory_api::{
    add_to_inventory, create_inventory, delete_card, get_card, get_inventory, move_card, InventoryAddOptions,
    InventoryError,
};
use akashi::server::local_storage::LocalStoreBackend;
use akashi::snowflake::{GenerateStep, SnowflakeGenerator};
use akashi::Snowflake;

fn sf(v: u64) -> Snowflake {
    Snowflake::from(v)
}

fn next_id(g: &mut SnowflakeGenerator, now: &mut u64) -> Snowflake {
    loop {
        match g.generate_at(*now) {
            GenerateStep::Ready(id) => return id,
            GenerateStep::Wait(_) => *now += 1,
        }
    }
}

fn random_card(g: &mut SnowflakeGenerator, now: &mut u64) -> Card {
    let type_id = next_id(g, now);
    Card::new(next_id(g, now), type_id)
}

fn same_inventory(a: &Inventory, b: &Inventory) -> bool {
    let mut ca = a.iter();
    let mut cb = b.iter();
    ca.sort_by_key(|c| u64::from(*c.id()));
    cb.sort_by_key(|c| u64::from(*c.id()));
    *a.id() == *b.id() && ca == cb
}

fn expect_not_found<T>(r: Result<T, InventoryError>) {
    match r {
        Ok(_) => panic!("expected a not-found error"),
        Err(e) => assert_eq!(e.status_code(), 404),
    }
}

#[test]
fn create_and_get_inventory() {
    let mut backend = LocalStoreBackend::new();
    let inv = create_inventory(&mut backend, sf(1));
    assert!(inv.is_empty());
    let loaded = get_inventory(&backend, sf(1)).unwrap();
    assert_eq!(*loaded.id(), sf(1));
    assert!(loaded.is_empty());
    assert_eq!(get_inventory(&backend, sf(2)).err(), Some(InventoryError::InventoryNotFound(sf(2))));
}

#[test]
fn add_and_get_card() {
    let mut backend = LocalStoreBackend::new();
    create_inventory(&mut backend, sf(1));
    let inv = add_to_inventory(&mut backend, sf(1), InventoryAddOptions::New(Card::new(sf(10), sf(5)))).unwrap();
    assert_eq!(inv.len(), 1);
    assert_eq!(*get_card(&backend, sf(1), sf(10)).unwrap().type_id(), sf(5));
    assert_eq!(get_card(&backend, sf(1), sf(11)).err(), Some(InventoryError::CardNotFound(sf(11), sf(1))));
    assert_eq!(get_card(&backend, sf(2), sf(10)).err(), Some(InventoryError::InventoryNotFound(sf(2))));
}

#[test]
fn adding_new_card_to_missing_inventory_still_stores_card() {
    let mut backend = LocalStoreBackend::new();
    let r = add_to_inventory(&mut backend, sf(1), InventoryAddOptions::New(Card::new(sf(10), sf(5))));
    assert_eq!(r.err(), Some(InventoryError::InventoryNotFound(sf(1))));
    assert!(backend.contains_card(sf(10)));
}

#[test]
fn adding_existing_card_to_missing_inventory_stores_nothing() {
    let mut backend = LocalStoreBackend::new();
    let r = add_to_inventory(&mut backend, sf(1), InventoryAddOptions::Existing(Card::new(sf(10), sf(5))));
    assert_eq!(r.err(), Some(InventoryError::InventoryNotFound(sf(1))));
    assert!(!backend.contains_card(sf(10)));
}

#[test]
fn delete_card_from_inventory() {
    let mut backend = LocalStoreBackend::new();
    create_inventory(&mut backend, sf(1));
    add_to_inventory(&mut backend, sf(1), InventoryAddOptions::Existing(Card::new(sf(10), sf(5)))).unwrap();
    let card = delete_card(&mut backend, sf(1), sf(10)).unwrap();
    assert_eq!(*card.id(), sf(10));
    assert!(get_inventory(&backend, sf(1)).unwrap().is_empty());
    assert_eq!(delete_card(&mut backend, sf(1), sf(10)).err(), Some(InventoryError::CardNotFound(sf(10), sf(1))));
}

#[test]
fn move_card_between_inventories() {
    let mut backend = LocalStoreBackend::new();
    create_inventory(&mut backend, sf(1));
    create_inventory(&mut backend, sf(2));
    add_to_inventory(&mut backend, sf(1), InventoryAddOptions::Existing(Card::new(sf(10), sf(5)))).unwrap();
    move_card(&mut backend, sf(1), sf(10), sf(2)).unwrap();
    assert!(get_inventory(&backend, sf(1)).unwrap().is_empty());
    assert!(get_inventory(&backend, sf(2)).unwrap().contains_key(sf(10)));
}

#[test]
fn move_card_to_missing_inventory_changes_nothing() {
    let mut backend = LocalStoreBackend::new();
    create_inventory(&mut backend, sf(1));
    add_to_inventory(&mut backend, sf(1), InventoryAddOptions::Existing(Card::new(sf(10), sf(5)))).unwrap();
    let r = move_card(&mut backend, sf(1), sf(10), sf(3));
    assert_eq!(r.err(), Some(InventoryError::InventoryNotFound(sf(3))));
    assert!(get_inventory(&backend, sf(1)).unwrap().contains_key(sf(10)));
    let r = move_card(&mut backend, sf(1), sf(11), sf(3));
    assert_eq!(r.err(), Some(InventoryError::CardNotFound(sf(11), sf(1))));
}

#[test]
fn inventory_test_get_inventory() {
    let mut backend = LocalStoreBackend::new();
    let mut g = SnowflakeGenerator::new(0, 0);
    let mut now: u64 = 1;
    let inv = Inventory::empty(next_id(&mut g, &mut now));
    backend.store_inventory(*inv.id(), &inv);
    let body = get_inventory(&backend, *inv.id()).unwrap();
    assert!(same_inventory(&body, &inv));
}

#[test]
fn inventory_test_get_inventory_not_exists() {
    let backend = LocalStoreBackend::new();
    let mut g = SnowflakeGenerator::new(0, 0);
    let mut now: u64 = 1;
    expect_not_found(get_inventory(&backend, next_id(&mut g, &mut now)));
}

#[test]
fn test_create_inventory() {
    let mut backend = LocalStoreBackend::new();
    let mut g = SnowflakeGenerator::new(0, 0);
    let mut now: u64 = 1;
    let body = create_inventory(&mut backend, next_id(&mut g, &mut now));
    let keys = backend.inventory_keys(0, 20);
    assert_eq!(keys.len(), 1);
    let stored = backend.load_inventory(keys[0]).unwrap();
    assert!(same_inventory(&body, &stored));
}

#[test]
fn inventory_test_add_new_card() {
    let mut backend = LocalStoreBackend::new();
    let mut g = SnowflakeGenerator::new(0, 0);
    let mut now: u64 = 1;
    let type_id = next_id(&mut g, &mut now);
    let inv = Inventory::empty(next_id(&mut g, &mut now));
    let inv_id = *inv.id();
    backend.store_inventory(inv_id, &inv);
    let new_card = Card::new(next_id(&mut g, &mut now), type_id);
    let body = add_to_inventory(&mut backend, inv_id, InventoryAddOptions::New(new_card)).unwrap();
    let stored_inv = backend.load_inventory(inv_id).unwrap();
    assert!(same_inventory(&body, &stored_inv));
    assert_eq!(stored_inv.len(), 1);
    let card = stored_inv.iter()[0];
    assert_eq!(*card.type_id(), type_id);
    let stored_card = backend.load_card(*card.id()).unwrap();
    assert_eq!(card, stored_card);
}

#[test]
fn inventory_test_add_existing_card() {
    let mut backend = LocalStoreBackend::new();
    let mut g = SnowflakeGenerator::new(0, 0);
    let mut now: u64 = 1;
    let card = random_card(&mut g, &mut now);
    let inv = Inventory::empty(next_id(&mut g, &mut now));
    let inv_id = *inv.id();
    backend.store_inventory(inv_id, &inv);
    let body = add_to_inventory(&mut backend, inv_id, InventoryAddOptions::Existing(card)).unwrap();
    let stored_inv = backend.load_inventory(inv_id).unwrap();
    assert!(same_inventory(&body, &stored_inv));
    assert_eq!(stored_inv.len(), 1);
    assert_eq!(stored_inv.iter()[0], card);
}

#[test]
fn inventory_test_get_card() {
    let mut backend = LocalStoreBackend::new();
    let mut g = SnowflakeGenerator::new(0, 0);
    let mut now: u64 = 1;
    let mut inv = Inventory::empty(next_id(&mut g, &mut now));
    let card = random_card(&mut g, &mut now);
    inv.insert(card);
    let inv_id = *inv.id();
    backend.store_inventory(inv_id, &inv);
    let body = get_card(&backend, inv_id, *card.id()).unwrap();
    assert_eq!(body, card);
}

#[test]
fn inventory_test_get_card_not_exists() {
    let mut backend = LocalStoreBackend::new();
    let mut g = SnowflakeGenerator::new(0, 0);
    let mut now: u64 = 1;
    let inv = Inventory::empty(next_id(&mut g, &mut now));
    let inv_id = *inv.id();
    let test_id = next_id(&mut g, &mut now);
    expect_not_found(get_card(&backend, inv_id, test_id));
    backend.store_inventory(inv_id, &inv);
    let test_id = next_id(&mut g, &mut now);
    expect_not_found(get_card(&backend, inv_id, test_id));
}

#[test]
fn inventory_test_delete_card() {
    let mut backend = LocalStoreBackend::new();
    let mut g = SnowflakeGenerator::new(0, 0);
    let mut now: u64 = 1;
    let mut inv = Inventory::empty(next_id(&mut g, &mut now));
    let card = random_card(&mut g, &mut now);
    let inv_id = *inv.id();
    inv.insert(card);
    assert_eq!(inv.len(), 1);
    backend.store_inventory(inv_id, &inv);
    let body = delete_card(&mut backend, inv_id, *card.id()).unwrap();
    assert_eq!(body, card);
    assert_eq!(backend.load_inventory(inv_id).unwrap().len(), 0);
}

#[test]
fn inventory_test_delete_card_not_exists() {
    let mut backend = LocalStoreBackend::new();
    let mut g = SnowflakeGenerator::new(0, 0);
    let mut now: u64 = 1;
    let inv = Inventory::empty(next_id(&mut g, &mut now));
    let inv_id = *inv.id();
    let test_id = next_id(&mut g, &mut now);
    expect_not_found(delete_card(&mut backend, inv_id, test_id));
    backend.store_inventory(inv_id, &inv);
    let test_id = next_id(&mut g, &mut now);
    expect_not_found(delete_card(&mut backend, inv_id, test_id));
}

#[test]
fn inventory_test_move_card() {
    let mut backend = LocalStoreBackend::new();
    let mut g = SnowflakeGenerator::new(0, 0);
    let mut now: u64 = 1;
    let card = random_card(&mut g, &mut now);
    let mut src_inv = Inventory::empty(next_id(&mut g, &mut now));
    let src_id = *src_inv.id();
    src_inv.insert(card);
    assert_eq!(src_inv.len(), 1);
    let dest_inv = Inventory::empty(next_id(&mut g, &mut now));
    let dest_id = *dest_inv.id();
    backend.store_inventory(src_id, &src_inv);
    backend.store_inventory(dest_id, &dest_inv);
    assert_eq!(move_card(&mut backend, src_id, *card.id(), dest_id), Ok(()));
    let src_inv = backend.load_inventory(src_id).unwrap();
    let dest_inv = backend.load_inventory(dest_id).unwrap();
    assert_eq!(src_inv.len(), 0);
    assert_eq!(dest_inv.len(), 1);
    assert_eq!(dest_inv.iter()[0], card);
}

#[test]
fn inventory_test_move_card_nonexistent_dest() {
    let mut backend = LocalStoreBackend::new();
    let mut g = SnowflakeGenerator::new(0, 0);
    let mut now: u64 = 1;
    let card = random_card(&mut g, &mut now);
    let mut src_inv = Inventory::empty(next_id(&mut g, &mut now));
    let src_id = *src_inv.id();
    src_inv.insert(card);
    assert_eq!(src_inv.len(), 1);
    backend.store_inventory(src_id, &src_inv);
    expect_not_found(move_card(&mut backend, src_id, *card.id(), sf(1)));
    let src_inv = backend.load_inventory(src_id).unwrap();
    assert_eq!(src_inv.len(), 1);
    assert_eq!(src_inv.iter()[0], card);
}
