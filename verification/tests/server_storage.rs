use akashi::server::card::{Card, Inventory};
use akashi::server::local_storage::LocalStoreBackend;
use akashi::Snowflake;

fn sf(v: u64) -> Snowflake {
    Snowflake::from(v)
}

fn sorted_ids(inv: &Inventory) -> Vec<u64> {
    let mut ids: Vec<u64> = inv.iter().iter().map(|c| (*c.id()).into()).collect();
    ids.sort();
    ids
}

#[test]
fn inventory_round_trip() {
    let mut backend = LocalStoreBackend::new();
    let mut inv = Inventory::empty(sf(1));
    inv.insert(Card::new(sf(10), sf(100)));
    inv.insert(Card::new(sf(11), sf(101)));
    backend.store_inventory(sf(1), &inv);

    let loaded = backend.load_inventory(sf(1)).unwrap();
    assert_eq!(*loaded.id(), sf(1));
    assert_eq!(sorted_ids(&loaded), vec![10, 11]);
    assert_eq!(*loaded.get(sf(11)).unwrap().type_id(), sf(101));
    assert!(backend.contains_card(sf(10)));
    assert_eq!(*backend.load_card(sf(10)).unwrap().type_id(), sf(100));
}

#[test]
fn missing_inventory_is_not_found() {
    let backend = LocalStoreBackend::new();
    let err = backend.load_inventory(sf(3)).err().unwrap();
    assert_eq!(err.id(), sf(3));
    assert!(!backend.contains_inventory(sf(3)));
}

#[test]
fn cards_deleted_from_table_are_skipped_on_load() {
    let mut backend = LocalStoreBackend::new();
    let mut inv = Inventory::empty(sf(1));
    inv.insert(Card::new(sf(10), sf(100)));
    inv.insert(Card::new(sf(11), sf(101)));
    backend.store_inventory(sf(1), &inv);
    backend.delete_card(sf(10));
    let loaded = backend.load_inventory(sf(1)).unwrap();
    assert_eq!(sorted_ids(&loaded), vec![11]);
}

#[test]
fn deleting_inventory_deletes_its_cards() {
    let mut backend = LocalStoreBackend::new();
    let mut inv = Inventory::empty(sf(1));
    inv.insert(Card::new(sf(10), sf(100)));
    backend.store_inventory(sf(1), &inv);
    backend.store_card(sf(20), &Card::new(sf(20), sf(200)));
    backend.delete_inventory(sf(1));
    assert!(!backend.contains_inventory(sf(1)));
    assert!(!backend.contains_card(sf(10)));
    assert!(backend.contains_card(sf(20)));
    backend.delete_inventory(sf(1));
    assert!(backend.contains_card(sf(20)));
}

#[test]
fn key_pages_cover_each_id_once() {
    let mut backend = LocalStoreBackend::new();
    for i in 0..7u64 {
        backend.store_card(sf(i), &Card::new(sf(i), sf(0)));
        backend.store_inventory(sf(100 + i), &Inventory::empty(sf(100 + i)));
    }
    let mut all: Vec<Snowflake> = Vec::new();
    for page in 0..4u64 {
        let keys = backend.card_keys(page, 2);
        assert!(keys.len() <= 2);
        all.extend(keys);
    }
    all.sort();
    assert_eq!(all, (0..7u64).map(sf).collect::<Vec<_>>());
    assert_eq!(backend.inventory_keys(0, 20).len(), 7);
    assert!(backend.inventory_keys(4, 2).is_empty());
}
