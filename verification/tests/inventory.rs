use akashi::components::{AttachedCardType, CardText, Inventory};
use akashi::ecs::component_store::{CardTypeLayer, ComponentBackend, InventoryBackendWrapper, LocalComponentStorage};
use akashi::snowflake::{GenerateStep, SnowflakeGenerator};
use akashi::Snowflake;

fn next_id(g: &mut SnowflakeGenerator, now: &mut u64) -> Snowflake {
    loop {
        match g.generate_at(*now) {
            GenerateStep::Ready(id) => return id,
            GenerateStep::Wait(_) => *now += 1,
        }
    }
}

fn sf(v: u64) -> Snowflake {
    Snowflake::from(v)
}

#[test]
fn inventory_test_inv() {
    let mut inv = Inventory::empty();
    assert_eq!(inv.len(), 0);
    assert!(inv.is_empty());
    assert!(inv.insert(sf(3)));
    assert!(!inv.insert(sf(3)));
    assert!(inv.contains(sf(3)));
    assert_eq!(inv.len(), 1);
    assert!(inv.remove(sf(3)));
    assert!(!inv.remove(sf(3)));
    assert!(!inv.contains(sf(3)));
    assert!(inv.is_empty());
}

#[test]
fn inventory_from_and_into_ids() {
    let ids = vec![sf(9), sf(2), sf(9), sf(4)];
    let inv: Inventory = ids.into();
    assert_eq!(inv.len(), 3);
    let mut back: Vec<Snowflake> = inv.into();
    back.sort();
    assert_eq!(back, vec![sf(2), sf(4), sf(9)]);
}

#[test]
fn inventory_default_is_empty() {
    let inv = Inventory::default();
    assert!(inv.is_empty());
    assert!(inv.iter_ids().is_empty());
}

#[test]
fn card_text_parts() {
    let t = CardText::new("Title".to_owned(), "Sub".to_owned(), "Desc".to_owned());
    assert_eq!(t.title(), "Title");
    assert_eq!(t.subtitle(), "Sub");
    assert_eq!(t.description(), "Desc");
}

#[test]
fn attached_card_type_conversions() {
    let t = AttachedCardType::new(sf(77));
    assert_eq!(t.type_id(), sf(77));
    let back: Snowflake = t.into();
    assert_eq!(back, sf(77));
    let again: AttachedCardType = sf(78).into();
    assert_eq!(again.type_id(), sf(78));
}

#[test]
fn test_inv_wrapper() {
    let mut g = SnowflakeGenerator::new(0, 0);
    let mut now: u64 = 1;
    let mut backend = InventoryBackendWrapper::new(LocalComponentStorage::<Vec<Snowflake>>::new());
    let mut ids: Vec<Snowflake> = (0..5).map(|_| next_id(&mut g, &mut now)).collect();
    ids.sort_unstable();
    let player_id = next_id(&mut g, &mut now);
    backend.store(player_id, ids.clone().into());
    let inv: Inventory = backend.load(player_id).unwrap();
    let mut loaded_ids: Vec<Snowflake> = inv.into();
    loaded_ids.sort_unstable();
    assert_eq!(ids, loaded_ids);
}

#[test]
fn test_store_type() {
    let mut g = SnowflakeGenerator::new(0, 0);
    let mut now: u64 = 1;
    let mut layer = CardTypeLayer::new(LocalComponentStorage::<Snowflake>::new());
    let type_id = next_id(&mut g, &mut now);
    let card_id = next_id(&mut g, &mut now);
    layer.store(card_id, AttachedCardType::new(type_id));
    let attached_type: AttachedCardType = layer.load(card_id).unwrap();
    assert_eq!(attached_type.type_id(), type_id);
    assert!(layer.contains(card_id));
    layer.delete(card_id);
    assert!(layer.load(card_id).is_none());
}

#[test]
fn component_adapters_keep_values() {
    let mut layer = CardTypeLayer::new(LocalComponentStorage::<Snowflake>::new());
    layer.store(sf(1), AttachedCardType::new(sf(7)));
    layer.store(sf(2), AttachedCardType::new(sf(8)));
    layer.store(sf(1), AttachedCardType::new(sf(9)));
    assert_eq!(layer.load(sf(1)).unwrap().type_id(), sf(9));
    assert_eq!(layer.load(sf(2)).unwrap().type_id(), sf(8));
    layer.delete(sf(1));
    assert!(layer.load(sf(1)).is_none());
    assert_eq!(layer.load(sf(2)).unwrap().type_id(), sf(8));
}
