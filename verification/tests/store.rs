use akashi::local_storage::LocalEntityStorage;
use akashi::snowflake::{GenerateStep, SnowflakeGenerator};
use akashi::store::Store;
use akashi::{Snowflake, StoreBackend};

#[derive(Clone, Debug)]
struct MockStoredData {
    id: Snowflake,
    field_a: String,
    field_b: u64,
}

impl MockStoredData {
    fn new(id: Snowflake, field_a: String, field_b: u64) -> MockStoredData {
        MockStoredData { id, field_a, field_b }
    }

    fn id(&self) -> &Snowflake {
        &self.id
    }
}

type MockStore = Store<MockStoredData, LocalEntityStorage<MockStoredData>>;

fn next_id(g: &mut SnowflakeGenerator, now: &mut u64) -> Snowflake {
    loop {
        match g.generate_at(*now) {
            GenerateStep::Ready(id) => return id,
            GenerateStep::Wait(_) => *now += 1,
        }
    }
}

#[test]
fn store_test_exists() {
    let mut g = SnowflakeGenerator::new(0, 0);
    let mut now: u64 = 1;
    let mut backend = LocalEntityStorage::new();
    let data = MockStoredData::new(next_id(&mut g, &mut now), "foo".to_owned(), 1);
    backend.store(*data.id(), &data);
    let store = MockStore::new(backend);
    let id2 = next_id(&mut g, &mut now);
    assert!(store.contains(*data.id()));
    assert!(!store.contains(id2));
}

#[test]
fn store_test_load_nonexistent() {
    let mut g = SnowflakeGenerator::new(0, 0);
    let mut now: u64 = 1;
    let store = MockStore::new(LocalEntityStorage::new());
    let handle = store.load(next_id(&mut g, &mut now));
    assert!(!handle.has_object());
}

#[test]
fn store_test_load() {
    let mut g = SnowflakeGenerator::new(0, 0);
    let mut now: u64 = 1;
    let mut backend = LocalEntityStorage::new();
    let data = MockStoredData::new(next_id(&mut g, &mut now), "foo".to_owned(), 1);
    backend.store(*data.id(), &data);
    let store = MockStore::new(backend);
    let handle = store.load(*data.id());
    assert!(handle.has_object());
    let data_copy = handle.get().unwrap();
    assert_eq!(*data.id(), *data_copy.id());
    assert_eq!(data.field_a, data_copy.field_a);
    assert_eq!(data.field_b, data_copy.field_b);
}

#[test]
fn test_multiple_single_thread_access() {
    let mut g = SnowflakeGenerator::new(0, 0);
    let mut now: u64 = 1;
    let mut backend = LocalEntityStorage::new();
    let id = next_id(&mut g, &mut now);
    let data = MockStoredData::new(id, "foo".to_owned(), 1);
    backend.store(id, &data);
    let store = MockStore::new(backend);
    let handle_1 = store.load(id);
    let data_1 = handle_1.get().unwrap();
    let handle_2 = store.load(id);
    let data_2 = handle_2.get().unwrap();
    assert_eq!(data_1.id, data_2.id);
    assert_eq!(data_1.field_a, data_2.field_a);
    assert_eq!(data_1.field_b, data_2.field_b);
    assert_eq!(data_1.id, data.id);
    assert_eq!(data_1.field_a, data.field_a);
    assert_eq!(data_1.field_b, data.field_b);
}

#[test]
fn store_test_store() {
    let mut g = SnowflakeGenerator::new(0, 0);
    let mut now: u64 = 1;
    let id = next_id(&mut g, &mut now);
    let data = MockStoredData::new(id, "foo".to_owned(), 1);
    let mut store = MockStore::new(LocalEntityStorage::new());
    {
        let mut handle = store.load(*data.id());
        assert!(!handle.has_object());
        handle.replace(data.clone());
        store.store_handle(&handle);
    }
    let handle = store.load(*data.id());
    let data_copy = handle.get().unwrap();
    assert_eq!(*data_copy.id(), id);
    assert_eq!(data.field_a, data_copy.field_a);
    assert_eq!(data.field_b, data_copy.field_b);
}

#[test]
fn store_and_delete_through_the_store() {
    let mut store = MockStore::new(LocalEntityStorage::new());
    let id = Snowflake::from(7u64);
    store.store(id, MockStoredData::new(id, "bar".to_owned(), 2));
    assert!(store.contains(id));
    assert_eq!(store.keys(0, 20), vec![id]);
    assert_eq!(store.load(id).get().unwrap().field_b, 2);
    store.delete(id);
    assert!(!store.contains(id));
    assert!(!store.load(id).has_object());
}
