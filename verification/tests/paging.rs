use akashi::paging::{insert_sorted, page_window};

#[test]
fn insert_sorted_keeps_order() {
    let mut v: Vec<u64> = vec![2, 5, 9];
    insert_sorted(&mut v, 7);
    insert_sorted(&mut v, 1);
    insert_sorted(&mut v, 10);
    assert_eq!(v, vec![1, 2, 5, 7, 9, 10]);
}

#[test]
fn pages_split_a_listing() {
    let v: Vec<u64> = vec![10, 20, 30, 40, 50, 60, 70];
    assert_eq!(page_window(&v, 0, 3), vec![10, 20, 30]);
    assert_eq!(page_window(&v, 1, 3), vec![40, 50, 60]);
    assert_eq!(page_window(&v, 2, 3), vec![70]);
    assert_eq!(page_window(&v, 3, 3), Vec::<u64>::new());
    assert_eq!(page_window(&v, 0, 0), Vec::<u64>::new());
}

#[test]
fn every_entry_sits_on_its_page() {
    let v: Vec<u64> = (0..23u64).map(|x| x * 3 + 1).collect();
    let limit: u64 = 4;
    for (i, x) in v.iter().enumerate() {
        let i = i as u64;
        let page = page_window(&v, i / limit, limit);
        assert_eq!(page[(i % limit) as usize], *x);
    }
}
