use akashi::components::resource::{InvalidAddition, InvalidSet, InvalidSoftCapAdjustment, InvalidSubtraction};
use akashi::Resource;

#[test]
fn checked_set_examples() {
    let mut rsc = Resource::new(0, Some(0), Some(100));
    assert!(rsc.checked_set(50.into()).is_ok());
    assert_eq!(rsc.val(), 50);
    assert!(rsc.checked_set(150.into()).is_err());
    assert_eq!(rsc.val(), 50);
}

#[test]
fn checked_set_error_carries_value_and_caps() {
    let mut rsc = Resource::new(10, Some(0), Some(100));
    match rsc.checked_set((-5).into()) {
        Err(InvalidSet(v, lo, hi)) => {
            assert_eq!(v, -5);
            assert_eq!(lo, Some(0));
            assert_eq!(hi, Some(100));
        }
        Ok(()) => panic!("expected an error"),
    }
}

#[test]
fn capped_set_examples() {
    let mut rsc = Resource::new(50, Some(0), Some(100));
    rsc.capped_set((-50).into());
    assert_eq!(rsc.val(), 0);
    rsc.capped_set(150.into());
    assert_eq!(rsc.val(), 100);
}

#[test]
fn capped_set_with_crossed_caps_applies_upper_cap_last() {
    let mut rsc = Resource::new(5, Some(10), Some(3));
    rsc.capped_set(7.into());
    assert_eq!(rsc.val(), 3);
}

#[test]
fn checked_add_examples() {
    let mut rsc = Resource::new(0, Some(0), Some(100));
    assert!(rsc.checked_add(50.into()).is_ok());
    assert_eq!(rsc.val(), 50);
    match rsc.checked_add(75.into()) {
        Err(InvalidAddition(amount, before, cap)) => {
            assert_eq!((amount, before, cap), (75, 50, 100));
        }
        Ok(()) => panic!("expected an error"),
    }
    assert_eq!(rsc.val(), 50);
}

#[test]
fn checked_add_and_sub_respect_both_caps() {
    let mut rsc = Resource::new(5, Some(0), None);
    match rsc.checked_add((-10).into()) {
        Err(e) => assert_eq!((e.0, e.1, e.2), (-10, 5, 0)),
        Ok(()) => panic!("expected an error"),
    }
    assert_eq!(rsc.val(), 5);
    let mut rsc = Resource::new(50, Some(0), Some(100));
    match rsc.checked_sub((-100).into()) {
        Err(e) => assert_eq!((e.0, e.1, e.2), (-100, 50, 100)),
        Ok(()) => panic!("expected an error"),
    }
    assert_eq!(rsc.val(), 50);
}

#[test]
fn capped_add_example() {
    let mut rsc = Resource::new(50, Some(0), Some(100));
    rsc.capped_add(100.into());
    assert_eq!(rsc.val(), 100);
}

#[test]
fn checked_sub_examples() {
    let mut rsc = Resource::new(100, Some(0), Some(100));
    assert!(rsc.checked_sub(50.into()).is_ok());
    assert_eq!(rsc.val(), 50);
    match rsc.checked_sub(75.into()) {
        Err(InvalidSubtraction(amount, before, cap)) => {
            assert_eq!((amount, before, cap), (75, 50, 0));
        }
        Ok(()) => panic!("expected an error"),
    }
    assert_eq!(rsc.val(), 50);
}

#[test]
fn capped_sub_example() {
    let mut rsc = Resource::new(50, Some(0), Some(100));
    rsc.capped_sub(100.into());
    assert_eq!(rsc.val(), 0);
}

#[test]
fn soft_cap_examples() {
    let mut rsc = Resource::new(500, None, None);
    assert!(rsc.soft_set_min(Some(0)).is_ok());
    match rsc.soft_set_min(Some(1000)) {
        Err(InvalidSoftCapAdjustment(v, cap)) => assert_eq!((v, cap), (500, 1000)),
        Ok(()) => panic!("expected an error"),
    }
    assert_eq!(rsc.min(), Some(0));

    let mut rsc = Resource::new(500, None, None);
    assert!(rsc.soft_set_max(Some(1000)).is_ok());
    assert!(rsc.soft_set_max(Some(250)).is_err());
    assert_eq!(rsc.max(), Some(1000));
}

#[test]
fn hard_cap_examples() {
    let mut rsc = Resource::new(500, None, None);
    rsc.hard_set_min(Some(0));
    assert_eq!(rsc.val(), 500);
    rsc.hard_set_min(Some(1000));
    assert_eq!(rsc.val(), 1000);
    assert_eq!(rsc.min(), Some(1000));

    let mut rsc = Resource::new(500, None, None);
    rsc.hard_set_max(Some(1000));
    assert_eq!(rsc.val(), 500);
    rsc.hard_set_max(Some(250));
    assert_eq!(rsc.val(), 250);
    assert_eq!(rsc.max(), Some(250));
}

#[test]
fn add_then_sub_restores_value() {
    let mut rsc = Resource::new(40, Some(0), Some(100));
    assert!(rsc.checked_add(35.into()).is_ok());
    assert!(rsc.checked_sub(35.into()).is_ok());
    assert_eq!(rsc.val(), 40);
    assert_eq!(rsc.min(), Some(0));
    assert_eq!(rsc.max(), Some(100));
}

#[test]
fn sub_then_add_restores_value() {
    let mut rsc = Resource::new(40, Some(0), Some(100));
    assert!(rsc.checked_sub(15.into()).is_ok());
    assert!(rsc.checked_add(15.into()).is_ok());
    assert_eq!(rsc.val(), 40);
}

#[test]
fn capped_matches_checked_when_accepted() {
    let mut a = Resource::new(20, Some(0), Some(100));
    let mut b = Resource::new(20, Some(0), Some(100));
    assert!(a.checked_add(30.into()).is_ok());
    b.capped_add(30.into());
    assert_eq!(a.val(), b.val());
}

#[test]
fn removing_caps_keeps_value() {
    let mut rsc = Resource::new(7, Some(5), Some(9));
    assert!(rsc.soft_set_min(None).is_ok());
    assert!(rsc.soft_set_max(None).is_ok());
    assert_eq!(rsc.val(), 7);
    assert_eq!(rsc.min(), None);
    assert_eq!(rsc.max(), None);
}

#[test]
fn conversions_round_trip() {
    let rsc: Resource = 42.into();
    assert_eq!(rsc.val(), 42);
    assert_eq!(rsc.min(), None);
    assert_eq!(rsc.max(), None);
    let v: i64 = rsc.into();
    assert_eq!(v, 42);
}
