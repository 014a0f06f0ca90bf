use akashi::resources::Resource;

#[test]
fn resources_test_checked_set() {
    let mut rsc = Resource::new(50, Some(0), Some(100));

    // Sets within the stored bounds should be OK.
    assert!(rsc.checked_set(25.into()).is_ok());
    assert_eq!(rsc.val(), 25);

    // Sets outside the bounds should error.
    assert!(rsc.checked_set((-20).into()).is_err());
    assert!(rsc.checked_set(111.into()).is_err());
    assert_eq!(rsc.val(), 25);
}

#[test]
fn resources_test_capped_set() {
    let mut rsc = Resource::new(50, Some(0), Some(100));

    // Sets within the stored bounds work as usual.
    rsc.capped_set(25.into());
    assert_eq!(rsc.val(), 25);

    // Sets outside the bounds cap at the min and max values,
    // respectively.
    rsc.capped_set((-20).into());
    assert_eq!(rsc.val(), 0);

    rsc.capped_set(111.into());
    assert_eq!(rsc.val(), 100);
}

#[test]
fn resources_test_checked_add() {
    let mut rsc = Resource::new(50, Some(0), Some(100));

    // Adds within the stored upper bound should be OK.
    assert!(rsc.checked_add(25.into()).is_ok());
    assert_eq!(rsc.val(), 75);

    // Adds that would go past the bound should error.
    assert!(rsc.checked_add(50.into()).is_err());
    assert_eq!(rsc.val(), 75);
}

#[test]
fn resources_test_capped_add() {
    let mut rsc = Resource::new(50, Some(0), Some(100));

    // Adds within the stored bound act normally.
    rsc.capped_add(25.into());
    assert_eq!(rsc.val(), 75);

    // Adds that would go beyond cap at the max value.
    rsc.capped_add(50.into());
    assert_eq!(rsc.val(), 100);
}

#[test]
fn resources_test_checked_sub() {
    let mut rsc = Resource::new(33, Some(0), Some(100));

    // Subtractions within the stored lower bound are OK.
    assert!(rsc.checked_sub(22.into()).is_ok());
    assert_eq!(rsc.val(), 11);

    // Subtractions outside the lower bound error.
    assert!(rsc.checked_sub(22.into()).is_err());
    assert_eq!(rsc.val(), 11)
}

#[test]
fn resources_test_capped_sub() {
    let mut rsc = Resource::new(33, Some(0), Some(100));

    // Subtractions within the lower bound act normally.
    rsc.capped_sub(22.into());
    assert_eq!(rsc.val(), 11);

    // Subtractions beyond the lower bound are capped at the lower value.
    rsc.capped_sub(22.into());
    assert_eq!(rsc.val(), 0);
}

#[test]
fn resources_test_soft_set_min() {
    let mut rsc = Resource::new(-10, None, None);

    // Attempting to set the min-cap to be higher than the current value errors.
    assert!(rsc.soft_set_min(Some(0)).is_err());
    assert_eq!(rsc.val(), -10);

    // Setting a min-cap less than or equal to the current value is OK.
    assert!(rsc.soft_set_min(Some(-20)).is_ok());
    assert_eq!(rsc.val(), -10);

    // Test to make sure the cap actually got applied.
    assert!(rsc.checked_sub(20.into()).is_err());
    assert_eq!(rsc.val(), -10);

    // Passing None disables the min-cap, and should always work.
    assert!(rsc.soft_set_min(None).is_ok());
    assert!(rsc.checked_sub(20.into()).is_ok());
    assert_eq!(rsc.val(), -30);
}

#[test]
fn resources_test_soft_set_max() {
    let mut rsc = Resource::new(30, None, None);

    // Attempting to set a max-cap lower than the current value errors.
    assert!(rsc.soft_set_max(Some(20)).is_err());
    assert_eq!(rsc.val(), 30);

    // Setting a max-cap greater than or equal to the current value is OK.
    assert!(rsc.soft_set_max(Some(40)).is_ok());
    assert_eq!(rsc.val(), 30);

    // Test to make sure the max-cap works properly.
    assert!(rsc.checked_add(20.into()).is_err());
    assert_eq!(rsc.val(), 30);

    // Passing None disables the max-cap. Again, this always works.
    assert!(rsc.soft_set_max(None).is_ok());
    assert!(rsc.checked_add(20.into()).is_ok());
    assert_eq!(rsc.val(), 50);
}

#[test]
fn resources_test_hard_set_min() {
    let mut rsc = Resource::new(-10, None, None);

    // Setting a min-cap less than or equal to the current value doesn't affect the value.
    rsc.hard_set_min(Some(-20));
    assert_eq!(rsc.val(), -10);
    assert!(rsc.checked_sub(20.into()).is_err());

    // Setting a min-cap greater than the current value, though, sets the value to the new min-cap.
    rsc.hard_set_min(Some(0));
    assert_eq!(rsc.val(), 0);
    assert!(rsc.checked_sub(1.into()).is_err());

    // As expected, passing None disables the min-cap without otherwise affecting the value.
    rsc.hard_set_min(None);
    assert!(rsc.checked_sub(10.into()).is_ok());
    assert_eq!(rsc.val(), -10);
}

#[test]
fn resources_test_hard_set_max() {
    let mut rsc = Resource::new(30, None, None);

    // Setting a max-cap greater than or equal to the current value doesn't affect the value.
    rsc.hard_set_max(Some(40));
    assert_eq!(rsc.val(), 30);
    assert!(rsc.checked_add(20.into()).is_err());

    // Setting a max-cap less than the current value sets the value to the new max-cap.
    rsc.hard_set_max(Some(0));
    assert_eq!(rsc.val(), 0);
    assert!(rsc.checked_add(1.into()).is_err());

    // Again, passing None disables the max-cap without touching the current value.
    rsc.hard_set_max(None);
    assert!(rsc.checked_add(20.into()).is_ok());
    assert_eq!(rsc.val(), 20);
}
