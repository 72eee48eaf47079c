use celestial_overlay::clock::due;

#[test]
fn due_asks_for_more_than_the_interval() {
    assert!(!due(0, 10, 10));
    assert!(due(0, 11, 10));
    assert!(!due(5, 5, 0));
    assert!(due(5, 6, 0));
    assert!(!due(7, 3, 0));
    assert!(!due(u128::MAX, 0, 0));
    assert!(due(0, u128::MAX, u128::MAX - 1));
    assert!(!due(0, u128::MAX, u128::MAX));
}
