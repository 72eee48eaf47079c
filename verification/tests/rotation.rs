use celestial_overlay::rotation::{step_back, step_forward, wrapped};

#[test]
fn step_forward_goes_round_the_pool() {
    assert_eq!(step_forward(0, 1, 5), 1);
    assert_eq!(step_forward(4, 1, 5), 0);
    assert_eq!(step_forward(3, 4, 5), 2);
    assert_eq!(step_forward(2, 0, 5), 2);
    assert_eq!(step_forward(2, 5, 5), 2);
    assert_eq!(step_forward(2, 13, 5), 0);
    assert_eq!(step_forward(0, 7, 1), 0);
}

#[test]
fn step_forward_takes_the_largest_numbers() {
    assert_eq!(step_forward(usize::MAX - 1, usize::MAX, usize::MAX), usize::MAX - 1);
    assert_eq!(step_forward(usize::MAX - 1, usize::MAX - 1, usize::MAX), usize::MAX - 2);
}

#[test]
fn step_back_goes_round_the_pool() {
    assert_eq!(step_back(3, 5), 2);
    assert_eq!(step_back(0, 5), 4);
    assert_eq!(step_back(0, 1), 0);
}

#[test]
fn steps_take_an_index_from_outside_the_pool_round_it() {
    assert_eq!(step_forward(7, 1, 5), 3);
    assert_eq!(step_forward(usize::MAX, 1, 10), 6);
    assert_eq!(step_back(7, 5), 1);
    assert_eq!(step_back(5, 5), 4);
}

#[test]
fn wrapped_is_the_remainder() {
    assert_eq!(wrapped(7, 5), 2);
    assert_eq!(wrapped(4, 5), 4);
    assert_eq!(wrapped(5, 5), 0);
}
