use ros_kernel::boot::harts_to_wake;

#[test]
fn wakes_every_other_hart_with_its_bit() {
    assert_eq!(harts_to_wake(4), vec![(1, 2), (2, 4), (3, 8)]);
}

#[test]
fn single_hart_wakes_nobody() {
    assert_eq!(harts_to_wake(1), Vec::<(usize, usize)>::new());
    assert_eq!(harts_to_wake(0), Vec::<(usize, usize)>::new());
}

#[test]
fn highest_hart_gets_the_top_bit() {
    let all = harts_to_wake(64);
    assert_eq!(all.len(), 63);
    assert_eq!(all[62], (63, 1usize << 63));
}
