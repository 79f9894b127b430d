use labyrinth::rng::SeededRng;

#[test]
fn same_seed_same_numbers() {
    let mut a = SeededRng::with_seed(42);
    let mut b = SeededRng::with_seed(42);
    for _ in 0..100 {
        assert_eq!(a.i32(1, 31), b.i32(1, 31));
    }
    assert_eq!(a.get_seed(), b.get_seed());
}

#[test]
fn numbers_lie_in_the_range() {
    let mut rng = SeededRng::with_seed(7);
    for _ in 0..1000 {
        let v = rng.i32(-3, 4);
        assert!((-3..4).contains(&v));
    }
    for _ in 0..100 {
        assert_eq!(rng.i32(5, 6), 5);
    }
}

#[test]
fn numbers_are_those_of_the_generator_behind() {
    let mut ours = SeededRng::with_seed(0x4d595df4d0f33173);
    let theirs = fastrand::Rng::with_seed(0x4d595df4d0f33173);
    for _ in 0..200 {
        assert_eq!(ours.i32(1, 31), theirs.i32(1..31));
        assert_eq!(ours.i32(-1000, 1000), theirs.i32(-1000..1000));
    }
    assert_eq!(ours.get_seed(), theirs.get_seed());
}

#[test]
fn a_draw_moves_the_generator_on() {
    let mut rng = SeededRng::with_seed(1);
    let before = rng.get_seed();
    let first = rng.i32(0, 1_000_000);
    assert_ne!(rng.get_seed(), before);
    let mut seen_other = false;
    for _ in 0..20 {
        if rng.i32(0, 1_000_000) != first {
            seen_other = true;
        }
    }
    assert!(seen_other);
}

#[test]
fn a_generator_goes_on_from_its_state() {
    let mut a = SeededRng::with_seed(99);
    a.i32(0, 10);
    a.i32(0, 10);
    let mut b = SeededRng::with_seed(a.get_seed());
    for _ in 0..50 {
        assert_eq!(a.i32(0, 1000), b.i32(0, 1000));
    }
}

#[test]
fn different_seeds_give_different_numbers() {
    let mut a = SeededRng::with_seed(1);
    let mut b = SeededRng::with_seed(2);
    let xs: Vec<i32> = (0..20).map(|_| a.i32(0, 1_000_000)).collect();
    let ys: Vec<i32> = (0..20).map(|_| b.i32(0, 1_000_000)).collect();
    assert_ne!(xs, ys);
}
