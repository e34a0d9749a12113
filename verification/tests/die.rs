use one_d_six::Die;

#[test]
fn current_face() {
    let coin: Die<u128> = Die::new(2);

    for _ in 0..100 {
        assert!(coin.current_face() >= 1);
        assert!(coin.current_face() <= 2);
    }
}

#[test]
fn roll() {
    let mut d12: Die<u64> = Die::new(12);

    for _ in 0..100 {
        d12.roll();
        assert!(d12.current_face() >= 1);
        assert!(d12.current_face() <= 12);
    }
}

#[test]
fn add_die() {
    for _ in 0..100 {
        let penny: Die<u8> = Die::new(2);
        let quarter: Die<u8> = Die::new(2);

        let sum = penny + quarter;

        assert!(sum >= 2);
        assert!(sum <= 4);
    }
}

#[test]
fn die_faces_across_types() {
    for _ in 0..100 {
        let mut a: Die<u16> = Die::new(3);
        let r = a.roll();
        assert!(r >= 1 && r <= 3);

        let mut b: Die<u32> = Die::new(7);
        let r = b.roll();
        assert!(r >= 1 && r <= 7);

        let mut c: Die<usize> = Die::new(5);
        let r = c.roll();
        assert!(r >= 1 && r <= 5);
    }
}

#[test]
fn die_keeps_its_face_count() {
    let mut d20: Die<u32> = Die::new(20);
    for _ in 0..50 {
        d20.roll();
        assert_eq!(d20.faces(), 20);
    }
}

#[test]
fn coin_shows_both_faces() {
    let mut coin: Die<u32> = Die::new(2);
    let mut saw_one = false;
    let mut saw_two = false;
    for _ in 0..200 {
        match coin.roll() {
            1 => saw_one = true,
            2 => saw_two = true,
            _ => unreachable!(),
        }
    }
    assert!(saw_one);
    assert!(saw_two);
}

#[test]
fn one_faced_die_always_shows_one() {
    let mut die: Die<u32> = Die::new(1);
    assert_eq!(die.current_face(), 1);
    for _ in 0..20 {
        assert_eq!(die.roll(), 1);
    }
}
