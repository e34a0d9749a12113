use one_d_six::{try_quickroll, quickroll, Dice, DiceError, Die};

#[test]
fn pool_shape() {
    let pool: Dice<u32> = Dice::new(5, 6);
    let faces = pool.current_faces();
    assert_eq!(faces.len(), 5);
    for v in faces.iter() {
        assert!(*v >= 1 && *v <= 6);
    }
}

#[test]
fn empty_pool() {
    let pool: Dice<u32> = Dice::new(0, 6);
    assert_eq!(pool.current_faces().len(), 0);
    assert_eq!(pool.total(), 0);
    assert_eq!(pool.faces_string(), "");
    assert_eq!(pool.total_string(), "0");
}

#[test]
fn total_equals_sum_of_current_faces() {
    let pool: Dice<u16> = Dice::new(7, 9);
    let mut sum: u16 = 0;
    for v in pool.current_faces() {
        sum += v;
    }
    assert_eq!(pool.total(), sum);
    assert!(pool.total() >= 7);
    assert!(pool.total() <= 63);
}

#[test]
fn concat_is_associative() {
    let a: Dice<u32> = Dice::new(2, 4);
    let b: Dice<u32> = Dice::new(3, 6);
    let c: Dice<u32> = Dice::new(1, 20);
    let (a2, b2, c2) = (a.clone(), b.clone(), c.clone());

    let left = (a + b) + c;
    let right = a2 + (b2 + c2);

    assert_eq!(left.current_faces(), right.current_faces());
    assert_eq!(left.current_faces().len(), 6);
}

#[test]
fn concat_keeps_order_and_state() {
    let a: Dice<u32> = Dice::new(2, 4);
    let b: Dice<u32> = Dice::new(1, 6);
    let before_a = a.current_faces();
    let before_b = b.current_faces();
    let combined = a + b;
    let after = combined.current_faces();
    assert_eq!(after.len(), 3);
    assert_eq!(&after[..2], &before_a[..]);
    assert_eq!(&after[2..], &before_b[..]);
}

#[test]
fn parse_roundtrip() {
    let pool: Dice<u32> = "3d6".parse().unwrap();
    assert_eq!(pool.current_faces().len(), 3);
    for die in pool.dice().iter() {
        assert_eq!(die.faces(), 6);
    }

    let pool: Dice<u32> = "1d20".parse().unwrap();
    assert_eq!(pool.current_faces().len(), 1);
    assert_eq!(pool.dice()[0].faces(), 20);
}

#[test]
fn parse_rejects_malformed_notation() {
    assert_eq!("3-6".parse::<Dice<u32>>().unwrap_err(), DiceError::MissingSeparator);
    assert_eq!("xd6".parse::<Dice<u32>>().unwrap_err(), DiceError::InvalidCount);
    assert_eq!("3dy".parse::<Dice<u32>>().unwrap_err(), DiceError::InvalidFaceValue);
}

#[test]
fn parse_error_kinds() {
    assert_eq!(Dice::<u32>::parse("").unwrap_err(), DiceError::MissingSeparator);
    assert_eq!(Dice::<u32>::parse("d6").unwrap_err(), DiceError::InvalidCount);
    assert_eq!(Dice::<u32>::parse("3d").unwrap_err(), DiceError::InvalidFaceValue);
    assert_eq!(Dice::<u32>::parse("3d0").unwrap_err(), DiceError::ZeroFaces);
    assert_eq!(Dice::<u32>::parse("1d2d3").unwrap_err(), DiceError::InvalidFaceValue);
    assert_eq!(Dice::<u8>::parse("1d300").unwrap_err(), DiceError::InvalidFaceValue);
    assert_eq!(
        Dice::<u32>::parse("99999999999999999999999999999999999999999d6").unwrap_err(),
        DiceError::InvalidCount,
    );
}

#[test]
fn parse_zero_count() {
    let pool: Dice<u32> = "0d6".parse().unwrap();
    assert_eq!(pool.current_faces().len(), 0);
    assert_eq!(pool.total(), 0);
}

#[test]
fn quickroll_coin() {
    let mut saw_one = false;
    let mut saw_two = false;
    for _ in 0..1000 {
        let flip: u8 = quickroll("1d2");
        assert!(flip == 1 || flip == 2);
        if flip == 1 {
            saw_one = true;
        } else {
            saw_two = true;
        }
    }
    assert!(saw_one);
    assert!(saw_two);
}

#[test]
fn quickroll_across_types() {
    let a: u8 = quickroll("1d2");
    assert!(a >= 1 && a <= 2);
    let b: u16 = quickroll("2d3");
    assert!(b >= 2 && b <= 6);
    let c: u32 = quickroll("3d4");
    assert!(c >= 3 && c <= 12);
    let d: u64 = quickroll("1d12");
    assert!(d >= 1 && d <= 12);
    let e: u128 = quickroll("2d20");
    assert!(e >= 2 && e <= 40);
    let f: usize = quickroll("1d6");
    assert!(f >= 1 && f <= 6);
}

#[test]
fn try_quickroll_reports_errors() {
    let roll: Result<u32, DiceError> = try_quickroll("2d6");
    let v = roll.unwrap();
    assert!(v >= 2 && v <= 12);

    let missing: Result<u32, DiceError> = try_quickroll("nonsense");
    assert_eq!(missing.unwrap_err(), DiceError::MissingSeparator);

    let zero: Result<u32, DiceError> = try_quickroll("3d0");
    assert_eq!(zero.unwrap_err(), DiceError::ZeroFaces);
}

#[test]
fn roll_all_keeps_shape() {
    let mut pool: Dice<u64> = Dice::new(4, 10);
    let before: Vec<u64> = pool.dice().iter().map(|d| d.faces()).collect();
    pool.roll_all();
    let after: Vec<u64> = pool.dice().iter().map(|d| d.faces()).collect();
    assert_eq!(before, after);
    assert_eq!(pool.current_faces().len(), 4);
    for v in pool.current_faces() {
        assert!(v >= 1 && v <= 10);
    }
}

#[test]
fn combine_scenario() {
    let set_1: Dice<u32> = Dice::new(2, 4);
    let set_2: Dice<u32> = Dice::<u32>::parse("1d20").unwrap();
    let mut combined = set_1 + set_2;

    assert_eq!(combined.current_faces().len(), 3);
    let total = combined.total();
    assert!(total >= 3 && total <= 28);

    combined.roll_all();
    assert_eq!(combined.current_faces().len(), 3);
    let total = combined.total();
    assert!(total >= 3 && total <= 28);
}

#[test]
fn renders_deterministic_pool() {
    let pool: Dice<u32> = Dice::from(vec![Die::new(1), Die::new(1), Die::new(1)]);
    assert_eq!(pool.total(), 3);
    assert_eq!(pool.total_string(), "3");
    assert_eq!(pool.faces_string(), "1 1 1");
}

#[test]
fn renders_multi_digit_total() {
    let mut dice: Vec<Die<u32>> = Vec::new();
    for _ in 0..25 {
        dice.push(Die::new(1));
    }
    let pool = Dice::from(dice);
    assert_eq!(pool.total_string(), "25");
    assert_eq!(pool.total(), 25);
}

#[test]
fn total_saturates_at_type_maximum() {
    let mut dice: Vec<Die<u8>> = Vec::new();
    for _ in 0..300 {
        dice.push(Die::new(1));
    }
    let pool = Dice::from(dice);
    assert_eq!(pool.total(), 255);
}

#[test]
fn from_mixes_face_counts() {
    let pool: Dice<u32> = Dice::from(vec![Die::new(6), Die::new(6), Die::new(4)]);
    assert_eq!(pool.current_faces().len(), 3);
    assert_eq!(pool.dice()[0].faces(), 6);
    assert_eq!(pool.dice()[2].faces(), 4);
}

#[test]
fn error_messages() {
    assert_eq!(DiceError::MissingSeparator.message(), "missing 'd' separator");
    assert_eq!(DiceError::InvalidCount.message(), "malformed count");
    assert_eq!(DiceError::InvalidFaceValue.message(), "malformed face value");
    assert_eq!(DiceError::ZeroFaces.message(), "face count must be at least 1");
}
