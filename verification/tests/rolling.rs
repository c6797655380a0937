use diceroll::dice::Dice;
use diceroll::roll::{classify, is_rollable, roll, Outcome};

#[test]
fn rolls_one_face_for_each_die() {
    let mut rng = rand::thread_rng();
    for (count, sides) in [(0usize, 6usize), (1, 1), (1, 20), (3, 6), (50, 2), (200, 100)] {
        let d = Dice { count, sides };
        let rolls = roll(&d, &mut rng);
        assert_eq!(rolls.len(), count);
        for face in rolls {
            assert!(1 <= face && face <= sides);
        }
    }
}

#[test]
fn a_die_of_one_side_rolls_one() {
    let mut rng = rand::thread_rng();
    let rolls = roll(&Dice { count: 25, sides: 1 }, &mut rng);
    assert_eq!(rolls, vec![1; 25]);
}

#[test]
fn a_die_shows_more_than_one_face() {
    let mut rng = rand::thread_rng();
    let rolls = roll(&Dice { count: 2000, sides: 6 }, &mut rng);
    for face in 1..=6 {
        assert!(rolls.contains(&face));
    }
}

#[test]
fn no_dice_need_no_sides() {
    let mut rng = rand::thread_rng();
    assert_eq!(roll(&Dice { count: 0, sides: 0 }, &mut rng), Vec::<usize>::new());
}

#[test]
fn tells_what_can_be_rolled() {
    assert!(is_rollable(&Dice { count: 2, sides: 6 }));
    assert!(is_rollable(&Dice { count: 0, sides: 6 }));
    assert!(is_rollable(&Dice { count: 0, sides: 0 }));
    assert!(is_rollable(&Dice { count: 1, sides: 1 }));
    assert!(!is_rollable(&Dice { count: 1, sides: 0 }));
    assert!(!is_rollable(&Dice { count: 5, sides: 0 }));
}

#[test]
fn classifies_rolls() {
    assert_eq!(classify(1, 6), Outcome::CriticalMin);
    assert_eq!(classify(6, 6), Outcome::CriticalMax);
    assert_eq!(classify(2, 6), Outcome::Ordinary);
    assert_eq!(classify(5, 6), Outcome::Ordinary);
    assert_eq!(classify(20, 20), Outcome::CriticalMax);
    assert_eq!(classify(1, 20), Outcome::CriticalMin);
}

#[test]
fn one_side_is_always_the_minimum() {
    assert_eq!(classify(1, 1), Outcome::CriticalMin);
}

#[test]
fn every_face_has_one_kind() {
    for sides in 1..=12usize {
        for value in 1..=sides {
            let outcome = classify(value, sides);
            assert_eq!(outcome == Outcome::CriticalMin, value == 1);
            assert_eq!(outcome == Outcome::CriticalMax, value == sides && sides > 1);
        }
    }
}
