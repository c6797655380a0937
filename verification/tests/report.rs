use diceroll::dice::Dice;
use diceroll::report::{
    display_width, format_roll, render, render_rolls, sum, CRIT_MAX, CRIT_MIN, DICE,
};
use unicode_width::UnicodeWidthStr;

fn dice(count: usize, sides: usize) -> Dice {
    Dice { count, sides }
}

#[test]
fn glyphs_are_two_columns_wide() {
    assert_eq!(DICE, "\u{1F3B2}");
    assert_eq!(CRIT_MAX, "\u{1F600}");
    assert_eq!(CRIT_MIN, "\u{1F630}");
    assert_eq!(DICE.width(), 2);
    assert_eq!(CRIT_MAX.width(), 2);
    assert_eq!(CRIT_MIN.width(), 2);
}

#[test]
fn width_is_that_of_the_header() {
    // glyph, space, text
    assert_eq!(display_width(&dice(1, 1)), 6);
    assert_eq!(display_width(&dice(2, 6)), 6);
    assert_eq!(display_width(&dice(1, 20)), 7);
    assert_eq!(display_width(&dice(100, 100)), 10);
    assert_eq!(display_width(&dice(0, 0)), 6);
    assert_eq!(display_width(&dice(0, 6)), 6);
    assert_eq!(display_width(&dice(5, 0)), 6);
}

#[test]
fn width_of_the_largest_expression() {
    let d = dice(usize::MAX, usize::MAX);
    let digits = usize::MAX.to_string().len() as u128;
    assert_eq!(display_width(&d), 2 + 1 + digits + 1 + digits);
}

#[test]
fn writes_the_line_of_a_roll() {
    assert_eq!(format_roll(3, 6, 6), "     3");
    assert_eq!(format_roll(1, 6, 6), "\u{1F630}   1");
    assert_eq!(format_roll(6, 6, 6), "\u{1F600}   6");
    assert_eq!(format_roll(1, 1, 6), "\u{1F630}   1");
    assert_eq!(format_roll(20, 20, 7), "\u{1F600}   20");
    assert_eq!(format_roll(13, 20, 7), "     13");
}

#[test]
fn a_line_is_never_cut() {
    assert_eq!(format_roll(12345, 6, 3), "12345");
    assert_eq!(format_roll(1, 6, 1), "\u{1F630}1");
    assert_eq!(format_roll(6, 6, 0), "\u{1F600}6");
}

#[test]
fn adds_up_rolls() {
    assert_eq!(sum(&vec![]), 0);
    assert_eq!(sum(&vec![3, 6]), 9);
    assert_eq!(sum(&vec![1, 2, 3, 4]), 10);
    assert_eq!(sum(&vec![usize::MAX, usize::MAX, 2]), 2 * (usize::MAX as u128) + 2);
}

#[test]
fn report_of_one_die_of_one_side() {
    let lines = render_rolls(&dice(1, 1), &vec![1]);
    assert_eq!(
        lines,
        vec!["======", "\u{1F3B2} 1d1", "", "\u{1F630}   1", "------", "     1", "======"]
    );
}

#[test]
fn report_of_two_dice_of_six_sides() {
    let lines = render_rolls(&dice(2, 6), &vec![3, 6]);
    assert_eq!(
        lines,
        vec![
            "======",
            "\u{1F3B2} 2d6",
            "",
            "     3",
            "\u{1F600}   6",
            "------",
            "     9",
            "======",
        ]
    );
}

#[test]
fn reports_of_a_fixed_sequence_of_draws() {
    let tokens = ["1d1", "2d6"];
    let draws = [1usize, 3, 6];
    let mut next = 0;
    let mut reports = Vec::new();
    for token in tokens {
        let d = Dice::try_from(token).unwrap();
        let rolls = draws[next..next + d.count].to_vec();
        next += d.count;
        reports.push(render_rolls(&d, &rolls));
    }
    assert_eq!(reports[0].len(), 7);
    assert_eq!(reports[0][3], "\u{1F630}   1");
    assert_eq!(reports[0][5], "     1");
    assert_eq!(reports[1].len(), 8);
    assert_eq!(reports[1][3], "     3");
    assert_eq!(reports[1][4], "\u{1F600}   6");
    assert_eq!(reports[1][6], "     9");
}

#[test]
fn report_without_dice() {
    let lines = render_rolls(&dice(0, 6), &vec![]);
    assert_eq!(lines, vec!["======", "\u{1F3B2} 0d6", "", "------", "     0", "======"]);
    let lines = render_rolls(&dice(0, 0), &vec![]);
    assert_eq!(lines, vec!["======", "\u{1F3B2} 0d0", "", "------", "     0", "======"]);
}

#[test]
fn report_of_a_wider_expression() {
    let lines = render_rolls(&dice(3, 100), &vec![100, 1, 57]);
    assert_eq!(
        lines,
        vec![
            "========",
            "\u{1F3B2} 3d100",
            "",
            "\u{1F600}   100",
            "\u{1F630}     1",
            "      57",
            "--------",
            "     158",
            "========",
        ]
    );
}

#[test]
fn the_sum_is_that_of_the_lines() {
    let rolls = vec![4usize, 1, 6, 6, 2, 3, 5, 1];
    let lines = render_rolls(&dice(8, 6), &rolls);
    let shown: Vec<usize> = lines[3..3 + rolls.len()]
        .iter()
        .map(|line| line.trim_start_matches(|c: char| !c.is_ascii_digit()).parse().unwrap())
        .collect();
    assert_eq!(shown, rolls);
    let total: usize = lines[lines.len() - 2].trim().parse().unwrap();
    assert_eq!(total, shown.iter().sum::<usize>());
    assert_eq!(total, 28);
}

#[test]
fn every_line_fills_the_width() {
    let mut rng = rand::thread_rng();
    for (count, sides) in [(1usize, 1usize), (2, 6), (1, 20), (12, 100), (40, 2), (7, 12345)] {
        let d = dice(count, sides);
        let width = display_width(&d) as usize;
        let lines = render(&d, &mut rng);
        assert_eq!(lines.len(), count + 6);
        assert_eq!(lines[0].width(), width);
        for (i, line) in lines.iter().enumerate() {
            assert!(line.width() <= width);
            if i != 2 {
                assert_eq!(line.width(), width);
            }
        }
        assert_eq!(lines[2], "");
    }
}

#[test]
fn rendered_rolls_are_faces_and_add_up() {
    let mut rng = rand::thread_rng();
    let d = dice(30, 6);
    let lines = render(&d, &mut rng);
    let mut total = 0usize;
    for line in &lines[3..33] {
        let face: usize =
            line.trim_start_matches(|c: char| !c.is_ascii_digit()).parse().unwrap();
        assert!(1 <= face && face <= 6);
        assert_eq!(line.starts_with(CRIT_MIN), face == 1);
        assert_eq!(line.starts_with(CRIT_MAX), face == 6);
        total += face;
    }
    assert_eq!(lines[34].trim().parse::<usize>().unwrap(), total);
}

#[test]
fn rolls_beyond_the_die_are_written_as_given() {
    let lines = render_rolls(&dice(1, 6), &vec![7, 0, 1000000]);
    assert_eq!(lines.len(), 9);
    assert_eq!(lines[3], "     7");
    assert_eq!(lines[4], "     0");
    assert_eq!(lines[5], "1000000");
    assert_eq!(lines[7], "1000007");
}
