use minesweeper_lib::cli::parse_coords;
use minesweeper_lib::options::PlayingOptions;

const INVALID: &str = "Invalid coordinates, please enter in the format x,y";

#[test]
fn empty_line_means_exit() {
    assert_eq!(parse_coords(""), Err("Exit"));
}

#[test]
fn well_formed_pairs_parse_to_their_values() {
    assert_eq!(parse_coords("1,2"), Ok((1, 2)));
    assert_eq!(parse_coords("12,7"), Ok((12, 7)));
    assert_eq!(parse_coords("007,10"), Ok((7, 10)));
    assert_eq!(parse_coords("0,0"), Ok((0, 0)));
}

#[test]
fn malformed_lines_are_rejected() {
    assert_eq!(parse_coords("12"), Err(INVALID));
    assert_eq!(parse_coords(","), Err(INVALID));
    assert_eq!(parse_coords("1,"), Err(INVALID));
    assert_eq!(parse_coords(",2"), Err(INVALID));
    assert_eq!(parse_coords("1,2,3"), Err(INVALID));
    assert_eq!(parse_coords("a,2"), Err(INVALID));
    assert_eq!(parse_coords("1,2b"), Err(INVALID));
    assert_eq!(parse_coords(" 1,2"), Err(INVALID));
    assert_eq!(parse_coords("1, 2"), Err(INVALID));
}

#[test]
fn numbers_too_large_for_usize_are_rejected() {
    let line = format!("{}0,1", usize::MAX);
    assert_eq!(parse_coords(&line), Err(INVALID));
    let line = format!("1,{}0", usize::MAX);
    assert_eq!(parse_coords(&line), Err(INVALID));
    let line = format!("{},{}", usize::MAX, usize::MAX);
    assert_eq!(parse_coords(&line), Ok((usize::MAX, usize::MAX)));
}

#[test]
fn menu_order_is_reveal_flag_quit() {
    assert_eq!(PlayingOptions::Reveal.menu_index(), 0);
    assert_eq!(PlayingOptions::Flag.menu_index(), 1);
    assert_eq!(PlayingOptions::Quit.menu_index(), 2);
}
