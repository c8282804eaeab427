use rupervise::interpreter::{SelRange, get_commands, get_digit, get_range, resolve};

#[test]
fn one_number() {
    assert_eq!(1, get_commands("1")[0].lo);
}

#[test]
fn two_numbers() {
    assert_eq!(1, get_commands("1 2")[0].lo);
    assert_eq!(2, get_commands("1 2")[1].lo);
}

#[test]
fn range_on_empty_str_returns_nones() {
    let (bottom, top) = get_range("");
    assert_eq!(None, bottom);
    assert_eq!(None, top);
}

#[test]
fn range_same_number() {
    let (bottom, top) = get_range("1-1");
    assert_eq!(Some(1), bottom);
    assert_eq!(Some(1), top);
}

#[test]
fn range_second_number_nan() {
    let (bottom, top) = get_range("1-e");
    assert_eq!(None, bottom);
    assert_eq!(None, top);
}

#[test]
fn range_open_ended() {
    let (bottom, top) = get_range("1-");
    assert_eq!(Some(1), bottom);
    assert_eq!(None, top);
}

#[test]
fn range_actual_range() {
    let (bottom, top) = get_range("3-15");
    assert_eq!(Some(3), bottom);
    assert_eq!(Some(15), top);
}

#[test]
fn single_digit() {
    let digit = get_digit("1");
    assert_eq!(Some(1), digit);
}

#[test]
fn parse_empty_selects_nothing() {
    assert!(get_commands("").is_empty());
    assert!(get_commands(" \t, ,").is_empty());
}

#[test]
fn parse_singleton() {
    assert_eq!(vec![SelRange { lo: 1, hi: Some(1) }], get_commands("1"));
}

#[test]
fn parse_open_range() {
    assert_eq!(vec![SelRange { lo: 1, hi: None }], get_commands("1-"));
}

#[test]
fn parse_closed_range() {
    assert_eq!(vec![SelRange { lo: 3, hi: Some(15) }], get_commands("3-15"));
}

#[test]
fn parse_drops_malformed_token() {
    assert!(get_commands("1-e").is_empty());
    assert_eq!(vec![SelRange { lo: 4, hi: Some(4) }], get_commands("1-e 4"));
}

#[test]
fn parse_drops_overflowing_numbers() {
    assert!(get_commands("99999999999").is_empty());
    assert_eq!(Vec::<SelRange>::new(), get_commands("1-99999999999"));
}

#[test]
fn parse_mixed_list_resolves() {
    let expr = get_commands("1,3-5 7");
    assert_eq!(vec![1, 3, 4, 5, 7], resolve(&expr, 8));
}

#[test]
fn resolve_clips_to_registry() {
    let expr = get_commands("3-15");
    assert_eq!(vec![3, 4], resolve(&expr, 5));
    let expr = get_commands("9");
    assert!(resolve(&expr, 5).is_empty());
}

#[test]
fn resolve_empty_range_matches_nothing() {
    let expr = get_commands("5-3");
    assert!(resolve(&expr, 10).is_empty());
}

#[test]
fn open_bound_follows_registry_growth() {
    let expr = get_commands("1-");
    assert_eq!(vec![1, 2], resolve(&expr, 3));
    assert_eq!(vec![1, 2, 3, 4], resolve(&expr, 5));
}

#[test]
fn get_digit_rejects_junk() {
    assert_eq!(None, get_digit(""));
    assert_eq!(None, get_digit("12a"));
    assert_eq!(None, get_digit("4294967296"));
    assert_eq!(Some(4294967295), get_digit("4294967295"));
    assert_eq!(Some(15), get_digit("15"));
}
