use blamegrad::args::parse_args;

fn argv(items: &[&str]) -> Vec<String> {
    items.iter().map(|s| s.to_string()).collect()
}

#[test]
fn three_paths_after_invocation_name() {
    let config = parse_args(&argv(&["prog", "rev.txt", "blame.txt", "list.txt"])).unwrap();
    assert_eq!(config.revlist_path, "rev.txt");
    assert_eq!(config.blame_path, "blame.txt");
    assert_eq!(config.listing_path, "list.txt");
    assert_eq!(config.palette_idx, 0);
}

#[test]
fn palette_flag_selects_index() {
    let config = parse_args(&argv(&["prog", "-g", "3", "a", "b", "c"])).unwrap();
    assert_eq!(config.palette_idx, 3);
    let config = parse_args(&argv(&["prog", "a", "b", "c", "--g", "6"])).unwrap();
    assert_eq!(config.palette_idx, 6);
}

#[test]
fn out_of_range_palette_index_falls_back_to_zero() {
    let config = parse_args(&argv(&["prog", "a", "b", "c", "-g", "99"])).unwrap();
    assert_eq!(config.palette_idx, 0);
    let config = parse_args(&argv(&["prog", "a", "b", "c", "-g", "7"])).unwrap();
    assert_eq!(config.palette_idx, 0);
}

#[test]
fn unparseable_palette_index_keeps_previous_value() {
    let config = parse_args(&argv(&["prog", "-g", "2", "a", "b", "c", "-g", "oops"])).unwrap();
    assert_eq!(config.palette_idx, 2);
}

#[test]
fn missing_paths_yield_nothing() {
    assert!(parse_args(&argv(&[])).is_none());
    assert!(parse_args(&argv(&["prog"])).is_none());
    assert!(parse_args(&argv(&["prog", "rev.txt"])).is_none());
    assert!(parse_args(&argv(&["prog", "rev.txt", "blame.txt"])).is_none());
}

#[test]
fn flag_token_is_not_a_path() {
    // "-g 1" consumes two tokens, so only two paths remain.
    assert!(parse_args(&argv(&["prog", "-g", "1", "rev.txt", "blame.txt"])).is_none());
}
