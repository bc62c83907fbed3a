use blamegrad::color::Rgb;
use blamegrad::render::{render, render_line};

fn some_lines(texts: &[&str]) -> Vec<Option<String>> {
    texts.iter().map(|t| Some(t.to_string())).collect()
}

fn plain_lines(texts: &[&str]) -> Vec<String> {
    texts.iter().map(|t| t.to_string()).collect()
}

#[test]
fn three_line_scenario_with_palette_zero() {
    let rev = some_lines(&["r1", "r2", "r3"]);
    let blame = some_lines(&["100 r1", "101 r2", "102 r3"]);
    let bat = plain_lines(&["line1", "line2", "line3"]);
    let out = render(&rev, &blame, &bat, 0);
    assert_eq!(out.len(), 3);
    assert_eq!(
        out[0],
        "\u{2502}\u{1b}[38;2;60;62;63m\u{1b}[48;2;140;194;184m100:r1 1\u{1b}[0m\u{2502}line1"
    );
    assert_eq!(
        out[1],
        "\u{2502}\u{1b}[38;2;60;62;63m\u{1b}[48;2;168;197;191m101:r2 2\u{1b}[0m\u{2502}line2"
    );
    assert_eq!(
        out[2],
        "\u{2502}\u{1b}[38;2;60;62;63m\u{1b}[48;2;197;200;198m102:r3 3\u{1b}[0m\u{2502}line3"
    );
}

#[test]
fn unknown_hash_gets_raw_end_color() {
    let rev = some_lines(&["r1", "r2", "r3"]);
    let blame = some_lines(&["200 nothere"]);
    let bat = plain_lines(&["text"]);
    let out = render(&rev, &blame, &bat, 0);
    assert_eq!(out.len(), 1);
    // Palette 0's raw end color is 0xc5c8c6 = 197;200;198.
    assert_eq!(
        out[0],
        "\u{2502}\u{1b}[38;2;60;62;63m\u{1b}[48;2;197;200;198m200:nothere 1\u{1b}[0m\u{2502}text"
    );
}

#[test]
fn badge_without_change_number_has_no_colon() {
    let rev = some_lines(&["deadbeef"]);
    let blame = some_lines(&["deadbeef"]);
    let bat = plain_lines(&["text"]);
    let out = render(&rev, &blame, &bat, 0);
    assert_eq!(out.len(), 1);
    assert_eq!(
        out[0],
        "\u{2502}\u{1b}[38;2;60;62;63m\u{1b}[48;2;197;200;198mdeadbeef 1\u{1b}[0m\u{2502}text"
    );
}

#[test]
fn single_revision_uses_end_color() {
    // One revision: the gradient's single color equals the end color.
    let rev = some_lines(&["r1"]);
    let blame = some_lines(&["5 r1"]);
    let bat = plain_lines(&["only"]);
    let out = render(&rev, &blame, &bat, 0);
    assert_eq!(
        out[0],
        "\u{2502}\u{1b}[38;2;60;62;63m\u{1b}[48;2;197;200;198m5:r1 1\u{1b}[0m\u{2502}only"
    );
}

#[test]
fn pass_stops_where_the_listing_ends() {
    let rev = some_lines(&["r1", "r2", "r3"]);
    let blame = some_lines(&["100 r1", "101 r2", "102 r3"]);
    let bat = plain_lines(&["line1"]);
    let out = render(&rev, &blame, &bat, 0);
    assert_eq!(out.len(), 1);
}

#[test]
fn undecodable_blame_line_keeps_alignment() {
    let rev = some_lines(&["r1", "r2", "r3"]);
    let blame = vec![Some("100 r1".to_string()), None, Some("102 r3".to_string())];
    let bat = plain_lines(&["line1", "line2", "line3"]);
    let out = render(&rev, &blame, &bat, 0);
    // The skipped line produces no output, but line numbers and listing
    // lines keep their positions.
    assert_eq!(out.len(), 2);
    assert!(out[0].contains("100:r1 1"));
    assert!(out[0].ends_with("line1"));
    assert!(out[1].contains("102:r3 3"));
    assert!(out[1].ends_with("line3"));
}

#[test]
fn empty_revision_list_falls_back_to_end_color() {
    let rev: Vec<Option<String>> = Vec::new();
    let blame = some_lines(&["100 r1"]);
    let bat = plain_lines(&["text"]);
    let out = render(&rev, &blame, &bat, 0);
    assert_eq!(out.len(), 1);
    assert!(out[0].contains("\u{1b}[48;2;197;200;198m"));
}

#[test]
fn wide_listing_pads_line_numbers() {
    let rev = some_lines(&["r1"]);
    let texts: Vec<String> = (0..10).map(|i| format!("t{}", i)).collect();
    let bat: Vec<String> = texts.clone();
    let blame: Vec<Option<String>> = (0..10).map(|_| Some("1 r1".to_string())).collect();
    let out = render(&rev, &blame, &bat, 0);
    assert_eq!(out.len(), 10);
    // Ten listing lines: numbers are right-justified to width 2.
    assert!(out[0].contains("1:r1  1\u{1b}[0m"));
    assert!(out[9].contains("1:r1 10\u{1b}[0m"));
}

#[test]
fn identical_inputs_render_identically() {
    let rev = some_lines(&["r1", "r2"]);
    let blame = some_lines(&["a r1", "b r2"]);
    let bat = plain_lines(&["x", "y"]);
    let first = render(&rev, &blame, &bat, 4);
    let second = render(&rev, &blame, &bat, 4);
    assert_eq!(first, second);
}

#[test]
fn render_line_composes_the_escape_sequences() {
    let fore = Rgb { r: 1, g: 2, b: 3 };
    let back = Rgb { r: 4, g: 5, b: 6 };
    let s = render_line(&fore, &back, "12", "abc", 7, 3, "body");
    assert_eq!(
        s,
        "\u{2502}\u{1b}[38;2;1;2;3m\u{1b}[48;2;4;5;6m12:abc   7\u{1b}[0m\u{2502}body"
    );
}

#[test]
fn nonzero_palette_changes_the_gradient_start() {
    // Palette 5 starts at 0xd54e53; with two revisions the first color is
    // the halfway blend (213+197)/2=205, (78+200)/2=139, (83+198)/2=140.
    let rev = some_lines(&["r1", "r2"]);
    let blame = some_lines(&["1 r1", "2 r2"]);
    let bat = plain_lines(&["a", "b"]);
    let out = render(&rev, &blame, &bat, 5);
    assert!(out[0].contains("\u{1b}[48;2;205;139;140m"));
    assert!(out[1].contains("\u{1b}[48;2;197;200;198m"));
}
