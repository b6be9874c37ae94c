use rv_vectorize_tui::wrap::{wrap_lines, StyledText};

fn line(text: &str) -> Vec<StyledText<()>> {
    vec![StyledText {
        text: text.to_owned(),
        style: (),
    }]
}

fn rendered(rows: &[Vec<StyledText<()>>]) -> Vec<String> {
    rows.iter()
        .map(|row| row.iter().map(|piece| piece.text.as_str()).collect::<String>())
        .collect()
}

#[test]
fn wrapping_splits_long_lines_and_preserves_blank_rows() {
    let lines = vec![line("aaa bbb ccc"), line(""), line("short")];
    let wrapped = wrap_lines(&lines, 7);
    assert_eq!(rendered(&wrapped), vec!["aaa bbb", "ccc", "", "short"]);
}

#[test]
fn wrapping_hard_splits_a_word_longer_than_the_pane() {
    let lines = vec![line("abcdefghij")];
    let wrapped = wrap_lines(&lines, 4);
    assert_eq!(wrapped.len(), 3);
}

#[test]
fn zero_width_wrapping_does_not_loop_forever() {
    let lines = vec![line("anything at all")];
    assert_eq!(wrap_lines(&lines, 0).len(), 1);
}

#[test]
fn hard_split_pieces_are_exact() {
    let wrapped = wrap_lines(&vec![line("abcdefghij")], 4);
    assert_eq!(rendered(&wrapped), vec!["abcd", "efgh", "ij"]);
}

#[test]
fn every_wrapped_row_fits_the_width() {
    let lines = vec![line("the quick brown fox jumps over the lazy dog"), line("λλλλλλ λ")];
    let wrapped = wrap_lines(&lines, 5);
    for row in rendered(&wrapped) {
        assert!(row.chars().count() <= 5, "{row:?}");
    }
    assert!(wrapped.len() >= lines.len());
}

#[test]
fn styles_stay_with_their_text() {
    let lines = vec![vec![
        StyledText { text: "ab".to_owned(), style: 1u8 },
        StyledText { text: " cd".to_owned(), style: 2u8 },
    ]];
    let wrapped = wrap_lines(&lines, 3);
    let pieces: Vec<Vec<(String, u8)>> = wrapped
        .iter()
        .map(|row| row.iter().map(|p| (p.text.clone(), p.style)).collect())
        .collect();
    assert_eq!(
        pieces,
        vec![
            vec![("ab".to_owned(), 1), (" ".to_owned(), 2)],
            vec![("cd".to_owned(), 2)]
        ]
    );
}

#[test]
fn consecutive_spaces_collapse_only_at_row_ends() {
    let wrapped = wrap_lines(&vec![line("a  b")], 10);
    assert_eq!(rendered(&wrapped), vec!["a  b"]);
}

#[test]
fn zero_width_keeps_lines_untouched() {
    let lines = vec![line("a b"), line("")];
    assert_eq!(rendered(&wrap_lines(&lines, 0)), vec!["a b", ""]);
}

#[test]
fn a_line_that_fits_stays_one_row() {
    let wrapped = wrap_lines(&vec![line("abc de")], 6);
    assert_eq!(rendered(&wrapped), vec!["abc de"]);
}

#[test]
fn wrapping_keeps_every_visible_character_in_order() {
    let text = "one two  three fourteen λx";
    let wrapped = wrap_lines(&vec![line(text)], 4);
    let visible: String = rendered(&wrapped).concat().chars().filter(|c| *c != ' ').collect();
    let expected: String = text.chars().filter(|c| *c != ' ').collect();
    assert_eq!(visible, expected);
}
