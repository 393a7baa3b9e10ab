use gatekeeper::seeding::{candidates_to_seed, keep_nonempty, parse_candidates, split_commas};

fn strings(v: &[&str]) -> Vec<String> {
    v.iter().map(|s| s.to_string()).collect()
}

#[test]
fn split_keeps_every_field() {
    assert_eq!(split_commas("a,b"), strings(&["a", "b"]));
    assert_eq!(split_commas(""), strings(&[""]));
    assert_eq!(split_commas(",x,"), strings(&["", "x", ""]));
    assert_eq!(split_commas(" a , b"), strings(&[" a ", " b"]));
}

#[test]
fn keep_nonempty_drops_blanks_in_order() {
    assert_eq!(keep_nonempty(strings(&["", "a", "", "b"])), strings(&["a", "b"]));
    assert_eq!(keep_nonempty(strings(&[" "])), strings(&[" "]));
    assert_eq!(keep_nonempty(Vec::new()), Vec::<String>::new());
}

#[test]
fn candidates_are_trimmed_and_blanks_skipped() {
    assert_eq!(
        parse_candidates(" Alice , Bob,,\tCarol \n, "),
        strings(&["Alice", "Bob", "Carol"])
    );
    assert_eq!(parse_candidates(""), Vec::<String>::new());
    assert_eq!(parse_candidates(" , ,"), Vec::<String>::new());
    assert_eq!(parse_candidates("Jean Paul"), strings(&["Jean Paul"]));
}

#[test]
fn seeding_only_an_empty_ballot() {
    assert_eq!(candidates_to_seed(0, Some("a,b")), strings(&["a", "b"]));
    assert_eq!(candidates_to_seed(3, Some("a,b")), Vec::<String>::new());
    assert_eq!(candidates_to_seed(0, None), Vec::<String>::new());
}

#[test]
fn unicode_white_space_is_trimmed() {
    assert_eq!(
        parse_candidates("\u{3000}Zoë\u{a0},\u{85}, \u{2009}Li Wei\u{202f}"),
        strings(&["Zoë", "Li Wei"])
    );
    assert_eq!(parse_candidates("\u{200b}x"), strings(&["\u{200b}x"]));
}
