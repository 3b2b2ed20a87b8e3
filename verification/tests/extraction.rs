use stout::extract::get_symbol_names;

#[test]
fn it_pulls_correct_symbol_names() {
    let message = "This is a $TEST $20.20 to $ASDFAA $asdf see if $TICKS names $N works.";
    assert_eq!(get_symbol_names(&message), ["TEST", "TICKS", "N"]);

    let message = "$TEST";
    assert_eq!(get_symbol_names(&message), ["TEST"]);

    let message = "this is a test $TEST+";
    assert_eq!(get_symbol_names(&message), ["TEST+"]);
}

#[test]
fn empty_input_yields_no_symbols() {
    assert!(get_symbol_names("").is_empty());
}

#[test]
fn text_without_mentions_yields_no_symbols() {
    assert!(get_symbol_names("no tickers here, just words").is_empty());
}

#[test]
fn lowercase_letters_never_match() {
    assert!(get_symbol_names("$asdf").is_empty());
}

#[test]
fn digits_never_match() {
    assert!(get_symbol_names("$20.20").is_empty());
}

#[test]
fn six_letter_runs_never_match() {
    assert!(get_symbol_names("$ASDFAA").is_empty());
}

#[test]
fn underscore_breaks_the_word_boundary() {
    assert!(get_symbol_names("$TEST_").is_empty());
}

#[test]
fn five_letter_symbol_at_punctuation() {
    assert_eq!(get_symbol_names("buy $MSFT."), ["MSFT"]);
}

#[test]
fn duplicates_are_kept_in_order() {
    assert_eq!(get_symbol_names("$A then $B then $A"), ["A", "B", "A"]);
}

#[test]
fn plus_followed_by_word_char_is_a_bare_boundary() {
    assert_eq!(get_symbol_names("$TEST+x"), ["TEST"]);
}

#[test]
fn a_match_consumes_its_boundary_character() {
    // the `$` right after `AB` is swallowed as the boundary, so `CD` has
    // no dollar sign of its own left to match
    assert_eq!(get_symbol_names("$AB$CD"), ["AB"]);
}

#[test]
fn non_ascii_text_around_mentions_is_fine() {
    assert_eq!(get_symbol_names("café says $BREW is up"), ["BREW"]);
}
