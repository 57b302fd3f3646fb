use game_simulations::text::{
    decimal_text, play_line, push_decimal, push_half_inning, transition_key,
};

#[test]
fn transition_key_joins_the_two_states() {
    assert_eq!(transition_key(1, 12), "112");
    assert_eq!(transition_key(11, 2), "112");
    assert_eq!(transition_key(1, 1), "11");
    assert_eq!(transition_key(24, 25), "2425");
    assert_eq!(transition_key(3, 25), "325");
}

#[test]
fn decimal_text_has_no_leading_zeros() {
    assert_eq!(decimal_text(0), "0");
    assert_eq!(decimal_text(7), "7");
    assert_eq!(decimal_text(10), "10");
    assert_eq!(decimal_text(2019), "2019");
    assert_eq!(decimal_text(u64::MAX), "18446744073709551615");
}

#[test]
fn play_line_is_dollar_separated() {
    assert_eq!(play_line("trout", "Single", 1, 2, 0, 0), "trout$Single$1$2$0$0");
    assert_eq!(play_line("ohtani", "Home Run", 3, 1, 19, 7), "ohtani$Home Run$3$1$9.5$7");
    assert_eq!(play_line("x", "", 24, 25, 20, 123), "x$$24$25$10$123");
    assert_eq!(play_line("x", "K", 2, 25, 1, 1), "x$K$2$25$0.5$1");
}

#[test]
fn push_decimal_appends_to_what_is_there() {
    let mut text = String::from("n=");
    push_decimal(&mut text, 405);
    push_decimal(&mut text, 0);
    assert_eq!(text, "n=4050");
}

#[test]
fn half_innings_are_written_in_innings() {
    let expected = ["0", "0.5", "1", "1.5", "2", "2.5"];
    for (half_inning, inning) in expected.iter().enumerate() {
        let mut text = String::new();
        push_half_inning(&mut text, half_inning as u32);
        assert_eq!(&text, inning);
    }
    let mut text = String::from("$");
    push_half_inning(&mut text, 19);
    push_half_inning(&mut text, 20);
    push_half_inning(&mut text, 201);
    assert_eq!(text, "$9.510100.5");
}
