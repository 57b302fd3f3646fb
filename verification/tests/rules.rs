use game_simulations::rules::{away_bats, game_over, start_state};

#[test]
fn extra_innings_start_with_a_runner_on_second_after_2019() {
    for half_inning in 20..60 {
        assert_eq!(start_state(half_inning, 2021), 3);
        assert_eq!(start_state(half_inning, 2020), 3);
    }
}

#[test]
fn extra_innings_start_with_empty_bases_until_2019() {
    for half_inning in 20..60 {
        assert_eq!(start_state(half_inning, 2015), 1);
        assert_eq!(start_state(half_inning, 2019), 1);
    }
}

#[test]
fn regulation_half_innings_start_with_empty_bases() {
    for half_inning in 0..20 {
        assert_eq!(start_state(half_inning, 2021), 1);
        assert_eq!(start_state(half_inning, 2015), 1);
    }
}

#[test]
fn away_side_bats_in_even_half_innings() {
    assert!(away_bats(0));
    assert!(!away_bats(1));
    assert!(away_bats(18));
    assert!(!away_bats(19));
}

#[test]
fn home_lead_ends_the_game_past_regulation() {
    assert!(game_over(5, 4, 19, 7));
    assert!(game_over(5, 4, 19, 25));
    assert!(game_over(5, 4, 20, 2));
}

#[test]
fn away_lead_ends_the_game_only_with_the_half_inning() {
    assert!(!game_over(4, 5, 19, 7));
    assert!(game_over(4, 5, 19, 25));
    assert!(game_over(4, 5, 20, 25));
}

#[test]
fn tie_never_ends_the_game() {
    for half_inning in 0..40 {
        assert!(!game_over(3, 3, half_inning, 25));
        assert!(!game_over(3, 3, half_inning, 1));
    }
}

#[test]
fn no_game_ends_in_regulation() {
    for half_inning in 0..19 {
        assert!(!game_over(9, 0, half_inning, 25));
        assert!(!game_over(0, 9, half_inning, 25));
        assert!(!game_over(9, 0, half_inning, 4));
    }
}
