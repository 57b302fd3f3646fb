//! The text forms of the simulator: transition keys and play-by-play lines.

use vstd::prelude::*;
use vstd::string::*;

verus! {

/// The character of a single decimal digit.
pub open spec fn digit_char(d: nat) -> char {
    if d == 0 {
        '0'
    } else if d == 1 {
        '1'
    } else if d == 2 {
        '2'
    } else if d == 3 {
        '3'
    } else if d == 4 {
        '4'
    } else if d == 5 {
        '5'
    } else if d == 6 {
        '6'
    } else if d == 7 {
        '7'
    } else if d == 8 {
        '8'
    } else {
        '9'
    }
}

/// A number in decimal digits, without leading zeros.
pub open spec fn decimal(n: nat) -> Seq<char>
    decreases n,
{
    if n < 10 {
        seq![digit_char(n)]
    } else {
        decimal(n / 10).push(digit_char(n % 10))
    }
}

/// The key of a transition: the state before and the state after, both in
/// decimal digits, one behind the other.
pub open spec fn transition_key_spec(pre_state: nat, post_state: nat) -> Seq<char> {
    decimal(pre_state) + decimal(post_state)
}

/// A count of half-innings written in innings: the whole innings, followed by
/// `.5` where an odd half-inning is left over.
pub open spec fn half_inning_text(half_innings: nat) -> Seq<char> {
    if half_innings % 2 == 0 {
        decimal(half_innings / 2)
    } else {
        decimal(half_innings / 2) + seq!['.', '5']
    }
}

/// One play-by-play line: batter, play, state before, state after, inning
/// and game, with a dollar sign between each two.
pub open spec fn play_line_spec(
    batter: Seq<char>,
    play: Seq<char>,
    pre_state: nat,
    post_state: nat,
    half_innings: nat,
    game: nat,
) -> Seq<char> {
    batter + seq!['$'] + play + seq!['$'] + decimal(pre_state) + seq!['$'] + decimal(post_state)
        + seq!['$'] + half_inning_text(half_innings) + seq!['$'] + decimal(game)
}

/// The text of one decimal digit.
fn digit_text(d: u64) -> (s: &'static str)
    requires
        d < 10,
    ensures
        s@ == seq![digit_char(d as nat)],
{
    proof {
        reveal_strlit("0");
        reveal_strlit("1");
        reveal_strlit("2");
        reveal_strlit("3");
        reveal_strlit("4");
        reveal_strlit("5");
        reveal_strlit("6");
        reveal_strlit("7");
        reveal_strlit("8");
        reveal_strlit("9");
    }
    let s = if d == 0 {
        "0"
    } else if d == 1 {
        "1"
    } else if d == 2 {
        "2"
    } else if d == 3 {
        "3"
    } else if d == 4 {
        "4"
    } else if d == 5 {
        "5"
    } else if d == 6 {
        "6"
    } else if d == 7 {
        "7"
    } else if d == 8 {
        "8"
    } else {
        "9"
    };
    assert(s@ =~= seq![digit_char(d as nat)]);
    s
}

/// Appends a number in decimal digits to a text.
pub fn push_decimal(out: &mut String, n: u64)
    ensures
        final(out)@ == old(out)@ + decimal(n as nat),
    decreases n,
{
    if n >= 10 {
        push_decimal(out, n / 10);
    }
    out.append(digit_text(n % 10));
    assert(out@ =~= old(out)@ + decimal(n as nat));
}

/// A number in decimal digits.
pub fn decimal_text(n: u64) -> (s: String)
    ensures
        s@ == decimal(n as nat),
{
    let mut s = String::new();
    push_decimal(&mut s, n);
    assert(s@ =~= decimal(n as nat));
    s
}

/// The key under which the tables hold the transition from `pre_state` to
/// `post_state`.
pub fn transition_key(pre_state: u8, post_state: u8) -> (key: String)
    ensures
        key@ == transition_key_spec(pre_state as nat, post_state as nat),
{
    let mut key = String::new();
    push_decimal(&mut key, pre_state as u64);
    push_decimal(&mut key, post_state as u64);
    assert(key@ =~= transition_key_spec(pre_state as nat, post_state as nat));
    key
}

/// Appends a count of half-innings, written in innings, to a text.
pub fn push_half_inning(out: &mut String, half_innings: u32)
    ensures
        final(out)@ == old(out)@ + half_inning_text(half_innings as nat),
{
    push_decimal(out, (half_innings / 2) as u64);
    if half_innings % 2 == 1 {
        proof {
            reveal_strlit(".5");
        }
        out.append(".5");
        assert(".5"@ =~= seq!['.', '5']);
    }
    assert(out@ =~= old(out)@ + half_inning_text(half_innings as nat));
}

/// The play-by-play line of one plate appearance.
pub fn play_line(
    batter: &str,
    play: &str,
    pre_state: u8,
    post_state: u8,
    half_innings: u32,
    game: u32,
) -> (line: String)
    ensures
        line@ == play_line_spec(
            batter@,
            play@,
            pre_state as nat,
            post_state as nat,
            half_innings as nat,
            game as nat,
        ),
{
    proof {
        reveal_strlit("$");
    }
    assert("$"@ =~= seq!['$']);
    let mut line = String::new();
    line.append(batter);
    line.append("$");
    line.append(play);
    line.append("$");
    push_decimal(&mut line, pre_state as u64);
    line.append("$");
    push_decimal(&mut line, post_state as u64);
    line.append("$");
    push_half_inning(&mut line, half_innings);
    line.append("$");
    push_decimal(&mut line, game as u64);
    assert(line@ =~= play_line_spec(
        batter@,
        play@,
        pre_state as nat,
        post_state as nat,
        half_innings as nat,
        game as nat,
    ));
    line
}

} // verus!
