//! The texts of the heads-up display: time left, hit points and experience to
//! the next level.
use vstd::prelude::*;
use vstd::string::*;

verus! {

/// The decimal digit `d` (below ten) as a character.
pub open spec fn digit_char(d: nat) -> char {
    if d == 0 {
        '0'
    } else if d == 1 {
        '1'
    } else if d == 2 {
        '2'
    } else if d == 3 {
        '3'
    } else if d == 4 {
        '4'
    } else if d == 5 {
        '5'
    } else if d == 6 {
        '6'
    } else if d == 7 {
        '7'
    } else if d == 8 {
        '8'
    } else {
        '9'
    }
}

/// `n` written in decimal, without leading zeros ("0" for zero).
pub open spec fn decimal(n: nat) -> Seq<char>
    decreases n,
{
    if n < 10 {
        seq![digit_char(n)]
    } else {
        decimal(n / 10).push(digit_char(n % 10))
    }
}

/// The value of a decimal digit character (zero for any other character).
pub open spec fn digit_value(c: char) -> nat {
    if c == '1' {
        1
    } else if c == '2' {
        2
    } else if c == '3' {
        3
    } else if c == '4' {
        4
    } else if c == '5' {
        5
    } else if c == '6' {
        6
    } else if c == '7' {
        7
    } else if c == '8' {
        8
    } else if c == '9' {
        9
    } else {
        0
    }
}

/// The number that a string of decimal digits reads as.
pub open spec fn read_decimal(s: Seq<char>) -> nat
    decreases s.len(),
{
    if s.len() == 0 {
        0
    } else {
        read_decimal(s.drop_last()) * 10 + digit_value(s.last())
    }
}

/// The counters shown on the HUD read back as the numbers they were made from,
/// so different numbers always show as different texts.
pub proof fn lemma_decimal_reads_back(n: nat)
    ensures
        read_decimal(decimal(n)) == n,
    decreases n,
{
    if n < 10 {
        let s = seq![digit_char(n)];
        assert(s.drop_last() =~= Seq::<char>::empty());
        assert(read_decimal(s.drop_last()) == 0);
        assert(read_decimal(s) == digit_value(digit_char(n)));
    } else {
        lemma_decimal_reads_back(n / 10);
        let s = decimal(n);
        assert(s.drop_last() =~= decimal(n / 10));
        vstd::arithmetic::div_mod::lemma_fundamental_div_mod(n as int, 10);
        vstd::arithmetic::div_mod::lemma_mod_pos_bound(n as int, 10);
        let d: nat = n % 10;
        assert(s.last() == digit_char(d));
        assert(digit_value(digit_char(d)) == d);
        assert(read_decimal(s) == read_decimal(decimal(n / 10)) * 10 + d);
        assert(10 * (n / 10) == (n / 10) * 10) by (nonlinear_arith);
    }
}

/// The number that a string of characters '0' to '9' reads as, digit by digit
/// from the character codes.
pub open spec fn code_value(s: Seq<char>) -> int
    decreases s.len(),
{
    if s.len() == 0 {
        0
    } else {
        code_value(s.drop_last()) * 10 + ((s.last() as int) - 48)
    }
}

proof fn lemma_digit_char_code(d: nat)
    requires
        d < 10,
    ensures
        digit_char(d) as int == 48 + d,
{
}

/// A number is written as plain decimal: at least one character, every
/// character one of '0' to '9', no leading '0' except for zero itself, one
/// character below ten, and the digits read back, by their character codes, as
/// the number.
pub proof fn lemma_decimal_is_plain_digits(n: nat)
    ensures
        decimal(n).len() >= 1,
        forall|i: int| 0 <= i < decimal(n).len() ==> 48 <= (#[trigger] decimal(n)[i]) as int <= 57,
        n > 0 ==> decimal(n)[0] as int != 48,
        n < 10 ==> decimal(n).len() == 1,
        code_value(decimal(n)) == n,
    decreases n,
{
    if n < 10 {
        lemma_digit_char_code(n);
        let s = decimal(n);
        assert(s == seq![digit_char(n)]);
        assert(s.drop_last() =~= Seq::<char>::empty());
        assert(code_value(s.drop_last()) == 0);
    } else {
        lemma_decimal_is_plain_digits(n / 10);
        vstd::arithmetic::div_mod::lemma_fundamental_div_mod(n as int, 10);
        vstd::arithmetic::div_mod::lemma_mod_pos_bound(n as int, 10);
        let d: nat = n % 10;
        lemma_digit_char_code(d);
        let p = decimal(n / 10);
        let s = decimal(n);
        assert(s == p.push(digit_char(d)));
        assert(s.drop_last() =~= p);
        assert(s[0] == p[0]);
        assert forall|i: int| 0 <= i < s.len() implies 48 <= (#[trigger] s[i]) as int <= 57 by {
            if i < p.len() {
                assert(s[i] == p[i]);
            }
        }
        assert(code_value(s) == code_value(p) * 10 + d);
        assert(10 * (n / 10) == (n / 10) * 10) by (nonlinear_arith);
        assert(n / 10 > 0);
    }
}

fn digit_str(d: u32) -> (s: &'static str)
    requires
        d < 10,
    ensures
        s@ == seq![digit_char(d as nat)],
{
    proof {
        reveal_strlit("0");
        reveal_strlit("1");
        reveal_strlit("2");
        reveal_strlit("3");
        reveal_strlit("4");
        reveal_strlit("5");
        reveal_strlit("6");
        reveal_strlit("7");
        reveal_strlit("8");
        reveal_strlit("9");
    }
    if d == 0 {
        "0"
    } else if d == 1 {
        "1"
    } else if d == 2 {
        "2"
    } else if d == 3 {
        "3"
    } else if d == 4 {
        "4"
    } else if d == 5 {
        "5"
    } else if d == 6 {
        "6"
    } else if d == 7 {
        "7"
    } else if d == 8 {
        "8"
    } else {
        "9"
    }
}

/// Appends `n` in decimal to `text`.
fn push_decimal(text: &mut String, n: u32)
    ensures
        final(text)@ == old(text)@ + decimal(n as nat),
    decreases n,
{
    if n >= 10 {
        push_decimal(text, n / 10);
    }
    text.append(digit_str(n % 10));
    proof {
        if n >= 10 {
            assert(old(text)@ + decimal(n as nat) =~= old(text)@ + decimal((n / 10) as nat) + seq![
                digit_char((n % 10) as nat),
            ]);
        } else {
            assert(decimal(n as nat) == seq![digit_char(n as nat)]);
        }
    }
}

/// `n` in decimal, as a string.
pub fn decimal_string(n: u32) -> (s: String)
    ensures
        s@ == decimal(n as nat),
{
    let mut s = String::new();
    push_decimal(&mut s, n);
    assert(s@ =~= decimal(n as nat));
    s
}

/// The experience widget: "Next Lvl: " and the experience still needed.
pub fn xp_text(xp_to_level: u32) -> (s: String)
    ensures
        s@ == "Next Lvl: "@ + decimal(xp_to_level as nat),
{
    let mut s = String::new();
    s.append("Next Lvl: ");
    push_decimal(&mut s, xp_to_level);
    assert(s@ =~= "Next Lvl: "@ + decimal(xp_to_level as nat));
    s
}

/// The health widget: "HP: " and the hit points left.
pub fn hp_text(hp: u8) -> (s: String)
    ensures
        s@ == "HP: "@ + decimal(hp as nat),
{
    let mut s = String::new();
    s.append("HP: ");
    push_decimal(&mut s, hp as u32);
    assert(s@ =~= "HP: "@ + decimal(hp as nat));
    s
}

/// The countdown widget: while time is left, the whole seconds left; once it
/// has run out, "OH SHIT!".
pub fn timer_text(time_left: bool, whole_seconds_left: u32) -> (s: String)
    ensures
        time_left ==> s@ == decimal(whole_seconds_left as nat),
        !time_left ==> s@ == "OH SHIT!"@,
{
    if time_left {
        decimal_string(whole_seconds_left)
    } else {
        let mut s = String::new();
        s.append("OH SHIT!");
        assert(s@ =~= "OH SHIT!"@);
        s
    }
}

} // verus!
