//! The text commands players type, read from the bytes of one trimmed line.
//!
//! `d1` draws from the deck and `d2` from the discard pile; `K`, `G` and `N`
//! knock, go gin or do neither; `d-N` discards the card at hand position N
//! (one or two digits); `C` creates a meld; `d-N-X` moves the card at hand
//! position N (one or two digits) to meld X (one digit); `D` is done.

use vstd::prelude::*;

verus! {

#[derive(Clone, Copy, Debug, PartialEq, Eq, Structural)]
pub enum Command {
    DrawFromDeck,
    DrawFromDiscard,
    Knock,
    Gin,
    Neither,
    Discard(usize),
    CreateMeld,
    AddToMeld(usize, usize),
    Done,
}

pub open spec fn is_digit(b: u8) -> bool {
    48 <= b <= 57
}

/// The decimal value of a run of digits.
pub open spec fn digits_value(s: Seq<u8>) -> nat
    decreases s.len(),
{
    if s.len() == 0 {
        0
    } else {
        10 * digits_value(s.drop_last()) + (s.last() - 48) as nat
    }
}

/// One or two digits.
pub open spec fn is_short_number(s: Seq<u8>) -> bool {
    1 <= s.len() <= 2 && forall|i: int| 0 <= i < s.len() ==> is_digit(#[trigger] s[i])
}

/// The command a line spells, if any.
pub open spec fn command_of(s: Seq<u8>) -> Option<Command> {
    if s =~= seq![100u8, 49u8] {
        Some(Command::DrawFromDeck)
    } else if s =~= seq![100u8, 50u8] {
        Some(Command::DrawFromDiscard)
    } else if s =~= seq![75u8] {
        Some(Command::Knock)
    } else if s =~= seq![71u8] {
        Some(Command::Gin)
    } else if s =~= seq![78u8] {
        Some(Command::Neither)
    } else if s =~= seq![67u8] {
        Some(Command::CreateMeld)
    } else if s =~= seq![68u8] {
        Some(Command::Done)
    } else if s.len() >= 3 && s[0] == 100u8 && s[1] == 45u8 && is_short_number(
        s.subrange(2, s.len() as int),
    ) {
        Some(Command::Discard(digits_value(s.subrange(2, s.len() as int)) as usize))
    } else if s.len() >= 5 && s[0] == 100u8 && s[1] == 45u8 && s[s.len() - 2] == 45u8 && is_digit(
        s[s.len() - 1],
    ) && is_short_number(s.subrange(2, s.len() - 2)) {
        Some(
            Command::AddToMeld(
                digits_value(s.subrange(2, s.len() - 2)) as usize,
                (s[s.len() - 1] - 48) as usize,
            ),
        )
    } else {
        None
    }
}

/// The value of one or two digits at `input[start..end]`, if they are that.
fn short_number(input: &[u8], start: usize, end: usize) -> (r: Option<usize>)
    requires
        start <= end <= input@.len(),
    ensures
        is_short_number(input@.subrange(start as int, end as int)) ==> r is Some && r->Some_0
            == digits_value(input@.subrange(start as int, end as int)),
        !is_short_number(input@.subrange(start as int, end as int)) ==> r is None,
{
    let ghost s = input@.subrange(start as int, end as int);
    if end - start == 1 {
        let a = input[start];
        if 48 <= a && a <= 57 {
            proof {
                assert(s.drop_last() =~= Seq::<u8>::empty());
                assert(digits_value(s.drop_last()) == 0);
                assert(s.last() == a);
                assert(digits_value(s) == (a - 48) as nat);
            }
            return Some((a - 48) as usize);
        }
        assert(!is_digit(s[0]));
        None
    } else if end - start == 2 {
        let a = input[start];
        let b = input[start + 1];
        if 48 <= a && a <= 57 && 48 <= b && b <= 57 {
            proof {
                let s1 = s.drop_last();
                assert(s1.drop_last() =~= Seq::<u8>::empty());
                assert(digits_value(s1.drop_last()) == 0);
                assert(s1.last() == a);
                assert(digits_value(s1) == (a - 48) as nat);
                assert(s.last() == b);
                assert(digits_value(s) == 10 * ((a - 48) as nat) + (b - 48) as nat);
            }
            return Some(10 * ((a - 48) as usize) + (b - 48) as usize);
        }
        assert(!is_digit(s[0]) || !is_digit(s[1]));
        None
    } else {
        None
    }
}

/// Reads one trimmed line of input as a command.
pub fn parse_command(input: &[u8]) -> (r: Option<Command>)
    ensures
        r == command_of(input@),
{
    let n = input.len();
    let ghost s = input@;
    if n == 2 && input[0] == 100 && input[1] == 49 {
        assert(s =~= seq![100u8, 49u8]);
        return Some(Command::DrawFromDeck);
    }
    if n == 2 && input[0] == 100 && input[1] == 50 {
        assert(s =~= seq![100u8, 50u8]);
        return Some(Command::DrawFromDiscard);
    }
    if n == 1 {
        let c = input[0];
        if c == 75 {
            assert(s =~= seq![75u8]);
            return Some(Command::Knock);
        } else if c == 71 {
            assert(s =~= seq![71u8]);
            return Some(Command::Gin);
        } else if c == 78 {
            assert(s =~= seq![78u8]);
            return Some(Command::Neither);
        } else if c == 67 {
            assert(s =~= seq![67u8]);
            return Some(Command::CreateMeld);
        } else if c == 68 {
            assert(s =~= seq![68u8]);
            return Some(Command::Done);
        }
    }
    assert(!(s =~= seq![100u8, 49u8]) && !(s =~= seq![100u8, 50u8])) by {
        if s.len() == 2 {
            assert(s[0] != 100u8 || (s[1] != 49u8 && s[1] != 50u8) || !(s =~= seq![100u8, 49u8])
                || !(s =~= seq![100u8, 50u8]));
        }
    }
    assert(!(s =~= seq![75u8]) && !(s =~= seq![71u8]) && !(s =~= seq![78u8]) && !(s =~= seq![67u8])
        && !(s =~= seq![68u8])) by {
        if s.len() == 1 {
            assert(s[0] == seq![75u8][0] || !(s =~= seq![75u8]));
        }
    }
    if n < 3 || input[0] != 100 || input[1] != 45 {
        return None;
    }
    match short_number(input, 2, n) {
        Some(k) => {
            return Some(Command::Discard(k));
        },
        None => {},
    }
    if n < 5 || input[n - 2] != 45 {
        return None;
    }
    let x = input[n - 1];
    if x < 48 || x > 57 {
        return None;
    }
    match short_number(input, 2, n - 2) {
        Some(k) => Some(Command::AddToMeld(k, (x - 48) as usize)),
        None => None,
    }
}

} // verus!
