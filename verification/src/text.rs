//! The text the app shows: numbers in decimal, timestamps cut to the second, lists
//! joined with a separator, and the messages built from them.

use vstd::prelude::*;
use vstd::utf8::{decode_utf8, encode_utf8, encode_utf8_decode_utf8, is_char_boundary};

use crate::types::ResticError;

verus! {

/// The character of the decimal digit `d`.
pub open spec fn digit_char(d: nat) -> char {
    if d == 0 {
        '0'
    } else if d == 1 {
        '1'
    } else if d == 2 {
        '2'
    } else if d == 3 {
        '3'
    } else if d == 4 {
        '4'
    } else if d == 5 {
        '5'
    } else if d == 6 {
        '6'
    } else if d == 7 {
        '7'
    } else if d == 8 {
        '8'
    } else {
        '9'
    }
}

/// `n` written in decimal, without leading zeros.
pub open spec fn decimal(n: nat) -> Seq<char>
    decreases n,
{
    if n < 10 {
        seq![digit_char(n)]
    } else {
        decimal(n / 10).push(digit_char(n % 10))
    }
}

/// `n` written in decimal, with a leading `-` when negative.
pub open spec fn signed_decimal(n: int) -> Seq<char> {
    if n < 0 {
        seq!['-'] + decimal((-n) as nat)
    } else {
        decimal(n as nat)
    }
}

/// The text of one decimal digit.
fn digit_text(d: u64) -> (text: &'static str)
    requires
        d < 10,
    ensures
        text@ == seq![digit_char(d as nat)],
{
    proof {
        reveal_strlit("0");
        reveal_strlit("1");
        reveal_strlit("2");
        reveal_strlit("3");
        reveal_strlit("4");
        reveal_strlit("5");
        reveal_strlit("6");
        reveal_strlit("7");
        reveal_strlit("8");
        reveal_strlit("9");
    }
    if d == 0 {
        "0"
    } else if d == 1 {
        "1"
    } else if d == 2 {
        "2"
    } else if d == 3 {
        "3"
    } else if d == 4 {
        "4"
    } else if d == 5 {
        "5"
    } else if d == 6 {
        "6"
    } else if d == 7 {
        "7"
    } else if d == 8 {
        "8"
    } else {
        "9"
    }
}

/// `n` written in decimal.
pub fn decimal_text(n: u64) -> (text: String)
    ensures
        text@ == decimal(n as nat),
    decreases n,
{
    if n < 10 {
        digit_text(n).to_owned()
    } else {
        let mut text = decimal_text(n / 10);
        text.append(digit_text(n % 10));
        text
    }
}

/// `n` written in decimal, with a leading `-` when negative.
pub fn signed_decimal_text(n: i32) -> (text: String)
    ensures
        text@ == signed_decimal(n as int),
{
    if n < 0 {
        let magnitude: u64 = (0i64 - n as i64) as u64;
        let mut text = String::from_str("-");
        proof {
            reveal_strlit("-");
        }
        text.append(decimal_text(magnitude).as_str());
        text
    } else {
        decimal_text(n as u64)
    }
}

/// The start of a restic timestamp down to the second: its first 19 bytes
/// (`2026-01-01T00:00:00`) when they end on a character boundary, otherwise the
/// whole text.
pub open spec fn spec_leading_timestamp(text: Seq<char>) -> Seq<char> {
    if is_char_boundary(encode_utf8(text), 19) {
        decode_utf8(encode_utf8(text).subrange(0, 19))
    } else {
        text
    }
}

/// The start of a restic timestamp down to the second (see
/// [`spec_leading_timestamp`]).
pub fn leading_timestamp(text: &str) -> (start: String)
    ensures
        start@ == spec_leading_timestamp(text@),
{
    if text.is_char_boundary(19) {
        let (head, _) = text.split_at(19);
        proof {
            encode_utf8_decode_utf8(head@);
        }
        head.to_owned()
    } else {
        text.to_owned()
    }
}

/// The parts, with `separator` between each two of them.
pub open spec fn joined(parts: Seq<Seq<char>>, separator: Seq<char>) -> Seq<char>
    decreases parts.len(),
{
    if parts.len() == 0 {
        Seq::empty()
    } else if parts.len() == 1 {
        parts[0]
    } else {
        joined(parts.drop_last(), separator) + separator + parts.last()
    }
}

/// The parts, with `separator` between each two of them.
pub fn join_with(parts: &Vec<String>, separator: &str) -> (text: String)
    ensures
        text@ == joined(parts@.map_values(|p: String| p@), separator@),
{
    let ghost views = parts@.map_values(|p: String| p@);
    let mut text = String::new();
    let mut i: usize = 0;
    while i < parts.len()
        invariant
            i <= parts@.len(),
            views == parts@.map_values(|p: String| p@),
            text@ == joined(views.take(i as int), separator@),
        decreases parts@.len() - i,
    {
        assert(views.take(i + 1).drop_last() =~= views.take(i as int));
        if i > 0 {
            text.append(separator);
        }
        text.append(parts[i].as_str());
        proof {
            if i == 0 {
                assert(text@ =~= views.take(1)[0]);
            } else {
                assert(text@ =~= joined(views.take(i as int), separator@) + separator@ + views.take(
                    i + 1,
                ).last());
            }
        }
        i = i + 1;
    }
    assert(views.take(i as int) =~= views);
    text
}

/// How `code` is written in a message: `Some(n)` or `None`.
pub open spec fn spec_exit_code_text(code: Option<i32>) -> Seq<char> {
    match code {
        Some(n) => "Some("@ + signed_decimal(n as int) + ")"@,
        None => "None"@,
    }
}

/// What a failed restic call is reported as.
pub open spec fn spec_error_message(error: ResticError) -> Seq<char> {
    match error {
        ResticError::Spawn(why) => "failed to spawn restic: "@ + why@,
        ResticError::NonZeroExit { code, stderr } => "restic exited with "@ + spec_exit_code_text(
            code,
        ) + ": "@ + stderr@,
        ResticError::Parse(why) => "failed to parse restic output: "@ + why@,
        ResticError::Cancelled => "restore was cancelled"@,
    }
}

impl ResticError {
    /// What this failure is reported as.
    pub fn message(&self) -> (text: String)
        ensures
            text@ == spec_error_message(*self),
    {
        match self {
            ResticError::Spawn(why) => {
                let mut text = String::from_str("failed to spawn restic: ");
                text.append(why.as_str());
                text
            },
            ResticError::NonZeroExit { code, stderr } => {
                let mut text = String::from_str("restic exited with ");
                match code {
                    Some(n) => {
                        text.append("Some(");
                        text.append(signed_decimal_text(*n).as_str());
                        text.append(")");
                    },
                    None => {
                        text.append("None");
                    },
                }
                text.append(": ");
                text.append(stderr.as_str());
                text
            },
            ResticError::Parse(why) => {
                let mut text = String::from_str("failed to parse restic output: ");
                text.append(why.as_str());
                text
            },
            ResticError::Cancelled => String::from_str("restore was cancelled"),
        }
    }
}

/// The number the decimal digits `s` stand for.
pub open spec fn digits_value(s: Seq<char>) -> int
    decreases s.len(),
{
    if s.len() == 0 {
        0
    } else {
        digits_value(s.drop_last()) * 10 + (s.last() as int - '0' as int)
    }
}

/// A digit character stands for its digit.
proof fn lemma_digit_char_value(d: nat)
    requires
        d < 10,
    ensures
        '0' <= digit_char(d) <= '9',
        digit_char(d) as int - '0' as int == d,
{
}

/// Every number is written with decimal digits only, without a leading zero unless it
/// is zero itself, and those digits read back as the number.
pub proof fn lemma_decimal_reads_back(n: nat)
    ensures
        decimal(n).len() >= 1,
        forall|i: int| 0 <= i < decimal(n).len() ==> '0' <= #[trigger] decimal(n)[i] <= '9',
        n >= 10 ==> decimal(n)[0] != '0',
        digits_value(decimal(n)) == n,
    decreases n,
{
    if n < 10 {
        lemma_digit_char_value(n);
        assert(decimal(n).drop_last() =~= Seq::<char>::empty());
        assert(digits_value(decimal(n)) == digits_value(Seq::<char>::empty()) * 10 + (digit_char(n)
            as int - '0' as int));
    } else {
        lemma_decimal_reads_back(n / 10);
        lemma_digit_char_value(n % 10);
        let s = decimal(n);
        assert(s.drop_last() =~= decimal(n / 10));
        assert(s[0] == decimal(n / 10)[0]);
        if n / 10 < 10 {
            assert(decimal(n / 10) == seq![digit_char(n / 10)]);
            lemma_digit_char_value(n / 10);
        }
        assert(s.last() == digit_char(n % 10));
        assert(digits_value(s) == digits_value(decimal(n / 10)) * 10 + (n % 10) as int);
        assert(n == (n / 10) * 10 + n % 10);
    }
}

/// The message of a failed call ends with what the failure says: the reason restic
/// could not be started or read, or what restic wrote to its standard error.
pub proof fn lemma_error_message_ends_with_the_reason(error: ResticError)
    ensures
        error matches ResticError::Spawn(why) ==> spec_error_message(error) == "failed to spawn restic: "@
            + why@,
        error matches ResticError::Parse(why) ==> spec_error_message(error)
            == "failed to parse restic output: "@ + why@,
        error matches ResticError::NonZeroExit { code, stderr } ==> {
            let m = spec_error_message(error);
            &&& m.len() >= stderr@.len()
            &&& m.skip(m.len() - stderr@.len()) == stderr@
            &&& m.take(19) == "restic exited with "@
        },
{
    if let ResticError::NonZeroExit { code, stderr } = error {
        let m = spec_error_message(error);
        reveal_strlit("restic exited with ");
        let head = "restic exited with "@ + spec_exit_code_text(code) + ": "@;
        assert(m == head + stderr@);
        assert(m.skip(m.len() - stderr@.len()) =~= stderr@);
        assert(m.take(19) =~= "restic exited with "@);
    }
}

/// Joining two non-empty lists one after the other is joining each and putting the
/// separator between them: the separator stands between each two neighbouring parts,
/// and nowhere else.
pub proof fn lemma_joined_concatenates(first: Seq<Seq<char>>, second: Seq<Seq<char>>, separator: Seq<char>)
    requires
        first.len() > 0,
        second.len() > 0,
    ensures
        joined(first + second, separator) == joined(first, separator) + separator + joined(
            second,
            separator,
        ),
    decreases second.len(),
{
    let both = first + second;
    if second.len() == 1 {
        assert(both.drop_last() =~= first);
        assert(both.last() == second[0]);
    } else {
        let shorter = second.drop_last();
        lemma_joined_concatenates(first, shorter, separator);
        assert(both.drop_last() =~= first + shorter);
        assert(both.last() == second.last());
        assert(joined(both, separator) =~= joined(first, separator) + separator + joined(
            shorter,
            separator,
        ) + separator + second.last());
    }
}

} // verus!
