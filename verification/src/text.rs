//! Small pieces of text.
use vstd::prelude::*;
use vstd::string::{StrSliceExecFns, StringExecFns};

verus! {

/// One decimal digit.
pub open spec fn digit(value: nat) -> Seq<char> {
    if value == 0 {
        "0"@
    } else if value == 1 {
        "1"@
    } else if value == 2 {
        "2"@
    } else if value == 3 {
        "3"@
    } else if value == 4 {
        "4"@
    } else if value == 5 {
        "5"@
    } else if value == 6 {
        "6"@
    } else if value == 7 {
        "7"@
    } else if value == 8 {
        "8"@
    } else {
        "9"@
    }
}

/// A number in decimal, without leading zeros.
pub open spec fn decimal_text(value: nat) -> Seq<char>
    decreases value,
{
    if value < 10 {
        digit(value)
    } else {
        decimal_text(value / 10) + digit(value % 10)
    }
}

/// A number in decimal, with a sign when it is negative.
pub open spec fn signed_text(value: int) -> Seq<char> {
    if value < 0 {
        "-"@ + decimal_text((-value) as nat)
    } else {
        decimal_text(value as nat)
    }
}

fn digit_str(value: u64) -> (text: &'static str)
    requires
        value < 10,
    ensures
        text@ == digit(value as nat),
{
    if value == 0 {
        "0"
    } else if value == 1 {
        "1"
    } else if value == 2 {
        "2"
    } else if value == 3 {
        "3"
    } else if value == 4 {
        "4"
    } else if value == 5 {
        "5"
    } else if value == 6 {
        "6"
    } else if value == 7 {
        "7"
    } else if value == 8 {
        "8"
    } else {
        "9"
    }
}

/// A number in decimal.
pub fn decimal(value: u64) -> (text: String)
    ensures
        text@ == decimal_text(value as nat),
    decreases value,
{
    if value < 10 {
        digit_str(value).to_owned()
    } else {
        let mut text: String = decimal(value / 10);
        text.append(digit_str(value % 10));
        text
    }
}

/// A signed number in decimal.
pub fn signed_decimal(value: i32) -> (text: String)
    ensures
        text@ == signed_text(value as int),
{
    if value < 0 {
        let size: u64 = (-(value as i64)) as u64;
        "-".to_owned().concat(decimal(size).as_str())
    } else {
        decimal(value as u64)
    }
}

/// Whether `text` begins with `prefix`.
pub fn has_prefix(text: &str, prefix: &str) -> (found: bool)
    ensures
        found == prefix@.is_prefix_of(text@),
{
    let count: usize = prefix.unicode_len();
    if text.unicode_len() < count {
        return false;
    }
    let mut i: usize = 0;
    while i < count
        invariant
            i <= count,
            count == prefix@.len(),
            count <= text@.len(),
            forall|j: int| 0 <= j < i ==> text@[j] == prefix@[j],
        decreases count - i,
    {
        if text.get_char(i) != prefix.get_char(i) {
            return false;
        }
        i = i + 1;
    }
    assert(prefix@ =~= text@.subrange(0, count as int));
    true
}

/// A digit is one character, as far behind `0` as its value is.
pub proof fn law_digit_counts_from_zero(value: nat)
    requires
        value < 10,
    ensures
        digit(value).len() == 1,
        digit(value)[0] as int == '0' as int + value,
{
    reveal_strlit("0");
    reveal_strlit("1");
    reveal_strlit("2");
    reveal_strlit("3");
    reveal_strlit("4");
    reveal_strlit("5");
    reveal_strlit("6");
    reveal_strlit("7");
    reveal_strlit("8");
    reveal_strlit("9");
}

/// The last character of a number is its last digit, what stands before it is
/// the number without that digit, and a number of one digit is that digit.
pub proof fn law_decimal_ends_in_its_last_digit(value: nat)
    ensures
        decimal_text(value).len() >= 1,
        decimal_text(value).last() as int == '0' as int + value % 10,
        value < 10 ==> decimal_text(value).len() == 1,
        value >= 10 ==> decimal_text(value).drop_last() == decimal_text(value / 10),
{
    law_digit_counts_from_zero(value % 10);
    if value >= 10 {
        assert(decimal_text(value).drop_last() =~= decimal_text(value / 10));
    }
}

/// A negative number is a minus sign and the number without it.
pub proof fn law_sign_stands_in_front(value: int)
    ensures
        value >= 0 ==> signed_text(value) == decimal_text(value as nat),
        value < 0 ==> signed_text(value).len() >= 1 && signed_text(value)[0] == '-'
            && signed_text(value).skip(1) == decimal_text((0 - value) as nat),
{
    reveal_strlit("-");
    if value < 0 {
        assert(signed_text(value).skip(1) =~= decimal_text((0 - value) as nat));
    }
}

} // verus!
