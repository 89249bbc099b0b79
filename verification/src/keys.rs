//! Key codes: how a shortcut is compared with a key event, read from a stored
//! setting, and shown to the user.

use vstd::prelude::*;
use vstd::string::StrSliceExecFns;
use vstd::string::StringExecFns;

verus! {

/// The code of the key `A`; the letters follow one another up to `Z`.
pub const KEY_A: i32 = 65;

/// The code of the key `Z`.
pub const KEY_Z: i32 = 90;

/// The key number under which a key event reports the key with code `code`.
/// A negative code stands for the number that has the same bits, seen as a
/// number without sign as wide as a key number.
pub open spec fn key_number(code: i32) -> int {
    if code >= 0 {
        code as int
    } else {
        usize::MAX + 1 + code
    }
}

/// The code that a key number is stored as: its lowest thirty-two bits, read
/// as a number with sign.
pub open spec fn key_code(key: usize) -> i32 {
    let low = key as int % 0x1_0000_0000;
    if low < 0x8000_0000 {
        low as i32
    } else {
        (low - 0x1_0000_0000) as i32
    }
}

/// The character that stands for the digit `d`.
pub open spec fn digit(d: int) -> char {
    if d == 0 {
        '0'
    } else if d == 1 {
        '1'
    } else if d == 2 {
        '2'
    } else if d == 3 {
        '3'
    } else if d == 4 {
        '4'
    } else if d == 5 {
        '5'
    } else if d == 6 {
        '6'
    } else if d == 7 {
        '7'
    } else if d == 8 {
        '8'
    } else {
        '9'
    }
}

/// The decimal digits of `n`, without leading zeros.
pub open spec fn digits(n: nat) -> Seq<char>
    decreases n,
{
    if n < 10 {
        seq![digit(n as int)]
    } else {
        digits(n / 10).push(digit((n % 10) as int))
    }
}

/// `n` written in decimal, with a minus sign where it is negative.
pub open spec fn decimal(n: int) -> Seq<char> {
    if n < 0 {
        seq!['-'] + digits((-n) as nat)
    } else {
        digits(n as nat)
    }
}

/// The letter on the key with code `code`, for the codes of `A` to `Z`.
pub open spec fn letter(code: int) -> char {
    if code == 65 {
        'A'
    } else if code == 66 {
        'B'
    } else if code == 67 {
        'C'
    } else if code == 68 {
        'D'
    } else if code == 69 {
        'E'
    } else if code == 70 {
        'F'
    } else if code == 71 {
        'G'
    } else if code == 72 {
        'H'
    } else if code == 73 {
        'I'
    } else if code == 74 {
        'J'
    } else if code == 75 {
        'K'
    } else if code == 76 {
        'L'
    } else if code == 77 {
        'M'
    } else if code == 78 {
        'N'
    } else if code == 79 {
        'O'
    } else if code == 80 {
        'P'
    } else if code == 81 {
        'Q'
    } else if code == 82 {
        'R'
    } else if code == 83 {
        'S'
    } else if code == 84 {
        'T'
    } else if code == 85 {
        'U'
    } else if code == 86 {
        'V'
    } else if code == 87 {
        'W'
    } else if code == 88 {
        'X'
    } else if code == 89 {
        'Y'
    } else {
        'Z'
    }
}

/// How a key is shown: a letter key by its letter, any other key as `Key<n>`
/// with its code in decimal.
pub open spec fn key_label(code: int) -> Seq<char> {
    if 65 <= code <= 90 {
        seq![letter(code)]
    } else {
        seq!['K', 'e', 'y', '<'] + decimal(code) + seq!['>']
    }
}

/// The code that a stored one-letter shortcut stands for: the text must be a
/// single capital letter from `A` to `Z`.
pub open spec fn letter_code(text: Seq<char>) -> Option<i32> {
    if text.len() == 1 && 'A' <= text[0] <= 'Z' {
        Some(text[0] as i32)
    } else {
        None
    }
}

/// Whether a key event with number `key` is for the key with code `code`.
pub fn key_matches(code: i32, key: usize) -> (matches: bool)
    ensures
        matches == (key == key_number(code)),
{
    if code >= 0 {
        key == code as usize
    } else {
        let below: i64 = -(code as i64) - 1;
        usize::MAX - key == below as usize
    }
}

/// The code under which the key with number `key` is stored.
pub fn code_of_key(key: usize) -> (code: i32)
    ensures
        code == key_code(key),
{
    let low: u64 = key as u64 % 0x1_0000_0000;
    if low < 0x8000_0000 {
        low as i32
    } else {
        (low as i64 - 0x1_0000_0000) as i32
    }
}

/// The code of a shortcut that was stored as an integer: its lowest
/// thirty-two bits, read as a number with sign.
pub open spec fn stored_code(value: i64) -> i32 {
    let low = value as int % 0x1_0000_0000;
    if low < 0x8000_0000 {
        low as i32
    } else {
        (low - 0x1_0000_0000) as i32
    }
}

/// Reads a shortcut that was stored as an integer.
pub fn code_of_integer(value: i64) -> (code: i32)
    ensures
        code == stored_code(value),
{
    let low: i64 = value % 0x1_0000_0000;
    let low: i64 = if low < 0 {
        low + 0x1_0000_0000
    } else {
        low
    };
    if low < 0x8000_0000 {
        low as i32
    } else {
        (low - 0x1_0000_0000) as i32
    }
}

/// Reads a shortcut that was stored as a text: a single capital letter.
pub fn code_of_letter(text: &str) -> (code: Option<i32>)
    ensures
        code == letter_code(text@),
{
    if text.unicode_len() != 1 {
        return None;
    }
    let c = text.get_char(0);
    if 'A' <= c && c <= 'Z' {
        Some(c as u32 as i32)
    } else {
        None
    }
}

/// One decimal digit as a text.
fn digit_text(d: u64) -> (text: &'static str)
    requires
        d < 10,
    ensures
        text@ == seq![digit(d as int)],
{
    let all = "0123456789";
    proof {
        reveal_strlit("0123456789");
    }
    all.substring_ascii(d as usize, d as usize + 1)
}

/// `n` in decimal.
pub fn decimal_text(n: i32) -> (text: String)
    ensures
        text@ == decimal(n as int),
{
    let size: u64 = if n < 0 {
        (-(n as i64)) as u64
    } else {
        n as u64
    };
    let mut rest: u64 = size / 10;
    let mut text: String = String::from_str(digit_text(size % 10));
    while rest > 0
        invariant
            rest > 0 ==> digits(size as nat) == digits(rest as nat) + text@,
            rest == 0 ==> digits(size as nat) == text@,
        decreases rest,
    {
        text = String::from_str(digit_text(rest % 10)).concat(text.as_str());
        rest = rest / 10;
    }
    if n < 0 {
        let signed = String::from_str("-").concat(text.as_str());
        proof {
            reveal_strlit("-");
        }
        signed
    } else {
        text
    }
}

/// The text that shows the key with code `vk` to the user.
pub fn vk_to_text(vk: i32) -> (text: String)
    ensures
        text@ == key_label(vk as int),
{
    if KEY_A <= vk && vk <= KEY_Z {
        let all = "ABCDEFGHIJKLMNOPQRSTUVWXYZ";
        proof {
            reveal_strlit("ABCDEFGHIJKLMNOPQRSTUVWXYZ");
        }
        let at: usize = (vk - KEY_A) as usize;
        let one = all.substring_ascii(at, at + 1);
        String::from_str(one)
    } else {
        let number = decimal_text(vk);
        let label = String::from_str("Key<").concat(number.as_str()).concat(">");
        proof {
            reveal_strlit("Key<");
            reveal_strlit(">");
        }
        label
    }
}

} // verus!
