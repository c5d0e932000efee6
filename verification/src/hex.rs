//! What it means for a string to be the hexadecimal form of 32 bytes.

use vstd::prelude::*;
use vstd::string::*;

verus! {

/// `c` is one of `0-9`, `a-f`, `A-F`.
pub open spec fn is_hex_digit(c: char) -> bool {
    ('0' <= c && c <= '9') || ('a' <= c && c <= 'f') || ('A' <= c && c <= 'F')
}

/// `c` is one of `0-9`, `a-f`.
pub open spec fn is_lower_hex_digit(c: char) -> bool {
    ('0' <= c && c <= '9') || ('a' <= c && c <= 'f')
}

/// `s` is exactly `n` hexadecimal digits, in either case.
pub open spec fn is_hex(s: Seq<char>, n: nat) -> bool {
    s.len() == n && forall|i: int| 0 <= i < n ==> is_hex_digit(#[trigger] s[i])
}

/// `s` is exactly `n` lower-case hexadecimal digits.
pub open spec fn is_lower_hex(s: Seq<char>, n: nat) -> bool {
    s.len() == n && forall|i: int| 0 <= i < n ==> is_lower_hex_digit(#[trigger] s[i])
}

/// `s` is exactly 64 lower-case hexadecimal digits: the canonical form of an
/// event id or of a key.
pub open spec fn is_canonical_hex64(s: Seq<char>) -> bool {
    is_lower_hex(s, 64)
}

/// `s` is exactly 64 hexadecimal digits, in either case.
pub open spec fn is_hex64(s: Seq<char>) -> bool {
    s.len() == 64 && forall|i: int| 0 <= i < 64 ==> is_hex_digit(#[trigger] s[i])
}

/// The lower-case form of one hexadecimal digit; other characters are kept.
pub open spec fn lower_hex_digit(c: char) -> char {
    if c == 'A' {
        'a'
    } else if c == 'B' {
        'b'
    } else if c == 'C' {
        'c'
    } else if c == 'D' {
        'd'
    } else if c == 'E' {
        'e'
    } else if c == 'F' {
        'f'
    } else {
        c
    }
}

/// `s` with every upper-case hexadecimal digit replaced by its lower-case form.
pub open spec fn lower_hex(s: Seq<char>) -> Seq<char> {
    Seq::new(s.len(), |i: int| lower_hex_digit(s[i]))
}

/// The lower-case form of a hexadecimal digit, as text; `None` for any other
/// character.
fn lower_digit_text(c: char) -> (r: Option<&'static str>)
    ensures
        match r {
            Some(text) => is_hex_digit(c) && text@ == seq![lower_hex_digit(c)],
            None => !is_hex_digit(c),
        },
{
    proof {
        reveal_strlit("0");
        reveal_strlit("1");
        reveal_strlit("2");
        reveal_strlit("3");
        reveal_strlit("4");
        reveal_strlit("5");
        reveal_strlit("6");
        reveal_strlit("7");
        reveal_strlit("8");
        reveal_strlit("9");
        reveal_strlit("a");
        reveal_strlit("b");
        reveal_strlit("c");
        reveal_strlit("d");
        reveal_strlit("e");
        reveal_strlit("f");
    }
    let text = if c == '0' {
        "0"
    } else if c == '1' {
        "1"
    } else if c == '2' {
        "2"
    } else if c == '3' {
        "3"
    } else if c == '4' {
        "4"
    } else if c == '5' {
        "5"
    } else if c == '6' {
        "6"
    } else if c == '7' {
        "7"
    } else if c == '8' {
        "8"
    } else if c == '9' {
        "9"
    } else if c == 'a' || c == 'A' {
        "a"
    } else if c == 'b' || c == 'B' {
        "b"
    } else if c == 'c' || c == 'C' {
        "c"
    } else if c == 'd' || c == 'D' {
        "d"
    } else if c == 'e' || c == 'E' {
        "e"
    } else if c == 'f' || c == 'F' {
        "f"
    } else {
        return None;
    };
    assert(text@ =~= seq![lower_hex_digit(c)]);
    Some(text)
}

/// The canonical form of an event id or of a key: the 64 hexadecimal digits
/// of the text in lower case, or `None` where the text is not 64
/// hexadecimal digits.
pub fn canonical_hex64(text: &str) -> (r: Option<String>)
    ensures
        match r {
            Some(canonical) => is_hex64(text@) && canonical@ == lower_hex(text@),
            None => !is_hex64(text@),
        },
{
    if text.unicode_len() != 64 {
        return None;
    }
    let mut canonical = String::new();
    let mut i: usize = 0;
    assert(canonical@ =~= lower_hex(text@).take(0));
    while i < 64
        invariant
            text@.len() == 64,
            i <= 64,
            canonical@ == lower_hex(text@).take(i as int),
            forall|j: int| 0 <= j < i ==> is_hex_digit(#[trigger] text@[j]),
        decreases 64 - i,
    {
        match lower_digit_text(text.get_char(i)) {
            Some(digit) => {
                canonical.append(digit);
                assert(canonical@ =~= lower_hex(text@).take(i + 1));
            },
            None => {
                return None;
            },
        }
        i += 1;
    }
    assert(canonical@ =~= lower_hex(text@));
    Some(canonical)
}

/// Lower-casing 64 hexadecimal digits gives their canonical form, and the
/// digits are canonical exactly when lower-casing leaves them as they are.
pub proof fn lemma_canonical_hex(s: Seq<char>)
    requires
        is_hex64(s),
    ensures
        is_canonical_hex64(lower_hex(s)),
        is_canonical_hex64(s) <==> lower_hex(s) == s,
{
    let l = lower_hex(s);
    assert forall|i: int| 0 <= i < 64 implies is_lower_hex_digit(#[trigger] l[i]) by {
        assert(is_hex_digit(s[i]));
    }
    if is_canonical_hex64(s) {
        assert forall|i: int| 0 <= i < 64 implies l[i] == s[i] by {
            assert(is_lower_hex_digit(s[i]));
        }
        assert(l =~= s);
    }
}

} // verus!
