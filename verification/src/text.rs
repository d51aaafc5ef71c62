//! Comparing strings, and writing a string so that it can stand between
//! the quotes of a JSON string.

use vstd::prelude::*;
use vstd::string::*;

verus! {

/// Whether two string slices hold the same characters.
pub fn same_text(a: &str, b: &str) -> (same: bool)
    ensures
        same == (a@ == b@),
{
    let left = a.to_owned();
    let right = b.to_owned();
    left == right
}

/// Whether `c` is a control character: one below U+0020.
pub open spec fn is_control(c: char) -> bool {
    (c as u32) < 0x20
}

/// The hexadecimal digit for `v`, in lower case.
pub open spec fn hex_digit(v: int) -> char {
    if v < 10 {
        ((48 + v) as u8) as char
    } else {
        ((87 + v) as u8) as char
    }
}

/// How one character is written inside a JSON string: a quote and a
/// backslash behind a backslash, a control character as `\u00` and its two
/// hexadecimal digits, every other character as it is.
pub open spec fn escaped_char(c: char) -> Seq<char> {
    if c == '"' {
        seq!['\\', '"']
    } else if c == '\\' {
        seq!['\\', '\\']
    } else if is_control(c) {
        seq!['\\', 'u', '0', '0', hex_digit((c as u32) as int / 16), hex_digit((c as u32) as int % 16)]
    } else {
        seq![c]
    }
}

/// How a string is written inside a JSON string: character by character.
pub open spec fn escaped(s: Seq<char>) -> Seq<char>
    decreases s.len(),
{
    if s.len() == 0 {
        Seq::empty()
    } else {
        escaped(s.drop_last()) + escaped_char(s.last())
    }
}

fn hex(v: u32) -> (digit: &'static str)
    requires
        v < 16,
    ensures
        digit@ == seq![hex_digit(v as int)],
{
    proof {
        reveal_strlit("0");
        reveal_strlit("1");
        reveal_strlit("2");
        reveal_strlit("3");
        reveal_strlit("4");
        reveal_strlit("5");
        reveal_strlit("6");
        reveal_strlit("7");
        reveal_strlit("8");
        reveal_strlit("9");
        reveal_strlit("a");
        reveal_strlit("b");
        reveal_strlit("c");
        reveal_strlit("d");
        reveal_strlit("e");
        reveal_strlit("f");
    }
    let digit = if v == 0 {
        "0"
    } else if v == 1 {
        "1"
    } else if v == 2 {
        "2"
    } else if v == 3 {
        "3"
    } else if v == 4 {
        "4"
    } else if v == 5 {
        "5"
    } else if v == 6 {
        "6"
    } else if v == 7 {
        "7"
    } else if v == 8 {
        "8"
    } else if v == 9 {
        "9"
    } else if v == 10 {
        "a"
    } else if v == 11 {
        "b"
    } else if v == 12 {
        "c"
    } else if v == 13 {
        "d"
    } else if v == 14 {
        "e"
    } else {
        "f"
    };
    assert(digit@ =~= seq![hex_digit(v as int)]);
    digit
}

/// Writes `text` so that it can stand between the quotes of a JSON string.
pub fn escape(text: &str) -> (out: String)
    ensures
        out@ == escaped(text@),
{
    let n = text.unicode_len();
    let mut out = String::new();
    let mut i: usize = 0;
    assert(text@.subrange(0, 0) =~= Seq::<char>::empty());
    while i < n
        invariant
            i <= n,
            n == text@.len(),
            out@ == escaped(text@.subrange(0, i as int)),
        decreases n - i,
    {
        let c = text.get_char(i);
        let ghost seen = text@.subrange(0, i as int);
        let ghost next = text@.subrange(0, i as int + 1);
        let ghost before = out@;
        proof {
            assert(next.drop_last() =~= seen);
            assert(next.last() == c);
            assert(escaped(next) == before + escaped_char(c));
        }
        if c == '"' {
            proof {
                reveal_strlit("\\\"");
                assert("\\\""@ =~= escaped_char(c));
            }
            out.append("\\\"");
        } else if c == '\\' {
            proof {
                reveal_strlit("\\\\");
                assert("\\\\"@ =~= escaped_char(c));
            }
            out.append("\\\\");
        } else if (c as u32) < 0x20 {
            let v: u32 = c as u32;
            proof {
                reveal_strlit("\\u00");
                assert("\\u00"@ + seq![hex_digit(v as int / 16)] + seq![hex_digit(v as int % 16)]
                    =~= escaped_char(c));
            }
            out.append("\\u00");
            out.append(hex(v / 16));
            out.append(hex(v % 16));
        } else {
            let plain = text.substring_char(i, i + 1);
            assert(plain@ =~= escaped_char(c));
            out.append(plain);
        }
        i += 1;
    }
    assert(text@.subrange(0, n as int) =~= text@);
    out
}

/// The number that the hexadecimal digit `c` stands for.
pub open spec fn hex_value(c: char) -> Option<int> {
    if '0' <= c && c <= '9' {
        Some((c as u32) as int - 48)
    } else if 'a' <= c && c <= 'f' {
        Some((c as u32) as int - 87)
    } else {
        None
    }
}

/// The string that `t` spells between the quotes of a JSON string, where
/// `t` is written as [`escaped`] writes: `None` for a quote or a control
/// character that stands bare, and for any escape but the three.
pub open spec fn unescaped(t: Seq<char>) -> Option<Seq<char>>
    decreases t.len(),
{
    if t.len() == 0 {
        Some(Seq::empty())
    } else if t[0] == '"' || is_control(t[0]) {
        None
    } else if t[0] != '\\' {
        match unescaped(t.skip(1)) {
            Some(rest) => Some(seq![t[0]] + rest),
            None => None,
        }
    } else if t.len() >= 2 && (t[1] == '"' || t[1] == '\\') {
        match unescaped(t.skip(2)) {
            Some(rest) => Some(seq![t[1]] + rest),
            None => None,
        }
    } else if t.len() >= 6 && t[1] == 'u' && t[2] == '0' && t[3] == '0' {
        match (hex_value(t[4]), hex_value(t[5]), unescaped(t.skip(6))) {
            (Some(high), Some(low), Some(rest)) => if high < 2 {
                Some(seq![((high * 16 + low) as u8) as char] + rest)
            } else {
                None
            },
            _ => None,
        }
    } else {
        None
    }
}

/// Writing two strings one after the other is writing their concatenation.
pub proof fn lemma_escaped_concat(a: Seq<char>, b: Seq<char>)
    ensures
        escaped(a + b) == escaped(a) + escaped(b),
    decreases b.len(),
{
    if b.len() == 0 {
        assert(a + b =~= a);
        assert(escaped(a) + escaped(b) =~= escaped(a));
    } else {
        lemma_escaped_concat(a, b.drop_last());
        assert((a + b).drop_last() =~= a + b.drop_last());
        assert((a + b).last() == b.last());
        assert(escaped(a + b) =~= escaped(a) + escaped(b));
    }
}

proof fn lemma_hex_round_trip(v: int)
    requires
        0 <= v < 16,
    ensures
        hex_value(hex_digit(v)) == Some(v),
{
}

proof fn lemma_unescaped_char(c: char, rest: Seq<char>, read: Seq<char>)
    requires
        unescaped(rest) == Some(read),
    ensures
        unescaped(escaped_char(c) + rest) == Some(seq![c] + read),
{
    let t = escaped_char(c) + rest;
    if c == '"' || c == '\\' {
        assert(t[0] == '\\');
        assert(t[1] == c);
        assert(t.skip(2) =~= rest);
    } else if is_control(c) {
        let v = (c as u32) as int;
        lemma_hex_round_trip(v / 16);
        lemma_hex_round_trip(v % 16);
        assert(t[0] == '\\' && t[1] == 'u' && t[2] == '0' && t[3] == '0');
        assert(t[4] == hex_digit(v / 16));
        assert(t[5] == hex_digit(v % 16));
        assert(t.skip(6) =~= rest);
        assert((((v / 16) * 16 + v % 16) as u8) as char == c);
    } else {
        assert(t[0] == c);
        assert(t.skip(1) =~= rest);
    }
}

/// Whatever the string, what is written for it reads back as that string.
/// So a written string holds no quote that would end the JSON string, and
/// two strings are never written alike.
pub proof fn lemma_escaped_reads_back(s: Seq<char>)
    ensures
        unescaped(escaped(s)) == Some(s),
    decreases s.len(),
{
    if s.len() > 0 {
        let first = seq![s[0]];
        let rest = s.skip(1);
        lemma_escaped_reads_back(rest);
        lemma_escaped_concat(first, rest);
        assert(first + rest =~= s);
        assert(first.drop_last() =~= Seq::<char>::empty());
        assert(escaped(first.drop_last()) =~= Seq::<char>::empty());
        assert(first.last() == s[0]);
        assert(escaped(first) =~= escaped_char(s[0]));
        lemma_unescaped_char(s[0], escaped(rest), rest);
    }
}

/// A string without a quote, a backslash or a control character is
/// written as it is.
pub proof fn lemma_escaped_plain(s: Seq<char>)
    requires
        forall|i: int|
            0 <= i < s.len() ==> (#[trigger] s[i]) != '"' && s[i] != '\\' && !is_control(s[i]),
    ensures
        escaped(s) == s,
    decreases s.len(),
{
    if s.len() > 0 {
        lemma_escaped_plain(s.drop_last());
        assert(escaped(s.drop_last()) + seq![s.last()] =~= s);
    }
}

} // verus!
