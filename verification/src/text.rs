//! Decimal and hexadecimal text: formatting of unsigned integers and
//! parsing of the decimal capability values read from device control files.

use vstd::prelude::*;

verus! {

/// The decimal digit character for a value below ten.
pub open spec fn dec_digit_char(d: nat) -> char
    recommends
        d < 10,
{
    if d == 0 {
        '0'
    } else if d == 1 {
        '1'
    } else if d == 2 {
        '2'
    } else if d == 3 {
        '3'
    } else if d == 4 {
        '4'
    } else if d == 5 {
        '5'
    } else if d == 6 {
        '6'
    } else if d == 7 {
        '7'
    } else if d == 8 {
        '8'
    } else {
        '9'
    }
}

/// The lower-case hexadecimal digit character for a value below sixteen.
pub open spec fn hex_digit_char(d: nat) -> char
    recommends
        d < 16,
{
    if d < 10 {
        dec_digit_char(d)
    } else if d == 10 {
        'a'
    } else if d == 11 {
        'b'
    } else if d == 12 {
        'c'
    } else if d == 13 {
        'd'
    } else if d == 14 {
        'e'
    } else {
        'f'
    }
}

/// The decimal text of a number, most significant digit first, with no
/// leading zeros ("0" for zero).
pub open spec fn dec_text(n: nat) -> Seq<char>
    decreases n,
{
    if n < 10 {
        seq![dec_digit_char(n)]
    } else {
        dec_text(n / 10) + seq![dec_digit_char(n % 10)]
    }
}

/// The lower-case hexadecimal text of a number, most significant digit
/// first, with no leading zeros ("0" for zero).
pub open spec fn hex_text(n: nat) -> Seq<char>
    decreases n,
{
    if n < 16 {
        seq![hex_digit_char(n)]
    } else {
        hex_text(n / 16) + seq![hex_digit_char(n % 16)]
    }
}

fn dec_digit_str(d: u32) -> (s: &'static str)
    requires
        d < 10,
    ensures
        s@ =~= seq![dec_digit_char(d as nat)],
{
    proof {
        reveal_strlit("0");
        reveal_strlit("1");
        reveal_strlit("2");
        reveal_strlit("3");
        reveal_strlit("4");
        reveal_strlit("5");
        reveal_strlit("6");
        reveal_strlit("7");
        reveal_strlit("8");
        reveal_strlit("9");
    }
    match d {
        0 => "0",
        1 => "1",
        2 => "2",
        3 => "3",
        4 => "4",
        5 => "5",
        6 => "6",
        7 => "7",
        8 => "8",
        _ => "9",
    }
}

fn hex_digit_str(d: u32) -> (s: &'static str)
    requires
        d < 16,
    ensures
        s@ =~= seq![hex_digit_char(d as nat)],
{
    proof {
        reveal_strlit("a");
        reveal_strlit("b");
        reveal_strlit("c");
        reveal_strlit("d");
        reveal_strlit("e");
        reveal_strlit("f");
    }
    if d < 10 {
        dec_digit_str(d)
    } else {
        match d {
            10 => "a",
            11 => "b",
            12 => "c",
            13 => "d",
            14 => "e",
            _ => "f",
        }
    }
}

/// Renders a number as decimal text.
pub fn u32_to_string(n: u32) -> (s: String)
    ensures
        s@ == dec_text(n as nat),
    decreases n,
{
    if n < 10 {
        String::from_str(dec_digit_str(n))
    } else {
        let mut s = u32_to_string(n / 10);
        s.append(dec_digit_str(n % 10));
        proof {
            assert(s@ =~= dec_text(n as nat));
        }
        s
    }
}

/// Renders a number as decimal text.
pub fn u16_to_string(n: u16) -> (s: String)
    ensures
        s@ == dec_text(n as nat),
{
    u32_to_string(n as u32)
}

/// Renders a number as lower-case hexadecimal text.
pub fn u16_to_hex_string(n: u16) -> (s: String)
    ensures
        s@ == hex_text(n as nat),
{
    u16_to_hex_rec(n as u32)
}

fn u16_to_hex_rec(n: u32) -> (s: String)
    ensures
        s@ == hex_text(n as nat),
    decreases n,
{
    if n < 16 {
        String::from_str(hex_digit_str(n))
    } else {
        let mut s = u16_to_hex_rec(n / 16);
        s.append(hex_digit_str(n % 16));
        proof {
            assert(s@ =~= hex_text(n as nat));
        }
        s
    }
}

/// Whether the character is an ASCII whitespace character, as found at the
/// end of a value read from a device control file.
pub open spec fn is_ascii_space(c: char) -> bool {
    c == ' ' || c == '\n' || c == '\t' || c == '\r'
}

/// The text with every trailing ASCII whitespace character removed.
pub open spec fn trimmed_end(s: Seq<char>) -> Seq<char>
    decreases s.len(),
{
    if s.len() > 0 && is_ascii_space(s.last()) {
        trimmed_end(s.drop_last())
    } else {
        s
    }
}

/// Whether the character is a decimal digit.
pub open spec fn is_dec_digit(c: char) -> bool {
    '0' <= c && c <= '9'
}

/// The value of a decimal digit character.
pub open spec fn dec_digit_val(c: char) -> nat
    recommends
        is_dec_digit(c),
{
    ((c as int) - ('0' as int)) as nat
}

/// Whether every character of the text is a decimal digit.
pub open spec fn all_dec_digits(s: Seq<char>) -> bool {
    forall|i: int| 0 <= i < s.len() ==> is_dec_digit(#[trigger] s[i])
}

/// The number the decimal text stands for, most significant digit first.
pub open spec fn dec_val(s: Seq<char>) -> nat
    recommends
        all_dec_digits(s),
    decreases s.len(),
{
    if s.len() == 0 {
        0
    } else {
        dec_val(s.drop_last()) * 10 + dec_digit_val(s.last())
    }
}

/// Whether the text, after trailing whitespace is removed, is a nonempty
/// run of decimal digits whose value fits in sixteen bits.
pub open spec fn is_u16_dec_text(s: Seq<char>) -> bool {
    &&& trimmed_end(s).len() > 0
    &&& all_dec_digits(trimmed_end(s))
    &&& dec_val(trimmed_end(s)) <= u16::MAX
}

fn is_space_char(c: char) -> (r: bool)
    ensures
        r == is_ascii_space(c),
{
    c == ' ' || c == '\n' || c == '\t' || c == '\r'
}

proof fn lemma_trimmed_of_clean(s: Seq<char>, end: int)
    requires
        0 <= end <= s.len(),
        forall|i: int| end <= i < s.len() ==> is_ascii_space(#[trigger] s[i]),
        end == 0 || !is_ascii_space(s[end - 1]),
    ensures
        trimmed_end(s) == s.subrange(0, end),
    decreases s.len(),
{
    if s.len() > 0 && is_ascii_space(s.last()) {
        assert(end < s.len());
        lemma_trimmed_of_clean(s.drop_last(), end);
        assert(s.drop_last().subrange(0, end) =~= s.subrange(0, end));
    } else {
        assert(end == s.len());
        assert(trimmed_end(s) == s);
        assert(s.subrange(0, end) =~= s);
    }
}

/// Parses the decimal value held in a device capability file: decimal
/// digits, with trailing whitespace allowed. Returns the value exactly
/// when the digits are well formed and fit in sixteen bits.
pub fn parse_u16_dec(s: &str) -> (r: Option<u16>)
    ensures
        is_u16_dec_text(s@) ==> r == Some(dec_val(trimmed_end(s@)) as u16),
        !is_u16_dec_text(s@) ==> r is None,
{
    let n = s.unicode_len();

    // Step back over trailing whitespace.
    let mut end: usize = n;
    while end > 0 && is_space_char(s.get_char(end - 1))
        invariant
            0 <= end <= n,
            n == s@.len(),
            forall|i: int| end <= i < n ==> is_ascii_space(#[trigger] s@[i]),
        decreases end,
    {
        end = end - 1;
    }
    proof {
        lemma_trimmed_of_clean(s@, end as int);
    }
    let ghost t = trimmed_end(s@);

    if end == 0 {
        return None;
    }

    // Accumulate the digits, refusing anything that is not a digit and
    // any value above what sixteen bits hold.
    let mut val: u32 = 0;
    let mut i: usize = 0;
    while i < end
        invariant
            0 <= i <= end <= n,
            n == s@.len(),
            t == s@.subrange(0, end as int),
            t == trimmed_end(s@),
            all_dec_digits(s@.subrange(0, i as int)),
            val == dec_val(s@.subrange(0, i as int)),
            val <= u16::MAX,
        decreases end - i,
    {
        let c = s.get_char(i);
        let cv = c as u32;
        if cv < 48 || cv > 57 {
            proof {
                assert(t[i as int] == c);
                assert(!is_dec_digit(c));
                assert(!all_dec_digits(t));
                assert(!is_u16_dec_text(s@));
            }
            return None;
        }
        let d = cv - 48;
        let next = val * 10 + d;
        proof {
            assert(s@.subrange(0, i + 1).drop_last() =~= s@.subrange(0, i as int));
            assert(s@.subrange(0, i + 1).last() == c);
            assert(is_dec_digit(c));
            assert(dec_digit_val(c) == d);
            assert(dec_val(s@.subrange(0, i + 1)) == val * 10 + d);
            assert(forall|j: int|
                0 <= j < i + 1 ==> is_dec_digit(#[trigger] s@.subrange(0, i + 1)[j]));
        }
        if next > u16::MAX as u32 {
            proof {
                assert(t.subrange(0, i + 1) =~= s@.subrange(0, i + 1));
                lemma_dec_val_prefix_grows(t, i + 1);
                assert(dec_val(t) > u16::MAX);
                assert(!is_u16_dec_text(s@));
            }
            return None;
        }
        val = next;
        i = i + 1;
    }
    proof {
        assert(s@.subrange(0, end as int) == t);
    }
    Some(val as u16)
}

/// Once a prefix of decimal text is too large for sixteen bits, the whole
/// text is.
proof fn lemma_dec_val_prefix_grows(s: Seq<char>, i: int)
    requires
        0 <= i <= s.len(),
        dec_val(s.subrange(0, i)) > u16::MAX,
    ensures
        dec_val(s) > u16::MAX,
    decreases s.len() - i,
{
    if i < s.len() {
        assert(s.subrange(0, i + 1).drop_last() =~= s.subrange(0, i));
        assert(dec_val(s.subrange(0, i + 1)) == dec_val(s.subrange(0, i)) * 10 + dec_digit_val(
            s.subrange(0, i + 1).last(),
        ));
        lemma_dec_val_prefix_grows(s, i + 1);
    } else {
        assert(s.subrange(0, i) =~= s);
    }
}

} // verus!
