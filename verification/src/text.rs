//! Character-level helpers shared by the template parser, the generator
//! compiler and the renderer: string equality, hexadecimal and decimal
//! digits, and number parsing and formatting.

use vstd::prelude::*;

verus! {

/// The character for a digit value below 16, lower case.
pub open spec fn digit_char(n: nat) -> char {
    if n == 0 {
        '0'
    } else if n == 1 {
        '1'
    } else if n == 2 {
        '2'
    } else if n == 3 {
        '3'
    } else if n == 4 {
        '4'
    } else if n == 5 {
        '5'
    } else if n == 6 {
        '6'
    } else if n == 7 {
        '7'
    } else if n == 8 {
        '8'
    } else if n == 9 {
        '9'
    } else if n == 10 {
        'a'
    } else if n == 11 {
        'b'
    } else if n == 12 {
        'c'
    } else if n == 13 {
        'd'
    } else if n == 14 {
        'e'
    } else if n == 15 {
        'f'
    } else {
        arbitrary()
    }
}

/// The two lower-case hexadecimal digits of one byte, high nibble first.
pub open spec fn hex_of_byte(b: u8) -> Seq<char> {
    seq![digit_char((b / 16) as nat), digit_char((b % 16) as nat)]
}

/// The lower-case hexadecimal encoding of a byte string: two digits per
/// byte, in order.
pub open spec fn hex_of(bytes: Seq<u8>) -> Seq<char>
    decreases bytes.len(),
{
    if bytes.len() == 0 {
        Seq::empty()
    } else {
        hex_of_byte(bytes[0]) + hex_of(bytes.skip(1))
    }
}

/// Appending one byte appends its two digits.
pub proof fn lemma_hex_of_push(bytes: Seq<u8>, b: u8)
    ensures
        hex_of(bytes.push(b)) == hex_of(bytes) + hex_of_byte(b),
    decreases bytes.len(),
{
    if bytes.len() == 0 {
        assert(bytes.push(b)[0] == b);
        assert(bytes.push(b).skip(1) =~= Seq::<u8>::empty());
        assert(hex_of(bytes.push(b)) == hex_of_byte(b) + hex_of(Seq::<u8>::empty()));
        assert(hex_of_byte(b) + Seq::<char>::empty() =~= Seq::<char>::empty() + hex_of_byte(b));
    } else {
        assert(bytes.push(b).skip(1) =~= bytes.skip(1).push(b));
        assert(bytes.push(b)[0] == bytes[0]);
        lemma_hex_of_push(bytes.skip(1), b);
        assert(hex_of(bytes.push(b)) == hex_of_byte(bytes[0]) + (hex_of(bytes.skip(1)) + hex_of_byte(b)));
        assert(hex_of_byte(bytes[0]) + (hex_of(bytes.skip(1)) + hex_of_byte(b)) =~= (hex_of_byte(
            bytes[0],
        ) + hex_of(bytes.skip(1))) + hex_of_byte(b));
    }
}

/// The one-character string for a digit value below 16.
pub fn digit_str(n: u8) -> (r: &'static str)
    requires
        n < 16,
    ensures
        r@ =~= seq![digit_char(n as nat)],
{
    proof {
        reveal_strlit("0");
        reveal_strlit("1");
        reveal_strlit("2");
        reveal_strlit("3");
        reveal_strlit("4");
        reveal_strlit("5");
        reveal_strlit("6");
        reveal_strlit("7");
        reveal_strlit("8");
        reveal_strlit("9");
        reveal_strlit("a");
        reveal_strlit("b");
        reveal_strlit("c");
        reveal_strlit("d");
        reveal_strlit("e");
        reveal_strlit("f");
    }
    match n {
        0 => "0",
        1 => "1",
        2 => "2",
        3 => "3",
        4 => "4",
        5 => "5",
        6 => "6",
        7 => "7",
        8 => "8",
        9 => "9",
        10 => "a",
        11 => "b",
        12 => "c",
        13 => "d",
        14 => "e",
        _ => "f",
    }
}

/// An element-wise copy of a byte string.
pub fn copy_bytes(v: &Vec<u8>) -> (r: Vec<u8>)
    ensures
        r@ == v@,
{
    let mut r: Vec<u8> = Vec::new();
    let n = v.len();
    let mut i: usize = 0;
    while i < n
        invariant
            i <= n == v@.len(),
            r@ == v@.take(i as int),
        decreases n - i,
    {
        r.push(v[i]);
        proof {
            assert(v@.take(i as int).push(v@[i as int]) =~= v@.take(i as int + 1));
        }
        i = i + 1;
    }
    proof {
        assert(v@.take(n as int) =~= v@);
    }
    r
}

/// The hexadecimal encoding of a byte string, as text.
pub fn hex_string(bytes: &Vec<u8>) -> (r: String)
    ensures
        r@ == hex_of(bytes@),
{
    let mut out = String::new();
    let n = bytes.len();
    let mut i: usize = 0;
    while i < n
        invariant
            i <= n == bytes@.len(),
            out@ == hex_of(bytes@.take(i as int)),
        decreases n - i,
    {
        let b = bytes[i];
        out.append(digit_str(b / 16));
        out.append(digit_str(b % 16));
        proof {
            lemma_hex_of_push(bytes@.take(i as int), b);
            assert(bytes@.take(i as int).push(b) =~= bytes@.take(i as int + 1));
        }
        i = i + 1;
    }
    proof {
        assert(bytes@.take(n as int) =~= bytes@);
    }
    out
}

/// Character-by-character string equality, giving `a@ == b@` to callers.
pub fn str_eq(a: &str, b: &str) -> (r: bool)
    ensures
        r == (a@ == b@),
{
    let a_len = a.unicode_len();
    let b_len = b.unicode_len();
    if a_len != b_len {
        assert(a@ != b@) by {
            assert(a@.len() != b@.len());
        }
        return false;
    }
    let mut i: usize = 0;
    while i < a_len
        invariant
            i <= a_len,
            a_len == a@.len(),
            b_len == b@.len(),
            a_len == b_len,
            forall|k: int| 0 <= k < i ==> a@[k] == b@[k],
        decreases a_len - i,
    {
        let ca = a.get_char(i);
        let cb = b.get_char(i);
        if ca != cb {
            assert(a@ != b@);
            return false;
        }
        i = i + 1;
    }
    assert(a@ =~= b@);
    true
}

/// The smallest index at or after `i` holding character `c`, if any.
pub open spec fn find_from(s: Seq<char>, i: nat, c: char) -> Option<nat>
    decreases s.len() - i when i <= s.len()
{
    if i >= s.len() {
        None
    } else if s[i as int] == c {
        Some(i)
    } else {
        find_from(s, i + 1, c)
    }
}

/// What a successful or failed search means for the characters searched.
pub proof fn lemma_find_from(s: Seq<char>, i: nat, c: char)
    requires
        i <= s.len(),
    ensures
        match find_from(s, i, c) {
            Some(j) => i <= j < s.len() && s[j as int] == c && (forall|k: int|
                i <= k < j ==> s[k] != c),
            None => forall|k: int| i <= k < s.len() ==> s[k] != c,
        },
    decreases s.len() - i,
{
    if i < s.len() && s[i as int] != c {
        lemma_find_from(s, i + 1, c);
    }
}

/// Search for a character, equal to its specification `find_from`.
pub fn find_char(s: &str, from: usize, c: char) -> (r: Option<usize>)
    requires
        from <= s@.len(),
    ensures
        match r {
            Some(j) => find_from(s@, from as nat, c) == Some(j as nat),
            None => find_from(s@, from as nat, c) is None,
        },
{
    let len = s.unicode_len();
    let mut i: usize = from;
    while i < len
        invariant
            from <= i <= len == s@.len(),
            find_from(s@, from as nat, c) == find_from(s@, i as nat, c),
        decreases len - i,
    {
        if s.get_char(i) == c {
            return Some(i);
        }
        i = i + 1;
    }
    None
}

/// Whether a character is a decimal digit.
pub open spec fn is_dec_digit(c: char) -> bool {
    ('0' as nat) <= (c as nat) <= ('9' as nat)
}

/// The value of a decimal digit character.
pub open spec fn dec_val(c: char) -> nat {
    ((c as nat) - ('0' as nat)) as nat
}

/// Whether every character of a string is a decimal digit.
pub open spec fn all_dec_digits(s: Seq<char>) -> bool {
    forall|i: int| 0 <= i < s.len() ==> is_dec_digit(#[trigger] s[i])
}

/// The number a digit string denotes, most significant digit first.
pub open spec fn dec_value_of(s: Seq<char>) -> nat
    decreases s.len(),
{
    if s.len() == 0 {
        0
    } else {
        dec_value_of(s.drop_last()) * 10 + dec_val(s.last())
    }
}

/// A digit string denotes at least what any of its prefixes denotes.
pub proof fn lemma_dec_value_prefix(s: Seq<char>, i: int)
    requires
        0 <= i <= s.len(),
    ensures
        dec_value_of(s.take(i)) <= dec_value_of(s),
    decreases s.len() - i,
{
    if i < s.len() {
        lemma_dec_value_prefix(s, i + 1);
        assert(s.take(i + 1).drop_last() =~= s.take(i));
        assert(s.take(i + 1).last() == s[i]);
        assert(dec_value_of(s.take(i)) <= dec_value_of(s.take(i)) * 10 + dec_val(s[i]))
            by (nonlinear_arith);
    } else {
        assert(s.take(i) =~= s);
    }
}

/// The canonical decimal digit string of a number: no leading zeros,
/// except that zero itself is the single digit `0`.
pub open spec fn dec_string_of(n: nat) -> Seq<char>
    decreases n,
{
    if n < 10 {
        seq![digit_char(n)]
    } else {
        dec_string_of(n / 10) + seq![digit_char(n % 10)]
    }
}

/// Format a number as its decimal digit string.
pub fn format_u64(n: u64) -> (r: String)
    ensures
        r@ == dec_string_of(n as nat),
    decreases n,
{
    if n < 10 {
        let d = digit_str(n as u8);
        let r = d.to_owned();
        assert(r@ =~= dec_string_of(n as nat));
        r
    } else {
        let mut s = format_u64(n / 10);
        s.append(digit_str((n % 10) as u8));
        assert(s@ =~= dec_string_of(n as nat));
        s
    }
}

/// Parse a decimal number: succeeds exactly on nonempty all-digit strings
/// whose value fits in a `u64`, and then returns that value.
pub fn parse_u64(s: &str) -> (r: Option<u64>)
    ensures
        r is Some <==> s@.len() > 0 && all_dec_digits(s@) && dec_value_of(s@) <= u64::MAX,
        r is Some ==> r->Some_0 == dec_value_of(s@),
{
    let len = s.unicode_len();
    if len == 0 {
        return None;
    }
    let mut acc: u64 = 0;
    let mut i: usize = 0;
    while i < len
        invariant
            0 < len == s@.len(),
            i <= len,
            forall|k: int| 0 <= k < i ==> is_dec_digit(#[trigger] s@[k]),
            acc == dec_value_of(s@.take(i as int)),
        decreases len - i,
    {
        let c = s.get_char(i);
        let cv = c as u32;
        if cv < 48 || cv > 57 {
            assert(!is_dec_digit(s@[i as int]));
            return None;
        }
        let d = (cv - 48) as u64;
        assert(is_dec_digit(s@[i as int]) && d == dec_val(s@[i as int]));
        if acc > (u64::MAX - d) / 10 {
            proof {
                assert(s@.take(i as int + 1).drop_last() =~= s@.take(i as int));
                assert(s@.take(i as int + 1).last() == s@[i as int]);
                assert(dec_value_of(s@.take(i as int + 1)) > u64::MAX) by (nonlinear_arith)
                    requires
                        dec_value_of(s@.take(i as int + 1)) == acc * 10 + d,
                        acc > (u64::MAX - d) / 10,
                        d <= 9,
                ;
                lemma_dec_value_prefix(s@, i as int + 1);
            }
            return None;
        }
        assert(acc * 10 + d <= u64::MAX) by (nonlinear_arith)
            requires
                acc <= (u64::MAX - d) / 10,
                d <= 9,
        ;
        acc = acc * 10 + d;
        proof {
            assert(s@.take(i as int + 1).drop_last() =~= s@.take(i as int));
            assert(s@.take(i as int + 1).last() == s@[i as int]);
        }
        i = i + 1;
    }
    assert(s@.take(len as int) =~= s@);
    Some(acc)
}

} // verus!

