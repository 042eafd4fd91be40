//! Lowercase hexadecimal rendering of byte strings, used both for content
//! digests and for the random placeholder hash of a set row.
use vstd::prelude::*;
use vstd::string::StringExecFns;

verus! {

/// The lowercase hex digit for a nibble value below 16.
pub open spec fn hex_char_of(n: u8) -> char {
    if n < 10 {
        (n + 48) as char
    } else {
        (n + 87) as char
    }
}

/// Two lowercase hex digits for each byte, high nibble first.
pub open spec fn hex_of(bytes: Seq<u8>) -> Seq<char>
    decreases bytes.len(),
{
    if bytes.len() == 0 {
        Seq::empty()
    } else {
        hex_of(bytes.drop_last()) + seq![
            hex_char_of(bytes.last() / 16),
            hex_char_of(bytes.last() % 16),
        ]
    }
}

/// A lowercase hex digit: one of '0'..'9' or 'a'..'f'.
pub open spec fn is_hex_char(c: char) -> bool {
    ('0' <= c && c <= '9') || ('a' <= c && c <= 'f')
}

/// A 64-character lowercase hexadecimal string, the shape of every content
/// digest in the store.
pub open spec fn is_hex64(s: Seq<char>) -> bool {
    &&& s.len() == 64
    &&& forall|i: int| 0 <= i < s.len() ==> is_hex_char(#[trigger] s[i])
}

proof fn lemma_hex_of_len(bytes: Seq<u8>)
    ensures
        hex_of(bytes).len() == 2 * bytes.len(),
    decreases bytes.len(),
{
    if bytes.len() > 0 {
        lemma_hex_of_len(bytes.drop_last());
    }
}

proof fn lemma_hex_char_of_is_hex(n: u8)
    requires
        n < 16,
    ensures
        is_hex_char(hex_char_of(n)),
{
}

proof fn lemma_hex_of_chars(bytes: Seq<u8>)
    ensures
        forall|i: int| 0 <= i < hex_of(bytes).len() ==> is_hex_char(#[trigger] hex_of(bytes)[i]),
    decreases bytes.len(),
{
    if bytes.len() > 0 {
        lemma_hex_of_chars(bytes.drop_last());
        lemma_hex_of_len(bytes.drop_last());
        lemma_hex_char_of_is_hex(bytes.last() / 16);
        lemma_hex_char_of_is_hex(bytes.last() % 16);
    }
}

/// The hex rendering of 32 bytes is a 64-character lowercase hex string.
pub proof fn lemma_hex_of_32_is_hex64(bytes: Seq<u8>)
    requires
        bytes.len() == 32,
    ensures
        is_hex64(hex_of(bytes)),
{
    lemma_hex_of_len(bytes);
    lemma_hex_of_chars(bytes);
}

/// Hex digit strings are ASCII, so they can be sliced byte by byte.
pub proof fn lemma_hex64_ascii(s: Seq<char>)
    requires
        is_hex64(s),
    ensures
        vstd::utf8::is_ascii_chars(s),
{
    assert forall|i: int| 0 <= i < s.len() implies '\0' <= #[trigger] s[i] <= '\u{7f}' by {
        assert(is_hex_char(s[i]));
    }
}

/// The all-zero digest text; a convenient witness of `is_hex64`.
pub open spec fn zero_hex64() -> Seq<char> {
    Seq::new(64, |i: int| '0')
}

/// The all-zero digest text is a 64-character lowercase hex string.
pub proof fn lemma_zero_hex64()
    ensures
        is_hex64(zero_hex64()),
{
}

/// A one-character string slice holding the lowercase hex digit of a nibble.
pub(crate) fn hex_digit_str(n: u8) -> (r: &'static str)
    requires
        n < 16,
    ensures
        r@ =~= seq![hex_char_of(n)],
{
    proof {
        reveal_strlit("0");
        reveal_strlit("1");
        reveal_strlit("2");
        reveal_strlit("3");
        reveal_strlit("4");
        reveal_strlit("5");
        reveal_strlit("6");
        reveal_strlit("7");
        reveal_strlit("8");
        reveal_strlit("9");
        reveal_strlit("a");
        reveal_strlit("b");
        reveal_strlit("c");
        reveal_strlit("d");
        reveal_strlit("e");
        reveal_strlit("f");
    }
    match n {
        0 => "0",
        1 => "1",
        2 => "2",
        3 => "3",
        4 => "4",
        5 => "5",
        6 => "6",
        7 => "7",
        8 => "8",
        9 => "9",
        10 => "a",
        11 => "b",
        12 => "c",
        13 => "d",
        14 => "e",
        _ => "f",
    }
}

/// Renders bytes as lowercase hexadecimal, two digits per byte.
pub fn to_hex(bytes: &Vec<u8>) -> (r: String)
    ensures
        r@ == hex_of(bytes@),
{
    let mut r = String::new();
    let mut i: usize = 0;
    while i < bytes.len()
        invariant
            i <= bytes@.len(),
            r@ == hex_of(bytes@.take(i as int)),
        decreases bytes@.len() - i,
    {
        let b = bytes[i];
        r.append(hex_digit_str(b / 16));
        r.append(hex_digit_str(b % 16));
        i = i + 1;
        proof {
            assert(bytes@.take(i as int).drop_last() =~= bytes@.take(i - 1));
            assert(bytes@.take(i as int).last() == b);
            assert(r@ =~= hex_of(bytes@.take(i as int)));
        }
    }
    proof {
        assert(bytes@.take(bytes@.len() as int) =~= bytes@);
    }
    r
}

} // verus!
