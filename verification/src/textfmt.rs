//! Text assembly for denormalized columns: tag lists joined by spaces and
//! bookmark lists joined by commas.
use vstd::prelude::*;
use vstd::string::StringExecFns;

use crate::hexfmt::hex_char_of;

verus! {

/// The parts joined with the separator between consecutive parts.
pub open spec fn join_with(parts: Seq<Seq<char>>, sep: Seq<char>) -> Seq<char>
    decreases parts.len(),
{
    if parts.len() == 0 {
        Seq::empty()
    } else if parts.len() == 1 {
        parts[0]
    } else {
        join_with(parts.drop_last(), sep) + sep + parts.last()
    }
}

/// The decimal digits of a natural number, most significant first.
pub open spec fn dec_digits(n: nat) -> Seq<char>
    decreases n,
{
    if n < 10 {
        seq![hex_char_of(n as u8)]
    } else {
        dec_digits(n / 10) + seq![hex_char_of((n % 10) as u8)]
    }
}

/// The decimal rendering of a signed number: a minus sign for negative
/// values, then the digits of the magnitude.
pub open spec fn dec_of(n: int) -> Seq<char> {
    if n < 0 {
        seq!['-'] + dec_digits((-n) as nat)
    } else {
        dec_digits(n as nat)
    }
}

/// The views of a list of strings.
pub open spec fn texts_view(parts: Seq<String>) -> Seq<Seq<char>> {
    Seq::new(parts.len(), |i: int| parts[i]@)
}

/// The decimal renderings of a list of numbers.
pub open spec fn decs_of(ns: Seq<i32>) -> Seq<Seq<char>> {
    Seq::new(ns.len(), |i: int| dec_of(ns[i] as int))
}

/// Joins the parts with the separator between consecutive parts.
pub fn join_texts(parts: &Vec<String>, sep: &str) -> (r: String)
    ensures
        r@ == join_with(texts_view(parts@), sep@),
{
    let mut r = String::new();
    let mut i: usize = 0;
    while i < parts.len()
        invariant
            i <= parts@.len(),
            r@ == join_with(texts_view(parts@).take(i as int), sep@),
        decreases parts@.len() - i,
    {
        if i > 0 {
            r.append(sep);
        }
        r.append(parts[i].as_str());
        i = i + 1;
        proof {
            let pre = texts_view(parts@).take(i as int);
            assert(pre.drop_last() =~= texts_view(parts@).take(i - 1));
            assert(pre.last() == parts@[i - 1]@);
            if i == 1 {
                assert(r@ =~= join_with(pre, sep@));
            } else {
                assert(r@ =~= join_with(pre, sep@));
            }
        }
    }
    proof {
        assert(texts_view(parts@).take(parts@.len() as int) =~= texts_view(parts@));
    }
    r
}

/// Appends the decimal digits of a number's magnitude.
fn push_dec(n: u32, s: &mut String)
    ensures
        final(s)@ == old(s)@ + dec_digits(n as nat),
    decreases n,
{
    if n < 10 {
        s.append(crate::hexfmt::hex_digit_str(n as u8));
    } else {
        push_dec(n / 10, s);
        s.append(crate::hexfmt::hex_digit_str((n % 10) as u8));
    }
}

/// Renders a signed number in decimal.
pub fn dec_to_string(n: i32) -> (r: String)
    ensures
        r@ == dec_of(n as int),
{
    let mut r = String::new();
    let magnitude: u32 = if n < 0 {
        proof {
            reveal_strlit("-");
        }
        r.append("-");
        (-(n as i64)) as u32
    } else {
        n as u32
    };
    push_dec(magnitude, &mut r);
    proof {
        assert(r@ =~= dec_of(n as int));
    }
    r
}

/// Joins the decimal renderings of the numbers with the separator between
/// consecutive entries.
pub fn join_decs(ns: &Vec<i32>, sep: &str) -> (r: String)
    ensures
        r@ == join_with(decs_of(ns@), sep@),
{
    let mut r = String::new();
    let mut i: usize = 0;
    while i < ns.len()
        invariant
            i <= ns@.len(),
            r@ == join_with(decs_of(ns@).take(i as int), sep@),
        decreases ns@.len() - i,
    {
        if i > 0 {
            r.append(sep);
        }
        let t = dec_to_string(ns[i]);
        r.append(t.as_str());
        i = i + 1;
        proof {
            let pre = decs_of(ns@).take(i as int);
            assert(pre.drop_last() =~= decs_of(ns@).take(i - 1));
            assert(pre.last() == dec_of(ns@[i - 1] as int));
            assert(r@ =~= join_with(pre, sep@));
        }
    }
    proof {
        assert(decs_of(ns@).take(ns@.len() as int) =~= decs_of(ns@));
    }
    r
}

} // verus!
