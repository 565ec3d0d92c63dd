//! Text rendering of numbers: unsigned decimals for object keys and
//! fixed-point hundredths for temperatures.

use vstd::prelude::*;
use vstd::arithmetic::div_mod::lemma_div_denominator;

verus! {

/// `std::string::String::push` appends one character to the end of the
/// string and leaves what was there in place.
pub assume_specification[ String::push ](s: &mut String, c: char)
    ensures
        final(s)@ == old(s)@.push(c),
;

/// The character that writes the digit `d`.
pub open spec fn digit_char(d: int) -> char {
    (0x30 + d) as u8 as char
}

/// The decimal numeral of `n`, without leading zeros.
pub open spec fn decimal(n: nat) -> Seq<char>
    decreases n,
{
    if n < 10 {
        seq![digit_char(n as int)]
    } else {
        decimal(n / 10).push(digit_char((n % 10) as int))
    }
}

/// A number of hundredths as a decimal fraction: a minus sign where it is
/// negative, the whole part, and the fraction cut after its last digit that
/// is not zero, so `2000` reads `20`, `2050` reads `20.5` and `-5` reads
/// `-0.05`.
pub open spec fn centi_text(c: int) -> Seq<char> {
    let sign = if c < 0 {
        seq!['-']
    } else {
        Seq::<char>::empty()
    };
    let magnitude = if c < 0 {
        -c
    } else {
        c
    };
    let whole = decimal((magnitude / 100) as nat);
    let tenths = magnitude % 100 / 10;
    let hundredths = magnitude % 10;
    if hundredths != 0 {
        sign + whole + seq!['.', digit_char(tenths), digit_char(hundredths)]
    } else if tenths != 0 {
        sign + whole + seq!['.', digit_char(tenths)]
    } else {
        sign + whole
    }
}

/// The character for one digit.
fn digit(d: u8) -> (c: char)
    requires
        d < 10,
    ensures
        c == digit_char(d as int),
{
    (0x30 + d) as char
}

/// Ten to the power `k`.
spec fn pow10(k: nat) -> int
    decreases k,
{
    if k == 0 {
        1
    } else {
        10 * pow10((k - 1) as nat)
    }
}

/// Appends the decimal numeral of `n` to `out`.
pub fn push_decimal(out: &mut String, n: u64)
    ensures
        final(out)@ == old(out)@ + decimal(n as nat),
{
    let ghost before = out@;
    let mut div: u64 = 1;
    let ghost mut k: nat = 0;
    while n / div >= 10
        invariant
            div == pow10(k),
            1 <= div,
            div <= n || div == 1,
        decreases n / div,
    {
        proof {
            lemma_div_denominator(n as int, div as int, 10);
            assert(div * 10 <= n) by (nonlinear_arith)
                requires
                    n / div >= 10,
                    div >= 1,
            ;
            k = k + 1;
        }
        div = div * 10;
    }
    out.push(digit((n / div) as u8));
    while div > 1
        invariant
            div == pow10(k),
            1 <= div,
            div <= n || div == 1,
            out@ == before + decimal((n / div) as nat),
        decreases div,
    {
        let next: u64 = div / 10;
        proof {
            k = (k - 1) as nat;
            assert(div == 10 * next);
            lemma_div_denominator(n as int, next as int, 10);
            assert(n / next >= 10) by (nonlinear_arith)
                requires
                    next >= 1,
                    n >= 10 * next,
            ;
        }
        out.push(digit((n / next % 10) as u8));
        div = next;
    }
}

/// Appends a number of hundredths as a decimal fraction to `out`.
pub fn push_centi(out: &mut String, c: i32)
    ensures
        final(out)@ == old(out)@ + centi_text(c as int),
{
    let ghost before = out@;
    let magnitude: u64 = if c < 0 {
        out.push('-');
        (-(c as i64)) as u64
    } else {
        c as u64
    };
    push_decimal(out, magnitude / 100);
    let tenths: u8 = (magnitude % 100 / 10) as u8;
    let hundredths: u8 = (magnitude % 10) as u8;
    if hundredths != 0 {
        out.push('.');
        out.push(digit(tenths));
        out.push(digit(hundredths));
    } else if tenths != 0 {
        out.push('.');
        out.push(digit(tenths));
    }
    assert(out@ == before + centi_text(c as int));
}


/// The text holds `c` nowhere.
pub open spec fn lacks(text: Seq<char>, c: char) -> bool {
    forall|i: int| 0 <= i < text.len() ==> text[i] != c
}

/// Text that can stand in one field of a CSV row: it holds neither a comma
/// nor a line break.
pub open spec fn is_field_text(text: Seq<char>) -> bool {
    lacks(text, ',') && lacks(text, '\n')
}

/// The parts joined by single separators, with none after the last part.
pub open spec fn join(parts: Seq<Seq<char>>, sep: char) -> Seq<char>
    decreases parts.len(),
{
    if parts.len() == 0 {
        Seq::empty()
    } else if parts.len() == 1 {
        parts[0]
    } else {
        join(parts.drop_last(), sep) + seq![sep] + parts.last()
    }
}

/// The parts of a text between its separators. A text without separator is
/// one part, the empty text one empty part, and a separator at either end
/// has an empty part beside it.
pub open spec fn split(text: Seq<char>, sep: char) -> Seq<Seq<char>>
    decreases text.len(),
{
    if text.len() == 0 {
        seq![Seq::empty()]
    } else {
        let before = split(text.drop_last(), sep);
        if text.last() == sep {
            before.push(Seq::empty())
        } else {
            before.drop_last().push(before.last().push(text.last()))
        }
    }
}

/// A split always yields at least one part.
pub proof fn lemma_split_nonempty(text: Seq<char>, sep: char)
    ensures
        split(text, sep).len() >= 1,
    decreases text.len(),
{
    if text.len() > 0 {
        lemma_split_nonempty(text.drop_last(), sep);
    }
}

/// Text without separator, put behind another text, lengthens that text's
/// last part and adds none.
pub proof fn lemma_split_append(text: Seq<char>, tail: Seq<char>, sep: char)
    requires
        lacks(tail, sep),
    ensures
        split(text + tail, sep) == split(text, sep).drop_last().push(
            split(text, sep).last() + tail,
        ),
    decreases tail.len(),
{
    lemma_split_nonempty(text, sep);
    let parts = split(text, sep);
    if tail.len() == 0 {
        assert(text + tail =~= text);
        assert(parts.last() + tail =~= parts.last());
        assert(parts.drop_last().push(parts.last()) =~= parts);
    } else {
        lemma_split_append(text, tail.drop_last(), sep);
        assert((text + tail).drop_last() =~= text + tail.drop_last());
        assert((text + tail).last() == tail.last());
        let shorter = parts.drop_last().push(parts.last() + tail.drop_last());
        assert(shorter.drop_last() =~= parts.drop_last());
        assert((parts.last() + tail.drop_last()).push(tail.last()) =~= parts.last() + tail);
    }
}

/// Splitting undoes joining: parts that hold no separator, at least one of
/// them, come back as they were.
pub proof fn lemma_split_join(parts: Seq<Seq<char>>, sep: char)
    requires
        parts.len() >= 1,
        forall|i: int| 0 <= i < parts.len() ==> lacks(#[trigger] parts[i], sep),
    ensures
        split(join(parts, sep), sep) == parts,
    decreases parts.len(),
{
    let empty = Seq::<char>::empty();
    if parts.len() == 1 {
        lemma_split_append(empty, parts[0], sep);
        assert(empty + parts[0] =~= parts[0]);
        assert(split(empty, sep) =~= seq![empty]);
        assert(seq![empty].drop_last().push(empty + parts[0]) =~= parts);
    } else {
        let front = parts.drop_last();
        lemma_split_join(front, sep);
        let joined = join(front, sep);
        let broken = joined + seq![sep];
        assert(broken.drop_last() =~= joined);
        assert(split(broken, sep) == front.push(empty));
        lemma_split_append(broken, parts.last(), sep);
        assert(front.push(empty).drop_last() =~= front);
        assert(empty + parts.last() =~= parts.last());
        assert(front.push(parts.last()) =~= parts);
    }
}

/// A digit's character is neither a comma nor a line break, and so is every
/// character of a decimal numeral.
pub proof fn lemma_decimal_is_field_text(n: nat)
    ensures
        is_field_text(decimal(n)),
    decreases n,
{
    if n >= 10 {
        lemma_decimal_is_field_text(n / 10);
    }
}

/// A number of hundredths is written without comma and line break.
pub proof fn lemma_centi_is_field_text(c: int)
    ensures
        is_field_text(centi_text(c)),
{
    let magnitude = if c < 0 {
        -c
    } else {
        c
    };
    lemma_decimal_is_field_text((magnitude / 100) as nat);
}

} // verus!
