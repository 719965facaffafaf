//! Building text: decimal numbers, padding, and bytes read as UTF-8.

use vstd::prelude::*;
use vstd::utf8::{decode_utf8, valid_utf8};

verus! {

/// The decimal digit of value `d` (0 to 9).
pub open spec fn spec_digit(d: int) -> char {
    (48 + d) as char
}

/// The decimal digits of `n`, without leading zeros.
pub open spec fn spec_decimal(n: nat) -> Seq<char>
    decreases n,
{
    if n < 10 {
        seq![spec_digit(n as int)]
    } else {
        spec_decimal(n / 10).push(spec_digit((n % 10) as int))
    }
}

/// The text `text` after as many characters `fill` as make it `width`
/// characters long, or alone if it is that long already.
pub open spec fn spec_pad_left(text: Seq<char>, width: nat, fill: char) -> Seq<char> {
    if text.len() >= width {
        text
    } else {
        Seq::new((width - text.len()) as nat, |i: int| fill) + text
    }
}

/// The decimal digits of `n`, filled up on the left to `width` characters.
pub open spec fn spec_padded(n: nat, width: nat, fill: char) -> Seq<char> {
    spec_pad_left(spec_decimal(n), width, fill)
}

/// The decimal digits of `n`, without leading zeros.
pub fn decimal(n: u64) -> (digits: Vec<char>)
    ensures
        digits@ == spec_decimal(n as nat),
        digits.len() >= 1,
{
    let mut reversed: Vec<char> = Vec::new();
    let mut left: u64 = n;
    while left >= 10
        invariant
            spec_decimal(n as nat) == spec_decimal(left as nat) + reversed@.reverse(),
        decreases left,
    {
        let digit = (48 + (left % 10) as u8) as char;
        proof {
            let d = spec_decimal((left / 10) as nat);
            assert(d.push(digit) + reversed@.reverse() =~= d + reversed@.push(digit).reverse());
        }
        reversed.push(digit);
        left = left / 10;
    }
    reversed.push((48 + left as u8) as char);
    proof {
        let before = reversed@.drop_last();
        assert(seq![spec_digit(left as int)] + before.reverse() =~= reversed@.reverse());
    }
    let mut digits: Vec<char> = Vec::new();
    let mut i: usize = reversed.len();
    while i > 0
        invariant
            i <= reversed.len(),
            digits@ == reversed@.reverse().take(reversed.len() - i),
        decreases i,
    {
        i -= 1;
        digits.push(reversed[i]);
        assert(reversed@.reverse().take(reversed.len() - i) =~= reversed@.reverse().take(
            reversed.len() - i - 1,
        ).push(reversed@[i as int]));
    }
    assert(reversed@.reverse().take(reversed.len() as int) =~= reversed@.reverse());
    digits
}

/// Appends the characters of `chars` to `out`.
pub fn push_chars(out: &mut String, chars: &Vec<char>)
    ensures
        final(out)@ == old(out)@ + chars@,
{
    let mut i: usize = 0;
    assert(out@ + chars@.take(0) =~= out@);
    while i < chars.len()
        invariant
            i <= chars.len(),
            out@ == old(out)@ + chars@.take(i as int),
        decreases chars.len() - i,
    {
        out.push(chars[i]);
        assert(old(out)@ + chars@.take(i + 1) =~= (old(out)@ + chars@.take(i as int)).push(
            chars@[i as int],
        ));
        i += 1;
    }
    assert(chars@.take(chars.len() as int) =~= chars@);
}

/// Appends `chars` to `out`, filled up on the left to `width` characters.
pub fn push_pad_left(out: &mut String, chars: &Vec<char>, width: usize, fill: char)
    ensures
        final(out)@ == old(out)@ + spec_pad_left(chars@, width as nat, fill),
{
    let mut len: usize = chars.len();
    let ghost filled: Seq<char> = Seq::empty();
    assert(out@ + filled =~= out@);
    while len < width
        invariant
            chars.len() <= len,
            len <= width || len == chars.len(),
            filled == Seq::new((len - chars.len()) as nat, |i: int| fill),
            out@ == old(out)@ + filled,
        decreases width - len,
    {
        out.push(fill);
        proof {
            let more = Seq::new((len + 1 - chars.len()) as nat, |i: int| fill);
            assert(more =~= filled.push(fill));
            assert(old(out)@ + more =~= (old(out)@ + filled).push(fill));
            filled = more;
        }
        len += 1;
    }
    let ghost before = out@;
    push_chars(out, chars);
    proof {
        if chars.len() >= width {
            assert(filled =~= Seq::<char>::empty());
            assert(before + chars@ =~= old(out)@ + chars@);
        } else {
            assert(before + chars@ =~= old(out)@ + (filled + chars@));
        }
    }
}

/// Appends the decimal digits of `n` to `out`.
pub fn push_decimal(out: &mut String, n: u64)
    ensures
        final(out)@ == old(out)@ + spec_decimal(n as nat),
{
    let digits = decimal(n);
    push_chars(out, &digits);
}

/// Appends the decimal digits of `n` to `out`, filled up on the left to
/// `width` characters.
pub fn push_padded(out: &mut String, n: u64, width: usize, fill: char)
    ensures
        final(out)@ == old(out)@ + spec_padded(n as nat, width as nat, fill),
{
    let digits = decimal(n);
    push_pad_left(out, &digits, width, fill);
}

/// Reads `bytes` as UTF-8: the text that they encode, or `None` if they are
/// no valid UTF-8.
///
/// Calls `core::str::from_utf8`, which succeeds exactly on valid UTF-8 and
/// then gives the string whose encoding the bytes are. Not proved.
#[verifier::external_body]
pub(crate) fn utf8_text(bytes: &[u8]) -> (r: Option<String>)
    ensures
        match r {
            Some(text) => valid_utf8(bytes@) && text@ == decode_utf8(bytes@),
            None => !valid_utf8(bytes@),
        },
{
    match core::str::from_utf8(bytes) {
        Ok(text) => Some(text.to_string()),
        Err(_) => None,
    }
}

} // verus!
