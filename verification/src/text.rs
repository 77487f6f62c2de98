use vstd::prelude::*;

verus! {

use vstd::utf8::{valid_utf8, decode_utf8};

/// The lowercase hexadecimal digit character for a value below sixteen.
pub open spec fn hex_digit(n: int) -> char {
    if n == 0 { '0' } else if n == 1 { '1' } else if n == 2 { '2' } else if n == 3 { '3' }
    else if n == 4 { '4' } else if n == 5 { '5' } else if n == 6 { '6' } else if n == 7 { '7' }
    else if n == 8 { '8' } else if n == 9 { '9' } else if n == 10 { 'a' } else if n == 11 { 'b' }
    else if n == 12 { 'c' } else if n == 13 { 'd' } else if n == 14 { 'e' } else { 'f' }
}

/// The decimal text of a non-negative number, most significant digit first.
pub open spec fn dec_rep(n: int) -> Seq<char>
    decreases n,
{
    if n < 10 {
        seq![hex_digit(n)]
    } else {
        dec_rep(n / 10).push(hex_digit(n % 10))
    }
}

/// The lowercase hexadecimal text of a non-negative number, without
/// leading zeros, most significant digit first.
pub open spec fn hex_rep(n: int) -> Seq<char>
    decreases n,
{
    if n < 16 {
        seq![hex_digit(n)]
    } else {
        hex_rep(n / 16).push(hex_digit(n % 16))
    }
}

/// Returns the one-character string holding the digit for `n`.
fn hex_digit_str(n: u8) -> (r: &'static str)
    requires
        n < 16,
    ensures
        r@ =~= seq![hex_digit(n as int)],
{
    proof {
        reveal_strlit("0");
        reveal_strlit("1");
        reveal_strlit("2");
        reveal_strlit("3");
        reveal_strlit("4");
        reveal_strlit("5");
        reveal_strlit("6");
        reveal_strlit("7");
        reveal_strlit("8");
        reveal_strlit("9");
        reveal_strlit("a");
        reveal_strlit("b");
        reveal_strlit("c");
        reveal_strlit("d");
        reveal_strlit("e");
        reveal_strlit("f");
    }
    match n {
        0 => "0",
        1 => "1",
        2 => "2",
        3 => "3",
        4 => "4",
        5 => "5",
        6 => "6",
        7 => "7",
        8 => "8",
        9 => "9",
        10 => "a",
        11 => "b",
        12 => "c",
        13 => "d",
        14 => "e",
        _ => "f",
    }
}

/// Appends the decimal text of `n` to `s`.
pub fn append_dec_u8(s: &mut String, n: u8)
    ensures
        final(s)@ == old(s)@ + dec_rep(n as int),
{
    if n >= 100 {
        let h: u8 = n / 10;
        s.append(hex_digit_str(h / 10));
        s.append(hex_digit_str(h % 10));
        s.append(hex_digit_str(n % 10));
        proof {
            reveal_with_fuel(dec_rep, 4);
            assert(dec_rep(n as int) =~= seq![
                hex_digit(n as int / 10 / 10),
                hex_digit((n as int / 10) % 10),
                hex_digit(n as int % 10),
            ]);
            assert(final(s)@ =~= old(s)@ + dec_rep(n as int));
        }
    } else if n >= 10 {
        s.append(hex_digit_str(n / 10));
        s.append(hex_digit_str(n % 10));
        proof {
            reveal_with_fuel(dec_rep, 3);
            assert(dec_rep(n as int) =~= seq![hex_digit(n as int / 10), hex_digit(n as int % 10)]);
            assert(final(s)@ =~= old(s)@ + dec_rep(n as int));
        }
    } else {
        s.append(hex_digit_str(n));
        proof {
            assert(final(s)@ =~= old(s)@ + dec_rep(n as int));
        }
    }
}

/// Appends the hexadecimal text of `n` to `s`, without leading zeros.
pub fn append_hex_u16(s: &mut String, n: u16)
    ensures
        final(s)@ == old(s)@ + hex_rep(n as int),
{
    if n >= 0x1000 {
        let h2: u16 = n / 16 / 16;
        s.append(hex_digit_str((h2 / 16) as u8));
        s.append(hex_digit_str((h2 % 16) as u8));
        s.append(hex_digit_str(((n / 16) % 16) as u8));
        s.append(hex_digit_str((n % 16) as u8));
        proof {
            reveal_with_fuel(hex_rep, 5);
            assert(hex_rep(n as int) =~= seq![
                hex_digit(n as int / 16 / 16 / 16),
                hex_digit((n as int / 16 / 16) % 16),
                hex_digit((n as int / 16) % 16),
                hex_digit(n as int % 16),
            ]);
            assert(final(s)@ =~= old(s)@ + hex_rep(n as int));
        }
    } else if n >= 0x100 {
        let h: u16 = n / 16;
        s.append(hex_digit_str((h / 16) as u8));
        s.append(hex_digit_str((h % 16) as u8));
        s.append(hex_digit_str((n % 16) as u8));
        proof {
            reveal_with_fuel(hex_rep, 4);
            assert(hex_rep(n as int) =~= seq![
                hex_digit(n as int / 16 / 16),
                hex_digit((n as int / 16) % 16),
                hex_digit(n as int % 16),
            ]);
            assert(final(s)@ =~= old(s)@ + hex_rep(n as int));
        }
    } else if n >= 16 {
        s.append(hex_digit_str((n / 16) as u8));
        s.append(hex_digit_str((n % 16) as u8));
        proof {
            reveal_with_fuel(hex_rep, 3);
            assert(hex_rep(n as int) =~= seq![hex_digit(n as int / 16), hex_digit(n as int % 16)]);
            assert(final(s)@ =~= old(s)@ + hex_rep(n as int));
        }
    } else {
        s.append(hex_digit_str(n as u8));
        proof {
            assert(final(s)@ =~= old(s)@ + hex_rep(n as int));
        }
    }
}

/// Whether every byte of `s` is a decimal digit.
pub open spec fn all_digits(s: Seq<u8>) -> bool {
    forall|i: int| 0 <= i < s.len() ==> 48 <= #[trigger] s[i] <= 57
}

/// The number a sequence of decimal digit bytes denotes.
pub open spec fn dec_value(s: Seq<u8>) -> int
    decreases s.len(),
{
    if s.len() == 0 {
        0
    } else {
        dec_value(s.drop_last()) * 10 + (s.last() - 48)
    }
}

proof fn lemma_dec_value_nonneg(s: Seq<u8>)
    requires
        all_digits(s),
    ensures
        dec_value(s) >= 0,
    decreases s.len(),
{
    if s.len() > 0 {
        assert(all_digits(s.drop_last()));
        lemma_dec_value_nonneg(s.drop_last());
    }
}

proof fn lemma_dec_value_prefix_bound(s: Seq<u8>, k: int)
    requires
        all_digits(s),
        0 <= k <= s.len(),
    ensures
        dec_value(s.take(k)) <= dec_value(s),
    decreases s.len() - k,
{
    if k == s.len() {
        assert(s.take(k) =~= s);
    } else {
        assert(s.take(k + 1).drop_last() =~= s.take(k));
        assert(all_digits(s.take(k)));
        lemma_dec_value_nonneg(s.take(k));
        lemma_dec_value_prefix_bound(s, k + 1);
    }
}

/// Parses a decimal number: its value when `s` is non-empty, all digits,
/// and the value fits the machine word; nothing otherwise.
pub fn parse_usize(s: &[u8]) -> (r: Option<usize>)
    ensures
        r is Some <==> (s@.len() > 0 && all_digits(s@) && dec_value(s@) <= usize::MAX),
        r is Some ==> r.unwrap() == dec_value(s@),
{
    if s.len() == 0 {
        return None;
    }
    let mut acc: usize = 0;
    let mut i: usize = 0;
    while i < s.len()
        invariant
            i <= s@.len(),
            all_digits(s@.take(i as int)),
            acc == dec_value(s@.take(i as int)),
        decreases s@.len() - i,
    {
        let b = *vstd::slice::slice_index_get(s, i);
        if b < 48 || b > 57 {
            return None;
        }
        let digit = (b - 48) as usize;
        proof {
            assert(s@.take(i as int + 1).drop_last() =~= s@.take(i as int));
            assert(all_digits(s@.take(i as int + 1)));
        }
        let widened = match acc.checked_mul(10) {
            Some(widened) => widened,
            None => {
                proof {
                    if all_digits(s@) {
                        lemma_dec_value_prefix_bound(s@, i as int + 1);
                    }
                }
                return None;
            }
        };
        acc = match widened.checked_add(digit) {
            Some(next) => next,
            None => {
                proof {
                    if all_digits(s@) {
                        lemma_dec_value_prefix_bound(s@, i as int + 1);
                    }
                }
                return None;
            }
        };
        i = i + 1;
    }
    proof {
        assert(s@.take(i as int) =~= s@);
    }
    Some(acc)
}

/// Relies on String::from_utf8: it succeeds exactly when the bytes are
/// valid UTF-8, and the resulting string's characters decode those bytes.
#[verifier::external_body]
pub(crate) fn string_from_utf8(bytes: Vec<u8>) -> (r: Option<String>)
    ensures
        r is Some <==> valid_utf8(bytes@),
        r is Some ==> r.unwrap()@ == decode_utf8(bytes@),
{
    String::from_utf8(bytes).ok()
}

} // verus!
