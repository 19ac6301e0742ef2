//! Numeric literals and 32-bit arithmetic.
//!
//! The number parser accepts an optional single leading minus followed by
//! one or more decimal digits; anything else is not a literal.  Arithmetic
//! wraps around in 32 bits, and division and modulo truncate toward zero,
//! as the machine's signed division does.  The decimal printer is the exact
//! inverse notation: a minus sign for negative values, then the digits of
//! the magnitude, most significant first.

use vstd::prelude::*;

use vstd::math::abs;

verus! {

/// True of the ASCII bytes `0` through `9`.
pub open spec fn is_digit(b: u8) -> bool {
    48 <= b && b <= 57
}

/// True when every byte of `s` is an ASCII digit.
pub open spec fn all_digits(s: Seq<u8>) -> bool {
    forall|i: int| 0 <= i < s.len() ==> is_digit(#[trigger] s[i])
}

/// The value of the digit string `s` read left to right into a 32-bit
/// accumulator that starts at `acc`: each digit multiplies the accumulator
/// by ten and adds itself, wrapping in 32 bits.
pub open spec fn digits_value(s: Seq<u8>, acc: i32) -> i32
    decreases s.len(),
{
    if s.len() == 0 {
        acc
    } else {
        digits_value(
            s.drop_first(),
            vstd::wrapping::i32_specs::wrapping_add(
                vstd::wrapping::i32_specs::wrapping_mul(acc, 10),
                (s[0] - 48) as i32,
            ),
        )
    }
}

/// 32-bit wrapping negation.
pub open spec fn negated(v: i32) -> i32 {
    if v == i32::MIN {
        i32::MIN
    } else {
        (-v) as i32
    }
}

/// What the number parser recognizes: an optional single leading minus,
/// then one or more decimal digits, accumulated with 32-bit wrap-around.
/// Any other shape is not a numeric literal.
pub open spec fn parse_number_spec(w: Seq<u8>) -> Option<i32> {
    if w.len() == 0 {
        None
    } else if w[0] == 45 {
        if w.len() == 1 {
            None
        } else if all_digits(w.skip(1)) {
            Some(negated(digits_value(w.skip(1), 0)))
        } else {
            None
        }
    } else if all_digits(w) {
        Some(digits_value(w, 0))
    } else {
        None
    }
}

/// Recognizes an optional leading `-` followed by decimal digits and returns
/// the 32-bit value, wrapping on overflow; returns `None` for any token that
/// is not a numeric literal.
pub fn parse_number(word: &[u8]) -> (r: Option<i32>)
    ensures
        r == parse_number_spec(word@),
{
    if word.len() == 0 {
        return None;
    }
    let negative = word[0] == 45;
    let start: usize = if negative {
        1
    } else {
        0
    };
    if negative && word.len() == 1 {
        return None;
    }
    let digits = Ghost(word@.skip(start as int));
    let mut result: i32 = 0;
    let mut i: usize = start;
    while i < word.len()
        invariant
            start <= i <= word.len(),
            start <= 1,
            word@.len() > 0,
            negative == (word@[0] == 45),
            negative ==> start == 1 && word@.len() >= 2,
            !negative ==> start == 0,
            digits@ == word@.skip(start as int),
            all_digits(word@.subrange(start as int, i as int)),
            digits_value(digits@, 0) == digits_value(word@.skip(i as int), result),
        decreases word.len() - i,
    {
        let b = word[i];
        if b < 48 || b > 57 {
            proof {
                let w = word@;
                assert(w.skip(start as int)[i - start] == w[i as int]);
                assert(!is_digit(w[i as int]));
                assert(!all_digits(w.skip(start as int)));
                if negative {
                    assert(parse_number_spec(w) is None);
                } else {
                    assert(w.skip(0) =~= w);
                    assert(!all_digits(w));
                    assert(parse_number_spec(w) is None);
                }
            }
            return None;
        }
        proof {
            assert(word@.skip(i as int)[0] == word@[i as int]);
            assert(word@.skip(i as int).drop_first() =~= word@.skip(i as int + 1));
            assert(word@.subrange(start as int, i as int + 1) =~= word@.subrange(
                start as int,
                i as int,
            ).push(b));
        }
        result = result.wrapping_mul(10).wrapping_add((b - 48) as i32);
        i += 1;
    }
    proof {
        assert(word@.subrange(start as int, word@.len() as int) =~= word@.skip(start as int));
        assert(word@.skip(i as int) =~= Seq::<u8>::empty());
        assert(digits_value(word@.skip(i as int), result) == result);
        assert(word@.skip(0) =~= word@);
    }
    if negative {
        if result == i32::MIN {
            Some(i32::MIN)
        } else {
            Some(-result)
        }
    } else {
        Some(result)
    }
}

/// Division truncated toward zero, as an unbounded integer.
pub open spec fn div_trunc(a: int, b: int) -> int {
    let q = abs(a) / abs(b);
    if (a < 0) != (b < 0) {
        -q
    } else {
        q as int
    }
}

/// Remainder of division truncated toward zero: it carries the sign of the
/// dividend and satisfies `a == b * div_trunc(a, b) + rem_trunc(a, b)`.
pub open spec fn rem_trunc(a: int, b: int) -> int {
    let r = abs(a) % abs(b);
    if a < 0 {
        -r
    } else {
        r as int
    }
}

/// Truncated division and remainder decompose the dividend:
/// `a == b * div_trunc(a, b) + rem_trunc(a, b)`.
pub proof fn lemma_div_rem_decomposition(a: int, b: int)
    requires
        b != 0,
    ensures
        a == b * div_trunc(a, b) + rem_trunc(a, b),
{
    vstd::arithmetic::div_mod::lemma_fundamental_div_mod(abs(a) as int, abs(b) as int);
    let q = abs(a) as int / abs(b) as int;
    let r = abs(a) as int % abs(b) as int;
    assert(abs(a) == abs(b) * q + r);
    if a >= 0 && b > 0 {
        assert(a == b * q + r);
    } else if a >= 0 && b < 0 {
        assert(abs(b) * q == b * (-q)) by (nonlinear_arith)
            requires
                abs(b) == -b,
        ;
    } else if a < 0 && b > 0 {
        assert(a == -(abs(b) * q + r));
        assert(abs(b) * q == b * q) by (nonlinear_arith)
            requires
                abs(b) == b,
        ;
        assert(-(b * q) == b * (-q)) by (nonlinear_arith);
    } else {
        assert(a == -(abs(b) * q + r));
        assert(abs(b) * q == (-b) * q) by (nonlinear_arith)
            requires
                abs(b) == -b,
        ;
        assert(-((-b) * q) == b * q) by (nonlinear_arith);
    }
}

/// The magnitude of `v` as an unsigned 32-bit value.
fn magnitude(v: i32) -> (m: u32)
    ensures
        m == abs(v as int),
{
    if v == i32::MIN {
        0x8000_0000u32
    } else if v < 0 {
        (-v) as u32
    } else {
        v as u32
    }
}

/// The 32-bit quotient of `a` and `b`, truncated toward zero: the one
/// overflowing case, `i32::MIN / -1`, wraps back to `i32::MIN`.
pub open spec fn div_value(a: i32, b: i32) -> i32 {
    if a == i32::MIN && b == -1 {
        i32::MIN
    } else {
        div_trunc(a as int, b as int) as i32
    }
}

/// The 32-bit remainder of `a` and `b`, truncated toward zero; it always
/// fits, and `i32::MIN % -1` is zero.
pub open spec fn rem_value(a: i32, b: i32) -> i32 {
    rem_trunc(a as int, b as int) as i32
}

/// Signed division truncating toward zero, wrapping in 32 bits: the one
/// overflowing quotient, `i32::MIN / -1`, wraps back to `i32::MIN`.
pub fn div_wrapping(a: i32, b: i32) -> (r: i32)
    requires
        b != 0,
    ensures
        r == div_value(a, b),
{
    let ma = magnitude(a);
    let mb = magnitude(b);
    let q = ma / mb;
    proof {
        assert(ma as int / mb as int <= ma as int) by (nonlinear_arith)
            requires
                mb >= 1,
                ma >= 0,
        ;
        assert(q <= 0x8000_0000u32);
    }
    let r: i32 = if (a < 0) != (b < 0) {
        if q == 0x8000_0000u32 {
            i32::MIN
        } else {
            -(q as i32)
        }
    } else {
        if q == 0x8000_0000u32 {
            i32::MIN
        } else {
            q as i32
        }
    };
    proof {
        if b == 1 || b == -1 {
            assert(mb == 1);
            assert(ma as int / mb as int == ma as int) by (nonlinear_arith)
                requires
                    mb == 1,
                    ma >= 0,
            ;
        }
        if q == 0x8000_0000u32 {
            if mb >= 2 {
                assert((ma as int) / (mb as int) < 0x8000_0000) by (nonlinear_arith)
                    requires
                        ma <= 0x8000_0000,
                        mb >= 2,
                ;
            }
            assert(mb == 1);
            assert(ma == 0x8000_0000);
            assert(a == i32::MIN);
            assert(b == 1 || b == -1);
        }
        if (a < 0) != (b < 0) {
            assert(div_trunc(a as int, b as int) == -(q as int));
            assert(r as int == -(q as int));
        } else {
            assert(div_trunc(a as int, b as int) == q as int);
            if q == 0x8000_0000u32 {
                assert(a == i32::MIN && b == -1);
            } else {
                assert(r as int == q as int);
            }
        }
    }
    r
}

/// Signed remainder truncating toward zero; its magnitude is below the
/// divisor's, so it never overflows, and `i32::MIN % -1` is zero.
pub fn rem_wrapping(a: i32, b: i32) -> (r: i32)
    requires
        b != 0,
    ensures
        r == rem_value(a, b),
{
    let ma = magnitude(a);
    let mb = magnitude(b);
    let m = ma % mb;
    if a < 0 {
        if m == 0 {
            0
        } else {
            -(m as i32)
        }
    } else {
        m as i32
    }
}

/// The decimal digits of `n`, most significant first.
pub open spec fn dec_digits(n: nat) -> Seq<u8>
    decreases n,
{
    if n < 10 {
        seq![(48 + n) as u8]
    } else {
        dec_digits(n / 10) + seq![(48 + n % 10) as u8]
    }
}

/// The decimal notation of `v`: a minus sign for a negative value, then the
/// digits of its magnitude.
pub open spec fn decimal(v: i32) -> Seq<u8> {
    if v >= 0 {
        dec_digits(v as nat)
    } else {
        seq![45u8] + dec_digits(abs(v as int))
    }
}

/// Appends the decimal digits of `n`, most significant first, to `out`.
fn push_dec_digits(out: &mut Vec<u8>, n: u32)
    ensures
        final(out)@ == old(out)@ + dec_digits(n as nat),
{
    let mut rev: Vec<u8> = Vec::new();
    let mut rest: u32 = n;
    if rest < 10 {
        out.push(48 + (rest as u8));
        proof {
            assert(out@ =~= old(out)@ + dec_digits(n as nat));
        }
        return;
    }
    while rest >= 10
        invariant
            dec_digits(n as nat) == dec_digits(rest as nat) + rev@.reverse(),
        decreases rest,
    {
        let d = 48 + ((rest % 10) as u8);
        proof {
            assert(dec_digits(rest as nat) =~= dec_digits(rest as nat / 10) + seq![
                (48 + rest as nat % 10) as u8,
            ]);
            assert(rev@.push(d).reverse() =~= seq![d] + rev@.reverse());
            assert(dec_digits(rest as nat / 10) + rev@.push(d).reverse() =~= dec_digits(
                rest as nat,
            ) + rev@.reverse());
        }
        rev.push(d);
        rest = rest / 10;
    }
    out.push(48 + (rest as u8));
    proof {
        assert(dec_digits(rest as nat) =~= seq![(48 + rest as nat) as u8]);
    }
    let ghost mid = out@;
    let ghost revsnap = rev@;
    proof {
        assert(mid =~= old(out)@ + dec_digits(rest as nat));
    }
    let mut j: usize = rev.len();
    while j > 0
        invariant
            j <= rev.len(),
            rev@ == revsnap,
            out@ == mid + revsnap.reverse().take(rev@.len() - j),
        decreases j,
    {
        j -= 1;
        let d = rev[j];
        proof {
            assert(revsnap.reverse()[revsnap.len() - 1 - j] == revsnap[j as int]);
            assert(revsnap.reverse().take(revsnap.len() - j) =~= revsnap.reverse().take(
                revsnap.len() - j - 1,
            ).push(revsnap[j as int]));
        }
        out.push(d);
    }
    proof {
        assert(revsnap.reverse().take(revsnap.len() as int) =~= revsnap.reverse());
        assert(out@ =~= old(out)@ + dec_digits(rest as nat) + revsnap.reverse());
        assert(out@ =~= old(out)@ + dec_digits(n as nat));
    }
}

/// Appends the decimal notation of `v` to `out`.
pub fn push_decimal(out: &mut Vec<u8>, v: i32)
    ensures
        final(out)@ == old(out)@ + decimal(v),
{
    if v < 0 {
        out.push(45);
    }
    let m = magnitude(v);
    push_dec_digits(out, m);
    proof {
        if v < 0 {
            assert(out@ =~= old(out)@ + decimal(v));
        }
    }
}

} // verus!
