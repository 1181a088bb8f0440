//! The embedded pet document: a JSON text held in one string field of the
//! attribute bag, decoded independently of the outer tree so that its
//! failure can degrade only the pet sub-fields.
//!
//! The outside JSON parse is reduced, behind one trusted wrapper, to the
//! document's top-level members in scalar form, under the specification name
//! [`crate::trusted::json_members_of`]. Everything after that — which
//! members a pet document must have, their kinds, and the explicit bounded
//! narrowing of its numbers — is verified code with an exact contract:
//! [`decode_pet`] returns precisely what [`sp_decode_pet`] denotes.

use vstd::arithmetic::power::pow;
use vstd::prelude::*;
use vstd::string::StrSliceExecFns;

use crate::errors::DecodeError;
use crate::text::{dec_num, dec_num_nonneg, digit_val, first_sep, is_digit, str_eq};

verus! {

/// A top-level JSON member value reduced to scalar form: numbers carry
/// their canonical decimal rendering, arrays and objects only the fact that
/// they are composite.
#[derive(Debug, Clone)]
pub enum JsonPrim {
    Null,
    Flag(bool),
    NumText(String),
    Text(String),
    Composite,
}

/// The view of [`JsonPrim`].
pub enum JsonPrimV {
    Null,
    Flag(bool),
    NumText(Seq<char>),
    Text(Seq<char>),
    Composite,
}

impl View for JsonPrim {
    type V = JsonPrimV;

    open spec fn view(&self) -> JsonPrimV {
        match self {
            JsonPrim::Null => JsonPrimV::Null,
            JsonPrim::Flag(b) => JsonPrimV::Flag(*b),
            JsonPrim::NumText(t) => JsonPrimV::NumText(t@),
            JsonPrim::Text(t) => JsonPrimV::Text(t@),
            JsonPrim::Composite => JsonPrimV::Composite,
        }
    }
}

/// The decoded pet companion state. Numeric experience is kept already
/// narrowed to the storage domain: the integer part of the document's
/// experience value.
#[derive(Debug, Clone)]
pub struct PetInfo {
    pub p_type: String,
    pub active: Option<bool>,
    pub held_item: Option<String>,
    pub exp: i32,
    pub candy_used: Option<u8>,
    pub tier: Option<String>,
    pub skin: Option<String>,
    pub uuid: Option<String>,
    pub unique_id: Option<String>,
    pub hide_right_click: Option<bool>,
    pub no_move: Option<bool>,
    pub hide_info: Option<bool>,
}

/// The view of [`PetInfo`].
#[verifier::ext_equal]
pub struct PetInfoV {
    pub p_type: Seq<char>,
    pub active: Option<bool>,
    pub held_item: Option<Seq<char>>,
    pub exp: i32,
    pub candy_used: Option<u8>,
    pub tier: Option<Seq<char>>,
    pub skin: Option<Seq<char>>,
    pub uuid: Option<Seq<char>>,
    pub unique_id: Option<Seq<char>>,
    pub hide_right_click: Option<bool>,
    pub no_move: Option<bool>,
    pub hide_info: Option<bool>,
}

impl View for PetInfo {
    type V = PetInfoV;

    open spec fn view(&self) -> PetInfoV {
        PetInfoV {
            p_type: self.p_type@,
            active: self.active,
            held_item: crate::item::opt_text_view(self.held_item),
            exp: self.exp,
            candy_used: self.candy_used,
            tier: crate::item::opt_text_view(self.tier),
            skin: crate::item::opt_text_view(self.skin),
            uuid: crate::item::opt_text_view(self.uuid),
            unique_id: crate::item::opt_text_view(self.unique_id),
            hide_right_click: self.hide_right_click,
            no_move: self.no_move,
            hide_info: self.hide_info,
        }
    }
}

/// Powers of ten.
pub open spec fn pow10(e: nat) -> int {
    pow(10, e)
}

/// One unfolding of [`pow10`].
proof fn lemma_pow10_unfold(e: nat)
    requires
        e >= 1,
    ensures
        pow10(e) == 10 * pow10((e - 1) as nat),
{
    reveal(vstd::arithmetic::power::pow);
}

/// Whether every character of `s` is a decimal digit.
pub open spec fn all_digits(s: Seq<char>) -> bool {
    forall|i: int| 0 <= i < s.len() ==> is_digit(s[i])
}

/// The structure of a canonical decimal number text: the sign, the digit
/// string (integer and fraction digits concatenated), and the position of
/// the decimal point counted from the left after applying the exponent.
/// `None` for any other shape. The accepted grammar is the canonical
/// rendering of a JSON number: an optional minus, integer digits, an
/// optional fraction after one point, an optional `e` exponent with an
/// optional minus and at most three digits — more than any canonical
/// rendering carries.
#[verifier::opaque]
pub open spec fn num_text_parts(s: Seq<char>) -> Option<(bool, Seq<char>, int)> {
    let neg = s.len() > 0 && s[0] == '-';
    let body = if neg {
        s.drop_first()
    } else {
        s
    };
    let ei = first_sep(body, 'e');
    let mant = if ei == -1 {
        body
    } else {
        body.take(ei)
    };
    let etxt = if ei == -1 {
        Seq::<char>::empty()
    } else {
        body.skip(ei + 1)
    };
    let di = first_sep(mant, '.');
    let ip = if di == -1 {
        mant
    } else {
        mant.take(di)
    };
    let fp = if di == -1 {
        Seq::<char>::empty()
    } else {
        mant.skip(di + 1)
    };
    let eneg = etxt.len() > 0 && etxt[0] == '-';
    let ed = if eneg {
        etxt.drop_first()
    } else {
        etxt
    };
    if ip.len() == 0 || !all_digits(ip) {
        None
    } else if di != -1 && (fp.len() == 0 || !all_digits(fp)) {
        None
    } else if ei != -1 && (ed.len() == 0 || ed.len() > 3 || !all_digits(ed)) {
        None
    } else {
        let e: int = if ei == -1 {
            0
        } else if eneg {
            -dec_num(ed)
        } else {
            dec_num(ed)
        };
        Some((neg, ip + fp, ip.len() + e))
    }
}

/// The integer obtained by keeping the first `k` positions of the digit
/// string `d` (padding with zeroes on the right where `k` runs past it):
/// the truncated magnitude of the number whose digits are `d` with the
/// decimal point after position `k`.
#[verifier::opaque]
pub open spec fn trunc_digits(d: Seq<char>, k: int) -> int {
    if k <= 0 {
        0
    } else if k >= d.len() {
        dec_num(d) * pow10((k - d.len()) as nat)
    } else {
        dec_num(d.take(k))
    }
}

/// The integer part of a canonical decimal number text, truncated toward
/// zero; `None` for texts outside the grammar of [`num_text_parts`].
pub open spec fn num_int_part(s: Seq<char>) -> Option<int> {
    match num_text_parts(s) {
        None => None,
        Some((neg, d, k)) => {
            let m = trunc_digits(d, k);
            Some(
                if neg {
                    -m
                } else {
                    m
                },
            )
        },
    }
}

/// A digit string of zeroes has value zero.
proof fn lemma_dec_num_zeros(d: Seq<char>)
    requires
        d.len() > 0,
        forall|j: int| 0 <= j < d.len() ==> d[j] == '0',
    ensures
        dec_num(d) == 0,
    decreases d.len(),
{
    if d.len() > 1 {
        lemma_dec_num_zeros(d.drop_last());
    }
}

/// Leading zeroes do not change a digit string's value.
proof fn lemma_dec_num_skip_zeros(d: Seq<char>, nz: int)
    requires
        0 <= nz < d.len(),
        forall|j: int| 0 <= j < nz ==> d[j] == '0',
    ensures
        dec_num(d) == dec_num(d.skip(nz)),
    decreases d.len(),
{
    if nz > 0 {
        if d.len() == nz + 1 {
            lemma_dec_num_zeros(d.drop_last());
            assert(d.skip(nz).len() == 1);
            assert(d.skip(nz)[0] == d[nz as int]);
        } else {
            assert(d.drop_last().skip(nz) =~= d.skip(nz).drop_last());
            lemma_dec_num_skip_zeros(d.drop_last(), nz);
            assert(d.skip(nz).last() == d.last());
        }
    } else {
        assert(d.skip(0) =~= d);
    }
}

/// A digit string that starts with a nonzero digit is at least the power of
/// ten of its remaining length.
proof fn lemma_dec_num_low(d: Seq<char>)
    requires
        d.len() > 0,
        all_digits(d),
        d[0] != '0',
    ensures
        dec_num(d) >= pow10((d.len() - 1) as nat),
    decreases d.len(),
{
    if d.len() == 1 {
        assert(pow10(0) == 1) by {
            vstd::arithmetic::power::lemma_pow0(10);
        }
        assert((d[0] as u32) != 48) by {
            vstd::utf8::char_u32_cast(d[0], d[0] as u32);
            vstd::utf8::char_u32_cast('0', '0' as u32);
        }
        assert(digit_val(d[0]) >= 1);
    } else {
        lemma_dec_num_low(d.drop_last());
        assert(dec_num(d) == dec_num(d.drop_last()) * 10 + digit_val(d.last()));
        assert(pow10((d.len() - 1) as nat) == 10 * pow10((d.len() - 2) as nat)) by {
            lemma_pow10_unfold((d.len() - 1) as nat);
        }
        assert(dec_num(d.drop_last()) * 10 >= pow10((d.len() - 2) as nat) * 10)
            by (nonlinear_arith)
            requires
                dec_num(d.drop_last()) >= pow10((d.len() - 2) as nat),
        ;
        assert(digit_val(d.last()) >= 0);
    }
}

/// A digit string's value is below the power of ten of its length.
proof fn lemma_dec_num_high(d: Seq<char>)
    requires
        d.len() > 0,
        all_digits(d),
    ensures
        dec_num(d) < pow10(d.len() as nat),
    decreases d.len(),
{
    if d.len() == 1 {
        assert(pow10(1) == 10) by {
            vstd::arithmetic::power::lemma_pow0(10);
            lemma_pow10_unfold(1);
        }
        assert(digit_val(d[0]) <= 9);
    } else {
        lemma_dec_num_high(d.drop_last());
        assert(dec_num(d) == dec_num(d.drop_last()) * 10 + digit_val(d.last()));
        assert(pow10(d.len() as nat) == 10 * pow10((d.len() - 1) as nat)) by {
            lemma_pow10_unfold(d.len() as nat);
        }
        assert(dec_num(d.drop_last()) * 10 <= (pow10((d.len() - 1) as nat) - 1) * 10)
            by (nonlinear_arith)
            requires
                dec_num(d.drop_last()) <= pow10((d.len() - 1) as nat) - 1,
        ;
        assert(digit_val(d.last()) <= 9);
    }
}

/// The concrete small powers of ten the narrowing needs.
proof fn lemma_pow10_vals()
    ensures
        pow10(0) == 1,
        pow10(1) == 10,
        pow10(9) == 1_000_000_000,
        pow10(10) == 10_000_000_000,
{
    vstd::arithmetic::power::lemma_pow0(10);
    lemma_pow10_unfold(1);
    lemma_pow10_unfold(2);
    lemma_pow10_unfold(3);
    lemma_pow10_unfold(4);
    lemma_pow10_unfold(5);
    lemma_pow10_unfold(6);
    lemma_pow10_unfold(7);
    lemma_pow10_unfold(8);
    lemma_pow10_unfold(9);
    lemma_pow10_unfold(10);
}

/// When no significant digit lies before position `k`, the truncation is
/// zero.
proof fn lemma_trunc_zero(d: Seq<char>, k: int)
    requires
        d.len() > 0,
        forall|j: int| 0 <= j < d.len() && j < k ==> d[j] == '0',
    ensures
        trunc_digits(d, k) == 0,
{
    reveal(crate::pet::trunc_digits);
    if k <= 0 {
    } else if k >= d.len() {
        lemma_dec_num_zeros(d);
    } else {
        assert(d.take(k).len() == k);
        assert forall|j: int| 0 <= j < k implies d.take(k)[j] == '0' by {}
        lemma_dec_num_zeros(d.take(k));
    }
}

/// When the first significant digit lies at least eleven positions before
/// `k`, the truncated magnitude is at least ten to the tenth.
proof fn lemma_trunc_big(d: Seq<char>, k: int, nz: int)
    requires
        all_digits(d),
        0 <= nz < d.len(),
        forall|j: int| 0 <= j < nz ==> d[j] == '0',
        d[nz] != '0',
        k >= nz + 11,
    ensures
        trunc_digits(d, k) >= pow10(10),
{
    reveal(crate::pet::trunc_digits);
    broadcast use vstd::arithmetic::power::lemma_pow_positive;

    if k >= d.len() {
        lemma_dec_num_skip_zeros(d, nz);
        lemma_dec_num_low(d.skip(nz));
        assert(pow10((d.len() - nz - 1) as nat) * pow10((k - d.len()) as nat) == pow10(
            (k - nz - 1) as nat,
        )) by {
            vstd::arithmetic::power::lemma_pow_adds(
                10,
                (d.len() - nz - 1) as nat,
                (k - d.len()) as nat,
            );
        }
        assert(dec_num(d) * pow10((k - d.len()) as nat) >= pow10((d.len() - nz - 1) as nat)
            * pow10((k - d.len()) as nat)) by (nonlinear_arith)
            requires
                dec_num(d) >= pow10((d.len() - nz - 1) as nat),
                pow10((k - d.len()) as nat) > 0,
        ;
        assert(pow10((k - nz - 1) as nat) >= pow10(10)) by {
            if k - nz - 1 > 10 {
                vstd::arithmetic::power::lemma_pow_increases(10, 10, (k - nz - 1) as nat);
            }
        }
    } else {
        let t = d.take(k);
        assert(t.len() == k);
        assert forall|j: int| 0 <= j < nz implies t[j] == '0' by {}
        assert(t[nz] == d[nz]);
        assert(all_digits(t));
        lemma_dec_num_skip_zeros(t, nz);
        lemma_dec_num_low(t.skip(nz));
        assert(pow10((k - nz - 1) as nat) >= pow10(10)) by {
            if k - nz - 1 > 10 {
                vstd::arithmetic::power::lemma_pow_increases(10, 10, (k - nz - 1) as nat);
            }
        }
    }
}

/// One step of the truncation: extending the kept positions by one
/// multiplies by ten and adds the next digit (or a padding zero).
proof fn lemma_trunc_step(d: Seq<char>, j: int)
    requires
        d.len() > 0,
        all_digits(d),
        j >= 0,
    ensures
        trunc_digits(d, j + 1) == trunc_digits(d, j) * 10 + (if j < d.len() {
            digit_val(d[j])
        } else {
            0
        }),
{
    reveal(crate::pet::trunc_digits);
    vstd::arithmetic::power::lemma_pow0(10);
    assert(pow10(0) == 1);
    if j == 0 {
        if d.len() == 1 {
            assert(d.take(1) =~= d);
        } else {
            assert(d.take(1).len() == 1);
            assert(d.take(1)[0] == d[0]);
            assert(dec_num(d.take(1)) == digit_val(d[0]));
        }
    } else if j + 1 <= d.len() {
        let t = d.take(j + 1);
        assert(t.last() == d[j]);
        assert(t.drop_last() =~= d.take(j));
        assert(dec_num(t) == dec_num(d.take(j)) * 10 + digit_val(d[j]));
        if j + 1 == d.len() {
            assert(d.take(j + 1) =~= d);
        }
    } else if j == d.len() {
        assert(pow10(1) == 10) by {
            vstd::arithmetic::power::lemma_pow0(10);
            lemma_pow10_unfold(1);
        }
        assert(dec_num(d.take(j)) == dec_num(d)) by {
            assert(d.take(j) =~= d);
        }
    } else {
        assert(pow10((j + 1 - d.len()) as nat) == 10 * pow10((j - d.len()) as nat)) by {
            lemma_pow10_unfold((j + 1 - d.len()) as nat);
        }
        assert(dec_num(d) * pow10((j + 1 - d.len()) as nat) == (dec_num(d) * pow10(
            (j - d.len()) as nat,
        )) * 10) by (nonlinear_arith)
            requires
                pow10((j + 1 - d.len()) as nat) == 10 * pow10((j - d.len()) as nat),
        ;
    }
}

/// The truncation's magnitude stays below the power of ten of the number of
/// significant positions kept.
proof fn lemma_trunc_bound(d: Seq<char>, j: int, nz: int)
    requires
        all_digits(d),
        0 <= nz < d.len(),
        forall|i: int| 0 <= i < nz ==> d[i] == '0',
    ensures
        j <= nz ==> trunc_digits(d, j) == 0,
        j > nz ==> trunc_digits(d, j) < pow10((j - nz) as nat),
{
    reveal(crate::pet::trunc_digits);
    broadcast use vstd::arithmetic::power::lemma_pow_positive;

    if j <= nz {
        lemma_trunc_zero(d, j);
    } else if j >= d.len() {
        lemma_dec_num_skip_zeros(d, nz);
        lemma_dec_num_high(d.skip(nz));
        assert(pow10((d.len() - nz) as nat) * pow10((j - d.len()) as nat) == pow10(
            (j - nz) as nat,
        )) by {
            vstd::arithmetic::power::lemma_pow_adds(10, (d.len() - nz) as nat, (j - d.len()) as nat);
        }
        assert(dec_num(d) * pow10((j - d.len()) as nat) < pow10((d.len() - nz) as nat) * pow10(
            (j - d.len()) as nat,
        )) by (nonlinear_arith)
            requires
                dec_num(d) < pow10((d.len() - nz) as nat),
                pow10((j - d.len()) as nat) > 0,
        ;
    } else {
        let t = d.take(j);
        assert(t.len() == j);
        assert forall|i: int| 0 <= i < nz implies t[i] == '0' by {}
        assert(all_digits(t));
        lemma_dec_num_skip_zeros(t, nz);
        lemma_dec_num_high(t.skip(nz));
    }
}

/// Computes the truncated magnitude `trunc_digits(digits@, nz + off)`: the
/// at most ten significant positions starting at the first nonzero digit.
fn trunc_value(digits: &Vec<char>, nz: usize, off: usize) -> (r: u64)
    requires
        digits@.len() > 0,
        all_digits(digits@),
        nz < digits@.len(),
        forall|j: int| 0 <= j < nz ==> digits@[j] == '0',
        digits@[nz as int] != '0',
        1 <= off <= 10,
    ensures
        r as int == trunc_digits(digits@, nz as int + off as int),
        r < 10_000_000_000,
{
    let len = digits.len();
    let mut acc: u64 = 0;
    let mut t: usize = 0;
    proof {
        lemma_pow10_vals();
        lemma_trunc_zero(digits@, nz as int);
    }
    while t < off
        invariant
            digits@.len() > 0,
            len == digits@.len(),
            all_digits(digits@),
            nz < digits@.len(),
            forall|i: int| 0 <= i < nz ==> digits@[i] == '0',
            digits@[nz as int] != '0',
            1 <= off <= 10,
            t <= off,
            acc as int == trunc_digits(digits@, nz as int + t as int),
            t == 0 ==> acc == 0,
            t > 0 ==> acc < pow10(t as nat),
            pow10(9) == 1_000_000_000,
        decreases off - t,
    {
        let dgt: u64 = if t < len - nz {
            let c = digits[nz + t];
            proof {
                assert(is_digit(digits@[nz + t]));
            }
            ((c as u32) - 48) as u64
        } else {
            0
        };
        proof {
            lemma_trunc_step(digits@, nz as int + t as int);
            lemma_trunc_bound(digits@, nz as int + t as int + 1, nz as int);
            assert(pow10(((t + 1)) as nat) <= pow10(10)) by {
                lemma_pow10_vals();
                if t + 1 < 10 {
                    vstd::arithmetic::power::lemma_pow_increases(10, (t + 1) as nat, 10);
                }
            }
            assert(t > 0 ==> pow10(t as nat) <= pow10(9)) by {
                lemma_pow10_vals();
                if 0 < t < 9 {
                    vstd::arithmetic::power::lemma_pow_increases(10, t as nat, 9);
                }
            }
            lemma_pow10_vals();
        }
        acc = acc * 10 + dgt;
        t = t + 1;
    }
    proof {
        lemma_trunc_bound(digits@, nz as int + off as int, nz as int);
        assert(pow10(off as nat) <= pow10(10)) by {
            lemma_pow10_vals();
            if off < 10 {
                vstd::arithmetic::power::lemma_pow_increases(10, off as nat, 10);
            }
        }
        lemma_pow10_vals();
    }
    acc
}

/// Narrows a validated digit string with decimal point position `k` to the
/// 32-bit signed domain, with `neg` applying the sign.
fn narrow_magnitude(digits: &Vec<char>, k: i128, nz: usize, seen: bool, neg: bool) -> (r: Result<
    i32,
    DecodeError,
>)
    requires
        digits@.len() > 0,
        all_digits(digits@),
        !seen ==> forall|j: int| 0 <= j < digits@.len() ==> digits@[j] == '0',
        seen ==> nz < digits@.len() && digits@[nz as int] != '0' && (forall|j: int|
            0 <= j < nz ==> digits@[j] == '0'),
    ensures
        ({
            let m = trunc_digits(digits@, k as int);
            let v: int = if neg {
                -m
            } else {
                m
            };
            if i32::MIN <= v <= i32::MAX {
                r matches Ok(x) && x as int == v
            } else {
                r == Err::<i32, DecodeError>(DecodeError::OutOfRange)
            }
        }),
{
    if !seen {
        proof {
            lemma_trunc_zero(digits@, k as int);
        }
        return Ok(0);
    }
    if k <= nz as i128 {
        proof {
            lemma_trunc_zero(digits@, k as int);
        }
        return Ok(0);
    }
    if k >= nz as i128 + 11 {
        proof {
            lemma_trunc_big(digits@, k as int, nz as int);
            lemma_pow10_vals();
        }
        return Err(DecodeError::OutOfRange);
    }
    let off = (k - nz as i128) as usize;
    let m = trunc_value(digits, nz, off);
    if neg {
        if m > 0x8000_0000u64 {
            return Err(DecodeError::OutOfRange);
        }
        Ok((-(m as i64)) as i32)
    } else {
        if m > 0x7FFF_FFFFu64 {
            return Err(DecodeError::OutOfRange);
        }
        Ok(m as i32)
    }
}

/// Evaluates [`num_text_parts`] for a text whose exponent marker and
/// decimal point have been located.
#[verifier::rlimit(100)]
proof fn lemma_parts_eval(s: Seq<char>, neg: bool, b0: int, epos: int, dpos: int)
    requires
        neg == (s.len() > 0 && s[0] == '-'),
        b0 == (if neg {
            1int
        } else {
            0int
        }),
        b0 <= dpos <= epos <= s.len(),
        forall|j: int| b0 <= j < epos ==> s[j] != 'e',
        epos < s.len() ==> s[epos] == 'e',
        forall|j: int| b0 <= j < dpos ==> s[j] != '.',
        dpos < epos ==> s[dpos] == '.',
    ensures
        ({
            let n = s.len() as int;
            let body = s.skip(b0);
            let mant = if epos == n {
                body
            } else {
                body.take(epos - b0)
            };
            let etxt = if epos == n {
                Seq::<char>::empty()
            } else {
                body.skip(epos - b0 + 1)
            };
            let ip = if dpos == epos {
                mant
            } else {
                mant.take(dpos - b0)
            };
            let fp = if dpos == epos {
                Seq::<char>::empty()
            } else {
                mant.skip(dpos - b0 + 1)
            };
            let eneg = etxt.len() > 0 && etxt[0] == '-';
            let ed = if eneg {
                etxt.drop_first()
            } else {
                etxt
            };
            &&& ip.len() == dpos - b0
            &&& (forall|j: int| 0 <= j < ip.len() ==> ip[j] == s[b0 + j])
            &&& fp.len() == (if dpos == epos {
                0int
            } else {
                epos - dpos - 1
            })
            &&& (forall|j: int| 0 <= j < fp.len() ==> fp[j] == s[dpos + 1 + j])
            &&& etxt.len() == (if epos == n {
                0int
            } else {
                n - epos - 1
            })
            &&& (forall|j: int| 0 <= j < etxt.len() ==> etxt[j] == s[epos + 1 + j])
            &&& num_text_parts(s) == (if ip.len() == 0 || !all_digits(ip) {
                None
            } else if dpos != epos && (fp.len() == 0 || !all_digits(fp)) {
                None
            } else if epos != n && (ed.len() == 0 || ed.len() > 3 || !all_digits(ed)) {
                None
            } else {
                Some(
                    (
                        neg,
                        ip + fp,
                        ip.len() + (if epos == n {
                            0int
                        } else if eneg {
                            -dec_num(ed)
                        } else {
                            dec_num(ed)
                        }),
                    ),
                )
            })
        }),
{
    reveal(crate::pet::num_text_parts);
    let n = s.len() as int;
    let body = s.skip(b0);
    assert(body == (if neg {
        s.drop_first()
    } else {
        s
    })) by {
        if neg {
            assert(s.skip(1) =~= s.drop_first());
        } else {
            assert(s.skip(0) =~= s);
        }
    }
    assert(body.len() == n - b0);
    assert forall|j: int| 0 <= j < n - b0 implies body[j] == s[b0 + j] by {}
    assert(first_sep(body, 'e') == (if epos == n {
        -1int
    } else {
        epos - b0
    })) by {
        crate::text::first_sep_ensures(body, 'e');
        if epos != n {
            assert(body[epos - b0] == 'e');
        }
    }
    let mant = if epos == n {
        body
    } else {
        body.take(epos - b0)
    };
    assert(mant.len() == epos - b0);
    assert forall|j: int| 0 <= j < epos - b0 implies mant[j] == s[b0 + j] by {}
    assert(first_sep(mant, '.') == (if dpos == epos {
        -1int
    } else {
        dpos - b0
    })) by {
        crate::text::first_sep_ensures(mant, '.');
        if dpos != epos {
            assert(mant[dpos - b0] == '.');
        }
    }
    let etxt = if epos == n {
        Seq::<char>::empty()
    } else {
        body.skip(epos - b0 + 1)
    };
    let ip = if dpos == epos {
        mant
    } else {
        mant.take(dpos - b0)
    };
    let fp = if dpos == epos {
        Seq::<char>::empty()
    } else {
        mant.skip(dpos - b0 + 1)
    };
    assert(ip.len() == dpos - b0);
    assert forall|j: int| 0 <= j < ip.len() implies ip[j] == s[b0 + j] by {}
    if dpos != epos {
        assert(fp.len() == epos - dpos - 1);
        assert forall|j: int| 0 <= j < fp.len() implies fp[j] == s[dpos + 1 + j] by {}
    }
    if epos != n {
        assert(etxt.len() == n - epos - 1);
        assert forall|j: int| 0 <= j < etxt.len() implies etxt[j] == s[epos + 1 + j] by {}
    }
    let ei = first_sep(body, 'e');
    let di = first_sep(mant, '.');
    assert((ei == -1) <==> (epos == n));
    assert((di == -1) <==> (dpos == epos));
    assert(mant == (if ei == -1 {
        body
    } else {
        body.take(ei)
    }));
    assert(etxt == (if ei == -1 {
        Seq::<char>::empty()
    } else {
        body.skip(ei + 1)
    }));
    assert(ip == (if di == -1 {
        mant
    } else {
        mant.take(di)
    }));
    assert(fp == (if di == -1 {
        Seq::<char>::empty()
    } else {
        mant.skip(di + 1)
    }));
    let eneg = etxt.len() > 0 && etxt[0] == '-';
    let ed = if eneg {
        etxt.drop_first()
    } else {
        etxt
    };
    if ip.len() == 0 || !all_digits(ip) {
        assert(num_text_parts(s) is None);
    } else if di != -1 && (fp.len() == 0 || !all_digits(fp)) {
        assert(num_text_parts(s) is None);
    } else if ei != -1 && (ed.len() == 0 || ed.len() > 3 || !all_digits(ed)) {
        assert(num_text_parts(s) is None);
    } else {
        assert(num_text_parts(s) == Some(
            (
                neg,
                ip + fp,
                ip.len() + (if ei == -1 {
                    0int
                } else if eneg {
                    -dec_num(ed)
                } else {
                    dec_num(ed)
                }),
            ),
        ));
    }
}

/// Locates the exponent marker and the decimal point of a number text,
/// scanning from `b0`.
fn locate_markers(s: &str, b0: usize) -> (r: (usize, usize))
    requires
        b0 <= s@.len(),
    ensures
        ({
            let (dpos, epos) = r;
            &&& b0 <= dpos <= epos <= s@.len()
            &&& (forall|j: int| b0 <= j < epos ==> s@[j] != 'e')
            &&& (epos < s@.len() ==> s@[epos as int] == 'e')
            &&& (forall|j: int| b0 <= j < dpos ==> s@[j] != '.')
            &&& (dpos < epos ==> s@[dpos as int] == '.')
        }),
{
    let n = s.unicode_len();
    let mut epos: usize = b0;
    while epos < n && s.get_char(epos) != 'e'
        invariant
            n == s@.len(),
            b0 <= epos <= n,
            forall|j: int| b0 <= j < epos ==> s@[j] != 'e',
        decreases n - epos,
    {
        epos = epos + 1;
    }
    let mut dpos: usize = b0;
    while dpos < epos && s.get_char(dpos) != '.'
        invariant
            n == s@.len(),
            epos <= n,
            b0 <= dpos <= epos,
            forall|j: int| b0 <= j < dpos ==> s@[j] != '.',
        decreases epos - dpos,
    {
        dpos = dpos + 1;
    }
    (dpos, epos)
}

/// Parses the exponent text after the marker at `epos`: an optional minus
/// and at most three digits, as in any canonical rendering.
fn parse_exponent_part(s: &str, epos: usize) -> (r: Option<(bool, i64)>)
    requires
        epos < s@.len(),
    ensures
        ({
            let etxt = s@.skip(epos + 1);
            let eneg = etxt.len() > 0 && etxt[0] == '-';
            let ed = if eneg {
                etxt.drop_first()
            } else {
                etxt
            };
            match r {
                None => ed.len() == 0 || ed.len() > 3 || !all_digits(ed),
                Some(t) => {
                    &&& t.0 == eneg
                    &&& ed.len() > 0 && ed.len() <= 3 && all_digits(ed)
                    &&& t.1 as int == (if eneg {
                        -dec_num(ed)
                    } else {
                        dec_num(ed)
                    })
                },
            }
        }),
{
    let n = s.unicode_len();
    let ghost etxt = s@.skip(epos + 1);
    let eneg = epos + 1 < n && s.get_char(epos + 1) == '-';
    let estart = if eneg {
        epos + 2
    } else {
        epos + 1
    };
    let ghost ed0 = if eneg {
        etxt.drop_first()
    } else {
        etxt
    };
    proof {
        assert forall|j: int| 0 <= j < etxt.len() implies etxt[j] == s@[epos + 1 + j] by {}
        assert(ed0 =~= s@.subrange(estart as int, n as int));
    }
    let etail = s.substring_char(estart, n);
    proof {
        assert(etail@ == ed0);
    }
    if n - estart == 0 || n - estart > 3 {
        return None;
    }
    match crate::text::parse_i32_digits(etail) {
        None => {
            proof {
                // three digits cannot overflow, so the only failure is an
                // empty or non-digit text
                if crate::text::dec_val(ed0) is Some {
                    lemma_dec_num_high(ed0);
                    lemma_pow10_vals();
                    lemma_pow10_unfold(3);
                    lemma_pow10_unfold(2);
                    assert(pow10(3) == 1000);
                    assert(dec_num(ed0) < 1000);
                }
            }
            None
        },
        Some(v) => Some(
            (
                eneg,
                if eneg {
                    -(v as i64)
                } else {
                    v as i64
                },
            ),
        ),
    }
}

/// Parses the structure of a canonical decimal number text: the digit
/// string, its first significant digit, the sign, and the point position.
#[verifier::rlimit(100)]
#[verifier::spinoff_prover]
fn parse_number_structure(s: &str) -> (r: Option<(Vec<char>, usize, bool, bool, i128)>)
    ensures
        match r {
            None => num_text_parts(s@) is None,
            Some(t) => {
                &&& num_text_parts(s@) == Some((t.3, t.0@, t.4 as int))
                &&& t.0@.len() > 0
                &&& all_digits(t.0@)
                &&& (!t.2 ==> forall|j: int| 0 <= j < t.0@.len() ==> t.0@[j] == '0')
                &&& (t.2 ==> t.1 < t.0@.len() && t.0@[t.1 as int] != '0' && (forall|j: int|
                    0 <= j < t.1 ==> t.0@[j] == '0'))
            },
        },
{
    let n = s.unicode_len();
    let neg = n > 0 && s.get_char(0) == '-';
    let b0: usize = if neg {
        1
    } else {
        0
    };
    let ghost body = s@.skip(b0 as int);
    proof {
        if !neg {
            assert(s@.skip(0) =~= s@);
        }
    }
    // locate the exponent marker, then the decimal point before it
    let (dpos, epos) = locate_markers(s, b0);
    let ghost mant = if epos == n {
        body
    } else {
        body.take(epos - b0)
    };
    let ghost etxt = if epos == n {
        Seq::<char>::empty()
    } else {
        body.skip(epos - b0 + 1)
    };
    let ghost ip = if dpos == epos {
        mant
    } else {
        mant.take(dpos - b0)
    };
    let ghost fp = if dpos == epos {
        Seq::<char>::empty()
    } else {
        mant.skip(dpos - b0 + 1)
    };
    let ghost dd = ip + fp;
    proof {
        lemma_parts_eval(s@, neg, b0 as int, epos as int, dpos as int);
    }
    let p: usize = dpos - b0;
    let q: usize = if dpos == epos {
        0
    } else {
        epos - dpos - 1
    };
    let dlen = p + q;
    if p == 0 {
        return None;
    }
    if dpos != epos && q == 0 {
        return None;
    }
    // collect the digit string and find its first significant digit
    let mut digits: Vec<char> = Vec::new();
    let mut nz: usize = 0;
    let mut seen_nonzero: bool = false;
    let mut ok: bool = true;
    let mut j: usize = 0;
    proof {
        assert(digits@ =~= dd.take(0));
    }
    while j < dlen
        invariant_except_break
            ok,
        invariant
            n == s@.len(),
            b0 + p == dpos,
            dpos <= epos <= n,
            q == (if dpos == epos {
                0int
            } else {
                epos - dpos - 1
            }),
            dlen == p + q,
            dd == ip + fp,
            ip.len() == p,
            fp.len() == q,
            forall|j2: int| 0 <= j2 < p ==> ip[j2] == s@[b0 + j2],
            forall|j2: int| 0 <= j2 < q ==> fp[j2] == s@[dpos + 1 + j2],
            j <= dlen,
            digits@ == dd.take(j as int),
            forall|j2: int| 0 <= j2 < j ==> is_digit(dd[j2]),
            !seen_nonzero ==> nz == j && (forall|j2: int| 0 <= j2 < j ==> dd[j2] == '0'),
            seen_nonzero ==> nz < j && dd[nz as int] != '0' && (forall|j2: int|
                0 <= j2 < nz ==> dd[j2] == '0'),
        ensures
            j <= dlen,
            ok ==> j == dlen,
            !ok ==> j < dlen && !is_digit(dd[j as int]),
            ok ==> digits@ == dd.take(j as int) && (forall|j2: int|
                0 <= j2 < j ==> is_digit(dd[j2])),
            ok && !seen_nonzero ==> nz == j && (forall|j2: int| 0 <= j2 < j ==> dd[j2] == '0'),
            ok && seen_nonzero ==> nz < j && dd[nz as int] != '0' && (forall|j2: int|
                0 <= j2 < nz ==> dd[j2] == '0'),
        decreases dlen - j,
    {
        let c = if j < p {
            s.get_char(b0 + j)
        } else {
            s.get_char(dpos + 1 + (j - p))
        };
        proof {
            assert(dd[j as int] == c);
        }
        let cv = c as u32;
        if cv < 48 || cv > 57 {
            ok = false;
            break ;
        }
        if !seen_nonzero && cv != 48 {
            proof {
                vstd::utf8::char_u32_cast(c, cv);
                vstd::utf8::char_u32_cast('0', '0' as u32);
            }
            seen_nonzero = true;
            nz = j;
        } else if !seen_nonzero {
            proof {
                vstd::utf8::char_u32_cast(c, cv);
                vstd::utf8::char_u32_cast('0', '0' as u32);
            }
            nz = j + 1;
        }
        digits.push(c);
        proof {
            assert(digits@ =~= dd.take(j + 1));
        }
        j = j + 1;
    }
    if !ok {
        proof {
            if (j as int) < p {
                assert(ip[j as int] == dd[j as int]);
                assert(!all_digits(ip));
            } else {
                assert(fp[j - p] == dd[j as int]);
                assert(!all_digits(fp));
            }
        }
        return None;
    }
    proof {
        assert(dd.take(dlen as int) =~= dd);
    }
    // the exponent: at most three digits in any canonical rendering
    let mut eneg: bool = false;
    let mut e_small: i64 = 0;
    let has_exp = epos < n;
    if has_exp {
        proof {
            assert(etxt =~= s@.skip(epos + 1));
        }
        match parse_exponent_part(s, epos) {
            None => {
                return None;
            },
            Some(t) => {
                eneg = t.0;
                e_small = t.1;
            },
        }
    }
    let ghost ed = if eneg {
        etxt.drop_first()
    } else {
        etxt
    };
    let ghost e_true: int = if !has_exp {
        0
    } else if eneg {
        -dec_num(ed)
    } else {
        dec_num(ed)
    };
    let ghost k_true: int = p + e_true;
    proof {
        if has_exp {
            dec_num_nonneg(ed);
        }
        assert(e_small as int == e_true);
        assert forall|j2: int| 0 <= j2 < ip.len() implies is_digit(ip[j2]) by {
            assert(dd[j2] == ip[j2]);
        }
        assert forall|j2: int| 0 <= j2 < fp.len() implies is_digit(fp[j2]) by {
            assert(dd[p + j2] == fp[j2]);
        }
        assert(num_text_parts(s@) == Some((neg, dd, k_true)));
    }
    let k_exec: i128 = p as i128 + e_small as i128;
    proof {
        assert(k_exec == k_true);
        assert(digits@ == dd);
        assert(all_digits(digits@));
    }
    Some((digits, nz, seen_nonzero, neg, k_exec))
}

/// The integer part of a canonical decimal number text, narrowed to the
/// 32-bit signed domain: exactly [`num_int_part`], with a value outside the
/// domain surfacing as out-of-range and a text outside the grammar as an
/// embedded-document failure.
pub fn json_number_to_i32(s: &str) -> (r: Result<i32, DecodeError>)
    ensures
        match num_int_part(s@) {
            None => r == Err::<i32, DecodeError>(DecodeError::EmbeddedDocument),
            Some(v) => if i32::MIN <= v <= i32::MAX {
                r matches Ok(x) && x as int == v
            } else {
                r == Err::<i32, DecodeError>(DecodeError::OutOfRange)
            },
        },
{
    match parse_number_structure(s) {
        None => Err(DecodeError::EmbeddedDocument),
        Some((digits, nz, seen, neg, k)) => narrow_magnitude(&digits, k, nz, seen, neg),
    }
}

/// The first member of a document with the given name, if any.
pub open spec fn member(doc: Seq<(Seq<char>, JsonPrimV)>, name: Seq<char>) -> Option<JsonPrimV>
    decreases doc.len(),
{
    if doc.len() == 0 {
        None
    } else if doc[0].0 == name {
        Some(doc[0].1)
    } else {
        member(doc.drop_first(), name)
    }
}

proof fn member_skip_step(doc: Seq<(Seq<char>, JsonPrimV)>, name: Seq<char>, i: int)
    requires
        0 <= i < doc.len(),
        doc[i].0 != name,
    ensures
        member(doc.skip(i), name) == member(doc.skip(i + 1), name),
{
    assert(doc.skip(i)[0] == doc[i]);
    assert(doc.skip(i).drop_first() =~= doc.skip(i + 1));
}

/// The view of an owned member list.
pub open spec fn doc_view(d: Seq<(String, JsonPrim)>) -> Seq<(Seq<char>, JsonPrimV)> {
    d.map_values(|p: (String, JsonPrim)| (p.0@, p.1@))
}

/// Finds the first member with the given name.
fn find_member<'a>(doc: &'a Vec<(String, JsonPrim)>, name: &str) -> (r: Option<&'a JsonPrim>)
    ensures
        match r {
            Some(m) => member(doc_view(doc@), name@) == Some(m@),
            None => member(doc_view(doc@), name@) is None,
        },
{
    let ghost dv = doc_view(doc@);
    proof {
        assert(dv.skip(0) =~= dv);
    }
    let mut i: usize = 0;
    while i < doc.len()
        invariant
            dv == doc_view(doc@),
            dv.len() == doc@.len(),
            i <= doc@.len(),
            member(dv, name@) == member(dv.skip(i as int), name@),
        decreases doc@.len() - i,
    {
        proof {
            assert(dv[i as int] == (doc@[i as int].0@, doc@[i as int].1@));
        }
        if str_eq(doc[i].0.as_str(), name) {
            proof {
                assert(dv.skip(i as int)[0] == dv[i as int]);
            }
            return Some(&doc[i].1);
        }
        proof {
            member_skip_step(dv, name@, i as int);
        }
        i = i + 1;
    }
    proof {
        assert(dv.skip(i as int) =~= Seq::<(Seq<char>, JsonPrimV)>::empty());
    }
    None
}

/// An optional string member: absent stays absent; a present member of any
/// other kind is a document failure.
#[verifier::opaque]
pub open spec fn text_member(doc: Seq<(Seq<char>, JsonPrimV)>, name: Seq<char>) -> Result<
    Option<Seq<char>>,
    DecodeError,
> {
    match member(doc, name) {
        None => Ok(None),
        Some(JsonPrimV::Text(t)) => Ok(Some(t)),
        Some(_) => Err(DecodeError::EmbeddedDocument),
    }
}

/// An optional flag member.
#[verifier::opaque]
pub open spec fn flag_member(doc: Seq<(Seq<char>, JsonPrimV)>, name: Seq<char>) -> Result<
    Option<bool>,
    DecodeError,
> {
    match member(doc, name) {
        None => Ok(None),
        Some(JsonPrimV::Flag(b)) => Ok(Some(b)),
        Some(_) => Err(DecodeError::EmbeddedDocument),
    }
}

/// The optional candy-count member: a number whose canonical rendering is a
/// plain unsigned integer in `0 ..= 255`; a fractional or negative number is
/// a document failure, a larger integer is out of range.
#[verifier::opaque]
pub open spec fn candy_member(doc: Seq<(Seq<char>, JsonPrimV)>, name: Seq<char>) -> Result<
    Option<u8>,
    DecodeError,
> {
    match member(doc, name) {
        None => Ok(None),
        Some(JsonPrimV::NumText(t)) => match crate::text::dec_val(t) {
            Some(v) => if v <= 255 {
                Ok(Some(v as u8))
            } else {
                Err(DecodeError::OutOfRange)
            },
            None => Err(DecodeError::EmbeddedDocument),
        },
        Some(_) => Err(DecodeError::EmbeddedDocument),
    }
}

/// The required companion-type member: a string.
#[verifier::opaque]
pub open spec fn type_member(doc: Seq<(Seq<char>, JsonPrimV)>) -> Result<Seq<char>, DecodeError> {
    match member(doc, "type"@) {
        Some(JsonPrimV::Text(t)) => Ok(t),
        _ => Err(DecodeError::EmbeddedDocument),
    }
}

/// The required experience member: a number, narrowed to its integer part
/// in the 32-bit signed domain by [`num_int_part`].
#[verifier::opaque]
pub open spec fn exp_member(doc: Seq<(Seq<char>, JsonPrimV)>) -> Result<int, DecodeError> {
    match member(doc, "exp"@) {
        Some(JsonPrimV::NumText(t)) => match num_int_part(t) {
            None => Err(DecodeError::EmbeddedDocument),
            Some(v) => if i32::MIN <= v <= i32::MAX {
                Ok(v)
            } else {
                Err(DecodeError::OutOfRange)
            },
        },
        _ => Err(DecodeError::EmbeddedDocument),
    }
}

/// The first error the pet decoder meets, reading the members in field
/// order; `None` when the document is a well-formed pet.
pub open spec fn sp_pet_err(doc: Seq<(Seq<char>, JsonPrimV)>) -> Option<DecodeError> {
    if type_member(doc) is Err {
        Some(type_member(doc)->Err_0)
    } else if flag_member(doc, "active"@) is Err {
        Some(flag_member(doc, "active"@)->Err_0)
    } else if text_member(doc, "heldItem"@) is Err {
        Some(text_member(doc, "heldItem"@)->Err_0)
    } else if exp_member(doc) is Err {
        Some(exp_member(doc)->Err_0)
    } else if candy_member(doc, "candyUsed"@) is Err {
        Some(candy_member(doc, "candyUsed"@)->Err_0)
    } else if text_member(doc, "tier"@) is Err {
        Some(text_member(doc, "tier"@)->Err_0)
    } else if text_member(doc, "skin"@) is Err {
        Some(text_member(doc, "skin"@)->Err_0)
    } else if text_member(doc, "uuid"@) is Err {
        Some(text_member(doc, "uuid"@)->Err_0)
    } else if text_member(doc, "uniqueId"@) is Err {
        Some(text_member(doc, "uniqueId"@)->Err_0)
    } else if flag_member(doc, "hideRightClick"@) is Err {
        Some(flag_member(doc, "hideRightClick"@)->Err_0)
    } else if flag_member(doc, "noMove"@) is Err {
        Some(flag_member(doc, "noMove"@)->Err_0)
    } else if flag_member(doc, "hideInfo"@) is Err {
        Some(flag_member(doc, "hideInfo"@)->Err_0)
    } else {
        None
    }
}

/// The successful payload of the required experience member; zero on error,
/// where it carries no meaning.
pub open spec fn ok_int(r: Result<int, DecodeError>) -> int {
    match r {
        Ok(v) => v,
        Err(_) => 0,
    }
}

/// The pet a document's members decode to, meaningful when [`sp_pet_err`]
/// is `None`.
pub open spec fn sp_pet_ok(doc: Seq<(Seq<char>, JsonPrimV)>) -> PetInfoV {
    PetInfoV {
        p_type: crate::item::ok_text(type_member(doc)),
        active: crate::item::ok_or_none(flag_member(doc, "active"@)),
        held_item: crate::item::ok_or_none(text_member(doc, "heldItem"@)),
        exp: ok_int(exp_member(doc)) as i32,
        candy_used: crate::item::ok_or_none(candy_member(doc, "candyUsed"@)),
        tier: crate::item::ok_or_none(text_member(doc, "tier"@)),
        skin: crate::item::ok_or_none(text_member(doc, "skin"@)),
        uuid: crate::item::ok_or_none(text_member(doc, "uuid"@)),
        unique_id: crate::item::ok_or_none(text_member(doc, "uniqueId"@)),
        hide_right_click: crate::item::ok_or_none(flag_member(doc, "hideRightClick"@)),
        no_move: crate::item::ok_or_none(flag_member(doc, "noMove"@)),
        hide_info: crate::item::ok_or_none(flag_member(doc, "hideInfo"@)),
    }
}

/// What a member list decodes to: the pet, or the first failure.
pub open spec fn sp_pet(doc: Seq<(Seq<char>, JsonPrimV)>) -> Result<PetInfoV, DecodeError> {
    match sp_pet_err(doc) {
        Some(e) => Err(e),
        None => Ok(sp_pet_ok(doc)),
    }
}

/// What decoding an optional raw pet text yields: absence is no error; a
/// text that is not a JSON object fails as an embedded-document error;
/// otherwise the members decode by [`sp_pet`].
pub open spec fn sp_decode_pet(raw: Option<Seq<char>>) -> Result<Option<PetInfoV>, DecodeError> {
    match raw {
        None => Ok(None),
        Some(s) => match crate::trusted::json_members_of(s) {
            None => Err(DecodeError::EmbeddedDocument),
            Some(doc) => match sp_pet(doc) {
                Err(e) => Err(e),
                Ok(p) => Ok(Some(p)),
            },
        },
    }
}

/// Decodes an optional string member, exactly as [`text_member`] denotes.
fn get_text_member(doc: &Vec<(String, JsonPrim)>, name: &str) -> (r: Result<
    Option<String>,
    DecodeError,
>)
    ensures
        match r {
            Ok(o) => text_member(doc_view(doc@), name@) == Ok::<Option<Seq<char>>, DecodeError>(
                crate::item::opt_text_view(o),
            ),
            Err(e) => text_member(doc_view(doc@), name@) == Err::<Option<Seq<char>>, DecodeError>(
                e,
            ),
        },
{
    proof {
        reveal(crate::pet::text_member);
    }
    match find_member(doc, name) {
        None => Ok(None),
        Some(m) => match m {
            JsonPrim::Text(t) => Ok(Some(t.clone())),
            _ => Err(DecodeError::EmbeddedDocument),
        },
    }
}

/// Decodes an optional flag member, exactly as [`flag_member`] denotes.
fn get_flag_member(doc: &Vec<(String, JsonPrim)>, name: &str) -> (r: Result<
    Option<bool>,
    DecodeError,
>)
    ensures
        match r {
            Ok(o) => flag_member(doc_view(doc@), name@) == Ok::<Option<bool>, DecodeError>(o),
            Err(e) => flag_member(doc_view(doc@), name@) == Err::<Option<bool>, DecodeError>(e),
        },
{
    proof {
        reveal(crate::pet::flag_member);
    }
    match find_member(doc, name) {
        None => Ok(None),
        Some(m) => match m {
            JsonPrim::Flag(b) => Ok(Some(*b)),
            _ => Err(DecodeError::EmbeddedDocument),
        },
    }
}

/// Decodes the candy-count member, exactly as [`candy_member`] denotes.
fn get_candy_member(doc: &Vec<(String, JsonPrim)>, name: &str) -> (r: Result<
    Option<u8>,
    DecodeError,
>)
    ensures
        match r {
            Ok(o) => candy_member(doc_view(doc@), name@) == Ok::<Option<u8>, DecodeError>(o),
            Err(e) => candy_member(doc_view(doc@), name@) == Err::<Option<u8>, DecodeError>(e),
        },
{
    proof {
        reveal(crate::pet::candy_member);
    }
    match find_member(doc, name) {
        None => Ok(None),
        Some(m) => match m {
            JsonPrim::NumText(t) => match crate::text::parse_i32_saturating(t.as_str()) {
                Some(v) => if v <= 255 {
                    Ok(Some(v as u8))
                } else {
                    Err(DecodeError::OutOfRange)
                },
                None => Err(DecodeError::EmbeddedDocument),
            },
            _ => Err(DecodeError::EmbeddedDocument),
        },
    }
}

/// Decodes the required companion type, exactly as [`type_member`] denotes.
fn get_type_member(doc: &Vec<(String, JsonPrim)>) -> (r: Result<String, DecodeError>)
    ensures
        match r {
            Ok(t) => type_member(doc_view(doc@)) == Ok::<Seq<char>, DecodeError>(t@),
            Err(e) => type_member(doc_view(doc@)) == Err::<Seq<char>, DecodeError>(e),
        },
{
    proof {
        reveal(crate::pet::type_member);
    }
    match find_member(doc, "type") {
        Some(m) => match m {
            JsonPrim::Text(t) => Ok(t.clone()),
            _ => Err(DecodeError::EmbeddedDocument),
        },
        None => Err(DecodeError::EmbeddedDocument),
    }
}

/// Decodes the required experience member, exactly as [`exp_member`]
/// denotes.
fn get_exp_member(doc: &Vec<(String, JsonPrim)>) -> (r: Result<i32, DecodeError>)
    ensures
        match r {
            Ok(x) => exp_member(doc_view(doc@)) == Ok::<int, DecodeError>(x as int),
            Err(e) => exp_member(doc_view(doc@)) == Err::<int, DecodeError>(e),
        },
{
    proof {
        reveal(crate::pet::exp_member);
    }
    match find_member(doc, "exp") {
        Some(m) => match m {
            JsonPrim::NumText(t) => json_number_to_i32(t.as_str()),
            _ => Err(DecodeError::EmbeddedDocument),
        },
        None => Err(DecodeError::EmbeddedDocument),
    }
}

/// Decodes a member list into the pet record, exactly as [`sp_pet`]
/// denotes.
#[verifier::rlimit(100)]
fn pet_from_members(doc: &Vec<(String, JsonPrim)>) -> (r: Result<PetInfo, DecodeError>)
    ensures
        match r {
            Ok(p) => sp_pet(doc_view(doc@)) == Ok::<PetInfoV, DecodeError>(p@),
            Err(e) => sp_pet(doc_view(doc@)) == Err::<PetInfoV, DecodeError>(e),
        },
{
    let ghost dv = doc_view(doc@);
    let p_type = match get_type_member(doc) {
        Ok(v) => v,
        Err(e) => {
            return Err(e);
        },
    };
    let active = match get_flag_member(doc, "active") {
        Ok(v) => v,
        Err(e) => {
            return Err(e);
        },
    };
    let held_item = match get_text_member(doc, "heldItem") {
        Ok(v) => v,
        Err(e) => {
            return Err(e);
        },
    };
    let exp = match get_exp_member(doc) {
        Ok(v) => v,
        Err(e) => {
            return Err(e);
        },
    };
    let candy_used = match get_candy_member(doc, "candyUsed") {
        Ok(v) => v,
        Err(e) => {
            return Err(e);
        },
    };
    let tier = match get_text_member(doc, "tier") {
        Ok(v) => v,
        Err(e) => {
            return Err(e);
        },
    };
    let skin = match get_text_member(doc, "skin") {
        Ok(v) => v,
        Err(e) => {
            return Err(e);
        },
    };
    let uuid = match get_text_member(doc, "uuid") {
        Ok(v) => v,
        Err(e) => {
            return Err(e);
        },
    };
    let unique_id = match get_text_member(doc, "uniqueId") {
        Ok(v) => v,
        Err(e) => {
            return Err(e);
        },
    };
    let hide_right_click = match get_flag_member(doc, "hideRightClick") {
        Ok(v) => v,
        Err(e) => {
            return Err(e);
        },
    };
    let no_move = match get_flag_member(doc, "noMove") {
        Ok(v) => v,
        Err(e) => {
            return Err(e);
        },
    };
    let hide_info = match get_flag_member(doc, "hideInfo") {
        Ok(v) => v,
        Err(e) => {
            return Err(e);
        },
    };
    let out = PetInfo {
        p_type,
        active,
        held_item,
        exp,
        candy_used,
        tier,
        skin,
        uuid,
        unique_id,
        hide_right_click,
        no_move,
        hide_info,
    };
    proof {
        assert(sp_pet_err(dv) is None);
        assert(out@ =~~= sp_pet_ok(dv));
        assert(sp_pet(dv) == Ok::<PetInfoV, DecodeError>(out@));
    }
    Ok(out)
}

/// Decodes the embedded pet document, exactly as [`sp_decode_pet`] denotes.
/// Absence is not an error; a present but malformed document fails with the
/// embedded-document error, and only a numeric member outside its domain
/// with the out-of-range error, so callers can degrade only the pet
/// sub-fields and keep the rest of the row.
pub fn decode_pet(raw: &Option<String>) -> (r: Result<Option<PetInfo>, DecodeError>)
    ensures
        ({
            let sp = sp_decode_pet(crate::item::opt_text_view(*raw));
            match r {
                Ok(Some(p)) => sp == Ok::<Option<PetInfoV>, DecodeError>(Some(p@)),
                Ok(None) => sp == Ok::<Option<PetInfoV>, DecodeError>(None),
                Err(e) => sp == Err::<Option<PetInfoV>, DecodeError>(e),
            }
        }),
{
    match raw {
        None => Ok(None),
        Some(s) => match crate::trusted::parse_json_members(s.as_str()) {
            None => Err(DecodeError::EmbeddedDocument),
            Some(doc) => match pet_from_members(&doc) {
                Ok(p) => Ok(Some(p)),
                Err(e) => Err(e),
            },
        },
    }
}

} // verus!
