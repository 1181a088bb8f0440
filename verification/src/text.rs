//! Verified text utilities: character-sequence comparison, lexicographic
//! sorting of rendered lines, decimal rendering and parsing, and splitting on
//! a separator. These carry the normalizer's determinism guarantees: the same
//! logical map always renders to byte-identical lines.

use vstd::prelude::*;
use vstd::relations::{sorted_by, total_ordering};
use vstd::seq_lib::lemma_sorted_unique;
use vstd::string::StrSliceExecFns;
use vstd::string::StringExecFns;

verus! {

broadcast use vstd::utf8::char_u32_cast;

/// Lexicographic order on character sequences, by Unicode scalar value.
pub open spec fn lex_le(a: Seq<char>, b: Seq<char>) -> bool
    decreases a.len(),
{
    if a.len() == 0 {
        true
    } else if b.len() == 0 {
        false
    } else if a[0] == b[0] {
        lex_le(a.drop_first(), b.drop_first())
    } else {
        (a[0] as u32) < (b[0] as u32)
    }
}

/// [`lex_le`] as a relation value, for use with ordering predicates.
pub open spec fn lex_leq() -> spec_fn(Seq<char>, Seq<char>) -> bool {
    |a: Seq<char>, b: Seq<char>| lex_le(a, b)
}

pub proof fn lex_le_connected(a: Seq<char>, b: Seq<char>)
    ensures
        lex_le(a, b) || lex_le(b, a),
    decreases a.len(),
{
    if a.len() > 0 && b.len() > 0 {
        if a[0] == b[0] {
            lex_le_connected(a.drop_first(), b.drop_first());
        } else {
            assert((a[0] as u32) != (b[0] as u32)) by {
                vstd::utf8::char_u32_cast(a[0], a[0] as u32);
                vstd::utf8::char_u32_cast(b[0], b[0] as u32);
            }
        }
    }
}

pub proof fn lex_le_antisymmetric(a: Seq<char>, b: Seq<char>)
    requires
        lex_le(a, b),
        lex_le(b, a),
    ensures
        a == b,
    decreases a.len(),
{
    if a.len() > 0 && b.len() > 0 && a[0] == b[0] {
        lex_le_antisymmetric(a.drop_first(), b.drop_first());
        assert(a =~= seq![a[0]] + a.drop_first());
        assert(b =~= seq![b[0]] + b.drop_first());
    } else {
        assert(a =~= b);
    }
}

pub proof fn lex_le_transitive(a: Seq<char>, b: Seq<char>, c: Seq<char>)
    requires
        lex_le(a, b),
        lex_le(b, c),
    ensures
        lex_le(a, c),
    decreases a.len(),
{
    if a.len() > 0 && b.len() > 0 && c.len() > 0 {
        if a[0] == b[0] && b[0] == c[0] {
            lex_le_transitive(a.drop_first(), b.drop_first(), c.drop_first());
        }
    }
}

/// Lexicographic order is a total order, so a sorted rendering of any
/// collection of lines is canonical.
pub proof fn lex_le_total_ordering()
    ensures
        total_ordering(lex_leq()),
{
    assert forall|a: Seq<char>, b: Seq<char>| #[trigger] lex_leq()(a, b) && lex_leq()(
        b,
        a,
    ) implies a == b by {
        lex_le_antisymmetric(a, b);
    }
    assert forall|a: Seq<char>, b: Seq<char>, c: Seq<char>|
        #[trigger] lex_leq()(a, b) && #[trigger] lex_leq()(b, c) implies lex_leq()(a, c) by {
        lex_le_transitive(a, b, c);
    }
    assert forall|a: Seq<char>, b: Seq<char>| #[trigger] lex_leq()(a, b) || lex_leq()(
        b,
        a,
    ) by {
        lex_le_connected(a, b);
    }
}

/// The views of a sequence of owned strings.
pub open spec fn string_views(s: Seq<String>) -> Seq<Seq<char>> {
    s.map_values(|x: String| x@)
}

/// Whether two string slices hold the same characters.
pub fn str_eq(a: &str, b: &str) -> (r: bool)
    ensures
        r == (a@ == b@),
{
    let na = a.unicode_len();
    let nb = b.unicode_len();
    if na != nb {
        return false;
    }
    let mut i: usize = 0;
    while i < na
        invariant
            na == a@.len(),
            na == b@.len(),
            i <= na,
            forall|k: int| 0 <= k < i ==> a@[k] == b@[k],
        decreases na - i,
    {
        if a.get_char(i) != b.get_char(i) {
            return false;
        }
        i = i + 1;
    }
    proof {
        assert(a@ =~= b@);
    }
    true
}

/// Whether `a` precedes or equals `b` in [`lex_le`] order.
pub fn str_le(a: &str, b: &str) -> (r: bool)
    ensures
        r == lex_le(a@, b@),
{
    let na = a.unicode_len();
    let nb = b.unicode_len();
    proof {
        assert(a@.skip(0) =~= a@);
        assert(b@.skip(0) =~= b@);
    }
    let mut i: usize = 0;
    while i < na && i < nb
        invariant
            na == a@.len(),
            nb == b@.len(),
            i <= na,
            i <= nb,
            lex_le(a@, b@) == lex_le(a@.skip(i as int), b@.skip(i as int)),
            lex_le(b@, a@) == lex_le(b@.skip(i as int), a@.skip(i as int)),
        decreases na - i,
    {
        let ca = a.get_char(i);
        let cb = b.get_char(i);
        proof {
            assert(a@.skip(i as int)[0] == a@[i as int]);
            assert(b@.skip(i as int)[0] == b@[i as int]);
            assert(a@.skip(i as int).drop_first() =~= a@.skip(i + 1));
            assert(b@.skip(i as int).drop_first() =~= b@.skip(i + 1));
        }
        if ca != cb {
            return (ca as u32) < (cb as u32);
        }
        i = i + 1;
    }
    proof {
        if i >= na {
            assert(a@.skip(i as int) =~= Seq::<char>::empty());
        } else {
            assert(b@.skip(i as int) =~= Seq::<char>::empty());
            assert(a@.skip(i as int).len() > 0);
        }
    }
    i >= na
}

/// A sequence with one element inserted has the old multiset plus that
/// element.
pub proof fn to_multiset_insert<A>(s: Seq<A>, j: int, x: A)
    requires
        0 <= j <= s.len(),
    ensures
        s.insert(j, x).to_multiset() =~= s.to_multiset().insert(x),
{
    broadcast use vstd::seq_lib::group_to_multiset_ensures;
    broadcast use vstd::multiset::group_multiset_axioms;

    let t = s.insert(j, x);
    assert(t.remove(j) =~= s);
    assert(t[j] == x);
    assert(s.to_multiset() =~= t.to_multiset().remove(x));
    assert(t.to_multiset().contains(x));
    assert forall|y: A| t.to_multiset().count(y) == #[trigger] s.to_multiset().insert(x).count(
        y,
    ) by {
        if y == x {
            assert(t.to_multiset().remove(x).count(x) == t.to_multiset().count(x) - 1);
        }
    }
    assert(t.to_multiset() =~= s.to_multiset().insert(x));
}

/// Sorts owned lines into [`lex_le`] order. The result is exactly the
/// canonical sorted permutation of the input: any two inputs holding the same
/// lines in any order sort to the same sequence.
pub fn sort_lines(v: &Vec<String>) -> (r: Vec<String>)
    ensures
        string_views(r@) == string_views(v@).sort_by(lex_leq()),
{
    let mut out: Vec<String> = Vec::new();
    proof {
        assert(string_views(out@) =~= string_views(v@.take(0)));
    }
    let mut i: usize = 0;
    while i < v.len()
        invariant
            i <= v@.len(),
            sorted_by(string_views(out@), lex_leq()),
            string_views(out@).to_multiset() =~= string_views(v@.take(i as int)).to_multiset(),
        decreases v@.len() - i,
    {
        let x = v[i].clone();
        let ghost xv = x@;
        let mut j: usize = 0;
        loop
            invariant
                j <= out@.len(),
                x@ == xv,
                forall|k: int| 0 <= k < j ==> lex_le(string_views(out@)[k], xv),
            ensures
                j <= out@.len(),
                forall|k: int| 0 <= k < j ==> lex_le(string_views(out@)[k], xv),
                j < out@.len() ==> !lex_le(string_views(out@)[j as int], xv),
            decreases out@.len() - j,
        {
            if j == out.len() {
                break;
            }
            proof {
                assert(string_views(out@)[j as int] == out@[j as int]@);
            }
            if !str_le(out[j].as_str(), x.as_str()) {
                break;
            }
            j = j + 1;
        }
        let ghost old_out = out@;
        let ghost old_views = string_views(out@);
        proof {
            if j < out@.len() {
                lex_le_connected(old_views[j as int], xv);
                assert(lex_le(xv, old_views[j as int]));
            }
        }
        out.insert(j, x);
        proof {
            let new_views = string_views(out@);
            assert(new_views =~= old_views.insert(j as int, xv));
            assert forall|k1: int, k2: int| 0 <= k1 < k2 < new_views.len() implies lex_leq()(
                new_views[k1],
                new_views[k2],
            ) by {
                let a = new_views[k1];
                let b = new_views[k2];
                if k1 == j {
                    if k2 > j {
                        // a == xv, b is an old element at index k2 - 1 >= j
                        if k2 - 1 == j {
                            assert(lex_le(xv, old_views[j as int]));
                        } else {
                            assert(lex_leq()(old_views[j as int], old_views[k2 - 1]));
                            lex_le_transitive(xv, old_views[j as int], old_views[k2 - 1]);
                        }
                    }
                } else if k2 == j {
                    // b == xv, a is an old element at index k1 < j
                    assert(lex_le(old_views[k1], xv));
                } else if k1 < j && k2 > j {
                    assert(lex_le(old_views[k1], xv));
                    if j < old_views.len() {
                        assert(lex_leq()(old_views[k1], old_views[k2 - 1]));
                    }
                    assert(lex_leq()(old_views[k1], old_views[k2 - 1]));
                } else if k1 < j && k2 < j {
                    assert(lex_leq()(old_views[k1], old_views[k2]));
                } else {
                    assert(lex_leq()(old_views[k1 - 1], old_views[k2 - 1]));
                }
            }
            to_multiset_insert(old_views, j as int, xv);
            assert(v@.take(i + 1).drop_last() =~= v@.take(i as int));
            assert(v@.take(i + 1).last() == v@[i as int]);
            assert(string_views(v@.take(i + 1)).drop_last() =~= string_views(
                v@.take(i as int),
            ));
            assert(string_views(v@.take(i + 1)).last() == v@[i as int]@);
            broadcast use vstd::seq_lib::group_to_multiset_ensures;

            assert(string_views(v@.take(i + 1)) =~= string_views(v@.take(i as int)).push(xv));
        }
        i = i + 1;
    }
    proof {
        assert(v@.take(i as int) =~= v@);
        let sv = string_views(v@);
        lex_le_total_ordering();
        sv.lemma_sort_by_ensures(lex_leq());
        lemma_sorted_unique(string_views(out@), sv.sort_by(lex_leq()), lex_leq());
        assert(string_views(out@) == sv.sort_by(lex_leq()));
    }
    out
}

/// The character a decimal digit renders to.
pub open spec fn digit_char(d: int) -> char {
    if d == 0 {
        '0'
    } else if d == 1 {
        '1'
    } else if d == 2 {
        '2'
    } else if d == 3 {
        '3'
    } else if d == 4 {
        '4'
    } else if d == 5 {
        '5'
    } else if d == 6 {
        '6'
    } else if d == 7 {
        '7'
    } else if d == 8 {
        '8'
    } else {
        '9'
    }
}

/// The decimal rendering of a non-negative integer, most significant digit
/// first, no sign and no leading zeroes (zero renders as one digit).
pub open spec fn dec_str(n: int) -> Seq<char>
    decreases n,
{
    if n < 10 {
        seq![digit_char(n)]
    } else {
        dec_str(n / 10).push(digit_char(n % 10))
    }
}

/// One decimal digit as a string slice.
fn digit_str(d: u8) -> (r: &'static str)
    requires
        d < 10,
    ensures
        r@ == seq![digit_char(d as int)],
{
    proof {
        reveal_strlit("0");
        reveal_strlit("1");
        reveal_strlit("2");
        reveal_strlit("3");
        reveal_strlit("4");
        reveal_strlit("5");
        reveal_strlit("6");
        reveal_strlit("7");
        reveal_strlit("8");
        reveal_strlit("9");
    }
    if d == 0 {
        "0"
    } else if d == 1 {
        "1"
    } else if d == 2 {
        "2"
    } else if d == 3 {
        "3"
    } else if d == 4 {
        "4"
    } else if d == 5 {
        "5"
    } else if d == 6 {
        "6"
    } else if d == 7 {
        "7"
    } else if d == 8 {
        "8"
    } else {
        "9"
    }
}

/// Appends the decimal rendering of `n` to `s`.
pub fn append_dec_u8(s: &mut String, n: u8)
    ensures
        final(s)@ == old(s)@ + dec_str(n as int),
{
    if n < 10 {
        s.append(digit_str(n));
    } else if n < 100 {
        s.append(digit_str(n / 10));
        s.append(digit_str(n % 10));
        proof {
            assert(dec_str(n as int / 10) == seq![digit_char(n as int / 10)]);
            assert(dec_str(n as int) == dec_str(n as int / 10).push(digit_char(n as int % 10)));
            assert(old(s)@ + dec_str(n as int) =~= old(s)@ + seq![digit_char(n as int / 10)]
                + seq![digit_char(n as int % 10)]);
        }
    } else {
        let d0 = n / 100;
        let d1 = (n / 10) % 10;
        let d2 = n % 10;
        s.append(digit_str(d0));
        s.append(digit_str(d1));
        s.append(digit_str(d2));
        proof {
            assert(n as int / 10 / 10 == n as int / 100) by (nonlinear_arith);
            assert(n as int / 10 >= 10);
            assert(dec_str(n as int / 10 / 10) == seq![digit_char(n as int / 10 / 10)]);
            assert(dec_str(n as int / 10) == dec_str(n as int / 10 / 10).push(
                digit_char((n as int / 10) % 10),
            ));
            assert(dec_str(n as int) == dec_str(n as int / 10).push(digit_char(n as int % 10)));
            assert(old(s)@ + dec_str(n as int) =~= old(s)@ + seq![digit_char(n as int / 100)]
                + seq![digit_char((n as int / 10) % 10)] + seq![digit_char(n as int % 10)]);
        }
    }
}

/// Whether `c` is a decimal digit.
pub open spec fn is_digit(c: char) -> bool {
    48 <= c as u32 <= 57
}

/// The numeric value of a digit character.
pub open spec fn digit_val(c: char) -> int {
    c as u32 - 48
}

/// The value of a non-empty all-digit sequence, most significant digit first.
pub open spec fn dec_num(s: Seq<char>) -> int
    decreases s.len(),
{
    if s.len() <= 1 {
        digit_val(s[0])
    } else {
        dec_num(s.drop_last()) * 10 + digit_val(s.last())
    }
}

/// What decimal parsing yields: the value for a non-empty all-digit
/// sequence, nothing otherwise.
pub open spec fn dec_val(s: Seq<char>) -> Option<int> {
    if s.len() > 0 && (forall|i: int| 0 <= i < s.len() ==> is_digit(s[i])) {
        Some(dec_num(s))
    } else {
        None
    }
}

pub proof fn dec_num_nonneg(s: Seq<char>)
    requires
        s.len() > 0,
        forall|i: int| 0 <= i < s.len() ==> is_digit(s[i]),
    ensures
        dec_num(s) >= 0,
    decreases s.len(),
{
    if s.len() > 1 {
        dec_num_nonneg(s.drop_last());
    }
}

/// Extending an all-digit sequence never shrinks its value.
pub proof fn dec_num_prefix_le(s: Seq<char>, i: int)
    requires
        0 < i <= s.len(),
        forall|k: int| 0 <= k < s.len() ==> is_digit(s[k]),
    ensures
        dec_num(s.take(i)) <= dec_num(s),
    decreases s.len() - i,
{
    if i < s.len() {
        let t = s.take(i + 1);
        assert(t.drop_last() =~= s.take(i));
        dec_num_nonneg(s.take(i));
        assert(dec_num(t) == dec_num(s.take(i)) * 10 + digit_val(t.last()));
        assert(dec_num(s.take(i)) * 10 >= dec_num(s.take(i))) by (nonlinear_arith)
            requires dec_num(s.take(i)) >= 0;
        dec_num_prefix_le(s, i + 1);
        assert(s.take(s.len() as int) =~= s);
    } else {
        assert(s.take(i) =~= s);
    }
}

/// Parses a non-empty all-digit string into a 32-bit value. Returns `None`
/// exactly when the text is empty, holds a non-digit, or exceeds `i32::MAX`.
pub fn parse_i32_digits(s: &str) -> (r: Option<i32>)
    ensures
        match r {
            Some(v) => dec_val(s@) == Some(v as int) && v >= 0,
            None => match dec_val(s@) {
                Some(w) => w > i32::MAX,
                None => true,
            },
        },
{
    let n = s.unicode_len();
    if n == 0 {
        return None;
    }
    let mut acc: u64 = 0;
    let mut i: usize = 0;
    while i < n
        invariant
            n == s@.len(),
            0 < n,
            i <= n,
            forall|k: int| 0 <= k < i ==> is_digit(s@[k]),
            i > 0 ==> acc as int == dec_num(s@.take(i as int)),
            i == 0 ==> acc == 0,
            acc <= i32::MAX,
        decreases n - i,
    {
        let c = s.get_char(i);
        let cv = c as u32;
        if cv < 48 || cv > 57 {
            return None;
        }
        let d = (cv - 48) as u64;
        acc = acc * 10 + d;
        proof {
            let t = s@.take(i + 1);
            assert(t.last() == s@[i as int]);
            assert(t.drop_last() =~= s@.take(i as int));
            if i == 0 {
                assert(t.len() == 1);
                assert(dec_num(t) == digit_val(s@[0]));
            } else {
                assert(dec_num(t) == dec_num(s@.take(i as int)) * 10 + digit_val(t.last()));
            }
        }
        if acc > i32::MAX as u64 {
            proof {
                if forall|k: int| 0 <= k < s@.len() ==> is_digit(s@[k]) {
                    dec_num_prefix_le(s@, i + 1);
                    assert(s@.take(i + 1).last() == s@[i as int]);
                }
            }
            return None;
        }
        i = i + 1;
    }
    proof {
        assert(s@.take(n as int) =~= s@);
    }
    Some(acc as i32)
}

/// Parses a non-empty all-digit string into a 32-bit value, saturating at
/// `i32::MAX`. Returns `None` exactly when the text is empty or holds a
/// non-digit.
pub fn parse_i32_saturating(s: &str) -> (r: Option<i32>)
    ensures
        match r {
            Some(v) => match dec_val(s@) {
                Some(w) => v as int == if w > i32::MAX {
                    i32::MAX as int
                } else {
                    w
                },
                None => false,
            },
            None => dec_val(s@) is None,
        },
{
    let n = s.unicode_len();
    if n == 0 {
        return None;
    }
    let mut acc: u64 = 0;
    let mut sat: bool = false;
    let mut i: usize = 0;
    while i < n
        invariant
            n == s@.len(),
            0 < n,
            i <= n,
            forall|k: int| 0 <= k < i ==> is_digit(s@[k]),
            !sat && i > 0 ==> acc as int == dec_num(s@.take(i as int)) && acc <= i32::MAX,
            !sat && i == 0 ==> acc == 0,
            sat ==> i > 0 && dec_num(s@.take(i as int)) > i32::MAX,
        decreases n - i,
    {
        let c = s.get_char(i);
        let cv = c as u32;
        if cv < 48 || cv > 57 {
            return None;
        }
        proof {
            let t = s@.take(i + 1);
            assert(t.last() == s@[i as int]);
            assert(t.drop_last() =~= s@.take(i as int));
            if i == 0 {
                assert(t.len() == 1);
                assert(dec_num(t) == digit_val(s@[0]));
            } else {
                assert(dec_num(t) == dec_num(s@.take(i as int)) * 10 + digit_val(t.last()));
                if sat {
                    dec_num_nonneg(s@.take(i as int));
                    assert(dec_num(s@.take(i as int)) * 10 >= dec_num(s@.take(i as int)))
                        by (nonlinear_arith)
                        requires
                            dec_num(s@.take(i as int)) >= 0,
                    ;
                }
            }
        }
        if !sat {
            let d = (cv - 48) as u64;
            acc = acc * 10 + d;
            if acc > i32::MAX as u64 {
                sat = true;
            }
        }
        i = i + 1;
    }
    proof {
        assert(s@.take(n as int) =~= s@);
    }
    if sat {
        Some(i32::MAX)
    } else {
        Some(acc as i32)
    }
}

/// The index of the first occurrence of `sep`, or `-1` if there is none.
pub open spec fn first_sep(s: Seq<char>, sep: char) -> int
    decreases s.len(),
{
    if s.len() == 0 {
        -1
    } else if s[0] == sep {
        0
    } else {
        let r = first_sep(s.drop_first(), sep);
        if r < 0 {
            -1
        } else {
            r + 1
        }
    }
}

pub proof fn first_sep_ensures(s: Seq<char>, sep: char)
    ensures
        first_sep(s, sep) == -1 ==> forall|k: int| 0 <= k < s.len() ==> s[k] != sep,
        first_sep(s, sep) != -1 ==> {
            let r = first_sep(s, sep);
            &&& 0 <= r < s.len()
            &&& s[r] == sep
            &&& forall|k: int| 0 <= k < r ==> s[k] != sep
        },
    decreases s.len(),
{
    if s.len() > 0 && s[0] != sep {
        first_sep_ensures(s.drop_first(), sep);
        assert forall|k: int| 1 <= k < s.len() implies s[k] == s.drop_first()[k - 1] by {
        }
    }
}

/// Splitting on a separator: the (possibly empty) stretches between
/// occurrences, in order. A sequence with no separator splits to itself
/// alone.
pub open spec fn split_on(s: Seq<char>, sep: char) -> Seq<Seq<char>>
    decreases s.len(),
{
    let r = first_sep(s, sep);
    if r == -1 {
        seq![s]
    } else if 0 <= r < s.len() {
        seq![s.take(r)] + split_on(s.skip(r + 1), sep)
    } else {
        seq![s]
    }
}

/// Splits a string on `':'` into owned parts, exactly as [`split_on`]
/// denotes.
pub fn split_colon(s: &str) -> (r: Vec<String>)
    ensures
        string_views(r@) == split_on(s@, ':'),
    decreases s@.len(),
{
    let n = s.unicode_len();
    let mut i: usize = 0;
    let mut found: bool = false;
    while i < n && !found
        invariant
            n == s@.len(),
            i <= n,
            !found ==> forall|k: int| 0 <= k < i ==> s@[k] != ':',
            found ==> i < n && s@[i as int] == ':' && forall|k: int| 0 <= k < i ==> s@[k]
                != ':',
        decreases n - i, !found as int,
    {
        if s.get_char(i) == ':' {
            found = true;
        } else {
            i = i + 1;
        }
    }
    proof {
        first_sep_ensures(s@, ':');
    }
    if !found {
        let whole = String::from_str(s);
        let mut out: Vec<String> = Vec::new();
        out.push(whole);
        proof {
            assert(first_sep(s@, ':') == -1);
            assert(string_views(out@) =~= seq![s@]);
        }
        return out;
    }
    proof {
        assert(first_sep(s@, ':') == i as int);
    }
    let head = String::from_str(s.substring_char(0, i));
    let tail = s.substring_char(i + 1, n);
    let mut rest = split_colon(tail);
    let ghost rest_views = string_views(rest@);
    rest.insert(0, head);
    proof {
        assert(tail@ =~= s@.skip(i + 1));
        assert(head@ =~= s@.take(i as int));
        assert(string_views(rest@) =~= seq![s@.take(i as int)] + rest_views);
    }
    rest
}

/// The color channels a raw color text denotes: exactly three colon-separated
/// all-digit parts, each at most `i32::MAX`; anything else denotes nothing.
pub open spec fn color_channels(s: Seq<char>) -> Option<(i32, i32, i32)> {
    let parts = split_on(s, ':');
    if parts.len() == 3 {
        match (dec_val(parts[0]), dec_val(parts[1]), dec_val(parts[2])) {
            (Some(a), Some(b), Some(c)) => {
                if a <= i32::MAX && b <= i32::MAX && c <= i32::MAX {
                    Some(((a as i32), (b as i32), (c as i32)))
                } else {
                    None
                }
            },
            _ => None,
        }
    } else {
        None
    }
}

/// Parses an `"R:G:B"` color text, exactly as [`color_channels`] denotes.
pub fn parse_color(s: &str) -> (r: Option<(i32, i32, i32)>)
    ensures
        r == color_channels(s@),
{
    let parts = split_colon(s);
    if parts.len() != 3 {
        proof {
            assert(string_views(parts@).len() == parts@.len());
        }
        return None;
    }
    proof {
        assert(string_views(parts@).len() == parts@.len());
        assert(string_views(parts@)[0] == parts@[0]@);
        assert(string_views(parts@)[1] == parts@[1]@);
        assert(string_views(parts@)[2] == parts@[2]@);
    }
    let a = parse_i32_digits(parts[0].as_str());
    let b = parse_i32_digits(parts[1].as_str());
    let c = parse_i32_digits(parts[2].as_str());
    match (a, b, c) {
        (Some(a), Some(b), Some(c)) => Some((a, b, c)),
        _ => None,
    }
}

} // verus!
