//! The decimal converter: exact conversion between human-readable decimal
//! text and token amounts scaled by a token's decimal count.
//!
//! `parse_u256` turns text into an amount in the smallest unit; a text with
//! more than one point, a non-numeric or empty integer part, a non-numeric
//! fractional part, or a fractional part longer than the decimal count is
//! malformed, and a value beyond 256 bits is an overflow. `u256_to_string`
//! renders an amount back as text, padding the fractional remainder and
//! stripping its trailing zeros.
use vstd::prelude::*;
use crate::digits::{
    canonical, digits_lt, digits_of, is_digit_seq, lemma_digits_of, lemma_pow10_add,
    lemma_seq_val_concat, lemma_zeros_val, pow10, seq_val, trim_leading_zeros,
};
use crate::chars::{
    all_dec_digits, char_digit, char_of_digit, chars_of_digits, chars_val, digit_char,
    digit_of_char, digits_of_chars, is_dec_digit, lemma_digits_of_chars_val, push_char,
};
use crate::amount::{dec_chars_of, lemma_max_digit_seq_canonical, max_amount, Amount};
use crate::errors::ParseAmountError;

verus! {

/// How many decimal points a text holds.
pub open spec fn count_dots(s: Seq<char>) -> nat
    decreases s.len(),
{
    if s.len() == 0 {
        0
    } else {
        count_dots(s.drop_last()) + if s.last() == '.' {
            1nat
        } else {
            0nat
        }
    }
}

/// The position of the decimal point of a text that has exactly one.
pub open spec fn dot_index(s: Seq<char>) -> int {
    choose|i: int| 0 <= i < s.len() && s[i] == '.'
}

/// A well-formed decimal amount for a token with `d` decimals: digits with
/// at most one point, a non-empty all-numeric integer part, an all-numeric
/// fractional part no longer than `d`.
pub open spec fn valid_amount_text(s: Seq<char>, d: nat) -> bool {
    if count_dots(s) == 0 {
        s.len() > 0 && all_dec_digits(s)
    } else if count_dots(s) == 1 {
        let i = dot_index(s);
        &&& i > 0
        &&& all_dec_digits(s.take(i))
        &&& all_dec_digits(s.skip(i + 1))
        &&& s.len() - i - 1 <= d
    } else {
        false
    }
}

/// The value denoted by a well-formed decimal amount, in the smallest unit:
/// the integer part scaled by ten to the `d`, plus the fractional part
/// right-padded with zeros to exactly `d` digits.
pub open spec fn text_val(s: Seq<char>, d: nat) -> nat
    recommends
        valid_amount_text(s, d),
{
    if count_dots(s) == 0 {
        chars_val(s) * pow10(d)
    } else {
        let i = dot_index(s);
        chars_val(s.take(i)) * pow10(d) + chars_val(s.skip(i + 1)) * pow10(
            (d - (s.len() - i - 1)) as nat,
        )
    }
}

pub proof fn lemma_dot_count_ge_one(s: Seq<char>, i: int)
    requires
        0 <= i < s.len(),
        s[i] == '.',
    ensures
        count_dots(s) >= 1,
    decreases s.len(),
{
    if i < s.len() - 1 {
        lemma_dot_count_ge_one(s.drop_last(), i);
    }
}

pub proof fn lemma_dot_count_ge_two(s: Seq<char>, i: int, j: int)
    requires
        0 <= i < j < s.len(),
        s[i] == '.',
        s[j] == '.',
    ensures
        count_dots(s) >= 2,
    decreases s.len(),
{
    if j == s.len() - 1 {
        lemma_dot_count_ge_one(s.drop_last(), i);
    } else {
        lemma_dot_count_ge_two(s.drop_last(), i, j);
    }
}

/// With exactly one point, `dot_index` is the position of any point.
pub proof fn lemma_unique_dot(s: Seq<char>, i: int)
    requires
        count_dots(s) == 1,
        0 <= i < s.len(),
        s[i] == '.',
    ensures
        dot_index(s) == i,
{
    let j = dot_index(s);
    assert(0 <= j < s.len() && s[j] == '.') by {
        assert(0 <= i < s.len() && s[i] == '.');
    }
    if j < i {
        lemma_dot_count_ge_two(s, j, i);
    } else if i < j {
        lemma_dot_count_ge_two(s, i, j);
    }
}

/// A numeric text has no decimal point.
pub proof fn lemma_count_dots_zero(s: Seq<char>)
    requires
        all_dec_digits(s),
    ensures
        count_dots(s) == 0,
    decreases s.len(),
{
    if s.len() > 0 {
        lemma_count_dots_zero(s.drop_last());
        assert(is_dec_digit(s.last()));
    }
}

pub proof fn lemma_count_dots_concat(a: Seq<char>, b: Seq<char>)
    ensures
        count_dots(a + b) == count_dots(a) + count_dots(b),
    decreases b.len(),
{
    if b.len() == 0 {
        assert(a + b =~= a);
    } else {
        lemma_count_dots_concat(a, b.drop_last());
        assert((a + b).drop_last() =~= a + b.drop_last());
        assert((a + b).last() == b.last());
    }
}

/// Value of an integer part, a fractional part and its zero padding,
/// concatenated as one digit sequence.
proof fn lemma_assembled_val(a: Seq<u8>, b: Seq<u8>, z: Seq<u8>, d: nat)
    requires
        forall|i: int| 0 <= i < z.len() ==> z[i] == 0,
        b.len() + z.len() == d,
    ensures
        seq_val(a + b + z) == seq_val(a) * pow10(d) + seq_val(b) * pow10(z.len()),
{
    assert(a + b + z =~= (a + b) + z);
    lemma_seq_val_concat(a + b, z);
    lemma_zeros_val(z);
    lemma_seq_val_concat(a, b);
    lemma_pow10_add(b.len(), z.len());
    assert((seq_val(a) * pow10(b.len()) + seq_val(b)) * pow10(z.len()) == seq_val(a) * (pow10(
        b.len(),
    ) * pow10(z.len())) + seq_val(b) * pow10(z.len())) by (nonlinear_arith);
}

/// Parses decimal text into an amount in the smallest unit of a token with
/// `decimals` decimals.
#[verifier::loop_isolation(false)]
#[verifier::rlimit(60)]
pub fn parse_u256(amount: &str, decimals: usize) -> (r: Result<Amount, ParseAmountError>)
    ensures
        r is Ok <==> (valid_amount_text(amount@, decimals as nat) && text_val(
            amount@,
            decimals as nat,
        ) <= max_amount()),
        r matches Ok(a) ==> a.wf() && a@ == text_val(amount@, decimals as nat),
        r matches Err(e) ==> ((e is MalformedAmount) <==> !valid_amount_text(
            amount@,
            decimals as nat,
        )),
        r matches Err(e) ==> ((e is AmountOverflow) <==> (valid_amount_text(
            amount@,
            decimals as nat,
        ) && text_val(amount@, decimals as nat) > max_amount())),
{
    let ghost d = decimals as nat;
    let n = amount.unicode_len();
    let mut has_dot: bool = false;
    let mut dot_pos: usize = 0;
    let mut i: usize = 0;
    while i < n
        invariant
            n == amount@.len(),
            i <= n,
            !has_dot ==> count_dots(amount@.take(i as int)) == 0,
            has_dot ==> dot_pos < i && amount@[dot_pos as int] == '.' && count_dots(
                amount@.take(i as int),
            ) == 1,
        decreases n - i,
    {
        let c = amount.get_char(i);
        proof {
            assert(amount@.take(i + 1 as int).drop_last() =~= amount@.take(i as int));
            assert(amount@.take(i + 1 as int).last() == amount@[i as int]);
        }
        if c == '.' {
            if has_dot {
                proof {
                    lemma_dot_count_ge_two(amount@, dot_pos as int, i as int);
                }
                return Err(ParseAmountError::MalformedAmount);
            }
            has_dot = true;
            dot_pos = i;
        }
        i += 1;
    }
    proof {
        assert(amount@.take(n as int) =~= amount@);
        if has_dot {
            lemma_unique_dot(amount@, dot_pos as int);
        }
    }
    let int_end: usize = if has_dot {
        dot_pos
    } else {
        n
    };
    let frac_start: usize = if has_dot {
        dot_pos + 1
    } else {
        n
    };
    if int_end == 0 {
        return Err(ParseAmountError::MalformedAmount);
    }
    let frac_len = n - frac_start;
    if frac_len > decimals {
        return Err(ParseAmountError::MalformedAmount);
    }
    let ghost ip = amount@.take(int_end as int);
    let ghost fp = amount@.subrange(frac_start as int, n as int);
    let mut digs: Vec<u8> = Vec::new();
    let mut k: usize = 0;
    while k < int_end
        invariant
            k <= int_end <= n,
            n == amount@.len(),
            ip == amount@.take(int_end as int),
            all_dec_digits(amount@.take(k as int)),
            digs@ == digits_of_chars(amount@.take(k as int)),
        decreases int_end - k,
    {
        let c = amount.get_char(k);
        let dgt = digit_of_char(c);
        if dgt >= 10 {
            proof {
                assert(!is_dec_digit(amount@[k as int]));
                if has_dot {
                    assert(ip[k as int] == amount@[k as int]);
                }
            }
            return Err(ParseAmountError::MalformedAmount);
        }
        digs.push(dgt);
        k += 1;
        proof {
            assert(amount@.take(k as int).drop_last() =~= amount@.take(k - 1 as int));
            assert(amount@.take(k as int).last() == amount@[k - 1 as int]);
            assert(digits_of_chars(amount@.take(k as int)) =~= digits_of_chars(
                amount@.take(k - 1 as int),
            ).push(char_digit(amount@[k - 1 as int]) as u8));
        }
    }
    proof {
        assert(all_dec_digits(ip));
        assert(digs@ == digits_of_chars(ip));
    }
    let mut k2: usize = frac_start;
    while k2 < n
        invariant
            frac_start <= k2 <= n,
            n == amount@.len(),
            int_end <= frac_start,
            ip == amount@.take(int_end as int),
            fp == amount@.subrange(frac_start as int, n as int),
            all_dec_digits(amount@.subrange(frac_start as int, k2 as int)),
            digs@ == digits_of_chars(ip) + digits_of_chars(
                amount@.subrange(frac_start as int, k2 as int),
            ),
        decreases n - k2,
    {
        let c = amount.get_char(k2);
        let dgt = digit_of_char(c);
        if dgt >= 10 {
            proof {
                assert(fp[k2 - frac_start as int] == amount@[k2 as int]);
                assert(!is_dec_digit(amount@[k2 as int]));
            }
            return Err(ParseAmountError::MalformedAmount);
        }
        digs.push(dgt);
        k2 += 1;
        proof {
            let sub = amount@.subrange(frac_start as int, k2 as int);
            assert(sub.drop_last() =~= amount@.subrange(frac_start as int, k2 - 1 as int));
            assert(sub.last() == amount@[k2 - 1 as int]);
            assert(digits_of_chars(sub) =~= digits_of_chars(sub.drop_last()).push(
                char_digit(amount@[k2 - 1 as int]) as u8,
            ));
        }
    }
    let pad = decimals - frac_len;
    let mut p_i: usize = 0;
    while p_i < pad
        invariant
            p_i <= pad,
            digs@ == digits_of_chars(ip) + digits_of_chars(fp) + Seq::new(p_i as nat, |x: int| 0u8),
        decreases pad - p_i,
    {
        digs.push(0u8);
        p_i += 1;
        proof {
            assert(digs@ =~= digits_of_chars(ip) + digits_of_chars(fp) + Seq::new(
                p_i as nat,
                |x: int| 0u8,
            ));
        }
    }
    proof {
        assert(fp.len() == frac_len);
        lemma_digits_of_chars_val(ip);
        lemma_digits_of_chars_val(fp);
        lemma_assembled_val(
            digits_of_chars(ip),
            digits_of_chars(fp),
            Seq::new(pad as nat, |x: int| 0u8),
            d,
        );
        assert(is_digit_seq(digs@));
        assert(seq_val(digs@) == chars_val(ip) * pow10(d) + chars_val(fp) * pow10(pad as nat));
        if has_dot {
            assert(amount@.skip(dot_pos + 1 as int) =~= fp);
            assert(valid_amount_text(amount@, d));
            assert(text_val(amount@, d) == seq_val(digs@));
        } else {
            assert(ip =~= amount@);
            assert(fp.len() == 0);
            assert(chars_val(fp) == 0);
            assert(valid_amount_text(amount@, d));
            assert(text_val(amount@, d) == seq_val(digs@));
        }
    }
    let trimmed = trim_leading_zeros(&digs);
    let max = crate::amount::max_digits_vec();
    proof {
        lemma_max_digit_seq_canonical();
    }
    if digits_lt(&max, &trimmed) {
        return Err(ParseAmountError::AmountOverflow);
    }
    Ok(Amount::from_digit_vec(trimmed))
}

/// A run of `n` zero characters.
pub open spec fn zero_chars(n: nat) -> Seq<char> {
    Seq::new(n, |i: int| '0')
}

/// A text with its trailing zero characters removed.
pub open spec fn strip_trailing_zeros(s: Seq<char>) -> Seq<char>
    decreases s.len(),
{
    if s.len() == 0 {
        s
    } else if s.last() == '0' {
        strip_trailing_zeros(s.drop_last())
    } else {
        s
    }
}

/// The fractional part of an amount rendered for `d` decimals: the remainder
/// modulo ten to the `d`, left-padded with zeros to exactly `d` digits, with
/// trailing zeros stripped.
pub open spec fn frac_chars(v: nat, d: nat) -> Seq<char> {
    let f = v % pow10(d);
    strip_trailing_zeros(
        zero_chars((d - digits_of(f).len()) as nat) + chars_of_digits(digits_of(f)),
    )
}

/// The decimal text of an amount for a token with `d` decimals: the integer
/// quotient, then, unless the stripped fractional part is empty, a point and
/// that fractional part.
pub open spec fn text_of(v: nat, d: nat) -> Seq<char> {
    let q = v / pow10(d);
    let fc = frac_chars(v, d);
    if fc.len() == 0 {
        dec_chars_of(q)
    } else {
        dec_chars_of(q) + seq!['.'] + fc
    }
}

/// Stripping trailing zeros takes a prefix and divides the value by the
/// weight of the removed places.
pub proof fn lemma_strip_props(s: Seq<char>)
    ensures
        strip_trailing_zeros(s).len() <= s.len(),
        strip_trailing_zeros(s) == s.take(strip_trailing_zeros(s).len() as int),
        chars_val(strip_trailing_zeros(s)) * pow10((s.len() - strip_trailing_zeros(s).len()) as nat)
            == chars_val(s),
    decreases s.len(),
{
    let t = strip_trailing_zeros(s);
    if s.len() == 0 {
        assert(t =~= s.take(t.len() as int));
        assert(chars_val(t) * pow10(0) == chars_val(s)) by (nonlinear_arith)
            requires chars_val(t) == chars_val(s), pow10(0) == 1;
    } else if s.last() == '0' {
        lemma_strip_props(s.drop_last());
        assert(s.drop_last() =~= s.take(s.len() - 1));
        assert(s.take(s.len() - 1).take(t.len() as int) =~= s.take(t.len() as int));
        let p1 = pow10((s.len() - 1 - t.len()) as nat);
        let p = pow10((s.len() - t.len()) as nat);
        assert(p == 10 * p1);
        assert(chars_val(s) == chars_val(s.drop_last()) * 10 + char_digit('0'));
        assert(chars_val(t) * p == (chars_val(t) * p1) * 10) by (nonlinear_arith)
            requires p == 10 * p1;
    } else {
        assert(t =~= s.take(t.len() as int));
        assert(chars_val(t) * pow10(0) == chars_val(s)) by (nonlinear_arith)
            requires chars_val(t) == chars_val(s), pow10(0) == 1;
    }
}

/// When the last character that is not a zero stands at `p`, stripping keeps
/// exactly the text up to and including `p`.
pub proof fn lemma_strip_is_take(s: Seq<char>, p: int)
    requires
        0 <= p < s.len(),
        s[p] != '0',
        forall|q: int| p < q < s.len() ==> s[q] == '0',
    ensures
        strip_trailing_zeros(s) == s.take(p + 1),
    decreases s.len(),
{
    if p == s.len() - 1 {
        assert(s.take(p + 1) =~= s);
    } else {
        lemma_strip_is_take(s.drop_last(), p);
        assert(s.drop_last() =~= s.take(s.len() - 1));
        assert(s.take(s.len() - 1).take(p + 1) =~= s.take(p + 1));
    }
}

/// A text of zeros strips to the empty text.
pub proof fn lemma_strip_all_zeros(s: Seq<char>)
    requires
        forall|i: int| 0 <= i < s.len() ==> s[i] == '0',
    ensures
        strip_trailing_zeros(s) == Seq::<char>::empty(),
    decreases s.len(),
{
    if s.len() > 0 {
        lemma_strip_all_zeros(s.drop_last());
    } else {
        assert(s =~= Seq::<char>::empty());
    }
}

/// Splitting the canonical digits of `v` before its last `d` digits yields
/// the digits of the quotient and remainder by ten to the `d`.
pub proof fn lemma_digit_split(v: nat, d: nat)
    ensures
        ({
            let ds = digits_of(v);
            let fd = if d < ds.len() {
                d as int
            } else {
                ds.len() as int
            };
            let il = ds.len() - fd;
            &&& seq_val(ds.take(il)) == v / pow10(d)
            &&& seq_val(ds.skip(il)) == v % pow10(d)
            &&& (il > 0 ==> canonical(ds.take(il)))
        }),
{
    let ds = digits_of(v);
    let fd = if d < ds.len() {
        d as int
    } else {
        ds.len() as int
    };
    let il = ds.len() - fd;
    let p = pow10(d) as int;
    lemma_digits_of(v);
    crate::digits::lemma_pow10_pos(d);
    assert(ds =~= ds.take(il) + ds.skip(il));
    lemma_seq_val_concat(ds.take(il), ds.skip(il));
    assert(is_digit_seq(ds.skip(il)));
    crate::digits::lemma_seq_val_bound(ds.skip(il));
    if d < ds.len() {
        assert(ds.skip(il).len() == d);
        vstd::arithmetic::div_mod::lemma_fundamental_div_mod_converse(
            v as int,
            p,
            seq_val(ds.take(il)) as int,
            seq_val(ds.skip(il)) as int,
        );
    } else {
        assert(il == 0);
        assert(ds.take(0) =~= Seq::<u8>::empty());
        assert(seq_val(ds.take(0)) == 0);
        crate::digits::lemma_seq_val_bound(ds);
        crate::digits::lemma_pow10_mono(ds.len(), d);
        assert(v == 0 * p + v) by (nonlinear_arith);
        vstd::arithmetic::div_mod::lemma_fundamental_div_mod_converse(v as int, p, 0, v as int);
        assert(ds.skip(0) =~= ds);
    }
}

/// Renders an amount as decimal text for a token with `decimals` decimals.
#[verifier::loop_isolation(false)]
#[verifier::rlimit(100)]
pub fn u256_to_string(amount: &Amount, decimals: usize) -> (r: String)
    requires
        amount.wf(),
    ensures
        r@ == text_of(amount@, decimals as nat),
{
    let ghost v = amount@;
    let ghost d = decimals as nat;
    let digits = amount.digit_vec();
    let n = digits.len();
    let fd: usize = if decimals < n {
        decimals
    } else {
        n
    };
    let il: usize = n - fd;
    proof {
        lemma_digit_split(v, d);
    }
    let ghost q = v / pow10(d);
    let ghost f = v % pow10(d);
    let mut s = String::new();
    if il == 0 {
        proof {
            assert(digits@.take(0) =~= Seq::<u8>::empty());
            assert(seq_val(digits@.take(0)) == 0);
        }
        push_char(&mut s, '0');
        proof {
            assert(s@ =~= seq!['0']);
            assert(s@ == dec_chars_of(q));
        }
    } else {
        let mut k: usize = 0;
        while k < il
            invariant
                k <= il,
                s@ == chars_of_digits(digits@.take(k as int)),
            decreases il - k,
        {
            push_char(&mut s, char_of_digit(digits[k]));
            k += 1;
            proof {
                assert(chars_of_digits(digits@.take(k as int)) =~= chars_of_digits(
                    digits@.take(k - 1 as int),
                ).push(digit_char(digits@[k - 1 as int])));
            }
        }
        proof {
            crate::digits::lemma_canonical_lower(digits@.take(il as int));
            crate::digits::lemma_pow10_pos((il - 1) as nat);
            lemma_digits_of(q);
            crate::digits::lemma_canonical_unique(digits@.take(il as int), digits_of(q));
            assert(s@ == dec_chars_of(q));
        }
    }
    let ghost ipc = s@;
    let mut found = false;
    let mut last_nz: usize = 0;
    let mut m: usize = il;
    while m < n
        invariant
            il <= m <= n,
            found ==> il <= last_nz < m && digits@[last_nz as int] != 0 && (forall|t: int|
                last_nz < t < m ==> digits@[t] == 0),
            !found ==> (forall|t: int| il <= t < m ==> digits@[t] == 0),
        decreases n - m,
    {
        if digits[m] != 0 {
            found = true;
            last_nz = m;
        }
        m += 1;
    }
    let pad = decimals - fd;
    let ghost tail = digits@.skip(il as int);
    let ghost padded8 = Seq::new(pad as nat, |x: int| 0u8) + tail;
    let ghost pc = chars_of_digits(padded8);
    proof {
        lemma_padded_digits(v, d, tail, pad as nat);
        assert(frac_chars(v, d) == strip_trailing_zeros(pc));
    }
    if !found {
        proof {
            assert forall|t: int| 0 <= t < pc.len() implies pc[t] == '0' by {
                assert(padded8[t] == 0);
            }
            lemma_strip_all_zeros(pc);
            assert(frac_chars(v, d).len() == 0);
        }
        return s;
    }
    let ghost pos = pad + (last_nz - il) as int;
    proof {
        assert(padded8[pos] == digits@[last_nz as int]);
        assert(pc[pos] == digit_char(digits@[last_nz as int]));
        assert(pc[pos] != '0');
        assert forall|t: int| pos < t < pc.len() implies pc[t] == '0' by {
            assert(padded8[t] == tail[t - pad]);
            assert(tail[t - pad] == digits@[il + t - pad]);
        }
        lemma_strip_is_take(pc, pos);
    }
    push_char(&mut s, '.');
    let mut z: usize = 0;
    while z < pad
        invariant
            z <= pad,
            s@ == ipc + seq!['.'] + zero_chars(z as nat),
        decreases pad - z,
    {
        push_char(&mut s, '0');
        z += 1;
        proof {
            assert(s@ =~= ipc + seq!['.'] + zero_chars(z as nat));
        }
    }
    let mut w: usize = il;
    while w <= last_nz
        invariant
            il <= w <= last_nz + 1,
            last_nz < n,
            s@ == ipc + seq!['.'] + zero_chars(pad as nat) + chars_of_digits(
                digits@.subrange(il as int, w as int),
            ),
        decreases last_nz + 1 - w,
    {
        push_char(&mut s, char_of_digit(digits[w]));
        w += 1;
        proof {
            assert(chars_of_digits(digits@.subrange(il as int, w as int)) =~= chars_of_digits(
                digits@.subrange(il as int, w - 1 as int),
            ).push(digit_char(digits@[w - 1 as int])));
            assert(s@ =~= ipc + seq!['.'] + zero_chars(pad as nat) + chars_of_digits(
                digits@.subrange(il as int, w as int),
            ));
        }
    }
    proof {
        assert(zero_chars(pad as nat) + chars_of_digits(digits@.subrange(il as int, last_nz + 1))
            =~= pc.take(pos + 1));
        assert(s@ =~= ipc + seq!['.'] + pc.take(pos + 1));
        assert(frac_chars(v, d) == pc.take(pos + 1));
        assert(frac_chars(v, d).len() > 0);
    }
    s
}

/// The padded fractional digits of the specification equal the low digits of
/// the amount behind their zero padding.
proof fn lemma_padded_digits(v: nat, d: nat, tail: Seq<u8>, pad: nat)
    requires
        tail == digits_of(v).skip(
            digits_of(v).len() - if d < digits_of(v).len() {
                d as int
            } else {
                digits_of(v).len() as int
            },
        ),
        pad == d - if d < digits_of(v).len() {
            d
        } else {
            digits_of(v).len()
        },
    ensures
        zero_chars((d - digits_of(v % pow10(d)).len()) as nat) + chars_of_digits(
            digits_of(v % pow10(d)),
        ) == chars_of_digits(Seq::new(pad, |x: int| 0u8) + tail),
{
    let f = v % pow10(d);
    lemma_digit_split(v, d);
    lemma_digits_of(v);
    lemma_digits_of(f);
    crate::digits::lemma_pow10_pos(d);
    vstd::arithmetic::div_mod::lemma_mod_bound(v as int, pow10(d) as int);
    crate::digits::lemma_digits_of_len(f, d);
    let a = Seq::new((d - digits_of(f).len()) as nat, |x: int| 0u8) + digits_of(f);
    let b = Seq::new(pad, |x: int| 0u8) + tail;
    assert(is_digit_seq(tail)) by {
        assert(forall|t: int|
            0 <= t < tail.len() ==> tail[t] == digits_of(v)[digits_of(v).len() - tail.len() + t]);
    }
    assert(a.len() == d);
    assert(b.len() == d);
    lemma_seq_val_concat(Seq::new((d - digits_of(f).len()) as nat, |x: int| 0u8), digits_of(f));
    lemma_seq_val_concat(Seq::new(pad, |x: int| 0u8), tail);
    lemma_zeros_val(Seq::new((d - digits_of(f).len()) as nat, |x: int| 0u8));
    lemma_zeros_val(Seq::new(pad, |x: int| 0u8));
    assert(seq_val(a) == f) by {
        assert(0 * pow10(digits_of(f).len()) == 0) by (nonlinear_arith);
    }
    assert(seq_val(b) == f) by {
        assert(0 * pow10(tail.len()) == 0) by (nonlinear_arith);
    }
    assert(is_digit_seq(a));
    assert(is_digit_seq(b));
    crate::digits::lemma_eq_of_val(a, b);
    assert(zero_chars((d - digits_of(f).len()) as nat) + chars_of_digits(digits_of(f))
        =~= chars_of_digits(a));
}

/// The text of a value is a well-formed decimal amount.
proof fn lemma_dec_chars_of_props(v: nat)
    ensures
        all_dec_digits(dec_chars_of(v)),
        dec_chars_of(v).len() > 0,
        chars_val(dec_chars_of(v)) == v,
{
    if v == 0 {
        assert(seq!['0'].drop_last() =~= Seq::<char>::empty());
        assert(chars_val(seq!['0']) == chars_val(Seq::<char>::empty()) * 10 + char_digit('0'));
        assert(is_dec_digit(seq!['0'][0]));
    } else {
        lemma_digits_of(v);
        crate::chars::lemma_chars_of_digits_val(digits_of(v));
        if digits_of(v).len() == 0 {
            assert(seq_val(digits_of(v)) == 0);
        }
    }
}

/// A run of zero characters denotes zero.
proof fn lemma_zero_chars_val(n: nat)
    ensures
        chars_val(zero_chars(n)) == 0,
        all_dec_digits(zero_chars(n)),
    decreases n,
{
    if n > 0 {
        lemma_zero_chars_val((n - 1) as nat);
        assert(zero_chars(n).drop_last() =~= zero_chars((n - 1) as nat));
        assert(zero_chars(n).last() == '0');
    }
}

/// Round trip: rendering any value for any decimal count yields a
/// well-formed decimal text that parses back to exactly that value.
pub proof fn lemma_round_trip(v: nat, d: nat)
    ensures
        valid_amount_text(text_of(v, d), d),
        text_val(text_of(v, d), d) == v,
{
    let p = pow10(d);
    crate::digits::lemma_pow10_pos(d);
    vstd::arithmetic::div_mod::lemma_fundamental_div_mod(v as int, p as int);
    vstd::arithmetic::div_mod::lemma_mod_bound(v as int, p as int);
    let q = v / p;
    let f = v % p;
    let ip = dec_chars_of(q);
    lemma_dec_chars_of_props(q);
    lemma_digits_of(f);
    crate::digits::lemma_digits_of_len(f, d);
    crate::chars::lemma_chars_of_digits_val(digits_of(f));
    let pad = (d - digits_of(f).len()) as nat;
    let padded = zero_chars(pad) + chars_of_digits(digits_of(f));
    lemma_zero_chars_val(pad);
    crate::chars::lemma_chars_val_concat(zero_chars(pad), chars_of_digits(digits_of(f)));
    assert(chars_val(padded) == f) by {
        assert(0 * pow10(digits_of(f).len()) == 0) by (nonlinear_arith);
    }
    assert(padded.len() == d);
    assert(all_dec_digits(padded)) by {
        assert(forall|i: int|
            0 <= i < padded.len() && i < pad ==> padded[i] == '0' && is_dec_digit('0'));
        assert(forall|i: int|
            pad <= i < padded.len() ==> padded[i] == chars_of_digits(digits_of(f))[i - pad]);
    }
    let fc = frac_chars(v, d);
    lemma_strip_props(padded);
    assert(fc == padded.take(fc.len() as int));
    assert(all_dec_digits(fc)) by {
        assert(forall|i: int| 0 <= i < fc.len() ==> fc[i] == padded[i]);
    }
    if fc.len() == 0 {
        let s = text_of(v, d);
        assert(s == ip);
        lemma_count_dots_zero(s);
        assert(chars_val(fc) == 0);
        assert(f == 0) by {
            assert(chars_val(fc) * pow10((padded.len() - fc.len()) as nat) == 0)
                by (nonlinear_arith)
                requires chars_val(fc) == 0;
        }
        assert(text_val(s, d) == q * p);
        assert(v == p * q + f);
        assert(q * p == p * q) by (nonlinear_arith);
    } else {
        let s = text_of(v, d);
        assert(s == ip + seq!['.'] + fc);
        lemma_count_dots_zero(ip);
        lemma_count_dots_zero(fc);
        lemma_count_dots_concat(ip + seq!['.'], fc);
        lemma_count_dots_concat(ip, seq!['.']);
        assert(count_dots(seq!['.']) == 1) by {
            assert(seq!['.'].drop_last() =~= Seq::<char>::empty());
            assert(count_dots(Seq::<char>::empty()) == 0);
            assert(seq!['.'].last() == '.');
        }
        assert(count_dots(s) == 1);
        let i0 = ip.len() as int;
        assert(s[i0] == '.');
        lemma_unique_dot(s, i0);
        assert(s.take(i0) =~= ip);
        assert(s.skip(i0 + 1) =~= fc);
        assert(s.len() - i0 - 1 == fc.len());
        assert(fc.len() <= d);
        assert(valid_amount_text(s, d));
        assert(chars_val(fc) * pow10((padded.len() - fc.len()) as nat) == f);
        assert(text_val(s, d) == chars_val(ip) * p + chars_val(fc) * pow10(
            (d - fc.len()) as nat,
        ));
        assert(v == p * q + f);
        assert(q * p == p * q) by (nonlinear_arith);
    }
}

/// Rendering zero yields "0" for every decimal count.
pub proof fn lemma_text_of_zero(d: nat)
    ensures
        text_of(0, d) == seq!['0'],
{
    let p = pow10(d);
    crate::digits::lemma_pow10_pos(d);
    assert(0int == 0 * (p as int) + 0) by (nonlinear_arith);
    vstd::arithmetic::div_mod::lemma_fundamental_div_mod_converse(0, p as int, 0, 0);
    assert((0nat / p) == 0);
    assert((0nat % p) == 0);
    assert(digits_of(0nat % p) =~= Seq::<u8>::empty());
    let padded = zero_chars(d) + chars_of_digits(Seq::<u8>::empty());
    assert(padded =~= zero_chars(d));
    lemma_strip_all_zeros(padded);
    assert(frac_chars(0, d).len() == 0);
    assert(text_of(0, d) == dec_chars_of(0));
}

/// Parses decimal ether text into its amount in wei, the smallest unit of
/// ether, which has eighteen decimals.
pub fn parse_ether(amount: &str) -> (r: Result<Amount, ParseAmountError>)
    ensures
        r is Ok <==> (valid_amount_text(amount@, 18) && text_val(amount@, 18) <= max_amount()),
        r matches Ok(a) ==> a.wf() && a@ == text_val(amount@, 18),
        r matches Err(e) ==> ((e is MalformedAmount) <==> !valid_amount_text(amount@, 18)),
        r matches Err(e) ==> ((e is AmountOverflow) <==> (valid_amount_text(amount@, 18)
            && text_val(amount@, 18) > max_amount())),
{
    parse_u256(amount, 18)
}

/// Renders an amount of wei as decimal ether text.
pub fn ether_to_string(amount: &Amount) -> (r: String)
    requires
        amount.wf(),
    ensures
        r@ == text_of(amount@, 18),
{
    u256_to_string(amount, 18)
}

/// A text that parses to an in-range amount for `d` decimals.
pub open spec fn parses_to_amount(s: Seq<char>, d: nat) -> bool {
    valid_amount_text(s, d) && text_val(s, d) <= max_amount()
}

/// Parses a list of decimal texts; fails with the error of the first text
/// that does not parse.
#[verifier::loop_isolation(false)]
pub fn parse_amounts(texts: &Vec<String>, decimals: usize) -> (r: Result<
    Vec<Amount>,
    ParseAmountError,
>)
    ensures
        r is Ok <==> (forall|i: int|
            0 <= i < texts@.len() ==> parses_to_amount(texts@[i]@, decimals as nat)),
        r matches Ok(v) ==> ({
            &&& v@.len() == texts@.len()
            &&& forall|i: int|
                0 <= i < v@.len() ==> v@[i].wf() && v@[i]@ == text_val(
                    texts@[i]@,
                    decimals as nat,
                )
        }),
        r matches Err(e) ==> (exists|i: int|
            0 <= i < texts@.len() && !parses_to_amount(texts@[i]@, decimals as nat) && (forall|
                j: int,
            |
                0 <= j < i ==> parses_to_amount(texts@[j]@, decimals as nat)) && ((e
                is MalformedAmount) <==> !valid_amount_text(texts@[i]@, decimals as nat))),
{
    let mut out: Vec<Amount> = Vec::new();
    let mut i: usize = 0;
    while i < texts.len()
        invariant
            i <= texts@.len(),
            out@.len() == i,
            forall|j: int| 0 <= j < i ==> parses_to_amount(texts@[j]@, decimals as nat),
            forall|j: int|
                0 <= j < i ==> out@[j].wf() && out@[j]@ == text_val(texts@[j]@, decimals as nat),
        decreases texts@.len() - i,
    {
        match parse_u256(texts[i].as_str(), decimals) {
            Ok(a) => {
                out.push(a);
            },
            Err(e) => {
                return Err(e);
            },
        }
        i += 1;
    }
    Ok(out)
}

} // verus!
