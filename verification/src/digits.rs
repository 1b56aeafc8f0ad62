//! Decimal digit sequences and their numeric values.
//!
//! An amount is represented by its decimal digits, most significant first.
//! This module defines the value of such a sequence, canonicity (no leading
//! zero), and the lemmas that connect digit-level operations (concatenation,
//! padding, comparison) to arithmetic on the values.
use vstd::prelude::*;

verus! {

/// Every element is a decimal digit.
pub open spec fn is_digit_seq(s: Seq<u8>) -> bool {
    forall|i: int| 0 <= i < s.len() ==> s[i] < 10
}

/// Numeric value of a digit sequence, most significant digit first.
/// The empty sequence denotes zero.
pub open spec fn seq_val(s: Seq<u8>) -> nat
    decreases s.len(),
{
    if s.len() == 0 {
        0
    } else {
        seq_val(s.drop_last()) * 10 + (s.last() as nat)
    }
}

/// A digit sequence is canonical when it has no leading zero; zero itself
/// is the empty sequence.
pub open spec fn canonical(s: Seq<u8>) -> bool {
    is_digit_seq(s) && (s.len() > 0 ==> s[0] != 0)
}

/// Ten to the power `n`.
pub open spec fn pow10(n: nat) -> nat
    decreases n,
{
    if n == 0 {
        1
    } else {
        10 * pow10((n - 1) as nat)
    }
}

pub proof fn lemma_pow10_pos(n: nat)
    ensures
        pow10(n) >= 1,
    decreases n,
{
    if n > 0 {
        lemma_pow10_pos((n - 1) as nat);
    }
}

pub proof fn lemma_pow10_mono(a: nat, b: nat)
    requires
        a <= b,
    ensures
        pow10(a) <= pow10(b),
    decreases b,
{
    if a < b {
        lemma_pow10_mono(a, (b - 1) as nat);
        lemma_pow10_pos((b - 1) as nat);
    }
}

pub proof fn lemma_pow10_add(a: nat, b: nat)
    ensures
        pow10(a + b) == pow10(a) * pow10(b),
    decreases b,
{
    if b == 0 {
        assert(pow10(a + 0) == pow10(a) * 1);
    } else {
        lemma_pow10_add(a, (b - 1) as nat);
        assert(pow10(a + b) == 10 * pow10((a + b - 1) as nat));
        assert(pow10(a) * pow10(b) == pow10(a) * (10 * pow10((b - 1) as nat)));
        assert(pow10(a) * (10 * pow10((b - 1) as nat)) == 10 * (pow10(a) * pow10(
            (b - 1) as nat,
        ))) by (nonlinear_arith);
    }
}

/// The value of `n` digits is below ten to the `n`.
pub proof fn lemma_seq_val_bound(s: Seq<u8>)
    requires
        is_digit_seq(s),
    ensures
        seq_val(s) < pow10(s.len()),
    decreases s.len(),
{
    if s.len() > 0 {
        lemma_seq_val_bound(s.drop_last());
        assert(seq_val(s.drop_last()) <= pow10((s.len() - 1) as nat) - 1);
        assert(seq_val(s.drop_last()) * 10 <= (pow10((s.len() - 1) as nat) - 1) * 10)
            by (nonlinear_arith)
            requires seq_val(s.drop_last()) <= pow10((s.len() - 1) as nat) - 1;
    }
}

/// A canonical, non-empty sequence of `n` digits has value at least ten to
/// the `n - 1`.
pub proof fn lemma_canonical_lower(s: Seq<u8>)
    requires
        is_digit_seq(s),
        s.len() > 0,
        s[0] != 0,
    ensures
        seq_val(s) >= pow10((s.len() - 1) as nat),
    decreases s.len(),
{
    if s.len() == 1 {
        assert(seq_val(s.drop_last()) == 0);
    } else {
        lemma_canonical_lower(s.drop_last());
        assert(seq_val(s.drop_last()) * 10 >= pow10((s.len() - 2) as nat) * 10)
            by (nonlinear_arith)
            requires seq_val(s.drop_last()) >= pow10((s.len() - 2) as nat);
    }
}

/// Concatenation: the left part is shifted by the length of the right part.
pub proof fn lemma_seq_val_concat(a: Seq<u8>, b: Seq<u8>)
    ensures
        seq_val(a + b) == seq_val(a) * pow10(b.len()) + seq_val(b),
    decreases b.len(),
{
    if b.len() == 0 {
        assert(a + b =~= a);
        assert(pow10(b.len()) == 1);
        assert(seq_val(b) == 0);
        assert(seq_val(a) * 1 == seq_val(a)) by (nonlinear_arith);
        assert(seq_val(a + b) == seq_val(a) * pow10(b.len()) + seq_val(b));
    } else {
        lemma_seq_val_concat(a, b.drop_last());
        assert((a + b).drop_last() =~= a + b.drop_last());
        assert((a + b).last() == b.last());
        let x = seq_val(a);
        let y = seq_val(b.drop_last());
        let p = pow10((b.len() - 1) as nat);
        let d = b.last() as nat;
        assert(seq_val(a + b) == (x * p + y) * 10 + d);
        assert(seq_val(b) == y * 10 + d);
        assert(pow10(b.len()) == 10 * p);
        assert((x * p + y) * 10 == x * (10 * p) + y * 10) by (nonlinear_arith);
        assert(x * pow10(b.len()) == x * (10 * p)) by (nonlinear_arith)
            requires pow10(b.len()) == 10 * p;
        assert(seq_val(a + b) == x * pow10(b.len()) + seq_val(b));
    }
}

/// A sequence of zero digits has value zero.
pub proof fn lemma_zeros_val(s: Seq<u8>)
    requires
        forall|i: int| 0 <= i < s.len() ==> s[i] == 0,
    ensures
        seq_val(s) == 0,
    decreases s.len(),
{
    if s.len() > 0 {
        lemma_zeros_val(s.drop_last());
    }
}

/// Equal-length digit sequences compare numerically as they compare
/// lexicographically: a smaller digit at the first difference means a
/// smaller value.
pub proof fn lemma_lex_lt(a: Seq<u8>, b: Seq<u8>, i: int)
    requires
        is_digit_seq(a),
        is_digit_seq(b),
        a.len() == b.len(),
        0 <= i < a.len(),
        a.subrange(0, i) == b.subrange(0, i),
        a[i] < b[i],
    ensures
        seq_val(a) < seq_val(b),
{
    let n = a.len() as int;
    let k = (n - i - 1) as nat;
    let ha = a.subrange(0, i + 1);
    let ta = a.subrange(i + 1, n);
    let hb = b.subrange(0, i + 1);
    let tb = b.subrange(i + 1, n);
    assert(a =~= ha + ta);
    assert(b =~= hb + tb);
    lemma_seq_val_concat(ha, ta);
    lemma_seq_val_concat(hb, tb);
    assert(ha.drop_last() =~= a.subrange(0, i));
    assert(hb.drop_last() =~= b.subrange(0, i));
    let p = seq_val(a.subrange(0, i));
    assert(seq_val(ha) == p * 10 + (a[i] as nat));
    assert(seq_val(hb) == p * 10 + (b[i] as nat));
    assert(is_digit_seq(ta)) by {
        assert(forall|j: int| 0 <= j < ta.len() ==> ta[j] == a[i + 1 + j] && a[i + 1 + j] < 10);
    }
    lemma_seq_val_bound(ta);
    assert(seq_val(ha) + 1 <= seq_val(hb));
    assert((seq_val(ha) + 1) * pow10(k) <= seq_val(hb) * pow10(k)) by (nonlinear_arith)
        requires seq_val(ha) + 1 <= seq_val(hb);
    assert((seq_val(ha) + 1) * pow10(k) == seq_val(ha) * pow10(k) + pow10(k)) by (nonlinear_arith);
    lemma_pow10_pos(k);
    lemma_seq_val_bound(tb);
}

/// Canonical digit sequences of different lengths: the shorter one has the
/// smaller value.
pub proof fn lemma_shorter_lt(a: Seq<u8>, b: Seq<u8>)
    requires
        canonical(a),
        canonical(b),
        a.len() < b.len(),
    ensures
        seq_val(a) < seq_val(b),
{
    lemma_seq_val_bound(a);
    lemma_canonical_lower(b);
    lemma_pow10_mono(a.len(), (b.len() - 1) as nat);
}

/// A canonical digit sequence is determined by its value.
pub proof fn lemma_canonical_unique(a: Seq<u8>, b: Seq<u8>)
    requires
        canonical(a),
        canonical(b),
        seq_val(a) == seq_val(b),
    ensures
        a == b,
{
    if a.len() < b.len() {
        lemma_shorter_lt(a, b);
    } else if b.len() < a.len() {
        lemma_shorter_lt(b, a);
    } else if a != b {
        let i = choose|i: int| 0 <= i < a.len() && a[i] != b[i] && (forall|j: int|
            0 <= j < i ==> a[j] == b[j]);
        assert(exists|i: int|
            0 <= i < a.len() && a[i] != b[i] && (forall|j: int| 0 <= j < i ==> a[j] == b[j])) by {
            lemma_first_difference(a, b, 0);
        }
        assert(a.subrange(0, i) =~= b.subrange(0, i));
        if a[i] < b[i] {
            lemma_lex_lt(a, b, i);
        } else {
            lemma_lex_lt(b, a, i);
        }
    }
}

/// Two different sequences of equal length differ at a first position at or
/// after `from`, when they agree before `from`.
proof fn lemma_first_difference(a: Seq<u8>, b: Seq<u8>, from: int)
    requires
        a.len() == b.len(),
        0 <= from <= a.len(),
        a != b,
        forall|j: int| 0 <= j < from ==> a[j] == b[j],
    ensures
        exists|i: int| 0 <= i < a.len() && a[i] != b[i] && (forall|j: int|
            0 <= j < i ==> a[j] == b[j]),
    decreases a.len() - from,
{
    if from == a.len() {
        assert(a =~= b);
    } else if a[from] != b[from] {
        assert(0 <= from < a.len() && a[from] != b[from] && (forall|j: int|
            0 <= j < from ==> a[j] == b[j]));
    } else {
        lemma_first_difference(a, b, from + 1);
    }
}

/// Digit sequences of equal length are determined by their value.
pub proof fn lemma_eq_of_val(a: Seq<u8>, b: Seq<u8>)
    requires
        is_digit_seq(a),
        is_digit_seq(b),
        a.len() == b.len(),
        seq_val(a) == seq_val(b),
    ensures
        a == b,
{
    if a != b {
        let i = choose|i: int| 0 <= i < a.len() && a[i] != b[i] && (forall|j: int|
            0 <= j < i ==> a[j] == b[j]);
        assert(exists|i: int|
            0 <= i < a.len() && a[i] != b[i] && (forall|j: int| 0 <= j < i ==> a[j] == b[j])) by {
            lemma_first_difference(a, b, 0);
        }
        assert(a.subrange(0, i) =~= b.subrange(0, i));
        if a[i] < b[i] {
            lemma_lex_lt(a, b, i);
        } else {
            lemma_lex_lt(b, a, i);
        }
    }
}

/// The canonical digit sequence of a value.
pub open spec fn digits_of(v: nat) -> Seq<u8>
    decreases v,
{
    if v == 0 {
        Seq::empty()
    } else {
        digits_of(v / 10).push((v % 10) as u8)
    }
}

pub proof fn lemma_digits_of(v: nat)
    ensures
        canonical(digits_of(v)),
        seq_val(digits_of(v)) == v,
    decreases v,
{
    if v > 0 {
        assert(v / 10 < v);
        lemma_digits_of(v / 10);
        let s = digits_of(v);
        assert(s.drop_last() =~= digits_of(v / 10));
        assert(seq_val(s) == (v / 10) * 10 + v % 10);
        assert((v / 10) * 10 + v % 10 == v) by (nonlinear_arith);
        if digits_of(v / 10).len() == 0 {
            assert(v / 10 == 0);
            assert(v % 10 != 0) by (nonlinear_arith)
                requires v > 0, v / 10 == 0;
        }
    }
}

/// Appending a digit multiplies the value by ten and adds the digit.
pub proof fn lemma_seq_val_push(s: Seq<u8>, d: u8)
    ensures
        seq_val(s.push(d)) == seq_val(s) * 10 + d,
{
    assert(s.push(d).drop_last() =~= s);
    assert(s.push(d).last() == d);
}

pub proof fn lemma_seq_val_singleton(d: u8)
    ensures
        seq_val(seq![d]) == d,
{
    let s = seq![d];
    assert(s.drop_last() =~= Seq::<u8>::empty());
    assert(seq_val(s.drop_last()) == 0);
    assert(seq_val(s) == seq_val(s.drop_last()) * 10 + (s.last() as nat));
}

/// Value of the `k` least significant digits of `s`, or of all of `s` when
/// `k` exceeds its length.
pub open spec fn low_val(s: Seq<u8>, k: int) -> nat
    recommends
        k >= 0,
{
    if k >= s.len() {
        seq_val(s)
    } else {
        seq_val(s.subrange(s.len() - k, s.len() as int))
    }
}

/// Taking one more low digit adds that digit at its weight.
pub proof fn lemma_low_val_step(s: Seq<u8>, k: int)
    requires
        0 <= k < s.len(),
    ensures
        low_val(s, k + 1) == (s[s.len() - 1 - k] as nat) * pow10(k as nat) + low_val(s, k),
{
    let n = s.len() as int;
    let t = s.subrange(n - k - 1, n);
    assert(t =~= seq![s[n - 1 - k]] + s.subrange(n - k, n));
    lemma_seq_val_concat(seq![s[n - 1 - k]], s.subrange(n - k, n));
    lemma_seq_val_singleton(s[n - 1 - k]);
    if k + 1 >= n {
        assert(t =~= s);
    }
}

/// A value below ten to the `k` has at most `k` digits.
pub proof fn lemma_digits_of_len(v: nat, k: nat)
    requires
        v < pow10(k),
    ensures
        digits_of(v).len() <= k,
{
    lemma_digits_of(v);
    if digits_of(v).len() > k {
        lemma_canonical_lower(digits_of(v));
        lemma_pow10_mono(k, (digits_of(v).len() - 1) as nat);
    }
}

/// Copy of a digit vector.
pub fn copy_bytes(v: &Vec<u8>) -> (r: Vec<u8>)
    ensures
        r@ == v@,
{
    let mut r: Vec<u8> = Vec::new();
    let mut i: usize = 0;
    while i < v.len()
        invariant
            i <= v.len(),
            r@ == v@.take(i as int),
        decreases v.len() - i,
    {
        r.push(v[i]);
        i += 1;
        proof {
            assert(r@ =~= v@.take(i as int));
        }
    }
    proof {
        assert(r@ =~= v@);
    }
    r
}

/// The digits of `v` in reverse order.
pub fn reverse_digits(v: &Vec<u8>) -> (r: Vec<u8>)
    ensures
        r@ == v@.reverse(),
{
    let mut r: Vec<u8> = Vec::new();
    let mut j: usize = v.len();
    while j > 0
        invariant
            j <= v.len(),
            r@.len() == v@.len() - j,
            forall|k: int| 0 <= k < r@.len() ==> r@[k] == v@[v@.len() - 1 - k],
        decreases j,
    {
        j -= 1;
        r.push(v[j]);
    }
    proof {
        assert(r@ =~= v@.reverse());
    }
    r
}

/// Drops leading zeros, making the digit sequence canonical without changing
/// its value.
pub fn trim_leading_zeros(v: &Vec<u8>) -> (r: Vec<u8>)
    requires
        is_digit_seq(v@),
    ensures
        canonical(r@),
        seq_val(r@) == seq_val(v@),
{
    let mut i: usize = 0;
    while i < v.len() && v[i] == 0
        invariant
            i <= v.len(),
            forall|k: int| 0 <= k < i ==> v@[k] == 0,
        decreases v.len() - i,
    {
        i += 1;
    }
    let mut r: Vec<u8> = Vec::new();
    let mut j: usize = i;
    while j < v.len()
        invariant
            i <= j <= v.len(),
            r@ == v@.subrange(i as int, j as int),
        decreases v.len() - j,
    {
        r.push(v[j]);
        j += 1;
        proof {
            assert(r@ =~= v@.subrange(i as int, j as int));
        }
    }
    proof {
        assert(v@ =~= v@.subrange(0, i as int) + v@.subrange(i as int, v@.len() as int));
        lemma_seq_val_concat(v@.subrange(0, i as int), v@.subrange(i as int, v@.len() as int));
        lemma_zeros_val(v@.subrange(0, i as int));
        assert(seq_val(v@) == seq_val(r@)) by {
            assert(0 * pow10(r@.len()) == 0) by (nonlinear_arith);
        }
    }
    r
}

/// Strict comparison of canonical digit sequences by value.
pub fn digits_lt(a: &Vec<u8>, b: &Vec<u8>) -> (r: bool)
    requires
        canonical(a@),
        canonical(b@),
    ensures
        r == (seq_val(a@) < seq_val(b@)),
{
    if a.len() != b.len() {
        proof {
            if a@.len() < b@.len() {
                lemma_shorter_lt(a@, b@);
            } else {
                lemma_shorter_lt(b@, a@);
            }
        }
        return a.len() < b.len();
    }
    let mut i: usize = 0;
    while i < a.len()
        invariant
            i <= a.len(),
            a@.len() == b@.len(),
            canonical(a@),
            canonical(b@),
            a@.subrange(0, i as int) == b@.subrange(0, i as int),
        decreases a.len() - i,
    {
        let da: u8 = a[i];
        let db: u8 = b[i];
        if da < db {
            proof {
                lemma_lex_lt(a@, b@, i as int);
            }
            return true;
        }
        if db < da {
            proof {
                lemma_lex_lt(b@, a@, i as int);
            }
            return false;
        }
        i += 1;
        proof {
            assert(a@.subrange(0, i as int) =~= b@.subrange(0, i as int));
        }
    }
    proof {
        assert(a@.subrange(0, a@.len() as int) =~= a@);
        assert(b@.subrange(0, b@.len() as int) =~= b@);
        assert(a@ == b@);
    }
    false
}

/// Schoolbook addition of canonical digit sequences.
pub fn add_digits(a: &Vec<u8>, b: &Vec<u8>) -> (r: Vec<u8>)
    requires
        canonical(a@),
        canonical(b@),
    ensures
        canonical(r@),
        seq_val(r@) == seq_val(a@) + seq_val(b@),
{
    let n: usize = if a.len() > b.len() {
        a.len()
    } else {
        b.len()
    };
    let mut rev: Vec<u8> = Vec::new();
    let mut carry: u8 = 0;
    let mut i: usize = 0;
    while i < n
        invariant
            i <= n,
            carry <= 1,
            n == if a@.len() > b@.len() {
                a@.len()
            } else {
                b@.len()
            },
            is_digit_seq(a@),
            is_digit_seq(b@),
            rev@.len() == i,
            is_digit_seq(rev@),
            seq_val(rev@.reverse()) + (carry as nat) * pow10(i as nat) == low_val(a@, i as int)
                + low_val(b@, i as int),
        decreases n - i,
    {
        let da: u8 = if i < a.len() {
            a[a.len() - 1 - i]
        } else {
            0
        };
        let db: u8 = if i < b.len() {
            b[b.len() - 1 - i]
        } else {
            0
        };
        let s: u8 = da + db + carry;
        let ghost old_rev = rev@;
        let ghost old_carry = carry;
        let ghost ii = i as int;
        rev.push(s % 10);
        carry = s / 10;
        i += 1;
        proof {
            lemma_add_digits_step(a@, b@, old_rev, old_carry, ii, da, db);
        }
    }
    if carry > 0 {
        let ghost old_rev = rev@;
        rev.push(carry);
        proof {
            assert(rev@.reverse() =~= seq![carry] + old_rev.reverse());
            lemma_seq_val_concat(seq![carry], old_rev.reverse());
            lemma_seq_val_singleton(carry);
            assert(old_rev.reverse().len() == n);
        }
    }
    proof {
        assert(low_val(a@, n as int) == seq_val(a@));
        assert(low_val(b@, n as int) == seq_val(b@));
        assert(seq_val(rev@.reverse()) == seq_val(a@) + seq_val(b@)) by {
            assert(0 * pow10(n as nat) == 0) by (nonlinear_arith);
        }
        assert(is_digit_seq(rev@.reverse()));
    }
    let out = reverse_digits(&rev);
    trim_leading_zeros(&out)
}

/// One column of schoolbook addition preserves the running equation.
proof fn lemma_add_digits_step(
    a: Seq<u8>,
    b: Seq<u8>,
    old_rev: Seq<u8>,
    old_carry: u8,
    i: int,
    da: u8,
    db: u8,
)
    requires
        is_digit_seq(a),
        is_digit_seq(b),
        is_digit_seq(old_rev),
        old_rev.len() == i,
        0 <= i,
        old_carry <= 1,
        da == if i < a.len() {
            a[a.len() - 1 - i]
        } else {
            0
        },
        db == if i < b.len() {
            b[b.len() - 1 - i]
        } else {
            0
        },
        seq_val(old_rev.reverse()) + (old_carry as nat) * pow10(i as nat) == low_val(a, i)
            + low_val(b, i),
    ensures
        seq_val(old_rev.push(((da + db + old_carry) % 10) as u8).reverse()) + (((da + db
            + old_carry) / 10) as nat) * pow10((i + 1) as nat) == low_val(a, i + 1) + low_val(
            b,
            i + 1,
        ),
{
    let s = (da + db + old_carry) as nat;
    let d = (s % 10) as u8;
    let c = (s / 10) as nat;
    let p = pow10(i as nat);
    let q = pow10((i + 1) as nat);
    let new_rev = old_rev.push(d);
    assert(new_rev.reverse() =~= seq![d] + old_rev.reverse());
    lemma_seq_val_concat(seq![d], old_rev.reverse());
    lemma_seq_val_singleton(d);
    assert(old_rev.reverse().len() == i);
    assert(q == 10 * p);
    assert(seq_val(new_rev.reverse()) == (d as nat) * p + seq_val(old_rev.reverse()));
    crate::digits::lemma_div_mod_10(s);
    assert((d as nat) * p + c * q == ((da as nat) + (db as nat) + (old_carry as nat)) * p)
        by (nonlinear_arith)
        requires
            (d as nat) + 10 * c == s,
            q == 10 * p,
            s == (da as nat) + (db as nat) + (old_carry as nat),
    ;
    assert(((da as nat) + (db as nat) + (old_carry as nat)) * p == (da as nat) * p + (db as nat) * p
        + (old_carry as nat) * p) by (nonlinear_arith);
    if i < a.len() {
        lemma_low_val_step(a, i);
    } else {
        assert(low_val(a, i + 1) == low_val(a, i));
        assert(da == 0);
    }
    if i < b.len() {
        lemma_low_val_step(b, i);
    } else {
        assert(low_val(b, i + 1) == low_val(b, i));
        assert(db == 0);
    }
    assert((0 as nat) * p == 0) by (nonlinear_arith);
}

/// Division and remainder by ten reconstruct the value.
pub proof fn lemma_div_mod_10(s: nat)
    ensures
        (s % 10) + 10 * (s / 10) == s,
{
    vstd::arithmetic::div_mod::lemma_fundamental_div_mod(s as int, 10);
}

} // verus!
