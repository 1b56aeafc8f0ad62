//! Token amounts: non-negative integers in the smallest on-chain unit,
//! bounded by the largest unsigned 256-bit value.
//!
//! An amount is stored as its canonical decimal digits, so the decimal
//! conversions of this library are exact digit manipulations and no
//! arithmetic ever wraps.
use vstd::prelude::*;
use crate::digits::{
    add_digits, canonical, copy_bytes, digits_lt, digits_of, is_digit_seq,
    lemma_canonical_lower, lemma_canonical_unique, lemma_digits_of, lemma_pow10_mono,
    lemma_seq_val_push, pow10, reverse_digits, seq_val,
};
use crate::chars::{char_of_digit, chars_of_digits, push_char};

verus! {

/// The decimal digits of the largest unsigned 256-bit value,
/// 2^256 - 1 = 115792089237316195423570985008687907853269984665640564039457584007913129639935.
pub open spec fn max_digit_seq() -> Seq<u8> {
    seq![
        1u8, 1, 5, 7, 9, 2, 0, 8, 9, 2, 3, 7, 3, 1, 6, 1, 9, 5, 4, 2, 3, 5, 7, 0, 9, 8, 5, 0, 0,
        8, 6, 8, 7, 9, 0, 7, 8, 5, 3, 2, 6, 9, 9, 8, 4, 6, 6, 5, 6, 4, 0, 5, 6, 4, 0, 3, 9, 4, 5,
        7, 5, 8, 4, 0, 0, 7, 9, 1, 3, 1, 2, 9, 6, 3, 9, 9, 3, 5,
    ]
}

/// The largest representable amount: the value of `max_digit_seq`, that is,
/// the largest unsigned 256-bit integer.
pub open spec fn max_amount() -> nat {
    seq_val(max_digit_seq())
}

pub proof fn lemma_max_digit_seq_canonical()
    ensures
        canonical(max_digit_seq()),
        max_digit_seq().len() == 78,
{
    let s = max_digit_seq();
    assert forall|i: int| 0 <= i < s.len() implies s[i] < 10 by {
        assert(s[i] < 10);
    }
}

/// The largest amount is exactly the largest unsigned 256-bit integer:
/// the digit table evaluates, digit by digit, to that value.
#[verifier::rlimit(100)]
pub proof fn lemma_max_amount_value()
    ensures
        max_amount() == 0xffffffffffffffffffffffffffffffffffffffffffffffffffffffffffffffff,
{
    let s0 = Seq::<u8>::empty();
    let s1 = s0.push(1);
    lemma_seq_val_push(s0, 1);
    let s2 = s1.push(1);
    lemma_seq_val_push(s1, 1);
    let s3 = s2.push(5);
    lemma_seq_val_push(s2, 5);
    let s4 = s3.push(7);
    lemma_seq_val_push(s3, 7);
    let s5 = s4.push(9);
    lemma_seq_val_push(s4, 9);
    let s6 = s5.push(2);
    lemma_seq_val_push(s5, 2);
    let s7 = s6.push(0);
    lemma_seq_val_push(s6, 0);
    let s8 = s7.push(8);
    lemma_seq_val_push(s7, 8);
    let s9 = s8.push(9);
    lemma_seq_val_push(s8, 9);
    let s10 = s9.push(2);
    lemma_seq_val_push(s9, 2);
    let s11 = s10.push(3);
    lemma_seq_val_push(s10, 3);
    let s12 = s11.push(7);
    lemma_seq_val_push(s11, 7);
    let s13 = s12.push(3);
    lemma_seq_val_push(s12, 3);
    let s14 = s13.push(1);
    lemma_seq_val_push(s13, 1);
    let s15 = s14.push(6);
    lemma_seq_val_push(s14, 6);
    let s16 = s15.push(1);
    lemma_seq_val_push(s15, 1);
    let s17 = s16.push(9);
    lemma_seq_val_push(s16, 9);
    let s18 = s17.push(5);
    lemma_seq_val_push(s17, 5);
    let s19 = s18.push(4);
    lemma_seq_val_push(s18, 4);
    let s20 = s19.push(2);
    lemma_seq_val_push(s19, 2);
    let s21 = s20.push(3);
    lemma_seq_val_push(s20, 3);
    let s22 = s21.push(5);
    lemma_seq_val_push(s21, 5);
    let s23 = s22.push(7);
    lemma_seq_val_push(s22, 7);
    let s24 = s23.push(0);
    lemma_seq_val_push(s23, 0);
    let s25 = s24.push(9);
    lemma_seq_val_push(s24, 9);
    let s26 = s25.push(8);
    lemma_seq_val_push(s25, 8);
    let s27 = s26.push(5);
    lemma_seq_val_push(s26, 5);
    let s28 = s27.push(0);
    lemma_seq_val_push(s27, 0);
    let s29 = s28.push(0);
    lemma_seq_val_push(s28, 0);
    let s30 = s29.push(8);
    lemma_seq_val_push(s29, 8);
    let s31 = s30.push(6);
    lemma_seq_val_push(s30, 6);
    let s32 = s31.push(8);
    lemma_seq_val_push(s31, 8);
    let s33 = s32.push(7);
    lemma_seq_val_push(s32, 7);
    let s34 = s33.push(9);
    lemma_seq_val_push(s33, 9);
    let s35 = s34.push(0);
    lemma_seq_val_push(s34, 0);
    let s36 = s35.push(7);
    lemma_seq_val_push(s35, 7);
    let s37 = s36.push(8);
    lemma_seq_val_push(s36, 8);
    let s38 = s37.push(5);
    lemma_seq_val_push(s37, 5);
    let s39 = s38.push(3);
    lemma_seq_val_push(s38, 3);
    let s40 = s39.push(2);
    lemma_seq_val_push(s39, 2);
    let s41 = s40.push(6);
    lemma_seq_val_push(s40, 6);
    let s42 = s41.push(9);
    lemma_seq_val_push(s41, 9);
    let s43 = s42.push(9);
    lemma_seq_val_push(s42, 9);
    let s44 = s43.push(8);
    lemma_seq_val_push(s43, 8);
    let s45 = s44.push(4);
    lemma_seq_val_push(s44, 4);
    let s46 = s45.push(6);
    lemma_seq_val_push(s45, 6);
    let s47 = s46.push(6);
    lemma_seq_val_push(s46, 6);
    let s48 = s47.push(5);
    lemma_seq_val_push(s47, 5);
    let s49 = s48.push(6);
    lemma_seq_val_push(s48, 6);
    let s50 = s49.push(4);
    lemma_seq_val_push(s49, 4);
    let s51 = s50.push(0);
    lemma_seq_val_push(s50, 0);
    let s52 = s51.push(5);
    lemma_seq_val_push(s51, 5);
    let s53 = s52.push(6);
    lemma_seq_val_push(s52, 6);
    let s54 = s53.push(4);
    lemma_seq_val_push(s53, 4);
    let s55 = s54.push(0);
    lemma_seq_val_push(s54, 0);
    let s56 = s55.push(3);
    lemma_seq_val_push(s55, 3);
    let s57 = s56.push(9);
    lemma_seq_val_push(s56, 9);
    let s58 = s57.push(4);
    lemma_seq_val_push(s57, 4);
    let s59 = s58.push(5);
    lemma_seq_val_push(s58, 5);
    let s60 = s59.push(7);
    lemma_seq_val_push(s59, 7);
    let s61 = s60.push(5);
    lemma_seq_val_push(s60, 5);
    let s62 = s61.push(8);
    lemma_seq_val_push(s61, 8);
    let s63 = s62.push(4);
    lemma_seq_val_push(s62, 4);
    let s64 = s63.push(0);
    lemma_seq_val_push(s63, 0);
    let s65 = s64.push(0);
    lemma_seq_val_push(s64, 0);
    let s66 = s65.push(7);
    lemma_seq_val_push(s65, 7);
    let s67 = s66.push(9);
    lemma_seq_val_push(s66, 9);
    let s68 = s67.push(1);
    lemma_seq_val_push(s67, 1);
    let s69 = s68.push(3);
    lemma_seq_val_push(s68, 3);
    let s70 = s69.push(1);
    lemma_seq_val_push(s69, 1);
    let s71 = s70.push(2);
    lemma_seq_val_push(s70, 2);
    let s72 = s71.push(9);
    lemma_seq_val_push(s71, 9);
    let s73 = s72.push(6);
    lemma_seq_val_push(s72, 6);
    let s74 = s73.push(3);
    lemma_seq_val_push(s73, 3);
    let s75 = s74.push(9);
    lemma_seq_val_push(s74, 9);
    let s76 = s75.push(9);
    lemma_seq_val_push(s75, 9);
    let s77 = s76.push(3);
    lemma_seq_val_push(s76, 3);
    let s78 = s77.push(5);
    lemma_seq_val_push(s77, 5);
    assert(seq_val(s78) == 0xffffffffffffffffffffffffffffffffffffffffffffffffffffffffffffffff);
    assert(max_digit_seq() =~= s78);
}

/// The largest amount is no smaller than ten to the 77, so in particular
/// every 64-bit value is a valid amount.
pub proof fn lemma_max_amount_lower()
    ensures
        max_amount() >= pow10(77),
        max_amount() > u64::MAX,
{
    lemma_max_digit_seq_canonical();
    lemma_canonical_lower(max_digit_seq());
    assert(pow10(20) > u64::MAX) by {
        reveal_with_fuel(pow10, 21);
    }
    lemma_pow10_mono(20, 77);
}

/// The digits of `max_digit_seq` as a vector.
pub(crate) fn max_digits_vec() -> (r: Vec<u8>)
    ensures
        r@ == max_digit_seq(),
{
    let r: Vec<u8> = vec![
        1u8, 1, 5, 7, 9, 2, 0, 8, 9, 2, 3, 7, 3, 1, 6, 1, 9, 5, 4, 2, 3, 5, 7, 0, 9, 8, 5, 0, 0,
        8, 6, 8, 7, 9, 0, 7, 8, 5, 3, 2, 6, 9, 9, 8, 4, 6, 6, 5, 6, 4, 0, 5, 6, 4, 0, 3, 9, 4, 5,
        7, 5, 8, 4, 0, 0, 7, 9, 1, 3, 1, 2, 9, 6, 3, 9, 9, 3, 5,
    ];
    proof {
        assert(r@ =~= max_digit_seq());
    }
    r
}

/// A token amount: a non-negative integer, at most `max_amount`, held in the
/// smallest on-chain unit of its currency.
pub struct Amount {
    digits: Vec<u8>,
}

impl View for Amount {
    type V = nat;

    /// The numeric value of the amount.
    closed spec fn view(&self) -> nat {
        seq_val(self.digits@)
    }
}

impl Amount {
    /// The digits are canonical and the value fits in 256 bits.
    pub closed spec fn wf(&self) -> bool {
        canonical(self.digits@) && seq_val(self.digits@) <= max_amount()
    }

    pub fn zero() -> (r: Amount)
        ensures
            r.wf(),
            r@ == 0,
    {
        Amount { digits: Vec::new() }
    }

    /// Wraps canonical digits whose value is within range.
    pub(crate) fn from_digit_vec(digits: Vec<u8>) -> (r: Amount)
        requires
            canonical(digits@),
            seq_val(digits@) <= max_amount(),
        ensures
            r.wf(),
            r@ == seq_val(digits@),
    {
        Amount { digits }
    }

    /// The canonical digits of the amount, most significant first.
    pub(crate) fn digit_vec(&self) -> (r: &Vec<u8>)
        requires
            self.wf(),
        ensures
            canonical(r@),
            seq_val(r@) == self@,
            r@ == digits_of(self@),
    {
        proof {
            lemma_digits_of(self@);
            lemma_canonical_unique(self.digits@, digits_of(self@));
        }
        &self.digits
    }

    pub fn from_u64(v: u64) -> (r: Amount)
        ensures
            r.wf(),
            r@ == v as nat,
    {
        let mut rev: Vec<u8> = Vec::new();
        let mut cur: u64 = v;
        proof {
            assert(digits_of(v as nat) =~= digits_of(cur as nat) + rev@.reverse());
        }
        while cur > 0
            invariant
                is_digit_seq(rev@),
                digits_of(v as nat) == digits_of(cur as nat) + rev@.reverse(),
            decreases cur,
        {
            let d: u8 = (cur % 10) as u8;
            let ghost old_rev = rev@;
            let ghost old_cur = cur as nat;
            rev.push(d);
            cur = cur / 10;
            proof {
                assert(digits_of(old_cur) == digits_of(old_cur / 10).push(d));
                assert(rev@.reverse() =~= seq![d] + old_rev.reverse());
                assert(digits_of(old_cur / 10).push(d) + old_rev.reverse() =~= digits_of(
                    old_cur / 10,
                ) + (seq![d] + old_rev.reverse()));
                assert(cur as nat == old_cur / 10);
            }
        }
        proof {
            assert(digits_of(0nat) =~= Seq::<u8>::empty());
            assert(digits_of(v as nat) =~= rev@.reverse());
            lemma_digits_of(v as nat);
            lemma_max_amount_lower();
        }
        let digits = reverse_digits(&rev);
        Amount { digits }
    }

    pub fn is_zero(&self) -> (r: bool)
        requires
            self.wf(),
        ensures
            r == (self@ == 0),
    {
        proof {
            if self.digits@.len() > 0 {
                lemma_canonical_lower(self.digits@);
                crate::digits::lemma_pow10_pos((self.digits@.len() - 1) as nat);
            } else {
                assert(seq_val(self.digits@) == 0);
            }
        }
        self.digits.len() == 0
    }

    /// Strictly less than.
    pub fn lt(&self, other: &Amount) -> (r: bool)
        requires
            self.wf(),
            other.wf(),
        ensures
            r == (self@ < other@),
    {
        digits_lt(&self.digits, &other.digits)
    }

    /// Less than or equal.
    pub fn le(&self, other: &Amount) -> (r: bool)
        requires
            self.wf(),
            other.wf(),
        ensures
            r == (self@ <= other@),
    {
        !other.lt(self)
    }

    /// Exact addition; `None` when the sum would exceed the largest 256-bit
    /// value.
    pub fn checked_add(&self, other: &Amount) -> (r: Option<Amount>)
        requires
            self.wf(),
            other.wf(),
        ensures
            self@ + other@ <= max_amount() ==> (r is Some && r->0.wf() && r->0@ == self@ + other@),
            self@ + other@ > max_amount() ==> r is None,
    {
        let sum = add_digits(&self.digits, &other.digits);
        let max = max_digits_vec();
        proof {
            lemma_max_digit_seq_canonical();
        }
        if digits_lt(&max, &sum) {
            None
        } else {
            Some(Amount { digits: sum })
        }
    }

    /// The amount as decimal text, without leading zeros; zero is "0".
    pub fn to_dec_string(&self) -> (r: String)
        requires
            self.wf(),
        ensures
            r@ == dec_chars_of(self@),
    {
        let digits = self.digit_vec();
        if digits.len() == 0 {
            let mut s = String::new();
            push_char(&mut s, '0');
            proof {
                assert(s@ =~= seq!['0']);
            }
            return s;
        }
        let mut s = String::new();
        let mut i: usize = 0;
        while i < digits.len()
            invariant
                i <= digits@.len(),
                canonical(digits@),
                s@ == chars_of_digits(digits@.take(i as int)),
            decreases digits@.len() - i,
        {
            push_char(&mut s, char_of_digit(digits[i]));
            i += 1;
            proof {
                assert(s@ =~= chars_of_digits(digits@.take(i as int)));
            }
        }
        proof {
            assert(digits@.take(digits@.len() as int) =~= digits@);
        }
        s
    }
}

impl Clone for Amount {
    /// Clones preserve the value.
    fn clone(&self) -> (r: Self)
        ensures
            r@ == self@,
            r.wf() == self.wf(),
    {
        Amount { digits: copy_bytes(&self.digits) }
    }
}

/// The values of a list of amounts.
pub open spec fn amount_views(s: Seq<Amount>) -> Seq<nat> {
    s.map_values(|a: Amount| a@)
}

/// A well-formed amount never exceeds the largest 256-bit value.
pub proof fn lemma_amount_bounded(a: &Amount)
    requires
        a.wf(),
    ensures
        a@ <= max_amount(),
{
}

/// The decimal text of a value: its digits, or "0" for zero.
pub open spec fn dec_chars_of(v: nat) -> Seq<char> {
    if v == 0 {
        seq!['0']
    } else {
        chars_of_digits(digits_of(v))
    }
}

} // verus!
