use vstd::prelude::*;
use crate::model::{OperationType, SubscanOperation};
use crate::text::{push_char, push_text};

verus! {

/// Digits with which a field's length is written before the field.
pub const LENGTH_WIDTH: u64 = 20;

pub open spec fn pow10(w: nat) -> nat
    decreases w,
{
    if w == 0 {
        1
    } else {
        10 * pow10((w - 1) as nat)
    }
}

pub open spec fn digit_char(d: nat) -> char {
    if d == 0 {
        '0'
    } else if d == 1 {
        '1'
    } else if d == 2 {
        '2'
    } else if d == 3 {
        '3'
    } else if d == 4 {
        '4'
    } else if d == 5 {
        '5'
    } else if d == 6 {
        '6'
    } else if d == 7 {
        '7'
    } else if d == 8 {
        '8'
    } else {
        '9'
    }
}

/// The last `w` decimal digits of `n`, most significant first.
pub open spec fn digits(n: nat, w: nat) -> Seq<char>
    decreases w,
{
    if w == 0 {
        Seq::empty()
    } else {
        digits(n / 10, (w - 1) as nat).push(digit_char(n % 10))
    }
}

/// A field written with its length in front, so that fields in a row can
/// be told apart.
pub open spec fn field_text(s: Seq<char>) -> Seq<char> {
    digits(s.len(), LENGTH_WIDTH as nat) + s
}

pub open spec fn kind_tag(k: OperationType) -> char {
    match k {
        OperationType::Stake => 'S',
        OperationType::ReStake => 'R',
        OperationType::RequestUnstake => 'U',
        OperationType::WithdrawUnstaked => 'W',
    }
}

/// The identity of an operation: extrinsic index, kind, sender and
/// destination, each written so that no two tuples share an identity.
pub open spec fn operation_identity(
    extrinsic_index: Seq<char>,
    kind: OperationType,
    from_wallet: Seq<char>,
    to_wallet: Seq<char>,
) -> Seq<char> {
    field_text(extrinsic_index) + (seq![kind_tag(kind)] + (field_text(from_wallet) + field_text(
        to_wallet,
    )))
}

/// The identity of an operation from its own fields.
pub open spec fn identity_of(op: SubscanOperation) -> Seq<char> {
    operation_identity(op.extrinsic_index@, op.operation_type, op.from_wallet@, op.to_wallet@)
}

proof fn lemma_digits_len(n: nat, w: nat)
    ensures
        digits(n, w).len() == w,
    decreases w,
{
    if w > 0 {
        lemma_digits_len(n / 10, (w - 1) as nat);
    }
}

proof fn lemma_digits_injective(n: nat, m: nat, w: nat)
    requires
        n < pow10(w),
        m < pow10(w),
        digits(n, w) == digits(m, w),
    ensures
        n == m,
    decreases w,
{
    if w > 0 {
        let wp = (w - 1) as nat;
        assert(digits(n, w).last() == digit_char(n % 10));
        assert(digits(m, w).last() == digit_char(m % 10));
        assert(n % 10 == m % 10);
        assert(digits(n, w).drop_last() =~= digits(n / 10, wp));
        assert(digits(m, w).drop_last() =~= digits(m / 10, wp));
        assert(n / 10 < pow10(wp)) by (nonlinear_arith)
            requires
                n < 10 * pow10(wp),
        ;
        assert(m / 10 < pow10(wp)) by (nonlinear_arith)
            requires
                m < 10 * pow10(wp),
        ;
        lemma_digits_injective(n / 10, m / 10, wp);
    } else {
        assert(n == 0 && m == 0);
    }
}

proof fn lemma_pow10_bound()
    ensures
        usize::MAX < pow10(LENGTH_WIDTH as nat),
{
    reveal_with_fuel(pow10, 21);
    assert(pow10(20) == 100000000000000000000nat);
}

proof fn lemma_field_split(a: Seq<char>, ra: Seq<char>, b: Seq<char>, rb: Seq<char>)
    requires
        a.len() <= usize::MAX,
        b.len() <= usize::MAX,
        field_text(a) + ra == field_text(b) + rb,
    ensures
        a == b,
        ra == rb,
{
    let w = LENGTH_WIDTH as nat;
    lemma_digits_len(a.len(), w);
    lemma_digits_len(b.len(), w);
    lemma_pow10_bound();
    let x = field_text(a) + ra;
    let y = field_text(b) + rb;
    assert(x.subrange(0, w as int) =~= digits(a.len(), w));
    assert(y.subrange(0, w as int) =~= digits(b.len(), w));
    lemma_digits_injective(a.len(), b.len(), w);
    assert(x.subrange(w as int, (w + a.len()) as int) =~= a);
    assert(y.subrange(w as int, (w + b.len()) as int) =~= b);
    assert(x.subrange((w + a.len()) as int, x.len() as int) =~= ra);
    assert(y.subrange((w + b.len()) as int, y.len() as int) =~= rb);
}

/// Operations with distinct (extrinsic index, kind, sender, destination)
/// tuples have distinct identities.
pub proof fn lemma_identity_injective(
    i1: Seq<char>,
    k1: OperationType,
    f1: Seq<char>,
    t1: Seq<char>,
    i2: Seq<char>,
    k2: OperationType,
    f2: Seq<char>,
    t2: Seq<char>,
)
    requires
        i1.len() <= usize::MAX,
        f1.len() <= usize::MAX,
        t1.len() <= usize::MAX,
        i2.len() <= usize::MAX,
        f2.len() <= usize::MAX,
        t2.len() <= usize::MAX,
        operation_identity(i1, k1, f1, t1) == operation_identity(i2, k2, f2, t2),
    ensures
        i1 == i2,
        k1 == k2,
        f1 == f2,
        t1 == t2,
{
    let r1 = seq![kind_tag(k1)] + (field_text(f1) + field_text(t1));
    let r2 = seq![kind_tag(k2)] + (field_text(f2) + field_text(t2));
    lemma_field_split(i1, r1, i2, r2);
    assert(r1[0] == kind_tag(k1));
    assert(r2[0] == kind_tag(k2));
    assert(r1.drop_first() =~= field_text(f1) + field_text(t1));
    assert(r2.drop_first() =~= field_text(f2) + field_text(t2));
    lemma_field_split(f1, field_text(t1), f2, field_text(t2));
    assert(field_text(t1) + Seq::<char>::empty() =~= field_text(t1));
    assert(field_text(t2) + Seq::<char>::empty() =~= field_text(t2));
    lemma_field_split(t1, Seq::empty(), t2, Seq::empty());
}

fn digit_of(d: u64) -> (c: char)
    requires
        d < 10,
    ensures
        c == digit_char(d as nat),
{
    if d == 0 {
        '0'
    } else if d == 1 {
        '1'
    } else if d == 2 {
        '2'
    } else if d == 3 {
        '3'
    } else if d == 4 {
        '4'
    } else if d == 5 {
        '5'
    } else if d == 6 {
        '6'
    } else if d == 7 {
        '7'
    } else if d == 8 {
        '8'
    } else {
        '9'
    }
}

fn push_digits(s: &mut String, n: u64, w: u64)
    ensures
        final(s)@ == old(s)@ + digits(n as nat, w as nat),
    decreases w,
{
    if w == 0 {
        assert(old(s)@ + digits(n as nat, 0) =~= old(s)@);
        return;
    }
    push_digits(s, n / 10, w - 1);
    push_char(s, digit_of(n % 10));
    assert(old(s)@ + digits(n as nat, w as nat) =~= old(s)@ + digits((n / 10) as nat, (w - 1) as nat) + seq![digit_char((n % 10) as nat)]);
}

fn push_field(s: &mut String, t: &str)
    ensures
        final(s)@ == old(s)@ + field_text(t@),
{
    let n = t.unicode_len();
    push_digits(s, n as u64, LENGTH_WIDTH);
    push_text(s, t);
    assert(old(s)@ + field_text(t@) =~= old(s)@ + digits(n as nat, LENGTH_WIDTH as nat) + t@);
}

/// Computes the identity of an operation from its current fields.
pub fn compute_identity(op: &SubscanOperation) -> (r: String)
    ensures
        r@ == identity_of(*op),
{
    let mut s = String::new();
    push_field(&mut s, op.extrinsic_index.as_str());
    let tag = match op.operation_type {
        OperationType::Stake => 'S',
        OperationType::ReStake => 'R',
        OperationType::RequestUnstake => 'U',
        OperationType::WithdrawUnstaked => 'W',
    };
    push_char(&mut s, tag);
    push_field(&mut s, op.from_wallet.as_str());
    push_field(&mut s, op.to_wallet.as_str());
    assert(s@ =~= identity_of(*op));
    s
}

} // verus!
