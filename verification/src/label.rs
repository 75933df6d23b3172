//! Vimium-style, capacity-aware hint labels.

use vstd::prelude::*;
use vstd::arithmetic::power::*;
use vstd::arithmetic::div_mod::*;
use vstd::arithmetic::mul::*;
use crate::text::string_push;

verus! {

/// The `len` symbols of `n` written in base `a.len()` over alphabet `a`,
/// least significant digit first.
pub open spec fn enc(a: Seq<char>, n: nat, len: nat) -> Seq<char>
    decreases len,
{
    if len == 0 {
        Seq::empty()
    } else {
        seq![a[(n % a.len()) as int]] + enc(a, n / a.len(), (len - 1) as nat)
    }
}

/// Number of base-`b` digits of `n` (at least one).
pub open spec fn num_digits(b: nat, n: nat) -> nat
    decreases n,
{
    if b < 2 || n / b == 0 {
        1
    } else {
        proof {
            lemma_div_decreases(n as int, b as int);
        }
        1 + num_digits(b, n / b)
    }
}

pub open spec fn max_nat(x: nat, y: nat) -> nat {
    if x >= y { x } else { y }
}

/// An encoding of width `len` has exactly `len` symbols.
pub proof fn lemma_enc_len(a: Seq<char>, n: nat, len: nat)
    requires
        a.len() >= 1,
    ensures
        enc(a, n, len).len() == len,
    decreases len,
{
    if len > 0 {
        lemma_enc_len(a, n / a.len(), (len - 1) as nat);
        assert(enc(a, n, len) == seq![a[(n % a.len()) as int]] + enc(a, n / a.len(), (len - 1) as nat));
    }
}

/// Appending one more symbol at the high end.
pub proof fn lemma_enc_push(a: Seq<char>, n: nat, len: nat)
    requires
        a.len() >= 1,
    ensures
        enc(a, n, len + 1) == enc(a, n, len).push(a[((n as int / pow(a.len() as int, len)) % (a.len() as int))]),
    decreases len,
{
    let b = a.len() as int;
    if len == 0 {
        lemma_pow0(b);
        assert(enc(a, n / a.len(), 0) == Seq::<char>::empty());
        assert(enc(a, n, 1) =~= seq![a[(n % a.len()) as int]]);
    } else {
        lemma_enc_push(a, n / a.len(), (len - 1) as nat);
        lemma_pow_positive(b, (len - 1) as nat);
        lemma_div_denominator(n as int, b, pow(b, (len - 1) as nat));
        assert(pow(b, len) == b * pow(b, (len - 1) as nat)) by {
            reveal(pow);
        }
        assert(enc(a, n, len + 1) =~= enc(a, n, len).push(a[((n as int / pow(b, len)) % b)]));
    }
}

/// Every symbol of an encoding is drawn from the alphabet.
pub proof fn lemma_enc_in_alphabet(a: Seq<char>, n: nat, len: nat)
    requires
        a.len() >= 1,
    ensures
        forall|k: int| 0 <= k < len ==> a.contains(#[trigger] enc(a, n, len)[k]),
    decreases len,
{
    if len > 0 {
        lemma_enc_in_alphabet(a, n / a.len(), (len - 1) as nat);
        lemma_enc_len(a, n / a.len(), (len - 1) as nat);
        let i = (n % a.len()) as int;
        assert(0 <= i < a.len());
        assert forall|k: int| 0 <= k < len implies a.contains(#[trigger] enc(a, n, len)[k]) by {
            if k == 0 {
                assert(enc(a, n, len)[0] == a[i]);
            } else {
                assert(enc(a, n, len)[k] == enc(a, n / a.len(), (len - 1) as nat)[k - 1]);
            }
        }
    }
}

/// Distinct numbers below `b^len` have distinct encodings over a duplicate-free alphabet.
pub proof fn lemma_enc_injective(a: Seq<char>, n: nat, m: nat, len: nat)
    requires
        a.len() >= 2,
        a.no_duplicates(),
        n < pow(a.len() as int, len),
        m < pow(a.len() as int, len),
        enc(a, n, len) == enc(a, m, len),
    ensures
        n == m,
    decreases len,
{
    let b = a.len() as int;
    if len == 0 {
        lemma_pow0(b);
    } else {
        let e = (len - 1) as nat;
        assert(enc(a, n, len) == seq![a[(n % a.len()) as int]] + enc(a, n / a.len(), e));
        assert(enc(a, m, len) == seq![a[(m % a.len()) as int]] + enc(a, m / a.len(), e));
        assert(enc(a, n, len)[0] == enc(a, m, len)[0]);
        assert((seq![a[(n % a.len()) as int]] + enc(a, n / a.len(), e))[0] == a[(n % a.len()) as int]);
        assert((seq![a[(m % a.len()) as int]] + enc(a, m / a.len(), e))[0] == a[(m % a.len()) as int]);
        lemma_mod_pos_bound(n as int, b);
        lemma_mod_pos_bound(m as int, b);
        assert(a[(n % a.len()) as int] == a[(m % a.len()) as int]);
        assert((n % a.len()) as int == (m % a.len()) as int);
        assert(enc(a, n / a.len(), e) =~= enc(a, n, len).drop_first());
        assert(enc(a, m / a.len(), e) =~= enc(a, m, len).drop_first());
        assert(pow(b, len) == b * pow(b, e)) by {
            reveal(pow);
        }
        lemma_pow_positive(b, e);
        lemma_multiply_divide_lt(n as int, b, pow(b, e));
        lemma_multiply_divide_lt(m as int, b, pow(b, e));
        lemma_enc_injective(a, n / a.len(), m / a.len(), e);
        lemma_fundamental_div_mod(n as int, b);
        lemma_fundamental_div_mod(m as int, b);
    }
}

/// The first `len - 1` symbols of an encoding encode the number modulo `b^(len-1)`.
pub proof fn lemma_enc_prefix(a: Seq<char>, n: nat, len: nat)
    requires
        a.len() >= 2,
        len >= 1,
    ensures
        enc(a, n, len).take(len - 1) == enc(a, (n as int % pow(a.len() as int, (len - 1) as nat)) as nat, (len - 1) as nat),
    decreases len,
{
    let b = a.len() as int;
    let e = (len - 1) as nat;
    lemma_enc_len(a, n, len);
    if len == 1 {
        lemma_pow0(b);
        assert(enc(a, n, len).take(0) =~= Seq::<char>::empty());
    } else {
        let e2 = (len - 2) as nat;
        lemma_enc_prefix(a, n / a.len(), e);
        lemma_pow_positive(b, e2);
        assert(pow(b, e) == b * pow(b, e2)) by {
            reveal(pow);
        }
        lemma_mod_breakdown(n as int, b, pow(b, e2));
        let t = (n / a.len()) as int % pow(b, e2);
        let m = n as int % pow(b, e);
        assert(m == b * t + (n % a.len()) as int);
        lemma_mod_pos_bound(n as int, pow(b, e));
        lemma_mod_pos_bound((n / a.len()) as int, pow(b, e2));
        lemma_fundamental_div_mod_converse(m, b, t, (n % a.len()) as int);
        lemma_enc_len(a, n / a.len(), e);
        assert(enc(a, n, len).take(len - 1) =~= seq![a[(n % a.len()) as int]] + enc(a, n / a.len(), e).take(e - 1));
        assert(enc(a, m as nat, e) =~= seq![a[(m as nat % a.len()) as int]] + enc(a, m as nat / a.len(), e2));
    }
}

/// A number below `b^d` needs at most `d` base-`b` digits.
pub proof fn lemma_num_digits_bound(b: nat, n: nat, d: nat)
    requires
        b >= 2,
        d >= 1,
        n < pow(b as int, d),
    ensures
        num_digits(b, n) <= d,
    decreases d,
{
    if n / b != 0 {
        let e = (d - 1) as nat;
        if d == 1 {
            lemma_pow1(b as int);
            assert(n / b == 0) by {
                lemma_basic_div(n as int, b as int);
            }
        } else {
            assert(pow(b as int, d) == b * pow(b as int, e)) by {
                reveal(pow);
            }
            lemma_pow_positive(b as int, e);
            lemma_multiply_divide_lt(n as int, b as int, pow(b as int, e));
            lemma_num_digits_bound(b, n / b, e);
        }
    }
}

/// Writes `number` in base `character_set.len()`, least significant digit first,
/// padded with the first symbol to at least `num_hint_digits` symbols.
fn number_to_hint_string_reversed(number: usize, character_set: &[char], num_hint_digits: usize) -> (s: String)
    requires
        character_set@.len() >= 2 || (character_set@.len() == 1 && number == 0),
    ensures
        s@ == enc(character_set@, number as nat, max_nat(num_hint_digits as nat, num_digits(character_set@.len(), number as nat))),
{
    let ghost a = character_set@;
    let divisor = character_set.len();
    let ghost b = divisor as int;
    let mut hint = String::new();
    let mut n = number;
    let mut k: usize = 0;
    proof {
        lemma_pow0(b);
        assert(enc(a, number as nat, 0) =~= Seq::<char>::empty());
    }
    loop
        invariant_except_break
            n > 0 || k == 0,
            num_digits(a.len(), number as nat) == k + num_digits(a.len(), n as nat),
        invariant
            divisor == a.len(),
            a == character_set@,
            b == a.len(),
            a.len() >= 2 || (a.len() == 1 && number == 0),
            n as int == number as int / pow(b, k as nat),
            hint@ == enc(a, number as nat, k as nat),
        ensures
            n == 0,
            n as int == number as int / pow(b, k as nat),
            hint@ == enc(a, number as nat, k as nat),
            num_digits(a.len(), number as nat) == k,
        decreases n,
    {
        let remainder = n % divisor;
        proof {
            lemma_enc_push(a, number as nat, k as nat);
            lemma_pow_positive(b, k as nat);
            lemma_div_denominator(number as int, pow(b, k as nat), b);
            assert(pow(b, (k + 1) as nat) == b * pow(b, k as nat)) by {
                reveal(pow);
            }
            lemma_mul_is_commutative(b, pow(b, k as nat));
            if k > 0 {
                // n > 0, so number >= b^k >= k + 1
                if (number as int) < pow(b, k as nat) {
                    lemma_basic_div(number as int, pow(b, k as nat));
                }
                lemma_pow_strictly_increases_k(b as nat, k as nat);
            }
            if n > 0 && a.len() >= 2 {
                lemma_div_decreases(n as int, b);
            }
        }
        string_push(&mut hint, character_set[remainder]);
        n = n / divisor;
        k = k + 1;
        if n == 0 {
            break;
        }
    }
    proof {
        assert(num_digits(a.len(), 0) == 1);
    }
    while k < num_hint_digits
        invariant
            divisor == a.len(),
            a == character_set@,
            b == a.len(),
            a.len() >= 1,
            n == 0,
            n as int == number as int / pow(b, k as nat),
            hint@ == enc(a, number as nat, k as nat),
            k >= num_digits(a.len(), number as nat),
            k <= max_nat(num_hint_digits as nat, num_digits(a.len(), number as nat)),
        decreases num_hint_digits - k,
    {
        proof {
            lemma_enc_push(a, number as nat, k as nat);
            lemma_pow_positive(b, k as nat);
            lemma_div_denominator(number as int, pow(b, k as nat), b);
            assert(pow(b, (k + 1) as nat) == b * pow(b, k as nat)) by {
                reveal(pow);
            }
            lemma_mul_is_commutative(b, pow(b, k as nat));
            lemma_small_mod(0, a.len());
        }
        string_push(&mut hint, character_set[0]);
        k = k + 1;
    }
    hint
}

/// For `b >= 2`, `b^k >= k + 1`.
proof fn lemma_pow_strictly_increases_k(b: nat, k: nat)
    requires
        b >= 2,
    ensures
        pow(b as int, k) >= k + 1,
    decreases k,
{
    if k == 0 {
        lemma_pow0(b as int);
    } else {
        lemma_pow_strictly_increases_k(b, (k - 1) as nat);
        assert(pow(b as int, k) == b * pow(b as int, (k - 1) as nat)) by {
            reveal(pow);
        }
        assert(b * pow(b as int, (k - 1) as nat) >= 2 * pow(b as int, (k - 1) as nat)) by (nonlinear_arith)
            requires b >= 2, pow(b as int, (k - 1) as nat) >= 0;
    }
}


/// `d` is the number of symbols a full-length label needs for `count` labels in base `b`:
/// none for at most one label, else the least `d >= 1` with `count <= b^d`.
pub open spec fn is_digits_needed(count: nat, b: nat, d: nat) -> bool {
    if count <= 1 {
        d == 0
    } else {
        d >= 1 && pow(b as int, (d - 1) as nat) < count && count <= pow(b as int, d)
    }
}

pub open spec fn label_digits(count: nat, b: nat) -> nat {
    choose|d: nat| is_digits_needed(count, b, d)
}

/// `b^d`, the number of full-length labels.
pub open spec fn label_whole(count: nat, b: nat) -> nat {
    pow(b as int, label_digits(count, b)) as nat
}

/// How many labels are one symbol shorter than the full length.
pub open spec fn label_short(count: nat, b: nat) -> nat {
    ((label_whole(count, b) as int - count as int) / (b as int)) as nat
}

/// How many labels have the full length.
pub open spec fn label_long(count: nat, b: nat) -> nat {
    (count - label_short(count, b)) as nat
}

/// How many of the shorter-by-one prefixes are taken by full-length labels.
pub open spec fn label_long_prefix(count: nat, b: nat) -> nat {
    (label_whole(count, b) as int / (b as int) - label_short(count, b) as int) as nat
}

/// Symbols in a full-length label (a single label still has one symbol).
pub open spec fn long_width(count: nat, b: nat) -> nat {
    max_nat(label_digits(count, b), 1)
}

/// The number whose encoding is the `i`-th full-length label: the `i`-th number below
/// `b^d` whose low `d - 1` digits encode a value below the long prefix count.
pub open spec fn long_number(count: nat, b: nat, i: nat) -> nat {
    let p = label_long_prefix(count, b);
    let s = label_short(count, b);
    if p > 0 {
        (i / p) * (p + s) + i % p
    } else {
        i
    }
}

/// The `i`-th label that `generate_labels` produces for `count` labels over alphabet `a`:
/// full-length labels first, then the shorter ones.
pub open spec fn label_at(a: Seq<char>, count: nat, i: nat) -> Seq<char> {
    let b = a.len();
    if i < label_long(count, b) {
        enc(a, long_number(count, b, i), long_width(count, b))
    } else {
        enc(
            a,
            ((i - label_long(count, b)) + label_long_prefix(count, b)) as nat,
            (label_digits(count, b) - 1) as nat,
        )
    }
}

/// The `i`-th of `count` labels over `a`; an empty alphabet gives empty labels.
pub open spec fn label_or_empty(a: Seq<char>, count: nat, i: nat) -> Seq<char> {
    if a.len() == 0 {
        Seq::empty()
    } else {
        label_at(a, count, i)
    }
}

/// Only one label width fits a given label count.
pub proof fn lemma_digits_needed_unique(count: nat, b: nat, d: nat)
    requires
        b >= 1,
        is_digits_needed(count, b, d),
    ensures
        label_digits(count, b) == d,
{
    let c = label_digits(count, b);
    assert(is_digits_needed(count, b, c));
    if count > 1 && c != d {
        if c < d {
            lemma_pow_increases(b, c, (d - 1) as nat);
        } else {
            lemma_pow_increases(b, d, (c - 1) as nat);
        }
    }
}

proof fn lemma_digits_search(count: nat, b: nat, d: nat)
    requires
        b >= 2,
        count >= 2,
        d >= 1,
        pow(b as int, (d - 1) as nat) < count,
    ensures
        exists|e: nat| is_digits_needed(count, b, e),
    decreases count - d,
{
    lemma_pow_strictly_increases_k(b, (d - 1) as nat);
    if count <= pow(b as int, d) {
        assert(is_digits_needed(count, b, d));
    } else {
        lemma_digits_search(count, b, d + 1);
    }
}

/// The number of symbols needed is well defined.
pub proof fn lemma_digits_exist(count: nat, b: nat)
    requires
        b >= 2 || count <= 1,
    ensures
        is_digits_needed(count, b, label_digits(count, b)),
{
    if count <= 1 {
        assert(is_digits_needed(count, b, 0));
    } else {
        lemma_pow0(b as int);
        lemma_digits_search(count, b, 1);
    }
}

/// Full-length and shorter labels together make up all `count` labels.
pub proof fn lemma_partition_sizes(count: nat, b: nat)
    requires
        count >= 1,
        b >= 1,
        count >= 2 ==> b >= 2,
    ensures
        label_long(count, b) + label_short(count, b) == count,
        label_long(count, b) >= 1,
        label_digits(count, b) <= long_width(count, b),
        label_short(count, b) > 0 ==> label_digits(count, b) >= 2,
{
    lemma_digits_exist(count, b);
    if count >= 2 {
        lemma_partition(count, b);
    } else {
        lemma_digits_needed_unique(count, b, 0);
        lemma_pow0(b as int);
        lemma_basic_div(0, b as int);
    }
}

/// Arithmetic facts about the partition into long and short labels.
pub proof fn lemma_partition(count: nat, b: nat)
    requires
        count >= 2,
        b >= 2,
        is_digits_needed(count, b, label_digits(count, b)),
    ensures
        ({
            let d = label_digits(count, b);
            let w = label_whole(count, b);
            let big = pow(b as int, (d - 1) as nat);
            let s = label_short(count, b);
            let l = label_long(count, b);
            let p = label_long_prefix(count, b);
            &&& d >= 1
            &&& w == b * big
            &&& (w as int) / (b as int) == big
            &&& big >= 1
            &&& w >= count
            &&& s < big
            &&& p == big - s
            &&& p > 0
            &&& l > 0
            &&& l + s == count
            &&& l <= p * b
            &&& (d == 1 ==> s == 0)
        }),
{
    let d = label_digits(count, b);
    let w = label_whole(count, b);
    let big = pow(b as int, (d - 1) as nat);
    lemma_pow0(b as int);
    assert(pow(b as int, d) == b * big) by {
        reveal(pow);
    }
    lemma_pow_positive(b as int, (d - 1) as nat);
    let x = w - count;
    lemma_multiply_divide_lt(x, b as int, big);
    lemma_div_by_multiple(big, b as int);
    lemma_mul_is_commutative(b as int, big);
    let s = label_short(count, b);
    lemma_fundamental_div_mod(x, b as int);
    lemma_mod_pos_bound(x, b as int);
    assert(s * b <= x) by {
        lemma_mul_is_commutative(b as int, s as int);
    }
    let p = label_long_prefix(count, b);
    assert(p * b == w - s * b) by (nonlinear_arith)
        requires p == big - s, w == b * big;
    assert(s * (b - 1) <= s * b) by (nonlinear_arith)
        requires s >= 0, b >= 1;
}

/// Decomposition of a full-length label number into its high digit and low part.
pub proof fn lemma_long_number(count: nat, b: nat, i: nat)
    requires
        count >= 2,
        b >= 2,
        is_digits_needed(count, b, label_digits(count, b)),
        i < label_long(count, b),
    ensures
        ({
            let d = label_digits(count, b);
            let big = pow(b as int, (d - 1) as nat);
            let p = label_long_prefix(count, b);
            let n = long_number(count, b, i);
            &&& i / p < b
            &&& i % p < p
            &&& n == (i / p) * big + i % p
            &&& n < pow(b as int, d)
            &&& n as int % big == i % p
            &&& i == (i / p) * p + i % p
        }),
{
    lemma_partition(count, b);
    let d = label_digits(count, b);
    let big = pow(b as int, (d - 1) as nat);
    let p = label_long_prefix(count, b) as int;
    let q = i as int / p;
    let t = i as int % p;
    lemma_fundamental_div_mod(i as int, p);
    lemma_mod_pos_bound(i as int, p);
    lemma_div_pos_is_pos(i as int, p);
    lemma_mul_is_commutative(p, b as int);
    lemma_multiply_divide_lt(i as int, p, b as int);
    assert(pow(b as int, d) == b * big) by {
        reveal(pow);
    }
    assert(q * big + t < b * big) by (nonlinear_arith)
        requires q < b, q >= 0, t < p, p <= big, t >= 0;
    lemma_fundamental_div_mod_converse(q * big + t, big, q, t);
    assert(i == q * p + t) by {
        lemma_mul_is_commutative(p, q);
    }
}

/// Distinct full-length label positions get distinct numbers.
pub proof fn lemma_long_number_injective(count: nat, b: nat, i: nat, k: nat)
    requires
        count >= 2,
        b >= 2,
        is_digits_needed(count, b, label_digits(count, b)),
        i < label_long(count, b),
        k < label_long(count, b),
        long_number(count, b, i) == long_number(count, b, k),
    ensures
        i == k,
{
    lemma_partition(count, b);
    lemma_long_number(count, b, i);
    lemma_long_number(count, b, k);
    let d = label_digits(count, b);
    let big = pow(b as int, (d - 1) as nat);
    let p = label_long_prefix(count, b) as int;
    lemma_fundamental_div_mod_converse(long_number(count, b, i) as int, big, i as int / p, i as int % p);
    lemma_fundamental_div_mod_converse(long_number(count, b, i) as int, big, k as int / p, k as int % p);
}

/// Label lengths: full-length labels have `max(d, 1)` symbols, the others `d - 1`.
pub proof fn lemma_label_len(a: Seq<char>, count: nat, i: nat)
    requires
        a.len() >= 1,
        i < count,
    ensures
        label_at(a, count, i).len() == (if i < label_long(count, a.len()) {
            long_width(count, a.len())
        } else {
            (label_digits(count, a.len()) - 1) as nat
        }),
{
    let b = a.len();
    if i < label_long(count, b) {
        lemma_enc_len(a, long_number(count, b, i), long_width(count, b));
    } else {
        lemma_enc_len(
            a,
            ((i - label_long(count, b)) + label_long_prefix(count, b)) as nat,
            (label_digits(count, b) - 1) as nat,
        );
    }
}

/// No label is a prefix of another one (so no two labels are equal either),
/// provided the alphabet has no repeated symbol.
pub proof fn lemma_labels_prefix_free(a: Seq<char>, count: nat, i: nat, k: nat)
    requires
        a.len() >= 2,
        a.no_duplicates(),
        is_digits_needed(count, a.len(), label_digits(count, a.len())),
        i < count,
        k < count,
        i != k,
    ensures
        !label_at(a, count, i).is_prefix_of(label_at(a, count, k)),
{
    let b = a.len();
    lemma_partition(count, b);
    let d = label_digits(count, b);
    let big = pow(b as int, (d - 1) as nat);
    let l = label_long(count, b);
    let p = label_long_prefix(count, b);
    let li = label_at(a, count, i);
    let lk = label_at(a, count, k);
    lemma_label_len(a, count, i);
    lemma_label_len(a, count, k);
    if li.is_prefix_of(lk) {
        if i < l && k < l {
            assert(li =~= lk);
            lemma_long_number(count, b, i);
            lemma_long_number(count, b, k);
            lemma_enc_injective(a, long_number(count, b, i), long_number(count, b, k), d);
            lemma_long_number_injective(count, b, i, k);
        } else if i >= l && k >= l {
            assert(li =~= lk);
            let ni = ((i - l) + p) as nat;
            let nk = ((k - l) + p) as nat;
            assert(ni < big && nk < big);
            lemma_enc_injective(a, ni, nk, (d - 1) as nat);
        } else if i >= l && k < l {
            // a short label against the first d - 1 symbols of a full-length label
            lemma_long_number(count, b, k);
            let nk = long_number(count, b, k);
            lemma_enc_prefix(a, nk, d);
            assert(li =~= lk.take(d - 1));
            let ni = ((i - l) + p) as nat;
            lemma_enc_injective(a, ni, (nk as int % big) as nat, (d - 1) as nat);
        }
    }
}

/// Builds `count` labels over `alphabet` (front symbols preferred for short keys).
///
/// Full-length labels come first, then the labels one symbol shorter; over an
/// alphabet without repeated symbols no label is a prefix of another. An empty alphabet
/// (a configuration error) gives an empty label.
pub fn generate_labels(count: usize, alphabet: &[char]) -> (labels: Vec<String>)
    requires
        count >= 2 ==> alphabet@.len() >= 2,
        count * alphabet@.len() <= usize::MAX,
    ensures
        labels@.len() == count,
        forall|i: int| 0 <= i < count ==> #[trigger] labels@[i]@ == label_or_empty(alphabet@, count as nat, i as nat),
        forall|i: int, c: int| 0 <= i < count && 0 <= c < labels@[i]@.len() ==> alphabet@.contains(#[trigger] labels@[i]@[c]),
        alphabet@.no_duplicates() ==> forall|i: int, k: int|
            0 <= i < count && 0 <= k < count && i != k ==> !(#[trigger] labels@[i]@).is_prefix_of(#[trigger] labels@[k]@),
        count <= alphabet@.len() ==> forall|i: int| 0 <= i < count ==> (#[trigger] labels@[i]@).len() == 1,
        alphabet@.len() < count <= alphabet@.len() * alphabet@.len() ==> forall|i: int|
            0 <= i < count ==> 1 <= (#[trigger] labels@[i]@).len() <= 2,
{
    let mut hint_strings: Vec<String> = Vec::new();
    if count == 0 {
        return hint_strings;
    }
    if alphabet.len() == 0 {
        hint_strings.push(String::new());
        return hint_strings;
    }
    let ghost a = alphabet@;
    let base = alphabet.len();
    let ghost bn = base as nat;

    let mut digits_needed: usize = 0;
    let mut threshold: usize = 1;
    proof {
        lemma_pow0(base as int);
    }
    if count > 1 {
        digits_needed = 1;
        threshold = base;
        proof {
            lemma_pow1(base as int);
            lemma_pow0(base as int);
        }
        while threshold < count
            invariant
                base == alphabet@.len(),
                base >= 2,
                count >= 2,
                count * base <= usize::MAX,
                digits_needed >= 1,
                threshold == pow(base as int, digits_needed as nat),
                pow(base as int, (digits_needed - 1) as nat) < count,
                digits_needed < count,
            decreases count - digits_needed,
        {
            proof {
                assert(threshold * base < count * base) by (nonlinear_arith)
                    requires threshold < count, base >= 2;
                assert(pow(base as int, (digits_needed + 1) as nat) == base * pow(base as int, digits_needed as nat)) by {
                    reveal(pow);
                }
                lemma_mul_is_commutative(base as int, threshold as int);
                lemma_pow_strictly_increases_k(base as nat, digits_needed as nat);
            }
            digits_needed = digits_needed + 1;
            threshold = threshold * base;
        }
    }
    proof {
        assert(is_digits_needed(count as nat, bn, digits_needed as nat));
        lemma_digits_needed_unique(count as nat, bn, digits_needed as nat);
    }
    proof {
        if count >= 2 {
            lemma_partition(count as nat, bn);
        } else {
            lemma_basic_div(0, base as int);
            if base >= 2 {
                lemma_basic_div(1, base as int);
            } else {
                lemma_div_by_self(1);
            }
        }
    }
    let whole_hint_count = threshold;
    assert(whole_hint_count == label_whole(count as nat, bn));
    let short_hint_count = (whole_hint_count - count) / base;
    assert(short_hint_count == label_short(count as nat, bn));
    let long_hint_count = count - short_hint_count;
    let long_hint_prefix_count = whole_hint_count / base - short_hint_count;
    assert(long_hint_count == label_long(count as nat, bn));
    assert(long_hint_prefix_count == label_long_prefix(count as nat, bn));

    let mut j: usize = 0;
    let mut i: usize = 0;
    proof {
        let pp = label_long_prefix(count as nat, bn);
        if pp > 0 {
            let ss = label_short(count as nat, bn);
            assert((0nat / pp) * (pp + ss) + 0nat % pp == 0) by (nonlinear_arith)
                requires pp > 0;
        }
        assert(long_number(count as nat, bn, 0) == 0);
    }
    while i < long_hint_count
        invariant
            a == alphabet@,
            base == a.len(),
            bn == base,
            count >= 1,
            count >= 2 ==> base >= 2,
            base >= 1,
            count * base <= usize::MAX,
            digits_needed == label_digits(count as nat, bn),
            is_digits_needed(count as nat, bn, digits_needed as nat),
            whole_hint_count == label_whole(count as nat, bn),
            short_hint_count == label_short(count as nat, bn),
            long_hint_count == label_long(count as nat, bn),
            long_hint_prefix_count == label_long_prefix(count as nat, bn),
            count == 1 ==> long_hint_count == 1 && short_hint_count == 0 && digits_needed == 0,
            i <= long_hint_count,
            i < long_hint_count ==> j == long_number(count as nat, bn, i as nat),
            hint_strings@.len() == i,
            forall|m: int| 0 <= m < i ==> #[trigger] hint_strings@[m]@ == label_at(a, count as nat, m as nat),
        decreases long_hint_count - i,
    {
        proof {
            if count >= 2 {
                lemma_long_number(count as nat, bn, i as nat);
                lemma_num_digits_bound(bn, j as nat, digits_needed as nat);
            } else {
                assert(i == 0);
                assert(j == 0) by {
                    if long_hint_prefix_count > 0 {
                        lemma_basic_div(0, long_hint_prefix_count as int);
                        lemma_small_mod(0, long_hint_prefix_count as nat);
                    }
                }
            }
        }
        let s = number_to_hint_string_reversed(j, alphabet, digits_needed);
        proof {
            if count >= 2 {
                assert(max_nat(digits_needed as nat, num_digits(bn, j as nat)) == long_width(count as nat, bn));
            } else {
                assert(num_digits(bn, 0) == 1);
            }
        }
        hint_strings.push(s);
        proof {
            if count >= 2 {
                lemma_long_number(count as nat, bn, i as nat);
                lemma_partition(count as nat, bn);
                let p = long_hint_prefix_count as int;
                let q = i as int / p;
                let t = i as int % p;
                assert(j + 1 + short_hint_count <= whole_hint_count) by (nonlinear_arith)
                    requires
                        j == q * (p + short_hint_count) + t,
                        q < base,
                        t < p,
                        p + short_hint_count == whole_hint_count as int / (base as int),
                        whole_hint_count == base * (whole_hint_count as int / (base as int)),
                        q >= 0, t >= 0, p >= 1;
                if t + 1 < p {
                    lemma_fundamental_div_mod_converse((i + 1) as int, p, q, t + 1);
                } else {
                    assert((i + 1) as int == (q + 1) * p + 0) by (nonlinear_arith)
                        requires i == q * p + t, t + 1 == p;
                    lemma_fundamental_div_mod_converse((i + 1) as int, p, q + 1, 0);
                }
            }
        }
        if long_hint_prefix_count > 0 && (i + 1) % long_hint_prefix_count == 0 {
            j += short_hint_count;
        }
        j += 1;
        i += 1;
        proof {
            if count >= 2 && i < long_hint_count {
                let p = long_hint_prefix_count as int;
                let q = (i - 1) as int / p;
                let t = (i - 1) as int % p;
                if t + 1 < p {
                    assert(j == long_number(count as nat, bn, i as nat)) by (nonlinear_arith)
                        requires
                            j == q * (p + short_hint_count) + t + 1,
                            (i as int) / p == q,
                            (i as int) % p == t + 1,
                            p > 0,
                            long_number(count as nat, bn, i as nat) == ((i as int) / p) * (p + short_hint_count) + (i as int) % p;
                } else {
                    assert(j == long_number(count as nat, bn, i as nat)) by (nonlinear_arith)
                        requires
                            j == q * (p + short_hint_count) + t + short_hint_count + 1,
                            (i as int) / p == q + 1,
                            (i as int) % p == 0,
                            t + 1 == p,
                            long_number(count as nat, bn, i as nat) == ((i as int) / p) * (p + short_hint_count) + (i as int) % p;
                }
            }
        }
    }

    if digits_needed > 1 {
        let mut i: usize = 0;
        while i < short_hint_count
            invariant
                a == alphabet@,
                base == a.len(),
                bn == base,
                count >= 2,
                base >= 2,
                digits_needed > 1,
                digits_needed == label_digits(count as nat, bn),
                is_digits_needed(count as nat, bn, digits_needed as nat),
                whole_hint_count == label_whole(count as nat, bn),
                short_hint_count == label_short(count as nat, bn),
                long_hint_count == label_long(count as nat, bn),
                long_hint_prefix_count == label_long_prefix(count as nat, bn),
                long_hint_count + short_hint_count == count,
                long_hint_prefix_count + short_hint_count == pow(base as int, (digits_needed - 1) as nat),
                i <= short_hint_count,
                hint_strings@.len() == long_hint_count + i,
                forall|m: int| 0 <= m < long_hint_count + i ==> #[trigger] hint_strings@[m]@ == label_at(a, count as nat, m as nat),
            decreases short_hint_count - i,
        {
            proof {
                lemma_num_digits_bound(bn, (i + long_hint_prefix_count) as nat, (digits_needed - 1) as nat);
            }
            let s = number_to_hint_string_reversed(i + long_hint_prefix_count, alphabet, digits_needed - 1);
            hint_strings.push(s);
            i += 1;
        }
    }
    proof {
        if count >= 2 {
            lemma_partition(count as nat, bn);
        }
        assert(hint_strings@.len() == count);
        assert forall|i: int, c: int| 0 <= i < count && 0 <= c < hint_strings@[i]@.len() implies alphabet@.contains(#[trigger] hint_strings@[i]@[c]) by {
            let li = hint_strings@[i]@;
            if i < long_hint_count {
                lemma_enc_in_alphabet(a, long_number(count as nat, bn, i as nat), long_width(count as nat, bn));
                lemma_enc_len(a, long_number(count as nat, bn, i as nat), long_width(count as nat, bn));
            } else {
                let n = ((i - long_hint_count) + long_hint_prefix_count) as nat;
                lemma_enc_in_alphabet(a, n, (digits_needed - 1) as nat);
                lemma_enc_len(a, n, (digits_needed - 1) as nat);
            }
        }
        if alphabet@.no_duplicates() {
            assert forall|i: int, k: int|
                0 <= i < count && 0 <= k < count && i != k implies !(#[trigger] hint_strings@[i]@).is_prefix_of(#[trigger] hint_strings@[k]@) by {
                if count >= 2 {
                    lemma_labels_prefix_free(a, count as nat, i as nat, k as nat);
                }
            }
        }
        assert forall|i: int| 0 <= i < count implies {
            &&& (count <= alphabet@.len() ==> (#[trigger] hint_strings@[i]@).len() == 1)
            &&& (alphabet@.len() < count <= alphabet@.len() * alphabet@.len() ==> 1 <= hint_strings@[i]@.len() <= 2)
        } by {
            lemma_label_len(a, count as nat, i as nat);
            if count >= 2 && count <= base {
                lemma_pow1(base as int);
                lemma_pow0(base as int);
                assert(is_digits_needed(count as nat, bn, 1));
                lemma_digits_needed_unique(count as nat, bn, 1);
            }
            if base < count && count <= base * base {
                lemma_pow1(base as int);
                assert(pow(base as int, 2) == base * pow(base as int, 1)) by {
                    reveal(pow);
                }
                assert(is_digits_needed(count as nat, bn, 2));
                lemma_digits_needed_unique(count as nat, bn, 2);
            }
        }
    }
    hint_strings
}

/// `(digits_needed, long_count, short_count)` of the label partition for `count` labels.
pub fn vimium_partition(count: usize, alphabet_len: usize) -> (r: (usize, usize, usize))
    requires
        count >= 2 ==> alphabet_len >= 2,
        count * alphabet_len <= usize::MAX,
    ensures
        count == 0 ==> r == (0usize, 0usize, 0usize),
        count >= 1 ==> r.0 == label_digits(count as nat, max_nat(alphabet_len as nat, 1))
            && r.1 == label_long(count as nat, max_nat(alphabet_len as nat, 1))
            && r.2 == label_short(count as nat, max_nat(alphabet_len as nat, 1)),
{
    if count == 0 {
        return (0, 0, 0);
    }
    let base = if alphabet_len > 1 { alphabet_len } else { 1 };
    let ghost bn = base as nat;
    let mut digits_needed: usize = 0;
    let mut threshold: usize = 1;
    proof {
        lemma_pow0(base as int);
    }
    if count > 1 {
        digits_needed = 1;
        threshold = base;
        proof {
            lemma_pow1(base as int);
        }
        while threshold < count
            invariant
                base >= 2,
                count >= 2,
                count * base <= usize::MAX,
                digits_needed >= 1,
                threshold == pow(base as int, digits_needed as nat),
                pow(base as int, (digits_needed - 1) as nat) < count,
                digits_needed < count,
            decreases count - digits_needed,
        {
            proof {
                assert(threshold * base < count * base) by (nonlinear_arith)
                    requires threshold < count, base >= 2;
                assert(pow(base as int, (digits_needed + 1) as nat) == base * pow(base as int, digits_needed as nat)) by {
                    reveal(pow);
                }
                lemma_mul_is_commutative(base as int, threshold as int);
                lemma_pow_strictly_increases_k(base as nat, digits_needed as nat);
            }
            digits_needed = digits_needed + 1;
            threshold = threshold * base;
        }
    }
    proof {
        assert(is_digits_needed(count as nat, bn, digits_needed as nat));
        lemma_digits_needed_unique(count as nat, bn, digits_needed as nat);
        if count >= 2 {
            lemma_partition(count as nat, bn);
        } else {
            lemma_basic_div(0, base as int);
        }
    }
    let whole_hint_count = threshold;
    let short_hint_count = (whole_hint_count - count) / base;
    let long_hint_count = count - short_hint_count;
    (digits_needed, long_hint_count, short_hint_count)
}

} // verus!
