//! Natural numbers as bytes, the most significant one first.
use vstd::prelude::*;

verus! {

/// The number that bytes stand for, the most significant one first.
pub open spec fn number(bytes: Seq<u8>) -> nat
    decreases bytes.len(),
{
    if bytes.len() == 0 {
        0
    } else {
        number(bytes.drop_last()) * 256 + bytes.last() as nat
    }
}

/// Bytes without the zeros in front; one zero is left where there is nothing else.
pub open spec fn trimmed(bytes: Seq<u8>) -> Seq<u8>
    decreases bytes.len(),
{
    if bytes.len() == 0 {
        seq![0u8]
    } else if bytes[0] == 0 && bytes.len() > 1 {
        trimmed(bytes.skip(1))
    } else {
        bytes
    }
}

/// Takes the zeros in front away.
pub fn trim(bytes: &[u8]) -> (shorter: Vec<u8>)
    ensures
        shorter@ == trimmed(bytes@),
{
    let total: usize = bytes.len();
    let mut shorter: Vec<u8> = Vec::new();
    if total == 0 {
        shorter.push(0);
        assert(shorter@ =~= seq![0u8]);
        return shorter;
    }
    let mut start: usize = 0;
    assert(bytes@.skip(0) =~= bytes@);
    while start < total - 1 && bytes[start] == 0
        invariant
            start < total,
            total == bytes@.len(),
            trimmed(bytes@) == trimmed(bytes@.skip(start as int)),
        decreases total - start,
    {
        assert(bytes@.skip(start as int).skip(1) =~= bytes@.skip(start + 1));
        start = start + 1;
    }
    let mut i: usize = start;
    assert(bytes@.subrange(start as int, start as int) =~= Seq::<u8>::empty());
    while i < total
        invariant
            start <= i <= total,
            total == bytes@.len(),
            shorter@ == bytes@.subrange(start as int, i as int),
        decreases total - i,
    {
        shorter.push(bytes[i]);
        assert(shorter@ =~= bytes@.subrange(start as int, i + 1));
        i = i + 1;
    }
    assert(shorter@ =~= bytes@.skip(start as int));
    shorter
}

/// The number of a byte more.
proof fn lemma_push(bytes: Seq<u8>, byte: u8)
    ensures
        number(bytes.push(byte)) == number(bytes) * 256 + byte as nat,
{
    assert(bytes.push(byte).drop_last() =~= bytes);
}

proof fn lemma_take(bytes: Seq<u8>, i: int)
    requires
        0 <= i < bytes.len(),
    ensures
        number(bytes.take(i + 1)) == number(bytes.take(i)) * 256 + bytes[i] as nat,
{
    assert(bytes.take(i + 1) =~= bytes.take(i).push(bytes[i]));
    lemma_push(bytes.take(i), bytes[i]);
}

/// Whether one number is less than another.
pub fn less(a: &[u8], b: &[u8]) -> (r: bool)
    ensures
        r == (number(a@) < number(b@)),
{
    let total: usize = if a.len() < b.len() {
        b.len()
    } else {
        a.len()
    };
    let a_start: usize = total - a.len();
    let b_start: usize = total - b.len();
    let mut below: bool = false;
    let mut above: bool = false;
    let mut i: usize = 0;
    let ghost mut x: nat = 0;
    let ghost mut y: nat = 0;
    while i < total
        invariant
            i <= total,
            total == a_start + a@.len(),
            total == b_start + b@.len(),
            x == (if i <= a_start {
                0
            } else {
                number(a@.take(i - a_start))
            }),
            y == (if i <= b_start {
                0
            } else {
                number(b@.take(i - b_start))
            }),
            below == (x < y),
            above == (x > y),
        decreases total - i,
    {
        let p: u8 = if i < a_start {
            0
        } else {
            a[i - a_start]
        };
        let q: u8 = if i < b_start {
            0
        } else {
            b[i - b_start]
        };
        proof {
            if i >= a_start {
                lemma_take(a@, i - a_start);
                assert(a@.take(0) =~= Seq::<u8>::empty());
            }
            if i >= b_start {
                lemma_take(b@, i - b_start);
                assert(b@.take(0) =~= Seq::<u8>::empty());
            }
            x = x * 256 + p as nat;
            y = y * 256 + q as nat;
        }
        if !below && !above {
            below = p < q;
            above = p > q;
        }
        i = i + 1;
    }
    proof {
        assert(a@.take(a@.len() as int) =~= a@);
        assert(b@.take(b@.len() as int) =~= b@);
    }
    below
}

/// The number that bytes stand for, the least significant one first.
spec fn reversed(bytes: Seq<u8>) -> nat
    decreases bytes.len(),
{
    if bytes.len() == 0 {
        0
    } else {
        bytes[0] as nat + 256 * reversed(bytes.skip(1))
    }
}

/// What one more byte is worth behind `n` less significant ones.
spec fn worth(n: nat) -> nat
    decreases n,
{
    if n == 0 {
        1
    } else {
        256 * worth((n - 1) as nat)
    }
}

proof fn lemma_reversed_push(bytes: Seq<u8>, byte: u8)
    ensures
        reversed(bytes.push(byte)) == reversed(bytes) + byte * worth(bytes.len()),
    decreases bytes.len(),
{
    let more = bytes.push(byte);
    if bytes.len() == 0 {
        assert(more.skip(1) =~= Seq::<u8>::empty());
        assert(reversed(more.skip(1)) == 0);
        assert(worth(0) == 1);
    } else {
        assert(more.skip(1) =~= bytes.skip(1).push(byte));
        lemma_reversed_push(bytes.skip(1), byte);
        let w = worth((bytes.len() - 1) as nat);
        assert(256 * (byte * w) == byte * (256 * w)) by (nonlinear_arith);
    }
}

proof fn lemma_reversed(bytes: Seq<u8>)
    ensures
        number(bytes.reverse()) == reversed(bytes),
    decreases bytes.len(),
{
    if bytes.len() > 0 {
        assert(bytes.reverse().drop_last() =~= bytes.skip(1).reverse());
        lemma_reversed(bytes.skip(1));
    }
}

/// One step of a multiplication: the digits `x` and `y` of the two numbers are used up.
proof fn lemma_step(a: nat, x: u8, factor: u8, b: nat, y: u8, carry: nat, t: nat, w: nat)
    requires
        t == x * factor + y + carry,
    ensures
        ((a * 256 + x) * factor + (b * 256 + y) + carry) * w == (a * factor + b + t / 256) * (256
            * w) + (t % 256) * w,
{
    assert((a * 256 + x) * factor == 256 * (a * factor) + x * factor) by (nonlinear_arith);
    let high = a * factor + b + t / 256;
    assert((a * 256 + x) * factor + (b * 256 + y) + carry == 256 * high + t % 256);
    assert((256 * high + t % 256) * w == high * (256 * w) + (t % 256) * w) by (nonlinear_arith);
}

proof fn lemma_digit(bytes: Seq<u8>, rest: nat)
    requires
        rest <= bytes.len(),
    ensures
        number(bytes.take(rest as int)) == (if rest == 0 {
            0
        } else {
            number(bytes.take(rest - 1)) * 256 + bytes[rest - 1] as nat
        }),
{
    if rest > 0 {
        lemma_take(bytes, rest - 1);
    }
}

/// A number times a digit, plus another number.
fn multiply_digit(a: &[u8], factor: u8, b: &[u8]) -> (sum: Vec<u8>)
    ensures
        number(sum@) == number(a@) * factor + number(b@),
{
    let mut i: usize = a.len();
    let mut j: usize = b.len();
    let mut carry: u32 = 0;
    let mut digits: Vec<u8> = Vec::new();
    proof {
        assert(a@.take(a@.len() as int) =~= a@);
        assert(b@.take(b@.len() as int) =~= b@);
        assert((number(a@) * factor + number(b@) + 0) * 1 == number(a@) * factor + number(b@));
    }
    while i > 0 || j > 0
        invariant
            i <= a@.len(),
            j <= b@.len(),
            carry <= 255,
            (number(a@.take(i as int)) * factor + number(b@.take(j as int)) + carry) * worth(
                digits@.len(),
            ) + reversed(digits@) == number(a@) * factor + number(b@),
        decreases i + j,
    {
        proof {
            lemma_digit(a@, i as nat);
            lemma_digit(b@, j as nat);
        }
        let mut x: u8 = 0;
        if i > 0 {
            i = i - 1;
            x = a[i];
        }
        let mut y: u8 = 0;
        if j > 0 {
            j = j - 1;
            y = b[j];
        }
        assert(x * factor <= 255 * 255) by (nonlinear_arith)
            requires
                x <= 255,
                factor <= 255,
        ;
        let t: u32 = x as u32 * factor as u32 + y as u32 + carry;
        proof {
            assert(a@.take(0) =~= Seq::<u8>::empty());
            assert(b@.take(0) =~= Seq::<u8>::empty());
            let w = worth(digits@.len());
            lemma_step(
                number(a@.take(i as int)),
                x,
                factor,
                number(b@.take(j as int)),
                y,
                carry as nat,
                t as nat,
                w,
            );
            lemma_reversed_push(digits@, (t % 256) as u8);
        }
        digits.push((t % 256) as u8);
        carry = t / 256;
    }
    proof {
        assert(a@.take(0) =~= Seq::<u8>::empty());
        assert(b@.take(0) =~= Seq::<u8>::empty());
        lemma_reversed_push(digits@, carry as u8);
        assert(0 * factor == 0) by (nonlinear_arith);
    }
    digits.push(carry as u8);
    let ghost low_first = digits@;
    let mut sum: Vec<u8> = Vec::new();
    let mut k: usize = digits.len();
    while k > 0
        invariant
            k <= digits@.len(),
            digits@ == low_first,
            sum@ == low_first.reverse().take(low_first.len() - k),
        decreases k,
    {
        k = k - 1;
        sum.push(digits[k]);
        assert(sum@ =~= low_first.reverse().take(low_first.len() - k));
    }
    proof {
        assert(sum@ =~= low_first.reverse());
        lemma_reversed(low_first);
    }
    sum
}

/// The product of two numbers.
pub fn multiply(a: &[u8], b: &[u8]) -> (product: Vec<u8>)
    ensures
        number(product@) == number(a@) * number(b@),
{
    let mut product: Vec<u8> = Vec::new();
    let mut i: usize = 0;
    proof {
        assert(b@.take(0) =~= Seq::<u8>::empty());
        assert(number(a@) * 0 == 0) by (nonlinear_arith);
    }
    while i < b.len()
        invariant
            i <= b@.len(),
            number(product@) == number(a@) * number(b@.take(i as int)),
        decreases b.len() - i,
    {
        proof {
            lemma_push(product@, 0);
            lemma_take(b@, i as int);
            let (n, m, d) = (number(a@), number(b@.take(i as int)), b@[i as int] as nat);
            assert(n * d + (n * m) * 256 == n * (m * 256 + d)) by (nonlinear_arith);
        }
        product.push(0);
        product = multiply_digit(a, b[i], &product);
        i = i + 1;
    }
    assert(b@.take(b@.len() as int) =~= b@);
    product
}

/// A byte more in front counts as much as all the bytes behind it can, and one more.
pub proof fn first_bytes_count_most(byte: u8, bytes: Seq<u8>)
    ensures
        number(seq![byte] + bytes) == byte * vstd::arithmetic::power::pow(256, bytes.len())
            + number(bytes),
        number(bytes) < vstd::arithmetic::power::pow(256, bytes.len()),
    decreases bytes.len(),
{
    let all = seq![byte] + bytes;
    if bytes.len() == 0 {
        reveal_with_fuel(number, 2);
        vstd::arithmetic::power::lemma_pow0(256);
        assert(all.drop_last() =~= Seq::<u8>::empty());
    } else {
        let rest = bytes.drop_last();
        first_bytes_count_most(byte, rest);
        assert(all.drop_last() =~= seq![byte] + rest);
        reveal(vstd::arithmetic::power::pow);
        let p = vstd::arithmetic::power::pow(256, rest.len());
        assert(vstd::arithmetic::power::pow(256, bytes.len()) == 256 * p);
        assert((byte * p + number(rest)) * 256 + bytes.last() as nat == byte * (256 * p) + (number(
            rest,
        ) * 256 + bytes.last() as nat)) by (nonlinear_arith);
    }
}

/// Zeros in front are taken away, and no more than those: the number stays, and what is left
/// starts with another byte or is a single zero.
pub proof fn trimming_keeps_the_number(bytes: Seq<u8>)
    ensures
        number(trimmed(bytes)) == number(bytes),
        trimmed(bytes).len() >= 1,
        trimmed(bytes).len() > 1 ==> trimmed(bytes)[0] != 0,
        bytes.len() > 0 ==> trimmed(bytes) == bytes.skip(bytes.len() - trimmed(bytes).len())
            && trimmed(bytes).len() <= bytes.len(),
    decreases bytes.len(),
{
    if bytes.len() == 0 {
        reveal_with_fuel(number, 2);
        assert(trimmed(bytes).drop_last() =~= Seq::<u8>::empty());
    } else if bytes[0] == 0 && bytes.len() > 1 {
        let rest = bytes.skip(1);
        trimming_keeps_the_number(rest);
        assert(bytes =~= seq![0u8] + rest);
        first_bytes_count_most(0, rest);
        assert(0 * vstd::arithmetic::power::pow(256, rest.len()) == 0);
        let t = trimmed(bytes).len();
        assert(rest.skip(rest.len() - t) =~= bytes.skip(bytes.len() - t));
    } else {
        assert(bytes.skip(0) =~= bytes);
    }
}

} // verus!
