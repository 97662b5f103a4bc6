//! Fixed-width byte strings: comparison and big-endian numbers.
use vstd::arithmetic::div_mod::{lemma_fundamental_div_mod, lemma_mod_bound};
use vstd::arithmetic::power::{lemma_pow_adds, lemma_pow_increases, lemma_pow_positive, pow};
use vstd::prelude::*;

verus! {

/// A 32-byte word: a hash, a commitment, a nullifier or a public input.
pub type Bytes32 = [u8; 32];

/// The all-zero word.
pub open spec fn zero32() -> Bytes32 {
    [0u8; 32usize]
}

/// The number that `s` writes in base 256, most significant byte first.
pub open spec fn be_value(s: Seq<u8>) -> nat
    decreases s.len(),
{
    if s.len() == 0 {
        0
    } else {
        be_value(s.drop_last()) * 256 + s.last() as nat
    }
}

/// The 32-byte big-endian encoding of `n`.
pub open spec fn word_of(n: nat) -> Bytes32 {
    choose|b: Bytes32| be_value(b@) == n
}

/// The 128-bit two's-complement pattern of `v`, read as an unsigned number.
pub open spec fn twos_complement(v: i128) -> nat {
    if v >= 0 {
        v as nat
    } else {
        (v + 0x1_0000_0000_0000_0000_0000_0000_0000_0000) as nat
    }
}

/// The signed number whose 128-bit two's-complement pattern is `n`.
pub open spec fn signed_value(n: nat) -> int {
    if n < 0x8000_0000_0000_0000_0000_0000_0000_0000 {
        n as int
    } else {
        n - 0x1_0000_0000_0000_0000_0000_0000_0000_0000
    }
}

/// The signed amount held in the low half of a word; the high half is ignored.
pub open spec fn amount_of(b: Bytes32) -> int {
    signed_value(be_value(b@.subrange(16, 32)))
}

/// A byte string of length `n` writes a number below `256^n`.
pub proof fn lemma_be_bound(s: Seq<u8>)
    ensures
        be_value(s) < pow(256, s.len()),
    decreases s.len(),
{
    reveal(pow);
    if s.len() > 0 {
        lemma_be_bound(s.drop_last());
        assert(pow(256, s.len()) == 256 * pow(256, (s.len() - 1) as nat));
    }
}

/// The value of a concatenation.
pub proof fn lemma_be_concat(s: Seq<u8>, t: Seq<u8>)
    ensures
        be_value(s + t) == be_value(s) * pow(256, t.len()) + be_value(t),
    decreases t.len(),
{
    reveal(pow);
    if t.len() == 0 {
        assert(s + t =~= s);
        assert(pow(256, 0) == 1);
    } else {
        let u = t.drop_last();
        lemma_be_concat(s, u);
        assert((s + t).drop_last() =~= s + u);
        assert((s + t).last() == t.last());
        assert(pow(256, t.len()) == 256 * pow(256, u.len()));
        let a = be_value(s) as int;
        let p = pow(256, u.len());
        assert((a * p + be_value(u)) * 256 == a * (256 * p) + be_value(u) * 256)
            by (nonlinear_arith);
    }
}

/// Byte strings of one length that write the same number are equal.
pub proof fn lemma_be_injective(s: Seq<u8>, t: Seq<u8>)
    requires
        s.len() == t.len(),
        be_value(s) == be_value(t),
    ensures
        s == t,
    decreases s.len(),
{
    if s.len() == 0 {
        assert(s =~= t);
    } else {
        assert(s.last() == t.last());
        lemma_be_injective(s.drop_last(), t.drop_last());
        assert(s =~= s.drop_last().push(s.last()));
        assert(t =~= t.drop_last().push(t.last()));
    }
}

/// A string of zero bytes writes zero.
proof fn lemma_be_zeros(s: Seq<u8>)
    requires
        forall|i: int| 0 <= i < s.len() ==> s[i] == 0,
    ensures
        be_value(s) == 0,
    decreases s.len(),
{
    if s.len() > 0 {
        lemma_be_zeros(s.drop_last());
    }
}

/// A word is the encoding of the number that it writes.
pub proof fn lemma_word_of(b: Bytes32)
    ensures
        word_of(be_value(b@)) == b,
{
    let w = word_of(be_value(b@));
    assert(be_value(w@) == be_value(b@));
    lemma_be_injective(w@, b@);
    assert(w =~= b);
}

/// Some word writes `n` in its last `k` bytes and is zero before them.
proof fn lemma_digits(n: nat, k: nat) -> (b: Bytes32)
    requires
        k <= 32,
        n < pow(256, k),
    ensures
        be_value(b@.subrange(32 - k, 32)) == n,
        forall|i: int| 0 <= i < 32 - k ==> b[i] == 0,
    decreases k,
{
    reveal(pow);
    if k == 0 {
        let b = zero32();
        assert(b@.subrange(32, 32) =~= Seq::<u8>::empty());
        b
    } else {
        let j = (k - 1) as nat;
        let p = pow(256, j);
        lemma_pow_positive(256, j);
        let d = n as int / p;
        let rest = n as int % p;
        lemma_fundamental_div_mod(n as int, p);
        lemma_mod_bound(n as int, p);
        assert(pow(256, k) == 256 * p);
        assert(0 <= d < 256) by (nonlinear_arith)
            requires
                n == p * d + rest,
                0 <= rest < p,
                n < 256 * p,
                n >= 0,
        ;
        let low = lemma_digits(rest as nat, j);
        let b = vstd::array::spec_array_update(low, 32 - k, d as u8);
        let tail = low@.subrange(32 - j, 32);
        assert(b@.subrange(32 - k, 32) =~= seq![d as u8] + tail);
        lemma_be_concat(seq![d as u8], tail);
        assert(seq![d as u8].drop_last() =~= Seq::<u8>::empty());
        assert(be_value(Seq::<u8>::empty()) == 0);
        assert(seq![d as u8].last() as int == d);
        assert(be_value(seq![d as u8]) == d);
        assert(d * p == p * d) by (nonlinear_arith);
        b
    }
}

/// The encoding of a number that fits in 32 bytes writes that number.
pub proof fn law_encoding_is_exact(n: nat)
    requires
        n < pow(256, 32),
    ensures
        be_value(word_of(n)@) == n,
{
    let b = lemma_digits(n, 32);
    assert(b@.subrange(0, 32) =~= b@);
}

/// A signed amount is read back from the word that it was written to.
pub proof fn law_amount_round_trip(v: i128)
    ensures
        amount_of(word_of(twos_complement(v))) == v,
{
    let n = twos_complement(v);
    lemma_pow_256_16();
    let b = lemma_digits(n, 16);
    let head = b@.subrange(0, 16);
    let tail = b@.subrange(16, 32);
    assert(b@ =~= head + tail);
    lemma_be_zeros(head);
    lemma_be_concat(head, tail);
    lemma_word_of(b);
}

/// A byte string writes its first byte times a power of 256, plus what the rest writes: its
/// most significant byte comes first.
pub proof fn law_numbers_are_big_endian(s: Seq<u8>)
    ensures
        s.len() == 0 ==> be_value(s) == 0,
        s.len() > 0 ==> be_value(s) == s[0] * pow(256, (s.len() - 1) as nat) + be_value(
            s.subrange(1, s.len() as int),
        ),
{
    if s.len() > 0 {
        let head = s.subrange(0, 1);
        let tail = s.subrange(1, s.len() as int);
        assert(s =~= head + tail);
        assert(head.drop_last() =~= Seq::<u8>::empty());
        assert(be_value(head) == head.last() as nat) by {
            assert(be_value(head.drop_last()) == 0);
        }
        lemma_be_concat(head, tail);
    }
}

/// Every byte of the zero word is zero.
pub proof fn law_zero_word_is_zero(j: int)
    requires
        0 <= j < 32,
    ensures
        zero32()@[j] == 0,
{
}

/// The amount that a word holds is the number that its last 16 bytes write, less `2^128`
/// where that number is at least `2^127`; the first 16 bytes do not matter.
pub proof fn law_amounts_are_read_from_the_low_half(b: Bytes32)
    ensures
        ({
            let n = be_value(b@.subrange(16, 32));
            &&& n < 170141183460469231731687303715884105728 ==> amount_of(b) == n
            &&& n >= 170141183460469231731687303715884105728 ==> amount_of(b) == n
                - 340282366920938463463374607431768211456
            &&& i128::MIN <= amount_of(b) <= i128::MAX
        }),
{
    lemma_be_bound(b@.subrange(16, 32));
    lemma_pow_256_16();
}

/// An amount is written as itself where it is not negative and with `2^128` added where it
/// is, and is read back from there.
pub proof fn law_amounts_are_written_in_twos_complement(v: i128)
    ensures
        ({
            let word = word_of(twos_complement(v));
            &&& v >= 0 ==> be_value(word@) == v
            &&& v < 0 ==> be_value(word@) == v + 340282366920938463463374607431768211456
            &&& amount_of(word) == v
        }),
{
    lemma_pow_256_16();
    lemma_pow_increases(256, 16, 32);
    law_encoding_is_exact(twos_complement(v));
    law_amount_round_trip(v);
}

/// Whether two words are equal.
pub fn same_word(a: &Bytes32, b: &Bytes32) -> (r: bool)
    ensures
        r == (*a == *b),
{
    let mut i: usize = 0;
    while i < 32
        invariant
            i <= 32,
            forall|j: int| 0 <= j < i ==> a[j] == b[j],
        decreases 32 - i,
    {
        if a[i] != b[i] {
            return false;
        }
        i += 1;
    }
    assert(*a =~= *b);
    true
}

/// The 32-byte big-endian encoding of `n`.
pub fn encode_word(n: u128) -> (r: Bytes32)
    ensures
        be_value(r@) == n,
        r == word_of(n as nat),
        forall|i: int| 0 <= i < 16 ==> r[i] == 0,
        be_value(r@.subrange(16, 32)) == n,
{
    let mut out: Bytes32 = [0u8; 32];
    let mut rest: u128 = n;
    let mut i: usize = 0;
    proof {
        reveal(pow);
        assert(out@.subrange(32, 32) =~= Seq::<u8>::empty());
        assert(pow(256, 0) == 1);
        assert(pow(256, 16) == 0x1_0000_0000_0000_0000_0000_0000_0000_0000) by {
            lemma_pow_256_16();
        }
    }
    while i < 16
        invariant
            i <= 16,
            rest < pow(256, (16 - i) as nat),
            forall|j: int| 0 <= j < 32 - i ==> out[j] == 0,
            n == be_value(out@.subrange(32 - i, 32)) + rest * pow(256, i as nat),
        decreases 16 - i,
    {
        let ghost before = out@;
        let digit: u8 = (rest % 256) as u8;
        out[31 - i] = digit;
        proof {
            reveal(pow);
            let tail = before.subrange(32 - i, 32);
            assert(out@.subrange(31 - i, 32) =~= seq![digit] + tail);
            lemma_be_concat(seq![digit], tail);
            assert(seq![digit].drop_last() =~= Seq::<u8>::empty());
            assert(be_value(Seq::<u8>::empty()) == 0);
            assert(be_value(seq![digit]) == digit as nat) by {
                assert(seq![digit].last() == digit);
            }
            let p = pow(256, i as nat);
            let q = rest / 256;
            assert(pow(256, (i + 1) as nat) == 256 * p);
            assert(rest == q * 256 + digit);
            assert(rest * p == digit * p + q * (256 * p)) by (nonlinear_arith)
                requires
                    rest == q * 256 + digit,
            ;
            assert(pow(256, (16 - i) as nat) == 256 * pow(256, (16 - i - 1) as nat));
        }
        rest = rest / 256;
        i += 1;
    }
    proof {
        reveal(pow);
        assert(pow(256, 0) == 1);
        assert(rest == 0);
        assert(rest * pow(256, 16) == 0) by (nonlinear_arith)
            requires
                rest == 0,
        ;
        let head = out@.subrange(0, 16);
        let tail = out@.subrange(16, 32);
        assert(out@ =~= head + tail);
        lemma_be_zeros(head);
        lemma_be_concat(head, tail);
        lemma_word_of(out);
    }
    out
}

/// The number written by the low half of a word.
pub fn decode_low_half(b: &Bytes32) -> (r: u128)
    ensures
        r == be_value(b@.subrange(16, 32)),
{
    let mut n: u128 = 0;
    let mut i: usize = 16;
    proof {
        assert(b@.subrange(16, 16) =~= Seq::<u8>::empty());
    }
    while i < 32
        invariant
            16 <= i <= 32,
            n == be_value(b@.subrange(16, i as int)),
        decreases 32 - i,
    {
        proof {
            let next = b@.subrange(16, i + 1);
            assert(next.drop_last() =~= b@.subrange(16, i as int));
            assert(be_value(next) == n * 256 + b[i as int]);
            lemma_be_bound(next);
            lemma_pow_256_16();
            lemma_pow_increases(256, next.len(), 16);
        }
        n = n * 256 + b[i] as u128;
        i += 1;
    }
    n
}

/// Two words, one after the other.
pub fn concat_words(a: &Bytes32, b: &Bytes32) -> (r: Vec<u8>)
    ensures
        r@ == a@ + b@,
{
    let mut out: Vec<u8> = Vec::new();
    append_word(&mut out, a);
    append_word(&mut out, b);
    out
}

/// Appends a word to a byte string.
pub fn append_word(out: &mut Vec<u8>, word: &Bytes32)
    ensures
        final(out)@ == old(out)@ + word@,
{
    let mut i: usize = 0;
    while i < 32
        invariant
            i <= 32,
            out@ == old(out)@ + word@.subrange(0, i as int),
        decreases 32 - i,
    {
        out.push(word[i]);
        i += 1;
        assert(word@.subrange(0, i as int) =~= word@.subrange(0, i - 1).push(word[i - 1]));
    }
    assert(word@.subrange(0, 32) =~= word@);
}

proof fn lemma_pow_256_16()
    ensures
        pow(256, 16) == 0x1_0000_0000_0000_0000_0000_0000_0000_0000,
{
    reveal(pow);
    assert(pow(256, 1) == 256) by {
        assert(pow(256, 0) == 1);
    }
    lemma_pow_adds(256, 1, 1);
    lemma_pow_adds(256, 2, 2);
    lemma_pow_adds(256, 4, 4);
    lemma_pow_adds(256, 8, 8);
}

} // verus!
