//! Deterministic randomness: FNV-1a seeding, the xorshift64 generator and a
//! Fisher-Yates shuffle driven by it.
use vstd::prelude::*;
use vstd::utf8::encode_utf8;

verus! {

/// FNV-1a 64-bit offset basis.
pub const FNV_OFFSET_BASIS: u64 = 14695981039346656037;

/// FNV-1a 64-bit prime.
pub const FNV_PRIME: u64 = 1099511628211;

/// The FNV-1a hash of a byte sequence: start from the offset basis and, for
/// each byte in turn, xor it in and multiply by the prime modulo 2^64.
pub open spec fn fnv1a(bytes: Seq<u8>) -> u64
    decreases bytes.len(),
{
    if bytes.len() == 0 {
        FNV_OFFSET_BASIS
    } else {
        vstd::wrapping::u64_specs::wrapping_mul(
            fnv1a(bytes.drop_last()) ^ (bytes.last() as u64),
            FNV_PRIME,
        )
    }
}

/// Seeds the board generator from a string: the FNV-1a hash of its UTF-8 bytes.
pub fn hash_seed(input: &str) -> (h: u64)
    ensures
        h == fnv1a(encode_utf8(input@)),
{
    let bytes = input.as_bytes();
    let mut h: u64 = 14695981039346656037;
    let mut i: usize = 0;
    while i < bytes.len()
        invariant
            i <= bytes@.len(),
            bytes@ == encode_utf8(input@),
            h == fnv1a(bytes@.take(i as int)),
        decreases bytes@.len() - i,
    {
        assert(bytes@.take(i + 1).drop_last() =~= bytes@.take(i as int));
        h ^= bytes[i] as u64;
        h = h.wrapping_mul(1099511628211);
        i += 1;
    }
    assert(bytes@.take(i as int) =~= bytes@);
    h
}

/// One xorshift64 step (shifts 13, 7, 17).
pub open spec fn xorshift_step(x: u64) -> u64 {
    let a = x ^ (x << 13u64);
    let b = a ^ (a >> 7u64);
    b ^ (b << 17u64)
}

/// The state after `n` steps of the generator.
pub open spec fn xorshift_iter(x: u64, n: nat) -> u64
    decreases n,
{
    if n == 0 {
        x
    } else {
        xorshift_iter(xorshift_step(x), (n - 1) as nat)
    }
}

/// A xorshift64 pseudo-random generator; the field is its whole state.
pub struct XorShift64(pub u64);

impl XorShift64 {
    /// Advances the generator one step and returns the new state.
    pub fn next(&mut self) -> (r: u64)
        ensures
            final(self).0 == xorshift_step(old(self).0),
            r == final(self).0,
    {
        let mut x = self.0;
        x ^= x << 13u64;
        x ^= x >> 7u64;
        x ^= x << 17u64;
        self.0 = x;
        x
    }
}


/// `<[T]>::swap` exchanges the elements at two in-bounds positions (its
/// documentation: "Swaps two elements in the slice"; it panics when either
/// index is out of bounds, which `requires` rules out).
pub assume_specification<Elem>[ <[Elem]>::swap ](s: &mut [Elem], a: usize, b: usize)
    requires
        a < old(s)@.len(),
        b < old(s)@.len(),
    ensures
        final(s)@ == old(s)@.update(a as int, old(s)@[b as int]).update(b as int, old(s)@[a as int]),
;

/// `s` with the elements at `i` and `j` exchanged.
pub open spec fn swap_spec<T>(s: Seq<T>, i: int, j: int) -> Seq<T> {
    s.update(i, s[j]).update(j, s[i])
}

/// The Fisher-Yates passes for positions `i`, `i - 1`, ..., `1`: at position `i`
/// the generator steps and the element there is exchanged with the one at
/// `state % (i + 1)`. Returns the sequence and the generator state afterwards.
pub open spec fn shuffle_steps<T>(s: Seq<T>, state: u64, i: nat) -> (Seq<T>, u64)
    decreases i,
{
    if i == 0 {
        (s, state)
    } else {
        let x = xorshift_step(state);
        let j = ((#[verifier::truncate] (x as usize)) % ((i + 1) as usize)) as int;
        shuffle_steps(swap_spec(s, i as int, j), x, (i - 1) as nat)
    }
}

/// The result of shuffling `s` with a generator in state `state`: the
/// shuffled sequence and the final generator state.
pub open spec fn fisher_yates<T>(s: Seq<T>, state: u64) -> (Seq<T>, u64) {
    if s.len() == 0 {
        (s, state)
    } else {
        shuffle_steps(s, state, (s.len() - 1) as nat)
    }
}

/// Exchanging two in-bounds elements keeps the multiset of elements.
pub proof fn lemma_swap_is_permutation<T>(s: Seq<T>, i: int, j: int)
    requires
        0 <= i < s.len(),
        0 <= j < s.len(),
    ensures
        swap_spec(s, i, j).to_multiset() == s.to_multiset(),
        swap_spec(s, i, j).len() == s.len(),
{
    broadcast use {
        vstd::seq_lib::to_multiset_update,
        vstd::seq_lib::to_multiset_contains,
        vstd::multiset::group_multiset_axioms,
    };
    let m = s.to_multiset();
    let t = s.update(i, s[j]);
    assert(t[j] == s[j]);
    assert(m.count(s[i]) > 0) by {
        assert(s.contains(s[i]));
    }
    assert(t.to_multiset() == m.insert(s[j]).remove(s[i]));
    assert(swap_spec(s, i, j).to_multiset() == t.to_multiset().insert(s[i]).remove(s[j]));
    assert(m.insert(s[j]).remove(s[i]).insert(s[i]).remove(s[j]) =~= m);
}

/// The passes of `shuffle_steps` keep the length and the multiset of elements.
pub proof fn lemma_shuffle_steps_is_permutation<T>(s: Seq<T>, state: u64, i: nat)
    requires
        i < s.len() <= usize::MAX,
    ensures
        shuffle_steps(s, state, i).0.len() == s.len(),
        shuffle_steps(s, state, i).0.to_multiset() == s.to_multiset(),
    decreases i,
{
    if i > 0 {
        let x = xorshift_step(state);
        let j = ((#[verifier::truncate] (x as usize)) % ((i + 1) as usize)) as int;
        lemma_swap_is_permutation(s, i as int, j);
        lemma_shuffle_steps_is_permutation(swap_spec(s, i as int, j), x, (i - 1) as nat);
    }
}

/// The generator takes one step per pass of `shuffle_steps`.
pub proof fn lemma_shuffle_steps_state<T>(s: Seq<T>, state: u64, i: nat)
    ensures
        shuffle_steps(s, state, i).1 == xorshift_iter(state, i),
    decreases i,
{
    if i > 0 {
        let x = xorshift_step(state);
        let j = ((#[verifier::truncate] (x as usize)) % ((i + 1) as usize)) as int;
        lemma_shuffle_steps_state(swap_spec(s, i as int, j), x, (i - 1) as nat);
    }
}

/// Law: a shuffle is a permutation of its input: same length and same multiset
/// of elements, whatever the generator state; and the generator advances once
/// per element after the first.
pub proof fn lemma_shuffle_is_permutation<T>(s: Seq<T>, state: u64)
    requires
        s.len() <= usize::MAX,
    ensures
        fisher_yates(s, state).0.len() == s.len(),
        fisher_yates(s, state).0.to_multiset() == s.to_multiset(),
        s.len() > 0 ==> fisher_yates(s, state).1 == xorshift_iter(state, (s.len() - 1) as nat),
        s.len() == 0 ==> fisher_yates(s, state).1 == state,
{
    if s.len() > 0 {
        lemma_shuffle_steps_is_permutation(s, state, (s.len() - 1) as nat);
        lemma_shuffle_steps_state(s, state, (s.len() - 1) as nat);
    }
}

/// Shuffles `v` in place (Fisher-Yates from the last position down to the
/// second), drawing one generator step per position.
pub fn shuffle<T>(v: &mut [T], rng: &mut XorShift64)
    ensures
        (final(v)@, final(rng).0) == fisher_yates(old(v)@, old(rng).0),
{
    let n = v.len();
    if n == 0 {
        return;
    }
    let mut i: usize = n - 1;
    while i >= 1
        invariant
            1 <= n,
            i < n,
            v@.len() == n,
            fisher_yates(old(v)@, old(rng).0) == shuffle_steps(v@, rng.0, i as nat),
        decreases i,
    {
        let x = rng.next();
        let j = (#[verifier::truncate] (x as usize)) % (i + 1);
        v.swap(i, j);
        i -= 1;
    }
}

} // verus!
