//! Order-insensitive hashing for the hash tries: the hash of a map or set is a
//! function of its contents alone, however the trie happens to list them.
use vstd::prelude::*;
use vstd::bytes::{spec_u64_to_le_bytes, u64_to_le_bytes};
use vstd::arithmetic::div_mod::{lemma_add_mod_noop, lemma_small_mod};
use vstd::set_lib::lemma_set_empty_equivalency_len;
use std::collections::hash_map::DefaultHasher;
use std::hash::Hasher;
use vstd::std_specs::hash::DefaultHasherAdditionalSpecFns;
use crate::backing::{enumerates_set, TrieKey};

verus! {

/// The modulus of 64-bit wrapping arithmetic.
pub open spec fn word_modulus() -> int {
    0x1_0000_0000_0000_0000
}

/// The 64-bit word that holds `x` in two's complement.
pub open spec fn word(x: i64) -> u64 {
    if x >= 0 {
        x as u64
    } else {
        (x + word_modulus()) as u64
    }
}

/// The 64-bit word that holds `x` in two's complement.
pub fn to_word(x: i64) -> (r: u64)
    ensures
        r == word(x),
{
    if x >= 0 {
        x as u64
    } else {
        (x as i128 + 0x1_0000_0000_0000_0000i128) as u64
    }
}

/// The sum of `f` over the elements of `s`.
pub open spec fn seq_sum<A>(s: Seq<A>, f: spec_fn(A) -> int) -> int
    decreases s.len(),
{
    if s.len() == 0 {
        0
    } else {
        seq_sum(s.drop_last(), f) + f(s.last())
    }
}

/// The sum of `f` over the members of a finite set.
pub open spec fn set_sum<A>(s: Set<A>, f: spec_fn(A) -> int) -> int
    decreases s.len(),
    when s.finite()
    via set_sum_decreases::<A>
{
    if s.len() == 0 {
        0
    } else {
        let x = s.choose();
        f(x) + set_sum(s.remove(x), f)
    }
}

#[via_fn]
proof fn set_sum_decreases<A>(s: Set<A>, f: spec_fn(A) -> int) {
    lemma_set_empty_equivalency_len(s);
    if s.len() != 0 {
        assert(s.contains(s.choose()));
    }
}

/// Taking one element out of a sequence takes its term out of the sum.
proof fn lemma_seq_sum_remove<A>(s: Seq<A>, j: int, f: spec_fn(A) -> int)
    requires
        0 <= j < s.len(),
    ensures
        seq_sum(s, f) == f(s[j]) + seq_sum(s.remove(j), f),
    decreases s.len(),
{
    if j == s.len() - 1 {
        assert(s.remove(j) =~= s.drop_last());
    } else {
        lemma_seq_sum_remove(s.drop_last(), j, f);
        assert(s.remove(j).drop_last() =~= s.drop_last().remove(j));
        assert(s.remove(j).last() == s.last());
    }
}

/// Summing over any listing of a finite set, each member once, gives the set's sum.
pub proof fn lemma_listing_sum<A>(ks: Seq<A>, s: Set<A>, f: spec_fn(A) -> int)
    requires
        s.finite(),
        enumerates_set(ks, s),
    ensures
        seq_sum(ks, f) == set_sum(s, f),
    decreases ks.len(),
{
    lemma_set_empty_equivalency_len(s);
    if s.len() == 0 {
    } else {
        let x = s.choose();
        assert(s.contains(x));
        let j = choose|j: int| 0 <= j < ks.len() && ks[j] == x;
        let rest = ks.remove(j);
        let smaller = s.remove(x);
        assert forall|i: int| 0 <= i < rest.len() implies #[trigger] smaller.contains(rest[i]) by {
            if i < j {
                assert(rest[i] == ks[i]);
            } else {
                assert(rest[i] == ks[i + 1]);
            }
        }
        assert forall|a: int, b: int| 0 <= a < b < rest.len() implies rest[a] != rest[b] by {
            let a2 = if a < j { a } else { a + 1 };
            let b2 = if b < j { b } else { b + 1 };
            assert(rest[a] == ks[a2]);
            assert(rest[b] == ks[b2]);
        }
        assert forall|k: A| #[trigger] smaller.contains(k) implies exists|i: int| 0 <= i < rest.len() && rest[i] == k by {
            let i = choose|i: int| 0 <= i < ks.len() && ks[i] == k;
            if i < j {
                assert(rest[i] == k);
            } else {
                assert(i != j);
                assert(rest[i - 1] == k);
            }
        }
        lemma_seq_sum_remove(ks, j, f);
        lemma_listing_sum(rest, smaller, f);
    }
}


/// The hash of a finite set of keys: its size, then the wrapped sum of its
/// members' mixed hashes.
pub open spec fn unordered_hash(len: nat, sum: int) -> u64 {
    DefaultHasher::spec_finish(
        seq![spec_u64_to_le_bytes(len as u64), spec_u64_to_le_bytes((sum % word_modulus()) as u64)],
    )
}

/// The byte writes of `words`, one word each.
pub open spec fn word_writes(words: Seq<u64>) -> Seq<Seq<u8>> {
    words.map_values(|w: u64| spec_u64_to_le_bytes(w))
}

/// Mixes the hashes in `words` into one.
pub fn mix(words: &Vec<u64>) -> (r: u64)
    ensures
        r == DefaultHasher::spec_finish(word_writes(words@)),
{
    let mut state = DefaultHasher::new();
    let mut i: usize = 0;
    while i < words.len()
        invariant
            0 <= i <= words.len(),
            state@ == word_writes(words@).subrange(0, i as int),
        decreases words.len() - i,
    {
        let bytes = u64_to_le_bytes(words[i]);
        state.write(bytes.as_slice());
        i = i + 1;
        assert(state@ =~= word_writes(words@).subrange(0, i as int));
    }
    assert(word_writes(words@).subrange(0, i as int) =~= word_writes(words@));
    state.finish()
}

/// Adds `code` to a running sum kept modulo 2^64.
pub fn add_wrapped(acc: u64, code: u64) -> (r: u64)
    ensures
        r as int == (acc as int + code as int) % word_modulus(),
{
    ((acc as u128 + code as u128) % 0x1_0000_0000_0000_0000u128) as u64
}

/// Adding to a sum kept modulo 2^64 keeps it the full sum modulo 2^64.
proof fn lemma_wrapped_step(total: int, acc: int, code: int)
    requires
        acc == total % word_modulus(),
        0 <= code < word_modulus(),
    ensures
        (acc + code) % word_modulus() == (total + code) % word_modulus(),
{
    lemma_add_mod_noop(total, code, word_modulus());
    lemma_small_mod(code as nat, word_modulus() as nat);
}

/// The wrapped sum of `f` over a finite set of keys, from a listing of the keys,
/// each once in any order, and the value of `f` at each; the order does not
/// change the result.
pub(crate) fn sum_listing(
    keys: &Vec<TrieKey>,
    codes: &Vec<u64>,
    Ghost(s): Ghost<Set<TrieKey>>,
    Ghost(f): Ghost<spec_fn(TrieKey) -> int>,
) -> (r: u64)
    requires
        s.finite(),
        enumerates_set(keys@, s),
        codes@.len() == keys@.len(),
        forall|i: int| 0 <= i < keys@.len() ==> codes@[i] as int == f(#[trigger] keys@[i]),
    ensures
        r as int == set_sum(s, f) % word_modulus(),
{
    let mut acc: u64 = 0;
    let mut i: usize = 0;
    while i < keys.len()
        invariant
            0 <= i <= keys.len(),
            codes@.len() == keys@.len(),
            forall|j: int| 0 <= j < keys@.len() ==> codes@[j] as int == f(#[trigger] keys@[j]),
            acc as int == seq_sum(keys@.subrange(0, i as int), f) % word_modulus(),
        decreases keys.len() - i,
    {
        let code = codes[i];
        assert(code as int == f(keys@[i as int]));
        assert(keys@.subrange(0, i + 1).drop_last() =~= keys@.subrange(0, i as int));
        assert(seq_sum(keys@.subrange(0, i + 1), f) == seq_sum(keys@.subrange(0, i as int), f) + f(keys@[i as int]));
        proof {
            lemma_wrapped_step(seq_sum(keys@.subrange(0, i as int), f), acc as int, code as int);
        }
        acc = add_wrapped(acc, code);
        i = i + 1;
    }
    assert(keys@.subrange(0, i as int) =~= keys@);
    proof {
        lemma_listing_sum(keys@, s, f);
    }
    acc
}

/// Hashes a size and a wrapped sum of mixed hashes into one.
pub fn hash_size_and_sum(len: usize, sum: u64) -> (r: u64)
    ensures
        forall|total: int| sum as int == total % word_modulus() ==> #[trigger] unordered_hash(len as nat, total) == r,
{
    let total = vec![len as u64, sum];
    let r = mix(&total);
    assert forall|t: int| sum as int == t % word_modulus() implies #[trigger] unordered_hash(len as nat, t) == r by {
        assert(word_writes(total@) =~= seq![spec_u64_to_le_bytes(len as u64), spec_u64_to_le_bytes((t % word_modulus()) as u64)]);
    }
    r
}

} // verus!
