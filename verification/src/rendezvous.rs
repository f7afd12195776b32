//! Rendezvous selection: pick one candidate name for a seed.
//!
//! Every candidate is scored against the seed with FNV-1a and the best score
//! wins. Indexing a list by `seed % len` would make the list length the
//! modulus, so adding one entry would reshuffle what every existing seed
//! picks; scoring by name means a newcomer only takes the seeds it actually
//! wins.

use vstd::prelude::*;
use vstd::utf8::encode_utf8;

use crate::strings::views;

verus! {

/// FNV-1a offset basis (64-bit).
pub const FNV_OFFSET: u64 = 0xcbf2_9ce4_8422_2325;

/// FNV-1a prime (64-bit).
pub const FNV_PRIME: u64 = 0x0000_0100_0000_01b3;

/// One FNV-1a round: xor the byte in, multiply by the prime modulo 2^64.
pub open spec fn fnv_step(hash: u64, byte: u8) -> u64 {
    vstd::wrapping::u64_specs::wrapping_mul(hash ^ (byte as u64), FNV_PRIME)
}

/// FNV-1a over `bytes`, starting from `hash`.
pub open spec fn fnv(bytes: Seq<u8>, hash: u64) -> u64
    decreases bytes.len(),
{
    if bytes.len() == 0 {
        hash
    } else {
        fnv_step(fnv(bytes.drop_last(), hash), bytes.last())
    }
}

/// FNV-1a, hand-rolled because the std hasher is explicitly not stable across
/// Rust releases and a backdrop that changes when the toolchain updates is
/// not reproducible.
pub fn fnv1a(bytes: &[u8], hash: u64) -> (r: u64)
    ensures
        r == fnv(bytes@, hash),
{
    let mut h = hash;
    let n = bytes.len();
    let mut i: usize = 0;
    while i < n
        invariant
            n == bytes@.len(),
            i <= n,
            h == fnv(bytes@.take(i as int), hash),
        decreases n - i,
    {
        proof {
            assert(bytes@.take(i + 1).drop_last() =~= bytes@.take(i as int));
        }
        h = (h ^ (bytes[i] as u64)).wrapping_mul(FNV_PRIME);
        i = i + 1;
    }
    proof {
        assert(bytes@.take(n as int) =~= bytes@);
    }
    h
}

/// The little-endian bytes of a seed.
pub open spec fn seed_bytes(seed: u64) -> Seq<u8> {
    seq![
        seed as u8,
        (seed >> 8u64) as u8,
        (seed >> 16u64) as u8,
        (seed >> 24u64) as u8,
        (seed >> 32u64) as u8,
        (seed >> 40u64) as u8,
        (seed >> 48u64) as u8,
        (seed >> 56u64) as u8,
    ]
}

/// The score of a candidate name against a seed: FNV-1a of the name's UTF-8
/// bytes, continuing from FNV-1a of the seed's little-endian bytes.
pub open spec fn affinity_spec(seed: u64, name: Seq<char>) -> u64 {
    fnv(encode_utf8(name), fnv(seed_bytes(seed), FNV_OFFSET))
}

/// Score a candidate name against a seed. Highest score wins.
pub fn affinity(seed: u64, name: &str) -> (r: u64)
    ensures
        r == affinity_spec(seed, name@),
{
    let bytes: [u8; 8] = [
        seed as u8,
        (seed >> 8u64) as u8,
        (seed >> 16u64) as u8,
        (seed >> 24u64) as u8,
        (seed >> 32u64) as u8,
        (seed >> 40u64) as u8,
        (seed >> 48u64) as u8,
        (seed >> 56u64) as u8,
    ];
    proof {
        assert(bytes@ =~= seed_bytes(seed));
    }
    let start = fnv1a(bytes.as_slice(), FNV_OFFSET);
    fnv1a(name.as_bytes(), start)
}

/// Lexicographic order on byte strings (the order `str` comparison uses).
pub open spec fn bytes_lt(a: Seq<u8>, b: Seq<u8>) -> bool
    decreases a.len(),
{
    if a.len() == 0 {
        b.len() > 0
    } else if b.len() == 0 {
        false
    } else if a[0] != b[0] {
        a[0] < b[0]
    } else {
        bytes_lt(a.drop_first(), b.drop_first())
    }
}

/// `bytes_lt` is a strict total order.
pub proof fn lemma_bytes_lt_total(a: Seq<u8>, b: Seq<u8>)
    ensures
        !(bytes_lt(a, b) && bytes_lt(b, a)),
        !bytes_lt(a, b) && !bytes_lt(b, a) ==> a == b,
    decreases a.len(),
{
    if a.len() > 0 && b.len() > 0 && a[0] == b[0] {
        lemma_bytes_lt_total(a.drop_first(), b.drop_first());
        if !bytes_lt(a, b) && !bytes_lt(b, a) {
            assert(a =~= seq![a[0]] + a.drop_first());
            assert(b =~= seq![b[0]] + b.drop_first());
        }
    } else if a.len() == 0 && b.len() == 0 {
        assert(a =~= b);
    }
}

/// `bytes_lt` is transitive.
pub proof fn lemma_bytes_lt_transitive(a: Seq<u8>, b: Seq<u8>, c: Seq<u8>)
    requires
        bytes_lt(a, b),
        bytes_lt(b, c),
    ensures
        bytes_lt(a, c),
    decreases a.len(),
{
    if a.len() > 0 && b.len() > 0 && c.len() > 0 && a[0] == b[0] && b[0] == c[0] {
        lemma_bytes_lt_transitive(a.drop_first(), b.drop_first(), c.drop_first());
    }
}

/// Byte-wise `a < b` on the UTF-8 forms of two strings.
pub fn str_lt(a: &str, b: &str) -> (r: bool)
    ensures
        r == bytes_lt(encode_utf8(a@), encode_utf8(b@)),
{
    let x = a.as_bytes();
    let y = b.as_bytes();
    let n = x.len();
    let m = y.len();
    let mut i: usize = 0;
    proof {
        assert(x@ == encode_utf8(a@));
        assert(y@ == encode_utf8(b@));
        assert(x@.skip(0) =~= x@);
        assert(y@.skip(0) =~= y@);
    }
    while i < n && i < m
        invariant
            n == x@.len(),
            m == y@.len(),
            i <= n,
            i <= m,
            x@ == encode_utf8(a@),
            y@ == encode_utf8(b@),
            bytes_lt(x@, y@) == bytes_lt(x@.skip(i as int), y@.skip(i as int)),
        decreases n - i,
    {
        if x[i] != y[i] {
            proof {
                assert(x@.skip(i as int).len() > 0);
                assert(y@.skip(i as int).len() > 0);
                assert(x@.skip(i as int)[0] == x[i as int]);
                assert(y@.skip(i as int)[0] == y[i as int]);
                assert(bytes_lt(x@.skip(i as int), y@.skip(i as int)) == (x[i as int] < y[i as int]));
            }
            return x[i] < y[i];
        }
        proof {
            assert(x@.skip(i as int).drop_first() =~= x@.skip(i + 1));
            assert(y@.skip(i as int).drop_first() =~= y@.skip(i + 1));
        }
        i = i + 1;
    }
    proof {
        assert(x@.skip(i as int).len() == 0 || y@.skip(i as int).len() == 0);
    }
    i < m
}

/// Strict order of candidates for one seed: by score, ties broken by name.
pub open spec fn key_lt(seed: u64, a: Seq<char>, b: Seq<char>) -> bool {
    affinity_spec(seed, a) < affinity_spec(seed, b) || (affinity_spec(seed, a) == affinity_spec(
        seed,
        b,
    ) && bytes_lt(encode_utf8(a), encode_utf8(b)))
}

/// The winner of a rendezvous draw: score every candidate against the seed
/// and keep the best, a later candidate replacing an earlier one unless it
/// ranks strictly lower.
pub open spec fn pick(seed: u64, names: Seq<Seq<char>>) -> Option<Seq<char>>
    decreases names.len(),
{
    if names.len() == 0 {
        None
    } else {
        match pick(seed, names.drop_last()) {
            None => Some(names.last()),
            Some(best) => if key_lt(seed, names.last(), best) {
                Some(best)
            } else {
                Some(names.last())
            },
        }
    }
}

/// Rendezvous selection: score every candidate against the seed and take the
/// best. Scoring by name means a newcomer only takes the seeds it actually
/// wins, leaving the rest of the table alone. Ties break on the name so the
/// result is total.
pub fn pick_by_affinity<'a>(seed: u64, names: &[&'a str]) -> (r: Option<&'a str>)
    ensures
        r is Some <==> names@.len() > 0,
        r matches Some(name) ==> pick(seed, views(names@)) == Some(name@),
        r is None ==> pick(seed, views(names@)) is None,
{
    let n = names.len();
    let mut best: Option<&'a str> = None;
    let mut best_score: u64 = 0;
    let mut i: usize = 0;
    while i < n
        invariant
            n == names@.len(),
            i <= n,
            best is Some <==> i > 0,
            best matches Some(b) ==> pick(seed, views(names@).take(i as int)) == Some(b@)
                && best_score == affinity_spec(seed, b@),
            best is None ==> pick(seed, views(names@).take(i as int)) is None,
        decreases n - i,
    {
        let name = names[i];
        let score = affinity(seed, name);
        proof {
            assert(views(names@).take(i + 1).drop_last() =~= views(names@).take(i as int));
            assert(views(names@).take(i + 1).last() == name@);
        }
        match best {
            None => {
                best = Some(name);
                best_score = score;
            },
            Some(b) => {
                let lower = score < best_score || (score == best_score && str_lt(name, b));
                if !lower {
                    best = Some(name);
                    best_score = score;
                }
            },
        }
        i = i + 1;
    }
    proof {
        assert(views(names@).take(n as int) =~= views(names@));
    }
    best
}

/// The candidate order is a strict total order: two names that neither rank
/// below the other are the same name.
pub proof fn lemma_key_total(seed: u64, a: Seq<char>, b: Seq<char>)
    ensures
        !(key_lt(seed, a, b) && key_lt(seed, b, a)),
        !key_lt(seed, a, b) && !key_lt(seed, b, a) ==> a == b,
{
    lemma_bytes_lt_total(encode_utf8(a), encode_utf8(b));
    if !key_lt(seed, a, b) && !key_lt(seed, b, a) {
        vstd::utf8::encode_utf8_decode_utf8(a);
        vstd::utf8::encode_utf8_decode_utf8(b);
    }
}

/// The candidate order is transitive.
pub proof fn lemma_key_transitive(seed: u64, a: Seq<char>, b: Seq<char>, c: Seq<char>)
    requires
        key_lt(seed, a, b),
        key_lt(seed, b, c),
    ensures
        key_lt(seed, a, c),
{
    if affinity_spec(seed, a) == affinity_spec(seed, b) && affinity_spec(seed, b) == affinity_spec(
        seed,
        c,
    ) {
        lemma_bytes_lt_transitive(encode_utf8(a), encode_utf8(b), encode_utf8(c));
    }
}

/// The pick is one of the candidates, and no candidate ranks above it.
pub proof fn lemma_pick_is_best(seed: u64, names: Seq<Seq<char>>)
    ensures
        pick(seed, names) is Some <==> names.len() > 0,
        pick(seed, names) matches Some(best) ==> names.contains(best) && forall|i: int|
            0 <= i < names.len() ==> !key_lt(seed, best, #[trigger] names[i]),
    decreases names.len(),
{
    if names.len() > 0 {
        let rest = names.drop_last();
        let last = names.last();
        lemma_pick_is_best(seed, rest);
        match pick(seed, rest) {
            None => {
                assert(names[names.len() - 1] == last);
                assert forall|i: int| 0 <= i < names.len() implies !key_lt(
                    seed,
                    last,
                    #[trigger] names[i],
                ) by {
                    assert(i == names.len() - 1);
                    lemma_key_total(seed, last, last);
                }
            },
            Some(best) => {
                let j = choose|j: int| 0 <= j < rest.len() && rest[j] == best;
                assert(names[j] == best);
                if key_lt(seed, last, best) {
                    assert forall|i: int| 0 <= i < names.len() implies !key_lt(
                        seed,
                        best,
                        #[trigger] names[i],
                    ) by {
                        if i < rest.len() {
                            assert(names[i] == rest[i]);
                        } else {
                            lemma_key_total(seed, last, best);
                        }
                    }
                } else {
                    assert(names[names.len() - 1] == last);
                    assert forall|i: int| 0 <= i < names.len() implies !key_lt(
                        seed,
                        last,
                        #[trigger] names[i],
                    ) by {
                        if i < rest.len() {
                            assert(names[i] == rest[i]);
                            assert(!key_lt(seed, best, rest[i]));
                            if key_lt(seed, last, rest[i]) {
                                lemma_key_total(seed, best, rest[i]);
                                if key_lt(seed, rest[i], best) {
                                    lemma_key_transitive(seed, last, rest[i], best);
                                } else {
                                    assert(rest[i] == best);
                                }
                            }
                        } else {
                            lemma_key_total(seed, last, last);
                        }
                    }
                }
            },
        }
    }
}

/// A name that is a candidate and ranks at least as high as every candidate is
/// the pick: the winner does not depend on the order of the candidates.
pub proof fn lemma_pick_unique(seed: u64, names: Seq<Seq<char>>, best: Seq<char>)
    requires
        names.contains(best),
        forall|i: int| 0 <= i < names.len() ==> !key_lt(seed, best, #[trigger] names[i]),
    ensures
        pick(seed, names) == Some(best),
{
    lemma_pick_is_best(seed, names);
    let other = pick(seed, names)->0;
    let j = choose|j: int| 0 <= j < names.len() && names[j] == best;
    let k = choose|k: int| 0 <= k < names.len() && names[k] == other;
    assert(!key_lt(seed, other, names[j]));
    assert(!key_lt(seed, best, names[k]));
    lemma_key_total(seed, best, other);
}

/// Growing the pool only moves the seeds the newcomer wins: after inserting a
/// candidate anywhere, the pick is either the newcomer or the old pick.
pub proof fn lemma_newcomer_only_takes_its_wins(
    seed: u64,
    names: Seq<Seq<char>>,
    newcomer: Seq<char>,
    at: int,
)
    requires
        0 <= at <= names.len(),
    ensures
        pick(seed, names.take(at) + seq![newcomer] + names.skip(at)) == Some(newcomer) || pick(
            seed,
            names.take(at) + seq![newcomer] + names.skip(at),
        ) == pick(seed, names),
{
    let grown = names.take(at) + seq![newcomer] + names.skip(at);
    lemma_pick_is_best(seed, grown);
    lemma_pick_is_best(seed, names);
    let winner = pick(seed, grown)->0;
    if winner != newcomer {
        let j = choose|j: int| 0 <= j < grown.len() && grown[j] == winner;
        let jj = if j < at { j } else { j - 1 };
        assert(j != at);
        assert(names[jj] == winner);
        assert forall|i: int| 0 <= i < names.len() implies !key_lt(
            seed,
            winner,
            #[trigger] names[i],
        ) by {
            let ii = if i < at { i } else { i + 1 };
            assert(grown[ii] == names[i]);
        }
        lemma_pick_unique(seed, names, winner);
    }
}

} // verus!
