use vstd::prelude::*;
use crate::sample::random_in;
use crate::text::{chars_of, contains_text, has_sub, occurs_at, string_of, texts};
use rand::seq::SliceRandom;

verus! {

/// Relies on `rand::seq::SliceRandom::choose_multiple` with the thread's generator: it
/// takes `min(amount, pool.len())` distinct positions of the pool, uniformly at random,
/// and yields the items at those positions.
#[verifier::external_body]
fn choose_multiple(pool: &Vec<String>, amount: usize) -> (r: Vec<String>)
    ensures
        r@.len() == if amount < pool@.len() { amount as int } else { pool@.len() as int },
        exists|idx: Seq<int>| #[trigger] drawn_from(idx, texts(r@), texts(pool@)),
{
    pool.choose_multiple(&mut rand::thread_rng(), amount).cloned().collect()
}

/// `picked[k]` is `pool[idx[k]]` for each `k`, and no position of the pool is taken twice.
pub open spec fn drawn_from(idx: Seq<int>, picked: Seq<Seq<char>>, pool: Seq<Seq<char>>) -> bool {
    &&& idx.len() == picked.len()
    &&& idx.no_duplicates()
    &&& forall|k: int| 0 <= k < idx.len() ==> 0 <= #[trigger] idx[k] < pool.len() && picked[k] == pool[idx[k]]
}

/// Chooses `num_patterns` distinct patterns of the pool, uniformly at random. Asking for
/// more than the pool holds gives the whole pool, in some order.
pub fn select_spike_patterns(pool: &Vec<String>, num_patterns: usize) -> (r: Vec<String>)
    ensures
        r@.len() == if num_patterns < pool@.len() { num_patterns as int } else { pool@.len() as int },
        exists|idx: Seq<int>| #[trigger] drawn_from(idx, texts(r@), texts(pool@)),
{
    choose_multiple(pool, num_patterns)
}

/// `p` spliced into `s` before position `i`.
pub open spec fn splice(s: Seq<char>, i: int, p: Seq<char>) -> Seq<char> {
    s.take(i) + p + s.skip(i)
}

/// The total length of a list of texts.
pub open spec fn total_len(pats: Seq<Seq<char>>) -> nat
    decreases pats.len(),
{
    if pats.len() == 0 {
        0
    } else {
        total_len(pats.drop_last()) + pats.last().len()
    }
}

/// `s` with `pats[k]` spliced in at `pos[k]`, one after the other, each position taken in
/// the text as the earlier insertions left it.
pub open spec fn splice_all(s: Seq<char>, pats: Seq<Seq<char>>, pos: Seq<int>) -> Seq<char>
    decreases pats.len(),
{
    if pats.len() == 0 || pos.len() == 0 {
        s
    } else {
        splice(splice_all(s, pats.drop_last(), pos.drop_last()), pos.last(), pats.last())
    }
}

/// Each position lies within the text as the earlier insertions left it.
pub open spec fn positions_fit(n: nat, pats: Seq<Seq<char>>, pos: Seq<int>) -> bool {
    &&& pos.len() == pats.len()
    &&& forall|k: int| 0 <= k < pos.len() ==> 0 <= #[trigger] pos[k] <= n + total_len(pats.take(k))
}

proof fn lemma_splice_all_len(s: Seq<char>, pats: Seq<Seq<char>>, pos: Seq<int>)
    requires
        positions_fit(s.len(), pats, pos),
    ensures
        splice_all(s, pats, pos).len() == s.len() + total_len(pats),
    decreases pats.len(),
{
    if pats.len() > 0 {
        let k = pats.len() - 1;
        assert(pats.take(k) =~= pats.drop_last());
        assert forall|j: int| 0 <= j < pos.drop_last().len() implies 0 <= #[trigger] pos.drop_last()[j]
            <= s.len() + total_len(pats.drop_last().take(j)) by {
            assert(pats.drop_last().take(j) =~= pats.take(j));
            assert(pos.drop_last()[j] == pos[j]);
        }
        lemma_splice_all_len(s, pats.drop_last(), pos.drop_last());
        assert(pos[k] <= s.len() + total_len(pats.take(k)));
    }
}

/// After splicing, the last pattern spliced in stands intact at its position.
pub proof fn lemma_last_insertion_present(s: Seq<char>, pats: Seq<Seq<char>>, pos: Seq<int>)
    requires
        positions_fit(s.len(), pats, pos),
        pats.len() > 0,
    ensures
        occurs_at(splice_all(s, pats, pos), pats.last(), pos.last()),
        has_sub(splice_all(s, pats, pos), pats.last()),
{
    let k = pats.len() - 1;
    let before = splice_all(s, pats.drop_last(), pos.drop_last());
    assert forall|j: int| 0 <= j < pos.drop_last().len() implies 0 <= #[trigger] pos.drop_last()[j]
        <= s.len() + total_len(pats.drop_last().take(j)) by {
        assert(pats.drop_last().take(j) =~= pats.take(j));
        assert(pos.drop_last()[j] == pos[j]);
    }
    lemma_splice_all_len(s, pats.drop_last(), pos.drop_last());
    assert(pats.take(k) =~= pats.drop_last());
    assert(pos[k] <= before.len());
    let after = splice(before, pos.last(), pats.last());
    assert(after.subrange(pos.last(), pos.last() + pats.last().len()) =~= pats.last());
}

/// `s` with `p` spliced in before character `i`.
fn splice_exec(s: &Vec<char>, i: usize, p: &Vec<char>) -> (r: Vec<char>)
    requires
        i <= s.len(),
        s.len() + p.len() <= usize::MAX,
    ensures
        r@ == splice(s@, i as int, p@),
{
    let mut r: Vec<char> = Vec::new();
    let mut k: usize = 0;
    while k < i
        invariant
            k <= i <= s.len(),
            r@ == s@.take(k as int),
        decreases i - k,
    {
        r.push(s[k]);
        k += 1;
        assert(r@ =~= s@.take(k as int));
    }
    let mut k: usize = 0;
    while k < p.len()
        invariant
            i <= s.len(),
            k <= p.len(),
            r@ == s@.take(i as int) + p@.take(k as int),
        decreases p.len() - k,
    {
        r.push(p[k]);
        k += 1;
        assert(r@ =~= s@.take(i as int) + p@.take(k as int));
    }
    let mut k: usize = i;
    while k < s.len()
        invariant
            i <= k <= s.len(),
            r@ == s@.take(i as int) + p@ + s@.subrange(i as int, k as int),
        decreases s.len() - k,
    {
        r.push(s[k]);
        k += 1;
        assert(r@ =~= s@.take(i as int) + p@ + s@.subrange(i as int, k as int));
    }
    assert(p@.take(p@.len() as int) =~= p@);
    assert(s@.subrange(i as int, s@.len() as int) =~= s@.skip(i as int));
    r
}

/// Splices each pattern into `sequence` at the given position, one after the other.
pub fn insert_at_positions(sequence: &mut String, patterns: &Vec<String>, positions: &Vec<usize>)
    requires
        positions_fit(old(sequence)@.len(), texts(patterns@), positions@.map_values(|p: usize| p as int)),
        old(sequence)@.len() + total_len(texts(patterns@)) <= usize::MAX,
    ensures
        final(sequence)@ == splice_all(
            old(sequence)@,
            texts(patterns@),
            positions@.map_values(|p: usize| p as int),
        ),
{
    let ghost s0 = sequence@;
    let ghost pats = texts(patterns@);
    let ghost pos = positions@.map_values(|p: usize| p as int);
    let mut cur = chars_of(sequence.as_str());
    let mut k: usize = 0;
    while k < patterns.len()
        invariant
            pats == texts(patterns@),
            pos == positions@.map_values(|p: usize| p as int),
            positions_fit(s0.len(), pats, pos),
            s0.len() + total_len(pats) <= usize::MAX,
            k <= patterns.len(),
            cur@ == splice_all(s0, pats.take(k as int), pos.take(k as int)),
            cur@.len() == s0.len() + total_len(pats.take(k as int)),
        decreases patterns.len() - k,
    {
        let p = chars_of(patterns[k].as_str());
        proof {
            lemma_total_prefix(pats, k as int);
            assert(pos[k as int] == positions@[k as int] as int);
        }
        cur = splice_exec(&cur, positions[k], &p);
        proof {
            assert(pats.take(k + 1).drop_last() =~= pats.take(k as int));
            assert(pos.take(k + 1).drop_last() =~= pos.take(k as int));
            assert(pats.take(k + 1).last() == pats[k as int]);
        }
        k += 1;
    }
    assert(pats.take(k as int) =~= pats);
    assert(pos.take(k as int) =~= pos);
    *sequence = string_of(&cur);
}

/// Splices each pattern into `sequence` in turn, at a position drawn uniformly from the
/// start to the end of the sequence as the earlier insertions left it.
pub fn insert_patterns(sequence: &mut String, patterns: &Vec<String>)
    requires
        old(sequence)@.len() + total_len(texts(patterns@)) <= usize::MAX,
    ensures
        exists|pos: Seq<int>|
            #[trigger] positions_fit(old(sequence)@.len(), texts(patterns@), pos) && final(sequence)@
                == splice_all(old(sequence)@, texts(patterns@), pos),
        final(sequence)@.len() == old(sequence)@.len() + total_len(texts(patterns@)),
        patterns@.len() > 0 ==> has_sub(final(sequence)@, patterns@.last()@),
{
    let ghost pats = texts(patterns@);
    let ghost n = sequence@.len();
    let mut positions: Vec<usize> = Vec::new();
    let mut len: usize = sequence.unicode_len();
    let mut k: usize = 0;
    while k < patterns.len()
        invariant
            pats == texts(patterns@),
            n + total_len(pats) <= usize::MAX,
            k <= patterns.len(),
            positions@.len() == k,
            len == n + total_len(pats.take(k as int)),
            forall|j: int| 0 <= j < k ==> #[trigger] positions@[j] <= n + total_len(pats.take(j)),
        decreases patterns.len() - k,
    {
        proof {
            lemma_total_prefix(pats, k as int);
        }
        let p = random_in(0, len);
        positions.push(p);
        len = len + patterns[k].unicode_len();
        k += 1;
    }
    let ghost pos = positions@.map_values(|p: usize| p as int);
    assert(pats.take(k as int) =~= pats);
    assert(positions_fit(n, pats, pos));
    proof {
        lemma_splice_all_len(sequence@, pats, pos);
    }
    insert_at_positions(sequence, patterns, &positions);
    proof {
        if pats.len() > 0 {
            lemma_last_insertion_present(old(sequence)@, pats, pos);
            assert(pats.last() == patterns@.last()@);
        }
    }
}

/// Adds one to the count of each pattern that occurs in `sequence`: a count of the
/// sequences where a pattern is present, not of its occurrences.
pub fn tally_presence(sequence: &str, patterns: &Vec<String>, counts: &mut Vec<usize>)
    requires
        old(counts)@.len() == patterns@.len(),
        forall|j: int| 0 <= j < old(counts)@.len() ==> #[trigger] old(counts)@[j] < usize::MAX,
    ensures
        final(counts)@.len() == old(counts)@.len(),
        forall|j: int|
            0 <= j < final(counts)@.len() ==> #[trigger] final(counts)@[j] == old(counts)@[j] + if has_sub(
                sequence@,
                patterns@[j]@,
            ) {
                1int
            } else {
                0int
            },
{
    let s = chars_of(sequence);
    let mut j: usize = 0;
    while j < patterns.len()
        invariant
            s@ == sequence@,
            counts@.len() == patterns@.len(),
            old(counts)@.len() == patterns@.len(),
            j <= patterns.len(),
            forall|i: int| 0 <= i < old(counts)@.len() ==> #[trigger] old(counts)@[i] < usize::MAX,
            forall|i: int| j <= i < counts@.len() ==> #[trigger] counts@[i] == old(counts)@[i],
            forall|i: int|
                0 <= i < j ==> #[trigger] counts@[i] == old(counts)@[i] + if has_sub(
                    sequence@,
                    patterns@[i]@,
                ) {
                    1int
                } else {
                    0int
                },
        decreases patterns.len() - j,
    {
        let p = chars_of(patterns[j].as_str());
        if contains_text(&s, &p) {
            let c = counts[j] + 1;
            counts.set(j, c);
        }
        j += 1;
    }
}

proof fn lemma_total_prefix(pats: Seq<Seq<char>>, k: int)
    requires
        0 <= k < pats.len(),
    ensures
        total_len(pats.take(k + 1)) == total_len(pats.take(k)) + pats[k].len(),
        total_len(pats.take(k + 1)) <= total_len(pats),
{
    assert(pats.take(k + 1).drop_last() =~= pats.take(k));
    lemma_total_mono(pats, k + 1);
}

/// The total length of a prefix of a list is at most that of the whole list.
pub proof fn lemma_total_mono(pats: Seq<Seq<char>>, k: int)
    requires
        0 <= k <= pats.len(),
    ensures
        total_len(pats.take(k)) <= total_len(pats),
    decreases pats.len(),
{
    if k < pats.len() {
        assert(pats.take(k) =~= pats.drop_last().take(k));
        lemma_total_mono(pats.drop_last(), k);
    } else {
        assert(pats.take(k) =~= pats);
    }
}

} // verus!
