use vstd::prelude::*;
use crate::ambiguity::is_base;
use crate::matcher::{all_plain, any_finds, any_occurs, ForbiddenSet};
use crate::text::string_of;
use rand::Rng;

verus! {

/// Relies on `rand::Rng::gen_range` over the inclusive range `lo..=hi` of the thread's
/// generator: a value in that range.
#[verifier::external_body]
pub(crate) fn random_in(lo: usize, hi: usize) -> (r: usize)
    requires
        lo <= hi,
    ensures
        lo <= r <= hi,
{
    rand::thread_rng().gen_range(lo..=hi)
}

/// The sequence alphabet, in the order in which draws index it.
pub open spec fn base_at(k: int) -> char {
    if k == 0 {
        'A'
    } else if k == 1 {
        'C'
    } else if k == 2 {
        'T'
    } else {
        'G'
    }
}

/// A quality character: printable ASCII, from `!` to `~`.
pub open spec fn is_quality_char(c: char) -> bool {
    33 <= c as u32 <= 126
}

/// Every character of `s` is a base.
pub open spec fn all_bases(s: Seq<char>) -> bool {
    forall|i: int| 0 <= i < s.len() ==> is_base(#[trigger] s[i])
}

/// Every character of `s` is a quality character.
pub open spec fn all_quality(s: Seq<char>) -> bool {
    forall|i: int| 0 <= i < s.len() ==> is_quality_char(#[trigger] s[i])
}

/// The sequence that a list of draws spells: draw `k` picks base `k` of `A, C, T, G`.
pub fn bases_from_draws(draws: &Vec<usize>) -> (r: String)
    requires
        forall|i: int| 0 <= i < draws.len() ==> #[trigger] draws@[i] < 4,
    ensures
        r@ == draws@.map_values(|k: usize| base_at(k as int)),
        all_bases(r@),
{
    let alphabet: [char; 4] = ['A', 'C', 'T', 'G'];
    let mut v: Vec<char> = Vec::new();
    let mut i: usize = 0;
    while i < draws.len()
        invariant
            i <= draws.len(),
            alphabet@ == seq!['A', 'C', 'T', 'G'],
            forall|j: int| 0 <= j < draws.len() ==> #[trigger] draws@[j] < 4,
            v@ == draws@.take(i as int).map_values(|k: usize| base_at(k as int)),
        decreases draws.len() - i,
    {
        v.push(alphabet[draws[i]]);
        i += 1;
        assert(v@ =~= draws@.take(i as int).map_values(|k: usize| base_at(k as int)));
    }
    assert(draws@.take(i as int) =~= draws@);
    string_of(&v)
}

/// The quality line that a list of draws spells: draw `k` is the character with code `33 + k`.
pub fn quality_from_draws(draws: &Vec<usize>) -> (r: String)
    requires
        forall|i: int| 0 <= i < draws.len() ==> #[trigger] draws@[i] < 94,
    ensures
        r@.len() == draws@.len(),
        forall|i: int| 0 <= i < draws.len() ==> #[trigger] r@[i] as u32 == 33 + draws@[i],
        all_quality(r@),
{
    let mut v: Vec<char> = Vec::new();
    let mut i: usize = 0;
    while i < draws.len()
        invariant
            i <= draws.len(),
            forall|j: int| 0 <= j < draws.len() ==> #[trigger] draws@[j] < 94,
            v@.len() == i,
            forall|j: int| 0 <= j < i ==> #[trigger] v@[j] as u32 == 33 + draws@[j],
        decreases draws.len() - i,
    {
        let b: u8 = (33 + draws[i]) as u8;
        v.push(b as char);
        i += 1;
    }
    string_of(&v)
}

/// `n` draws, each in `0..=hi`.
fn draw_many(n: usize, hi: usize) -> (r: Vec<usize>)
    ensures
        r@.len() == n,
        forall|i: int| 0 <= i < n ==> #[trigger] r@[i] <= hi,
{
    let mut r: Vec<usize> = Vec::new();
    let mut i: usize = 0;
    while i < n
        invariant
            i <= n,
            r@.len() == i,
            forall|j: int| 0 <= j < i ==> #[trigger] r@[j] <= hi,
        decreases n - i,
    {
        r.push(random_in(0, hi));
        i += 1;
    }
    r
}

/// The decision of rejection sampling: a candidate is kept exactly when no forbidden
/// pattern matches it.
pub fn accept_candidate(candidate: String, forbidden: &ForbiddenSet) -> (r: Option<String>)
    ensures
        r is Some <==> !any_finds(forbidden@, candidate@),
        r matches Some(s) ==> s@ == candidate@ && (all_plain(forbidden@) ==> !any_occurs(
            forbidden@,
            s@,
        )),
{
    if forbidden.matches_any(candidate.as_str()) {
        None
    } else {
        Some(candidate)
    }
}

/// Draws a length in `min_len..=max_len`, then draws sequences of that length until one
/// is free of every forbidden pattern, for at most `max_attempts` draws. `None` when no
/// draw was free.
pub fn generate_sequence(min_len: usize, max_len: usize, forbidden: &ForbiddenSet, max_attempts: usize) -> (r: Option<String>)
    requires
        min_len <= max_len,
    ensures
        r matches Some(s) ==> min_len <= s@.len() <= max_len && all_bases(s@) && !any_finds(forbidden@, s@)
            && (all_plain(forbidden@) ==> !any_occurs(forbidden@, s@)),
        max_attempts == 0 ==> r is None,
        forbidden@.len() == 0 && max_attempts > 0 ==> r is Some,
{
    let length = random_in(min_len, max_len);
    let mut attempt: usize = 0;
    while attempt < max_attempts
        invariant
            min_len <= length <= max_len,
            forbidden@.len() == 0 ==> attempt == 0,
        decreases max_attempts - attempt,
    {
        let draws = draw_many(length, 3);
        let candidate = bases_from_draws(&draws);
        let ghost c = candidate@;
        if let Some(s) = accept_candidate(candidate, forbidden) {
            assert(s@ == c);
            return Some(s);
        }
        attempt += 1;
    }
    None
}

/// Draws quality lines of `length` characters until one is free of every forbidden
/// pattern, for at most `max_attempts` draws. `None` when no draw was free.
pub fn generate_quality_line(length: usize, forbidden: &ForbiddenSet, max_attempts: usize) -> (r: Option<String>)
    ensures
        r matches Some(q) ==> q@.len() == length && all_quality(q@) && !any_finds(forbidden@, q@)
            && (all_plain(forbidden@) ==> !any_occurs(forbidden@, q@)),
        max_attempts == 0 ==> r is None,
        forbidden@.len() == 0 && max_attempts > 0 ==> r is Some,
{
    let mut attempt: usize = 0;
    while attempt < max_attempts
        invariant
            forbidden@.len() == 0 ==> attempt == 0,
        decreases max_attempts - attempt,
    {
        let draws = draw_many(length, 93);
        let candidate = quality_from_draws(&draws);
        let ghost c = candidate@;
        if let Some(q) = accept_candidate(candidate, forbidden) {
            assert(q@ == c);
            return Some(q);
        }
        attempt += 1;
    }
    None
}

} // verus!
