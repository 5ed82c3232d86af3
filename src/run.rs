use vstd::prelude::*;
use crate::matcher::{all_plain, any_finds, any_occurs, ForbiddenSet};
use crate::sample::{all_bases, all_quality, generate_quality_line, generate_sequence};
use crate::spike::{
    drawn_from, insert_patterns, lemma_last_insertion_present, lemma_total_mono, positions_fit,
    select_spike_patterns, splice_all, tally_presence, total_len,
};
use crate::text::{has_sub, texts};

verus! {

/// One generated record: a sequence and its quality line.
pub struct Record {
    pub sequence: String,
    pub quality: String,
}

/// A request to spike patterns into the first sequences of a run.
#[derive(Clone, Copy, Debug, PartialEq, Eq)]
pub struct SpikeRequest {
    pub num_patterns: usize,
    pub num_sequences: usize,
}

/// The patterns spiked in a run, and for each the number of spiked sequences holding it.
pub struct SpikeSummary {
    pub patterns: Vec<String>,
    pub counts: Vec<usize>,
}

/// What a run produced.
pub struct RunOutput {
    pub records: Vec<Record>,
    pub spike: Option<SpikeSummary>,
}

/// Why a run stopped before producing every record.
#[derive(Clone, Copy, Debug, PartialEq, Eq)]
pub enum GenerateError {
    /// No sequence free of the forbidden patterns was drawn within the attempt budget.
    SequenceBudgetExhausted,
    /// No quality line free of the forbidden patterns was drawn within the attempt budget.
    QualityBudgetExhausted,
    /// A spiked sequence would not fit in memory.
    SpikedTooLong,
}

/// A sequence as sampling accepts it.
pub open spec fn is_sampled(s: Seq<char>, min_len: usize, max_len: usize, forbidden: Seq<Seq<char>>) -> bool {
    &&& min_len <= s.len() <= max_len
    &&& all_bases(s)
    &&& !any_finds(forbidden, s)
    &&& all_plain(forbidden) ==> !any_occurs(forbidden, s)
}

/// `s` is a sampled sequence with `pats` spliced in.
pub open spec fn is_spiked(
    s: Seq<char>,
    min_len: usize,
    max_len: usize,
    forbidden: Seq<Seq<char>>,
    pats: Seq<Seq<char>>,
) -> bool {
    exists|base: Seq<char>, pos: Seq<int>|
        is_sampled(base, min_len, max_len, forbidden) && #[trigger] positions_fit(base.len(), pats, pos)
            && s == #[trigger] splice_all(base, pats, pos)
}

/// A quality line as sampling accepts it for a sequence of length `n`.
pub open spec fn is_quality_for(q: Seq<char>, n: nat, forbidden: Seq<Seq<char>>) -> bool {
    &&& q.len() == n
    &&& all_quality(q)
    &&& !any_finds(forbidden, q)
    &&& all_plain(forbidden) ==> !any_occurs(forbidden, q)
}

/// The number of sequences in `seqs` that hold `p`.
pub open spec fn presence_count(seqs: Seq<Seq<char>>, p: Seq<char>) -> nat
    decreases seqs.len(),
{
    if seqs.len() == 0 {
        0
    } else {
        presence_count(seqs.drop_last(), p) + if has_sub(seqs.last(), p) {
            1nat
        } else {
            0nat
        }
    }
}

/// The sequences of a list of records.
pub open spec fn sequences(records: Seq<Record>) -> Seq<Seq<char>> {
    records.map_values(|r: Record| r.sequence@)
}

/// How many of the first records are spiked.
pub open spec fn spiked_prefix(n: usize, spike: Option<SpikeRequest>) -> int {
    match spike {
        Some(req) => if req.num_sequences < n { req.num_sequences as int } else { n as int },
        None => 0,
    }
}

/// What holds of a finished run.
pub open spec fn run_ok(
    out: RunOutput,
    num_sequences: usize,
    min_len: usize,
    max_len: usize,
    forbidden: Seq<Seq<char>>,
    spike: Option<SpikeRequest>,
) -> bool {
    let recs = out.records@;
    let k = spiked_prefix(num_sequences, spike);
    &&& recs.len() == num_sequences
    &&& forall|i: int|
        0 <= i < recs.len() ==> is_quality_for(
            #[trigger] recs[i].quality@,
            recs[i].sequence@.len(),
            forbidden,
        )
    &&& forall|i: int| k <= i < recs.len() ==> is_sampled(#[trigger] recs[i].sequence@, min_len, max_len, forbidden)
    &&& spike is None <==> out.spike is None
    &&& spike matches Some(req) ==> out.spike matches Some(sum) && {
        let pats = texts(sum.patterns@);
        &&& pats.len() == if req.num_patterns < forbidden.len() {
            req.num_patterns as int
        } else {
            forbidden.len() as int
        }
        &&& exists|idx: Seq<int>| #[trigger] drawn_from(idx, pats, forbidden)
        &&& forall|i: int| 0 <= i < k ==> is_spiked(#[trigger] recs[i].sequence@, min_len, max_len, forbidden, pats)
        &&& sum.counts@.len() == pats.len()
        &&& forall|j: int|
            0 <= j < pats.len() ==> #[trigger] sum.counts@[j] == presence_count(
                sequences(recs).take(k),
                pats[j],
            )
    }
}

/// The texts of the forbidden patterns, in order.
fn pattern_texts(forbidden: &ForbiddenSet) -> (r: Vec<String>)
    ensures
        texts(r@) == forbidden@,
{
    let mut r: Vec<String> = Vec::new();
    let mut i: usize = 0;
    while i < forbidden.len()
        invariant
            i <= forbidden@.len(),
            texts(r@) == forbidden@.take(i as int),
        decreases forbidden@.len() - i,
    {
        let t = String::from_str(forbidden.pattern(i));
        let ghost prev = r@;
        r.push(t);
        i += 1;
        assert(texts(r@) =~= texts(prev).push(t@));
        assert(texts(r@) =~= forbidden@.take(i as int));
    }
    assert(forbidden@.take(i as int) =~= forbidden@);
    r
}

/// The total length of some patterns, where it stays within `limit`.
fn bounded_total(pats: &Vec<String>, limit: usize) -> (r: Option<usize>)
    ensures
        r matches Some(t) ==> t == total_len(texts(pats@)) && t <= limit,
        r is None ==> total_len(texts(pats@)) > limit,
{
    let mut t: usize = 0;
    let mut i: usize = 0;
    while i < pats.len()
        invariant
            i <= pats.len(),
            t == total_len(texts(pats@).take(i as int)),
            t <= limit,
        decreases pats.len() - i,
    {
        proof {
            assert(texts(pats@).take(i + 1).drop_last() =~= texts(pats@).take(i as int));
        }
        let n = pats[i].unicode_len();
        if n > limit - t {
            proof {
                lemma_total_mono(texts(pats@), i + 1);
            }
            return None;
        }
        t = t + n;
        i += 1;
    }
    assert(texts(pats@).take(i as int) =~= texts(pats@));
    Some(t)
}

proof fn lemma_presence_bound(seqs: Seq<Seq<char>>, p: Seq<char>)
    ensures
        presence_count(seqs, p) <= seqs.len(),
    decreases seqs.len(),
{
    if seqs.len() > 0 {
        lemma_presence_bound(seqs.drop_last(), p);
    }
}

/// `n` zeros.
fn zeros(n: usize) -> (r: Vec<usize>)
    ensures
        r@.len() == n,
        forall|i: int| 0 <= i < n ==> #[trigger] r@[i] == 0,
{
    let mut r: Vec<usize> = Vec::new();
    let mut i: usize = 0;
    while i < n
        invariant
            i <= n,
            r@.len() == i,
            forall|j: int| 0 <= j < i ==> #[trigger] r@[j] == 0,
        decreases n - i,
    {
        r.push(0);
        i += 1;
    }
    r
}

/// Generates `num_sequences` records. Each sequence is sampled free of the forbidden
/// patterns with a length in `min_len..=max_len`; with a spike request, patterns are first
/// chosen from the forbidden set, spliced into each of the first `num_sequences` of the
/// request's sequences, and counted where present. Each quality line is sampled free of
/// the forbidden patterns, as long as its sequence. Each sampling makes at most
/// `max_attempts` draws.
pub fn generate_records(
    num_sequences: usize,
    min_len: usize,
    max_len: usize,
    forbidden: &ForbiddenSet,
    spike: Option<SpikeRequest>,
    max_attempts: usize,
) -> (r: Result<RunOutput, GenerateError>)
    requires
        min_len <= max_len,
    ensures
        r matches Ok(out) ==> run_ok(out, num_sequences, min_len, max_len, forbidden@, spike),
        max_attempts == 0 && num_sequences > 0 ==> r is Err,
        forbidden@.len() == 0 && max_attempts > 0 ==> r is Ok,
        r matches Err(GenerateError::SpikedTooLong) ==> spike is Some && forbidden@.len() > 0,
{
    let k: usize = match spike {
        Some(req) => if req.num_sequences < num_sequences { req.num_sequences } else { num_sequences },
        None => 0,
    };
    let pool = pattern_texts(forbidden);
    let selected: Vec<String> = match spike {
        Some(req) => select_spike_patterns(&pool, req.num_patterns),
        None => Vec::new(),
    };
    let ghost pats = texts(selected@);
    let mut counts = zeros(selected.len());
    let extra = match bounded_total(&selected, usize::MAX - max_len) {
        Some(t) => t,
        None => {
            return Err(GenerateError::SpikedTooLong);
        },
    };
    let mut records: Vec<Record> = Vec::new();
    let mut i: usize = 0;
    assert(sequences(records@).take(0) =~= Seq::<Seq<char>>::empty());
    while i < num_sequences
        invariant
            min_len <= max_len,
            k as int == spiked_prefix(num_sequences, spike),
            pats == texts(selected@),
            extra == total_len(pats),
            extra <= usize::MAX - max_len,
            i <= num_sequences,
            max_attempts == 0 ==> i == 0,
            forbidden@.len() == 0 ==> pats.len() == 0,
            records@.len() == i,
            counts@.len() == pats.len(),
            forall|j: int|
                0 <= j < i ==> is_quality_for(
                    #[trigger] records@[j].quality@,
                    records@[j].sequence@.len(),
                    forbidden@,
                ),
            forall|j: int| k <= j < i ==> is_sampled(#[trigger] records@[j].sequence@, min_len, max_len, forbidden@),
            forall|j: int| 0 <= j < i && j < k ==> is_spiked(#[trigger] records@[j].sequence@, min_len, max_len, forbidden@, pats),
            forall|j: int|
                0 <= j < pats.len() ==> #[trigger] counts@[j] == presence_count(
                    sequences(records@).take(if i < k { i as int } else { k as int }),
                    pats[j],
                ),
        decreases num_sequences - i,
    {
        let mut sequence = match generate_sequence(min_len, max_len, forbidden, max_attempts) {
            Some(s) => s,
            None => {
                return Err(GenerateError::SequenceBudgetExhausted);
            },
        };
        let ghost base = sequence@;
        let ghost upto = if i < k { i as int } else { k as int };
        if i < k {
            proof {
                assert forall|j: int| 0 <= j < counts@.len() implies #[trigger] counts@[j] < usize::MAX by {
                    lemma_presence_bound(sequences(records@).take(upto), pats[j]);
                }
            }
            insert_patterns(&mut sequence, &selected);
            tally_presence(sequence.as_str(), &selected, &mut counts);
        }
        let n = sequence.unicode_len();
        let quality = match generate_quality_line(n, forbidden, max_attempts) {
            Some(q) => q,
            None => {
                return Err(GenerateError::QualityBudgetExhausted);
            },
        };
        let ghost prev = records@;
        let ghost sq = sequence@;
        records.push(Record { sequence, quality });
        proof {
            assert(records@[i as int].sequence@ == sq);
            assert forall|j: int| 0 <= j < i implies #[trigger] records@[j] == prev[j] by {}
            let after = if i + 1 < k { i + 1 } else { k as int };
            if i < k {
                assert(sequences(records@).take(after) =~= sequences(prev).take(upto).push(sq));
                assert(sequences(records@).take(after).drop_last() =~= sequences(prev).take(upto));
            } else {
                assert(sequences(records@).take(after) =~= sequences(prev).take(upto));
            }
        }
        i += 1;
    }
    let summary = match spike {
        Some(_) => Some(SpikeSummary { patterns: selected, counts }),
        None => None,
    };
    Ok(RunOutput { records, spike: summary })
}

/// A selection drawn from the forbidden patterns: a sequence in which no forbidden
/// pattern occurs holds none of the selected patterns either.
pub proof fn lemma_sampled_free_of_selection(
    s: Seq<char>,
    idx: Seq<int>,
    pats: Seq<Seq<char>>,
    forbidden: Seq<Seq<char>>,
)
    requires
        drawn_from(idx, pats, forbidden),
        !any_occurs(forbidden, s),
    ensures
        !any_occurs(pats, s),
{
    assert forall|k: int| 0 <= k < pats.len() implies !has_sub(s, #[trigger] pats[k]) by {
        let i = idx[k];
        assert(pats[k] == forbidden[i]);
    }
}

/// In a finished spiking run over plain forbidden patterns that asks for at least one
/// pattern from a non-empty set, exactly the spiked records hold a selected pattern: each
/// of the first records up to the spike count holds one, and no later record holds any.
pub proof fn lemma_spiked_records_exactly(
    out: RunOutput,
    num_sequences: usize,
    min_len: usize,
    max_len: usize,
    forbidden: Seq<Seq<char>>,
    req: SpikeRequest,
)
    requires
        run_ok(out, num_sequences, min_len, max_len, forbidden, Some(req)),
        all_plain(forbidden),
        req.num_patterns > 0,
        forbidden.len() > 0,
    ensures
        out.spike matches Some(sum) && forall|i: int|
            0 <= i < num_sequences ==> (any_occurs(texts(sum.patterns@), #[trigger] out.records@[i].sequence@)
                <==> i < spiked_prefix(num_sequences, Some(req))),
{
    let sum = out.spike.unwrap();
    let pats = texts(sum.patterns@);
    let recs = out.records@;
    let k = spiked_prefix(num_sequences, Some(req));
    let idx = choose|idx: Seq<int>| #[trigger] drawn_from(idx, pats, forbidden);
    assert forall|i: int| 0 <= i < num_sequences implies (any_occurs(pats, #[trigger] recs[i].sequence@)
        <==> i < k) by {
        let s = recs[i].sequence@;
        if i < k {
            assert(is_spiked(s, min_len, max_len, forbidden, pats));
            let (base, pos) = choose|base: Seq<char>, pos: Seq<int>|
                is_sampled(base, min_len, max_len, forbidden) && #[trigger] positions_fit(base.len(), pats, pos)
                    && s == #[trigger] splice_all(base, pats, pos);
            lemma_last_insertion_present(base, pats, pos);
            assert(has_sub(s, pats[pats.len() - 1]));
        } else {
            assert(is_sampled(s, min_len, max_len, forbidden));
            lemma_sampled_free_of_selection(s, idx, pats, forbidden);
        }
    }
}

} // verus!
