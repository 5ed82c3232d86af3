use vstd::prelude::*;
use crate::text::{chars_of, string_of};

verus! {

/// The options of a run.
pub struct Args {
    /// How many records to generate.
    pub num_sequences: usize,
    /// The least and greatest sequence length.
    pub length: (usize, usize),
    /// The file of forbidden patterns, if any.
    pub regex_patterns: Option<String>,
    /// What to do beyond generating records.
    pub command: Option<Commands>,
}

/// The subcommands of a run.
#[derive(Clone, Copy, Debug, PartialEq, Eq)]
pub enum Commands {
    /// Spike `num_patterns` patterns into the first `num_sequences` sequences.
    SpikeSequence { num_patterns: usize, num_sequences: usize },
}

/// Whether `c` is a decimal digit.
pub open spec fn is_digit(c: char) -> bool {
    '0' <= c <= '9'
}

/// The number that a string of decimal digits spells.
pub open spec fn digits_value(d: Seq<char>) -> nat
    decreases d.len(),
{
    if d.len() == 0 {
        0
    } else {
        digits_value(d.drop_last()) * 10 + (d.last() as nat - '0' as nat) as nat
    }
}

/// The digits of a number's text: what follows a leading `+`, if there is one.
pub open spec fn unsigned_digits(t: Seq<char>) -> Seq<char> {
    if t.len() > 0 && t[0] == '+' {
        t.skip(1)
    } else {
        t
    }
}

/// The `usize` that `t` spells: an optional `+` and then one or more decimal digits, with
/// a value that fits.
pub open spec fn parse_usize_spec(t: Seq<char>) -> Option<usize> {
    let d = unsigned_digits(t);
    if d.len() > 0 && (forall|i: int| 0 <= i < d.len() ==> is_digit(#[trigger] d[i]))
        && digits_value(d) <= usize::MAX {
        Some(digits_value(d) as usize)
    } else {
        None
    }
}

/// The number of commas in `s`.
pub open spec fn comma_count(s: Seq<char>) -> nat
    decreases s.len(),
{
    if s.len() == 0 {
        0
    } else {
        comma_count(s.drop_last()) + if s.last() == ',' {
            1nat
        } else {
            0nat
        }
    }
}

/// The position of the first comma in `s`, where it has one.
pub open spec fn comma_at(s: Seq<char>, c: int) -> bool {
    0 <= c < s.len() && s[c] == ',' && forall|j: int| 0 <= j < c ==> s[j] != ','
}

proof fn lemma_value_mono(d: Seq<char>, i: int)
    requires
        0 <= i <= d.len(),
    ensures
        digits_value(d.take(i)) <= digits_value(d),
    decreases d.len(),
{
    if i < d.len() {
        assert(d.drop_last().take(i) =~= d.take(i));
        lemma_value_mono(d.drop_last(), i);
    } else {
        assert(d.take(i) =~= d);
    }
}

/// Parses a `usize` written as an optional `+` and decimal digits.
pub fn parse_usize(t: &Vec<char>) -> (r: Option<usize>)
    ensures
        r == parse_usize_spec(t@),
{
    let start: usize = if t.len() > 0 && t[0] == '+' { 1 } else { 0 };
    let ghost d = unsigned_digits(t@);
    assert(d =~= t@.skip(start as int));
    if start >= t.len() {
        return None;
    }
    let mut v: usize = 0;
    let mut i: usize = start;
    while i < t.len()
        invariant
            start <= i <= t.len(),
            d == t@.skip(start as int),
            d == unsigned_digits(t@),
            v == digits_value(d.take(i - start)),
            forall|j: int| 0 <= j < i - start ==> is_digit(#[trigger] d[j]),
        decreases t.len() - i,
    {
        let c = t[i];
        proof {
            assert(d.take(i - start + 1).drop_last() =~= d.take(i - start));
            assert(d[i - start] == c);
        }
        if !('0' <= c && c <= '9') {
            assert(!is_digit(d[i - start]));
            return None;
        }
        let digit = (c as u32 - '0' as u32) as usize;
        if v > (usize::MAX - digit) / 10 {
            proof {
                assert(digits_value(d.take(i - start + 1)) == v * 10 + digit);
                lemma_value_mono(d, i - start + 1);
                assert(v * 10 + digit > usize::MAX) by (nonlinear_arith)
                    requires v > (usize::MAX - digit) / 10, digit <= 9;
            }
            return None;
        }
        proof {
            assert(v * 10 + digit <= usize::MAX) by (nonlinear_arith)
                requires v <= (usize::MAX - digit) / 10, digit <= 9;
        }
        v = v * 10 + digit;
        i += 1;
    }
    assert(d.take(i - start) =~= d);
    Some(v)
}

/// The first comma of `s`, if any.
fn find_comma(s: &Vec<char>) -> (r: Option<usize>)
    ensures
        r matches Some(c) ==> comma_at(s@, c as int),
        r is None ==> forall|j: int| 0 <= j < s@.len() ==> s@[j] != ',',
{
    let mut i: usize = 0;
    while i < s.len()
        invariant
            i <= s.len(),
            forall|j: int| 0 <= j < i ==> s@[j] != ',',
        decreases s.len() - i,
    {
        if s[i] == ',' {
            return Some(i);
        }
        i += 1;
    }
    None
}

proof fn lemma_no_comma(s: Seq<char>)
    requires
        forall|j: int| 0 <= j < s.len() ==> s[j] != ',',
    ensures
        comma_count(s) == 0,
    decreases s.len(),
{
    if s.len() > 0 {
        lemma_no_comma(s.drop_last());
    }
}

proof fn lemma_count_split(s: Seq<char>, c: int)
    requires
        0 <= c < s.len(),
    ensures
        comma_count(s) == comma_count(s.take(c)) + comma_count(s.skip(c)),
    decreases s.len(),
{
    if c == s.len() - 1 {
        assert(s.skip(c) =~= seq![s[c]]);
        assert(s.skip(c).drop_last() =~= Seq::<char>::empty());
        assert(comma_count(Seq::<char>::empty()) == 0);
        assert(s.drop_last() =~= s.take(c));
    } else {
        lemma_count_split(s.drop_last(), c);
        assert(s.drop_last().take(c) =~= s.take(c));
        assert(s.skip(c).drop_last() =~= s.drop_last().skip(c));
        assert(s.skip(c).last() == s.last());
    }
}

proof fn lemma_comma_count_one(s: Seq<char>, c: int)
    requires
        comma_at(s, c),
    ensures
        comma_count(s) == 1 + comma_count(s.skip(c + 1)),
{
    lemma_count_split(s, c);
    lemma_no_comma(s.take(c));
    lemma_count_split(s.skip(c), 0);
    assert(s.skip(c).take(0) =~= Seq::<char>::empty());
    assert(s.skip(c).skip(0) =~= s.skip(c));
    let t = s.skip(c);
    if t.len() == 1 {
        assert(t.drop_last() =~= Seq::<char>::empty());
        assert(s.skip(c + 1) =~= Seq::<char>::empty());
    }
    lemma_first_char_count(t);
    assert(t.skip(1) =~= s.skip(c + 1));
}

proof fn lemma_first_char_count(t: Seq<char>)
    requires
        t.len() > 0,
    ensures
        comma_count(t) == comma_count(t.skip(1)) + if t[0] == ',' { 1nat } else { 0nat },
    decreases t.len(),
{
    if t.len() == 1 {
        assert(t.drop_last() =~= Seq::<char>::empty());
        assert(t.skip(1) =~= Seq::<char>::empty());
    } else {
        lemma_first_char_count(t.drop_last());
        assert(t.drop_last().skip(1) =~= t.skip(1).drop_last());
    }
}

/// The text before the first comma of `s`.
pub open spec fn first_part(s: Seq<char>) -> Seq<char> {
    let c = choose|c: int| comma_at(s, c);
    s.take(c)
}

/// The text after the first comma of `s`.
pub open spec fn second_part(s: Seq<char>) -> Seq<char> {
    let c = choose|c: int| comma_at(s, c);
    s.skip(c + 1)
}

/// What `parse_length_range` gives for the text `s`.
pub open spec fn length_range_spec(s: Seq<char>) -> Result<(usize, usize), Seq<char>> {
    if comma_count(s) != 1 {
        Err("Invalid length range: "@ + s)
    } else if parse_usize_spec(first_part(s)) is None {
        Err("Invalid number: "@ + first_part(s))
    } else if parse_usize_spec(second_part(s)) is None {
        Err("Invalid number: "@ + second_part(s))
    } else if parse_usize_spec(first_part(s))->0 > parse_usize_spec(second_part(s))->0 {
        Err("Min length cannot be greater than max length: "@ + s)
    } else {
        Ok((parse_usize_spec(first_part(s))->0, parse_usize_spec(second_part(s))->0))
    }
}

/// Parses a length range written `MIN,MAX`: two `usize` values, the first no greater than
/// the second. The error says what is wrong.
pub fn parse_length_range(s: &str) -> (r: Result<(usize, usize), String>)
    ensures
        match (r, length_range_spec(s@)) {
            (Ok(v), Ok(w)) => v == w,
            (Err(e), Err(f)) => e@ == f,
            _ => false,
        },
{
    let t = chars_of(s);
    let c = match find_comma(&t) {
        Some(c) => c,
        None => {
            proof {
                lemma_no_comma(t@);
            }
            let mut e = String::from_str("Invalid length range: ");
            e.append(s);
            return Err(e);
        },
    };
    proof {
        lemma_comma_count_one(t@, c as int);
        let c2 = choose|c2: int| comma_at(t@, c2);
        if c2 < c {
            assert(t@[c2] != ',');
        } else if c < c2 {
            assert(t@[c as int] != ',');
        }
    }
    let mut a: Vec<char> = Vec::new();
    let mut i: usize = 0;
    while i < c
        invariant
            c < t.len(),
            i <= c,
            a@ == t@.take(i as int),
        decreases c - i,
    {
        a.push(t[i]);
        i += 1;
        assert(a@ =~= t@.take(i as int));
    }
    let mut b: Vec<char> = Vec::new();
    let mut i: usize = c + 1;
    while i < t.len()
        invariant
            c < t.len(),
            c + 1 <= i <= t.len(),
            b@ == t@.subrange(c + 1, i as int),
        decreases t.len() - i,
    {
        b.push(t[i]);
        i += 1;
        assert(b@ =~= t@.subrange(c + 1, i as int));
    }
    assert(b@ =~= t@.skip(c + 1));
    if find_comma(&b).is_some() {
        proof {
            let k = choose|k: int| comma_at(b@, k);
            assert(b@.take(k) + b@.skip(k) =~= b@);
            lemma_count_split(b@, k);
            lemma_first_char_count(b@.skip(k));
        }
        let mut e = String::from_str("Invalid length range: ");
        e.append(s);
        return Err(e);
    }
    proof {
        lemma_no_comma(b@);
    }
    let min_length = match parse_usize(&a) {
        Some(v) => v,
        None => {
            let mut e = String::from_str("Invalid number: ");
            let part = string_of(&a);
            e.append(part.as_str());
            return Err(e);
        },
    };
    let max_length = match parse_usize(&b) {
        Some(v) => v,
        None => {
            let mut e = String::from_str("Invalid number: ");
            let part = string_of(&b);
            e.append(part.as_str());
            return Err(e);
        },
    };
    if min_length > max_length {
        let mut e = String::from_str("Min length cannot be greater than max length: ");
        e.append(s);
        return Err(e);
    }
    Ok((min_length, max_length))
}

} // verus!
