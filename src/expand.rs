use vstd::prelude::*;
use crate::ambiguity::{
    ambiguity_codes, bracket_of, code_table, inner, is_base, is_bracket, is_code, lemma_table_codes,
    lemma_table_complete,
};
use crate::text::{find, first_at, has_sub, occurs_at, string_of, chars_of, texts, views};

verus! {

/// `s` with its leftmost occurrence of `p` replaced by `rep`; `s` itself where `p` does not occur.
pub open spec fn replace_first(s: Seq<char>, p: Seq<char>, rep: Seq<char>) -> Seq<char> {
    if exists|i: int| first_at(s, p, i) {
        let i = choose|i: int| first_at(s, p, i);
        s.subrange(0, i) + rep + s.subrange(i + p.len(), s.len() as int)
    } else {
        s
    }
}

/// One round of fan-out: each candidate, in order, gives one text per alternative,
/// with the leftmost occurrence of `p` replaced by that alternative.
pub open spec fn fan_out(temp: Seq<Seq<char>>, p: Seq<char>, alts: Seq<char>) -> Seq<Seq<char>>
    decreases temp.len(),
{
    if temp.len() == 0 {
        seq![]
    } else {
        fan_out(temp.drop_last(), p, alts) + alts.map_values(
            |a: char| replace_first(temp.last(), p, seq![a]),
        )
    }
}

/// Fan-out repeated while the first candidate still holds `p`. Each round shortens the
/// first candidate, so a fuel of its length is enough for the rounds to run out.
pub open spec fn fan_out_while(temp: Seq<Seq<char>>, p: Seq<char>, alts: Seq<char>, fuel: nat) -> Seq<Seq<char>>
    decreases fuel,
{
    if fuel == 0 || temp.len() == 0 || !has_sub(temp[0], p) {
        temp
    } else {
        fan_out_while(fan_out(temp, p, alts), p, alts, (fuel - 1) as nat)
    }
}

/// All texts that one text gives under one ambiguity spelling `p` with alternatives `alts`.
pub open spec fn expand_word(s: Seq<char>, p: Seq<char>, alts: Seq<char>) -> Seq<Seq<char>> {
    fan_out_while(seq![s], p, alts, s.len())
}

/// The texts that a list of texts gives under one spelling, text by text.
pub open spec fn expand_list(strings: Seq<Seq<char>>, p: Seq<char>, alts: Seq<char>) -> Seq<Seq<char>>
    decreases strings.len(),
{
    if strings.len() == 0 {
        seq![]
    } else {
        expand_list(strings.drop_last(), p, alts) + expand_word(strings.last(), p, alts)
    }
}

/// The texts that a list gives once every code of `rules` has been applied, in order.
pub open spec fn expand_rules(strings: Seq<Seq<char>>, rules: Seq<Seq<char>>) -> Seq<Seq<char>>
    decreases rules.len(),
{
    if rules.len() == 0 {
        strings
    } else {
        expand_rules(expand_list(strings, bracket_of(rules[0]), rules[0]), rules.drop_first())
    }
}

/// The concrete patterns of one raw pattern.
pub open spec fn expand_pattern(p: Seq<char>) -> Seq<Seq<char>> {
    expand_rules(seq![p], code_table())
}

/// The concrete patterns of a list of raw patterns, pattern by pattern.
pub open spec fn expand_all(ps: Seq<Seq<char>>) -> Seq<Seq<char>>
    decreases ps.len(),
{
    if ps.len() == 0 {
        seq![]
    } else {
        expand_all(ps.drop_last()) + expand_pattern(ps.last())
    }
}

proof fn lemma_first_unique(s: Seq<char>, p: Seq<char>, i: int, j: int)
    requires
        first_at(s, p, i),
        first_at(s, p, j),
    ensures
        i == j,
{
    if i < j {
        assert(!occurs_at(s, p, i));
    } else if j < i {
        assert(!occurs_at(s, p, j));
    }
}

/// Where `p` occurs, replacing it by one character shortens the text by `|p| - 1`.
proof fn lemma_replace_len(s: Seq<char>, p: Seq<char>, c: char)
    requires
        has_sub(s, p),
    ensures
        replace_first(s, p, seq![c]).len() == s.len() - p.len() + 1,
    decreases s.len(),
{
    let k = choose|k: int| occurs_at(s, p, k);
    lemma_first_exists(s, p, k);
    let i = choose|i: int| first_at(s, p, i);
}

proof fn lemma_first_exists(s: Seq<char>, p: Seq<char>, k: int)
    requires
        occurs_at(s, p, k),
    ensures
        exists|i: int| first_at(s, p, i),
    decreases k,
{
    if exists|j: int| 0 <= j < k && occurs_at(s, p, j) {
        let j = choose|j: int| 0 <= j < k && occurs_at(s, p, j);
        lemma_first_exists(s, p, j);
    } else {
        assert(first_at(s, p, k));
    }
}

proof fn lemma_fan_out_len(temp: Seq<Seq<char>>, p: Seq<char>, alts: Seq<char>)
    ensures
        fan_out(temp, p, alts).len() == temp.len() * alts.len(),
    decreases temp.len(),
{
    if temp.len() > 0 {
        lemma_fan_out_len(temp.drop_last(), p, alts);
        assert(temp.len() * alts.len() == (temp.len() - 1) * alts.len() + alts.len())
            by (nonlinear_arith);
    }
}

proof fn lemma_fan_out_head(temp: Seq<Seq<char>>, p: Seq<char>, alts: Seq<char>)
    requires
        temp.len() > 0,
        alts.len() > 0,
    ensures
        fan_out(temp, p, alts).len() > 0,
        fan_out(temp, p, alts)[0] == replace_first(temp[0], p, seq![alts[0]]),
    decreases temp.len(),
{
    let f = fan_out(temp.drop_last(), p, alts);
    let blk = alts.map_values(|a: char| replace_first(temp.last(), p, seq![a]));
    lemma_fan_out_len(temp.drop_last(), p, alts);
    if temp.len() > 1 {
        lemma_fan_out_head(temp.drop_last(), p, alts);
        assert(temp.drop_last()[0] == temp[0]);
        assert((f + blk)[0] == f[0]);
    } else {
        assert(f.len() == 0);
        assert((f + blk)[0] == blk[0]);
    }
}

/// `s` with its leftmost occurrence of `p` replaced by the character `c`.
pub fn replace_first_exec(s: &Vec<char>, p: &Vec<char>, c: char) -> (r: Vec<char>)
    ensures
        r@ == replace_first(s@, p@, seq![c]),
{
    match find(s, p) {
        Some(i) => {
            proof {
                let j = choose|j: int| first_at(s@, p@, j);
                lemma_first_unique(s@, p@, i as int, j);
            }
            let mut r: Vec<char> = Vec::new();
            let mut k: usize = 0;
            while k < i
                invariant
                    i + p.len() <= s.len(),
                    k <= i,
                    r@ == s@.subrange(0, k as int),
                decreases i - k,
            {
                r.push(s[k]);
                k += 1;
                assert(r@ =~= s@.subrange(0, k as int));
            }
            r.push(c);
            let mut k: usize = i + p.len();
            let ghost mid = r@;
            while k < s.len()
                invariant
                    i + p.len() <= k <= s.len(),
                    r@ == mid + s@.subrange(i + p.len(), k as int),
                decreases s.len() - k,
            {
                r.push(s[k]);
                k += 1;
                assert(r@ =~= mid + s@.subrange(i + p.len(), k as int));
            }
            assert(r@ =~= replace_first(s@, p@, seq![c]));
            r
        },
        None => s.clone(),
    }
}

/// One round of fan-out over `temp`.
fn fan_out_exec(temp: &Vec<Vec<char>>, p: &Vec<char>, alts: &Vec<char>) -> (r: Vec<Vec<char>>)
    ensures
        views(r@) == fan_out(views(temp@), p@, alts@),
{
    let mut r: Vec<Vec<char>> = Vec::new();
    let mut i: usize = 0;
    while i < temp.len()
        invariant
            i <= temp.len(),
            views(r@) == fan_out(views(temp@).take(i as int), p@, alts@),
        decreases temp.len() - i,
    {
        let ghost before = views(r@);
        let mut j: usize = 0;
        while j < alts.len()
            invariant
                i < temp.len(),
                j <= alts.len(),
                views(r@) == before + alts@.take(j as int).map_values(
                    |a: char| replace_first(temp@[i as int]@, p@, seq![a]),
                ),
            decreases alts.len() - j,
        {
            let t = replace_first_exec(&temp[i], p, alts[j]);
            let ghost prev = r@;
            r.push(t);
            proof {
                assert(views(r@) =~= views(prev).push(t@));
                assert(alts@.take(j + 1) =~= alts@.take(j as int).push(alts@[j as int]));
            }
            j += 1;
            assert(views(r@) =~= before + alts@.take(j as int).map_values(
                |a: char| replace_first(temp@[i as int]@, p@, seq![a]),
            ));
        }
        proof {
            let vt = views(temp@);
            assert(vt.take(i + 1).drop_last() =~= vt.take(i as int));
            assert(alts@.take(j as int) =~= alts@);
        }
        i += 1;
    }
    assert(views(temp@).take(i as int) =~= views(temp@));
    r
}

/// Expands each text of `strings` under one ambiguity spelling `p` with alternatives
/// `alts`: while the first candidate of a text holds `p`, every candidate fans out into
/// one text per alternative. The results stay in order, text by text. The spelling is at
/// least two characters long, so that each round shortens the first candidate and the
/// rounds come to an end, and there is at least one alternative.
pub fn expand_strings(strings: Vec<Vec<char>>, p: &Vec<char>, alts: &Vec<char>) -> (r: Vec<Vec<char>>)
    requires
        p.len() >= 2,
        alts.len() > 0,
    ensures
        views(r@) == expand_list(views(strings@), p@, alts@),
{
    let mut result: Vec<Vec<char>> = Vec::new();
    let mut i: usize = 0;
    while i < strings.len()
        invariant
            p.len() >= 2,
            alts.len() > 0,
            i <= strings.len(),
            views(result@) == expand_list(views(strings@).take(i as int), p@, alts@),
        decreases strings.len() - i,
    {
        let s = strings[i].clone();
        let ghost s0 = s@;
        let mut temp: Vec<Vec<char>> = vec![s];
        let ghost mut fuel: nat = s0.len();
        assert(views(temp@) =~= seq![s0]);
        while find(&temp[0], p).is_some()
            invariant
                p.len() >= 2,
                alts.len() > 0,
                temp.len() > 0,
                fuel >= temp@[0]@.len(),
                fan_out_while(views(temp@), p@, alts@, fuel) == expand_word(s0, p@, alts@),
            decreases temp@[0]@.len(),
        {
            proof {
                lemma_fan_out_head(views(temp@), p@, alts@);
                lemma_replace_len(temp@[0]@, p@, alts@[0]);
            }
            temp = fan_out_exec(&temp, p, alts);
            proof {
                fuel = (fuel - 1) as nat;
            }
        }
        let ghost before = views(result@);
        let mut j: usize = 0;
        while j < temp.len()
            invariant
                j <= temp.len(),
                views(result@) == before + views(temp@).take(j as int),
            decreases temp.len() - j,
        {
            let t = temp[j].clone();
            let ghost prev = result@;
            result.push(t);
            proof {
                assert(views(result@) =~= views(prev).push(t@));
                assert(views(temp@).take(j + 1) =~= views(temp@).take(j as int).push(temp@[j as int]@));
            }
            j += 1;
            assert(views(result@) =~= before + views(temp@).take(j as int));
        }
        proof {
            assert(views(temp@).take(j as int) =~= views(temp@));
            assert(views(strings@).take(i + 1).drop_last() =~= views(strings@).take(i as int));
            assert(views(strings@)[i as int] == s0);
        }
        i += 1;
    }
    assert(views(strings@).take(i as int) =~= views(strings@));
    result
}

/// The bracket expression that spells `alts`.
fn bracket_exec(alts: &Vec<char>) -> (r: Vec<char>)
    ensures
        r@ == bracket_of(alts@),
{
    let mut r: Vec<char> = vec!['['];
    let mut i: usize = 0;
    while i < alts.len()
        invariant
            i <= alts.len(),
            r@ == seq!['['] + alts@.take(i as int),
        decreases alts.len() - i,
    {
        r.push(alts[i]);
        i += 1;
        assert(r@ =~= seq!['['] + alts@.take(i as int));
    }
    r.push(']');
    assert(alts@.take(i as int) =~= alts@);
    assert(r@ =~= bracket_of(alts@));
    r
}

/// The concrete patterns of one raw pattern, with `table` the table of ambiguity codes.
fn expand_one_pattern(pattern: &String, table: &Vec<Vec<char>>) -> (r: Vec<Vec<char>>)
    requires
        views(table@) == code_table(),
    ensures
        views(r@) == expand_pattern(pattern@),
{
    proof {
        lemma_table_codes();
    }
    let mut cur: Vec<Vec<char>> = vec![chars_of(pattern.as_str())];
    assert(views(cur@) =~= seq![pattern@]);
    assert(code_table().subrange(0, 60) =~= code_table());
    let mut k: usize = 0;
    while k < table.len()
        invariant
            views(table@) == code_table(),
            table@.len() == 60,
            forall|i: int| 0 <= i < 60 ==> is_code(#[trigger] code_table()[i]),
            k <= 60,
            expand_rules(views(cur@), code_table().subrange(k as int, 60)) == expand_pattern(pattern@),
        decreases table.len() - k,
    {
        let alts = &table[k];
        assert(alts@ == code_table()[k as int]);
        let b = bracket_exec(alts);
        proof {
            let rest = code_table().subrange(k as int, 60);
            assert(rest[0] == alts@);
            assert(rest.drop_first() =~= code_table().subrange(k + 1, 60));
        }
        cur = expand_strings(cur, &b, alts);
        k += 1;
    }
    assert(code_table().subrange(60, 60) =~= Seq::<Seq<char>>::empty());
    cur
}

/// Expands raw patterns into the concrete patterns they stand for, pattern by pattern.
/// For each pattern the ambiguity codes are applied in the order of the table, not in
/// the order in which they stand in the pattern.
pub fn expand_patterns(patterns: &Vec<String>) -> (r: Vec<String>)
    ensures
        texts(r@) == expand_all(texts(patterns@)),
{
    let table = ambiguity_codes();
    let mut r: Vec<String> = Vec::new();
    let mut i: usize = 0;
    while i < patterns.len()
        invariant
            views(table@) == code_table(),
            i <= patterns.len(),
            texts(r@) == expand_all(texts(patterns@).take(i as int)),
        decreases patterns.len() - i,
    {
        let e = expand_one_pattern(&patterns[i], &table);
        let ghost before = texts(r@);
        let mut j: usize = 0;
        while j < e.len()
            invariant
                j <= e.len(),
                texts(r@) == before + views(e@).take(j as int),
            decreases e.len() - j,
        {
            let t = string_of(&e[j]);
            let ghost prev = r@;
            r.push(t);
            proof {
                assert(texts(r@) =~= texts(prev).push(t@));
                assert(views(e@).take(j + 1) =~= views(e@).take(j as int).push(e@[j as int]@));
            }
            j += 1;
        }
        proof {
            assert(views(e@).take(j as int) =~= views(e@));
            assert(texts(patterns@).take(i + 1).drop_last() =~= texts(patterns@).take(i as int));
            assert(texts(patterns@)[i as int] == patterns@[i as int]@);
        }
        i += 1;
    }
    assert(texts(patterns@).take(i as int) =~= texts(patterns@));
    r
}

/// The text holds no opening bracket: it is fully literal.
pub open spec fn is_literal(s: Seq<char>) -> bool {
    forall|i: int| 0 <= i < s.len() ==> #[trigger] s[i] != '['
}

proof fn lemma_literal_no_bracket(s: Seq<char>, alts: Seq<char>)
    requires
        is_literal(s),
    ensures
        !has_sub(s, bracket_of(alts)),
{
    assert forall|i: int| !occurs_at(s, bracket_of(alts), i) by {
        if occurs_at(s, bracket_of(alts), i) {
            assert(s.subrange(i, i + bracket_of(alts).len())[0] == s[i]);
        }
    }
}

/// Texts that do not hold the spelling come out of one expansion step unchanged, in order.
pub proof fn lemma_list_unchanged(strings: Seq<Seq<char>>, p: Seq<char>, alts: Seq<char>)
    requires
        forall|i: int| 0 <= i < strings.len() ==> !has_sub(#[trigger] strings[i], p),
    ensures
        expand_list(strings, p, alts) == strings,
    decreases strings.len(),
{
    if strings.len() > 0 {
        let init = strings.drop_last();
        assert forall|i: int| 0 <= i < init.len() implies !has_sub(#[trigger] init[i], p) by {
            assert(init[i] == strings[i]);
        }
        lemma_list_unchanged(init, p, alts);
        assert(!has_sub(strings[strings.len() - 1], p));
        assert(strings =~= init + seq![strings.last()]);
    }
}

proof fn lemma_rules_on_literal(strings: Seq<Seq<char>>, rules: Seq<Seq<char>>)
    requires
        forall|i: int| 0 <= i < strings.len() ==> is_literal(#[trigger] strings[i]),
    ensures
        expand_rules(strings, rules) == strings,
    decreases rules.len(),
{
    if rules.len() > 0 {
        let b = bracket_of(rules[0]);
        assert forall|i: int| 0 <= i < strings.len() implies !has_sub(#[trigger] strings[i], b) by {
            lemma_literal_no_bracket(strings[i], rules[0]);
        }
        lemma_list_unchanged(strings, b, rules[0]);
        lemma_rules_on_literal(strings, rules.drop_first());
    }
}

/// Expansion leaves a fully literal pattern as it is: one concrete pattern, the
/// pattern itself. So re-expanding an expansion's literal output changes nothing.
pub proof fn lemma_expand_literal(s: Seq<char>)
    requires
        is_literal(s),
    ensures
        expand_pattern(s) == seq![s],
{
    lemma_rules_on_literal(seq![s], code_table());
}

/// In a pattern whose only opening bracket is that of one code's spelling, the
/// spelling of a code occurs only where it is that spelling.
proof fn lemma_only_bracket(pre: Seq<char>, alts: Seq<char>, post: Seq<char>, r: Seq<char>)
    requires
        is_literal(pre),
        is_literal(post),
        is_code(alts),
        is_code(r),
        has_sub(pre + bracket_of(alts) + post, bracket_of(r)),
    ensures
        r == alts,
{
    let pat = pre + bracket_of(alts) + post;
    let br = bracket_of(r);
    let i = choose|i: int| occurs_at(pat, br, i);
    let n = pre.len() as int;
    let m = alts.len() as int;
    assert(pat[i] == br[0]) by {
        assert(pat.subrange(i, i + br.len())[0] == pat[i]);
    }
    assert forall|j: int| 0 <= j < br.len() implies pat[i + j] == #[trigger] br[j] by {
        assert(pat.subrange(i, i + br.len())[j] == pat[i + j]);
    }
    if i < n {
        assert(pat[i] == pre[i]);
    } else if i > n + m + 1 {
        assert(pat[i] == post[i - n - m - 2]);
    } else if i == n + m + 1 {
        assert(pat[i] == ']');
    } else if i > n {
        assert(pat[i] == alts[i - n - 1]);
        assert(is_base(alts[i - n - 1]));
    }
    assert(i == n);
    let k = r.len() as int;
    if k < m {
        assert(br[k + 1] == ']');
        assert(pat[n + k + 1] == alts[k]);
        assert(is_base(alts[k]));
    } else if k > m {
        assert(pat[n + m + 1] == ']');
        assert(br[m + 1] == r[m]);
        assert(is_base(r[m]));
    }
    assert forall|j: int| 0 <= j < k implies r[j] == alts[j] by {
        assert(br[j + 1] == r[j]);
        assert(pat[n + j + 1] == alts[j]);
    }
    assert(r =~= alts);
}

proof fn lemma_rules_skip(strings: Seq<Seq<char>>, rules: Seq<Seq<char>>, m: int)
    requires
        0 <= m <= rules.len(),
        forall|i: int, j: int|
            0 <= i < m && 0 <= j < strings.len() ==> !has_sub(
                #[trigger] strings[j],
                bracket_of(#[trigger] rules[i]),
            ),
    ensures
        expand_rules(strings, rules) == expand_rules(strings, rules.subrange(m, rules.len() as int)),
    decreases m,
{
    if m > 0 {
        assert forall|j: int| 0 <= j < strings.len() implies !has_sub(
            #[trigger] strings[j],
            bracket_of(rules[0]),
        ) by {
            assert(!has_sub(strings[j], bracket_of(rules[0])));
        }
        lemma_list_unchanged(strings, bracket_of(rules[0]), rules[0]);
        let rest = rules.drop_first();
        assert forall|i: int, j: int|
            0 <= i < m - 1 && 0 <= j < strings.len() implies !has_sub(
            #[trigger] strings[j],
            bracket_of(#[trigger] rest[i]),
        ) by {
            assert(rest[i] == rules[i + 1]);
        }
        lemma_rules_skip(strings, rest, m - 1);
        assert(rest.subrange(m - 1, rest.len() as int) =~= rules.subrange(m, rules.len() as int));
    } else {
        assert(rules.subrange(0, rules.len() as int) =~= rules);
    }
}

/// A pattern with exactly one bracket expression, that of an ambiguity code of degree `k`,
/// expands to exactly `k` concrete patterns: one per alternative, in the order of the
/// alternatives, each with the alternative in place of the bracket expression.
pub proof fn lemma_expand_single_code(pre: Seq<char>, alts: Seq<char>, post: Seq<char>)
    requires
        is_literal(pre),
        is_literal(post),
        is_code(alts),
    ensures
        expand_pattern(pre + bracket_of(alts) + post)
            == alts.map_values(|a: char| pre + seq![a] + post),
        expand_pattern(pre + bracket_of(alts) + post).len() == alts.len(),
{
    let pat = pre + bracket_of(alts) + post;
    let b = bracket_of(alts);
    let table = code_table();
    lemma_table_codes();
    lemma_table_complete(alts);
    let k0 = choose|k: int| 0 <= k < table.len() && table[k] == alts;
    lemma_first_code(table, alts, k0);
    let k = choose|k: int| 0 <= k < table.len() && table[k] == alts
        && forall|j: int| 0 <= j < k ==> table[j] != alts;
    assert forall|i: int, j: int|
        0 <= i < k && 0 <= j < seq![pat].len() implies !has_sub(
        #[trigger] seq![pat][j],
        bracket_of(#[trigger] table[i]),
    ) by {
        if has_sub(pat, bracket_of(table[i])) {
            lemma_only_bracket(pre, alts, post, table[i]);
        }
    }
    lemma_rules_skip(seq![pat], table, k);
    let rest = table.subrange(k, table.len() as int);
    assert(rest[0] == alts);
    // the one round of fan-out at the code's own entry
    let out = alts.map_values(|a: char| pre + seq![a] + post);
    let n = pre.len() as int;
    assert(occurs_at(pat, b, n)) by {
        assert(pat.subrange(n, n + b.len()) =~= b);
    }
    assert forall|j: int| 0 <= j < n implies !occurs_at(pat, b, j) by {
        assert(pat.subrange(j, j + b.len())[0] == pat[j]);
        assert(pat[j] == pre[j]);
    }
    assert(first_at(pat, b, n));
    assert forall|a: char| replace_first(pat, b, seq![a]) == pre + seq![a] + post by {
        let i = choose|i: int| first_at(pat, b, i);
        lemma_first_unique(pat, b, i, n);
        assert(pat.subrange(0, n) =~= pre);
        assert(pat.subrange(n + b.len(), pat.len() as int) =~= post);
    }
    assert(fan_out(seq![pat], b, alts) =~= out) by {
        assert(seq![pat].drop_last() =~= Seq::<Seq<char>>::empty());
        assert(fan_out(Seq::<Seq<char>>::empty(), b, alts) == Seq::<Seq<char>>::empty());
        assert(seq![pat].last() == pat);
        let f = fan_out(seq![pat], b, alts);
        assert(f == Seq::<Seq<char>>::empty() + alts.map_values(
            |a: char| replace_first(pat, b, seq![a]),
        ));
        assert forall|j: int| 0 <= j < alts.len() implies f[j] == out[j] by {
            assert(replace_first(pat, b, seq![alts[j]]) == pre + seq![alts[j]] + post);
        }
    }
    assert forall|j: int| 0 <= j < out.len() implies is_literal(#[trigger] out[j]) by {
        let t = out[j];
        assert(t == pre + seq![alts[j]] + post);
        assert forall|q: int| 0 <= q < t.len() implies #[trigger] t[q] != '[' by {
            if q < n {
                assert(t[q] == pre[q]);
            } else if q == n {
                assert(is_base(alts[j]));
            } else {
                assert(t[q] == post[q - n - 1]);
            }
        }
    }
    assert(pat.len() > 0);
    assert(is_literal(out[0]));
    lemma_literal_no_bracket(out[0], alts);
    assert(has_sub(pat, b));
    assert(seq![pat][0] == pat);
    let fuel = pat.len();
    assert(fan_out_while(seq![pat], b, alts, fuel) == fan_out_while(out, b, alts, (fuel - 1) as nat));
    assert(fan_out_while(out, b, alts, (fuel - 1) as nat) == out);
    assert(expand_word(pat, b, alts) == out);
    assert(seq![pat].drop_last() =~= Seq::<Seq<char>>::empty());
    assert(expand_list(Seq::<Seq<char>>::empty(), b, alts) == Seq::<Seq<char>>::empty());
    assert(seq![pat].last() == pat);
    assert(expand_list(seq![pat], b, alts) == Seq::<Seq<char>>::empty() + out);
    assert(expand_list(seq![pat], b, alts) =~= out);
    lemma_rules_on_literal(out, rest.drop_first());
}

/// The single-letter texts of a set of letters.
pub open spec fn letter_texts(letters: Set<char>) -> Set<Seq<char>> {
    letters.map(|c: char| seq![c])
}

/// A bracket expression of an ambiguity code expands to one single-letter pattern per
/// letter it names; so every spelling of one code, whatever the order of its letters,
/// expands to the same set of alternatives.
pub proof fn lemma_spellings_agree(s1: Seq<char>, s2: Seq<char>)
    requires
        is_bracket(s1),
        is_bracket(s2),
        inner(s1).to_set() == inner(s2).to_set(),
    ensures
        expand_pattern(s1).to_set() == letter_texts(inner(s1).to_set()),
        expand_pattern(s1).to_set() == expand_pattern(s2).to_set(),
{
    lemma_bracket_expands_to_letters(s1);
    lemma_bracket_expands_to_letters(s2);
}

proof fn lemma_bracket_expands_to_letters(s: Seq<char>)
    requires
        is_bracket(s),
    ensures
        expand_pattern(s).to_set() == letter_texts(inner(s).to_set()),
{
    let e = Seq::<char>::empty();
    let alts = inner(s);
    assert(s =~= e + bracket_of(alts) + e);
    lemma_expand_single_code(e, alts, e);
    let out = expand_pattern(s);
    assert forall|t: Seq<char>| out.to_set().contains(t) <==> letter_texts(alts.to_set()).contains(t) by {
        if out.to_set().contains(t) {
            let j = choose|j: int| 0 <= j < out.len() && out[j] == t;
            assert(t =~= seq![alts[j]]);
            assert(alts.to_set().contains(alts[j]));
        }
        if letter_texts(alts.to_set()).contains(t) {
            let c = choose|c: char| alts.to_set().contains(c) && seq![c] == t;
            let j = choose|j: int| 0 <= j < alts.len() && alts[j] == c;
            assert(out[j] =~= t);
        }
    }
    assert(out.to_set() =~= letter_texts(alts.to_set()));
}

proof fn lemma_first_code(table: Seq<Seq<char>>, alts: Seq<char>, k: int)
    requires
        0 <= k < table.len(),
        table[k] == alts,
    ensures
        exists|m: int| 0 <= m < table.len() && table[m] == alts
            && forall|j: int| 0 <= j < m ==> table[j] != alts,
    decreases k,
{
    if exists|j: int| 0 <= j < k && table[j] == alts {
        let j = choose|j: int| 0 <= j < k && table[j] == alts;
        lemma_first_code(table, alts, j);
    } else {
        assert(forall|j: int| 0 <= j < k ==> table[j] != alts);
    }
}

/// One expansion step on a text that holds the spelling `p` once, at the end of `pre`,
/// where no alternative forms `p` anew: one text per alternative, in order, each with the
/// alternative in place of the spelling.
pub proof fn lemma_expand_step_once(pre: Seq<char>, p: Seq<char>, post: Seq<char>, alts: Seq<char>)
    requires
        first_at(pre + p + post, p, pre.len() as int),
        alts.len() > 0,
        forall|k: int| 0 <= k < alts.len() ==> !has_sub(pre + seq![#[trigger] alts[k]] + post, p),
    ensures
        expand_list(seq![pre + p + post], p, alts) == alts.map_values(|a: char| pre + seq![a] + post),
        expand_list(seq![pre + p + post], p, alts).len() == alts.len(),
{
    let s = pre + p + post;
    let n = pre.len() as int;
    let out = alts.map_values(|a: char| pre + seq![a] + post);
    assert forall|a: char| replace_first(s, p, seq![a]) == pre + seq![a] + post by {
        let i = choose|i: int| first_at(s, p, i);
        lemma_first_unique(s, p, i, n);
        assert(s.subrange(0, n) =~= pre);
        assert(s.subrange(n + p.len(), s.len() as int) =~= post);
    }
    assert(fan_out(seq![s], p, alts) =~= out) by {
        assert(seq![s].drop_last() =~= Seq::<Seq<char>>::empty());
        assert(fan_out(Seq::<Seq<char>>::empty(), p, alts) == Seq::<Seq<char>>::empty());
        assert(seq![s].last() == s);
        let f = fan_out(seq![s], p, alts);
        assert(f == Seq::<Seq<char>>::empty() + alts.map_values(
            |a: char| replace_first(s, p, seq![a]),
        ));
        assert forall|j: int| 0 <= j < alts.len() implies f[j] == out[j] by {
            assert(replace_first(s, p, seq![alts[j]]) == pre + seq![alts[j]] + post);
        }
    }
    assert(has_sub(s, p));
    assert(seq![s][0] == s);
    assert(!has_sub(out[0], p));
    let fuel = s.len();
    assert(s.len() > 0) by {
        assert(occurs_at(s, p, n));
        if p.len() == 0 {
            let t = pre + seq![alts[0]] + post;
            assert(t.subrange(0, 0) =~= p);
            assert(occurs_at(t, p, 0));
        }
    }
    assert(fan_out_while(seq![s], p, alts, fuel) == fan_out_while(out, p, alts, (fuel - 1) as nat));
    assert(fan_out_while(out, p, alts, (fuel - 1) as nat) == out);
    assert(expand_word(s, p, alts) == out);
    assert(seq![s].drop_last() =~= Seq::<Seq<char>>::empty());
    assert(expand_list(Seq::<Seq<char>>::empty(), p, alts) == Seq::<Seq<char>>::empty());
    assert(seq![s].last() == s);
    assert(expand_list(seq![s], p, alts) == Seq::<Seq<char>>::empty() + out);
    assert(expand_list(seq![s], p, alts) =~= out);
}

} // verus!
