use vstd::prelude::*;
use crate::text::{chars_of, views};

verus! {

/// A nucleotide of the four-letter alphabet.
pub open spec fn is_base(c: char) -> bool {
    c == 'A' || c == 'C' || c == 'G' || c == 'T'
}

/// The alternatives of an ambiguity code: two to four distinct bases.
pub open spec fn is_code(alts: Seq<char>) -> bool {
    &&& 2 <= alts.len() <= 4
    &&& forall|i: int| 0 <= i < alts.len() ==> is_base(#[trigger] alts[i])
    &&& alts.no_duplicates()
}

/// The bracket expression that spells a code: its alternatives between `[` and `]`.
pub open spec fn bracket_of(alts: Seq<char>) -> Seq<char> {
    seq!['['] + alts + seq![']']
}

/// The text between the outer brackets of an expression.
pub open spec fn inner(s: Seq<char>) -> Seq<char> {
    s.subrange(1, s.len() - 1)
}

/// `s` is a bracket expression of an ambiguity code.
pub open spec fn is_bracket(s: Seq<char>) -> bool {
    &&& s.len() >= 2
    &&& s[0] == '['
    &&& s[s.len() - 1] == ']'
    &&& is_code(inner(s))
}

/// Every spelling of every ambiguity code, in the order in which expansion applies them:
/// the two-letter codes, then the three-letter codes, then the four-letter code.
/// The alternatives of an entry are the letters of its spelling, in that order.
pub open spec fn code_table() -> Seq<Seq<char>> {
    seq![
        seq!['A', 'G'],
        seq!['G', 'A'],
        seq!['C', 'T'],
        seq!['T', 'C'],
        seq!['G', 'C'],
        seq!['C', 'G'],
        seq!['A', 'T'],
        seq!['T', 'A'],
        seq!['G', 'T'],
        seq!['T', 'G'],
        seq!['A', 'C'],
        seq!['C', 'A'],
        seq!['C', 'G', 'T'],
        seq!['G', 'C', 'T'],
        seq!['C', 'T', 'G'],
        seq!['T', 'G', 'C'],
        seq!['G', 'T', 'C'],
        seq!['T', 'C', 'G'],
        seq!['A', 'G', 'T'],
        seq!['G', 'A', 'T'],
        seq!['A', 'T', 'G'],
        seq!['T', 'G', 'A'],
        seq!['G', 'T', 'A'],
        seq!['T', 'A', 'G'],
        seq!['A', 'C', 'T'],
        seq!['C', 'A', 'T'],
        seq!['T', 'A', 'C'],
        seq!['A', 'T', 'C'],
        seq!['C', 'T', 'A'],
        seq!['T', 'C', 'A'],
        seq!['A', 'C', 'G'],
        seq!['A', 'G', 'C'],
        seq!['C', 'A', 'G'],
        seq!['C', 'G', 'A'],
        seq!['G', 'A', 'C'],
        seq!['G', 'C', 'A'],
        seq!['A', 'G', 'C', 'T'],
        seq!['A', 'C', 'G', 'T'],
        seq!['A', 'T', 'C', 'G'],
        seq!['A', 'G', 'T', 'C'],
        seq!['A', 'C', 'T', 'G'],
        seq!['A', 'T', 'G', 'C'],
        seq!['G', 'A', 'C', 'T'],
        seq!['G', 'A', 'T', 'C'],
        seq!['G', 'C', 'A', 'T'],
        seq!['G', 'C', 'T', 'A'],
        seq!['G', 'T', 'A', 'C'],
        seq!['G', 'T', 'C', 'A'],
        seq!['C', 'A', 'G', 'T'],
        seq!['C', 'A', 'T', 'G'],
        seq!['C', 'G', 'A', 'T'],
        seq!['C', 'G', 'T', 'A'],
        seq!['C', 'T', 'A', 'G'],
        seq!['C', 'T', 'G', 'A'],
        seq!['T', 'A', 'C', 'G'],
        seq!['T', 'A', 'G', 'C'],
        seq!['T', 'C', 'A', 'G'],
        seq!['T', 'C', 'G', 'A'],
        seq!['T', 'G', 'A', 'C'],
        seq!['T', 'G', 'C', 'A']
    ]
}

/// The table of ambiguity codes, as lists of alternatives.
pub fn ambiguity_codes() -> (r: Vec<Vec<char>>)
    ensures
        views(r@) == code_table(),
{
    let r = vec![
        vec!['A', 'G'],
        vec!['G', 'A'],
        vec!['C', 'T'],
        vec!['T', 'C'],
        vec!['G', 'C'],
        vec!['C', 'G'],
        vec!['A', 'T'],
        vec!['T', 'A'],
        vec!['G', 'T'],
        vec!['T', 'G'],
        vec!['A', 'C'],
        vec!['C', 'A'],
        vec!['C', 'G', 'T'],
        vec!['G', 'C', 'T'],
        vec!['C', 'T', 'G'],
        vec!['T', 'G', 'C'],
        vec!['G', 'T', 'C'],
        vec!['T', 'C', 'G'],
        vec!['A', 'G', 'T'],
        vec!['G', 'A', 'T'],
        vec!['A', 'T', 'G'],
        vec!['T', 'G', 'A'],
        vec!['G', 'T', 'A'],
        vec!['T', 'A', 'G'],
        vec!['A', 'C', 'T'],
        vec!['C', 'A', 'T'],
        vec!['T', 'A', 'C'],
        vec!['A', 'T', 'C'],
        vec!['C', 'T', 'A'],
        vec!['T', 'C', 'A'],
        vec!['A', 'C', 'G'],
        vec!['A', 'G', 'C'],
        vec!['C', 'A', 'G'],
        vec!['C', 'G', 'A'],
        vec!['G', 'A', 'C'],
        vec!['G', 'C', 'A'],
        vec!['A', 'G', 'C', 'T'],
        vec!['A', 'C', 'G', 'T'],
        vec!['A', 'T', 'C', 'G'],
        vec!['A', 'G', 'T', 'C'],
        vec!['A', 'C', 'T', 'G'],
        vec!['A', 'T', 'G', 'C'],
        vec!['G', 'A', 'C', 'T'],
        vec!['G', 'A', 'T', 'C'],
        vec!['G', 'C', 'A', 'T'],
        vec!['G', 'C', 'T', 'A'],
        vec!['G', 'T', 'A', 'C'],
        vec!['G', 'T', 'C', 'A'],
        vec!['C', 'A', 'G', 'T'],
        vec!['C', 'A', 'T', 'G'],
        vec!['C', 'G', 'A', 'T'],
        vec!['C', 'G', 'T', 'A'],
        vec!['C', 'T', 'A', 'G'],
        vec!['C', 'T', 'G', 'A'],
        vec!['T', 'A', 'C', 'G'],
        vec!['T', 'A', 'G', 'C'],
        vec!['T', 'C', 'A', 'G'],
        vec!['T', 'C', 'G', 'A'],
        vec!['T', 'G', 'A', 'C'],
        vec!['T', 'G', 'C', 'A']
    ];
    assert forall|i: int| 0 <= i < 60 implies r@[i]@ == code_table()[i] by {
        if i == 0 { assert(r@[0]@ == code_table()[0]); }
        if i == 1 { assert(r@[1]@ == code_table()[1]); }
        if i == 2 { assert(r@[2]@ == code_table()[2]); }
        if i == 3 { assert(r@[3]@ == code_table()[3]); }
        if i == 4 { assert(r@[4]@ == code_table()[4]); }
        if i == 5 { assert(r@[5]@ == code_table()[5]); }
        if i == 6 { assert(r@[6]@ == code_table()[6]); }
        if i == 7 { assert(r@[7]@ == code_table()[7]); }
        if i == 8 { assert(r@[8]@ == code_table()[8]); }
        if i == 9 { assert(r@[9]@ == code_table()[9]); }
        if i == 10 { assert(r@[10]@ == code_table()[10]); }
        if i == 11 { assert(r@[11]@ == code_table()[11]); }
        if i == 12 { assert(r@[12]@ == code_table()[12]); }
        if i == 13 { assert(r@[13]@ == code_table()[13]); }
        if i == 14 { assert(r@[14]@ == code_table()[14]); }
        if i == 15 { assert(r@[15]@ == code_table()[15]); }
        if i == 16 { assert(r@[16]@ == code_table()[16]); }
        if i == 17 { assert(r@[17]@ == code_table()[17]); }
        if i == 18 { assert(r@[18]@ == code_table()[18]); }
        if i == 19 { assert(r@[19]@ == code_table()[19]); }
        if i == 20 { assert(r@[20]@ == code_table()[20]); }
        if i == 21 { assert(r@[21]@ == code_table()[21]); }
        if i == 22 { assert(r@[22]@ == code_table()[22]); }
        if i == 23 { assert(r@[23]@ == code_table()[23]); }
        if i == 24 { assert(r@[24]@ == code_table()[24]); }
        if i == 25 { assert(r@[25]@ == code_table()[25]); }
        if i == 26 { assert(r@[26]@ == code_table()[26]); }
        if i == 27 { assert(r@[27]@ == code_table()[27]); }
        if i == 28 { assert(r@[28]@ == code_table()[28]); }
        if i == 29 { assert(r@[29]@ == code_table()[29]); }
        if i == 30 { assert(r@[30]@ == code_table()[30]); }
        if i == 31 { assert(r@[31]@ == code_table()[31]); }
        if i == 32 { assert(r@[32]@ == code_table()[32]); }
        if i == 33 { assert(r@[33]@ == code_table()[33]); }
        if i == 34 { assert(r@[34]@ == code_table()[34]); }
        if i == 35 { assert(r@[35]@ == code_table()[35]); }
        if i == 36 { assert(r@[36]@ == code_table()[36]); }
        if i == 37 { assert(r@[37]@ == code_table()[37]); }
        if i == 38 { assert(r@[38]@ == code_table()[38]); }
        if i == 39 { assert(r@[39]@ == code_table()[39]); }
        if i == 40 { assert(r@[40]@ == code_table()[40]); }
        if i == 41 { assert(r@[41]@ == code_table()[41]); }
        if i == 42 { assert(r@[42]@ == code_table()[42]); }
        if i == 43 { assert(r@[43]@ == code_table()[43]); }
        if i == 44 { assert(r@[44]@ == code_table()[44]); }
        if i == 45 { assert(r@[45]@ == code_table()[45]); }
        if i == 46 { assert(r@[46]@ == code_table()[46]); }
        if i == 47 { assert(r@[47]@ == code_table()[47]); }
        if i == 48 { assert(r@[48]@ == code_table()[48]); }
        if i == 49 { assert(r@[49]@ == code_table()[49]); }
        if i == 50 { assert(r@[50]@ == code_table()[50]); }
        if i == 51 { assert(r@[51]@ == code_table()[51]); }
        if i == 52 { assert(r@[52]@ == code_table()[52]); }
        if i == 53 { assert(r@[53]@ == code_table()[53]); }
        if i == 54 { assert(r@[54]@ == code_table()[54]); }
        if i == 55 { assert(r@[55]@ == code_table()[55]); }
        if i == 56 { assert(r@[56]@ == code_table()[56]); }
        if i == 57 { assert(r@[57]@ == code_table()[57]); }
        if i == 58 { assert(r@[58]@ == code_table()[58]); }
        if i == 59 { assert(r@[59]@ == code_table()[59]); }
    }
    assert(views(r@) =~= code_table());
    r
}

/// Whether `c` is a base of the alphabet.
pub fn is_base_exec(c: char) -> (r: bool)
    ensures
        r == is_base(c),
{
    c == 'A' || c == 'C' || c == 'G' || c == 'T'
}

/// The alternatives that a bracket expression stands for: the letters between its
/// brackets, in order, where the expression spells an ambiguity code; `None` otherwise.
pub fn lookup(expr: &str) -> (r: Option<Vec<char>>)
    ensures
        r is Some <==> is_bracket(expr@),
        r matches Some(a) ==> a@ == inner(expr@),
{
    let e = chars_of(expr);
    let n = e.len();
    if n < 4 || n > 6 || e[0] != '[' || e[n - 1] != ']' {
        return None;
    }
    let mut alts: Vec<char> = Vec::new();
    let mut i: usize = 1;
    while i < n - 1
        invariant
            e@ == expr@,
            4 <= n <= 6,
            n == e@.len(),
            e@[0] == '[',
            e@[n - 1] == ']',
            1 <= i <= n - 1,
            alts@ == e@.subrange(1, i as int),
            forall|k: int| 0 <= k < alts@.len() ==> is_base(#[trigger] alts@[k]),
            alts@.no_duplicates(),
        decreases n - 1 - i,
    {
        let c = e[i];
        if !is_base_exec(c) {
            assert(inner(e@)[i - 1] == c);
            return None;
        }
        let mut j: usize = 0;
        while j < alts.len()
            invariant
                e@ == expr@,
                4 <= n <= 6,
                n == e@.len(),
                1 <= i < n - 1,
                c == e@[i as int],
                alts@ == e@.subrange(1, i as int),
                j <= alts@.len(),
                forall|k: int| 0 <= k < j ==> alts@[k] != c,
            decreases alts.len() - j,
        {
            if alts[j] == c {
                assert(inner(e@)[j as int] == c && inner(e@)[i - 1] == c);
                return None;
            }
            j += 1;
        }
        alts.push(c);
        i += 1;
        assert(alts@ =~= e@.subrange(1, i as int));
    }
    assert(alts@ =~= inner(e@));
    Some(alts)
}

/// Every entry of the table is an ambiguity code.
pub proof fn lemma_table_codes()
    ensures
        code_table().len() == 60,
        forall|i: int| 0 <= i < 60 ==> is_code(#[trigger] code_table()[i]),
{
    assert forall|i: int| 0 <= i < 60 implies is_code(#[trigger] code_table()[i]) by {
        if i == 0 {
            assert(code_table()[0] == seq!['A', 'G']);
        }
        if i == 1 {
            assert(code_table()[1] == seq!['G', 'A']);
        }
        if i == 2 {
            assert(code_table()[2] == seq!['C', 'T']);
        }
        if i == 3 {
            assert(code_table()[3] == seq!['T', 'C']);
        }
        if i == 4 {
            assert(code_table()[4] == seq!['G', 'C']);
        }
        if i == 5 {
            assert(code_table()[5] == seq!['C', 'G']);
        }
        if i == 6 {
            assert(code_table()[6] == seq!['A', 'T']);
        }
        if i == 7 {
            assert(code_table()[7] == seq!['T', 'A']);
        }
        if i == 8 {
            assert(code_table()[8] == seq!['G', 'T']);
        }
        if i == 9 {
            assert(code_table()[9] == seq!['T', 'G']);
        }
        if i == 10 {
            assert(code_table()[10] == seq!['A', 'C']);
        }
        if i == 11 {
            assert(code_table()[11] == seq!['C', 'A']);
        }
        if i == 12 {
            assert(code_table()[12] == seq!['C', 'G', 'T']);
        }
        if i == 13 {
            assert(code_table()[13] == seq!['G', 'C', 'T']);
        }
        if i == 14 {
            assert(code_table()[14] == seq!['C', 'T', 'G']);
        }
        if i == 15 {
            assert(code_table()[15] == seq!['T', 'G', 'C']);
        }
        if i == 16 {
            assert(code_table()[16] == seq!['G', 'T', 'C']);
        }
        if i == 17 {
            assert(code_table()[17] == seq!['T', 'C', 'G']);
        }
        if i == 18 {
            assert(code_table()[18] == seq!['A', 'G', 'T']);
        }
        if i == 19 {
            assert(code_table()[19] == seq!['G', 'A', 'T']);
        }
        if i == 20 {
            assert(code_table()[20] == seq!['A', 'T', 'G']);
        }
        if i == 21 {
            assert(code_table()[21] == seq!['T', 'G', 'A']);
        }
        if i == 22 {
            assert(code_table()[22] == seq!['G', 'T', 'A']);
        }
        if i == 23 {
            assert(code_table()[23] == seq!['T', 'A', 'G']);
        }
        if i == 24 {
            assert(code_table()[24] == seq!['A', 'C', 'T']);
        }
        if i == 25 {
            assert(code_table()[25] == seq!['C', 'A', 'T']);
        }
        if i == 26 {
            assert(code_table()[26] == seq!['T', 'A', 'C']);
        }
        if i == 27 {
            assert(code_table()[27] == seq!['A', 'T', 'C']);
        }
        if i == 28 {
            assert(code_table()[28] == seq!['C', 'T', 'A']);
        }
        if i == 29 {
            assert(code_table()[29] == seq!['T', 'C', 'A']);
        }
        if i == 30 {
            assert(code_table()[30] == seq!['A', 'C', 'G']);
        }
        if i == 31 {
            assert(code_table()[31] == seq!['A', 'G', 'C']);
        }
        if i == 32 {
            assert(code_table()[32] == seq!['C', 'A', 'G']);
        }
        if i == 33 {
            assert(code_table()[33] == seq!['C', 'G', 'A']);
        }
        if i == 34 {
            assert(code_table()[34] == seq!['G', 'A', 'C']);
        }
        if i == 35 {
            assert(code_table()[35] == seq!['G', 'C', 'A']);
        }
        if i == 36 {
            assert(code_table()[36] == seq!['A', 'G', 'C', 'T']);
        }
        if i == 37 {
            assert(code_table()[37] == seq!['A', 'C', 'G', 'T']);
        }
        if i == 38 {
            assert(code_table()[38] == seq!['A', 'T', 'C', 'G']);
        }
        if i == 39 {
            assert(code_table()[39] == seq!['A', 'G', 'T', 'C']);
        }
        if i == 40 {
            assert(code_table()[40] == seq!['A', 'C', 'T', 'G']);
        }
        if i == 41 {
            assert(code_table()[41] == seq!['A', 'T', 'G', 'C']);
        }
        if i == 42 {
            assert(code_table()[42] == seq!['G', 'A', 'C', 'T']);
        }
        if i == 43 {
            assert(code_table()[43] == seq!['G', 'A', 'T', 'C']);
        }
        if i == 44 {
            assert(code_table()[44] == seq!['G', 'C', 'A', 'T']);
        }
        if i == 45 {
            assert(code_table()[45] == seq!['G', 'C', 'T', 'A']);
        }
        if i == 46 {
            assert(code_table()[46] == seq!['G', 'T', 'A', 'C']);
        }
        if i == 47 {
            assert(code_table()[47] == seq!['G', 'T', 'C', 'A']);
        }
        if i == 48 {
            assert(code_table()[48] == seq!['C', 'A', 'G', 'T']);
        }
        if i == 49 {
            assert(code_table()[49] == seq!['C', 'A', 'T', 'G']);
        }
        if i == 50 {
            assert(code_table()[50] == seq!['C', 'G', 'A', 'T']);
        }
        if i == 51 {
            assert(code_table()[51] == seq!['C', 'G', 'T', 'A']);
        }
        if i == 52 {
            assert(code_table()[52] == seq!['C', 'T', 'A', 'G']);
        }
        if i == 53 {
            assert(code_table()[53] == seq!['C', 'T', 'G', 'A']);
        }
        if i == 54 {
            assert(code_table()[54] == seq!['T', 'A', 'C', 'G']);
        }
        if i == 55 {
            assert(code_table()[55] == seq!['T', 'A', 'G', 'C']);
        }
        if i == 56 {
            assert(code_table()[56] == seq!['T', 'C', 'A', 'G']);
        }
        if i == 57 {
            assert(code_table()[57] == seq!['T', 'C', 'G', 'A']);
        }
        if i == 58 {
            assert(code_table()[58] == seq!['T', 'G', 'A', 'C']);
        }
        if i == 59 {
            assert(code_table()[59] == seq!['T', 'G', 'C', 'A']);
        }
    }
}

/// Every ambiguity code, in every order of its letters, is in the table.
pub proof fn lemma_table_complete(alts: Seq<char>)
    requires
        is_code(alts),
    ensures
        code_table().contains(alts),
{
    assert(is_base(alts[0]) && is_base(alts[1]));
    if alts.len() == 2 {
        if alts[0] == 'A' {
            if alts[1] == 'A' {
            } else if alts[1] == 'C' {
                assert(alts =~= code_table()[10]);
            } else if alts[1] == 'G' {
                assert(alts =~= code_table()[0]);
            } else {
                assert(alts =~= code_table()[6]);
            }
        } else if alts[0] == 'C' {
            if alts[1] == 'A' {
                assert(alts =~= code_table()[11]);
            } else if alts[1] == 'C' {
            } else if alts[1] == 'G' {
                assert(alts =~= code_table()[5]);
            } else {
                assert(alts =~= code_table()[2]);
            }
        } else if alts[0] == 'G' {
            if alts[1] == 'A' {
                assert(alts =~= code_table()[1]);
            } else if alts[1] == 'C' {
                assert(alts =~= code_table()[4]);
            } else if alts[1] == 'G' {
            } else {
                assert(alts =~= code_table()[8]);
            }
        } else {
            if alts[1] == 'A' {
                assert(alts =~= code_table()[7]);
            } else if alts[1] == 'C' {
                assert(alts =~= code_table()[3]);
            } else if alts[1] == 'G' {
                assert(alts =~= code_table()[9]);
            } else {
            }
        }
    } else if alts.len() == 3 {
        assert(is_base(alts[2]));
        if alts[0] == 'A' {
            if alts[1] == 'A' {
                if alts[2] == 'A' {
                } else if alts[2] == 'C' {
                } else if alts[2] == 'G' {
                } else {
                }
            } else if alts[1] == 'C' {
                if alts[2] == 'A' {
                } else if alts[2] == 'C' {
                } else if alts[2] == 'G' {
                    assert(alts =~= code_table()[30]);
                } else {
                    assert(alts =~= code_table()[24]);
                }
            } else if alts[1] == 'G' {
                if alts[2] == 'A' {
                } else if alts[2] == 'C' {
                    assert(alts =~= code_table()[31]);
                } else if alts[2] == 'G' {
                } else {
                    assert(alts =~= code_table()[18]);
                }
            } else {
                if alts[2] == 'A' {
                } else if alts[2] == 'C' {
                    assert(alts =~= code_table()[27]);
                } else if alts[2] == 'G' {
                    assert(alts =~= code_table()[20]);
                } else {
                }
            }
        } else if alts[0] == 'C' {
            if alts[1] == 'A' {
                if alts[2] == 'A' {
                } else if alts[2] == 'C' {
                } else if alts[2] == 'G' {
                    assert(alts =~= code_table()[32]);
                } else {
                    assert(alts =~= code_table()[25]);
                }
            } else if alts[1] == 'C' {
                if alts[2] == 'A' {
                } else if alts[2] == 'C' {
                } else if alts[2] == 'G' {
                } else {
                }
            } else if alts[1] == 'G' {
                if alts[2] == 'A' {
                    assert(alts =~= code_table()[33]);
                } else if alts[2] == 'C' {
                } else if alts[2] == 'G' {
                } else {
                    assert(alts =~= code_table()[12]);
                }
            } else {
                if alts[2] == 'A' {
                    assert(alts =~= code_table()[28]);
                } else if alts[2] == 'C' {
                } else if alts[2] == 'G' {
                    assert(alts =~= code_table()[14]);
                } else {
                }
            }
        } else if alts[0] == 'G' {
            if alts[1] == 'A' {
                if alts[2] == 'A' {
                } else if alts[2] == 'C' {
                    assert(alts =~= code_table()[34]);
                } else if alts[2] == 'G' {
                } else {
                    assert(alts =~= code_table()[19]);
                }
            } else if alts[1] == 'C' {
                if alts[2] == 'A' {
                    assert(alts =~= code_table()[35]);
                } else if alts[2] == 'C' {
                } else if alts[2] == 'G' {
                } else {
                    assert(alts =~= code_table()[13]);
                }
            } else if alts[1] == 'G' {
                if alts[2] == 'A' {
                } else if alts[2] == 'C' {
                } else if alts[2] == 'G' {
                } else {
                }
            } else {
                if alts[2] == 'A' {
                    assert(alts =~= code_table()[22]);
                } else if alts[2] == 'C' {
                    assert(alts =~= code_table()[16]);
                } else if alts[2] == 'G' {
                } else {
                }
            }
        } else {
            if alts[1] == 'A' {
                if alts[2] == 'A' {
                } else if alts[2] == 'C' {
                    assert(alts =~= code_table()[26]);
                } else if alts[2] == 'G' {
                    assert(alts =~= code_table()[23]);
                } else {
                }
            } else if alts[1] == 'C' {
                if alts[2] == 'A' {
                    assert(alts =~= code_table()[29]);
                } else if alts[2] == 'C' {
                } else if alts[2] == 'G' {
                    assert(alts =~= code_table()[17]);
                } else {
                }
            } else if alts[1] == 'G' {
                if alts[2] == 'A' {
                    assert(alts =~= code_table()[21]);
                } else if alts[2] == 'C' {
                    assert(alts =~= code_table()[15]);
                } else if alts[2] == 'G' {
                } else {
                }
            } else {
                if alts[2] == 'A' {
                } else if alts[2] == 'C' {
                } else if alts[2] == 'G' {
                } else {
                }
            }
        }
    } else {
        assert(is_base(alts[2]) && is_base(alts[3]));
        if alts[0] == 'A' {
            if alts[1] == 'A' {
                if alts[2] == 'A' {
                    if alts[3] == 'A' {
                    } else if alts[3] == 'C' {
                    } else if alts[3] == 'G' {
                    } else {
                    }
                } else if alts[2] == 'C' {
                    if alts[3] == 'A' {
                    } else if alts[3] == 'C' {
                    } else if alts[3] == 'G' {
                    } else {
                    }
                } else if alts[2] == 'G' {
                    if alts[3] == 'A' {
                    } else if alts[3] == 'C' {
                    } else if alts[3] == 'G' {
                    } else {
                    }
                } else {
                    if alts[3] == 'A' {
                    } else if alts[3] == 'C' {
                    } else if alts[3] == 'G' {
                    } else {
                    }
                }
            } else if alts[1] == 'C' {
                if alts[2] == 'A' {
                    if alts[3] == 'A' {
                    } else if alts[3] == 'C' {
                    } else if alts[3] == 'G' {
                    } else {
                    }
                } else if alts[2] == 'C' {
                    if alts[3] == 'A' {
                    } else if alts[3] == 'C' {
                    } else if alts[3] == 'G' {
                    } else {
                    }
                } else if alts[2] == 'G' {
                    if alts[3] == 'A' {
                    } else if alts[3] == 'C' {
                    } else if alts[3] == 'G' {
                    } else {
                        assert(alts =~= code_table()[37]);
                    }
                } else {
                    if alts[3] == 'A' {
                    } else if alts[3] == 'C' {
                    } else if alts[3] == 'G' {
                        assert(alts =~= code_table()[40]);
                    } else {
                    }
                }
            } else if alts[1] == 'G' {
                if alts[2] == 'A' {
                    if alts[3] == 'A' {
                    } else if alts[3] == 'C' {
                    } else if alts[3] == 'G' {
                    } else {
                    }
                } else if alts[2] == 'C' {
                    if alts[3] == 'A' {
                    } else if alts[3] == 'C' {
                    } else if alts[3] == 'G' {
                    } else {
                        assert(alts =~= code_table()[36]);
                    }
                } else if alts[2] == 'G' {
                    if alts[3] == 'A' {
                    } else if alts[3] == 'C' {
                    } else if alts[3] == 'G' {
                    } else {
                    }
                } else {
                    if alts[3] == 'A' {
                    } else if alts[3] == 'C' {
                        assert(alts =~= code_table()[39]);
                    } else if alts[3] == 'G' {
                    } else {
                    }
                }
            } else {
                if alts[2] == 'A' {
                    if alts[3] == 'A' {
                    } else if alts[3] == 'C' {
                    } else if alts[3] == 'G' {
                    } else {
                    }
                } else if alts[2] == 'C' {
                    if alts[3] == 'A' {
                    } else if alts[3] == 'C' {
                    } else if alts[3] == 'G' {
                        assert(alts =~= code_table()[38]);
                    } else {
                    }
                } else if alts[2] == 'G' {
                    if alts[3] == 'A' {
                    } else if alts[3] == 'C' {
                        assert(alts =~= code_table()[41]);
                    } else if alts[3] == 'G' {
                    } else {
                    }
                } else {
                    if alts[3] == 'A' {
                    } else if alts[3] == 'C' {
                    } else if alts[3] == 'G' {
                    } else {
                    }
                }
            }
        } else if alts[0] == 'C' {
            if alts[1] == 'A' {
                if alts[2] == 'A' {
                    if alts[3] == 'A' {
                    } else if alts[3] == 'C' {
                    } else if alts[3] == 'G' {
                    } else {
                    }
                } else if alts[2] == 'C' {
                    if alts[3] == 'A' {
                    } else if alts[3] == 'C' {
                    } else if alts[3] == 'G' {
                    } else {
                    }
                } else if alts[2] == 'G' {
                    if alts[3] == 'A' {
                    } else if alts[3] == 'C' {
                    } else if alts[3] == 'G' {
                    } else {
                        assert(alts =~= code_table()[48]);
                    }
                } else {
                    if alts[3] == 'A' {
                    } else if alts[3] == 'C' {
                    } else if alts[3] == 'G' {
                        assert(alts =~= code_table()[49]);
                    } else {
                    }
                }
            } else if alts[1] == 'C' {
                if alts[2] == 'A' {
                    if alts[3] == 'A' {
                    } else if alts[3] == 'C' {
                    } else if alts[3] == 'G' {
                    } else {
                    }
                } else if alts[2] == 'C' {
                    if alts[3] == 'A' {
                    } else if alts[3] == 'C' {
                    } else if alts[3] == 'G' {
                    } else {
                    }
                } else if alts[2] == 'G' {
                    if alts[3] == 'A' {
                    } else if alts[3] == 'C' {
                    } else if alts[3] == 'G' {
                    } else {
                    }
                } else {
                    if alts[3] == 'A' {
                    } else if alts[3] == 'C' {
                    } else if alts[3] == 'G' {
                    } else {
                    }
                }
            } else if alts[1] == 'G' {
                if alts[2] == 'A' {
                    if alts[3] == 'A' {
                    } else if alts[3] == 'C' {
                    } else if alts[3] == 'G' {
                    } else {
                        assert(alts =~= code_table()[50]);
                    }
                } else if alts[2] == 'C' {
                    if alts[3] == 'A' {
                    } else if alts[3] == 'C' {
                    } else if alts[3] == 'G' {
                    } else {
                    }
                } else if alts[2] == 'G' {
                    if alts[3] == 'A' {
                    } else if alts[3] == 'C' {
                    } else if alts[3] == 'G' {
                    } else {
                    }
                } else {
                    if alts[3] == 'A' {
                        assert(alts =~= code_table()[51]);
                    } else if alts[3] == 'C' {
                    } else if alts[3] == 'G' {
                    } else {
                    }
                }
            } else {
                if alts[2] == 'A' {
                    if alts[3] == 'A' {
                    } else if alts[3] == 'C' {
                    } else if alts[3] == 'G' {
                        assert(alts =~= code_table()[52]);
                    } else {
                    }
                } else if alts[2] == 'C' {
                    if alts[3] == 'A' {
                    } else if alts[3] == 'C' {
                    } else if alts[3] == 'G' {
                    } else {
                    }
                } else if alts[2] == 'G' {
                    if alts[3] == 'A' {
                        assert(alts =~= code_table()[53]);
                    } else if alts[3] == 'C' {
                    } else if alts[3] == 'G' {
                    } else {
                    }
                } else {
                    if alts[3] == 'A' {
                    } else if alts[3] == 'C' {
                    } else if alts[3] == 'G' {
                    } else {
                    }
                }
            }
        } else if alts[0] == 'G' {
            if alts[1] == 'A' {
                if alts[2] == 'A' {
                    if alts[3] == 'A' {
                    } else if alts[3] == 'C' {
                    } else if alts[3] == 'G' {
                    } else {
                    }
                } else if alts[2] == 'C' {
                    if alts[3] == 'A' {
                    } else if alts[3] == 'C' {
                    } else if alts[3] == 'G' {
                    } else {
                        assert(alts =~= code_table()[42]);
                    }
                } else if alts[2] == 'G' {
                    if alts[3] == 'A' {
                    } else if alts[3] == 'C' {
                    } else if alts[3] == 'G' {
                    } else {
                    }
                } else {
                    if alts[3] == 'A' {
                    } else if alts[3] == 'C' {
                        assert(alts =~= code_table()[43]);
                    } else if alts[3] == 'G' {
                    } else {
                    }
                }
            } else if alts[1] == 'C' {
                if alts[2] == 'A' {
                    if alts[3] == 'A' {
                    } else if alts[3] == 'C' {
                    } else if alts[3] == 'G' {
                    } else {
                        assert(alts =~= code_table()[44]);
                    }
                } else if alts[2] == 'C' {
                    if alts[3] == 'A' {
                    } else if alts[3] == 'C' {
                    } else if alts[3] == 'G' {
                    } else {
                    }
                } else if alts[2] == 'G' {
                    if alts[3] == 'A' {
                    } else if alts[3] == 'C' {
                    } else if alts[3] == 'G' {
                    } else {
                    }
                } else {
                    if alts[3] == 'A' {
                        assert(alts =~= code_table()[45]);
                    } else if alts[3] == 'C' {
                    } else if alts[3] == 'G' {
                    } else {
                    }
                }
            } else if alts[1] == 'G' {
                if alts[2] == 'A' {
                    if alts[3] == 'A' {
                    } else if alts[3] == 'C' {
                    } else if alts[3] == 'G' {
                    } else {
                    }
                } else if alts[2] == 'C' {
                    if alts[3] == 'A' {
                    } else if alts[3] == 'C' {
                    } else if alts[3] == 'G' {
                    } else {
                    }
                } else if alts[2] == 'G' {
                    if alts[3] == 'A' {
                    } else if alts[3] == 'C' {
                    } else if alts[3] == 'G' {
                    } else {
                    }
                } else {
                    if alts[3] == 'A' {
                    } else if alts[3] == 'C' {
                    } else if alts[3] == 'G' {
                    } else {
                    }
                }
            } else {
                if alts[2] == 'A' {
                    if alts[3] == 'A' {
                    } else if alts[3] == 'C' {
                        assert(alts =~= code_table()[46]);
                    } else if alts[3] == 'G' {
                    } else {
                    }
                } else if alts[2] == 'C' {
                    if alts[3] == 'A' {
                        assert(alts =~= code_table()[47]);
                    } else if alts[3] == 'C' {
                    } else if alts[3] == 'G' {
                    } else {
                    }
                } else if alts[2] == 'G' {
                    if alts[3] == 'A' {
                    } else if alts[3] == 'C' {
                    } else if alts[3] == 'G' {
                    } else {
                    }
                } else {
                    if alts[3] == 'A' {
                    } else if alts[3] == 'C' {
                    } else if alts[3] == 'G' {
                    } else {
                    }
                }
            }
        } else {
            if alts[1] == 'A' {
                if alts[2] == 'A' {
                    if alts[3] == 'A' {
                    } else if alts[3] == 'C' {
                    } else if alts[3] == 'G' {
                    } else {
                    }
                } else if alts[2] == 'C' {
                    if alts[3] == 'A' {
                    } else if alts[3] == 'C' {
                    } else if alts[3] == 'G' {
                        assert(alts =~= code_table()[54]);
                    } else {
                    }
                } else if alts[2] == 'G' {
                    if alts[3] == 'A' {
                    } else if alts[3] == 'C' {
                        assert(alts =~= code_table()[55]);
                    } else if alts[3] == 'G' {
                    } else {
                    }
                } else {
                    if alts[3] == 'A' {
                    } else if alts[3] == 'C' {
                    } else if alts[3] == 'G' {
                    } else {
                    }
                }
            } else if alts[1] == 'C' {
                if alts[2] == 'A' {
                    if alts[3] == 'A' {
                    } else if alts[3] == 'C' {
                    } else if alts[3] == 'G' {
                        assert(alts =~= code_table()[56]);
                    } else {
                    }
                } else if alts[2] == 'C' {
                    if alts[3] == 'A' {
                    } else if alts[3] == 'C' {
                    } else if alts[3] == 'G' {
                    } else {
                    }
                } else if alts[2] == 'G' {
                    if alts[3] == 'A' {
                        assert(alts =~= code_table()[57]);
                    } else if alts[3] == 'C' {
                    } else if alts[3] == 'G' {
                    } else {
                    }
                } else {
                    if alts[3] == 'A' {
                    } else if alts[3] == 'C' {
                    } else if alts[3] == 'G' {
                    } else {
                    }
                }
            } else if alts[1] == 'G' {
                if alts[2] == 'A' {
                    if alts[3] == 'A' {
                    } else if alts[3] == 'C' {
                        assert(alts =~= code_table()[58]);
                    } else if alts[3] == 'G' {
                    } else {
                    }
                } else if alts[2] == 'C' {
                    if alts[3] == 'A' {
                        assert(alts =~= code_table()[59]);
                    } else if alts[3] == 'C' {
                    } else if alts[3] == 'G' {
                    } else {
                    }
                } else if alts[2] == 'G' {
                    if alts[3] == 'A' {
                    } else if alts[3] == 'C' {
                    } else if alts[3] == 'G' {
                    } else {
                    }
                } else {
                    if alts[3] == 'A' {
                    } else if alts[3] == 'C' {
                    } else if alts[3] == 'G' {
                    } else {
                    }
                }
            } else {
                if alts[2] == 'A' {
                    if alts[3] == 'A' {
                    } else if alts[3] == 'C' {
                    } else if alts[3] == 'G' {
                    } else {
                    }
                } else if alts[2] == 'C' {
                    if alts[3] == 'A' {
                    } else if alts[3] == 'C' {
                    } else if alts[3] == 'G' {
                    } else {
                    }
                } else if alts[2] == 'G' {
                    if alts[3] == 'A' {
                    } else if alts[3] == 'C' {
                    } else if alts[3] == 'G' {
                    } else {
                    }
                } else {
                    if alts[3] == 'A' {
                    } else if alts[3] == 'C' {
                    } else if alts[3] == 'G' {
                    } else {
                    }
                }
            }
        }
    }
}

} // verus!
