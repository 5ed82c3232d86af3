use spikeq::ambiguity::{ambiguity_codes, lookup};
use spikeq::args::{parse_length_range, parse_usize};
use spikeq::config::{patterns_from_json, set_name_from_json, ConfigError, PatternFileSchema};
use spikeq::expand::{expand_patterns, expand_strings, replace_first_exec};
use spikeq::matcher::{ForbiddenSet, Matcher};
use spikeq::run::{generate_records, GenerateError, SpikeRequest};
use spikeq::sample::{accept_candidate, bases_from_draws, generate_quality_line, generate_sequence, quality_from_draws};
use spikeq::spike::{insert_at_positions, insert_patterns, select_spike_patterns, tally_presence};
use spikeq::text::{chars_of, find, string_of};
use std::collections::BTreeSet;

fn strings(v: &[&str]) -> Vec<String> {
    v.iter().map(|s| s.to_string()).collect()
}

fn forbidden(v: &[&str]) -> ForbiddenSet {
    ForbiddenSet::from_patterns(&strings(v)).expect("patterns compile")
}

#[test]
fn table_has_every_spelling_once() {
    let t = ambiguity_codes();
    assert_eq!(t.len(), 60);
    let set: BTreeSet<Vec<char>> = t.iter().cloned().collect();
    assert_eq!(set.len(), 60);
    assert_eq!(t.iter().filter(|a| a.len() == 2).count(), 12);
    assert_eq!(t.iter().filter(|a| a.len() == 3).count(), 24);
    assert_eq!(t.iter().filter(|a| a.len() == 4).count(), 24);
    assert_eq!(t[0], vec!['A', 'G']);
    assert_eq!(t[59], vec!['T', 'G', 'C', 'A']);
}

#[test]
fn lookup_reads_codes() {
    assert_eq!(lookup("[AG]"), Some(vec!['A', 'G']));
    assert_eq!(lookup("[GA]"), Some(vec!['G', 'A']));
    assert_eq!(lookup("[TGCA]"), Some(vec!['T', 'G', 'C', 'A']));
    assert_eq!(lookup("[AA]"), None);
    assert_eq!(lookup("[AGX]"), None);
    assert_eq!(lookup("AG"), None);
    assert_eq!(lookup("[A]"), None);
    assert_eq!(lookup("[ACGTA]"), None);
}

#[test]
fn end_to_end_gattaca() {
    let expanded = expand_patterns(&strings(&["GA[TA]TACA"]));
    assert_eq!(expanded, strings(&["GATTACA", "GAATACA"]));
    let f = ForbiddenSet::from_patterns(&expanded).expect("both are valid patterns");
    for _ in 0..5 {
        let s = generate_sequence(10, 10, &f, 100_000).expect("a free sequence");
        assert_eq!(s.len(), 10);
        assert!(!s.contains("GATTACA"));
        assert!(!s.contains("GAATACA"));
    }
}

#[test]
fn literal_pattern_is_unchanged() {
    assert_eq!(expand_patterns(&strings(&["GATTACA"])), strings(&["GATTACA"]));
    let once = expand_patterns(&strings(&["A[CT]G[AG]"]));
    assert_eq!(expand_patterns(&once), once);
}

#[test]
fn spellings_expand_to_same_set() {
    let a: BTreeSet<String> = expand_patterns(&strings(&["[AG]"])).into_iter().collect();
    let b: BTreeSet<String> = expand_patterns(&strings(&["[GA]"])).into_iter().collect();
    assert_eq!(a, b);
    assert_eq!(a, strings(&["A", "G"]).into_iter().collect());
    let c: BTreeSet<String> = expand_patterns(&strings(&["[CGT]"])).into_iter().collect();
    let d: BTreeSet<String> = expand_patterns(&strings(&["[TCG]"])).into_iter().collect();
    assert_eq!(c, d);
}

#[test]
fn single_code_gives_degree_many() {
    assert_eq!(expand_patterns(&strings(&["AC[CGT]T"])), strings(&["ACCT", "ACGT", "ACTT"]));
    assert_eq!(expand_patterns(&strings(&["[ACGT]"])).len(), 4);
    assert_eq!(expand_patterns(&strings(&["G[TA]"])), strings(&["GT", "GA"]));
}

#[test]
fn expansion_follows_table_order() {
    // [AG] comes before [CT] in the table, so it fans out first wherever it stands.
    assert_eq!(
        expand_patterns(&strings(&["[CT][AG]"])),
        strings(&["CA", "TA", "CG", "TG"])
    );
    assert_eq!(
        expand_patterns(&strings(&["[AG][CT]"])),
        strings(&["AC", "AT", "GC", "GT"])
    );
    assert_eq!(expand_patterns(&strings(&["A", "[AC]"])), strings(&["A", "A", "C"]));
    assert_eq!(expand_patterns(&strings(&["[XY]"])), strings(&["[XY]"]));
}

#[test]
fn expand_strings_one_spelling() {
    let out = expand_strings(vec![chars_of("[AG]x[AG]")], &chars_of("[AG]"), &vec!['A', 'G']);
    let got: Vec<String> = out.iter().map(string_of).collect();
    assert_eq!(got, strings(&["AxA", "AxG", "GxA", "GxG"]));
}

#[test]
fn replace_and_find() {
    assert_eq!(find(&chars_of("abcabc"), &chars_of("ca")), Some(2));
    assert_eq!(find(&chars_of("abc"), &chars_of("d")), None);
    assert_eq!(string_of(&replace_first_exec(&chars_of("xAGyAG"), &chars_of("AG"), 'Z')), "xZyAG");
    assert_eq!(string_of(&replace_first_exec(&chars_of("xy"), &chars_of("AG"), 'Z')), "xy");
}

#[test]
fn invalid_pattern_is_reported() {
    let e = ForbiddenSet::from_patterns(&strings(&["GAT", "GA("])).err().expect("an error");
    assert_eq!(e.pattern, "GA(");
    assert!(Matcher::new("[AG").is_err());
    assert!(Matcher::new("GATTACA").is_ok());
}

#[test]
fn matcher_uses_regex() {
    let f = forbidden(&["GA.T"]);
    assert!(f.matches_any("CCGAATCC"));
    assert!(!f.matches_any("CCGATCC"));
    let g = forbidden(&["TTT", "CAC"]);
    assert!(g.matches_any("ACACA"));
    assert!(!g.matches_any("ACGTA"));
    assert!(!ForbiddenSet::empty().matches_any("TTT"));
    assert_eq!(g.len(), 2);
    assert_eq!(g.pattern(1), "CAC");
}

#[test]
fn sequence_in_range_and_free() {
    let f = forbidden(&["AA", "CC"]);
    for _ in 0..20 {
        let s = generate_sequence(3, 8, &f, 1_000_000).expect("a free sequence");
        assert!(s.len() >= 3 && s.len() <= 8);
        assert!(s.chars().all(|c| "ACGT".contains(c)));
        assert!(!s.contains("AA") && !s.contains("CC"));
    }
    assert_eq!(generate_sequence(3, 8, &f, 0), None);
    assert_eq!(generate_sequence(0, 0, &ForbiddenSet::empty(), 1), Some(String::new()));
}

#[test]
fn quality_line_printable() {
    let f = forbidden(&["A"]);
    let q = generate_quality_line(50, &f, 1_000_000).expect("a free line");
    assert_eq!(q.chars().count(), 50);
    assert!(q.chars().all(|c| (33..=126).contains(&(c as u32))));
    assert!(!q.contains('A'));
    assert_eq!(generate_quality_line(5, &f, 0), None);
    assert_eq!(generate_quality_line(0, &ForbiddenSet::empty(), 1), Some(String::new()));
}

#[test]
fn draws_spell_text() {
    assert_eq!(bases_from_draws(&vec![0, 1, 2, 3, 0]), "ACTGA");
    assert_eq!(quality_from_draws(&vec![0, 93, 32]), "!~A");
}

#[test]
fn select_truncates_to_pool() {
    let pool = strings(&["AAA", "CCC"]);
    let s = select_spike_patterns(&pool, 5);
    assert_eq!(s.len(), 2);
    let set: BTreeSet<String> = s.into_iter().collect();
    assert_eq!(set, pool.into_iter().collect());
}

#[test]
fn select_distinct_subset() {
    let pool = strings(&["A1", "B2", "C3", "D4", "E5"]);
    let s = select_spike_patterns(&pool, 3);
    assert_eq!(s.len(), 3);
    let set: BTreeSet<&String> = s.iter().collect();
    assert_eq!(set.len(), 3);
    assert!(s.iter().all(|p| pool.contains(p)));
    assert_eq!(select_spike_patterns(&pool, 0).len(), 0);
}

#[test]
fn insertion_at_given_positions() {
    let mut s = String::from("AAAA");
    insert_at_positions(&mut s, &strings(&["CC", "GG"]), &vec![1, 0]);
    assert_eq!(s, "GGACCAAA");
    let mut t = String::from("AC");
    insert_at_positions(&mut t, &strings(&["T"]), &vec![2]);
    assert_eq!(t, "ACT");
}

#[test]
fn random_insertion_keeps_last_pattern() {
    let mut s = String::from("AAAAAAAA");
    insert_patterns(&mut s, &strings(&["CCC", "GGG"]));
    assert_eq!(s.len(), 14);
    assert!(s.contains("GGG"));
    assert_eq!(s.chars().filter(|c| *c == 'A').count(), 8);
}

#[test]
fn presence_counted_once_per_sequence() {
    let mut counts = vec![0usize, 5, 1];
    tally_presence("GATTACAGATTACA", &strings(&["GATTACA", "CCC", "ACAG"]), &mut counts);
    assert_eq!(counts, vec![1, 5, 2]);
}

#[test]
fn spiking_scenario() {
    let pool = ["GGGGGG", "CCCCCC", "TTTTTT", "AAAAAA", "GCGCGC"];
    let f = forbidden(&pool);
    let req = SpikeRequest { num_patterns: 3, num_sequences: 2 };
    let out = generate_records(10, 20, 30, &f, Some(req), 1_000_000).ok().expect("a run");
    assert_eq!(out.records.len(), 10);
    let sum = out.spike.expect("a summary");
    assert_eq!(sum.patterns.len(), 3);
    assert_eq!(sum.counts.len(), 3);
    let holding: Vec<bool> = out
        .records
        .iter()
        .map(|r| sum.patterns.iter().any(|p| r.sequence.contains(p.as_str())))
        .collect();
    assert_eq!(holding.iter().filter(|h| **h).count(), 2);
    assert!(holding[0] && holding[1]);
    for r in &out.records[2..] {
        assert!(r.sequence.len() >= 20 && r.sequence.len() <= 30);
        assert!(pool.iter().all(|p| !r.sequence.contains(p)));
    }
    for r in &out.records {
        assert_eq!(r.quality.chars().count(), r.sequence.chars().count());
    }
    assert!(sum.counts.iter().all(|c| *c <= 2));
    assert_eq!(sum.counts[2], 2);
}

#[test]
fn run_without_spiking() {
    let f = forbidden(&["TATA"]);
    let out = generate_records(4, 5, 5, &f, None, 1_000_000).ok().expect("a run");
    assert!(out.spike.is_none());
    assert!(out.records.iter().all(|r| r.sequence.len() == 5 && !r.sequence.contains("TATA")));
    assert_eq!(
        generate_records(1, 5, 5, &f, None, 0).err(),
        Some(GenerateError::SequenceBudgetExhausted)
    );
}

#[test]
fn length_range_parsing() {
    assert_eq!(parse_length_range("100,600"), Ok((100, 600)));
    assert_eq!(parse_length_range("5,5"), Ok((5, 5)));
    assert_eq!(parse_length_range("+7,8"), Ok((7, 8)));
    assert_eq!(parse_length_range("100"), Err("Invalid length range: 100".to_string()));
    assert_eq!(parse_length_range("1,2,3"), Err("Invalid length range: 1,2,3".to_string()));
    assert_eq!(parse_length_range("a,5"), Err("Invalid number: a".to_string()));
    assert_eq!(parse_length_range("5,"), Err("Invalid number: ".to_string()));
    assert_eq!(parse_length_range("5, 6"), Err("Invalid number:  6".to_string()));
    assert_eq!(
        parse_length_range("9,3"),
        Err("Min length cannot be greater than max length: 9,3".to_string())
    );
}

#[test]
fn usize_parsing() {
    assert_eq!(parse_usize(&chars_of("0")), Some(0));
    assert_eq!(parse_usize(&chars_of("18446744073709551615")), Some(usize::MAX));
    assert_eq!(parse_usize(&chars_of("18446744073709551616")), None);
    assert_eq!(parse_usize(&chars_of("+")), None);
    assert_eq!(parse_usize(&chars_of("-1")), None);
    assert_eq!(parse_usize(&chars_of("")), None);
}

#[test]
fn pattern_file_is_read() {
    let schema = PatternFileSchema::load().ok().expect("the schema compiles");
    let text = r#"{"regexSet": {"regexSetName": "demo", "regex": [
        {"regexName": "a", "regexString": "GA[TA]TACA"},
        {"regexName": "b", "regexString": "CCC"}]}}"#;
    assert_eq!(patterns_from_json(text, &schema).ok(), Some(strings(&["GA[TA]TACA", "CCC"])));
    let one = r#"{"regexSet":{"regexSetName":"demo","regex":[{"regexName":"p1","regexString":"GA[TA]TACA"}]}}"#;
    assert_eq!(patterns_from_json(one, &schema).ok(), Some(strings(&["GA[TA]TACA"])));
    assert_eq!(set_name_from_json(text).ok(), Some("demo".to_string()));
    assert_eq!(set_name_from_json("{}").ok(), Some("unknown".to_string()));
    assert!(matches!(set_name_from_json("{"), Err(ConfigError::NotJson)));
}

#[test]
fn pattern_file_errors() {
    let schema = PatternFileSchema::load().ok().expect("the schema compiles");
    assert!(matches!(patterns_from_json("not json", &schema), Err(ConfigError::NotJson)));
    assert!(matches!(patterns_from_json("{", &schema), Err(ConfigError::NotJson)));
    let empty = r#"{"regexSet": {"regexSetName": "demo", "regex": []}}"#;
    assert!(matches!(patterns_from_json(empty, &schema), Err(ConfigError::Invalid(m)) if !m.is_empty()));
    let missing = r#"{"other": 1}"#;
    assert!(matches!(patterns_from_json(missing, &schema), Err(ConfigError::Invalid(_))));
    let two = r#"{"regexSet": {"regex": [{"regexName": 1}]}}"#;
    match patterns_from_json(two, &schema) {
        Err(ConfigError::Invalid(m)) => assert!(m.len() >= 3, "{:?}", m),
        _ => panic!("expected a schema error"),
    }
}

#[test]
fn candidate_decision() {
    let f = forbidden(&["GAT"]);
    assert_eq!(accept_candidate("CCGATC".to_string(), &f), None);
    assert_eq!(accept_candidate("CCGTAC".to_string(), &f), Some("CCGTAC".to_string()));
    assert_eq!(accept_candidate("GAT".to_string(), &ForbiddenSet::empty()), Some("GAT".to_string()));
}

#[test]
fn first_bad_pattern_is_named() {
    let e = ForbiddenSet::from_patterns(&strings(&["ACG", "[AG", "GA("])).err().expect("an error");
    assert_eq!(e.pattern, "[AG");
}
