use vstd::prelude::*;
use crate::text::texts;

verus! {

#[verifier::external_type_specification]
#[verifier::external_body]
pub struct ExValue(serde_json::Value);

#[verifier::external_type_specification]
#[verifier::external_body]
pub struct ExJsonError(serde_json::Error);

#[verifier::external_type_specification]
#[verifier::external_body]
pub struct ExValidator(jsonschema::Validator);

/// Whether `serde_json::from_str` reads `text` as one JSON value.
pub uninterp spec fn json_parses(text: Seq<char>) -> bool;

/// Whether the JSON document `text` satisfies the pattern-file schema, as the `jsonschema`
/// validator compiled from that schema finds.
pub uninterp spec fn schema_accepts(text: Seq<char>) -> bool;

/// What `serde_json` finds at `regexSet.regex` in the JSON document `text`: where that is
/// an array, for each entry in order its `regexString` where that is a string.
pub uninterp spec fn json_regex_strings(text: Seq<char>) -> Option<Seq<Option<Seq<char>>>>;

/// What `serde_json` finds at `regexSet.regexSetName` in the JSON document `text`, where
/// that is a string.
pub uninterp spec fn json_set_name(text: Seq<char>) -> Option<Seq<char>>;

/// The JSON schema that a pattern file must follow: a `regexSet` object with a
/// `regexSetName` string and a non-empty `regex` array of objects, each with a
/// `regexName` and a `regexString` string.
pub fn pattern_file_schema() -> &'static str {
    "
{
    \"$schema\": \"http://json-schema.org/draft-07/schema#\",
    \"title\": \"spikeq\",
    \"version\": 1,
    \"type\": \"object\",
    \"properties\": {
        \"regexSet\": {
            \"type\": \"object\",
            \"properties\": {
                \"regexSetName\": {
                    \"type\": \"string\"
                },
                \"regex\": {
                    \"type\": \"array\",
                    \"minItems\": 1,
                    \"items\": {
                        \"type\": \"object\",
                        \"properties\": {
                            \"regexName\": {
                                \"type\": \"string\"
                            },
                            \"regexString\": {
                                \"type\": \"string\"
                            }
                        },
                        \"required\": [
                            \"regexName\",
                            \"regexString\"
                        ]
                    }
                }
            },
            \"required\": [
                \"regexSetName\",
                \"regex\"
            ]
        }
    },
    \"required\": [
        \"regexSet\"
    ]
}
"
}

/// Why a pattern file was refused.
#[derive(Debug)]
pub enum ConfigError {
    /// The text is not JSON.
    NotJson,
    /// The schema itself could not be read or compiled.
    BadSchema(String),
    /// The document breaks the schema: one message per violation, with its location.
    Invalid(Vec<String>),
    /// The document has no `regexSet.regex` array.
    NoPatternList,
}

/// Relies on `serde_json::from_str`: the JSON value that the text holds, or why not.
#[verifier::external_body]
fn parse_json(text: &str) -> (r: Result<serde_json::Value, serde_json::Error>)
    ensures
        r is Ok <==> json_parses(text@),
{
    serde_json::from_str(text)
}

/// A parsed JSON document. Its view is its text; the value is only ever parsed from that
/// text, by `JsonDocument::parse`.
pub struct JsonDocument {
    text: String,
    value: serde_json::Value,
}

impl View for JsonDocument {
    type V = Seq<char>;

    closed spec fn view(&self) -> Seq<char> {
        self.text@
    }
}

impl JsonDocument {
    /// Parses `text`; `None` where it is not JSON.
    pub fn parse(text: &str) -> (r: Option<JsonDocument>)
        ensures
            r is Some <==> json_parses(text@),
            r matches Some(d) ==> d@ == text@,
    {
        match parse_json(text) {
            Ok(value) => Some(JsonDocument { text: String::from_str(text), value }),
            Err(_) => None,
        }
    }
}

/// Relies on `jsonschema::validator_for`: a validator for the schema, or its error as text.
#[verifier::external_body]
fn compile_schema(schema: &JsonDocument) -> (r: Result<jsonschema::Validator, String>) {
    jsonschema::validator_for(&schema.value).map_err(|e| format!("Failed to compile schema: {}", e))
}

/// Relies on `serde_json::Value::get`, `as_array` and `as_str`: the `regexString` of each
/// entry of `regexSet.regex`, in order, read into plain values.
#[verifier::external_body]
fn regex_strings(doc: &JsonDocument) -> (r: Option<Vec<Option<String>>>)
    ensures
        r is None <==> json_regex_strings(doc@) is None,
        r matches Some(v) ==> json_regex_strings(doc@) == Some(opt_texts(v@)),
{
    let list = doc.value.get("regexSet").and_then(|s| s.get("regex")).and_then(|a| a.as_array());
    list.map(|a| a.iter().map(|e| e.get("regexString").and_then(|v| v.as_str()).map(String::from)).collect())
}

/// Relies on `serde_json::Value::get` and `as_str`: the `regexSet.regexSetName` string.
#[verifier::external_body]
fn set_name(doc: &JsonDocument) -> (r: Option<String>)
    ensures
        r is None <==> json_set_name(doc@) is None,
        r matches Some(n) ==> json_set_name(doc@) == Some(n@),
{
    doc.value.get("regexSet").and_then(|s| s.get("regexSetName")).and_then(|n| n.as_str()).map(String::from)
}

/// The texts of a list of optional strings.
pub open spec fn opt_texts(v: Seq<Option<String>>) -> Seq<Option<Seq<char>>> {
    v.map_values(|o: Option<String>| match o {
        Some(s) => Some(s@),
        None => None,
    })
}

/// The strings that are present, in order.
pub open spec fn present(es: Seq<Option<Seq<char>>>) -> Seq<Seq<char>>
    decreases es.len(),
{
    if es.len() == 0 {
        seq![]
    } else {
        present(es.drop_last()) + match es.last() {
            Some(s) => seq![s],
            None => Seq::<Seq<char>>::empty(),
        }
    }
}

/// The pattern-file schema, compiled. It is only ever compiled from
/// `pattern_file_schema`, by `PatternFileSchema::load`.
pub struct PatternFileSchema {
    validator: jsonschema::Validator,
}

impl PatternFileSchema {
    /// Parses and compiles the pattern-file schema.
    pub fn load() -> (r: Result<PatternFileSchema, ConfigError>)
        ensures
            r matches Err(e) ==> e is BadSchema,
    {
        let doc = match JsonDocument::parse(pattern_file_schema()) {
            Some(d) => d,
            None => {
                return Err(ConfigError::BadSchema(String::from_str("Failed to parse embedded schema")));
            },
        };
        match compile_schema(&doc) {
            Ok(validator) => Ok(PatternFileSchema { validator }),
            Err(msg) => Err(ConfigError::BadSchema(msg)),
        }
    }

    /// Relies on `jsonschema::Validator::iter_errors`: each violation of the schema by the
    /// document, written with its location; none exactly where the schema accepts it.
    #[verifier::external_body]
    fn violations(&self, doc: &JsonDocument) -> (r: Vec<String>)
        ensures
            r@.len() == 0 <==> schema_accepts(doc@),
    {
        self.validator
            .iter_errors(&doc.value)
            .map(|e| format!("Error: {}\nLocation: {}", e, e.instance_path))
            .collect()
    }
}

/// The pattern texts of a pattern file: the document is parsed, checked against the
/// schema, and then each entry of `regexSet.regex` gives its `regexString`, in order.
/// Every schema violation is reported, not only the first.
pub fn patterns_from_json(text: &str, schema: &PatternFileSchema) -> (r: Result<Vec<String>, ConfigError>)
    ensures
        r matches Err(ConfigError::NotJson) <==> !json_parses(text@),
        r matches Err(ConfigError::Invalid(m)) <==> json_parses(text@) && !schema_accepts(text@),
        r matches Err(ConfigError::Invalid(m)) ==> m@.len() > 0,
        !(r matches Err(ConfigError::BadSchema(_))),
        r matches Err(ConfigError::NoPatternList) <==> json_parses(text@) && schema_accepts(text@)
            && json_regex_strings(text@) is None,
        json_parses(text@) && schema_accepts(text@) && json_regex_strings(text@) is Some ==> r is Ok,
        r is Ok ==> json_parses(text@) && schema_accepts(text@),
        r matches Ok(v) ==> json_regex_strings(text@) matches Some(es) && texts(v@) == present(es),
{
    let doc = match JsonDocument::parse(text) {
        Some(d) => d,
        None => {
            return Err(ConfigError::NotJson);
        },
    };
    let violations = schema.violations(&doc);
    if violations.len() > 0 {
        return Err(ConfigError::Invalid(violations));
    }
    let entries = match regex_strings(&doc) {
        Some(e) => e,
        None => {
            return Err(ConfigError::NoPatternList);
        },
    };
    let ghost es = opt_texts(entries@);
    let mut patterns: Vec<String> = Vec::new();
    let mut i: usize = 0;
    while i < entries.len()
        invariant
            es == opt_texts(entries@),
            i <= entries.len(),
            texts(patterns@) == present(es.take(i as int)),
        decreases entries.len() - i,
    {
        proof {
            assert(es.take(i + 1).drop_last() =~= es.take(i as int));
        }
        match &entries[i] {
            Some(s) => {
                let t = s.clone();
                let ghost prev = patterns@;
                patterns.push(t);
                assert(texts(patterns@) =~= texts(prev).push(t@));
            },
            None => {},
        }
        i += 1;
    }
    assert(es.take(i as int) =~= es);
    Ok(patterns)
}

/// The `regexSet.regexSetName` of a pattern file, or `unknown` where it has none.
pub fn set_name_from_json(text: &str) -> (r: Result<String, ConfigError>)
    ensures
        r is Err <==> !json_parses(text@),
        r matches Err(e) ==> e is NotJson,
        r matches Ok(s) ==> s@ == match json_set_name(text@) {
            Some(n) => n,
            None => "unknown"@,
        },
{
    let doc = match JsonDocument::parse(text) {
        Some(d) => d,
        None => {
            return Err(ConfigError::NotJson);
        },
    };
    match set_name(&doc) {
        Some(n) => Ok(n),
        None => Ok(String::from_str("unknown")),
    }
}

} // verus!
