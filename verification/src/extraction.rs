//! The figures that the log processor reads from the report line of an invocation: each
//! field is the first group of the first match of its own pattern, or empty.
use vstd::prelude::*;
use vstd::string::*;
use crate::patterns::{Pattern, compile, first_group, regex_accepts, regex_first_group, option_view};

verus! {

pub const DURATION_FIELD: &'static str = "duration";
pub const DURATION_PATTERN: &'static str = r"Duration: ([\d.]+) ms";
pub const MEMORY_SIZE_FIELD: &'static str = "memory_size";
pub const MEMORY_SIZE_PATTERN: &'static str = r"Memory Size: (\d+) MB";
pub const MAX_MEMORY_USED_FIELD: &'static str = "max_memory_used";
pub const MAX_MEMORY_USED_PATTERN: &'static str = r"Max Memory Used: (\d+) MB";
pub const INIT_DURATION_FIELD: &'static str = "init_duration";
pub const INIT_DURATION_PATTERN: &'static str = r"Init Duration: ([\d.]+) ms";

/// The fields of the report line and their patterns, in the order in which they are read.
pub open spec fn report_fields() -> Seq<(Seq<char>, Seq<char>)> {
    seq![
        (DURATION_FIELD@, DURATION_PATTERN@),
        (MEMORY_SIZE_FIELD@, MEMORY_SIZE_PATTERN@),
        (MAX_MEMORY_USED_FIELD@, MAX_MEMORY_USED_PATTERN@),
        (INIT_DURATION_FIELD@, INIT_DURATION_PATTERN@),
    ]
}

pub open spec fn pair_views(v: Seq<(String, String)>) -> Seq<(Seq<char>, Seq<char>)> {
    v.map_values(|p: (String, String)| (p.0@, p.1@))
}

/// The value a field takes from what its pattern captured: the capture, or empty.
pub open spec fn field_value(capture: Option<Seq<char>>) -> Seq<char> {
    match capture {
        Some(v) => v,
        None => seq![],
    }
}

/// A pattern that `regex` refuses.
#[derive(Debug)]
pub struct PatternError {
    pub pattern: String,
}

/// The fields of the report line with their patterns.
pub fn get_patterns() -> (res: Vec<(String, String)>)
    ensures
        pair_views(res@) == report_fields(),
        res@.len() == 4,
        res@[0].0@ == "duration"@,
        res@[0].1@ == r"Duration: ([\d.]+) ms"@,
        res@[1].0@ == "memory_size"@,
        res@[1].1@ == r"Memory Size: (\d+) MB"@,
        res@[2].0@ == "max_memory_used"@,
        res@[2].1@ == r"Max Memory Used: (\d+) MB"@,
        res@[3].0@ == "init_duration"@,
        res@[3].1@ == r"Init Duration: ([\d.]+) ms"@,
{
    let res = vec![
        (DURATION_FIELD.to_string(), DURATION_PATTERN.to_string()),
        (MEMORY_SIZE_FIELD.to_string(), MEMORY_SIZE_PATTERN.to_string()),
        (MAX_MEMORY_USED_FIELD.to_string(), MAX_MEMORY_USED_PATTERN.to_string()),
        (INIT_DURATION_FIELD.to_string(), INIT_DURATION_PATTERN.to_string()),
    ];
    assert(pair_views(res@) =~= report_fields());
    res
}

/// The entry of a field, given what its pattern captured.
pub fn field_entry(field: &str, capture: Option<String>) -> (res: (String, String))
    ensures
        res.0@ == field@,
        res.1@ == field_value(option_view(capture)),
{
    let value = match capture {
        Some(v) => v,
        None => String::new(),
    };
    (field.to_string(), value)
}

/// Each field of the report line with the value its pattern finds in `log`, in the order of
/// the fields; an error names the first pattern that `regex` refuses.
pub fn extract_data(log: &str) -> (res: Result<Vec<(String, String)>, PatternError>)
    ensures
        res is Ok <==> forall|i: int| 0 <= i < report_fields().len() ==> regex_accepts(#[trigger] report_fields()[i].1),
        res matches Ok(v) ==> pair_views(v@) == report_fields().map_values(
            |f: (Seq<char>, Seq<char>)| (f.0, field_value(regex_first_group(f.1, log@))),
        ),
        res matches Err(e) ==> exists|i: int| 0 <= i < report_fields().len()
            && #[trigger] report_fields()[i].1 == e.pattern@ && !regex_accepts(e.pattern@),
        res is Ok <==> (regex_accepts(r"Duration: ([\d.]+) ms"@) && regex_accepts(r"Memory Size: (\d+) MB"@)
            && regex_accepts(r"Max Memory Used: (\d+) MB"@) && regex_accepts(r"Init Duration: ([\d.]+) ms"@)),
        res matches Ok(v) ==> v@.len() == 4
            && v@[0].0@ == "duration"@
            && v@[0].1@ == (match regex_first_group(r"Duration: ([\d.]+) ms"@, log@) { Some(c) => c, None => seq![] })
            && v@[1].0@ == "memory_size"@
            && v@[1].1@ == (match regex_first_group(r"Memory Size: (\d+) MB"@, log@) { Some(c) => c, None => seq![] })
            && v@[2].0@ == "max_memory_used"@
            && v@[2].1@ == (match regex_first_group(r"Max Memory Used: (\d+) MB"@, log@) { Some(c) => c, None => seq![] })
            && v@[3].0@ == "init_duration"@
            && v@[3].1@ == (match regex_first_group(r"Init Duration: ([\d.]+) ms"@, log@) { Some(c) => c, None => seq![] }),
{
    let patterns = get_patterns();
    let ghost fields = report_fields();
    let mut compiled: Vec<Pattern> = Vec::new();
    for i in 0..patterns.len()
        invariant
            pair_views(patterns@) == fields,
            fields == report_fields(),
            compiled@.len() == i,
            forall|j: int| 0 <= j < i ==> regex_accepts(#[trigger] fields[j].1) && compiled@[j]@ == fields[j].1,
    {
        assert(patterns@[i as int].1@ == fields[i as int].1);
        match compile(patterns[i].1.as_str()) {
            Some(p) => compiled.push(p),
            None => {
                assert(!regex_accepts(report_fields()[i as int].1));
                assert(pair_views(patterns@).len() == patterns@.len());
                return Err(PatternError { pattern: patterns[i].1.clone() });
            },
        }
    }
    let ghost expected = fields.map_values(
        |f: (Seq<char>, Seq<char>)| (f.0, field_value(regex_first_group(f.1, log@))),
    );
    let mut extracted: Vec<(String, String)> = Vec::new();
    for i in 0..patterns.len()
        invariant
            pair_views(patterns@) == fields,
            fields == report_fields(),
            compiled@.len() == patterns@.len(),
            forall|j: int| 0 <= j < patterns@.len() ==> regex_accepts(#[trigger] fields[j].1) && compiled@[j]@ == fields[j].1,
            expected == fields.map_values(
                |f: (Seq<char>, Seq<char>)| (f.0, field_value(regex_first_group(f.1, log@))),
            ),
            extracted@.len() == i,
            forall|j: int| 0 <= j < i ==> #[trigger] pair_views(extracted@)[j] == expected[j],
    {
        assert(patterns@[i as int].0@ == fields[i as int].0);
        let capture = first_group(&compiled[i], log);
        let entry = field_entry(patterns[i].0.as_str(), capture);
        let ghost before = extracted@;
        extracted.push(entry);
        assert forall|j: int| 0 <= j < i + 1 implies #[trigger] pair_views(extracted@)[j] == expected[j] by {
            if j < i {
                assert(extracted@[j] == before[j]);
                assert(pair_views(before)[j] == expected[j]);
            }
        }
    }
    assert(pair_views(extracted@) =~= expected);
    proof {
        assert(pair_views(extracted@)[0] == expected[0]);
        assert(pair_views(extracted@)[1] == expected[1]);
        assert(pair_views(extracted@)[2] == expected[2]);
        assert(pair_views(extracted@)[3] == expected[3]);
    }
    Ok(extracted)
}

} // verus!
