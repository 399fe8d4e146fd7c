//! The report line that AWS Lambda writes after each invocation, read with one pattern
//! whose named groups hold the figures.
use vstd::prelude::*;
use vstd::string::*;
use crate::text::{str_views, parse_unsigned_spec, parse_u16, parse_u32};
use crate::patterns::{Pattern, compile, named_captures, regex_accepts, regex_named_captures, capture_views, option_view};

verus! {

pub const REPORT_PATTERN: &'static str = r"REPORT RequestId: (?P<requestId>[a-z0-9\-]+)\s*Duration: (?P<durationTime>[0-9\.]+) ms\s*Billed Duration: (?P<billedDurationTime>[0-9\.]+) ms\s*Memory Size: (?P<memorySize>[0-9\.]+) MB\s*Max Memory Used: (?P<maxMemoryUsed>[0-9\.]+) MB\s*(Init Duration: (?P<initDuration>[0-9\.]+) ms\s*)?\s*(Restore Duration: (?P<restoreDuration>[0-9\.]+) ms\s*Billed Restore Duration: (?P<billedRestoreDuration>[0-9\.]+) ms\s*)?";

pub const REQUEST_ID: &'static str = "requestId";
pub const DURATION: &'static str = "durationTime";
pub const BILLED_DURATION: &'static str = "billedDurationTime";
pub const MEMORY_SIZE: &'static str = "memorySize";
pub const MAX_MEMORY_USED: &'static str = "maxMemoryUsed";
pub const INIT_DURATION: &'static str = "initDuration";
pub const RESTORE_DURATION: &'static str = "restoreDuration";
pub const BILLED_RESTORE_DURATION: &'static str = "billedRestoreDuration";

/// The named groups of the report pattern, in the order of the fields of a capture.
pub open spec fn group_names() -> Seq<Seq<char>> {
    seq![
        REQUEST_ID@, DURATION@, BILLED_DURATION@, MEMORY_SIZE@, MAX_MEMORY_USED@, INIT_DURATION@,
        RESTORE_DURATION@, BILLED_RESTORE_DURATION@,
    ]
}

/// The texts of the named groups of one match of the report pattern.
pub struct ReportCapture {
    pub request_id: Option<String>,
    pub duration: Option<String>,
    pub billed_duration: Option<String>,
    pub memory_size: Option<String>,
    pub max_memory_used: Option<String>,
    pub init_duration: Option<String>,
    pub restore_duration: Option<String>,
    pub billed_restore_duration: Option<String>,
}

impl View for ReportCapture {
    type V = Seq<Option<Seq<char>>>;

    /// The texts in the order of `group_names`.
    open spec fn view(&self) -> Seq<Option<Seq<char>>> {
        seq![
            option_view(self.request_id), option_view(self.duration),
            option_view(self.billed_duration), option_view(self.memory_size),
            option_view(self.max_memory_used), option_view(self.init_duration),
            option_view(self.restore_duration), option_view(self.billed_restore_duration),
        ]
    }
}

/// The pattern of the report line is refused by `regex`.
#[derive(Debug)]
pub struct PatternRefused;

/// The report pattern, compiled.
pub fn report_pattern() -> (res: Result<Pattern, PatternRefused>)
    ensures
        res is Ok <==> regex_accepts(REPORT_PATTERN@),
        res matches Ok(p) ==> p@ == REPORT_PATTERN@,
        res is Ok <==> regex_accepts(r"REPORT RequestId: (?P<requestId>[a-z0-9\-]+)\s*Duration: (?P<durationTime>[0-9\.]+) ms\s*Billed Duration: (?P<billedDurationTime>[0-9\.]+) ms\s*Memory Size: (?P<memorySize>[0-9\.]+) MB\s*Max Memory Used: (?P<maxMemoryUsed>[0-9\.]+) MB\s*(Init Duration: (?P<initDuration>[0-9\.]+) ms\s*)?\s*(Restore Duration: (?P<restoreDuration>[0-9\.]+) ms\s*Billed Restore Duration: (?P<billedRestoreDuration>[0-9\.]+) ms\s*)?"@),
        res matches Ok(p) ==> p@ == r"REPORT RequestId: (?P<requestId>[a-z0-9\-]+)\s*Duration: (?P<durationTime>[0-9\.]+) ms\s*Billed Duration: (?P<billedDurationTime>[0-9\.]+) ms\s*Memory Size: (?P<memorySize>[0-9\.]+) MB\s*Max Memory Used: (?P<maxMemoryUsed>[0-9\.]+) MB\s*(Init Duration: (?P<initDuration>[0-9\.]+) ms\s*)?\s*(Restore Duration: (?P<restoreDuration>[0-9\.]+) ms\s*Billed Restore Duration: (?P<billedRestoreDuration>[0-9\.]+) ms\s*)?"@,
{
    match compile(REPORT_PATTERN) {
        Some(p) => Ok(p),
        None => Err(PatternRefused),
    }
}

/// The matches of `pattern` in `message`, each with the texts of the groups of the report.
pub fn report_captures(pattern: &Pattern, message: &str) -> (res: Vec<ReportCapture>)
    ensures
        res@.map_values(|c: ReportCapture| c@) == regex_named_captures(pattern@, message@, group_names()),
        res@.map_values(|c: ReportCapture| c@) == regex_named_captures(pattern@, message@, seq![
            "requestId"@, "durationTime"@, "billedDurationTime"@, "memorySize"@, "maxMemoryUsed"@,
            "initDuration"@, "restoreDuration"@, "billedRestoreDuration"@,
        ]),
{
    let names = vec![
        REQUEST_ID, DURATION, BILLED_DURATION, MEMORY_SIZE, MAX_MEMORY_USED, INIT_DURATION,
        RESTORE_DURATION, BILLED_RESTORE_DURATION,
    ];
    assert(str_views(names@) =~= group_names());
    let mut rows = named_captures(pattern, message, &names);
    let ghost expected = capture_views(rows@);
    let mut res: Vec<ReportCapture> = Vec::new();
    let mut i: usize = 0;
    let n = rows.len();
    while rows.len() > 0
        invariant
            expected.len() == n,
            rows@.len() + i == n,
            forall|j: int| 0 <= j < rows@.len() ==> (#[trigger] rows@[j])@.len() == 8,
            forall|j: int| 0 <= j < rows@.len() ==> #[trigger] capture_views(rows@)[j] == expected[j + i],
            res@.len() == i,
            forall|j: int| 0 <= j < i ==> #[trigger] res@[j]@ == expected[j],
        decreases rows@.len(),
    {
        let ghost before = rows@;
        let ghost want = expected[i as int];
        assert(capture_views(before)[0] == want);
        let mut row = rows.remove(0);
        assert forall|j: int| 0 <= j < rows@.len() implies #[trigger] capture_views(rows@)[j] == expected[j + i + 1] by {
            assert(rows@[j] == before[j + 1]);
            assert(capture_views(before)[j + 1] == expected[j + 1 + i]);
        }
        assert forall|j: int| 0 <= j < rows@.len() implies (#[trigger] rows@[j])@.len() == 8 by {
            assert(rows@[j] == before[j + 1]);
        }
        let ghost rv = row@;
        assert(want == rv.map_values(|o: Option<String>| option_view(o)));
        let billed_restore_duration = row.pop().unwrap();
        let restore_duration = row.pop().unwrap();
        let init_duration = row.pop().unwrap();
        let max_memory_used = row.pop().unwrap();
        let memory_size = row.pop().unwrap();
        let billed_duration = row.pop().unwrap();
        let duration = row.pop().unwrap();
        let request_id = row.pop().unwrap();
        let c = ReportCapture {
            request_id, duration, billed_duration, memory_size, max_memory_used, init_duration,
            restore_duration, billed_restore_duration,
        };
        assert(c@ =~= want);
        res.push(c);
        i = i + 1;
    }
    assert(res@.map_values(|c: ReportCapture| c@) =~= expected);
    res
}


/// What `str::parse::<u16>` gives.
pub open spec fn u16_of(s: Seq<char>) -> Option<u16> {
    match parse_unsigned_spec(s, u16::MAX as nat) {
        Some(v) => Some(v as u16),
        None => None,
    }
}

/// What `str::parse::<u32>` gives.
pub open spec fn u32_of(s: Seq<char>) -> Option<u32> {
    match parse_unsigned_spec(s, u32::MAX as nat) {
        Some(v) => Some(v as u32),
        None => None,
    }
}

/// What an optional `u32` group gives: nothing when it is absent or no `u32`.
pub open spec fn optional_u32(o: Option<Seq<char>>) -> Option<u32> {
    match o {
        Some(s) => u32_of(s),
        None => None,
    }
}

/// The figures of one invocation, as far as they are integers; the durations are left as
/// the text that was captured.
pub struct ReportRecord {
    pub request_id: String,
    pub memory: Option<u16>,
    pub duration: String,
    pub billed_duration: Option<u32>,
    pub max_memory_used: Option<u16>,
    pub init_duration: Option<String>,
    pub restore_duration: Option<String>,
    pub billed_restore_duration: Option<u32>,
}

/// A group that every match of the report pattern has is missing from a capture.
#[derive(Debug)]
pub struct MissingGroup {
    pub name: String,
}

/// The record of one capture; the required groups are looked at in the order memory size,
/// duration, billed duration, maximum memory used, request id, and the first that is missing
/// is the error.
pub fn read_report(c: ReportCapture) -> (res: Result<ReportRecord, MissingGroup>)
    ensures
        c.memory_size is None ==> (res matches Err(e) && e.name@ == MEMORY_SIZE@),
        c.memory_size is Some && c.duration is None ==> (res matches Err(e) && e.name@ == DURATION@),
        c.memory_size is Some && c.duration is Some && c.billed_duration is None
            ==> (res matches Err(e) && e.name@ == BILLED_DURATION@),
        c.memory_size is Some && c.duration is Some && c.billed_duration is Some && c.max_memory_used is None
            ==> (res matches Err(e) && e.name@ == MAX_MEMORY_USED@),
        c.memory_size is Some && c.duration is Some && c.billed_duration is Some && c.max_memory_used is Some
            && c.request_id is None ==> (res matches Err(e) && e.name@ == REQUEST_ID@),
        c.memory_size is Some && c.duration is Some && c.billed_duration is Some && c.max_memory_used is Some
            && c.request_id is Some ==> res is Ok,
        res matches Ok(r) ==> {
            &&& c.request_id matches Some(v) && r.request_id@ == v@
            &&& c.memory_size matches Some(v) && r.memory == u16_of(v@)
            &&& c.duration matches Some(v) && r.duration@ == v@
            &&& c.billed_duration matches Some(v) && r.billed_duration == u32_of(v@)
            &&& c.max_memory_used matches Some(v) && r.max_memory_used == u16_of(v@)
            &&& option_view(r.init_duration) == option_view(c.init_duration)
            &&& option_view(r.restore_duration) == option_view(c.restore_duration)
            &&& r.billed_restore_duration == optional_u32(option_view(c.billed_restore_duration))
        },
{
    let memory_size = match c.memory_size {
        Some(v) => v,
        None => return Err(MissingGroup { name: MEMORY_SIZE.to_string() }),
    };
    let duration = match c.duration {
        Some(v) => v,
        None => return Err(MissingGroup { name: DURATION.to_string() }),
    };
    let billed_duration = match c.billed_duration {
        Some(v) => v,
        None => return Err(MissingGroup { name: BILLED_DURATION.to_string() }),
    };
    let max_memory_used = match c.max_memory_used {
        Some(v) => v,
        None => return Err(MissingGroup { name: MAX_MEMORY_USED.to_string() }),
    };
    let request_id = match c.request_id {
        Some(v) => v,
        None => return Err(MissingGroup { name: REQUEST_ID.to_string() }),
    };
    let billed_restore_duration = match &c.billed_restore_duration {
        Some(v) => parse_u32(v.as_str()),
        None => None,
    };
    Ok(ReportRecord {
        request_id,
        memory: parse_u16(memory_size.as_str()),
        duration,
        billed_duration: parse_u32(billed_duration.as_str()),
        max_memory_used: parse_u16(max_memory_used.as_str()),
        init_duration: c.init_duration,
        restore_duration: c.restore_duration,
        billed_restore_duration,
    })
}

} // verus!
