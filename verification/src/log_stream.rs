//! Which benchmark function a log stream belongs to, and where its results are stored.
use vstd::prelude::*;
use vstd::string::*;
use crate::text::{views, replace_str, replace_str_in, split_char, split_on};
use crate::grouping::str_same;

verus! {

pub const LAMBDA_LOG_PREFIX: &'static str = "/aws/lambda/";
pub const FUNCTION_PREFIX: &'static str = "lambda-benchmark-";
pub const RESULTS_PREFIX: &'static str = "results/";
pub const REPORTS_PREFIX: &'static str = "reports/";
pub const JSON_SUFFIX: &'static str = ".json";

/// The name of the benchmark function that a log stream names: without the log-group
/// prefix and the project prefix.
pub open spec fn function_name_of(log_stream: Seq<char>) -> Seq<char> {
    replace_str(replace_str(log_stream, LAMBDA_LOG_PREFIX@, seq![]), FUNCTION_PREFIX@, seq![])
}

/// Why a log stream is not one of a known benchmark function.
#[derive(Debug)]
pub enum StreamError {
    /// The function name is not `{runtime}-{architecture}`.
    InvalidFunctionName(String),
    /// The runtime is not one of those under test.
    UnknownRuntime(String),
}

/// The runtimes under test, from their comma-separated list.
pub fn parse_runtimes(list: &str) -> (res: Vec<String>)
    ensures
        views(res@) == split_char(list@, ','),
{
    split_on(list, ',')
}

/// Whether `runtime` is one of `runtimes`.
pub fn runtime_listed(runtimes: &Vec<String>, runtime: &str) -> (res: bool)
    ensures
        res == views(runtimes@).contains(runtime@),
{
    let mut k: usize = 0;
    while k < runtimes.len()
        invariant
            k <= runtimes@.len(),
            forall|j: int| 0 <= j < k ==> runtimes@[j]@ != runtime@,
        decreases runtimes@.len() - k,
    {
        if str_same(runtimes[k].as_str(), runtime) {
            assert(views(runtimes@)[k as int] == runtime@);
            return true;
        }
        k = k + 1;
    }
    proof {
        if views(runtimes@).contains(runtime@) {
            let j = choose|j: int| 0 <= j < views(runtimes@).len() && #[trigger] views(runtimes@)[j] == runtime@;
            assert(runtimes@[j]@ == runtime@);
        }
    }
    false
}

/// The runtime and architecture of the benchmark function that writes the log stream
/// `log_stream`; the runtime must be one of `runtimes`.
pub fn identify_function(log_stream: &str, runtimes: &Vec<String>) -> (res: Result<(String, String), StreamError>)
    ensures
        ({
            let name = function_name_of(log_stream@);
            let tokens = split_char(name, '-');
            &&& tokens.len() != 2 ==> (res matches Err(StreamError::InvalidFunctionName(n)) && n@ == name)
            &&& tokens.len() == 2 && !views(runtimes@).contains(tokens[0])
                ==> (res matches Err(StreamError::UnknownRuntime(r)) && r@ == tokens[0])
            &&& tokens.len() == 2 && views(runtimes@).contains(tokens[0])
                ==> (res matches Ok((r, a)) && r@ == tokens[0] && a@ == tokens[1])
        }),
{
    proof {
        reveal_strlit("");
        reveal_strlit("/aws/lambda/");
        reveal_strlit("lambda-benchmark-");
        assert(""@ =~= Seq::<char>::empty());
    }
    let from_lambda = replace_str_in(log_stream, LAMBDA_LOG_PREFIX, "");
    let function_name = replace_str_in(from_lambda.as_str(), FUNCTION_PREFIX, "");
    let mut tokens = split_on(function_name.as_str(), '-');
    if tokens.len() != 2 {
        return Err(StreamError::InvalidFunctionName(function_name));
    }
    let ghost tv = views(tokens@);
    assert(tv[0] == tokens@[0]@ && tv[1] == tokens@[1]@);
    let architecture = tokens.pop().unwrap();
    let runtime = tokens.pop().unwrap();
    if !runtime_listed(runtimes, runtime.as_str()) {
        return Err(StreamError::UnknownRuntime(runtime));
    }
    Ok((runtime, architecture))
}

/// The key under which the results of one invocation are stored.
pub fn result_key(request_id: &str) -> (res: String)
    ensures
        res@ == RESULTS_PREFIX@ + request_id@ + JSON_SUFFIX@,
{
    let mut res = String::new();
    res.append(RESULTS_PREFIX);
    res.append(request_id);
    res.append(JSON_SUFFIX);
    res
}

/// The key under which the report named `name` is stored.
pub fn report_key(name: &str) -> (res: String)
    ensures
        res@ == REPORTS_PREFIX@ + name@ + JSON_SUFFIX@,
{
    let mut res = String::new();
    res.append(REPORTS_PREFIX);
    res.append(name);
    res.append(JSON_SUFFIX);
    res
}

} // verus!
