//! What the benchmark function itself computes: how many writes to make, what to write and
//! where.
use vstd::prelude::*;
use vstd::string::*;
use crate::text::{decimal, parse_i32, parse_i32_spec, push_decimal};

verus! {

pub const TEST_PREFIX: &'static str = "test/";
pub const TEST_SUFFIX: &'static str = "/test.txt";

/// The key that the benchmark function named `function_name` writes to.
pub fn test_object_key(function_name: &str) -> (res: String)
    ensures
        res@ == TEST_PREFIX@ + function_name@ + TEST_SUFFIX@,
{
    let mut res = String::new();
    res.append(TEST_PREFIX);
    res.append(function_name);
    res.append(TEST_SUFFIX);
    res
}

/// The number of writes, from its decimal text.
pub fn parse_iterations(text: &str) -> (res: Option<i32>)
    ensures
        match parse_i32_spec(text@) {
            Some(v) => res == Some(v as i32),
            None => res is None,
        },
{
    parse_i32(text)
}

/// What the write numbered `i` writes: its number in decimal.
pub fn iteration_payload(i: i32) -> (res: String)
    requires
        i >= 0,
    ensures
        res@ == decimal(i as nat),
{
    let mut res = String::new();
    push_decimal(&mut res, i as u64);
    assert(res@ =~= decimal(i as nat));
    res
}

} // verus!
