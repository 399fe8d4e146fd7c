# lambda_benchmark

The logic of a benchmark of AWS Lambda runtimes, verified with Verus: the two
CloudFormation templates that deploy it, the reading of the report lines that Lambda
writes, the grouping of the results into the published report, the paging through stored
results, and what the dashboard decides apart from drawing.

- `src/` is the library. Each public function states in its contract what it returns;
  `src/laws.rs` proves properties that relate the parts to one another.
- `tests/` runs the library on concrete values.
- `app/` holds the programs around the library: the Lambda handlers, the S3 and file
  access, and the dashboard window.
