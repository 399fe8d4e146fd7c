//! The CloudFormation template of the matrix benchmark: one function per runtime,
//! architecture and memory size, and a state machine that deploys fresh code before each
//! run, runs it, reads the report line from its logs and hands it to the log processor.
use vstd::prelude::*;
use vstd::string::*;
use crate::text::{
    str_views, replace_chars, replace_chars_in, decimal, concat_all, lemma_concat_all_push,
    push_parts, decimal_string, to_chars, from_chars, contains_text, lemma_contains_self,
    lemma_contains_left, lemma_contains_right, lemma_contains_trans, lemma_concat_all_contains,
    lemma_concat_all_contains_run, lemma_concat_all_of_three,
};
use crate::casing::{str_to_uppercase, str_to_lowercase, char_to_uppercase, to_uppercase, to_lowercase, char_uppercase};
use crate::manifest::{Manifest, ManifestView, manifest_views};

verus! {

/// The settings of a deployment.
pub struct Parameters {
    pub bucket_name: String,
    pub memory_sizes: Vec<u16>,
    pub log_retention_in_days: u16,
    pub step_functions: String,
    pub step_functions_debug: bool,
}

pub struct ParametersView {
    pub bucket_name: Seq<char>,
    pub memory_sizes: Seq<u16>,
    pub log_retention_in_days: u16,
    pub step_functions: Seq<char>,
    pub step_functions_debug: bool,
}

impl View for Parameters {
    type V = ParametersView;

    open spec fn view(&self) -> ParametersView {
        ParametersView {
            bucket_name: self.bucket_name@,
            memory_sizes: self.memory_sizes@,
            log_retention_in_days: self.log_retention_in_days,
            step_functions: self.step_functions@,
            step_functions_debug: self.step_functions_debug,
        }
    }
}

/// The two labels of an architecture in resource names, both in upper case: `plain`
/// without underscores, `dashed` with underscores turned into dashes.
pub struct ArchitectureLabels {
    pub plain: String,
    pub dashed: String,
}

pub struct LabelsView {
    pub plain: Seq<char>,
    pub dashed: Seq<char>,
}

impl View for ArchitectureLabels {
    type V = LabelsView;

    open spec fn view(&self) -> LabelsView {
        LabelsView { plain: self.plain@, dashed: self.dashed@ }
    }
}

pub open spec fn label_views(labels: Seq<Vec<ArchitectureLabels>>) -> Seq<Seq<LabelsView>> {
    labels.map_values(|l: Vec<ArchitectureLabels>| l@.map_values(|x: ArchitectureLabels| x@))
}

/// The spellings of the state-machine type in the template: capitalised, lower case and
/// upper case.
pub struct StepFunctionsNames {
    pub resource: String,
    pub lower: String,
    pub upper: String,
}

pub struct StepFunctionsNamesView {
    pub resource: Seq<char>,
    pub lower: Seq<char>,
    pub upper: Seq<char>,
}

impl View for StepFunctionsNames {
    type V = StepFunctionsNamesView;

    open spec fn view(&self) -> StepFunctionsNamesView {
        StepFunctionsNamesView { resource: self.resource@, lower: self.lower@, upper: self.upper@ }
    }
}

pub const HEADER: &'static str = r#"---
AWSTemplateFormatVersion: "2010-09-09"
Transform: AWS::Serverless-2016-10-31
Description: "Lambda Benchmark"

Resources:"#;
pub const ROLE_BACKING_0: &'static str = r#"
  RoleBacking:
    Type: AWS::IAM::Role
    Properties:
      RoleName: !Sub "iam-${AWS::Region}-lambda-benchmark-backing-role"
      AssumeRolePolicyDocument:
        Version: 2012-10-17
        Statement:
          - Effect: Allow
            Principal:
              Service:
                - lambda.amazonaws.com
            Action:
              - sts:AssumeRole
      Path: /
      ManagedPolicyArns:
        - arn:aws:iam::aws:policy/service-role/AWSLambdaBasicExecutionRole
      Policies:
        - PolicyName: !Sub "iam-${AWS::Region}-lambda-benchmark-backing-policy"
          PolicyDocument:
            Version: 2012-10-17
            Statement:
              - Effect: Allow
                Action:
                  - s3:PutObject
                Resource: "arn:aws:s3:::"#;
pub const ROLE_BACKING_1: &'static str = r#"/metrics/*"
              - Effect: Allow
                Action:
                  - logs:FilterLogEvents
                Resource: "*""#;
pub const ROLE_RUNTIME_0: &'static str = r#"

  RoleRuntime:
    Type: AWS::IAM::Role
    Properties:
      RoleName: !Sub "iam-${AWS::Region}-lambda-benchmark-runtime-role"
      AssumeRolePolicyDocument:
        Version: 2012-10-17
        Statement:
          - Effect: Allow
            Principal:
              Service:
                - lambda.amazonaws.com
            Action:
              - sts:AssumeRole
      ManagedPolicyArns:
        - arn:aws:iam::aws:policy/service-role/AWSLambdaBasicExecutionRole
      Policies:
        - PolicyName: !Sub "iam-${AWS::Region}-lambda-benchmark-runtime-policy"
          PolicyDocument:
            Version: 2012-10-17
            Statement:
              - Effect: Allow
                Action:
                  - s3:PutObject
                  - s3:DeleteObject
                Resource: "arn:aws:s3:::"#;
pub const ROLE_RUNTIME_1: &'static str = r#"/test/*"
      Path: /
"#;
pub const LOG_PROCESSOR_0: &'static str = r#"
  LambdaLogProcessor:
    Type: AWS::Serverless::Function
    Properties:
      FunctionName: "benchmark-log-processor"
      Description: "Lambda Benchmark | Log Processor"
      Runtime: "provided.al2"
      Architectures: ["arm64"]
      Handler: "bootstrap"
      Role: !GetAtt RoleBacking.Arn
      MemorySize: 128
      Timeout: 60
      CodeUri:
        Bucket: ""#;
pub const LOG_PROCESSOR_1: &'static str = r#""
        Key: ""#;
pub const LOG_PROCESSOR_2: &'static str = r#""
      Environment:
        Variables:
          BUCKET_NAME: ""#;
pub const LOG_PROCESSOR_3: &'static str = r#""

  LogsLogProcessor:
    Type: AWS::Logs::LogGroup
    Properties:
      LogGroupName: "/aws/lambda/benchmark-log-processor"
      RetentionInDays: "#;
pub const LOG_PROCESSOR_4: &'static str = r#"
"#;
pub const RUNTIME_FUNCTION_0: &'static str = "\n  ";
pub const FUNCTION_RESOURCE_TYPE: &'static str = ":\n    Type: AWS::Serverless::Function";
pub const RUNTIME_FUNCTION_1: &'static str = r#"
    Properties:
      FunctionName: ""#;
pub const RUNTIME_FUNCTION_2: &'static str = r#""
      Description: "Lambda Benchmark | "#;
pub const RUNTIME_FUNCTION_3: &'static str = r#""
      Runtime: ""#;
pub const RUNTIME_FUNCTION_4: &'static str = r#""
      Architectures: [""#;
pub const RUNTIME_FUNCTION_5: &'static str = r#""]
      Handler: ""#;
pub const RUNTIME_FUNCTION_6: &'static str = r#""
      Role: !GetAtt RoleRuntime.Arn
      MemorySize: "#;
pub const RUNTIME_FUNCTION_7: &'static str = r#"
      Timeout: 900
      CodeUri:
        Bucket: ""#;
pub const RUNTIME_FUNCTION_8: &'static str = r#""
        Key: ""#;
pub const RUNTIME_FUNCTION_9: &'static str = r#""
      Environment:
          Variables:
            BUCKET_NAME: ""#;
pub const RUNTIME_FUNCTION_10: &'static str = r#""

  Logs"#;
pub const RUNTIME_FUNCTION_11: &'static str = r#":
    Type: AWS::Logs::LogGroup
    Properties:
      LogGroupName: ""#;
pub const RUNTIME_FUNCTION_12: &'static str = r#""
      RetentionInDays: "#;
pub const RUNTIME_FUNCTION_13: &'static str = r#"
"#;
pub const STATE_MACHINE_0: &'static str = r#"
  StateMachineBenchmarkRunner"#;
pub const STATE_MACHINE_1: &'static str = r#":
    Type: AWS::StepFunctions::StateMachine
    Properties:
      StateMachineName: !Sub "stm-lambda-benchmark-"#;
pub const STATE_MACHINE_2: &'static str = r#""
      StateMachineType: "#;
pub const STATE_MACHINE_3: &'static str = r#"
      TracingConfiguration:
        Enabled: false
      LoggingConfiguration:
        Level: ERROR
        Destinations:
          - CloudWatchLogsLogGroup:
              LogGroupArn: !GetAtt LogsStateMachine.Arn
      RoleArn: !GetAtt StepFunctionRole.Arn
      Definition:
        Comment: Lambda Benchmark Runner
        StartAt: Iterations
        States:
          Iterations:
            Type: Pass
            Next: Parallel
            Parameters:
              iterations.$: States.ArrayRange(1, $.iterations, 1)
          Parallel:
            Type: Parallel
            End: true
            ResultSelector:
              runs.$: $.[*][*][*][*]
            OutputPath: $.runs
            Branches:"#;
pub const RUNTIME_BRANCH_0: &'static str = r#"
              - StartAt: "#;
pub const RUNTIME_BRANCH_1: &'static str = r#"-para
                States:
                  "#;
pub const RUNTIME_BRANCH_2: &'static str = r#"-para:
                    Type: Parallel
                    End: true
                    Branches:"#;
pub const ARCHITECTURE_BRANCH_0: &'static str = r#"
                      - StartAt: "#;
pub const ARCHITECTURE_BRANCH_1: &'static str = r#"-para
                        States:
                          "#;
pub const ARCHITECTURE_BRANCH_2: &'static str = r#"-para:
                            Type: Parallel
                            End: true
                            Branches:"#;
pub const MEMORY_BRANCH_0: &'static str = "\n                              - StartAt: ";
pub const MEMORY_BRANCH_1: &'static str = r#"-iter
                                States:
                                  "#;
pub const MEMORY_BRANCH_2: &'static str = r#"-iter:
                                    Type: Map
                                    End: true
                                    ItemsPath: $.iterations
                                    MaxConcurrency: 1
                                    ItemProcessor:
                                      ProcessorConfig:
                                        Mode: INLINE
                                      StartAt: "#;
pub const MEMORY_BRANCH_3: &'static str = r#"-cold-start
                                      States:"#;
pub const COLD_START_0: &'static str = r#"
                                        "#;
pub const COLD_START_1: &'static str = r#"-cold-start:
                                          Type: Task
                                          Next: "#;
pub const COLD_START_2: &'static str = r#"-runtime
                                          Resource: arn:aws:states:::aws-sdk:lambda:updateFunctionCode
                                          Parameters:
                                            FunctionName: !GetAtt LambdaBenchmark"#;
pub const COLD_START_3: &'static str = r#".Arn
                                            S3Bucket: "#;
pub const COLD_START_4: &'static str = r#"
                                            S3Key: "#;
pub const COLD_START_5: &'static str = r#"
                                          OutputPath: $.Payload"#;
pub const RUNTIME_STATE_0: &'static str = r#"
                                        "#;
pub const RUNTIME_STATE_1: &'static str = r#"-runtime:
                                          Type: Task
                                          Next: "#;
pub const RUNTIME_STATE_2: &'static str = r#"-wait
                                          Resource: arn:aws:states:::lambda:invoke
                                          Parameters:
                                            FunctionName: !GetAtt LambdaBenchmark"#;
pub const RUNTIME_STATE_3: &'static str = r#".Arn
                                          OutputPath: $.Payload"#;
pub const WAIT_STATE_0: &'static str = r#"
                                        "#;
pub const WAIT_STATE_1: &'static str = r#"-wait:
                                          Type: Wait
                                          Next: "#;
pub const WAIT_STATE_2: &'static str = r#"-log-extractor
                                          Seconds: 5"#;
pub const LOG_EXTRACTOR_0: &'static str = r#"
                                        "#;
pub const LOG_EXTRACTOR_1: &'static str = r#"-log-extractor:
                                          Type: Task
                                          Next: "#;
pub const LOG_EXTRACTOR_2: &'static str = r#"-log-processor
                                          Resource: arn:aws:states:::aws-sdk:cloudwatchlogs:getLogEvents
                                          Parameters:
                                            LogGroupName: "#;
pub const LOG_EXTRACTOR_3: &'static str = r#"
                                            LogStreamName.$: $
                                            StartFromHead: false
                                            Limit: 1
                                          ResultSelector:
                                            log: $.Events[0].Message"#;
pub const LOG_PROCESSOR_STATE_0: &'static str = r#"
                                        "#;
pub const LOG_PROCESSOR_STATE_1: &'static str = r#"-log-processor:
                                          Type: Task
                                          End: true
                                          Resource: arn:aws:states:::lambda:invoke
                                          Parameters:
                                            FunctionName: !GetAtt LambdaLogProcessor.Arn
                                            Payload.$: $
                                          OutputPath: $.Payload"#;
pub const STEP_FUNCTION_ROLE: &'static str = r#"

  StepFunctionRole:
    Type: AWS::IAM::Role
    Properties:
      RoleName: !Sub "iam-${AWS::Region}-lambda-benchmark-step-functions-role"
      AssumeRolePolicyDocument:
        Version: 2012-10-17
        Statement:
          - Effect: Allow
            Principal:
              Service: !Sub "states.${AWS::Region}.amazonaws.com"
            Action: sts:AssumeRole
      Policies:
        - PolicyName: logs
          PolicyDocument:
            Statement:
              - Effect: Allow
                Action:
                  - logs:CreateLogDelivery
                  - logs:GetLogDelivery
                  - logs:UpdateLogDelivery
                  - logs:DeleteLogDelivery
                  - logs:ListLogDeliveries
                  - logs:PutResourcePolicy
                  - logs:DescribeResourcePolicies
                  - logs:DescribeLogGroups
                  - logs:GetLogEvents
                Resource: "*"
        - PolicyName: stateMachine
          PolicyDocument:
            Statement:
              - Effect: Allow
                Action:
                  - states:StartExecution
                  - events:PutTargets
                  - events:PutRule
                  - events:DescribeRule
                Resource:
                  - !Sub "arn:aws:states:${AWS::Region}:${AWS::AccountId}:stateMachine:ste-lambda-benchmark"
        - PolicyName: lambda
          PolicyDocument:
            Statement:
              - Effect: Allow
                Action: lambda:InvokeFunction
                Resource:
                  - !GetAtt LambdaLogProcessor.Arn
              - Effect: Allow
                Action: s3:GetObject
                Resource: "arn:aws:s3:::{}/runtimes/*"
              - Effect: Allow
                Action:
                  - lambda:InvokeFunction
                  - lambda:UpdateFunctionCode
                Resource:"#;
pub const FUNCTION_ARN_0: &'static str = "\n                  - !GetAtt ";
pub const FUNCTION_ARN_1: &'static str = ".Arn";
pub const STATE_MACHINE_LOGS_0: &'static str = r#"

  LogsStateMachine:
    Type: AWS::Logs::LogGroup
    Properties:
      LogGroupName: /aws/vendedlogs/states/lambda-benchmark
      RetentionInDays: "#;
pub const STATE_MACHINE_LOGS_1: &'static str = r#"
"#;

pub const LAMBDA_PREFIX: &'static str = "LambdaBenchmark";
pub const FUNCTION_PREFIX: &'static str = "benchmark-";
pub const LOG_GROUP_PREFIX: &'static str = "/aws/lambda/";
pub const KEY_PREFIX: &'static str = "runtimes/code_";
pub const KEY_SUFFIX: &'static str = ".zip";
pub const BACKING_KEY: &'static str = "backing/log-processor.zip";
pub const DASH: &'static str = "-";
pub const UNDERSCORE: &'static str = "_";
pub const BAR: &'static str = " | ";

/// The characters dropped from names in resource names.
pub open spec fn name_noise() -> Seq<char> {
    seq!['-', '_']
}

/// `a` with its underscores turned into dashes.
pub open spec fn dashed(a: Seq<char>) -> Seq<char> {
    replace_chars(a, seq!['_'], DASH@)
}

/// The labels of an architecture.
pub open spec fn architecture_labels_of(a: Seq<char>) -> LabelsView {
    LabelsView {
        plain: str_to_uppercase(replace_chars(a, seq!['_'], seq![])),
        dashed: str_to_uppercase(replace_chars(dashed(a), seq!['_'], seq![])),
    }
}

/// The labels of every architecture of every runtime.
pub open spec fn architecture_labels(rs: Seq<ManifestView>) -> Seq<Seq<LabelsView>> {
    Seq::new(
        rs.len(),
        |i: int| Seq::new(rs[i].architectures.len(), |j: int| architecture_labels_of(rs[i].architectures[j])),
    )
}

/// The spellings of the state-machine type `s`: its first character in upper case followed
/// by the rest in lower case, all of it in lower case, all of it in upper case.
pub open spec fn step_functions_names(s: Seq<char>) -> StepFunctionsNamesView {
    StepFunctionsNamesView {
        resource: char_to_uppercase(s[0]) + str_to_lowercase(s.drop_first()),
        lower: str_to_lowercase(s),
        upper: str_to_uppercase(s),
    }
}

/// Whether `labels` has labels for each architecture of each runtime.
pub open spec fn labels_fit(rs: Seq<ManifestView>, labels: Seq<Seq<LabelsView>>) -> bool {
    &&& labels.len() == rs.len()
    &&& forall|i: int| 0 <= i < rs.len() ==> #[trigger] labels[i].len() == rs[i].architectures.len()
}

/// The logical name of the benchmark function of a runtime, architecture and memory size.
pub open spec fn lambda_name(r: ManifestView, l: LabelsView, m: u16) -> Seq<char> {
    LAMBDA_PREFIX@ + replace_chars(r.display_name, name_noise(), seq![]) + l.plain + decimal(m as nat)
}

/// The physical name of that function.
pub open spec fn function_name(r: ManifestView, a: Seq<char>, m: u16) -> Seq<char> {
    FUNCTION_PREFIX@ + r.path + DASH@ + dashed(a) + DASH@ + decimal(m as nat)
}

pub open spec fn description(r: ManifestView, a: Seq<char>, m: u16) -> Seq<char> {
    r.display_name + BAR@ + a + BAR@ + decimal(m as nat)
}

/// The code archive of a runtime on an architecture.
pub open spec fn code_key(path: Seq<char>, a: Seq<char>) -> Seq<char> {
    KEY_PREFIX@ + path + UNDERSCORE@ + a + KEY_SUFFIX@
}

pub open spec fn role_backing(p: ParametersView) -> Seq<char> {
    concat_all(seq![ROLE_BACKING_0@, p.bucket_name, ROLE_BACKING_1@])
}

pub open spec fn role_runtime(p: ParametersView) -> Seq<char> {
    concat_all(seq![ROLE_RUNTIME_0@, p.bucket_name, ROLE_RUNTIME_1@])
}

pub open spec fn log_processor(p: ParametersView) -> Seq<char> {
    concat_all(seq![
        LOG_PROCESSOR_0@, p.bucket_name, LOG_PROCESSOR_1@, BACKING_KEY@, LOG_PROCESSOR_2@,
        p.bucket_name, LOG_PROCESSOR_3@, decimal(p.log_retention_in_days as nat), LOG_PROCESSOR_4@,
    ])
}

/// The benchmark function of a runtime, architecture and memory size, and its log group.
pub open spec fn runtime_function(p: ParametersView, r: ManifestView, a: Seq<char>, l: LabelsView, m: u16) -> Seq<char> {
    let name = lambda_name(r, l, m);
    let fname = function_name(r, a, m);
    concat_all(seq![
        RUNTIME_FUNCTION_0@, name, FUNCTION_RESOURCE_TYPE@, RUNTIME_FUNCTION_1@, fname, RUNTIME_FUNCTION_2@,
        description(r, a, m), RUNTIME_FUNCTION_3@, r.runtime, RUNTIME_FUNCTION_4@, a,
        RUNTIME_FUNCTION_5@, r.handler, RUNTIME_FUNCTION_6@, decimal(m as nat),
        RUNTIME_FUNCTION_7@, p.bucket_name, RUNTIME_FUNCTION_8@, code_key(r.path, a),
        RUNTIME_FUNCTION_9@, p.bucket_name, RUNTIME_FUNCTION_10@, name, RUNTIME_FUNCTION_11@,
        LOG_GROUP_PREFIX@, fname, RUNTIME_FUNCTION_12@, decimal(p.log_retention_in_days as nat), RUNTIME_FUNCTION_13@,
    ])
}

/// The functions of the first `k` architectures of a runtime for the memory size `m`.
pub open spec fn architecture_functions(p: ParametersView, r: ManifestView, ls: Seq<LabelsView>, m: u16, k: nat) -> Seq<char>
    decreases k,
{
    if k == 0 {
        seq![]
    } else {
        architecture_functions(p, r, ls, m, (k - 1) as nat)
            + runtime_function(p, r, r.architectures[k - 1], ls[k - 1], m)
    }
}

/// The functions of the first `j` runtimes for the memory size `m`.
pub open spec fn memory_functions(p: ParametersView, rs: Seq<ManifestView>, labels: Seq<Seq<LabelsView>>, m: u16, j: nat) -> Seq<char>
    decreases j,
{
    if j == 0 {
        seq![]
    } else {
        memory_functions(p, rs, labels, m, (j - 1) as nat)
            + architecture_functions(p, rs[j - 1], labels[j - 1], m, rs[j - 1].architectures.len())
    }
}

/// The functions of the first `i` memory sizes.
pub open spec fn functions(p: ParametersView, rs: Seq<ManifestView>, labels: Seq<Seq<LabelsView>>, i: nat) -> Seq<char>
    decreases i,
{
    if i == 0 {
        seq![]
    } else {
        functions(p, rs, labels, (i - 1) as nat)
            + memory_functions(p, rs, labels, p.memory_sizes[i - 1], rs.len())
    }
}

pub open spec fn state_machine(n: StepFunctionsNamesView) -> Seq<char> {
    concat_all(seq![
        STATE_MACHINE_0@, n.resource, STATE_MACHINE_1@, n.lower, STATE_MACHINE_2@, n.upper,
        STATE_MACHINE_3@,
    ])
}

/// How many of `n` items a state-machine level visits: in debug mode only the first.
pub open spec fn limit(debug: bool, n: nat) -> nat {
    if debug && n > 1 {
        1
    } else {
        n
    }
}

/// The states that run a runtime on an architecture with the memory size `m`.
pub open spec fn memory_branch(p: ParametersView, r: ManifestView, a: Seq<char>, l: LabelsView, m: u16) -> Seq<char> {
    let ram = r.path + DASH@ + dashed(a) + DASH@ + decimal(m as nat);
    let resource = replace_chars(r.display_name + l.dashed + decimal(m as nat), name_noise(), seq![]);
    concat_all(seq![
        MEMORY_BRANCH_0@, ram, MEMORY_BRANCH_1@, ram, MEMORY_BRANCH_2@, ram, MEMORY_BRANCH_3@,
        COLD_START_0@, ram, COLD_START_1@, ram, COLD_START_2@, resource, COLD_START_3@,
        p.bucket_name, COLD_START_4@, code_key(r.path, dashed(a)), COLD_START_5@,
        RUNTIME_STATE_0@, ram, RUNTIME_STATE_1@, ram, RUNTIME_STATE_2@, resource, RUNTIME_STATE_3@,
        WAIT_STATE_0@, ram, WAIT_STATE_1@, ram, WAIT_STATE_2@,
        LOG_EXTRACTOR_0@, ram, LOG_EXTRACTOR_1@, ram, LOG_EXTRACTOR_2@, LOG_GROUP_PREFIX@, FUNCTION_PREFIX@,
        ram, LOG_EXTRACTOR_3@,
        LOG_PROCESSOR_STATE_0@, ram, LOG_PROCESSOR_STATE_1@,
    ])
}

/// The states of the first `i` memory sizes of a runtime on an architecture.
pub open spec fn memory_branches(p: ParametersView, r: ManifestView, a: Seq<char>, l: LabelsView, i: nat) -> Seq<char>
    decreases i,
{
    if i == 0 {
        seq![]
    } else {
        memory_branches(p, r, a, l, (i - 1) as nat) + memory_branch(p, r, a, l, p.memory_sizes[i - 1])
    }
}

/// The branch that runs a runtime on an architecture.
pub open spec fn architecture_branch(p: ParametersView, r: ManifestView, a: Seq<char>, l: LabelsView) -> Seq<char> {
    let main = r.path + DASH@ + dashed(a);
    concat_all(seq![ARCHITECTURE_BRANCH_0@, main, ARCHITECTURE_BRANCH_1@, main, ARCHITECTURE_BRANCH_2@])
        + memory_branches(p, r, a, l, limit(p.step_functions_debug, p.memory_sizes.len()))
}

/// The branches of the first `k` architectures of a runtime.
pub open spec fn architecture_branches(p: ParametersView, r: ManifestView, ls: Seq<LabelsView>, k: nat) -> Seq<char>
    decreases k,
{
    if k == 0 {
        seq![]
    } else {
        architecture_branches(p, r, ls, (k - 1) as nat)
            + architecture_branch(p, r, r.architectures[k - 1], ls[k - 1])
    }
}

/// The branch that runs a runtime.
pub open spec fn runtime_branch(p: ParametersView, r: ManifestView, ls: Seq<LabelsView>) -> Seq<char> {
    concat_all(seq![RUNTIME_BRANCH_0@, r.path, RUNTIME_BRANCH_1@, r.path, RUNTIME_BRANCH_2@])
        + architecture_branches(p, r, ls, limit(p.step_functions_debug, r.architectures.len()))
}

/// The branches of the first `j` runtimes.
pub open spec fn runtime_branches(p: ParametersView, rs: Seq<ManifestView>, labels: Seq<Seq<LabelsView>>, j: nat) -> Seq<char>
    decreases j,
{
    if j == 0 {
        seq![]
    } else {
        runtime_branches(p, rs, labels, (j - 1) as nat) + runtime_branch(p, rs[j - 1], labels[j - 1])
    }
}

/// The permission of the state machine to update and invoke one benchmark function.
pub open spec fn function_arn(r: ManifestView, l: LabelsView, m: u16) -> Seq<char> {
    concat_all(seq![FUNCTION_ARN_0@, lambda_name(r, l, m), FUNCTION_ARN_1@])
}

/// The permissions for the first `i` memory sizes of a runtime on an architecture.
pub open spec fn memory_arns(p: ParametersView, r: ManifestView, l: LabelsView, i: nat) -> Seq<char>
    decreases i,
{
    if i == 0 {
        seq![]
    } else {
        memory_arns(p, r, l, (i - 1) as nat) + function_arn(r, l, p.memory_sizes[i - 1])
    }
}

/// The permissions for the first `k` architectures of a runtime.
pub open spec fn architecture_arns(p: ParametersView, r: ManifestView, ls: Seq<LabelsView>, k: nat) -> Seq<char>
    decreases k,
{
    if k == 0 {
        seq![]
    } else {
        architecture_arns(p, r, ls, (k - 1) as nat) + memory_arns(p, r, ls[k - 1], p.memory_sizes.len())
    }
}

/// The permissions for the first `j` runtimes.
pub open spec fn arns(p: ParametersView, rs: Seq<ManifestView>, labels: Seq<Seq<LabelsView>>, j: nat) -> Seq<char>
    decreases j,
{
    if j == 0 {
        seq![]
    } else {
        arns(p, rs, labels, (j - 1) as nat)
            + architecture_arns(p, rs[j - 1], labels[j - 1], rs[j - 1].architectures.len())
    }
}

pub open spec fn logs_state_machine(p: ParametersView) -> Seq<char> {
    concat_all(seq![STATE_MACHINE_LOGS_0@, decimal(p.log_retention_in_days as nat), STATE_MACHINE_LOGS_1@])
}

/// The template, given the labels of the architectures and the spellings of the
/// state-machine type.
pub open spec fn template_text(p: ParametersView, rs: Seq<ManifestView>, labels: Seq<Seq<LabelsView>>, n: StepFunctionsNamesView) -> Seq<char> {
    concat_all(seq![
        HEADER@, role_backing(p), role_runtime(p), log_processor(p),
        functions(p, rs, labels, p.memory_sizes.len()),
        state_machine(n),
        runtime_branches(p, rs, labels, limit(p.step_functions_debug, rs.len())),
        STEP_FUNCTION_ROLE@,
        arns(p, rs, labels, rs.len()),
        logs_state_machine(p),
    ])
}

/// The logical name of the benchmark function of a runtime with the display name
/// `display_name` on the architecture `architecture` with the memory size `memory`:
/// `LambdaBenchmark`, the display name without `-` and `_`, the architecture without `_` in
/// upper case, and the memory size.
pub open spec fn logical_name(display_name: Seq<char>, architecture: Seq<char>, memory: u16) -> Seq<char> {
    "LambdaBenchmark"@ + replace_chars(display_name, seq!['-', '_'], seq![])
        + str_to_uppercase(replace_chars(architecture, seq!['_'], seq![])) + decimal(memory as nat)
}

/// The text that defines that function: its logical name, then its resource type.
pub open spec fn function_definition(display_name: Seq<char>, architecture: Seq<char>, memory: u16) -> Seq<char> {
    "\n  "@ + logical_name(display_name, architecture, memory) + ":\n    Type: AWS::Serverless::Function"@
}

/// The entry of that function in the list of what the state machine may invoke.
pub open spec fn invoke_permission(display_name: Seq<char>, architecture: Seq<char>, memory: u16) -> Seq<char> {
    "\n                  - !GetAtt "@ + logical_name(display_name, architecture, memory) + ".Arn"@
}

/// The resource of a benchmark function opens with its logical name and its type.
proof fn lemma_function_resource_opens(p: ParametersView, r: ManifestView, a: Seq<char>, l: LabelsView, m: u16)
    ensures
        contains_text(
            runtime_function(p, r, a, l, m),
            RUNTIME_FUNCTION_0@ + lambda_name(r, l, m) + FUNCTION_RESOURCE_TYPE@,
        ),
{
    let name = lambda_name(r, l, m);
    let fname = function_name(r, a, m);
    let f = seq![
        RUNTIME_FUNCTION_0@, name, FUNCTION_RESOURCE_TYPE@, RUNTIME_FUNCTION_1@, fname, RUNTIME_FUNCTION_2@,
        description(r, a, m), RUNTIME_FUNCTION_3@, r.runtime, RUNTIME_FUNCTION_4@, a,
        RUNTIME_FUNCTION_5@, r.handler, RUNTIME_FUNCTION_6@, decimal(m as nat),
        RUNTIME_FUNCTION_7@, p.bucket_name, RUNTIME_FUNCTION_8@, code_key(r.path, a),
        RUNTIME_FUNCTION_9@, p.bucket_name, RUNTIME_FUNCTION_10@, name, RUNTIME_FUNCTION_11@,
        LOG_GROUP_PREFIX@, fname, RUNTIME_FUNCTION_12@, decimal(p.log_retention_in_days as nat), RUNTIME_FUNCTION_13@,
    ];
    assert(runtime_function(p, r, a, l, m) == concat_all(f));
    lemma_concat_all_contains_run(f, 0, 3);
    assert(f.subrange(0, 3) =~= seq![RUNTIME_FUNCTION_0@, name, FUNCTION_RESOURCE_TYPE@]);
    lemma_concat_all_of_three(RUNTIME_FUNCTION_0@, name, FUNCTION_RESOURCE_TYPE@);
}

/// The functions of the first `k` architectures hold the function of each of them.
proof fn lemma_architecture_functions_hold(p: ParametersView, r: ManifestView, ls: Seq<LabelsView>, m: u16, k: nat, idx: int)
    requires
        0 <= idx < k,
    ensures
        contains_text(
            architecture_functions(p, r, ls, m, k),
            runtime_function(p, r, r.architectures[idx], ls[idx], m),
        ),
    decreases k,
{
    let prev = architecture_functions(p, r, ls, m, (k - 1) as nat);
    let last = runtime_function(p, r, r.architectures[k - 1], ls[k - 1], m);
    let target = runtime_function(p, r, r.architectures[idx], ls[idx], m);
    if idx == k - 1 {
        lemma_contains_self(last);
        lemma_contains_right(prev, last, last);
    } else {
        lemma_architecture_functions_hold(p, r, ls, m, (k - 1) as nat, idx);
        lemma_contains_left(prev, last, target);
    }
}

/// The functions of the first `j` runtimes for a memory size hold those of each of them.
proof fn lemma_memory_functions_hold(p: ParametersView, rs: Seq<ManifestView>, labels: Seq<Seq<LabelsView>>, m: u16, j: nat, jdx: int)
    requires
        0 <= jdx < j,
    ensures
        contains_text(
            memory_functions(p, rs, labels, m, j),
            architecture_functions(p, rs[jdx], labels[jdx], m, rs[jdx].architectures.len()),
        ),
    decreases j,
{
    let prev = memory_functions(p, rs, labels, m, (j - 1) as nat);
    let last = architecture_functions(p, rs[j - 1], labels[j - 1], m, rs[j - 1].architectures.len());
    let target = architecture_functions(p, rs[jdx], labels[jdx], m, rs[jdx].architectures.len());
    if jdx == j - 1 {
        lemma_contains_self(last);
        lemma_contains_right(prev, last, last);
    } else {
        lemma_memory_functions_hold(p, rs, labels, m, (j - 1) as nat, jdx);
        lemma_contains_left(prev, last, target);
    }
}

/// The functions of the first `i` memory sizes hold those of each of them.
proof fn lemma_functions_hold(p: ParametersView, rs: Seq<ManifestView>, labels: Seq<Seq<LabelsView>>, i: nat, idx: int)
    requires
        0 <= idx < i,
        i <= p.memory_sizes.len(),
    ensures
        contains_text(
            functions(p, rs, labels, i),
            memory_functions(p, rs, labels, p.memory_sizes[idx], rs.len()),
        ),
    decreases i,
{
    let prev = functions(p, rs, labels, (i - 1) as nat);
    let last = memory_functions(p, rs, labels, p.memory_sizes[i - 1], rs.len());
    let target = memory_functions(p, rs, labels, p.memory_sizes[idx], rs.len());
    if idx == i - 1 {
        lemma_contains_self(last);
        lemma_contains_right(prev, last, last);
    } else {
        lemma_functions_hold(p, rs, labels, (i - 1) as nat, idx);
        lemma_contains_left(prev, last, target);
    }
}

/// Every function that the template names is defined in it: for each memory size of the
/// deployment, each runtime and each of its architectures, the template defines the
/// resource `LambdaBenchmark` + display name without `-` and `_` + architecture without
/// `_` in upper case + memory size, of type `AWS::Serverless::Function`.
pub proof fn law_every_function_is_defined(p: ParametersView, rs: Seq<ManifestView>, i: int, j: int, k: int)
    requires
        0 <= i < p.memory_sizes.len(),
        0 <= j < rs.len(),
        0 <= k < rs[j].architectures.len(),
    ensures
        contains_text(
            cloudformation(p, rs),
            function_definition(rs[j].display_name, rs[j].architectures[k], p.memory_sizes[i]),
        ),
{
    let labels = architecture_labels(rs);
    let m = p.memory_sizes[i];
    let r = rs[j];
    let a = r.architectures[k];
    let l = labels[j][k];
    assert(l == architecture_labels_of(a));
    let f = runtime_function(p, r, a, l, m);
    lemma_function_resource_opens(p, r, a, l, m);
    assert(labels[j].len() == r.architectures.len());
    lemma_architecture_functions_hold(p, r, labels[j], m, r.architectures.len(), k);
    let af = architecture_functions(p, r, labels[j], m, r.architectures.len());
    lemma_contains_trans(af, f, RUNTIME_FUNCTION_0@ + lambda_name(r, l, m) + FUNCTION_RESOURCE_TYPE@);
    lemma_memory_functions_hold(p, rs, labels, m, rs.len(), j);
    let mf = memory_functions(p, rs, labels, m, rs.len());
    lemma_contains_trans(mf, af, RUNTIME_FUNCTION_0@ + lambda_name(r, l, m) + FUNCTION_RESOURCE_TYPE@);
    lemma_functions_hold(p, rs, labels, p.memory_sizes.len(), i);
    let all = functions(p, rs, labels, p.memory_sizes.len());
    lemma_contains_trans(all, mf, RUNTIME_FUNCTION_0@ + lambda_name(r, l, m) + FUNCTION_RESOURCE_TYPE@);
    let n = step_functions_names(p.step_functions);
    let t = seq![
        HEADER@, role_backing(p), role_runtime(p), log_processor(p),
        all,
        state_machine(n),
        runtime_branches(p, rs, labels, limit(p.step_functions_debug, rs.len())),
        STEP_FUNCTION_ROLE@,
        arns(p, rs, labels, rs.len()),
        logs_state_machine(p),
    ];
    assert(cloudformation(p, rs) == concat_all(t));
    lemma_concat_all_contains(t, 4);
    lemma_contains_trans(concat_all(t), all, RUNTIME_FUNCTION_0@ + lambda_name(r, l, m) + FUNCTION_RESOURCE_TYPE@);
    assert(RUNTIME_FUNCTION_0@ + lambda_name(r, l, m) + FUNCTION_RESOURCE_TYPE@
        =~= function_definition(r.display_name, a, m));
}

/// The permissions for the first `i` memory sizes hold the permission for each of them.
proof fn lemma_memory_arns_hold(p: ParametersView, r: ManifestView, l: LabelsView, i: nat, idx: int)
    requires
        0 <= idx < i,
        i <= p.memory_sizes.len(),
    ensures
        contains_text(memory_arns(p, r, l, i), function_arn(r, l, p.memory_sizes[idx])),
    decreases i,
{
    let prev = memory_arns(p, r, l, (i - 1) as nat);
    let last = function_arn(r, l, p.memory_sizes[i - 1]);
    let target = function_arn(r, l, p.memory_sizes[idx]);
    if idx == i - 1 {
        lemma_contains_self(last);
        lemma_contains_right(prev, last, last);
    } else {
        lemma_memory_arns_hold(p, r, l, (i - 1) as nat, idx);
        lemma_contains_left(prev, last, target);
    }
}

/// The permissions for the first `k` architectures hold those of each of them.
proof fn lemma_architecture_arns_hold(p: ParametersView, r: ManifestView, ls: Seq<LabelsView>, k: nat, idx: int)
    requires
        0 <= idx < k,
    ensures
        contains_text(architecture_arns(p, r, ls, k), memory_arns(p, r, ls[idx], p.memory_sizes.len())),
    decreases k,
{
    let prev = architecture_arns(p, r, ls, (k - 1) as nat);
    let last = memory_arns(p, r, ls[k - 1], p.memory_sizes.len());
    let target = memory_arns(p, r, ls[idx], p.memory_sizes.len());
    if idx == k - 1 {
        lemma_contains_self(last);
        lemma_contains_right(prev, last, last);
    } else {
        lemma_architecture_arns_hold(p, r, ls, (k - 1) as nat, idx);
        lemma_contains_left(prev, last, target);
    }
}

/// The permissions for the first `j` runtimes hold those of each of them.
proof fn lemma_arns_hold(p: ParametersView, rs: Seq<ManifestView>, labels: Seq<Seq<LabelsView>>, j: nat, jdx: int)
    requires
        0 <= jdx < j,
    ensures
        contains_text(
            arns(p, rs, labels, j),
            architecture_arns(p, rs[jdx], labels[jdx], rs[jdx].architectures.len()),
        ),
    decreases j,
{
    let prev = arns(p, rs, labels, (j - 1) as nat);
    let last = architecture_arns(p, rs[j - 1], labels[j - 1], rs[j - 1].architectures.len());
    let target = architecture_arns(p, rs[jdx], labels[jdx], rs[jdx].architectures.len());
    if jdx == j - 1 {
        lemma_contains_self(last);
        lemma_contains_right(prev, last, last);
    } else {
        lemma_arns_hold(p, rs, labels, (j - 1) as nat, jdx);
        lemma_contains_left(prev, last, target);
    }
}

/// The state machine may invoke every function of the template: for each memory size of
/// the deployment, each runtime and each of its architectures, the list of invokable
/// functions holds `!GetAtt` with the logical name of that function.
pub proof fn law_every_function_may_be_invoked(p: ParametersView, rs: Seq<ManifestView>, i: int, j: int, k: int)
    requires
        0 <= i < p.memory_sizes.len(),
        0 <= j < rs.len(),
        0 <= k < rs[j].architectures.len(),
    ensures
        contains_text(
            cloudformation(p, rs),
            invoke_permission(rs[j].display_name, rs[j].architectures[k], p.memory_sizes[i]),
        ),
{
    let labels = architecture_labels(rs);
    let m = p.memory_sizes[i];
    let r = rs[j];
    let a = r.architectures[k];
    let l = labels[j][k];
    assert(l == architecture_labels_of(a));
    let f = function_arn(r, l, m);
    lemma_concat_all_of_three(FUNCTION_ARN_0@, lambda_name(r, l, m), FUNCTION_ARN_1@);
    lemma_contains_self(f);
    lemma_memory_arns_hold(p, r, l, p.memory_sizes.len(), i);
    let ma = memory_arns(p, r, l, p.memory_sizes.len());
    lemma_contains_trans(ma, f, f);
    assert(labels[j].len() == r.architectures.len());
    lemma_architecture_arns_hold(p, r, labels[j], r.architectures.len(), k);
    let aa = architecture_arns(p, r, labels[j], r.architectures.len());
    lemma_contains_trans(aa, ma, f);
    lemma_arns_hold(p, rs, labels, rs.len(), j);
    let all = arns(p, rs, labels, rs.len());
    lemma_contains_trans(all, aa, f);
    let n = step_functions_names(p.step_functions);
    let t = seq![
        HEADER@, role_backing(p), role_runtime(p), log_processor(p),
        functions(p, rs, labels, p.memory_sizes.len()),
        state_machine(n),
        runtime_branches(p, rs, labels, limit(p.step_functions_debug, rs.len())),
        STEP_FUNCTION_ROLE@,
        all,
        logs_state_machine(p),
    ];
    assert(cloudformation(p, rs) == concat_all(t));
    lemma_concat_all_contains(t, 8);
    lemma_contains_trans(concat_all(t), all, f);
    assert(f =~= invoke_permission(r.display_name, a, m));
}

/// The first state of the runs of a runtime with the directory `path` on the architecture
/// `architecture` with the memory size `memory`: the iteration named after the path, the
/// architecture with `_` turned into `-`, and the memory size, joined by `-`.
pub open spec fn memory_iteration(path: Seq<char>, architecture: Seq<char>, memory: u16) -> Seq<char> {
    "\n                              - StartAt: "@ + path + "-"@ + replace_chars(architecture, seq!['_'], "-"@)
        + "-"@ + decimal(memory as nat)
}

/// The states of a memory size open with the iteration that runs them.
proof fn lemma_memory_branch_opens(p: ParametersView, r: ManifestView, a: Seq<char>, l: LabelsView, m: u16)
    ensures
        contains_text(
            memory_branch(p, r, a, l, m),
            MEMORY_BRANCH_0@ + (r.path + DASH@ + dashed(a) + DASH@ + decimal(m as nat)),
        ),
{
    let ram = r.path + DASH@ + dashed(a) + DASH@ + decimal(m as nat);
    let resource = replace_chars(r.display_name + l.dashed + decimal(m as nat), name_noise(), seq![]);
    let f = seq![
        MEMORY_BRANCH_0@, ram, MEMORY_BRANCH_1@, ram, MEMORY_BRANCH_2@, ram, MEMORY_BRANCH_3@,
        COLD_START_0@, ram, COLD_START_1@, ram, COLD_START_2@, resource, COLD_START_3@,
        p.bucket_name, COLD_START_4@, code_key(r.path, dashed(a)), COLD_START_5@,
        RUNTIME_STATE_0@, ram, RUNTIME_STATE_1@, ram, RUNTIME_STATE_2@, resource, RUNTIME_STATE_3@,
        WAIT_STATE_0@, ram, WAIT_STATE_1@, ram, WAIT_STATE_2@,
        LOG_EXTRACTOR_0@, ram, LOG_EXTRACTOR_1@, ram, LOG_EXTRACTOR_2@, LOG_GROUP_PREFIX@, FUNCTION_PREFIX@,
        ram, LOG_EXTRACTOR_3@,
        LOG_PROCESSOR_STATE_0@, ram, LOG_PROCESSOR_STATE_1@,
    ];
    assert(memory_branch(p, r, a, l, m) == concat_all(f));
    lemma_concat_all_contains_run(f, 0, 3);
    assert(f.subrange(0, 3) =~= seq![MEMORY_BRANCH_0@, ram, MEMORY_BRANCH_1@]);
    lemma_concat_all_of_three(MEMORY_BRANCH_0@, ram, MEMORY_BRANCH_1@);
    lemma_contains_self(MEMORY_BRANCH_0@ + ram);
    lemma_contains_left(MEMORY_BRANCH_0@ + ram, MEMORY_BRANCH_1@, MEMORY_BRANCH_0@ + ram);
    lemma_contains_trans(concat_all(f), MEMORY_BRANCH_0@ + ram + MEMORY_BRANCH_1@, MEMORY_BRANCH_0@ + ram);
}

/// The states of the first `i` memory sizes hold those of each of them.
proof fn lemma_memory_branches_hold(p: ParametersView, r: ManifestView, a: Seq<char>, l: LabelsView, i: nat, idx: int)
    requires
        0 <= idx < i,
        i <= p.memory_sizes.len(),
    ensures
        contains_text(memory_branches(p, r, a, l, i), memory_branch(p, r, a, l, p.memory_sizes[idx])),
    decreases i,
{
    let prev = memory_branches(p, r, a, l, (i - 1) as nat);
    let last = memory_branch(p, r, a, l, p.memory_sizes[i - 1]);
    let target = memory_branch(p, r, a, l, p.memory_sizes[idx]);
    if idx == i - 1 {
        lemma_contains_self(last);
        lemma_contains_right(prev, last, last);
    } else {
        lemma_memory_branches_hold(p, r, a, l, (i - 1) as nat, idx);
        lemma_contains_left(prev, last, target);
    }
}

/// The branches of the first `k` architectures hold the branch of each of them.
proof fn lemma_architecture_branches_hold(p: ParametersView, r: ManifestView, ls: Seq<LabelsView>, k: nat, idx: int)
    requires
        0 <= idx < k,
    ensures
        contains_text(
            architecture_branches(p, r, ls, k),
            architecture_branch(p, r, r.architectures[idx], ls[idx]),
        ),
    decreases k,
{
    let prev = architecture_branches(p, r, ls, (k - 1) as nat);
    let last = architecture_branch(p, r, r.architectures[k - 1], ls[k - 1]);
    let target = architecture_branch(p, r, r.architectures[idx], ls[idx]);
    if idx == k - 1 {
        lemma_contains_self(last);
        lemma_contains_right(prev, last, last);
    } else {
        lemma_architecture_branches_hold(p, r, ls, (k - 1) as nat, idx);
        lemma_contains_left(prev, last, target);
    }
}

/// The branches of the first `j` runtimes hold the branch of each of them.
proof fn lemma_runtime_branches_hold(p: ParametersView, rs: Seq<ManifestView>, labels: Seq<Seq<LabelsView>>, j: nat, jdx: int)
    requires
        0 <= jdx < j,
    ensures
        contains_text(runtime_branches(p, rs, labels, j), runtime_branch(p, rs[jdx], labels[jdx])),
    decreases j,
{
    let prev = runtime_branches(p, rs, labels, (j - 1) as nat);
    let last = runtime_branch(p, rs[j - 1], labels[j - 1]);
    let target = runtime_branch(p, rs[jdx], labels[jdx]);
    if jdx == j - 1 {
        lemma_contains_self(last);
        lemma_contains_right(prev, last, last);
    } else {
        lemma_runtime_branches_hold(p, rs, labels, (j - 1) as nat, jdx);
        lemma_contains_left(prev, last, target);
    }
}

/// The state machine runs every memory size of every architecture of every runtime; in
/// debug mode it runs only the first memory size of the first architecture of the first
/// runtime.
pub proof fn law_every_configuration_is_run(p: ParametersView, rs: Seq<ManifestView>, i: int, j: int, k: int)
    requires
        0 <= i < p.memory_sizes.len(),
        0 <= j < rs.len(),
        0 <= k < rs[j].architectures.len(),
        p.step_functions_debug ==> i == 0 && j == 0 && k == 0,
    ensures
        contains_text(
            cloudformation(p, rs),
            memory_iteration(rs[j].path, rs[j].architectures[k], p.memory_sizes[i]),
        ),
{
    let labels = architecture_labels(rs);
    let m = p.memory_sizes[i];
    let r = rs[j];
    let a = r.architectures[k];
    let l = labels[j][k];
    let goal = MEMORY_BRANCH_0@ + (r.path + DASH@ + dashed(a) + DASH@ + decimal(m as nat));
    lemma_memory_branch_opens(p, r, a, l, m);
    let mb = memory_branch(p, r, a, l, m);
    let n_mem = limit(p.step_functions_debug, p.memory_sizes.len());
    lemma_memory_branches_hold(p, r, a, l, n_mem, i);
    let mbs = memory_branches(p, r, a, l, n_mem);
    lemma_contains_trans(mbs, mb, goal);
    let main = r.path + DASH@ + dashed(a);
    let ab = architecture_branch(p, r, a, l);
    lemma_contains_right(concat_all(seq![ARCHITECTURE_BRANCH_0@, main, ARCHITECTURE_BRANCH_1@, main, ARCHITECTURE_BRANCH_2@]), mbs, goal);
    assert(labels[j].len() == r.architectures.len());
    let n_arch = limit(p.step_functions_debug, r.architectures.len());
    lemma_architecture_branches_hold(p, r, labels[j], n_arch, k);
    let abs = architecture_branches(p, r, labels[j], n_arch);
    lemma_contains_trans(abs, ab, goal);
    let rb = runtime_branch(p, r, labels[j]);
    lemma_contains_right(concat_all(seq![RUNTIME_BRANCH_0@, r.path, RUNTIME_BRANCH_1@, r.path, RUNTIME_BRANCH_2@]), abs, goal);
    let n_rt = limit(p.step_functions_debug, rs.len());
    lemma_runtime_branches_hold(p, rs, labels, n_rt, j);
    let rbs = runtime_branches(p, rs, labels, n_rt);
    lemma_contains_trans(rbs, rb, goal);
    let n = step_functions_names(p.step_functions);
    let t = seq![
        HEADER@, role_backing(p), role_runtime(p), log_processor(p),
        functions(p, rs, labels, p.memory_sizes.len()),
        state_machine(n),
        rbs,
        STEP_FUNCTION_ROLE@,
        arns(p, rs, labels, rs.len()),
        logs_state_machine(p),
    ];
    assert(cloudformation(p, rs) == concat_all(t));
    lemma_concat_all_contains(t, 6);
    lemma_contains_trans(concat_all(t), rbs, goal);
    assert(goal =~= memory_iteration(r.path, a, m));
}

/// The template of a deployment.
pub open spec fn cloudformation(p: ParametersView, rs: Seq<ManifestView>) -> Seq<char> {
    template_text(p, rs, architecture_labels(rs), step_functions_names(p.step_functions))
}

/// The logical name of the benchmark function of `r` with the labels `l` and memory size `m`.
fn lambda_name_of(r: &Manifest, l: &ArchitectureLabels, m: u16) -> (res: String)
    ensures
        res@ == lambda_name(r@, l@, m),
{
    proof {
        reveal_strlit("");
        assert(""@ =~= Seq::<char>::empty());
    }
    let noise: [char; 2] = ['-', '_'];
    assert(noise@ == name_noise());
    let cleaned = replace_chars_in(r.display_name.as_str(), &noise, "");
    let mut res = String::new();
    res.append(LAMBDA_PREFIX);
    res.append(cleaned.as_str());
    res.append(l.plain.as_str());
    let memory = decimal_string(m as u64);
    res.append(memory.as_str());
    assert(res@ =~= lambda_name(r@, l@, m));
    res
}

/// `a` with its underscores turned into dashes.
fn dashed_of(a: &String) -> (res: String)
    ensures
        res@ == dashed(a@),
{
    let underscore: [char; 1] = ['_'];
    assert(underscore@ == seq!['_']);
    replace_chars_in(a.as_str(), &underscore, DASH)
}

/// Appends the benchmark function of `r` on `a` with memory size `m`, and its log group.
fn push_runtime_function(b: &mut String, p: &Parameters, r: &Manifest, a: &String, l: &ArchitectureLabels, m: u16)
    ensures
        final(b)@ == old(b)@ + runtime_function(p@, r@, a@, l@, m),
{
    let name = lambda_name_of(r, l, m);
    let memory = decimal_string(m as u64);
    let dashed_a = dashed_of(a);
    let mut fname = String::new();
    fname.append(FUNCTION_PREFIX);
    fname.append(r.path.as_str());
    fname.append(DASH);
    fname.append(dashed_a.as_str());
    fname.append(DASH);
    fname.append(memory.as_str());
    assert(fname@ =~= function_name(r@, a@, m));
    let mut descr = String::new();
    descr.append(r.display_name.as_str());
    descr.append(BAR);
    descr.append(a.as_str());
    descr.append(BAR);
    descr.append(memory.as_str());
    assert(descr@ =~= description(r@, a@, m));
    let mut key = String::new();
    key.append(KEY_PREFIX);
    key.append(r.path.as_str());
    key.append(UNDERSCORE);
    key.append(a.as_str());
    key.append(KEY_SUFFIX);
    assert(key@ =~= code_key(r@.path, a@));
    let retention = decimal_string(p.log_retention_in_days as u64);
    let bucket = p.bucket_name.as_str();
    let parts = vec![
        RUNTIME_FUNCTION_0, name.as_str(), FUNCTION_RESOURCE_TYPE, RUNTIME_FUNCTION_1, fname.as_str(), RUNTIME_FUNCTION_2,
        descr.as_str(), RUNTIME_FUNCTION_3, r.runtime.as_str(), RUNTIME_FUNCTION_4, a.as_str(),
        RUNTIME_FUNCTION_5, r.handler.as_str(), RUNTIME_FUNCTION_6, memory.as_str(),
        RUNTIME_FUNCTION_7, bucket, RUNTIME_FUNCTION_8, key.as_str(),
        RUNTIME_FUNCTION_9, bucket, RUNTIME_FUNCTION_10, name.as_str(), RUNTIME_FUNCTION_11,
        LOG_GROUP_PREFIX, fname.as_str(), RUNTIME_FUNCTION_12, retention.as_str(), RUNTIME_FUNCTION_13,
    ];
    let ghost nm = lambda_name(r@, l@, m);
    let ghost fnm = function_name(r@, a@, m);
    assert(str_views(parts@) =~= seq![
        RUNTIME_FUNCTION_0@, nm, FUNCTION_RESOURCE_TYPE@, RUNTIME_FUNCTION_1@, fnm, RUNTIME_FUNCTION_2@,
        description(r@, a@, m), RUNTIME_FUNCTION_3@, r@.runtime, RUNTIME_FUNCTION_4@, a@,
        RUNTIME_FUNCTION_5@, r@.handler, RUNTIME_FUNCTION_6@, decimal(m as nat),
        RUNTIME_FUNCTION_7@, p@.bucket_name, RUNTIME_FUNCTION_8@, code_key(r@.path, a@),
        RUNTIME_FUNCTION_9@, p@.bucket_name, RUNTIME_FUNCTION_10@, nm, RUNTIME_FUNCTION_11@,
        LOG_GROUP_PREFIX@, fnm, RUNTIME_FUNCTION_12@, decimal(p@.log_retention_in_days as nat), RUNTIME_FUNCTION_13@,
    ]);
    push_parts(b, &parts);
}

/// Appends the functions of the architectures of `r` with memory size `m`.
fn push_architecture_functions(b: &mut String, p: &Parameters, r: &Manifest, ls: &Vec<ArchitectureLabels>, m: u16)
    requires
        ls@.len() == r.architectures@.len(),
    ensures
        final(b)@ == old(b)@ + architecture_functions(p@, r@, ls@.map_values(|x: ArchitectureLabels| x@), m, r.architectures@.len() as nat),
{
    let ghost start = b@;
    let ghost lv = ls@.map_values(|x: ArchitectureLabels| x@);
    for k in 0..r.architectures.len()
        invariant
            ls@.len() == r.architectures@.len(),
            lv == ls@.map_values(|x: ArchitectureLabels| x@),
            b@ == start + architecture_functions(p@, r@, lv, m, k as nat),
    {
        push_runtime_function(b, p, r, &r.architectures[k], &ls[k], m);
        assert(b@ =~= start + architecture_functions(p@, r@, lv, m, (k + 1) as nat));
    }
}

/// Appends the functions of all runtimes with memory size `m`.
fn push_memory_functions(b: &mut String, p: &Parameters, rs: &[Manifest], labels: &Vec<Vec<ArchitectureLabels>>, m: u16)
    requires
        labels_fit(manifest_views(rs@), label_views(labels@)),
    ensures
        final(b)@ == old(b)@ + memory_functions(p@, manifest_views(rs@), label_views(labels@), m, rs@.len() as nat),
{
    let ghost start = b@;
    for j in 0..rs.len()
        invariant
            labels_fit(manifest_views(rs@), label_views(labels@)),
            b@ == start + memory_functions(p@, manifest_views(rs@), label_views(labels@), m, j as nat),
    {
        assert(label_views(labels@)[j as int].len() == manifest_views(rs@)[j as int].architectures.len());
        push_architecture_functions(b, p, &rs[j], &labels[j], m);
        assert(b@ =~= start + memory_functions(p@, manifest_views(rs@), label_views(labels@), m, (j + 1) as nat));
    }
}

/// Appends the functions of all memory sizes.
fn push_functions(b: &mut String, p: &Parameters, rs: &[Manifest], labels: &Vec<Vec<ArchitectureLabels>>)
    requires
        labels_fit(manifest_views(rs@), label_views(labels@)),
    ensures
        final(b)@ == old(b)@ + functions(p@, manifest_views(rs@), label_views(labels@), p@.memory_sizes.len()),
{
    let ghost start = b@;
    for i in 0..p.memory_sizes.len()
        invariant
            labels_fit(manifest_views(rs@), label_views(labels@)),
            b@ == start + functions(p@, manifest_views(rs@), label_views(labels@), i as nat),
    {
        push_memory_functions(b, p, rs, labels, p.memory_sizes[i]);
        assert(b@ =~= start + functions(p@, manifest_views(rs@), label_views(labels@), (i + 1) as nat));
    }
}

/// Appends the states that run `r` on `a` with memory size `m`.
fn push_memory_branch(b: &mut String, p: &Parameters, r: &Manifest, a: &String, l: &ArchitectureLabels, m: u16)
    ensures
        final(b)@ == old(b)@ + memory_branch(p@, r@, a@, l@, m),
{
    proof {
        reveal_strlit("");
        assert(""@ =~= Seq::<char>::empty());
    }
    let memory = decimal_string(m as u64);
    let dashed_a = dashed_of(a);
    let mut ram = String::new();
    ram.append(r.path.as_str());
    ram.append(DASH);
    ram.append(dashed_a.as_str());
    ram.append(DASH);
    ram.append(memory.as_str());
    let ghost ramv = r@.path + DASH@ + dashed(a@) + DASH@ + decimal(m as nat);
    assert(ram@ =~= ramv);
    let mut raw_resource = String::new();
    raw_resource.append(r.display_name.as_str());
    raw_resource.append(l.dashed.as_str());
    raw_resource.append(memory.as_str());
    let noise: [char; 2] = ['-', '_'];
    assert(noise@ == name_noise());
    let resource = replace_chars_in(raw_resource.as_str(), &noise, "");
    let ghost resv = replace_chars(r@.display_name + l@.dashed + decimal(m as nat), name_noise(), seq![]);
    assert(raw_resource@ =~= r@.display_name + l@.dashed + decimal(m as nat));
    let mut key = String::new();
    key.append(KEY_PREFIX);
    key.append(r.path.as_str());
    key.append(UNDERSCORE);
    key.append(dashed_a.as_str());
    key.append(KEY_SUFFIX);
    assert(key@ =~= code_key(r@.path, dashed(a@)));
    let s = ram.as_str();
    let res = resource.as_str();
    let parts = vec![
        MEMORY_BRANCH_0, s, MEMORY_BRANCH_1, s, MEMORY_BRANCH_2, s, MEMORY_BRANCH_3,
        COLD_START_0, s, COLD_START_1, s, COLD_START_2, res, COLD_START_3,
        p.bucket_name.as_str(), COLD_START_4, key.as_str(), COLD_START_5,
        RUNTIME_STATE_0, s, RUNTIME_STATE_1, s, RUNTIME_STATE_2, res, RUNTIME_STATE_3,
        WAIT_STATE_0, s, WAIT_STATE_1, s, WAIT_STATE_2,
        LOG_EXTRACTOR_0, s, LOG_EXTRACTOR_1, s, LOG_EXTRACTOR_2, LOG_GROUP_PREFIX, FUNCTION_PREFIX,
        s, LOG_EXTRACTOR_3,
        LOG_PROCESSOR_STATE_0, s, LOG_PROCESSOR_STATE_1,
    ];
    assert(str_views(parts@) =~= seq![
        MEMORY_BRANCH_0@, ramv, MEMORY_BRANCH_1@, ramv, MEMORY_BRANCH_2@, ramv, MEMORY_BRANCH_3@,
        COLD_START_0@, ramv, COLD_START_1@, ramv, COLD_START_2@, resv, COLD_START_3@,
        p@.bucket_name, COLD_START_4@, code_key(r@.path, dashed(a@)), COLD_START_5@,
        RUNTIME_STATE_0@, ramv, RUNTIME_STATE_1@, ramv, RUNTIME_STATE_2@, resv, RUNTIME_STATE_3@,
        WAIT_STATE_0@, ramv, WAIT_STATE_1@, ramv, WAIT_STATE_2@,
        LOG_EXTRACTOR_0@, ramv, LOG_EXTRACTOR_1@, ramv, LOG_EXTRACTOR_2@, LOG_GROUP_PREFIX@, FUNCTION_PREFIX@,
        ramv, LOG_EXTRACTOR_3@,
        LOG_PROCESSOR_STATE_0@, ramv, LOG_PROCESSOR_STATE_1@,
    ]);
    push_parts(b, &parts);
}

/// Appends the branch that runs `r` on `a`.
fn push_architecture_branch(b: &mut String, p: &Parameters, r: &Manifest, a: &String, l: &ArchitectureLabels)
    ensures
        final(b)@ == old(b)@ + architecture_branch(p@, r@, a@, l@),
{
    let ghost start = b@;
    let dashed_a = dashed_of(a);
    let mut main = String::new();
    main.append(r.path.as_str());
    main.append(DASH);
    main.append(dashed_a.as_str());
    let ghost mainv = r@.path + DASH@ + dashed(a@);
    assert(main@ =~= mainv);
    let parts = vec![ARCHITECTURE_BRANCH_0, main.as_str(), ARCHITECTURE_BRANCH_1, main.as_str(), ARCHITECTURE_BRANCH_2];
    assert(str_views(parts@) =~= seq![ARCHITECTURE_BRANCH_0@, mainv, ARCHITECTURE_BRANCH_1@, mainv, ARCHITECTURE_BRANCH_2@]);
    push_parts(b, &parts);
    let ghost mid = b@;
    let count: usize = if p.step_functions_debug && p.memory_sizes.len() > 1 { 1 } else { p.memory_sizes.len() };
    for i in 0..count
        invariant
            count <= p@.memory_sizes.len(),
            b@ == mid + memory_branches(p@, r@, a@, l@, i as nat),
    {
        push_memory_branch(b, p, r, a, l, p.memory_sizes[i]);
        assert(b@ =~= mid + memory_branches(p@, r@, a@, l@, (i + 1) as nat));
    }
    assert(b@ =~= start + architecture_branch(p@, r@, a@, l@));
}

/// Appends the branch that runs `r`.
fn push_runtime_branch(b: &mut String, p: &Parameters, r: &Manifest, ls: &Vec<ArchitectureLabels>)
    requires
        ls@.len() == r.architectures@.len(),
    ensures
        final(b)@ == old(b)@ + runtime_branch(p@, r@, ls@.map_values(|x: ArchitectureLabels| x@)),
{
    let ghost start = b@;
    let ghost lv = ls@.map_values(|x: ArchitectureLabels| x@);
    let parts = vec![RUNTIME_BRANCH_0, r.path.as_str(), RUNTIME_BRANCH_1, r.path.as_str(), RUNTIME_BRANCH_2];
    assert(str_views(parts@) =~= seq![RUNTIME_BRANCH_0@, r@.path, RUNTIME_BRANCH_1@, r@.path, RUNTIME_BRANCH_2@]);
    push_parts(b, &parts);
    let ghost mid = b@;
    let count: usize = if p.step_functions_debug && r.architectures.len() > 1 { 1 } else { r.architectures.len() };
    for k in 0..count
        invariant
            count <= r.architectures@.len(),
            ls@.len() == r.architectures@.len(),
            lv == ls@.map_values(|x: ArchitectureLabels| x@),
            b@ == mid + architecture_branches(p@, r@, lv, k as nat),
    {
        push_architecture_branch(b, p, r, &r.architectures[k], &ls[k]);
        assert(b@ =~= mid + architecture_branches(p@, r@, lv, (k + 1) as nat));
    }
    assert(b@ =~= start + runtime_branch(p@, r@, lv));
}

/// Appends the branches of the first `count` runtimes.
fn push_runtime_branches(b: &mut String, p: &Parameters, rs: &[Manifest], labels: &Vec<Vec<ArchitectureLabels>>, count: usize)
    requires
        labels_fit(manifest_views(rs@), label_views(labels@)),
        count <= rs@.len(),
    ensures
        final(b)@ == old(b)@ + runtime_branches(p@, manifest_views(rs@), label_views(labels@), count as nat),
{
    let ghost start = b@;
    for j in 0..count
        invariant
            labels_fit(manifest_views(rs@), label_views(labels@)),
            count <= rs@.len(),
            b@ == start + runtime_branches(p@, manifest_views(rs@), label_views(labels@), j as nat),
    {
        assert(label_views(labels@)[j as int].len() == manifest_views(rs@)[j as int].architectures.len());
        push_runtime_branch(b, p, &rs[j], &labels[j]);
        assert(b@ =~= start + runtime_branches(p@, manifest_views(rs@), label_views(labels@), (j + 1) as nat));
    }
}

/// Appends the permissions for the memory sizes of `r` on one architecture.
fn push_memory_arns(b: &mut String, p: &Parameters, r: &Manifest, l: &ArchitectureLabels)
    ensures
        final(b)@ == old(b)@ + memory_arns(p@, r@, l@, p@.memory_sizes.len()),
{
    let ghost start = b@;
    for i in 0..p.memory_sizes.len()
        invariant
            b@ == start + memory_arns(p@, r@, l@, i as nat),
    {
        let name = lambda_name_of(r, l, p.memory_sizes[i]);
        let parts = vec![FUNCTION_ARN_0, name.as_str(), FUNCTION_ARN_1];
        assert(str_views(parts@) =~= seq![FUNCTION_ARN_0@, name@, FUNCTION_ARN_1@]);
        push_parts(b, &parts);
        assert(b@ =~= start + memory_arns(p@, r@, l@, (i + 1) as nat));
    }
}

/// Appends the permissions for all functions.
fn push_arns(b: &mut String, p: &Parameters, rs: &[Manifest], labels: &Vec<Vec<ArchitectureLabels>>)
    requires
        labels_fit(manifest_views(rs@), label_views(labels@)),
    ensures
        final(b)@ == old(b)@ + arns(p@, manifest_views(rs@), label_views(labels@), rs@.len() as nat),
{
    let ghost start = b@;
    for j in 0..rs.len()
        invariant
            labels_fit(manifest_views(rs@), label_views(labels@)),
            b@ == start + arns(p@, manifest_views(rs@), label_views(labels@), j as nat),
    {
        let r = &rs[j];
        let ls = &labels[j];
        assert(label_views(labels@)[j as int].len() == manifest_views(rs@)[j as int].architectures.len());
        let ghost lv = ls@.map_values(|x: ArchitectureLabels| x@);
        let ghost mid = b@;
        for k in 0..r.architectures.len()
            invariant
                ls@.len() == r.architectures@.len(),
                lv == ls@.map_values(|x: ArchitectureLabels| x@),
                b@ == mid + architecture_arns(p@, r@, lv, k as nat),
        {
            push_memory_arns(b, p, r, &ls[k]);
            assert(b@ =~= mid + architecture_arns(p@, r@, lv, (k + 1) as nat));
        }
        assert(b@ =~= start + arns(p@, manifest_views(rs@), label_views(labels@), (j + 1) as nat));
    }
}

/// The template, given the labels of each architecture of each runtime and the spellings of
/// the state-machine type.
pub fn render_cloudformation(
    parameters: &Parameters,
    runtimes: &[Manifest],
    labels: &Vec<Vec<ArchitectureLabels>>,
    names: &StepFunctionsNames,
) -> (res: String)
    requires
        labels_fit(manifest_views(runtimes@), label_views(labels@)),
    ensures
        res@ == template_text(parameters@, manifest_views(runtimes@), label_views(labels@), names@),
{
    let p = parameters;
    let ghost pv = p@;
    let ghost rs = manifest_views(runtimes@);
    let ghost ls = label_views(labels@);
    let bucket = p.bucket_name.as_str();
    let mut b = String::new();
    let ghost mut done: Seq<Seq<char>> = seq![];
    assert(b@ == concat_all(done));

    b.append(HEADER);
    proof { lemma_concat_all_push(done, HEADER@); done = done.push(HEADER@); assert(b@ =~= concat_all(done)); }

    let parts = vec![ROLE_BACKING_0, bucket, ROLE_BACKING_1];
    assert(str_views(parts@) =~= seq![ROLE_BACKING_0@, pv.bucket_name, ROLE_BACKING_1@]);
    push_parts(&mut b, &parts);
    proof { lemma_concat_all_push(done, role_backing(pv)); done = done.push(role_backing(pv)); assert(b@ =~= concat_all(done)); }

    let parts = vec![ROLE_RUNTIME_0, bucket, ROLE_RUNTIME_1];
    assert(str_views(parts@) =~= seq![ROLE_RUNTIME_0@, pv.bucket_name, ROLE_RUNTIME_1@]);
    push_parts(&mut b, &parts);
    proof { lemma_concat_all_push(done, role_runtime(pv)); done = done.push(role_runtime(pv)); assert(b@ =~= concat_all(done)); }

    let retention = decimal_string(p.log_retention_in_days as u64);
    let parts = vec![
        LOG_PROCESSOR_0, bucket, LOG_PROCESSOR_1, BACKING_KEY, LOG_PROCESSOR_2,
        bucket, LOG_PROCESSOR_3, retention.as_str(), LOG_PROCESSOR_4,
    ];
    assert(str_views(parts@) =~= seq![
        LOG_PROCESSOR_0@, pv.bucket_name, LOG_PROCESSOR_1@, BACKING_KEY@, LOG_PROCESSOR_2@,
        pv.bucket_name, LOG_PROCESSOR_3@, decimal(pv.log_retention_in_days as nat), LOG_PROCESSOR_4@,
    ]);
    push_parts(&mut b, &parts);
    proof { lemma_concat_all_push(done, log_processor(pv)); done = done.push(log_processor(pv)); assert(b@ =~= concat_all(done)); }

    push_functions(&mut b, p, runtimes, labels);
    proof {
        let x = functions(pv, rs, ls, pv.memory_sizes.len());
        lemma_concat_all_push(done, x);
        done = done.push(x);
        assert(b@ =~= concat_all(done));
    }

    let parts = vec![
        STATE_MACHINE_0, names.resource.as_str(), STATE_MACHINE_1, names.lower.as_str(), STATE_MACHINE_2,
        names.upper.as_str(), STATE_MACHINE_3,
    ];
    assert(str_views(parts@) =~= seq![
        STATE_MACHINE_0@, names@.resource, STATE_MACHINE_1@, names@.lower, STATE_MACHINE_2@,
        names@.upper, STATE_MACHINE_3@,
    ]);
    push_parts(&mut b, &parts);
    proof { lemma_concat_all_push(done, state_machine(names@)); done = done.push(state_machine(names@)); assert(b@ =~= concat_all(done)); }

    let count: usize = if p.step_functions_debug && runtimes.len() > 1 { 1 } else { runtimes.len() };
    push_runtime_branches(&mut b, p, runtimes, labels, count);
    proof {
        let x = runtime_branches(pv, rs, ls, limit(pv.step_functions_debug, rs.len()));
        lemma_concat_all_push(done, x);
        done = done.push(x);
        assert(b@ =~= concat_all(done));
    }

    b.append(STEP_FUNCTION_ROLE);
    proof { lemma_concat_all_push(done, STEP_FUNCTION_ROLE@); done = done.push(STEP_FUNCTION_ROLE@); assert(b@ =~= concat_all(done)); }

    push_arns(&mut b, p, runtimes, labels);
    proof {
        let x = arns(pv, rs, ls, rs.len());
        lemma_concat_all_push(done, x);
        done = done.push(x);
        assert(b@ =~= concat_all(done));
    }

    let parts = vec![STATE_MACHINE_LOGS_0, retention.as_str(), STATE_MACHINE_LOGS_1];
    assert(str_views(parts@) =~= seq![STATE_MACHINE_LOGS_0@, decimal(pv.log_retention_in_days as nat), STATE_MACHINE_LOGS_1@]);
    push_parts(&mut b, &parts);
    proof { lemma_concat_all_push(done, logs_state_machine(pv)); done = done.push(logs_state_machine(pv)); assert(b@ =~= concat_all(done)); }
    assert(done =~= seq![
        HEADER@, role_backing(pv), role_runtime(pv), log_processor(pv),
        functions(pv, rs, ls, pv.memory_sizes.len()),
        state_machine(names@),
        runtime_branches(pv, rs, ls, limit(pv.step_functions_debug, rs.len())),
        STEP_FUNCTION_ROLE@,
        arns(pv, rs, ls, rs.len()),
        logs_state_machine(pv),
    ]);
    b
}

/// The CloudFormation template for the deployment `parameters` of the runtimes `runtimes`.
pub fn build_cloudformation(parameters: &Parameters, runtimes: &[Manifest]) -> (res: String)
    requires
        parameters.step_functions@.len() > 0,
    ensures
        res@ == cloudformation(parameters@, manifest_views(runtimes@)),
        forall|i: int, j: int, k: int|
            0 <= i < parameters@.memory_sizes.len() && 0 <= j < runtimes@.len()
                && 0 <= k < runtimes@[j].architectures@.len()
                ==> contains_text(res@, #[trigger] function_definition(
                    runtimes@[j].display_name@, runtimes@[j].architectures@[k]@, parameters@.memory_sizes[i],
                )),
        forall|i: int, j: int, k: int|
            0 <= i < parameters@.memory_sizes.len() && 0 <= j < runtimes@.len()
                && 0 <= k < runtimes@[j].architectures@.len()
                ==> contains_text(res@, #[trigger] invoke_permission(
                    runtimes@[j].display_name@, runtimes@[j].architectures@[k]@, parameters@.memory_sizes[i],
                )),
        forall|i: int, j: int, k: int|
            0 <= i < parameters@.memory_sizes.len() && 0 <= j < runtimes@.len()
                && 0 <= k < runtimes@[j].architectures@.len()
                && (parameters.step_functions_debug ==> i == 0 && j == 0 && k == 0)
                ==> contains_text(res@, #[trigger] memory_iteration(
                    runtimes@[j].path@, runtimes@[j].architectures@[k]@, parameters@.memory_sizes[i],
                )),
{
    proof {
        reveal_strlit("");
        assert(""@ =~= Seq::<char>::empty());
    }
    let ghost rs = manifest_views(runtimes@);
    let underscore: [char; 1] = ['_'];
    assert(underscore@ == seq!['_']);
    let mut labels: Vec<Vec<ArchitectureLabels>> = Vec::new();
    for i in 0..runtimes.len()
        invariant
            rs == manifest_views(runtimes@),
            underscore@ == seq!['_'],
            ""@ == Seq::<char>::empty(),
            labels@.len() == i,
            forall|k: int| 0 <= k < i ==> #[trigger] label_views(labels@)[k] == architecture_labels(rs)[k],
    {
        let r = &runtimes[i];
        let mut row: Vec<ArchitectureLabels> = Vec::new();
        for j in 0..r.architectures.len()
            invariant
                underscore@ == seq!['_'],
                ""@ == Seq::<char>::empty(),
                row@.len() == j,
                forall|k: int| 0 <= k < j ==> #[trigger] row@[k]@ == architecture_labels_of(r.architectures@[k]@),
        {
            let a = &r.architectures[j];
            let plain = replace_chars_in(a.as_str(), &underscore, "");
            let dashed_a = dashed_of(a);
            let dashed_plain = replace_chars_in(dashed_a.as_str(), &underscore, "");
            row.push(ArchitectureLabels { plain: to_uppercase(plain.as_str()), dashed: to_uppercase(dashed_plain.as_str()) });
        }
        let ghost old_labels = labels@;
        let ghost row_views = row@.map_values(|x: ArchitectureLabels| x@);
        assert(row_views =~= architecture_labels(rs)[i as int]);
        labels.push(row);
        assert(label_views(labels@)[i as int] == row_views);
        assert forall|k: int| 0 <= k < i + 1 implies #[trigger] label_views(labels@)[k] == architecture_labels(rs)[k] by {
            if k < i {
                assert(labels@[k] == old_labels[k]);
                assert(label_views(old_labels)[k] == architecture_labels(rs)[k]);
            }
        }
    }
    assert(label_views(labels@) =~= architecture_labels(rs));
    let chars = to_chars(parameters.step_functions.as_str());
    let first = char_uppercase(chars[0]);
    let mut rest_chars: Vec<char> = Vec::new();
    for k in 1..chars.len()
        invariant
            1 <= chars@.len(),
            rest_chars@ == chars@.subrange(1, k as int),
    {
        rest_chars.push(chars[k]);
        assert(rest_chars@ =~= chars@.subrange(1, k + 1));
    }
    assert(rest_chars@ =~= parameters.step_functions@.drop_first());
    let rest = from_chars(&rest_chars);
    let rest_lower = to_lowercase(rest.as_str());
    let mut resource = String::new();
    resource.append(first.as_str());
    resource.append(rest_lower.as_str());
    let names = StepFunctionsNames {
        resource,
        lower: to_lowercase(parameters.step_functions.as_str()),
        upper: to_uppercase(parameters.step_functions.as_str()),
    };
    assert(names@ == step_functions_names(parameters@.step_functions));
    let res = render_cloudformation(parameters, runtimes, &labels, &names);
    proof {
        assert forall|i: int, j: int, k: int|
            0 <= i < parameters@.memory_sizes.len() && 0 <= j < runtimes@.len()
                && 0 <= k < runtimes@[j].architectures@.len()
            implies contains_text(res@, #[trigger] function_definition(
                runtimes@[j].display_name@, runtimes@[j].architectures@[k]@, parameters@.memory_sizes[i],
            )) by {
            assert(rs[j] == runtimes@[j]@);
            assert(rs[j].architectures[k] == runtimes@[j].architectures@[k]@);
            law_every_function_is_defined(parameters@, rs, i, j, k);
        }
        assert forall|i: int, j: int, k: int|
            0 <= i < parameters@.memory_sizes.len() && 0 <= j < runtimes@.len()
                && 0 <= k < runtimes@[j].architectures@.len()
            implies contains_text(res@, #[trigger] invoke_permission(
                runtimes@[j].display_name@, runtimes@[j].architectures@[k]@, parameters@.memory_sizes[i],
            )) by {
            assert(rs[j] == runtimes@[j]@);
            assert(rs[j].architectures[k] == runtimes@[j].architectures@[k]@);
            law_every_function_may_be_invoked(parameters@, rs, i, j, k);
        }
        assert forall|i: int, j: int, k: int|
            0 <= i < parameters@.memory_sizes.len() && 0 <= j < runtimes@.len()
                && 0 <= k < runtimes@[j].architectures@.len()
                && (parameters.step_functions_debug ==> i == 0 && j == 0 && k == 0)
            implies contains_text(res@, #[trigger] memory_iteration(
                runtimes@[j].path@, runtimes@[j].architectures@[k]@, parameters@.memory_sizes[i],
            )) by {
            assert(rs[j] == runtimes@[j]@);
            assert(rs[j].architectures[k] == runtimes@[j].architectures@[k]@);
            law_every_configuration_is_run(parameters@, rs, i, j, k);
        }
    }
    res
}

} // verus!
