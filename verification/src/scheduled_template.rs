//! The CloudFormation template of the scheduled benchmark: one function per runtime and
//! architecture, whose logs a processor function receives, and a state machine that
//! sets each memory size in turn and runs the function.
use vstd::prelude::*;
use vstd::string::*;
use crate::text::{
    views, str_views, replace_chars, replace_chars_in, decimal, join, concat_all, lemma_concat_all_push,
    push_parts, decimal_string, join_decimals, contains_text, lemma_concat_all_contains,
    lemma_concat_all_contains_run, lemma_concat_all_of_three, lemma_contains_trans, lemma_contains_self,
    lemma_contains_left, lemma_contains_right, lemma_concat_all_opens,
};
use crate::casing::{str_to_uppercase, to_uppercase};
use crate::manifest::{Manifest, ManifestView, manifest_views};

verus! {

/// The settings of a deployment.
pub struct Parameters {
    pub bucket_name: String,
    pub memory_sizes: Vec<u16>,
    pub log_retention_in_days: u16,
    pub iterations_lambdas: u8,
    pub iterations_code: u16,
    pub schedule_state: String,
    pub schedule_expression: String,
    pub step_functions_debug: bool,
}

pub struct ParametersView {
    pub bucket_name: Seq<char>,
    pub memory_sizes: Seq<u16>,
    pub log_retention_in_days: u16,
    pub iterations_lambdas: u8,
    pub iterations_code: u16,
    pub schedule_state: Seq<char>,
    pub schedule_expression: Seq<char>,
    pub step_functions_debug: bool,
}

impl View for Parameters {
    type V = ParametersView;

    open spec fn view(&self) -> ParametersView {
        ParametersView {
            bucket_name: self.bucket_name@,
            memory_sizes: self.memory_sizes@,
            log_retention_in_days: self.log_retention_in_days,
            iterations_lambdas: self.iterations_lambdas,
            iterations_code: self.iterations_code,
            schedule_state: self.schedule_state@,
            schedule_expression: self.schedule_expression@,
            step_functions_debug: self.step_functions_debug,
        }
    }
}

pub open spec fn label_views(labels: Seq<Vec<String>>) -> Seq<Seq<Seq<char>>> {
    labels.map_values(|l: Vec<String>| views(l@))
}

pub const HEADER_0: &'static str = r#"---
AWSTemplateFormatVersion: 2010-09-09
Transform: AWS::Serverless-2016-10-31
Description: Lambda Benchmark
Globals:
  Function:
    Timeout: 60
    MemorySize: 128
    CodeUri:
      Bucket: "#;
pub const HEADER_1: &'static str = r#"
    Environment:
      Variables:
        BUCKET_NAME: "#;
pub const RESOURCES: &'static str = r#"
Resources:"#;
pub const ROLE_LOG_PROCESSOR: &'static str = r#"
  RoleLogProcessor:
    Type: AWS::IAM::Role
    Properties:
      RoleName: !Sub "iam-${AWS::Region}-lambda-benchmark-log-processor-role"
      AssumeRolePolicyDocument:
        Version: 2012-10-17
        Statement:
          - Effect: Allow
            Principal:
              Service:
                - lambda.amazonaws.com
            Action:
              - sts:AssumeRole
      Path: /
      ManagedPolicyArns:
        - arn:aws:iam::aws:policy/service-role/AWSLambdaBasicExecutionRole"#;
pub const ROLE_REPORT_GENERATOR_0: &'static str = r#"
  RoleReportGenerator:
    Type: AWS::IAM::Role
    Properties:
      RoleName: !Sub "iam-${AWS::Region}-lambda-benchmark-report-generator-role"
      Path: /
      AssumeRolePolicyDocument:
        Version: 2012-10-17
        Statement:
          - Effect: Allow
            Principal:
              Service: lambda.amazonaws.com
            Action: sts:AssumeRole
      ManagedPolicyArns: [arn:aws:iam::aws:policy/service-role/AWSLambdaBasicExecutionRole]
      Policies:
        - PolicyName: !Sub "iam-${AWS::Region}-lambda-benchmark-report-generator-policy"
          PolicyDocument:
            Version: 2012-10-17
            Statement:
              - Effect: Allow
                Action:
                  - s3:ListBucket
                Resource: arn:aws:s3:::"#;
pub const ROLE_REPORT_GENERATOR_1: &'static str = r#"
              - Effect: Allow
                Action:
                  - s3:ListBucket
                  - s3:GetObject
                  - s3:DeleteObject
                Resource: arn:aws:s3:::"#;
pub const ROLE_REPORT_GENERATOR_2: &'static str = r#"/results/*
              - Effect: Allow
                Action:
                  - s3:PutObject
                Resource: arn:aws:s3:::"#;
pub const ROLE_REPORT_GENERATOR_3: &'static str = r#"/reports/*"#;
pub const ROLE_RUNTIME_0: &'static str = r#"
  RoleRuntime:
    Type: AWS::IAM::Role
    Properties:
      RoleName: !Sub "iam-${AWS::Region}-lambda-benchmark-runtime-role"
      Path: /
      AssumeRolePolicyDocument:
        Version: 2012-10-17
        Statement:
          - Effect: Allow
            Principal:
              Service: lambda.amazonaws.com
            Action: sts:AssumeRole
      ManagedPolicyArns: [arn:aws:iam::aws:policy/service-role/AWSLambdaBasicExecutionRole]
      Policies:
        - PolicyName: !Sub "iam-${AWS::Region}-lambda-benchmark-runtime-policy"
          PolicyDocument:
            Version: 2012-10-17
            Statement:
              - Effect: Allow
                Action:
                  - s3:PutObject
                  - s3:DeleteObject
                Resource: arn:aws:s3:::"#;
pub const ROLE_RUNTIME_1: &'static str = r#"/test/*"#;
pub const LOG_PROCESSOR_FUNCTION: &'static str = r#"
  LambdaLogProcessor:
    Type: AWS::Serverless::Function
    Properties:
      FunctionName: benchmark-log-processor
      Description: Lambda Benchmark | Log Processor
      Runtime: provided.al2
      Architectures: [arm64]
      Handler: bootstrap
      Role: !GetAtt RoleLogProcessor.Arn
      CodeUri:
        Key: backing/log_processor.zip
      Events:"#;
pub const LOG_SUBSCRIPTION_0: &'static str = "\n        Logs";
pub const LOG_SUBSCRIPTION_1: &'static str = r#":
          Type: CloudWatchLogs
          Properties:
            LogGroupName: !Ref Logs"#;
pub const LOG_SUBSCRIPTION_2: &'static str = r#"
            FilterPattern: REPORT"#;
pub const LOG_PROCESSOR_LOGS_0: &'static str = r#"
  LogsLogProcessor:
    Type: AWS::Logs::LogGroup
    Properties:
      LogGroupName: /aws/lambda/benchmark-log-processor
      RetentionInDays: "#;
pub const REPORT_GENERATOR_0: &'static str = r#"
  LambdaReportGenerator:
    Type: AWS::Serverless::Function
    Properties:
      FunctionName: benchmark-report-generator
      Description: Lambda Benchmark | Report Generator
      Runtime: provided.al2
      Architectures: [arm64]
      Handler: bootstrap
      Role: !GetAtt RoleReportGenerator.Arn
      CodeUri:
        Key: backing/report_generator.zip
  LogsReportGenerator:
    Type: AWS::Logs::LogGroup
    Properties:
      LogGroupName: /aws/lambda/benchmark-report-generator
      RetentionInDays: "#;
pub const RUNTIME_FUNCTION_0: &'static str = "\n  ";
pub const FUNCTION_RESOURCE_TYPE: &'static str = ":\n    Type: AWS::Serverless::Function";
pub const RUNTIME_FUNCTION_1: &'static str = r#"
    Properties:
      FunctionName: "#;
pub const RUNTIME_FUNCTION_2: &'static str = r#"
      Description: Lambda Benchmark | "#;
pub const RUNTIME_FUNCTION_3: &'static str = r#"
      Runtime: "#;
pub const RUNTIME_FUNCTION_4: &'static str = r#"
      Architectures: ["#;
pub const RUNTIME_FUNCTION_5: &'static str = r#"]
      Handler: "#;
pub const RUNTIME_FUNCTION_6: &'static str = r#"
      Role: !GetAtt RoleRuntime.Arn
      CodeUri:
        Key: "#;
pub const RUNTIME_FUNCTION_7: &'static str = r#"
      Environment:
        Variables:
          ITERATIONS_CODE: "#;
pub const RUNTIME_LOGS_0: &'static str = r#"
  Logs"#;
pub const RUNTIME_LOGS_1: &'static str = r#":
    Type: AWS::Logs::LogGroup
    Properties:
      LogGroupName: /aws/lambda/"#;
pub const RUNTIME_LOGS_2: &'static str = r#"
      RetentionInDays: "#;
pub const STATE_MACHINE_0: &'static str = r#"
  StateMachineBenchmarkRunner:
    Type: AWS::Serverless::StateMachine
    Properties:
      Name: !Sub "stm-lambda-benchmark"
      Type: STANDARD
      Tracing:
        Enabled: false
      Logging:
        Level: ERROR
        Destinations:
          - CloudWatchLogsLogGroup:
              LogGroupArn: !GetAtt LogsStateMachine.Arn
      Role: !GetAtt StepFunctionRole.Arn
      Events:
        Event:
          Type: Schedule
          Properties:
            State: "#;
pub const STATE_MACHINE_1: &'static str = r#"
            Schedule: "#;
pub const STATE_MACHINE_2: &'static str = r#"
            Input: '{"iterations": "#;
pub const STATE_MACHINE_3: &'static str = r#"}'
      Definition:
        Comment: Lambda Benchmark Runner
        StartAt: setup
        States:
          setup:
            Type: Pass
            Next: benchmarks
            Parameters:
              iterations.$: States.ArrayRange(1, $.iterations, 1)
              "#;
pub const MEMORY_ARRAY_OPEN: &'static str = "memory_array: [";
pub const MEMORY_ARRAY_CLOSE: &'static str = "]";
pub const STATE_MACHINE_4: &'static str = r#"
          benchmarks:
            Type: Parallel
            End: true
            ResultPath: null
            Branches:"#;
pub const RUNTIME_BRANCH_0: &'static str = r#"
              - StartAt: "#;
pub const RUNTIME_BRANCH_1: &'static str = r#"-architecture-iter
                States:
                  "#;
pub const RUNTIME_BRANCH_2: &'static str = r#"-architecture-iter:
                    Type: Parallel
                    End: true
                    Branches:"#;
pub const ARCHITECTURE_BRANCH_0: &'static str = "\n                      - StartAt: ";
pub const ARCHITECTURE_BRANCH_1: &'static str = r#"-iteration-iter
                        States:
                          "#;
pub const ARCHITECTURE_BRANCH_2: &'static str = r#"-iteration-iter:
                            Type: Map
                            End: true
                            ItemsPath: $.iterations
                            ItemSelector:
                              iteration.$: $$.Map.Item.Value
                              function_name: !GetAtt "#;
pub const ARCHITECTURE_BRANCH_3: &'static str = r#".Arn
                              memory_array.$: $.memory_array
                            MaxConcurrency: 1
                            ItemProcessor:
                              ProcessorConfig:
                                Mode: INLINE
                              StartAt: "#;
pub const ARCHITECTURE_BRANCH_4: &'static str = r#"-memory-iter
                              States:
                                "#;
pub const ARCHITECTURE_BRANCH_5: &'static str = r#"-memory-iter:
                                  Type: Map
                                  End: true
                                  MaxConcurrency: 1
                                  ItemsPath: $.memory_array
                                  ItemSelector:
                                    iteration.$: $.iteration
                                    function_name.$: $.function_name
                                    memory_size.$: $$.Map.Item.Value
                                  ItemProcessor:
                                    ProcessorConfig:
                                      Mode: INLINE
                                    StartAt: "#;
pub const ARCHITECTURE_BRANCH_6: &'static str = r#"-memory
                                    States:
                                      "#;
pub const ARCHITECTURE_BRANCH_7: &'static str = r#"-memory:
                                        Type: Task
                                        Next: "#;
pub const ARCHITECTURE_BRANCH_8: &'static str = r#"-benchmark
                                        Parameters:
                                          FunctionName.$: $.function_name
                                          MemorySize.$: $.memory_size
                                        Resource: arn:aws:states:::aws-sdk:lambda:updateFunctionConfiguration
                                        ResultPath: null
                                      "#;
pub const ARCHITECTURE_BRANCH_9: &'static str = r#"-benchmark:
                                        Type: Task
                                        End: true
                                        Resource: arn:aws:states:::lambda:invoke
                                        Parameters:
                                          FunctionName.$: $.function_name
                                        ResultPath: null"#;
pub const STEP_FUNCTION_ROLE_0: &'static str = r#"
  StepFunctionRole:
    Type: AWS::IAM::Role
    Properties:
      RoleName: !Sub "iam-${AWS::Region}-lambda-benchmark-step-functions-role"
      AssumeRolePolicyDocument:
        Version: 2012-10-17
        Statement:
          - Effect: Allow
            Principal:
              Service: !Sub "states.${AWS::Region}.amazonaws.com"
            Action: sts:AssumeRole
      Policies:
        - PolicyName: logs
          PolicyDocument:
            Statement:
              - Effect: Allow
                Action:
                  - logs:CreateLogDelivery
                  - logs:GetLogDelivery
                  - logs:UpdateLogDelivery
                  - logs:DeleteLogDelivery
                  - logs:ListLogDeliveries
                  - logs:PutResourcePolicy
                  - logs:DescribeResourcePolicies
                  - logs:DescribeLogGroups
                  - logs:GetLogEvents
                Resource: "*"
        - PolicyName: stateMachine
          PolicyDocument:
            Statement:
              - Effect: Allow
                Action:
                  - states:StartExecution
                  - events:PutTargets
                  - events:PutRule
                  - events:DescribeRule
                Resource:
                  - !Sub "arn:aws:states:${AWS::Region}:${AWS::AccountId}:stateMachine:stm-lambda-benchmark"
        - PolicyName: lambda
          PolicyDocument:
            Statement:
              - Effect: Allow
                Action: lambda:InvokeFunction
                Resource:
                  - !GetAtt LambdaLogProcessor.Arn
                  - !GetAtt LambdaReportGenerator.Arn
              - Effect: Allow
                Action: s3:GetObject
                Resource:
                  - arn:aws:s3:::"#;
pub const STEP_FUNCTION_ROLE_1: &'static str = r#"/runtimes/*
              - Effect: Allow
                Action: s3:PutObject
                Resource:
                  - arn:aws:s3:::"#;
pub const STEP_FUNCTION_ROLE_2: &'static str = r#"/results/*
              - Effect: Allow
                Action:
                  - lambda:InvokeFunction
                  - lambda:UpdateFunctionCode
                Resource:"#;
pub const FUNCTION_ARN_0: &'static str = "\n                  - !GetAtt ";
pub const FUNCTION_ARN_1: &'static str = ".Arn";
pub const STATE_MACHINE_LOGS_0: &'static str = r#"
  LogsStateMachine:
    Type: AWS::Logs::LogGroup
    Properties:
      LogGroupName: /aws/vendedlogs/states/lambda-benchmark
      RetentionInDays: "#;

pub const LAMBDA_PREFIX: &'static str = "LambdaBenchmark";
pub const FUNCTION_PREFIX: &'static str = "lambda-benchmark-";
pub const KEY_PREFIX: &'static str = "runtimes/";
pub const KEY_SUFFIX: &'static str = ".zip";
pub const DASH: &'static str = "-";
pub const UNDERSCORE: &'static str = "_";
pub const BAR: &'static str = " | ";
pub const LIST_SEPARATOR: &'static str = ", ";

/// The characters dropped from a display name in resource names.
pub open spec fn name_noise() -> Seq<char> {
    seq!['-', '_', '.', ',']
}

/// The logical name of the benchmark function of a runtime, given the label of the architecture.
pub open spec fn lambda_name(r: ManifestView, label: Seq<char>) -> Seq<char> {
    LAMBDA_PREFIX@ + replace_chars(r.display_name, name_noise(), seq![]) + label
}

/// The label of an architecture in resource names: without underscores, upper case.
pub open spec fn architecture_label(a: Seq<char>) -> Seq<char> {
    str_to_uppercase(replace_chars(a, seq!['_'], seq![]))
}

/// The labels of every architecture of every runtime.
pub open spec fn architecture_labels(rs: Seq<ManifestView>) -> Seq<Seq<Seq<char>>> {
    Seq::new(
        rs.len(),
        |i: int| Seq::new(rs[i].architectures.len(), |j: int| architecture_label(rs[i].architectures[j])),
    )
}

/// Whether `labels` has one label for each architecture of each runtime.
pub open spec fn labels_fit(rs: Seq<ManifestView>, labels: Seq<Seq<Seq<char>>>) -> bool {
    &&& labels.len() == rs.len()
    &&& forall|i: int| 0 <= i < rs.len() ==> #[trigger] labels[i].len() == rs[i].architectures.len()
}

/// The physical name of the benchmark function of a runtime on an architecture.
pub open spec fn function_name(r: ManifestView, a: Seq<char>) -> Seq<char> {
    FUNCTION_PREFIX@ + r.path + DASH@ + a
}

/// The description of the benchmark function of a runtime on an architecture.
pub open spec fn description(r: ManifestView, a: Seq<char>) -> Seq<char> {
    r.display_name + BAR@ + a
}

/// The code archive of a runtime on an architecture.
pub open spec fn code_key(r: ManifestView, a: Seq<char>) -> Seq<char> {
    KEY_PREFIX@ + r.path + UNDERSCORE@ + a + KEY_SUFFIX@
}

pub open spec fn header(p: ParametersView) -> Seq<char> {
    concat_all(seq![HEADER_0@, p.bucket_name, HEADER_1@, p.bucket_name])
}

pub open spec fn role_report_generator(p: ParametersView) -> Seq<char> {
    concat_all(seq![
        ROLE_REPORT_GENERATOR_0@, p.bucket_name, ROLE_REPORT_GENERATOR_1@, p.bucket_name,
        ROLE_REPORT_GENERATOR_2@, p.bucket_name, ROLE_REPORT_GENERATOR_3@,
    ])
}

pub open spec fn role_runtime(p: ParametersView) -> Seq<char> {
    concat_all(seq![ROLE_RUNTIME_0@, p.bucket_name, ROLE_RUNTIME_1@])
}

pub open spec fn log_processor_logs(p: ParametersView) -> Seq<char> {
    LOG_PROCESSOR_LOGS_0@ + decimal(p.log_retention_in_days as nat)
}

pub open spec fn report_generator(p: ParametersView) -> Seq<char> {
    REPORT_GENERATOR_0@ + decimal(p.log_retention_in_days as nat)
}

pub open spec fn state_machine(p: ParametersView, state: Seq<char>) -> Seq<char> {
    concat_all(seq![
        STATE_MACHINE_0@, state, STATE_MACHINE_1@, p.schedule_expression, STATE_MACHINE_2@,
        decimal(p.iterations_lambdas as nat), STATE_MACHINE_3@, MEMORY_ARRAY_OPEN@,
        join(p.memory_sizes.map_values(|v: u16| decimal(v as nat)), LIST_SEPARATOR@),
        MEMORY_ARRAY_CLOSE@, STATE_MACHINE_4@,
    ])
}

pub open spec fn step_function_role(p: ParametersView) -> Seq<char> {
    concat_all(seq![
        STEP_FUNCTION_ROLE_0@, p.bucket_name, STEP_FUNCTION_ROLE_1@, p.bucket_name,
        STEP_FUNCTION_ROLE_2@,
    ])
}

pub open spec fn logs_state_machine(p: ParametersView) -> Seq<char> {
    STATE_MACHINE_LOGS_0@ + decimal(p.log_retention_in_days as nat)
}

/// The log subscription of the processor to the logs of one benchmark function.
pub open spec fn log_subscription(name: Seq<char>) -> Seq<char> {
    concat_all(seq![LOG_SUBSCRIPTION_0@, name, LOG_SUBSCRIPTION_1@, name, LOG_SUBSCRIPTION_2@])
}

/// The benchmark function of a runtime on an architecture, and its log group.
pub open spec fn runtime_function(p: ParametersView, r: ManifestView, a: Seq<char>, name: Seq<char>) -> Seq<char> {
    concat_all(seq![
        RUNTIME_FUNCTION_0@, name, FUNCTION_RESOURCE_TYPE@, RUNTIME_FUNCTION_1@, function_name(r, a),
        RUNTIME_FUNCTION_2@,
        description(r, a), RUNTIME_FUNCTION_3@, r.runtime, RUNTIME_FUNCTION_4@, a,
        RUNTIME_FUNCTION_5@, r.handler, RUNTIME_FUNCTION_6@, code_key(r, a),
        RUNTIME_FUNCTION_7@, decimal(p.iterations_code as nat),
        RUNTIME_LOGS_0@, name, RUNTIME_LOGS_1@, function_name(r, a), RUNTIME_LOGS_2@,
        decimal(p.log_retention_in_days as nat),
    ])
}

/// The name of the state-machine states of a runtime on an architecture.
pub open spec fn runtime_architecture(r: ManifestView, a: Seq<char>) -> Seq<char> {
    r.path + DASH@ + replace_chars(a, seq!['_'], DASH@)
}

/// The branch of the state machine that runs a runtime on an architecture.
pub open spec fn architecture_branch(r: ManifestView, a: Seq<char>, name: Seq<char>) -> Seq<char> {
    let ra = runtime_architecture(r, a);
    concat_all(seq![
        ARCHITECTURE_BRANCH_0@, ra, ARCHITECTURE_BRANCH_1@, ra, ARCHITECTURE_BRANCH_2@, name,
        ARCHITECTURE_BRANCH_3@, ra, ARCHITECTURE_BRANCH_4@, ra, ARCHITECTURE_BRANCH_5@, ra,
        ARCHITECTURE_BRANCH_6@, ra, ARCHITECTURE_BRANCH_7@, ra, ARCHITECTURE_BRANCH_8@, ra,
        ARCHITECTURE_BRANCH_9@,
    ])
}

/// The permission of the state machine to invoke one benchmark function.
pub open spec fn function_arn(name: Seq<char>) -> Seq<char> {
    concat_all(seq![FUNCTION_ARN_0@, name, FUNCTION_ARN_1@])
}

/// The parts of the template that each runtime and architecture contributes to.
pub enum Section {
    Subscription,
    Function,
    Branch,
    Arn,
}

/// What a runtime on an architecture contributes to a section.
pub open spec fn target_piece(s: Section, p: ParametersView, r: ManifestView, a: Seq<char>, label: Seq<char>) -> Seq<char> {
    let name = lambda_name(r, label);
    match s {
        Section::Subscription => log_subscription(name),
        Section::Function => runtime_function(p, r, a, name),
        Section::Branch => architecture_branch(r, a, name),
        Section::Arn => function_arn(name),
    }
}

/// What the first `m` architectures of a runtime contribute to a section.
pub open spec fn runtime_pieces(s: Section, p: ParametersView, r: ManifestView, labels: Seq<Seq<char>>, m: nat) -> Seq<char>
    decreases m,
{
    if m == 0 {
        seq![]
    } else {
        runtime_pieces(s, p, r, labels, (m - 1) as nat)
            + target_piece(s, p, r, r.architectures[m - 1], labels[m - 1])
    }
}

/// What all architectures of the first `n` runtimes contribute to a section.
pub open spec fn all_pieces(s: Section, p: ParametersView, rs: Seq<ManifestView>, labels: Seq<Seq<Seq<char>>>, n: nat) -> Seq<char>
    decreases n,
{
    if n == 0 {
        seq![]
    } else {
        all_pieces(s, p, rs, labels, (n - 1) as nat)
            + runtime_pieces(s, p, rs[n - 1], labels[n - 1], rs[n - 1].architectures.len())
    }
}

/// The branch of the state machine that runs a runtime on all its architectures.
pub open spec fn runtime_branch(p: ParametersView, r: ManifestView, labels: Seq<Seq<char>>) -> Seq<char> {
    concat_all(seq![RUNTIME_BRANCH_0@, r.path, RUNTIME_BRANCH_1@, r.path, RUNTIME_BRANCH_2@])
        + runtime_pieces(Section::Branch, p, r, labels, r.architectures.len())
}

/// The branches of the first `n` runtimes.
pub open spec fn runtime_branches(p: ParametersView, rs: Seq<ManifestView>, labels: Seq<Seq<Seq<char>>>, n: nat) -> Seq<char>
    decreases n,
{
    if n == 0 {
        seq![]
    } else {
        runtime_branches(p, rs, labels, (n - 1) as nat) + runtime_branch(p, rs[n - 1], labels[n - 1])
    }
}

/// How many runtimes the state machine runs: in debug mode only the first.
pub open spec fn branch_count(p: ParametersView, rs: Seq<ManifestView>) -> nat {
    if p.step_functions_debug && rs.len() > 1 {
        1
    } else {
        rs.len()
    }
}

/// The template, given the labels of the architectures and the schedule state in upper case.
pub open spec fn template_text(p: ParametersView, rs: Seq<ManifestView>, labels: Seq<Seq<Seq<char>>>, state: Seq<char>) -> Seq<char> {
    concat_all(seq![
        header(p), RESOURCES@, ROLE_LOG_PROCESSOR@, role_report_generator(p), role_runtime(p),
        LOG_PROCESSOR_FUNCTION@,
        all_pieces(Section::Subscription, p, rs, labels, rs.len()),
        log_processor_logs(p), report_generator(p),
        all_pieces(Section::Function, p, rs, labels, rs.len()),
        state_machine(p, state),
        runtime_branches(p, rs, labels, branch_count(p, rs)),
        step_function_role(p),
        all_pieces(Section::Arn, p, rs, labels, rs.len()),
        logs_state_machine(p),
    ])
}

/// The setup state of the state machine hands every memory size of the deployment, in
/// order, to the benchmark runs: the template holds `memory_array: [` followed by their
/// decimal notations separated by `, ` and a closing `]`.
pub proof fn law_state_machine_lists_every_memory_size(
    p: ParametersView,
    rs: Seq<ManifestView>,
    labels: Seq<Seq<Seq<char>>>,
    state: Seq<char>,
)
    ensures
        contains_text(
            template_text(p, rs, labels, state),
            "memory_array: ["@ + join(p.memory_sizes.map_values(|v: u16| decimal(v as nat)), ", "@) + "]"@,
        ),
{
    let list = join(p.memory_sizes.map_values(|v: u16| decimal(v as nat)), LIST_SEPARATOR@);
    let sm = seq![
        STATE_MACHINE_0@, state, STATE_MACHINE_1@, p.schedule_expression, STATE_MACHINE_2@,
        decimal(p.iterations_lambdas as nat), STATE_MACHINE_3@, MEMORY_ARRAY_OPEN@,
        list, MEMORY_ARRAY_CLOSE@, STATE_MACHINE_4@,
    ];
    assert(state_machine(p, state) == concat_all(sm));
    lemma_concat_all_contains_run(sm, 7, 3);
    assert(sm.subrange(7, 10) =~= seq![MEMORY_ARRAY_OPEN@, list, MEMORY_ARRAY_CLOSE@]);
    lemma_concat_all_of_three(MEMORY_ARRAY_OPEN@, list, MEMORY_ARRAY_CLOSE@);
    let t = seq![
        header(p), RESOURCES@, ROLE_LOG_PROCESSOR@, role_report_generator(p), role_runtime(p),
        LOG_PROCESSOR_FUNCTION@,
        all_pieces(Section::Subscription, p, rs, labels, rs.len()),
        log_processor_logs(p), report_generator(p),
        all_pieces(Section::Function, p, rs, labels, rs.len()),
        state_machine(p, state),
        runtime_branches(p, rs, labels, branch_count(p, rs)),
        step_function_role(p),
        all_pieces(Section::Arn, p, rs, labels, rs.len()),
        logs_state_machine(p),
    ];
    assert(template_text(p, rs, labels, state) == concat_all(t));
    lemma_concat_all_contains(t, 10);
    lemma_contains_trans(concat_all(t), state_machine(p, state), MEMORY_ARRAY_OPEN@ + list + MEMORY_ARRAY_CLOSE@);
}

/// The text that defines the benchmark function of a runtime with the display name
/// `display_name` on the architecture `architecture`: its logical name, then its resource
/// type.
pub open spec fn function_definition(display_name: Seq<char>, architecture: Seq<char>) -> Seq<char> {
    "\n  "@ + logical_name(display_name, architecture) + ":\n    Type: AWS::Serverless::Function"@
}

/// The logical name of the benchmark function of a runtime with the display name
/// `display_name` on the architecture `architecture`: `LambdaBenchmark`, the display name
/// without `-`, `_`, `.` and `,`, and the architecture without `_` in upper case.
pub open spec fn logical_name(display_name: Seq<char>, architecture: Seq<char>) -> Seq<char> {
    "LambdaBenchmark"@ + replace_chars(display_name, seq!['-', '_', '.', ','], seq![])
        + str_to_uppercase(replace_chars(architecture, seq!['_'], seq![]))
}

/// The entry of that function in the list of what the state machine may invoke.
pub open spec fn invoke_permission(display_name: Seq<char>, architecture: Seq<char>) -> Seq<char> {
    "\n                  - !GetAtt "@ + logical_name(display_name, architecture) + ".Arn"@
}

/// The event through which the log processor receives the logs of that function.
pub open spec fn log_event(display_name: Seq<char>, architecture: Seq<char>) -> Seq<char> {
    "\n        Logs"@ + logical_name(display_name, architecture)
}

/// The first state of the runs of a runtime with the directory `path` on the architecture
/// `architecture`: the iteration named after the path and the architecture with `_` turned
/// into `-`, joined by `-`.
pub open spec fn architecture_iteration(path: Seq<char>, architecture: Seq<char>) -> Seq<char> {
    "\n                      - StartAt: "@ + path + "-"@ + replace_chars(architecture, seq!['_'], "-"@)
}

/// The resource of a benchmark function opens with its logical name and its type.
proof fn lemma_function_resource_opens(p: ParametersView, r: ManifestView, a: Seq<char>, name: Seq<char>)
    ensures
        contains_text(runtime_function(p, r, a, name), RUNTIME_FUNCTION_0@ + name + FUNCTION_RESOURCE_TYPE@),
{
    let f = seq![
        RUNTIME_FUNCTION_0@, name, FUNCTION_RESOURCE_TYPE@, RUNTIME_FUNCTION_1@, function_name(r, a),
        RUNTIME_FUNCTION_2@,
        description(r, a), RUNTIME_FUNCTION_3@, r.runtime, RUNTIME_FUNCTION_4@, a,
        RUNTIME_FUNCTION_5@, r.handler, RUNTIME_FUNCTION_6@, code_key(r, a),
        RUNTIME_FUNCTION_7@, decimal(p.iterations_code as nat),
        RUNTIME_LOGS_0@, name, RUNTIME_LOGS_1@, function_name(r, a), RUNTIME_LOGS_2@,
        decimal(p.log_retention_in_days as nat),
    ];
    assert(runtime_function(p, r, a, name) == concat_all(f));
    lemma_concat_all_contains_run(f, 0, 3);
    assert(f.subrange(0, 3) =~= seq![RUNTIME_FUNCTION_0@, name, FUNCTION_RESOURCE_TYPE@]);
    lemma_concat_all_of_three(RUNTIME_FUNCTION_0@, name, FUNCTION_RESOURCE_TYPE@);
}

/// What the first `m` architectures of a runtime contribute holds what each of them does.
proof fn lemma_runtime_pieces_hold(s: Section, p: ParametersView, r: ManifestView, labels: Seq<Seq<char>>, m: nat, idx: int)
    requires
        0 <= idx < m,
    ensures
        contains_text(
            runtime_pieces(s, p, r, labels, m),
            target_piece(s, p, r, r.architectures[idx], labels[idx]),
        ),
    decreases m,
{
    let prev = runtime_pieces(s, p, r, labels, (m - 1) as nat);
    let last = target_piece(s, p, r, r.architectures[m - 1], labels[m - 1]);
    let target = target_piece(s, p, r, r.architectures[idx], labels[idx]);
    if idx == m - 1 {
        lemma_contains_self(last);
        lemma_contains_right(prev, last, last);
    } else {
        lemma_runtime_pieces_hold(s, p, r, labels, (m - 1) as nat, idx);
        lemma_contains_left(prev, last, target);
    }
}

/// What the first `n` runtimes contribute holds what each of them does.
proof fn lemma_all_pieces_hold(s: Section, p: ParametersView, rs: Seq<ManifestView>, labels: Seq<Seq<Seq<char>>>, n: nat, jdx: int)
    requires
        0 <= jdx < n,
    ensures
        contains_text(
            all_pieces(s, p, rs, labels, n),
            runtime_pieces(s, p, rs[jdx], labels[jdx], rs[jdx].architectures.len()),
        ),
    decreases n,
{
    let prev = all_pieces(s, p, rs, labels, (n - 1) as nat);
    let last = runtime_pieces(s, p, rs[n - 1], labels[n - 1], rs[n - 1].architectures.len());
    let target = runtime_pieces(s, p, rs[jdx], labels[jdx], rs[jdx].architectures.len());
    if jdx == n - 1 {
        lemma_contains_self(last);
        lemma_contains_right(prev, last, last);
    } else {
        lemma_all_pieces_hold(s, p, rs, labels, (n - 1) as nat, jdx);
        lemma_contains_left(prev, last, target);
    }
}

/// Every function that the template names is defined in it: for each runtime and each of
/// its architectures, the template defines the resource `LambdaBenchmark` + display name
/// without `-`, `_`, `.` and `,` + architecture without `_` in upper case, of type
/// `AWS::Serverless::Function`.
pub proof fn law_every_function_is_defined(p: ParametersView, rs: Seq<ManifestView>, j: int, k: int)
    requires
        0 <= j < rs.len(),
        0 <= k < rs[j].architectures.len(),
    ensures
        contains_text(cloudformation(p, rs), function_definition(rs[j].display_name, rs[j].architectures[k])),
{
    let labels = architecture_labels(rs);
    let state = str_to_uppercase(p.schedule_state);
    let r = rs[j];
    let a = r.architectures[k];
    let name = lambda_name(r, labels[j][k]);
    let goal = RUNTIME_FUNCTION_0@ + name + FUNCTION_RESOURCE_TYPE@;
    lemma_function_resource_opens(p, r, a, name);
    let piece = target_piece(Section::Function, p, r, a, labels[j][k]);
    assert(piece == runtime_function(p, r, a, name));
    lemma_runtime_pieces_hold(Section::Function, p, r, labels[j], r.architectures.len(), k);
    let rp = runtime_pieces(Section::Function, p, r, labels[j], r.architectures.len());
    lemma_contains_trans(rp, piece, goal);
    lemma_all_pieces_hold(Section::Function, p, rs, labels, rs.len(), j);
    let ap = all_pieces(Section::Function, p, rs, labels, rs.len());
    lemma_contains_trans(ap, rp, goal);
    let t = seq![
        header(p), RESOURCES@, ROLE_LOG_PROCESSOR@, role_report_generator(p), role_runtime(p),
        LOG_PROCESSOR_FUNCTION@,
        all_pieces(Section::Subscription, p, rs, labels, rs.len()),
        log_processor_logs(p), report_generator(p),
        ap,
        state_machine(p, state),
        runtime_branches(p, rs, labels, branch_count(p, rs)),
        step_function_role(p),
        all_pieces(Section::Arn, p, rs, labels, rs.len()),
        logs_state_machine(p),
    ];
    assert(cloudformation(p, rs) == concat_all(t));
    lemma_concat_all_contains(t, 9);
    lemma_contains_trans(concat_all(t), ap, goal);
    assert(goal =~= function_definition(r.display_name, a));
}

/// The branches of the first `n` runtimes hold the branch of each of them.
proof fn lemma_runtime_branches_hold(p: ParametersView, rs: Seq<ManifestView>, labels: Seq<Seq<Seq<char>>>, n: nat, jdx: int)
    requires
        0 <= jdx < n,
    ensures
        contains_text(runtime_branches(p, rs, labels, n), runtime_branch(p, rs[jdx], labels[jdx])),
    decreases n,
{
    let prev = runtime_branches(p, rs, labels, (n - 1) as nat);
    let last = runtime_branch(p, rs[n - 1], labels[n - 1]);
    let target = runtime_branch(p, rs[jdx], labels[jdx]);
    if jdx == n - 1 {
        lemma_contains_self(last);
        lemma_contains_right(prev, last, last);
    } else {
        lemma_runtime_branches_hold(p, rs, labels, (n - 1) as nat, jdx);
        lemma_contains_left(prev, last, target);
    }
}

/// The template's pieces, in order, given the labels and the schedule state.
proof fn lemma_template_pieces(p: ParametersView, rs: Seq<ManifestView>, labels: Seq<Seq<Seq<char>>>, state: Seq<char>)
    ensures
        template_text(p, rs, labels, state) == concat_all(seq![
            header(p), RESOURCES@, ROLE_LOG_PROCESSOR@, role_report_generator(p), role_runtime(p),
            LOG_PROCESSOR_FUNCTION@,
            all_pieces(Section::Subscription, p, rs, labels, rs.len()),
            log_processor_logs(p), report_generator(p),
            all_pieces(Section::Function, p, rs, labels, rs.len()),
            state_machine(p, state),
            runtime_branches(p, rs, labels, branch_count(p, rs)),
            step_function_role(p),
            all_pieces(Section::Arn, p, rs, labels, rs.len()),
            logs_state_machine(p),
        ]),
{
}

/// What a section of the template holds for one runtime on one of its architectures
/// occurs in the template, for the sections that cover every runtime.
proof fn lemma_section_piece_in_template(s: Section, p: ParametersView, rs: Seq<ManifestView>, j: int, k: int)
    requires
        s == Section::Subscription || s == Section::Function || s == Section::Arn,
        0 <= j < rs.len(),
        0 <= k < rs[j].architectures.len(),
    ensures
        contains_text(
            cloudformation(p, rs),
            target_piece(s, p, rs[j], rs[j].architectures[k], architecture_labels(rs)[j][k]),
        ),
{
    let labels = architecture_labels(rs);
    let state = str_to_uppercase(p.schedule_state);
    let r = rs[j];
    let piece = target_piece(s, p, r, r.architectures[k], labels[j][k]);
    lemma_contains_self(piece);
    assert(labels[j].len() == r.architectures.len());
    lemma_runtime_pieces_hold(s, p, r, labels[j], r.architectures.len(), k);
    let rp = runtime_pieces(s, p, r, labels[j], r.architectures.len());
    lemma_all_pieces_hold(s, p, rs, labels, rs.len(), j);
    let ap = all_pieces(s, p, rs, labels, rs.len());
    lemma_contains_trans(ap, rp, piece);
    lemma_template_pieces(p, rs, labels, state);
    let t = seq![
        header(p), RESOURCES@, ROLE_LOG_PROCESSOR@, role_report_generator(p), role_runtime(p),
        LOG_PROCESSOR_FUNCTION@,
        all_pieces(Section::Subscription, p, rs, labels, rs.len()),
        log_processor_logs(p), report_generator(p),
        all_pieces(Section::Function, p, rs, labels, rs.len()),
        state_machine(p, state),
        runtime_branches(p, rs, labels, branch_count(p, rs)),
        step_function_role(p),
        all_pieces(Section::Arn, p, rs, labels, rs.len()),
        logs_state_machine(p),
    ];
    if s == Section::Subscription {
        lemma_concat_all_contains(t, 6);
    } else if s == Section::Function {
        lemma_concat_all_contains(t, 9);
    } else {
        lemma_concat_all_contains(t, 13);
    }
    lemma_contains_trans(concat_all(t), ap, piece);
}

/// The state machine may invoke every function of the template: for each runtime and each
/// of its architectures, the list of invokable functions holds `!GetAtt` with the logical
/// name of that function.
pub proof fn law_every_function_may_be_invoked(p: ParametersView, rs: Seq<ManifestView>, j: int, k: int)
    requires
        0 <= j < rs.len(),
        0 <= k < rs[j].architectures.len(),
    ensures
        contains_text(cloudformation(p, rs), invoke_permission(rs[j].display_name, rs[j].architectures[k])),
{
    let r = rs[j];
    let a = r.architectures[k];
    let name = lambda_name(r, architecture_labels(rs)[j][k]);
    lemma_section_piece_in_template(Section::Arn, p, rs, j, k);
    lemma_concat_all_of_three(FUNCTION_ARN_0@, name, FUNCTION_ARN_1@);
    assert(function_arn(name) =~= invoke_permission(r.display_name, a));
}

/// The log processor receives the report lines of every function: for each runtime and each
/// of its architectures, the processor has an event `Logs` followed by the logical name of
/// that function.
pub proof fn law_every_function_reports_to_the_processor(p: ParametersView, rs: Seq<ManifestView>, j: int, k: int)
    requires
        0 <= j < rs.len(),
        0 <= k < rs[j].architectures.len(),
    ensures
        contains_text(cloudformation(p, rs), log_event(rs[j].display_name, rs[j].architectures[k])),
{
    let r = rs[j];
    let a = r.architectures[k];
    let name = lambda_name(r, architecture_labels(rs)[j][k]);
    lemma_section_piece_in_template(Section::Subscription, p, rs, j, k);
    let f = seq![LOG_SUBSCRIPTION_0@, name, LOG_SUBSCRIPTION_1@, name, LOG_SUBSCRIPTION_2@];
    assert(log_subscription(name) == concat_all(f));
    lemma_concat_all_opens(f);
    lemma_contains_trans(cloudformation(p, rs), log_subscription(name), LOG_SUBSCRIPTION_0@ + name);
    assert(LOG_SUBSCRIPTION_0@ + name =~= log_event(r.display_name, a));
}

/// The state machine runs every architecture of every runtime; in debug mode it runs only
/// the architectures of the first runtime.
pub proof fn law_every_architecture_is_run(p: ParametersView, rs: Seq<ManifestView>, j: int, k: int)
    requires
        0 <= j < rs.len(),
        0 <= k < rs[j].architectures.len(),
        p.step_functions_debug ==> j == 0,
    ensures
        contains_text(cloudformation(p, rs), architecture_iteration(rs[j].path, rs[j].architectures[k])),
{
    let labels = architecture_labels(rs);
    let state = str_to_uppercase(p.schedule_state);
    let r = rs[j];
    let a = r.architectures[k];
    let name = lambda_name(r, labels[j][k]);
    let ra = runtime_architecture(r, a);
    let goal = ARCHITECTURE_BRANCH_0@ + ra;
    let f = seq![
        ARCHITECTURE_BRANCH_0@, ra, ARCHITECTURE_BRANCH_1@, ra, ARCHITECTURE_BRANCH_2@, name,
        ARCHITECTURE_BRANCH_3@, ra, ARCHITECTURE_BRANCH_4@, ra, ARCHITECTURE_BRANCH_5@, ra,
        ARCHITECTURE_BRANCH_6@, ra, ARCHITECTURE_BRANCH_7@, ra, ARCHITECTURE_BRANCH_8@, ra,
        ARCHITECTURE_BRANCH_9@,
    ];
    let ab = architecture_branch(r, a, name);
    assert(ab == concat_all(f));
    lemma_concat_all_opens(f);
    assert(target_piece(Section::Branch, p, r, a, labels[j][k]) == ab);
    assert(labels[j].len() == r.architectures.len());
    lemma_runtime_pieces_hold(Section::Branch, p, r, labels[j], r.architectures.len(), k);
    let rp = runtime_pieces(Section::Branch, p, r, labels[j], r.architectures.len());
    lemma_contains_trans(rp, ab, goal);
    let rb = runtime_branch(p, r, labels[j]);
    lemma_contains_right(concat_all(seq![RUNTIME_BRANCH_0@, r.path, RUNTIME_BRANCH_1@, r.path, RUNTIME_BRANCH_2@]), rp, goal);
    let n = branch_count(p, rs);
    lemma_runtime_branches_hold(p, rs, labels, n, j);
    let rbs = runtime_branches(p, rs, labels, n);
    lemma_contains_trans(rbs, rb, goal);
    lemma_template_pieces(p, rs, labels, state);
    let t = seq![
        header(p), RESOURCES@, ROLE_LOG_PROCESSOR@, role_report_generator(p), role_runtime(p),
        LOG_PROCESSOR_FUNCTION@,
        all_pieces(Section::Subscription, p, rs, labels, rs.len()),
        log_processor_logs(p), report_generator(p),
        all_pieces(Section::Function, p, rs, labels, rs.len()),
        state_machine(p, state),
        rbs,
        step_function_role(p),
        all_pieces(Section::Arn, p, rs, labels, rs.len()),
        logs_state_machine(p),
    ];
    lemma_concat_all_contains(t, 11);
    lemma_contains_trans(concat_all(t), rbs, goal);
    assert(goal =~= architecture_iteration(r.path, a));
}

/// The template of a deployment.
pub open spec fn cloudformation(p: ParametersView, rs: Seq<ManifestView>) -> Seq<char> {
    template_text(p, rs, architecture_labels(rs), str_to_uppercase(p.schedule_state))
}

/// The logical name of the benchmark function of `r`, given the architecture label.
fn lambda_name_of(r: &Manifest, label: &String) -> (res: String)
    ensures
        res@ == lambda_name(r@, label@),
{
    proof {
        reveal_strlit("");
        assert(""@ =~= Seq::<char>::empty());
    }
    let noise: [char; 4] = ['-', '_', '.', ','];
    assert(noise@ == name_noise());
    let cleaned = replace_chars_in(r.display_name.as_str(), &noise, "");
    let mut res = String::new();
    res.append(LAMBDA_PREFIX);
    res.append(cleaned.as_str());
    res.append(label.as_str());
    assert(res@ =~= lambda_name(r@, label@));
    res
}

/// Appends the log subscription for the function `name`.
fn push_log_subscription(b: &mut String, name: &String)
    ensures
        final(b)@ == old(b)@ + log_subscription(name@),
{
    let parts = vec![LOG_SUBSCRIPTION_0, name.as_str(), LOG_SUBSCRIPTION_1, name.as_str(), LOG_SUBSCRIPTION_2];
    assert(str_views(parts@) =~= seq![LOG_SUBSCRIPTION_0@, name@, LOG_SUBSCRIPTION_1@, name@, LOG_SUBSCRIPTION_2@]);
    push_parts(b, &parts);
}

/// Appends the benchmark function of `r` on `a` and its log group.
fn push_runtime_function(b: &mut String, p: &Parameters, r: &Manifest, a: &String, name: &String)
    ensures
        final(b)@ == old(b)@ + runtime_function(p@, r@, a@, name@),
{
    let fname = vec![FUNCTION_PREFIX, r.path.as_str(), DASH, a.as_str()];
    let mut fname_text = String::new();
    push_parts(&mut fname_text, &fname);
    assert(fname_text@ =~= function_name(r@, a@)) by {
        reveal_with_fuel(concat_all, 5);
    }
    let descr = vec![r.display_name.as_str(), BAR, a.as_str()];
    let mut descr_text = String::new();
    push_parts(&mut descr_text, &descr);
    assert(descr_text@ =~= description(r@, a@)) by {
        reveal_with_fuel(concat_all, 4);
    }
    let key = vec![KEY_PREFIX, r.path.as_str(), UNDERSCORE, a.as_str(), KEY_SUFFIX];
    let mut key_text = String::new();
    push_parts(&mut key_text, &key);
    assert(key_text@ =~= code_key(r@, a@)) by {
        reveal_with_fuel(concat_all, 6);
    }
    let iterations = decimal_string(p.iterations_code as u64);
    let retention = decimal_string(p.log_retention_in_days as u64);
    let parts = vec![
        RUNTIME_FUNCTION_0, name.as_str(), FUNCTION_RESOURCE_TYPE, RUNTIME_FUNCTION_1, fname_text.as_str(),
        RUNTIME_FUNCTION_2,
        descr_text.as_str(), RUNTIME_FUNCTION_3, r.runtime.as_str(), RUNTIME_FUNCTION_4, a.as_str(),
        RUNTIME_FUNCTION_5, r.handler.as_str(), RUNTIME_FUNCTION_6, key_text.as_str(),
        RUNTIME_FUNCTION_7, iterations.as_str(),
        RUNTIME_LOGS_0, name.as_str(), RUNTIME_LOGS_1, fname_text.as_str(), RUNTIME_LOGS_2,
        retention.as_str(),
    ];
    assert(str_views(parts@) =~= seq![
        RUNTIME_FUNCTION_0@, name@, FUNCTION_RESOURCE_TYPE@, RUNTIME_FUNCTION_1@, function_name(r@, a@),
        RUNTIME_FUNCTION_2@,
        description(r@, a@), RUNTIME_FUNCTION_3@, r@.runtime, RUNTIME_FUNCTION_4@, a@,
        RUNTIME_FUNCTION_5@, r@.handler, RUNTIME_FUNCTION_6@, code_key(r@, a@),
        RUNTIME_FUNCTION_7@, decimal(p@.iterations_code as nat),
        RUNTIME_LOGS_0@, name@, RUNTIME_LOGS_1@, function_name(r@, a@), RUNTIME_LOGS_2@,
        decimal(p@.log_retention_in_days as nat),
    ]);
    push_parts(b, &parts);
}

/// Appends the state-machine branch that runs `r` on `a`.
fn push_architecture_branch(b: &mut String, r: &Manifest, a: &String, name: &String)
    ensures
        final(b)@ == old(b)@ + architecture_branch(r@, a@, name@),
{
    let underscore: [char; 1] = ['_'];
    assert(underscore@ == seq!['_']);
    let dashed = replace_chars_in(a.as_str(), &underscore, DASH);
    let mut ra = String::new();
    ra.append(r.path.as_str());
    ra.append(DASH);
    ra.append(dashed.as_str());
    assert(ra@ =~= runtime_architecture(r@, a@));
    let s = ra.as_str();
    let parts = vec![
        ARCHITECTURE_BRANCH_0, s, ARCHITECTURE_BRANCH_1, s, ARCHITECTURE_BRANCH_2, name.as_str(),
        ARCHITECTURE_BRANCH_3, s, ARCHITECTURE_BRANCH_4, s, ARCHITECTURE_BRANCH_5, s,
        ARCHITECTURE_BRANCH_6, s, ARCHITECTURE_BRANCH_7, s, ARCHITECTURE_BRANCH_8, s,
        ARCHITECTURE_BRANCH_9,
    ];
    let ghost v = ra@;
    assert(str_views(parts@) =~= seq![
        ARCHITECTURE_BRANCH_0@, v, ARCHITECTURE_BRANCH_1@, v, ARCHITECTURE_BRANCH_2@, name@,
        ARCHITECTURE_BRANCH_3@, v, ARCHITECTURE_BRANCH_4@, v, ARCHITECTURE_BRANCH_5@, v,
        ARCHITECTURE_BRANCH_6@, v, ARCHITECTURE_BRANCH_7@, v, ARCHITECTURE_BRANCH_8@, v,
        ARCHITECTURE_BRANCH_9@,
    ]);
    push_parts(b, &parts);
}

/// Appends the invocation permission for the function `name`.
fn push_function_arn(b: &mut String, name: &String)
    ensures
        final(b)@ == old(b)@ + function_arn(name@),
{
    let parts = vec![FUNCTION_ARN_0, name.as_str(), FUNCTION_ARN_1];
    assert(str_views(parts@) =~= seq![FUNCTION_ARN_0@, name@, FUNCTION_ARN_1@]);
    push_parts(b, &parts);
}

/// Appends what `r` on `a` contributes to the section `s`.
fn push_target(b: &mut String, s: &Section, p: &Parameters, r: &Manifest, a: &String, label: &String)
    ensures
        final(b)@ == old(b)@ + target_piece(*s, p@, r@, a@, label@),
{
    let name = lambda_name_of(r, label);
    match s {
        Section::Subscription => push_log_subscription(b, &name),
        Section::Function => push_runtime_function(b, p, r, a, &name),
        Section::Branch => push_architecture_branch(b, r, a, &name),
        Section::Arn => push_function_arn(b, &name),
    }
}

/// Appends what the architectures of `r` contribute to the section `s`.
fn push_runtime_targets(b: &mut String, s: &Section, p: &Parameters, r: &Manifest, labels: &Vec<String>)
    requires
        labels@.len() == r.architectures@.len(),
    ensures
        final(b)@ == old(b)@ + runtime_pieces(*s, p@, r@, views(labels@), r.architectures@.len() as nat),
{
    let ghost start = b@;
    for j in 0..r.architectures.len()
        invariant
            labels@.len() == r.architectures@.len(),
            b@ == start + runtime_pieces(*s, p@, r@, views(labels@), j as nat),
    {
        push_target(b, s, p, r, &r.architectures[j], &labels[j]);
        assert(b@ =~= start + runtime_pieces(*s, p@, r@, views(labels@), (j + 1) as nat));
    }
}

/// Appends what all runtimes and architectures contribute to the section `s`.
fn push_targets(b: &mut String, s: &Section, p: &Parameters, rs: &[Manifest], labels: &Vec<Vec<String>>)
    requires
        labels_fit(manifest_views(rs@), label_views(labels@)),
    ensures
        final(b)@ == old(b)@ + all_pieces(*s, p@, manifest_views(rs@), label_views(labels@), rs@.len() as nat),
{
    let ghost start = b@;
    for i in 0..rs.len()
        invariant
            labels_fit(manifest_views(rs@), label_views(labels@)),
            b@ == start + all_pieces(*s, p@, manifest_views(rs@), label_views(labels@), i as nat),
    {
        assert(label_views(labels@)[i as int].len() == manifest_views(rs@)[i as int].architectures.len());
        push_runtime_targets(b, s, p, &rs[i], &labels[i]);
        assert(b@ =~= start + all_pieces(*s, p@, manifest_views(rs@), label_views(labels@), (i + 1) as nat));
    }
}

/// Appends the state-machine branches of the first `count` runtimes.
fn push_branches(b: &mut String, p: &Parameters, rs: &[Manifest], labels: &Vec<Vec<String>>, count: usize)
    requires
        labels_fit(manifest_views(rs@), label_views(labels@)),
        count <= rs@.len(),
    ensures
        final(b)@ == old(b)@ + runtime_branches(p@, manifest_views(rs@), label_views(labels@), count as nat),
{
    let ghost start = b@;
    for i in 0..count
        invariant
            labels_fit(manifest_views(rs@), label_views(labels@)),
            count <= rs@.len(),
            b@ == start + runtime_branches(p@, manifest_views(rs@), label_views(labels@), i as nat),
    {
        let r = &rs[i];
        assert(label_views(labels@)[i as int].len() == manifest_views(rs@)[i as int].architectures.len());
        let ghost mid = b@;
        let parts = vec![RUNTIME_BRANCH_0, r.path.as_str(), RUNTIME_BRANCH_1, r.path.as_str(), RUNTIME_BRANCH_2];
        assert(str_views(parts@) =~= seq![RUNTIME_BRANCH_0@, r.path@, RUNTIME_BRANCH_1@, r.path@, RUNTIME_BRANCH_2@]);
        push_parts(b, &parts);
        push_runtime_targets(b, &Section::Branch, p, r, &labels[i]);
        assert(b@ =~= mid + runtime_branch(p@, r@, views(labels@[i as int]@)));
        assert(b@ =~= start + runtime_branches(p@, manifest_views(rs@), label_views(labels@), (i + 1) as nat));
    }
}

/// The template, given for each architecture of each runtime its label and the schedule
/// state in upper case.
pub fn render_cloudformation(
    parameters: &Parameters,
    runtimes: &[Manifest],
    labels: &Vec<Vec<String>>,
    schedule_state: &str,
) -> (res: String)
    requires
        labels_fit(manifest_views(runtimes@), label_views(labels@)),
    ensures
        res@ == template_text(parameters@, manifest_views(runtimes@), label_views(labels@), schedule_state@),
{
    let p = parameters;
    let ghost pv = p@;
    let ghost rs = manifest_views(runtimes@);
    let ghost ls = label_views(labels@);
    let bucket = p.bucket_name.as_str();
    let mut b = String::new();
    let ghost mut done: Seq<Seq<char>> = seq![];
    assert(b@ == concat_all(done));

    let parts = vec![HEADER_0, bucket, HEADER_1, bucket];
    assert(str_views(parts@) =~= seq![HEADER_0@, pv.bucket_name, HEADER_1@, pv.bucket_name]);
    push_parts(&mut b, &parts);
    proof { lemma_concat_all_push(done, header(pv)); done = done.push(header(pv)); assert(b@ =~= concat_all(done)); }

    b.append(RESOURCES);
    proof { lemma_concat_all_push(done, RESOURCES@); done = done.push(RESOURCES@); assert(b@ =~= concat_all(done)); }

    b.append(ROLE_LOG_PROCESSOR);
    proof { lemma_concat_all_push(done, ROLE_LOG_PROCESSOR@); done = done.push(ROLE_LOG_PROCESSOR@); assert(b@ =~= concat_all(done)); }

    let parts = vec![
        ROLE_REPORT_GENERATOR_0, bucket, ROLE_REPORT_GENERATOR_1, bucket,
        ROLE_REPORT_GENERATOR_2, bucket, ROLE_REPORT_GENERATOR_3,
    ];
    assert(str_views(parts@) =~= seq![
        ROLE_REPORT_GENERATOR_0@, pv.bucket_name, ROLE_REPORT_GENERATOR_1@, pv.bucket_name,
        ROLE_REPORT_GENERATOR_2@, pv.bucket_name, ROLE_REPORT_GENERATOR_3@,
    ]);
    push_parts(&mut b, &parts);
    proof { lemma_concat_all_push(done, role_report_generator(pv)); done = done.push(role_report_generator(pv)); assert(b@ =~= concat_all(done)); }

    let parts = vec![ROLE_RUNTIME_0, bucket, ROLE_RUNTIME_1];
    assert(str_views(parts@) =~= seq![ROLE_RUNTIME_0@, pv.bucket_name, ROLE_RUNTIME_1@]);
    push_parts(&mut b, &parts);
    proof { lemma_concat_all_push(done, role_runtime(pv)); done = done.push(role_runtime(pv)); assert(b@ =~= concat_all(done)); }

    b.append(LOG_PROCESSOR_FUNCTION);
    proof { lemma_concat_all_push(done, LOG_PROCESSOR_FUNCTION@); done = done.push(LOG_PROCESSOR_FUNCTION@); assert(b@ =~= concat_all(done)); }

    push_targets(&mut b, &Section::Subscription, p, runtimes, labels);
    proof {
        let x = all_pieces(Section::Subscription, pv, rs, ls, rs.len());
        lemma_concat_all_push(done, x);
        done = done.push(x);
        assert(b@ =~= concat_all(done));
    }

    let retention = decimal_string(p.log_retention_in_days as u64);
    b.append(LOG_PROCESSOR_LOGS_0);
    b.append(retention.as_str());
    proof { lemma_concat_all_push(done, log_processor_logs(pv)); done = done.push(log_processor_logs(pv)); assert(b@ =~= concat_all(done)); }

    b.append(REPORT_GENERATOR_0);
    b.append(retention.as_str());
    proof { lemma_concat_all_push(done, report_generator(pv)); done = done.push(report_generator(pv)); assert(b@ =~= concat_all(done)); }

    push_targets(&mut b, &Section::Function, p, runtimes, labels);
    proof {
        let x = all_pieces(Section::Function, pv, rs, ls, rs.len());
        lemma_concat_all_push(done, x);
        done = done.push(x);
        assert(b@ =~= concat_all(done));
    }

    let iterations = decimal_string(p.iterations_lambdas as u64);
    let memories = join_decimals(&p.memory_sizes, LIST_SEPARATOR);
    let parts = vec![
        STATE_MACHINE_0, schedule_state, STATE_MACHINE_1, p.schedule_expression.as_str(), STATE_MACHINE_2,
        iterations.as_str(), STATE_MACHINE_3, MEMORY_ARRAY_OPEN, memories.as_str(), MEMORY_ARRAY_CLOSE,
        STATE_MACHINE_4,
    ];
    assert(str_views(parts@) =~= seq![
        STATE_MACHINE_0@, schedule_state@, STATE_MACHINE_1@, pv.schedule_expression, STATE_MACHINE_2@,
        decimal(pv.iterations_lambdas as nat), STATE_MACHINE_3@, MEMORY_ARRAY_OPEN@,
        join(pv.memory_sizes.map_values(|v: u16| decimal(v as nat)), LIST_SEPARATOR@),
        MEMORY_ARRAY_CLOSE@, STATE_MACHINE_4@,
    ]);
    push_parts(&mut b, &parts);
    proof {
        let x = state_machine(pv, schedule_state@);
        lemma_concat_all_push(done, x);
        done = done.push(x);
        assert(b@ =~= concat_all(done));
    }

    let count: usize = if p.step_functions_debug && runtimes.len() > 1 { 1 } else { runtimes.len() };
    push_branches(&mut b, p, runtimes, labels, count);
    proof {
        let x = runtime_branches(pv, rs, ls, branch_count(pv, rs));
        lemma_concat_all_push(done, x);
        done = done.push(x);
        assert(b@ =~= concat_all(done));
    }

    let parts = vec![STEP_FUNCTION_ROLE_0, bucket, STEP_FUNCTION_ROLE_1, bucket, STEP_FUNCTION_ROLE_2];
    assert(str_views(parts@) =~= seq![
        STEP_FUNCTION_ROLE_0@, pv.bucket_name, STEP_FUNCTION_ROLE_1@, pv.bucket_name, STEP_FUNCTION_ROLE_2@,
    ]);
    push_parts(&mut b, &parts);
    proof { lemma_concat_all_push(done, step_function_role(pv)); done = done.push(step_function_role(pv)); assert(b@ =~= concat_all(done)); }

    push_targets(&mut b, &Section::Arn, p, runtimes, labels);
    proof {
        let x = all_pieces(Section::Arn, pv, rs, ls, rs.len());
        lemma_concat_all_push(done, x);
        done = done.push(x);
        assert(b@ =~= concat_all(done));
    }

    b.append(STATE_MACHINE_LOGS_0);
    b.append(retention.as_str());
    proof { lemma_concat_all_push(done, logs_state_machine(pv)); done = done.push(logs_state_machine(pv)); assert(b@ =~= concat_all(done)); }
    assert(done =~= seq![
        header(pv), RESOURCES@, ROLE_LOG_PROCESSOR@, role_report_generator(pv), role_runtime(pv),
        LOG_PROCESSOR_FUNCTION@,
        all_pieces(Section::Subscription, pv, rs, ls, rs.len()),
        log_processor_logs(pv), report_generator(pv),
        all_pieces(Section::Function, pv, rs, ls, rs.len()),
        state_machine(pv, schedule_state@),
        runtime_branches(pv, rs, ls, branch_count(pv, rs)),
        step_function_role(pv),
        all_pieces(Section::Arn, pv, rs, ls, rs.len()),
        logs_state_machine(pv),
    ]);
    b
}

/// The CloudFormation template for the deployment `parameters` of the runtimes `runtimes`.
pub fn build_cloudformation(parameters: &Parameters, runtimes: &[Manifest]) -> (res: String)
    ensures
        res@ == cloudformation(parameters@, manifest_views(runtimes@)),
        contains_text(
            res@,
            "memory_array: ["@ + join(parameters@.memory_sizes.map_values(|v: u16| decimal(v as nat)), ", "@) + "]"@,
        ),
        forall|j: int, k: int| 0 <= j < runtimes@.len() && 0 <= k < runtimes@[j].architectures@.len()
            ==> contains_text(res@, #[trigger] function_definition(
                runtimes@[j].display_name@, runtimes@[j].architectures@[k]@,
            )),
        forall|j: int, k: int| 0 <= j < runtimes@.len() && 0 <= k < runtimes@[j].architectures@.len()
            ==> contains_text(res@, #[trigger] invoke_permission(
                runtimes@[j].display_name@, runtimes@[j].architectures@[k]@,
            )),
        forall|j: int, k: int| 0 <= j < runtimes@.len() && 0 <= k < runtimes@[j].architectures@.len()
            ==> contains_text(res@, #[trigger] log_event(
                runtimes@[j].display_name@, runtimes@[j].architectures@[k]@,
            )),
        forall|j: int, k: int| 0 <= j < runtimes@.len() && 0 <= k < runtimes@[j].architectures@.len()
            && (parameters.step_functions_debug ==> j == 0)
            ==> contains_text(res@, #[trigger] architecture_iteration(
                runtimes@[j].path@, runtimes@[j].architectures@[k]@,
            )),
{
    proof {
        reveal_strlit("");
        assert(""@ =~= Seq::<char>::empty());
    }
    let ghost rs = manifest_views(runtimes@);
    let underscore: [char; 1] = ['_'];
    assert(underscore@ == seq!['_']);
    let mut labels: Vec<Vec<String>> = Vec::new();
    for i in 0..runtimes.len()
        invariant
            rs == manifest_views(runtimes@),
            underscore@ == seq!['_'],
            ""@ == Seq::<char>::empty(),
            labels@.len() == i,
            forall|k: int| 0 <= k < i ==> #[trigger] label_views(labels@)[k] == architecture_labels(rs)[k],
    {
        let r = &runtimes[i];
        let mut row: Vec<String> = Vec::new();
        for j in 0..r.architectures.len()
            invariant
                underscore@ == seq!['_'],
                ""@ == Seq::<char>::empty(),
                row@.len() == j,
                forall|k: int| 0 <= k < j ==> #[trigger] row@[k]@ == architecture_label(r.architectures@[k]@),
        {
            let plain = replace_chars_in(r.architectures[j].as_str(), &underscore, "");
            row.push(to_uppercase(plain.as_str()));
        }
        let ghost old_labels = labels@;
        let ghost row_views = views(row@);
        assert(row_views =~= architecture_labels(rs)[i as int]);
        labels.push(row);
        assert(label_views(labels@)[i as int] == row_views);
        assert forall|k: int| 0 <= k < i + 1 implies #[trigger] label_views(labels@)[k] == architecture_labels(rs)[k] by {
            if k < i {
                assert(labels@[k] == old_labels[k]);
                assert(label_views(old_labels)[k] == architecture_labels(rs)[k]);
            }
        }
    }
    assert(label_views(labels@) =~= architecture_labels(rs));
    let state = to_uppercase(parameters.schedule_state.as_str());
    proof {
        law_state_machine_lists_every_memory_size(parameters@, rs, label_views(labels@), state@);
    }
    let res = render_cloudformation(parameters, runtimes, &labels, state.as_str());
    proof {
        assert forall|j: int, k: int| 0 <= j < runtimes@.len() && 0 <= k < runtimes@[j].architectures@.len()
            implies contains_text(res@, #[trigger] function_definition(
                runtimes@[j].display_name@, runtimes@[j].architectures@[k]@,
            )) by {
            assert(rs[j] == runtimes@[j]@);
            assert(rs[j].architectures[k] == runtimes@[j].architectures@[k]@);
            law_every_function_is_defined(parameters@, rs, j, k);
        }
        assert forall|j: int, k: int| 0 <= j < runtimes@.len() && 0 <= k < runtimes@[j].architectures@.len()
            implies contains_text(res@, #[trigger] invoke_permission(
                runtimes@[j].display_name@, runtimes@[j].architectures@[k]@,
            )) by {
            assert(rs[j] == runtimes@[j]@);
            assert(rs[j].architectures[k] == runtimes@[j].architectures@[k]@);
            law_every_function_may_be_invoked(parameters@, rs, j, k);
        }
        assert forall|j: int, k: int| 0 <= j < runtimes@.len() && 0 <= k < runtimes@[j].architectures@.len()
            implies contains_text(res@, #[trigger] log_event(
                runtimes@[j].display_name@, runtimes@[j].architectures@[k]@,
            )) by {
            assert(rs[j] == runtimes@[j]@);
            assert(rs[j].architectures[k] == runtimes@[j].architectures@[k]@);
            law_every_function_reports_to_the_processor(parameters@, rs, j, k);
        }
        assert forall|j: int, k: int| 0 <= j < runtimes@.len() && 0 <= k < runtimes@[j].architectures@.len()
            && (parameters.step_functions_debug ==> j == 0)
            implies contains_text(res@, #[trigger] architecture_iteration(
                runtimes@[j].path@, runtimes@[j].architectures@[k]@,
            )) by {
            assert(rs[j] == runtimes@[j]@);
            assert(rs[j].architectures[k] == runtimes@[j].architectures@[k]@);
            law_every_architecture_is_run(parameters@, rs, j, k);
        }
    }
    res
}

} // verus!
