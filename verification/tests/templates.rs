use lambda_benchmark::manifest::Manifest;
use lambda_benchmark::scheduled_template;
use lambda_benchmark::matrix_template;

fn runtimes() -> Vec<Manifest> {
    vec![
        Manifest {
            display_name: "Rust".to_string(),
            runtime: "provided.al2".to_string(),
            handler: "bootstrap".to_string(),
            path: "rust".to_string(),
            architectures: vec!["arm64".to_string(), "x86_64".to_string()],
        },
        Manifest {
            display_name: "Node.js 18".to_string(),
            runtime: "nodejs18.x".to_string(),
            handler: "index.handler".to_string(),
            path: "nodejs_18".to_string(),
            architectures: vec!["arm64".to_string()],
        },
    ]
}

fn scheduled_parameters(debug: bool) -> scheduled_template::Parameters {
    scheduled_template::Parameters {
        bucket_name: "bkt".to_string(),
        memory_sizes: vec![128, 1024],
        log_retention_in_days: 7,
        iterations_lambdas: 10,
        iterations_code: 500,
        schedule_state: "enabled".to_string(),
        schedule_expression: "rate(1 day)".to_string(),
        step_functions_debug: debug,
    }
}

fn matrix_parameters(debug: bool) -> matrix_template::Parameters {
    matrix_template::Parameters {
        bucket_name: "bkt".to_string(),
        memory_sizes: vec![128, 1024],
        log_retention_in_days: 7,
        step_functions: "express".to_string(),
        step_functions_debug: debug,
    }
}

#[test]
fn scheduled_template_for_two_runtimes() {
    let out = scheduled_template::build_cloudformation(&scheduled_parameters(false), &runtimes());
    assert_eq!(out, SCHEDULED_FULL);
}

#[test]
fn scheduled_template_in_debug_mode_runs_only_the_first_runtime() {
    let out = scheduled_template::build_cloudformation(&scheduled_parameters(true), &runtimes());
    assert_eq!(out, SCHEDULED_DEBUG);
    assert_eq!(out.matches("-architecture-iter:").count(), 1);
}

#[test]
fn scheduled_template_without_runtimes() {
    let mut p = scheduled_parameters(false);
    p.memory_sizes = vec![];
    let out = scheduled_template::build_cloudformation(&p, &[]);
    assert_eq!(out, SCHEDULED_EMPTY);
    assert!(out.contains("memory_array: []"));
}

#[test]
fn scheduled_template_names_resources_after_cleaned_display_names() {
    let out = scheduled_template::build_cloudformation(&scheduled_parameters(false), &runtimes());
    assert!(out.contains("  LambdaBenchmarkNodejs 18ARM64:"));
    assert!(out.contains("  LambdaBenchmarkRustX8664:"));
    assert!(out.contains("FunctionName: lambda-benchmark-rust-x86_64"));
    assert!(out.contains("State: ENABLED"));
}

#[test]
fn matrix_template_for_two_runtimes() {
    let out = matrix_template::build_cloudformation(&matrix_parameters(false), &runtimes());
    assert_eq!(out, MATRIX_FULL);
}

#[test]
fn matrix_template_in_debug_mode_runs_one_branch() {
    let out = matrix_template::build_cloudformation(&matrix_parameters(true), &runtimes());
    assert_eq!(out, MATRIX_DEBUG);
    assert_eq!(out.matches("-cold-start:").count(), 1);
}

#[test]
fn matrix_template_spells_the_state_machine_type() {
    let out = matrix_template::build_cloudformation(&matrix_parameters(false), &runtimes());
    assert!(out.contains("StateMachineBenchmarkRunnerExpress:"));
    assert!(out.contains("StateMachineType: EXPRESS"));
    assert!(out.contains("stm-lambda-benchmark-express"));
    assert!(out.contains("FunctionName: \"benchmark-rust-x86-64-1024\""));
}

#[test]
fn matrix_template_spells_an_upper_case_state_machine_type() {
    let mut p = matrix_parameters(false);
    p.step_functions = "STANDARD".to_string();
    let out = matrix_template::build_cloudformation(&p, &runtimes());
    assert!(out.contains("StateMachineBenchmarkRunnerStandard:"));
    assert!(out.contains("stm-lambda-benchmark-standard\""));
    assert!(out.contains("StateMachineType: STANDARD"));
}

#[test]
fn scheduled_template_upper_cases_the_schedule_state() {
    let mut p = scheduled_parameters(false);
    p.schedule_state = "Disabled".to_string();
    let out = scheduled_template::build_cloudformation(&p, &runtimes());
    assert!(out.contains("State: DISABLED"));
}

#[test]
fn matrix_branch_reads_the_log_group_of_its_function() {
    let out = matrix_template::build_cloudformation(&matrix_parameters(false), &runtimes());
    for name in ["benchmark-rust-x86-64-128", "benchmark-nodejs_18-arm64-1024"] {
        assert!(out.contains(&format!("FunctionName: \"{}\"", name)));
        assert!(out.contains(&format!("LogGroupName: \"/aws/lambda/{}\"", name)));
        assert!(out.contains(&format!("LogGroupName: /aws/lambda/{}\n", name)));
    }
}

const SCHEDULED_FULL: &str = r####"---
AWSTemplateFormatVersion: 2010-09-09
Transform: AWS::Serverless-2016-10-31
Description: Lambda Benchmark
Globals:
  Function:
    Timeout: 60
    MemorySize: 128
    CodeUri:
      Bucket: bkt
    Environment:
      Variables:
        BUCKET_NAME: bkt
Resources:
  RoleLogProcessor:
    Type: AWS::IAM::Role
    Properties:
      RoleName: !Sub "iam-${AWS::Region}-lambda-benchmark-log-processor-role"
      AssumeRolePolicyDocument:
        Version: 2012-10-17
        Statement:
          - Effect: Allow
            Principal:
              Service:
                - lambda.amazonaws.com
            Action:
              - sts:AssumeRole
      Path: /
      ManagedPolicyArns:
        - arn:aws:iam::aws:policy/service-role/AWSLambdaBasicExecutionRole
  RoleReportGenerator:
    Type: AWS::IAM::Role
    Properties:
      RoleName: !Sub "iam-${AWS::Region}-lambda-benchmark-report-generator-role"
      Path: /
      AssumeRolePolicyDocument:
        Version: 2012-10-17
        Statement:
          - Effect: Allow
            Principal:
              Service: lambda.amazonaws.com
            Action: sts:AssumeRole
      ManagedPolicyArns: [arn:aws:iam::aws:policy/service-role/AWSLambdaBasicExecutionRole]
      Policies:
        - PolicyName: !Sub "iam-${AWS::Region}-lambda-benchmark-report-generator-policy"
          PolicyDocument:
            Version: 2012-10-17
            Statement:
              - Effect: Allow
                Action:
                  - s3:ListBucket
                Resource: arn:aws:s3:::bkt
              - Effect: Allow
                Action:
                  - s3:ListBucket
                  - s3:GetObject
                  - s3:DeleteObject
                Resource: arn:aws:s3:::bkt/results/*
              - Effect: Allow
                Action:
                  - s3:PutObject
                Resource: arn:aws:s3:::bkt/reports/*
  RoleRuntime:
    Type: AWS::IAM::Role
    Properties:
      RoleName: !Sub "iam-${AWS::Region}-lambda-benchmark-runtime-role"
      Path: /
      AssumeRolePolicyDocument:
        Version: 2012-10-17
        Statement:
          - Effect: Allow
            Principal:
              Service: lambda.amazonaws.com
            Action: sts:AssumeRole
      ManagedPolicyArns: [arn:aws:iam::aws:policy/service-role/AWSLambdaBasicExecutionRole]
      Policies:
        - PolicyName: !Sub "iam-${AWS::Region}-lambda-benchmark-runtime-policy"
          PolicyDocument:
            Version: 2012-10-17
            Statement:
              - Effect: Allow
                Action:
                  - s3:PutObject
                  - s3:DeleteObject
                Resource: arn:aws:s3:::bkt/test/*
  LambdaLogProcessor:
    Type: AWS::Serverless::Function
    Properties:
      FunctionName: benchmark-log-processor
      Description: Lambda Benchmark | Log Processor
      Runtime: provided.al2
      Architectures: [arm64]
      Handler: bootstrap
      Role: !GetAtt RoleLogProcessor.Arn
      CodeUri:
        Key: backing/log_processor.zip
      Events:
        LogsLambdaBenchmarkRustARM64:
          Type: CloudWatchLogs
          Properties:
            LogGroupName: !Ref LogsLambdaBenchmarkRustARM64
            FilterPattern: REPORT
        LogsLambdaBenchmarkRustX8664:
          Type: CloudWatchLogs
          Properties:
            LogGroupName: !Ref LogsLambdaBenchmarkRustX8664
            FilterPattern: REPORT
        LogsLambdaBenchmarkNodejs 18ARM64:
          Type: CloudWatchLogs
          Properties:
            LogGroupName: !Ref LogsLambdaBenchmarkNodejs 18ARM64
            FilterPattern: REPORT
  LogsLogProcessor:
    Type: AWS::Logs::LogGroup
    Properties:
      LogGroupName: /aws/lambda/benchmark-log-processor
      RetentionInDays: 7
  LambdaReportGenerator:
    Type: AWS::Serverless::Function
    Properties:
      FunctionName: benchmark-report-generator
      Description: Lambda Benchmark | Report Generator
      Runtime: provided.al2
      Architectures: [arm64]
      Handler: bootstrap
      Role: !GetAtt RoleReportGenerator.Arn
      CodeUri:
        Key: backing/report_generator.zip
  LogsReportGenerator:
    Type: AWS::Logs::LogGroup
    Properties:
      LogGroupName: /aws/lambda/benchmark-report-generator
      RetentionInDays: 7
  LambdaBenchmarkRustARM64:
    Type: AWS::Serverless::Function
    Properties:
      FunctionName: lambda-benchmark-rust-arm64
      Description: Lambda Benchmark | Rust | arm64
      Runtime: provided.al2
      Architectures: [arm64]
      Handler: bootstrap
      Role: !GetAtt RoleRuntime.Arn
      CodeUri:
        Key: runtimes/rust_arm64.zip
      Environment:
        Variables:
          ITERATIONS_CODE: 500
  LogsLambdaBenchmarkRustARM64:
    Type: AWS::Logs::LogGroup
    Properties:
      LogGroupName: /aws/lambda/lambda-benchmark-rust-arm64
      RetentionInDays: 7
  LambdaBenchmarkRustX8664:
    Type: AWS::Serverless::Function
    Properties:
      FunctionName: lambda-benchmark-rust-x86_64
      Description: Lambda Benchmark | Rust | x86_64
      Runtime: provided.al2
      Architectures: [x86_64]
      Handler: bootstrap
      Role: !GetAtt RoleRuntime.Arn
      CodeUri:
        Key: runtimes/rust_x86_64.zip
      Environment:
        Variables:
          ITERATIONS_CODE: 500
  LogsLambdaBenchmarkRustX8664:
    Type: AWS::Logs::LogGroup
    Properties:
      LogGroupName: /aws/lambda/lambda-benchmark-rust-x86_64
      RetentionInDays: 7
  LambdaBenchmarkNodejs 18ARM64:
    Type: AWS::Serverless::Function
    Properties:
      FunctionName: lambda-benchmark-nodejs_18-arm64
      Description: Lambda Benchmark | Node.js 18 | arm64
      Runtime: nodejs18.x
      Architectures: [arm64]
      Handler: index.handler
      Role: !GetAtt RoleRuntime.Arn
      CodeUri:
        Key: runtimes/nodejs_18_arm64.zip
      Environment:
        Variables:
          ITERATIONS_CODE: 500
  LogsLambdaBenchmarkNodejs 18ARM64:
    Type: AWS::Logs::LogGroup
    Properties:
      LogGroupName: /aws/lambda/lambda-benchmark-nodejs_18-arm64
      RetentionInDays: 7
  StateMachineBenchmarkRunner:
    Type: AWS::Serverless::StateMachine
    Properties:
      Name: !Sub "stm-lambda-benchmark"
      Type: STANDARD
      Tracing:
        Enabled: false
      Logging:
        Level: ERROR
        Destinations:
          - CloudWatchLogsLogGroup:
              LogGroupArn: !GetAtt LogsStateMachine.Arn
      Role: !GetAtt StepFunctionRole.Arn
      Events:
        Event:
          Type: Schedule
          Properties:
            State: ENABLED
            Schedule: rate(1 day)
            Input: '{"iterations": 10}'
      Definition:
        Comment: Lambda Benchmark Runner
        StartAt: setup
        States:
          setup:
            Type: Pass
            Next: benchmarks
            Parameters:
              iterations.$: States.ArrayRange(1, $.iterations, 1)
              memory_array: [128, 1024]
          benchmarks:
            Type: Parallel
            End: true
            ResultPath: null
            Branches:
              - StartAt: rust-architecture-iter
                States:
                  rust-architecture-iter:
                    Type: Parallel
                    End: true
                    Branches:
                      - StartAt: rust-arm64-iteration-iter
                        States:
                          rust-arm64-iteration-iter:
                            Type: Map
                            End: true
                            ItemsPath: $.iterations
                            ItemSelector:
                              iteration.$: $$.Map.Item.Value
                              function_name: !GetAtt LambdaBenchmarkRustARM64.Arn
                              memory_array.$: $.memory_array
                            MaxConcurrency: 1
                            ItemProcessor:
                              ProcessorConfig:
                                Mode: INLINE
                              StartAt: rust-arm64-memory-iter
                              States:
                                rust-arm64-memory-iter:
                                  Type: Map
                                  End: true
                                  MaxConcurrency: 1
                                  ItemsPath: $.memory_array
                                  ItemSelector:
                                    iteration.$: $.iteration
                                    function_name.$: $.function_name
                                    memory_size.$: $$.Map.Item.Value
                                  ItemProcessor:
                                    ProcessorConfig:
                                      Mode: INLINE
                                    StartAt: rust-arm64-memory
                                    States:
                                      rust-arm64-memory:
                                        Type: Task
                                        Next: rust-arm64-benchmark
                                        Parameters:
                                          FunctionName.$: $.function_name
                                          MemorySize.$: $.memory_size
                                        Resource: arn:aws:states:::aws-sdk:lambda:updateFunctionConfiguration
                                        ResultPath: null
                                      rust-arm64-benchmark:
                                        Type: Task
                                        End: true
                                        Resource: arn:aws:states:::lambda:invoke
                                        Parameters:
                                          FunctionName.$: $.function_name
                                        ResultPath: null
                      - StartAt: rust-x86-64-iteration-iter
                        States:
                          rust-x86-64-iteration-iter:
                            Type: Map
                            End: true
                            ItemsPath: $.iterations
                            ItemSelector:
                              iteration.$: $$.Map.Item.Value
                              function_name: !GetAtt LambdaBenchmarkRustX8664.Arn
                              memory_array.$: $.memory_array
                            MaxConcurrency: 1
                            ItemProcessor:
                              ProcessorConfig:
                                Mode: INLINE
                              StartAt: rust-x86-64-memory-iter
                              States:
                                rust-x86-64-memory-iter:
                                  Type: Map
                                  End: true
                                  MaxConcurrency: 1
                                  ItemsPath: $.memory_array
                                  ItemSelector:
                                    iteration.$: $.iteration
                                    function_name.$: $.function_name
                                    memory_size.$: $$.Map.Item.Value
                                  ItemProcessor:
                                    ProcessorConfig:
                                      Mode: INLINE
                                    StartAt: rust-x86-64-memory
                                    States:
                                      rust-x86-64-memory:
                                        Type: Task
                                        Next: rust-x86-64-benchmark
                                        Parameters:
                                          FunctionName.$: $.function_name
                                          MemorySize.$: $.memory_size
                                        Resource: arn:aws:states:::aws-sdk:lambda:updateFunctionConfiguration
                                        ResultPath: null
                                      rust-x86-64-benchmark:
                                        Type: Task
                                        End: true
                                        Resource: arn:aws:states:::lambda:invoke
                                        Parameters:
                                          FunctionName.$: $.function_name
                                        ResultPath: null
              - StartAt: nodejs_18-architecture-iter
                States:
                  nodejs_18-architecture-iter:
                    Type: Parallel
                    End: true
                    Branches:
                      - StartAt: nodejs_18-arm64-iteration-iter
                        States:
                          nodejs_18-arm64-iteration-iter:
                            Type: Map
                            End: true
                            ItemsPath: $.iterations
                            ItemSelector:
                              iteration.$: $$.Map.Item.Value
                              function_name: !GetAtt LambdaBenchmarkNodejs 18ARM64.Arn
                              memory_array.$: $.memory_array
                            MaxConcurrency: 1
                            ItemProcessor:
                              ProcessorConfig:
                                Mode: INLINE
                              StartAt: nodejs_18-arm64-memory-iter
                              States:
                                nodejs_18-arm64-memory-iter:
                                  Type: Map
                                  End: true
                                  MaxConcurrency: 1
                                  ItemsPath: $.memory_array
                                  ItemSelector:
                                    iteration.$: $.iteration
                                    function_name.$: $.function_name
                                    memory_size.$: $$.Map.Item.Value
                                  ItemProcessor:
                                    ProcessorConfig:
                                      Mode: INLINE
                                    StartAt: nodejs_18-arm64-memory
                                    States:
                                      nodejs_18-arm64-memory:
                                        Type: Task
                                        Next: nodejs_18-arm64-benchmark
                                        Parameters:
                                          FunctionName.$: $.function_name
                                          MemorySize.$: $.memory_size
                                        Resource: arn:aws:states:::aws-sdk:lambda:updateFunctionConfiguration
                                        ResultPath: null
                                      nodejs_18-arm64-benchmark:
                                        Type: Task
                                        End: true
                                        Resource: arn:aws:states:::lambda:invoke
                                        Parameters:
                                          FunctionName.$: $.function_name
                                        ResultPath: null
  StepFunctionRole:
    Type: AWS::IAM::Role
    Properties:
      RoleName: !Sub "iam-${AWS::Region}-lambda-benchmark-step-functions-role"
      AssumeRolePolicyDocument:
        Version: 2012-10-17
        Statement:
          - Effect: Allow
            Principal:
              Service: !Sub "states.${AWS::Region}.amazonaws.com"
            Action: sts:AssumeRole
      Policies:
        - PolicyName: logs
          PolicyDocument:
            Statement:
              - Effect: Allow
                Action:
                  - logs:CreateLogDelivery
                  - logs:GetLogDelivery
                  - logs:UpdateLogDelivery
                  - logs:DeleteLogDelivery
                  - logs:ListLogDeliveries
                  - logs:PutResourcePolicy
                  - logs:DescribeResourcePolicies
                  - logs:DescribeLogGroups
                  - logs:GetLogEvents
                Resource: "*"
        - PolicyName: stateMachine
          PolicyDocument:
            Statement:
              - Effect: Allow
                Action:
                  - states:StartExecution
                  - events:PutTargets
                  - events:PutRule
                  - events:DescribeRule
                Resource:
                  - !Sub "arn:aws:states:${AWS::Region}:${AWS::AccountId}:stateMachine:stm-lambda-benchmark"
        - PolicyName: lambda
          PolicyDocument:
            Statement:
              - Effect: Allow
                Action: lambda:InvokeFunction
                Resource:
                  - !GetAtt LambdaLogProcessor.Arn
                  - !GetAtt LambdaReportGenerator.Arn
              - Effect: Allow
                Action: s3:GetObject
                Resource:
                  - arn:aws:s3:::bkt/runtimes/*
              - Effect: Allow
                Action: s3:PutObject
                Resource:
                  - arn:aws:s3:::bkt/results/*
              - Effect: Allow
                Action:
                  - lambda:InvokeFunction
                  - lambda:UpdateFunctionCode
                Resource:
                  - !GetAtt LambdaBenchmarkRustARM64.Arn
                  - !GetAtt LambdaBenchmarkRustX8664.Arn
                  - !GetAtt LambdaBenchmarkNodejs 18ARM64.Arn
  LogsStateMachine:
    Type: AWS::Logs::LogGroup
    Properties:
      LogGroupName: /aws/vendedlogs/states/lambda-benchmark
      RetentionInDays: 7"####;

const SCHEDULED_DEBUG: &str = r####"---
AWSTemplateFormatVersion: 2010-09-09
Transform: AWS::Serverless-2016-10-31
Description: Lambda Benchmark
Globals:
  Function:
    Timeout: 60
    MemorySize: 128
    CodeUri:
      Bucket: bkt
    Environment:
      Variables:
        BUCKET_NAME: bkt
Resources:
  RoleLogProcessor:
    Type: AWS::IAM::Role
    Properties:
      RoleName: !Sub "iam-${AWS::Region}-lambda-benchmark-log-processor-role"
      AssumeRolePolicyDocument:
        Version: 2012-10-17
        Statement:
          - Effect: Allow
            Principal:
              Service:
                - lambda.amazonaws.com
            Action:
              - sts:AssumeRole
      Path: /
      ManagedPolicyArns:
        - arn:aws:iam::aws:policy/service-role/AWSLambdaBasicExecutionRole
  RoleReportGenerator:
    Type: AWS::IAM::Role
    Properties:
      RoleName: !Sub "iam-${AWS::Region}-lambda-benchmark-report-generator-role"
      Path: /
      AssumeRolePolicyDocument:
        Version: 2012-10-17
        Statement:
          - Effect: Allow
            Principal:
              Service: lambda.amazonaws.com
            Action: sts:AssumeRole
      ManagedPolicyArns: [arn:aws:iam::aws:policy/service-role/AWSLambdaBasicExecutionRole]
      Policies:
        - PolicyName: !Sub "iam-${AWS::Region}-lambda-benchmark-report-generator-policy"
          PolicyDocument:
            Version: 2012-10-17
            Statement:
              - Effect: Allow
                Action:
                  - s3:ListBucket
                Resource: arn:aws:s3:::bkt
              - Effect: Allow
                Action:
                  - s3:ListBucket
                  - s3:GetObject
                  - s3:DeleteObject
                Resource: arn:aws:s3:::bkt/results/*
              - Effect: Allow
                Action:
                  - s3:PutObject
                Resource: arn:aws:s3:::bkt/reports/*
  RoleRuntime:
    Type: AWS::IAM::Role
    Properties:
      RoleName: !Sub "iam-${AWS::Region}-lambda-benchmark-runtime-role"
      Path: /
      AssumeRolePolicyDocument:
        Version: 2012-10-17
        Statement:
          - Effect: Allow
            Principal:
              Service: lambda.amazonaws.com
            Action: sts:AssumeRole
      ManagedPolicyArns: [arn:aws:iam::aws:policy/service-role/AWSLambdaBasicExecutionRole]
      Policies:
        - PolicyName: !Sub "iam-${AWS::Region}-lambda-benchmark-runtime-policy"
          PolicyDocument:
            Version: 2012-10-17
            Statement:
              - Effect: Allow
                Action:
                  - s3:PutObject
                  - s3:DeleteObject
                Resource: arn:aws:s3:::bkt/test/*
  LambdaLogProcessor:
    Type: AWS::Serverless::Function
    Properties:
      FunctionName: benchmark-log-processor
      Description: Lambda Benchmark | Log Processor
      Runtime: provided.al2
      Architectures: [arm64]
      Handler: bootstrap
      Role: !GetAtt RoleLogProcessor.Arn
      CodeUri:
        Key: backing/log_processor.zip
      Events:
        LogsLambdaBenchmarkRustARM64:
          Type: CloudWatchLogs
          Properties:
            LogGroupName: !Ref LogsLambdaBenchmarkRustARM64
            FilterPattern: REPORT
        LogsLambdaBenchmarkRustX8664:
          Type: CloudWatchLogs
          Properties:
            LogGroupName: !Ref LogsLambdaBenchmarkRustX8664
            FilterPattern: REPORT
        LogsLambdaBenchmarkNodejs 18ARM64:
          Type: CloudWatchLogs
          Properties:
            LogGroupName: !Ref LogsLambdaBenchmarkNodejs 18ARM64
            FilterPattern: REPORT
  LogsLogProcessor:
    Type: AWS::Logs::LogGroup
    Properties:
      LogGroupName: /aws/lambda/benchmark-log-processor
      RetentionInDays: 7
  LambdaReportGenerator:
    Type: AWS::Serverless::Function
    Properties:
      FunctionName: benchmark-report-generator
      Description: Lambda Benchmark | Report Generator
      Runtime: provided.al2
      Architectures: [arm64]
      Handler: bootstrap
      Role: !GetAtt RoleReportGenerator.Arn
      CodeUri:
        Key: backing/report_generator.zip
  LogsReportGenerator:
    Type: AWS::Logs::LogGroup
    Properties:
      LogGroupName: /aws/lambda/benchmark-report-generator
      RetentionInDays: 7
  LambdaBenchmarkRustARM64:
    Type: AWS::Serverless::Function
    Properties:
      FunctionName: lambda-benchmark-rust-arm64
      Description: Lambda Benchmark | Rust | arm64
      Runtime: provided.al2
      Architectures: [arm64]
      Handler: bootstrap
      Role: !GetAtt RoleRuntime.Arn
      CodeUri:
        Key: runtimes/rust_arm64.zip
      Environment:
        Variables:
          ITERATIONS_CODE: 500
  LogsLambdaBenchmarkRustARM64:
    Type: AWS::Logs::LogGroup
    Properties:
      LogGroupName: /aws/lambda/lambda-benchmark-rust-arm64
      RetentionInDays: 7
  LambdaBenchmarkRustX8664:
    Type: AWS::Serverless::Function
    Properties:
      FunctionName: lambda-benchmark-rust-x86_64
      Description: Lambda Benchmark | Rust | x86_64
      Runtime: provided.al2
      Architectures: [x86_64]
      Handler: bootstrap
      Role: !GetAtt RoleRuntime.Arn
      CodeUri:
        Key: runtimes/rust_x86_64.zip
      Environment:
        Variables:
          ITERATIONS_CODE: 500
  LogsLambdaBenchmarkRustX8664:
    Type: AWS::Logs::LogGroup
    Properties:
      LogGroupName: /aws/lambda/lambda-benchmark-rust-x86_64
      RetentionInDays: 7
  LambdaBenchmarkNodejs 18ARM64:
    Type: AWS::Serverless::Function
    Properties:
      FunctionName: lambda-benchmark-nodejs_18-arm64
      Description: Lambda Benchmark | Node.js 18 | arm64
      Runtime: nodejs18.x
      Architectures: [arm64]
      Handler: index.handler
      Role: !GetAtt RoleRuntime.Arn
      CodeUri:
        Key: runtimes/nodejs_18_arm64.zip
      Environment:
        Variables:
          ITERATIONS_CODE: 500
  LogsLambdaBenchmarkNodejs 18ARM64:
    Type: AWS::Logs::LogGroup
    Properties:
      LogGroupName: /aws/lambda/lambda-benchmark-nodejs_18-arm64
      RetentionInDays: 7
  StateMachineBenchmarkRunner:
    Type: AWS::Serverless::StateMachine
    Properties:
      Name: !Sub "stm-lambda-benchmark"
      Type: STANDARD
      Tracing:
        Enabled: false
      Logging:
        Level: ERROR
        Destinations:
          - CloudWatchLogsLogGroup:
              LogGroupArn: !GetAtt LogsStateMachine.Arn
      Role: !GetAtt StepFunctionRole.Arn
      Events:
        Event:
          Type: Schedule
          Properties:
            State: ENABLED
            Schedule: rate(1 day)
            Input: '{"iterations": 10}'
      Definition:
        Comment: Lambda Benchmark Runner
        StartAt: setup
        States:
          setup:
            Type: Pass
            Next: benchmarks
            Parameters:
              iterations.$: States.ArrayRange(1, $.iterations, 1)
              memory_array: [128, 1024]
          benchmarks:
            Type: Parallel
            End: true
            ResultPath: null
            Branches:
              - StartAt: rust-architecture-iter
                States:
                  rust-architecture-iter:
                    Type: Parallel
                    End: true
                    Branches:
                      - StartAt: rust-arm64-iteration-iter
                        States:
                          rust-arm64-iteration-iter:
                            Type: Map
                            End: true
                            ItemsPath: $.iterations
                            ItemSelector:
                              iteration.$: $$.Map.Item.Value
                              function_name: !GetAtt LambdaBenchmarkRustARM64.Arn
                              memory_array.$: $.memory_array
                            MaxConcurrency: 1
                            ItemProcessor:
                              ProcessorConfig:
                                Mode: INLINE
                              StartAt: rust-arm64-memory-iter
                              States:
                                rust-arm64-memory-iter:
                                  Type: Map
                                  End: true
                                  MaxConcurrency: 1
                                  ItemsPath: $.memory_array
                                  ItemSelector:
                                    iteration.$: $.iteration
                                    function_name.$: $.function_name
                                    memory_size.$: $$.Map.Item.Value
                                  ItemProcessor:
                                    ProcessorConfig:
                                      Mode: INLINE
                                    StartAt: rust-arm64-memory
                                    States:
                                      rust-arm64-memory:
                                        Type: Task
                                        Next: rust-arm64-benchmark
                                        Parameters:
                                          FunctionName.$: $.function_name
                                          MemorySize.$: $.memory_size
                                        Resource: arn:aws:states:::aws-sdk:lambda:updateFunctionConfiguration
                                        ResultPath: null
                                      rust-arm64-benchmark:
                                        Type: Task
                                        End: true
                                        Resource: arn:aws:states:::lambda:invoke
                                        Parameters:
                                          FunctionName.$: $.function_name
                                        ResultPath: null
                      - StartAt: rust-x86-64-iteration-iter
                        States:
                          rust-x86-64-iteration-iter:
                            Type: Map
                            End: true
                            ItemsPath: $.iterations
                            ItemSelector:
                              iteration.$: $$.Map.Item.Value
                              function_name: !GetAtt LambdaBenchmarkRustX8664.Arn
                              memory_array.$: $.memory_array
                            MaxConcurrency: 1
                            ItemProcessor:
                              ProcessorConfig:
                                Mode: INLINE
                              StartAt: rust-x86-64-memory-iter
                              States:
                                rust-x86-64-memory-iter:
                                  Type: Map
                                  End: true
                                  MaxConcurrency: 1
                                  ItemsPath: $.memory_array
                                  ItemSelector:
                                    iteration.$: $.iteration
                                    function_name.$: $.function_name
                                    memory_size.$: $$.Map.Item.Value
                                  ItemProcessor:
                                    ProcessorConfig:
                                      Mode: INLINE
                                    StartAt: rust-x86-64-memory
                                    States:
                                      rust-x86-64-memory:
                                        Type: Task
                                        Next: rust-x86-64-benchmark
                                        Parameters:
                                          FunctionName.$: $.function_name
                                          MemorySize.$: $.memory_size
                                        Resource: arn:aws:states:::aws-sdk:lambda:updateFunctionConfiguration
                                        ResultPath: null
                                      rust-x86-64-benchmark:
                                        Type: Task
                                        End: true
                                        Resource: arn:aws:states:::lambda:invoke
                                        Parameters:
                                          FunctionName.$: $.function_name
                                        ResultPath: null
  StepFunctionRole:
    Type: AWS::IAM::Role
    Properties:
      RoleName: !Sub "iam-${AWS::Region}-lambda-benchmark-step-functions-role"
      AssumeRolePolicyDocument:
        Version: 2012-10-17
        Statement:
          - Effect: Allow
            Principal:
              Service: !Sub "states.${AWS::Region}.amazonaws.com"
            Action: sts:AssumeRole
      Policies:
        - PolicyName: logs
          PolicyDocument:
            Statement:
              - Effect: Allow
                Action:
                  - logs:CreateLogDelivery
                  - logs:GetLogDelivery
                  - logs:UpdateLogDelivery
                  - logs:DeleteLogDelivery
                  - logs:ListLogDeliveries
                  - logs:PutResourcePolicy
                  - logs:DescribeResourcePolicies
                  - logs:DescribeLogGroups
                  - logs:GetLogEvents
                Resource: "*"
        - PolicyName: stateMachine
          PolicyDocument:
            Statement:
              - Effect: Allow
                Action:
                  - states:StartExecution
                  - events:PutTargets
                  - events:PutRule
                  - events:DescribeRule
                Resource:
                  - !Sub "arn:aws:states:${AWS::Region}:${AWS::AccountId}:stateMachine:stm-lambda-benchmark"
        - PolicyName: lambda
          PolicyDocument:
            Statement:
              - Effect: Allow
                Action: lambda:InvokeFunction
                Resource:
                  - !GetAtt LambdaLogProcessor.Arn
                  - !GetAtt LambdaReportGenerator.Arn
              - Effect: Allow
                Action: s3:GetObject
                Resource:
                  - arn:aws:s3:::bkt/runtimes/*
              - Effect: Allow
                Action: s3:PutObject
                Resource:
                  - arn:aws:s3:::bkt/results/*
              - Effect: Allow
                Action:
                  - lambda:InvokeFunction
                  - lambda:UpdateFunctionCode
                Resource:
                  - !GetAtt LambdaBenchmarkRustARM64.Arn
                  - !GetAtt LambdaBenchmarkRustX8664.Arn
                  - !GetAtt LambdaBenchmarkNodejs 18ARM64.Arn
  LogsStateMachine:
    Type: AWS::Logs::LogGroup
    Properties:
      LogGroupName: /aws/vendedlogs/states/lambda-benchmark
      RetentionInDays: 7"####;

const SCHEDULED_EMPTY: &str = r####"---
AWSTemplateFormatVersion: 2010-09-09
Transform: AWS::Serverless-2016-10-31
Description: Lambda Benchmark
Globals:
  Function:
    Timeout: 60
    MemorySize: 128
    CodeUri:
      Bucket: bkt
    Environment:
      Variables:
        BUCKET_NAME: bkt
Resources:
  RoleLogProcessor:
    Type: AWS::IAM::Role
    Properties:
      RoleName: !Sub "iam-${AWS::Region}-lambda-benchmark-log-processor-role"
      AssumeRolePolicyDocument:
        Version: 2012-10-17
        Statement:
          - Effect: Allow
            Principal:
              Service:
                - lambda.amazonaws.com
            Action:
              - sts:AssumeRole
      Path: /
      ManagedPolicyArns:
        - arn:aws:iam::aws:policy/service-role/AWSLambdaBasicExecutionRole
  RoleReportGenerator:
    Type: AWS::IAM::Role
    Properties:
      RoleName: !Sub "iam-${AWS::Region}-lambda-benchmark-report-generator-role"
      Path: /
      AssumeRolePolicyDocument:
        Version: 2012-10-17
        Statement:
          - Effect: Allow
            Principal:
              Service: lambda.amazonaws.com
            Action: sts:AssumeRole
      ManagedPolicyArns: [arn:aws:iam::aws:policy/service-role/AWSLambdaBasicExecutionRole]
      Policies:
        - PolicyName: !Sub "iam-${AWS::Region}-lambda-benchmark-report-generator-policy"
          PolicyDocument:
            Version: 2012-10-17
            Statement:
              - Effect: Allow
                Action:
                  - s3:ListBucket
                Resource: arn:aws:s3:::bkt
              - Effect: Allow
                Action:
                  - s3:ListBucket
                  - s3:GetObject
                  - s3:DeleteObject
                Resource: arn:aws:s3:::bkt/results/*
              - Effect: Allow
                Action:
                  - s3:PutObject
                Resource: arn:aws:s3:::bkt/reports/*
  RoleRuntime:
    Type: AWS::IAM::Role
    Properties:
      RoleName: !Sub "iam-${AWS::Region}-lambda-benchmark-runtime-role"
      Path: /
      AssumeRolePolicyDocument:
        Version: 2012-10-17
        Statement:
          - Effect: Allow
            Principal:
              Service: lambda.amazonaws.com
            Action: sts:AssumeRole
      ManagedPolicyArns: [arn:aws:iam::aws:policy/service-role/AWSLambdaBasicExecutionRole]
      Policies:
        - PolicyName: !Sub "iam-${AWS::Region}-lambda-benchmark-runtime-policy"
          PolicyDocument:
            Version: 2012-10-17
            Statement:
              - Effect: Allow
                Action:
                  - s3:PutObject
                  - s3:DeleteObject
                Resource: arn:aws:s3:::bkt/test/*
  LambdaLogProcessor:
    Type: AWS::Serverless::Function
    Properties:
      FunctionName: benchmark-log-processor
      Description: Lambda Benchmark | Log Processor
      Runtime: provided.al2
      Architectures: [arm64]
      Handler: bootstrap
      Role: !GetAtt RoleLogProcessor.Arn
      CodeUri:
        Key: backing/log_processor.zip
      Events:
  LogsLogProcessor:
    Type: AWS::Logs::LogGroup
    Properties:
      LogGroupName: /aws/lambda/benchmark-log-processor
      RetentionInDays: 7
  LambdaReportGenerator:
    Type: AWS::Serverless::Function
    Properties:
      FunctionName: benchmark-report-generator
      Description: Lambda Benchmark | Report Generator
      Runtime: provided.al2
      Architectures: [arm64]
      Handler: bootstrap
      Role: !GetAtt RoleReportGenerator.Arn
      CodeUri:
        Key: backing/report_generator.zip
  LogsReportGenerator:
    Type: AWS::Logs::LogGroup
    Properties:
      LogGroupName: /aws/lambda/benchmark-report-generator
      RetentionInDays: 7
  StateMachineBenchmarkRunner:
    Type: AWS::Serverless::StateMachine
    Properties:
      Name: !Sub "stm-lambda-benchmark"
      Type: STANDARD
      Tracing:
        Enabled: false
      Logging:
        Level: ERROR
        Destinations:
          - CloudWatchLogsLogGroup:
              LogGroupArn: !GetAtt LogsStateMachine.Arn
      Role: !GetAtt StepFunctionRole.Arn
      Events:
        Event:
          Type: Schedule
          Properties:
            State: ENABLED
            Schedule: rate(1 day)
            Input: '{"iterations": 10}'
      Definition:
        Comment: Lambda Benchmark Runner
        StartAt: setup
        States:
          setup:
            Type: Pass
            Next: benchmarks
            Parameters:
              iterations.$: States.ArrayRange(1, $.iterations, 1)
              memory_array: []
          benchmarks:
            Type: Parallel
            End: true
            ResultPath: null
            Branches:
  StepFunctionRole:
    Type: AWS::IAM::Role
    Properties:
      RoleName: !Sub "iam-${AWS::Region}-lambda-benchmark-step-functions-role"
      AssumeRolePolicyDocument:
        Version: 2012-10-17
        Statement:
          - Effect: Allow
            Principal:
              Service: !Sub "states.${AWS::Region}.amazonaws.com"
            Action: sts:AssumeRole
      Policies:
        - PolicyName: logs
          PolicyDocument:
            Statement:
              - Effect: Allow
                Action:
                  - logs:CreateLogDelivery
                  - logs:GetLogDelivery
                  - logs:UpdateLogDelivery
                  - logs:DeleteLogDelivery
                  - logs:ListLogDeliveries
                  - logs:PutResourcePolicy
                  - logs:DescribeResourcePolicies
                  - logs:DescribeLogGroups
                  - logs:GetLogEvents
                Resource: "*"
        - PolicyName: stateMachine
          PolicyDocument:
            Statement:
              - Effect: Allow
                Action:
                  - states:StartExecution
                  - events:PutTargets
                  - events:PutRule
                  - events:DescribeRule
                Resource:
                  - !Sub "arn:aws:states:${AWS::Region}:${AWS::AccountId}:stateMachine:stm-lambda-benchmark"
        - PolicyName: lambda
          PolicyDocument:
            Statement:
              - Effect: Allow
                Action: lambda:InvokeFunction
                Resource:
                  - !GetAtt LambdaLogProcessor.Arn
                  - !GetAtt LambdaReportGenerator.Arn
              - Effect: Allow
                Action: s3:GetObject
                Resource:
                  - arn:aws:s3:::bkt/runtimes/*
              - Effect: Allow
                Action: s3:PutObject
                Resource:
                  - arn:aws:s3:::bkt/results/*
              - Effect: Allow
                Action:
                  - lambda:InvokeFunction
                  - lambda:UpdateFunctionCode
                Resource:
  LogsStateMachine:
    Type: AWS::Logs::LogGroup
    Properties:
      LogGroupName: /aws/vendedlogs/states/lambda-benchmark
      RetentionInDays: 7"####;

const MATRIX_FULL: &str = r####"---
AWSTemplateFormatVersion: "2010-09-09"
Transform: AWS::Serverless-2016-10-31
Description: "Lambda Benchmark"

Resources:
  RoleBacking:
    Type: AWS::IAM::Role
    Properties:
      RoleName: !Sub "iam-${AWS::Region}-lambda-benchmark-backing-role"
      AssumeRolePolicyDocument:
        Version: 2012-10-17
        Statement:
          - Effect: Allow
            Principal:
              Service:
                - lambda.amazonaws.com
            Action:
              - sts:AssumeRole
      Path: /
      ManagedPolicyArns:
        - arn:aws:iam::aws:policy/service-role/AWSLambdaBasicExecutionRole
      Policies:
        - PolicyName: !Sub "iam-${AWS::Region}-lambda-benchmark-backing-policy"
          PolicyDocument:
            Version: 2012-10-17
            Statement:
              - Effect: Allow
                Action:
                  - s3:PutObject
                Resource: "arn:aws:s3:::bkt/metrics/*"
              - Effect: Allow
                Action:
                  - logs:FilterLogEvents
                Resource: "*"

  RoleRuntime:
    Type: AWS::IAM::Role
    Properties:
      RoleName: !Sub "iam-${AWS::Region}-lambda-benchmark-runtime-role"
      AssumeRolePolicyDocument:
        Version: 2012-10-17
        Statement:
          - Effect: Allow
            Principal:
              Service:
                - lambda.amazonaws.com
            Action:
              - sts:AssumeRole
      ManagedPolicyArns:
        - arn:aws:iam::aws:policy/service-role/AWSLambdaBasicExecutionRole
      Policies:
        - PolicyName: !Sub "iam-${AWS::Region}-lambda-benchmark-runtime-policy"
          PolicyDocument:
            Version: 2012-10-17
            Statement:
              - Effect: Allow
                Action:
                  - s3:PutObject
                  - s3:DeleteObject
                Resource: "arn:aws:s3:::bkt/test/*"
      Path: /

  LambdaLogProcessor:
    Type: AWS::Serverless::Function
    Properties:
      FunctionName: "benchmark-log-processor"
      Description: "Lambda Benchmark | Log Processor"
      Runtime: "provided.al2"
      Architectures: ["arm64"]
      Handler: "bootstrap"
      Role: !GetAtt RoleBacking.Arn
      MemorySize: 128
      Timeout: 60
      CodeUri:
        Bucket: "bkt"
        Key: "backing/log-processor.zip"
      Environment:
        Variables:
          BUCKET_NAME: "bkt"

  LogsLogProcessor:
    Type: AWS::Logs::LogGroup
    Properties:
      LogGroupName: "/aws/lambda/benchmark-log-processor"
      RetentionInDays: 7

  LambdaBenchmarkRustARM64128:
    Type: AWS::Serverless::Function
    Properties:
      FunctionName: "benchmark-rust-arm64-128"
      Description: "Lambda Benchmark | Rust | arm64 | 128"
      Runtime: "provided.al2"
      Architectures: ["arm64"]
      Handler: "bootstrap"
      Role: !GetAtt RoleRuntime.Arn
      MemorySize: 128
      Timeout: 900
      CodeUri:
        Bucket: "bkt"
        Key: "runtimes/code_rust_arm64.zip"
      Environment:
          Variables:
            BUCKET_NAME: "bkt"

  LogsLambdaBenchmarkRustARM64128:
    Type: AWS::Logs::LogGroup
    Properties:
      LogGroupName: "/aws/lambda/benchmark-rust-arm64-128"
      RetentionInDays: 7

  LambdaBenchmarkRustX8664128:
    Type: AWS::Serverless::Function
    Properties:
      FunctionName: "benchmark-rust-x86-64-128"
      Description: "Lambda Benchmark | Rust | x86_64 | 128"
      Runtime: "provided.al2"
      Architectures: ["x86_64"]
      Handler: "bootstrap"
      Role: !GetAtt RoleRuntime.Arn
      MemorySize: 128
      Timeout: 900
      CodeUri:
        Bucket: "bkt"
        Key: "runtimes/code_rust_x86_64.zip"
      Environment:
          Variables:
            BUCKET_NAME: "bkt"

  LogsLambdaBenchmarkRustX8664128:
    Type: AWS::Logs::LogGroup
    Properties:
      LogGroupName: "/aws/lambda/benchmark-rust-x86-64-128"
      RetentionInDays: 7

  LambdaBenchmarkNode.js 18ARM64128:
    Type: AWS::Serverless::Function
    Properties:
      FunctionName: "benchmark-nodejs_18-arm64-128"
      Description: "Lambda Benchmark | Node.js 18 | arm64 | 128"
      Runtime: "nodejs18.x"
      Architectures: ["arm64"]
      Handler: "index.handler"
      Role: !GetAtt RoleRuntime.Arn
      MemorySize: 128
      Timeout: 900
      CodeUri:
        Bucket: "bkt"
        Key: "runtimes/code_nodejs_18_arm64.zip"
      Environment:
          Variables:
            BUCKET_NAME: "bkt"

  LogsLambdaBenchmarkNode.js 18ARM64128:
    Type: AWS::Logs::LogGroup
    Properties:
      LogGroupName: "/aws/lambda/benchmark-nodejs_18-arm64-128"
      RetentionInDays: 7

  LambdaBenchmarkRustARM641024:
    Type: AWS::Serverless::Function
    Properties:
      FunctionName: "benchmark-rust-arm64-1024"
      Description: "Lambda Benchmark | Rust | arm64 | 1024"
      Runtime: "provided.al2"
      Architectures: ["arm64"]
      Handler: "bootstrap"
      Role: !GetAtt RoleRuntime.Arn
      MemorySize: 1024
      Timeout: 900
      CodeUri:
        Bucket: "bkt"
        Key: "runtimes/code_rust_arm64.zip"
      Environment:
          Variables:
            BUCKET_NAME: "bkt"

  LogsLambdaBenchmarkRustARM641024:
    Type: AWS::Logs::LogGroup
    Properties:
      LogGroupName: "/aws/lambda/benchmark-rust-arm64-1024"
      RetentionInDays: 7

  LambdaBenchmarkRustX86641024:
    Type: AWS::Serverless::Function
    Properties:
      FunctionName: "benchmark-rust-x86-64-1024"
      Description: "Lambda Benchmark | Rust | x86_64 | 1024"
      Runtime: "provided.al2"
      Architectures: ["x86_64"]
      Handler: "bootstrap"
      Role: !GetAtt RoleRuntime.Arn
      MemorySize: 1024
      Timeout: 900
      CodeUri:
        Bucket: "bkt"
        Key: "runtimes/code_rust_x86_64.zip"
      Environment:
          Variables:
            BUCKET_NAME: "bkt"

  LogsLambdaBenchmarkRustX86641024:
    Type: AWS::Logs::LogGroup
    Properties:
      LogGroupName: "/aws/lambda/benchmark-rust-x86-64-1024"
      RetentionInDays: 7

  LambdaBenchmarkNode.js 18ARM641024:
    Type: AWS::Serverless::Function
    Properties:
      FunctionName: "benchmark-nodejs_18-arm64-1024"
      Description: "Lambda Benchmark | Node.js 18 | arm64 | 1024"
      Runtime: "nodejs18.x"
      Architectures: ["arm64"]
      Handler: "index.handler"
      Role: !GetAtt RoleRuntime.Arn
      MemorySize: 1024
      Timeout: 900
      CodeUri:
        Bucket: "bkt"
        Key: "runtimes/code_nodejs_18_arm64.zip"
      Environment:
          Variables:
            BUCKET_NAME: "bkt"

  LogsLambdaBenchmarkNode.js 18ARM641024:
    Type: AWS::Logs::LogGroup
    Properties:
      LogGroupName: "/aws/lambda/benchmark-nodejs_18-arm64-1024"
      RetentionInDays: 7

  StateMachineBenchmarkRunnerExpress:
    Type: AWS::StepFunctions::StateMachine
    Properties:
      StateMachineName: !Sub "stm-lambda-benchmark-express"
      StateMachineType: EXPRESS
      TracingConfiguration:
        Enabled: false
      LoggingConfiguration:
        Level: ERROR
        Destinations:
          - CloudWatchLogsLogGroup:
              LogGroupArn: !GetAtt LogsStateMachine.Arn
      RoleArn: !GetAtt StepFunctionRole.Arn
      Definition:
        Comment: Lambda Benchmark Runner
        StartAt: Iterations
        States:
          Iterations:
            Type: Pass
            Next: Parallel
            Parameters:
              iterations.$: States.ArrayRange(1, $.iterations, 1)
          Parallel:
            Type: Parallel
            End: true
            ResultSelector:
              runs.$: $.[*][*][*][*]
            OutputPath: $.runs
            Branches:
              - StartAt: rust-para
                States:
                  rust-para:
                    Type: Parallel
                    End: true
                    Branches:
                      - StartAt: rust-arm64-para
                        States:
                          rust-arm64-para:
                            Type: Parallel
                            End: true
                            Branches:
                              - StartAt: rust-arm64-128-iter
                                States:
                                  rust-arm64-128-iter:
                                    Type: Map
                                    End: true
                                    ItemsPath: $.iterations
                                    MaxConcurrency: 1
                                    ItemProcessor:
                                      ProcessorConfig:
                                        Mode: INLINE
                                      StartAt: rust-arm64-128-cold-start
                                      States:
                                        rust-arm64-128-cold-start:
                                          Type: Task
                                          Next: rust-arm64-128-runtime
                                          Resource: arn:aws:states:::aws-sdk:lambda:updateFunctionCode
                                          Parameters:
                                            FunctionName: !GetAtt LambdaBenchmarkRustARM64128.Arn
                                            S3Bucket: bkt
                                            S3Key: runtimes/code_rust_arm64.zip
                                          OutputPath: $.Payload
                                        rust-arm64-128-runtime:
                                          Type: Task
                                          Next: rust-arm64-128-wait
                                          Resource: arn:aws:states:::lambda:invoke
                                          Parameters:
                                            FunctionName: !GetAtt LambdaBenchmarkRustARM64128.Arn
                                          OutputPath: $.Payload
                                        rust-arm64-128-wait:
                                          Type: Wait
                                          Next: rust-arm64-128-log-extractor
                                          Seconds: 5
                                        rust-arm64-128-log-extractor:
                                          Type: Task
                                          Next: rust-arm64-128-log-processor
                                          Resource: arn:aws:states:::aws-sdk:cloudwatchlogs:getLogEvents
                                          Parameters:
                                            LogGroupName: /aws/lambda/benchmark-rust-arm64-128
                                            LogStreamName.$: $
                                            StartFromHead: false
                                            Limit: 1
                                          ResultSelector:
                                            log: $.Events[0].Message
                                        rust-arm64-128-log-processor:
                                          Type: Task
                                          End: true
                                          Resource: arn:aws:states:::lambda:invoke
                                          Parameters:
                                            FunctionName: !GetAtt LambdaLogProcessor.Arn
                                            Payload.$: $
                                          OutputPath: $.Payload
                              - StartAt: rust-arm64-1024-iter
                                States:
                                  rust-arm64-1024-iter:
                                    Type: Map
                                    End: true
                                    ItemsPath: $.iterations
                                    MaxConcurrency: 1
                                    ItemProcessor:
                                      ProcessorConfig:
                                        Mode: INLINE
                                      StartAt: rust-arm64-1024-cold-start
                                      States:
                                        rust-arm64-1024-cold-start:
                                          Type: Task
                                          Next: rust-arm64-1024-runtime
                                          Resource: arn:aws:states:::aws-sdk:lambda:updateFunctionCode
                                          Parameters:
                                            FunctionName: !GetAtt LambdaBenchmarkRustARM641024.Arn
                                            S3Bucket: bkt
                                            S3Key: runtimes/code_rust_arm64.zip
                                          OutputPath: $.Payload
                                        rust-arm64-1024-runtime:
                                          Type: Task
                                          Next: rust-arm64-1024-wait
                                          Resource: arn:aws:states:::lambda:invoke
                                          Parameters:
                                            FunctionName: !GetAtt LambdaBenchmarkRustARM641024.Arn
                                          OutputPath: $.Payload
                                        rust-arm64-1024-wait:
                                          Type: Wait
                                          Next: rust-arm64-1024-log-extractor
                                          Seconds: 5
                                        rust-arm64-1024-log-extractor:
                                          Type: Task
                                          Next: rust-arm64-1024-log-processor
                                          Resource: arn:aws:states:::aws-sdk:cloudwatchlogs:getLogEvents
                                          Parameters:
                                            LogGroupName: /aws/lambda/benchmark-rust-arm64-1024
                                            LogStreamName.$: $
                                            StartFromHead: false
                                            Limit: 1
                                          ResultSelector:
                                            log: $.Events[0].Message
                                        rust-arm64-1024-log-processor:
                                          Type: Task
                                          End: true
                                          Resource: arn:aws:states:::lambda:invoke
                                          Parameters:
                                            FunctionName: !GetAtt LambdaLogProcessor.Arn
                                            Payload.$: $
                                          OutputPath: $.Payload
                      - StartAt: rust-x86-64-para
                        States:
                          rust-x86-64-para:
                            Type: Parallel
                            End: true
                            Branches:
                              - StartAt: rust-x86-64-128-iter
                                States:
                                  rust-x86-64-128-iter:
                                    Type: Map
                                    End: true
                                    ItemsPath: $.iterations
                                    MaxConcurrency: 1
                                    ItemProcessor:
                                      ProcessorConfig:
                                        Mode: INLINE
                                      StartAt: rust-x86-64-128-cold-start
                                      States:
                                        rust-x86-64-128-cold-start:
                                          Type: Task
                                          Next: rust-x86-64-128-runtime
                                          Resource: arn:aws:states:::aws-sdk:lambda:updateFunctionCode
                                          Parameters:
                                            FunctionName: !GetAtt LambdaBenchmarkRustX8664128.Arn
                                            S3Bucket: bkt
                                            S3Key: runtimes/code_rust_x86-64.zip
                                          OutputPath: $.Payload
                                        rust-x86-64-128-runtime:
                                          Type: Task
                                          Next: rust-x86-64-128-wait
                                          Resource: arn:aws:states:::lambda:invoke
                                          Parameters:
                                            FunctionName: !GetAtt LambdaBenchmarkRustX8664128.Arn
                                          OutputPath: $.Payload
                                        rust-x86-64-128-wait:
                                          Type: Wait
                                          Next: rust-x86-64-128-log-extractor
                                          Seconds: 5
                                        rust-x86-64-128-log-extractor:
                                          Type: Task
                                          Next: rust-x86-64-128-log-processor
                                          Resource: arn:aws:states:::aws-sdk:cloudwatchlogs:getLogEvents
                                          Parameters:
                                            LogGroupName: /aws/lambda/benchmark-rust-x86-64-128
                                            LogStreamName.$: $
                                            StartFromHead: false
                                            Limit: 1
                                          ResultSelector:
                                            log: $.Events[0].Message
                                        rust-x86-64-128-log-processor:
                                          Type: Task
                                          End: true
                                          Resource: arn:aws:states:::lambda:invoke
                                          Parameters:
                                            FunctionName: !GetAtt LambdaLogProcessor.Arn
                                            Payload.$: $
                                          OutputPath: $.Payload
                              - StartAt: rust-x86-64-1024-iter
                                States:
                                  rust-x86-64-1024-iter:
                                    Type: Map
                                    End: true
                                    ItemsPath: $.iterations
                                    MaxConcurrency: 1
                                    ItemProcessor:
                                      ProcessorConfig:
                                        Mode: INLINE
                                      StartAt: rust-x86-64-1024-cold-start
                                      States:
                                        rust-x86-64-1024-cold-start:
                                          Type: Task
                                          Next: rust-x86-64-1024-runtime
                                          Resource: arn:aws:states:::aws-sdk:lambda:updateFunctionCode
                                          Parameters:
                                            FunctionName: !GetAtt LambdaBenchmarkRustX86641024.Arn
                                            S3Bucket: bkt
                                            S3Key: runtimes/code_rust_x86-64.zip
                                          OutputPath: $.Payload
                                        rust-x86-64-1024-runtime:
                                          Type: Task
                                          Next: rust-x86-64-1024-wait
                                          Resource: arn:aws:states:::lambda:invoke
                                          Parameters:
                                            FunctionName: !GetAtt LambdaBenchmarkRustX86641024.Arn
                                          OutputPath: $.Payload
                                        rust-x86-64-1024-wait:
                                          Type: Wait
                                          Next: rust-x86-64-1024-log-extractor
                                          Seconds: 5
                                        rust-x86-64-1024-log-extractor:
                                          Type: Task
                                          Next: rust-x86-64-1024-log-processor
                                          Resource: arn:aws:states:::aws-sdk:cloudwatchlogs:getLogEvents
                                          Parameters:
                                            LogGroupName: /aws/lambda/benchmark-rust-x86-64-1024
                                            LogStreamName.$: $
                                            StartFromHead: false
                                            Limit: 1
                                          ResultSelector:
                                            log: $.Events[0].Message
                                        rust-x86-64-1024-log-processor:
                                          Type: Task
                                          End: true
                                          Resource: arn:aws:states:::lambda:invoke
                                          Parameters:
                                            FunctionName: !GetAtt LambdaLogProcessor.Arn
                                            Payload.$: $
                                          OutputPath: $.Payload
              - StartAt: nodejs_18-para
                States:
                  nodejs_18-para:
                    Type: Parallel
                    End: true
                    Branches:
                      - StartAt: nodejs_18-arm64-para
                        States:
                          nodejs_18-arm64-para:
                            Type: Parallel
                            End: true
                            Branches:
                              - StartAt: nodejs_18-arm64-128-iter
                                States:
                                  nodejs_18-arm64-128-iter:
                                    Type: Map
                                    End: true
                                    ItemsPath: $.iterations
                                    MaxConcurrency: 1
                                    ItemProcessor:
                                      ProcessorConfig:
                                        Mode: INLINE
                                      StartAt: nodejs_18-arm64-128-cold-start
                                      States:
                                        nodejs_18-arm64-128-cold-start:
                                          Type: Task
                                          Next: nodejs_18-arm64-128-runtime
                                          Resource: arn:aws:states:::aws-sdk:lambda:updateFunctionCode
                                          Parameters:
                                            FunctionName: !GetAtt LambdaBenchmarkNode.js 18ARM64128.Arn
                                            S3Bucket: bkt
                                            S3Key: runtimes/code_nodejs_18_arm64.zip
                                          OutputPath: $.Payload
                                        nodejs_18-arm64-128-runtime:
                                          Type: Task
                                          Next: nodejs_18-arm64-128-wait
                                          Resource: arn:aws:states:::lambda:invoke
                                          Parameters:
                                            FunctionName: !GetAtt LambdaBenchmarkNode.js 18ARM64128.Arn
                                          OutputPath: $.Payload
                                        nodejs_18-arm64-128-wait:
                                          Type: Wait
                                          Next: nodejs_18-arm64-128-log-extractor
                                          Seconds: 5
                                        nodejs_18-arm64-128-log-extractor:
                                          Type: Task
                                          Next: nodejs_18-arm64-128-log-processor
                                          Resource: arn:aws:states:::aws-sdk:cloudwatchlogs:getLogEvents
                                          Parameters:
                                            LogGroupName: /aws/lambda/benchmark-nodejs_18-arm64-128
                                            LogStreamName.$: $
                                            StartFromHead: false
                                            Limit: 1
                                          ResultSelector:
                                            log: $.Events[0].Message
                                        nodejs_18-arm64-128-log-processor:
                                          Type: Task
                                          End: true
                                          Resource: arn:aws:states:::lambda:invoke
                                          Parameters:
                                            FunctionName: !GetAtt LambdaLogProcessor.Arn
                                            Payload.$: $
                                          OutputPath: $.Payload
                              - StartAt: nodejs_18-arm64-1024-iter
                                States:
                                  nodejs_18-arm64-1024-iter:
                                    Type: Map
                                    End: true
                                    ItemsPath: $.iterations
                                    MaxConcurrency: 1
                                    ItemProcessor:
                                      ProcessorConfig:
                                        Mode: INLINE
                                      StartAt: nodejs_18-arm64-1024-cold-start
                                      States:
                                        nodejs_18-arm64-1024-cold-start:
                                          Type: Task
                                          Next: nodejs_18-arm64-1024-runtime
                                          Resource: arn:aws:states:::aws-sdk:lambda:updateFunctionCode
                                          Parameters:
                                            FunctionName: !GetAtt LambdaBenchmarkNode.js 18ARM641024.Arn
                                            S3Bucket: bkt
                                            S3Key: runtimes/code_nodejs_18_arm64.zip
                                          OutputPath: $.Payload
                                        nodejs_18-arm64-1024-runtime:
                                          Type: Task
                                          Next: nodejs_18-arm64-1024-wait
                                          Resource: arn:aws:states:::lambda:invoke
                                          Parameters:
                                            FunctionName: !GetAtt LambdaBenchmarkNode.js 18ARM641024.Arn
                                          OutputPath: $.Payload
                                        nodejs_18-arm64-1024-wait:
                                          Type: Wait
                                          Next: nodejs_18-arm64-1024-log-extractor
                                          Seconds: 5
                                        nodejs_18-arm64-1024-log-extractor:
                                          Type: Task
                                          Next: nodejs_18-arm64-1024-log-processor
                                          Resource: arn:aws:states:::aws-sdk:cloudwatchlogs:getLogEvents
                                          Parameters:
                                            LogGroupName: /aws/lambda/benchmark-nodejs_18-arm64-1024
                                            LogStreamName.$: $
                                            StartFromHead: false
                                            Limit: 1
                                          ResultSelector:
                                            log: $.Events[0].Message
                                        nodejs_18-arm64-1024-log-processor:
                                          Type: Task
                                          End: true
                                          Resource: arn:aws:states:::lambda:invoke
                                          Parameters:
                                            FunctionName: !GetAtt LambdaLogProcessor.Arn
                                            Payload.$: $
                                          OutputPath: $.Payload

  StepFunctionRole:
    Type: AWS::IAM::Role
    Properties:
      RoleName: !Sub "iam-${AWS::Region}-lambda-benchmark-step-functions-role"
      AssumeRolePolicyDocument:
        Version: 2012-10-17
        Statement:
          - Effect: Allow
            Principal:
              Service: !Sub "states.${AWS::Region}.amazonaws.com"
            Action: sts:AssumeRole
      Policies:
        - PolicyName: logs
          PolicyDocument:
            Statement:
              - Effect: Allow
                Action:
                  - logs:CreateLogDelivery
                  - logs:GetLogDelivery
                  - logs:UpdateLogDelivery
                  - logs:DeleteLogDelivery
                  - logs:ListLogDeliveries
                  - logs:PutResourcePolicy
                  - logs:DescribeResourcePolicies
                  - logs:DescribeLogGroups
                  - logs:GetLogEvents
                Resource: "*"
        - PolicyName: stateMachine
          PolicyDocument:
            Statement:
              - Effect: Allow
                Action:
                  - states:StartExecution
                  - events:PutTargets
                  - events:PutRule
                  - events:DescribeRule
                Resource:
                  - !Sub "arn:aws:states:${AWS::Region}:${AWS::AccountId}:stateMachine:ste-lambda-benchmark"
        - PolicyName: lambda
          PolicyDocument:
            Statement:
              - Effect: Allow
                Action: lambda:InvokeFunction
                Resource:
                  - !GetAtt LambdaLogProcessor.Arn
              - Effect: Allow
                Action: s3:GetObject
                Resource: "arn:aws:s3:::{}/runtimes/*"
              - Effect: Allow
                Action:
                  - lambda:InvokeFunction
                  - lambda:UpdateFunctionCode
                Resource:
                  - !GetAtt LambdaBenchmarkRustARM64128.Arn
                  - !GetAtt LambdaBenchmarkRustARM641024.Arn
                  - !GetAtt LambdaBenchmarkRustX8664128.Arn
                  - !GetAtt LambdaBenchmarkRustX86641024.Arn
                  - !GetAtt LambdaBenchmarkNode.js 18ARM64128.Arn
                  - !GetAtt LambdaBenchmarkNode.js 18ARM641024.Arn

  LogsStateMachine:
    Type: AWS::Logs::LogGroup
    Properties:
      LogGroupName: /aws/vendedlogs/states/lambda-benchmark
      RetentionInDays: 7
"####;

const MATRIX_DEBUG: &str = r####"---
AWSTemplateFormatVersion: "2010-09-09"
Transform: AWS::Serverless-2016-10-31
Description: "Lambda Benchmark"

Resources:
  RoleBacking:
    Type: AWS::IAM::Role
    Properties:
      RoleName: !Sub "iam-${AWS::Region}-lambda-benchmark-backing-role"
      AssumeRolePolicyDocument:
        Version: 2012-10-17
        Statement:
          - Effect: Allow
            Principal:
              Service:
                - lambda.amazonaws.com
            Action:
              - sts:AssumeRole
      Path: /
      ManagedPolicyArns:
        - arn:aws:iam::aws:policy/service-role/AWSLambdaBasicExecutionRole
      Policies:
        - PolicyName: !Sub "iam-${AWS::Region}-lambda-benchmark-backing-policy"
          PolicyDocument:
            Version: 2012-10-17
            Statement:
              - Effect: Allow
                Action:
                  - s3:PutObject
                Resource: "arn:aws:s3:::bkt/metrics/*"
              - Effect: Allow
                Action:
                  - logs:FilterLogEvents
                Resource: "*"

  RoleRuntime:
    Type: AWS::IAM::Role
    Properties:
      RoleName: !Sub "iam-${AWS::Region}-lambda-benchmark-runtime-role"
      AssumeRolePolicyDocument:
        Version: 2012-10-17
        Statement:
          - Effect: Allow
            Principal:
              Service:
                - lambda.amazonaws.com
            Action:
              - sts:AssumeRole
      ManagedPolicyArns:
        - arn:aws:iam::aws:policy/service-role/AWSLambdaBasicExecutionRole
      Policies:
        - PolicyName: !Sub "iam-${AWS::Region}-lambda-benchmark-runtime-policy"
          PolicyDocument:
            Version: 2012-10-17
            Statement:
              - Effect: Allow
                Action:
                  - s3:PutObject
                  - s3:DeleteObject
                Resource: "arn:aws:s3:::bkt/test/*"
      Path: /

  LambdaLogProcessor:
    Type: AWS::Serverless::Function
    Properties:
      FunctionName: "benchmark-log-processor"
      Description: "Lambda Benchmark | Log Processor"
      Runtime: "provided.al2"
      Architectures: ["arm64"]
      Handler: "bootstrap"
      Role: !GetAtt RoleBacking.Arn
      MemorySize: 128
      Timeout: 60
      CodeUri:
        Bucket: "bkt"
        Key: "backing/log-processor.zip"
      Environment:
        Variables:
          BUCKET_NAME: "bkt"

  LogsLogProcessor:
    Type: AWS::Logs::LogGroup
    Properties:
      LogGroupName: "/aws/lambda/benchmark-log-processor"
      RetentionInDays: 7

  LambdaBenchmarkRustARM64128:
    Type: AWS::Serverless::Function
    Properties:
      FunctionName: "benchmark-rust-arm64-128"
      Description: "Lambda Benchmark | Rust | arm64 | 128"
      Runtime: "provided.al2"
      Architectures: ["arm64"]
      Handler: "bootstrap"
      Role: !GetAtt RoleRuntime.Arn
      MemorySize: 128
      Timeout: 900
      CodeUri:
        Bucket: "bkt"
        Key: "runtimes/code_rust_arm64.zip"
      Environment:
          Variables:
            BUCKET_NAME: "bkt"

  LogsLambdaBenchmarkRustARM64128:
    Type: AWS::Logs::LogGroup
    Properties:
      LogGroupName: "/aws/lambda/benchmark-rust-arm64-128"
      RetentionInDays: 7

  LambdaBenchmarkRustX8664128:
    Type: AWS::Serverless::Function
    Properties:
      FunctionName: "benchmark-rust-x86-64-128"
      Description: "Lambda Benchmark | Rust | x86_64 | 128"
      Runtime: "provided.al2"
      Architectures: ["x86_64"]
      Handler: "bootstrap"
      Role: !GetAtt RoleRuntime.Arn
      MemorySize: 128
      Timeout: 900
      CodeUri:
        Bucket: "bkt"
        Key: "runtimes/code_rust_x86_64.zip"
      Environment:
          Variables:
            BUCKET_NAME: "bkt"

  LogsLambdaBenchmarkRustX8664128:
    Type: AWS::Logs::LogGroup
    Properties:
      LogGroupName: "/aws/lambda/benchmark-rust-x86-64-128"
      RetentionInDays: 7

  LambdaBenchmarkNode.js 18ARM64128:
    Type: AWS::Serverless::Function
    Properties:
      FunctionName: "benchmark-nodejs_18-arm64-128"
      Description: "Lambda Benchmark | Node.js 18 | arm64 | 128"
      Runtime: "nodejs18.x"
      Architectures: ["arm64"]
      Handler: "index.handler"
      Role: !GetAtt RoleRuntime.Arn
      MemorySize: 128
      Timeout: 900
      CodeUri:
        Bucket: "bkt"
        Key: "runtimes/code_nodejs_18_arm64.zip"
      Environment:
          Variables:
            BUCKET_NAME: "bkt"

  LogsLambdaBenchmarkNode.js 18ARM64128:
    Type: AWS::Logs::LogGroup
    Properties:
      LogGroupName: "/aws/lambda/benchmark-nodejs_18-arm64-128"
      RetentionInDays: 7

  LambdaBenchmarkRustARM641024:
    Type: AWS::Serverless::Function
    Properties:
      FunctionName: "benchmark-rust-arm64-1024"
      Description: "Lambda Benchmark | Rust | arm64 | 1024"
      Runtime: "provided.al2"
      Architectures: ["arm64"]
      Handler: "bootstrap"
      Role: !GetAtt RoleRuntime.Arn
      MemorySize: 1024
      Timeout: 900
      CodeUri:
        Bucket: "bkt"
        Key: "runtimes/code_rust_arm64.zip"
      Environment:
          Variables:
            BUCKET_NAME: "bkt"

  LogsLambdaBenchmarkRustARM641024:
    Type: AWS::Logs::LogGroup
    Properties:
      LogGroupName: "/aws/lambda/benchmark-rust-arm64-1024"
      RetentionInDays: 7

  LambdaBenchmarkRustX86641024:
    Type: AWS::Serverless::Function
    Properties:
      FunctionName: "benchmark-rust-x86-64-1024"
      Description: "Lambda Benchmark | Rust | x86_64 | 1024"
      Runtime: "provided.al2"
      Architectures: ["x86_64"]
      Handler: "bootstrap"
      Role: !GetAtt RoleRuntime.Arn
      MemorySize: 1024
      Timeout: 900
      CodeUri:
        Bucket: "bkt"
        Key: "runtimes/code_rust_x86_64.zip"
      Environment:
          Variables:
            BUCKET_NAME: "bkt"

  LogsLambdaBenchmarkRustX86641024:
    Type: AWS::Logs::LogGroup
    Properties:
      LogGroupName: "/aws/lambda/benchmark-rust-x86-64-1024"
      RetentionInDays: 7

  LambdaBenchmarkNode.js 18ARM641024:
    Type: AWS::Serverless::Function
    Properties:
      FunctionName: "benchmark-nodejs_18-arm64-1024"
      Description: "Lambda Benchmark | Node.js 18 | arm64 | 1024"
      Runtime: "nodejs18.x"
      Architectures: ["arm64"]
      Handler: "index.handler"
      Role: !GetAtt RoleRuntime.Arn
      MemorySize: 1024
      Timeout: 900
      CodeUri:
        Bucket: "bkt"
        Key: "runtimes/code_nodejs_18_arm64.zip"
      Environment:
          Variables:
            BUCKET_NAME: "bkt"

  LogsLambdaBenchmarkNode.js 18ARM641024:
    Type: AWS::Logs::LogGroup
    Properties:
      LogGroupName: "/aws/lambda/benchmark-nodejs_18-arm64-1024"
      RetentionInDays: 7

  StateMachineBenchmarkRunnerExpress:
    Type: AWS::StepFunctions::StateMachine
    Properties:
      StateMachineName: !Sub "stm-lambda-benchmark-express"
      StateMachineType: EXPRESS
      TracingConfiguration:
        Enabled: false
      LoggingConfiguration:
        Level: ERROR
        Destinations:
          - CloudWatchLogsLogGroup:
              LogGroupArn: !GetAtt LogsStateMachine.Arn
      RoleArn: !GetAtt StepFunctionRole.Arn
      Definition:
        Comment: Lambda Benchmark Runner
        StartAt: Iterations
        States:
          Iterations:
            Type: Pass
            Next: Parallel
            Parameters:
              iterations.$: States.ArrayRange(1, $.iterations, 1)
          Parallel:
            Type: Parallel
            End: true
            ResultSelector:
              runs.$: $.[*][*][*][*]
            OutputPath: $.runs
            Branches:
              - StartAt: rust-para
                States:
                  rust-para:
                    Type: Parallel
                    End: true
                    Branches:
                      - StartAt: rust-arm64-para
                        States:
                          rust-arm64-para:
                            Type: Parallel
                            End: true
                            Branches:
                              - StartAt: rust-arm64-128-iter
                                States:
                                  rust-arm64-128-iter:
                                    Type: Map
                                    End: true
                                    ItemsPath: $.iterations
                                    MaxConcurrency: 1
                                    ItemProcessor:
                                      ProcessorConfig:
                                        Mode: INLINE
                                      StartAt: rust-arm64-128-cold-start
                                      States:
                                        rust-arm64-128-cold-start:
                                          Type: Task
                                          Next: rust-arm64-128-runtime
                                          Resource: arn:aws:states:::aws-sdk:lambda:updateFunctionCode
                                          Parameters:
                                            FunctionName: !GetAtt LambdaBenchmarkRustARM64128.Arn
                                            S3Bucket: bkt
                                            S3Key: runtimes/code_rust_arm64.zip
                                          OutputPath: $.Payload
                                        rust-arm64-128-runtime:
                                          Type: Task
                                          Next: rust-arm64-128-wait
                                          Resource: arn:aws:states:::lambda:invoke
                                          Parameters:
                                            FunctionName: !GetAtt LambdaBenchmarkRustARM64128.Arn
                                          OutputPath: $.Payload
                                        rust-arm64-128-wait:
                                          Type: Wait
                                          Next: rust-arm64-128-log-extractor
                                          Seconds: 5
                                        rust-arm64-128-log-extractor:
                                          Type: Task
                                          Next: rust-arm64-128-log-processor
                                          Resource: arn:aws:states:::aws-sdk:cloudwatchlogs:getLogEvents
                                          Parameters:
                                            LogGroupName: /aws/lambda/benchmark-rust-arm64-128
                                            LogStreamName.$: $
                                            StartFromHead: false
                                            Limit: 1
                                          ResultSelector:
                                            log: $.Events[0].Message
                                        rust-arm64-128-log-processor:
                                          Type: Task
                                          End: true
                                          Resource: arn:aws:states:::lambda:invoke
                                          Parameters:
                                            FunctionName: !GetAtt LambdaLogProcessor.Arn
                                            Payload.$: $
                                          OutputPath: $.Payload

  StepFunctionRole:
    Type: AWS::IAM::Role
    Properties:
      RoleName: !Sub "iam-${AWS::Region}-lambda-benchmark-step-functions-role"
      AssumeRolePolicyDocument:
        Version: 2012-10-17
        Statement:
          - Effect: Allow
            Principal:
              Service: !Sub "states.${AWS::Region}.amazonaws.com"
            Action: sts:AssumeRole
      Policies:
        - PolicyName: logs
          PolicyDocument:
            Statement:
              - Effect: Allow
                Action:
                  - logs:CreateLogDelivery
                  - logs:GetLogDelivery
                  - logs:UpdateLogDelivery
                  - logs:DeleteLogDelivery
                  - logs:ListLogDeliveries
                  - logs:PutResourcePolicy
                  - logs:DescribeResourcePolicies
                  - logs:DescribeLogGroups
                  - logs:GetLogEvents
                Resource: "*"
        - PolicyName: stateMachine
          PolicyDocument:
            Statement:
              - Effect: Allow
                Action:
                  - states:StartExecution
                  - events:PutTargets
                  - events:PutRule
                  - events:DescribeRule
                Resource:
                  - !Sub "arn:aws:states:${AWS::Region}:${AWS::AccountId}:stateMachine:ste-lambda-benchmark"
        - PolicyName: lambda
          PolicyDocument:
            Statement:
              - Effect: Allow
                Action: lambda:InvokeFunction
                Resource:
                  - !GetAtt LambdaLogProcessor.Arn
              - Effect: Allow
                Action: s3:GetObject
                Resource: "arn:aws:s3:::{}/runtimes/*"
              - Effect: Allow
                Action:
                  - lambda:InvokeFunction
                  - lambda:UpdateFunctionCode
                Resource:
                  - !GetAtt LambdaBenchmarkRustARM64128.Arn
                  - !GetAtt LambdaBenchmarkRustARM641024.Arn
                  - !GetAtt LambdaBenchmarkRustX8664128.Arn
                  - !GetAtt LambdaBenchmarkRustX86641024.Arn
                  - !GetAtt LambdaBenchmarkNode.js 18ARM64128.Arn
                  - !GetAtt LambdaBenchmarkNode.js 18ARM641024.Arn

  LogsStateMachine:
    Type: AWS::Logs::LogGroup
    Properties:
      LogGroupName: /aws/vendedlogs/states/lambda-benchmark
      RetentionInDays: 7
"####;
