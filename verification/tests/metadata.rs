use durable_workflows::metadata::{
    activity_field, backoff_field, parse_activity, parse_backoff, parse_flow, parse_schedule,
    parse_workflow, schedule_field, workflow_field, ActivityEntry, ActivityField, BackoffEntry,
    BackoffField, ScheduleEntry, ScheduleField, WorkflowEntry, WorkflowField,
};
use durable_workflows::naming::{is_lower_snake_case, pascal_case};
use durable_workflows::policy::BackoffPolicy;
use durable_workflows::schedule::registry::{MisfirePolicy, OverlapPolicy};
use durable_workflows::signature::{
    read_signature, FlowParameter, FlowSignature, ParameterType, TypePath,
};

#[test]
fn durable_kinds_are_lower_snake_case() {
    assert!(is_lower_snake_case("submit_fax_v2"));
    assert!(!is_lower_snake_case("SubmitFax"));
    assert!(!is_lower_snake_case("submit__fax"));
    assert!(!is_lower_snake_case("_submit_fax"));
}

#[test]
fn snake_case_has_no_empty_or_trailing_segment() {
    assert!(!is_lower_snake_case(""));
    assert!(!is_lower_snake_case("submit_fax_"));
    assert!(!is_lower_snake_case("café"));
    assert!(is_lower_snake_case("9fax"));
}

#[test]
fn pascal_case_converts_snake_case_function_names() {
    assert_eq!(pascal_case("lab_order_release_v2"), "LabOrderReleaseV2");
    assert_eq!(pascal_case("release_lab"), "ReleaseLab");
    assert_eq!(pascal_case("single"), "Single");
}

fn text(value: &str) -> Result<String, String> {
    Ok(value.to_string())
}

fn fax_topic() -> Result<Vec<String>, String> {
    Ok(vec!["Topics".to_string(), "Fax".to_string()])
}

fn activity_entries() -> Vec<ActivityEntry> {
    vec![
        ActivityEntry::Kind(text("submit_fax")),
        ActivityEntry::Version(Ok(1)),
        ActivityEntry::Topic(fax_topic()),
        ActivityEntry::MaxAttempts(Ok(3)),
        ActivityEntry::TimeoutSecs(Ok(30)),
        ActivityEntry::LeaseSecs(Ok(60)),
        ActivityEntry::Backoff(parse_backoff("fixed", vec![BackoffEntry::DelaySecs(Ok(5))])),
    ]
}

#[test]
fn invalid_exponential_backoff_is_rejected_during_expansion() {
    let backoff = parse_backoff(
        "exponential",
        vec![
            BackoffEntry::InitialSecs(Ok(30)),
            BackoffEntry::MaxSecs(Ok(5)),
            BackoffEntry::JitterPercent(Ok(20)),
        ],
    );
    let mut entries = activity_entries();
    entries.pop();
    entries.push(ActivityEntry::Backoff(backoff));
    let error = match parse_activity(vec![entries]) {
        Ok(_) => panic!("the maximum cannot precede the initial delay"),
        Err(error) => error,
    };
    assert!(error.contains("max_secs must be at least initial_secs"));
}

#[test]
fn duplicate_metadata_is_rejected_during_expansion() {
    let mut entries = activity_entries();
    entries.insert(1, ActivityEntry::Kind(text("another_fax")));
    let error = match parse_activity(vec![entries]) {
        Ok(_) => panic!("metadata may appear only once"),
        Err(error) => error,
    };
    assert!(error.contains("duplicate `kind` metadata"));
}

fn schedule_entries(misfire: &str, limit: Option<u32>) -> Vec<ScheduleEntry> {
    let mut entries = vec![
        ScheduleEntry::Key(text("daily")),
        ScheduleEntry::Version(Ok(1)),
        ScheduleEntry::Cron(text("0 0 8 * * *")),
        ScheduleEntry::Timezone(text("UTC")),
        ScheduleEntry::Misfire(text(misfire)),
    ];
    if let Some(limit) = limit {
        entries.push(ScheduleEntry::CatchUpLimit(Ok(limit)));
    }
    entries.push(ScheduleEntry::Overlap(text("Allow")));
    entries.push(ScheduleEntry::MisfireGraceSecs(Ok(60)));
    entries
}

#[test]
fn catch_up_requires_a_bounded_limit() {
    let error = match parse_schedule(vec![schedule_entries("CatchUp", Some(101))]) {
        Ok(_) => panic!("unbounded catch-up must fail expansion"),
        Err(error) => error,
    };
    assert!(error.contains("1 through 100"));
}

#[test]
fn schedules_are_read_from_their_attribute() {
    let metadata = parse_schedule(vec![schedule_entries("CatchUp", Some(100))]).expect("metadata");
    assert_eq!(metadata.key, "daily");
    assert_eq!(metadata.misfire, MisfirePolicy::CatchUp { max_occurrences: 100 });
    assert_eq!(metadata.overlap, OverlapPolicy::Allow);
    assert_eq!(metadata.misfire_grace_secs, 60);
    let skip = parse_schedule(vec![schedule_entries("Skip", None)]).expect("metadata");
    assert_eq!(skip.misfire, MisfirePolicy::Skip);
}

#[test]
fn schedules_refuse_unusable_policies() {
    let refuse = |entries| parse_schedule(vec![entries]).expect_err("refused");
    assert_eq!(
        refuse(schedule_entries("RunLatest", Some(3))),
        "catch_up_limit is only valid with CatchUp"
    );
    assert_eq!(
        refuse(schedule_entries("Later", None)),
        "misfire must be Skip, RunLatest, or CatchUp"
    );
    let mut entries = schedule_entries("Skip", None);
    entries[5] = ScheduleEntry::Overlap(text("Never"));
    assert_eq!(refuse(entries), "overlap must be Allow, SkipIfActive, or QueueOne");
    let mut entries = schedule_entries("Skip", None);
    entries[6] = ScheduleEntry::MisfireGraceSecs(Ok(0));
    assert_eq!(refuse(entries), "misfire_grace_secs must be greater than zero");
    let mut entries = schedule_entries("Skip", None);
    entries[1] = ScheduleEntry::Version(Ok(-1));
    assert_eq!(refuse(entries), "schedule version must be greater than zero");
    assert_eq!(
        parse_schedule(vec![]).expect_err("refused"),
        "missing `schedule` attribute"
    );
}

#[test]
fn activities_are_read_from_their_attribute() {
    let metadata = parse_activity(vec![activity_entries()]).expect("metadata");
    assert_eq!(metadata.kind, "submit_fax");
    assert_eq!(metadata.version, 1);
    assert_eq!(metadata.topic, vec!["Topics".to_string(), "Fax".to_string()]);
    assert_eq!(metadata.max_attempts, 3);
    assert_eq!(metadata.timeout_secs, 30);
    assert_eq!(metadata.lease_secs, 60);
    assert_eq!(metadata.backoff, BackoffPolicy::Fixed { delay_secs: 5 });
}

#[test]
fn activities_refuse_unusable_values() {
    let refuse = |at: usize, entry| {
        let mut entries = activity_entries();
        entries[at] = entry;
        parse_activity(vec![entries]).expect_err("refused")
    };
    assert_eq!(
        refuse(0, ActivityEntry::Kind(text("SubmitFax"))),
        "activity kind must be lower snake_case"
    );
    assert_eq!(
        refuse(1, ActivityEntry::Version(Ok(0))),
        "activity version must be greater than zero"
    );
    assert_eq!(
        refuse(2, ActivityEntry::Topic(Ok(vec!["Fax".to_string()]))),
        "activity topic must be a qualified enum variant such as Topics::ExternalApi"
    );
    assert_eq!(
        refuse(3, ActivityEntry::MaxAttempts(Ok(0))),
        "activity max_attempts must be greater than zero"
    );
    assert_eq!(
        refuse(4, ActivityEntry::TimeoutSecs(Ok(0))),
        "activity timeout_secs must be greater than zero"
    );
    assert_eq!(
        refuse(5, ActivityEntry::LeaseSecs(Ok(30))),
        "activity lease_secs must be greater than timeout_secs"
    );
    assert_eq!(
        refuse(6, ActivityEntry::Unsupported),
        "unsupported activity metadata"
    );
    assert_eq!(
        refuse(1, ActivityEntry::Version(Err("invalid digit".to_string()))),
        "invalid digit"
    );
    let mut entries = activity_entries();
    entries.pop();
    assert_eq!(
        parse_activity(vec![entries]).expect_err("refused"),
        "missing `backoff` metadata"
    );
    assert_eq!(
        parse_activity(vec![activity_entries(), activity_entries()]).expect_err("refused"),
        "duplicate `activity` attribute"
    );
}

#[test]
fn backoffs_are_read_from_their_fields() {
    let exponential = parse_backoff(
        "exponential",
        vec![
            BackoffEntry::InitialSecs(Ok(1)),
            BackoffEntry::MaxSecs(Ok(60)),
            BackoffEntry::JitterPercent(Ok(20)),
        ],
    );
    assert_eq!(
        exponential,
        Ok(BackoffPolicy::Exponential { initial_secs: 1, max_secs: 60, jitter_percent: 20 })
    );
    assert_eq!(
        parse_backoff("linear", vec![]).expect_err("refused"),
        "backoff must be fixed(...) or exponential(...)"
    );
    assert_eq!(
        parse_backoff(
            "fixed",
            vec![BackoffEntry::DelaySecs(Ok(1)), BackoffEntry::DelaySecs(Ok(2))]
        )
        .expect_err("refused"),
        "duplicate backoff metadata"
    );
    assert_eq!(
        parse_backoff("fixed", vec![]).expect_err("refused"),
        "fixed backoff needs delay_secs"
    );
    assert_eq!(
        parse_backoff("fixed", vec![BackoffEntry::DelaySecs(Ok(0))]).expect_err("refused"),
        "fixed backoff delay_secs must be greater than zero"
    );
}

#[test]
fn workflows_and_flows_differ_in_what_they_refuse() {
    let entries = |version| {
        vec![
            WorkflowEntry::Kind(text("greet")),
            WorkflowEntry::Version(Ok(version)),
        ]
    };
    let workflow = parse_workflow(vec![entries(1)]).expect("metadata");
    assert_eq!((workflow.kind.as_str(), workflow.version), ("greet", 1));
    assert_eq!(
        parse_workflow(vec![entries(0)]).expect_err("refused"),
        "workflow version must be greater than zero"
    );
    assert_eq!(
        parse_flow(entries(-2)).expect_err("refused"),
        "flow version must be greater than zero"
    );
    assert_eq!(parse_flow(entries(2)).expect("metadata").version, 2);
    let mut twice = entries(1);
    twice.push(WorkflowEntry::Version(Ok(1)));
    assert_eq!(parse_flow(twice).expect_err("refused"), "duplicate flow metadata");
    assert_eq!(parse_flow(vec![]).expect_err("refused"), "missing `kind` metadata");
    assert_eq!(
        parse_workflow(vec![vec![WorkflowEntry::Malformed("expected `=`".to_string())]])
            .expect_err("refused"),
        "expected `=`"
    );
}

fn path(segment: &str, arguments: &[&str]) -> TypePath {
    TypePath {
        last_segment: segment.to_string(),
        type_arguments: arguments.iter().map(|argument| argument.to_string()).collect(),
    }
}

fn context_parameter() -> FlowParameter {
    FlowParameter::Typed {
        name: Some("ctx".to_string()),
        ty: ParameterType::Reference { mutable: true, target: Some(path("WfCtx", &["App"])) },
    }
}

fn signature(parameters: Vec<FlowParameter>) -> FlowSignature {
    FlowSignature {
        name: "greet_flow".to_string(),
        is_async: true,
        is_generic: false,
        parameters,
        output: Some(path("Result", &["String", "WfError"])),
    }
}

#[test]
fn flows_are_read_from_their_signature() {
    let name = FlowParameter::Typed { name: Some("name".to_string()), ty: ParameterType::Other };
    let shape = read_signature(&signature(vec![context_parameter(), name])).expect("shape");
    assert_eq!(shape.struct_name, "GreetFlow");
    assert_eq!(shape.fields, vec!["name".to_string()]);
    assert_eq!(shape.context, "App");
    assert_eq!(shape.output, "String");
}

#[test]
fn flows_refuse_unusable_signatures() {
    let mut blocking = signature(vec![context_parameter()]);
    blocking.is_async = false;
    assert_eq!(
        read_signature(&blocking).expect_err("refused"),
        "a durable flow must be an `async fn`"
    );
    let mut generic = signature(vec![context_parameter()]);
    generic.is_generic = true;
    assert_eq!(
        read_signature(&generic).expect_err("refused"),
        "a durable flow cannot have generic parameters"
    );
    assert_eq!(
        read_signature(&signature(vec![])).expect_err("refused"),
        "a durable flow's first parameter must be `ctx: &mut WfCtx<'_, Context>`"
    );
    let pattern = FlowParameter::Typed { name: None, ty: ParameterType::Other };
    assert_eq!(
        read_signature(&signature(vec![context_parameter(), pattern])).expect_err("refused"),
        "flow parameters must be plain identifiers"
    );
    assert_eq!(
        read_signature(&signature(vec![context_parameter(), FlowParameter::Receiver]))
            .expect_err("refused"),
        "unsupported flow parameter"
    );
    let mut silent = signature(vec![context_parameter()]);
    silent.output = None;
    assert_eq!(
        read_signature(&silent).expect_err("refused"),
        "a durable flow must return `Result<Output, WfError>`"
    );
}

#[test]
fn fields_are_known_by_their_names() {
    assert_eq!(workflow_field("kind"), Some(WorkflowField::Kind));
    assert_eq!(workflow_field("topic"), None);
    assert_eq!(activity_field("topic"), Some(ActivityField::Topic));
    assert_eq!(activity_field("lease_secs"), Some(ActivityField::LeaseSecs));
    assert_eq!(activity_field("Kind"), None);
    assert_eq!(backoff_field("max_secs"), Some(BackoffField::MaxSecs));
    assert_eq!(backoff_field(""), None);
    assert_eq!(schedule_field("misfire_grace_secs"), Some(ScheduleField::MisfireGraceSecs));
    assert_eq!(schedule_field("kind"), None);
}
