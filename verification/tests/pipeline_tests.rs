use cctray_proxy::json::Json;
use cctray_proxy::pipeline::model::Pipeline;
use cctray_proxy::pipeline::Pipeline as PlainPipeline;
use cctray_proxy::pipeline_loader;
use cctray_proxy::pipeline_parser;

/// A completed, successful run of the main branch pipeline of `atlassian/adr-backup-monitoring`.
fn main_pipeline_text() -> String {
    String::from(
        r#"{
            "type": "pipeline",
            "uuid": "{3c9b6a1e-0d8f-4a52-9a4e-2f1b7c5d8e90}",
            "repository": {
                "type": "repository",
                "name": "adr-backup-monitoring",
                "full_name": "atlassian/adr-backup-monitoring"
            },
            "state": {
                "name": "COMPLETED",
                "type": "pipeline_state_completed",
                "result": {"name": "SUCCESSFUL", "type": "pipeline_state_completed_successful"}
            },
            "build_number": 19442,
            "creator": {"type": "user", "display_name": "Ada Lovelace"},
            "target": {
                "type": "pipeline_ref_target",
                "ref_type": "branch",
                "ref_name": "main",
                "selector": {"type": "branches", "pattern": "main"}
            },
            "trigger": {"name": "PUSH", "type": "pipeline_trigger_push"},
            "created_on": "2024-03-01T10:00:00.000000+00:00",
            "completed_on": "2024-03-01T10:02:05.000000+00:00",
            "duration_in_seconds": 125,
            "build_seconds_used": 125
        }"#,
    )
}

fn target_text(i: u64) -> String {
    match i % 7 {
        0 => String::from(
            r#"{"type": "pipeline_ref_target", "ref_type": "branch", "ref_name": "main", "selector": {"type": "branches", "pattern": "main"}}"#,
        ),
        1 | 2 | 3 | 4 => format!(
            r#"{{"type": "pipeline_ref_target", "ref_type": "branch", "ref_name": "main", "selector": {{"type": "custom", "pattern": "deploy-{}"}}}}"#,
            i % 7
        ),
        _ => String::from(
            r#"{"type": "pipeline_pullrequest_target", "ref_type": "branch", "ref_name": "feature", "selector": {"type": "pull-requests", "pattern": "**"}}"#,
        ),
    }
}

/// A listing of 100 runs of one repository: runs of the main branch, of four custom pipelines,
/// and of pull requests, each created a second after the one before.
fn listing_text() -> String {
    let mut values = Vec::new();
    for i in 0..100u64 {
        values.push(format!(
            r#"{{"type": "pipeline", "build_number": {}, "repository": {{"name": "adr-backup-monitoring", "full_name": "atlassian/adr-backup-monitoring"}}, "state": {{"name": "COMPLETED", "result": {{"name": "SUCCESSFUL"}}}}, "creator": {{"display_name": "Ada Lovelace"}}, "target": {}, "created_on": "2024-03-01T10:{:02}:{:02}.000000+00:00", "duration_in_seconds": {}}}"#,
            19000 + i,
            target_text(i),
            i / 60,
            i % 60,
            60 + i
        ));
    }
    format!(r#"{{"page": 1, "pagelen": 100, "size": 100, "values": [{}]}}"#, values.join(","))
}

fn main_pipeline() -> Pipeline {
    Pipeline::new(Json::parse(&main_pipeline_text()).unwrap())
}

fn plain_main_pipeline() -> PlainPipeline {
    PlainPipeline::new(Json::parse(&main_pipeline_text()).unwrap())
}

#[test]
fn pipeline_parse_from() {
    let pipelines = PlainPipeline::from_listing(Json::parse(&listing_text()).unwrap()).unwrap();
    assert_eq!(100, pipelines.len());
}

#[test]
fn pipeline_pipeline_type() {
    let pipeline = plain_main_pipeline();
    assert_eq!(pipeline.pipeline_type(), "main");
}

#[test]
fn pipeline_name() {
    let pipeline = plain_main_pipeline();
    assert_eq!(pipeline.name(), "[adr-backup-monitoring] pipeline:main");
}

#[test]
fn pipeline_repo_name() {
    let pipeline = plain_main_pipeline();
    assert_eq!(pipeline.repo_name(), "adr-backup-monitoring");
}

#[test]
fn pipeline_status() {
    let pipeline = plain_main_pipeline();
    assert_eq!(pipeline.last_build_status(), "Building");
}

#[test]
fn pipeline_to_xml() {
    let pipeline = plain_main_pipeline();
    println!("{}", pipeline.to_xml());
}

#[test]
fn model_parse_from() {
    let pipelines = pipeline_parser::parse(&listing_text());
    assert_eq!(5, pipelines.len());
}

#[test]
fn model_pipeline_type() {
    let pipeline = main_pipeline();
    assert_eq!(pipeline.pipeline_type(), "main");
}

#[test]
fn model_name() {
    let pipeline = main_pipeline();
    assert_eq!(pipeline.name(), "[adr-backup-monitoring] pipeline:main");
}

#[test]
fn model_repo_name() {
    let pipeline = main_pipeline();
    assert_eq!(pipeline.repo_name(), "adr-backup-monitoring");
}

#[test]
fn model_status() {
    let pipeline = main_pipeline();
    assert_eq!(pipeline.last_build_status(), "Success");
}

#[test]
fn model_to_xml() {
    let pipeline = main_pipeline();
    println!("{}", pipeline.to_xml());
}

#[test]
fn supports() {
    let pipeline = main_pipeline();
    assert!(pipeline.supported())
}

#[test]
fn web_url() {
    let pipeline = main_pipeline();
    assert_eq!(
        pipeline.web_url(),
        "https://bitbucket.org/atlassian/adr-backup-monitoring/pipelines/results/19442"
    );
}

#[test]
fn pipeline_loader_parse_from() {
    let pipelines = pipeline_loader::parse(&listing_text());
    assert_eq!(5, pipelines.len());
    for pipeline in pipelines {
        println!("{:?}", pipeline.to_xml());
    }
}

#[test]
fn pipeline_parser_parse_from() {
    let pipelines = pipeline_parser::parse(&listing_text());
    assert_eq!(5, pipelines.len());
    for pipeline in pipelines {
        println!("{:?}", pipeline.to_xml());
    }
}

fn run_text(target: &str, state: &str, created_on: &str, build_number: u64) -> String {
    format!(
        r#"{{"repository": {{"name": "svc", "full_name": "team/svc"}}, "build_number": {}, "state": {},
            "creator": {{"display_name": "Grace"}}, "target": {}, "created_on": "{}", "duration_in_seconds": 3725}}"#,
        build_number, state, target, created_on
    )
}

const MAIN_TARGET: &str = r#"{"ref_type": "branch", "ref_name": "main", "selector": {"type": "branches"}}"#;
const CUSTOM_TARGET: &str = r#"{"ref_type": "branch", "ref_name": "main", "selector": {"type": "custom", "pattern": "nightly"}}"#;
const PR_TARGET: &str = r#"{"ref_type": "branch", "ref_name": "feature", "selector": {"type": "pull-requests"}}"#;
const DONE_OK: &str = r#"{"name": "COMPLETED", "result": {"name": "SUCCESSFUL"}}"#;
const DONE_FAILED: &str = r#"{"name": "COMPLETED", "result": {"name": "FAILED"}}"#;
const DONE_STOPPED: &str = r#"{"name": "COMPLETED", "result": {"name": "STOPPED"}}"#;
const RUNNING: &str = r#"{"name": "IN_PROGRESS"}"#;
const PENDING: &str = r#"{"name": "PENDING"}"#;

fn run(target: &str, state: &str) -> Pipeline {
    Pipeline::new(Json::parse(&run_text(target, state, "2024-01-02T03:04:05Z", 1)).unwrap())
}

fn plain_run(target: &str, state: &str) -> PlainPipeline {
    PlainPipeline::new(Json::parse(&run_text(target, state, "2024-01-02T03:04:05Z", 1)).unwrap())
}

fn listing(runs: &[String]) -> String {
    format!(r#"{{"values": [{}]}}"#, runs.join(","))
}

#[test]
fn kinds_of_runs() {
    assert_eq!(run(MAIN_TARGET, DONE_OK).pipeline_type(), "main");
    assert_eq!(run(CUSTOM_TARGET, DONE_OK).pipeline_type(), "custom");
    assert_eq!(run(PR_TARGET, DONE_OK).pipeline_type(), "unknown");
    assert!(run(CUSTOM_TARGET, DONE_OK).supported());
    assert!(!run(PR_TARGET, DONE_OK).supported());
}

#[test]
fn names_of_runs() {
    assert_eq!(run(MAIN_TARGET, DONE_OK).name(), "[svc] pipeline:main");
    assert_eq!(run(CUSTOM_TARGET, DONE_OK).name(), "[svc] pipeline:custom:nightly");
    assert_eq!(run(PR_TARGET, DONE_OK).name(), "[svc] pipeline:unknown");
    assert_eq!(plain_run(MAIN_TARGET, DONE_OK).name(), "[svc] pipeline:main");
    assert_eq!(plain_run(CUSTOM_TARGET, DONE_OK).name(), "[svc] custom pipeline:nightly");
    assert_eq!(plain_run(PR_TARGET, DONE_OK).name(), "unknown");
}

#[test]
fn missing_fields_read_as_unknown() {
    let p = Pipeline::new(Json::parse("{}").unwrap());
    assert_eq!(p.repo_name(), "unknown");
    assert_eq!(p.repo_full_name(), "unknown");
    assert_eq!(p.creator(), "unknown");
    assert_eq!(p.name(), "[unknown] pipeline:unknown");
    assert_eq!(p.activity(), "CheckingModifications");
    assert_eq!(p.last_build_status(), "unknown");
    assert!(!p.is_renderable());
    assert!(p.try_build_time().is_none());
}

#[test]
fn activity_and_status_of_runs() {
    let cases = [
        (DONE_OK, "Sleeping", "Success"),
        (DONE_FAILED, "Sleeping", "Failure"),
        (DONE_STOPPED, "Sleeping", "Unknown"),
        (RUNNING, "Building", "Building"),
        (PENDING, "CheckingModifications", "unknown"),
    ];
    for (state, activity, status) in cases {
        let p = run(MAIN_TARGET, state);
        assert_eq!(p.activity(), activity);
        assert_eq!(p.last_build_status(), status);
        assert_eq!(p.activity() == "Building", p.last_build_status() == "Building");
    }
}

#[test]
fn plain_status_follows_activity() {
    let cases = [
        (DONE_OK, "Sleeping", "Building"),
        (RUNNING, "Building", "Unknown"),
        (PENDING, "CheckingModifications", "unknown"),
    ];
    for (state, activity, status) in cases {
        let p = plain_run(MAIN_TARGET, state);
        assert_eq!(p.activity(), activity);
        assert_eq!(p.last_build_status(), status);
        assert_eq!(p.activity(), run(MAIN_TARGET, state).activity());
    }
    let running_ok = plain_run(MAIN_TARGET, r#"{"name": "IN_PROGRESS", "result": {"name": "SUCCESSFUL"}}"#);
    assert_eq!(running_ok.last_build_status(), "Success");
    let running_failed = plain_run(MAIN_TARGET, r#"{"name": "IN_PROGRESS", "result": {"name": "FAILED"}}"#);
    assert_eq!(running_failed.last_build_status(), "Failure");
}

#[test]
fn duration_label_and_time() {
    let p = run(MAIN_TARGET, DONE_OK);
    assert_eq!(p.duration(), "62 min 5 sec");
    assert_eq!(p.build_label(), "by:Grace, duration,62 min 5 sec");
    assert_eq!(p.build_time_in_string(), "2024-01-02T03:04:05Z");
    assert_eq!(p.build_number(), "1");
    let plain = plain_run(MAIN_TARGET, DONE_OK);
    assert_eq!(plain.last_build_label(), "by:Grace, duration,62 min 5 sec");
    assert_eq!(plain.last_build_time(), "2024-01-02T03:04:05Z");
    assert_eq!(plain.web_url(), "");
}

#[test]
fn build_time_is_read_with_chrono() {
    let p = run(MAIN_TARGET, DONE_OK);
    let t = p.build_time();
    assert_eq!((t.seconds, t.nanos), (1704164645, 0));
    let offset = Pipeline::new(Json::parse(&run_text(MAIN_TARGET, DONE_OK, "2024-01-02T05:04:05.25+02:00", 1)).unwrap());
    let t = offset.try_build_time().unwrap();
    assert_eq!((t.seconds, t.nanos), (1704164645, 250_000_000));
    let bad = Pipeline::new(Json::parse(&run_text(MAIN_TARGET, DONE_OK, "yesterday", 1)).unwrap());
    assert!(bad.try_build_time().is_none());
}

#[test]
fn plain_entry() {
    let p = plain_run(CUSTOM_TARGET, RUNNING);
    assert_eq!(
        p.to_xml(),
        "<Project\n            lastBuildLabel=\"by:Grace, duration,62 min 5 sec\"\n            lastBuildTime=\"2024-01-02T03:04:05Z\"\n            name=\"[svc] custom pipeline:nightly\"\n            webUrl=\"\"\n            activity=\"Building\"\n            lastBuildStatus=\"Unknown\"\n            />"
    );
}

#[test]
fn parse_keeps_the_latest_run_of_each_name() {
    let content = listing(&[
        run_text(MAIN_TARGET, DONE_OK, "2024-01-02T03:00:00Z", 10),
        run_text(MAIN_TARGET, DONE_OK, "2024-01-02T05:00:00Z", 11),
        run_text(MAIN_TARGET, DONE_OK, "2024-01-02T04:00:00Z", 12),
        run_text(CUSTOM_TARGET, DONE_OK, "2024-01-02T01:00:00Z", 20),
        run_text(PR_TARGET, DONE_OK, "2024-01-02T09:00:00Z", 30),
    ]);
    let mut kept: Vec<(String, String)> =
        pipeline_parser::parse(&content).iter().map(|p| (p.name(), p.build_number())).collect();
    kept.sort();
    assert_eq!(
        kept,
        vec![
            (String::from("[svc] pipeline:custom:nightly"), String::from("20")),
            (String::from("[svc] pipeline:main"), String::from("11")),
        ]
    );
}

#[test]
fn parse_takes_the_last_of_runs_created_together() {
    let content = listing(&[
        run_text(MAIN_TARGET, DONE_OK, "2024-01-02T05:00:00Z", 10),
        run_text(MAIN_TARGET, DONE_OK, "2024-01-02T07:00:00+02:00", 11),
        run_text(MAIN_TARGET, DONE_OK, "2024-01-02T04:00:00Z", 12),
    ]);
    let kept = pipeline_parser::parse(&content);
    assert_eq!(kept.len(), 1);
    assert_eq!(kept[0].build_number(), "11");
}

#[test]
fn loader_keeps_the_last_run_of_each_name() {
    let content = listing(&[
        run_text(MAIN_TARGET, DONE_OK, "2024-01-02T03:00:00Z", 10),
        run_text(MAIN_TARGET, DONE_OK, "2024-01-02T05:00:00Z", 11),
        run_text(MAIN_TARGET, DONE_OK, "2024-01-02T04:00:00Z", 12),
        run_text(PR_TARGET, DONE_OK, "2024-01-02T09:00:00Z", 30),
    ]);
    let kept = pipeline_loader::parse(&content);
    assert_eq!(kept.len(), 1);
    assert_eq!(kept[0].build_number(), "12");
}

#[test]
fn try_parse_refuses_what_parse_cannot_read() {
    let no_values = String::from(r#"{"page": 1}"#);
    let not_json = String::from("{");
    let bad_time = listing(&[run_text(MAIN_TARGET, DONE_OK, "soon", 1)]);
    let bad_time_unreported = listing(&[run_text(PR_TARGET, DONE_OK, "soon", 1)]);
    assert!(pipeline_parser::try_parse(&no_values).is_none());
    assert!(pipeline_parser::try_parse(&not_json).is_none());
    assert!(pipeline_parser::try_parse(&bad_time).is_none());
    assert_eq!(pipeline_parser::try_parse(&bad_time_unreported).unwrap().len(), 0);
    assert!(pipeline_loader::try_parse(&no_values).is_none());
    assert!(pipeline_loader::try_parse(&not_json).is_none());
    assert_eq!(pipeline_loader::try_parse(&bad_time).unwrap().len(), 1);
}

#[test]
fn listing_fixture_reports_five_names() {
    let mut names: Vec<String> = pipeline_parser::parse(&listing_text()).iter().map(|p| p.name()).collect();
    names.sort();
    assert_eq!(
        names,
        vec![
            "[adr-backup-monitoring] pipeline:custom:deploy-1",
            "[adr-backup-monitoring] pipeline:custom:deploy-2",
            "[adr-backup-monitoring] pipeline:custom:deploy-3",
            "[adr-backup-monitoring] pipeline:custom:deploy-4",
            "[adr-backup-monitoring] pipeline:main",
        ]
    );
    let mut numbers: Vec<String> = pipeline_parser::parse(&listing_text()).iter().map(|p| p.build_number()).collect();
    numbers.sort();
    assert_eq!(numbers, vec!["19093", "19094", "19095", "19098", "19099"]);
}

#[test]
fn from_listing_needs_values() {
    assert!(PlainPipeline::from_listing(Json::parse(r#"{"values": 3}"#).unwrap()).is_none());
    assert_eq!(PlainPipeline::from_listing(Json::parse(r#"{"values": []}"#).unwrap()).unwrap().len(), 0);
}

#[test]
fn loader_and_parser_agree_on_oldest_first_listings() {
    let mut runs = Vec::new();
    for i in 0..20u64 {
        let target = if i % 3 == 0 { MAIN_TARGET } else if i % 3 == 1 { CUSTOM_TARGET } else { PR_TARGET };
        runs.push(run_text(target, DONE_OK, &format!("2024-01-02T03:04:{:02}Z", i), i));
    }
    let content = listing(&runs);
    let mut latest: Vec<String> = pipeline_parser::parse(&content).iter().map(|p| p.build_number()).collect();
    let mut last: Vec<String> = pipeline_loader::parse(&content).iter().map(|p| p.build_number()).collect();
    latest.sort();
    last.sort();
    assert_eq!(latest, last);
    assert_eq!(latest, vec!["18", "19"]);
}

fn values_of(runs: &[String]) -> Vec<Json> {
    Json::parse(&listing(runs)).unwrap().into_member("values").unwrap().into_array().unwrap()
}

fn kept_numbers(kept: &[Pipeline]) -> Vec<String> {
    let mut numbers: Vec<String> = kept.iter().map(|p| p.build_number()).collect();
    numbers.sort();
    numbers
}

#[test]
fn latest_per_name_of_reads_parsed_values() {
    let runs = [
        run_text(MAIN_TARGET, DONE_OK, "2024-01-02T03:00:00Z", 10),
        run_text(MAIN_TARGET, DONE_OK, "2024-01-02T05:00:00Z", 11),
        run_text(CUSTOM_TARGET, DONE_OK, "2024-01-02T01:00:00Z", 20),
        run_text(MAIN_TARGET, DONE_OK, "2024-01-02T04:00:00Z", 12),
    ];
    assert_eq!(kept_numbers(&pipeline_parser::latest_per_name_of(values_of(&runs))), vec!["11", "20"]);
    assert_eq!(kept_numbers(&pipeline_loader::last_per_name_of(values_of(&runs))), vec!["12", "20"]);
}

#[test]
fn unsupported_value_changes_nothing() {
    let mut runs = vec![
        run_text(MAIN_TARGET, DONE_OK, "2024-01-02T03:00:00Z", 10),
        run_text(CUSTOM_TARGET, DONE_OK, "2024-01-02T05:00:00Z", 20),
        run_text(MAIN_TARGET, DONE_OK, "2024-01-02T04:00:00Z", 11),
    ];
    let before = kept_numbers(&pipeline_parser::parse(&listing(&runs)));
    let last_before = kept_numbers(&pipeline_loader::parse(&listing(&runs)));
    for pos in 0..=runs.len() {
        let mut with_extra = runs.clone();
        with_extra.insert(pos, run_text(PR_TARGET, DONE_OK, "2024-01-02T09:00:00Z", 99));
        assert_eq!(kept_numbers(&pipeline_parser::parse(&listing(&with_extra))), before);
        assert_eq!(kept_numbers(&pipeline_loader::parse(&listing(&with_extra))), last_before);
    }
    runs.reverse();
    assert_eq!(kept_numbers(&pipeline_parser::parse(&listing(&runs))), before);
}

#[test]
fn order_of_values_changes_nothing() {
    let runs = vec![
        run_text(MAIN_TARGET, DONE_OK, "2024-01-02T03:00:00Z", 10),
        run_text(CUSTOM_TARGET, DONE_OK, "2024-01-02T05:00:00Z", 20),
        run_text(MAIN_TARGET, DONE_OK, "2024-01-02T04:00:00Z", 11),
        run_text(CUSTOM_TARGET, DONE_OK, "2024-01-02T02:00:00Z", 21),
    ];
    let expected = kept_numbers(&pipeline_parser::parse(&listing(&runs)));
    assert_eq!(expected, vec!["11", "20"]);
    for shift in 0..runs.len() {
        let mut rotated = runs.clone();
        rotated.rotate_left(shift);
        assert_eq!(kept_numbers(&pipeline_parser::parse(&listing(&rotated))), expected);
        rotated.reverse();
        assert_eq!(kept_numbers(&pipeline_parser::parse(&listing(&rotated))), expected);
    }
}

#[test]
fn cloned_run_reports_the_same() {
    let p = main_pipeline();
    let q = p.clone();
    assert_eq!(q.name(), p.name());
    assert_eq!(q.to_xml(), p.to_xml());
    let doc = Json::parse(r#"{"a": [1, -2, 0.5, "x", null, true, {"b": []}]}"#).unwrap();
    assert_eq!(format!("{:?}", doc.clone()), format!("{:?}", doc));
}
