use cctray_proxy::json::Json;
use cctray_proxy::pipeline::fetcher::request_url;
use cctray_proxy::pipeline::model::Pipeline;
use cctray_proxy::proxy::{merge_fetched, projects_feed};
use cctray_proxy::text::{decimal_string, str_eq};

fn run(repo: &str, number: u64) -> Pipeline {
    Pipeline::new(
        Json::parse(&format!(
            r#"{{"repository": {{"name": "{}", "full_name": "team/{}"}}, "build_number": {},
                "state": {{"name": "IN_PROGRESS"}}, "creator": {{"display_name": "Grace"}},
                "target": {{"ref_type": "branch", "ref_name": "main", "selector": {{"type": "branches"}}}},
                "created_on": "2024-01-02T03:04:05Z", "duration_in_seconds": 61}}"#,
            repo, repo, number
        ))
        .unwrap(),
    )
}

#[test]
fn decimal_string_renders_like_display() {
    for n in [0u64, 7, 10, 60, 19442, u64::MAX] {
        assert_eq!(decimal_string(n), n.to_string());
    }
}

#[test]
fn str_eq_compares_text() {
    assert!(str_eq("main", "main"));
    assert!(!str_eq("main", "Main"));
    assert!(!str_eq("main", "main "));
}

#[test]
fn request_url_asks_for_the_newest_hundred_runs() {
    assert_eq!(
        request_url("atlassian/adr-backup-monitoring"),
        "https://api.bitbucket.org/2.0/repositories/atlassian/adr-backup-monitoring/pipelines/?pagelen=100&&sort=-created_on"
    );
}

#[test]
fn feed_of_no_runs_is_empty() {
    assert_eq!(projects_feed(&Vec::new()), "<Projects></Projects>");
}

#[test]
fn feed_puts_one_entry_per_line() {
    let runs = vec![run("alpha", 1), run("beta", 2)];
    let expected = format!("<Projects>{}\n{}</Projects>", runs[0].to_xml(), runs[1].to_xml());
    assert_eq!(projects_feed(&runs), expected);
}

#[test]
fn entry_of_a_run_in_progress() {
    let entry = run("alpha", 12).to_xml();
    assert_eq!(
        entry,
        "<Project\n            lastBuildLabel=\"by:Grace, duration,1 min 1 sec\"\n            lastBuildTime=\"2024-01-02T03:04:05Z\"\n            name=\"[alpha] pipeline:main\"\n            webUrl=\"https://bitbucket.org/team/alpha/pipelines/results/12\"\n            activity=\"Building\"\n            lastBuildStatus=\"Building\"\n            />"
    );
}

#[test]
fn merge_fetched_skips_failed_fetches() {
    let merged = merge_fetched(vec![Some(vec![run("alpha", 1)]), None, Some(vec![run("beta", 2), run("gamma", 3)])]);
    let names: Vec<String> = merged.iter().map(|p| p.name()).collect();
    assert_eq!(names, vec!["[alpha] pipeline:main", "[beta] pipeline:main", "[gamma] pipeline:main"]);
    assert!(merge_fetched(vec![None, None]).is_empty());
}
