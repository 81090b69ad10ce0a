//! The fields of a Bitbucket pipeline document that the reports read, and the project entry
//! of the CCTray feed they are rendered into.
use vstd::prelude::*;
use crate::json::{
    has_value_by_one_key, has_value_by_two_keys, spec_as_str, spec_as_u64, spec_index, str_by_one_key,
    str_by_two_keys, str_or_unknown, string_value_by_two_keys, Json,
};
use crate::text::{decimal, decimal_string};

verus! {

/// The kind of pipeline a document describes.
#[derive(Debug, Clone, Copy, PartialEq, Eq, Structural)]
pub enum PipelineKind {
    /// A pipeline run on the `main` branch.
    Main,
    /// A custom pipeline, run by hand.
    Custom,
    /// Anything else.
    Unknown,
}

/// `data["target"]`.
pub open spec fn spec_target(data: Json) -> Json {
    spec_index(data, "target"@)
}

/// A target on the branch `main`, selected as a branch pipeline.
pub open spec fn is_main_target(target: Json) -> bool {
    &&& str_by_one_key(target, "ref_type"@) == Some("branch"@)
    &&& str_by_one_key(target, "ref_name"@) == Some("main"@)
    &&& str_by_two_keys(target, "selector"@, "type"@) == Some("branches"@)
}

/// A target selected as a custom pipeline.
pub open spec fn is_custom_target(target: Json) -> bool {
    str_by_two_keys(target, "selector"@, "type"@) == Some("custom"@)
}

/// The kind of the pipeline that `data` describes.
pub open spec fn spec_kind(data: Json) -> PipelineKind {
    if is_main_target(spec_target(data)) {
        PipelineKind::Main
    } else if is_custom_target(spec_target(data)) {
        PipelineKind::Custom
    } else {
        PipelineKind::Unknown
    }
}

/// The name of a kind: `"main"`, `"custom"` or `"unknown"`.
pub open spec fn kind_name(kind: PipelineKind) -> Seq<char> {
    match kind {
        PipelineKind::Main => "main"@,
        PipelineKind::Custom => "custom"@,
        PipelineKind::Unknown => "unknown"@,
    }
}

/// The pipeline type of `data`: `"main"`, `"custom"` or `"unknown"`.
pub open spec fn spec_pipeline_type(data: Json) -> Seq<char> {
    kind_name(spec_kind(data))
}

/// `repository.name`, or `"unknown"`.
pub open spec fn spec_repo_name(data: Json) -> Seq<char> {
    str_or_unknown(str_by_two_keys(data, "repository"@, "name"@))
}

/// `repository.full_name`, or `"unknown"`.
pub open spec fn spec_repo_full_name(data: Json) -> Seq<char> {
    str_or_unknown(str_by_two_keys(data, "repository"@, "full_name"@))
}

/// `creator.display_name`, or `"unknown"`.
pub open spec fn spec_creator(data: Json) -> Seq<char> {
    str_or_unknown(str_by_two_keys(data, "creator"@, "display_name"@))
}

/// `target.selector.pattern`, or `"unknown"`.
pub open spec fn spec_custom_pattern(data: Json) -> Seq<char> {
    str_or_unknown(str_by_two_keys(spec_target(data), "selector"@, "pattern"@))
}

/// `duration_in_seconds`, where it is a number that fits a `u64`.
pub open spec fn spec_duration_seconds(data: Json) -> Option<u64> {
    spec_as_u64(spec_index(data, "duration_in_seconds"@))
}

/// `build_number`, where it is a number that fits a `u64`.
pub open spec fn spec_build_number(data: Json) -> Option<u64> {
    spec_as_u64(spec_index(data, "build_number"@))
}

/// `created_on`, where it is a string.
pub open spec fn spec_created_on(data: Json) -> Option<Seq<char>> {
    spec_as_str(spec_index(data, "created_on"@))
}

/// `"<m> min <s> sec"` for a duration of `seconds`, with `seconds == 60 * m + s` and `s < 60`.
pub open spec fn duration_text(seconds: u64) -> Seq<char> {
    decimal((seconds / 60) as nat) + " min "@ + decimal((seconds % 60) as nat) + " sec"@
}

/// `"by:<creator>, duration,<duration>"`.
pub open spec fn build_label_text(data: Json) -> Seq<char> {
    "by:"@ + spec_creator(data) + ", duration,"@ + duration_text(spec_duration_seconds(data).unwrap())
}

/// The `<Project .../>` entry of a CCTray feed.
pub open spec fn project_xml(
    label: Seq<char>,
    time: Seq<char>,
    name: Seq<char>,
    url: Seq<char>,
    activity: Seq<char>,
    status: Seq<char>,
) -> Seq<char> {
    "<Project\n            lastBuildLabel=\""@ + label
        + "\"\n            lastBuildTime=\""@ + time
        + "\"\n            name=\""@ + name
        + "\"\n            webUrl=\""@ + url
        + "\"\n            activity=\""@ + activity
        + "\"\n            lastBuildStatus=\""@ + status
        + "\"\n            />"@
}

/// A duration of `minutes` whole minutes and `seconds` more, under a minute, reads as those
/// minutes and those seconds.
pub proof fn lemma_duration_reads_minutes_and_seconds(minutes: u64, seconds: u64)
    requires
        seconds < 60,
        minutes * 60 + seconds <= u64::MAX,
    ensures
        duration_text((minutes * 60 + seconds) as u64) == decimal(minutes as nat) + " min "@ + decimal(
            seconds as nat,
        ) + " sec"@,
{
    let total: int = minutes * 60 + seconds;
    vstd::arithmetic::div_mod::lemma_fundamental_div_mod_converse(total, 60, minutes as int, seconds as int);
}

/// A run is a main pipeline exactly when its target is the branch `main` selected as a branch
/// pipeline, a custom pipeline exactly when its target's selector is `custom`, and of no known kind
/// otherwise.
pub proof fn lemma_kind_follows_target(data: Json)
    ensures
        spec_kind(data) == PipelineKind::Main <==> {
            &&& str_by_one_key(spec_index(data, "target"@), "ref_type"@) == Some("branch"@)
            &&& str_by_one_key(spec_index(data, "target"@), "ref_name"@) == Some("main"@)
            &&& str_by_two_keys(spec_index(data, "target"@), "selector"@, "type"@) == Some("branches"@)
        },
        spec_kind(data) == PipelineKind::Custom <==> str_by_two_keys(
            spec_index(data, "target"@),
            "selector"@,
            "type"@,
        ) == Some("custom"@),
        spec_kind(data) == PipelineKind::Main ==> spec_pipeline_type(data) == "main"@,
        spec_kind(data) == PipelineKind::Custom ==> spec_pipeline_type(data) == "custom"@,
        spec_kind(data) == PipelineKind::Unknown ==> spec_pipeline_type(data) == "unknown"@,
{
    reveal_strlit("branches");
    reveal_strlit("custom");
    assert("branches"@.len() != "custom"@.len());
}

impl PipelineKind {
    /// The name of the kind.
    pub fn as_str(&self) -> (r: &'static str)
        ensures
            r@ == kind_name(*self),
    {
        match self {
            PipelineKind::Main => "main",
            PipelineKind::Custom => "custom",
            PipelineKind::Unknown => "unknown",
        }
    }
}

/// The kind of the pipeline that `data` describes.
pub fn kind_of(data: &Json) -> (r: PipelineKind)
    ensures
        r == spec_kind(*data),
{
    let target = data.index("target");
    if has_value_by_one_key(target, "ref_type", "branch")
        && has_value_by_one_key(target, "ref_name", "main")
        && has_value_by_two_keys(target, "selector", "type", "branches")
    {
        PipelineKind::Main
    } else if has_value_by_two_keys(target, "selector", "type", "custom") {
        PipelineKind::Custom
    } else {
        PipelineKind::Unknown
    }
}

/// `repository.name`, or `"unknown"`.
pub fn repo_name_of(data: &Json) -> (r: &str)
    ensures
        r@ == spec_repo_name(*data),
{
    string_value_by_two_keys(data, "repository", "name")
}

/// `repository.full_name`, or `"unknown"`.
pub fn repo_full_name_of(data: &Json) -> (r: &str)
    ensures
        r@ == spec_repo_full_name(*data),
{
    string_value_by_two_keys(data, "repository", "full_name")
}

/// `creator.display_name`, or `"unknown"`.
pub fn creator_of(data: &Json) -> (r: &str)
    ensures
        r@ == spec_creator(*data),
{
    string_value_by_two_keys(data, "creator", "display_name")
}

/// `target.selector.pattern`, or `"unknown"`.
pub fn custom_pattern_of(data: &Json) -> (r: &str)
    ensures
        r@ == spec_custom_pattern(*data),
{
    string_value_by_two_keys(data.index("target"), "selector", "pattern")
}

/// The duration of the run, in minutes and seconds.
pub fn duration_of(data: &Json) -> (r: String)
    requires
        spec_duration_seconds(*data) is Some,
    ensures
        r@ == duration_text(spec_duration_seconds(*data).unwrap()),
{
    let seconds = data.index("duration_in_seconds").as_u64().unwrap();
    let mut r = decimal_string(seconds / 60);
    r.append(" min ");
    r.append(decimal_string(seconds % 60).as_str());
    r.append(" sec");
    r
}

/// `"by:<creator>, duration,<duration>"`.
pub fn build_label_of(data: &Json) -> (r: String)
    requires
        spec_duration_seconds(*data) is Some,
    ensures
        r@ == build_label_text(*data),
{
    let mut r = String::from_str("by:");
    r.append(creator_of(data));
    r.append(", duration,");
    r.append(duration_of(data).as_str());
    r
}

/// `created_on`.
pub fn created_on_of(data: &Json) -> (r: &str)
    requires
        spec_created_on(*data) is Some,
    ensures
        r@ == spec_created_on(*data).unwrap(),
{
    data.index("created_on").as_str().unwrap()
}

/// `build_number`, in decimal.
pub fn build_number_of(data: &Json) -> (r: String)
    requires
        spec_build_number(*data) is Some,
    ensures
        r@ == decimal(spec_build_number(*data).unwrap() as nat),
{
    decimal_string(data.index("build_number").as_u64().unwrap())
}

/// The `<Project .../>` entry of a CCTray feed.
pub fn project_xml_of(
    label: &str,
    time: &str,
    name: &str,
    url: &str,
    activity: &str,
    status: &str,
) -> (r: String)
    ensures
        r@ == project_xml(label@, time@, name@, url@, activity@, status@),
{
    let mut r = String::from_str("<Project\n            lastBuildLabel=\"");
    r.append(label);
    r.append("\"\n            lastBuildTime=\"");
    r.append(time);
    r.append("\"\n            name=\"");
    r.append(name);
    r.append("\"\n            webUrl=\"");
    r.append(url);
    r.append("\"\n            activity=\"");
    r.append(activity);
    r.append("\"\n            lastBuildStatus=\"");
    r.append(status);
    r.append("\"\n            />");
    r
}

} // verus!
