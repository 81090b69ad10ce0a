//! A pipeline run in the detailed report, read from one entry of Bitbucket's pipeline listing.
use vstd::prelude::*;
use crate::json::{same_json, str_by_three_keys, str_by_two_keys, has_value_by_three_keys, has_value_by_two_keys, Json};
use crate::pipeline::fields::{
    build_label_of, build_label_text, build_number_of, created_on_of, creator_of, custom_pattern_of,
    duration_of, duration_text, kind_of, project_xml, project_xml_of, repo_full_name_of,
    repo_name_of, spec_build_number, spec_created_on, spec_creator, spec_custom_pattern,
    spec_duration_seconds, spec_kind, spec_pipeline_type, spec_repo_full_name, spec_repo_name,
    PipelineKind,
};
use crate::text::{decimal, str_eq};
use crate::time::{parse_rfc3339, rfc3339_instant, BuildTime};

verus! {

/// One pipeline run, held as the JSON document Bitbucket sent for it.
#[derive(Debug)]
pub struct Pipeline {
    pub(crate) data: Json,
}

impl Clone for Pipeline {
    /// A copy of the run: its document holds the same value.
    fn clone(&self) -> (r: Pipeline)
        ensures
            same_json(r@, self@),
    {
        Pipeline { data: self.data.clone() }
    }
}

impl View for Pipeline {
    type V = Json;

    /// The document the pipeline was read from.
    closed spec fn view(&self) -> Json {
        self.data
    }
}

/// The name under which a run is reported: `"[<repository>] pipeline:<kind>"`, where the kind of a
/// custom pipeline is followed by its pattern.
pub open spec fn spec_name(data: Json) -> Seq<char> {
    match spec_kind(data) {
        PipelineKind::Main => "["@ + spec_repo_name(data) + "] pipeline:main"@,
        PipelineKind::Custom => "["@ + spec_repo_name(data) + "] pipeline:custom:"@ + spec_custom_pattern(data),
        PipelineKind::Unknown => "["@ + spec_repo_name(data) + "] pipeline:unknown"@,
    }
}

/// `state.name` is `IN_PROGRESS`.
pub open spec fn spec_in_progress(data: Json) -> bool {
    str_by_two_keys(data, "state"@, "name"@) == Some("IN_PROGRESS"@)
}

/// `state.name` is `COMPLETED`.
pub open spec fn spec_completed(data: Json) -> bool {
    str_by_two_keys(data, "state"@, "name"@) == Some("COMPLETED"@)
}

/// `state.result.name` is `SUCCESSFUL`.
pub open spec fn spec_successful(data: Json) -> bool {
    str_by_three_keys(data, "state"@, "result"@, "name"@) == Some("SUCCESSFUL"@)
}

/// `state.result.name` is `FAILED`.
pub open spec fn spec_failed(data: Json) -> bool {
    str_by_three_keys(data, "state"@, "result"@, "name"@) == Some("FAILED"@)
}

/// The CCTray activity: `Building` while the run is in progress, `Sleeping` once it completed,
/// `CheckingModifications` otherwise.
pub open spec fn spec_activity(data: Json) -> Seq<char> {
    if spec_in_progress(data) {
        "Building"@
    } else if spec_completed(data) {
        "Sleeping"@
    } else {
        "CheckingModifications"@
    }
}

/// The CCTray status: the result of a completed run (`Success`, `Failure` or `Unknown`),
/// `Building` while it is in progress, `unknown` otherwise.
pub open spec fn spec_last_build_status(data: Json) -> Seq<char> {
    if spec_completed(data) {
        if spec_successful(data) {
            "Success"@
        } else if spec_failed(data) {
            "Failure"@
        } else {
            "Unknown"@
        }
    } else if spec_in_progress(data) {
        "Building"@
    } else {
        "unknown"@
    }
}

/// The page of the run on bitbucket.org.
pub open spec fn spec_web_url(data: Json) -> Seq<char> {
    "https://bitbucket.org/"@ + spec_repo_full_name(data) + "/pipelines/results/"@
        + decimal(spec_build_number(data).unwrap() as nat)
}

/// The document holds what a feed entry needs: a duration, a creation time and a build number.
pub open spec fn renderable(data: Json) -> bool {
    &&& spec_duration_seconds(data) is Some
    &&& spec_created_on(data) is Some
    &&& spec_build_number(data) is Some
}

/// The `<Project .../>` entry of the run in a CCTray feed.
pub open spec fn spec_to_xml(data: Json) -> Seq<char> {
    project_xml(
        build_label_text(data),
        spec_created_on(data).unwrap(),
        spec_name(data),
        spec_web_url(data),
        spec_activity(data),
        spec_last_build_status(data),
    )
}

/// `created_on` is RFC 3339 text that chrono reads.
pub open spec fn has_build_time(data: Json) -> bool {
    &&& spec_created_on(data) is Some
    &&& rfc3339_instant(spec_created_on(data).unwrap()) is Some
}

/// The instant read from `created_on`.
pub open spec fn spec_build_time(data: Json) -> BuildTime {
    rfc3339_instant(spec_created_on(data).unwrap()).unwrap()
}

/// The activity and the status of a run agree: `Building` in both or in neither; the activity is
/// `Sleeping` exactly when the status is a result (`Success`, `Failure` or `Unknown`), and
/// `CheckingModifications` exactly when the status is `unknown`.
pub proof fn lemma_activity_agrees_with_status(p: Pipeline)
    ensures
        spec_activity(p@) == "Building"@ <==> spec_last_build_status(p@) == "Building"@,
        spec_activity(p@) == "Sleeping"@ <==> (spec_last_build_status(p@) == "Success"@
            || spec_last_build_status(p@) == "Failure"@ || spec_last_build_status(p@) == "Unknown"@),
        spec_activity(p@) == "CheckingModifications"@ <==> spec_last_build_status(p@) == "unknown"@,
{
    reveal_strlit("IN_PROGRESS");
    reveal_strlit("COMPLETED");
    reveal_strlit("Building");
    reveal_strlit("Sleeping");
    reveal_strlit("CheckingModifications");
    reveal_strlit("Success");
    reveal_strlit("Failure");
    reveal_strlit("Unknown");
    reveal_strlit("unknown");
    assert("IN_PROGRESS"@.len() != "COMPLETED"@.len());
    assert("Building"@[0] != "Sleeping"@[0]);
    assert("Building"@.len() != "CheckingModifications"@.len());
    assert("Sleeping"@.len() != "CheckingModifications"@.len());
    assert("Building"@.len() != "Success"@.len());
    assert("Building"@.len() != "Failure"@.len());
    assert("Building"@.len() != "Unknown"@.len());
    assert("Building"@.len() != "unknown"@.len());
    assert("unknown"@[0] != "Success"@[0]);
    assert("unknown"@[0] != "Failure"@[0]);
    assert("unknown"@[0] != "Unknown"@[0]);
}

/// The status a run reports follows its state and result: `Success` exactly when it completed
/// with the result `SUCCESSFUL`, `Failure` exactly when it completed with the result `FAILED`,
/// `Unknown` when it completed with any other result or none, `Building` while it is in progress,
/// and `unknown` in any other state.
pub proof fn lemma_status_follows_state(data: Json)
    ensures
        spec_last_build_status(data) == "Success"@ <==> (str_by_two_keys(data, "state"@, "name"@)
            == Some("COMPLETED"@) && str_by_three_keys(data, "state"@, "result"@, "name"@) == Some(
            "SUCCESSFUL"@,
        )),
        spec_last_build_status(data) == "Failure"@ <==> (str_by_two_keys(data, "state"@, "name"@)
            == Some("COMPLETED"@) && str_by_three_keys(data, "state"@, "result"@, "name"@) == Some(
            "FAILED"@,
        )),
        str_by_two_keys(data, "state"@, "name"@) == Some("COMPLETED"@) && str_by_three_keys(
            data,
            "state"@,
            "result"@,
            "name"@,
        ) != Some("SUCCESSFUL"@) && str_by_three_keys(data, "state"@, "result"@, "name"@) != Some(
            "FAILED"@,
        ) ==> spec_last_build_status(data) == "Unknown"@,
        str_by_two_keys(data, "state"@, "name"@) == Some("IN_PROGRESS"@) ==> spec_last_build_status(
            data,
        ) == "Building"@,
        str_by_two_keys(data, "state"@, "name"@) != Some("COMPLETED"@) && str_by_two_keys(
            data,
            "state"@,
            "name"@,
        ) != Some("IN_PROGRESS"@) ==> spec_last_build_status(data) == "unknown"@,
{
    reveal_strlit("IN_PROGRESS");
    reveal_strlit("COMPLETED");
    reveal_strlit("SUCCESSFUL");
    reveal_strlit("FAILED");
    reveal_strlit("Building");
    reveal_strlit("Success");
    reveal_strlit("Failure");
    reveal_strlit("Unknown");
    reveal_strlit("unknown");
    assert("IN_PROGRESS"@.len() != "COMPLETED"@.len());
    assert("SUCCESSFUL"@.len() != "FAILED"@.len());
    assert("Success"@[0] != "Failure"@[0]);
    assert("Success"@[0] != "Unknown"@[0]);
    assert("Success"@[0] != "unknown"@[0]);
    assert("Success"@.len() != "Building"@.len());
    assert("Failure"@[0] != "Unknown"@[0]);
    assert("Failure"@[0] != "unknown"@[0]);
    assert("Failure"@.len() != "Building"@.len());
}

/// The activity a run reports follows its state: `Building` while it is in progress, `Sleeping`
/// once it completed, `CheckingModifications` in any other state.
pub proof fn lemma_activity_follows_state(data: Json)
    ensures
        str_by_two_keys(data, "state"@, "name"@) == Some("IN_PROGRESS"@) ==> spec_activity(data)
            == "Building"@,
        str_by_two_keys(data, "state"@, "name"@) == Some("COMPLETED"@) ==> spec_activity(data)
            == "Sleeping"@,
        str_by_two_keys(data, "state"@, "name"@) != Some("COMPLETED"@) && str_by_two_keys(
            data,
            "state"@,
            "name"@,
        ) != Some("IN_PROGRESS"@) ==> spec_activity(data) == "CheckingModifications"@,
{
    reveal_strlit("IN_PROGRESS");
    reveal_strlit("COMPLETED");
    assert("IN_PROGRESS"@.len() != "COMPLETED"@.len());
}

/// The entry of a run carries its label, its creation time, its name and its page, then the
/// activity and the status its state and result give: `Sleeping` and `Success`, `Failure` or
/// `Unknown` once it completed, `Building` and `Building` while in progress, and
/// `CheckingModifications` and `unknown` otherwise.
pub proof fn lemma_entry_reports_state(data: Json)
    ensures
        str_by_two_keys(data, "state"@, "name"@) == Some("COMPLETED"@) && str_by_three_keys(
            data,
            "state"@,
            "result"@,
            "name"@,
        ) == Some("SUCCESSFUL"@) ==> spec_to_xml(data) == project_xml(
            build_label_text(data),
            spec_created_on(data).unwrap(),
            spec_name(data),
            spec_web_url(data),
            "Sleeping"@,
            "Success"@,
        ),
        str_by_two_keys(data, "state"@, "name"@) == Some("COMPLETED"@) && str_by_three_keys(
            data,
            "state"@,
            "result"@,
            "name"@,
        ) == Some("FAILED"@) ==> spec_to_xml(data) == project_xml(
            build_label_text(data),
            spec_created_on(data).unwrap(),
            spec_name(data),
            spec_web_url(data),
            "Sleeping"@,
            "Failure"@,
        ),
        str_by_two_keys(data, "state"@, "name"@) == Some("COMPLETED"@) && str_by_three_keys(
            data,
            "state"@,
            "result"@,
            "name"@,
        ) != Some("SUCCESSFUL"@) && str_by_three_keys(data, "state"@, "result"@, "name"@) != Some(
            "FAILED"@,
        ) ==> spec_to_xml(data) == project_xml(
            build_label_text(data),
            spec_created_on(data).unwrap(),
            spec_name(data),
            spec_web_url(data),
            "Sleeping"@,
            "Unknown"@,
        ),
        str_by_two_keys(data, "state"@, "name"@) == Some("IN_PROGRESS"@) ==> spec_to_xml(data)
            == project_xml(
            build_label_text(data),
            spec_created_on(data).unwrap(),
            spec_name(data),
            spec_web_url(data),
            "Building"@,
            "Building"@,
        ),
        str_by_two_keys(data, "state"@, "name"@) != Some("COMPLETED"@) && str_by_two_keys(
            data,
            "state"@,
            "name"@,
        ) != Some("IN_PROGRESS"@) ==> spec_to_xml(data) == project_xml(
            build_label_text(data),
            spec_created_on(data).unwrap(),
            spec_name(data),
            spec_web_url(data),
            "CheckingModifications"@,
            "unknown"@,
        ),
{
    lemma_status_follows_state(data);
    lemma_activity_follows_state(data);
}

impl Pipeline {
    /// The pipeline run that `data` describes.
    pub fn new(data: Json) -> (p: Pipeline)
        ensures
            p@ == data,
    {
        Pipeline { data }
    }

    /// `"main"`, `"custom"` or `"unknown"`.
    pub fn pipeline_type(&self) -> (r: &str)
        ensures
            r@ == spec_pipeline_type(self@),
    {
        kind_of(&self.data).as_str()
    }

    /// `repository.name`, or `"unknown"`.
    pub fn repo_name(&self) -> (r: &str)
        ensures
            r@ == spec_repo_name(self@),
    {
        repo_name_of(&self.data)
    }

    /// `repository.full_name`, or `"unknown"`.
    pub fn repo_full_name(&self) -> (r: &str)
        ensures
            r@ == spec_repo_full_name(self@),
    {
        repo_full_name_of(&self.data)
    }

    /// `build_number`, in decimal.
    pub fn build_number(&self) -> (r: String)
        requires
            spec_build_number(self@) is Some,
        ensures
            r@ == decimal(spec_build_number(self@).unwrap() as nat),
    {
        build_number_of(&self.data)
    }

    /// The name under which the run is reported.
    pub fn name(&self) -> (r: String)
        ensures
            r@ == spec_name(self@),
    {
        let mut r = String::from_str("[");
        r.append(self.repo_name());
        match kind_of(&self.data) {
            PipelineKind::Main => r.append("] pipeline:main"),
            PipelineKind::Custom => {
                r.append("] pipeline:custom:");
                r.append(custom_pattern_of(&self.data));
            },
            PipelineKind::Unknown => r.append("] pipeline:unknown"),
        }
        r
    }

    /// `"<m> min <s> sec"`.
    pub fn duration(&self) -> (r: String)
        requires
            spec_duration_seconds(self@) is Some,
        ensures
            r@ == duration_text(spec_duration_seconds(self@).unwrap()),
    {
        duration_of(&self.data)
    }

    /// `creator.display_name`, or `"unknown"`.
    pub fn creator(&self) -> (r: &str)
        ensures
            r@ == spec_creator(self@),
    {
        creator_of(&self.data)
    }

    /// `Building`, `Sleeping` or `CheckingModifications`.
    pub fn activity(&self) -> (r: &str)
        ensures
            r@ == spec_activity(self@),
    {
        if self.in_progress() {
            "Building"
        } else if self.completed() {
            "Sleeping"
        } else {
            "CheckingModifications"
        }
    }

    /// `Success`, `Failure`, `Unknown`, `Building` or `unknown`.
    pub fn last_build_status(&self) -> (r: &str)
        ensures
            r@ == spec_last_build_status(self@),
    {
        if self.completed() {
            if self.successful() {
                "Success"
            } else if self.failed() {
                "Failure"
            } else {
                "Unknown"
            }
        } else if self.in_progress() {
            "Building"
        } else {
            "unknown"
        }
    }

    /// `"by:<creator>, duration,<duration>"`.
    pub fn build_label(&self) -> (r: String)
        requires
            spec_duration_seconds(self@) is Some,
        ensures
            r@ == build_label_text(self@),
    {
        build_label_of(&self.data)
    }

    /// `created_on`, as text.
    pub fn build_time_in_string(&self) -> (r: &str)
        requires
            spec_created_on(self@) is Some,
        ensures
            r@ == spec_created_on(self@).unwrap(),
    {
        created_on_of(&self.data)
    }

    /// The page of the run on bitbucket.org.
    pub fn web_url(&self) -> (r: String)
        requires
            spec_build_number(self@) is Some,
        ensures
            r@ == spec_web_url(self@),
    {
        let mut r = String::from_str("https://bitbucket.org/");
        r.append(self.repo_full_name());
        r.append("/pipelines/results/");
        r.append(self.build_number().as_str());
        r
    }

    /// Whether the run is of a kind the feed reports: a main or a custom pipeline.
    pub fn supported(&self) -> (r: bool)
        ensures
            r == (spec_pipeline_type(self@) != "unknown"@),
            r == (spec_kind(self@) != PipelineKind::Unknown),
    {
        proof {
            reveal_strlit("main");
            reveal_strlit("custom");
            reveal_strlit("unknown");
            assert("main"@.len() != "unknown"@.len());
            assert("custom"@ != "unknown"@) by {
                assert("custom"@[0] != "unknown"@[0]);
            }
        }
        let kind = kind_of(&self.data);
        !str_eq(kind.as_str(), "unknown")
    }

    /// The instant read from `created_on`.
    pub fn build_time(&self) -> (r: BuildTime)
        requires
            has_build_time(self@),
        ensures
            r == spec_build_time(self@),
    {
        parse_rfc3339(self.build_time_in_string()).unwrap()
    }

    /// The instant read from `created_on`; `None` where `created_on` is no text that chrono reads.
    pub fn try_build_time(&self) -> (r: Option<BuildTime>)
        ensures
            r is Some <==> has_build_time(self@),
            r matches Some(t) ==> t == spec_build_time(self@),
    {
        match self.data.index("created_on").as_str() {
            Some(text) => parse_rfc3339(text),
            None => None,
        }
    }

    /// Whether the document holds what `to_xml` needs.
    pub fn is_renderable(&self) -> (r: bool)
        ensures
            r == renderable(self@),
    {
        self.data.index("duration_in_seconds").as_u64().is_some()
            && self.data.index("created_on").as_str().is_some()
            && self.data.index("build_number").as_u64().is_some()
    }

    /// The `<Project .../>` entry of the run in a CCTray feed.
    pub fn to_xml(&self) -> (r: String)
        requires
            renderable(self@),
        ensures
            r@ == spec_to_xml(self@),
    {
        project_xml_of(
            self.build_label().as_str(),
            self.build_time_in_string(),
            self.name().as_str(),
            self.web_url().as_str(),
            self.activity(),
            self.last_build_status(),
        )
    }

    fn in_progress(&self) -> (r: bool)
        ensures
            r == spec_in_progress(self@),
    {
        has_value_by_two_keys(&self.data, "state", "name", "IN_PROGRESS")
    }

    fn completed(&self) -> (r: bool)
        ensures
            r == spec_completed(self@),
    {
        has_value_by_two_keys(&self.data, "state", "name", "COMPLETED")
    }

    fn successful(&self) -> (r: bool)
        ensures
            r == spec_successful(self@),
    {
        has_value_by_three_keys(&self.data, "state", "result", "name", "SUCCESSFUL")
    }

    fn failed(&self) -> (r: bool)
        ensures
            r == spec_failed(self@),
    {
        has_value_by_three_keys(&self.data, "state", "result", "name", "FAILED")
    }
}

} // verus!
