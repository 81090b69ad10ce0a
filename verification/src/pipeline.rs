//! Pipelines of a Bitbucket repository in the plain report: custom pipelines are named
//! `custom pipeline:<pattern>`, a run's status is its result while it builds and `Building` once it
//! sleeps, and no web address is given. The detailed report is in `pipeline::model`.
pub mod fetcher;
pub mod fields;
pub mod listing;
pub mod model;

use vstd::prelude::*;
use crate::json::{spec_index, str_by_two_keys, str_or_unknown, string_value_by_two_keys, Json};
use crate::pipeline::fields::{
    build_label_of, build_label_text, created_on_of, creator_of, custom_pattern_of, duration_of,
    duration_text, kind_of, project_xml, project_xml_of, repo_name_of, spec_created_on, spec_creator,
    spec_custom_pattern, spec_duration_seconds, spec_kind, spec_pipeline_type, spec_repo_name,
    PipelineKind,
};
use crate::pipeline::listing::{document_values, take_values};
use crate::text::str_eq;

verus! {

/// One pipeline run, held as the JSON document Bitbucket sent for it.
#[derive(Debug)]
pub struct Pipeline {
    data: Json,
}

impl View for Pipeline {
    type V = Json;

    /// The document the pipeline was read from.
    closed spec fn view(&self) -> Json {
        self.data
    }
}

/// The documents of a sequence of runs.
pub open spec fn documents(pipelines: Seq<Pipeline>) -> Seq<Json> {
    pipelines.map_values(|p: Pipeline| p@)
}

/// The name of a run: `"[<repository>] pipeline:main"`, `"[<repository>] custom pipeline:<pattern>"`,
/// or `"unknown"`.
pub open spec fn spec_name(data: Json) -> Seq<char> {
    match spec_kind(data) {
        PipelineKind::Main => "["@ + spec_repo_name(data) + "] pipeline:main"@,
        PipelineKind::Custom => "["@ + spec_repo_name(data) + "] custom pipeline:"@ + spec_custom_pattern(data),
        PipelineKind::Unknown => "unknown"@,
    }
}

/// `state.name`, or `"unknown"`.
pub open spec fn spec_state_name(data: Json) -> Seq<char> {
    str_or_unknown(str_by_two_keys(data, "state"@, "name"@))
}

/// `Building` for a state `IN_PROGRESS`, `Sleeping` for `COMPLETED`, `CheckingModifications` otherwise.
pub open spec fn spec_activity(data: Json) -> Seq<char> {
    if spec_state_name(data) == "IN_PROGRESS"@ {
        "Building"@
    } else if spec_state_name(data) == "COMPLETED"@ {
        "Sleeping"@
    } else {
        "CheckingModifications"@
    }
}

/// `state.result.name`, or `"unknown"`.
pub open spec fn spec_result_name(data: Json) -> Seq<char> {
    str_or_unknown(str_by_two_keys(spec_index(data, "state"@), "result"@, "name"@))
}

/// While building, the result (`Success`, `Failure` or `Unknown`); `Building` while sleeping;
/// `unknown` otherwise.
pub open spec fn spec_last_build_status(data: Json) -> Seq<char> {
    if spec_activity(data) == "Building"@ {
        if spec_result_name(data) == "SUCCESSFUL"@ {
            "Success"@
        } else if spec_result_name(data) == "FAILED"@ {
            "Failure"@
        } else {
            "Unknown"@
        }
    } else if spec_activity(data) == "Sleeping"@ {
        "Building"@
    } else {
        "unknown"@
    }
}

/// The document holds what a feed entry needs: a duration and a creation time.
pub open spec fn renderable(data: Json) -> bool {
    &&& spec_duration_seconds(data) is Some
    &&& spec_created_on(data) is Some
}

/// The `<Project .../>` entry of the run in a CCTray feed, with an empty web address.
pub open spec fn spec_to_xml(data: Json) -> Seq<char> {
    project_xml(
        build_label_text(data),
        spec_created_on(data).unwrap(),
        spec_name(data),
        ""@,
        spec_activity(data),
        spec_last_build_status(data),
    )
}

/// The status follows the activity: while building it is the result of the run (`Success`,
/// `Failure` or `Unknown`), while sleeping it is `Building`, and otherwise `unknown`.
pub proof fn lemma_status_follows_activity(p: Pipeline)
    ensures
        spec_activity(p@) == "Building"@ ==> (spec_last_build_status(p@) == "Success"@
            || spec_last_build_status(p@) == "Failure"@ || spec_last_build_status(p@) == "Unknown"@),
        spec_activity(p@) == "Sleeping"@ ==> spec_last_build_status(p@) == "Building"@,
        spec_activity(p@) == "CheckingModifications"@ ==> spec_last_build_status(p@) == "unknown"@,
{
    reveal_strlit("Building");
    reveal_strlit("Sleeping");
    reveal_strlit("CheckingModifications");
    assert("Building"@[0] != "Sleeping"@[0]);
    assert("Building"@.len() != "CheckingModifications"@.len());
    assert("Sleeping"@.len() != "CheckingModifications"@.len());
}

/// Read from the same document, the plain and the detailed report give a run the same activity,
/// and a run on `main` the same name.
pub proof fn lemma_reports_agree(plain: Pipeline, detailed: model::Pipeline)
    requires
        plain@ == detailed@,
    ensures
        spec_activity(plain@) == model::spec_activity(detailed@),
        spec_kind(plain@) == PipelineKind::Main ==> spec_name(plain@) == model::spec_name(detailed@),
{
    reveal_strlit("IN_PROGRESS");
    reveal_strlit("COMPLETED");
    reveal_strlit("unknown");
    assert("IN_PROGRESS"@.len() != "unknown"@.len());
    assert("COMPLETED"@.len() != "unknown"@.len());
}

/// In the plain report the activity follows the state, and the status the state and result: a run
/// in progress is `Building` with the status `Success` for the result `SUCCESSFUL`, `Failure` for
/// `FAILED` and `Unknown` for any other or none; a completed run is `Sleeping` with the status
/// `Building`; a run in any other state is `CheckingModifications` with the status `unknown`.
pub proof fn lemma_plain_report_follows_state(data: Json)
    ensures
        str_by_two_keys(data, "state"@, "name"@) == Some("IN_PROGRESS"@) ==> spec_activity(data)
            == "Building"@,
        str_by_two_keys(data, "state"@, "name"@) == Some("COMPLETED"@) ==> spec_activity(data)
            == "Sleeping"@,
        str_by_two_keys(data, "state"@, "name"@) != Some("IN_PROGRESS"@) && str_by_two_keys(
            data,
            "state"@,
            "name"@,
        ) != Some("COMPLETED"@) ==> spec_activity(data) == "CheckingModifications"@,
        str_by_two_keys(data, "state"@, "name"@) == Some("IN_PROGRESS"@) && str_by_two_keys(
            spec_index(data, "state"@),
            "result"@,
            "name"@,
        ) == Some("SUCCESSFUL"@) ==> spec_last_build_status(data) == "Success"@,
        str_by_two_keys(data, "state"@, "name"@) == Some("IN_PROGRESS"@) && str_by_two_keys(
            spec_index(data, "state"@),
            "result"@,
            "name"@,
        ) == Some("FAILED"@) ==> spec_last_build_status(data) == "Failure"@,
        str_by_two_keys(data, "state"@, "name"@) == Some("IN_PROGRESS"@) && str_by_two_keys(
            spec_index(data, "state"@),
            "result"@,
            "name"@,
        ) != Some("SUCCESSFUL"@) && str_by_two_keys(spec_index(data, "state"@), "result"@, "name"@)
            != Some("FAILED"@) ==> spec_last_build_status(data) == "Unknown"@,
        str_by_two_keys(data, "state"@, "name"@) == Some("COMPLETED"@) ==> spec_last_build_status(
            data,
        ) == "Building"@,
        str_by_two_keys(data, "state"@, "name"@) != Some("IN_PROGRESS"@) && str_by_two_keys(
            data,
            "state"@,
            "name"@,
        ) != Some("COMPLETED"@) ==> spec_last_build_status(data) == "unknown"@,
{
    reveal_strlit("IN_PROGRESS");
    reveal_strlit("COMPLETED");
    reveal_strlit("SUCCESSFUL");
    reveal_strlit("FAILED");
    reveal_strlit("unknown");
    reveal_strlit("Building");
    reveal_strlit("Sleeping");
    reveal_strlit("CheckingModifications");
    assert("IN_PROGRESS"@.len() != "COMPLETED"@.len());
    assert("IN_PROGRESS"@.len() != "unknown"@.len());
    assert("COMPLETED"@.len() != "unknown"@.len());
    assert("SUCCESSFUL"@.len() != "unknown"@.len());
    assert("FAILED"@.len() != "unknown"@.len());
    assert("SUCCESSFUL"@.len() != "FAILED"@.len());
    assert("Building"@[0] != "Sleeping"@[0]);
    assert("Building"@.len() != "CheckingModifications"@.len());
    assert("Sleeping"@.len() != "CheckingModifications"@.len());
}

/// The plain entry of a run carries its label, its creation time, its name and no web address,
/// then the activity and the status its state and result give.
pub proof fn lemma_plain_entry_reports_state(data: Json)
    ensures
        str_by_two_keys(data, "state"@, "name"@) == Some("IN_PROGRESS"@) && str_by_two_keys(
            spec_index(data, "state"@),
            "result"@,
            "name"@,
        ) == Some("SUCCESSFUL"@) ==> spec_to_xml(data) == project_xml(
            build_label_text(data),
            spec_created_on(data).unwrap(),
            spec_name(data),
            ""@,
            "Building"@,
            "Success"@,
        ),
        str_by_two_keys(data, "state"@, "name"@) == Some("IN_PROGRESS"@) && str_by_two_keys(
            spec_index(data, "state"@),
            "result"@,
            "name"@,
        ) == Some("FAILED"@) ==> spec_to_xml(data) == project_xml(
            build_label_text(data),
            spec_created_on(data).unwrap(),
            spec_name(data),
            ""@,
            "Building"@,
            "Failure"@,
        ),
        str_by_two_keys(data, "state"@, "name"@) == Some("IN_PROGRESS"@) && str_by_two_keys(
            spec_index(data, "state"@),
            "result"@,
            "name"@,
        ) != Some("SUCCESSFUL"@) && str_by_two_keys(spec_index(data, "state"@), "result"@, "name"@)
            != Some("FAILED"@) ==> spec_to_xml(data) == project_xml(
            build_label_text(data),
            spec_created_on(data).unwrap(),
            spec_name(data),
            ""@,
            "Building"@,
            "Unknown"@,
        ),
        str_by_two_keys(data, "state"@, "name"@) == Some("COMPLETED"@) ==> spec_to_xml(data)
            == project_xml(
            build_label_text(data),
            spec_created_on(data).unwrap(),
            spec_name(data),
            ""@,
            "Sleeping"@,
            "Building"@,
        ),
        str_by_two_keys(data, "state"@, "name"@) != Some("IN_PROGRESS"@) && str_by_two_keys(
            data,
            "state"@,
            "name"@,
        ) != Some("COMPLETED"@) ==> spec_to_xml(data) == project_xml(
            build_label_text(data),
            spec_created_on(data).unwrap(),
            spec_name(data),
            ""@,
            "CheckingModifications"@,
            "unknown"@,
        ),
{
    lemma_plain_report_follows_state(data);
}

impl Pipeline {
    /// The pipeline run that `data` describes.
    pub fn new(data: Json) -> (p: Pipeline)
        ensures
            p@ == data,
    {
        Pipeline { data }
    }

    /// The runs of a listing: one for each element of its `values` array, in order; `None` where the
    /// listing has no `values` array.
    pub fn from_listing(doc: Json) -> (r: Option<Vec<Pipeline>>)
        ensures
            r is Some <==> document_values(doc) is Some,
            r matches Some(v) ==> documents(v@) == document_values(doc).unwrap(),
    {
        match take_values(doc) {
            None => None,
            Some(values) => {
                let ghost all = values@;
                let mut r: Vec<Pipeline> = Vec::new();
                for data in it: values.into_iter()
                    invariant
                        it.seq() == all,
                        documents(r@) == all.take(it.index() as int),
                {
                    let ghost prev = r@;
                    r.push(Pipeline { data });
                    assert(documents(r@) =~= documents(prev).push(data));
                    assert(all.take(it.index() + 1) =~= all.take(it.index() as int).push(data));
                }
                assert(all.take(all.len() as int) =~= all);
                Some(r)
            },
        }
    }

    /// `"main"`, `"custom"` or `"unknown"`.
    pub fn pipeline_type(&self) -> (r: &str)
        ensures
            r@ == spec_pipeline_type(self@),
    {
        kind_of(&self.data).as_str()
    }

    /// `repository.name`, or `"unknown"`.
    pub fn repo_name(&self) -> (r: &str)
        ensures
            r@ == spec_repo_name(self@),
    {
        repo_name_of(&self.data)
    }

    /// The name under which the run is reported.
    pub fn name(&self) -> (r: String)
        ensures
            r@ == spec_name(self@),
    {
        match kind_of(&self.data) {
            PipelineKind::Main => {
                let mut r = String::from_str("[");
                r.append(self.repo_name());
                r.append("] pipeline:main");
                r
            },
            PipelineKind::Custom => {
                let mut r = String::from_str("[");
                r.append(self.repo_name());
                r.append("] custom pipeline:");
                r.append(custom_pattern_of(&self.data));
                r
            },
            PipelineKind::Unknown => String::from_str("unknown"),
        }
    }

    /// `"<m> min <s> sec"`.
    pub fn duration(&self) -> (r: String)
        requires
            spec_duration_seconds(self@) is Some,
        ensures
            r@ == duration_text(spec_duration_seconds(self@).unwrap()),
    {
        duration_of(&self.data)
    }

    /// `creator.display_name`, or `"unknown"`.
    pub fn creator(&self) -> (r: &str)
        ensures
            r@ == spec_creator(self@),
    {
        creator_of(&self.data)
    }

    /// `Building`, `Sleeping` or `CheckingModifications`.
    pub fn activity(&self) -> (r: &str)
        ensures
            r@ == spec_activity(self@),
    {
        let state_name = string_value_by_two_keys(&self.data, "state", "name");
        if str_eq(state_name, "IN_PROGRESS") {
            "Building"
        } else if str_eq(state_name, "COMPLETED") {
            "Sleeping"
        } else {
            "CheckingModifications"
        }
    }

    /// `Success`, `Failure`, `Unknown`, `Building` or `unknown`.
    pub fn last_build_status(&self) -> (r: &str)
        ensures
            r@ == spec_last_build_status(self@),
    {
        if str_eq(self.activity(), "Building") {
            let state_result = string_value_by_two_keys(self.data.index("state"), "result", "name");
            if str_eq(state_result, "SUCCESSFUL") {
                "Success"
            } else if str_eq(state_result, "FAILED") {
                "Failure"
            } else {
                "Unknown"
            }
        } else if str_eq(self.activity(), "Sleeping") {
            "Building"
        } else {
            "unknown"
        }
    }

    /// `"by:<creator>, duration,<duration>"`.
    pub fn last_build_label(&self) -> (r: String)
        requires
            spec_duration_seconds(self@) is Some,
        ensures
            r@ == build_label_text(self@),
    {
        build_label_of(&self.data)
    }

    /// `created_on`, as text.
    pub fn last_build_time(&self) -> (r: &str)
        requires
            spec_created_on(self@) is Some,
        ensures
            r@ == spec_created_on(self@).unwrap(),
    {
        created_on_of(&self.data)
    }

    /// The web address of the run: none is known, so it is empty.
    pub fn web_url(&self) -> (r: &str)
        ensures
            r@ == ""@,
    {
        ""
    }

    /// Whether the document holds what `to_xml` needs.
    pub fn is_renderable(&self) -> (r: bool)
        ensures
            r == renderable(self@),
    {
        self.data.index("duration_in_seconds").as_u64().is_some()
            && self.data.index("created_on").as_str().is_some()
    }

    /// The `<Project .../>` entry of the run in a CCTray feed.
    pub fn to_xml(&self) -> (r: String)
        requires
            renderable(self@),
        ensures
            r@ == spec_to_xml(self@),
    {
        project_xml_of(
            self.last_build_label().as_str(),
            self.last_build_time(),
            self.name().as_str(),
            self.web_url(),
            self.activity(),
            self.last_build_status(),
        )
    }
}

} // verus!
