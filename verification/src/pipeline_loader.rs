//! Reads a listing of pipeline runs and keeps, for each name the feed reports, the last run
//! the listing holds under it.
use vstd::prelude::*;
use crate::json::{json_text, Json};
use crate::pipeline::listing::{
    document_values, documents, group_by_name, has_run_named, is_grouping_by_name, is_supported,
    lemma_distinct_names_no_duplicates, lemma_filter_subset, lemma_same_members_same_multiset,
    lemma_unsupported_insert_keeps_supported, names_distinct, same_name, supported_documents,
    supported_pipelines, take_values,
};
use crate::pipeline::model::{spec_build_time, spec_name, Pipeline};
use crate::pipeline_parser::{is_latest_in, is_latest_of_its_name, latest_per_name};
use crate::time::not_later;

verus! {

/// `run` is the last of the runs among `runs` reported under its name.
pub open spec fn is_last_of_its_name(runs: Seq<Json>, run: Json) -> bool {
    &&& same_name(runs, spec_name(run)).len() > 0
    &&& same_name(runs, spec_name(run)).last() == run
}

/// `out` holds, once for each name among `runs`, the last run of that name.
pub open spec fn last_per_name(runs: Seq<Json>, out: Seq<Json>) -> bool {
    &&& forall|k: int| 0 <= k < out.len() ==> is_last_of_its_name(runs, #[trigger] out[k])
    &&& names_distinct(out)
    &&& forall|j: int| 0 <= j < runs.len() ==> has_run_named(out, spec_name(#[trigger] runs[j]))
}

/// Each run reported for a listing is one of its `values`, of a kind the feed reports.
pub proof fn lemma_reported_runs_come_from_listing(values: Seq<Json>, out: Seq<Json>)
    requires
        last_per_name(supported_documents(values), out),
    ensures
        forall|k: int| 0 <= k < out.len() ==> values.contains(#[trigger] out[k]) && is_supported(out[k]),
{
    let reported = supported_documents(values);
    assert forall|k: int| 0 <= k < out.len() implies values.contains(#[trigger] out[k]) && is_supported(out[k]) by {
        assert(is_last_of_its_name(reported, out[k]));
        let name = spec_name(out[k]);
        let group = same_name(reported, name);
        lemma_filter_subset(reported, |data: Json| spec_name(data) == name, group.len() - 1);
        let j = choose|j: int| 0 <= j < reported.len() && reported[j] == out[k];
        lemma_filter_subset(values, |data: Json| is_supported(data), j);
    }
}

/// The last run a selection keeps stands in the sequence after every other run the selection
/// keeps.
proof fn lemma_filter_last_stands_last(runs: Seq<Json>, pred: spec_fn(Json) -> bool) -> (p: int)
    requires
        runs.filter(pred).len() > 0,
    ensures
        0 <= p < runs.len(),
        runs[p] == runs.filter(pred).last(),
        forall|q: int| p < q < runs.len() ==> !pred(#[trigger] runs[q]),
    decreases runs.len(),
{
    reveal(Seq::filter);
    let rest = runs.drop_last();
    if pred(runs.last()) {
        assert(runs.filter(pred) == rest.filter(pred).push(runs.last()));
        (runs.len() - 1) as int
    } else {
        assert(runs.filter(pred) == rest.filter(pred));
        let p = lemma_filter_last_stands_last(rest, pred);
        assert forall|q: int| p < q < runs.len() implies !pred(#[trigger] runs[q]) by {
            if q < runs.len() - 1 {
                assert(runs[q] == rest[q]);
            }
        }
        p
    }
}

/// The run kept for a name is the last one the listing holds under that name: it stands in the
/// runs at a place after which no run of its name follows.
pub proof fn lemma_kept_run_is_listed_last(runs: Seq<Json>, out: Seq<Json>, k: int)
    requires
        last_per_name(runs, out),
        0 <= k < out.len(),
    ensures
        exists|p: int|
            0 <= p < runs.len() && runs[p] == out[k] && forall|q: int|
                p < q < runs.len() ==> spec_name(#[trigger] runs[q]) != spec_name(out[k]),
{
    assert(is_last_of_its_name(runs, out[k]));
    let name = spec_name(out[k]);
    let p = lemma_filter_last_stands_last(runs, |data: Json| spec_name(data) == name);
    assert(runs[p] == out[k]);
}

/// The runs of `runs` are listed oldest first: each is earlier than every run after it.
pub open spec fn listed_oldest_first(runs: Seq<Json>) -> bool {
    forall|i: int, j: int|
        0 <= i < j < runs.len() ==> !not_later(spec_build_time(#[trigger] runs[j]), spec_build_time(#[trigger] runs[i]))
}

/// A selection of the runs of a listing that is oldest first is oldest first too.
proof fn lemma_filter_keeps_order(runs: Seq<Json>, pred: spec_fn(Json) -> bool)
    requires
        listed_oldest_first(runs),
    ensures
        listed_oldest_first(runs.filter(pred)),
    decreases runs.len(),
{
    reveal(Seq::filter);
    if runs.len() > 0 {
        let rest = runs.drop_last();
        assert(listed_oldest_first(rest)) by {
            assert forall|i: int, j: int| 0 <= i < j < rest.len() implies !not_later(
                spec_build_time(#[trigger] rest[j]),
                spec_build_time(#[trigger] rest[i]),
            ) by {
                assert(rest[i] == runs[i] && rest[j] == runs[j]);
            }
        }
        lemma_filter_keeps_order(rest, pred);
        let kept = runs.filter(pred);
        let earlier = rest.filter(pred);
        if pred(runs.last()) {
            assert forall|i: int, j: int| 0 <= i < j < kept.len() implies !not_later(
                spec_build_time(#[trigger] kept[j]),
                spec_build_time(#[trigger] kept[i]),
            ) by {
                if j == kept.len() - 1 {
                    lemma_filter_subset(rest, pred, i);
                    let k = choose|k: int| 0 <= k < rest.len() && rest[k] == earlier[i];
                    assert(runs[k] == kept[i]);
                    assert(runs[runs.len() - 1] == kept[j]);
                } else {
                    assert(kept[i] == earlier[i] && kept[j] == earlier[j]);
                }
            }
        }
    }
}

/// Where the runs are listed oldest first, the last run of each name is its latest: the runs
/// `pipeline_loader::parse` keeps are those `pipeline_parser::parse` keeps.
pub proof fn lemma_last_is_latest_when_oldest_first(runs: Seq<Json>, out: Seq<Json>)
    requires
        listed_oldest_first(runs),
        last_per_name(runs, out),
    ensures
        latest_per_name(runs, out),
{
    assert forall|k: int| 0 <= k < out.len() implies is_latest_of_its_name(runs, #[trigger] out[k]) by {
        assert(is_last_of_its_name(runs, out[k]));
        let name = spec_name(out[k]);
        let group = same_name(runs, name);
        lemma_filter_keeps_order(runs, |data: Json| spec_name(data) == name);
        let i = group.len() - 1;
        assert forall|m: int| 0 <= m < group.len() implies not_later(
            spec_build_time(#[trigger] group[m]),
            spec_build_time(group[i]),
        ) by {
            if m < i {
                assert(!not_later(spec_build_time(group[i]), spec_build_time(group[m])));
            }
        }
        assert(is_latest_in(group, i));
        assert(group[i] == out[k]);
    }
}

/// The last run of each name is determined by the runs: two results for the same runs hold the
/// same runs, whatever their order.
pub proof fn lemma_last_per_name_is_determined(runs: Seq<Json>, out1: Seq<Json>, out2: Seq<Json>)
    requires
        last_per_name(runs, out1),
        last_per_name(runs, out2),
    ensures
        out1.to_multiset() == out2.to_multiset(),
{
    assert forall|k: int| 0 <= k < out1.len() implies out2.contains(#[trigger] out1[k]) by {
        lemma_last_kept_for_the_same_runs(runs, out1, out2, k);
    }
    assert forall|k: int| 0 <= k < out2.len() implies out1.contains(#[trigger] out2[k]) by {
        lemma_last_kept_for_the_same_runs(runs, out2, out1, k);
    }
    lemma_distinct_names_no_duplicates(out1);
    lemma_distinct_names_no_duplicates(out2);
    assert forall|x: Json| out1.contains(x) <==> out2.contains(x) by {
        if out1.contains(x) {
            let k = choose|k: int| 0 <= k < out1.len() && out1[k] == x;
            assert(out2.contains(out1[k]));
        }
        if out2.contains(x) {
            let k = choose|k: int| 0 <= k < out2.len() && out2[k] == x;
            assert(out1.contains(out2[k]));
        }
    }
    lemma_same_members_same_multiset(out1, out2);
}

/// A run kept for `runs` in one result is kept in any other result for the same runs.
proof fn lemma_last_kept_for_the_same_runs(runs: Seq<Json>, a: Seq<Json>, b: Seq<Json>, k: int)
    requires
        last_per_name(runs, a),
        last_per_name(runs, b),
        0 <= k < a.len(),
    ensures
        b.contains(a[k]),
{
    let x = a[k];
    let n = spec_name(x);
    let group = same_name(runs, n);
    assert(is_last_of_its_name(runs, x));
    lemma_filter_subset(runs, |data: Json| spec_name(data) == n, group.len() - 1);
    let j = choose|j: int| 0 <= j < runs.len() && runs[j] == x;
    assert(has_run_named(b, spec_name(runs[j])));
    let m = choose|m: int| 0 <= m < b.len() && spec_name(#[trigger] b[m]) == n;
    assert(is_last_of_its_name(runs, b[m]));
}

/// A value the feed does not report never changes what is kept: inserted anywhere into the
/// `values`, the last run of each name stays the same.
pub proof fn lemma_unsupported_value_changes_nothing(
    values: Seq<Json>,
    pos: int,
    extra: Json,
    out1: Seq<Json>,
    out2: Seq<Json>,
)
    requires
        0 <= pos <= values.len(),
        !is_supported(extra),
        last_per_name(supported_documents(values), out1),
        last_per_name(supported_documents(values.insert(pos, extra)), out2),
    ensures
        out1.to_multiset() == out2.to_multiset(),
{
    lemma_unsupported_insert_keeps_supported(values, pos, extra);
    lemma_last_per_name_is_determined(supported_documents(values), out1, out2);
}

/// `content` is a JSON document with a `values` array.
pub open spec fn parse_accepts(content: Seq<char>) -> bool {
    &&& json_text(content) is Some
    &&& document_values(json_text(content).unwrap()) is Some
}

/// The runs of `content` that the feed reports.
pub open spec fn reported_runs(content: Seq<char>) -> Seq<Json> {
    supported_documents(document_values(json_text(content).unwrap()).unwrap())
}

/// For each name the listing in `content` reports, the last of its runs there. The runs come in
/// no particular order.
pub fn parse(content: &String) -> (r: Vec<Pipeline>)
    requires
        parse_accepts(content@),
    ensures
        last_per_name(reported_runs(content@), documents(r@)),
{
    let doc = Json::parse(content.as_str()).unwrap();
    let values = take_values(doc).unwrap();
    last_per_name_of(values)
}

/// For each name among the runs of `values` that the feed reports, the last of its runs there.
/// The runs come in no particular order.
pub fn last_per_name_of(values: Vec<Json>) -> (r: Vec<Pipeline>)
    ensures
        last_per_name(supported_documents(values@), documents(r@)),
{
    let pipelines = supported_pipelines(values);
    last_builds(pipelines)
}

/// `parse` where `content` is a JSON document with a `values` array; `None` otherwise.
pub fn try_parse(content: &String) -> (r: Option<Vec<Pipeline>>)
    ensures
        r is Some <==> parse_accepts(content@),
        r matches Some(v) ==> last_per_name(reported_runs(content@), documents(v@)),
{
    match Json::parse(content.as_str()) {
        None => None,
        Some(doc) => match take_values(doc) {
            None => None,
            Some(values) => Some(last_per_name_of(values)),
        },
    }
}

/// For each name among `pipelines`, its last run.
fn last_builds(pipelines: Vec<Pipeline>) -> (r: Vec<Pipeline>)
    ensures
        last_per_name(documents(pipelines@), documents(r@)),
{
    let ghost runs = documents(pipelines@);
    let groups = group_by_name(pipelines);
    let ghost all = groups@;
    let mut out: Vec<Pipeline> = Vec::new();
    for entry in it: groups.into_iter()
        invariant
            it.seq() == all,
            is_grouping_by_name(runs, all),
            out@.len() == it.index(),
            forall|k: int| 0 <= k < out@.len() ==> is_last_of_its_name(runs, #[trigger] documents(out@)[k]),
            forall|k: int| 0 <= k < out@.len() ==> spec_name(#[trigger] documents(out@)[k]) == all[k].0@,
    {
        let ghost g = it.index() as int;
        assert(entry == all[g]);
        let (_, group) = entry;
        let ghost members = documents(group@);
        proof {
            assert(members == same_name(runs, all[g].0@));
            assert(all[g].1@.len() > 0);
        }
        let last = latest_build_of(group);
        proof {
            let i = members.len() - 1;
            assert(members[i] == all[g].1@[i]@);
            assert(spec_name(all[g].1@[i]@) == all[g].0@);
            assert(spec_name(last@) == all[g].0@);
            assert(is_last_of_its_name(runs, last@));
        }
        let ghost prev = out@;
        out.push(last);
        proof {
            assert(out@ == prev.push(last));
            assert(documents(out@)[g] == last@);
            assert forall|k: int| 0 <= k < out@.len() implies spec_name(#[trigger] documents(out@)[k]) == all[k].0@ by {
                if k < prev.len() {
                    assert(documents(out@)[k] == documents(prev)[k]);
                    assert(spec_name(documents(prev)[k]) == all[k].0@);
                }
            }
            assert forall|k: int| 0 <= k < out@.len() implies is_last_of_its_name(runs, #[trigger] documents(out@)[k]) by {
                if k < prev.len() {
                    assert(documents(out@)[k] == documents(prev)[k]);
                    assert(is_last_of_its_name(runs, documents(prev)[k]));
                }
            }
        }
    }
    proof {
        let outs = documents(out@);
        assert(out@.len() == all.len());
        assert forall|k: int| 0 <= k < outs.len() implies is_last_of_its_name(runs, #[trigger] outs[k]) by {}
        assert forall|k1: int, k2: int|
            0 <= k1 < outs.len() && 0 <= k2 < outs.len() && k1 != k2 implies spec_name(#[trigger] outs[k1])
                != spec_name(#[trigger] outs[k2]) by {
            assert(all[k1].0@ != all[k2].0@);
        }
        assert forall|j: int| 0 <= j < runs.len() implies has_run_named(outs, spec_name(#[trigger] runs[j])) by {
            let g = choose|g: int| 0 <= g < all.len() && all[g].0@ == spec_name(runs[j]);
            assert(spec_name(outs[g]) == spec_name(runs[j]));
        }
    }
    out
}

/// The run picked from a group by the largest name: all runs of a group share their name, so
/// `max_by_key` returns the last of them.
fn latest_build_of(group: Vec<Pipeline>) -> (r: Pipeline)
    requires
        group@.len() > 0,
    ensures
        r@ == documents(group@).last(),
{
    let mut group = group;
    let r = group.pop().unwrap();
    r
}

} // verus!
