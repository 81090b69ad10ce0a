//! Reads a listing of pipeline runs and keeps, for each name the feed reports, its latest run.
use vstd::prelude::*;
use crate::json::{json_text, Json};
use crate::pipeline::listing::{
    document_values, documents, group_by_name, has_run_named, is_grouping_by_name, is_supported,
    lemma_distinct_names_no_duplicates, lemma_filter_member_iff, lemma_filter_subset,
    lemma_same_members_same_multiset, lemma_unsupported_insert_keeps_supported,
    names_distinct, same_name, supported_documents, supported_pipelines,
    take_values,
};
use crate::pipeline::model::{has_build_time, spec_build_time, spec_name, Pipeline};
use crate::time::{not_later, BuildTime};

verus! {

/// `runs[i]` is the latest of `runs`: none is later, and each after it is earlier.
/// (The run `Iterator::max_by_key` picks by build time.)
pub open spec fn is_latest_in(runs: Seq<Json>, i: int) -> bool {
    &&& 0 <= i < runs.len()
    &&& forall|k: int|
        0 <= k < runs.len() ==> not_later(spec_build_time(#[trigger] runs[k]), spec_build_time(runs[i]))
    &&& forall|k: int|
        i < k < runs.len() ==> !not_later(spec_build_time(runs[i]), spec_build_time(#[trigger] runs[k]))
}

/// `run` is the latest of the runs among `runs` reported under its name.
pub open spec fn is_latest_of_its_name(runs: Seq<Json>, run: Json) -> bool {
    exists|i: int|
        is_latest_in(same_name(runs, spec_name(run)), i) && #[trigger] same_name(runs, spec_name(run))[i]
            == run
}

/// `out` holds, once for each name among `runs`, the latest run of that name.
pub open spec fn latest_per_name(runs: Seq<Json>, out: Seq<Json>) -> bool {
    &&& forall|k: int| 0 <= k < out.len() ==> is_latest_of_its_name(runs, #[trigger] out[k])
    &&& names_distinct(out)
    &&& forall|j: int| 0 <= j < runs.len() ==> has_run_named(out, spec_name(#[trigger] runs[j]))
}

/// Every run the listing reports has a build time that chrono reads.
pub open spec fn listing_accepted(doc: Json) -> bool {
    &&& document_values(doc) is Some
    &&& forall|j: int|
        0 <= j < supported_documents(document_values(doc).unwrap()).len() ==> has_build_time(
            #[trigger] supported_documents(document_values(doc).unwrap())[j],
        )
}

/// A group has at most one latest run.
pub proof fn lemma_latest_is_unique(runs: Seq<Json>, i: int, j: int)
    requires
        is_latest_in(runs, i),
        is_latest_in(runs, j),
    ensures
        i == j,
{
    if i < j {
        assert(!not_later(spec_build_time(runs[i]), spec_build_time(runs[j])));
        assert(not_later(spec_build_time(runs[i]), spec_build_time(runs[j])));
    } else if j < i {
        assert(!not_later(spec_build_time(runs[j]), spec_build_time(runs[i])));
        assert(not_later(spec_build_time(runs[j]), spec_build_time(runs[i])));
    }
}

/// The run kept for a name is the latest of that name in time: every run of that name was built
/// in an earlier second, or in the same second and not at a later nanosecond.
pub proof fn lemma_kept_run_is_latest_in_time(runs: Seq<Json>, out: Seq<Json>, k: int, j: int)
    requires
        latest_per_name(runs, out),
        0 <= k < out.len(),
        0 <= j < runs.len(),
        spec_name(runs[j]) == spec_name(out[k]),
    ensures
        spec_build_time(runs[j]).seconds <= spec_build_time(out[k]).seconds,
        spec_build_time(runs[j]).seconds == spec_build_time(out[k]).seconds ==> spec_build_time(
            runs[j],
        ).nanos <= spec_build_time(out[k]).nanos,
{
    let x = out[k];
    let n = spec_name(x);
    let group = same_name(runs, n);
    assert(is_latest_of_its_name(runs, x));
    let i = choose|i: int| is_latest_in(same_name(runs, n), i) && #[trigger] same_name(runs, n)[i] == x;
    assert(runs.contains(runs[j]));
    lemma_filter_member_iff(runs, |data: Json| spec_name(data) == n, runs[j]);
    let m = choose|m: int| 0 <= m < group.len() && group[m] == runs[j];
    assert(not_later(spec_build_time(group[m]), spec_build_time(group[i])));
}

/// The item a selection keeps at `i` stands in the sequence at a place after which only the items
/// the selection keeps after `i` are selected.
proof fn lemma_filter_place(runs: Seq<Json>, pred: spec_fn(Json) -> bool, i: int) -> (p: int)
    requires
        0 <= i < runs.filter(pred).len(),
    ensures
        0 <= p < runs.len(),
        runs[p] == runs.filter(pred)[i],
        forall|q: int|
            p < q < runs.len() && pred(#[trigger] runs[q]) ==> exists|m: int|
                i < m < runs.filter(pred).len() && runs.filter(pred)[m] == runs[q],
    decreases runs.len(),
{
    reveal(Seq::filter);
    let rest = runs.drop_last();
    let kept = runs.filter(pred);
    if pred(runs.last()) {
        assert(kept == rest.filter(pred).push(runs.last()));
        if i == kept.len() - 1 {
            (runs.len() - 1) as int
        } else {
            let p = lemma_filter_place(rest, pred, i);
            assert forall|q: int| p < q < runs.len() && pred(#[trigger] runs[q]) implies exists|m: int|
                i < m < kept.len() && kept[m] == runs[q] by {
                if q < runs.len() - 1 {
                    assert(runs[q] == rest[q]);
                    let m = choose|m: int| i < m < rest.filter(pred).len() && rest.filter(pred)[m] == rest[q];
                    assert(kept[m] == rest.filter(pred)[m]);
                } else {
                    assert(kept[kept.len() - 1] == runs[q]);
                }
            }
            p
        }
    } else {
        assert(kept == rest.filter(pred));
        let p = lemma_filter_place(rest, pred, i);
        assert forall|q: int| p < q < runs.len() && pred(#[trigger] runs[q]) implies exists|m: int|
            i < m < kept.len() && kept[m] == runs[q] by {
            assert(runs[q] == rest[q]);
        }
        p
    }
}

/// Of the runs of one name built at the same instant, the last listed is kept: the kept run stands
/// in the runs at a place after which every run of its name was built strictly earlier.
pub proof fn lemma_kept_run_is_last_of_the_latest(runs: Seq<Json>, out: Seq<Json>, k: int)
    requires
        latest_per_name(runs, out),
        0 <= k < out.len(),
    ensures
        exists|p: int|
            0 <= p < runs.len() && runs[p] == out[k] && forall|q: int|
                p < q < runs.len() && spec_name(#[trigger] runs[q]) == spec_name(out[k]) ==> {
                    ||| spec_build_time(runs[q]).seconds < spec_build_time(out[k]).seconds
                    ||| spec_build_time(runs[q]).seconds == spec_build_time(out[k]).seconds
                        && spec_build_time(runs[q]).nanos < spec_build_time(out[k]).nanos
                },
{
    let x = out[k];
    let n = spec_name(x);
    let pred = |data: Json| spec_name(data) == n;
    let group = same_name(runs, n);
    assert(is_latest_of_its_name(runs, x));
    let i = choose|i: int| is_latest_in(same_name(runs, n), i) && #[trigger] same_name(runs, n)[i] == x;
    let p = lemma_filter_place(runs, pred, i);
    assert forall|q: int| p < q < runs.len() && spec_name(#[trigger] runs[q]) == n implies {
        ||| spec_build_time(runs[q]).seconds < spec_build_time(x).seconds
        ||| spec_build_time(runs[q]).seconds == spec_build_time(x).seconds
            && spec_build_time(runs[q]).nanos < spec_build_time(x).nanos
    } by {
        assert(pred(runs[q]));
        let m = choose|m: int| i < m < group.len() && group[m] == runs[q];
        assert(!not_later(spec_build_time(group[i]), spec_build_time(group[m])));
    }
}

/// No two runs of one name have the same build time.
pub open spec fn no_ties(runs: Seq<Json>) -> bool {
    forall|i: int, j: int|
        0 <= i < runs.len() && 0 <= j < runs.len() && i != j && spec_name(#[trigger] runs[i]) == spec_name(
            #[trigger] runs[j],
        ) ==> spec_build_time(runs[i]) != spec_build_time(runs[j])
}

/// The latest run of each name is determined by the runs: two results for the same runs hold the
/// same runs, whatever their order.
pub proof fn lemma_latest_per_name_is_determined(runs: Seq<Json>, out1: Seq<Json>, out2: Seq<Json>)
    requires
        latest_per_name(runs, out1),
        latest_per_name(runs, out2),
    ensures
        out1.to_multiset() == out2.to_multiset(),
{
    assert forall|k: int| 0 <= k < out1.len() implies out2.contains(#[trigger] out1[k]) by {
        lemma_kept_for_the_same_runs(runs, out1, out2, k);
    }
    assert forall|k: int| 0 <= k < out2.len() implies out1.contains(#[trigger] out2[k]) by {
        lemma_kept_for_the_same_runs(runs, out2, out1, k);
    }
    lemma_distinct_names_no_duplicates(out1);
    lemma_distinct_names_no_duplicates(out2);
    assert forall|x: Json| out1.contains(x) <==> out2.contains(x) by {
        if out1.contains(x) {
            let k = choose|k: int| 0 <= k < out1.len() && out1[k] == x;
            assert(out2.contains(out1[k]));
        }
        if out2.contains(x) {
            let k = choose|k: int| 0 <= k < out2.len() && out2[k] == x;
            assert(out1.contains(out2[k]));
        }
    }
    lemma_same_members_same_multiset(out1, out2);
}

/// A run kept for `runs` in one result is kept in any other result for the same runs.
proof fn lemma_kept_for_the_same_runs(runs: Seq<Json>, a: Seq<Json>, b: Seq<Json>, k: int)
    requires
        latest_per_name(runs, a),
        latest_per_name(runs, b),
        0 <= k < a.len(),
    ensures
        b.contains(a[k]),
{
    let x = a[k];
    let n = spec_name(x);
    assert(is_latest_of_its_name(runs, x));
    let i = choose|i: int| is_latest_in(same_name(runs, n), i) && #[trigger] same_name(runs, n)[i] == x;
    lemma_filter_subset(runs, |data: Json| spec_name(data) == n, i);
    let j = choose|j: int| 0 <= j < runs.len() && runs[j] == x;
    assert(has_run_named(b, spec_name(runs[j])));
    let m = choose|m: int| 0 <= m < b.len() && spec_name(#[trigger] b[m]) == n;
    assert(is_latest_of_its_name(runs, b[m]));
    let i2 = choose|i2: int| is_latest_in(same_name(runs, n), i2) && #[trigger] same_name(runs, n)[i2] == b[m];
    lemma_latest_is_unique(same_name(runs, n), i, i2);
}

/// A run kept for `ra` is kept for `rb`, where both hold the same runs, all of them runs of `runs`,
/// and no two runs of `runs` of one name have the same build time.
proof fn lemma_kept_for_the_same_members(
    runs: Seq<Json>,
    ra: Seq<Json>,
    rb: Seq<Json>,
    a: Seq<Json>,
    b: Seq<Json>,
    k: int,
)
    requires
        forall|x: Json| ra.contains(x) <==> rb.contains(x),
        forall|x: Json| ra.contains(x) ==> runs.contains(x),
        no_ties(runs),
        latest_per_name(ra, a),
        latest_per_name(rb, b),
        0 <= k < a.len(),
    ensures
        b.contains(a[k]),
{
    let x = a[k];
    let n = spec_name(x);
    let ga = same_name(ra, n);
    let gb = same_name(rb, n);
    let npred = |data: Json| spec_name(data) == n;
    assert(is_latest_of_its_name(ra, x));
    let i = choose|i: int| is_latest_in(ga, i) && #[trigger] ga[i] == x;
    lemma_filter_subset(ra, npred, i);
    assert(rb.contains(x));
    let j = choose|j: int| 0 <= j < rb.len() && rb[j] == x;
    assert(has_run_named(b, spec_name(rb[j])));
    let m = choose|m: int| 0 <= m < b.len() && spec_name(#[trigger] b[m]) == n;
    let y = b[m];
    assert(is_latest_of_its_name(rb, y));
    let i2 = choose|i2: int| is_latest_in(gb, i2) && #[trigger] gb[i2] == y;
    lemma_filter_subset(rb, npred, i2);
    if y != x {
        lemma_filter_member_iff(ra, npred, y);
        lemma_filter_member_iff(rb, npred, x);
        let iy = choose|iy: int| 0 <= iy < ga.len() && ga[iy] == y;
        let ix = choose|ix: int| 0 <= ix < gb.len() && gb[ix] == x;
        assert(not_later(spec_build_time(ga[iy]), spec_build_time(ga[i])));
        assert(not_later(spec_build_time(gb[ix]), spec_build_time(gb[i2])));
        assert(spec_build_time(x) == spec_build_time(y));
        assert(runs.contains(x) && runs.contains(y));
        let p = choose|p: int| 0 <= p < runs.len() && runs[p] == x;
        let q = choose|q: int| 0 <= q < runs.len() && runs[q] == y;
        assert(spec_name(runs[p]) == spec_name(runs[q]));
    }
}

/// A value the feed does not report never changes what is kept: inserted anywhere into the
/// `values`, the latest run of each name stays the same.
pub proof fn lemma_unsupported_value_changes_nothing(
    values: Seq<Json>,
    pos: int,
    extra: Json,
    out1: Seq<Json>,
    out2: Seq<Json>,
)
    requires
        0 <= pos <= values.len(),
        !is_supported(extra),
        latest_per_name(supported_documents(values), out1),
        latest_per_name(supported_documents(values.insert(pos, extra)), out2),
    ensures
        out1.to_multiset() == out2.to_multiset(),
{
    lemma_unsupported_insert_keeps_supported(values, pos, extra);
    lemma_latest_per_name_is_determined(supported_documents(values), out1, out2);
}

/// The order of the `values` never changes what is kept, where no two reported runs of one name
/// have the same build time.
pub proof fn lemma_order_of_values_changes_nothing(
    values1: Seq<Json>,
    values2: Seq<Json>,
    out1: Seq<Json>,
    out2: Seq<Json>,
)
    requires
        values1.to_multiset() == values2.to_multiset(),
        no_ties(supported_documents(values1)),
        latest_per_name(supported_documents(values1), out1),
        latest_per_name(supported_documents(values2), out2),
    ensures
        out1.to_multiset() == out2.to_multiset(),
{
    let runs1 = supported_documents(values1);
    let runs2 = supported_documents(values2);
    let pred = |data: Json| is_supported(data);
    assert forall|x: Json| runs1.contains(x) <==> runs2.contains(x) by {
        vstd::seq_lib::to_multiset_contains(values1, x);
        vstd::seq_lib::to_multiset_contains(values2, x);
        lemma_filter_member_iff(values1, pred, x);
        lemma_filter_member_iff(values2, pred, x);
    }
    assert forall|k: int| 0 <= k < out1.len() implies out2.contains(#[trigger] out1[k]) by {
        lemma_kept_for_the_same_members(runs1, runs1, runs2, out1, out2, k);
    }
    assert forall|k: int| 0 <= k < out2.len() implies out1.contains(#[trigger] out2[k]) by {
        lemma_kept_for_the_same_members(runs1, runs2, runs1, out2, out1, k);
    }
    lemma_distinct_names_no_duplicates(out1);
    lemma_distinct_names_no_duplicates(out2);
    assert forall|x: Json| out1.contains(x) <==> out2.contains(x) by {
        if out1.contains(x) {
            let k = choose|k: int| 0 <= k < out1.len() && out1[k] == x;
            assert(out2.contains(out1[k]));
        }
        if out2.contains(x) {
            let k = choose|k: int| 0 <= k < out2.len() && out2[k] == x;
            assert(out1.contains(out2[k]));
        }
    }
    lemma_same_members_same_multiset(out1, out2);
}

/// Each run reported for a listing is one of its `values`, of a kind the feed reports.
pub proof fn lemma_reported_runs_come_from_listing(values: Seq<Json>, out: Seq<Json>)
    requires
        latest_per_name(supported_documents(values), out),
    ensures
        forall|k: int| 0 <= k < out.len() ==> values.contains(#[trigger] out[k]) && is_supported(out[k]),
{
    let reported = supported_documents(values);
    assert forall|k: int| 0 <= k < out.len() implies values.contains(#[trigger] out[k]) && is_supported(out[k]) by {
        assert(is_latest_of_its_name(reported, out[k]));
        let name = spec_name(out[k]);
        let i = choose|i: int| is_latest_in(same_name(reported, name), i) && #[trigger] same_name(reported, name)[i] == out[k];
        lemma_filter_subset(reported, |data: Json| spec_name(data) == name, i);
        let j = choose|j: int| 0 <= j < reported.len() && reported[j] == out[k];
        lemma_filter_subset(values, |data: Json| is_supported(data), j);
    }
}

/// `content` is a listing whose reported runs all have build times.
pub open spec fn parse_accepts(content: Seq<char>) -> bool {
    &&& json_text(content) is Some
    &&& listing_accepted(json_text(content).unwrap())
}

/// The runs of `content` that the feed reports.
pub open spec fn reported_runs(content: Seq<char>) -> Seq<Json> {
    supported_documents(document_values(json_text(content).unwrap()).unwrap())
}

/// For each name the listing in `content` reports, its latest run. The runs come in no
/// particular order.
pub fn parse(content: &String) -> (r: Vec<Pipeline>)
    requires
        parse_accepts(content@),
    ensures
        latest_per_name(reported_runs(content@), documents(r@)),
{
    let doc = Json::parse(content.as_str()).unwrap();
    let values = take_values(doc).unwrap();
    proof {
        let runs = reported_runs(content@);
        assert(supported_documents(values@) == runs);
        assert forall|j: int| 0 <= j < runs.len() implies has_build_time(#[trigger] runs[j]) by {}
    }
    latest_per_name_of(values)
}

/// For each name among the runs of `values` that the feed reports, its latest run. The runs come
/// in no particular order.
pub fn latest_per_name_of(values: Vec<Json>) -> (r: Vec<Pipeline>)
    requires
        forall|j: int|
            0 <= j < supported_documents(values@).len() ==> has_build_time(
                #[trigger] supported_documents(values@)[j],
            ),
    ensures
        latest_per_name(supported_documents(values@), documents(r@)),
{
    let ghost runs = supported_documents(values@);
    let pipelines = supported_pipelines(values);
    proof {
        assert(documents(pipelines@) == runs);
        assert forall|j: int| 0 <= j < pipelines@.len() implies has_build_time(#[trigger] documents(pipelines@)[j]) by {
            assert(has_build_time(runs[j]));
        }
    }
    latest_builds(pipelines)
}

/// `parse` where `content` is a listing whose reported runs all have build times; `None` otherwise.
pub fn try_parse(content: &String) -> (r: Option<Vec<Pipeline>>)
    ensures
        r is Some <==> parse_accepts(content@),
        r matches Some(v) ==> latest_per_name(reported_runs(content@), documents(v@)),
{
    match Json::parse(content.as_str()) {
        None => None,
        Some(doc) => match take_values(doc) {
            None => None,
            Some(values) => {
                let pipelines = supported_pipelines(values);
                let accepted = all_have_build_times(&pipelines);
                proof {
                    let runs = reported_runs(content@);
                    assert(documents(pipelines@) == runs);
                    if !accepted {
                        let j = choose|j: int| 0 <= j < pipelines@.len() && !has_build_time(#[trigger] documents(pipelines@)[j]);
                        assert(!has_build_time(runs[j]));
                    }
                }
                if accepted {
                    Some(latest_builds(pipelines))
                } else {
                    None
                }
            },
        },
    }
}

fn all_have_build_times(pipelines: &Vec<Pipeline>) -> (r: bool)
    ensures
        r == forall|j: int| 0 <= j < pipelines@.len() ==> has_build_time(#[trigger] documents(pipelines@)[j]),
{
    let n = pipelines.len();
    for i in 0..n
        invariant
            n == pipelines@.len(),
            forall|j: int| 0 <= j < i ==> has_build_time(#[trigger] documents(pipelines@)[j]),
    {
        if pipelines[i].try_build_time().is_none() {
            assert(!has_build_time(documents(pipelines@)[i as int]));
            return false;
        }
    }
    true
}

/// For each name among `pipelines`, its latest run.
fn latest_builds(pipelines: Vec<Pipeline>) -> (r: Vec<Pipeline>)
    requires
        forall|j: int| 0 <= j < pipelines@.len() ==> has_build_time(#[trigger] documents(pipelines@)[j]),
    ensures
        latest_per_name(documents(pipelines@), documents(r@)),
{
    let ghost runs = documents(pipelines@);
    let groups = group_by_name(pipelines);
    let ghost all = groups@;
    let mut out: Vec<Pipeline> = Vec::new();
    for entry in it: groups.into_iter()
        invariant
            it.seq() == all,
            is_grouping_by_name(runs, all),
            forall|j: int| 0 <= j < runs.len() ==> has_build_time(#[trigger] runs[j]),
            out@.len() == it.index(),
            forall|k: int|
                0 <= k < out@.len() ==> is_latest_of_its_name(runs, #[trigger] documents(out@)[k]),
            forall|k: int| 0 <= k < out@.len() ==> spec_name(#[trigger] documents(out@)[k]) == all[k].0@,
    {
        let ghost g = it.index() as int;
        assert(entry == all[g]);
        let (_, group) = entry;
        let ghost members = documents(group@);
        proof {
            assert(members == same_name(runs, all[g].0@));
            assert(all[g].1@.len() > 0);
            assert forall|k: int| 0 <= k < group@.len() implies has_build_time(#[trigger] documents(group@)[k]) by {
                lemma_filter_subset(runs, |data: Json| spec_name(data) == all[g].0@, k);
                let j = choose|j: int| 0 <= j < runs.len() && runs[j] == same_name(runs, all[g].0@)[k];
                assert(has_build_time(runs[j]));
            }
        }
        let latest = latest_build_of(group);
        proof {
            let i = choose|i: int| is_latest_in(members, i) && members[i] == latest@;
            assert(members[i] == all[g].1@[i]@);
            assert(spec_name(all[g].1@[i]@) == all[g].0@);
            assert(spec_name(latest@) == all[g].0@);
            assert(is_latest_in(same_name(runs, spec_name(latest@)), i)
                && same_name(runs, spec_name(latest@))[i] == latest@);
            assert(is_latest_of_its_name(runs, latest@));
        }
        let ghost prev = out@;
        out.push(latest);
        proof {
            assert(out@ == prev.push(latest));
            assert(documents(out@)[g] == latest@);
            assert forall|k: int| 0 <= k < prev.len() implies documents(out@)[k] == documents(prev)[k] by {}
            assert forall|k: int| 0 <= k < out@.len() implies spec_name(#[trigger] documents(out@)[k]) == all[k].0@ by {
                if k < prev.len() {
                    assert(documents(out@)[k] == documents(prev)[k]);
                    assert(spec_name(documents(prev)[k]) == all[k].0@);
                }
            }
            assert forall|k: int| 0 <= k < out@.len() implies is_latest_of_its_name(runs, #[trigger] documents(out@)[k]) by {
                if k < prev.len() {
                    assert(documents(out@)[k] == documents(prev)[k]);
                    assert(is_latest_of_its_name(runs, documents(prev)[k]));
                }
            }
        }
    }
    proof {
        let outs = documents(out@);
        assert(out@.len() == all.len());
        assert forall|k: int| 0 <= k < outs.len() implies is_latest_of_its_name(runs, #[trigger] outs[k]) by {}
        assert forall|k1: int, k2: int|
            0 <= k1 < outs.len() && 0 <= k2 < outs.len() && k1 != k2 implies spec_name(#[trigger] outs[k1])
                != spec_name(#[trigger] outs[k2]) by {
            assert(all[k1].0@ != all[k2].0@);
        }
        assert forall|j: int| 0 <= j < runs.len() implies has_run_named(outs, spec_name(#[trigger] runs[j])) by {
            let g = choose|g: int| 0 <= g < all.len() && all[g].0@ == spec_name(runs[j]);
            assert(spec_name(outs[g]) == spec_name(runs[j]));
        }
        assert(latest_per_name(runs, outs));
    }
    out
}

/// The latest run of a group: the last of those with the latest build time.
fn latest_build_of(group: Vec<Pipeline>) -> (r: Pipeline)
    requires
        group@.len() > 0,
        forall|k: int| 0 <= k < group@.len() ==> has_build_time(#[trigger] documents(group@)[k]),
    ensures
        exists|i: int| is_latest_in(documents(group@), i) && documents(group@)[i] == r@,
{
    let ghost runs = documents(group@);
    let n = group.len();
    let mut best: usize = 0;
    assert(runs[0] == group@[0]@);
    let mut best_time: BuildTime = group[0].build_time();
    for i in 1..n
        invariant
            n == group@.len(),
            runs == documents(group@),
            forall|k: int| 0 <= k < n ==> has_build_time(#[trigger] runs[k]),
            best < i,
            best_time == spec_build_time(runs[best as int]),
            forall|k: int| 0 <= k < i ==> not_later(spec_build_time(#[trigger] runs[k]), best_time),
            forall|k: int| best < k < i ==> !not_later(best_time, spec_build_time(#[trigger] runs[k])),
    {
        assert(runs[i as int] == group@[i as int]@);
        let time = group[i].build_time();
        if best_time.is_not_later_than(&time) {
            best = i;
            best_time = time;
        }
    }
    let mut group = group;
    let r = group.remove(best);
    assert(is_latest_in(runs, best as int));
    r
}

} // verus!
