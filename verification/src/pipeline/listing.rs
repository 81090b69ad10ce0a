//! Bitbucket's listing of pipeline runs: its `values`, the runs the feed reports, and the runs
//! grouped by the name they are reported under.
use vstd::prelude::*;
use itertools::Itertools;
use crate::json::{spec_as_array, spec_get, spec_index, str_by_one_key, str_by_two_keys, Json};
use crate::pipeline::fields::{lemma_kind_follows_target, spec_kind, PipelineKind};
use crate::pipeline::model::{spec_name, Pipeline};

verus! {

/// The documents of a sequence of runs.
pub open spec fn documents(pipelines: Seq<Pipeline>) -> Seq<Json> {
    pipelines.map_values(|p: Pipeline| p@)
}

/// The `values` array of a listing.
pub open spec fn document_values(doc: Json) -> Option<Seq<Json>> {
    match spec_get(doc, "values"@) {
        Some(values) => spec_as_array(values),
        None => None,
    }
}

/// The run is of a kind the feed reports.
pub open spec fn is_supported(data: Json) -> bool {
    spec_kind(data) != PipelineKind::Unknown
}

/// The feed reports a run exactly when it is a branch pipeline of `main` or a custom pipeline: a
/// branch pipeline of any other branch, or a run with no known selector, is left out.
pub proof fn lemma_supported_follows_target(data: Json)
    ensures
        is_supported(data) <==> ({
            &&& str_by_one_key(spec_index(data, "target"@), "ref_type"@) == Some("branch"@)
            &&& str_by_one_key(spec_index(data, "target"@), "ref_name"@) == Some("main"@)
            &&& str_by_two_keys(spec_index(data, "target"@), "selector"@, "type"@) == Some("branches"@)
        } || str_by_two_keys(spec_index(data, "target"@), "selector"@, "type"@) == Some("custom"@)),
{
    lemma_kind_follows_target(data);
}

/// The runs among `values` that the feed reports, in their order.
pub open spec fn supported_documents(values: Seq<Json>) -> Seq<Json> {
    values.filter(|data: Json| is_supported(data))
}

/// The runs among `runs` reported under `name`, in their order.
pub open spec fn same_name(runs: Seq<Json>, name: Seq<char>) -> Seq<Json> {
    runs.filter(|data: Json| spec_name(data) == name)
}

/// No two runs of `out` are reported under the same name.
pub open spec fn names_distinct(out: Seq<Json>) -> bool {
    forall|k1: int, k2: int|
        0 <= k1 < out.len() && 0 <= k2 < out.len() && k1 != k2 ==> spec_name(#[trigger] out[k1])
            != spec_name(#[trigger] out[k2])
}

/// Some run of `out` is reported under `name`.
pub open spec fn has_run_named(out: Seq<Json>, name: Seq<char>) -> bool {
    exists|k: int| 0 <= k < out.len() && spec_name(#[trigger] out[k]) == name
}

/// `groups` holds, for each name among `runs`, once, that name and the runs reported under it.
pub open spec fn is_grouping_by_name(runs: Seq<Json>, groups: Seq<(String, Vec<Pipeline>)>) -> bool {
    &&& forall|g: int|
        0 <= g < groups.len() ==> documents(#[trigger] groups[g].1@) == same_name(runs, groups[g].0@)
    &&& forall|g: int| 0 <= g < groups.len() ==> (#[trigger] groups[g]).1@.len() > 0
    &&& forall|g: int, k: int|
        0 <= g < groups.len() && 0 <= k < groups[g].1@.len() ==> spec_name(
            (#[trigger] groups[g].1@[k])@,
        ) == groups[g].0@
    &&& forall|g1: int, g2: int|
        0 <= g1 < groups.len() && 0 <= g2 < groups.len() && g1 != g2 ==> (#[trigger] groups[g1]).0@
            != (#[trigger] groups[g2]).0@
    &&& forall|j: int|
        0 <= j < runs.len() ==> exists|g: int|
            0 <= g < groups.len() && (#[trigger] groups[g]).0@ == spec_name(#[trigger] runs[j])
}

/// Calls itertools' `into_group_map_by` with `Pipeline::name` as the key, and lists the map it
/// returns. The contract states what its source shows of every outcome: one group per distinct
/// name, each holding the runs of that name in their order. The order of the groups, which
/// follows a randomly seeded `HashMap`, is left unsaid.
#[verifier::external_body]
pub(crate) fn group_by_name(pipelines: Vec<Pipeline>) -> (groups: Vec<(String, Vec<Pipeline>)>)
    ensures
        is_grouping_by_name(documents(pipelines@), groups@),
{
    pipelines.into_iter().into_group_map_by(|p: &Pipeline| p.name()).into_iter().collect()
}

/// An element of a filtered sequence is an element of the sequence.
pub proof fn lemma_filter_subset<A>(s: Seq<A>, pred: spec_fn(A) -> bool, i: int)
    requires
        0 <= i < s.filter(pred).len(),
    ensures
        s.contains(s.filter(pred)[i]),
        pred(s.filter(pred)[i]),
    decreases s.len(),
{
    reveal(Seq::filter);
    if s.len() > 0 {
        let rest = s.drop_last().filter(pred);
        if pred(s.last()) && i == rest.len() {
            assert(s[s.len() - 1] == s.last());
        } else {
            lemma_filter_subset(s.drop_last(), pred, i);
            let j = choose|j: int| 0 <= j < s.drop_last().len() && s.drop_last()[j] == rest[i];
            assert(s[j] == rest[i]);
        }
    }
}

/// A value is in a filtered sequence exactly when it is in the sequence and passes the filter.
pub proof fn lemma_filter_member_iff<A>(s: Seq<A>, pred: spec_fn(A) -> bool, x: A)
    ensures
        s.filter(pred).contains(x) <==> (s.contains(x) && pred(x)),
{
    if s.filter(pred).contains(x) {
        let i = choose|i: int| 0 <= i < s.filter(pred).len() && s.filter(pred)[i] == x;
        lemma_filter_subset(s, pred, i);
    }
    if s.contains(x) && pred(x) {
        let i = choose|i: int| 0 <= i < s.len() && s[i] == x;
        s.lemma_filter_contains(pred, i);
    }
}

/// Two sequences without repeated elements that hold the same elements are equal as multisets.
pub proof fn lemma_same_members_same_multiset<A>(a: Seq<A>, b: Seq<A>)
    requires
        a.no_duplicates(),
        b.no_duplicates(),
        forall|x: A| a.contains(x) <==> b.contains(x),
    ensures
        a.to_multiset() == b.to_multiset(),
{
    a.lemma_multiset_has_no_duplicates();
    b.lemma_multiset_has_no_duplicates();
    assert forall|x: A| a.to_multiset().count(x) == b.to_multiset().count(x) by {
        vstd::seq_lib::to_multiset_contains(a, x);
        vstd::seq_lib::to_multiset_contains(b, x);
        if a.contains(x) {
            assert(a.to_multiset().contains(x));
            assert(b.to_multiset().contains(x));
        }
    }
    assert(a.to_multiset() =~= b.to_multiset());
}

/// Inserting a value the feed does not report leaves the reported runs as they are.
pub proof fn lemma_unsupported_insert_keeps_supported(values: Seq<Json>, pos: int, extra: Json)
    requires
        0 <= pos <= values.len(),
        !is_supported(extra),
    ensures
        supported_documents(values.insert(pos, extra)) == supported_documents(values),
{
    let pred = |data: Json| is_supported(data);
    let front = values.take(pos);
    let back = values.skip(pos);
    assert(values =~= front + back);
    assert(values.insert(pos, extra) =~= front + (seq![extra] + back));
    Seq::filter_distributes_over_add(front, back, pred);
    Seq::filter_distributes_over_add(front, seq![extra] + back, pred);
    Seq::filter_distributes_over_add(seq![extra], back, pred);
    assert(seq![extra].filter(pred) =~= Seq::<Json>::empty()) by {
        reveal_with_fuel(Seq::filter, 2);
        assert(seq![extra].drop_last() =~= Seq::<Json>::empty());
        assert(seq![extra].last() == extra);
        assert(!pred(extra));
    }
    assert(Seq::<Json>::empty() + back.filter(pred) =~= back.filter(pred));
}

/// Runs reported under distinct names are distinct.
pub proof fn lemma_distinct_names_no_duplicates(out: Seq<Json>)
    requires
        names_distinct(out),
    ensures
        out.no_duplicates(),
{
    assert forall|i: int, j: int| 0 <= i < out.len() && 0 <= j < out.len() && i != j implies out[i] != out[j] by {
        assert(spec_name(out[i]) != spec_name(out[j]));
    }
}

/// Takes the `values` array out of a listing.
pub fn take_values(doc: Json) -> (r: Option<Vec<Json>>)
    ensures
        match r {
            Some(values) => document_values(doc) == Some(values@),
            None => document_values(doc) is None,
        },
{
    match doc.into_member("values") {
        Some(values) => values.into_array(),
        None => None,
    }
}

/// The runs among `values` that the feed reports, in their order.
pub fn supported_pipelines(values: Vec<Json>) -> (r: Vec<Pipeline>)
    ensures
        documents(r@) == supported_documents(values@),
{
    let ghost all = values@;
    let mut r: Vec<Pipeline> = Vec::new();
    for data in it: values.into_iter()
        invariant
            it.seq() == all,
            documents(r@) == supported_documents(all.take(it.index() as int)),
    {
        let ghost i = it.index();
        let p = Pipeline::new(data);
        proof {
            assert(all.take(i + 1).drop_last() =~= all.take(i as int));
            reveal_with_fuel(Seq::filter, 1);
        }
        if p.supported() {
            r.push(p);
            assert(documents(r@) =~= documents(r@.drop_last()).push(data));
        }
    }
    assert(all.take(all.len() as int) =~= all);
    r
}

} // verus!
