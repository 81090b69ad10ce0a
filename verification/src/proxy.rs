//! The CCTray feed the proxy serves, and the runs it is made of.
use vstd::prelude::*;
use crate::config::Config;
use crate::pipeline::model::{renderable, spec_to_xml, Pipeline};

verus! {

/// The proxy: the address it listens on and the repositories it reports on.
#[derive(Debug)]
pub struct ProxyServer {
    pub addr: &'static str,
    pub configs: Vec<Config>,
}

/// `items`, separated by `sep`.
pub open spec fn joined(items: Seq<Seq<char>>, sep: Seq<char>) -> Seq<char>
    decreases items.len(),
{
    if items.len() == 0 {
        Seq::empty()
    } else if items.len() == 1 {
        items[0]
    } else {
        joined(items.drop_last(), sep) + sep + items.last()
    }
}

/// Where `items[k]` starts in `joined(items, sep)`: each item before it, followed by a separator.
pub open spec fn offset(items: Seq<Seq<char>>, sep: Seq<char>, k: int) -> int
    decreases k,
{
    if k <= 0 {
        0
    } else {
        offset(items, sep, k - 1) + items[k - 1].len() + sep.len()
    }
}

/// An offset reads only the items before it.
proof fn lemma_offset_of_prefix(items: Seq<Seq<char>>, sep: Seq<char>, k: int)
    requires
        0 <= k < items.len(),
    ensures
        offset(items.drop_last(), sep, k) == offset(items, sep, k),
    decreases k,
{
    if k > 0 {
        lemma_offset_of_prefix(items, sep, k - 1);
    }
}

/// Offsets grow with the index: an item and a separator lie between two of them.
proof fn lemma_offset_grows(items: Seq<Seq<char>>, sep: Seq<char>, a: int, b: int)
    requires
        0 <= a < b,
    ensures
        offset(items, sep, a) + items[a].len() + sep.len() <= offset(items, sep, b),
    decreases b,
{
    assert(offset(items, sep, b) == offset(items, sep, b - 1) + items[b - 1].len() + sep.len());
    if a < b - 1 {
        lemma_offset_grows(items, sep, a, b - 1);
    }
}

/// A stretch of the front of a concatenation is that stretch of the front.
proof fn lemma_subrange_of_front(front: Seq<char>, back: Seq<char>, lo: int, hi: int)
    requires
        0 <= lo <= hi <= front.len(),
    ensures
        (front + back).subrange(lo, hi) == front.subrange(lo, hi),
{
    assert((front + back).subrange(lo, hi) =~= front.subrange(lo, hi));
}

/// Joining a further item appends a separator and the item.
pub proof fn lemma_joined_push(items: Seq<Seq<char>>, sep: Seq<char>, item: Seq<char>)
    requires
        items.len() > 0,
    ensures
        joined(items.push(item), sep) == joined(items, sep) + sep + item,
{
    assert(items.push(item).drop_last() =~= items);
}

/// One step of `lemma_joined_holds_each_item`: where the items but the last lie at their
/// offsets, so do all of them.
proof fn lemma_joined_step_item(items: Seq<Seq<char>>, sep: Seq<char>, k: int)
    requires
        items.len() > 1,
        0 <= k < items.len(),
        joined(items.drop_last(), sep).len() == offset(items.drop_last(), sep, items.len() - 1) - sep.len(),
        k < items.len() - 1 ==> joined(items.drop_last(), sep).subrange(
            offset(items.drop_last(), sep, k),
            offset(items.drop_last(), sep, k) + items.drop_last()[k].len(),
        ) == items.drop_last()[k],
    ensures
        joined(items, sep).subrange(offset(items, sep, k), offset(items, sep, k) + items[k].len())
            == items[k],
{
    let n = items.len() as int;
    let dl = items.drop_last();
    let j = joined(dl, sep);
    let o = offset(items, sep, k);
    lemma_offset_of_prefix(items, sep, n - 1);
    assert(joined(items, sep) == j + sep + items.last());
    assert(j + sep + items.last() == j + (sep + items.last()));
    if k < n - 1 {
        lemma_offset_of_prefix(items, sep, k);
        lemma_offset_grows(items, sep, k, n - 1);
        if k > 0 {
            lemma_offset_grows(items, sep, 0, k);
        }
        lemma_subrange_of_front(j, sep + items.last(), o, o + items[k].len());
    } else {
        assert(joined(items, sep).subrange(o, o + items[k].len()) =~= items.last());
    }
}

/// One step of `lemma_joined_holds_each_item`: where the separators between the items but the
/// last lie before their offsets, so do all of them.
proof fn lemma_joined_step_separator(items: Seq<Seq<char>>, sep: Seq<char>, k: int)
    requires
        items.len() > 1,
        0 < k < items.len(),
        joined(items.drop_last(), sep).len() == offset(items.drop_last(), sep, items.len() - 1) - sep.len(),
        k < items.len() - 1 ==> joined(items.drop_last(), sep).subrange(
            offset(items.drop_last(), sep, k) - sep.len(),
            offset(items.drop_last(), sep, k),
        ) == sep,
    ensures
        joined(items, sep).subrange(offset(items, sep, k) - sep.len(), offset(items, sep, k)) == sep,
{
    let n = items.len() as int;
    let dl = items.drop_last();
    let j = joined(dl, sep);
    let o = offset(items, sep, k);
    lemma_offset_of_prefix(items, sep, n - 1);
    assert(joined(items, sep) == j + sep + items.last());
    assert(j + sep + items.last() == j + (sep + items.last()));
    if k < n - 1 {
        lemma_offset_of_prefix(items, sep, k);
        lemma_offset_grows(items, sep, k, n - 1);
        lemma_offset_grows(items, sep, 0, k);
        lemma_subrange_of_front(j, sep + items.last(), o - sep.len(), o);
    } else {
        assert(joined(items, sep).subrange(o - sep.len(), o) =~= sep);
    }
}

/// `joined(items, sep)` is each item in turn, a separator between two: `items[k]` stands at
/// `offset(items, sep, k)`, a separator right before each item but the first, and nothing
/// after the last item.
pub proof fn lemma_joined_holds_each_item(items: Seq<Seq<char>>, sep: Seq<char>)
    ensures
        items.len() == 0 ==> joined(items, sep).len() == 0,
        items.len() > 0 ==> joined(items, sep).len() == offset(items, sep, items.len() as int) - sep.len(),
        forall|k: int|
            0 <= k < items.len() ==> 0 <= offset(items, sep, k) && offset(items, sep, k) + items[k].len()
                <= joined(items, sep).len() && joined(items, sep).subrange(
                offset(items, sep, k),
                offset(items, sep, k) + items[k].len(),
            ) == #[trigger] items[k],
        forall|k: int|
            0 < k < items.len() ==> sep.len() <= offset(items, sep, k) && joined(items, sep).subrange(
                #[trigger] offset(items, sep, k) - sep.len(),
                offset(items, sep, k),
            ) == sep,
    decreases items.len(),
{
    let n = items.len() as int;
    if n == 1 {
        assert(offset(items, sep, 1) == offset(items, sep, 0) + items[0].len() + sep.len());
        assert(offset(items, sep, 0) == 0);
        assert(joined(items, sep).subrange(0, items[0].len() as int) =~= items[0]);
    } else if n > 1 {
        let dl = items.drop_last();
        lemma_joined_holds_each_item(dl, sep);
        lemma_offset_of_prefix(items, sep, n - 1);
        assert(joined(items, sep) == joined(dl, sep) + sep + items.last());
        assert forall|k: int| 0 <= k < n implies 0 <= offset(items, sep, k) && offset(items, sep, k)
            + items[k].len() <= joined(items, sep).len() && joined(items, sep).subrange(
            offset(items, sep, k),
            offset(items, sep, k) + items[k].len(),
        ) == #[trigger] items[k] by {
            if k < n - 1 {
                assert(dl[k] == items[k]);
                lemma_offset_grows(items, sep, k, n - 1);
            }
            if k > 0 {
                lemma_offset_grows(items, sep, 0, k);
            }
            lemma_joined_step_item(items, sep, k);
        }
        assert forall|k: int| 0 < k < n implies sep.len() <= offset(items, sep, k) && joined(
            items,
            sep,
        ).subrange(#[trigger] offset(items, sep, k) - sep.len(), offset(items, sep, k)) == sep by {
            if k < n - 1 {
                assert(offset(dl, sep, k) == offset(dl, sep, k));
            }
            lemma_offset_grows(items, sep, 0, k);
            lemma_joined_step_separator(items, sep, k);
        }
        assert(offset(items, sep, n) == offset(items, sep, n - 1) + items[n - 1].len() + sep.len());
    }
}

/// The entries of the runs, in order.
pub open spec fn project_entries(pipelines: Seq<Pipeline>) -> Seq<Seq<char>> {
    pipelines.map_values(|p: Pipeline| spec_to_xml(p@))
}

/// The feed: the entries of the runs, one per line, inside `<Projects>`.
pub open spec fn feed_text(pipelines: Seq<Pipeline>) -> Seq<char> {
    "<Projects>"@ + joined(project_entries(pipelines), "\n"@) + "</Projects>"@
}

/// The feed holds one entry per run, in the order of the runs: after `<Projects>`, the entry of
/// `pipelines[k]` stands at the offset of the `k`-th entry, a line break before each entry but the
/// first, and `</Projects>` right after the last.
pub proof fn lemma_feed_holds_each_entry(pipelines: Seq<Pipeline>)
    ensures
        feed_text(pipelines).subrange(0, "<Projects>"@.len() as int) == "<Projects>"@,
        forall|k: int|
            0 <= k < pipelines.len() ==> feed_text(pipelines).subrange(
                "<Projects>"@.len() + offset(project_entries(pipelines), "\n"@, k),
                "<Projects>"@.len() + offset(project_entries(pipelines), "\n"@, k) + spec_to_xml(
                    pipelines[k]@,
                ).len(),
            ) == spec_to_xml(#[trigger] pipelines[k]@),
        forall|k: int|
            0 < k < pipelines.len() ==> feed_text(pipelines).subrange(
                "<Projects>"@.len() + #[trigger] offset(project_entries(pipelines), "\n"@, k)
                    - "\n"@.len(),
                "<Projects>"@.len() + offset(project_entries(pipelines), "\n"@, k),
            ) == "\n"@,
        pipelines.len() == 0 ==> feed_text(pipelines) == "<Projects></Projects>"@,
        pipelines.len() > 0 ==> feed_text(pipelines).len() == "<Projects>"@.len() + offset(
            project_entries(pipelines),
            "\n"@,
            pipelines.len() as int,
        ) - "\n"@.len() + "</Projects>"@.len(),
        feed_text(pipelines).subrange(
            feed_text(pipelines).len() - "</Projects>"@.len(),
            feed_text(pipelines).len() as int,
        ) == "</Projects>"@,
{
    let entries = project_entries(pipelines);
    lemma_wrapped_holds_each_item("<Projects>"@, entries, "\n"@, "</Projects>"@);
    assert forall|k: int| 0 <= k < pipelines.len() implies feed_text(pipelines).subrange(
        "<Projects>"@.len() + offset(entries, "\n"@, k),
        "<Projects>"@.len() + offset(entries, "\n"@, k) + spec_to_xml(pipelines[k]@).len(),
    ) == spec_to_xml(#[trigger] pipelines[k]@) by {
        assert(entries[k] == spec_to_xml(pipelines[k]@));
    }
    if pipelines.len() == 0 {
        lemma_empty_feed(joined(entries, "\n"@));
    }
}

/// `head`, then `items` joined by `sep`, then `tail`: each item stands at its offset after the
/// head, a separator before each item but the first.
proof fn lemma_wrapped_holds_each_item(head: Seq<char>, items: Seq<Seq<char>>, sep: Seq<char>, tail: Seq<char>)
    ensures
        (head + joined(items, sep) + tail).subrange(0, head.len() as int) == head,
        (head + joined(items, sep) + tail).subrange(
            (head + joined(items, sep) + tail).len() - tail.len(),
            (head + joined(items, sep) + tail).len() as int,
        ) == tail,
        forall|k: int|
            0 <= k < items.len() ==> (head + joined(items, sep) + tail).subrange(
                head.len() + offset(items, sep, k),
                head.len() + offset(items, sep, k) + items[k].len(),
            ) == #[trigger] items[k],
        forall|k: int|
            0 < k < items.len() ==> (head + joined(items, sep) + tail).subrange(
                head.len() + #[trigger] offset(items, sep, k) - sep.len(),
                head.len() + offset(items, sep, k),
            ) == sep,
        items.len() == 0 ==> (head + joined(items, sep) + tail).len() == head.len() + tail.len(),
        items.len() > 0 ==> (head + joined(items, sep) + tail).len() == head.len() + offset(
            items,
            sep,
            items.len() as int,
        ) - sep.len() + tail.len(),
{
    let body = joined(items, sep);
    let text = head + body + tail;
    assert(text.subrange(0, head.len() as int) == head) by {
        assert(text.subrange(0, head.len() as int) =~= head);
    }
    assert(text.subrange(text.len() - tail.len(), text.len() as int) == tail) by {
        assert(text.subrange(text.len() - tail.len(), text.len() as int) =~= tail);
    }
    assert forall|k: int| 0 <= k < items.len() implies text.subrange(
        head.len() + offset(items, sep, k),
        head.len() + offset(items, sep, k) + items[k].len(),
    ) == #[trigger] items[k] by {
        lemma_joined_holds_each_item(items, sep);
        let o = offset(items, sep, k);
        lemma_subrange_of_middle(head, body, tail, o, o + items[k].len());
    }
    assert forall|k: int| 0 < k < items.len() implies text.subrange(
        head.len() + #[trigger] offset(items, sep, k) - sep.len(),
        head.len() + offset(items, sep, k),
    ) == sep by {
        lemma_joined_holds_each_item(items, sep);
        let o = offset(items, sep, k);
        assert(o + items[k].len() <= body.len());
        lemma_subrange_of_middle(head, body, tail, o - sep.len(), o);
    }
    assert((items.len() == 0 ==> body.len() == 0) && (items.len() > 0 ==> body.len() == offset(
        items,
        sep,
        items.len() as int,
    ) - sep.len())) by {
        lemma_joined_holds_each_item(items, sep);
    }
}

/// A stretch of the middle of a concatenation is that stretch of the middle.
proof fn lemma_subrange_of_middle(head: Seq<char>, body: Seq<char>, tail: Seq<char>, lo: int, hi: int)
    requires
        0 <= lo <= hi <= body.len(),
    ensures
        (head + body + tail).subrange(head.len() + lo, head.len() + hi) == body.subrange(lo, hi),
{
    assert((head + body + tail).subrange(head.len() + lo, head.len() + hi) =~= body.subrange(lo, hi));
}

/// The feed of no runs.
proof fn lemma_empty_feed(body: Seq<char>)
    requires
        body.len() == 0,
    ensures
        "<Projects>"@ + body + "</Projects>"@ == "<Projects></Projects>"@,
{
    reveal_strlit("<Projects>");
    reveal_strlit("</Projects>");
    reveal_strlit("<Projects></Projects>");
    assert("<Projects>"@ + body + "</Projects>"@ =~= "<Projects></Projects>"@);
}

/// The runs fetched for all repositories, in the order of the repositories; a fetch that failed
/// contributes none.
pub open spec fn fetched_runs(batches: Seq<Option<Vec<Pipeline>>>) -> Seq<Pipeline>
    decreases batches.len(),
{
    if batches.len() == 0 {
        Seq::empty()
    } else {
        fetched_runs(batches.drop_last()) + match batches.last() {
            Some(batch) => batch@,
            None => Seq::empty(),
        }
    }
}

/// The body of the CCTray feed for `pipelines`.
pub fn projects_feed(pipelines: &Vec<Pipeline>) -> (r: String)
    requires
        forall|k: int| 0 <= k < pipelines@.len() ==> renderable(#[trigger] pipelines@[k]@),
    ensures
        r@ == feed_text(pipelines@),
{
    let ghost entries = project_entries(pipelines@);
    let mut body = String::new();
    let n = pipelines.len();
    for i in 0..n
        invariant
            n == pipelines@.len(),
            entries == project_entries(pipelines@),
            forall|k: int| 0 <= k < n ==> renderable(#[trigger] pipelines@[k]@),
            body@ == joined(entries.take(i as int), "\n"@),
    {
        let xml = pipelines[i].to_xml();
        assert(entries.take(i + 1).drop_last() =~= entries.take(i as int));
        assert(entries.take(i + 1).last() == xml@);
        if i > 0 {
            body.append("\n");
        } else {
            assert(entries.take(0) =~= Seq::<Seq<char>>::empty());
            assert(body@ =~= Seq::<char>::empty());
        }
        body.append(xml.as_str());
        assert(i == 0 ==> body@ =~= entries.take(1)[0]);
    }
    assert(entries.take(n as int) =~= entries);
    let mut r = String::from_str("<Projects>");
    r.append(body.as_str());
    r.append("</Projects>");
    r
}

/// Gathers the runs fetched for each repository; a fetch that failed contributes none.
pub fn merge_fetched(batches: Vec<Option<Vec<Pipeline>>>) -> (r: Vec<Pipeline>)
    ensures
        r@ == fetched_runs(batches@),
{
    let ghost all = batches@;
    let mut r: Vec<Pipeline> = Vec::new();
    for batch in it: batches.into_iter()
        invariant
            it.seq() == all,
            r@ == fetched_runs(all.take(it.index() as int)),
    {
        assert(all.take(it.index() + 1).drop_last() =~= all.take(it.index() as int));
        match batch {
            Some(mut runs) => {
                r.append(&mut runs);
            },
            None => {
                assert(r@ =~= r@ + Seq::<Pipeline>::empty());
            },
        }
    }
    assert(all.take(all.len() as int) =~= all);
    r
}

} // verus!
