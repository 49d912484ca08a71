use vstd::prelude::*;

use crate::registry::{has_id, ids, listed, selects, unique_ids};
use crate::tool::{tagged, ToolView};

verus! {

/// A filter that keeps every element returns the sequence itself.
proof fn lemma_filter_keeps_all(s: Seq<ToolView>, p: spec_fn(ToolView) -> bool)
    requires
        forall|i: int| 0 <= i < s.len() ==> p(#[trigger] s[i]),
    ensures
        s.filter(p) == s,
    decreases s.len(),
{
    if s.len() > 0 {
        let rest = s.drop_last();
        lemma_filter_keeps_all(rest, p);
        assert(rest.push(s.last()) =~= s);
        rest.lemma_filter_push(s.last(), p);
    }
}

/// A filter that keeps no element returns the empty sequence.
proof fn lemma_filter_keeps_none(s: Seq<ToolView>, p: spec_fn(ToolView) -> bool)
    requires
        forall|i: int| 0 <= i < s.len() ==> !p(#[trigger] s[i]),
    ensures
        s.filter(p) == Seq::<ToolView>::empty(),
    decreases s.len(),
{
    if s.len() > 0 {
        let rest = s.drop_last();
        lemma_filter_keeps_none(rest, p);
        assert(rest.push(s.last()) =~= s);
        rest.lemma_filter_push(s.last(), p);
    }
}

/// A tool in `s` has an identifier that `has_id` sees.
proof fn lemma_member_has_id(s: Seq<ToolView>, i: int)
    requires
        0 <= i < s.len(),
    ensures
        has_id(s, s[i].id),
{
    assert(ids(s)[i] == s[i].id);
}

/// A listing without a filter returns every tool of the registry.
pub proof fn lemma_unfiltered_listing_is_everything(s: Seq<ToolView>)
    ensures
        listed(s, None) == s,
{
    lemma_filter_keeps_all(s, |v: ToolView| selects(None, v));
}

/// After a creation that added `t` under an identifier new to `before`, an
/// unfiltered listing holds the created tool exactly once: it is the one
/// entry with that identifier.
pub proof fn lemma_created_tool_listed_once(before: Seq<ToolView>, t: ToolView)
    requires
        !has_id(before, t.id),
    ensures
        listed(before.push(t), None).contains(t),
        listed(before.push(t), None).filter(|v: ToolView| v.id == t.id) == seq![t],
{
    let after = before.push(t);
    let same = |v: ToolView| v.id == t.id;
    lemma_unfiltered_listing_is_everything(after);
    assert(after[before.len() as int] == t);
    assert forall|i: int| 0 <= i < before.len() implies !same(#[trigger] before[i]) by {
        lemma_member_has_id(before, i);
    }
    lemma_filter_keeps_none(before, same);
    before.lemma_filter_push(t, same);
    assert(Seq::<ToolView>::empty().push(t) =~= seq![t]);
}

/// After a creation that added `t` under an identifier new to `before`, a
/// listing filtered by `tag` holds the created tool exactly when `t`
/// carries `tag`.
pub proof fn lemma_created_tool_listed_by_tag(before: Seq<ToolView>, t: ToolView, tag: Seq<char>)
    requires
        !has_id(before, t.id),
    ensures
        listed(before.push(t), Some(tag)).contains(t) <==> tagged(t, tag),
{
    let p = |v: ToolView| selects(Some(tag), v);
    before.lemma_filter_push(t, p);
    if tagged(t, tag) {
        assert(before.filter(p).push(t).last() == t);
    } else if before.filter(p).contains(t) {
        before.lemma_filter_contains_rev(p, t);
        let i = choose|i: int| 0 <= i < before.len() && before[i] == t;
        lemma_member_has_id(before, i);
    }
}

/// After removing the tool at position `i`, whose identifier is `id`, from a
/// registry with unique identifiers, no listing, filtered or not, holds a
/// tool with identifier `id`.
pub proof fn lemma_removed_tool_not_listed(
    before: Seq<ToolView>,
    i: int,
    id: u128,
    tag: Option<Seq<char>>,
)
    requires
        unique_ids(before),
        0 <= i < before.len(),
        before[i].id == id,
    ensures
        !has_id(listed(before.remove(i), tag), id),
{
    let after = before.remove(i);
    let p = |v: ToolView| selects(tag, v);
    let shown = listed(after, tag);
    if has_id(shown, id) {
        let k = choose|k: int| 0 <= k < ids(shown).len() && ids(shown)[k] == id;
        assert(shown.contains(shown[k]));
        after.lemma_filter_contains_rev(p, shown[k]);
        let j = choose|j: int| 0 <= j < after.len() && after[j] == shown[k];
        if j < i {
            assert(before[j] == after[j]);
        } else {
            assert(before[j + 1] == after[j]);
        }
    }
}

/// The states of a run of creations: `states[k + 1]` is `states[k]` with
/// `made[k]` added under an identifier new to `states[k]`.
pub open spec fn creation_run(states: Seq<Seq<ToolView>>, made: Seq<ToolView>) -> bool {
    &&& states.len() == made.len() + 1
    &&& forall|k: int|
        0 <= k < made.len() ==> {
            &&& states[k + 1] == #[trigger] states[k].push(made[k])
            &&& !has_id(states[k], made[k].id)
        }
}

/// Along a run of creations, each state is the first with the tools made
/// so far appended, and keeps identifiers unique.
proof fn lemma_creation_run_prefix(states: Seq<Seq<ToolView>>, made: Seq<ToolView>, k: int)
    requires
        creation_run(states, made),
        unique_ids(states[0]),
        0 <= k <= made.len(),
    ensures
        states[k] == states[0] + made.subrange(0, k),
        unique_ids(states[k]),
    decreases k,
{
    if k > 0 {
        lemma_creation_run_prefix(states, made, k - 1);
        let prev = states[k - 1];
        assert(states[k] == prev.push(made[k - 1]));
        assert(states[0] + made.subrange(0, k) =~= (states[0] + made.subrange(0, k - 1)).push(
            made[k - 1],
        ));
        assert forall|i: int, j: int| 0 <= i < j < states[k].len() implies states[k][i].id
            != states[k][j].id by {
            if j == prev.len() {
                lemma_member_has_id(prev, i);
            }
        }
    }
}

/// However creations are interleaved, once the lock has put them in some
/// order each created tool gets an identifier that no other one gets, and
/// the registry ends with as many tools as it started with plus the number
/// of creations.
pub proof fn lemma_creations_get_distinct_ids(states: Seq<Seq<ToolView>>, made: Seq<ToolView>)
    requires
        creation_run(states, made),
        unique_ids(states[0]),
    ensures
        forall|i: int, j: int| 0 <= i < j < made.len() ==> made[i].id != made[j].id,
        states.last().len() == states[0].len() + made.len(),
        unique_ids(states.last()),
{
    let n0 = states[0].len();
    assert forall|i: int, j: int| 0 <= i < j < made.len() implies made[i].id != made[j].id by {
        lemma_creation_run_prefix(states, made, j);
        assert(states[j][n0 + i] == made[i]);
        lemma_member_has_id(states[j], n0 + i);
        assert(states[j + 1] == states[j].push(made[j]));
    }
    lemma_creation_run_prefix(states, made, made.len() as int);
}

} // verus!
