use vstd::prelude::*;

use crate::backend::{
    created_developer, empty_state, join_outcome, joined, new_profile, send_outcome, sent,
    BackendView,
};
use crate::records::{BackendError, MessageView};

verus! {

broadcast use vstd::seq_lib::to_multiset_build;

/// The state and the identifiers handed out after creating one developer
/// profile per input (name, location, ideas), in order.
pub open spec fn create_developers(
    v: BackendView,
    inputs: Seq<(Seq<char>, Seq<char>, Seq<Seq<char>>)>,
) -> (BackendView, Seq<u64>)
    decreases inputs.len(),
{
    if inputs.len() == 0 {
        (v, Seq::empty())
    } else {
        let (w, ids) = create_developers(v, inputs.drop_last());
        let x = inputs.last();
        let (w2, id) = created_developer(w, x.0, x.1, x.2);
        (w2, ids.push(id))
    }
}

/// Creating developer profiles one after another hands out consecutive
/// identifiers, counting up from the counter's value, as long as the counter
/// does not reach the end of the 64-bit range.
pub proof fn lemma_developer_ids_consecutive(
    v: BackendView,
    inputs: Seq<(Seq<char>, Seq<char>, Seq<Seq<char>>)>,
)
    requires
        v.next_developer_id + inputs.len() <= u64::MAX,
    ensures
        create_developers(v, inputs).1.len() == inputs.len(),
        create_developers(v, inputs).0.next_developer_id == v.next_developer_id + inputs.len(),
        forall|i: int|
            0 <= i < inputs.len() ==> #[trigger] create_developers(v, inputs).1[i] == v.next_developer_id
                + i,
    decreases inputs.len(),
{
    if inputs.len() > 0 {
        lemma_developer_ids_consecutive(v, inputs.drop_last());
    }
}

/// From a fresh service, the identifiers returned by successive
/// `create_developer_profile` calls are 0, 1, 2, ..., so strictly increasing.
pub proof fn lemma_developer_ids_increase_from_zero(
    inputs: Seq<(Seq<char>, Seq<char>, Seq<Seq<char>>)>,
)
    requires
        inputs.len() <= u64::MAX,
    ensures
        forall|i: int| 0 <= i < inputs.len() ==> #[trigger] create_developers(empty_state(), inputs).1[i] == i,
        forall|i: int, j: int|
            0 <= i < j < inputs.len() ==> create_developers(empty_state(), inputs).1[i]
                < create_developers(empty_state(), inputs).1[j],
{
    lemma_developer_ids_consecutive(empty_state(), inputs);
}

/// Looking up the identifier that `create_developer_profile` returned yields
/// the profile it created.
pub proof fn lemma_get_after_create(
    v: BackendView,
    name: Seq<char>,
    location: Seq<char>,
    ideas: Seq<Seq<char>>,
)
    ensures
        created_developer(v, name, location, ideas).0.developers.contains_key(
            created_developer(v, name, location, ideas).1,
        ),
        created_developer(v, name, location, ideas).0.developers[created_developer(
            v,
            name,
            location,
            ideas,
        ).1] == new_profile(name, location, ideas),
{
}

/// Between an existing developer and an existing group, a join succeeds
/// exactly when the group's idea is one of the developer's ideas, and fails
/// with an idea mismatch otherwise. On success the group occurs once more in
/// the developer's groups, and the developer once more in the group's members.
pub proof fn lemma_join_iff_idea(v: BackendView, d: u64, g: u64)
    requires
        v.developers.contains_key(d),
        v.groups.contains_key(g),
    ensures
        join_outcome(v, d, g) is Ok <==> v.developers[d].ideas.contains(v.groups[g].idea),
        !(join_outcome(v, d, g) is Ok) ==> join_outcome(v, d, g) == Err::<(), BackendError>(
            BackendError::IdeaMismatch { developer_id: d, group_id: g },
        ),
        join_outcome(v, d, g) is Ok ==> joined(v, d, g).developers[d].groups.to_multiset().count(g)
            == v.developers[d].groups.to_multiset().count(g) + 1,
        join_outcome(v, d, g) is Ok ==> joined(v, d, g).groups[g].members.to_multiset().count(d)
            == v.groups[g].members.to_multiset().count(d) + 1,
{
}

/// Between an existing developer and an existing group, sending fails with
/// "not a member" when the sender is not among the group's members; otherwise
/// it succeeds, and the message stored under the next message identifier holds
/// the sent content.
pub proof fn lemma_send_needs_membership(v: BackendView, s: u64, g: u64, c: Seq<char>)
    requires
        v.developers.contains_key(s),
        v.groups.contains_key(g),
    ensures
        !v.groups[g].members.contains(s) ==> send_outcome(v, s, g) == Err::<(), BackendError>(
            BackendError::NotMember { sender_id: s, group_id: g },
        ),
        v.groups[g].members.contains(s) ==> send_outcome(v, s, g) is Ok,
        sent(v, s, g, c).messages.contains_key(v.next_message_id),
        sent(v, s, g, c).messages[v.next_message_id] == (MessageView {
            sender_id: s,
            group_id: g,
            content: c,
        }),
{
}

/// After a successful join, the developer may send messages to the group.
pub proof fn lemma_join_then_send(v: BackendView, d: u64, g: u64)
    requires
        join_outcome(v, d, g) is Ok,
    ensures
        send_outcome(joined(v, d, g), d, g) is Ok,
{
    let w = joined(v, d, g);
    assert(w.groups[g].members.last() == d);
    assert(w.groups[g].members.contains(d));
}

} // verus!
