//! Properties of the store that relate several operations, proved over the
//! abstract state that the operations' contracts speak of.
use vstd::prelude::*;
use crate::models::ChatMessage;
use crate::ordering::{
    count_id, has_id, insert_message, key_lt, lemma_count_id, lemma_insert_message,
    lemma_insert_page, lemma_page_commute, lemma_pin_messages, page_has_id, pin_messages, stamped,
    well_ordered, is_ordered,
};
use crate::projection::{ListItem, project_spec};
use crate::reconcile::{ChatEvent, reconciled};
use crate::store::{PAGE_SIZE, StoreState, after_begin, after_success, can_begin};

verus! {

/// Receiving the same message twice leaves the store as receiving it once
/// does, with exactly one entry for its identifier.
pub proof fn lemma_receive_twice(st: StoreState, m: ChatMessage)
    requires
        well_ordered(st.messages),
    ensures
        reconciled(reconciled(st, ChatEvent::ReceiveMessage(m)), ChatEvent::ReceiveMessage(m))
            == reconciled(st, ChatEvent::ReceiveMessage(m)),
        count_id(reconciled(st, ChatEvent::ReceiveMessage(m)).messages, m.id) == 1,
{
    let sm = stamped(m, st.current_user);
    lemma_insert_message(st.messages, sm);
    let once = reconciled(st, ChatEvent::ReceiveMessage(m));
    assert(once.messages == insert_message(st.messages, sm));
    assert(has_id(once.messages, sm.id));
    lemma_count_id(once.messages, m.id);
}

/// Every message item of a projection is a message of the sequence, and in
/// the projection of an ordered sequence the message items are ordered too.
pub proof fn lemma_project_messages(s: Seq<ChatMessage>)
    ensures
        forall|p: int|
            0 <= p < project_spec(s).len() && (#[trigger] project_spec(s)[p]) is Message ==> s.contains(
                project_spec(s)[p]->Message_0,
            ),
        is_ordered(s) ==> forall|p: int, q: int|
            #![trigger project_spec(s)[p], project_spec(s)[q]]
            0 <= p < q < project_spec(s).len() && project_spec(s)[p] is Message
                && project_spec(s)[q] is Message ==> key_lt(
                project_spec(s)[p]->Message_0,
                project_spec(s)[q]->Message_0,
            ),
    decreases s.len(),
{
    if s.len() > 0 {
        let t = s.drop_last();
        lemma_project_messages(t);
        let pt = project_spec(t);
        let ps = project_spec(s);
        let n = ps.len() - 1;
        assert(ps[n] == ListItem::Message(s.last()));
        assert forall|p: int| 0 <= p < pt.len() implies ps[p] == pt[p] by {}
        assert forall|p: int| pt.len() <= p < n implies !(ps[p] is Message) by {}
        assert forall|p: int| 0 <= p < ps.len() && (#[trigger] ps[p]) is Message implies s.contains(
            ps[p]->Message_0,
        ) by {
            if p < pt.len() {
                assert(pt[p] is Message);
                let x = pt[p]->Message_0;
                let k = choose|k: int| 0 <= k < t.len() && t[k] == x;
                assert(s[k] == x);
            } else {
                assert(p == n);
                assert(s[s.len() - 1] == s.last());
            }
        }
        if is_ordered(s) {
            assert(is_ordered(t)) by {
                assert forall|i: int, j: int| #![trigger t[i], t[j]] 0 <= i < j < t.len() implies key_lt(
                    t[i],
                    t[j],
                ) by {
                    assert(t[i] == s[i] && t[j] == s[j]);
                }
            }
            assert forall|p: int, q: int|
                #![trigger ps[p], ps[q]]
                0 <= p < q < ps.len() && ps[p] is Message && ps[q] is Message implies key_lt(
                ps[p]->Message_0,
                ps[q]->Message_0,
            ) by {
                if q < pt.len() {
                    assert(pt[p] == ps[p] && pt[q] == ps[q]);
                } else {
                    assert(q == n);
                    assert(pt[p] == ps[p]);
                    let x = pt[p]->Message_0;
                    let k = choose|k: int| 0 <= k < t.len() && t[k] == x;
                    assert(s[k] == x);
                    assert(key_lt(s[k], s[s.len() - 1]));
                }
            }
        }
    }
}

/// In the projection of a store, a message created earlier is listed before
/// a message created later.
pub proof fn lemma_projection_time_order(s: Seq<ChatMessage>, p: int, q: int)
    requires
        well_ordered(s),
        0 <= p < project_spec(s).len(),
        0 <= q < project_spec(s).len(),
        project_spec(s)[p] is Message,
        project_spec(s)[q] is Message,
        project_spec(s)[p]->Message_0.created_at < project_spec(s)[q]->Message_0.created_at,
    ensures
        p < q,
{
    lemma_project_messages(s);
    if q < p {
        assert(key_lt(project_spec(s)[q]->Message_0, project_spec(s)[p]->Message_0));
    }
}

/// A fetched page shorter than `PAGE_SIZE`, empty included, marks history as
/// exhausted, and a later backfill trigger starts no fetch and changes nothing.
pub proof fn lemma_short_page_exhausts(st: StoreState, page: Seq<Option<ChatMessage>>)
    requires
        page.len() < PAGE_SIZE,
    ensures
        !after_success(st, page).has_more_older,
        !can_begin(after_success(st, page)),
        after_begin(after_success(st, page)) == after_success(st, page),
{
}

/// An update for an identifier that the store does not hold changes nothing.
pub proof fn lemma_update_unknown_is_noop(st: StoreState, m: ChatMessage)
    requires
        !has_id(st.messages, m.id),
    ensures
        reconciled(st, ChatEvent::MessageUpdated(m)) == st,
        reconciled(st, ChatEvent::MessageUpdated(m)).messages.len() == st.messages.len(),
{
    assert(stamped(m, st.current_user).id == m.id);
    assert(reconciled(st, ChatEvent::MessageUpdated(m)) =~= st);
}

/// A backfill page that resolves after a live message arrived: the store stays
/// ordered and duplicate-free, loses no entry, holds the live message and every
/// identifier of the page, and no other; when the page does not carry the live
/// message's identifier, the result is the one reached in the other order.
pub proof fn lemma_backfill_after_live_insert(
    st: StoreState,
    m: ChatMessage,
    page: Seq<Option<ChatMessage>>,
)
    requires
        well_ordered(st.messages),
    ensures
        well_ordered(after_success(reconciled(st, ChatEvent::ReceiveMessage(m)), page).messages),
        forall|x: ChatMessage|
            st.messages.contains(x) ==> #[trigger] after_success(
                reconciled(st, ChatEvent::ReceiveMessage(m)),
                page,
            ).messages.contains(x),
        forall|k: u128| #[trigger]
            has_id(after_success(reconciled(st, ChatEvent::ReceiveMessage(m)), page).messages, k)
                <==> has_id(st.messages, k) || k == m.id || page_has_id(page, k),
        !page_has_id(page, m.id) ==> after_success(reconciled(st, ChatEvent::ReceiveMessage(m)), page)
            == reconciled(after_success(st, page), ChatEvent::ReceiveMessage(m)),
{
    let user = st.current_user;
    let sm = stamped(m, user);
    lemma_insert_message(st.messages, sm);
    let live = insert_message(st.messages, sm);
    lemma_insert_page(live, page, user);
    if !page_has_id(page, m.id) {
        lemma_page_commute(st.messages, sm, page, user);
    }
}

/// Pinning and then unpinning a message leaves it unpinned with no pin time,
/// changes no other entry, and keeps the entries, their order and their
/// identifiers.
pub proof fn lemma_pin_round_trip(
    s: Seq<ChatMessage>,
    id: u128,
    t: Option<i64>,
    t2: Option<i64>,
)
    requires
        well_ordered(s),
    ensures
        well_ordered(pin_messages(pin_messages(s, id, true, t), id, false, t2)),
        pin_messages(pin_messages(s, id, true, t), id, false, t2).len() == s.len(),
        forall|i: int|
            0 <= i < s.len() && s[i].id == id ==> {
                let x = #[trigger] pin_messages(pin_messages(s, id, true, t), id, false, t2)[i];
                x == (ChatMessage { is_pinned: false, pinned_at: None, updated_at: t2, ..s[i] })
            },
        forall|i: int|
            0 <= i < s.len() && s[i].id != id ==> #[trigger] pin_messages(
                pin_messages(s, id, true, t),
                id,
                false,
                t2,
            )[i] == s[i],
{
    lemma_pin_messages(s, id, true, t);
    lemma_pin_messages(pin_messages(s, id, true, t), id, false, t2);
}

} // verus!
