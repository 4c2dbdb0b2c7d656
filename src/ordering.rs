//! The mathematical model of a chat's message sequence: the canonical order
//! by `(created_at, id)`, the set of identifiers present, and each mutation
//! of the sequence as a function on `Seq`, with the lemmas that show every
//! mutation keeps the sequence ordered and free of duplicate identifiers.
use vstd::prelude::*;
use crate::models::ChatMessage;

verus! {

/// The canonical order: by creation time, ties broken by identifier.
pub open spec fn key_lt(a: ChatMessage, b: ChatMessage) -> bool {
    a.created_at < b.created_at || (a.created_at == b.created_at && a.id < b.id)
}

/// Strictly increasing in the canonical order.
pub open spec fn is_ordered(s: Seq<ChatMessage>) -> bool {
    forall|i: int, j: int| #![trigger s[i], s[j]] 0 <= i < j < s.len() ==> key_lt(s[i], s[j])
}

/// No two entries share an identifier.
pub open spec fn ids_unique(s: Seq<ChatMessage>) -> bool {
    forall|i: int, j: int|
        #![trigger s[i], s[j]]
        0 <= i < s.len() && 0 <= j < s.len() && i != j ==> s[i].id != s[j].id
}

/// The store's invariant: canonical order and unique identifiers.
pub open spec fn well_ordered(s: Seq<ChatMessage>) -> bool {
    is_ordered(s) && ids_unique(s)
}

/// Some entry carries identifier `id`.
pub open spec fn has_id(s: Seq<ChatMessage>, id: u128) -> bool {
    exists|i: int| 0 <= i < s.len() && #[trigger] s[i].id == id
}

/// The number of entries that carry identifier `id`.
pub open spec fn count_id(s: Seq<ChatMessage>, id: u128) -> nat
    decreases s.len(),
{
    if s.len() == 0 {
        0
    } else {
        count_id(s.drop_last(), id) + if s.last().id == id {
            1nat
        } else {
            0nat
        }
    }
}

/// The number of entries that come before `m` in the canonical order:
/// in an ordered sequence, the position where `m` belongs.
pub open spec fn count_before(s: Seq<ChatMessage>, m: ChatMessage) -> nat
    decreases s.len(),
{
    if s.len() == 0 {
        0
    } else {
        count_before(s.drop_last(), m) + if key_lt(s.last(), m) {
            1nat
        } else {
            0nat
        }
    }
}

/// Whether a message was sent by the current user; a message without a
/// sender (a system notice) is nobody's.
pub open spec fn is_mine(sender: Option<u128>, user: Option<u128>) -> bool {
    sender is Some && sender == user
}

/// A message as it is taken in: `is_my_message` computed for `user`.
pub open spec fn stamped(m: ChatMessage, user: Option<u128>) -> ChatMessage {
    ChatMessage { is_my_message: is_mine(m.sender_id, user), ..m }
}

/// Adds `m` at its place in the order, unless its identifier is already present.
pub open spec fn insert_message(s: Seq<ChatMessage>, m: ChatMessage) -> Seq<ChatMessage> {
    if has_id(s, m.id) {
        s
    } else {
        s.insert(count_before(s, m) as int, m)
    }
}

/// Some record of the page carries identifier `id`.
pub open spec fn page_has_id(page: Seq<Option<ChatMessage>>, id: u128) -> bool {
    exists|i: int| 0 <= i < page.len() && #[trigger] page[i] is Some && page[i]->Some_0.id == id
}

/// Takes in each message of `page` in turn, stamped for `user`; records that
/// did not decode are skipped.
pub open spec fn insert_page(s: Seq<ChatMessage>, page: Seq<Option<ChatMessage>>, user: Option<u128>) -> Seq<
    ChatMessage,
>
    decreases page.len(),
{
    if page.len() == 0 {
        s
    } else {
        let rest = insert_page(s, page.drop_last(), user);
        match page.last() {
            Some(m) => insert_message(rest, stamped(m, user)),
            None => rest,
        }
    }
}

/// Drops every entry with identifier `id`, keeping the others in order.
pub open spec fn remove_id(s: Seq<ChatMessage>, id: u128) -> Seq<ChatMessage>
    decreases s.len(),
{
    if s.len() == 0 {
        s
    } else if s.last().id == id {
        remove_id(s.drop_last(), id)
    } else {
        remove_id(s.drop_last(), id).push(s.last())
    }
}

/// Replaces the entry with `m`'s identifier by `m`; unchanged when absent.
pub open spec fn replace_message(s: Seq<ChatMessage>, m: ChatMessage) -> Seq<ChatMessage> {
    if has_id(s, m.id) {
        insert_message(remove_id(s, m.id), m)
    } else {
        s
    }
}

/// A message after a pin change: pinning records `at` as the pin time,
/// unpinning clears it; `at` becomes the update time either way.
pub open spec fn pinned(m: ChatMessage, is_pinned: bool, at: Option<i64>) -> ChatMessage {
    ChatMessage {
        is_pinned,
        updated_at: at,
        pinned_at: if is_pinned {
            at
        } else {
            None
        },
        ..m
    }
}

/// Applies a pin change to the entry with identifier `id`, if any.
pub open spec fn pin_messages(s: Seq<ChatMessage>, id: u128, is_pinned: bool, at: Option<i64>) -> Seq<
    ChatMessage,
> {
    s.map_values(|x: ChatMessage| if x.id == id { pinned(x, is_pinned, at) } else { x })
}

/// In an ordered sequence, `count_before` splits the entries that come
/// before `m` from those that do not.
pub proof fn lemma_count_before(s: Seq<ChatMessage>, m: ChatMessage)
    requires
        is_ordered(s),
    ensures
        count_before(s, m) <= s.len(),
        forall|i: int| 0 <= i < count_before(s, m) ==> key_lt(#[trigger] s[i], m),
        forall|i: int| count_before(s, m) <= i < s.len() ==> !key_lt(#[trigger] s[i], m),
    decreases s.len(),
{
    if s.len() > 0 {
        let t = s.drop_last();
        assert(is_ordered(t));
        lemma_count_before(t, m);
        if key_lt(s.last(), m) {
            assert forall|i: int| 0 <= i < t.len() implies key_lt(#[trigger] s[i], m) by {
                assert(t[i] == s[i]);
                assert(key_lt(s[i], s[s.len() - 1]));
            }
            if count_before(t, m) < t.len() {
                assert(t[count_before(t, m) as int] == s[count_before(t, m) as int]);
            }
        } else {
            assert forall|i: int| 0 <= i < count_before(s, m) implies key_lt(#[trigger] s[i], m) by {
                assert(t[i] == s[i]);
            }
            assert forall|i: int| count_before(s, m) <= i < s.len() implies !key_lt(#[trigger] s[i], m) by {
                if i < t.len() {
                    assert(t[i] == s[i]);
                }
            }
        }
    }
}

/// Inserting keeps the invariant, adds exactly `m` when its identifier is new,
/// and changes nothing otherwise.
pub proof fn lemma_insert_message(s: Seq<ChatMessage>, m: ChatMessage)
    requires
        well_ordered(s),
    ensures
        well_ordered(insert_message(s, m)),
        has_id(insert_message(s, m), m.id),
        forall|x: ChatMessage| #[trigger]
            insert_message(s, m).contains(x) <==> s.contains(x) || (x == m && !has_id(s, m.id)),
        forall|id: u128| #[trigger]
            has_id(insert_message(s, m), id) <==> has_id(s, id) || id == m.id,
{
    if !has_id(s, m.id) {
        lemma_count_before(s, m);
        let c = count_before(s, m) as int;
        let r = s.insert(c, m);
        assert(r[c] == m);
        assert forall|i: int, j: int| #![trigger r[i], r[j]] 0 <= i < j < r.len() implies key_lt(
            r[i],
            r[j],
        ) by {
            if j < c {
                assert(r[i] == s[i] && r[j] == s[j]);
            } else if j == c {
                assert(r[i] == s[i]);
            } else if i < c {
                assert(r[i] == s[i] && r[j] == s[j - 1]);
                assert(s[j - 1].id != m.id);
            } else if i == c {
                assert(r[j] == s[j - 1]);
                assert(s[j - 1].id != m.id);
            } else {
                assert(r[i] == s[i - 1] && r[j] == s[j - 1]);
            }
        }
        assert forall|i: int, j: int|
            #![trigger r[i], r[j]]
            0 <= i < r.len() && 0 <= j < r.len() && i != j implies r[i].id != r[j].id by {
            if i < j {
                assert(key_lt(r[i], r[j]));
            } else {
                assert(key_lt(r[j], r[i]));
            }
        }
        assert forall|x: ChatMessage| #[trigger]
            r.contains(x) <==> s.contains(x) || x == m by {
            if r.contains(x) {
                let k = choose|k: int| 0 <= k < r.len() && r[k] == x;
                if k < c {
                    assert(s[k] == x);
                } else if k > c {
                    assert(s[k - 1] == x);
                }
            }
            if s.contains(x) {
                let k = choose|k: int| 0 <= k < s.len() && s[k] == x;
                if k < c {
                    assert(r[k] == x);
                } else {
                    assert(r[k + 1] == x);
                }
            }
        }
        assert forall|id: u128| #[trigger] has_id(r, id) <==> has_id(s, id) || id == m.id by {
            if has_id(r, id) {
                let k = choose|k: int| 0 <= k < r.len() && r[k].id == id;
                if k < c {
                    assert(s[k].id == id);
                } else if k > c {
                    assert(s[k - 1].id == id);
                }
            }
            if has_id(s, id) {
                let k = choose|k: int| 0 <= k < s.len() && s[k].id == id;
                if k < c {
                    assert(r[k].id == id);
                } else {
                    assert(r[k + 1].id == id);
                }
            }
        }
    }
}

/// A prefix of a well-ordered sequence is well ordered.
pub proof fn lemma_drop_last_well_ordered(s: Seq<ChatMessage>)
    requires
        well_ordered(s),
        s.len() > 0,
    ensures
        well_ordered(s.drop_last()),
        forall|x: ChatMessage| #[trigger]
            s.contains(x) <==> s.drop_last().contains(x) || x == s.last(),
        forall|x: ChatMessage| #[trigger]
            s.drop_last().contains(x) ==> key_lt(x, s.last()) && x.id != s.last().id,
{
    let t = s.drop_last();
    assert forall|i: int, j: int| #![trigger t[i], t[j]] 0 <= i < j < t.len() implies key_lt(
        t[i],
        t[j],
    ) by {
        assert(t[i] == s[i] && t[j] == s[j]);
    }
    assert forall|i: int, j: int|
        #![trigger t[i], t[j]]
        0 <= i < t.len() && 0 <= j < t.len() && i != j implies t[i].id != t[j].id by {
        assert(t[i] == s[i] && t[j] == s[j]);
    }
    assert forall|x: ChatMessage| #[trigger]
        s.contains(x) <==> t.contains(x) || x == s.last() by {
        if s.contains(x) {
            let k = choose|k: int| 0 <= k < s.len() && s[k] == x;
            if k < t.len() {
                assert(t[k] == x);
            }
        }
        if t.contains(x) {
            let k = choose|k: int| 0 <= k < t.len() && t[k] == x;
            assert(s[k] == x);
        }
        if x == s.last() {
            assert(s[s.len() - 1] == x);
        }
    }
    assert forall|x: ChatMessage| #[trigger] t.contains(x) implies key_lt(x, s.last()) && x.id
        != s.last().id by {
        let k = choose|k: int| 0 <= k < t.len() && t[k] == x;
        assert(s[k] == x);
        assert(key_lt(s[k], s[s.len() - 1]));
        assert(s[k].id != s[s.len() - 1].id);
    }
}

/// Removing an identifier keeps the invariant and drops exactly the entries
/// that carry it.
pub proof fn lemma_remove_id(s: Seq<ChatMessage>, id: u128)
    requires
        well_ordered(s),
    ensures
        well_ordered(remove_id(s, id)),
        remove_id(s, id).len() <= s.len(),
        forall|x: ChatMessage| #[trigger]
            remove_id(s, id).contains(x) <==> s.contains(x) && x.id != id,
        forall|k: u128| #[trigger] has_id(remove_id(s, id), k) <==> has_id(s, k) && k != id,
    decreases s.len(),
{
    let r = remove_id(s, id);
    if s.len() > 0 {
        let t = s.drop_last();
        lemma_drop_last_well_ordered(s);
        lemma_remove_id(t, id);
        let rt = remove_id(t, id);
        if s.last().id != id {
            let l = s.last();
            assert(r == rt.push(l));
            assert forall|x: ChatMessage| #[trigger]
                r.contains(x) <==> rt.contains(x) || x == l by {
                if r.contains(x) {
                    let k = choose|k: int| 0 <= k < r.len() && r[k] == x;
                    if k < rt.len() {
                        assert(rt[k] == x);
                    }
                }
                if rt.contains(x) {
                    let k = choose|k: int| 0 <= k < rt.len() && rt[k] == x;
                    assert(r[k] == x);
                }
                if x == l {
                    assert(r[r.len() - 1] == x);
                }
            }
            assert forall|i: int, j: int| #![trigger r[i], r[j]] 0 <= i < j < r.len() implies key_lt(
                r[i],
                r[j],
            ) by {
                if j < rt.len() {
                    assert(r[i] == rt[i] && r[j] == rt[j]);
                } else {
                    assert(r[i] == rt[i]);
                    assert(rt.contains(rt[i]));
                }
            }
            assert forall|i: int, j: int|
                #![trigger r[i], r[j]]
                0 <= i < r.len() && 0 <= j < r.len() && i != j implies r[i].id != r[j].id by {
                if i < rt.len() && j < rt.len() {
                    assert(r[i] == rt[i] && r[j] == rt[j]);
                } else if i < rt.len() {
                    assert(r[i] == rt[i]);
                    assert(rt.contains(rt[i]));
                } else {
                    assert(r[j] == rt[j]);
                    assert(rt.contains(rt[j]));
                }
            }
        }
        assert forall|x: ChatMessage| #[trigger] r.contains(x) <==> s.contains(x) && x.id != id by {
        }
        assert forall|k: u128| #[trigger] has_id(r, k) <==> has_id(s, k) && k != id by {
            if has_id(r, k) {
                let i = choose|i: int| 0 <= i < r.len() && r[i].id == k;
                assert(r.contains(r[i]));
                let i2 = choose|i2: int| 0 <= i2 < s.len() && s[i2] == r[i];
                assert(s[i2].id == k);
            }
            if has_id(s, k) && k != id {
                let i = choose|i: int| 0 <= i < s.len() && s[i].id == k;
                assert(s.contains(s[i]));
                assert(r.contains(s[i]));
                let i2 = choose|i2: int| 0 <= i2 < r.len() && r[i2] == s[i];
                assert(r[i2].id == k);
            }
        }
    }
}

/// Taking in a page keeps the invariant, loses no entry, and leaves exactly
/// the identifiers of the store and of the page.
pub proof fn lemma_insert_page(s: Seq<ChatMessage>, page: Seq<Option<ChatMessage>>, user: Option<u128>)
    requires
        well_ordered(s),
    ensures
        well_ordered(insert_page(s, page, user)),
        forall|x: ChatMessage| s.contains(x) ==> #[trigger] insert_page(s, page, user).contains(x),
        forall|k: u128| #[trigger]
            has_id(insert_page(s, page, user), k) <==> has_id(s, k) || page_has_id(page, k),
    decreases page.len(),
{
    if page.len() > 0 {
        let p = page.drop_last();
        lemma_insert_page(s, p, user);
        let r = insert_page(s, p, user);
        let n = page.len() - 1;
        assert forall|k: u128| #[trigger] page_has_id(page, k) <==> page_has_id(p, k) || (
        page[n] is Some && page[n]->Some_0.id == k) by {
            if page_has_id(page, k) {
                let i = choose|i: int| 0 <= i < page.len() && #[trigger] page[i] is Some
                    && page[i]->Some_0.id == k;
                if i < p.len() {
                    assert(p[i] == page[i]);
                }
            }
            if page_has_id(p, k) {
                let i = choose|i: int| 0 <= i < p.len() && #[trigger] p[i] is Some && p[i]->Some_0.id
                    == k;
                assert(page[i] == p[i]);
            }
        }
        match page.last() {
            Some(m) => {
                lemma_insert_message(r, stamped(m, user));
            },
            None => {},
        }
    }
}

/// A pin change keeps every entry's identifier and creation time, hence the invariant.
pub proof fn lemma_pin_messages(s: Seq<ChatMessage>, id: u128, is_pinned: bool, at: Option<i64>)
    requires
        well_ordered(s),
    ensures
        well_ordered(pin_messages(s, id, is_pinned, at)),
        pin_messages(s, id, is_pinned, at).len() == s.len(),
        forall|i: int|
            0 <= i < s.len() ==> (#[trigger] pin_messages(s, id, is_pinned, at)[i]).id == s[i].id
                && pin_messages(s, id, is_pinned, at)[i].created_at == s[i].created_at,
{
    let r = pin_messages(s, id, is_pinned, at);
    assert forall|i: int, j: int| #![trigger r[i], r[j]] 0 <= i < j < r.len() implies key_lt(
        r[i],
        r[j],
    ) by {
        assert(key_lt(s[i], s[j]));
    }
    assert forall|i: int, j: int|
        #![trigger r[i], r[j]]
        0 <= i < r.len() && 0 <= j < r.len() && i != j implies r[i].id != r[j].id by {
        assert(s[i].id != s[j].id);
    }
}

/// With unique identifiers, an identifier is carried by one entry or by none.
pub proof fn lemma_count_id(s: Seq<ChatMessage>, id: u128)
    requires
        ids_unique(s),
    ensures
        count_id(s, id) == if has_id(s, id) {
            1nat
        } else {
            0nat
        },
    decreases s.len(),
{
    if s.len() > 0 {
        let t = s.drop_last();
        assert forall|i: int, j: int|
            #![trigger t[i], t[j]]
            0 <= i < t.len() && 0 <= j < t.len() && i != j implies t[i].id != t[j].id by {
            assert(t[i] == s[i] && t[j] == s[j]);
        }
        lemma_count_id(t, id);
        if has_id(t, id) {
            let k = choose|k: int| 0 <= k < t.len() && t[k].id == id;
            assert(s[k].id == id);
            assert(s[k] == t[k]);
            assert(s[s.len() - 1].id != s[k].id);
        }
        if has_id(s, id) && !has_id(t, id) {
            let k = choose|k: int| 0 <= k < s.len() && s[k].id == id;
            if k < t.len() {
                assert(t[k].id == id);
            }
        }
        if s.last().id == id {
            assert(s[s.len() - 1].id == id);
        }
    }
}

/// Two ordered sequences with the same entries are equal.
pub proof fn lemma_ordered_ext(a: Seq<ChatMessage>, b: Seq<ChatMessage>)
    requires
        is_ordered(a),
        is_ordered(b),
        forall|x: ChatMessage| a.contains(x) <==> b.contains(x),
    ensures
        a == b,
    decreases a.len(),
{
    if a.len() == 0 {
        if b.len() > 0 {
            assert(b.contains(b[0]));
        }
        assert(a =~= b);
    } else {
        assert(a.contains(a[a.len() - 1]));
        let x = a.last();
        let j = choose|j: int| 0 <= j < b.len() && b[j] == x;
        let y = b.last();
        assert(b.contains(b[b.len() - 1]));
        let k = choose|k: int| 0 <= k < a.len() && a[k] == y;
        if j < b.len() - 1 {
            assert(key_lt(b[j], b[b.len() - 1]));
            if k < a.len() - 1 {
                assert(key_lt(a[k], a[a.len() - 1]));
            }
            assert(false);
        }
        let a1 = a.drop_last();
        let b1 = b.drop_last();
        assert(is_ordered(a1)) by {
            assert forall|i: int, j: int| #![trigger a1[i], a1[j]] 0 <= i < j < a1.len() implies key_lt(
                a1[i],
                a1[j],
            ) by {
                assert(a1[i] == a[i] && a1[j] == a[j]);
            }
        }
        assert(is_ordered(b1)) by {
            assert forall|i: int, j: int| #![trigger b1[i], b1[j]] 0 <= i < j < b1.len() implies key_lt(
                b1[i],
                b1[j],
            ) by {
                assert(b1[i] == b[i] && b1[j] == b[j]);
            }
        }
        assert forall|z: ChatMessage| a1.contains(z) <==> b1.contains(z) by {
            if a1.contains(z) {
                let i = choose|i: int| 0 <= i < a1.len() && a1[i] == z;
                assert(a[i] == z);
                assert(key_lt(a[i], a[a.len() - 1]));
                assert(b.contains(z));
                let i2 = choose|i2: int| 0 <= i2 < b.len() && b[i2] == z;
                assert(i2 != b.len() - 1);
                assert(b1[i2] == z);
            }
            if b1.contains(z) {
                let i = choose|i: int| 0 <= i < b1.len() && b1[i] == z;
                assert(b[i] == z);
                assert(key_lt(b[i], b[b.len() - 1]));
                assert(a.contains(z));
                let i2 = choose|i2: int| 0 <= i2 < a.len() && a[i2] == z;
                assert(i2 != a.len() - 1);
                assert(a1[i2] == z);
            }
        }
        lemma_ordered_ext(a1, b1);
        assert(a =~= a1.push(x));
        assert(b =~= b1.push(y));
    }
}

/// Inserting two messages with different identifiers gives the same
/// sequence in either order.
pub proof fn lemma_insert_commute(s: Seq<ChatMessage>, a: ChatMessage, b: ChatMessage)
    requires
        well_ordered(s),
        a.id != b.id,
    ensures
        insert_message(insert_message(s, a), b) == insert_message(insert_message(s, b), a),
{
    lemma_insert_message(s, a);
    lemma_insert_message(s, b);
    let sa = insert_message(s, a);
    let sb = insert_message(s, b);
    lemma_insert_message(sa, b);
    lemma_insert_message(sb, a);
    if !has_id(s, a.id) && !has_id(s, b.id) {
        let l = insert_message(sa, b);
        let r = insert_message(sb, a);
        assert forall|x: ChatMessage| l.contains(x) <==> r.contains(x) by {}
        lemma_ordered_ext(l, r);
    }
}

/// Taking in a page and inserting a message whose identifier the page does not
/// carry give the same sequence in either order.
pub proof fn lemma_page_commute(
    s: Seq<ChatMessage>,
    m: ChatMessage,
    page: Seq<Option<ChatMessage>>,
    user: Option<u128>,
)
    requires
        well_ordered(s),
        !page_has_id(page, m.id),
    ensures
        insert_page(insert_message(s, m), page, user) == insert_message(insert_page(s, page, user), m),
    decreases page.len(),
{
    lemma_insert_message(s, m);
    if page.len() > 0 {
        let p = page.drop_last();
        let n = page.len() - 1;
        assert(!page_has_id(p, m.id)) by {
            if page_has_id(p, m.id) {
                let i = choose|i: int| 0 <= i < p.len() && #[trigger] p[i] is Some && p[i]->Some_0.id
                    == m.id;
                assert(page[i] == p[i]);
            }
        }
        lemma_page_commute(s, m, p, user);
        lemma_insert_page(s, p, user);
        match page.last() {
            Some(x) => {
                assert(page[n] is Some && page[n]->Some_0 == x);
                lemma_insert_commute(insert_page(s, p, user), m, stamped(x, user));
            },
            None => {},
        }
    }
}

} // verus!
