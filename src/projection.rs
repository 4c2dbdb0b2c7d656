//! The render-ready sequence: the messages in store order, each preceded by
//! a date separator when its calendar day differs from that of the message
//! before it (and the first message always preceded by one).
use vstd::prelude::*;
use crate::models::ChatMessage;
use crate::ordering::{is_ordered, key_lt};

verus! {

/// Milliseconds in one day.
pub const MS_PER_DAY: i64 = 86_400_000;

/// One element of the rendered list.
#[derive(Clone, Debug, PartialEq)]
pub enum ListItem {
    Message(ChatMessage),
    /// The start of a calendar day, given as days since 1970-01-01 (UTC).
    DateSeparator(i64),
}

/// The calendar day of a timestamp: whole days since the epoch, rounded down.
pub open spec fn day_number(ts: i64) -> int {
    ts as int / MS_PER_DAY as int
}

/// The calendar day of a timestamp, as days since 1970-01-01 rounded down.
pub fn calendar_day(ts: i64) -> (r: i64)
    ensures
        r == day_number(ts),
{
    if ts >= 0 {
        ts / MS_PER_DAY
    } else {
        let n: i64 = -(ts + 1);
        let q: i64 = n / MS_PER_DAY;
        proof {
            assert(n == q * MS_PER_DAY + n % MS_PER_DAY);
            assert(ts == (-q - 1) * MS_PER_DAY + (MS_PER_DAY - 1 - n % MS_PER_DAY));
        }
        -q - 1
    }
}

/// Whether the message at position `i` opens a new day: it is the first, or
/// its day differs from that of the message before it.
pub open spec fn opens_day(s: Seq<ChatMessage>, i: int) -> bool {
    i == 0 || day_number(s[i - 1].created_at) != day_number(s[i].created_at)
}

/// The projection of a message sequence.
pub open spec fn project_spec(s: Seq<ChatMessage>) -> Seq<ListItem>
    decreases s.len(),
{
    if s.len() == 0 {
        Seq::empty()
    } else {
        let m = s.last();
        let sep = if opens_day(s, s.len() - 1) {
            seq![ListItem::DateSeparator(day_number(m.created_at) as i64)]
        } else {
            Seq::empty()
        };
        project_spec(s.drop_last()) + sep + seq![ListItem::Message(m)]
    }
}

/// Interleaves the messages with date separators.
pub fn project(messages: &Vec<ChatMessage>) -> (r: Vec<ListItem>)
    ensures
        r@ == project_spec(messages@),
{
    let mut out: Vec<ListItem> = Vec::new();
    let mut last_day: Option<i64> = None;
    let mut i: usize = 0;
    while i < messages.len()
        invariant
            i <= messages.len(),
            out@ == project_spec(messages@.take(i as int)),
            i == 0 ==> last_day is None,
            i > 0 ==> last_day == Some(day_number(messages@[i - 1].created_at) as i64),
        decreases messages.len() - i,
    {
        let m = &messages[i];
        let day = calendar_day(m.created_at);
        let ghost t = messages@.take(i + 1);
        proof {
            assert(t.drop_last() =~= messages@.take(i as int));
            assert(t.last() == messages@[i as int]);
            if i > 0 {
                assert(t[i - 1] == messages@[i - 1]);
            }
        }
        let new_day = match last_day {
            None => true,
            Some(d) => d != day,
        };
        proof {
            assert(new_day == opens_day(t, i as int));
        }
        if new_day {
            out.push(ListItem::DateSeparator(day));
        }
        out.push(ListItem::Message(m.duplicate()));
        proof {
            assert(out@ =~= project_spec(t));
        }
        last_day = Some(day);
        i = i + 1;
    }
    proof {
        assert(messages@.take(i as int) =~= messages@);
    }
    out
}

} // verus!
