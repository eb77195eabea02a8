//! Saved sessions: stable session ids, lookup, removal, and the age labels
//! the session list shows.

use crate::backend::Message;
use crate::text;
use vstd::prelude::*;

verus! {

/// One chat session.
#[derive(Debug)]
pub struct Conversation {
    /// Stable identity, so a streaming reply lands in the session it was sent
    /// from even if the user switches or deletes sessions meanwhile.
    pub id: u64,
    pub title: String,
    pub messages: Vec<Message>,
    pub updated: u64,
    pub pinned: bool,
}

/// Everything saved between runs.
#[derive(Debug)]
pub struct Store {
    pub conversations: Vec<Conversation>,
    pub active: usize,
    pub endpoint: String,
    pub model: String,
    pub gateway: String,
    pub presence: String,
}

/// The largest session id in `c`, or 0.
pub open spec fn max_id(c: Seq<Conversation>) -> u64
    decreases c.len(),
{
    if c.len() == 0 {
        0
    } else {
        let rest = max_id(c.drop_last());
        if c.last().id > rest {
            c.last().id
        } else {
            rest
        }
    }
}

/// Number of sessions without an id among `c[0..i]`.
pub open spec fn unnumbered_before(c: Seq<Conversation>, i: int) -> nat
    decreases i,
{
    if i <= 0 || c.len() < i {
        0
    } else {
        unnumbered_before(c, i - 1) + if c[i - 1].id == 0 {
            1nat
        } else {
            0nat
        }
    }
}

/// The id `assign_ids` gives the session at `i`.
pub open spec fn assigned_id(c: Seq<Conversation>, i: int) -> int {
    if c[i].id == 0 {
        max_id(c) + 1 + unnumbered_before(c, i)
    } else {
        c[i].id as int
    }
}

pub proof fn lemma_max_id(c: Seq<Conversation>)
    ensures
        forall|i: int| 0 <= i < c.len() ==> c[i].id <= max_id(c),
        c.len() == 0 ==> max_id(c) == 0,
        c.len() > 0 ==> exists|i: int| 0 <= i < c.len() && c[i].id == max_id(c),
    decreases c.len(),
{
    if c.len() > 0 {
        lemma_max_id(c.drop_last());
        assert forall|i: int| 0 <= i < c.len() implies c[i].id <= max_id(c) by {
            if i < c.len() - 1 {
                assert(c[i] == c.drop_last()[i]);
            }
        }
        if c.len() > 1 && c.last().id <= max_id(c.drop_last()) {
            let k = choose|k: int| 0 <= k < c.len() - 1 && c.drop_last()[k].id == max_id(c.drop_last());
            assert(c[k] == c.drop_last()[k]);
        } else {
            assert(c[c.len() - 1].id == max_id(c));
        }
    }
}

pub proof fn lemma_unnumbered_bounds(c: Seq<Conversation>, i: int, j: int)
    requires
        0 <= i <= j <= c.len(),
    ensures
        unnumbered_before(c, i) <= unnumbered_before(c, j),
        unnumbered_before(c, j) <= j,
        i < j && c[i].id == 0 ==> unnumbered_before(c, i) < unnumbered_before(c, j),
    decreases j - i,
{
    if i < j {
        lemma_unnumbered_bounds(c, i, j - 1);
        if i == j - 1 {
        }
    } else {
        lemma_unnumbered_upper(c, j);
    }
}

pub proof fn lemma_unnumbered_upper(c: Seq<Conversation>, j: int)
    requires
        0 <= j <= c.len(),
    ensures
        unnumbered_before(c, j) <= j,
    decreases j,
{
    if j > 0 {
        lemma_unnumbered_upper(c, j - 1);
    }
}

impl Store {
    /// An id no existing session uses: one past the largest.
    pub fn next_id(&self) -> (r: u64)
        requires
            max_id(self.conversations@) < u64::MAX,
        ensures
            r == max_id(self.conversations@) + 1,
            forall|i: int| 0 <= i < self.conversations@.len() ==> self.conversations@[i].id < r,
    {
        let mut best: u64 = 0;
        let mut i: usize = 0;
        while i < self.conversations.len()
            invariant
                i <= self.conversations@.len(),
                best == max_id(self.conversations@.take(i as int)),
            decreases self.conversations.len() - i,
        {
            assert(self.conversations@.take(i + 1).drop_last() =~= self.conversations@.take(
                i as int,
            ));
            if self.conversations[i].id > best {
                best = self.conversations[i].id;
            }
            i += 1;
        }
        assert(self.conversations@.take(i as int) =~= self.conversations@);
        proof {
            lemma_max_id(self.conversations@);
        }
        best + 1
    }

    /// Gives every session without an id (older saves have none) a fresh
    /// one, counting up from one past the largest id, in list order.
    pub fn assign_ids(&mut self)
        requires
            max_id(old(self).conversations@) + unnumbered_before(
                old(self).conversations@,
                old(self).conversations@.len() as int,
            ) < u64::MAX,
        ensures
            final(self).conversations@.len() == old(self).conversations@.len(),
            forall|i: int|
                #![trigger final(self).conversations@[i]]
                0 <= i < final(self).conversations@.len() ==> {
                    let (n, o) = (final(self).conversations@[i], old(self).conversations@[i]);
                    &&& n.id == assigned_id(old(self).conversations@, i)
                    &&& n.title == o.title
                    &&& n.messages == o.messages
                    &&& n.updated == o.updated
                    &&& n.pinned == o.pinned
                },
            final(self).active == old(self).active,
            final(self).endpoint == old(self).endpoint,
            final(self).model == old(self).model,
            final(self).gateway == old(self).gateway,
            final(self).presence == old(self).presence,
    {
        let ghost c0 = self.conversations@;
        proof {
            lemma_max_id(c0);
            lemma_unnumbered_upper(c0, c0.len() as int);
        }
        let first = self.next_id();
        let mut next = first;
        let mut i: usize = 0;
        while i < self.conversations.len()
            invariant
                self.conversations@.len() == c0.len(),
                self.active == old(self).active,
                self.endpoint == old(self).endpoint,
                self.model == old(self).model,
                self.gateway == old(self).gateway,
                self.presence == old(self).presence,
                i <= c0.len(),
                first == max_id(c0) + 1,
                next == first + unnumbered_before(c0, i as int),
                max_id(c0) + unnumbered_before(c0, c0.len() as int) < u64::MAX,
                forall|k: int|
                    #![trigger self.conversations@[k]]
                    0 <= k < c0.len() ==> {
                        let (n, o) = (self.conversations@[k], c0[k]);
                        &&& n.id == if k < i {
                            assigned_id(c0, k)
                        } else {
                            o.id as int
                        }
                        &&& n.title == o.title
                        &&& n.messages == o.messages
                        &&& n.updated == o.updated
                        &&& n.pinned == o.pinned
                    },
            decreases c0.len() - i,
        {
            proof {
                lemma_unnumbered_bounds(c0, i as int, c0.len() as int);
                lemma_unnumbered_bounds(c0, i as int + 1, c0.len() as int);
            }
            if self.conversations[i].id == 0 {
                self.conversations[i].id = next;
                next += 1;
            }
            i += 1;
        }
    }

    /// Position of the session with this id.
    pub fn index_of(&self, id: u64) -> (r: Option<usize>)
        ensures
            match r {
                Some(i) => i < self.conversations@.len() && self.conversations@[i as int].id == id
                    && forall|k: int| 0 <= k < i ==> self.conversations@[k].id != id,
                None => forall|k: int|
                    0 <= k < self.conversations@.len() ==> self.conversations@[k].id != id,
            },
    {
        let mut i: usize = 0;
        while i < self.conversations.len()
            invariant
                i <= self.conversations@.len(),
                forall|k: int| 0 <= k < i ==> self.conversations@[k].id != id,
            decreases self.conversations.len() - i,
        {
            if self.conversations[i].id == id {
                return Some(i);
            }
            i += 1;
        }
        None
    }
}

/// Every session ends with a non-zero id.
pub proof fn assigned_ids_positive(c: Seq<Conversation>)
    ensures
        forall|i: int| 0 <= i < c.len() ==> assigned_id(c, i) > 0,
{
}

/// Sessions that had ids keep them, the others get ids above every existing
/// one, and so when the existing ids were distinct every session ends with
/// its own non-zero id.
pub proof fn assigned_ids_are_distinct(c: Seq<Conversation>)
    requires
        forall|i: int, j: int|
            0 <= i < j < c.len() && c[i].id != 0 && c[j].id != 0 ==> c[i].id != c[j].id,
    ensures
        forall|i: int| 0 <= i < c.len() ==> assigned_id(c, i) > 0,
        forall|i: int, j: int|
            0 <= i < j < c.len() ==> assigned_id(c, i) != assigned_id(c, j),
{
    lemma_max_id(c);
    assert forall|i: int, j: int| 0 <= i < j < c.len() implies assigned_id(c, i) != assigned_id(
        c,
        j,
    ) by {
        lemma_unnumbered_bounds(c, i, j);
        lemma_unnumbered_bounds(c, i + 1, j);
    }
}

// ---------------------------------------------------------------------------
// Age labels
// ---------------------------------------------------------------------------

pub const DAY: u64 = 86400;

/// Seconds from `updated` to `now`, or 0 when `updated` lies ahead.
pub open spec fn age(updated: u64, now: u64) -> int {
    if now >= updated {
        now - updated
    } else {
        0
    }
}

/// The heading a session is grouped under in the session list.
pub open spec fn bucket_name(updated: u64, now: u64) -> Seq<char> {
    let days = age(updated, now) / DAY as int;
    if days == 0 {
        "TODAY"@
    } else if days == 1 {
        "YESTERDAY"@
    } else if days <= 6 {
        "EARLIER THIS WEEK"@
    } else if days <= 13 {
        "LAST WEEK"@
    } else {
        "OLDER"@
    }
}

/// The date group for a session last updated at `updated`.
pub fn bucket(updated: u64, now: u64) -> (r: &'static str)
    ensures
        r@ == bucket_name(updated, now),
{
    let age = now.saturating_sub(updated);
    let days = age / DAY;
    if days == 0 {
        "TODAY"
    } else if days == 1 {
        "YESTERDAY"
    } else if days <= 6 {
        "EARLIER THIS WEEK"
    } else if days <= 13 {
        "LAST WEEK"
    } else {
        "OLDER"
    }
}

/// The short age shown next to a session: minutes (at least 1) under an
/// hour, hours under a day, days after that, and nothing for a session that
/// was never stamped.
pub open spec fn age_text(updated: u64, now: u64) -> Seq<char> {
    let a = age(updated, now);
    if updated == 0 {
        Seq::empty()
    } else if a < 3600 {
        text::decimal((if a / 60 >= 1 {
            a / 60
        } else {
            1
        }) as nat).push('m')
    } else if a < DAY {
        text::decimal((a / 3600) as nat).push('h')
    } else {
        text::decimal((a / DAY as int) as nat).push('d')
    }
}

/// The short age shown next to a session in the list.
pub fn age_label(updated: u64, now: u64) -> (r: String)
    ensures
        r@ == age_text(updated, now),
{
    let age = now.saturating_sub(updated);
    if updated == 0 {
        String::new()
    } else if age < 3600 {
        let minutes = if age / 60 >= 1 {
            age / 60
        } else {
            1
        };
        let mut out = text::decimal_string(minutes);
        text::push_char(&mut out, 'm');
        out
    } else if age < DAY {
        let mut out = text::decimal_string(age / 3600);
        text::push_char(&mut out, 'h');
        out
    } else {
        let mut out = text::decimal_string(age / DAY);
        text::push_char(&mut out, 'd');
        out
    }
}

} // verus!
