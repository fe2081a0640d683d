//! Delivering a notification: edit the message already sent for the calendar, and
//! post a new one when there is none or the edit is refused.

use vstd::prelude::*;

verus! {

/// Where the delivery of one notification stands.
#[derive(Clone, Copy, Debug, PartialEq, Eq, Structural)]
pub enum Delivery {
    /// The message with this id is to be edited.
    Editing { message_id: u64 },
    /// A new message is to be posted.
    Creating,
    /// The notification shows in the message with this id.
    Delivered { message_id: u64 },
    /// Neither an edit nor a new message went through.
    Failed,
}

/// The chat platform's answer to the edit or post that was asked for.
#[derive(Clone, Copy, Debug, PartialEq, Eq, Structural)]
pub enum Reply {
    /// The message with this id was edited or posted.
    Accepted { message_id: u64 },
    /// The edit or post failed: the message is gone, access is denied, or the
    /// network failed.
    Refused,
}

pub open spec fn begin_delivery(prior: Option<u64>) -> Delivery {
    match prior {
        Some(id) => Delivery::Editing { message_id: id },
        None => Delivery::Creating,
    }
}

/// An accepted edit keeps the message; a refused one falls back to a new message.
pub open spec fn next_delivery(state: Delivery, reply: Reply) -> Delivery {
    match (state, reply) {
        (Delivery::Editing { message_id }, Reply::Accepted { .. }) => Delivery::Delivered {
            message_id,
        },
        (Delivery::Editing { .. }, Reply::Refused) => Delivery::Creating,
        (Delivery::Creating, Reply::Accepted { message_id }) => Delivery::Delivered { message_id },
        (Delivery::Creating, Reply::Refused) => Delivery::Failed,
        (s, _) => s,
    }
}

/// The state after the replies, in order.
pub open spec fn delivery_after(state: Delivery, replies: Seq<Reply>) -> Delivery
    decreases replies.len(),
{
    if replies.len() == 0 {
        state
    } else {
        next_delivery(delivery_after(state, replies.drop_last()), replies.last())
    }
}

/// How many of the replies answered a request to post a new message.
pub open spec fn posts_requested(state: Delivery, replies: Seq<Reply>) -> nat
    decreases replies.len(),
{
    if replies.len() == 0 {
        0
    } else {
        let before = delivery_after(state, replies.drop_last());
        posts_requested(state, replies.drop_last()) + if before is Creating {
            1nat
        } else {
            0nat
        }
    }
}

impl Delivery {
    /// Starts the delivery: an edit where a message was sent before, else a new message.
    pub fn begin(prior: Option<u64>) -> (r: Delivery)
        ensures
            r == begin_delivery(prior),
    {
        match prior {
            Some(id) => Delivery::Editing { message_id: id },
            None => Delivery::Creating,
        }
    }

    /// Takes the platform's reply to the request that this state stands for.
    pub fn advance(self, reply: Reply) -> (r: Delivery)
        ensures
            r == next_delivery(self, reply),
    {
        match (self, reply) {
            (Delivery::Editing { message_id }, Reply::Accepted { .. }) => Delivery::Delivered {
                message_id,
            },
            (Delivery::Editing { .. }, Reply::Refused) => Delivery::Creating,
            (Delivery::Creating, Reply::Accepted { message_id }) => Delivery::Delivered {
                message_id,
            },
            (Delivery::Creating, Reply::Refused) => Delivery::Failed,
            (s, _) => s,
        }
    }

    /// Whether nothing is left to do.
    pub fn is_finished(&self) -> (r: bool)
        ensures
            r == (self is Delivered || self is Failed),
    {
        match self {
            Delivery::Delivered { .. } | Delivery::Failed => true,
            _ => false,
        }
    }

    /// The message that shows the notification, once delivered.
    pub fn delivered_message(&self) -> (r: Option<u64>)
        ensures
            r == (match *self {
                Delivery::Delivered { message_id } => Some(message_id),
                _ => None,
            }),
    {
        match self {
            Delivery::Delivered { message_id } => Some(*message_id),
            _ => None,
        }
    }
}

proof fn lemma_finished_stays(state: Delivery, replies: Seq<Reply>)
    requires
        state is Delivered || state is Failed,
    ensures
        delivery_after(state, replies) == state,
        posts_requested(state, replies) == 0,
    decreases replies.len(),
{
    if replies.len() > 0 {
        lemma_finished_stays(state, replies.drop_last());
    }
}

/// A delivery asks for a new message at most once, whatever the replies.
pub proof fn lemma_at_most_one_post(prior: Option<u64>, replies: Seq<Reply>)
    ensures
        posts_requested(begin_delivery(prior), replies) <= 1,
        delivery_after(begin_delivery(prior), replies) is Creating ==> posts_requested(
            begin_delivery(prior),
            replies,
        ) == 0,
    decreases replies.len(),
{
    if replies.len() > 0 {
        lemma_at_most_one_post(prior, replies.drop_last());
    }
}

/// When the edit of the prior message is refused, exactly one new message is asked for,
/// and the delivery ends on the message that the platform posted.
pub proof fn lemma_refused_edit_posts_once(prior: u64, replies: Seq<Reply>)
    requires
        replies.len() >= 2,
        replies[0] is Refused,
    ensures
        posts_requested(begin_delivery(Some(prior)), replies) == 1,
        replies[1] matches Reply::Accepted { message_id } ==> delivery_after(
            begin_delivery(Some(prior)),
            replies,
        ) == (Delivery::Delivered { message_id }),
        replies[1] is Refused ==> delivery_after(begin_delivery(Some(prior)), replies)
            is Failed,
    decreases replies.len(),
{
    let start = begin_delivery(Some(prior));
    if replies.len() == 2 {
        let one = replies.drop_last();
        assert(one.drop_last() =~= Seq::<Reply>::empty());
        assert(delivery_after(start, one.drop_last()) == start);
        assert(posts_requested(start, one.drop_last()) == 0);
        assert(delivery_after(start, one) == Delivery::Creating);
        assert(posts_requested(start, one) == 0);
    } else {
        assert(replies.drop_last()[0] == replies[0]);
        assert(replies.drop_last()[1] == replies[1]);
        lemma_refused_edit_posts_once(prior, replies.drop_last());
    }
}

} // verus!
