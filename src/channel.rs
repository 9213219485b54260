//! Channels: append-only message sequences addressed by the digest of their id.
use vstd::prelude::*;
use crate::address::{hash_id, id_hash, messages_key, messages_key_from_hash};
use crate::host::block_timestamp;
use crate::types::Message;

verus! {

/// The messages of `s` from index `from` on, at most `limit` of them; none when
/// `from` lies at or past the end.
pub open spec fn page(s: Seq<Message>, from: int, limit: int) -> Seq<Message> {
    if from >= s.len() {
        Seq::empty()
    } else if from + limit <= s.len() {
        s.subrange(from, from + limit)
    } else {
        s.subrange(from, s.len() as int)
    }
}

/// Nanoseconds in a millisecond.
pub const NANOS_PER_MILLI: u64 = 1000000;

pub struct Channel {
    channel_id: String,
    messages_prefix: Vec<u8>,
    messages: Vec<Message>,
}

impl Channel {
    /// The channel's id.
    pub closed spec fn id(&self) -> Seq<char> {
        self.channel_id@
    }

    /// The channel's messages, oldest first.
    pub closed spec fn msgs(&self) -> Seq<Message> {
        self.messages@
    }

    /// The namespace of the channel's messages is derived from the digest of its id.
    pub closed spec fn wf(&self) -> bool {
        self.messages_prefix@ == messages_key(id_hash(self.channel_id@))
    }

    /// A channel with no messages yet.
    pub fn new(channel_id: String) -> (r: Channel)
        ensures
            r.wf(),
            r.id() == channel_id@,
            r.msgs() == Seq::<Message>::empty(),
    {
        let prefix = messages_key_from_hash(hash_id(&channel_id));
        Channel { messages_prefix: prefix, channel_id, messages: Vec::new() }
    }

    /// Appends a message stamped with the given time, in milliseconds.
    pub fn add_message_at(&mut self, sender_id: String, text: String, time: u64)
        ensures
            final(self).wf() == old(self).wf(),
            final(self).id() == old(self).id(),
            final(self).msgs() == old(self).msgs().push(Message { time, sender_id, text }),
    {
        self.messages.push(Message { sender_id, text, time });
    }

    /// Appends a message stamped with the current block time, in milliseconds.
    pub fn add_message(&mut self, sender_id: String, text: String)
        ensures
            final(self).wf() == old(self).wf(),
            final(self).id() == old(self).id(),
            final(self).msgs().len() == old(self).msgs().len() + 1,
            final(self).msgs().drop_last() == old(self).msgs(),
            final(self).msgs().last().sender_id == sender_id,
            final(self).msgs().last().text == text,
    {
        let time = block_timestamp() / NANOS_PER_MILLI;
        self.add_message_at(sender_id, text, time);
        assert(self.msgs().drop_last() =~= old(self).msgs());
    }

    /// The channel's id.
    pub fn channel_id(&self) -> (r: &String)
        ensures
            r@ == self.id(),
    {
        &self.channel_id
    }

    /// How many messages the channel holds.
    pub fn num_messages(&self) -> (r: u64)
        ensures
            r == self.msgs().len(),
    {
        self.messages.len() as u64
    }

    /// The message at `index`, if there is one.
    pub fn message(&self, index: u64) -> (r: Option<&Message>)
        ensures
            index < self.msgs().len() ==> r == Some(&self.msgs()[index as int]),
            index >= self.msgs().len() ==> r is None,
    {
        if index < self.messages.len() as u64 {
            Some(&self.messages[index as usize])
        } else {
            None
        }
    }

    /// Up to `limit` messages from index `from_index` on, in order.
    pub fn messages_slice(&self, from_index: u64, limit: u64) -> (r: Vec<Message>)
        ensures
            r@ == page(self.msgs(), from_index as int, limit as int),
    {
        let len = self.messages.len() as u64;
        let mut out: Vec<Message> = Vec::new();
        let mut index: u64 = from_index;
        while (out.len() as u64) < limit && index < len
            invariant
                len == self.messages@.len(),
                self.messages@.len() <= usize::MAX,
                from_index <= index,
                index == from_index || index <= len,
                out@.len() == index - from_index,
                out@.len() <= limit,
                forall|j: int| 0 <= j < out@.len() ==> out@[j] == self.messages@[from_index + j],
            decreases len - index,
        {
            let i: usize = index as usize;
            assert(i == index);
            out.push(self.messages[i].duplicate());
            index += 1;
        }
        assert(out@ =~= page(self.msgs(), from_index as int, limit as int));
        out
    }

    /// A copy of the channel.
    pub fn duplicate(&self) -> (r: Channel)
        ensures
            r.wf() == self.wf(),
            r.id() == self.id(),
            r.msgs() == self.msgs(),
    {
        let mut messages: Vec<Message> = Vec::new();
        let mut i: usize = 0;
        while i < self.messages.len()
            invariant
                i <= self.messages@.len(),
                messages@ =~= self.messages@.subrange(0, i as int),
            decreases self.messages@.len() - i,
        {
            messages.push(self.messages[i].duplicate());
            i += 1;
        }
        assert(messages@ =~= self.messages@);
        Channel {
            channel_id: self.channel_id.clone(),
            messages_prefix: self.messages_prefix.clone(),
            messages,
        }
    }
}

} // verus!
