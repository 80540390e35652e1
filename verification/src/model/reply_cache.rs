//! A bounded cache of the messages that are replied to.

use vstd::prelude::*;

use crate::types::{ChatId, MessageId};

verus! {

/// The number of replied messages that are cached at most.
pub const MAX_CACHED_REPLIED_MESSAGES: usize = 100;

/// A message of some chat.
#[derive(Clone, Copy, Debug, PartialEq, Eq, Structural)]
pub struct MessageRef {
    pub chat_id: ChatId,
    /// The number of the message among those that its chat holds.
    pub serial: u64,
}

/// A message that is replied to. It is `None` if it doesn't exist.
#[derive(Clone, Copy, Debug, PartialEq, Eq, Structural)]
pub struct ReplyEntry {
    pub chat_id: ChatId,
    pub message_id: MessageId,
    pub message: Option<MessageRef>,
}

impl ReplyEntry {
    pub open spec fn key(self) -> (ChatId, MessageId) {
        (self.chat_id, self.message_id)
    }
}

/// What the entries say about each message, later ones taking precedence.
pub open spec fn entries_map(entries: Seq<ReplyEntry>) -> Map<
    (ChatId, MessageId),
    Option<MessageRef>,
>
    decreases entries.len(),
{
    if entries.len() == 0 {
        Map::empty()
    } else {
        entries_map(entries.drop_last()).insert(entries.last().key(), entries.last().message)
    }
}

/// Whether no two entries are about the same message.
pub open spec fn has_distinct_keys(entries: Seq<ReplyEntry>) -> bool {
    forall|i: int, j: int|
        #![trigger entries[i], entries[j]]
        0 <= i < j < entries.len() ==> entries[i].key() != entries[j].key()
}

/// The cache after it was emptied because it is full.
pub open spec fn pruned(cache: Map<(ChatId, MessageId), Option<MessageRef>>) -> Map<
    (ChatId, MessageId),
    Option<MessageRef>,
> {
    if cache.dom().len() >= MAX_CACHED_REPLIED_MESSAGES {
        Map::empty()
    } else {
        cache
    }
}

proof fn lemma_entries_map(entries: Seq<ReplyEntry>)
    requires
        has_distinct_keys(entries),
    ensures
        entries_map(entries).dom().finite(),
        entries_map(entries).dom().len() == entries.len(),
        forall|i: int|
            0 <= i < entries.len() ==> entries_map(entries).contains_key(
                (#[trigger] entries[i]).key(),
            ) && entries_map(entries)[entries[i].key()] == entries[i].message,
        forall|key: (ChatId, MessageId)| #[trigger]
            entries_map(entries).contains_key(key) ==> exists|i: int|
                0 <= i < entries.len() && (#[trigger] entries[i]).key() == key,
    decreases entries.len(),
{
    if entries.len() > 0 {
        let rest = entries.drop_last();
        let last = entries.last();
        assert forall|i: int, j: int|
            #![trigger rest[i], rest[j]]
            0 <= i < j < rest.len() implies rest[i].key() != rest[j].key() by {
            assert(entries[i] == rest[i] && entries[j] == rest[j]);
        }
        lemma_entries_map(rest);
        assert(!entries_map(rest).contains_key(last.key())) by {
            if entries_map(rest).contains_key(last.key()) {
                let i = choose|i: int|
                    0 <= i < rest.len() && (#[trigger] rest[i]).key() == last.key();
                assert(entries[i].key() == entries[entries.len() - 1].key());
            }
        }
        assert(entries_map(entries).dom() =~= entries_map(rest).dom().insert(last.key()));
        assert forall|i: int| 0 <= i < entries.len() implies entries_map(entries).contains_key(
            (#[trigger] entries[i]).key(),
        ) && entries_map(entries)[entries[i].key()] == entries[i].message by {
            if i < rest.len() {
                assert(rest[i] == entries[i]);
            }
        }
        assert forall|key: (ChatId, MessageId)| #[trigger]
            entries_map(entries).contains_key(key) implies exists|i: int|
            0 <= i < entries.len() && (#[trigger] entries[i]).key() == key by {
            if key == last.key() {
                assert(entries[entries.len() - 1].key() == key);
            } else {
                assert(entries_map(rest).contains_key(key));
                let i = choose|i: int| 0 <= i < rest.len() && (#[trigger] rest[i]).key() == key;
                assert(entries[i].key() == key);
            }
        }
    } else {
        assert(entries_map(entries).dom() =~= Set::empty());
    }
}

/// Replacing what one entry says.
proof fn lemma_entries_map_update(
    entries: Seq<ReplyEntry>,
    at: int,
    message: Option<MessageRef>,
)
    requires
        has_distinct_keys(entries),
        0 <= at < entries.len(),
    ensures
        has_distinct_keys(entries.update(at, ReplyEntry { message, ..entries[at] })),
        entries_map(entries.update(at, ReplyEntry { message, ..entries[at] })) == entries_map(
            entries,
        ).insert(entries[at].key(), message),
{
    let updated = entries.update(at, ReplyEntry { message, ..entries[at] });
    assert forall|i: int, j: int|
        #![trigger updated[i], updated[j]]
        0 <= i < j < updated.len() implies updated[i].key() != updated[j].key() by {
        assert(updated[i].key() == entries[i].key() && updated[j].key() == entries[j].key());
    }
    lemma_entries_map(entries);
    lemma_entries_map(updated);
    let before = entries_map(entries).insert(entries[at].key(), message);
    let after = entries_map(updated);
    assert forall|key: (ChatId, MessageId)| #[trigger] before.contains_key(key) implies after.contains_key(
        key,
    ) && before[key] == after[key] by {
        if key == entries[at].key() {
            assert(updated[at].key() == key);
        } else {
            let i = choose|i: int| 0 <= i < entries.len() && (#[trigger] entries[i]).key() == key;
            assert(updated[i] == entries[i]);
        }
    }
    assert forall|key: (ChatId, MessageId)| #[trigger] after.contains_key(key) implies before.contains_key(
        key,
    ) by {
        let i = choose|i: int| 0 <= i < updated.len() && (#[trigger] updated[i]).key() == key;
        assert(entries[i].key() == key);
    }
    assert(before.dom() =~= after.dom());
    assert(before =~= after);
}

/// A cache of the messages that are replied to, which is emptied once it is
/// full.
#[derive(Debug)]
pub struct ReplyCache {
    entries: Vec<ReplyEntry>,
}

impl View for ReplyCache {
    type V = Map<(ChatId, MessageId), Option<MessageRef>>;

    closed spec fn view(&self) -> Map<(ChatId, MessageId), Option<MessageRef>> {
        entries_map(self.entries@)
    }
}

impl ReplyCache {
    /// There is at most one entry for each message, and there are not more
    /// than the maximum.
    pub closed spec fn wf(self) -> bool {
        has_distinct_keys(self.entries@) && self.entries@.len() <= MAX_CACHED_REPLIED_MESSAGES
    }

    pub fn new() -> (cache: ReplyCache)
        ensures
            cache.wf(),
            cache@ == Map::<(ChatId, MessageId), Option<MessageRef>>::empty(),
    {
        ReplyCache { entries: Vec::new() }
    }

    /// The cache never holds more messages than the maximum.
    pub proof fn law_cache_is_bounded(&self)
        requires
            self.wf(),
        ensures
            self@.dom().finite(),
            self@.dom().len() <= MAX_CACHED_REPLIED_MESSAGES,
    {
        lemma_entries_map(self.entries@);
    }

    fn position_of(&self, chat_id: ChatId, message_id: MessageId) -> (position: Option<usize>)
        requires
            self.wf(),
        ensures
            match position {
                Some(position) => position < self.entries@.len() && self.entries@[position as
                    int].key() == (chat_id, message_id),
                None => !self@.contains_key((chat_id, message_id)),
            },
    {
        let mut i: usize = 0;
        while i < self.entries.len()
            invariant
                i <= self.entries@.len(),
                forall|k: int|
                    0 <= k < i ==> (#[trigger] self.entries@[k]).key() != (chat_id, message_id),
            decreases self.entries@.len() - i,
        {
            let entry = self.entries[i];
            if entry.chat_id == chat_id && entry.message_id == message_id {
                return Some(i);
            }
            i = i + 1;
        }
        proof {
            lemma_entries_map(self.entries@);
        }
        None
    }

    /// What is known about the message.
    pub fn get(&self, chat_id: ChatId, message_id: MessageId) -> (cached: Option<
        Option<MessageRef>,
    >)
        requires
            self.wf(),
        ensures
            cached == if self@.contains_key((chat_id, message_id)) {
                Some(self@[(chat_id, message_id)])
            } else {
                None
            },
    {
        match self.position_of(chat_id, message_id) {
            Some(position) => {
                proof {
                    lemma_entries_map(self.entries@);
                }
                Some(self.entries[position].message)
            },
            None => None,
        }
    }

    /// Whether the message is one of those that are remembered.
    pub fn holds(&self, message: MessageRef) -> (result: bool)
        requires
            self.wf(),
        ensures
            result == exists|key: (ChatId, MessageId)| #[trigger]
                self@.contains_key(key) && self@[key] == Some(message),
    {
        let mut i: usize = 0;
        while i < self.entries.len()
            invariant
                self.wf(),
                i <= self.entries@.len(),
                forall|k: int|
                    0 <= k < i ==> (#[trigger] self.entries@[k]).message != Some(message),
            decreases self.entries@.len() - i,
        {
            let entry = self.entries[i];
            if let Some(remembered) = entry.message {
                if remembered == message {
                    proof {
                        lemma_entries_map(self.entries@);
                        assert(self@.contains_key(self.entries@[i as int].key()));
                    }
                    return true;
                }
            }
            i = i + 1;
        }
        proof {
            lemma_entries_map(self.entries@);
            assert forall|key: (ChatId, MessageId)| #[trigger]
                self@.contains_key(key) implies self@[key] != Some(message) by {
                let k = choose|k: int|
                    0 <= k < self.entries@.len() && (#[trigger] self.entries@[k]).key() == key;
                assert(self@[key] == self.entries@[k].message);
            }
        }
        false
    }

    /// Empties the cache if it is full.
    pub fn prune(&mut self)
        requires
            old(self).wf(),
        ensures
            final(self).wf(),
            final(self)@ == pruned(old(self)@),
            final(self)@.dom().len() < MAX_CACHED_REPLIED_MESSAGES,
    {
        proof {
            lemma_entries_map(self.entries@);
        }
        if self.entries.len() >= MAX_CACHED_REPLIED_MESSAGES {
            self.entries.clear();
            proof {
                lemma_entries_map(self.entries@);
            }
        }
    }

    /// Remembers the message, or that it doesn't exist.
    pub fn insert(&mut self, chat_id: ChatId, message_id: MessageId, message: Option<MessageRef>)
        requires
            old(self).wf(),
            old(self)@.dom().len() < MAX_CACHED_REPLIED_MESSAGES,
        ensures
            final(self).wf(),
            final(self)@ == old(self)@.insert((chat_id, message_id), message),
    {
        let entry = ReplyEntry { chat_id, message_id, message };
        match self.position_of(chat_id, message_id) {
            Some(position) => {
                proof {
                    lemma_entries_map_update(self.entries@, position as int, message);
                }
                self.entries.set(position, entry);
            },
            None => {
                proof {
                    lemma_entries_map(self.entries@);
                    let entries = self.entries@.push(entry);
                    assert(entries.drop_last() =~= self.entries@);
                    assert forall|i: int, j: int|
                        #![trigger entries[i], entries[j]]
                        0 <= i < j < entries.len() implies entries[i].key()
                        != entries[j].key() by {
                        assert(entries[i] == self.entries@[i]);
                        if j < self.entries@.len() {
                            assert(entries[j] == self.entries@[j]);
                        }
                    }
                }
                self.entries.push(entry);
            },
        }
    }
}

} // verus!
