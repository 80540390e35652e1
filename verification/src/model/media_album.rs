//! Groups of media messages that were sent together.

use vstd::prelude::*;

use crate::model::chat_history_item::HistoryMessage;
use crate::types::MessageId;

verus! {

/// Whether the messages are sorted ascending by id, each id occurring once.
pub open spec fn is_ascending(messages: Seq<HistoryMessage>) -> bool {
    forall|i: int, j: int|
        #![trigger messages[i], messages[j]]
        0 <= i < j < messages.len() ==> messages[i].id < messages[j].id
}

/// Whether one of the messages has the given id.
pub open spec fn has_message(messages: Seq<HistoryMessage>, id: MessageId) -> bool {
    exists|i: int| 0 <= i < messages.len() && (#[trigger] messages[i]).id == id
}

/// The number of leading messages that are older than the given id.
pub open spec fn older_count(messages: Seq<HistoryMessage>, id: MessageId) -> nat
    decreases messages.len(),
{
    if messages.len() == 0 {
        0
    } else if messages.last().id < id {
        messages.len()
    } else {
        older_count(messages.drop_last(), id)
    }
}

/// The messages with `message` added at its place, unless its id is among
/// them already.
pub open spec fn with_message(messages: Seq<HistoryMessage>, message: HistoryMessage) -> Seq<
    HistoryMessage,
> {
    if has_message(messages, message.id) {
        messages
    } else {
        messages.insert(older_count(messages, message.id) as int, message)
    }
}

/// The messages without the one of the given id.
pub open spec fn without_message(messages: Seq<HistoryMessage>, id: MessageId) -> Seq<
    HistoryMessage,
> {
    if has_message(messages, id) {
        messages.remove(older_count(messages, id) as int)
    } else {
        messages
    }
}

/// Whether there is a caption to show.
pub open spec fn is_caption(caption: Option<String>) -> bool {
    caption is Some && caption->0@.len() > 0
}

/// The position of the last caption to show, if there is one.
pub open spec fn last_caption(captions: Seq<Option<String>>) -> Option<int>
    decreases captions.len(),
{
    if captions.len() == 0 {
        None
    } else if is_caption(captions.last()) {
        Some(captions.len() - 1)
    } else {
        last_caption(captions.drop_last())
    }
}

/// In ascending messages, `older_count` splits the older messages from the
/// others.
pub proof fn lemma_older_count(messages: Seq<HistoryMessage>, id: MessageId)
    requires
        is_ascending(messages),
    ensures
        older_count(messages, id) <= messages.len(),
        forall|i: int|
            0 <= i < older_count(messages, id) ==> (#[trigger] messages[i]).id < id,
        forall|i: int|
            older_count(messages, id) <= i < messages.len() ==> (#[trigger] messages[i]).id >= id,
    decreases messages.len(),
{
    if messages.len() > 0 {
        let rest = messages.drop_last();
        if messages.last().id >= id {
            lemma_older_count(rest, id);
            assert forall|i: int| 0 <= i < older_count(messages, id) implies (
            #[trigger] messages[i]).id < id by {
                assert(messages[i] == rest[i]);
            }
            assert forall|i: int| older_count(messages, id) <= i < messages.len() implies (
            #[trigger] messages[i]).id >= id by {
                if i < rest.len() {
                    assert(messages[i] == rest[i]);
                }
            }
        }
    }
}

/// `older_count` is the one position that splits the older messages from the
/// others.
pub proof fn lemma_older_count_unique(messages: Seq<HistoryMessage>, id: MessageId, position: int)
    requires
        is_ascending(messages),
        0 <= position <= messages.len(),
        forall|i: int| 0 <= i < position ==> (#[trigger] messages[i]).id < id,
        forall|i: int| position <= i < messages.len() ==> (#[trigger] messages[i]).id >= id,
    ensures
        older_count(messages, id) == position,
{
    lemma_older_count(messages, id);
    let count = older_count(messages, id) as int;
    if count < position {
        assert(messages[count].id < id);
    } else if count > position {
        assert(messages[position].id < id);
    }
}

/// A group of media messages that were sent together.
///
/// Its *representative* is its oldest message. The chat history shows the
/// whole album in the row of the representative.
#[derive(Debug)]
pub struct MediaAlbum {
    id: i64,
    items: Vec<HistoryMessage>,
}

impl View for MediaAlbum {
    type V = Seq<HistoryMessage>;

    closed spec fn view(&self) -> Seq<HistoryMessage> {
        self.items@
    }
}

impl MediaAlbum {
    /// The id shared by all the messages of the album.
    pub closed spec fn album_id(self) -> i64 {
        self.id
    }

    /// The messages are sorted ascending by id, each id occurring once.
    pub open spec fn wf(self) -> bool {
        is_ascending(self@)
    }

    pub fn new(id: i64) -> (album: MediaAlbum)
        ensures
            album.wf(),
            album.album_id() == id,
            album@ == Seq::<HistoryMessage>::empty(),
    {
        MediaAlbum { id, items: Vec::new() }
    }

    /// The id shared by all the messages of the album.
    pub fn id(&self) -> (id: i64)
        ensures
            id == self.album_id(),
    {
        self.id
    }

    /// The number of messages in the album.
    pub fn len(&self) -> (len: usize)
        ensures
            len == self@.len(),
    {
        self.items.len()
    }

    /// Whether the album has no messages.
    pub fn is_empty(&self) -> (result: bool)
        ensures
            result == (self@.len() == 0),
    {
        self.items.len() == 0
    }

    /// The position of the first message that is not older than the given id.
    fn position_of(&self, message_id: MessageId) -> (position: usize)
        requires
            self.wf(),
        ensures
            position == older_count(self@, message_id),
            position <= self@.len(),
    {
        let mut low: usize = 0;
        let mut high: usize = self.items.len();
        while low < high
            invariant
                self.wf(),
                low <= high <= self@.len(),
                forall|i: int| 0 <= i < low ==> (#[trigger] self@[i]).id < message_id,
                forall|i: int| high <= i < self@.len() ==> (#[trigger] self@[i]).id >= message_id,
            decreases high - low,
        {
            let mid: usize = low + (high - low) / 2;
            let item = self.items[mid];
            assert(item == self@[mid as int]);
            if item.id < message_id {
                low = mid + 1;
            } else {
                high = mid;
            }
        }
        proof {
            lemma_older_count_unique(self@, message_id, low as int);
        }
        low
    }

    /// Whether a message with the given id is found at `position`, which must
    /// be where it belongs.
    fn holds_at(&self, position: usize, message_id: MessageId) -> (result: bool)
        requires
            self.wf(),
            position == older_count(self@, message_id),
        ensures
            result == has_message(self@, message_id),
            result ==> position < self@.len() && self@[position as int].id == message_id,
    {
        proof {
            lemma_older_count(self@, message_id);
            if has_message(self@, message_id) {
                let k = choose|k: int| 0 <= k < self@.len() && (#[trigger] self@[k]).id
                    == message_id;
                if position < k {
                    assert(self@[position as int].id < self@[k].id);
                }
            }
        }
        position < self.items.len() && self.items[position].id == message_id
    }

    /// Whether a message with the given id is part of the album.
    pub fn contains(&self, message_id: MessageId) -> (result: bool)
        requires
            self.wf(),
        ensures
            result == has_message(self@, message_id),
    {
        let position = self.position_of(message_id);
        self.holds_at(position, message_id)
    }

    /// Adds a message to the album, keeping the messages sorted ascending by
    /// id, and returns the position it was added at.
    ///
    /// Does nothing if a message with the same id is already part of the
    /// album.
    pub fn add_message(&mut self, message: HistoryMessage) -> (position: Option<usize>)
        requires
            old(self).wf(),
        ensures
            final(self).wf(),
            final(self).album_id() == old(self).album_id(),
            final(self)@ == with_message(old(self)@, message),
            position == if has_message(old(self)@, message.id) {
                None
            } else {
                Some(older_count(old(self)@, message.id) as usize)
            },
    {
        let position = self.position_of(message.id);
        if self.holds_at(position, message.id) {
            return None;
        }
        proof {
            lemma_older_count(self@, message.id);
            lemma_with_message(self@, message);
        }
        self.items.insert(position, message);
        Some(position)
    }

    /// Removes the message with the given id from the album and returns it
    /// together with its position, if it was part of the album.
    pub fn remove_message(&mut self, message_id: MessageId) -> (removed: Option<
        (usize, HistoryMessage),
    >)
        requires
            old(self).wf(),
        ensures
            final(self).wf(),
            final(self).album_id() == old(self).album_id(),
            final(self)@ == without_message(old(self)@, message_id),
            removed == if has_message(old(self)@, message_id) {
                Some(
                    (
                        older_count(old(self)@, message_id) as usize,
                        old(self)@[older_count(old(self)@, message_id) as int],
                    ),
                )
            } else {
                None
            },
    {
        let position = self.position_of(message_id);
        if !self.holds_at(position, message_id) {
            return None;
        }
        proof {
            lemma_without_message(self@, message_id);
        }
        let message = self.items.remove(position);
        Some((position, message))
    }

    /// The messages of the album, ordered from the newest to the oldest.
    pub fn messages(&self) -> (messages: Vec<HistoryMessage>)
        ensures
            messages@ == self@.reverse(),
    {
        let mut messages: Vec<HistoryMessage> = Vec::with_capacity(self.items.len());
        let mut i: usize = self.items.len();
        while i > 0
            invariant
                i <= self@.len(),
                messages@ == self@.skip(i as int).reverse(),
            decreases i,
        {
            i = i - 1;
            messages.push(self.items[i]);
            assert(messages@ =~= self@.skip(i as int).reverse());
        }
        assert(self@.skip(0) =~= self@);
        messages
    }

    /// The messages of the album, ordered from the oldest to the newest.
    pub fn chronological(&self) -> (messages: Vec<HistoryMessage>)
        ensures
            messages@ == self@,
    {
        let mut messages: Vec<HistoryMessage> = Vec::with_capacity(self.items.len());
        let mut i: usize = 0;
        while i < self.items.len()
            invariant
                i <= self@.len(),
                messages@ == self@.take(i as int),
            decreases self@.len() - i,
        {
            messages.push(self.items[i]);
            i = i + 1;
            assert(messages@ =~= self@.take(i as int));
        }
        assert(self@.take(self@.len() as int) =~= self@);
        messages
    }

    /// The oldest message of the album, which is its representative.
    pub fn first_message(&self) -> (message: Option<HistoryMessage>)
        ensures
            message == if self@.len() > 0 {
                Some(self@[0])
            } else {
                None
            },
    {
        if self.items.len() > 0 {
            Some(self.items[0])
        } else {
            None
        }
    }

    /// The id of the oldest message of the album.
    pub fn first_message_id(&self) -> (id: Option<MessageId>)
        ensures
            id == if self@.len() > 0 {
                Some(self@[0].id)
            } else {
                None
            },
    {
        if self.items.len() > 0 {
            Some(self.items[0].id)
        } else {
            None
        }
    }

    /// The id of the newest message of the album.
    pub fn last_message_id(&self) -> (id: Option<MessageId>)
        ensures
            id == if self@.len() > 0 {
                Some(self@.last().id)
            } else {
                None
            },
    {
        let len = self.items.len();
        if len > 0 {
            Some(self.items[len - 1].id)
        } else {
            None
        }
    }
}

/// The position of the message whose caption is shown for the album. The
/// captions are those of the photos, videos and animations among the messages,
/// ordered from the oldest to the newest.
///
/// Telegram's official clients display the caption of the last message of the
/// album that has one.
pub fn caption_position(captions: &Vec<Option<String>>) -> (position: Option<usize>)
    ensures
        match position {
            Some(position) => last_caption(captions@) == Some(position as int) && position
                < captions@.len(),
            None => last_caption(captions@) is None,
        },
{
    let ghost all = captions@;
    let mut i: usize = captions.len();
    assert(all.take(i as int) =~= all);
    while i > 0
        invariant
            all == captions@,
            i <= all.len(),
            last_caption(all) == last_caption(all.take(i as int)),
        decreases i,
    {
        i = i - 1;
        assert(all.take(i + 1).last() == all[i as int]);
        assert(all.take(i + 1).drop_last() =~= all.take(i as int));
        if let Some(caption) = &captions[i] {
            if caption.as_str().unicode_len() > 0 {
                return Some(i);
            }
        }
    }
    None
}

/// The caption that is shown is not empty, and all the later ones are.
pub proof fn law_last_caption(captions: Seq<Option<String>>)
    ensures
        match last_caption(captions) {
            Some(position) => 0 <= position < captions.len() && is_caption(captions[position])
                && forall|i: int|
                position < i < captions.len() ==> !is_caption(#[trigger] captions[i]),
            None => forall|i: int|
                0 <= i < captions.len() ==> !is_caption(#[trigger] captions[i]),
        },
    decreases captions.len(),
{
    if captions.len() > 0 && !is_caption(captions.last()) {
        let rest = captions.drop_last();
        law_last_caption(rest);
        assert forall|i: int| 0 <= i < rest.len() implies rest[i] == #[trigger] captions[i] by {}
    }
}

/// Adding a message keeps the messages sorted and makes its id one of theirs.
/// Nothing else joins or leaves.
pub proof fn lemma_with_message(messages: Seq<HistoryMessage>, message: HistoryMessage)
    requires
        is_ascending(messages),
    ensures
        is_ascending(with_message(messages, message)),
        forall|id: MessageId|
            has_message(with_message(messages, message), id) <==> has_message(messages, id) || id
                == message.id,
{
    let result = with_message(messages, message);
    if !has_message(messages, message.id) {
        let at = older_count(messages, message.id) as int;
        lemma_older_count(messages, message.id);
        assert forall|i: int, j: int|
            #![trigger result[i], result[j]]
            0 <= i < j < result.len() implies result[i].id < result[j].id by {
            if i < at && j == at {
                assert(result[i] == messages[i]);
            } else if i == at {
                assert(result[j] == messages[j - 1]);
                assert(messages[j - 1].id != message.id);
            } else if i > at {
                assert(result[i] == messages[i - 1]);
                assert(result[j] == messages[j - 1]);
            } else if j > at {
                assert(result[i] == messages[i]);
                assert(result[j] == messages[j - 1]);
            } else {
                assert(result[i] == messages[i]);
                assert(result[j] == messages[j]);
            }
        }
        assert forall|id: MessageId|
            has_message(result, id) <==> has_message(messages, id) || id == message.id by {
            if has_message(messages, id) {
                let k = choose|k: int| 0 <= k < messages.len() && (#[trigger] messages[k]).id
                    == id;
                if k < at {
                    assert(result[k] == messages[k]);
                } else {
                    assert(result[k + 1] == messages[k]);
                }
            }
            if id == message.id {
                assert(result[at].id == id);
            }
            if has_message(result, id) && id != message.id {
                let k = choose|k: int| 0 <= k < result.len() && (#[trigger] result[k]).id == id;
                if k < at {
                    assert(result[k] == messages[k]);
                } else {
                    assert(result[k] == messages[k - 1]);
                }
            }
        }
    }
}

/// Removing a message keeps the messages sorted and takes its id away.
/// Nothing else joins or leaves.
pub proof fn lemma_without_message(messages: Seq<HistoryMessage>, id: MessageId)
    requires
        is_ascending(messages),
    ensures
        is_ascending(without_message(messages, id)),
        forall|other: MessageId|
            has_message(without_message(messages, id), other) <==> has_message(messages, other)
                && other != id,
{
    let result = without_message(messages, id);
    if has_message(messages, id) {
        let at = older_count(messages, id) as int;
        lemma_older_count(messages, id);
        let k = choose|k: int| 0 <= k < messages.len() && (#[trigger] messages[k]).id == id;
        assert(at <= k);
        if at < k {
            assert(messages[at].id < messages[k].id);
        }
        assert forall|other: MessageId|
            has_message(result, other) <==> has_message(messages, other) && other != id by {
            if has_message(messages, other) && other != id {
                let k = choose|k: int| 0 <= k < messages.len() && (#[trigger] messages[k]).id
                    == other;
                if k < at {
                    assert(result[k] == messages[k]);
                } else {
                    assert(result[k - 1] == messages[k]);
                }
            }
            if has_message(result, other) {
                let k = choose|k: int| 0 <= k < result.len() && (#[trigger] result[k]).id == other;
                if k < at {
                    assert(result[k] == messages[k]);
                    assert(messages[k].id < messages[at].id);
                } else {
                    assert(result[k] == messages[k + 1]);
                    assert(messages[at].id < messages[k + 1].id);
                }
            }
        }
    }
}

/// Removing the message that was just added gives the album back as it was.
pub proof fn law_removing_undoes_adding(messages: Seq<HistoryMessage>, message: HistoryMessage)
    requires
        is_ascending(messages),
        !has_message(messages, message.id),
    ensures
        without_message(with_message(messages, message), message.id) == messages,
{
    let added = with_message(messages, message);
    let at = older_count(messages, message.id) as int;
    assert(0 <= at <= messages.len()) by {
        lemma_older_count(messages, message.id);
    }
    assert(added == messages.insert(at, message));
    assert(has_message(added, message.id)) by {
        assert(added[at].id == message.id);
    }
    assert(older_count(added, message.id) == at) by {
        assert(is_ascending(added)) by {
            lemma_with_message(messages, message);
        }
        assert forall|i: int| 0 <= i < at implies (#[trigger] added[i]).id < message.id by {
            lemma_older_count(messages, message.id);
            assert(added[i] == messages[i]);
        }
        assert forall|i: int| at <= i < added.len() implies (#[trigger] added[i]).id
            >= message.id by {
            lemma_older_count(messages, message.id);
            if i > at {
                assert(added[i] == messages[i - 1]);
            }
        }
        lemma_older_count_unique(added, message.id, at);
    }
    assert(added.remove(at) =~= messages);
}

/// A message that is added is a member from then on, with everything that is
/// known about it. It stands between the older and the newer members, which all
/// stay as they are.
pub proof fn law_added_message_is_member(messages: Seq<HistoryMessage>, message: HistoryMessage)
    requires
        is_ascending(messages),
    ensures
        ({
            let after = with_message(messages, message);
            &&& is_ascending(after)
            &&& has_message(messages, message.id) ==> after == messages
            &&& !has_message(messages, message.id) ==> after.len() == messages.len() + 1
                && after.contains(message)
            &&& forall|i: int| 0 <= i < messages.len() ==> #[trigger] after.contains(messages[i])
        }),
{
    lemma_with_message(messages, message);
    lemma_older_count(messages, message.id);
    let after = with_message(messages, message);
    let at = older_count(messages, message.id) as int;
    if !has_message(messages, message.id) {
        assert(after[at] == message);
    }
    assert forall|i: int| 0 <= i < messages.len() implies #[trigger] after.contains(messages[i]) by {
        if has_message(messages, message.id) {
            assert(after[i] == messages[i]);
        } else if i < at {
            assert(after[i] == messages[i]);
        } else {
            assert(after[i + 1] == messages[i]);
        }
    }
}

/// A message that is removed is not a member anymore, and all other members stay
/// as they are.
pub proof fn law_removed_message_is_no_member(
    messages: Seq<HistoryMessage>,
    id: MessageId,
    i: int,
)
    requires
        is_ascending(messages),
    ensures
        ({
            let after = without_message(messages, id);
            &&& is_ascending(after)
            &&& !has_message(after, id)
            &&& !has_message(messages, id) ==> after == messages
            &&& has_message(messages, id) ==> after.len() + 1 == messages.len()
            &&& 0 <= i < messages.len() && messages[i].id != id ==> after.contains(messages[i])
        }),
{
    lemma_without_message(messages, id);
    lemma_older_count(messages, id);
    let after = without_message(messages, id);
    let at = older_count(messages, id) as int;
    if has_message(messages, id) {
        let k = choose|k: int| 0 <= k < messages.len() && (#[trigger] messages[k]).id == id;
        assert(at <= k < messages.len());
    }
    if 0 <= i < messages.len() && messages[i].id != id {
        if !has_message(messages, id) {
            assert(after[i] == messages[i]);
        } else {
            let k = choose|k: int| 0 <= k < messages.len() && (#[trigger] messages[k]).id == id;
            if at < k {
                assert(messages[at].id < messages[k].id);
            }
            if i < at {
                assert(after[i] == messages[i]);
            } else {
                assert(after[i - 1] == messages[i]);
            }
        }
    }
}

/// A message has a caption if and only if it has one that is not empty.
pub proof fn law_empty_captions_are_none(caption: String)
    ensures
        is_caption(Some(caption)) <==> caption@.len() != 0,
        !is_caption(None),
{
}

} // verus!
