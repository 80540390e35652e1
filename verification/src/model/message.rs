//! Messages and what can happen to them.

use vstd::prelude::*;

use crate::model::chat_history_item::HistoryMessage;
use crate::model::message_interaction_info::{
    interaction_info_of, reactions_view, InteractionInfoView, InteractionUpdate, MessageInteractionInfo,
    MessageReactionView, ReactionType, ReactionTypeView,
};
use crate::types::{ChatId, MessageId, MessageSenderId, Timestamp};

verus! {

/// The number of reactions per row that are asked for when the available
/// reactions are fetched.
pub const AVAILABLE_REACTIONS_ROW_SIZE: i32 = 8;

/// Who sent a message.
#[derive(Clone, Copy, Debug, PartialEq, Eq, Structural)]
pub enum MessageSender {
    User(i64),
    Chat(ChatId),
}

impl MessageSender {
    /// The user that sent the message, if it was one.
    pub fn as_user(&self) -> (user: Option<i64>)
        ensures
            user == match *self {
                MessageSender::User(id) => Some(id),
                MessageSender::Chat(_) => None,
            },
    {
        match self {
            MessageSender::User(id) => Some(*id),
            MessageSender::Chat(_) => None,
        }
    }

    pub fn id(&self) -> (id: MessageSenderId)
        ensures
            id == match *self {
                MessageSender::User(id) => id,
                MessageSender::Chat(id) => id,
            },
    {
        match self {
            MessageSender::User(id) => *id,
            MessageSender::Chat(id) => *id,
        }
    }
}

/// The contents that are treated differently from others.
#[derive(Clone, Copy, Debug, PartialEq, Eq, Structural)]
pub enum ContentKind {
    Photo,
    Video,
    Animation,
    Other,
}

/// The content of a message.
#[derive(Clone, Copy, Debug, PartialEq, Eq, Structural)]
pub struct MessageContent {
    pub kind: ContentKind,
    /// The number of sizes that a photo is available in.
    pub photo_sizes: usize,
    /// Stands for everything else there is to know about the content. Equal
    /// contents have equal numbers.
    pub snapshot: u64,
}

impl MessageContent {
    /// Whether media albums can hold such a content.
    pub open spec fn groupable(self) -> bool {
        self.kind != ContentKind::Other
    }

    /// Whether media albums can hold such a content.
    pub fn is_groupable(&self) -> (result: bool)
        ensures
            result == self.groupable(),
    {
        match self.kind {
            ContentKind::Photo | ContentKind::Video | ContentKind::Animation => true,
            ContentKind::Other => false,
        }
    }
}

/// The message that a message replies to. The chat id is 0 if it is in the
/// same chat.
#[derive(Clone, Copy, Debug, PartialEq, Eq, Structural)]
pub struct ReplyTarget {
    pub chat_id: ChatId,
    pub message_id: MessageId,
}

/// Where a forwarded message comes from.
#[derive(Debug)]
pub enum MessageForwardOrigin {
    User(i64),
    Chat(ChatId),
    Channel(ChatId),
    HiddenUser(String),
}

/// Where a forwarded message comes from.
pub enum ForwardOriginView {
    User(i64),
    Chat(ChatId),
    Channel(ChatId),
    HiddenUser(Seq<char>),
}

impl View for MessageForwardOrigin {
    type V = ForwardOriginView;

    open spec fn view(&self) -> ForwardOriginView {
        match *self {
            MessageForwardOrigin::User(id) => ForwardOriginView::User(id),
            MessageForwardOrigin::Chat(id) => ForwardOriginView::Chat(id),
            MessageForwardOrigin::Channel(id) => ForwardOriginView::Channel(id),
            MessageForwardOrigin::HiddenUser(name) => ForwardOriginView::HiddenUser(name@),
        }
    }
}

/// The name to be shown for a message.
#[derive(Debug)]
pub enum DisplayName {
    /// The name of the user.
    User(i64),
    /// The title of the chat.
    Chat(ChatId),
    Text(String),
}

/// The name to be shown for a message.
pub enum DisplayNameView {
    User(i64),
    Chat(ChatId),
    Text(Seq<char>),
}

impl View for DisplayName {
    type V = DisplayNameView;

    open spec fn view(&self) -> DisplayNameView {
        match *self {
            DisplayName::User(id) => DisplayNameView::User(id),
            DisplayName::Chat(id) => DisplayNameView::Chat(id),
            DisplayName::Text(text) => DisplayNameView::Text(text@),
        }
    }
}

/// The name of the sender.
pub open spec fn sender_name_of(sender: MessageSender) -> DisplayNameView {
    match sender {
        MessageSender::User(id) => DisplayNameView::User(id),
        MessageSender::Chat(id) => DisplayNameView::Chat(id),
    }
}

/// The name of the origin of a forwarded message.
pub open spec fn origin_name_of(origin: ForwardOriginView) -> DisplayNameView {
    match origin {
        ForwardOriginView::User(id) => DisplayNameView::User(id),
        ForwardOriginView::Chat(id) => DisplayNameView::Chat(id),
        ForwardOriginView::Channel(id) => DisplayNameView::Chat(id),
        ForwardOriginView::HiddenUser(name) => DisplayNameView::Text(name),
    }
}

/// A message as TDLib describes it.
#[derive(Debug)]
pub struct MessageData {
    pub id: MessageId,
    pub sender: MessageSender,
    pub is_outgoing: bool,
    /// Stands for the sending state.
    pub sending_state: Option<u64>,
    pub date: Timestamp,
    /// When the message was edited the last time, or 0.
    pub edit_date: i32,
    pub interaction_info: Option<InteractionUpdate>,
    pub forward_origin: Option<MessageForwardOrigin>,
    pub reply_to: Option<ReplyTarget>,
    pub media_album_id: i64,
    pub content: MessageContent,
}

/// A change of a message.
#[derive(Debug)]
pub enum MessageUpdate {
    Content(MessageContent),
    Edited { edit_date: i32 },
    InteractionInfo(Option<InteractionUpdate>),
}

/// What may be done with a message.
#[derive(Clone, Copy, Debug, PartialEq, Eq, Structural)]
pub struct MessageProperties {
    pub can_be_edited: bool,
    pub can_be_deleted_only_for_self: bool,
    pub can_be_deleted_for_all_users: bool,
}

/// The properties of a message that changed.
#[derive(Clone, Copy, Debug, PartialEq, Eq, Structural)]
pub struct MessageChanges {
    pub content: bool,
    pub is_edited: bool,
    pub reply_count: bool,
    pub reactions: bool,
}

/// A message of a chat.
#[derive(Debug)]
pub struct Message {
    id: MessageId,
    sender: MessageSender,
    is_outgoing: bool,
    sending_state: Option<u64>,
    date: Timestamp,
    interaction_info: MessageInteractionInfo,
    forward_origin: Option<MessageForwardOrigin>,
    reply_to: Option<ReplyTarget>,
    media_album_id: i64,
    content: MessageContent,
    is_edited: bool,
    properties: MessageProperties,
    properties_fetched: bool,
}

/// A message of a chat.
#[verifier::ext_equal]
pub struct MessageView {
    pub id: MessageId,
    pub sender: MessageSender,
    pub is_outgoing: bool,
    pub sending_state: Option<u64>,
    pub date: Timestamp,
    pub interaction_info: InteractionInfoView,
    pub forward_origin: Option<ForwardOriginView>,
    pub reply_to: Option<ReplyTarget>,
    pub media_album_id: i64,
    pub content: MessageContent,
    pub is_edited: bool,
    pub properties: MessageProperties,
    pub properties_fetched: bool,
}

/// The origin as a plain value.
pub open spec fn origin_view(origin: Option<MessageForwardOrigin>) -> Option<ForwardOriginView> {
    match origin {
        Some(origin) => Some(origin@),
        None => None,
    }
}

/// The message that the data describes.
pub open spec fn message_of(data: MessageData) -> MessageView {
    MessageView {
        id: data.id,
        sender: data.sender,
        is_outgoing: data.is_outgoing,
        sending_state: data.sending_state,
        date: data.date,
        interaction_info: interaction_info_of(data.interaction_info),
        forward_origin: origin_view(data.forward_origin),
        reply_to: data.reply_to,
        media_album_id: data.media_album_id,
        content: data.content,
        is_edited: data.edit_date > 0,
        properties: MessageProperties {
            can_be_edited: false,
            can_be_deleted_only_for_self: false,
            can_be_deleted_for_all_users: false,
        },
        properties_fetched: false,
    }
}

impl MessageView {
    /// The message after an update.
    pub open spec fn updated(self, update: MessageUpdate) -> MessageView {
        match update {
            MessageUpdate::Content(content) => MessageView { content, ..self },
            MessageUpdate::Edited { edit_date } => MessageView { is_edited: edit_date > 0, ..self },
            MessageUpdate::InteractionInfo(info) => MessageView {
                interaction_info: interaction_info_of(info),
                ..self
            },
        }
    }

    /// The properties that differ from those of `other`.
    pub open spec fn changes_from(self, other: MessageView) -> MessageChanges {
        MessageChanges {
            content: self.content != other.content,
            is_edited: self.is_edited != other.is_edited,
            reply_count: self.interaction_info.reply_count != other.interaction_info.reply_count,
            reactions: self.interaction_info.reactions != other.interaction_info.reactions,
        }
    }

    /// What the chat history knows about the message with the given serial
    /// number.
    pub open spec fn in_history(self, serial: u64) -> HistoryMessage {
        HistoryMessage {
            id: self.id,
            serial,
            timestamp: self.date,
            media_album_id: self.media_album_id,
            is_groupable: self.content.groupable(),
        }
    }

    /// Whether the current user chose the reaction.
    pub open spec fn has_chosen(self, emoji: Seq<char>) -> bool {
        exists|i: int|
            0 <= i < self.interaction_info.reactions.len() && is_chosen_emoji(
                #[trigger] self.interaction_info.reactions[i],
                emoji,
            )
    }
}

/// Whether this is the reaction with the given emoji and the current user
/// chose it.
pub open spec fn is_chosen_emoji(reaction: MessageReactionView, emoji: Seq<char>) -> bool {
    reaction.is_chosen && reaction.reaction_type == ReactionTypeView::Emoji(emoji)
}

impl View for Message {
    type V = MessageView;

    closed spec fn view(&self) -> MessageView {
        MessageView {
            id: self.id,
            sender: self.sender,
            is_outgoing: self.is_outgoing,
            sending_state: self.sending_state,
            date: self.date,
            interaction_info: self.interaction_info@,
            forward_origin: origin_view(self.forward_origin),
            reply_to: self.reply_to,
            media_album_id: self.media_album_id,
            content: self.content,
            is_edited: self.is_edited,
            properties: self.properties,
            properties_fetched: self.properties_fetched,
        }
    }
}

/// What has to be done to toggle a reaction.
#[derive(Clone, Copy, Debug, PartialEq, Eq, Structural)]
pub enum ReactionToggle {
    Add,
    Remove,
}

impl Message {
    pub fn new(data: MessageData) -> (message: Message)
        ensures
            message@ == message_of(data),
    {
        Message {
            id: data.id,
            sender: data.sender,
            is_outgoing: data.is_outgoing,
            sending_state: data.sending_state,
            date: data.date,
            interaction_info: MessageInteractionInfo::new(data.interaction_info),
            forward_origin: data.forward_origin,
            reply_to: data.reply_to,
            media_album_id: data.media_album_id,
            content: data.content,
            is_edited: data.edit_date > 0,
            properties: MessageProperties {
                can_be_edited: false,
                can_be_deleted_only_for_self: false,
                can_be_deleted_for_all_users: false,
            },
            properties_fetched: false,
        }
    }

    /// Notes that the properties of the message are being fetched. Returns
    /// whether this is the first time, so that they have to be.
    ///
    /// This is done lazily, because the properties are only needed when the
    /// context menu of a message is opened, and fetching them for every
    /// message in the history would be wasteful.
    pub fn fetch_properties(&mut self) -> (must_fetch: bool)
        ensures
            must_fetch == !old(self)@.properties_fetched,
            final(self)@ == (MessageView { properties_fetched: true, ..old(self)@ }),
    {
        if self.properties_fetched {
            return false;
        }
        self.properties_fetched = true;
        true
    }

    /// Takes the properties that were fetched.
    pub fn set_properties(&mut self, properties: MessageProperties)
        ensures
            final(self)@ == (MessageView { properties, ..old(self)@ }),
    {
        self.properties = properties;
    }

    /// Takes over an update and returns what changed.
    pub fn handle_update(&mut self, update: MessageUpdate) -> (changes: MessageChanges)
        ensures
            final(self)@ == old(self)@.updated(update),
            changes == final(self)@.changes_from(old(self)@),
    {
        let mut changes = MessageChanges {
            content: false,
            is_edited: false,
            reply_count: false,
            reactions: false,
        };
        match update {
            MessageUpdate::Content(content) => {
                changes.content = self.set_content(content);
            },
            MessageUpdate::Edited { edit_date } => {
                changes.is_edited = self.set_is_edited(edit_date > 0);
            },
            MessageUpdate::InteractionInfo(info) => {
                let interaction = self.interaction_info.update(info);
                changes.reply_count = interaction.reply_count;
                changes.reactions = interaction.reactions;
            },
        }
        changes
    }

    fn set_content(&mut self, content: MessageContent) -> (changed: bool)
        ensures
            final(self)@ == (MessageView { content, ..old(self)@ }),
            changed == (content != old(self)@.content),
    {
        if self.content == content {
            return false;
        }
        self.content = content;
        true
    }

    fn set_is_edited(&mut self, is_edited: bool) -> (changed: bool)
        ensures
            final(self)@ == (MessageView { is_edited, ..old(self)@ }),
            changed == (is_edited != old(self)@.is_edited),
    {
        if self.is_edited == is_edited {
            return false;
        }
        self.is_edited = is_edited;
        true
    }

    /// What has to be done to add a reaction with the given emoji to this
    /// message, or to remove it if the current user already chose it.
    pub fn toggle_reaction(&self, emoji: &String) -> (toggle: ReactionToggle)
        ensures
            toggle == if self@.has_chosen(emoji@) {
                ReactionToggle::Remove
            } else {
                ReactionToggle::Add
            },
    {
        let reactions = self.interaction_info.reactions();
        let ghost views = self@.interaction_info.reactions;
        let mut i: usize = 0;
        while i < reactions.len()
            invariant
                i <= reactions@.len(),
                reactions_view(reactions@) == views,
                views == self@.interaction_info.reactions,
                forall|k: int| 0 <= k < i ==> !is_chosen_emoji(#[trigger] views[k], emoji@),
            decreases reactions@.len() - i,
        {
            assert(views[i as int] == reactions@[i as int]@);
            if reactions[i].is_chosen {
                if let ReactionType::Emoji(chosen) = &reactions[i].reaction_type {
                    if *chosen == *emoji {
                        assert(is_chosen_emoji(views[i as int], emoji@));
                        return ReactionToggle::Remove;
                    }
                }
            }
            i = i + 1;
        }
        ReactionToggle::Add
    }

    /// The name of the sender.
    pub fn sender_name(&self) -> (name: DisplayName)
        ensures
            name@ == sender_name_of(self@.sender),
    {
        match self.sender {
            MessageSender::User(id) => DisplayName::User(id),
            MessageSender::Chat(id) => DisplayName::Chat(id),
        }
    }

    /// The name to be shown for the message. In the chat with oneself, this is
    /// the name of whom the message was forwarded from.
    pub fn sender_display_name(&self, is_own_chat: bool) -> (name: DisplayName)
        requires
            is_own_chat ==> self@.forward_origin is Some,
        ensures
            name@ == if is_own_chat {
                origin_name_of(self@.forward_origin->0)
            } else {
                sender_name_of(self@.sender)
            },
    {
        if is_own_chat {
            if let Some(origin) = &self.forward_origin {
                return match origin {
                    MessageForwardOrigin::User(id) => DisplayName::User(*id),
                    MessageForwardOrigin::Chat(id) | MessageForwardOrigin::Channel(id) => {
                        DisplayName::Chat(*id)
                    },
                    MessageForwardOrigin::HiddenUser(name) => DisplayName::Text(name.clone()),
                };
            }
        }
        self.sender_name()
    }

    /// What the chat history knows about the message, which has the given
    /// serial number.
    pub fn history_message(&self, serial: u64) -> (message: HistoryMessage)
        ensures
            message == self@.in_history(serial),
    {
        HistoryMessage {
            id: self.id,
            serial,
            timestamp: self.date,
            media_album_id: self.media_album_id,
            is_groupable: self.content.is_groupable(),
        }
    }

    pub fn id(&self) -> (id: MessageId)
        ensures
            id == self@.id,
    {
        self.id
    }

    pub fn sender(&self) -> (sender: MessageSender)
        ensures
            sender == self@.sender,
    {
        self.sender
    }

    pub fn is_outgoing(&self) -> (result: bool)
        ensures
            result == self@.is_outgoing,
    {
        self.is_outgoing
    }

    pub fn sending_state(&self) -> (state: Option<u64>)
        ensures
            state == self@.sending_state,
    {
        self.sending_state
    }

    pub fn date(&self) -> (date: Timestamp)
        ensures
            date == self@.date,
    {
        self.date
    }

    pub fn is_forwarded(&self) -> (result: bool)
        ensures
            result == self@.forward_origin is Some,
    {
        self.forward_origin.is_some()
    }

    pub fn reply_to(&self) -> (target: Option<ReplyTarget>)
        ensures
            target == self@.reply_to,
    {
        self.reply_to
    }

    pub fn media_album_id(&self) -> (id: i64)
        ensures
            id == self@.media_album_id,
    {
        self.media_album_id
    }

    pub fn content(&self) -> (content: MessageContent)
        ensures
            content == self@.content,
    {
        self.content
    }

    pub fn is_edited(&self) -> (result: bool)
        ensures
            result == self@.is_edited,
    {
        self.is_edited
    }

    pub fn properties(&self) -> (properties: MessageProperties)
        ensures
            properties == self@.properties,
    {
        self.properties
    }

    pub fn interaction_info(&self) -> (info: &MessageInteractionInfo)
        ensures
            info@ == self@.interaction_info,
    {
        &self.interaction_info
    }
}

// The reactions that can be added to a message

/// A reaction that can be added to a message.
#[derive(Debug)]
pub struct AvailableReaction {
    pub reaction_type: ReactionType,
    pub needs_premium: bool,
}

/// A reaction that can be added to a message.
pub struct AvailableReactionView {
    pub reaction_type: ReactionTypeView,
    pub needs_premium: bool,
}

impl View for AvailableReaction {
    type V = AvailableReactionView;

    open spec fn view(&self) -> AvailableReactionView {
        AvailableReactionView {
            reaction_type: self.reaction_type@,
            needs_premium: self.needs_premium,
        }
    }
}

/// The reactions as plain values.
pub open spec fn available_view(reactions: Seq<AvailableReaction>) -> Seq<AvailableReactionView> {
    reactions.map_values(|reaction: AvailableReaction| reaction@)
}

/// Whether one of the reactions has the given type.
pub open spec fn offers(
    reactions: Seq<AvailableReactionView>,
    reaction_type: ReactionTypeView,
) -> bool {
    exists|i: int|
        0 <= i < reactions.len() && (#[trigger] reactions[i]).reaction_type == reaction_type
}

/// The reactions without those whose type occurred before.
pub open spec fn deduplicated(reactions: Seq<AvailableReactionView>) -> Seq<AvailableReactionView>
    decreases reactions.len(),
{
    if reactions.len() == 0 {
        Seq::empty()
    } else {
        let rest = reactions.drop_last();
        if offers(rest, reactions.last().reaction_type) {
            deduplicated(rest)
        } else {
            deduplicated(rest).push(reactions.last())
        }
    }
}

/// Deduplicating loses no type and keeps each type once.
pub proof fn law_deduplicated(reactions: Seq<AvailableReactionView>)
    ensures
        forall|reaction_type: ReactionTypeView| #[trigger]
            offers(deduplicated(reactions), reaction_type) <==> offers(reactions, reaction_type),
        forall|i: int, j: int|
            #![trigger deduplicated(reactions)[i], deduplicated(reactions)[j]]
            0 <= i < j < deduplicated(reactions).len() ==> deduplicated(reactions)[i].reaction_type
                != deduplicated(reactions)[j].reaction_type,
    decreases reactions.len(),
{
    if reactions.len() > 0 {
        let rest = reactions.drop_last();
        let last = reactions.last();
        let kept = deduplicated(rest);
        let result = deduplicated(reactions);
        law_deduplicated(rest);
        assert forall|reaction_type: ReactionTypeView| #[trigger]
            offers(result, reaction_type) <==> offers(reactions, reaction_type) by {
            if offers(reactions, reaction_type) {
                let i = choose|i: int|
                    0 <= i < reactions.len() && (#[trigger] reactions[i]).reaction_type
                        == reaction_type;
                if i < rest.len() {
                    assert(rest[i].reaction_type == reaction_type);
                    assert(offers(kept, reaction_type));
                    let k = choose|k: int|
                        0 <= k < kept.len() && (#[trigger] kept[k]).reaction_type == reaction_type;
                    assert(result[k].reaction_type == reaction_type);
                } else if offers(rest, last.reaction_type) {
                    assert(offers(kept, reaction_type));
                } else {
                    assert(result[kept.len() as int].reaction_type == reaction_type);
                }
            }
            if offers(result, reaction_type) {
                let k = choose|k: int|
                    0 <= k < result.len() && (#[trigger] result[k]).reaction_type == reaction_type;
                if k < kept.len() {
                    assert(kept[k].reaction_type == reaction_type);
                    assert(offers(kept, reaction_type));
                    let i = choose|i: int|
                        0 <= i < rest.len() && (#[trigger] rest[i]).reaction_type == reaction_type;
                    assert(reactions[i].reaction_type == reaction_type);
                } else {
                    assert(reactions[reactions.len() - 1].reaction_type == reaction_type);
                }
            }
        }
        assert forall|i: int, j: int|
            #![trigger result[i], result[j]]
            0 <= i < j < result.len() implies result[i].reaction_type != result[j].reaction_type by {
            assert(kept[i] == result[i]);
            if j < kept.len() {
                assert(kept[j] == result[j]);
            } else {
                assert(offers(kept, kept[i].reaction_type));
            }
        }
    }
}

/// Adds the reaction, unless its type is among the given ones.
fn push_reaction(reactions: &mut Vec<AvailableReaction>, reaction: AvailableReaction)
    ensures
        available_view(final(reactions)@) == if offers(
            available_view(old(reactions)@),
            reaction.reaction_type@,
        ) {
            available_view(old(reactions)@)
        } else {
            available_view(old(reactions)@).push(reaction@)
        },
{
    let ghost views = available_view(reactions@);
    let mut i: usize = 0;
    while i < reactions.len()
        invariant
            i <= reactions@.len(),
            *reactions == *old(reactions),
            views == available_view(reactions@),
            forall|k: int|
                0 <= k < i ==> (#[trigger] views[k]).reaction_type != reaction.reaction_type@,
        decreases reactions@.len() - i,
    {
        assert(views[i as int] == reactions@[i as int]@);
        if reactions[i].reaction_type.equals(&reaction.reaction_type) {
            assert(views[i as int].reaction_type == reaction.reaction_type@);
            return;
        }
        i = i + 1;
    }
    reactions.push(reaction);
    assert(available_view(reactions@) =~= views.push(reaction@));
}

/// The reactions that can be added to a message: the top reactions followed
/// by the recent ones, deduplicated by reaction type.
pub fn available_reactions(
    top_reactions: Vec<AvailableReaction>,
    recent_reactions: Vec<AvailableReaction>,
) -> (result: Vec<AvailableReaction>)
    ensures
        available_view(result@) == deduplicated(
            available_view(top_reactions@) + available_view(recent_reactions@),
        ),
{
    let mut remaining = top_reactions;
    let mut recent = recent_reactions;
    remaining.append(&mut recent);
    let ghost all = available_view(top_reactions@) + available_view(recent_reactions@);
    assert(available_view(remaining@) =~= all);
    let mut result: Vec<AvailableReaction> = Vec::new();
    assert(available_view(result@) =~= Seq::empty());
    assert(all.take(0) =~= Seq::empty());
    assert(all.skip(0) =~= all);
    let mut i: usize = 0;
    let len = remaining.len();
    while i < len
        invariant
            i <= len,
            len == all.len(),
            available_view(remaining@) == all.skip(i as int),
            available_view(result@) == deduplicated(all.take(i as int)),
        decreases len - i,
    {
        assert(remaining@.len() == available_view(remaining@).len());
        let ghost queue = available_view(remaining@);
        let reaction = remaining.remove(0);
        proof {
            assert(available_view(remaining@) =~= queue.remove(0));
            assert(reaction@ == all.skip(i as int)[0]);
            assert(available_view(remaining@) =~= all.skip(i + 1));
            assert(all.take(i + 1).drop_last() =~= all.take(i as int));
            law_deduplicated(all.take(i as int));
        }
        push_reaction(&mut result, reaction);
        i = i + 1;
    }
    assert(all.take(len as int) =~= all);
    result
}

// What messages promise

/// A new message carries what TDLib says about it. It is edited if and only if
/// it was edited at some time, and nothing may be done with it before its
/// properties are fetched.
pub proof fn law_new_message_carries_data(data: MessageData)
    ensures
        ({
            let message = message_of(data);
            &&& message.id == data.id
            &&& message.sender == data.sender
            &&& message.is_outgoing == data.is_outgoing
            &&& message.sending_state == data.sending_state
            &&& message.date == data.date
            &&& message.reply_to == data.reply_to
            &&& message.media_album_id == data.media_album_id
            &&& message.content == data.content
            &&& message.is_edited <==> data.edit_date > 0
            &&& message.forward_origin is Some <==> data.forward_origin is Some
            &&& data.forward_origin matches Some(origin) ==> message.forward_origin == Some(origin@)
            &&& !message.properties.can_be_edited
            &&& !message.properties.can_be_deleted_only_for_self
            &&& !message.properties.can_be_deleted_for_all_users
            &&& !message.properties_fetched
        }),
{
}

/// A new message has the replies and the reactions that TDLib tells about it,
/// one for one.
pub proof fn law_new_message_has_its_interactions(data: MessageData)
    ensures
        data.interaction_info is None ==> {
            &&& message_of(data).interaction_info.reply_count == 0
            &&& message_of(data).interaction_info.reactions.len() == 0
        },
        data.interaction_info matches Some(info) ==> {
            let shown = message_of(data).interaction_info;
            &&& info.reply_count is None ==> shown.reply_count == 0
            &&& info.reply_count matches Some(count) ==> count >= 0 ==> shown.reply_count == count
            &&& info.reactions is None ==> shown.reactions.len() == 0
            &&& info.reactions matches Some(reactions) ==> shown.reactions.len()
                == reactions@.len() && forall|i: int|
                0 <= i < shown.reactions.len() ==> #[trigger] shown.reactions[i]
                    == reactions@[i]@
        },
{
}

/// A message that is created with some replies and reactions has the same ones
/// as any message that is told about them later.
pub proof fn law_interactions_are_the_same_later(data: MessageData, other: MessageView)
    ensures
        other.updated(MessageUpdate::InteractionInfo(data.interaction_info)).interaction_info
            == message_of(data).interaction_info,
{
}

/// An update changes what it is about to what it says, and nothing else.
pub proof fn law_update_changes_its_property(message: MessageView, update: MessageUpdate)
    ensures
        ({
            let after = message.updated(update);
            &&& after.id == message.id
            &&& after.sender == message.sender
            &&& after.is_outgoing == message.is_outgoing
            &&& after.sending_state == message.sending_state
            &&& after.date == message.date
            &&& after.forward_origin == message.forward_origin
            &&& after.reply_to == message.reply_to
            &&& after.media_album_id == message.media_album_id
            &&& after.properties == message.properties
            &&& after.properties_fetched == message.properties_fetched
            &&& after.content == match update {
                MessageUpdate::Content(content) => content,
                _ => message.content,
            }
            &&& after.is_edited == match update {
                MessageUpdate::Edited { edit_date } => edit_date > 0,
                _ => message.is_edited,
            }
            &&& !(update is InteractionInfo) ==> after.interaction_info
                == message.interaction_info
        }),
{
}

/// A message that is told about its replies and reactions has those, and none
/// if there are none.
pub proof fn law_update_tells_interactions(
    message: MessageView,
    info: Option<InteractionUpdate>,
)
    ensures
        ({
            let shown = message.updated(MessageUpdate::InteractionInfo(info)).interaction_info;
            &&& info is None ==> shown.reply_count == 0 && shown.reactions.len() == 0
            &&& info matches Some(told) ==> {
                &&& told.reply_count is None ==> shown.reply_count == 0
                &&& told.reply_count matches Some(count) ==> count >= 0 ==> shown.reply_count == count
                &&& told.reactions is None ==> shown.reactions.len() == 0
                &&& told.reactions matches Some(reactions) ==> shown.reactions.len()
                    == reactions@.len() && forall|i: int|
                    0 <= i < shown.reactions.len() ==> #[trigger] shown.reactions[i]
                        == reactions@[i]@
            }
        }),
{
}

/// Exactly the properties that differ count as changed.
pub proof fn law_changes_are_differences(message: MessageView, other: MessageView)
    ensures
        ({
            let changes = message.changes_from(other);
            &&& changes.content <==> message.content != other.content
            &&& changes.is_edited <==> message.is_edited != other.is_edited
            &&& changes.reply_count <==> message.interaction_info.reply_count
                != other.interaction_info.reply_count
            &&& changes.reactions <==> message.interaction_info.reactions
                != other.interaction_info.reactions
        }),
{
}

/// An emoji is chosen if and only if one of the reactions has it and was chosen
/// by the current user.
pub proof fn law_chosen_emoji_is_among_reactions(message: MessageView, emoji: Seq<char>)
    ensures
        message.has_chosen(emoji) <==> exists|i: int|
            0 <= i < message.interaction_info.reactions.len()
                && (#[trigger] message.interaction_info.reactions[i]).is_chosen
                && message.interaction_info.reactions[i].reaction_type == ReactionTypeView::Emoji(
                emoji,
            ),
{
    if message.has_chosen(emoji) {
        let i = choose|i: int|
            0 <= i < message.interaction_info.reactions.len() && is_chosen_emoji(
                #[trigger] message.interaction_info.reactions[i],
                emoji,
            );
        assert(message.interaction_info.reactions[i].is_chosen);
    }
    if exists|i: int|
        0 <= i < message.interaction_info.reactions.len()
            && (#[trigger] message.interaction_info.reactions[i]).is_chosen
            && message.interaction_info.reactions[i].reaction_type == ReactionTypeView::Emoji(
            emoji,
        ) {
        let i = choose|i: int|
            0 <= i < message.interaction_info.reactions.len()
                && (#[trigger] message.interaction_info.reactions[i]).is_chosen
                && message.interaction_info.reactions[i].reaction_type == ReactionTypeView::Emoji(
                emoji,
            );
        assert(is_chosen_emoji(message.interaction_info.reactions[i], emoji));
    }
}

/// The chat history knows a message by its own id, date and album. Photos,
/// videos and animations can be grouped, and nothing else.
pub proof fn law_history_knows_message(message: MessageView, serial: u64)
    ensures
        ({
            let known = message.in_history(serial);
            &&& known.id == message.id
            &&& known.serial == serial
            &&& known.timestamp == message.date
            &&& known.media_album_id == message.media_album_id
            &&& known.is_groupable <==> message.content.kind == ContentKind::Photo
                || message.content.kind == ContentKind::Video || message.content.kind
                == ContentKind::Animation
        }),
{
}

/// The name of a sender is the name of the user or the title of the chat.
pub proof fn law_senders_have_their_names(id: i64)
    ensures
        sender_name_of(MessageSender::User(id)) == DisplayNameView::User(id),
        sender_name_of(MessageSender::Chat(id)) == DisplayNameView::Chat(id),
{
}

/// A forwarded message has the name of the user, the title of the chat or the
/// channel, or the name that a hidden user goes by.
pub proof fn law_origins_have_their_names(id: i64, name: Seq<char>)
    ensures
        origin_name_of(ForwardOriginView::User(id)) == DisplayNameView::User(id),
        origin_name_of(ForwardOriginView::Chat(id)) == DisplayNameView::Chat(id),
        origin_name_of(ForwardOriginView::Channel(id)) == DisplayNameView::Chat(id),
        origin_name_of(ForwardOriginView::HiddenUser(name)) == DisplayNameView::Text(name),
{
}

/// Deduplicating keeps the first reaction of every type, and keeps the order.
pub proof fn law_first_reactions_are_kept(reactions: Seq<AvailableReactionView>)
    ensures
        forall|i: int|
            #![trigger deduplicated(reactions)[i]]
            0 <= i < deduplicated(reactions).len() ==> is_some_first(
                reactions,
                deduplicated(reactions)[i],
            ),
        forall|i: int, j: int, p: int, q: int|
            0 <= i < j < deduplicated(reactions).len() && #[trigger] is_first_of_type(
                reactions,
                p,
                deduplicated(reactions)[i],
            ) && #[trigger] is_first_of_type(reactions, q, deduplicated(reactions)[j]) ==> p < q,
    decreases reactions.len(),
{
    if reactions.len() > 0 {
        let rest = reactions.drop_last();
        let end = reactions.len() - 1;
        let kept = deduplicated(rest);
        let result = deduplicated(reactions);
        law_first_reactions_are_kept(rest);
        assert forall|p: int, reaction: AvailableReactionView|
            is_first_of_type(rest, p, reaction) implies is_first_of_type(
            reactions,
            p,
            reaction,
        ) by {
            assert(rest[p] == reactions[p]);
            assert forall|q: int| 0 <= q < p implies (#[trigger] reactions[q]).reaction_type
                != reaction.reaction_type by {
                assert(rest[q] == reactions[q]);
            }
        }
        assert forall|p: int, reaction: AvailableReactionView|
            is_first_of_type(reactions, p, reaction) && p < end implies is_first_of_type(
            rest,
            p,
            reaction,
        ) by {
            assert(rest[p] == reactions[p]);
            assert forall|q: int| 0 <= q < p implies (#[trigger] rest[q]).reaction_type
                != reaction.reaction_type by {
                assert(rest[q] == reactions[q]);
            }
        }
        assert forall|i: int|
            #![trigger result[i]]
            0 <= i < result.len() implies is_some_first(reactions, result[i]) by {
            if i < kept.len() {
                assert(result[i] == kept[i]);
                assert(is_some_first(rest, kept[i]));
                let p = choose|p: int| is_first_of_type(rest, p, kept[i]);
                assert(is_first_of_type(reactions, p, result[i]));
            } else {
                assert forall|q: int| 0 <= q < end implies (#[trigger] reactions[q]).reaction_type
                    != reactions[end].reaction_type by {
                    assert(rest[q] == reactions[q]);
                }
                assert(is_first_of_type(reactions, end, result[i]));
            }
        }
        assert forall|i: int, j: int, p: int, q: int|
            0 <= i < j < result.len() && #[trigger] is_first_of_type(reactions, p, result[i])
                && #[trigger] is_first_of_type(reactions, q, result[j]) implies p < q by {
            assert(result[i] == kept[i]);
            assert(is_some_first(rest, kept[i]));
            let before = choose|before: int| is_first_of_type(rest, before, kept[i]);
            assert(is_first_of_type(reactions, before, result[i]));
            lemma_one_first(reactions, p, before, result[i]);
            if j < kept.len() {
                assert(result[j] == kept[j]);
                assert(is_some_first(rest, kept[j]));
                let other = choose|other: int| is_first_of_type(rest, other, kept[j]);
                assert(is_first_of_type(reactions, other, result[j]));
                lemma_one_first(reactions, q, other, result[j]);
            } else {
                if q < end {
                    assert(rest[q] == reactions[q]);
                    assert(offers(rest, reactions[end].reaction_type));
                }
            }
        }
    }
}

/// Whether the reaction is the first one of its type and found at the given
/// position.
pub open spec fn is_first_of_type(
    reactions: Seq<AvailableReactionView>,
    position: int,
    reaction: AvailableReactionView,
) -> bool {
    &&& 0 <= position < reactions.len()
    &&& reactions[position] == reaction
    &&& forall|q: int|
        0 <= q < position ==> (#[trigger] reactions[q]).reaction_type != reaction.reaction_type
}

/// Whether the reaction is the first one of its type.
pub open spec fn is_some_first(
    reactions: Seq<AvailableReactionView>,
    reaction: AvailableReactionView,
) -> bool {
    exists|position: int| is_first_of_type(reactions, position, reaction)
}

proof fn lemma_one_first(
    reactions: Seq<AvailableReactionView>,
    p: int,
    q: int,
    reaction: AvailableReactionView,
)
    requires
        is_first_of_type(reactions, p, reaction),
        is_first_of_type(reactions, q, reaction),
    ensures
        p == q,
{
    if p < q {
        assert(reactions[p].reaction_type == reaction.reaction_type);
    }
    if q < p {
        assert(reactions[q].reaction_type == reaction.reaction_type);
    }
}

} // verus!
