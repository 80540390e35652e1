//! How many replies and which reactions a message got.

use vstd::prelude::*;

use crate::types::MessageSenderId;

verus! {

/// What a reaction consists of.
#[derive(Clone, Debug, PartialEq, Eq)]
pub enum ReactionType {
    Emoji(String),
    CustomEmoji(i64),
    Paid,
}

/// What a reaction consists of.
pub enum ReactionTypeView {
    Emoji(Seq<char>),
    CustomEmoji(i64),
    Paid,
}

impl View for ReactionType {
    type V = ReactionTypeView;

    open spec fn view(&self) -> ReactionTypeView {
        match *self {
            ReactionType::Emoji(emoji) => ReactionTypeView::Emoji(emoji@),
            ReactionType::CustomEmoji(id) => ReactionTypeView::CustomEmoji(id),
            ReactionType::Paid => ReactionTypeView::Paid,
        }
    }
}

impl ReactionType {
    /// Whether both reactions are the same.
    pub fn equals(&self, other: &ReactionType) -> (result: bool)
        ensures
            result == (self@ == other@),
    {
        match (self, other) {
            (ReactionType::Emoji(emoji), ReactionType::Emoji(other_emoji)) => {
                *emoji == *other_emoji
            },
            (ReactionType::CustomEmoji(id), ReactionType::CustomEmoji(other_id)) => {
                *id == *other_id
            },
            (ReactionType::Paid, ReactionType::Paid) => true,
            _ => false,
        }
    }

    pub fn duplicate(&self) -> (copy: ReactionType)
        ensures
            copy@ == self@,
    {
        match self {
            ReactionType::Emoji(emoji) => ReactionType::Emoji(emoji.clone()),
            ReactionType::CustomEmoji(id) => ReactionType::CustomEmoji(*id),
            ReactionType::Paid => ReactionType::Paid,
        }
    }
}

/// A reaction that was added to a message.
#[derive(Clone, Debug, PartialEq, Eq)]
pub struct MessageReaction {
    pub reaction_type: ReactionType,
    pub total_count: i32,
    /// Whether the current user added the reaction.
    pub is_chosen: bool,
    pub used_sender_id: Option<MessageSenderId>,
    pub recent_sender_ids: Vec<MessageSenderId>,
}

/// A reaction that was added to a message.
pub struct MessageReactionView {
    pub reaction_type: ReactionTypeView,
    pub total_count: i32,
    pub is_chosen: bool,
    pub used_sender_id: Option<MessageSenderId>,
    pub recent_sender_ids: Seq<MessageSenderId>,
}

impl View for MessageReaction {
    type V = MessageReactionView;

    open spec fn view(&self) -> MessageReactionView {
        MessageReactionView {
            reaction_type: self.reaction_type@,
            total_count: self.total_count,
            is_chosen: self.is_chosen,
            used_sender_id: self.used_sender_id,
            recent_sender_ids: self.recent_sender_ids@,
        }
    }
}

/// The reactions as plain values.
pub open spec fn reactions_view(reactions: Seq<MessageReaction>) -> Seq<MessageReactionView> {
    reactions.map_values(|reaction: MessageReaction| reaction@)
}

impl MessageReaction {
    /// Whether both reactions are equal in every respect.
    pub fn equals(&self, other: &MessageReaction) -> (result: bool)
        ensures
            result == (self@ == other@),
    {
        if !self.reaction_type.equals(&other.reaction_type) || self.total_count
            != other.total_count || self.is_chosen != other.is_chosen {
            return false;
        }
        let same_used_sender = match (self.used_sender_id, other.used_sender_id) {
            (Some(id), Some(other_id)) => id == other_id,
            (None, None) => true,
            _ => false,
        };
        if !same_used_sender || self.recent_sender_ids.len() != other.recent_sender_ids.len() {
            return false;
        }
        let mut i: usize = 0;
        while i < self.recent_sender_ids.len()
            invariant
                i <= self.recent_sender_ids@.len(),
                self.recent_sender_ids@.len() == other.recent_sender_ids@.len(),
                forall|k: int|
                    0 <= k < i ==> self.recent_sender_ids@[k] == other.recent_sender_ids@[k],
            decreases self.recent_sender_ids@.len() - i,
        {
            if self.recent_sender_ids[i] != other.recent_sender_ids[i] {
                assert(self@.recent_sender_ids[i as int] != other@.recent_sender_ids[i as int]);
                return false;
            }
            i = i + 1;
        }
        assert(self.recent_sender_ids@ =~= other.recent_sender_ids@);
        true
    }
}

/// Whether both lists hold equal reactions.
pub fn same_reactions(
    reactions: &Vec<MessageReaction>,
    others: &Vec<MessageReaction>,
) -> (result: bool)
    ensures
        result == (reactions_view(reactions@) == reactions_view(others@)),
{
    if reactions.len() != others.len() {
        assert(reactions_view(reactions@).len() != reactions_view(others@).len());
        return false;
    }
    let mut i: usize = 0;
    while i < reactions.len()
        invariant
            i <= reactions@.len(),
            reactions@.len() == others@.len(),
            forall|k: int| 0 <= k < i ==> (#[trigger] reactions@[k])@ == others@[k]@,
        decreases reactions@.len() - i,
    {
        if !reactions[i].equals(&others[i]) {
            assert(reactions_view(reactions@)[i as int] != reactions_view(others@)[i as int]);
            return false;
        }
        i = i + 1;
    }
    assert(reactions_view(reactions@) =~= reactions_view(others@));
    true
}

/// The interaction information that TDLib sends for a message.
#[derive(Debug)]
pub struct InteractionUpdate {
    /// The number of replies, if there is information about them.
    pub reply_count: Option<i32>,
    pub reactions: Option<Vec<MessageReaction>>,
}

/// The number of replies that the information tells. A negative number counts
/// from the end of the range of the result.
pub open spec fn reply_count_of(update: Option<InteractionUpdate>) -> int {
    match update {
        Some(update) => match update.reply_count {
            Some(count) => if count >= 0 {
                count as int
            } else {
                count + 0x1_0000_0000
            },
            None => 0,
        },
        None => 0,
    }
}

/// The reactions that the information tells.
pub open spec fn reactions_of(update: Option<InteractionUpdate>) -> Seq<MessageReactionView> {
    match update {
        Some(update) => match update.reactions {
            Some(reactions) => reactions_view(reactions@),
            None => Seq::empty(),
        },
        None => Seq::empty(),
    }
}

/// What changed when the interaction information was updated.
#[derive(Clone, Copy, Debug, PartialEq, Eq, Structural)]
pub struct InteractionChanges {
    pub reply_count: bool,
    pub reactions: bool,
}

/// The replies and the reactions of a message.
#[derive(Debug)]
pub struct MessageInteractionInfo {
    reply_count: u32,
    reactions: Vec<MessageReaction>,
}

/// The replies and the reactions of a message.
#[verifier::ext_equal]
pub struct InteractionInfoView {
    pub reply_count: int,
    pub reactions: Seq<MessageReactionView>,
}

impl View for MessageInteractionInfo {
    type V = InteractionInfoView;

    closed spec fn view(&self) -> InteractionInfoView {
        InteractionInfoView {
            reply_count: self.reply_count as int,
            reactions: reactions_view(self.reactions@),
        }
    }
}

/// The replies and the reactions that the information tells.
pub open spec fn interaction_info_of(update: Option<InteractionUpdate>) -> InteractionInfoView {
    InteractionInfoView { reply_count: reply_count_of(update), reactions: reactions_of(update) }
}

fn extract_reply_count(update: &Option<InteractionUpdate>) -> (count: u32)
    ensures
        count == reply_count_of(*update),
{
    match update {
        Some(update) => match update.reply_count {
            Some(count) => {
                assert(count < 0 ==> #[verifier::truncate] (count as u32) == count
                    + 0x1_0000_0000) by (bit_vector);
                #[verifier::truncate]
                (count as u32)
            },
            None => 0,
        },
        None => 0,
    }
}

fn extract_reactions(update: Option<InteractionUpdate>) -> (reactions: Vec<MessageReaction>)
    ensures
        reactions_view(reactions@) == reactions_of(update),
{
    match update {
        Some(update) => match update.reactions {
            Some(reactions) => reactions,
            None => {
                let reactions: Vec<MessageReaction> = Vec::new();
                assert(reactions_view(reactions@) =~= Seq::empty());
                reactions
            },
        },
        None => {
            let reactions: Vec<MessageReaction> = Vec::new();
            assert(reactions_view(reactions@) =~= Seq::empty());
            reactions
        },
    }
}

impl MessageInteractionInfo {
    pub fn new(update: Option<InteractionUpdate>) -> (info: MessageInteractionInfo)
        ensures
            info@ == interaction_info_of(update),
    {
        let reply_count = extract_reply_count(&update);
        MessageInteractionInfo { reply_count, reactions: extract_reactions(update) }
    }

    /// Takes over new information and returns what changed.
    pub fn update(&mut self, update: Option<InteractionUpdate>) -> (changes: InteractionChanges)
        ensures
            final(self)@ == interaction_info_of(update),
            changes.reply_count == (old(self)@.reply_count != reply_count_of(update)),
            changes.reactions == (old(self)@.reactions != reactions_of(update)),
    {
        let reply_count = extract_reply_count(&update);
        let reply_count_changed = self.set_reply_count(reply_count);
        let reactions = extract_reactions(update);
        let reactions_changed = self.set_reactions(reactions);
        InteractionChanges { reply_count: reply_count_changed, reactions: reactions_changed }
    }

    fn set_reply_count(&mut self, reply_count: u32) -> (changed: bool)
        ensures
            final(self)@ == (InteractionInfoView { reply_count: reply_count as int, ..old(self)@ }),
            changed == (old(self)@.reply_count != reply_count),
    {
        if self.reply_count == reply_count {
            return false;
        }
        self.reply_count = reply_count;
        true
    }

    fn set_reactions(&mut self, reactions: Vec<MessageReaction>) -> (changed: bool)
        ensures
            final(self)@ == (InteractionInfoView {
                reactions: reactions_view(reactions@),
                ..old(self)@
            }),
            changed == (old(self)@.reactions != reactions_view(reactions@)),
    {
        if same_reactions(&self.reactions, &reactions) {
            return false;
        }
        self.reactions = reactions;
        true
    }

    pub fn reply_count(&self) -> (count: u32)
        ensures
            count == self@.reply_count,
    {
        self.reply_count
    }

    pub fn reactions(&self) -> (reactions: &Vec<MessageReaction>)
        ensures
            reactions_view(reactions@) == self@.reactions,
    {
        &self.reactions
    }
}

/// The number of replies is the one that the information tells, in numbers of
/// 32 bits, or 0 if it tells none.
pub proof fn law_replies_are_told(update: Option<InteractionUpdate>)
    ensures
        0 <= interaction_info_of(update).reply_count < 0x1_0000_0000,
        update is None ==> interaction_info_of(update).reply_count == 0,
        update matches Some(told) ==> told.reply_count is None ==> interaction_info_of(
            update,
        ).reply_count == 0,
        update matches Some(told) ==> told.reply_count matches Some(count) ==> (
        interaction_info_of(update).reply_count - count) % 0x1_0000_0000 == 0,
{
}

/// The reactions are those that the information tells, one for one and in the
/// same order, and none if it tells none.
pub proof fn law_reactions_are_told(update: Option<InteractionUpdate>)
    ensures
        update is None ==> interaction_info_of(update).reactions.len() == 0,
        update matches Some(told) ==> told.reactions is None ==> interaction_info_of(
            update,
        ).reactions.len() == 0,
        update matches Some(told) ==> told.reactions matches Some(reactions) ==> {
            let shown = interaction_info_of(update).reactions;
            &&& shown.len() == reactions@.len()
            &&& forall|i: int|
                0 <= i < shown.len() ==> {
                    let reaction = #[trigger] shown[i];
                    &&& reaction.reaction_type == reactions@[i].reaction_type@
                    &&& reaction.total_count == reactions@[i].total_count
                    &&& reaction.is_chosen == reactions@[i].is_chosen
                    &&& reaction.used_sender_id == reactions@[i].used_sender_id
                    &&& reaction.recent_sender_ids == reactions@[i].recent_sender_ids@
                }
        },
{
}

} // verus!
