//! The popover that offers the reactions that can be added to a message.

use vstd::prelude::*;

use crate::model::message::{available_view, AvailableReaction, AvailableReactionView};
use crate::model::message_interaction_info::{ReactionType, ReactionTypeView};

verus! {

/// A button that adds a reaction.
#[derive(Debug)]
pub struct ReactionButton {
    pub emoji: String,
    pub is_premium: bool,
}

/// A button that adds a reaction.
pub struct ReactionButtonView {
    pub emoji: Seq<char>,
    pub is_premium: bool,
}

impl View for ReactionButton {
    type V = ReactionButtonView;

    open spec fn view(&self) -> ReactionButtonView {
        ReactionButtonView { emoji: self.emoji@, is_premium: self.is_premium }
    }
}

/// The buttons as plain values.
pub open spec fn buttons_view(buttons: Seq<ReactionButton>) -> Seq<ReactionButtonView> {
    buttons.map_values(|button: ReactionButton| button@)
}

/// The buttons of the reactions. Custom emojis and paid reactions are not
/// offered.
pub open spec fn buttons_of(reactions: Seq<AvailableReactionView>) -> Seq<ReactionButtonView>
    decreases reactions.len(),
{
    if reactions.len() == 0 {
        Seq::empty()
    } else {
        let buttons = buttons_of(reactions.drop_last());
        let reaction = reactions.last();
        match reaction.reaction_type {
            ReactionTypeView::Emoji(emoji) => buttons.push(
                ReactionButtonView { emoji, is_premium: reaction.needs_premium },
            ),
            _ => buttons,
        }
    }
}

/// The buttons of the reactions, in their order.
pub fn reaction_buttons(reactions: &Vec<AvailableReaction>) -> (buttons: Vec<ReactionButton>)
    ensures
        buttons_view(buttons@) == buttons_of(available_view(reactions@)),
{
    let mut buttons: Vec<ReactionButton> = Vec::new();
    let mut i: usize = 0;
    let ghost views = available_view(reactions@);
    assert(views.take(0) =~= Seq::empty());
    assert(buttons_view(buttons@) =~= Seq::empty());
    while i < reactions.len()
        invariant
            i <= reactions@.len(),
            views == available_view(reactions@),
            buttons_view(buttons@) == buttons_of(views.take(i as int)),
        decreases reactions@.len() - i,
    {
        let reaction = &reactions[i];
        proof {
            assert(views.take(i + 1).drop_last() =~= views.take(i as int));
            assert(views.take(i + 1).last() == reaction@);
        }
        let ghost shown = buttons@;
        match &reaction.reaction_type {
            ReactionType::Emoji(emoji) => {
                buttons.push(
                    ReactionButton { emoji: emoji.clone(), is_premium: reaction.needs_premium },
                );
                assert(buttons_view(buttons@) =~= buttons_view(shown).push(buttons@.last()@));
            },
            ReactionType::CustomEmoji(_) | ReactionType::Paid => {},
        }
        i = i + 1;
    }
    assert(views.take(i as int) =~= views);
    buttons
}

/// A reaction with an emoji has a button that offers it, after the other ones.
/// Other reactions have none.
pub proof fn law_reactions_have_buttons(
    reactions: Seq<AvailableReactionView>,
    reaction: AvailableReactionView,
)
    ensures
        buttons_of(Seq::empty()) == Seq::<ReactionButtonView>::empty(),
        reaction.reaction_type matches ReactionTypeView::Emoji(emoji) ==> buttons_of(
            reactions.push(reaction),
        ) == buttons_of(reactions).push(
            ReactionButtonView { emoji, is_premium: reaction.needs_premium },
        ),
        !(reaction.reaction_type is Emoji) ==> buttons_of(reactions.push(reaction)) == buttons_of(
            reactions,
        ),
{
    assert(reactions.push(reaction).drop_last() =~= reactions);
}

} // verus!
