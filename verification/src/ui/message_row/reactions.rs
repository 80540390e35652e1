//! The strip of chips that shows the reactions to a message.

use vstd::prelude::*;

use crate::format::{decimal, push_decimal};
use crate::model::message_interaction_info::{
    reactions_view, same_reactions, MessageReaction, MessageReactionView, ReactionType,
    ReactionTypeView,
};
use crate::ui::message_row::media_album_layout::{Orientation, SizeRequest};

verus! {

/// The space between two chips, in pixels.
pub const SPACING: i32 = 6;

/// The size that a chip asks for.
#[derive(Clone, Copy, Debug, PartialEq, Eq, Structural)]
pub struct ChipSize {
    pub width: i32,
    pub height: i32,
}

/// The place of a chip.
#[derive(Clone, Copy, Debug, PartialEq, Eq, Structural)]
pub struct ChipPlace {
    pub x: i32,
    pub y: i32,
    pub width: i32,
    pub height: i32,
}

/// How far the chips were placed: where the next one begins unless it needs
/// another row, and the height of the row so far.
pub struct Packing {
    pub x: int,
    pub y: int,
    pub row_height: int,
}

/// Where a chip begins, and the height of its row so far.
pub open spec fn begin_chip(packing: Packing, chip: ChipSize, width: int) -> Packing {
    if packing.x > 0 && packing.x + chip.width > width {
        Packing { x: 0, y: packing.y + packing.row_height + SPACING, row_height: 0 }
    } else {
        packing
    }
}

/// How far the chips were placed, wrapped to fit into a width.
pub open spec fn pack(chips: Seq<ChipSize>, width: int) -> Packing
    decreases chips.len(),
{
    if chips.len() == 0 {
        Packing { x: 0, y: 0, row_height: 0 }
    } else {
        let chip = chips.last();
        let begun = begin_chip(pack(chips.drop_last(), width), chip, width);
        Packing {
            x: begun.x + chip.width + SPACING,
            y: begun.y,
            row_height: if begun.row_height > chip.height {
                begun.row_height
            } else {
                chip.height as int
            },
        }
    }
}

/// The place of the chip at the given position.
pub open spec fn chip_place_of(chips: Seq<ChipSize>, width: int, i: int) -> ChipPlace {
    let begun = begin_chip(pack(chips.take(i), width), chips[i], width);
    ChipPlace {
        x: begun.x as i32,
        y: begun.y as i32,
        width: chips[i].width,
        height: chips[i].height,
    }
}

/// The height needed to lay out the chips wrapped to fit into a width.
pub open spec fn packed_height_of(chips: Seq<ChipSize>, width: int) -> int {
    pack(chips, width).y + pack(chips, width).row_height
}

/// The width of the chips in one row, with the space behind the last one.
pub open spec fn row_width_of(chips: Seq<ChipSize>) -> int
    decreases chips.len(),
{
    if chips.len() == 0 {
        0
    } else {
        row_width_of(chips.drop_last()) + chips.last().width + SPACING
    }
}

/// The height of the chips in one column, with the space below the last one.
pub open spec fn column_height_of(chips: Seq<ChipSize>) -> int
    decreases chips.len(),
{
    if chips.len() == 0 {
        0
    } else {
        column_height_of(chips.drop_last()) + chips.last().height + SPACING
    }
}

/// The width of the widest chip.
pub open spec fn widest_of(chips: Seq<ChipSize>) -> int
    decreases chips.len(),
{
    if chips.len() == 0 {
        0
    } else {
        let widest = widest_of(chips.drop_last());
        if chips.last().width > widest {
            chips.last().width as int
        } else {
            widest
        }
    }
}

/// The width of all chips in one row.
pub open spec fn natural_width_of(chips: Seq<ChipSize>) -> int {
    if chips.len() == 0 {
        0
    } else {
        row_width_of(chips) - SPACING
    }
}

/// Whether the sizes are ones that can be laid out with numbers of 32 bits.
pub open spec fn can_be_laid_out(chips: Seq<ChipSize>) -> bool {
    &&& forall|i: int|
        0 <= i < chips.len() ==> 0 <= (#[trigger] chips[i]).width && 0 <= chips[i].height
    &&& row_width_of(chips) <= i32::MAX
    &&& column_height_of(chips) <= i32::MAX
}

/// The part of the chips up to a position can be laid out too, and how far its
/// chips are placed has its limits.
proof fn lemma_packing_is_bounded(chips: Seq<ChipSize>, width: int, count: int)
    requires
        can_be_laid_out(chips),
        0 <= count <= chips.len(),
    ensures
        0 <= row_width_of(chips.take(count)) <= row_width_of(chips),
        0 <= column_height_of(chips.take(count)) <= column_height_of(chips),
        ({
            let packing = pack(chips.take(count), width);
            &&& 0 <= packing.x <= row_width_of(chips.take(count))
            &&& 0 <= packing.y
            &&& 0 <= packing.row_height
            &&& count > 0 ==> packing.y + packing.row_height + SPACING <= column_height_of(
                chips.take(count),
            )
            &&& count == 0 ==> packing.y + packing.row_height == 0
        }),
    decreases chips.len() + chips.len() - count,
{
    if count < chips.len() {
        lemma_prefix_can_be_laid_out(chips);
        lemma_packing_is_bounded(chips.drop_last(), width, count);
        assert(chips.drop_last().take(count) =~= chips.take(count));
    } else if count > 0 {
        lemma_prefix_can_be_laid_out(chips);
        lemma_packing_is_bounded(chips.drop_last(), width, count - 1);
        assert(chips.drop_last().take(count - 1) =~= chips.drop_last());
        assert(chips.take(count) =~= chips);
    } else {
        assert(chips.take(count) =~= Seq::empty());
    }
}

proof fn lemma_prefix_can_be_laid_out(chips: Seq<ChipSize>)
    requires
        can_be_laid_out(chips),
        chips.len() > 0,
    ensures
        can_be_laid_out(chips.drop_last()),
        0 <= chips.last().width,
        0 <= chips.last().height,
{
    assert(0 <= chips[chips.len() - 1].width);
    assert forall|i: int| 0 <= i < chips.drop_last().len() implies 0 <= (
    #[trigger] chips.drop_last()[i]).width && 0 <= chips.drop_last()[i].height by {
        assert(chips.drop_last()[i] == chips[i]);
    }
}

/// The chips that follow a chip are to its right or below it.
proof fn lemma_next_chips(chips: Seq<ChipSize>, width: int, i: int, count: int)
    requires
        can_be_laid_out(chips),
        0 <= i < count <= chips.len(),
    ensures
        ({
            let begun = begin_chip(pack(chips.take(i), width), chips[i], width);
            let packing = pack(chips.take(count), width);
            ||| packing.y == begun.y && packing.x >= begun.x + chips[i].width + SPACING
                && packing.row_height >= chips[i].height
            ||| packing.y >= begun.y + chips[i].height + SPACING
        }),
    decreases count,
{
    assert(chips.take(count).drop_last() =~= chips.take(count - 1));
    assert(chips.take(count).last() == chips[count - 1]);
    lemma_packing_is_bounded(chips, width, count - 1);
    assert(0 <= chips[count - 1].width && 0 <= chips[count - 1].height);
    if count > i + 1 {
        lemma_next_chips(chips, width, i, count - 1);
    }
}

/// No chip covers another one: of two chips, the later one is to the right of
/// the earlier one or below it, with space between them.
pub proof fn law_chips_do_not_overlap(chips: Seq<ChipSize>, width: int, i: int, j: int)
    requires
        can_be_laid_out(chips),
        0 <= i < j < chips.len(),
    ensures
        ({
            let first = chip_place_of(chips, width, i);
            let second = chip_place_of(chips, width, j);
            ||| second.y == first.y && second.x >= first.x + first.width + SPACING
            ||| second.y >= first.y + first.height + SPACING
        }),
{
    lemma_packing_is_bounded(chips, width, i);
    lemma_packing_is_bounded(chips, width, j);
    lemma_packing_is_bounded(chips, width, i + 1);
    lemma_packing_is_bounded(chips, width, j + 1);
    lemma_next_chips(chips, width, i, j);
    lemma_next_chips(chips, width, i, j + 1);
    assert(chips.take(i + 1).drop_last() =~= chips.take(i));
    assert(chips.take(j + 1).drop_last() =~= chips.take(j));
    assert(0 <= chips[i].height && 0 <= chips[i].width);
    assert(0 <= chips[j].height && 0 <= chips[j].width);
}

/// A chip that is not wider than the strip ends within the strip.
pub proof fn law_chips_end_within_width(chips: Seq<ChipSize>, width: int, i: int)
    requires
        can_be_laid_out(chips),
        0 <= i < chips.len(),
        chips[i].width <= width,
    ensures
        chip_place_of(chips, width, i).x + chips[i].width <= width,
{
    lemma_packing_is_bounded(chips, width, i);
}

/// Every chip ends within the height that is needed for all of them.
pub proof fn law_chips_end_within_height(chips: Seq<ChipSize>, width: int, i: int)
    requires
        can_be_laid_out(chips),
        0 <= i < chips.len(),
    ensures
        chip_place_of(chips, width, i).y + chips[i].height <= packed_height_of(chips, width),
{
    lemma_packing_is_bounded(chips, width, i);
    lemma_packing_is_bounded(chips, width, i + 1);
    lemma_packing_is_bounded(chips, width, chips.len() as int);
    lemma_next_chips(chips, width, i, chips.len() as int);
    assert(chips.take(chips.len() as int) =~= chips);
    assert(chips.take(i + 1).drop_last() =~= chips.take(i));
    assert(0 <= chips[i].height && 0 <= chips[i].width);
}

proof fn lemma_first_row(chips: Seq<ChipSize>, width: int, count: int)
    requires
        can_be_laid_out(chips),
        natural_width_of(chips) <= width,
        0 <= count <= chips.len(),
    ensures
        pack(chips.take(count), width).y == 0,
        pack(chips.take(count), width).x == row_width_of(chips.take(count)),
    decreases count,
{
    if count > 0 {
        lemma_first_row(chips, width, count - 1);
        lemma_packing_is_bounded(chips, width, count);
        assert(chips.take(count).drop_last() =~= chips.take(count - 1));
    }
}

/// All chips are in one row if the strip is as wide as it wants to be.
pub proof fn law_natural_width_holds_one_row(chips: Seq<ChipSize>, width: int, i: int)
    requires
        can_be_laid_out(chips),
        natural_width_of(chips) <= width,
        0 <= i < chips.len(),
    ensures
        chip_place_of(chips, width, i).y == 0,
{
    lemma_first_row(chips, width, i);
    lemma_first_row(chips, width, i + 1);
    assert(chips.take(i + 1).drop_last() =~= chips.take(i));
    lemma_packing_is_bounded(chips, width, i + 1);
}

/// The width that a chip gets in a strip of the given width.
pub fn chip_width(min_width: i32, natural_width: i32, width: i32) -> (chip_width: i32)
    ensures
        ({
            let wanted = if natural_width > min_width {
                natural_width
            } else {
                min_width
            };
            chip_width == if wanted < width {
                wanted
            } else {
                width
            }
        }),
{
    let wanted = if natural_width > min_width {
        natural_width
    } else {
        min_width
    };
    if wanted < width {
        wanted
    } else {
        width
    }
}

/// Computes the height needed to lay out chips with the given sizes wrapped to
/// fit into `available_width`.
pub fn packed_height(chips: &Vec<ChipSize>, available_width: i32) -> (height: i32)
    requires
        can_be_laid_out(chips@),
    ensures
        height == packed_height_of(chips@, available_width as int),
{
    let mut height: i32 = 0;
    let mut row_width: i32 = 0;
    let mut row_height: i32 = 0;
    let mut i: usize = 0;
    assert(chips@.take(0) =~= Seq::empty());
    while i < chips.len()
        invariant
            i <= chips@.len(),
            can_be_laid_out(chips@),
            pack(chips@.take(i as int), available_width as int) == (Packing {
                x: row_width as int,
                y: height as int,
                row_height: row_height as int,
            }),
            0 <= row_width,
            0 <= height,
            0 <= row_height,
        decreases chips@.len() - i,
    {
        proof {
            lemma_packing_is_bounded(chips@, available_width as int, i as int);
            lemma_packing_is_bounded(chips@, available_width as int, i + 1);
            assert(chips@.take(i + 1).drop_last() =~= chips@.take(i as int));
            assert(0 <= chips@[i as int].width && 0 <= chips@[i as int].height);
        }
        let chip = chips[i];
        if row_width > 0 && row_width + chip.width > available_width {
            height = height + row_height + SPACING;
            row_width = 0;
            row_height = 0;
        }
        row_width = row_width + chip.width + SPACING;
        if chip.height > row_height {
            row_height = chip.height;
        }
        i = i + 1;
    }
    assert(chips@.take(i as int) =~= chips@);
    proof {
        lemma_packing_is_bounded(chips@, available_width as int, i as int);
    }
    height + row_height
}

/// The places of chips with the given sizes in a strip of the given width.
pub fn place_chips(chips: &Vec<ChipSize>, width: i32) -> (places: Vec<ChipPlace>)
    requires
        can_be_laid_out(chips@),
    ensures
        places@.len() == chips@.len(),
        forall|i: int|
            0 <= i < chips@.len() ==> #[trigger] places@[i] == chip_place_of(
                chips@,
                width as int,
                i,
            ),
{
    let mut places: Vec<ChipPlace> = Vec::with_capacity(chips.len());
    let mut x: i32 = 0;
    let mut y: i32 = 0;
    let mut row_height: i32 = 0;
    let mut i: usize = 0;
    assert(chips@.take(0) =~= Seq::empty());
    while i < chips.len()
        invariant
            i <= chips@.len(),
            can_be_laid_out(chips@),
            pack(chips@.take(i as int), width as int) == (Packing {
                x: x as int,
                y: y as int,
                row_height: row_height as int,
            }),
            0 <= x,
            0 <= y,
            0 <= row_height,
            places@.len() == i,
            forall|j: int|
                0 <= j < i ==> #[trigger] places@[j] == chip_place_of(chips@, width as int, j),
        decreases chips@.len() - i,
    {
        proof {
            lemma_packing_is_bounded(chips@, width as int, i as int);
            lemma_packing_is_bounded(chips@, width as int, i + 1);
            assert(chips@.take(i + 1).drop_last() =~= chips@.take(i as int));
            assert(0 <= chips@[i as int].width && 0 <= chips@[i as int].height);
        }
        let chip = chips[i];
        if x > 0 && x + chip.width > width {
            x = 0;
            y = y + row_height + SPACING;
            row_height = 0;
        }
        places.push(ChipPlace { x, y, width: chip.width, height: chip.height });
        x = x + chip.width + SPACING;
        if chip.height > row_height {
            row_height = chip.height;
        }
        i = i + 1;
    }
    places
}

/// The width of the widest chip and the width of all of them in one row.
fn measure_width(chips: &Vec<ChipSize>) -> (request: SizeRequest)
    requires
        can_be_laid_out(chips@),
    ensures
        request.minimum == widest_of(chips@),
        request.natural == natural_width_of(chips@),
{
    let mut widest: i32 = 0;
    let mut row_width: i32 = 0;
    let mut i: usize = 0;
    assert(chips@.take(0) =~= Seq::empty());
    while i < chips.len()
        invariant
            i <= chips@.len(),
            can_be_laid_out(chips@),
            widest == widest_of(chips@.take(i as int)),
            row_width == row_width_of(chips@.take(i as int)),
            0 <= row_width,
            i > 0 ==> row_width >= SPACING,
        decreases chips@.len() - i,
    {
        proof {
            lemma_packing_is_bounded(chips@, 0, i + 1);
            assert(chips@.take(i + 1).drop_last() =~= chips@.take(i as int));
            assert(0 <= chips@[i as int].width && 0 <= chips@[i as int].height);
        }
        let chip = chips[i];
        if chip.width > widest {
            widest = chip.width;
        }
        row_width = row_width + chip.width + SPACING;
        i = i + 1;
    }
    assert(chips@.take(i as int) =~= chips@);
    let natural = if i > 0 {
        row_width - SPACING
    } else {
        0
    };
    SizeRequest { minimum: widest, natural }
}

/// The size that the strip asks for.
pub fn measure(chips: &Vec<ChipSize>, orientation: Orientation, for_size: i32) -> (
    request: SizeRequest)
    requires
        can_be_laid_out(chips@),
    ensures
        ({
            let available_width = if for_size < 0 {
                natural_width_of(chips@)
            } else if for_size > widest_of(chips@) {
                for_size as int
            } else {
                widest_of(chips@)
            };
            let height = packed_height_of(chips@, available_width);
            match orientation {
                Orientation::Horizontal => request.minimum == widest_of(chips@) && request.natural
                    == natural_width_of(chips@),
                Orientation::Vertical => request.minimum == height && request.natural == height,
            }
        }),
{
    let widths = measure_width(chips);
    match orientation {
        Orientation::Horizontal => widths,
        Orientation::Vertical => {
            let available_width = if for_size < 0 {
                widths.natural
            } else if for_size > widths.minimum {
                for_size
            } else {
                widths.minimum
            };
            let height = packed_height(chips, available_width);
            SizeRequest { minimum: height, natural: height }
        },
    }
}

/// A chip that shows a reaction.
#[derive(Debug)]
pub struct ReactionChip {
    pub emoji: String,
    pub total_count: i32,
    pub is_chosen: bool,
}

/// A chip that shows a reaction.
pub struct ReactionChipView {
    pub emoji: Seq<char>,
    pub total_count: i32,
    pub is_chosen: bool,
}

impl View for ReactionChip {
    type V = ReactionChipView;

    open spec fn view(&self) -> ReactionChipView {
        ReactionChipView {
            emoji: self.emoji@,
            total_count: self.total_count,
            is_chosen: self.is_chosen,
        }
    }
}

/// The chips as plain values.
pub open spec fn chips_view(chips: Seq<ReactionChip>) -> Seq<ReactionChipView> {
    chips.map_values(|chip: ReactionChip| chip@)
}

/// The chips that show the reactions. Custom emojis and paid reactions are not
/// shown.
pub open spec fn chips_of(reactions: Seq<MessageReactionView>) -> Seq<ReactionChipView>
    decreases reactions.len(),
{
    if reactions.len() == 0 {
        Seq::empty()
    } else {
        let chips = chips_of(reactions.drop_last());
        let reaction = reactions.last();
        match reaction.reaction_type {
            ReactionTypeView::Emoji(emoji) => chips.push(
                ReactionChipView {
                    emoji,
                    total_count: reaction.total_count,
                    is_chosen: reaction.is_chosen,
                },
            ),
            _ => chips,
        }
    }
}

/// The label of a chip, given the emoji as it is displayed.
pub fn chip_label(emoji_text: &str, total_count: i32) -> (label: String)
    ensures
        label@ == emoji_text@ + " "@ + decimal(total_count as int),
{
    let mut label = emoji_text.to_owned();
    label.append(" ");
    push_decimal(&mut label, total_count as i64);
    label
}

/// What the strip shows.
#[derive(Debug)]
pub struct ReactionStrip {
    pub chips: Vec<ReactionChip>,
    pub is_visible: bool,
}

/// The state of the strip.
#[derive(Debug)]
pub struct MessageReactions {
    /// The number of the message among those that its chat holds.
    message: Option<u64>,
    /// Whether the strip follows the reactions of the message.
    is_bound: bool,
    reactions: Vec<MessageReaction>,
}

/// The state of the strip.
#[verifier::ext_equal]
pub struct ReactionsView {
    pub message: Option<u64>,
    pub is_bound: bool,
    pub reactions: Seq<MessageReactionView>,
}

impl View for MessageReactions {
    type V = ReactionsView;

    closed spec fn view(&self) -> ReactionsView {
        ReactionsView {
            message: self.message,
            is_bound: self.is_bound,
            reactions: reactions_view(self.reactions@),
        }
    }
}

/// What was done about the message of the strip.
#[derive(Clone, Copy, Debug, PartialEq, Eq, Structural)]
pub struct MessageStep {
    /// Stop following the reactions of the previous message.
    pub unbind: bool,
    /// Follow the reactions of the new message.
    pub bind: bool,
    /// There are no reactions anymore.
    pub clear: bool,
}

impl MessageReactions {
    pub fn new() -> (strip: MessageReactions)
        ensures
            strip@.message is None,
            !strip@.is_bound,
            strip@.reactions == Seq::<MessageReactionView>::empty(),
    {
        let strip = MessageReactions { message: None, is_bound: false, reactions: Vec::new() };
        assert(strip@.reactions =~= Seq::<MessageReactionView>::empty());
        strip
    }

    /// Sets the message whose reactions are shown, or `None` for a sponsored
    /// message, which cannot have reactions.
    pub fn set_message(&mut self, message: Option<u64>) -> (step: MessageStep)
        ensures
            final(self)@ == if message is Some && message == old(self)@.message {
                old(self)@
            } else {
                (ReactionsView { message, is_bound: message is Some, ..old(self)@ })
            },
            step == if message is Some && message == old(self)@.message {
                (MessageStep { unbind: false, bind: false, clear: false })
            } else {
                (MessageStep {
                    unbind: old(self)@.is_bound,
                    bind: message is Some,
                    clear: message is None,
                })
            },
    {
        if let (Some(previous), Some(new)) = (self.message, message) {
            if previous == new {
                return MessageStep { unbind: false, bind: false, clear: false };
            }
        }
        let unbind = self.is_bound;
        self.message = message;
        self.is_bound = message.is_some();
        MessageStep { unbind, bind: message.is_some(), clear: message.is_none() }
    }

    /// Shows the given reactions. Returns what the strip shows then, unless it
    /// shows these reactions already.
    pub fn set_reactions(&mut self, reactions: Vec<MessageReaction>) -> (
        strip: Option<ReactionStrip>)
        ensures
            final(self)@ == (ReactionsView {
                reactions: reactions_view(reactions@),
                ..old(self)@
            }),
            match strip {
                Some(strip) => {
                    &&& old(self)@.reactions != reactions_view(reactions@)
                    &&& chips_view(strip.chips@) == chips_of(reactions_view(reactions@))
                    &&& strip.is_visible == (reactions@.len() > 0)
                },
                None => old(self)@.reactions == reactions_view(reactions@),
            },
    {
        if same_reactions(&self.reactions, &reactions) {
            return None;
        }
        let mut chips: Vec<ReactionChip> = Vec::new();
        let mut i: usize = 0;
        let ghost views = reactions_view(reactions@);
        assert(views.take(0) =~= Seq::empty());
        assert(chips_view(chips@) =~= Seq::empty());
        while i < reactions.len()
            invariant
                i <= reactions@.len(),
                views == reactions_view(reactions@),
                chips_view(chips@) == chips_of(views.take(i as int)),
            decreases reactions@.len() - i,
        {
            let reaction = &reactions[i];
            proof {
                assert(views.take(i + 1).drop_last() =~= views.take(i as int));
                assert(views.take(i + 1).last() == reaction@);
            }
            let ghost shown = chips@;
            match &reaction.reaction_type {
                ReactionType::Emoji(emoji) => {
                    chips.push(
                        ReactionChip {
                            emoji: emoji.clone(),
                            total_count: reaction.total_count,
                            is_chosen: reaction.is_chosen,
                        },
                    );
                    assert(chips_view(chips@) =~= chips_view(shown).push(chips@.last()@));
                },
                ReactionType::CustomEmoji(_) | ReactionType::Paid => {},
            }
            i = i + 1;
        }
        assert(views.take(i as int) =~= views);
        let is_visible = reactions.len() > 0;
        self.reactions = reactions;
        Some(ReactionStrip { chips, is_visible })
    }

    /// The message that a chip toggles a reaction of when it is clicked.
    pub fn message(&self) -> (message: Option<u64>)
        ensures
            message == self@.message,
    {
        self.message
    }
}

/// There is at most one chip per reaction, and exactly one if all reactions are
/// plain emojis.
pub proof fn law_one_chip_per_shown_reaction(reactions: Seq<MessageReactionView>)
    ensures
        chips_of(reactions).len() <= reactions.len(),
        (forall|i: int|
            0 <= i < reactions.len() ==> (#[trigger] reactions[i]).reaction_type is Emoji)
            ==> chips_of(reactions).len() == reactions.len(),
    decreases reactions.len(),
{
    if reactions.len() > 0 {
        law_one_chip_per_shown_reaction(reactions.drop_last());
        assert(reactions.last() == reactions[reactions.len() - 1]);
    }
}

/// The first chip is in the upper left corner. A chip that fits beside the one
/// before it is beside it, six pixels apart. One that does not begins a row of
/// its own, as far below everything before it.
pub proof fn law_chips_are_packed(chips: Seq<ChipSize>, width: int, i: int)
    requires
        can_be_laid_out(chips),
        0 <= i < chips.len(),
    ensures
        ({
            let place = chip_place_of(chips, width, i);
            let before = chip_place_of(chips, width, i - 1);
            let left = before.x + before.width + 6;
            &&& place.width == chips[i].width
            &&& place.height == chips[i].height
            &&& i == 0 ==> place.x == 0 && place.y == 0
            &&& i > 0 && left + chips[i].width <= width ==> place.x == left && place.y == before.y
            &&& i > 0 && left + chips[i].width > width ==> place.x == 0 && place.y
                == packed_height_of(chips.take(i), width) + 6
        }),
{
    lemma_packing_is_bounded(chips, width, i);
    lemma_packing_is_bounded(chips, width, i + 1);
    assert(chips.take(i + 1).drop_last() =~= chips.take(i));
    assert(0 <= chips[i].height && 0 <= chips[i].width);
    if i > 0 {
        lemma_packing_is_bounded(chips, width, i - 1);
        assert(chips.take(i).drop_last() =~= chips.take(i - 1));
        assert(chips.take(i).last() == chips[i - 1]);
        assert(0 <= chips[i - 1].height && 0 <= chips[i - 1].width);
    }
}

/// Whether a chip of the given ones ends at a height.
pub open spec fn some_chip_ends_at(chips: Seq<ChipSize>, width: int, height: int) -> bool {
    exists|i: int|
        0 <= i < chips.len() && (#[trigger] chip_place_of(chips, width, i)).y + chips[i].height
            == height
}

/// A row is as high as one of its chips.
proof fn lemma_row_height(chips: Seq<ChipSize>, width: int, count: int)
    requires
        can_be_laid_out(chips),
        0 < count <= chips.len(),
    ensures
        some_chip_ends_at(chips, width, packed_height_of(chips.take(count), width)),
        exists|i: int|
            0 <= i < count && (#[trigger] chip_place_of(chips, width, i)).y == pack(
                chips.take(count),
                width,
            ).y && chips[i].height == pack(chips.take(count), width).row_height,
    decreases count,
{
    let last = count - 1;
    lemma_packing_is_bounded(chips, width, last);
    lemma_packing_is_bounded(chips, width, count);
    assert(chips.take(count).drop_last() =~= chips.take(last));
    assert(chips.take(count).last() == chips[last]);
    assert(0 <= chips[last].height && 0 <= chips[last].width);
    let packing = pack(chips.take(count), width);
    if packing.row_height == chips[last].height {
        assert(chip_place_of(chips, width, last).y == packing.y);
    } else {
        lemma_row_height(chips, width, last);
        let i = choose|i: int|
            0 <= i < last && (#[trigger] chip_place_of(chips, width, i)).y == pack(
                chips.take(last),
                width,
            ).y && chips[i].height == pack(chips.take(last), width).row_height;
        assert(chip_place_of(chips, width, i).y == packing.y);
    }
}

/// The strip is as high as its lowest chip needs, and no higher.
pub proof fn law_height_is_that_of_lowest_chip(chips: Seq<ChipSize>, width: int)
    requires
        can_be_laid_out(chips),
    ensures
        chips.len() == 0 ==> packed_height_of(chips, width) == 0,
        chips.len() > 0 ==> some_chip_ends_at(chips, width, packed_height_of(chips, width)),
{
    if chips.len() > 0 {
        lemma_row_height(chips, width, chips.len() as int);
        assert(chips.take(chips.len() as int) =~= chips);
    }
}

/// The strip is at least as wide as its widest chip.
pub proof fn law_widest_chip_counts(chips: Seq<ChipSize>)
    ensures
        widest_of(chips) >= 0,
        forall|i: int| 0 <= i < chips.len() ==> (#[trigger] chips[i]).width <= widest_of(chips),
        widest_of(chips) == 0 || exists|i: int|
            0 <= i < chips.len() && (#[trigger] chips[i]).width == widest_of(chips),
    decreases chips.len(),
{
    if chips.len() > 0 {
        let others = chips.drop_last();
        law_widest_chip_counts(others);
        let last = chips.len() - 1;
        assert forall|i: int| 0 <= i < chips.len() implies (#[trigger] chips[i]).width <= widest_of(
            chips,
        ) by {
            if i < last {
                assert(others[i] == chips[i]);
            }
        }
        if chips[last].width > widest_of(others) {
            assert(chips[last].width == widest_of(chips));
        } else if widest_of(others) != 0 {
            let i = choose|i: int|
                0 <= i < others.len() && (#[trigger] others[i]).width == widest_of(others);
            assert(chips[i] == others[i]);
        }
    }
}

/// The strip wants to be as wide as all of its chips beside each other, six
/// pixels apart.
pub proof fn law_natural_width_adds_up(chips: Seq<ChipSize>, chip: ChipSize)
    ensures
        natural_width_of(Seq::empty()) == 0,
        chips.len() == 0 ==> natural_width_of(chips.push(chip)) == chip.width,
        chips.len() > 0 ==> natural_width_of(chips.push(chip)) == natural_width_of(chips) + 6
            + chip.width,
{
    assert(chips.push(chip).drop_last() =~= chips);
    if chips.len() == 0 {
        assert(row_width_of(chips) == 0);
        assert(chips.push(chip).last() == chip);
    }
}

/// A reaction with an emoji has a chip that shows it, at the end of the strip.
/// Other reactions have none.
pub proof fn law_reactions_have_chips(
    reactions: Seq<MessageReactionView>,
    reaction: MessageReactionView,
)
    ensures
        chips_of(Seq::empty()) == Seq::<ReactionChipView>::empty(),
        reaction.reaction_type matches ReactionTypeView::Emoji(emoji) ==> chips_of(
            reactions.push(reaction),
        ) == chips_of(reactions).push(
            ReactionChipView {
                emoji,
                total_count: reaction.total_count,
                is_chosen: reaction.is_chosen,
            },
        ),
        !(reaction.reaction_type is Emoji) ==> chips_of(reactions.push(reaction)) == chips_of(
            reactions,
        ),
{
    assert(reactions.push(reaction).drop_last() =~= reactions);
}

} // verus!
