//! A row that shows a media album as a grid of tiles inside a message bubble.
//!
//! The album is shown on behalf of its representative message. The bubble shows
//! the sender and the indicators of the representative as well as the last
//! caption of the album, and the grid shows one tile per message, sized by its
//! media aspect ratio.

use vstd::prelude::*;

use crate::model::message::ContentKind;
use crate::types::MessageId;
use crate::ui::media_viewer_view::{ViewerEntry, ViewerItem};

verus! {

/// What a tile shows.
#[derive(Clone, Copy, Debug, PartialEq, Eq, Structural)]
pub enum TileKind {
    Photo,
    Video,
    Animation,
    /// Albums only contain photos, videos and animations, but a content update
    /// could change the type of a message.
    Unsupported,
}

/// What a tile shows for content of the given kind.
pub fn tile_kind(kind: ContentKind) -> (tile: TileKind)
    ensures
        tile == match kind {
            ContentKind::Photo => TileKind::Photo,
            ContentKind::Video => TileKind::Video,
            ContentKind::Animation => TileKind::Animation,
            ContentKind::Other => TileKind::Unsupported,
        },
{
    match kind {
        ContentKind::Photo => TileKind::Photo,
        ContentKind::Video => TileKind::Video,
        ContentKind::Animation => TileKind::Animation,
        ContentKind::Other => TileKind::Unsupported,
    }
}

/// The tile of a message, as far as the viewer is concerned.
#[derive(Clone, Copy, Debug, PartialEq, Eq, Structural)]
pub struct AlbumTile {
    /// Whether the tile shows a photo or a video, and so can open the viewer.
    pub is_media: bool,
    /// The viewer item of the tile, which tracks the file updates.
    pub item: Option<ViewerItem>,
}

/// A message of the album, as far as the viewer is concerned.
#[derive(Clone, Copy, Debug, PartialEq, Eq, Structural)]
pub struct AlbumMember {
    pub id: MessageId,
    /// The number of the message among those that its chat holds.
    pub serial: u64,
    /// The tile of the message, if it is still alive.
    pub tile: Option<AlbumTile>,
    /// The viewer item of the content of the message.
    pub content_item: Option<ViewerItem>,
}

impl AlbumMember {
    /// The viewer item of the message: that of its tile, or else that of its
    /// content.
    pub open spec fn item_of(self) -> Option<ViewerItem> {
        match self.tile {
            Some(tile) => match tile.item {
                Some(item) => Some(item),
                None => self.content_item,
            },
            None => self.content_item,
        }
    }

    /// The viewer item of the message: that of its tile, which tracks the file
    /// updates, or else that of its content.
    pub fn item(&self) -> (item: Option<ViewerItem>)
        ensures
            item == self.item_of(),
    {
        if let Some(tile) = self.tile {
            if let Some(item) = tile.item {
                return Some(item);
            }
        }
        self.content_item
    }
}

/// The entries of the messages that have viewable media.
pub open spec fn entries_of(members: Seq<AlbumMember>) -> Seq<ViewerEntry>
    decreases members.len(),
{
    if members.len() == 0 {
        Seq::empty()
    } else {
        let entries = entries_of(members.drop_last());
        let member = members.last();
        match member.item_of() {
            Some(item) => entries.push(
                ViewerEntry { item, message_id: member.id, serial: member.serial },
            ),
            None => entries,
        }
    }
}

/// Whether the entry at the given position is the first one of the message.
pub open spec fn is_entry_of(entries: Seq<ViewerEntry>, id: MessageId, index: int) -> bool {
    &&& 0 <= index < entries.len()
    &&& entries[index].message_id == id
    &&& forall|i: int| 0 <= i < index ==> (#[trigger] entries[i]).message_id != id
}

/// Whether the message has an entry.
pub open spec fn has_entry(entries: Seq<ViewerEntry>, id: MessageId) -> bool {
    exists|i: int| 0 <= i < entries.len() && (#[trigger] entries[i]).message_id == id
}

/// Whether the tile of the message is assigned the entries of the album.
pub open spec fn gets_context(entries: Seq<ViewerEntry>, member: AlbumMember) -> bool {
    match member.tile {
        Some(tile) => tile.is_media && has_entry(entries, member.id),
        None => false,
    }
}

/// What the tiles of an album open the viewer on.
#[derive(Debug)]
pub struct ViewerContexts {
    /// The entries of the whole album.
    pub entries: Vec<ViewerEntry>,
    /// For every message of the album the position of its entry, if its tile
    /// is to be assigned the entries.
    pub indices: Vec<Option<usize>>,
}

/// The position of the entry of a message.
fn find_entry(entries: &Vec<ViewerEntry>, id: MessageId) -> (index: Option<usize>)
    ensures
        match index {
            Some(index) => is_entry_of(entries@, id, index as int),
            None => !has_entry(entries@, id),
        },
{
    let mut i: usize = 0;
    while i < entries.len()
        invariant
            i <= entries@.len(),
            forall|k: int| 0 <= k < i ==> (#[trigger] entries@[k]).message_id != id,
        decreases entries@.len() - i,
    {
        if entries[i].message_id == id {
            return Some(i);
        }
        i = i + 1;
    }
    None
}

/// What the tiles of the album open the viewer on.
///
/// Each tile opens the media viewer on the whole album, at the entry of its own
/// message. The indices are assigned in the order of the viewable messages, so
/// that they stay consistent even when some messages have no viewable media.
pub fn viewer_contexts(members: &Vec<AlbumMember>) -> (contexts: ViewerContexts)
    ensures
        contexts.entries@ == entries_of(members@),
        contexts.indices@.len() == members@.len(),
        forall|i: int|
            0 <= i < members@.len() ==> match #[trigger] contexts.indices@[i] {
                Some(index) => gets_context(contexts.entries@, members@[i]) && is_entry_of(
                    contexts.entries@,
                    members@[i].id,
                    index as int,
                ),
                None => !gets_context(contexts.entries@, members@[i]),
            },
{
    let mut entries: Vec<ViewerEntry> = Vec::new();
    let mut i: usize = 0;
    assert(members@.take(0) =~= Seq::empty());
    while i < members.len()
        invariant
            i <= members@.len(),
            entries@ == entries_of(members@.take(i as int)),
        decreases members@.len() - i,
    {
        let member = members[i];
        assert(members@.take(i + 1).drop_last() =~= members@.take(i as int));
        if let Some(item) = member.item() {
            entries.push(ViewerEntry { item, message_id: member.id, serial: member.serial });
        }
        i = i + 1;
    }
    assert(members@.take(i as int) =~= members@);
    let mut indices: Vec<Option<usize>> = Vec::with_capacity(members.len());
    let mut k: usize = 0;
    while k < members.len()
        invariant
            k <= members@.len(),
            indices@.len() == k,
            forall|i: int|
                0 <= i < k ==> match #[trigger] indices@[i] {
                    Some(index) => gets_context(entries@, members@[i]) && is_entry_of(
                        entries@,
                        members@[i].id,
                        index as int,
                    ),
                    None => !gets_context(entries@, members@[i]),
                },
        decreases members@.len() - k,
    {
        let member = members[k];
        let index = match member.tile {
            Some(tile) => if tile.is_media {
                find_entry(&entries, member.id)
            } else {
                None
            },
            None => None,
        };
        indices.push(index);
        k = k + 1;
    }
    ViewerContexts { entries, indices }
}

/// Every entry belongs to a message of the album and shows its item.
proof fn lemma_entries_belong_to_members(members: Seq<AlbumMember>, index: int) -> (i: int)
    requires
        0 <= index < entries_of(members).len(),
    ensures
        0 <= i < members.len(),
        members[i].id == entries_of(members)[index].message_id,
        members[i].serial == entries_of(members)[index].serial,
        members[i].item_of() == Some(entries_of(members)[index].item),
    decreases members.len(),
{
    let before = members.drop_last();
    if index < entries_of(before).len() {
        lemma_entries_belong_to_members(before, index)
    } else {
        members.len() - 1
    }
}

/// Every message with a viewable item has an entry.
proof fn lemma_members_have_entries(members: Seq<AlbumMember>, i: int)
    requires
        0 <= i < members.len(),
        members[i].item_of() is Some,
    ensures
        has_entry(entries_of(members), members[i].id),
    decreases members.len(),
{
    let entries = entries_of(members);
    let before = entries_of(members.drop_last());
    if i < members.len() - 1 {
        lemma_members_have_entries(members.drop_last(), i);
        let k = choose|k: int| 0 <= k < before.len() && (#[trigger] before[k]).message_id
            == members[i].id;
        assert(entries[k].message_id == members[i].id);
    } else {
        assert(entries[before.len() as int].message_id == members[i].id);
    }
}

/// The tile of a photo or a video opens the viewer on its own item, provided
/// that no two messages of the album have the same id.
pub proof fn law_tiles_open_their_own_item(
    members: Seq<AlbumMember>,
    i: int,
    item: ViewerItem,
    index: int,
)
    requires
        forall|a: int, b: int|
            0 <= a < b < members.len() ==> (#[trigger] members[a]).id != (
            #[trigger] members[b]).id,
        0 <= i < members.len(),
        members[i].item_of() == Some(item),
        is_entry_of(entries_of(members), members[i].id, index),
    ensures
        entries_of(members)[index] == (ViewerEntry {
            item,
            message_id: members[i].id,
            serial: members[i].serial,
        }),
{
    let k = lemma_entries_belong_to_members(members, index);
    if k < i {
        assert(members[k].id != members[i].id);
    } else if i < k {
        assert(members[i].id != members[k].id);
    }
}

/// The tile of a photo or a video that is alive and has an item is assigned
/// the entries of the album.
pub proof fn law_media_tiles_get_contexts(members: Seq<AlbumMember>, i: int)
    requires
        0 <= i < members.len(),
        members[i].item_of() is Some,
        match members[i].tile {
            Some(tile) => tile.is_media,
            None => false,
        },
    ensures
        gets_context(entries_of(members), members[i]),
{
    lemma_members_have_entries(members, i);
}

/// Something that the widgets of the row have to do.
#[derive(Clone, Copy, Debug, PartialEq, Eq, Structural)]
pub enum AlbumAction {
    /// Show the sender and the indicators of the representative.
    UpdateBubble,
    /// Show the last caption of the album.
    UpdateCaption,
    /// Stop listening to the album with the given number.
    DisconnectAlbum(u64),
    /// Listen to the album with the given number.
    ConnectAlbum(u64),
    /// Remove all tiles from the grid.
    ClearGrid,
    /// Create a tile for the message with the given id, and append it to the
    /// grid.
    AppendTile(MessageId),
    /// Assign the viewer contexts to the tiles.
    UpdateViewerContexts,
    /// Tell that there is another message.
    NotifyMessage,
}

/// The state of the row.
#[derive(Debug)]
pub struct MessageMediaAlbum {
    /// The number of the message among those that its chat holds.
    message: Option<u64>,
    /// The number of the album among those that exist.
    album: Option<u64>,
    /// The ids of the messages that a tile renders, in the order of the grid.
    ///
    /// Reusing existing tiles instead of recreating them on every album update
    /// preserves in-progress downloads, image decoding and video playback
    /// state.
    tiles: Vec<MessageId>,
    actions: Vec<AlbumAction>,
}

/// The state of the row.
#[verifier::ext_equal]
pub struct AlbumRowView {
    pub message: Option<u64>,
    pub album: Option<u64>,
    pub tiles: Seq<MessageId>,
    pub actions: Seq<AlbumAction>,
}

impl View for MessageMediaAlbum {
    type V = AlbumRowView;

    closed spec fn view(&self) -> AlbumRowView {
        AlbumRowView {
            message: self.message,
            album: self.album,
            tiles: self.tiles@,
            actions: self.actions@,
        }
    }
}

impl AlbumRowView {
    pub open spec fn act(self, action: AlbumAction) -> AlbumRowView {
        AlbumRowView { actions: self.actions.push(action), ..self }
    }

    /// The state after a tile was appended.
    pub open spec fn append_tile(self, id: MessageId) -> AlbumRowView {
        AlbumRowView { tiles: self.tiles.push(id), ..self.act(AlbumAction::AppendTile(id)) }
    }

    /// The state after a tile was appended for every message.
    pub open spec fn append_tiles(self, messages: Seq<MessageId>) -> AlbumRowView
        decreases messages.len(),
    {
        if messages.len() == 0 {
            self
        } else {
            self.append_tiles(messages.drop_last()).append_tile(messages.last())
        }
    }

    /// The state after a tile was appended for every message without one.
    pub open spec fn append_new_tiles(self, messages: Seq<MessageId>) -> AlbumRowView
        decreases messages.len(),
    {
        if messages.len() == 0 {
            self
        } else {
            let appended = self.append_new_tiles(messages.drop_last());
            if appended.tiles.contains(messages.last()) {
                appended
            } else {
                appended.append_tile(messages.last())
            }
        }
    }

    /// The state after the album was laid out from scratch.
    pub open spec fn render_album(self, messages: Seq<MessageId>) -> AlbumRowView {
        let cleared = AlbumRowView {
            tiles: Seq::empty(),
            ..self.act(AlbumAction::ClearGrid)
        };
        if messages.len() == 0 {
            cleared
        } else {
            cleared.append_tiles(messages).act(AlbumAction::UpdateViewerContexts)
        }
    }

    /// The state after the tiles of new messages were attached.
    pub open spec fn attach_new_tiles(self, messages: Seq<MessageId>) -> AlbumRowView {
        if messages.len() == 0 {
            self
        } else {
            self.append_new_tiles(messages).act(AlbumAction::UpdateViewerContexts)
        }
    }

    /// The state after the album changed.
    pub open spec fn items_changed(
        self,
        messages: Seq<MessageId>,
        position: nat,
        removed: nat,
        added: nat,
    ) -> AlbumRowView {
        let told = self.act(AlbumAction::UpdateCaption);
        if removed == 0 && position + added == messages.len() {
            told.attach_new_tiles(messages)
        } else {
            told.render_album(messages)
        }
    }

    /// The state after an album was set.
    pub open spec fn set_album(self, album: u64, messages: Seq<MessageId>) -> AlbumRowView {
        if self.album == Some(album) {
            self
        } else {
            let left = match self.album {
                Some(previous) => self.act(AlbumAction::DisconnectAlbum(previous)),
                None => self,
            };
            AlbumRowView { album: Some(album), ..left }.act(
                AlbumAction::UpdateCaption,
            ).render_album(messages).act(AlbumAction::ConnectAlbum(album))
        }
    }

    /// The state after a message was set, which represents an album.
    pub open spec fn set_message(
        self,
        message: u64,
        album: u64,
        messages: Seq<MessageId>,
    ) -> AlbumRowView {
        if self.message == Some(message) && self.album == Some(album) {
            self
        } else {
            AlbumRowView { message: Some(message), ..self }.act(
                AlbumAction::UpdateBubble,
            ).set_album(album, messages).act(AlbumAction::NotifyMessage)
        }
    }
}

impl MessageMediaAlbum {
    pub fn new() -> (row: MessageMediaAlbum)
        ensures
            row@ == (AlbumRowView {
                message: None,
                album: None,
                tiles: Seq::empty(),
                actions: Seq::empty(),
            }),
    {
        let row = MessageMediaAlbum {
            message: None,
            album: None,
            tiles: Vec::new(),
            actions: Vec::new(),
        };
        assert(row@.tiles =~= Seq::empty());
        assert(row@.actions =~= Seq::empty());
        row
    }

    fn act(&mut self, action: AlbumAction)
        ensures
            final(self)@ == old(self)@.act(action),
    {
        self.actions.push(action);
    }

    fn append_tile(&mut self, id: MessageId)
        ensures
            final(self)@ == old(self)@.append_tile(id),
    {
        self.tiles.push(id);
        self.act(AlbumAction::AppendTile(id));
    }

    /// Whether a tile renders the message.
    fn has_tile(&self, id: MessageId) -> (result: bool)
        ensures
            result == self@.tiles.contains(id),
    {
        let mut i: usize = 0;
        while i < self.tiles.len()
            invariant
                i <= self.tiles@.len(),
                forall|k: int| 0 <= k < i ==> self.tiles@[k] != id,
            decreases self.tiles@.len() - i,
        {
            if self.tiles[i] == id {
                assert(self@.tiles[i as int] == id);
                return true;
            }
            i = i + 1;
        }
        false
    }

    /// Lays out the whole album from scratch.
    ///
    /// The tiles are appended in message order; the grid positions and sizes
    /// are computed by its layout from the aspect ratio of the media of every
    /// tile.
    fn render_album(&mut self, messages: &Vec<MessageId>)
        ensures
            final(self)@ == old(self)@.render_album(messages@),
    {
        self.act(AlbumAction::ClearGrid);
        self.tiles = Vec::new();
        if messages.len() == 0 {
            assert(self@.tiles =~= Seq::empty());
            return;
        }
        let ghost cleared = self@;
        assert(self@.tiles =~= Seq::empty());
        assert(messages@.take(0) =~= Seq::empty());
        let mut i: usize = 0;
        while i < messages.len()
            invariant
                i <= messages@.len(),
                self@ == cleared.append_tiles(messages@.take(i as int)),
            decreases messages@.len() - i,
        {
            self.append_tile(messages[i]);
            assert(messages@.take(i + 1).drop_last() =~= messages@.take(i as int));
            i = i + 1;
        }
        assert(messages@.take(i as int) =~= messages@);
        self.act(AlbumAction::UpdateViewerContexts);
    }

    /// Attaches tiles for the messages of the album that are not rendered yet,
    /// appending them at the end of the grid.
    ///
    /// This must only be used when the new messages were appended at the end of
    /// the album, so that the existing tiles keep their order. The layout
    /// adapts to the new tile count automatically.
    fn attach_new_tiles(&mut self, messages: &Vec<MessageId>)
        ensures
            final(self)@ == old(self)@.attach_new_tiles(messages@),
    {
        if messages.len() == 0 {
            return;
        }
        let ghost before = self@;
        assert(messages@.take(0) =~= Seq::empty());
        let mut i: usize = 0;
        while i < messages.len()
            invariant
                i <= messages@.len(),
                self@ == before.append_new_tiles(messages@.take(i as int)),
            decreases messages@.len() - i,
        {
            if !self.has_tile(messages[i]) {
                self.append_tile(messages[i]);
            }
            assert(messages@.take(i + 1).drop_last() =~= messages@.take(i as int));
            i = i + 1;
        }
        assert(messages@.take(i as int) =~= messages@);
        self.act(AlbumAction::UpdateViewerContexts);
    }

    /// Handles that the album changed: at the given position, the given number
    /// of messages were removed and added. The messages are the new ones, in
    /// the order they were sent in.
    ///
    /// The caption may be on any message of the album, so it is re-read
    /// whenever the album changes. If tiles were removed or reordered, the
    /// whole grid is laid out again.
    pub fn handle_items_changed(
        &mut self,
        messages: &Vec<MessageId>,
        position: usize,
        removed: usize,
        added: usize,
    )
        ensures
            final(self)@ == old(self)@.items_changed(
                messages@,
                position as nat,
                removed as nat,
                added as nat,
            ),
    {
        self.act(AlbumAction::UpdateCaption);
        let is_append = removed == 0 && added <= messages.len() && position == messages.len()
            - added;
        if is_append {
            self.attach_new_tiles(messages);
        } else {
            self.render_album(messages);
        }
    }

    fn set_album(&mut self, album: u64, messages: &Vec<MessageId>)
        ensures
            final(self)@ == old(self)@.set_album(album, messages@),
    {
        if let Some(previous) = self.album {
            if previous == album {
                return;
            }
            self.act(AlbumAction::DisconnectAlbum(previous));
        }
        self.album = Some(album);
        self.act(AlbumAction::UpdateCaption);
        self.render_album(messages);
        self.act(AlbumAction::ConnectAlbum(album));
    }

    /// Sets the message of this row, which represents an album with the given
    /// messages.
    ///
    /// A message that is unchanged may represent another album now, e.g. after
    /// the history was reloaded around it. The sender, the indicators and the
    /// outgoing state of the album are those of its representative.
    pub fn set_message(&mut self, message: u64, album: u64, messages: &Vec<MessageId>)
        ensures
            final(self)@ == old(self)@.set_message(message, album, messages@),
    {
        if let (Some(current), Some(current_album)) = (self.message, self.album) {
            if current == message && current_album == album {
                return;
            }
        }
        self.message = Some(message);
        self.act(AlbumAction::UpdateBubble);
        self.set_album(album, messages);
        self.act(AlbumAction::NotifyMessage);
    }

    /// Handles that the row is disposed of.
    pub fn dispose(&mut self)
        ensures
            final(self)@ == match old(self)@.album {
                Some(album) => old(self)@.act(AlbumAction::DisconnectAlbum(album)),
                None => old(self)@,
            },
    {
        if let Some(album) = self.album {
            self.act(AlbumAction::DisconnectAlbum(album));
        }
    }

    /// What the widgets have to do, in order. It is handed out once.
    pub fn take_actions(&mut self) -> (actions: Vec<AlbumAction>)
        ensures
            actions@ == old(self)@.actions,
            final(self)@ == (AlbumRowView { actions: Seq::empty(), ..old(self)@ }),
    {
        let mut actions: Vec<AlbumAction> = Vec::new();
        std::mem::swap(&mut actions, &mut self.actions);
        assert(self@.actions =~= Seq::empty());
        actions
    }

    /// The ids of the messages that a tile renders, in the order of the grid.
    pub fn tiles(&self) -> (tiles: &Vec<MessageId>)
        ensures
            tiles@ == self@.tiles,
    {
        &self.tiles
    }
}

proof fn lemma_append_tiles(row: AlbumRowView, messages: Seq<MessageId>)
    ensures
        row.append_tiles(messages).tiles == row.tiles + messages,
    decreases messages.len(),
{
    if messages.len() == 0 {
        assert(row.tiles + messages =~= row.tiles);
    } else {
        lemma_append_tiles(row, messages.drop_last());
        assert(row.tiles + messages =~= (row.tiles + messages.drop_last()).push(messages.last()));
    }
}

/// Laying an album out gives one tile per message, in the order of the
/// messages.
pub proof fn law_rendered_album_has_all_tiles(row: AlbumRowView, messages: Seq<MessageId>)
    ensures
        row.render_album(messages).tiles == messages,
{
    let cleared = AlbumRowView { tiles: Seq::empty(), ..row.act(AlbumAction::ClearGrid) };
    lemma_append_tiles(cleared, messages);
    assert(Seq::<MessageId>::empty() + messages =~= messages);
}

proof fn lemma_known_messages(row: AlbumRowView, messages: Seq<MessageId>)
    requires
        forall|i: int| 0 <= i < messages.len() ==> row.tiles.contains(#[trigger] messages[i]),
    ensures
        row.append_new_tiles(messages) == row,
    decreases messages.len(),
{
    if messages.len() > 0 {
        let before = messages.drop_last();
        assert forall|i: int| 0 <= i < before.len() implies row.tiles.contains(
            #[trigger] before[i],
        ) by {
            assert(before[i] == messages[i]);
        }
        lemma_known_messages(row, before);
        assert(messages.last() == messages[messages.len() - 1]);
    }
}

proof fn lemma_appended_messages(row: AlbumRowView, messages: Seq<MessageId>, known: int)
    requires
        messages.no_duplicates(),
        0 <= known <= messages.len(),
        row.tiles == messages.take(known),
    ensures
        row.append_new_tiles(messages).tiles == messages,
    decreases messages.len(),
{
    if known == messages.len() {
        assert(messages.take(known) =~= messages);
        assert forall|i: int| 0 <= i < messages.len() implies row.tiles.contains(
            #[trigger] messages[i],
        ) by {
            assert(row.tiles[i] == messages[i]);
        }
        lemma_known_messages(row, messages);
    } else {
        let before = messages.drop_last();
        assert(before.take(known) =~= messages.take(known));
        assert(before.no_duplicates());
        lemma_appended_messages(row, before, known);
        let last = messages.last();
        if before.contains(last) {
            let i = choose|i: int| 0 <= i < before.len() && before[i] == last;
            assert(messages[i] == messages[messages.len() - 1]);
        }
        assert(before.push(last) =~= messages);
    }
}

/// Messages that were appended to an album get their tiles at the end of the
/// grid: the grid is the same as if the album had been laid out from scratch,
/// and no other tile is touched.
pub proof fn law_appended_messages_get_tiles(
    row: AlbumRowView,
    messages: Seq<MessageId>,
    added: nat,
)
    requires
        messages.no_duplicates(),
        added <= messages.len(),
        row.tiles == messages.take(messages.len() - added),
    ensures
        row.items_changed(messages, (messages.len() - added) as nat, 0, added).tiles == messages,
{
    let told = row.act(AlbumAction::UpdateCaption);
    lemma_appended_messages(told, messages, messages.len() - added);
}

/// Any other change of an album gives one tile per message, too.
pub proof fn law_changed_album_has_all_tiles(
    row: AlbumRowView,
    messages: Seq<MessageId>,
    position: nat,
    removed: nat,
    added: nat,
)
    requires
        removed > 0 || position + added != messages.len(),
    ensures
        row.items_changed(messages, position, removed, added).tiles == messages,
{
    law_rendered_album_has_all_tiles(row.act(AlbumAction::UpdateCaption), messages);
}

/// Setting the same message of the same album again changes nothing.
pub proof fn law_same_album_changes_nothing(
    row: AlbumRowView,
    message: u64,
    album: u64,
    messages: Seq<MessageId>,
    others: Seq<MessageId>,
)
    ensures
        ({
            let set = row.set_message(message, album, messages);
            set.set_message(message, album, others) == set
        }),
{
    let told = AlbumRowView { message: Some(message), ..row }.act(AlbumAction::UpdateBubble);
    let left = match told.album {
        Some(previous) => told.act(AlbumAction::DisconnectAlbum(previous)),
        None => told,
    };
    let start = AlbumRowView { album: Some(album), ..left }.act(AlbumAction::UpdateCaption);
    lemma_append_keeps_message(
        AlbumRowView { tiles: Seq::empty(), ..start.act(AlbumAction::ClearGrid) },
        messages,
    );
}

proof fn lemma_append_keeps_message(row: AlbumRowView, messages: Seq<MessageId>)
    ensures
        row.append_tiles(messages).message == row.message,
        row.append_tiles(messages).album == row.album,
    decreases messages.len(),
{
    if messages.len() > 0 {
        lemma_append_keeps_message(row, messages.drop_last());
    }
}

/// A member is shown in the viewer as what its tile shows, or as what its
/// content is if its tile shows nothing.
pub proof fn law_members_have_items(member: AlbumMember)
    ensures
        member.tile matches Some(tile) ==> (tile.item is Some ==> member.item_of() == tile.item)
            && (tile.item is None ==> member.item_of() == member.content_item),
        member.tile is None ==> member.item_of() == member.content_item,
{
}

/// There are entries of all members that have an item, in their order: a member
/// that is appended has its entry at the end or none at all.
pub proof fn law_members_have_entries(members: Seq<AlbumMember>, member: AlbumMember)
    ensures
        entries_of(Seq::empty()) == Seq::<ViewerEntry>::empty(),
        member.item_of() matches Some(item) ==> entries_of(members.push(member)) == entries_of(
            members,
        ).push(ViewerEntry { item, message_id: member.id, serial: member.serial }),
        member.item_of() is None ==> entries_of(members.push(member)) == entries_of(members),
{
    assert(members.push(member).drop_last() =~= members);
}

/// Only tiles of photos and videos that are among the entries open the viewer
/// with them.
pub proof fn law_other_tiles_get_no_contexts(entries: Seq<ViewerEntry>, member: AlbumMember)
    ensures
        member.tile is None ==> !gets_context(entries, member),
        member.tile matches Some(tile) ==> (!tile.is_media ==> !gets_context(entries, member)),
        (forall|i: int|
            0 <= i < entries.len() ==> (#[trigger] entries[i]).message_id != member.id)
            ==> !gets_context(entries, member),
{
}

/// The tiles that the widgets have after the given actions.
pub open spec fn tiles_after(actions: Seq<AlbumAction>) -> Seq<MessageId>
    decreases actions.len(),
{
    if actions.len() == 0 {
        Seq::empty()
    } else {
        let before = tiles_after(actions.drop_last());
        match actions.last() {
            AlbumAction::ClearGrid => Seq::empty(),
            AlbumAction::AppendTile(id) => before.push(id),
            _ => before,
        }
    }
}

/// An action that follows others changes the tiles that were there before it.
proof fn lemma_tiles_after()
    ensures
        forall|actions: Seq<AlbumAction>, action: AlbumAction| #[trigger]
            tiles_after(actions.push(action)) == match action {
                AlbumAction::ClearGrid => Seq::empty(),
                AlbumAction::AppendTile(id) => tiles_after(actions).push(id),
                _ => tiles_after(actions),
            },
{
    assert forall|actions: Seq<AlbumAction>, action: AlbumAction| #[trigger]
        tiles_after(actions.push(action)) == match action {
            AlbumAction::ClearGrid => Seq::empty(),
            AlbumAction::AppendTile(id) => tiles_after(actions).push(id),
            _ => tiles_after(actions),
        } by {
        assert(actions.push(action).drop_last() =~= actions);
    }
}

/// Tiles that are appended are appended by the widgets too.
proof fn lemma_appended_tiles_are_told(row: AlbumRowView, messages: Seq<MessageId>)
    requires
        tiles_after(row.actions) == row.tiles,
    ensures
        tiles_after(row.append_tiles(messages).actions) == row.append_tiles(messages).tiles,
        row.append_tiles(messages).message == row.message,
        row.append_tiles(messages).album == row.album,
        tiles_after(row.append_new_tiles(messages).actions) == row.append_new_tiles(messages).tiles,
        row.append_new_tiles(messages).message == row.message,
        row.append_new_tiles(messages).album == row.album,
    decreases messages.len(),
{
    lemma_tiles_after();
    if messages.len() > 0 {
        lemma_appended_tiles_are_told(row, messages.drop_last());
    }
}

/// The widgets have the tiles of the album, whatever becomes of it, and the row
/// stays one of its message and its album.
pub proof fn law_tiles_are_told(
    row: AlbumRowView,
    messages: Seq<MessageId>,
    position: nat,
    removed: nat,
    added: nat,
)
    requires
        tiles_after(row.actions) == row.tiles,
    ensures
        ({
            let after = row.items_changed(messages, position, removed, added);
            &&& tiles_after(after.actions) == after.tiles
            &&& after.message == row.message
            &&& after.album == row.album
            &&& after.actions.contains(AlbumAction::UpdateCaption)
            &&& messages.len() > 0 ==> after.actions.last() == AlbumAction::UpdateViewerContexts
        }),
{
    lemma_tiles_after();
    let told = row.act(AlbumAction::UpdateCaption);
    let cleared = AlbumRowView { tiles: Seq::empty(), ..told.act(AlbumAction::ClearGrid) };
    lemma_appended_tiles_are_told(told, messages);
    lemma_appended_tiles_are_told(cleared, messages);
    lemma_actions_are_kept(told, messages);
    lemma_actions_are_kept(cleared, messages);
    let i = row.actions.len() as int;
    let after = row.items_changed(messages, position, removed, added);
    assert(told.actions[i] == AlbumAction::UpdateCaption);
    assert(cleared.actions[i] == AlbumAction::UpdateCaption);
    assert(after.actions[i] == AlbumAction::UpdateCaption);
}

/// Appending tiles keeps the actions that are there.
proof fn lemma_actions_are_kept(row: AlbumRowView, messages: Seq<MessageId>)
    ensures
        row.append_tiles(messages).actions.len() >= row.actions.len(),
        forall|i: int|
            0 <= i < row.actions.len() ==> #[trigger] row.append_tiles(messages).actions[i]
                == row.actions[i],
        row.append_new_tiles(messages).actions.len() >= row.actions.len(),
        forall|i: int|
            0 <= i < row.actions.len() ==> #[trigger] row.append_new_tiles(messages).actions[i]
                == row.actions[i],
    decreases messages.len(),
{
    if messages.len() > 0 {
        lemma_actions_are_kept(row, messages.drop_last());
        assert forall|i: int| 0 <= i < row.actions.len() implies #[trigger] row.append_tiles(
            messages,
        ).actions[i] == row.actions[i] by {
            assert(row.append_tiles(messages.drop_last()).actions[i] == row.actions[i]);
        }
        assert forall|i: int| 0 <= i < row.actions.len() implies #[trigger] row.append_new_tiles(
            messages,
        ).actions[i] == row.actions[i] by {
            assert(row.append_new_tiles(messages.drop_last()).actions[i] == row.actions[i]);
        }
    }
}

/// A row that gets another album has all of its tiles, is connected to it and
/// disconnected from the previous one.
pub proof fn law_row_takes_album(
    row: AlbumRowView,
    message: u64,
    album: u64,
    messages: Seq<MessageId>,
)
    requires
        row.album != Some(album),
        tiles_after(row.actions) == row.tiles,
    ensures
        ({
            let after = row.set_message(message, album, messages);
            let count = row.actions.len() as int;
            &&& after.message == Some(message)
            &&& after.album == Some(album)
            &&& after.tiles == messages
            &&& tiles_after(after.actions) == messages
            &&& after.actions[count] == AlbumAction::UpdateBubble
            &&& row.album matches Some(previous) ==> after.actions[count + 1]
                == AlbumAction::DisconnectAlbum(previous)
            &&& after.actions.contains(AlbumAction::UpdateCaption)
            &&& after.actions[after.actions.len() - 2] == AlbumAction::ConnectAlbum(album)
            &&& after.actions.last() == AlbumAction::NotifyMessage
        }),
{
    lemma_tiles_after();
    let updated = AlbumRowView { message: Some(message), ..row }.act(AlbumAction::UpdateBubble);
    let left = match updated.album {
        Some(previous) => updated.act(AlbumAction::DisconnectAlbum(previous)),
        None => updated,
    };
    let told = AlbumRowView { album: Some(album), ..left }.act(AlbumAction::UpdateCaption);
    let cleared = AlbumRowView { tiles: Seq::empty(), ..told.act(AlbumAction::ClearGrid) };
    lemma_appended_tiles_are_told(cleared, messages);
    lemma_actions_are_kept(cleared, messages);
    law_rendered_album_has_all_tiles(told, messages);
    let after = row.set_message(message, album, messages);
    let i = left.actions.len() as int;
    assert(cleared.actions[i] == AlbumAction::UpdateCaption);
    assert(after.actions[i] == AlbumAction::UpdateCaption);
    let count = row.actions.len() as int;
    assert(cleared.actions[count] == AlbumAction::UpdateBubble);
    assert(after.actions[count] == AlbumAction::UpdateBubble);
    if let Some(previous) = row.album {
        assert(cleared.actions[count + 1] == AlbumAction::DisconnectAlbum(previous));
        assert(after.actions[count + 1] == AlbumAction::DisconnectAlbum(previous));
    }
}

/// A row that gets another message of the album it has keeps its tiles.
pub proof fn law_row_takes_message(
    row: AlbumRowView,
    message: u64,
    album: u64,
    messages: Seq<MessageId>,
)
    requires
        row.album == Some(album),
        row.message != Some(message),
    ensures
        row.set_message(message, album, messages) == (AlbumRowView {
            message: Some(message),
            actions: row.actions + seq![AlbumAction::UpdateBubble, AlbumAction::NotifyMessage],
            ..row
        }),
{
    assert(row.actions.push(AlbumAction::UpdateBubble).push(AlbumAction::NotifyMessage)
        =~= row.actions + seq![AlbumAction::UpdateBubble, AlbumAction::NotifyMessage]);
}

} // verus!
