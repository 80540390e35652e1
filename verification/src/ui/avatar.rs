//! The avatar of a user or of a chat.

use vstd::prelude::*;
use vstd::string::*;
use vstd::utf8::*;

verus! {

/// An icon that is shown instead of the initials.
#[derive(Clone, Copy, Debug, PartialEq, Eq, Structural)]
pub enum AvatarIcon {
    /// The icon of a user that was deleted.
    Deleted,
    /// The icon of the chat of the user with themselves.
    Bookmarks,
}

impl AvatarIcon {
    pub open spec fn name_of(self) -> Seq<char> {
        match self {
            AvatarIcon::Deleted => "ghost-symbolic"@,
            AvatarIcon::Bookmarks => "user-bookmarks-symbolic"@,
        }
    }

    /// The name of the icon in the icon theme.
    pub fn name(&self) -> (name: &'static str)
        ensures
            name@ == self.name_of(),
    {
        match self {
            AvatarIcon::Deleted => "ghost-symbolic",
            AvatarIcon::Bookmarks => "user-bookmarks-symbolic",
        }
    }
}

/// The file of a photo.
#[derive(Clone, Copy, Debug, PartialEq, Eq, Structural)]
pub struct AvatarPhoto {
    pub file_id: i32,
    pub is_downloading_completed: bool,
}

/// Who or what an avatar stands for.
#[derive(Debug)]
pub enum AvatarItem {
    User { is_deleted: bool, display_name: String, user_photo: Option<AvatarPhoto> },
    Chat { is_own_chat: bool, title: String, chat_photo: Option<AvatarPhoto> },
}

/// How an avatar looks when there is no photo to display.
#[derive(Debug)]
pub struct AvatarAppearance {
    pub icon: Option<AvatarIcon>,
    pub text: String,
    pub show_initials: bool,
}

/// How an avatar looks when there is no photo to display.
pub struct AvatarAppearanceView {
    pub icon: Option<AvatarIcon>,
    pub text: Seq<char>,
    pub show_initials: bool,
}

impl View for AvatarAppearance {
    type V = AvatarAppearanceView;

    open spec fn view(&self) -> AvatarAppearanceView {
        AvatarAppearanceView {
            icon: self.icon,
            text: self.text@,
            show_initials: self.show_initials,
        }
    }
}

/// What the image of an avatar becomes.
#[derive(Clone, Copy, Debug, PartialEq, Eq, Structural)]
pub enum AvatarImage {
    /// There is none.
    Nothing,
    /// The photo that was downloaded.
    Photo,
    /// The photo with the given id, once it is downloaded.
    Download(i32),
}

/// What an avatar becomes.
#[derive(Clone, Copy, Debug, PartialEq, Eq, Structural)]
pub struct AvatarUpdate {
    pub icon: Option<AvatarIcon>,
    pub show_initials: bool,
    pub image: AvatarImage,
}

impl AvatarItem {
    pub open spec fn appearance_of(self) -> AvatarAppearanceView {
        match self {
            AvatarItem::User { is_deleted, display_name, .. } => AvatarAppearanceView {
                icon: if is_deleted {
                    Some(AvatarIcon::Deleted)
                } else {
                    None
                },
                text: display_name@,
                show_initials: !is_deleted,
            },
            AvatarItem::Chat { is_own_chat, title, .. } => if is_own_chat {
                AvatarAppearanceView {
                    icon: Some(AvatarIcon::Bookmarks),
                    text: "-"@,
                    show_initials: false,
                }
            } else {
                AvatarAppearanceView { icon: None, text: title@, show_initials: true }
            },
        }
    }

    pub open spec fn photo_of(self) -> Option<AvatarPhoto> {
        match self {
            AvatarItem::User { user_photo, .. } => user_photo,
            AvatarItem::Chat { chat_photo, .. } => chat_photo,
        }
    }

    /// How the avatar looks when there is no photo to display.
    pub fn appearance(&self) -> (appearance: AvatarAppearance)
        ensures
            appearance@ == self.appearance_of(),
    {
        match self {
            AvatarItem::User { is_deleted, display_name, .. } => {
                let icon = if *is_deleted {
                    Some(AvatarIcon::Deleted)
                } else {
                    None
                };
                AvatarAppearance { icon, text: display_name.clone(), show_initials: !*is_deleted }
            },
            AvatarItem::Chat { is_own_chat, title, .. } => {
                if *is_own_chat {
                    AvatarAppearance {
                        icon: Some(AvatarIcon::Bookmarks),
                        text: "-".to_owned(),
                        show_initials: false,
                    }
                } else {
                    AvatarAppearance { icon: None, text: title.clone(), show_initials: true }
                }
            },
        }
    }

    fn photo(&self) -> (photo: Option<AvatarPhoto>)
        ensures
            photo == self.photo_of(),
    {
        match self {
            AvatarItem::User { user_photo, .. } => *user_photo,
            AvatarItem::Chat { chat_photo, .. } => *chat_photo,
        }
    }
}

/// What the image becomes for the given photo.
pub open spec fn image_of(photo: Option<AvatarPhoto>) -> AvatarImage {
    match photo {
        Some(photo) => if photo.is_downloading_completed {
            AvatarImage::Photo
        } else {
            AvatarImage::Download(photo.file_id)
        },
        None => AvatarImage::Nothing,
    }
}

fn load_image(photo: Option<AvatarPhoto>) -> (image: AvatarImage)
    ensures
        image == image_of(photo),
{
    match photo {
        Some(photo) => {
            if photo.is_downloading_completed {
                AvatarImage::Photo
            } else {
                AvatarImage::Download(photo.file_id)
            }
        },
        None => AvatarImage::Nothing,
    }
}

/// What an avatar becomes. A photo replaces the default appearance, unless
/// there is an icon.
pub fn update_avatar(item: Option<&AvatarItem>) -> (update: AvatarUpdate)
    ensures
        update == match item {
            Some(item) => (AvatarUpdate {
                icon: item.appearance_of().icon,
                show_initials: item.appearance_of().show_initials,
                image: if item.appearance_of().icon is None {
                    image_of(item.photo_of())
                } else {
                    AvatarImage::Nothing
                },
            }),
            None => (AvatarUpdate {
                icon: None,
                show_initials: true,
                image: AvatarImage::Nothing,
            }),
        },
{
    match item {
        Some(item) => {
            let appearance = item.appearance();
            let image = if appearance.icon.is_none() {
                load_image(item.photo())
            } else {
                AvatarImage::Nothing
            };
            AvatarUpdate {
                icon: appearance.icon,
                show_initials: appearance.show_initials,
                image,
            }
        },
        None => AvatarUpdate { icon: None, show_initials: true, image: AvatarImage::Nothing },
    }
}

/// The text that the initials are taken from, unless it stays as it is.
pub fn update_display_name(item: Option<&AvatarItem>) -> (text: Option<String>)
    ensures
        match (item, text) {
            (Some(item), Some(text)) => text@ == item.appearance_of().text,
            (None, None) => true,
            _ => false,
        },
{
    match item {
        Some(item) => Some(item.appearance().text),
        None => None,
    }
}

/// Something that changed about the item of an avatar.
#[derive(Clone, Copy, Debug, PartialEq, Eq, Structural)]
pub enum AvatarSignal {
    UserType,
    UserFirstName,
    UserLastName,
    UserAvatar,
    ChatTitle,
    ChatAvatar,
}

/// What has to be updated about an avatar.
#[derive(Clone, Copy, Debug, PartialEq, Eq, Structural)]
pub struct AvatarRefresh {
    pub display_name: bool,
    pub avatar: bool,
}

/// What has to be updated after something changed.
pub fn refresh_after(signal: AvatarSignal) -> (refresh: AvatarRefresh)
    ensures
        refresh.display_name == !(signal == AvatarSignal::UserAvatar || signal
            == AvatarSignal::ChatAvatar),
        refresh.avatar == (signal == AvatarSignal::UserType || signal == AvatarSignal::UserAvatar
            || signal == AvatarSignal::ChatAvatar),
{
    match signal {
        AvatarSignal::UserType => AvatarRefresh { display_name: true, avatar: true },
        AvatarSignal::UserFirstName | AvatarSignal::UserLastName | AvatarSignal::ChatTitle => {
            AvatarRefresh { display_name: true, avatar: false }
        },
        AvatarSignal::UserAvatar | AvatarSignal::ChatAvatar => AvatarRefresh {
            display_name: false,
            avatar: true,
        },
    }
}

/// The colors of an avatar: that of the initials, and those of the background
/// at the top and at the bottom. They are written as in a stylesheet, with
/// eight bits each for red, green and blue.
#[derive(Clone, Copy, Debug, PartialEq, Eq, Structural)]
pub struct AvatarColor {
    pub foreground: u32,
    pub top: u32,
    pub bottom: u32,
}

/// The number of colors of avatars.
pub const COLOR_COUNT: u32 = 14;

/// The avatar palette from the Adwaita stylesheet.
pub open spec fn palette(index: int) -> AvatarColor {
    if index == 0 {
        // blue
        AvatarColor { foreground: 0xcfe1f5, top: 0x83b6ec, bottom: 0x337fdc }
    } else if index == 1 {
        // cyan
        AvatarColor { foreground: 0xcaeaf2, top: 0x7ad9f1, bottom: 0x0f9ac8 }
    } else if index == 2 {
        // green
        AvatarColor { foreground: 0xcef8d8, top: 0x8de6b1, bottom: 0x29ae74 }
    } else if index == 3 {
        // lime
        AvatarColor { foreground: 0xe6f9d7, top: 0xb5e98a, bottom: 0x6ab85b }
    } else if index == 4 {
        // yellow
        AvatarColor { foreground: 0xf9f4e1, top: 0xf8e359, bottom: 0xd29d09 }
    } else if index == 5 {
        // gold
        AvatarColor { foreground: 0xffead1, top: 0xffcb62, bottom: 0xd68400 }
    } else if index == 6 {
        // orange
        AvatarColor { foreground: 0xffe5c5, top: 0xffa95a, bottom: 0xed5b00 }
    } else if index == 7 {
        // raspberry
        AvatarColor { foreground: 0xf8d2ce, top: 0xf78773, bottom: 0xe62d42 }
    } else if index == 8 {
        // magenta
        AvatarColor { foreground: 0xfac7de, top: 0xe973ab, bottom: 0xe33b6a }
    } else if index == 9 {
        // purple
        AvatarColor { foreground: 0xe7c2e8, top: 0xcb78d4, bottom: 0x9945b5 }
    } else if index == 10 {
        // violet
        AvatarColor { foreground: 0xd5d2f5, top: 0x9e91e8, bottom: 0x7a59ca }
    } else if index == 11 {
        // beige
        AvatarColor { foreground: 0xf2eade, top: 0xe3cf9c, bottom: 0xb08952 }
    } else if index == 12 {
        // brown
        AvatarColor { foreground: 0xe5d6ca, top: 0xbe916d, bottom: 0x785336 }
    } else {
        // gray
        AvatarColor { foreground: 0xd8d7d3, top: 0xc0bfbc, bottom: 0x6e6d71 }
    }
}

fn palette_color(index: u32) -> (color: AvatarColor)
    requires
        index < COLOR_COUNT,
    ensures
        color == palette(index as int),
{
    match index {
        0 => AvatarColor { foreground: 0xcfe1f5, top: 0x83b6ec, bottom: 0x337fdc },
        1 => AvatarColor { foreground: 0xcaeaf2, top: 0x7ad9f1, bottom: 0x0f9ac8 },
        2 => AvatarColor { foreground: 0xcef8d8, top: 0x8de6b1, bottom: 0x29ae74 },
        3 => AvatarColor { foreground: 0xe6f9d7, top: 0xb5e98a, bottom: 0x6ab85b },
        4 => AvatarColor { foreground: 0xf9f4e1, top: 0xf8e359, bottom: 0xd29d09 },
        5 => AvatarColor { foreground: 0xffead1, top: 0xffcb62, bottom: 0xd68400 },
        6 => AvatarColor { foreground: 0xffe5c5, top: 0xffa95a, bottom: 0xed5b00 },
        7 => AvatarColor { foreground: 0xf8d2ce, top: 0xf78773, bottom: 0xe62d42 },
        8 => AvatarColor { foreground: 0xfac7de, top: 0xe973ab, bottom: 0xe33b6a },
        9 => AvatarColor { foreground: 0xe7c2e8, top: 0xcb78d4, bottom: 0x9945b5 },
        10 => AvatarColor { foreground: 0xd5d2f5, top: 0x9e91e8, bottom: 0x7a59ca },
        11 => AvatarColor { foreground: 0xf2eade, top: 0xe3cf9c, bottom: 0xb08952 },
        12 => AvatarColor { foreground: 0xe5d6ca, top: 0xbe916d, bottom: 0x785336 },
        _ => AvatarColor { foreground: 0xd8d7d3, top: 0xc0bfbc, bottom: 0x6e6d71 },
    }
}

/// The byte as a signed number.
pub open spec fn signed_byte(byte: u8) -> int {
    if byte < 128 {
        byte as int
    } else {
        byte - 256
    }
}

/// GLib's hash of the bytes of a text: it begins with 5381, and for every byte
/// it is multiplied by 33 and the signed value of the byte is added, in
/// numbers of 32 bits.
pub open spec fn hash_of(bytes: Seq<u8>) -> int
    decreases bytes.len(),
{
    if bytes.len() == 0 {
        5381
    } else {
        (hash_of(bytes.drop_last()) * 33 + signed_byte(bytes.last())) % 0x1_0000_0000
    }
}

/// The same as GLib's `g_str_hash`, which libadwaita uses to pick the avatar
/// color.
pub fn g_str_hash(text: &str) -> (hash: u32)
    ensures
        hash == hash_of(encode_utf8(text@)),
{
    let bytes = text.as_bytes();
    let mut hash: u32 = 5381;
    let mut i: usize = 0;
    assert(bytes@.take(0) =~= Seq::empty());
    while i < bytes.len()
        invariant
            i <= bytes@.len(),
            hash == hash_of(bytes@.take(i as int)),
        decreases bytes@.len() - i,
    {
        let byte = bytes[i];
        // The bits of the signed value of the byte.
        let value: u64 = if byte < 128 {
            byte as u64
        } else {
            byte as u64 + 0xffff_ff00
        };
        proof {
            assert(bytes@.take(i + 1).drop_last() =~= bytes@.take(i as int));
            let product = hash as int * 33;
            assert((product + value) % 0x1_0000_0000 == (product + signed_byte(byte))
                % 0x1_0000_0000);
        }
        hash = ((hash as u64 * 33 + value) % 0x1_0000_0000) as u32;
        i = i + 1;
    }
    assert(bytes@.take(i as int) =~= bytes@);
    hash
}

/// The colors of the avatar with the given text.
pub fn avatar_color(text: &str) -> (color: AvatarColor)
    ensures
        color == palette(hash_of(encode_utf8(text@)) % 14),
{
    palette_color(g_str_hash(text) % COLOR_COUNT)
}

/// A color, with one byte each for red, green and blue.
#[derive(Clone, Copy, Debug, PartialEq, Eq, Structural)]
pub struct Rgb {
    pub red: u8,
    pub green: u8,
    pub blue: u8,
}

/// The parts of a color that is written as in a stylesheet.
pub fn hex_color(color: u32) -> (rgb: Rgb)
    ensures
        rgb.red == (color / 0x10000) % 0x100,
        rgb.green == (color / 0x100) % 0x100,
        rgb.blue == color % 0x100,
{
    Rgb {
        red: ((color / 0x10000) % 0x100) as u8,
        green: ((color / 0x100) % 0x100) as u8,
        blue: (color % 0x100) as u8,
    }
}

/// Whether a character is whitespace, as `str::trim` has it.
pub uninterp spec fn is_whitespace(character: char) -> bool;

/// The text without the whitespace at its beginning and at its end.
pub open spec fn trimmed(text: Seq<char>) -> Seq<char>
    decreases text.len(),
{
    if text.len() == 0 {
        text
    } else if is_whitespace(text.first()) {
        trimmed(text.drop_first())
    } else if is_whitespace(text.last()) {
        trimmed(text.drop_last())
    } else {
        text
    }
}

/// The text in upper case, as `str::to_uppercase` gives it.
pub uninterp spec fn uppercased(text: Seq<char>) -> Seq<char>;

/// Calls `str::trim`, which takes the whitespace away from both ends of a text.
/// Which characters are whitespace is up to it. What is left neither begins nor
/// ends with whitespace.
#[verifier::external_body]
fn trim(text: &str) -> (result: &str)
    ensures
        result@ == trimmed(text@),
        result@.len() > 0 ==> !is_whitespace(result@.first()) && !is_whitespace(result@.last()),
{
    text.trim()
}

/// Calls `str::to_uppercase`, which gives the upper case equivalent of a text.
/// The upper case of a character is up to it, and can be several characters.
#[verifier::external_body]
fn to_uppercase(text: &str) -> (result: String)
    ensures
        result@ == uppercased(text@),
{
    text.to_uppercase()
}

/// The position of the last space, or -1 if there is none.
pub open spec fn last_space(text: Seq<char>) -> int
    decreases text.len(),
{
    if text.len() == 0 {
        -1
    } else if text.last() == ' ' {
        text.len() - 1
    } else {
        last_space(text.drop_last())
    }
}

/// The first character and the character after the last space, as far as there
/// are such characters.
pub open spec fn initials_of(normalized: Seq<char>) -> Seq<char> {
    let first = if normalized.len() > 0 {
        normalized.take(1)
    } else {
        normalized
    };
    let space = last_space(normalized);
    if space >= 0 && space + 1 < normalized.len() {
        first.push(normalized[space + 1])
    } else {
        first
    }
}

/// The initials in a text that was trimmed and is in upper case.
pub fn initials_from_normalized(normalized: &str) -> (initials: String)
    ensures
        initials@ == initials_of(normalized@),
{
    let len = normalized.unicode_len();
    let mut initials = if len > 0 {
        normalized.substring_char(0, 1).to_owned()
    } else {
        String::new()
    };
    assert(len > 0 ==> normalized@.subrange(0, 1) =~= normalized@.take(1));
    assert(len == 0 ==> normalized@ =~= Seq::empty());
    let ghost first = initials@;
    let mut i: usize = len;
    assert(normalized@.take(len as int) =~= normalized@);
    while i > 0
        invariant
            i <= len,
            len == normalized@.len(),
            initials@ == first,
            first == if len > 0 {
                normalized@.take(1)
            } else {
                normalized@
            },
            last_space(normalized@) == last_space(normalized@.take(i as int)),
        decreases i,
    {
        assert(normalized@.take(i as int).drop_last() =~= normalized@.take(i - 1));
        if normalized.get_char(i - 1) == ' ' {
            if i < len {
                initials.append(normalized.substring_char(i, i + 1));
                assert(initials@ =~= initials_of(normalized@));
            }
            return initials;
        }
        i = i - 1;
    }
    initials
}

/// The same as libadwaita's `extract_initials_from_text`: the first character
/// and the character after the last space, uppercased.
pub fn initials_from_text(text: &str) -> (initials: String)
    ensures
        initials@ == initials_of(uppercased(trimmed(text@))),
{
    let normalized = to_uppercase(trim(text));
    initials_from_normalized(normalized.as_str())
}

/// The default avatar of a chat, e.g. for use in notifications.
#[derive(Debug)]
pub enum DefaultIcon {
    Themed(AvatarIcon),
    /// The initials of a text, in the colors of the text.
    Initials { initials: String, color: AvatarColor },
}

/// The default photo-less avatar for an item, e.g. for use in notifications.
pub fn default_icon(item: &AvatarItem) -> (icon: DefaultIcon)
    ensures
        match icon {
            DefaultIcon::Themed(icon) => item.appearance_of().icon == Some(icon),
            DefaultIcon::Initials { initials, color } => {
                &&& item.appearance_of().icon is None
                &&& initials@ == initials_of(uppercased(trimmed(item.appearance_of().text)))
                &&& color == palette(hash_of(encode_utf8(item.appearance_of().text)) % 14)
            },
        },
{
    let appearance = item.appearance();
    match appearance.icon {
        Some(icon) => DefaultIcon::Themed(icon),
        None => {
            let text = appearance.text.as_str();
            let color = avatar_color(text);
            let initials = initials_from_text(text);
            DefaultIcon::Initials { initials, color }
        },
    }
}

/// Whether everything in front of `start` and from `end` on is whitespace.
pub open spec fn is_blank_around(text: Seq<char>, start: int, end: int) -> bool {
    &&& 0 <= start <= end <= text.len()
    &&& forall|i: int|
        0 <= i < start || end <= i < text.len() ==> is_whitespace(#[trigger] text[i])
}

/// Trimming a text takes nothing but whitespace away, at its beginning and at
/// its end, and leaves none there.
pub proof fn law_trimmed_text(text: Seq<char>)
    ensures
        exists|start: int, end: int| #[trigger]
            is_blank_around(text, start, end) && trimmed(text) == text.subrange(start, end),
        trimmed(text).len() > 0 ==> !is_whitespace(trimmed(text).first()) && !is_whitespace(
            trimmed(text).last(),
        ),
    decreases text.len(),
{
    if text.len() == 0 {
        assert(is_blank_around(text, 0, 0));
        assert(text.subrange(0, 0) =~= text);
    } else if is_whitespace(text.first()) {
        let rest = text.drop_first();
        law_trimmed_text(rest);
        let (start, end) = choose|start: int, end: int| #[trigger]
            is_blank_around(rest, start, end) && trimmed(rest) == rest.subrange(start, end);
        assert(rest.subrange(start, end) =~= text.subrange(start + 1, end + 1));
        assert(is_blank_around(text, start + 1, end + 1)) by {
            assert forall|i: int|
                0 <= i < start + 1 || end + 1 <= i < text.len() implies is_whitespace(
                #[trigger] text[i],
            ) by {
                if i > 0 {
                    assert(text[i] == rest[i - 1]);
                }
            }
        }
    } else if is_whitespace(text.last()) {
        let rest = text.drop_last();
        law_trimmed_text(rest);
        let (start, end) = choose|start: int, end: int| #[trigger]
            is_blank_around(rest, start, end) && trimmed(rest) == rest.subrange(start, end);
        assert(rest.subrange(start, end) =~= text.subrange(start, end));
        assert(is_blank_around(text, start, end)) by {
            assert forall|i: int| 0 <= i < start || end <= i < text.len() implies is_whitespace(
                #[trigger] text[i],
            ) by {
                if i + 1 < text.len() {
                    assert(text[i] == rest[i]);
                }
            }
        }
    } else {
        assert(is_blank_around(text, 0, text.len() as int));
        assert(text.subrange(0, text.len() as int) =~= text);
    }
}

/// An avatar shows initials if and only if it has no icon.
pub proof fn law_icon_replaces_initials(item: AvatarItem)
    ensures
        item.appearance_of().icon is Some <==> !item.appearance_of().show_initials,
{
}

/// There are at most two initials.
pub proof fn law_at_most_two_initials(normalized: Seq<char>)
    ensures
        initials_of(normalized).len() <= 2,
        initials_of(normalized).len() == 0 <==> normalized.len() == 0,
{
    lemma_last_space(normalized);
}

proof fn lemma_last_space(text: Seq<char>)
    ensures
        -1 <= last_space(text) < text.len(),
        last_space(text) >= 0 ==> text[last_space(text)] == ' ',
        forall|i: int| last_space(text) < i < text.len() ==> text[i] != ' ',
    decreases text.len(),
{
    if text.len() > 0 && text.last() != ' ' {
        let before = text.drop_last();
        lemma_last_space(before);
        assert forall|i: int| last_space(text) < i < text.len() implies text[i] != ' ' by {
            if i < before.len() {
                assert(before[i] == text[i]);
            }
        }
    }
}

/// The second initial is the first character of the last word, which holds no
/// space itself.
pub proof fn law_second_initial_begins_last_word(normalized: Seq<char>, i: int)
    requires
        initials_of(normalized).len() == 2,
        last_space(normalized) < i < normalized.len(),
    ensures
        normalized[last_space(normalized)] == ' ',
        normalized[i] != ' ',
        initials_of(normalized)[1] == normalized[last_space(normalized) + 1],
{
    lemma_last_space(normalized);
}

/// A user is shown by their name, or by the icon of deleted users if they are
/// one. A chat is shown by its title, or by the icon of bookmarks if it is the
/// chat of the user with themselves.
pub proof fn law_appearance_fits_item(item: AvatarItem)
    ensures
        item matches AvatarItem::User { is_deleted, display_name, .. } ==> {
            &&& item.appearance_of().text == display_name@
            &&& item.appearance_of().show_initials == !is_deleted
            &&& item.appearance_of().icon == if is_deleted {
                Some(AvatarIcon::Deleted)
            } else {
                None
            }
        },
        item matches AvatarItem::Chat { is_own_chat, title, .. } ==> {
            &&& !is_own_chat ==> item.appearance_of().text == title@
            &&& item.appearance_of().show_initials == !is_own_chat
            &&& item.appearance_of().icon == if is_own_chat {
                Some(AvatarIcon::Bookmarks)
            } else {
                None
            }
        },
{
}

/// The photo is the own one of the user or the chat.
pub proof fn law_photo_fits_item(item: AvatarItem)
    ensures
        item matches AvatarItem::User { user_photo, .. } ==> item.photo_of() == user_photo,
        item matches AvatarItem::Chat { chat_photo, .. } ==> item.photo_of() == chat_photo,
{
}

/// A photo that is downloaded is shown, another one is downloaded, and without
/// a photo there is no image.
pub proof fn law_image_fits_photo(photo: AvatarPhoto)
    ensures
        image_of(None) == AvatarImage::Nothing,
        photo.is_downloading_completed ==> image_of(Some(photo)) == AvatarImage::Photo,
        !photo.is_downloading_completed ==> image_of(Some(photo)) == AvatarImage::Download(
            photo.file_id,
        ),
{
}

/// The icons are those of deleted users and of bookmarks.
pub proof fn law_icons_have_names()
    ensures
        AvatarIcon::Deleted.name_of() == "ghost-symbolic"@,
        AvatarIcon::Bookmarks.name_of() == "user-bookmarks-symbolic"@,
{
}

/// No two avatar colors are the same.
pub proof fn law_colors_are_distinct(i: int, j: int)
    requires
        0 <= i < j < COLOR_COUNT,
    ensures
        palette(i) != palette(j),
        palette(i).foreground != palette(j).foreground,
        palette(i).top != palette(j).top,
        palette(i).bottom != palette(j).bottom,
{
}

/// The hash of a text begins with 5381. Each byte that is appended is added to
/// 33 times the hash, as a signed number and in 32 bits.
pub proof fn law_hash_takes_every_byte(bytes: Seq<u8>, byte: u8)
    ensures
        hash_of(Seq::empty()) == 5381,
        0 <= hash_of(bytes) < 0x1_0000_0000,
        byte < 128 ==> hash_of(bytes.push(byte)) == (hash_of(bytes) * 33 + byte) % 0x1_0000_0000,
        byte >= 128 ==> hash_of(bytes.push(byte)) == (hash_of(bytes) * 33 + byte - 256)
            % 0x1_0000_0000,
{
    assert(bytes.push(byte).drop_last() =~= bytes);
}

/// The first initial is the first character of the text. There is a second one
/// if and only if there is something behind the last space, which it is the
/// first character of.
pub proof fn law_initials_begin_words(normalized: Seq<char>)
    ensures
        normalized.len() > 0 ==> initials_of(normalized)[0] == normalized[0],
        forall|i: int|
            0 <= i && i + 1 < normalized.len() && #[trigger] normalized[i] == ' ' && (forall|k: int|
                i < k < normalized.len() ==> normalized[k] != ' ') ==> initials_of(
                normalized,
            ).len() == 2 && initials_of(normalized)[1] == normalized[i + 1],
        initials_of(normalized).len() == 2 ==> exists|i: int|
            0 <= i && i + 1 < normalized.len() && #[trigger] normalized[i] == ' ',
{
    lemma_last_space(normalized);
    let space = last_space(normalized);
    assert forall|i: int|
        0 <= i && i + 1 < normalized.len() && #[trigger] normalized[i] == ' ' && (forall|k: int|
            i < k < normalized.len() ==> normalized[k] != ' ') implies initials_of(
        normalized,
    ).len() == 2 && initials_of(normalized)[1] == normalized[i + 1] by {
        if space < i {
            assert(normalized[i] != ' ');
        } else if space > i {
            assert(normalized[space] == ' ');
        }
    }
    if initials_of(normalized).len() == 2 {
        assert(normalized[space] == ' ');
    }
}

} // verus!
