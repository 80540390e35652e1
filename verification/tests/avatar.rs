use paper_plane::ui::avatar::{
    avatar_color, default_icon, g_str_hash, hex_color, initials_from_normalized,
    initials_from_text, refresh_after, update_avatar, update_display_name, AvatarColor, AvatarIcon,
    AvatarImage, AvatarItem, AvatarPhoto, AvatarSignal, AvatarUpdate, DefaultIcon, Rgb,
};

fn user(is_deleted: bool, photo: Option<AvatarPhoto>) -> AvatarItem {
    AvatarItem::User {
        is_deleted,
        display_name: String::from("Ann Lee"),
        user_photo: photo,
    }
}

fn chat(is_own_chat: bool, title: &str) -> AvatarItem {
    AvatarItem::Chat { is_own_chat, title: String::from(title), chat_photo: None }
}

fn photo(is_downloading_completed: bool) -> Option<AvatarPhoto> {
    Some(AvatarPhoto { file_id: 6, is_downloading_completed })
}

#[test]
fn initials_are_taken_from_the_ends_of_a_name() {
    assert_eq!(initials_from_text("ann lee"), "AL");
    assert_eq!(initials_from_text("  ann maria lee \n"), "AL");
    assert_eq!(initials_from_text("ann"), "A");
    assert_eq!(initials_from_text(""), "");
    assert_eq!(initials_from_text("   "), "");
    assert_eq!(initials_from_text("émile zola"), "ÉZ");
    // The upper case of a letter can be several letters.
    assert_eq!(initials_from_text("ßa b"), "SB");
}

#[test]
fn initials_of_text_that_is_not_trimmed() {
    assert_eq!(initials_from_normalized("A "), "A");
    assert_eq!(initials_from_normalized(" "), " ");
    assert_eq!(initials_from_normalized(" B"), " B");
}

#[test]
fn hash_takes_bytes_as_signed_numbers() {
    assert_eq!(g_str_hash(""), 5381);
    assert_eq!(g_str_hash("a"), 5381 * 33 + 97);
    assert_eq!(g_str_hash("ab"), (5381 * 33 + 97) * 33 + 98);
    // The two bytes of this letter are 0xc3 and 0xa9.
    let expected: u32 = 5381u32
        .wrapping_mul(33)
        .wrapping_add(0xc3u8 as i8 as u32)
        .wrapping_mul(33)
        .wrapping_add(0xa9u8 as i8 as u32);
    assert_eq!(g_str_hash("é"), expected);
    let long = "a long text whose hash does not fit in thirty-two bits";
    let expected = long
        .bytes()
        .fold(5381u32, |hash, byte| hash.wrapping_mul(33).wrapping_add(u32::from(byte)));
    assert_eq!(g_str_hash(long), expected);
}

#[test]
fn color_is_picked_by_the_hash() {
    // 5381 % 14 == 5
    let gold = AvatarColor { foreground: 0xffead1, top: 0xffcb62, bottom: 0xd68400 };
    assert_eq!(avatar_color(""), gold);
    // 177670 % 14 == 10
    let violet = AvatarColor { foreground: 0xd5d2f5, top: 0x9e91e8, bottom: 0x7a59ca };
    assert_eq!(avatar_color("a"), violet);
    assert_eq!(hex_color(0x7a59ca), Rgb { red: 0x7a, green: 0x59, blue: 0xca });
}

#[test]
fn photo_replaces_the_initials() {
    let update = |icon, show_initials, image| AvatarUpdate { icon, show_initials, image };
    assert_eq!(update_avatar(None), update(None, true, AvatarImage::Nothing));
    assert_eq!(
        update_avatar(Some(&user(false, photo(true)))),
        update(None, true, AvatarImage::Photo),
    );
    assert_eq!(
        update_avatar(Some(&user(false, photo(false)))),
        update(None, true, AvatarImage::Download(6)),
    );
    assert_eq!(
        update_avatar(Some(&chat(false, "Group"))),
        update(None, true, AvatarImage::Nothing),
    );
}

#[test]
fn icons_stand_for_deleted_users_and_the_own_chat() {
    let update = update_avatar(Some(&user(true, photo(true))));
    assert_eq!(update.icon.unwrap().name(), "ghost-symbolic");
    assert_eq!((update.show_initials, update.image), (false, AvatarImage::Nothing));
    let update = update_avatar(Some(&chat(true, "Me")));
    assert_eq!(update.icon.unwrap().name(), "user-bookmarks-symbolic");
    assert_eq!(update_display_name(Some(&chat(true, "Me"))).unwrap(), "-");
    assert_eq!(update_display_name(Some(&user(true, None))).unwrap(), "Ann Lee");
    assert_eq!(update_display_name(None), None);
}

#[test]
fn changes_refresh_what_they_are_about() {
    let refreshed = |signal| {
        let refresh = refresh_after(signal);
        (refresh.display_name, refresh.avatar)
    };
    assert_eq!(refreshed(AvatarSignal::UserType), (true, true));
    assert_eq!(refreshed(AvatarSignal::UserFirstName), (true, false));
    assert_eq!(refreshed(AvatarSignal::UserLastName), (true, false));
    assert_eq!(refreshed(AvatarSignal::UserAvatar), (false, true));
    assert_eq!(refreshed(AvatarSignal::ChatTitle), (true, false));
    assert_eq!(refreshed(AvatarSignal::ChatAvatar), (false, true));
}

#[test]
fn default_icon_shows_initials() {
    match default_icon(&chat(false, "book club")) {
        DefaultIcon::Initials { initials, color } => {
            assert_eq!(initials, "BC");
            assert_eq!(color, avatar_color("book club"));
        }
        DefaultIcon::Themed(_) => panic!("the initials are shown"),
    }
    assert!(matches!(
        default_icon(&chat(true, "Me")),
        DefaultIcon::Themed(AvatarIcon::Bookmarks)
    ));
}
