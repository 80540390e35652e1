use paper_plane::application::{color_scheme, AppAction, AppEffect, Application, ColorScheme};
use paper_plane::ui::sticker::{
    sticker_load, webm_fallback, Sticker, StickerAction, StickerChild, StickerData,
    StickerFallback, StickerFormat, StickerJob, StickerLoad, StickerPlay, StickerThumbnail,
};

#[test]
fn color_schemes_have_names() {
    assert_eq!(color_scheme("light"), ColorScheme::ForceLight);
    assert_eq!(color_scheme("dark"), ColorScheme::ForceDark);
    assert_eq!(color_scheme("default"), ColorScheme::PreferLight);
    assert_eq!(color_scheme(""), ColorScheme::PreferLight);
}

#[test]
fn main_window_is_created_once() {
    let mut app = Application::new();
    assert!(!app.has_window());
    app.activate();
    assert_eq!(
        app.take_effects(),
        [AppEffect::CreateWindow, AppEffect::OpenChats, AppEffect::PresentWindow],
    );
    assert!(app.has_window());
    app.activate();
    assert_eq!(app.take_effects(), [AppEffect::OpenChats, AppEffect::PresentWindow]);
}

#[test]
fn application_lives_on_in_the_background() {
    let mut app = Application::new();
    app.activate();
    app.take_effects();
    app.enter_background();
    app.enter_background();
    assert_eq!(app.take_effects(), [AppEffect::Hold]);
    app.run(AppAction::SelectChat { client_id: 2, chat_id: 9 });
    assert_eq!(
        app.take_effects(),
        [
            AppEffect::ReleaseHold,
            AppEffect::OpenChats,
            AppEffect::PresentWindow,
            AppEffect::ShowChat { client_id: 2, chat_id: 9 },
        ],
    );
}

#[test]
fn actions_have_effects() {
    let mut app = Application::new();
    app.activate();
    app.take_effects();
    app.run(AppAction::Quit);
    assert_eq!(app.take_effects(), [AppEffect::SaveWindowSize, AppEffect::Quit]);
    app.run(AppAction::About);
    assert_eq!(app.take_effects(), [AppEffect::ShowAboutDialog]);
    app.run(AppAction::NewLoginProductionServer);
    assert_eq!(app.take_effects(), [AppEffect::AddClient { use_test_server: false }]);
    app.run(AppAction::NewLoginTestServer);
    assert_eq!(app.take_effects(), [AppEffect::AddClient { use_test_server: true }]);
}

fn sticker(file_id: i32, is_downloading_completed: bool) -> StickerData {
    StickerData {
        file_id,
        is_downloading_completed,
        format: StickerFormat::Webm,
        snapshot: 1,
    }
}

#[test]
fn sticker_is_downloaded_when_it_is_shown() {
    let mut widget = Sticker::new();
    let job = StickerJob { sticker: sticker(4, false), looped: true };
    widget.update_sticker(job.sticker, job.looped, false);
    assert_eq!(
        widget.take_actions(),
        [StickerAction::ClearChild, StickerAction::UpdateAspectRatio],
    );
    widget.map();
    assert_eq!(widget.take_actions(), [StickerAction::Download(job)]);
    widget.map();
    assert_eq!(widget.take_actions(), []);
    widget.update_sticker(job.sticker, job.looped, true);
    assert_eq!(widget.take_actions(), []);
    let loaded = StickerJob { sticker: sticker(5, true), looped: false };
    widget.update_sticker(loaded.sticker, loaded.looped, false);
    assert_eq!(*widget.take_actions().last().unwrap(), StickerAction::Load(loaded));
}

#[test]
fn sticker_that_was_scrolled_past_is_not_downloaded() {
    let mut widget = Sticker::new();
    widget.update_sticker(sticker(4, false), true, false);
    widget.update_sticker(sticker(5, true), true, false);
    widget.take_actions();
    widget.map();
    assert_eq!(widget.take_actions(), []);
}

#[test]
fn recycled_widget_keeps_its_sticker() {
    let mut widget = Sticker::new();
    widget.update_sticker(sticker(4, true), true, true);
    assert!(!widget.handle_loaded(3, StickerChild::Picture));
    assert_eq!(widget.play_animation(false), None);
    assert!(widget.handle_loaded(4, StickerChild::WebmAnimation));
    assert_eq!(widget.play_animation(false), Some(StickerPlay::Replay));
    assert_eq!(widget.play_animation(true), None);
    widget.handle_loaded(4, StickerChild::VectorAnimation);
    assert_eq!(widget.play_animation(false), Some(StickerPlay::Play));
    widget.handle_loaded(4, StickerChild::Picture);
    assert_eq!(widget.play_animation(false), None);
}

#[test]
fn stickers_are_loaded_by_their_formats() {
    assert_eq!(
        sticker_load(StickerFormat::Tgs, true),
        StickerLoad::PlayVector { looped: true, is_cached: true },
    );
    assert_eq!(
        sticker_load(StickerFormat::Webm, false),
        StickerLoad::PlayWebm { looped: false },
    );
    assert_eq!(sticker_load(StickerFormat::Webp, false), StickerLoad::Decode);
    assert_eq!(webm_fallback(None), StickerFallback::Nothing);
    let thumbnail = |is_downloading_completed| {
        Some(StickerThumbnail { file_id: 8, is_downloading_completed })
    };
    assert_eq!(webm_fallback(thumbnail(true)), StickerFallback::Decode);
    assert_eq!(webm_fallback(thumbnail(false)), StickerFallback::Download(8));
}
