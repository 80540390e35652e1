//! A sticker, which is a picture or an animation.

use vstd::prelude::*;

verus! {

/// The format of a sticker.
#[derive(Clone, Copy, Debug, PartialEq, Eq, Structural)]
pub enum StickerFormat {
    Tgs,
    Webm,
    Webp,
}

/// A sticker as TDLib describes it.
#[derive(Clone, Copy, Debug, PartialEq, Eq, Structural)]
pub struct StickerData {
    pub file_id: i32,
    pub is_downloading_completed: bool,
    pub format: StickerFormat,
    /// Stands for everything else there is to know about the sticker.
    pub snapshot: u64,
}

/// A sticker that is to be shown, looped or not.
#[derive(Clone, Copy, Debug, PartialEq, Eq, Structural)]
pub struct StickerJob {
    pub sticker: StickerData,
    pub looped: bool,
}

/// What shows a sticker.
#[derive(Clone, Copy, Debug, PartialEq, Eq, Structural)]
pub enum StickerChild {
    VectorAnimation,
    WebmAnimation,
    Picture,
}

/// Something that the widget has to do.
#[derive(Clone, Copy, Debug, PartialEq, Eq, Structural)]
pub enum StickerAction {
    /// Show nothing.
    ClearChild,
    /// Take the aspect ratio from the sticker.
    UpdateAspectRatio,
    /// Load the file of the sticker, which is downloaded.
    Load(StickerJob),
    /// Download the file of the sticker and load it.
    Download(StickerJob),
}

/// How the file of a sticker is loaded.
#[derive(Clone, Copy, Debug, PartialEq, Eq, Structural)]
pub enum StickerLoad {
    /// Play a vector animation, looped and with a cache, or neither.
    PlayVector { looped: bool, is_cached: bool },
    /// Play a WebM animation, and show the thumbnail if that fails.
    PlayWebm { looped: bool },
    /// Decode an image.
    Decode,
}

/// How a sticker whose animation failed to play is shown.
#[derive(Clone, Copy, Debug, PartialEq, Eq, Structural)]
pub enum StickerFallback {
    Nothing,
    /// Decode the thumbnail, which is downloaded.
    Decode,
    /// Download the thumbnail with the given id and decode it.
    Download(i32),
}

/// What makes an animation play again.
#[derive(Clone, Copy, Debug, PartialEq, Eq, Structural)]
pub enum StickerPlay {
    Play,
    Replay,
}

/// The file of a thumbnail.
#[derive(Clone, Copy, Debug, PartialEq, Eq, Structural)]
pub struct StickerThumbnail {
    pub file_id: i32,
    pub is_downloading_completed: bool,
}

/// The state of the widget.
#[derive(Debug)]
pub struct Sticker {
    file_id: i32,
    child: Option<StickerChild>,
    /// The sticker to download when the widget is shown, so that stickers that
    /// are only scrolled past are not downloaded.
    pending_download: Option<StickerJob>,
    actions: Vec<StickerAction>,
}

/// The state of the widget.
#[verifier::ext_equal]
pub struct StickerView {
    pub file_id: i32,
    pub child: Option<StickerChild>,
    pub pending: Option<StickerJob>,
    pub actions: Seq<StickerAction>,
}

impl View for Sticker {
    type V = StickerView;

    closed spec fn view(&self) -> StickerView {
        StickerView {
            file_id: self.file_id,
            child: self.child,
            pending: self.pending_download,
            actions: self.actions@,
        }
    }
}

impl StickerView {
    /// The sticker that waits for its download is the one that the widget is
    /// to show, and it is not downloaded yet.
    pub open spec fn wf(self) -> bool {
        self.pending matches Some(job) ==> job.sticker.file_id == self.file_id
            && !job.sticker.is_downloading_completed
    }

    pub open spec fn act(self, action: StickerAction) -> StickerView {
        StickerView { actions: self.actions.push(action), ..self }
    }

    /// The state after the pending download was started, if the widget is
    /// shown.
    pub open spec fn maybe_start_download(self, is_mapped: bool) -> StickerView {
        if !is_mapped {
            self
        } else {
            match self.pending {
                Some(job) => StickerView { pending: None, ..self }.act(
                    StickerAction::Download(job),
                ),
                None => self,
            }
        }
    }

    /// The state after a sticker was set.
    pub open spec fn update_sticker(
        self,
        sticker: StickerData,
        looped: bool,
        is_mapped: bool,
    ) -> StickerView {
        let job = StickerJob { sticker, looped };
        if self.file_id == sticker.file_id {
            self
        } else {
            let fresh = StickerView {
                file_id: sticker.file_id,
                child: None,
                pending: None,
                ..self
            }.act(StickerAction::ClearChild).act(StickerAction::UpdateAspectRatio);
            if sticker.is_downloading_completed {
                fresh.act(StickerAction::Load(job))
            } else {
                StickerView { pending: Some(job), ..fresh }.maybe_start_download(is_mapped)
            }
        }
    }

    /// The state after the sticker with the given file was loaded.
    pub open spec fn loaded(self, file_id: i32, child: StickerChild) -> StickerView {
        if self.file_id == file_id {
            StickerView { child: Some(child), ..self }
        } else {
            self
        }
    }
}

/// How the file of a sticker is loaded.
pub fn sticker_load(format: StickerFormat, looped: bool) -> (load: StickerLoad)
    ensures
        load == match format {
            StickerFormat::Tgs => (StickerLoad::PlayVector { looped, is_cached: looped }),
            StickerFormat::Webm => (StickerLoad::PlayWebm { looped }),
            StickerFormat::Webp => StickerLoad::Decode,
        },
{
    match format {
        StickerFormat::Tgs => StickerLoad::PlayVector { looped, is_cached: looped },
        StickerFormat::Webm => StickerLoad::PlayWebm { looped },
        StickerFormat::Webp => StickerLoad::Decode,
    }
}

/// How a sticker whose animation failed to play is shown.
pub fn webm_fallback(thumbnail: Option<StickerThumbnail>) -> (fallback: StickerFallback)
    ensures
        fallback == match thumbnail {
            Some(thumbnail) => if thumbnail.is_downloading_completed {
                StickerFallback::Decode
            } else {
                StickerFallback::Download(thumbnail.file_id)
            },
            None => StickerFallback::Nothing,
        },
{
    match thumbnail {
        Some(thumbnail) => {
            if thumbnail.is_downloading_completed {
                StickerFallback::Decode
            } else {
                StickerFallback::Download(thumbnail.file_id)
            }
        },
        None => StickerFallback::Nothing,
    }
}

impl Sticker {
    pub fn new() -> (sticker: Sticker)
        ensures
            sticker@.wf(),
            sticker@ == (StickerView {
                file_id: 0,
                child: None,
                pending: None,
                actions: Seq::empty(),
            }),
    {
        let sticker = Sticker {
            file_id: 0,
            child: None,
            pending_download: None,
            actions: Vec::new(),
        };
        assert(sticker@.actions =~= Seq::empty());
        sticker
    }

    fn act(&mut self, action: StickerAction)
        ensures
            final(self)@.wf() == old(self)@.wf(),
            final(self)@ == old(self)@.act(action),
    {
        self.actions.push(action);
    }

    /// Shows the given sticker.
    pub fn update_sticker(&mut self, sticker: StickerData, looped: bool, is_mapped: bool)
        requires
            old(self)@.wf(),
        ensures
            final(self)@.wf(),
            final(self)@ == old(self)@.update_sticker(sticker, looped, is_mapped),
    {
        if self.file_id == sticker.file_id {
            return;
        }
        self.file_id = sticker.file_id;
        self.child = None;
        // The previous sticker was only scrolled past.
        self.pending_download = None;
        self.act(StickerAction::ClearChild);
        self.act(StickerAction::UpdateAspectRatio);
        let job = StickerJob { sticker, looped };
        if sticker.is_downloading_completed {
            self.act(StickerAction::Load(job));
        } else {
            // The download is started when the widget is shown.
            self.pending_download = Some(job);
            self.maybe_start_download(is_mapped);
        }
    }

    /// Downloads the pending sticker, if the widget is shown.
    fn maybe_start_download(&mut self, is_mapped: bool)
        requires
            old(self)@.wf(),
        ensures
            final(self)@.wf(),
            final(self)@ == old(self)@.maybe_start_download(is_mapped),
    {
        if !is_mapped {
            return;
        }
        let job = match self.pending_download {
            Some(job) => job,
            None => return,
        };
        self.pending_download = None;
        self.act(StickerAction::Download(job));
    }

    /// Handles that the widget is shown.
    pub fn map(&mut self)
        requires
            old(self)@.wf(),
        ensures
            final(self)@.wf(),
            final(self)@ == old(self)@.maybe_start_download(true),
    {
        self.maybe_start_download(true);
    }

    /// Handles that the sticker with the given file was loaded. Returns whether
    /// it is to be shown, which it isn't if the widget was recycled.
    pub fn handle_loaded(&mut self, file_id: i32, child: StickerChild) -> (is_shown: bool)
        requires
            old(self)@.wf(),
        ensures
            final(self)@.wf(),
            final(self)@ == old(self)@.loaded(file_id, child),
            is_shown == (old(self)@.file_id == file_id),
    {
        if self.file_id == file_id {
            self.child = Some(child);
            true
        } else {
            false
        }
    }

    /// What makes the animation of the sticker play, unless it is playing or
    /// there is none.
    pub fn play_animation(&self, is_playing: bool) -> (play: Option<StickerPlay>)
        ensures
            play == if is_playing {
                None
            } else {
                match self@.child {
                    Some(StickerChild::VectorAnimation) => Some(StickerPlay::Play),
                    Some(StickerChild::WebmAnimation) => Some(StickerPlay::Replay),
                    _ => None,
                }
            },
    {
        if is_playing {
            return None;
        }
        match self.child {
            Some(StickerChild::VectorAnimation) => Some(StickerPlay::Play),
            Some(StickerChild::WebmAnimation) => Some(StickerPlay::Replay),
            _ => None,
        }
    }

    /// What the widget has to do, in order. It is handed out once.
    pub fn take_actions(&mut self) -> (actions: Vec<StickerAction>)
        requires
            old(self)@.wf(),
        ensures
            final(self)@.wf(),
            actions@ == old(self)@.actions,
            final(self)@ == (StickerView { actions: Seq::empty(), ..old(self)@ }),
    {
        let mut actions: Vec<StickerAction> = Vec::new();
        std::mem::swap(&mut actions, &mut self.actions);
        assert(self@.actions =~= Seq::empty());
        actions
    }
}

/// A sticker that was loaded after its widget had been recycled is not shown.
pub proof fn law_recycled_widget_keeps_its_sticker(
    widget: StickerView,
    sticker: StickerData,
    looped: bool,
    is_mapped: bool,
    file_id: i32,
    child: StickerChild,
)
    requires
        file_id != sticker.file_id,
    ensures
        ({
            let updated = widget.update_sticker(sticker, looped, is_mapped);
            updated.loaded(file_id, child) == updated
        }),
{
}

/// No sticker is downloaded before its widget is shown, and then at most once.
/// Only the sticker that the widget shows is downloaded, not one that was
/// scrolled past, and only if it is not downloaded yet.
pub proof fn law_sticker_is_downloaded_once(
    widget: StickerView,
    sticker: StickerData,
    looped: bool,
    i: int,
)
    requires
        widget.wf(),
    ensures
        ({
            let hidden = widget.update_sticker(sticker, looped, false);
            let shown = hidden.maybe_start_download(true);
            &&& widget.actions.len() <= i < hidden.actions.len() ==> !(
            hidden.actions[i] is Download)
            &&& shown.maybe_start_download(true) == shown
            &&& widget.actions.len() <= i < shown.actions.len() ==> (
            shown.actions[i] matches StickerAction::Download(job) ==> job.sticker.file_id
                == sticker.file_id && !job.sticker.is_downloading_completed && (widget.file_id
                != sticker.file_id ==> job.sticker == sticker))
        }),
{
}

/// A widget that gets another sticker shows nothing of the previous one. The
/// sticker is loaded at once if it is downloaded. Otherwise, it is downloaded at
/// once if the widget is mapped, and the download waits for that if it is not.
pub proof fn law_widget_takes_sticker(
    widget: StickerView,
    sticker: StickerData,
    looped: bool,
    is_mapped: bool,
)
    ensures
        ({
            let after = widget.update_sticker(sticker, looped, is_mapped);
            let job = StickerJob { sticker, looped };
            let cleared = widget.actions + seq![
                StickerAction::ClearChild,
                StickerAction::UpdateAspectRatio,
            ];
            &&& after.file_id == sticker.file_id
            &&& widget.file_id == sticker.file_id ==> after == widget
            &&& widget.file_id != sticker.file_id ==> {
                &&& after.child is None
                &&& sticker.is_downloading_completed ==> after.pending is None && after.actions
                    == cleared.push(StickerAction::Load(job))
                &&& !sticker.is_downloading_completed && is_mapped ==> after.pending is None
                    && after.actions == cleared.push(StickerAction::Download(job))
                &&& !sticker.is_downloading_completed && !is_mapped ==> after.pending == Some(job)
                    && after.actions == cleared
            }
        }),
{
    assert(widget.actions.push(StickerAction::ClearChild).push(StickerAction::UpdateAspectRatio)
        =~= widget.actions + seq![StickerAction::ClearChild, StickerAction::UpdateAspectRatio]);
}

/// A download that waits starts as soon as the widget is mapped, and not before.
pub proof fn law_waiting_download_starts(widget: StickerView)
    ensures
        widget.maybe_start_download(false) == widget,
        widget.pending is None ==> widget.maybe_start_download(true) == widget,
        widget.pending matches Some(job) ==> widget.maybe_start_download(true) == (StickerView {
            pending: None,
            actions: widget.actions.push(StickerAction::Download(job)),
            ..widget
        }),
{
}

/// What was loaded for the sticker of the widget is shown.
pub proof fn law_loaded_sticker_is_shown(widget: StickerView, child: StickerChild)
    ensures
        widget.loaded(widget.file_id, child) == (StickerView { child: Some(child), ..widget }),
{
}

} // verus!
