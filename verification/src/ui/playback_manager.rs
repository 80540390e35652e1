//! A shared playback engine that owns a single media stream per session.
//!
//! Widgets that play media borrow the stream of this manager instead of
//! creating their own, so that at most one media pipeline exists per session.
//! Its source and lifecycle are owned by the manager. Playback control goes
//! through the methods of the manager, and the hook passed to `play_file`
//! names who is told about the stream.

use vstd::prelude::*;

use crate::types::same_text;

verus! {

/// Who is told about a playback.
#[derive(Clone, Copy, Debug, PartialEq, Eq, Structural)]
pub struct PlaybackHook {
    /// The widget that started the playback.
    pub owner: u64,
    /// How often new media was set on that widget.
    pub generation: u64,
}

/// Something to be done with the shared stream, or for one of its users.
#[derive(Clone, Copy, Debug, PartialEq, Eq, Structural)]
pub enum PlaybackAction {
    /// Reset the UI of the widget that owned the playback.
    Reset(PlaybackHook),
    /// Connect the widget to the `playing` state of the stream.
    ConnectPlaying(PlaybackHook),
    /// Disconnect the widget from the `playing` state of the stream.
    DisconnectPlaying(PlaybackHook),
    /// Set how the upcoming source is played.
    Configure { muted: bool, looped: bool },
    Pause,
    /// Close the stream, which frees its pipeline.
    Clear,
    /// Load the current path.
    Load,
    /// If the stream is prepared already, handle that it is.
    CheckPrepared,
    /// Pause the stream if it is playing and play it if it is not.
    TogglePlaying,
}

/// What is played.
#[derive(Debug)]
struct Playback {
    /// The path of the currently loaded source.
    path: String,
    hook: PlaybackHook,
}

/// The state of the shared playback engine of a session.
#[derive(Debug)]
pub struct PlaybackManager {
    /// The current playback. No pipeline exists while there is none.
    current: Option<Playback>,
    /// The widget that is connected to the `playing` state of the stream.
    /// Disconnected when the playback is taken over or stopped.
    playing_handler: Option<PlaybackHook>,
    actions: Vec<PlaybackAction>,
}

/// The state of the engine.
#[verifier::ext_equal]
pub struct PlaybackView {
    pub current: Option<(Seq<char>, PlaybackHook)>,
    pub playing_handler: Option<PlaybackHook>,
    pub actions: Seq<PlaybackAction>,
}

impl View for PlaybackManager {
    type V = PlaybackView;

    closed spec fn view(&self) -> PlaybackView {
        PlaybackView {
            current: match self.current {
                Some(playback) => Some((playback.path@, playback.hook)),
                None => None,
            },
            playing_handler: self.playing_handler,
            actions: self.actions@,
        }
    }
}

impl PlaybackView {
    pub open spec fn act(self, action: PlaybackAction) -> PlaybackView {
        PlaybackView { actions: self.actions.push(action), ..self }
    }

    /// Whether the stream is currently loaded from the path.
    pub open spec fn is_current(self, path: Seq<char>) -> bool {
        match self.current {
            Some((current, _)) => current == path,
            None => false,
        }
    }

    /// The state after the widget that was connected was disconnected.
    pub open spec fn disconnect_playing(self) -> PlaybackView {
        match self.playing_handler {
            Some(hook) => PlaybackView { playing_handler: None, ..self }.act(
                PlaybackAction::DisconnectPlaying(hook),
            ),
            None => self,
        }
    }

    /// The state after the current playback was given up.
    pub open spec fn release(self) -> PlaybackView {
        match self.current {
            Some((_, hook)) => PlaybackView { current: None, ..self }.act(
                PlaybackAction::Reset(hook),
            ),
            None => self,
        }.disconnect_playing()
    }

    /// The state after a file was played.
    pub open spec fn play_file(self, path: Seq<char>, hook: PlaybackHook) -> PlaybackView {
        PlaybackView { current: Some((path, hook)), ..self.release() }.act(
            PlaybackAction::Pause,
        ).act(PlaybackAction::Clear).act(PlaybackAction::Load).act(PlaybackAction::CheckPrepared)
    }

    /// The state after a widget was connected to the `playing` state.
    pub open spec fn connect_playing(self, hook: PlaybackHook) -> PlaybackView {
        PlaybackView { playing_handler: Some(hook), ..self.disconnect_playing() }.act(
            PlaybackAction::ConnectPlaying(hook),
        )
    }

    /// The state after the playback was stopped.
    pub open spec fn stop(self) -> PlaybackView {
        self.release().act(PlaybackAction::Pause).act(PlaybackAction::Clear)
    }

    /// Who is told about the stream.
    pub open spec fn hook(self) -> Option<PlaybackHook> {
        match self.current {
            Some((_, hook)) => Some(hook),
            None => None,
        }
    }
}

impl PlaybackManager {
    pub fn new() -> (manager: PlaybackManager)
        ensures
            manager@ == (PlaybackView {
                current: None,
                playing_handler: None,
                actions: Seq::empty(),
            }),
    {
        let manager = PlaybackManager {
            current: None,
            playing_handler: None,
            actions: Vec::new(),
        };
        assert(manager@.actions =~= Seq::empty());
        manager
    }

    fn act(&mut self, action: PlaybackAction)
        ensures
            final(self)@ == old(self)@.act(action),
    {
        self.actions.push(action);
    }

    /// Whether the stream is currently loaded from `path`.
    pub fn is_current(&self, path: &str) -> (result: bool)
        ensures
            result == self@.is_current(path@),
    {
        match &self.current {
            Some(playback) => same_text(playback.path.as_str(), path),
            None => false,
        }
    }

    /// Who is told that the stream of the current playback is prepared, after
    /// its `prepared` state changed.
    pub fn handle_prepared(&self, is_prepared: bool) -> (told: Option<PlaybackHook>)
        ensures
            told == if is_prepared {
                self@.hook()
            } else {
                None
            },
    {
        if !is_prepared {
            return None;
        }
        self.hook()
    }

    /// Who is told that the playback of the current source failed, after the
    /// `error` state of the stream changed.
    pub fn handle_error(&self, has_error: bool) -> (told: Option<PlaybackHook>)
        ensures
            told == if has_error {
                self@.hook()
            } else {
                None
            },
    {
        if !has_error {
            return None;
        }
        self.hook()
    }

    fn hook(&self) -> (hook: Option<PlaybackHook>)
        ensures
            hook == self@.hook(),
    {
        match &self.current {
            Some(playback) => Some(playback.hook),
            None => None,
        }
    }

    /// Sets how the upcoming source is played.
    pub fn configure(&mut self, muted: bool, looped: bool)
        ensures
            final(self)@ == old(self)@.act(PlaybackAction::Configure { muted, looped }),
    {
        self.act(PlaybackAction::Configure { muted, looped });
    }

    fn disconnect_playing(&mut self)
        ensures
            final(self)@ == old(self)@.disconnect_playing(),
    {
        let handler = self.playing_handler;
        if let Some(hook) = handler {
            self.playing_handler = None;
            self.act(PlaybackAction::DisconnectPlaying(hook));
        }
    }

    /// Gives the current playback up: its owner is told to reset its UI, and
    /// its handler is disconnected.
    fn release(&mut self)
        ensures
            final(self)@ == old(self)@.release(),
    {
        let hook = self.hook();
        if let Some(hook) = hook {
            self.current = None;
            self.act(PlaybackAction::Reset(hook));
        }
        self.disconnect_playing();
    }

    /// Plays the file at `path`, taking the stream over from the previous
    /// playback.
    ///
    /// Before calling this method, the stream may be configured, which applies
    /// to the upcoming source.
    ///
    /// The previous playback is stopped: its owner is told to reset its UI and
    /// its handler is disconnected.
    ///
    /// The owner of the hook is told when the stream is prepared and its first
    /// frame is available; the playback is *not* started automatically, the
    /// owner decides what to do with the prepared stream. If the stream is
    /// already prepared (e.g. the same source is reattached), it is told
    /// directly, since nothing will be notified again.
    pub fn play_file(&mut self, path: &str, hook: PlaybackHook)
        ensures
            final(self)@ == old(self)@.play_file(path@, hook),
    {
        // 1. Stop the previous playback and reset its owner's UI.
        self.release();
        // 2. Register the new playback.
        self.current = Some(Playback { path: path.to_owned(), hook });
        // 3. Load the new source. The pipeline of the previous source is freed
        // by clearing the stream before the new one is loaded.
        self.act(PlaybackAction::Pause);
        self.act(PlaybackAction::Clear);
        self.act(PlaybackAction::Load);
        self.act(PlaybackAction::CheckPrepared);
    }

    /// The path of the currently loaded source, if any.
    pub fn current_path(&self) -> (path: Option<&String>)
        ensures
            match path {
                Some(path) => self@.is_current(path@),
                None => self@.current is None,
            },
    {
        match &self.current {
            Some(playback) => Some(&playback.path),
            None => None,
        }
    }

    /// Connects the owner of the hook to the `playing` state of the stream on
    /// behalf of the current playback, replacing the connection of the
    /// previous one.
    pub fn connect_playing(&mut self, hook: PlaybackHook)
        ensures
            final(self)@ == old(self)@.connect_playing(hook),
    {
        self.disconnect_playing();
        self.playing_handler = Some(hook);
        self.act(PlaybackAction::ConnectPlaying(hook));
    }

    /// Resumes or pauses the current playback.
    pub fn toggle_pause(&mut self)
        ensures
            final(self)@ == old(self)@.act(PlaybackAction::TogglePlaying),
    {
        self.act(PlaybackAction::TogglePlaying);
    }

    /// Stops the current playback and closes the stream, freeing the resources
    /// of the underlying pipeline, and resets the UI of the widget that owned
    /// it.
    ///
    /// Closing the stream is essential: merely pausing it would leave a full
    /// media pipeline behind, whose teardown happens synchronously on the main
    /// thread when the stream is eventually dropped. If such a leftover
    /// pipeline got stuck, the whole UI would freeze.
    pub fn stop(&mut self)
        ensures
            final(self)@ == old(self)@.stop(),
    {
        self.release();
        self.act(PlaybackAction::Pause);
        self.act(PlaybackAction::Clear);
    }

    /// Handles that the manager is dropped.
    pub fn dispose(&mut self)
        ensures
            final(self)@ == old(self)@.disconnect_playing(),
    {
        self.disconnect_playing();
    }

    /// What has to be done, in order. It is handed out once.
    pub fn take_actions(&mut self) -> (actions: Vec<PlaybackAction>)
        ensures
            actions@ == old(self)@.actions,
            final(self)@ == (PlaybackView { actions: Seq::empty(), ..old(self)@ }),
    {
        let mut actions: Vec<PlaybackAction> = Vec::new();
        std::mem::swap(&mut actions, &mut self.actions);
        assert(self@.actions =~= Seq::empty());
        actions
    }
}

/// A file that is played takes the stream over: it is the current one, its
/// hook is the one that is told, and the previous owner is told to reset its
/// UI before anything else happens.
pub proof fn law_playback_takes_over(
    manager: PlaybackView,
    path: Seq<char>,
    previous: Seq<char>,
    previous_hook: PlaybackHook,
    hook: PlaybackHook,
)
    requires
        manager.current == Some((previous, previous_hook)),
    ensures
        ({
            let played = manager.play_file(path, hook);
            &&& played.is_current(path)
            &&& played.hook() == Some(hook)
            &&& played.actions[manager.actions.len() as int] == PlaybackAction::Reset(
                previous_hook,
            )
        }),
{
}

/// At most one path is the current one.
pub proof fn law_one_current_path(manager: PlaybackView, path: Seq<char>, other: Seq<char>)
    requires
        manager.is_current(path),
        manager.is_current(other),
    ensures
        path == other,
{
}

/// The previous source is closed before the next one is loaded.
pub proof fn law_source_is_closed_before_loading(
    manager: PlaybackView,
    path: Seq<char>,
    hook: PlaybackHook,
)
    ensures
        ({
            let actions = manager.play_file(path, hook).actions;
            let n = actions.len() as int;
            &&& n >= 4
            &&& actions[n - 4] == PlaybackAction::Pause
            &&& actions[n - 3] == PlaybackAction::Clear
            &&& actions[n - 2] == PlaybackAction::Load
        }),
{
}

/// After a stop nothing is current, nobody is told about the stream, and it is
/// closed.
pub proof fn law_stopped_stream_is_closed(manager: PlaybackView, path: Seq<char>)
    ensures
        ({
            let stopped = manager.stop();
            &&& !stopped.is_current(path)
            &&& stopped.hook() is None
            &&& stopped.playing_handler is None
            &&& stopped.actions.last() == PlaybackAction::Clear
        }),
{
}

/// A path is the current one if and only if the stream was loaded from it, and
/// the hook that is told about the stream is the one of that playback.
pub proof fn law_current_playback_is_told(manager: PlaybackView, path: Seq<char>)
    ensures
        manager.current is None ==> !manager.is_current(path) && manager.hook() is None,
        manager.current matches Some((current, hook)) ==> (manager.is_current(path) <==> current
            == path) && manager.hook() == Some(hook),
{
}

/// Whoever is connected to the stream is disconnected once, and then nobody is
/// connected.
pub proof fn law_connection_is_closed(manager: PlaybackView)
    ensures
        ({
            let after = manager.disconnect_playing();
            &&& after.playing_handler is None
            &&& after.current == manager.current
            &&& after.actions == match manager.playing_handler {
                Some(hook) => manager.actions.push(PlaybackAction::DisconnectPlaying(hook)),
                None => manager.actions,
            }
        }),
{
}

/// Playing a file does in this order: the previous owner is told to reset its
/// UI and the connected widget is disconnected, as far as there are such, and
/// the stream is paused, closed and loaded.
pub proof fn law_file_is_played(manager: PlaybackView, path: Seq<char>, hook: PlaybackHook)
    ensures
        ({
            let after = manager.play_file(path, hook);
            let reset = match manager.current {
                Some((_, previous)) => seq![PlaybackAction::Reset(previous)],
                None => Seq::empty(),
            };
            let disconnect = match manager.playing_handler {
                Some(handler) => seq![PlaybackAction::DisconnectPlaying(handler)],
                None => Seq::empty(),
            };
            &&& after.current == Some((path, hook))
            &&& after.playing_handler is None
            &&& after.actions == manager.actions + reset + disconnect + seq![
                PlaybackAction::Pause,
                PlaybackAction::Clear,
                PlaybackAction::Load,
                PlaybackAction::CheckPrepared,
            ]
        }),
{
    let after = manager.play_file(path, hook);
    let reset = match manager.current {
        Some((_, previous)) => seq![PlaybackAction::Reset(previous)],
        None => Seq::empty(),
    };
    let disconnect = match manager.playing_handler {
        Some(handler) => seq![PlaybackAction::DisconnectPlaying(handler)],
        None => Seq::empty(),
    };
    assert(after.actions =~= manager.actions + reset + disconnect + seq![
        PlaybackAction::Pause,
        PlaybackAction::Clear,
        PlaybackAction::Load,
        PlaybackAction::CheckPrepared,
    ]);
}

/// Stopping does in this order: the owner is told to reset its UI and the
/// connected widget is disconnected, as far as there are such, and the stream is
/// paused and closed.
pub proof fn law_playback_is_stopped(manager: PlaybackView)
    ensures
        ({
            let after = manager.stop();
            let reset = match manager.current {
                Some((_, previous)) => seq![PlaybackAction::Reset(previous)],
                None => Seq::empty(),
            };
            let disconnect = match manager.playing_handler {
                Some(handler) => seq![PlaybackAction::DisconnectPlaying(handler)],
                None => Seq::empty(),
            };
            &&& after.current is None
            &&& after.playing_handler is None
            &&& after.actions == manager.actions + reset + disconnect + seq![
                PlaybackAction::Pause,
                PlaybackAction::Clear,
            ]
        }),
{
    let after = manager.stop();
    let reset = match manager.current {
        Some((_, previous)) => seq![PlaybackAction::Reset(previous)],
        None => Seq::empty(),
    };
    let disconnect = match manager.playing_handler {
        Some(handler) => seq![PlaybackAction::DisconnectPlaying(handler)],
        None => Seq::empty(),
    };
    assert(after.actions =~= manager.actions + reset + disconnect + seq![
        PlaybackAction::Pause,
        PlaybackAction::Clear,
    ]);
}

/// One widget at a time is connected to the stream: the one that was connected
/// before is disconnected first.
pub proof fn law_connection_is_replaced(manager: PlaybackView, hook: PlaybackHook)
    ensures
        ({
            let after = manager.connect_playing(hook);
            &&& after.playing_handler == Some(hook)
            &&& after.current == manager.current
            &&& after.actions == match manager.playing_handler {
                Some(previous) => manager.actions.push(
                    PlaybackAction::DisconnectPlaying(previous),
                ).push(PlaybackAction::ConnectPlaying(hook)),
                None => manager.actions.push(PlaybackAction::ConnectPlaying(hook)),
            }
        }),
{
}

} // verus!
