//! The application: its main window, its life in the background and its
//! actions.

use vstd::prelude::*;

use crate::types::{same_text, ChatId};

verus! {

/// The color scheme of the application.
#[derive(Clone, Copy, Debug, PartialEq, Eq, Structural)]
pub enum ColorScheme {
    ForceLight,
    ForceDark,
    PreferLight,
}

/// The color scheme that a setting stands for.
pub open spec fn color_scheme_of(setting: Seq<char>) -> ColorScheme {
    if setting == "light"@ {
        ColorScheme::ForceLight
    } else if setting == "dark"@ {
        ColorScheme::ForceDark
    } else {
        ColorScheme::PreferLight
    }
}

/// The color scheme that the setting stands for. Settings that are not known
/// leave the choice to the system.
pub fn color_scheme(setting: &str) -> (scheme: ColorScheme)
    ensures
        scheme == color_scheme_of(setting@),
{
    if same_text(setting, "light") {
        ColorScheme::ForceLight
    } else if same_text(setting, "dark") {
        ColorScheme::ForceDark
    } else {
        ColorScheme::PreferLight
    }
}

/// An action of the application.
#[derive(Clone, Copy, Debug, PartialEq, Eq, Structural)]
pub enum AppAction {
    Quit,
    About,
    SelectChat { client_id: i32, chat_id: ChatId },
    NewLoginProductionServer,
    NewLoginTestServer,
}

/// Something that the application has to do.
#[derive(Clone, Copy, Debug, PartialEq, Eq, Structural)]
pub enum AppEffect {
    /// Create the main window.
    CreateWindow,
    /// Keep the application alive without a window.
    Hold,
    /// Don't keep the application alive without a window anymore.
    ReleaseHold,
    /// Re-open the chat that was viewed before entering the background.
    OpenChats,
    /// Present the main window.
    PresentWindow,
    SaveWindowSize,
    Quit,
    ShowAboutDialog,
    ShowChat { client_id: i32, chat_id: ChatId },
    /// Log in on the test server or on the production server.
    AddClient { use_test_server: bool },
}

/// The state of the application.
#[derive(Debug)]
pub struct Application {
    has_window: bool,
    /// Whether the application is kept alive in the background.
    has_background_hold: bool,
    effects: Vec<AppEffect>,
}

/// The state of the application.
#[verifier::ext_equal]
pub struct ApplicationView {
    pub has_window: bool,
    pub has_hold: bool,
    pub effects: Seq<AppEffect>,
}

impl View for Application {
    type V = ApplicationView;

    closed spec fn view(&self) -> ApplicationView {
        ApplicationView {
            has_window: self.has_window,
            has_hold: self.has_background_hold,
            effects: self.effects@,
        }
    }
}

impl ApplicationView {
    pub open spec fn act(self, effect: AppEffect) -> ApplicationView {
        ApplicationView { effects: self.effects.push(effect), ..self }
    }

    /// The state after the main window was presented.
    pub open spec fn present_main_window(self) -> ApplicationView {
        let released = if self.has_hold {
            ApplicationView { has_hold: false, ..self }.act(AppEffect::ReleaseHold)
        } else {
            self
        };
        released.act(AppEffect::OpenChats).act(AppEffect::PresentWindow)
    }

    /// The state after the application was activated.
    pub open spec fn activate(self) -> ApplicationView {
        let created = if self.has_window {
            self
        } else {
            ApplicationView { has_window: true, ..self }.act(AppEffect::CreateWindow)
        };
        created.present_main_window()
    }

    /// The state after the application entered the background.
    pub open spec fn enter_background(self) -> ApplicationView {
        if self.has_hold {
            self
        } else {
            ApplicationView { has_hold: true, ..self }.act(AppEffect::Hold)
        }
    }

    /// The state after an action was activated.
    pub open spec fn run(self, action: AppAction) -> ApplicationView {
        match action {
            AppAction::Quit => self.act(AppEffect::SaveWindowSize).act(AppEffect::Quit),
            AppAction::About => self.act(AppEffect::ShowAboutDialog),
            AppAction::SelectChat { client_id, chat_id } => self.present_main_window().act(
                AppEffect::ShowChat { client_id, chat_id },
            ),
            AppAction::NewLoginProductionServer => self.act(
                AppEffect::AddClient { use_test_server: false },
            ),
            AppAction::NewLoginTestServer => self.act(
                AppEffect::AddClient { use_test_server: true },
            ),
        }
    }
}

impl Application {
    pub fn new() -> (app: Application)
        ensures
            app@ == (ApplicationView {
                has_window: false,
                has_hold: false,
                effects: Seq::empty(),
            }),
    {
        let app = Application {
            has_window: false,
            has_background_hold: false,
            effects: Vec::new(),
        };
        assert(app@.effects =~= Seq::empty());
        app
    }

    fn act(&mut self, effect: AppEffect)
        ensures
            final(self)@ == old(self)@.act(effect),
    {
        self.effects.push(effect);
    }

    /// Handles that the application is activated. The main window is created
    /// the first time.
    pub fn activate(&mut self)
        ensures
            final(self)@ == old(self)@.activate(),
    {
        if !self.has_window {
            self.has_window = true;
            self.act(AppEffect::CreateWindow);
        }
        self.present_main_window();
    }

    /// Presents the main window, releasing the background hold if the app was
    /// running in the background.
    pub fn present_main_window(&mut self)
        requires
            old(self)@.has_window,
        ensures
            final(self)@ == old(self)@.present_main_window(),
    {
        if self.has_background_hold {
            self.has_background_hold = false;
            self.act(AppEffect::ReleaseHold);
        }
        self.act(AppEffect::OpenChats);
        self.act(AppEffect::PresentWindow);
    }

    /// Keeps the app alive in the background while no window is visible, so
    /// that notifications can still be received.
    pub fn enter_background(&mut self)
        ensures
            final(self)@ == old(self)@.enter_background(),
    {
        if !self.has_background_hold {
            self.has_background_hold = true;
            self.act(AppEffect::Hold);
        }
    }

    /// Handles that an action is activated.
    ///
    /// The window state is saved without going through the close request when
    /// quitting, which would keep the app running in the background instead.
    /// The window may still be hidden while running in the background when a
    /// chat is selected, e.g. when the user activated a notification.
    pub fn run(&mut self, action: AppAction)
        requires
            old(self)@.has_window,
        ensures
            final(self)@ == old(self)@.run(action),
    {
        match action {
            AppAction::Quit => {
                self.act(AppEffect::SaveWindowSize);
                self.act(AppEffect::Quit);
            },
            AppAction::About => self.act(AppEffect::ShowAboutDialog),
            AppAction::SelectChat { client_id, chat_id } => {
                self.present_main_window();
                self.act(AppEffect::ShowChat { client_id, chat_id });
            },
            AppAction::NewLoginProductionServer => {
                self.act(AppEffect::AddClient { use_test_server: false });
            },
            AppAction::NewLoginTestServer => {
                self.act(AppEffect::AddClient { use_test_server: true });
            },
        }
    }

    /// Whether the main window was created.
    pub fn has_window(&self) -> (result: bool)
        ensures
            result == self@.has_window,
    {
        self.has_window
    }

    /// What the application has to do, in order. It is handed out once.
    pub fn take_effects(&mut self) -> (effects: Vec<AppEffect>)
        ensures
            effects@ == old(self)@.effects,
            final(self)@ == (ApplicationView { effects: Seq::empty(), ..old(self)@ }),
    {
        let mut effects: Vec<AppEffect> = Vec::new();
        std::mem::swap(&mut effects, &mut self.effects);
        assert(self@.effects =~= Seq::empty());
        effects
    }
}

/// The main window is created once.
pub proof fn law_one_main_window(app: ApplicationView, i: int)
    ensures
        ({
            let activated = app.activate();
            let again = activated.activate();
            &&& activated.has_window
            &&& activated.effects.len() <= i < again.effects.len() ==> again.effects[i]
                != AppEffect::CreateWindow
        }),
{
}

/// The application is held at most once while it is in the background, and the
/// hold is released when its window is presented.
pub proof fn law_background_is_left(app: ApplicationView)
    ensures
        ({
            let hidden = app.enter_background();
            &&& hidden.has_hold
            &&& hidden.enter_background() == hidden
            &&& !hidden.present_main_window().has_hold
            &&& hidden.present_main_window().effects[hidden.effects.len() as int]
                == AppEffect::ReleaseHold
        }),
{
}

/// Light and dark settings are forced, and all the others leave the choice to
/// the system.
pub proof fn law_settings_choose_color_schemes(setting: Seq<char>)
    ensures
        color_scheme_of("light"@) == ColorScheme::ForceLight,
        color_scheme_of("dark"@) == ColorScheme::ForceDark,
        setting != "light"@ && setting != "dark"@ ==> color_scheme_of(setting)
            == ColorScheme::PreferLight,
{
    reveal_strlit("light");
    reveal_strlit("dark");
    assert("light"@.len() != "dark"@.len());
}

/// Presenting the main window shows the chats and then the window. A hold is
/// released first, and only if there is one.
pub proof fn law_presented_window_shows_chats(app: ApplicationView)
    ensures
        ({
            let after = app.present_main_window();
            let told = after.effects.skip(app.effects.len() as int);
            &&& after.has_window == app.has_window
            &&& !after.has_hold
            &&& after.effects.take(app.effects.len() as int) == app.effects
            &&& app.has_hold ==> told == seq![
                AppEffect::ReleaseHold,
                AppEffect::OpenChats,
                AppEffect::PresentWindow,
            ]
            &&& !app.has_hold ==> told == seq![AppEffect::OpenChats, AppEffect::PresentWindow]
        }),
{
    let after = app.present_main_window();
    let told = after.effects.skip(app.effects.len() as int);
    assert(after.effects.take(app.effects.len() as int) =~= app.effects);
    assert(app.has_hold ==> told =~= seq![
        AppEffect::ReleaseHold,
        AppEffect::OpenChats,
        AppEffect::PresentWindow,
    ]);
    assert(!app.has_hold ==> told =~= seq![AppEffect::OpenChats, AppEffect::PresentWindow]);
}

/// Activating the application creates the main window if there is none yet, and
/// presents it.
pub proof fn law_activation_presents_window(app: ApplicationView)
    ensures
        ({
            let after = app.activate();
            &&& after.has_window
            &&& !after.has_hold
            &&& after.effects.last() == AppEffect::PresentWindow
            &&& !app.has_window ==> after.effects[app.effects.len() as int]
                == AppEffect::CreateWindow
            &&& app.has_window ==> after == app.present_main_window()
        }),
{
}

/// Entering the background keeps the application alive, once.
pub proof fn law_background_is_held(app: ApplicationView)
    ensures
        ({
            let after = app.enter_background();
            &&& after.has_hold
            &&& after.has_window == app.has_window
            &&& after.effects == if app.has_hold {
                app.effects
            } else {
                app.effects.push(AppEffect::Hold)
            }
        }),
{
}

/// An action does what it says, once and last. Quitting saves the size of the
/// window before, and selecting a chat presents the window before.
pub proof fn law_actions_do_what_they_say(app: ApplicationView, client_id: i32, chat_id: ChatId)
    ensures
        app.run(AppAction::Quit).effects == app.effects.push(AppEffect::SaveWindowSize).push(
            AppEffect::Quit,
        ),
        app.run(AppAction::About).effects == app.effects.push(AppEffect::ShowAboutDialog),
        app.run(AppAction::SelectChat { client_id, chat_id }).effects
            == app.present_main_window().effects.push(AppEffect::ShowChat { client_id, chat_id }),
        !app.run(AppAction::SelectChat { client_id, chat_id }).has_hold,
        app.run(AppAction::NewLoginProductionServer).effects == app.effects.push(
            AppEffect::AddClient { use_test_server: false },
        ),
        app.run(AppAction::NewLoginTestServer).effects == app.effects.push(
            AppEffect::AddClient { use_test_server: true },
        ),
        forall|action: AppAction|
            !(action is SelectChat) ==> (#[trigger] app.run(action)).has_hold == app.has_hold,
        forall|action: AppAction| (#[trigger] app.run(action)).has_window == app.has_window,
{
}

} // verus!
