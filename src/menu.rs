use crate::geometry::Rect;
use crate::settings::MAX_VOLUME;
use vstd::prelude::*;

verus! {

/// Which page of the pause menu is shown.
#[derive(Clone, Copy, Debug, PartialEq, Eq, Structural)]
pub enum MenuState {
    Main,
    Settings,
}

/// What a click in the menu asks for.
#[derive(Clone, Copy, Debug, PartialEq, Eq, Structural)]
pub enum MenuAction {
    /// The click hit nothing.
    NoAction,
    Resume,
    NewGame,
    Restart,
    Quit,
    OpenSettings,
    CloseSettings,
    ToggleMusic,
    ToggleSFX,
    ToggleFullscreen,
    ToggleVSync,
    ToggleGravity,
    EnterLevelEditor,
    OpenGithub,
    /// The index of the resolution picked from the list.
    SelectResolution(usize),
    ConfirmResolution,
    CancelResolution,
}

/// A clickable button.
pub struct Button {
    pub rect: Rect,
    pub label: String,
    pub hovered: bool,
}

impl Button {
    pub fn new(x: i32, y: i32, width: i32, height: i32, label: &str) -> (b: Button)
        ensures
            b.rect == (Rect { x, y, w: width, h: height }),
            b.label@ == label@,
            !b.hovered,
    {
        Button { rect: Rect::new(x, y, width, height), label: String::from_str(label), hovered: false }
    }

    pub fn update_hover(&mut self, mouse_x: i32, mouse_y: i32)
        ensures
            final(self).hovered == hit(old(self).rect, mouse_x, mouse_y),
            final(self).rect == old(self).rect,
            final(self).label == old(self).label,
    {
        self.hovered = self.rect.contains_point(mouse_x, mouse_y);
    }

    pub fn is_clicked(&self, mouse_x: i32, mouse_y: i32) -> (r: bool)
        ensures
            r == hit(self.rect, mouse_x, mouse_y),
    {
        self.rect.contains_point(mouse_x, mouse_y)
    }
}

/// Whether a point lies in a rectangle (left and top edges included).
pub open spec fn hit(r: Rect, x: i32, y: i32) -> bool {
    r.x <= x < r.right() && r.y <= y < r.bottom()
}

/// A volume slider: a track the mouse drags a value along.
pub struct VolumeSlider {
    pub rect: Rect,
    /// From 0 to `MAX_VOLUME`.
    pub value: i32,
    pub dragging: bool,
}

/// The value under the mouse on a slider track of width `w` at `x`.
pub open spec fn slider_value(x: int, w: int, mouse_x: int) -> int {
    let rel = if mouse_x - x < 0 { 0 } else if mouse_x - x > w { w } else { mouse_x - x };
    rel * MAX_VOLUME / w
}

impl VolumeSlider {
    pub open spec fn wf(&self) -> bool {
        0 < self.rect.w <= 100_000
    }

    /// A slider at half volume on a track 20 pixels high.
    pub fn new(x: i32, y: i32, width: i32) -> (s: VolumeSlider)
        requires
            0 < width <= 100_000,
        ensures
            s.wf(),
            s.rect == (Rect { x, y, w: width, h: 20 }),
            s.value == 64,
            !s.dragging,
    {
        VolumeSlider { rect: Rect::new(x, y, width, 20), value: 64, dragging: false }
    }

    /// A press on the track starts a drag, a release ends it; while dragging, the
    /// value follows the mouse along the track.
    pub fn update(&mut self, mouse_x: i32, mouse_y: i32, mouse_down: bool)
        requires
            old(self).wf(),
        ensures
            final(self).wf(),
            final(self).rect == old(self).rect,
            final(self).dragging == (mouse_down && (old(self).dragging || hit(
                old(self).rect,
                mouse_x,
                mouse_y,
            ))),
            final(self).value == if final(self).dragging {
                slider_value(old(self).rect.x as int, old(self).rect.w as int, mouse_x as int)
            } else {
                old(self).value as int
            },
    {
        if mouse_down && self.rect.contains_point(mouse_x, mouse_y) {
            self.dragging = true;
        }
        if !mouse_down {
            self.dragging = false;
        }
        if self.dragging {
            let d: i64 = mouse_x as i64 - self.rect.x as i64;
            let w = self.rect.w as i64;
            let rel: i64 = if d < 0 { 0 } else if d > w { w } else { d };
            assert(rel * 128 <= w * 128) by (nonlinear_arith)
                requires 0 <= rel <= w;
            assert(0 <= (rel * 128) as int / (w as int) <= 128) by (nonlinear_arith)
                requires 0 <= rel <= w, w > 0;
            self.value = (rel * 128 / w) as i32;
        }
    }

    pub fn get_value(&self) -> (v: i32)
        ensures
            v == self.value,
    {
        self.value
    }

    /// Sets the value, clamped to 0..=`MAX_VOLUME`.
    pub fn set_value(&mut self, value: i32)
        ensures
            final(self).value == if value < 0 { 0 } else if value > MAX_VOLUME { MAX_VOLUME } else { value },
            final(self).rect == old(self).rect,
            final(self).dragging == old(self).dragging,
    {
        self.value = if value < 0 { 0 } else if value > MAX_VOLUME { MAX_VOLUME } else { value };
    }
}

/// Ticks the player has to keep a new resolution before it is reverted.
pub const RESOLUTION_CONFIRM_TICKS: u32 = 300;
/// Number of preset resolutions.
pub const RESOLUTION_PRESETS: usize = 5;

/// The preset resolutions, smallest first.
pub open spec fn preset(i: int) -> (u32, u32) {
    if i == 0 {
        (1280, 720)
    } else if i == 1 {
        (1366, 768)
    } else if i == 2 {
        (1600, 900)
    } else if i == 3 {
        (1920, 1080)
    } else {
        (2560, 1440)
    }
}

/// The pause menu: its two pages of buttons and sliders, and the settings they show.
pub struct Menu {
    pub state: MenuState,
    pub resume_button: Button,
    pub restart_button: Button,
    pub settings_button: Button,
    pub level_editor_button: Button,
    pub back_button: Button,
    pub quit_button: Button,
    pub music_toggle_button: Button,
    pub sfx_toggle_button: Button,
    pub github_button: Button,
    pub fullscreen_button: Button,
    pub vsync_button: Button,
    pub gravity_mode_button: Button,
    pub music_slider: VolumeSlider,
    pub sfx_slider: VolumeSlider,
    /// The resolution in use, shown beside the list.
    pub resolution: (u32, u32),
    pub resolution_buttons: Vec<Button>,
    pub available_resolutions: Vec<(u32, u32)>,
    pub selected_resolution_index: usize,
    /// The resolution to go back to if the new one is not kept.
    pub pending_resolution: Option<(u32, u32)>,
    /// Ticks left to keep a new resolution, while one waits for confirmation.
    pub resolution_confirm_timer: Option<u32>,
    pub confirm_button: Button,
    pub cancel_button: Button,
    pub music_muted: bool,
    pub sfx_muted: bool,
    pub is_fullscreen: bool,
    pub vsync_enabled: bool,
    pub gravity_mode: bool,
    /// Whether a game has started (the first button reads "Resume" rather than "New Game").
    pub game_started: bool,
}

/// The resolution list's index of `(w, h)` among the first `n` presets, if there.
pub open spec fn preset_index(list: Seq<(u32, u32)>, w: u32, h: u32, n: nat) -> Option<usize>
    decreases n,
{
    if n == 0 {
        None
    } else {
        match preset_index(list, w, h, (n - 1) as nat) {
            Some(i) => Some(i),
            None => if list[n - 1] == (w, h) {
                Some((n - 1) as usize)
            } else {
                None
            },
        }
    }
}

/// What a click at (`x`, `y`) asks for: the first button hit in the page's order;
/// while a resolution waits for confirmation, only its two buttons respond.
pub open spec fn menu_action(m: Menu, x: i32, y: i32) -> MenuAction {
    match m.state {
        MenuState::Main => if hit(m.resume_button.rect, x, y) {
            if m.game_started { MenuAction::Resume } else { MenuAction::NewGame }
        } else if hit(m.restart_button.rect, x, y) {
            MenuAction::Restart
        } else if hit(m.gravity_mode_button.rect, x, y) {
            MenuAction::ToggleGravity
        } else if hit(m.level_editor_button.rect, x, y) {
            MenuAction::EnterLevelEditor
        } else if hit(m.settings_button.rect, x, y) {
            MenuAction::OpenSettings
        } else if hit(m.quit_button.rect, x, y) {
            MenuAction::Quit
        } else if hit(m.github_button.rect, x, y) {
            MenuAction::OpenGithub
        } else {
            MenuAction::NoAction
        },
        MenuState::Settings => if m.resolution_confirm_timer.is_some() {
            if hit(m.confirm_button.rect, x, y) {
                MenuAction::ConfirmResolution
            } else if hit(m.cancel_button.rect, x, y) {
                MenuAction::CancelResolution
            } else {
                MenuAction::NoAction
            }
        } else if hit(m.music_toggle_button.rect, x, y) {
            MenuAction::ToggleMusic
        } else if hit(m.sfx_toggle_button.rect, x, y) {
            MenuAction::ToggleSFX
        } else if hit(m.fullscreen_button.rect, x, y) {
            MenuAction::ToggleFullscreen
        } else if hit(m.vsync_button.rect, x, y) {
            MenuAction::ToggleVSync
        } else {
            match first_hit(m.resolution_buttons@, x, y, m.resolution_buttons@.len()) {
                Some(i) => MenuAction::SelectResolution(i),
                None => if hit(m.back_button.rect, x, y) {
                    MenuAction::CloseSettings
                } else {
                    MenuAction::NoAction
                },
            }
        },
    }
}

/// Index of the first of the first `n` buttons that the point hits.
pub open spec fn first_hit(buttons: Seq<Button>, x: i32, y: i32, n: nat) -> Option<usize>
    decreases n,
{
    if n == 0 {
        None
    } else {
        match first_hit(buttons, x, y, (n - 1) as nat) {
            Some(i) => Some(i),
            None => if hit(buttons[n - 1].rect, x, y) {
                Some((n - 1) as usize)
            } else {
                None
            },
        }
    }
}

fn resolution_button(cx: i32, cy: i32, i: usize) -> (b: Button)
    requires
        -1_000_000 <= cx <= 1_000_000,
        -1_000_000 <= cy <= 1_000_000,
        i < RESOLUTION_PRESETS,
{
    let y = cy + 150 + i as i32 * 35;
    if i == 0 {
        Button::new(cx, y, 200, 30, "1280x720")
    } else if i == 1 {
        Button::new(cx, y, 200, 30, "1366x768")
    } else if i == 2 {
        Button::new(cx, y, 200, 30, "1600x900")
    } else if i == 3 {
        Button::new(cx, y, 200, 30, "1920x1080")
    } else {
        Button::new(cx, y, 200, 30, "2560x1440")
    }
}

impl Menu {
    pub open spec fn wf(&self) -> bool {
        &&& self.available_resolutions@.len() == RESOLUTION_PRESETS
        &&& self.selected_resolution_index < RESOLUTION_PRESETS
        &&& self.music_slider.wf()
        &&& self.sfx_slider.wf()
    }

    /// The menu laid out for a window of the given size, on its main page.
    pub fn new(window_width: u32, window_height: u32) -> (m: Menu)
        requires
            window_width <= 1_000_000,
            window_height <= 1_000_000,
        ensures
            m.wf(),
            m.state == MenuState::Main,
            m.resolution == (1280u32, 720u32),
            m.selected_resolution_index == 0,
            m.pending_resolution.is_none(),
            m.resolution_confirm_timer.is_none(),
            forall|i: int| 0 <= i < RESOLUTION_PRESETS ==> #[trigger] m.available_resolutions@[i] == preset(i),
            m.resolution_buttons@.len() == RESOLUTION_PRESETS,
            !m.music_muted && !m.sfx_muted && !m.is_fullscreen && m.vsync_enabled,
            !m.gravity_mode && !m.game_started,
    {
        let cx = window_width as i32 / 2 - 100;
        let cy = window_height as i32 / 2;
        let mut available_resolutions: Vec<(u32, u32)> = Vec::new();
        available_resolutions.push((1280, 720));
        available_resolutions.push((1366, 768));
        available_resolutions.push((1600, 900));
        available_resolutions.push((1920, 1080));
        available_resolutions.push((2560, 1440));
        let mut resolution_buttons: Vec<Button> = Vec::new();
        let mut i: usize = 0;
        while i < RESOLUTION_PRESETS
            invariant
                i <= RESOLUTION_PRESETS,
                resolution_buttons@.len() == i,
                -1_000_000 <= cx <= 1_000_000,
                -1_000_000 <= cy <= 1_000_000,
            decreases RESOLUTION_PRESETS - i,
        {
            resolution_buttons.push(resolution_button(cx, cy, i));
            i += 1;
        }
        Menu {
            state: MenuState::Main,
            resume_button: Button::new(cx, cy - 125, 200, 40, "New Game"),
            restart_button: Button::new(cx, cy - 75, 200, 40, "Restart"),
            gravity_mode_button: Button::new(cx, cy - 25, 200, 40, "Gravity Mode"),
            level_editor_button: Button::new(cx, cy + 25, 200, 40, "Level Editor"),
            settings_button: Button::new(cx, cy + 75, 200, 40, "Settings"),
            quit_button: Button::new(cx, cy + 125, 200, 40, "Quit"),
            music_toggle_button: Button::new(cx, cy - 140, 200, 40, "Music: ON"),
            music_slider: VolumeSlider::new(cx, cy - 90, 200),
            sfx_toggle_button: Button::new(cx, cy - 50, 200, 40, "SFX: ON"),
            sfx_slider: VolumeSlider::new(cx, cy, 200),
            fullscreen_button: Button::new(cx, cy + 40, 200, 40, "Windowed"),
            vsync_button: Button::new(cx, cy + 90, 200, 40, "VSync: ON"),
            resolution_buttons,
            resolution: (1280, 720),
            available_resolutions,
            selected_resolution_index: 0,
            pending_resolution: None,
            resolution_confirm_timer: None,
            confirm_button: Button::new(cx - 60, cy + 350, 100, 35, "Keep"),
            cancel_button: Button::new(cx + 60, cy + 350, 100, 35, "Revert"),
            back_button: Button::new(cx, cy + 400, 200, 40, "Back"),
            github_button: Button::new(
                window_width as i32 - 110,
                window_height as i32 - 50,
                100,
                40,
                "Github",
            ),
            music_muted: false,
            sfx_muted: false,
            is_fullscreen: false,
            vsync_enabled: true,
            gravity_mode: false,
            game_started: false,
        }
    }

    /// Marks the buttons of the page shown that lie under the mouse; on the settings
    /// page the resolution list responds only while no resolution waits for
    /// confirmation, and the confirmation buttons only while one does.
    pub fn update_hover(&mut self, mouse_x: i32, mouse_y: i32)
        ensures
            final(self).state == old(self).state,
            final(self).wf() == old(self).wf(),
            old(self).state == MenuState::Main ==> final(self).resume_button.hovered == hit(
                old(self).resume_button.rect,
                mouse_x,
                mouse_y,
            ) && final(self).quit_button.hovered == hit(old(self).quit_button.rect, mouse_x, mouse_y),
            old(self).state == MenuState::Settings ==> final(self).back_button.hovered == hit(
                old(self).back_button.rect,
                mouse_x,
                mouse_y,
            ) && (old(self).resolution_confirm_timer.is_some() ==> final(self).confirm_button.hovered
                == hit(old(self).confirm_button.rect, mouse_x, mouse_y)),
    {
        match self.state {
            MenuState::Main => {
                self.resume_button.update_hover(mouse_x, mouse_y);
                self.restart_button.update_hover(mouse_x, mouse_y);
                self.gravity_mode_button.update_hover(mouse_x, mouse_y);
                self.level_editor_button.update_hover(mouse_x, mouse_y);
                self.settings_button.update_hover(mouse_x, mouse_y);
                self.quit_button.update_hover(mouse_x, mouse_y);
                self.github_button.update_hover(mouse_x, mouse_y);
            },
            MenuState::Settings => {
                self.music_toggle_button.update_hover(mouse_x, mouse_y);
                self.sfx_toggle_button.update_hover(mouse_x, mouse_y);
                self.fullscreen_button.update_hover(mouse_x, mouse_y);
                self.vsync_button.update_hover(mouse_x, mouse_y);
                self.back_button.update_hover(mouse_x, mouse_y);
                if self.resolution_confirm_timer.is_none() {
                    let n = self.resolution_buttons.len();
                    let mut i: usize = 0;
                    while i < n
                        invariant
                            n == self.resolution_buttons.len(),
                            i <= n,
                            self.state == old(self).state,
                            self.available_resolutions@ == old(self).available_resolutions@,
                            self.selected_resolution_index == old(self).selected_resolution_index,
                            self.music_slider == old(self).music_slider,
                            self.sfx_slider == old(self).sfx_slider,
                            self.back_button.hovered == hit(old(self).back_button.rect, mouse_x, mouse_y),
                            self.resolution_confirm_timer == old(self).resolution_confirm_timer,
                            self.confirm_button == old(self).confirm_button,
                        decreases n - i,
                    {
                        self.resolution_buttons[i].update_hover(mouse_x, mouse_y);
                        i += 1;
                    }
                } else {
                    self.confirm_button.update_hover(mouse_x, mouse_y);
                    self.cancel_button.update_hover(mouse_x, mouse_y);
                }
            },
        }
    }

    /// Dragging a slider on the settings page moves its value.
    pub fn update_slider(&mut self, mouse_x: i32, mouse_y: i32, mouse_down: bool)
        requires
            old(self).wf(),
        ensures
            final(self).wf(),
            final(self).state == old(self).state,
            old(self).state == MenuState::Main ==> final(self).music_slider == old(self).music_slider
                && final(self).sfx_slider == old(self).sfx_slider,
    {
        if matches!(self.state, MenuState::Settings) {
            self.music_slider.update(mouse_x, mouse_y, mouse_down);
            self.sfx_slider.update(mouse_x, mouse_y, mouse_down);
        }
    }

    pub fn set_music_muted(&mut self, muted: bool)
        ensures
            final(self).music_muted == muted,
            final(self).music_toggle_button.label@ == (if muted { "Music: OFF"@ } else { "Music: ON"@ }),
            final(self).wf() == old(self).wf(),
    {
        self.music_muted = muted;
        self.music_toggle_button.label = if muted {
            String::from_str("Music: OFF")
        } else {
            String::from_str("Music: ON")
        };
    }

    pub fn set_sfx_muted(&mut self, muted: bool)
        ensures
            final(self).sfx_muted == muted,
            final(self).sfx_toggle_button.label@ == (if muted { "SFX: OFF"@ } else { "SFX: ON"@ }),
            final(self).wf() == old(self).wf(),
    {
        self.sfx_muted = muted;
        self.sfx_toggle_button.label = if muted {
            String::from_str("SFX: OFF")
        } else {
            String::from_str("SFX: ON")
        };
    }

    pub fn set_fullscreen(&mut self, is_fullscreen: bool)
        ensures
            final(self).is_fullscreen == is_fullscreen,
            final(self).fullscreen_button.label@ == (if is_fullscreen { "Fullscreen"@ } else { "Windowed"@ }),
            final(self).wf() == old(self).wf(),
    {
        self.is_fullscreen = is_fullscreen;
        self.fullscreen_button.label = if is_fullscreen {
            String::from_str("Fullscreen")
        } else {
            String::from_str("Windowed")
        };
    }

    pub fn set_gravity_mode(&mut self, gravity_mode: bool)
        ensures
            final(self).gravity_mode == gravity_mode,
            final(self).wf() == old(self).wf(),
    {
        self.gravity_mode = gravity_mode;
    }

    pub fn set_vsync(&mut self, enabled: bool)
        ensures
            final(self).vsync_enabled == enabled,
            final(self).vsync_button.label@ == (if enabled { "VSync: ON"@ } else { "VSync: OFF"@ }),
            final(self).wf() == old(self).wf(),
    {
        self.vsync_enabled = enabled;
        self.vsync_button.label = if enabled {
            String::from_str("VSync: ON")
        } else {
            String::from_str("VSync: OFF")
        };
    }

    pub fn set_game_started(&mut self, started: bool)
        ensures
            final(self).game_started == started,
            final(self).resume_button.label@ == (if started { "Resume"@ } else { "New Game"@ }),
            final(self).wf() == old(self).wf(),
    {
        self.game_started = started;
        self.resume_button.label = if started {
            String::from_str("Resume")
        } else {
            String::from_str("New Game")
        };
    }

    /// Records the resolution in use, and selects it in the list when it is a preset.
    pub fn set_resolution(&mut self, width: u32, height: u32)
        requires
            old(self).wf(),
        ensures
            final(self).wf(),
            final(self).resolution == (width, height),
            final(self).selected_resolution_index == match preset_index(
                old(self).available_resolutions@,
                width,
                height,
                RESOLUTION_PRESETS as nat,
            ) {
                Some(i) => i,
                None => old(self).selected_resolution_index,
            },
    {
        self.resolution = (width, height);
        let mut i: usize = 0;
        while i < self.available_resolutions.len()
            invariant
                i <= self.available_resolutions.len(),
                self.wf(),
                self.selected_resolution_index == old(self).selected_resolution_index,
                self.available_resolutions@ == old(self).available_resolutions@,
                self.resolution == (width, height),
                preset_index(self.available_resolutions@, width, height, i as nat).is_none(),
            decreases self.available_resolutions.len() - i,
        {
            let (w, h) = self.available_resolutions[i];
            if w == width && h == height {
                self.selected_resolution_index = i;
                proof {
                    lemma_preset_index_stays(self.available_resolutions@, width, height, (i + 1) as nat, RESOLUTION_PRESETS as nat);
                }
                return;
            }
            i += 1;
        }
    }

    pub fn get_selected_resolution(&self) -> (r: (u32, u32))
        requires
            self.wf(),
        ensures
            r == self.available_resolutions@[self.selected_resolution_index as int],
    {
        self.available_resolutions[self.selected_resolution_index]
    }

    /// A new resolution is tried: remember the old one and start the countdown.
    pub fn start_resolution_confirmation(&mut self, old_resolution: (u32, u32))
        ensures
            final(self).pending_resolution == Some(old_resolution),
            final(self).resolution_confirm_timer == Some(RESOLUTION_CONFIRM_TICKS),
            final(self).wf() == old(self).wf(),
    {
        self.pending_resolution = Some(old_resolution);
        self.resolution_confirm_timer = Some(RESOLUTION_CONFIRM_TICKS);
    }

    /// Counts the confirmation down; returns true once it has run out (revert).
    pub fn update_resolution_timer(&mut self) -> (expired: bool)
        ensures
            expired == (old(self).resolution_confirm_timer == Some(0u32)),
            final(self).resolution_confirm_timer == match old(self).resolution_confirm_timer {
                Some(t) => Some(if t > 0 { (t - 1) as u32 } else { 0 }),
                None => None,
            },
            final(self).wf() == old(self).wf(),
    {
        match self.resolution_confirm_timer {
            Some(t) => {
                if t > 0 {
                    self.resolution_confirm_timer = Some(t - 1);
                    false
                } else {
                    true
                }
            },
            None => false,
        }
    }

    pub fn confirm_resolution(&mut self)
        ensures
            final(self).pending_resolution.is_none(),
            final(self).resolution_confirm_timer.is_none(),
            final(self).wf() == old(self).wf(),
    {
        self.pending_resolution = None;
        self.resolution_confirm_timer = None;
    }

    /// Abandons the new resolution; returns the one to go back to.
    pub fn cancel_resolution(&mut self) -> (back: Option<(u32, u32)>)
        ensures
            back == old(self).pending_resolution,
            final(self).pending_resolution.is_none(),
            final(self).resolution_confirm_timer.is_none(),
            final(self).wf() == old(self).wf(),
    {
        let back = self.pending_resolution;
        self.pending_resolution = None;
        self.resolution_confirm_timer = None;
        back
    }
}

proof fn lemma_preset_index_stays(list: Seq<(u32, u32)>, w: u32, h: u32, k: nat, n: nat)
    requires
        k <= n,
        preset_index(list, w, h, k).is_some(),
    ensures
        preset_index(list, w, h, n) == preset_index(list, w, h, k),
    decreases n - k,
{
    if k < n {
        lemma_preset_index_stays(list, w, h, k, (n - 1) as nat);
    }
}

/// The action a click at (`mouse_x`, `mouse_y`) asks for (see `menu_action`).
pub fn handle_menu_click(menu: &Menu, mouse_x: i32, mouse_y: i32) -> (a: MenuAction)
    ensures
        a == menu_action(*menu, mouse_x, mouse_y),
{
    match menu.state {
        MenuState::Main => {
            if menu.resume_button.is_clicked(mouse_x, mouse_y) {
                return if menu.game_started {
                    MenuAction::Resume
                } else {
                    MenuAction::NewGame
                };
            }
            if menu.restart_button.is_clicked(mouse_x, mouse_y) {
                return MenuAction::Restart;
            }
            if menu.gravity_mode_button.is_clicked(mouse_x, mouse_y) {
                return MenuAction::ToggleGravity;
            }
            if menu.level_editor_button.is_clicked(mouse_x, mouse_y) {
                return MenuAction::EnterLevelEditor;
            }
            if menu.settings_button.is_clicked(mouse_x, mouse_y) {
                return MenuAction::OpenSettings;
            }
            if menu.quit_button.is_clicked(mouse_x, mouse_y) {
                return MenuAction::Quit;
            }
            if menu.github_button.is_clicked(mouse_x, mouse_y) {
                return MenuAction::OpenGithub;
            }
        },
        MenuState::Settings => {
            if menu.resolution_confirm_timer.is_some() {
                if menu.confirm_button.is_clicked(mouse_x, mouse_y) {
                    return MenuAction::ConfirmResolution;
                }
                if menu.cancel_button.is_clicked(mouse_x, mouse_y) {
                    return MenuAction::CancelResolution;
                }
                return MenuAction::NoAction;
            }
            if menu.music_toggle_button.is_clicked(mouse_x, mouse_y) {
                return MenuAction::ToggleMusic;
            }
            if menu.sfx_toggle_button.is_clicked(mouse_x, mouse_y) {
                return MenuAction::ToggleSFX;
            }
            if menu.fullscreen_button.is_clicked(mouse_x, mouse_y) {
                return MenuAction::ToggleFullscreen;
            }
            if menu.vsync_button.is_clicked(mouse_x, mouse_y) {
                return MenuAction::ToggleVSync;
            }
            let mut i: usize = 0;
            while i < menu.resolution_buttons.len()
                invariant
                    i <= menu.resolution_buttons.len(),
                    menu.state == MenuState::Settings,
                    menu.resolution_confirm_timer.is_none(),
                    !hit(menu.music_toggle_button.rect, mouse_x, mouse_y),
                    !hit(menu.sfx_toggle_button.rect, mouse_x, mouse_y),
                    !hit(menu.fullscreen_button.rect, mouse_x, mouse_y),
                    !hit(menu.vsync_button.rect, mouse_x, mouse_y),
                    first_hit(menu.resolution_buttons@, mouse_x, mouse_y, i as nat).is_none(),
                decreases menu.resolution_buttons.len() - i,
            {
                if menu.resolution_buttons[i].is_clicked(mouse_x, mouse_y) {
                    proof {
                        lemma_first_hit_stays(menu.resolution_buttons@, mouse_x, mouse_y, (i + 1) as nat, menu.resolution_buttons@.len());
                    }
                    return MenuAction::SelectResolution(i);
                }
                i += 1;
            }
            if menu.back_button.is_clicked(mouse_x, mouse_y) {
                return MenuAction::CloseSettings;
            }
        },
    }
    MenuAction::NoAction
}

proof fn lemma_first_hit_stays(buttons: Seq<Button>, x: i32, y: i32, k: nat, n: nat)
    requires
        k <= n,
        first_hit(buttons, x, y, k).is_some(),
    ensures
        first_hit(buttons, x, y, n) == first_hit(buttons, x, y, k),
    decreases n - k,
{
    if k < n {
        lemma_first_hit_stays(buttons, x, y, k, (n - 1) as nat);
    }
}

} // verus!
