//! Core auto-raise logic: what to do with each mouse event.
//!
//! Each event is handled in three moves. `RaiserState::tick` counts poll
//! cycles and begins an AeroSpace refresh when one is due. Then the facts the
//! decision reads about the window under the pointer are gathered one at a
//! time, in the order `RaiserState::next_query` asks for them: only those that
//! the decision reaches are looked up. Last, `RaiserState::handle_mouse_event`
//! decides, updates the raise state and names the action to perform.

use vstd::prelude::*;
use crate::aerospace::{AeroSpaceState, RefreshJob};
use crate::config::Config;
use crate::text::{chars_of, contains_chars, to_lowercase};

verus! {

/// `CGEventFlags` bit of the Control key.
pub open spec fn control_mask() -> u64 {
    0x0004_0000
}

/// `CGEventFlags` bit of the Option (Alternate) key.
pub open spec fn option_mask() -> u64 {
    0x0008_0000
}

/// `CGEventFlags` bit of the Command key.
pub open spec fn command_mask() -> u64 {
    0x0010_0000
}

/// Whether the disabling key is named "disabled", in any case: no key
/// disables raising then, and the modifier flags are not read.
pub open spec fn key_disabled(key: Seq<char>) -> bool {
    crate::text::lowercase(key) == "disabled"@
}

/// Whether the key named `k`, already in lower case, is held in the modifier
/// flags `flags`: "control", "option" and "command" are tested; "disabled"
/// and any other name never count as held.
pub open spec fn lower_key_held(k: Seq<char>, flags: u64) -> bool {
    if k == "disabled"@ {
        false
    } else if k == "control"@ {
        flags & control_mask() != 0
    } else if k == "option"@ {
        flags & option_mask() != 0
    } else if k == "command"@ {
        flags & command_mask() != 0
    } else {
        false
    }
}

/// Whether the key named `key` is held in the modifier flags `flags`, the
/// name compared in lower case.
pub open spec fn modifier_held(key: Seq<char>, flags: u64) -> bool {
    lower_key_held(crate::text::lowercase(key), flags)
}

/// Whether `name` is one of `names`, all of them already in lower case.
pub open spec fn lower_name_listed(names: Seq<Seq<char>>, name: Seq<char>) -> bool {
    exists|i: int| 0 <= i < names.len() && #[trigger] names[i] == name
}

/// Whether `title` contains one of `patterns`, all of them already in lower
/// case.
pub open spec fn lower_title_matches(patterns: Seq<Seq<char>>, title: Seq<char>) -> bool {
    exists|i: int| 0 <= i < patterns.len() && crate::text::contains(title, #[trigger] patterns[i])
}

/// What the window server says of the top window under the pointer.
#[derive(Debug, Clone)]
pub struct WindowFacts {
    pub pid: i32,
    pub app_name: String,
    pub layer: i32,
    pub window_id: u32,
}

/// A fact that the decision needs next.
#[derive(Debug, Clone, Copy, PartialEq, Eq)]
pub enum Query {
    /// The current modifier-key flags.
    ModifierFlags,
    /// The top window under the pointer.
    WindowAtPoint,
    /// Whether the focused window of the process is in full screen.
    Fullscreen(i32),
    /// The title of the focused window of the process.
    WindowTitle(i32),
    /// The AX window ID of the focused window of the process.
    AxWindowId(i32),
}

/// The facts gathered for one mouse event; each is `None` until looked up.
#[derive(Debug, Clone)]
pub struct Observations {
    pub modifier_flags: Option<u64>,
    pub window: Option<Option<WindowFacts>>,
    pub fullscreen: Option<bool>,
    pub title: Option<Option<String>>,
    pub ax_window_id: Option<Option<u32>>,
}

impl Observations {
    /// Nothing looked up yet.
    pub fn new() -> (r: Observations)
        ensures
            r.modifier_flags is None,
            r.window is None,
            r.fullscreen is None,
            r.title is None,
            r.ax_window_id is None,
    {
        Observations {
            modifier_flags: None,
            window: None,
            fullscreen: None,
            title: None,
            ax_window_id: None,
        }
    }
}

/// What to do after a mouse event.
#[derive(Debug, Clone, Copy, PartialEq, Eq)]
pub enum RaiseAction {
    /// Nothing.
    Nothing,
    /// Hide the border.
    HideBorder,
    /// Raise the window and activate its application, and draw the border
    /// around it if `draw_border`.
    Raise { pid: i32, window_id: u32, draw_border: bool },
}

/// Whether `name` is on the ignore list `apps`, compared in lower case.
pub open spec fn app_ignored(apps: Seq<Seq<char>>, name: Seq<char>) -> bool {
    exists|i: int|
        0 <= i < apps.len() && crate::text::lowercase(#[trigger] apps[i]) == crate::text::lowercase(
            name,
        )
}

/// Whether the title contains one of `titles`, compared in lower case.
pub open spec fn title_ignored(titles: Seq<Seq<char>>, title: Seq<char>) -> bool {
    exists|i: int|
        0 <= i < titles.len() && crate::text::contains(
            crate::text::lowercase(title),
            crate::text::lowercase(#[trigger] titles[i]),
        )
}

/// Whether AeroSpace is known and available, so that the AX window ID of the
/// window under the pointer matters.
pub open spec fn aerospace_active(aero: Option<AeroSpaceState>) -> bool {
    aero matches Some(a) && a.is_available()
}

/// Whether the disabling key is held, by the flags observed.
pub open spec fn held(cfg: Config, obs: Observations) -> bool {
    !key_disabled(cfg.disable_key@) && (obs.modifier_flags matches Some(f) && modifier_held(
        cfg.disable_key@,
        f,
    ))
}

/// The fact that the decision needs next, or `None` when it has all it
/// reads. The order is that of the checks: disabling key, window under the
/// pointer, full screen, ignored title, AeroSpace window ID.
pub open spec fn next_query(cfg: Config, aero: Option<AeroSpaceState>, obs: Observations) -> Option<
    Query,
> {
    if !key_disabled(cfg.disable_key@) && obs.modifier_flags is None {
        Some(Query::ModifierFlags)
    } else if held(cfg, obs) {
        None
    } else {
        match obs.window {
            None => Some(Query::WindowAtPoint),
            Some(None) => None,
            Some(Some(w)) => if w.layer > 5 {
                None
            } else {
                match obs.fullscreen {
                    None => Some(Query::Fullscreen(w.pid)),
                    Some(true) => None,
                    Some(false) => if app_ignored(
                        crate::text::string_views(cfg.ignore_apps@),
                        w.app_name@,
                    ) {
                        None
                    } else if cfg.ignore_titles@.len() > 0 && obs.title is None {
                        Some(Query::WindowTitle(w.pid))
                    } else if cfg.ignore_titles@.len() > 0 && (obs.title matches Some(Some(t))
                        && title_ignored(crate::text::string_views(cfg.ignore_titles@), t@)) {
                        None
                    } else if aerospace_active(aero) && obs.ax_window_id is None {
                        Some(Query::AxWindowId(w.pid))
                    } else {
                        None
                    },
                }
            },
        }
    }
}

/// The part of the raise state that an event changes.
pub struct Marks {
    /// The window that the pointer was over last
    pub last_window_id: Option<u32>,
    /// How many ticks the pointer has stayed still over that window
    pub still_ticks: u32,
    /// The window that was raised last
    pub raised_window_id: Option<u32>,
}

/// `HideBorder` where a border is drawn, else `Nothing`.
pub open spec fn hide_if_shown(cfg: Config) -> RaiseAction {
    if cfg.border_shown() {
        RaiseAction::HideBorder
    } else {
        RaiseAction::Nothing
    }
}

/// How an event over window `w` ends once the tiled-or-floating question is
/// settled: the stillness count is updated, and the window is raised unless
/// it was raised already or the delay holds it back (a delay of 0 never
/// raises, 1 raises at once, and above 1 waits until the pointer has been
/// still for that many ticks).
pub open spec fn raise_decision(cfg: Config, m: Marks, moved: bool, w: WindowFacts) -> (Marks, RaiseAction) {
    let new_window = m.last_window_id != Some(w.window_id);
    let still = if moved {
        0
    } else if new_window {
        1
    } else {
        (m.still_ticks + 1) as u32
    };
    let raised = if new_window {
        None
    } else {
        m.raised_window_id
    };
    let after = Marks { last_window_id: Some(w.window_id), still_ticks: still, raised_window_id: raised };
    if raised == Some(w.window_id) || cfg.delay == 0 || (cfg.delay > 1 && still < cfg.delay) {
        (after, RaiseAction::Nothing)
    } else {
        (
            Marks { raised_window_id: Some(w.window_id), ..after },
            RaiseAction::Raise {
                pid: w.pid,
                window_id: w.window_id,
                draw_border: cfg.border_shown(),
            },
        )
    }
}

/// The decision on an event, from the gathered facts:
///  1. the disabling key held: nothing;
///  2. no window under the pointer: forget the window, hide the border;
///  3. a system layer (above 5): nothing;
///  4. a full-screen window: forget it, hide the border;
///  5. an ignored app or title: nothing;
///  6. with AeroSpace: a tiled window is not raised, AeroSpace manages its
///     focus, and where it lies on another workspace than the focused one
///     the border is hidden; a floating window goes on like any other;
///  7. else the window is raised once the delay allows, and only once.
pub open spec fn event_result(
    cfg: Config,
    m: Marks,
    aero: Option<AeroSpaceState>,
    moved: bool,
    obs: Observations,
) -> (Marks, RaiseAction) {
    if held(cfg, obs) {
        (m, RaiseAction::Nothing)
    } else {
        match obs.window {
            Some(Some(w)) => if w.layer > 5 {
                (m, RaiseAction::Nothing)
            } else if obs.fullscreen == Some(true) {
                (Marks { last_window_id: None, raised_window_id: None, ..m }, hide_if_shown(cfg))
            } else if app_ignored(crate::text::string_views(cfg.ignore_apps@), w.app_name@) {
                (m, RaiseAction::Nothing)
            } else if cfg.ignore_titles@.len() > 0 && (obs.title matches Some(Some(t))
                && title_ignored(crate::text::string_views(cfg.ignore_titles@), t@)) {
                (m, RaiseAction::Nothing)
            } else if aerospace_active(aero) && (obs.ax_window_id matches Some(Some(ax))
                && !aero->0.floating().contains(ax)) {
                let a = aero->0;
                let ax = obs.ax_window_id->0->0;
                if crate::aerospace::on_current_workspace(
                    a.is_available(),
                    a.current(),
                    a.workspaces(),
                    ax,
                ) {
                    (Marks { last_window_id: Some(w.window_id), ..m }, RaiseAction::Nothing)
                } else {
                    (Marks { last_window_id: Some(w.window_id), ..m }, hide_if_shown(cfg))
                }
            } else {
                raise_decision(cfg, m, moved, w)
            },
            _ => (
                Marks { last_window_id: None, still_ticks: 0, raised_window_id: None },
                hide_if_shown(cfg),
            ),
        }
    }
}

/// Whether the decision on an event would count one more still tick past
/// `u32::MAX`.
pub open spec fn still_overflows(
    cfg: Config,
    m: Marks,
    aero: Option<AeroSpaceState>,
    moved: bool,
    obs: Observations,
) -> bool {
    &&& !moved
    &&& m.still_ticks == u32::MAX
    &&& !held(cfg, obs)
    &&& obs.window matches Some(Some(w)) && {
        &&& w.layer <= 5
        &&& obs.fullscreen != Some(true)
        &&& !app_ignored(crate::text::string_views(cfg.ignore_apps@), w.app_name@)
        &&& !(cfg.ignore_titles@.len() > 0 && (obs.title matches Some(Some(t)) && title_ignored(
            crate::text::string_views(cfg.ignore_titles@),
            t@,
        )))
        &&& !(aerospace_active(aero) && (obs.ax_window_id matches Some(Some(ax))
            && !aero->0.floating().contains(ax)))
        &&& m.last_window_id == Some(w.window_id)
    }
}

/// The raise state, kept from one mouse event to the next.
pub struct RaiserState {
    pub aerospace: Option<AeroSpaceState>,
    /// CGWindowID of the window the mouse was over last tick
    pub last_window_id: Option<u32>,
    pub still_ticks: u32,
    /// CGWindowID of the last window we actually raised
    pub raised_window_id: Option<u32>,
    pub aerospace_cycle_counter: u32,
    pub aerospace_refresh_cycles: u32,
}

impl RaiserState {
    /// The part of the state that an event changes.
    pub open spec fn marks(&self) -> Marks {
        Marks {
            last_window_id: self.last_window_id,
            still_ticks: self.still_ticks,
            raised_window_id: self.raised_window_id,
        }
    }

    /// A state that has seen no window yet; with `aerospace_aware`, it holds
    /// an AeroSpace state that the caller then probes.
    pub fn new(aerospace_aware: bool, aerospace_cycles: u32, poll_millis: u64) -> (r: Self)
        requires
            aerospace_aware ==> aerospace_cycles * poll_millis <= u64::MAX,
        ensures
            r.aerospace is Some == aerospace_aware,
            r.aerospace matches Some(a) ==> {
                &&& a.floating() == Set::<u32>::empty()
                &&& a.workspaces() == Map::<u32, Seq<char>>::empty()
                &&& a.current() is None
                &&& !a.is_available()
                &&& a.interval() == aerospace_cycles * poll_millis
                &&& a.backdate() == 60_000
            },
            r.last_window_id is None,
            r.still_ticks == 0,
            r.raised_window_id is None,
            r.aerospace_cycle_counter == 0,
            r.aerospace_refresh_cycles == aerospace_cycles,
    {
        let aerospace = if aerospace_aware {
            Some(AeroSpaceState::new(aerospace_cycles, poll_millis))
        } else {
            None
        };
        RaiserState {
            aerospace,
            last_window_id: None,
            still_ticks: 0,
            raised_window_id: None,
            aerospace_cycle_counter: 0,
            aerospace_refresh_cycles: aerospace_cycles,
        }
    }

    /// Counts one poll cycle: every `aerospace_refresh_cycles` cycles the
    /// AeroSpace state refreshes if its interval has elapsed, and the refresh
    /// job is returned for the caller to run.
    pub fn tick(&mut self) -> (job: Option<RefreshJob>)
        requires
            old(self).aerospace_cycle_counter < u32::MAX,
        ensures
            final(self).marks() == old(self).marks(),
            final(self).aerospace_refresh_cycles == old(self).aerospace_refresh_cycles,
            final(self).aerospace is Some == old(self).aerospace is Some,
            if old(self).aerospace_cycle_counter + 1 >= old(self).aerospace_refresh_cycles {
                &&& final(self).aerospace_cycle_counter == 0
                &&& match old(self).aerospace {
                    Some(a) => AeroSpaceState::refreshed_if_due(a, final(self).aerospace->0, job),
                    None => job is None,
                }
            } else {
                &&& final(self).aerospace_cycle_counter == old(self).aerospace_cycle_counter + 1
                &&& final(self).aerospace == old(self).aerospace
                &&& job is None
            },
    {
        self.aerospace_cycle_counter = self.aerospace_cycle_counter + 1;
        if self.aerospace_cycle_counter >= self.aerospace_refresh_cycles {
            self.aerospace_cycle_counter = 0;
            match &mut self.aerospace {
                Some(s) => s.refresh_if_due(),
                None => None,
            }
        } else {
            None
        }
    }

    /// The fact that the decision on the current event needs next, or `None`
    /// once `handle_mouse_event` can decide.
    pub fn next_query(&self, cfg: &Config, obs: &Observations) -> (q: Option<Query>)
        ensures
            q == next_query(*cfg, self.aerospace, *obs),
    {
        let keyed = !key_is_disabled(&cfg.disable_key);
        if keyed && obs.modifier_flags.is_none() {
            return Some(Query::ModifierFlags);
        }
        if keyed && key_held(&cfg.disable_key, obs.modifier_flags.unwrap()) {
            return None;
        }
        match &obs.window {
            None => Some(Query::WindowAtPoint),
            Some(None) => None,
            Some(Some(w)) => {
                if w.layer > 5 {
                    return None;
                }
                match obs.fullscreen {
                    None => Some(Query::Fullscreen(w.pid)),
                    Some(true) => None,
                    Some(false) => {
                        if app_is_ignored(&cfg.ignore_apps, &w.app_name) {
                            None
                        } else if cfg.ignore_titles.len() > 0 && obs.title.is_none() {
                            Some(Query::WindowTitle(w.pid))
                        } else if cfg.ignore_titles.len() > 0 && match &obs.title {
                            Some(Some(t)) => title_is_ignored(&cfg.ignore_titles, t),
                            _ => false,
                        } {
                            None
                        } else if aerospace_on(&self.aerospace) && obs.ax_window_id.is_none() {
                            Some(Query::AxWindowId(w.pid))
                        } else {
                            None
                        }
                    },
                }
            },
        }
    }

    /// Whether handling the event would count a still tick past `u32::MAX`;
    /// `handle_mouse_event` is not called then.
    pub fn still_ticks_overflow(&self, cfg: &Config, moved: bool, obs: &Observations) -> (r: bool)
        ensures
            r == still_overflows(*cfg, self.marks(), self.aerospace, moved, *obs),
    {
        if moved || self.still_ticks < u32::MAX {
            return false;
        }
        let keyed = !key_is_disabled(&cfg.disable_key);
        if keyed && match obs.modifier_flags {
            Some(f) => key_held(&cfg.disable_key, f),
            None => false,
        } {
            return false;
        }
        match &obs.window {
            Some(Some(w)) => {
                if w.layer > 5 || obs.fullscreen == Some(true) || app_is_ignored(
                    &cfg.ignore_apps,
                    &w.app_name,
                ) {
                    return false;
                }
                if cfg.ignore_titles.len() > 0 && match &obs.title {
                    Some(Some(t)) => title_is_ignored(&cfg.ignore_titles, t),
                    _ => false,
                } {
                    return false;
                }
                if aerospace_on(&self.aerospace) {
                    match obs.ax_window_id {
                        Some(Some(ax)) => {
                            let a = self.aerospace.as_ref().unwrap();
                            if !a.is_floating(ax) {
                                return false;
                            }
                        },
                        _ => {},
                    }
                }
                self.last_window_id == Some(w.window_id)
            },
            _ => false,
        }
    }

    /// Decides what to do with the event whose facts are gathered in `obs`
    /// (`moved`: whether the pointer moved more than a point since the last
    /// event), and records it in the raise state.
    pub fn handle_mouse_event(&mut self, cfg: &Config, moved: bool, obs: &Observations) -> (action:
        RaiseAction)
        requires
            next_query(*cfg, old(self).aerospace, *obs) is None,
            !still_overflows(*cfg, old(self).marks(), old(self).aerospace, moved, *obs),
        ensures
            (final(self).marks(), action) == event_result(
                *cfg,
                old(self).marks(),
                old(self).aerospace,
                moved,
                *obs,
            ),
            final(self).aerospace == old(self).aerospace,
            final(self).aerospace_cycle_counter == old(self).aerospace_cycle_counter,
            final(self).aerospace_refresh_cycles == old(self).aerospace_refresh_cycles,
    {
        let show = cfg.show_border();
        let hide = if show {
            RaiseAction::HideBorder
        } else {
            RaiseAction::Nothing
        };
        let keyed = !key_is_disabled(&cfg.disable_key);
        // 1. Modifier key disable
        if keyed && match obs.modifier_flags {
            Some(f) => key_held(&cfg.disable_key, f),
            None => false,
        } {
            return RaiseAction::Nothing;
        }
        // 2. Window under cursor
        let w = match &obs.window {
            Some(Some(w)) => w,
            _ => {
                self.last_window_id = None;
                self.raised_window_id = None;
                self.still_ticks = 0;
                return hide;
            },
        };
        // 3. Skip system UI layers
        if w.layer > 5 {
            return RaiseAction::Nothing;
        }
        // 4. Skip fullscreen windows
        if obs.fullscreen == Some(true) {
            self.raised_window_id = None;
            self.last_window_id = None;
            return hide;
        }
        // 5. Ignore app list
        if app_is_ignored(&cfg.ignore_apps, &w.app_name) {
            return RaiseAction::Nothing;
        }
        // 6. Ignore title list
        if cfg.ignore_titles.len() > 0 && match &obs.title {
            Some(Some(t)) => title_is_ignored(&cfg.ignore_titles, t),
            _ => false,
        } {
            return RaiseAction::Nothing;
        }
        // 7. AeroSpace awareness, keyed on the AX window ID: only floating
        //    windows are raised
        if aerospace_on(&self.aerospace) {
            match obs.ax_window_id {
                Some(Some(ax)) => {
                    let a = self.aerospace.as_ref().unwrap();
                    if !a.is_floating(ax) {
                        // tiled: AeroSpace manages its focus; off the
                        // focused workspace the border goes
                        self.last_window_id = Some(w.window_id);
                        if a.window_matches_current_workspace(ax) {
                            return RaiseAction::Nothing;
                        }
                        return hide;
                    }
                },
                _ => {},
            }
        }
        // 8. Detect window change
        let new_window = self.last_window_id != Some(w.window_id);
        if new_window {
            self.still_ticks = 0;
            self.raised_window_id = None;
        }
        self.last_window_id = Some(w.window_id);
        if moved {
            self.still_ticks = 0;
        } else {
            self.still_ticks = self.still_ticks + 1;
        }
        // 9. Already raised this exact window?
        if self.raised_window_id == Some(w.window_id) {
            return RaiseAction::Nothing;
        }
        // 10. Delay gate
        let delay = cfg.delay;
        if delay == 0 {
            return RaiseAction::Nothing;
        }
        if delay > 1 && self.still_ticks < delay {
            return RaiseAction::Nothing;
        }
        // 11. Raise
        self.raised_window_id = Some(w.window_id);
        RaiseAction::Raise { pid: w.pid, window_id: w.window_id, draw_border: show }
    }

    /// After a workspace or display change: forget the hovered and raised
    /// windows, make AeroSpace refresh at the next chance, and hide the
    /// border.
    pub fn on_context_changed(&mut self, cfg: &Config) -> (action: RaiseAction)
        ensures
            final(self).last_window_id is None,
            final(self).raised_window_id is None,
            final(self).still_ticks == old(self).still_ticks,
            final(self).aerospace_cycle_counter == old(self).aerospace_cycle_counter,
            final(self).aerospace_refresh_cycles == old(self).aerospace_refresh_cycles,
            final(self).aerospace is Some == old(self).aerospace is Some,
            old(self).aerospace matches Some(a) ==> {
                let b = final(self).aerospace->0;
                &&& b.same_facts(&a)
                &&& b.interval() == a.interval()
                &&& b.backdate() == a.interval() + 1000
            },
            action == hide_if_shown(*cfg),
    {
        self.raised_window_id = None;
        self.last_window_id = None;
        match &mut self.aerospace {
            Some(s) => s.invalidate(),
            None => {},
        }
        if cfg.show_border() {
            RaiseAction::HideBorder
        } else {
            RaiseAction::Nothing
        }
    }
}

fn aerospace_on(aero: &Option<AeroSpaceState>) -> (r: bool)
    ensures
        r == aerospace_active(*aero),
{
    match aero {
        Some(a) => a.available(),
        None => false,
    }
}

/// Whether the disabling key is named "disabled", in any case.
fn key_is_disabled(key: &String) -> (r: bool)
    ensures
        r == key_disabled(key@),
{
    let k = to_lowercase(key.as_str());
    k.eq(&"disabled".to_owned())
}

/// Whether the key named `k`, already in lower case, is held in `flags`.
pub fn is_lower_key_held(k: &String, flags: u64) -> (r: bool)
    ensures
        r == lower_key_held(k@, flags),
{
    if k.eq(&"disabled".to_owned()) {
        false
    } else if k.eq(&"control".to_owned()) {
        flags & 0x0004_0000 != 0
    } else if k.eq(&"option".to_owned()) {
        flags & 0x0008_0000 != 0
    } else if k.eq(&"command".to_owned()) {
        flags & 0x0010_0000 != 0
    } else {
        false
    }
}

/// Whether `name` is one of `names`, all of them already in lower case.
pub fn is_lower_name_listed(names: &Vec<String>, name: &String) -> (r: bool)
    ensures
        r == lower_name_listed(crate::text::string_views(names@), name@),
{
    let mut i: usize = 0;
    while i < names.len()
        invariant
            0 <= i <= names@.len(),
            forall|k: int| 0 <= k < i ==> names@[k]@ != name@,
        decreases names.len() - i,
    {
        if names[i].eq(name) {
            assert(crate::text::string_views(names@)[i as int] == names@[i as int]@);
            return true;
        }
        i = i + 1;
    }
    assert forall|k: int| 0 <= k < names@.len() implies #[trigger] crate::text::string_views(
        names@,
    )[k] != name@ by {
        assert(crate::text::string_views(names@)[k] == names@[k]@);
    }
    false
}

/// Whether `title` contains one of `patterns`, all of them already in lower
/// case.
pub fn lower_title_matches_any(patterns: &Vec<String>, title: &String) -> (r: bool)
    ensures
        r == lower_title_matches(crate::text::string_views(patterns@), title@),
{
    let hay = chars_of(title.as_str());
    let mut i: usize = 0;
    while i < patterns.len()
        invariant
            0 <= i <= patterns@.len(),
            hay@ == title@,
            forall|k: int| 0 <= k < i ==> !crate::text::contains(title@, patterns@[k]@),
        decreases patterns.len() - i,
    {
        let needle = chars_of(patterns[i].as_str());
        if contains_chars(hay.as_slice(), needle.as_slice()) {
            assert(crate::text::string_views(patterns@)[i as int] == patterns@[i as int]@);
            return true;
        }
        i = i + 1;
    }
    assert forall|k: int| 0 <= k < patterns@.len() implies !crate::text::contains(
        title@,
        #[trigger] crate::text::string_views(patterns@)[k],
    ) by {
        assert(crate::text::string_views(patterns@)[k] == patterns@[k]@);
    }
    false
}

/// Each string of `v` in lower case, in order.
fn lowered_all(v: &Vec<String>) -> (r: Vec<String>)
    ensures
        r@.len() == v@.len(),
        forall|k: int| 0 <= k < v@.len() ==> #[trigger] r@[k]@ == crate::text::lowercase(v@[k]@),
{
    let mut r: Vec<String> = Vec::new();
    let mut i: usize = 0;
    while i < v.len()
        invariant
            0 <= i <= v@.len(),
            r@.len() == i,
            forall|k: int| 0 <= k < i ==> #[trigger] r@[k]@ == crate::text::lowercase(v@[k]@),
        decreases v.len() - i,
    {
        r.push(to_lowercase(v[i].as_str()));
        i = i + 1;
    }
    r
}

/// Whether the disabling key `key` is held in `flags`.
fn key_held(key: &String, flags: u64) -> (r: bool)
    ensures
        r == modifier_held(key@, flags),
{
    let k = to_lowercase(key.as_str());
    is_lower_key_held(&k, flags)
}

/// Whether the app `name` is on the ignore list, compared in lower case.
fn app_is_ignored(apps: &Vec<String>, name: &String) -> (r: bool)
    ensures
        r == app_ignored(crate::text::string_views(apps@), name@),
{
    let target = to_lowercase(name.as_str());
    let lowered = lowered_all(apps);
    let r = is_lower_name_listed(&lowered, &target);
    let ghost low = crate::text::string_views(lowered@);
    let ghost orig = crate::text::string_views(apps@);
    assert(r == app_ignored(orig, name@)) by {
        assert forall|i: int| 0 <= i < low.len() implies #[trigger] low[i]
            == crate::text::lowercase(orig[i]) by {
            assert(low[i] == lowered@[i]@);
            assert(orig[i] == apps@[i]@);
        }
        if r {
            let i = choose|i: int| 0 <= i < low.len() && #[trigger] low[i] == target@;
            assert(crate::text::lowercase(orig[i]) == crate::text::lowercase(name@));
        }
        if app_ignored(orig, name@) {
            let i = choose|i: int|
                0 <= i < orig.len() && crate::text::lowercase(#[trigger] orig[i])
                    == crate::text::lowercase(name@);
            assert(low[i] == target@);
        }
    }
    r
}

/// Whether the title contains one of `titles`, compared in lower case.
fn title_is_ignored(titles: &Vec<String>, title: &String) -> (r: bool)
    ensures
        r == title_ignored(crate::text::string_views(titles@), title@),
{
    let lower = to_lowercase(title.as_str());
    let lowered = lowered_all(titles);
    let r = lower_title_matches_any(&lowered, &lower);
    let ghost low = crate::text::string_views(lowered@);
    let ghost orig = crate::text::string_views(titles@);
    assert(r == title_ignored(orig, title@)) by {
        assert forall|i: int| 0 <= i < low.len() implies #[trigger] low[i]
            == crate::text::lowercase(orig[i]) by {
            assert(low[i] == lowered@[i]@);
            assert(orig[i] == titles@[i]@);
        }
        if r {
            let i = choose|i: int| 0 <= i < low.len() && crate::text::contains(lower@, #[trigger] low[i]);
            assert(crate::text::contains(
                crate::text::lowercase(title@),
                crate::text::lowercase(orig[i]),
            ));
        }
        if title_ignored(orig, title@) {
            let i = choose|i: int|
                0 <= i < orig.len() && crate::text::contains(
                    crate::text::lowercase(title@),
                    crate::text::lowercase(#[trigger] orig[i]),
                );
            assert(crate::text::contains(lower@, low[i]));
        }
    }
    r
}

// ── Laws ──────────────────────────────────────────────────────────────────────

/// The gathering of facts only asks for what is still missing, so an event
/// needs at most five lookups.
pub proof fn lemma_query_asks_missing_fact(cfg: Config, aero: Option<AeroSpaceState>, obs: Observations)
    ensures
        next_query(cfg, aero, obs) == Some(Query::ModifierFlags) ==> obs.modifier_flags is None,
        next_query(cfg, aero, obs) == Some(Query::WindowAtPoint) ==> obs.window is None,
        next_query(cfg, aero, obs) matches Some(Query::Fullscreen(_)) ==> obs.fullscreen is None,
        next_query(cfg, aero, obs) matches Some(Query::WindowTitle(_)) ==> obs.title is None,
        next_query(cfg, aero, obs) matches Some(Query::AxWindowId(_)) ==> obs.ax_window_id is None,
{
}

/// While the disabling key is held, an event changes nothing and does
/// nothing.
pub proof fn lemma_disabling_key_held(
    cfg: Config,
    m: Marks,
    aero: Option<AeroSpaceState>,
    moved: bool,
    obs: Observations,
)
    requires
        !key_disabled(cfg.disable_key@),
        obs.modifier_flags matches Some(f) && modifier_held(cfg.disable_key@, f),
    ensures
        event_result(cfg, m, aero, moved, obs) == (m, RaiseAction::Nothing),
{
}

/// With a delay of 0, no window is ever raised.
pub proof fn lemma_delay_zero_never_raises(
    cfg: Config,
    m: Marks,
    aero: Option<AeroSpaceState>,
    moved: bool,
    obs: Observations,
)
    requires
        cfg.delay == 0,
    ensures
        !(event_result(cfg, m, aero, moved, obs).1 is Raise),
{
}

/// With a delay of 1, a window is raised as soon as the pointer comes over it.
pub proof fn lemma_delay_one_raises_on_arrival(cfg: Config, m: Marks, moved: bool, w: WindowFacts)
    requires
        cfg.delay == 1,
        m.last_window_id != Some(w.window_id),
    ensures
        raise_decision(cfg, m, moved, w).1 == (RaiseAction::Raise {
            pid: w.pid,
            window_id: w.window_id,
            draw_border: cfg.border_shown(),
        }),
        raise_decision(cfg, m, moved, w).0.raised_window_id == Some(w.window_id),
{
}

/// With a delay above 1, a window is raised only once the pointer has stayed
/// still over it for `delay` ticks, whatever `require_mouse_stop` says; a
/// moving pointer raises nothing.
pub proof fn lemma_raise_waits_for_stillness(
    cfg: Config,
    m: Marks,
    aero: Option<AeroSpaceState>,
    moved: bool,
    obs: Observations,
)
    requires
        cfg.delay > 1,
    ensures
        event_result(cfg, m, aero, moved, obs).1 is Raise ==> !moved && event_result(
            cfg,
            m,
            aero,
            moved,
            obs,
        ).0.still_ticks >= cfg.delay,
{
}

/// A window is raised at most once while the pointer stays over it: after an
/// event that raises it, no later event over the same window raises it
/// again, whatever the settings and the AeroSpace state then.
pub proof fn lemma_raise_at_most_once(
    cfg: Config,
    m: Marks,
    aero: Option<AeroSpaceState>,
    moved: bool,
    obs: Observations,
    cfg2: Config,
    aero2: Option<AeroSpaceState>,
    moved2: bool,
    obs2: Observations,
)
    requires
        event_result(cfg, m, aero, moved, obs).1 matches RaiseAction::Raise { window_id, .. }
            && obs2.window matches Some(Some(w2)) && w2.window_id == window_id,
    ensures
        !(event_result(cfg2, event_result(cfg, m, aero, moved, obs).0, aero2, moved2, obs2).1 is Raise),
{
}

/// One mouse event, with the settings and AeroSpace state it is decided by.
pub struct EventInput {
    pub cfg: Config,
    pub aero: Option<AeroSpaceState>,
    pub moved: bool,
    pub obs: Observations,
}

/// The raise state after a run of events, and the action of each event.
pub open spec fn run_events(m: Marks, evs: Seq<EventInput>) -> (Marks, Seq<RaiseAction>)
    decreases evs.len(),
{
    if evs.len() == 0 {
        (m, seq![])
    } else {
        let e = evs[0];
        let (m1, a) = event_result(e.cfg, m, e.aero, e.moved, e.obs);
        let (mf, acts) = run_events(m1, evs.drop_first());
        (mf, seq![a] + acts)
    }
}

/// Whether an event finds the pointer over window `wid`, not in full screen.
pub open spec fn over_window(e: EventInput, wid: u32) -> bool {
    e.obs.window matches Some(Some(w)) && w.window_id == wid && e.obs.fullscreen != Some(true)
}

proof fn lemma_raised_window_stays_raised(e: EventInput, m: Marks, wid: u32)
    requires
        over_window(e, wid),
        m.last_window_id == Some(wid),
        m.raised_window_id == Some(wid),
    ensures
        event_result(e.cfg, m, e.aero, e.moved, e.obs).0.last_window_id == Some(wid),
        event_result(e.cfg, m, e.aero, e.moved, e.obs).0.raised_window_id == Some(wid),
        !(event_result(e.cfg, m, e.aero, e.moved, e.obs).1 is Raise),
{
}

proof fn lemma_no_raise_after_raised(m: Marks, evs: Seq<EventInput>, wid: u32)
    requires
        forall|i: int| 0 <= i < evs.len() ==> over_window(#[trigger] evs[i], wid),
        m.last_window_id == Some(wid),
        m.raised_window_id == Some(wid),
    ensures
        forall|i: int| 0 <= i < evs.len() ==> !(#[trigger] run_events(m, evs).1[i] is Raise),
        run_events(m, evs).1.len() == evs.len(),
    decreases evs.len(),
{
    if evs.len() > 0 {
        let e = evs[0];
        lemma_raised_window_stays_raised(e, m, wid);
        let (m1, a) = event_result(e.cfg, m, e.aero, e.moved, e.obs);
        let rest = evs.drop_first();
        assert forall|i: int| 0 <= i < rest.len() implies over_window(#[trigger] rest[i], wid) by {
            assert(rest[i] == evs[i + 1]);
        }
        lemma_no_raise_after_raised(m1, rest, wid);
        let acts = run_events(m, evs).1;
        assert forall|i: int| 0 <= i < evs.len() implies !(#[trigger] acts[i] is Raise) by {
            if i > 0 {
                assert(acts[i] == run_events(m1, rest).1[i - 1]);
            }
        }
    }
}

/// Over a whole run of events in which the pointer stays over one window
/// that is never in full screen, and no context change intervenes, that
/// window is raised at most once, whatever the settings and AeroSpace state
/// of each event.
pub proof fn lemma_raise_at_most_once_per_run(m: Marks, evs: Seq<EventInput>, wid: u32)
    requires
        forall|i: int| 0 <= i < evs.len() ==> over_window(#[trigger] evs[i], wid),
    ensures
        run_events(m, evs).1.len() == evs.len(),
        forall|i: int, j: int|
            0 <= i < evs.len() && 0 <= j < evs.len() && #[trigger] run_events(m, evs).1[i] is Raise
                && #[trigger] run_events(m, evs).1[j] is Raise ==> i == j,
    decreases evs.len(),
{
    if evs.len() > 0 {
        let e = evs[0];
        let (m1, a) = event_result(e.cfg, m, e.aero, e.moved, e.obs);
        let rest = evs.drop_first();
        assert forall|i: int| 0 <= i < rest.len() implies over_window(#[trigger] rest[i], wid) by {
            assert(rest[i] == evs[i + 1]);
        }
        lemma_raise_at_most_once_per_run(m1, rest, wid);
        let acts = run_events(m, evs).1;
        let racts = run_events(m1, rest).1;
        assert(acts =~= seq![a] + racts);
        if a is Raise {
            lemma_no_raise_after_raised(m1, rest, wid);
        }
        assert forall|i: int, j: int|
            0 <= i < evs.len() && 0 <= j < evs.len() && #[trigger] acts[i] is Raise
                && #[trigger] acts[j] is Raise implies i == j by {
            if i > 0 {
                assert(acts[i] == racts[i - 1]);
            }
            if j > 0 {
                assert(acts[j] == racts[j - 1]);
            }
        }
    }
}

/// An app on the ignore list is never raised or bordered.
pub proof fn lemma_ignored_app_left_alone(
    cfg: Config,
    m: Marks,
    aero: Option<AeroSpaceState>,
    moved: bool,
    obs: Observations,
)
    requires
        obs.window matches Some(Some(w)) && app_ignored(
            crate::text::string_views(cfg.ignore_apps@),
            w.app_name@,
        ),
        obs.fullscreen != Some(true),
    ensures
        event_result(cfg, m, aero, moved, obs) == (m, RaiseAction::Nothing),
{
}

/// With AeroSpace, a tiled window is never raised: AeroSpace manages the
/// focus of tiled windows itself.
pub proof fn lemma_tiled_window_not_raised(
    cfg: Config,
    m: Marks,
    aero: Option<AeroSpaceState>,
    moved: bool,
    obs: Observations,
)
    requires
        aerospace_active(aero),
        obs.ax_window_id matches Some(Some(ax)) && !aero->0.floating().contains(ax),
    ensures
        !(event_result(cfg, m, aero, moved, obs).1 is Raise),
{
}

/// With AeroSpace, a tiled window on another workspace than the focused one
/// loses the border when the pointer comes over it; on the focused workspace
/// it keeps it. Either way it becomes the window the pointer was over last.
pub proof fn lemma_tiled_window_border(
    cfg: Config,
    m: Marks,
    aero: Option<AeroSpaceState>,
    moved: bool,
    obs: Observations,
    w: WindowFacts,
    ax: u32,
)
    requires
        !held(cfg, obs),
        obs.window == Some(Some(w)),
        w.layer <= 5,
        obs.fullscreen != Some(true),
        !app_ignored(crate::text::string_views(cfg.ignore_apps@), w.app_name@),
        !(cfg.ignore_titles@.len() > 0 && (obs.title matches Some(Some(t)) && title_ignored(
            crate::text::string_views(cfg.ignore_titles@),
            t@,
        ))),
        aerospace_active(aero),
        obs.ax_window_id == Some(Some(ax)),
        !aero->0.floating().contains(ax),
    ensures
        event_result(cfg, m, aero, moved, obs).0 == (Marks { last_window_id: Some(w.window_id), ..m }),
        event_result(cfg, m, aero, moved, obs).1 == (if crate::aerospace::on_current_workspace(
            aero->0.is_available(),
            aero->0.current(),
            aero->0.workspaces(),
            ax,
        ) {
            RaiseAction::Nothing
        } else {
            hide_if_shown(cfg)
        }),
{
}

/// With AeroSpace, a floating window that passes the key, layer, full-screen
/// and ignore checks is raised as any window is without AeroSpace; and
/// without AeroSpace (or without an AX window ID), every window that passes
/// them is.
pub proof fn lemma_floating_window_raised(
    cfg: Config,
    m: Marks,
    aero: Option<AeroSpaceState>,
    moved: bool,
    obs: Observations,
    w: WindowFacts,
)
    requires
        !held(cfg, obs),
        obs.window == Some(Some(w)),
        w.layer <= 5,
        obs.fullscreen != Some(true),
        !app_ignored(crate::text::string_views(cfg.ignore_apps@), w.app_name@),
        !(cfg.ignore_titles@.len() > 0 && (obs.title matches Some(Some(t)) && title_ignored(
            crate::text::string_views(cfg.ignore_titles@),
            t@,
        ))),
        !aerospace_active(aero) || obs.ax_window_id matches Some(None) || (obs.ax_window_id matches Some(
            Some(ax),
        ) && aero->0.floating().contains(ax)),
    ensures
        event_result(cfg, m, aero, moved, obs) == raise_decision(cfg, m, moved, w),
{
}

/// An app whose name equals an entry of the ignore list up to case is never
/// raised or bordered: the event over its window changes nothing and does
/// nothing.
pub proof fn lemma_app_ignored_case_insensitively(
    cfg: Config,
    m: Marks,
    aero: Option<AeroSpaceState>,
    moved: bool,
    obs: Observations,
    w: WindowFacts,
    i: int,
)
    requires
        obs.window == Some(Some(w)),
        obs.fullscreen != Some(true),
        0 <= i < cfg.ignore_apps@.len(),
        crate::text::lowercase(cfg.ignore_apps@[i]@) == crate::text::lowercase(w.app_name@),
    ensures
        event_result(cfg, m, aero, moved, obs) == (m, RaiseAction::Nothing),
{
    assert(crate::text::string_views(cfg.ignore_apps@)[i] == cfg.ignore_apps@[i]@);
}

/// A window whose title contains an entry of the title ignore list, compared
/// in lower case on both sides, is never raised or bordered.
pub proof fn lemma_title_ignored_case_insensitively(
    cfg: Config,
    m: Marks,
    aero: Option<AeroSpaceState>,
    moved: bool,
    obs: Observations,
    w: WindowFacts,
    t: String,
    i: int,
)
    requires
        obs.window == Some(Some(w)),
        obs.fullscreen != Some(true),
        obs.title == Some(Some(t)),
        0 <= i < cfg.ignore_titles@.len(),
        crate::text::contains(
            crate::text::lowercase(t@),
            crate::text::lowercase(cfg.ignore_titles@[i]@),
        ),
    ensures
        event_result(cfg, m, aero, moved, obs) == (m, RaiseAction::Nothing),
{
    assert(crate::text::string_views(cfg.ignore_titles@)[i] == cfg.ignore_titles@[i]@);
}

/// A moved pointer resets the stillness count of the window it is over, and
/// an event adds at most one tick to the count.
pub proof fn lemma_move_resets_stillness(
    cfg: Config,
    m: Marks,
    aero: Option<AeroSpaceState>,
    moved: bool,
    obs: Observations,
    w: WindowFacts,
)
    ensures
        raise_decision(cfg, m, true, w).0.still_ticks == 0,
        raise_decision(cfg, m, true, w).0.last_window_id == Some(w.window_id),
        event_result(cfg, m, aero, moved, obs).0.still_ticks <= m.still_ticks + 1,
        moved ==> event_result(cfg, m, aero, moved, obs).0.still_ticks == 0
            || event_result(cfg, m, aero, moved, obs).0.still_ticks == m.still_ticks,
{
}

/// With a delay above 1, the event right after one in which the pointer
/// moved over a window never raises that window: the stillness count starts
/// again from nothing.
pub proof fn lemma_no_raise_right_after_move(
    cfg: Config,
    m: Marks,
    w: WindowFacts,
    cfg2: Config,
    aero2: Option<AeroSpaceState>,
    moved2: bool,
    obs2: Observations,
)
    requires
        cfg2.delay > 1,
        obs2.window matches Some(Some(w2)) && w2.window_id == w.window_id,
    ensures
        !(event_result(cfg2, raise_decision(cfg, m, true, w).0, aero2, moved2, obs2).1 is Raise),
{
}

/// Where AeroSpace did not answer the version query, every event is decided,
/// and its facts gathered, exactly as without AeroSpace.
pub proof fn lemma_unavailable_aerospace_ignored(
    cfg: Config,
    m: Marks,
    a: AeroSpaceState,
    moved: bool,
    obs: Observations,
)
    requires
        !a.is_available(),
    ensures
        event_result(cfg, m, Some(a), moved, obs) == event_result(cfg, m, None, moved, obs),
        next_query(cfg, Some(a), obs) == next_query(cfg, None, obs),
        still_overflows(cfg, m, Some(a), moved, obs) == still_overflows(cfg, m, None, moved, obs),
{
}

} // verus!
