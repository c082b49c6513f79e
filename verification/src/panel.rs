//! The battery panel's alert-threshold control and dismissal rules, as a
//! state machine driven by the window's input events.

use vstd::prelude::*;
use crate::hid_path::chars_of;
use crate::app::{first_index_of_kind, first_of_kind};
use crate::native_devices::{DeviceKind, DeviceReading, PowerState};
use crate::text::{decimal, push_decimal};

verus! {

/// What the application does in response to the panel.
#[derive(Debug, Clone, Copy, PartialEq, Eq, Structural)]
pub enum PanelAction {
    /// Poll the devices now.
    Refresh,
    /// Store this alert threshold and show it.
    SetAlertThreshold(u8),
}

/// The part of the panel that a released left click landed on.
#[derive(Debug, Clone, Copy, PartialEq, Eq, Structural)]
pub enum ClickTarget {
    Refresh,
    StepperMinus,
    StepperValue,
    StepperPlus,
    Elsewhere,
}

/// An input event of the panel window, reduced to what the panel decides on.
pub enum PanelInput {
    CloseRequested,
    Focused(bool),
    Escape,
    Enter,
    Backspace,
    /// A key that produced text.
    Text(String),
    /// A released left click.
    Click(ClickTarget),
}

/// What the window must do after an input.
#[derive(Debug, Clone, Copy, PartialEq, Eq, Structural)]
pub struct PanelOutcome {
    pub action: Option<PanelAction>,
    /// Hide the window.
    pub close_window: bool,
    /// Draw the panel again.
    pub redraw: bool,
    /// Restart the caret blink timer.
    pub restart_caret: bool,
}

/// The panel's state: the threshold shown, the editing of its value, and
/// what decides when the panel closes.
#[derive(Debug, Clone, Copy, PartialEq, Eq, Structural)]
pub struct PanelState {
    pub alert_threshold: u8,
    pub threshold_editing: bool,
    pub threshold_replace_next_digit: bool,
    pub caret_visible: bool,
    pub visible: bool,
    pub outside_buttons_down: bool,
    pub has_received_focus: bool,
}

/// The state after hiding: nothing is edited and the caret is off.
pub open spec fn hidden(s: PanelState) -> PanelState {
    PanelState {
        visible: false,
        threshold_editing: false,
        threshold_replace_next_digit: false,
        caret_visible: false,
        ..s
    }
}

/// The state after an edit of the value ends.
pub open spec fn edit_finished(s: PanelState) -> PanelState {
    if s.threshold_editing {
        PanelState { threshold_editing: false, threshold_replace_next_digit: false, caret_visible: false, ..s }
    } else {
        s
    }
}

/// The threshold after typing digit `d`: the digit alone right after the
/// value was clicked, else the digit appended, capped at 100.
pub open spec fn typed_threshold(current: u8, replace: bool, d: u8) -> u8 {
    if replace {
        d
    } else if current * 10 + d >= 100 {
        100
    } else {
        (current * 10 + d) as u8
    }
}

/// The value of a character that is a decimal digit.
pub open spec fn digit_value(c: char) -> Option<u8> {
    if '0' <= c && c <= '9' {
        Some((c as u32 - '0' as u32) as u8)
    } else {
        None
    }
}

/// Whether key text is the refresh key, `r` in either case.
pub open spec fn is_refresh_key(text: Seq<char>) -> bool {
    text.len() == 1 && (text[0] == 'r' || text[0] == 'R')
}

/// The state and outcome after an input.
pub open spec fn panel_next(s: PanelState, input: PanelInput) -> (PanelState, PanelOutcome) {
    let none = PanelOutcome { action: None, close_window: false, redraw: false, restart_caret: false };
    match input {
        PanelInput::CloseRequested => (hidden(s), PanelOutcome { close_window: true, ..none }),
        PanelInput::Focused(true) => (PanelState { has_received_focus: true, ..s }, none),
        PanelInput::Focused(false) => if s.has_received_focus {
            (hidden(s), PanelOutcome { close_window: true, ..none })
        } else {
            (s, none)
        },
        PanelInput::Escape => (hidden(s), PanelOutcome { close_window: true, ..none }),
        PanelInput::Enter => if s.threshold_editing {
            (edit_finished(s), PanelOutcome { redraw: true, ..none })
        } else {
            (s, none)
        },
        PanelInput::Backspace => if s.threshold_editing {
            let t = (s.alert_threshold / 10) as u8;
            (
                PanelState { alert_threshold: t, threshold_replace_next_digit: false, caret_visible: true, ..s },
                PanelOutcome { action: Some(PanelAction::SetAlertThreshold(t)), restart_caret: true, ..none },
            )
        } else {
            (s, none)
        },
        PanelInput::Text(text) => if is_refresh_key(text@) {
            (s, PanelOutcome { action: Some(PanelAction::Refresh), ..none })
        } else if s.threshold_editing && text@.len() > 0 && digit_value(text@[0]) is Some {
            let t = typed_threshold(s.alert_threshold, s.threshold_replace_next_digit, digit_value(text@[0]).unwrap());
            (
                PanelState { alert_threshold: t, threshold_replace_next_digit: false, caret_visible: true, ..s },
                PanelOutcome { action: Some(PanelAction::SetAlertThreshold(t)), restart_caret: true, ..none },
            )
        } else {
            (s, none)
        },
        PanelInput::Click(target) => match target {
            ClickTarget::Refresh => (
                edit_finished(s),
                PanelOutcome { action: Some(PanelAction::Refresh), redraw: s.threshold_editing, ..none },
            ),
            ClickTarget::StepperMinus => (
                edit_finished(s),
                PanelOutcome {
                    action: Some(
                        PanelAction::SetAlertThreshold(
                            if s.alert_threshold >= 10 { (s.alert_threshold - 10) as u8 } else { 0 },
                        ),
                    ),
                    redraw: s.threshold_editing,
                    ..none
                },
            ),
            ClickTarget::StepperPlus => (
                edit_finished(s),
                PanelOutcome {
                    action: Some(
                        PanelAction::SetAlertThreshold(
                            if s.alert_threshold + 10 >= 100 { 100 } else { (s.alert_threshold + 10) as u8 },
                        ),
                    ),
                    redraw: s.threshold_editing,
                    ..none
                },
            ),
            ClickTarget::StepperValue => (
                PanelState { threshold_editing: true, threshold_replace_next_digit: true, caret_visible: true, ..s },
                PanelOutcome { redraw: true, restart_caret: true, ..none },
            ),
            ClickTarget::Elsewhere => (edit_finished(s), PanelOutcome { redraw: s.threshold_editing, ..none }),
        },
    }
}

impl PanelState {
    /// The threshold shown is a percentage.
    pub open spec fn wf(&self) -> bool {
        self.alert_threshold <= 100
    }

    /// A hidden panel showing the default threshold of 20%.
    pub fn new() -> (r: Self)
        ensures
            r.wf(),
            r == (PanelState {
                alert_threshold: 20,
                threshold_editing: false,
                threshold_replace_next_digit: false,
                caret_visible: false,
                visible: false,
                outside_buttons_down: false,
                has_received_focus: false,
            }),
    {
        PanelState {
            alert_threshold: 20,
            threshold_editing: false,
            threshold_replace_next_digit: false,
            caret_visible: false,
            visible: false,
            outside_buttons_down: false,
            has_received_focus: false,
        }
    }

    /// Shows the stored threshold, capped at 100.
    pub fn set_alert_threshold(&mut self, threshold: u8)
        ensures
            *final(self) == (PanelState {
                alert_threshold: if threshold <= 100 { threshold } else { 100 },
                ..*old(self)
            }),
            final(self).wf(),
    {
        self.alert_threshold = if threshold <= 100 {
            threshold
        } else {
            100
        };
    }

    /// Hides the panel and ends any edit.
    pub fn close(&mut self)
        ensures
            *final(self) == hidden(*old(self)),
    {
        self.visible = false;
        self.threshold_editing = false;
        self.threshold_replace_next_digit = false;
        self.caret_visible = false;
    }

    /// Shows the panel after a tray click; the buttons of that click must not
    /// dismiss it, and focus has not been seen yet.
    pub fn show(&mut self)
        ensures
            *final(self) == (PanelState {
                visible: true,
                outside_buttons_down: true,
                has_received_focus: false,
                ..*old(self)
            }),
    {
        self.visible = true;
        self.outside_buttons_down = true;
        self.has_received_focus = false;
    }

    fn finish_threshold_edit(&mut self) -> (redraw: bool)
        ensures
            *final(self) == edit_finished(*old(self)),
            redraw == old(self).threshold_editing,
    {
        if self.threshold_editing {
            self.threshold_editing = false;
            self.threshold_replace_next_digit = false;
            self.caret_visible = false;
            true
        } else {
            false
        }
    }

    /// Handles one input event of the panel window.
    pub fn handle_event(&mut self, input: PanelInput) -> (r: PanelOutcome)
        requires
            old(self).wf(),
        ensures
            final(self).wf(),
            (*final(self), r) == panel_next(*old(self), input),
    {
        let none = PanelOutcome { action: None, close_window: false, redraw: false, restart_caret: false };
        match input {
            PanelInput::CloseRequested => {
                self.close();
                PanelOutcome { close_window: true, ..none }
            },
            PanelInput::Focused(focused) => {
                if focused {
                    self.has_received_focus = true;
                    none
                } else if self.has_received_focus {
                    self.close();
                    PanelOutcome { close_window: true, ..none }
                } else {
                    none
                }
            },
            PanelInput::Escape => {
                self.close();
                PanelOutcome { close_window: true, ..none }
            },
            PanelInput::Enter => {
                if self.threshold_editing {
                    self.finish_threshold_edit();
                    PanelOutcome { redraw: true, ..none }
                } else {
                    none
                }
            },
            PanelInput::Backspace => {
                if self.threshold_editing {
                    self.alert_threshold = self.alert_threshold / 10;
                    self.threshold_replace_next_digit = false;
                    self.caret_visible = true;
                    PanelOutcome {
                        action: Some(PanelAction::SetAlertThreshold(self.alert_threshold)),
                        restart_caret: true,
                        ..none
                    }
                } else {
                    none
                }
            },
            PanelInput::Text(text) => {
                let chars = chars_of(text.as_str());
                if chars.len() == 1 && (chars[0] == 'r' || chars[0] == 'R') {
                    return PanelOutcome { action: Some(PanelAction::Refresh), ..none };
                }
                if self.threshold_editing && chars.len() > 0 && '0' <= chars[0] && chars[0] <= '9' {
                    let digit = (chars[0] as u32 - '0' as u32) as u8;
                    let value = if self.threshold_replace_next_digit {
                        digit
                    } else {
                        let grown = self.alert_threshold as u32 * 10 + digit as u32;
                        if grown >= 100 {
                            100
                        } else {
                            grown as u8
                        }
                    };
                    self.threshold_replace_next_digit = false;
                    self.alert_threshold = value;
                    self.caret_visible = true;
                    PanelOutcome { action: Some(PanelAction::SetAlertThreshold(value)), restart_caret: true, ..none }
                } else {
                    none
                }
            },
            PanelInput::Click(target) => match target {
                ClickTarget::Refresh => {
                    let redraw = self.finish_threshold_edit();
                    PanelOutcome { action: Some(PanelAction::Refresh), redraw, ..none }
                },
                ClickTarget::StepperMinus => {
                    let redraw = self.finish_threshold_edit();
                    let value = if self.alert_threshold >= 10 {
                        self.alert_threshold - 10
                    } else {
                        0
                    };
                    PanelOutcome { action: Some(PanelAction::SetAlertThreshold(value)), redraw, ..none }
                },
                ClickTarget::StepperPlus => {
                    let redraw = self.finish_threshold_edit();
                    let value = if self.alert_threshold >= 90 {
                        100
                    } else {
                        self.alert_threshold + 10
                    };
                    PanelOutcome { action: Some(PanelAction::SetAlertThreshold(value)), redraw, ..none }
                },
                ClickTarget::StepperValue => {
                    self.threshold_editing = true;
                    self.threshold_replace_next_digit = true;
                    self.caret_visible = true;
                    PanelOutcome { redraw: true, restart_caret: true, ..none }
                },
                ClickTarget::Elsewhere => {
                    let redraw = self.finish_threshold_edit();
                    PanelOutcome { redraw, ..none }
                },
            },
        }
    }
}


/// The state and outcome of a periodic check while the panel is open: the
/// caret blinks while editing, and a mouse button pressed outside the panel
/// closes it unless that press began while the panel was opening.
/// `pointer` is the button state and whether the cursor is inside the
/// panel, or none when it cannot be read yet.
pub open spec fn panel_tick(s: PanelState, caret_due: bool, pointer: Option<(bool, bool)>) -> (PanelState, PanelOutcome) {
    let none = PanelOutcome { action: None, close_window: false, redraw: false, restart_caret: false };
    if !s.visible {
        (s, none)
    } else {
        let blink = s.threshold_editing && caret_due;
        let s1 = if blink { PanelState { caret_visible: !s.caret_visible, ..s } } else { s };
        let o1 = PanelOutcome { redraw: blink, restart_caret: blink, ..none };
        match pointer {
            None => (s1, o1),
            Some((buttons_down, inside)) => if !buttons_down {
                (PanelState { outside_buttons_down: false, ..s1 }, o1)
            } else if !s1.outside_buttons_down && !inside {
                (PanelState { outside_buttons_down: true, ..hidden(s1) }, PanelOutcome { close_window: true, ..o1 })
            } else {
                (PanelState { outside_buttons_down: true, ..s1 }, o1)
            },
        }
    }
}

impl PanelState {
    /// The periodic check while the panel is open.
    pub fn tick(&mut self, caret_due: bool, pointer: Option<(bool, bool)>) -> (r: PanelOutcome)
        requires
            old(self).wf(),
        ensures
            final(self).wf(),
            (*final(self), r) == panel_tick(*old(self), caret_due, pointer),
    {
        let none = PanelOutcome { action: None, close_window: false, redraw: false, restart_caret: false };
        if !self.visible {
            return none;
        }
        let blink = self.threshold_editing && caret_due;
        if blink {
            self.caret_visible = !self.caret_visible;
        }
        let outcome = PanelOutcome { redraw: blink, restart_caret: blink, ..none };
        match pointer {
            None => outcome,
            Some((buttons_down, inside)) => {
                if !buttons_down {
                    self.outside_buttons_down = false;
                    return outcome;
                }
                let close = !self.outside_buttons_down && !inside;
                if close {
                    self.close();
                }
                self.outside_buttons_down = true;
                PanelOutcome { close_window: close, ..outcome }
            },
        }
    }
}

/// The threshold stays a percentage: every input keeps it at most 100, and
/// every threshold the panel asks to store is at most 100.
pub proof fn lemma_threshold_is_percentage(s: PanelState, input: PanelInput)
    requires
        s.wf(),
    ensures
        panel_next(s, input).0.wf(),
        panel_next(s, input).1.action matches Some(PanelAction::SetAlertThreshold(t)) ==> t <= 100,
{
}

/// The refresh button always polls now: a click on it asks for a refresh,
/// ends any edit of the threshold (redrawing only then), and changes nothing
/// else, leaving the panel open.
pub proof fn lemma_refresh_click_polls(s: PanelState)
    ensures
        ({
            let (t, out) = panel_next(s, PanelInput::Click(ClickTarget::Refresh));
            &&& out.action == Some(PanelAction::Refresh)
            &&& !out.close_window
            &&& out.redraw == s.threshold_editing
            &&& !t.threshold_editing
            &&& t.alert_threshold == s.alert_threshold
            &&& t.visible == s.visible
            &&& t.has_received_focus == s.has_received_focus
            &&& (!s.threshold_editing ==> t == s)
        }),
{
}

/// The refresh key, `r` or `R`, polls now whatever the panel is doing and
/// leaves its state as it was.
pub proof fn lemma_refresh_key_polls(s: PanelState, text: String)
    requires
        text@ == seq!['r'] || text@ == seq!['R'],
    ensures
        panel_next(s, PanelInput::Text(text)).1.action == Some(PanelAction::Refresh),
        panel_next(s, PanelInput::Text(text)).0 == s,
        !panel_next(s, PanelInput::Text(text)).1.close_window,
{
}

/// Only the refresh button and the refresh key ask for a refresh.
pub proof fn lemma_refresh_only_on_request(s: PanelState, input: PanelInput)
    requires
        panel_next(s, input).1.action == Some(PanelAction::Refresh),
    ensures
        input matches PanelInput::Click(ClickTarget::Refresh) || (input matches PanelInput::Text(text) && (
        text@ == seq!['r'] || text@ == seq!['R'])),
{
    if let PanelInput::Text(text) = input {
        if text@.len() == 1 && (text@[0] == 'r' || text@[0] == 'R') {
            assert(text@ =~= seq![text@[0]]);
        }
    }
}

/// Escape and a close request always hide the panel, ending any edit and
/// keeping the threshold; losing focus hides it only once it has had focus,
/// and a click outside the controls never hides it.
pub proof fn lemma_dismissal(s: PanelState)
    ensures
        ({
            let (t, out) = panel_next(s, PanelInput::Escape);
            out.close_window && out.action is None && !t.visible && !t.threshold_editing && t.alert_threshold
                == s.alert_threshold
        }),
        ({
            let (t, out) = panel_next(s, PanelInput::CloseRequested);
            out.close_window && out.action is None && !t.visible && !t.threshold_editing && t.alert_threshold
                == s.alert_threshold
        }),
        ({
            let (t, out) = panel_next(s, PanelInput::Focused(false));
            out.close_window == s.has_received_focus && (!s.has_received_focus ==> t == s) && (s.has_received_focus
                ==> !t.visible)
        }),
        !panel_next(s, PanelInput::Click(ClickTarget::Elsewhere)).1.close_window,
        panel_next(s, PanelInput::Click(ClickTarget::Elsewhere)).0.visible == s.visible,
{
}

/// The stepper buttons move the threshold by ten points, within 0 to 100.
pub proof fn lemma_stepper_moves_by_ten(s: PanelState)
    requires
        s.wf(),
    ensures
        panel_next(s, PanelInput::Click(ClickTarget::StepperMinus)).1.action == Some(
            PanelAction::SetAlertThreshold(if s.alert_threshold >= 10 { (s.alert_threshold - 10) as u8 } else { 0 }),
        ),
        panel_next(s, PanelInput::Click(ClickTarget::StepperPlus)).1.action == Some(
            PanelAction::SetAlertThreshold(if s.alert_threshold >= 90 { 100 } else { (s.alert_threshold + 10) as u8 }),
        ),
{
}

/// Clicking the value and typing two digits sets the threshold to the number
/// typed, capped at 100, whatever was shown before.
pub proof fn lemma_typed_threshold(s: PanelState, first: String, second: String, d1: u8, d2: u8)
    requires
        s.wf(),
        d1 < 10,
        d2 < 10,
        first@ == seq![('0' as int + d1) as char],
        second@ == seq![('0' as int + d2) as char],
    ensures
        ({
            let s1 = panel_next(s, PanelInput::Click(ClickTarget::StepperValue)).0;
            let s2 = panel_next(s1, PanelInput::Text(first)).0;
            let (s3, out) = panel_next(s2, PanelInput::Text(second));
            let typed = if d1 * 10 + d2 >= 100 { 100 } else { d1 * 10 + d2 };
            &&& s3.alert_threshold == typed
            &&& out.action == Some(PanelAction::SetAlertThreshold(typed as u8))
        }),
{
    assert(digit_value(first@[0]) == Some(d1));
    assert(digit_value(second@[0]) == Some(d2));
}


/// Text colour of titles and values.
pub const WHITE: [u8; 3] = [238, 240, 242];
/// Text colour of secondary text.
pub const MUTED: [u8; 3] = [148, 153, 161];
/// Accent of a charging device.
pub const GREEN: [u8; 3] = [104, 216, 154];
/// Accent of a device at or below 20%.
pub const AMBER: [u8; 3] = [244, 188, 92];

/// What one device row of the panel shows.
pub struct PanelRow {
    pub title: &'static str,
    pub status: &'static str,
    pub status_color: [u8; 3],
    /// The percentage text, or a dash when the level is unknown.
    pub value: String,
    pub accent: [u8; 3],
    pub glyph_color: [u8; 3],
    /// The level that fills the row's bar, if known.
    pub fill: Option<u8>,
}

/// The status line of a charge state.
pub open spec fn status_text(power: PowerState) -> Seq<char> {
    match power {
        PowerState::Charging => "Charging"@,
        PowerState::Full => "Fully charged"@,
        PowerState::Discharging => "On battery"@,
        PowerState::Unknown => "Connected"@,
        PowerState::Offline => "Not connected"@,
    }
}

/// The accent of a row: green when charging, amber at or below 20%, else white.
pub open spec fn row_accent(percent: Option<u8>, power: PowerState) -> [u8; 3] {
    if power == PowerState::Charging {
        GREEN
    } else if percent matches Some(p) && p <= 20 {
        AMBER
    } else {
        WHITE
    }
}

/// A row's accent says the device's state: green exactly when it is
/// charging, amber exactly when it is not charging and its known level is at
/// most 20%, white otherwise; and the status text names the power state.
pub proof fn lemma_row_accent_and_status(percent: Option<u8>, power: PowerState)
    ensures
        (row_accent(percent, power) == GREEN) <==> power == PowerState::Charging,
        (row_accent(percent, power) == AMBER) <==> (power != PowerState::Charging && (percent matches Some(p) && p
            <= 20)),
        power == PowerState::Charging ==> status_text(power) == "Charging"@,
        power == PowerState::Full ==> status_text(power) == "Fully charged"@,
        power == PowerState::Discharging ==> status_text(power) == "On battery"@,
        power == PowerState::Unknown ==> status_text(power) == "Connected"@,
        power == PowerState::Offline ==> status_text(power) == "Not connected"@,
{
    assert(GREEN != AMBER && GREEN != WHITE && AMBER != WHITE) by {
        assert(GREEN[0] != AMBER[0]);
        assert(GREEN[0] != WHITE[0]);
        assert(AMBER[0] != WHITE[0]);
    }
}

/// The row of the device of `kind` for the latest readings: the first
/// reading of that kind, or a not-connected row.  An unknown level shows a
/// dash, never a number.
pub fn panel_row(readings: &Vec<DeviceReading>, kind: DeviceKind) -> (r: PanelRow)
    ensures
        ({
            let (percent, power) = match first_of_kind(readings@, kind, 0) {
                Some(i) => (readings@[i].battery_percent, readings@[i].power),
                None => (None, PowerState::Offline),
            };
            &&& r.title@ == (if kind == DeviceKind::Headset { "HyperX Cloud III S"@ } else { "Logitech PRO X 2 DEX"@ })
            &&& r.status@ == status_text(power)
            &&& r.status_color == (if power == PowerState::Charging { GREEN } else { MUTED })
            &&& r.accent == row_accent(percent, power)
            &&& r.glyph_color == (if percent is Some { row_accent(percent, power) } else { MUTED })
            &&& r.value@ == (match percent {
                Some(p) => decimal(p as nat) + "%"@,
                None => "\u{2014}"@,
            })
            &&& r.fill == percent
        }),
{
    let found = first_index_of_kind(readings, kind);
    let (percent, power) = match found {
        Some(index) => (readings[index].battery_percent, readings[index].power),
        None => (None, PowerState::Offline),
    };
    let accent = match power {
        PowerState::Charging => GREEN,
        _ => match percent {
            Some(p) => if p <= 20 {
                AMBER
            } else {
                WHITE
            },
            None => WHITE,
        },
    };
    let title = match kind {
        DeviceKind::Headset => "HyperX Cloud III S",
        DeviceKind::Mouse => "Logitech PRO X 2 DEX",
    };
    let status = match power {
        PowerState::Charging => "Charging",
        PowerState::Full => "Fully charged",
        PowerState::Discharging => "On battery",
        PowerState::Unknown => "Connected",
        PowerState::Offline => "Not connected",
    };
    let value = match percent {
        Some(p) => {
            let mut text = String::new();
            push_decimal(&mut text, p);
            text.append("%");
            text
        },
        None => String::from_str("\u{2014}"),
    };
    PanelRow {
        title,
        status,
        status_color: match power {
            PowerState::Charging => GREEN,
            _ => MUTED,
        },
        value,
        accent,
        glyph_color: match percent {
            Some(_) => accent,
            None => MUTED,
        },
        fill: percent,
    }
}

} // verus!
