//! State and text of the live event display: captured MIDI and keyboard
//! events, pane focus and scrolling, and the one-line JSON snippets that a
//! user can paste into the configuration file.

use vstd::prelude::*;

use crate::config::action::{
    clean_token, function_key, join_plus, joined_combo_parses_to_its_parts, modifier_key,
    modifier_keys, no_plus, parse_combo, primary_key, Key, KeyComboErrorKind,
};
use crate::midi::event::{IncomingMidiEvent, SysRtKind};
use crate::text::{is_ws, lower, trim_end, trim_start};
use crate::text::{chars_of, decimal, decimal_string, is_digit, lemma_decimal_digits, push_char, string_of};

verus! {

// ─── JSON config representation ─────────────────────────────────────────────

/// `,"channel":N` for a channel, nothing without one.
pub open spec fn channel_suffix(channel: Option<u8>) -> Seq<char> {
    match channel {
        Some(c) => ",\"channel\":"@ + decimal(c as nat),
        None => Seq::empty(),
    }
}

/// The configuration name of a System Real-Time kind.
pub open spec fn sys_rt_name(kind: SysRtKind) -> Seq<char> {
    match kind {
        SysRtKind::Start => "start"@,
        SysRtKind::Stop => "stop"@,
        SysRtKind::Continue => "continue"@,
    }
}

/// The `trigger:` JSON snippet for an event seen on `channel`.
pub open spec fn midi_json(event: IncomingMidiEvent, channel: Option<u8>) -> Seq<char> {
    match event {
        IncomingMidiEvent::NoteOn { note } => "{\"type\":\"note_on\",\"note\":"@ + decimal(note as nat)
            + channel_suffix(channel) + "}"@,
        IncomingMidiEvent::NoteOff { note } => "{\"type\":\"note_off\",\"note\":"@ + decimal(
            note as nat,
        ) + channel_suffix(channel) + "}"@,
        IncomingMidiEvent::ControlChange { cc, value } => "{\"type\":\"control_change\",\"cc\":"@
            + decimal(cc as nat) + ",\"value\":"@ + decimal(value as nat) + channel_suffix(channel)
            + "}"@,
        IncomingMidiEvent::ProgramChange { program } => "{\"type\":\"program_change\",\"program\":"@
            + decimal(program as nat) + channel_suffix(channel) + "}"@,
        IncomingMidiEvent::SysRealTime(kind) => "{\"type\":\"sys_real_time\",\"kind\":\""@
            + sys_rt_name(kind) + "\""@ + channel_suffix(channel) + "}"@,
    }
}

/// Returns a one-line JSON snippet suitable for use as a `trigger:` block in
/// the config file, e.g. `{"type":"note_on","note":60,"channel":1}`.
pub fn midi_config_json(event: &IncomingMidiEvent, channel: Option<u8>) -> (r: String)
    ensures
        r@ == midi_json(*event, channel),
{
    let ch_part = match channel {
        Some(c) => String::from_str(",\"channel\":").concat(decimal_string(c as u64).as_str()),
        None => String::new(),
    };
    match event {
        IncomingMidiEvent::NoteOn { note } => String::from_str("{\"type\":\"note_on\",\"note\":").concat(
            decimal_string(*note as u64).as_str(),
        ).concat(ch_part.as_str()).concat("}"),
        IncomingMidiEvent::NoteOff { note } => String::from_str("{\"type\":\"note_off\",\"note\":").concat(
            decimal_string(*note as u64).as_str(),
        ).concat(ch_part.as_str()).concat("}"),
        IncomingMidiEvent::ControlChange { cc, value } => String::from_str(
            "{\"type\":\"control_change\",\"cc\":",
        ).concat(decimal_string(*cc as u64).as_str()).concat(",\"value\":").concat(
            decimal_string(*value as u64).as_str(),
        ).concat(ch_part.as_str()).concat("}"),
        IncomingMidiEvent::ProgramChange { program } => String::from_str(
            "{\"type\":\"program_change\",\"program\":",
        ).concat(decimal_string(*program as u64).as_str()).concat(ch_part.as_str()).concat("}"),
        IncomingMidiEvent::SysRealTime(kind) => {
            let kind_str = match kind {
                SysRtKind::Start => "start",
                SysRtKind::Stop => "stop",
                SysRtKind::Continue => "continue",
            };
            String::from_str("{\"type\":\"sys_real_time\",\"kind\":\"").concat(kind_str).concat(
                "\"",
            ).concat(ch_part.as_str()).concat("}")
        },
    }
}

// ─── Display helpers ─────────────────────────────────────────────────────────

/// The short type label of an event.
pub open spec fn event_type_label(event: IncomingMidiEvent) -> Seq<char> {
    match event {
        IncomingMidiEvent::NoteOn { .. } => "NoteOn"@,
        IncomingMidiEvent::NoteOff { .. } => "NoteOff"@,
        IncomingMidiEvent::ControlChange { .. } => "CC"@,
        IncomingMidiEvent::ProgramChange { .. } => "ProgChg"@,
        IncomingMidiEvent::SysRealTime(_) => "SysRT"@,
    }
}

/// Returns a short human-readable type label for a MIDI event.
pub fn midi_event_type(event: &IncomingMidiEvent) -> (r: &'static str)
    ensures
        r@ == event_type_label(*event),
{
    match event {
        IncomingMidiEvent::NoteOn { .. } => "NoteOn",
        IncomingMidiEvent::NoteOff { .. } => "NoteOff",
        IncomingMidiEvent::ControlChange { .. } => "CC",
        IncomingMidiEvent::ProgramChange { .. } => "ProgChg",
        IncomingMidiEvent::SysRealTime(_) => "SysRT",
    }
}

/// The `Debug` name of a System Real-Time kind.
pub open spec fn sys_rt_debug_name(kind: SysRtKind) -> Seq<char> {
    match kind {
        SysRtKind::Start => "Start"@,
        SysRtKind::Stop => "Stop"@,
        SysRtKind::Continue => "Continue"@,
    }
}

/// The compact detail text of an event.
pub open spec fn event_details(event: IncomingMidiEvent) -> Seq<char> {
    match event {
        IncomingMidiEvent::NoteOn { note } => "note="@ + decimal(note as nat),
        IncomingMidiEvent::NoteOff { note } => "note="@ + decimal(note as nat),
        IncomingMidiEvent::ControlChange { cc, value } => "cc="@ + decimal(cc as nat) + " val="@
            + decimal(value as nat),
        IncomingMidiEvent::ProgramChange { program } => "prog="@ + decimal(program as nat),
        IncomingMidiEvent::SysRealTime(kind) => sys_rt_debug_name(kind),
    }
}

/// Returns a compact detail string for a MIDI event.
pub fn midi_event_details(event: &IncomingMidiEvent) -> (r: String)
    ensures
        r@ == event_details(*event),
{
    match event {
        IncomingMidiEvent::NoteOn { note } | IncomingMidiEvent::NoteOff { note } => String::from_str(
            "note=",
        ).concat(decimal_string(*note as u64).as_str()),
        IncomingMidiEvent::ControlChange { cc, value } => String::from_str("cc=").concat(
            decimal_string(*cc as u64).as_str(),
        ).concat(" val=").concat(decimal_string(*value as u64).as_str()),
        IncomingMidiEvent::ProgramChange { program } => String::from_str("prog=").concat(
            decimal_string(*program as u64).as_str(),
        ),
        IncomingMidiEvent::SysRealTime(kind) => match kind {
            SysRtKind::Start => String::from_str("Start"),
            SysRtKind::Stop => String::from_str("Stop"),
            SysRtKind::Continue => String::from_str("Continue"),
        },
    }
}

/// `s` cut to at most `max_chars` characters, the last of them `…` when cut
/// (nothing is left when `max_chars` is zero).
pub open spec fn truncated(s: Seq<char>, max_chars: nat) -> Seq<char> {
    if s.len() <= max_chars {
        s
    } else if max_chars == 0 {
        Seq::empty()
    } else {
        s.take(max_chars - 1).push('…')
    }
}

/// Truncates `s` to at most `max_chars` characters, appending `…` if cut.
pub fn truncate_str(s: &str, max_chars: usize) -> (r: String)
    ensures
        r@ == truncated(s@, max_chars as nat),
{
    let chars = chars_of(s);
    if chars.len() <= max_chars {
        return string_of(&chars);
    }
    if max_chars == 0 {
        return String::new();
    }
    let mut kept: Vec<char> = Vec::new();
    let mut i: usize = 0;
    while i < max_chars - 1
        invariant
            0 <= i <= max_chars - 1,
            max_chars <= chars@.len(),
            kept@ == chars@.take(i as int),
        decreases max_chars - 1 - i,
    {
        kept.push(chars[i]);
        i = i + 1;
        assert(kept@ =~= chars@.take(i as int));
    }
    let mut out = string_of(&kept);
    push_char(&mut out, '…');
    out
}


// ─── Keyboard events ─────────────────────────────────────────────────────────

/// Modifier keys held during a key press.
#[derive(Debug, Clone, Copy, PartialEq, Eq, Structural)]
pub struct KeyModifiers {
    pub shift: bool,
    pub control: bool,
    pub alt: bool,
    pub super_key: bool,
    pub hyper: bool,
    pub meta: bool,
}

/// The key of a key press.
#[derive(Debug, Clone, PartialEq, Eq)]
pub enum KeyCode {
    Char(char),
    F(u8),
    Enter,
    Tab,
    /// Shift+Tab, as terminals report it.
    BackTab,
    Backspace,
    Delete,
    Esc,
    Up,
    Down,
    Left,
    Right,
    /// Any other key, by its name.
    Other(String),
}

/// A key press captured by the display.
#[derive(Debug, Clone, PartialEq, Eq)]
pub struct KeyEvent {
    pub code: KeyCode,
    pub modifiers: KeyModifiers,
}

impl KeyModifiers {
    /// No modifier held.
    pub fn none() -> (r: Self)
        ensures
            r == no_modifiers(),
    {
        KeyModifiers {
            shift: false,
            control: false,
            alt: false,
            super_key: false,
            hyper: false,
            meta: false,
        }
    }
}

impl KeyEvent {
    /// A key press of `code` with `modifiers` held.
    pub fn new(code: KeyCode, modifiers: KeyModifiers) -> (r: Self)
        ensures
            r.code == code,
            r.modifiers == modifiers,
    {
        KeyEvent { code, modifiers }
    }
}

/// No modifier held.
pub open spec fn no_modifiers() -> KeyModifiers {
    KeyModifiers { shift: false, control: false, alt: false, super_key: false, hyper: false, meta: false }
}

/// The config-file prefix for the modifiers of a key press, in the order
/// Ctrl, Alt, Shift, Cmd, each followed by `+`.
pub open spec fn modifier_prefix(m: KeyModifiers) -> Seq<char> {
    (if m.control { "Ctrl+"@ } else { Seq::empty() })
    + (if m.alt { "Alt+"@ } else { Seq::empty() })
    + (if m.shift { "Shift+"@ } else { Seq::empty() })
    + (if m.super_key { "Cmd+"@ } else { Seq::empty() })
}

/// The config-file name of a key.
pub open spec fn key_code_name(code: KeyCode) -> Seq<char> {
    match code {
        KeyCode::Char(c) => seq![c],
        KeyCode::F(n) => "F"@ + decimal(n as nat),
        KeyCode::Enter => "Enter"@,
        KeyCode::Tab => "Tab"@,
        KeyCode::BackTab => "Tab"@,
        KeyCode::Backspace => "Backspace"@,
        KeyCode::Delete => "Delete"@,
        KeyCode::Esc => "Esc"@,
        KeyCode::Up => "Up"@,
        KeyCode::Down => "Down"@,
        KeyCode::Left => "Left"@,
        KeyCode::Right => "Right"@,
        KeyCode::Other(name) => name@,
    }
}

/// The key-combo text for a key press: modifiers, then the key, joined by `+`.
pub open spec fn action_text(key: KeyEvent) -> Seq<char> {
    modifier_prefix(key.modifiers) + key_code_name(key.code)
}

/// Converts a key press to the key-combo string format used in config files
/// (e.g. `"Ctrl+Shift+F5"`).
pub fn crossterm_key_to_action_string(key_event: &KeyEvent) -> (r: String)
    ensures
        r@ == action_text(*key_event),
{
    let m = key_event.modifiers;
    let mut out = String::new();
    if m.control {
        out.append("Ctrl+");
    }
    if m.alt {
        out.append("Alt+");
    }
    if m.shift {
        out.append("Shift+");
    }
    if m.super_key {
        out.append("Cmd+");
    }
    assert(out@ =~= modifier_prefix(m));
    match &key_event.code {
        KeyCode::Char(c) => push_char(&mut out, *c),
        KeyCode::F(n) => {
            out.append("F");
            out.append(decimal_string(*n as u64).as_str());
        },
        KeyCode::Enter => out.append("Enter"),
        KeyCode::Tab => out.append("Tab"),
        KeyCode::BackTab => out.append("Tab"),
        KeyCode::Backspace => out.append("Backspace"),
        KeyCode::Delete => out.append("Delete"),
        KeyCode::Esc => out.append("Esc"),
        KeyCode::Up => out.append("Up"),
        KeyCode::Down => out.append("Down"),
        KeyCode::Left => out.append("Left"),
        KeyCode::Right => out.append("Right"),
        KeyCode::Other(name) => out.append(name.as_str()),
    }
    assert(out@ =~= action_text(*key_event));
    out
}

/// Returns a one-line JSON snippet suitable for use as an `action:` block in
/// the config file, e.g. `{"keys":"Ctrl+a"}`.
pub fn keyboard_config_json(key_event: &KeyEvent) -> (r: String)
    ensures
        r@ == "{\"keys\":\""@ + action_text(*key_event) + "\"}"@,
{
    let action = crossterm_key_to_action_string(key_event);
    String::from_str("{\"keys\":\"").concat(action.as_str()).concat("\"}")
}


// ─── Records and state ───────────────────────────────────────────────────────

/// A single captured MIDI event, stored for display.
#[derive(Debug)]
pub struct MidiEventRecord {
    /// Monotonically increasing sequence number (1-based).
    pub seq: u64,
    /// Name of the MIDI port the event arrived on.
    pub port: String,
    /// MIDI channel (1–16), or `None` for System Real-Time messages.
    pub channel: Option<u8>,
    /// Normalized MIDI event.
    pub event: IncomingMidiEvent,
}

/// A single captured keyboard event, stored for display.
#[derive(Debug)]
pub struct KeyboardEventRecord {
    /// Monotonically increasing sequence number (1-based).
    pub seq: u64,
    /// The key press.
    pub key_event: KeyEvent,
}

/// Which of the two display panes currently has focus.
#[derive(Debug, Clone, Copy, PartialEq, Eq, Structural)]
pub enum Pane {
    Keyboard,
    Midi,
}

/// The selected row of a table, if any.
#[derive(Debug, Clone, Copy)]
pub struct TableSelection {
    selected: Option<usize>,
}

impl View for TableSelection {
    type V = Option<usize>;

    closed spec fn view(&self) -> Option<usize> {
        self.selected
    }
}

impl TableSelection {
    /// No row selected.
    pub fn new() -> (r: Self)
        ensures
            r@ is None,
    {
        TableSelection { selected: None }
    }

    /// The selected row.
    pub fn selected(&self) -> (r: Option<usize>)
        ensures
            r == self@,
    {
        self.selected
    }

    /// Selects `index` (or nothing).
    pub fn select(&mut self, index: Option<usize>)
        ensures
            final(self)@ == index,
    {
        self.selected = index;
    }
}

/// A selection within a table of `len` rows: nothing, row 0, or an existing row.
pub open spec fn selection_fits(sel: Option<usize>, len: nat) -> bool {
    match sel {
        Some(s) => s == 0 || s < len,
        None => true,
    }
}

/// The last row of a table of `len` rows (row 0 when it is empty).
pub open spec fn last_row(len: nat) -> usize {
    if len == 0 {
        0
    } else {
        (len - 1) as usize
    }
}

/// All mutable state owned by the display.
#[derive(Debug)]
pub struct AppState {
    /// Captured MIDI events, oldest first.
    pub midi_events: Vec<MidiEventRecord>,
    /// Captured keyboard events, oldest first.
    pub keyboard_events: Vec<KeyboardEventRecord>,
    /// Which pane currently has keyboard focus.
    pub focused_pane: Pane,
    /// Selection in the MIDI events pane.
    pub midi_table: TableSelection,
    /// Selection in the keyboard events pane.
    pub keyboard_table: TableSelection,
    /// Set to `false` to exit the event loop.
    pub running: bool,
    /// When `true` the keyboard pane scrolls to the newest event automatically.
    pub keyboard_auto_scroll: bool,
    /// When `true` the MIDI pane scrolls to the newest event automatically.
    pub midi_auto_scroll: bool,
    /// The sequence number given to the last MIDI event added (0 before any).
    pub midi_seq: u64,
    /// The sequence number given to the last keyboard event added (0 before any).
    pub keyboard_seq: u64,
}

/// Sequence numbers `seqs` are increasing, each from 1 to `count`.
pub open spec fn numbered_up_to(seqs: Seq<u64>, count: nat) -> bool {
    &&& forall|i: int| 0 <= i < seqs.len() ==> 1 <= #[trigger] seqs[i] <= count
    &&& forall|i: int, j: int| 0 <= i < j < seqs.len() ==> seqs[i] < seqs[j]
}

impl AppState {
    /// The sequence numbers of the MIDI records, oldest first.
    pub open spec fn midi_seqs(&self) -> Seq<u64> {
        self.midi_events@.map_values(|r: MidiEventRecord| r.seq)
    }

    /// The sequence numbers of the keyboard records, oldest first.
    pub open spec fn keyboard_seqs(&self) -> Seq<u64> {
        self.keyboard_events@.map_values(|r: KeyboardEventRecord| r.seq)
    }

    /// The state invariant: records carry increasing sequence numbers, none
    /// past the last one handed out, and each selection fits its table.
    pub open spec fn wf(&self) -> bool {
        &&& numbered_up_to(self.midi_seqs(), self.midi_seq as nat)
        &&& numbered_up_to(self.keyboard_seqs(), self.keyboard_seq as nat)
        &&& selection_fits(self.midi_table@, self.midi_events@.len())
        &&& selection_fits(self.keyboard_table@, self.keyboard_events@.len())
    }

    /// Creates an empty initial state: no events, keyboard pane focused,
    /// running, both panes auto-scrolling, nothing selected, no sequence
    /// number handed out yet.
    pub fn new() -> (r: Self)
        ensures
            r.wf(),
            r.midi_events@.len() == 0,
            r.keyboard_events@.len() == 0,
            r.focused_pane == Pane::Keyboard,
            r.midi_table@ is None,
            r.keyboard_table@ is None,
            r.running,
            r.keyboard_auto_scroll,
            r.midi_auto_scroll,
            r.midi_seq == 0,
            r.keyboard_seq == 0,
    {
        let r = AppState {
            midi_events: Vec::new(),
            keyboard_events: Vec::new(),
            focused_pane: Pane::Keyboard,
            midi_table: TableSelection::new(),
            keyboard_table: TableSelection::new(),
            running: true,
            keyboard_auto_scroll: true,
            midi_auto_scroll: true,
            midi_seq: 0,
            keyboard_seq: 0,
        };
        assert(r.midi_seqs() =~= Seq::<u64>::empty());
        assert(r.keyboard_seqs() =~= Seq::<u64>::empty());
        r
    }

    /// Appends a MIDI event under the next sequence number and (when in
    /// auto-scroll mode) selects it.
    pub fn add_midi_event(&mut self, port: String, channel: Option<u8>, event: IncomingMidiEvent)
        requires
            old(self).midi_seq < u64::MAX,
        ensures
            old(self).wf() ==> final(self).wf(),
            final(self).midi_seq == old(self).midi_seq + 1,
            final(self).keyboard_seq == old(self).keyboard_seq,
            final(self).midi_events@.len() == old(self).midi_events@.len() + 1,
            final(self).midi_events@.drop_last() == old(self).midi_events@,
            final(self).midi_events@.last().seq == old(self).midi_seq + 1,
            final(self).midi_events@.last().port@ == port@,
            final(self).midi_events@.last().channel == channel,
            final(self).midi_events@.last().event == event,
            final(self).midi_table@ == (if old(self).midi_auto_scroll {
                Some(old(self).midi_events@.len() as usize)
            } else {
                old(self).midi_table@
            }),
            final(self).keyboard_events == old(self).keyboard_events,
            final(self).keyboard_table == old(self).keyboard_table,
            final(self).focused_pane == old(self).focused_pane,
            final(self).running == old(self).running,
            final(self).keyboard_auto_scroll == old(self).keyboard_auto_scroll,
            final(self).midi_auto_scroll == old(self).midi_auto_scroll,
    {
        self.midi_seq = self.midi_seq + 1;
        let seq = self.midi_seq;
        self.midi_events.push(MidiEventRecord { seq, port, channel, event });
        if self.midi_auto_scroll {
            let n = self.midi_events.len();
            self.midi_table.select(Some(n - 1));
        }
        assert(self.midi_events@.drop_last() =~= old(self).midi_events@);
        assert(self.midi_seqs() =~= old(self).midi_seqs().push(seq));
    }

    /// Appends a keyboard event under the next sequence number and (when in
    /// auto-scroll mode) selects it.
    pub fn add_keyboard_event(&mut self, key_event: KeyEvent)
        requires
            old(self).keyboard_seq < u64::MAX,
        ensures
            old(self).wf() ==> final(self).wf(),
            final(self).keyboard_seq == old(self).keyboard_seq + 1,
            final(self).midi_seq == old(self).midi_seq,
            final(self).keyboard_events@.len() == old(self).keyboard_events@.len() + 1,
            final(self).keyboard_events@.drop_last() == old(self).keyboard_events@,
            final(self).keyboard_events@.last().seq == old(self).keyboard_seq + 1,
            final(self).keyboard_events@.last().key_event == key_event,
            final(self).keyboard_table@ == (if old(self).keyboard_auto_scroll {
                Some(old(self).keyboard_events@.len() as usize)
            } else {
                old(self).keyboard_table@
            }),
            final(self).midi_events == old(self).midi_events,
            final(self).midi_table == old(self).midi_table,
            final(self).focused_pane == old(self).focused_pane,
            final(self).running == old(self).running,
            final(self).keyboard_auto_scroll == old(self).keyboard_auto_scroll,
            final(self).midi_auto_scroll == old(self).midi_auto_scroll,
    {
        self.keyboard_seq = self.keyboard_seq + 1;
        let seq = self.keyboard_seq;
        self.keyboard_events.push(KeyboardEventRecord { seq, key_event });
        if self.keyboard_auto_scroll {
            let n = self.keyboard_events.len();
            self.keyboard_table.select(Some(n - 1));
        }
        assert(self.keyboard_events@.drop_last() =~= old(self).keyboard_events@);
        assert(self.keyboard_seqs() =~= old(self).keyboard_seqs().push(seq));
    }

    /// Switches focus between the keyboard and MIDI panes.
    pub fn toggle_pane(&mut self)
        ensures
            old(self).wf() ==> final(self).wf(),
            final(self).midi_seq == old(self).midi_seq,
            final(self).keyboard_seq == old(self).keyboard_seq,
            final(self).focused_pane == other_pane(old(self).focused_pane),
            final(self).midi_events == old(self).midi_events,
            final(self).keyboard_events == old(self).keyboard_events,
            final(self).midi_table == old(self).midi_table,
            final(self).keyboard_table == old(self).keyboard_table,
            final(self).running == old(self).running,
            final(self).keyboard_auto_scroll == old(self).keyboard_auto_scroll,
            final(self).midi_auto_scroll == old(self).midi_auto_scroll,
    {
        self.focused_pane = match self.focused_pane {
            Pane::Keyboard => Pane::Midi,
            Pane::Midi => Pane::Keyboard,
        };
    }

    /// Scrolls the focused pane up by one row (not past row 0) and disables
    /// its auto-scroll.
    pub fn scroll_up(&mut self)
        ensures
            old(self).wf() ==> final(self).wf(),
            final(self).midi_seq == old(self).midi_seq,
            final(self).keyboard_seq == old(self).keyboard_seq,
            old(self).focused_pane == Pane::Keyboard ==> {
                &&& !final(self).keyboard_auto_scroll
                &&& final(self).keyboard_table@ == Some(scrolled_up(old(self).keyboard_table@))
                &&& final(self).midi_table == old(self).midi_table
                &&& final(self).midi_auto_scroll == old(self).midi_auto_scroll
            },
            old(self).focused_pane == Pane::Midi ==> {
                &&& !final(self).midi_auto_scroll
                &&& final(self).midi_table@ == Some(scrolled_up(old(self).midi_table@))
                &&& final(self).keyboard_table == old(self).keyboard_table
                &&& final(self).keyboard_auto_scroll == old(self).keyboard_auto_scroll
            },
            final(self).midi_events == old(self).midi_events,
            final(self).keyboard_events == old(self).keyboard_events,
            final(self).focused_pane == old(self).focused_pane,
            final(self).running == old(self).running,
    {
        match self.focused_pane {
            Pane::Keyboard => {
                self.keyboard_auto_scroll = false;
                let current = match self.keyboard_table.selected() {
                    Some(c) => c,
                    None => 0,
                };
                self.keyboard_table.select(Some(if current > 0 { current - 1 } else { 0 }));
            },
            Pane::Midi => {
                self.midi_auto_scroll = false;
                let current = match self.midi_table.selected() {
                    Some(c) => c,
                    None => 0,
                };
                self.midi_table.select(Some(if current > 0 { current - 1 } else { 0 }));
            },
        }
    }

    /// Scrolls the focused pane down by one row (not past the last row),
    /// re-enabling its auto-scroll when the last row is reached.
    pub fn scroll_down(&mut self)
        requires
            old(self).focused_pane == Pane::Keyboard ==> below_last_index(old(self).keyboard_table@),
            old(self).focused_pane == Pane::Midi ==> below_last_index(old(self).midi_table@),
        ensures
            old(self).wf() ==> final(self).wf(),
            final(self).midi_seq == old(self).midi_seq,
            final(self).keyboard_seq == old(self).keyboard_seq,
            old(self).focused_pane == Pane::Keyboard ==> {
                let next = scrolled_down(old(self).keyboard_table@, old(self).keyboard_events@.len());
                &&& final(self).keyboard_table@ == Some(next)
                &&& final(self).keyboard_auto_scroll == (old(self).keyboard_auto_scroll || next
                    >= last_row(old(self).keyboard_events@.len()))
                &&& final(self).midi_table == old(self).midi_table
                &&& final(self).midi_auto_scroll == old(self).midi_auto_scroll
            },
            old(self).focused_pane == Pane::Midi ==> {
                let next = scrolled_down(old(self).midi_table@, old(self).midi_events@.len());
                &&& final(self).midi_table@ == Some(next)
                &&& final(self).midi_auto_scroll == (old(self).midi_auto_scroll || next >= last_row(
                    old(self).midi_events@.len(),
                ))
                &&& final(self).keyboard_table == old(self).keyboard_table
                &&& final(self).keyboard_auto_scroll == old(self).keyboard_auto_scroll
            },
            final(self).midi_events == old(self).midi_events,
            final(self).keyboard_events == old(self).keyboard_events,
            final(self).focused_pane == old(self).focused_pane,
            final(self).running == old(self).running,
    {
        match self.focused_pane {
            Pane::Keyboard => {
                let n = self.keyboard_events.len();
                let max = if n > 0 { n - 1 } else { 0 };
                let current = match self.keyboard_table.selected() {
                    Some(c) => c,
                    None => 0,
                };
                let next = if current + 1 < max { current + 1 } else { max };
                self.keyboard_table.select(Some(next));
                if next >= max {
                    self.keyboard_auto_scroll = true;
                }
            },
            Pane::Midi => {
                let n = self.midi_events.len();
                let max = if n > 0 { n - 1 } else { 0 };
                let current = match self.midi_table.selected() {
                    Some(c) => c,
                    None => 0,
                };
                let next = if current + 1 < max { current + 1 } else { max };
                self.midi_table.select(Some(next));
                if next >= max {
                    self.midi_auto_scroll = true;
                }
            },
        }
    }

    /// Brings auto-scrolling selections up to date just before rendering:
    /// a non-empty auto-scrolling pane selects its last row.
    pub fn prepare_render(&mut self)
        ensures
            old(self).wf() ==> final(self).wf(),
            final(self).midi_seq == old(self).midi_seq,
            final(self).keyboard_seq == old(self).keyboard_seq,
            final(self).keyboard_table@ == (if old(self).keyboard_auto_scroll
                && old(self).keyboard_events@.len() > 0 {
                Some(last_row(old(self).keyboard_events@.len()))
            } else {
                old(self).keyboard_table@
            }),
            final(self).midi_table@ == (if old(self).midi_auto_scroll && old(self).midi_events@.len() > 0 {
                Some(last_row(old(self).midi_events@.len()))
            } else {
                old(self).midi_table@
            }),
            final(self).midi_events == old(self).midi_events,
            final(self).keyboard_events == old(self).keyboard_events,
            final(self).focused_pane == old(self).focused_pane,
            final(self).running == old(self).running,
            final(self).keyboard_auto_scroll == old(self).keyboard_auto_scroll,
            final(self).midi_auto_scroll == old(self).midi_auto_scroll,
    {
        if self.keyboard_auto_scroll && self.keyboard_events.len() > 0 {
            let n = self.keyboard_events.len();
            self.keyboard_table.select(Some(n - 1));
        }
        if self.midi_auto_scroll && self.midi_events.len() > 0 {
            let n = self.midi_events.len();
            self.midi_table.select(Some(n - 1));
        }
    }
}

/// A selection that a row can be added to without leaving `usize`.
pub open spec fn below_last_index(sel: Option<usize>) -> bool {
    match sel {
        Some(s) => s < usize::MAX,
        None => true,
    }
}

/// The row selected after scrolling up from `sel`.
pub open spec fn scrolled_up(sel: Option<usize>) -> usize {
    match sel {
        Some(c) => if c > 0 { (c - 1) as usize } else { 0 },
        None => 0,
    }
}

/// The row selected after scrolling down from `sel` in a table of `len` rows.
pub open spec fn scrolled_down(sel: Option<usize>, len: nat) -> usize {
    let current = match sel {
        Some(c) => c as int,
        None => 0,
    };
    if current + 1 < last_row(len) {
        (current + 1) as usize
    } else {
        last_row(len)
    }
}


// ─── Table rows ──────────────────────────────────────────────────────────────

/// The channel column of a MIDI row: the channel number, or `RT` for a
/// System Real-Time message.
pub open spec fn channel_cell(channel: Option<u8>) -> Seq<char> {
    match channel {
        Some(c) => decimal(c as nat),
        None => "RT"@,
    }
}

/// The cells of a MIDI events row: number, port (cut to 14 characters),
/// channel, type, details, and the configuration snippet.
pub fn midi_event_cells(record: &MidiEventRecord) -> (r: Vec<String>)
    ensures
        r@.len() == 6,
        r@[0]@ == decimal(record.seq as nat),
        r@[1]@ == truncated(record.port@, 14),
        r@[2]@ == channel_cell(record.channel),
        r@[3]@ == event_type_label(record.event),
        r@[4]@ == event_details(record.event),
        r@[5]@ == midi_json(record.event, record.channel),
{
    let mut cells: Vec<String> = Vec::new();
    cells.push(decimal_string(record.seq));
    cells.push(truncate_str(record.port.as_str(), 14));
    cells.push(
        match record.channel {
            Some(c) => decimal_string(c as u64),
            None => String::from_str("RT"),
        },
    );
    cells.push(String::from_str(midi_event_type(&record.event)));
    cells.push(midi_event_details(&record.event));
    cells.push(midi_config_json(&record.event, record.channel));
    cells
}

/// The cells of a keyboard events row: number, key combo, and the
/// configuration snippet.
pub fn keyboard_event_cells(record: &KeyboardEventRecord) -> (r: Vec<String>)
    ensures
        r@.len() == 3,
        r@[0]@ == decimal(record.seq as nat),
        r@[1]@ == action_text(record.key_event),
        r@[2]@ == "{\"keys\":\""@ + action_text(record.key_event) + "\"}"@,
{
    let mut cells: Vec<String> = Vec::new();
    cells.push(decimal_string(record.seq));
    cells.push(crossterm_key_to_action_string(&record.key_event));
    cells.push(keyboard_config_json(&record.key_event));
    cells
}

/// The event counts shown in the footer.
pub fn event_counts_text(state: &AppState) -> (r: String)
    ensures
        r@ == "Keyboard: "@ + decimal(state.keyboard_events@.len()) + "  MIDI: "@ + decimal(
            state.midi_events@.len(),
        ),
{
    String::from_str("Keyboard: ").concat(decimal_string(state.keyboard_events.len() as u64).as_str()).concat(
        "  MIDI: ",
    ).concat(decimal_string(state.midi_events.len() as u64).as_str())
}

// ─── Key handling ────────────────────────────────────────────────────────────

/// What a key press does in the display.
#[derive(Debug, Clone, Copy, PartialEq, Eq, Structural)]
pub enum KeyCommand {
    /// Leave the display.
    Quit,
    /// Switch the focused pane.
    TogglePane,
    /// Scroll the focused pane up.
    ScrollUp,
    /// Scroll the focused pane down.
    ScrollDown,
    /// Record the key press in the keyboard pane.
    Record,
}

/// Exactly Control held.
pub open spec fn control_only() -> KeyModifiers {
    KeyModifiers { control: true, ..no_modifiers() }
}

/// Exactly Shift held.
pub open spec fn shift_only() -> KeyModifiers {
    KeyModifiers { shift: true, ..no_modifiers() }
}

/// The command of a key press: Ctrl+C and Ctrl+Q quit, Tab and Shift+BackTab
/// switch panes, bare Up and Down scroll; every other key press is recorded.
pub open spec fn key_command(key: KeyEvent) -> KeyCommand {
    let m = key.modifiers;
    if m == control_only() && (key.code == KeyCode::Char('c') || key.code == KeyCode::Char('q')) {
        KeyCommand::Quit
    } else if (m == no_modifiers() && key.code == KeyCode::Tab) || (m == shift_only() && key.code
        == KeyCode::BackTab) {
        KeyCommand::TogglePane
    } else if m == no_modifiers() && key.code == KeyCode::Up {
        KeyCommand::ScrollUp
    } else if m == no_modifiers() && key.code == KeyCode::Down {
        KeyCommand::ScrollDown
    } else {
        KeyCommand::Record
    }
}

/// Decides what a key press does in the display.
pub fn classify_key(key: &KeyEvent) -> (r: KeyCommand)
    ensures
        r == key_command(*key),
{
    let m = key.modifiers;
    let none = !m.shift && !m.control && !m.alt && !m.super_key && !m.hyper && !m.meta;
    let ctrl = !m.shift && m.control && !m.alt && !m.super_key && !m.hyper && !m.meta;
    let shift = m.shift && !m.control && !m.alt && !m.super_key && !m.hyper && !m.meta;
    let r = match &key.code {
        KeyCode::Char(c) => if ctrl && (*c == 'c' || *c == 'q') {
            KeyCommand::Quit
        } else {
            KeyCommand::Record
        },
        KeyCode::Tab => if none {
            KeyCommand::TogglePane
        } else {
            KeyCommand::Record
        },
        KeyCode::BackTab => if shift {
            KeyCommand::TogglePane
        } else {
            KeyCommand::Record
        },
        KeyCode::Up => if none {
            KeyCommand::ScrollUp
        } else {
            KeyCommand::Record
        },
        KeyCode::Down => if none {
            KeyCommand::ScrollDown
        } else {
            KeyCommand::Record
        },
        _ => KeyCommand::Record,
    };
    r
}


/// The pane that is not `p`.
pub open spec fn other_pane(p: Pane) -> Pane {
    match p {
        Pane::Keyboard => Pane::Midi,
        Pane::Midi => Pane::Keyboard,
    }
}

/// The channel an event arrived on is the trigger snippet's last field, for
/// every kind of event: the snippet for channel `c` is the snippet without a
/// channel with `,"channel":c` put before its closing brace.
pub proof fn channel_is_the_last_json_field(event: IncomingMidiEvent, c: u8)
    ensures
        midi_json(event, None).len() > 0,
        midi_json(event, None).last() == '}',
        midi_json(event, Some(c)) == midi_json(event, None).drop_last() + ",\"channel\":"@ + decimal(c as nat)
            + "}"@,
{
    reveal_strlit("}");
    let close = "}"@;
    assert(close =~= seq!['}']);
    let body = midi_json(event, None).drop_last();
    assert(midi_json(event, None) =~= body + close) by {
        let pre = match event {
            IncomingMidiEvent::NoteOn { note } => "{\"type\":\"note_on\",\"note\":"@ + decimal(note as nat),
            IncomingMidiEvent::NoteOff { note } => "{\"type\":\"note_off\",\"note\":"@ + decimal(note as nat),
            IncomingMidiEvent::ControlChange { cc, value } => "{\"type\":\"control_change\",\"cc\":"@ + decimal(
                cc as nat,
            ) + ",\"value\":"@ + decimal(value as nat),
            IncomingMidiEvent::ProgramChange { program } => "{\"type\":\"program_change\",\"program\":"@
                + decimal(program as nat),
            IncomingMidiEvent::SysRealTime(kind) => "{\"type\":\"sys_real_time\",\"kind\":\""@ + sys_rt_name(kind)
                + "\""@,
        };
        assert(channel_suffix(None) =~= Seq::<char>::empty());
        assert(pre + Seq::<char>::empty() =~= pre);
        assert(midi_json(event, None) == pre + close);
        assert((pre + close).drop_last() =~= pre);
        assert(midi_json(event, Some(c)) == pre + (",\"channel\":"@ + decimal(c as nat)) + close);
    }
}

/// No `e` in `s` is directly followed by `l`.
spec fn no_el(s: Seq<char>) -> bool {
    forall|k: int| 0 <= k < s.len() - 1 ==> !(#[trigger] s[k] == 'e' && s[k + 1] == 'l')
}

proof fn lemma_no_el_concat(a: Seq<char>, b: Seq<char>)
    requires
        no_el(a),
        no_el(b),
        a.len() == 0 || b.len() == 0 || !(a.last() == 'e' && b[0] == 'l'),
    ensures
        no_el(a + b),
{
    let s = a + b;
    assert forall|k: int| 0 <= k < s.len() - 1 implies !(#[trigger] s[k] == 'e' && s[k + 1] == 'l') by {
        if k < a.len() - 1 {
            assert(s[k] == a[k] && s[k + 1] == a[k + 1]);
        } else if k == a.len() - 1 {
            assert(s[k] == a.last() && s[k + 1] == b[0]);
        } else {
            assert(s[k] == b[k - a.len()] && s[k + 1] == b[k + 1 - a.len()]);
        }
    }
}

proof fn lemma_decimal_no_el(n: nat)
    ensures
        no_el(decimal(n)),
        decimal(n).len() > 0,
        decimal(n)[0] != 'l',
        decimal(n).last() != 'e',
{
    lemma_decimal_digits(n);
    let d = decimal(n);
    assert(is_digit(d[0]));
    assert(is_digit(d[d.len() - 1]));
    assert forall|k: int| 0 <= k < d.len() - 1 implies !(#[trigger] d[k] == 'e' && d[k + 1] == 'l') by {
        assert(is_digit(d[k]));
    }
}

/// The trigger snippet of an event seen on no particular channel has no
/// `"channel"` key: the key appears only when a channel is given.
pub proof fn no_channel_key_without_a_channel(event: IncomingMidiEvent)
    ensures
        forall|k: int|
            0 <= k && k + 9 <= midi_json(event, None).len() ==> #[trigger] midi_json(event, None).subrange(k, k + 9)
                != "\"channel\""@,
{
    reveal_strlit("\"channel\"");
    reveal_strlit("}");
    reveal_strlit("\"");
    reveal_strlit("{\"type\":\"note_on\",\"note\":");
    reveal_strlit("{\"type\":\"note_off\",\"note\":");
    reveal_strlit("{\"type\":\"control_change\",\"cc\":");
    reveal_strlit(",\"value\":");
    reveal_strlit("{\"type\":\"program_change\",\"program\":");
    reveal_strlit("{\"type\":\"sys_real_time\",\"kind\":\"");
    reveal_strlit("start");
    reveal_strlit("stop");
    reveal_strlit("continue");
    let close = "}"@;
    let s = midi_json(event, None);
    assert(channel_suffix(None) =~= Seq::<char>::empty());
    match event {
        IncomingMidiEvent::NoteOn { note } => {
            let l = "{\"type\":\"note_on\",\"note\":"@;
            let d = decimal(note as nat);
            lemma_decimal_no_el(note as nat);
            assert(no_el(l));
            assert(no_el(close));
            lemma_no_el_concat(l, d);
            lemma_no_el_concat(l + d, close);
            assert(s =~= l + d + close);
        },
        IncomingMidiEvent::NoteOff { note } => {
            let l = "{\"type\":\"note_off\",\"note\":"@;
            let d = decimal(note as nat);
            lemma_decimal_no_el(note as nat);
            assert(no_el(l));
            assert(no_el(close));
            lemma_no_el_concat(l, d);
            lemma_no_el_concat(l + d, close);
            assert(s =~= l + d + close);
        },
        IncomingMidiEvent::ControlChange { cc, value } => {
            let l = "{\"type\":\"control_change\",\"cc\":"@;
            let v = ",\"value\":"@;
            let d = decimal(cc as nat);
            let e = decimal(value as nat);
            lemma_decimal_no_el(cc as nat);
            lemma_decimal_no_el(value as nat);
            assert(no_el(l));
            assert(no_el(v));
            assert(no_el(close));
            lemma_no_el_concat(l, d);
            lemma_no_el_concat(l + d, v);
            lemma_no_el_concat(l + d + v, e);
            lemma_no_el_concat(l + d + v + e, close);
            assert(s =~= l + d + v + e + close);
        },
        IncomingMidiEvent::ProgramChange { program } => {
            let l = "{\"type\":\"program_change\",\"program\":"@;
            let d = decimal(program as nat);
            lemma_decimal_no_el(program as nat);
            assert(no_el(l));
            assert(no_el(close));
            lemma_no_el_concat(l, d);
            lemma_no_el_concat(l + d, close);
            assert(s =~= l + d + close);
        },
        IncomingMidiEvent::SysRealTime(kind) => {
            let l = "{\"type\":\"sys_real_time\",\"kind\":\""@;
            let name = sys_rt_name(kind);
            let q = "\""@;
            assert(no_el(l));
            assert(no_el(name));
            assert(no_el(q));
            assert(no_el(close));
            lemma_no_el_concat(l, name);
            lemma_no_el_concat(l + name, q);
            lemma_no_el_concat(l + name + q, close);
            assert(s =~= l + name + q + close);
        },
    }
    let key = "\"channel\""@;
    assert(key[6] == 'e' && key[7] == 'l');
    assert forall|k: int| 0 <= k && k + 9 <= s.len() implies #[trigger] s.subrange(k, k + 9) != key by {
        if s.subrange(k, k + 9) == key {
            assert(s.subrange(k, k + 9)[6] == s[k + 6]);
            assert(s.subrange(k, k + 9)[7] == s[k + 7]);
        }
    }
}

/// Switching panes twice returns focus to where it was.
pub proof fn toggling_twice_restores_focus(p: Pane)
    ensures
        other_pane(other_pane(p)) == p,
        other_pane(p) != p,
{
}

/// A truncated string has at most `max_chars` characters; a string that fits
/// is unchanged; a cut string keeps the first `max_chars - 1` characters and
/// ends with `…`, or is empty when `max_chars` is zero.
pub proof fn truncation_fits(s: Seq<char>, max_chars: nat)
    ensures
        truncated(s, max_chars).len() <= max_chars,
        s.len() <= max_chars ==> truncated(s, max_chars) == s,
        s.len() > max_chars && max_chars > 0 ==> truncated(s, max_chars).last() == '…' && truncated(
            s,
            max_chars,
        ).drop_last() == s.take(max_chars - 1),
        s.len() > max_chars && max_chars == 0 ==> truncated(s, max_chars) == Seq::<char>::empty(),
{
    if s.len() > max_chars && max_chars > 0 {
        assert(s.take(max_chars - 1).push('…').drop_last() =~= s.take(max_chars - 1));
    }
}

/// Navigation keys are consumed; every other key press is recorded.
pub proof fn only_navigation_keys_are_consumed(key: KeyEvent)
    ensures
        key_command(key) != KeyCommand::Record ==> (key.code == KeyCode::Char('c') || key.code
            == KeyCode::Char('q') || key.code == KeyCode::Tab || key.code == KeyCode::BackTab
            || key.code == KeyCode::Up || key.code == KeyCode::Down),
        key.modifiers.alt || key.modifiers.super_key || key.modifiers.hyper || key.modifiers.meta
            ==> key_command(key) == KeyCommand::Record,
{
}


// ─── The action text reads back as a key combo ───────────────────────────────

/// The modifier words of a key press's action text, in text order.
pub open spec fn modifier_words(m: KeyModifiers) -> Seq<Seq<char>> {
    (if m.control { seq!["Ctrl"@] } else { Seq::empty() })
    + (if m.alt { seq!["Alt"@] } else { Seq::empty() })
    + (if m.shift { seq!["Shift"@] } else { Seq::empty() })
    + (if m.super_key { seq!["Cmd"@] } else { Seq::empty() })
}

/// The modifiers a combo holds for the modifiers of a key press.
pub open spec fn combo_modifiers(m: KeyModifiers) -> Seq<Key> {
    (if m.control { seq![Key::Control] } else { Seq::empty() })
    + (if m.alt { seq![Key::Alt] } else { Seq::empty() })
    + (if m.shift { seq![Key::Shift] } else { Seq::empty() })
    + (if m.super_key { seq![Key::Meta] } else { Seq::empty() })
}

/// The combo key for a key code, for the codes whose name the combo syntax
/// reads back (a character other than whitespace and `+`, F1 to F12, and the
/// named keys).
pub open spec fn combo_key(code: KeyCode) -> Option<Key> {
    match code {
        KeyCode::Char(c) => if is_ws(c) || c == '+' {
            None
        } else {
            Some(Key::Unicode(c))
        },
        KeyCode::F(n) => if n == 1 {
            Some(Key::F1)
        } else if n == 2 {
            Some(Key::F2)
        } else if n == 3 {
            Some(Key::F3)
        } else if n == 4 {
            Some(Key::F4)
        } else if n == 5 {
            Some(Key::F5)
        } else if n == 6 {
            Some(Key::F6)
        } else if n == 7 {
            Some(Key::F7)
        } else if n == 8 {
            Some(Key::F8)
        } else if n == 9 {
            Some(Key::F9)
        } else if n == 10 {
            Some(Key::F10)
        } else if n == 11 {
            Some(Key::F11)
        } else if n == 12 {
            Some(Key::F12)
        } else {
            None
        },
        KeyCode::Enter => Some(Key::Return),
        KeyCode::Tab => Some(Key::Tab),
        KeyCode::BackTab => Some(Key::Tab),
        KeyCode::Backspace => Some(Key::Backspace),
        KeyCode::Delete => Some(Key::Delete),
        KeyCode::Esc => Some(Key::Escape),
        KeyCode::Up => Some(Key::UpArrow),
        KeyCode::Down => Some(Key::DownArrow),
        KeyCode::Left => Some(Key::LeftArrow),
        KeyCode::Right => Some(Key::RightArrow),
        KeyCode::Other(_) => None,
    }
}

proof fn lemma_join_plus_concat(a: Seq<Seq<char>>, b: Seq<Seq<char>>, last: Seq<char>)
    ensures
        join_plus(a + b, last) == join_plus(a, join_plus(b, last)),
    decreases a.len(),
{
    if a.len() > 0 {
        assert((a + b).drop_first() =~= a.drop_first() + b);
        assert((a + b)[0] == a[0]);
        lemma_join_plus_concat(a.drop_first(), b, last);
    } else {
        assert(a + b =~= b);
    }
}

proof fn lemma_join_plus_single(w: Seq<char>, last: Seq<char>)
    ensures
        join_plus(seq![w], last) == w + seq!['+'] + last,
{
    assert(seq![w].drop_first() =~= Seq::<Seq<char>>::empty());
    assert(join_plus(Seq::<Seq<char>>::empty(), last) == last);
}

/// `word + "+"` or nothing, joined in front of `rest`.
proof fn lemma_optional_word(flag: bool, word: Seq<char>, with_plus: Seq<char>, rest: Seq<char>)
    requires
        with_plus == word + seq!['+'],
    ensures
        join_plus(if flag { seq![word] } else { Seq::<Seq<char>>::empty() }, rest) == (if flag {
            with_plus
        } else {
            Seq::<char>::empty()
        }) + rest,
{
    if flag {
        lemma_join_plus_single(word, rest);
    } else {
        assert(Seq::<char>::empty() + rest =~= rest);
    }
}

proof fn lemma_action_text_is_joined(key: KeyEvent)
    ensures
        action_text(key) == join_plus(modifier_words(key.modifiers), key_code_name(key.code)),
{
    reveal_strlit("Ctrl");
    reveal_strlit("Ctrl+");
    reveal_strlit("Alt");
    reveal_strlit("Alt+");
    reveal_strlit("Shift");
    reveal_strlit("Shift+");
    reveal_strlit("Cmd");
    reveal_strlit("Cmd+");
    assert("Ctrl+"@ =~= "Ctrl"@ + seq!['+']);
    assert("Alt+"@ =~= "Alt"@ + seq!['+']);
    assert("Shift+"@ =~= "Shift"@ + seq!['+']);
    assert("Cmd+"@ =~= "Cmd"@ + seq!['+']);
    let m = key.modifiers;
    let name = key_code_name(key.code);
    let c = if m.control { seq!["Ctrl"@] } else { Seq::<Seq<char>>::empty() };
    let a = if m.alt { seq!["Alt"@] } else { Seq::<Seq<char>>::empty() };
    let sh = if m.shift { seq!["Shift"@] } else { Seq::<Seq<char>>::empty() };
    let su = if m.super_key { seq!["Cmd"@] } else { Seq::<Seq<char>>::empty() };
    let pc = if m.control { "Ctrl+"@ } else { Seq::<char>::empty() };
    let pa = if m.alt { "Alt+"@ } else { Seq::<char>::empty() };
    let psh = if m.shift { "Shift+"@ } else { Seq::<char>::empty() };
    let psu = if m.super_key { "Cmd+"@ } else { Seq::<char>::empty() };
    assert(modifier_words(m) == c + a + sh + su);
    lemma_join_plus_concat(c + a + sh, su, name);
    lemma_join_plus_concat(c + a, sh, join_plus(su, name));
    lemma_join_plus_concat(c, a, join_plus(sh, join_plus(su, name)));
    lemma_optional_word(m.super_key, "Cmd"@, "Cmd+"@, name);
    lemma_optional_word(m.shift, "Shift"@, "Shift+"@, psu + name);
    lemma_optional_word(m.alt, "Alt"@, "Alt+"@, psh + (psu + name));
    lemma_optional_word(m.control, "Ctrl"@, "Ctrl+"@, pa + (psh + (psu + name)));
    assert(action_text(key) =~= pc + (pa + (psh + (psu + name))));
}

proof fn lemma_modifier_keys_concat(a: Seq<Seq<char>>, b: Seq<Seq<char>>, ka: Seq<Key>, kb: Seq<Key>)
    requires
        modifier_keys(a) == Ok::<Seq<Key>, Seq<char>>(ka),
        modifier_keys(b) == Ok::<Seq<Key>, Seq<char>>(kb),
    ensures
        modifier_keys(a + b) == Ok::<Seq<Key>, Seq<char>>(ka + kb),
    decreases b.len(),
{
    if b.len() == 0 {
        assert(a + b =~= a);
        assert(ka + kb =~= ka);
    } else {
        let kb0 = modifier_keys(b.drop_last())->Ok_0;
        lemma_modifier_keys_concat(a, b.drop_last(), ka, kb0);
        assert((a + b).drop_last() =~= a + b.drop_last());
        assert((a + b).last() == b.last());
        assert((ka + kb0).push(kb.last()) =~= ka + kb);
    }
}

proof fn lemma_modifier_keys_single(w: Seq<char>, k: Key)
    requires
        modifier_key(lower(w)) == Some(k),
    ensures
        modifier_keys(seq![w]) == Ok::<Seq<Key>, Seq<char>>(seq![k]),
{
    assert(seq![w].drop_last() =~= Seq::<Seq<char>>::empty());
    assert(modifier_keys(Seq::<Seq<char>>::empty()) == Ok::<Seq<Key>, Seq<char>>(Seq::empty()));
    assert(seq![w].last() == w);
    assert(Seq::<Key>::empty().push(k) =~= seq![k]);
}

proof fn lemma_optional_modifier(flag: bool, w: Seq<char>, k: Key)
    requires
        modifier_key(lower(w)) == Some(k),
    ensures
        modifier_keys(if flag { seq![w] } else { Seq::<Seq<char>>::empty() }) == Ok::<Seq<Key>, Seq<char>>(
            if flag { seq![k] } else { Seq::<Key>::empty() },
        ),
{
    if flag {
        lemma_modifier_keys_single(w, k);
    }
}

proof fn lemma_modifier_words_parse(m: KeyModifiers)
    ensures
        modifier_keys(modifier_words(m)) == Ok::<Seq<Key>, Seq<char>>(combo_modifiers(m)),
        forall|i: int| 0 <= i < modifier_words(m).len() ==> clean_token(#[trigger] modifier_words(m)[i]),
{
    reveal_strlit("Ctrl");
    reveal_strlit("Alt");
    reveal_strlit("Shift");
    reveal_strlit("Cmd");
    reveal_strlit("ctrl");
    reveal_strlit("control");
    reveal_strlit("shift");
    reveal_strlit("alt");
    reveal_strlit("opt");
    reveal_strlit("option");
    reveal_strlit("cmd");
    assert(lower("Ctrl"@) =~= "ctrl"@);
    assert(lower("Alt"@) =~= "alt"@);
    assert(lower("Shift"@) =~= "shift"@);
    assert(lower("Cmd"@) =~= "cmd"@);
    assert(modifier_key(lower("Ctrl"@)) == Some(Key::Control));
    assert(modifier_key(lower("Alt"@)) == Some(Key::Alt));
    assert(modifier_key(lower("Shift"@)) == Some(Key::Shift));
    assert("cmd"@ != "alt"@) by {
        assert("cmd"@[0] != "alt"@[0]);
    }
    assert("cmd"@ != "opt"@) by {
        assert("cmd"@[0] != "opt"@[0]);
    }
    assert(modifier_key(lower("Cmd"@)) == Some(Key::Meta));
    let c = if m.control { seq!["Ctrl"@] } else { Seq::<Seq<char>>::empty() };
    let a = if m.alt { seq!["Alt"@] } else { Seq::<Seq<char>>::empty() };
    let sh = if m.shift { seq!["Shift"@] } else { Seq::<Seq<char>>::empty() };
    let su = if m.super_key { seq!["Cmd"@] } else { Seq::<Seq<char>>::empty() };
    let kc = if m.control { seq![Key::Control] } else { Seq::<Key>::empty() };
    let ka = if m.alt { seq![Key::Alt] } else { Seq::<Key>::empty() };
    let ksh = if m.shift { seq![Key::Shift] } else { Seq::<Key>::empty() };
    let ksu = if m.super_key { seq![Key::Meta] } else { Seq::<Key>::empty() };
    lemma_optional_modifier(m.control, "Ctrl"@, Key::Control);
    lemma_optional_modifier(m.alt, "Alt"@, Key::Alt);
    lemma_optional_modifier(m.shift, "Shift"@, Key::Shift);
    lemma_optional_modifier(m.super_key, "Cmd"@, Key::Meta);
    lemma_modifier_keys_concat(c, a, kc, ka);
    lemma_modifier_keys_concat(c + a, sh, kc + ka, ksh);
    lemma_modifier_keys_concat(c + a + sh, su, kc + ka + ksh, ksu);
    lemma_clean_word("Ctrl"@);
    lemma_clean_word("Alt"@);
    lemma_clean_word("Shift"@);
    lemma_clean_word("Cmd"@);
    let w = modifier_words(m);
    assert forall|i: int| 0 <= i < w.len() implies clean_token(#[trigger] w[i]) by {
        assert(w[i] == "Ctrl"@ || w[i] == "Alt"@ || w[i] == "Shift"@ || w[i] == "Cmd"@);
    }
}

/// A word of ASCII letters and digits is a clean token.
proof fn lemma_clean_word(w: Seq<char>)
    requires
        w.len() > 0,
        forall|i: int| 0 <= i < w.len() ==> ('A' <= #[trigger] w[i] <= 'Z' || 'a' <= w[i] <= 'z' || '0' <= w[i] <= '9'),
    ensures
        clean_token(w),
{
    assert(!is_ws(w[0]));
    assert(!is_ws(w.last()));
    assert(trim_start(w) == w);
    assert(trim_end(w) == w);
}


proof fn lemma_f_name(n: u8)
    requires
        1 <= n <= 12,
    ensures
        clean_token("F"@ + crate::text::decimal(n as nat)),
        lower("F"@ + crate::text::decimal(n as nat)) == (if n == 1 {
            "f1"@
        } else if n == 2 {
            "f2"@
        } else if n == 3 {
            "f3"@
        } else if n == 4 {
            "f4"@
        } else if n == 5 {
            "f5"@
        } else if n == 6 {
            "f6"@
        } else if n == 7 {
            "f7"@
        } else if n == 8 {
            "f8"@
        } else if n == 9 {
            "f9"@
        } else if n == 10 {
            "f10"@
        } else if n == 11 {
            "f11"@
        } else {
            "f12"@
        }),
{
    reveal_strlit("space");
    reveal_strlit("tab");
    reveal_strlit("enter");
    reveal_strlit("return");
    reveal_strlit("up");
    reveal_strlit("down");
    reveal_strlit("left");
    reveal_strlit("right");
    reveal_strlit("esc");
    reveal_strlit("escape");
    reveal_strlit("backspace");
    reveal_strlit("delete");
    reveal_strlit("f1");
    reveal_strlit("f2");
    reveal_strlit("f3");
    reveal_strlit("f4");
    reveal_strlit("f5");
    reveal_strlit("f6");
    reveal_strlit("f7");
    reveal_strlit("f8");
    reveal_strlit("f9");
    reveal_strlit("f10");
    reveal_strlit("f11");
    reveal_strlit("f12");
    reveal_strlit("Enter");
    reveal_strlit("Tab");
    reveal_strlit("Backspace");
    reveal_strlit("Delete");
    reveal_strlit("Esc");
    reveal_strlit("Up");
    reveal_strlit("Down");
    reveal_strlit("Left");
    reveal_strlit("Right");
    reveal_strlit("F");
    let d = crate::text::decimal(n as nat);
    if n >= 10 {
        assert(crate::text::decimal(1) =~= seq!['1']);
        assert(d =~= seq!['1', crate::text::digit_char((n % 10) as int)]);
    } else {
        assert(d =~= seq![crate::text::digit_char(n as int)]);
    }
    let name = "F"@ + d;
    assert forall|i: int| 0 <= i < name.len() implies ('A' <= #[trigger] name[i] <= 'Z' || 'a' <= name[i] <= 'z' || '0' <= name[i] <= '9') by {
        if i > 0 {
            assert(name[i] == d[i - 1]);
        }
    }
    lemma_clean_word(name);
    if n == 1 { assert(lower(name) =~= "f1"@); }
    else if n == 2 { assert(lower(name) =~= "f2"@); }
    else if n == 3 { assert(lower(name) =~= "f3"@); }
    else if n == 4 { assert(lower(name) =~= "f4"@); }
    else if n == 5 { assert(lower(name) =~= "f5"@); }
    else if n == 6 { assert(lower(name) =~= "f6"@); }
    else if n == 7 { assert(lower(name) =~= "f7"@); }
    else if n == 8 { assert(lower(name) =~= "f8"@); }
    else if n == 9 { assert(lower(name) =~= "f9"@); }
    else if n == 10 { assert(lower(name) =~= "f10"@); }
    else if n == 11 { assert(lower(name) =~= "f11"@); }
    else { assert(lower(name) =~= "f12"@); }
}

/// The literals of the named and function keys differ from one another.
proof fn lemma_key_literals_differ()
    ensures
        "space"@ != "enter"@,
        "space"@ != "right"@,
        "tab"@ != "esc"@,
        "tab"@ != "f10"@,
        "tab"@ != "f11"@,
        "tab"@ != "f12"@,
        "enter"@ != "right"@,
        "return"@ != "escape"@,
        "return"@ != "delete"@,
        "up"@ != "f1"@,
        "up"@ != "f2"@,
        "up"@ != "f3"@,
        "up"@ != "f4"@,
        "up"@ != "f5"@,
        "up"@ != "f6"@,
        "up"@ != "f7"@,
        "up"@ != "f8"@,
        "up"@ != "f9"@,
        "down"@ != "left"@,
        "esc"@ != "f10"@,
        "esc"@ != "f11"@,
        "esc"@ != "f12"@,
        "escape"@ != "delete"@,
        "f1"@ != "f2"@,
        "f1"@ != "f3"@,
        "f1"@ != "f4"@,
        "f1"@ != "f5"@,
        "f1"@ != "f6"@,
        "f1"@ != "f7"@,
        "f1"@ != "f8"@,
        "f1"@ != "f9"@,
        "f1"@ != "f10"@,
        "f1"@ != "f11"@,
        "f1"@ != "f12"@,
        "f2"@ != "f3"@,
        "f2"@ != "f4"@,
        "f2"@ != "f5"@,
        "f2"@ != "f6"@,
        "f2"@ != "f7"@,
        "f2"@ != "f8"@,
        "f2"@ != "f9"@,
        "f2"@ != "f10"@,
        "f2"@ != "f11"@,
        "f2"@ != "f12"@,
        "f3"@ != "f4"@,
        "f3"@ != "f5"@,
        "f3"@ != "f6"@,
        "f3"@ != "f7"@,
        "f3"@ != "f8"@,
        "f3"@ != "f9"@,
        "f3"@ != "f10"@,
        "f3"@ != "f11"@,
        "f3"@ != "f12"@,
        "f4"@ != "f5"@,
        "f4"@ != "f6"@,
        "f4"@ != "f7"@,
        "f4"@ != "f8"@,
        "f4"@ != "f9"@,
        "f4"@ != "f10"@,
        "f4"@ != "f11"@,
        "f4"@ != "f12"@,
        "f5"@ != "f6"@,
        "f5"@ != "f7"@,
        "f5"@ != "f8"@,
        "f5"@ != "f9"@,
        "f5"@ != "f10"@,
        "f5"@ != "f11"@,
        "f5"@ != "f12"@,
        "f6"@ != "f7"@,
        "f6"@ != "f8"@,
        "f6"@ != "f9"@,
        "f6"@ != "f10"@,
        "f6"@ != "f11"@,
        "f6"@ != "f12"@,
        "f7"@ != "f8"@,
        "f7"@ != "f9"@,
        "f7"@ != "f10"@,
        "f7"@ != "f11"@,
        "f7"@ != "f12"@,
        "f8"@ != "f9"@,
        "f8"@ != "f10"@,
        "f8"@ != "f11"@,
        "f8"@ != "f12"@,
        "f9"@ != "f10"@,
        "f9"@ != "f11"@,
        "f9"@ != "f12"@,
        "f10"@ != "f11"@,
        "f10"@ != "f12"@,
        "f11"@ != "f12"@,
{
    reveal_strlit("space");
    reveal_strlit("tab");
    reveal_strlit("enter");
    reveal_strlit("return");
    reveal_strlit("up");
    reveal_strlit("down");
    reveal_strlit("left");
    reveal_strlit("right");
    reveal_strlit("esc");
    reveal_strlit("escape");
    reveal_strlit("backspace");
    reveal_strlit("delete");
    reveal_strlit("f1");
    reveal_strlit("f2");
    reveal_strlit("f3");
    reveal_strlit("f4");
    reveal_strlit("f5");
    reveal_strlit("f6");
    reveal_strlit("f7");
    reveal_strlit("f8");
    reveal_strlit("f9");
    reveal_strlit("f10");
    reveal_strlit("f11");
    reveal_strlit("f12");
    assert("space"@[0] != "enter"@[0]);
    assert("space"@[0] != "right"@[0]);
    assert("tab"@[0] != "esc"@[0]);
    assert("tab"@[0] != "f10"@[0]);
    assert("tab"@[0] != "f11"@[0]);
    assert("tab"@[0] != "f12"@[0]);
    assert("enter"@[0] != "right"@[0]);
    assert("return"@[0] != "escape"@[0]);
    assert("return"@[0] != "delete"@[0]);
    assert("up"@[0] != "f1"@[0]);
    assert("up"@[0] != "f2"@[0]);
    assert("up"@[0] != "f3"@[0]);
    assert("up"@[0] != "f4"@[0]);
    assert("up"@[0] != "f5"@[0]);
    assert("up"@[0] != "f6"@[0]);
    assert("up"@[0] != "f7"@[0]);
    assert("up"@[0] != "f8"@[0]);
    assert("up"@[0] != "f9"@[0]);
    assert("down"@[0] != "left"@[0]);
    assert("esc"@[0] != "f10"@[0]);
    assert("esc"@[0] != "f11"@[0]);
    assert("esc"@[0] != "f12"@[0]);
    assert("escape"@[0] != "delete"@[0]);
    assert("f1"@[1] != "f2"@[1]);
    assert("f1"@[1] != "f3"@[1]);
    assert("f1"@[1] != "f4"@[1]);
    assert("f1"@[1] != "f5"@[1]);
    assert("f1"@[1] != "f6"@[1]);
    assert("f1"@[1] != "f7"@[1]);
    assert("f1"@[1] != "f8"@[1]);
    assert("f1"@[1] != "f9"@[1]);
    assert("f1"@.len() != "f10"@.len());
    assert("f1"@.len() != "f11"@.len());
    assert("f1"@.len() != "f12"@.len());
    assert("f2"@[1] != "f3"@[1]);
    assert("f2"@[1] != "f4"@[1]);
    assert("f2"@[1] != "f5"@[1]);
    assert("f2"@[1] != "f6"@[1]);
    assert("f2"@[1] != "f7"@[1]);
    assert("f2"@[1] != "f8"@[1]);
    assert("f2"@[1] != "f9"@[1]);
    assert("f2"@.len() != "f10"@.len());
    assert("f2"@.len() != "f11"@.len());
    assert("f2"@.len() != "f12"@.len());
    assert("f3"@[1] != "f4"@[1]);
    assert("f3"@[1] != "f5"@[1]);
    assert("f3"@[1] != "f6"@[1]);
    assert("f3"@[1] != "f7"@[1]);
    assert("f3"@[1] != "f8"@[1]);
    assert("f3"@[1] != "f9"@[1]);
    assert("f3"@.len() != "f10"@.len());
    assert("f3"@.len() != "f11"@.len());
    assert("f3"@.len() != "f12"@.len());
    assert("f4"@[1] != "f5"@[1]);
    assert("f4"@[1] != "f6"@[1]);
    assert("f4"@[1] != "f7"@[1]);
    assert("f4"@[1] != "f8"@[1]);
    assert("f4"@[1] != "f9"@[1]);
    assert("f4"@.len() != "f10"@.len());
    assert("f4"@.len() != "f11"@.len());
    assert("f4"@.len() != "f12"@.len());
    assert("f5"@[1] != "f6"@[1]);
    assert("f5"@[1] != "f7"@[1]);
    assert("f5"@[1] != "f8"@[1]);
    assert("f5"@[1] != "f9"@[1]);
    assert("f5"@.len() != "f10"@.len());
    assert("f5"@.len() != "f11"@.len());
    assert("f5"@.len() != "f12"@.len());
    assert("f6"@[1] != "f7"@[1]);
    assert("f6"@[1] != "f8"@[1]);
    assert("f6"@[1] != "f9"@[1]);
    assert("f6"@.len() != "f10"@.len());
    assert("f6"@.len() != "f11"@.len());
    assert("f6"@.len() != "f12"@.len());
    assert("f7"@[1] != "f8"@[1]);
    assert("f7"@[1] != "f9"@[1]);
    assert("f7"@.len() != "f10"@.len());
    assert("f7"@.len() != "f11"@.len());
    assert("f7"@.len() != "f12"@.len());
    assert("f8"@[1] != "f9"@[1]);
    assert("f8"@.len() != "f10"@.len());
    assert("f8"@.len() != "f11"@.len());
    assert("f8"@.len() != "f12"@.len());
    assert("f9"@.len() != "f10"@.len());
    assert("f9"@.len() != "f11"@.len());
    assert("f9"@.len() != "f12"@.len());
    assert("f10"@[2] != "f11"@[2]);
    assert("f10"@[2] != "f12"@[2]);
    assert("f11"@[2] != "f12"@[2]);
}

/// The name of a key that the combo syntax reads is a clean token, and the
/// parser reads it back as that key.
proof fn lemma_key_name(code: KeyCode)
    requires
        combo_key(code) is Some,
    ensures
        clean_token(key_code_name(code)),
        primary_key(key_code_name(code)) == Ok::<Key, KeyComboErrorKind>(combo_key(code)->Some_0),
{
    lemma_key_literals_differ();
    reveal_strlit("space");
    reveal_strlit("tab");
    reveal_strlit("enter");
    reveal_strlit("return");
    reveal_strlit("up");
    reveal_strlit("down");
    reveal_strlit("left");
    reveal_strlit("right");
    reveal_strlit("esc");
    reveal_strlit("escape");
    reveal_strlit("backspace");
    reveal_strlit("delete");
    reveal_strlit("f1");
    reveal_strlit("f2");
    reveal_strlit("f3");
    reveal_strlit("f4");
    reveal_strlit("f5");
    reveal_strlit("f6");
    reveal_strlit("f7");
    reveal_strlit("f8");
    reveal_strlit("f9");
    reveal_strlit("f10");
    reveal_strlit("f11");
    reveal_strlit("f12");
    reveal_strlit("Enter");
    reveal_strlit("Tab");
    reveal_strlit("Backspace");
    reveal_strlit("Delete");
    reveal_strlit("Esc");
    reveal_strlit("Up");
    reveal_strlit("Down");
    reveal_strlit("Left");
    reveal_strlit("Right");
    reveal_strlit("F");
    match code {
        KeyCode::Char(c) => {
            let name = seq![c];
            assert(no_plus(name));
            assert(!is_ws(name[0]));
            assert(trim_start(name) == name);
            assert(trim_end(name) == name);
            assert(lower(name).len() == 1);
        },
        KeyCode::F(n) => {
            lemma_f_name(n);
            let l = lower("F"@ + crate::text::decimal(n as nat));
            assert(l[0] == 'f');
            assert(l != "space"@) by {
                assert(l[0] != "space"@[0]);
            }
            assert(l != "tab"@) by {
                assert(l[0] != "tab"@[0]);
            }
            assert(l != "enter"@) by {
                assert(l[0] != "enter"@[0]);
            }
            assert(l != "return"@) by {
                assert(l[0] != "return"@[0]);
            }
            assert(l != "up"@) by {
                assert(l[0] != "up"@[0]);
            }
            assert(l != "down"@) by {
                assert(l[0] != "down"@[0]);
            }
            assert(l != "left"@) by {
                assert(l[0] != "left"@[0]);
            }
            assert(l != "right"@) by {
                assert(l[0] != "right"@[0]);
            }
            assert(l != "esc"@) by {
                assert(l[0] != "esc"@[0]);
            }
            assert(l != "escape"@) by {
                assert(l[0] != "escape"@[0]);
            }
            assert(l != "backspace"@) by {
                assert(l[0] != "backspace"@[0]);
            }
            assert(l != "delete"@) by {
                assert(l[0] != "delete"@[0]);
            }
            if n == 1 {
                assert(function_key(l) == Some(Key::F1));
            } else if n == 2 {
                assert(function_key(l) == Some(Key::F2));
            } else if n == 3 {
                assert(function_key(l) == Some(Key::F3));
            } else if n == 4 {
                assert(function_key(l) == Some(Key::F4));
            } else if n == 5 {
                assert(function_key(l) == Some(Key::F5));
            } else if n == 6 {
                assert(function_key(l) == Some(Key::F6));
            } else if n == 7 {
                assert(function_key(l) == Some(Key::F7));
            } else if n == 8 {
                assert(function_key(l) == Some(Key::F8));
            } else if n == 9 {
                assert(function_key(l) == Some(Key::F9));
            } else if n == 10 {
                assert(function_key(l) == Some(Key::F10));
            } else if n == 11 {
                assert(function_key(l) == Some(Key::F11));
            } else {
                assert(function_key(l) == Some(Key::F12));
            }
        },
        KeyCode::Enter => {
            assert(lower("Enter"@) =~= "enter"@);
            lemma_clean_word("Enter"@);
        },
        KeyCode::Tab => {
            assert(lower("Tab"@) =~= "tab"@);
            lemma_clean_word("Tab"@);
        },
        KeyCode::BackTab => {
            assert(lower("Tab"@) =~= "tab"@);
            lemma_clean_word("Tab"@);
        },
        KeyCode::Backspace => {
            assert(lower("Backspace"@) =~= "backspace"@);
            lemma_clean_word("Backspace"@);
        },
        KeyCode::Delete => {
            assert(lower("Delete"@) =~= "delete"@);
            lemma_clean_word("Delete"@);
        },
        KeyCode::Esc => {
            assert(lower("Esc"@) =~= "esc"@);
            lemma_clean_word("Esc"@);
        },
        KeyCode::Up => {
            assert(lower("Up"@) =~= "up"@);
            lemma_clean_word("Up"@);
        },
        KeyCode::Down => {
            assert(lower("Down"@) =~= "down"@);
            lemma_clean_word("Down"@);
        },
        KeyCode::Left => {
            assert(lower("Left"@) =~= "left"@);
            lemma_clean_word("Left"@);
        },
        KeyCode::Right => {
            assert(lower("Right"@) =~= "right"@);
            lemma_clean_word("Right"@);
        },
        KeyCode::Other(_) => {},
    }
}

/// The action text shown for a key press reads back, through the key-combo
/// parser, as the key press itself: Ctrl, Alt, Shift and Cmd become the
/// modifiers Control, Alt, Shift and Meta in that order, and the key its
/// combo key. This holds for every key whose name the combo syntax reads: a
/// character other than whitespace and `+`, F1 to F12, and the named keys.
pub proof fn action_text_reads_back_as_combo(key: KeyEvent)
    requires
        combo_key(key.code) is Some,
    ensures
        parse_combo(action_text(key)) == Ok::<(Seq<Key>, Key), (KeyComboErrorKind, Seq<char>)>(
            (combo_modifiers(key.modifiers), combo_key(key.code)->Some_0),
        ),
{
    lemma_action_text_is_joined(key);
    lemma_modifier_words_parse(key.modifiers);
    lemma_key_name(key.code);
    joined_combo_parses_to_its_parts(modifier_words(key.modifiers), key_code_name(key.code));
}

} // verus!
