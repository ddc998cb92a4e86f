//! What the settings screen shows: the rows in view, what each is set to,
//! and the keys below them.
use vstd::prelude::*;
use vstd::string::*;
use crate::content;
use crate::content::{settings_lines, Line, LineState, Settings};
use crate::git_view;
use crate::text;
use crate::text::{copy_text, joined3, same};

verus! {

/// Everything the screen lists: the settings with their sections, labels and
/// values, and the actions with their titles and keys.
#[derive(Debug)]
pub struct Sheet {
    pub sections: Vec<String>,
    pub labels: Vec<String>,
    pub values: Vec<String>,
    pub titles: Vec<String>,
    pub chords: Vec<Option<String>>,
}

/// The sheet as a value.
pub struct SheetState {
    pub sections: Seq<Seq<char>>,
    pub labels: Seq<Seq<char>>,
    pub values: Seq<Seq<char>>,
    pub titles: Seq<Seq<char>>,
    pub chords: Seq<Option<Seq<char>>>,
}

impl View for Sheet {
    type V = SheetState;

    open spec fn view(&self) -> SheetState {
        SheetState {
            sections: text::texts(self.sections@),
            labels: text::texts(self.labels@),
            values: text::texts(self.values@),
            titles: text::texts(self.titles@),
            chords: chord_list(self.chords@),
        }
    }
}

/// The chords of a list as values.
pub open spec fn chord_list(s: Seq<Option<String>>) -> Seq<Option<Seq<char>>> {
    Seq::new(
        s.len(),
        |i: int|
            match s[i] {
                Some(c) => Some(c@),
                None => None,
            },
    )
}

impl SheetState {
    /// A setting has a label and a value, an action a title.
    pub open spec fn wf(self) -> bool {
        &&& self.labels.len() == self.sections.len()
        &&& self.values.len() == self.sections.len()
        &&& self.titles.len() == self.chords.len()
    }

    /// Which actions are on a key.
    pub open spec fn bound(self) -> Seq<bool> {
        Seq::new(self.chords.len(), |i: int| self.chords[i] is Some)
    }

    /// The screen's lines.
    pub open spec fn screen(self) -> Seq<LineState> {
        content::settings_screen(self.sections, self.bound())
    }
}

/// What a piece of text is drawn in.
#[derive(Clone, Copy, Debug, PartialEq, Eq, Structural)]
pub enum Ink {
    Text,
    Accent,
    Dim,
}

/// One row in view.
#[derive(Debug)]
pub enum SheetRow {
    Heading(String),
    /// A setting and what it is set to.
    Setting { label: String, label_ink: Ink, value: String, value_ink: Ink, selected: bool },
    /// An action and its key.
    Control { title: String, chord: String },
}

/// A row as a value.
pub enum SheetRowState {
    Heading(Seq<char>),
    Setting { label: Seq<char>, label_ink: Ink, value: Seq<char>, value_ink: Ink, selected: bool },
    Control { title: Seq<char>, chord: Seq<char> },
}

impl View for SheetRow {
    type V = SheetRowState;

    open spec fn view(&self) -> SheetRowState {
        match self {
            SheetRow::Heading(t) => SheetRowState::Heading(t@),
            SheetRow::Setting { label, label_ink, value, value_ink, selected } => SheetRowState::Setting {
                label: label@,
                label_ink: *label_ink,
                value: value@,
                value_ink: *value_ink,
                selected: *selected,
            },
            SheetRow::Control { title, chord } => SheetRowState::Control { title: title@, chord: chord@ },
        }
    }
}

/// A setting as a row. A switch that is on is the one thing worth colouring:
/// it is the difference the eye is scanning for.
pub open spec fn setting_row(label: Seq<char>, value: Seq<char>, selected: bool) -> SheetRowState {
    let ink = if selected { Ink::Text } else { Ink::Dim };
    SheetRowState::Setting {
        label: (if selected { "\u{25b8}"@ } else { " "@ }) + " "@ + label,
        label_ink: ink,
        value,
        value_ink: if value == "ON"@ { Ink::Accent } else { ink },
        selected,
    }
}

/// The row of line `k` of the screen.
pub open spec fn row_of(sheet: SheetState, selected: nat, k: int) -> SheetRowState {
    match sheet.screen()[k] {
        LineState::Heading(t) => SheetRowState::Heading(t),
        LineState::Row(i) => setting_row(sheet.labels[i as int], sheet.values[i as int], i == selected),
        LineState::Control(i) => SheetRowState::Control {
            title: sheet.titles[i as int],
            chord: match sheet.chords[i as int] {
                Some(c) => c,
                None => Seq::empty(),
            },
        },
    }
}

fn setting(label: &str, value: &str, selected: bool) -> (r: SheetRow)
    ensures
        r@ == setting_row(label@, value@, selected),
{
    let ink: Ink = if selected { Ink::Text } else { Ink::Dim };
    let value_ink: Ink = if same(value, "ON") { Ink::Accent } else { ink };
    SheetRow::Setting {
        label: joined3(if selected { "\u{25b8}" } else { " " }, " ", label),
        label_ink: ink,
        value: copy_text(value),
        value_ink,
        selected,
    }
}

/// The screen as drawn.
#[derive(Debug)]
pub struct SettingsDrawn {
    pub title: &'static str,
    pub hint: String,
    pub rows: Vec<SheetRow>,
    pub top: usize,
    pub total: usize,
}

/// What the last change said, or how to leave. Esc comes first: a screen that
/// takes over a pane and does not say how to leave it is a trap.
pub open spec fn hint_of(status: Option<String>) -> Seq<char> {
    match status {
        Some(s) => s@,
        None => "Esc closes  \u{b7}  \u{2190}\u{2192} change  \u{b7}  Ctrl+S writes config.toml (comments not kept)"@,
    }
}

fn on_keys(chords: &Vec<Option<String>>) -> (r: Vec<bool>)
    ensures
        r@.len() == chords@.len(),
        forall|i: int| 0 <= i < r@.len() ==> (#[trigger] r@[i]) == (chords@[i] is Some),
{
    let mut out: Vec<bool> = Vec::new();
    let mut i: usize = 0;
    while i < chords.len()
        invariant
            i <= chords.len(),
            out.len() == i,
            forall|k: int| 0 <= k < i ==> (#[trigger] out@[k]) == (chords@[k] is Some),
        decreases chords.len() - i,
    {
        out.push(chords[i].is_some());
        i = i + 1;
    }
    out
}

/// The screen as drawn, `visible` rows of it.
pub fn drawn(s: &Settings, sheet: &Sheet, visible: usize) -> (r: SettingsDrawn)
    requires
        sheet@.wf(),
        sheet@.sections.len() > 0,
    ensures
        r.title@ == "SETTINGS"@,
        r.hint@ == hint_of(s.status),
        r.top == s.top,
        r.total == sheet@.screen().len(),
        r.rows@.len() == git_view::in_view(s.top as nat, visible as nat, sheet@.screen().len()),
        forall|i: int|
            0 <= i < r.rows@.len() ==> (#[trigger] r.rows@[i])@ == row_of(
                sheet@,
                crate::scroll::clamped(s.selected as int, sheet@.sections.len() - 1) as nat,
                s.top + i,
            ),
{
    let ghost m = sheet@;
    let bound: Vec<bool> = on_keys(&sheet.chords);
    assert(bound@ =~= m.bound());
    let lines: Vec<Line> = settings_lines(&sheet.sections, &bound);
    assert(content::line_list(lines@).len() == lines@.len());
    let selected: usize = s.setting(sheet.sections.len());
    let n: usize = if s.top >= lines.len() {
        0
    } else if lines.len() - s.top <= visible {
        lines.len() - s.top
    } else {
        visible
    };
    let mut rows: Vec<SheetRow> = Vec::new();
    let mut i: usize = 0;
    while i < n
        invariant
            i <= n,
            n > 0 ==> s.top + n <= lines.len(),
            rows.len() == i,
            m == sheet@,
            m.wf(),
            content::line_list(lines@) == m.screen(),
            forall|k: int| 0 <= k < i ==> (#[trigger] rows@[k])@ == row_of(m, selected as nat, s.top + k),
        decreases n - i,
    {
        let at: usize = s.top + i;
        proof {
            assert(m.screen()[at as int] == lines@[at as int]@);
            content::lemma_line_names_a_row(m.sections, m.bound(), at as int);
        }
        match &lines[at] {
            Line::Heading(t) => {
                rows.push(SheetRow::Heading(copy_text(t.as_str())));
            },
            Line::Row(k) => {
                let k: usize = *k;
                assert(m.labels[k as int] == sheet.labels@[k as int]@);
                assert(m.values[k as int] == sheet.values@[k as int]@);
                rows.push(
                    setting(sheet.labels[k].as_str(), sheet.values[k].as_str(), k == selected),
                );
            },
            Line::Control(k) => {
                let k: usize = *k;
                assert(m.titles[k as int] == sheet.titles@[k as int]@);
                let chord: String = match &sheet.chords[k] {
                    Some(c) => c.clone(),
                    None => String::new(),
                };
                assert(m.chords[k as int] == (match sheet.chords@[k as int] {
                    Some(c) => Some(c@),
                    None => None,
                }));
                rows.push(SheetRow::Control { title: copy_text(sheet.titles[k].as_str()), chord });
            },
        }
        i = i + 1;
    }
    let hint: String = match &s.status {
        Some(t) => t.clone(),
        None => "Esc closes  \u{b7}  \u{2190}\u{2192} change  \u{b7}  Ctrl+S writes config.toml (comments not kept)".to_owned(),
    };
    SettingsDrawn { title: "SETTINGS", hint, rows, top: s.top, total: lines.len() }
}

// -------------------------------------------------------------------- laws

/// Every row of a key shows that key: an action without one is not listed.
pub proof fn a_control_has_a_key(sheet: SheetState, selected: nat, k: int)
    requires
        sheet.wf(),
        0 <= k < sheet.screen().len(),
        row_of(sheet, selected, k) is Control,
    ensures
        exists|i: int|
            0 <= i < sheet.chords.len() && (#[trigger] sheet.chords[i]) == Some(
                row_of(sheet, selected, k)->chord,
            ),
{
    content::lemma_line_names_a_row(sheet.sections, sheet.bound(), k);
    let i = sheet.screen()[k]->Control_0 as int;
    assert(sheet.bound()[i]);
    assert(sheet.chords[i] is Some);
}

/// A row of the settings shows its own label and value; the selected one is
/// marked and bright, and what is on is lit.
pub proof fn a_setting_shows_its_value(label: Seq<char>, value: Seq<char>)
    ensures
        ({
            let on = setting_row(label, value, true);
            let off = setting_row(label, value, false);
            &&& on->Setting_label == "\u{25b8}"@ + " "@ + label && off->Setting_label == " "@ + " "@ + label
            &&& on->Setting_value == value && off->Setting_value == value
            &&& on->Setting_selected && !off->Setting_selected
            &&& on->Setting_label_ink == Ink::Text && off->Setting_label_ink == Ink::Dim
            &&& value == "ON"@ ==> on->Setting_value_ink == Ink::Accent && off->Setting_value_ink == Ink::Accent
            &&& value != "ON"@ ==> on->Setting_value_ink == Ink::Text && off->Setting_value_ink == Ink::Dim
        }),
{
}

/// Each line of the settings is drawn as what it is: a setting with its own
/// label and value, a control with its own title and chord.
pub proof fn a_line_is_drawn_as_what_it_is(sheet: SheetState, selected: nat, k: int, i: nat)
    requires
        sheet.wf(),
        0 <= k < sheet.screen().len(),
    ensures
        sheet.screen()[k] == LineState::Row(i) ==> {
            let row = row_of(sheet, selected, k);
            row is Setting && row->Setting_value == sheet.values[i as int] && row->Setting_selected == (i == selected)
        },
        sheet.screen()[k] == LineState::Control(i) ==> {
            let row = row_of(sheet, selected, k);
            row is Control && row->Control_title == sheet.titles[i as int] && (sheet.chords[i as int] matches Some(c)
                ==> row->Control_chord == c)
        },
        sheet.screen()[k] matches LineState::Heading(t) ==> row_of(sheet, selected, k) == SheetRowState::Heading(t),
{
}

/// What there is to say is said in place of the keys.
pub proof fn a_result_is_said_first(said: String)
    ensures
        hint_of(Some(said)) == said@,
        hint_of(None)
            == "Esc closes  \u{b7}  \u{2190}\u{2192} change  \u{b7}  Ctrl+S writes config.toml (comments not kept)"@,
{
}

} // verus!
