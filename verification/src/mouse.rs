//! The mouse: what a press, a move, a release or a turn of the wheel means.
//! What lies under the pointer is found in pixels elsewhere and comes in as
//! [`Under`].
use vstd::prelude::*;
use crate::action::Action;
use crate::dialog::Spot;
use crate::lsp::Pos;
use crate::scroll;

verus! {

/// Which way a divider moves.
#[derive(Clone, Copy, Debug, PartialEq, Eq, Structural)]
pub enum Axis {
    Horizontal,
    Vertical,
}

/// What of the panes lies under the pointer.
#[derive(Clone, Copy, Debug, PartialEq, Eq, Structural)]
pub enum Hit {
    /// A divider, by its number, and which way it moves.
    Divider(usize, Axis),
    Pane(usize),
}

/// What an overlay makes of the mouse while it is up.
#[derive(Clone, Copy, Debug, PartialEq, Eq, Structural)]
pub enum Overlay {
    Off,
    Picker,
    Palette,
}

/// What lies under the pointer.
#[derive(Clone, Copy, Debug, PartialEq, Eq)]
pub struct Under {
    pub overlay: Overlay,
    /// The settings button in the corner.
    pub settings: bool,
    /// A shortcut hint, and what it runs.
    pub chip: Option<Action>,
    pub hit: Option<Hit>,
    /// The row of the tree in that pane, and which row is selected there.
    pub row: Option<usize>,
    pub row_selected: usize,
    /// The cell of the terminal in that pane.
    pub cell: Option<(usize, usize)>,
    /// The place in the text of the editor in that pane.
    pub pos: Option<Pos>,
}

/// The last click in a text: where it was, and when.
#[derive(Clone, Copy, Debug, PartialEq, Eq, Structural)]
pub struct Click {
    pub pane: usize,
    pub pos: Pos,
    pub at: u64,
}

/// What the mouse is in the middle of.
#[derive(Clone, Copy, Debug, PartialEq, Eq)]
pub struct Mouse {
    /// The divider being dragged.
    pub dragging: Option<usize>,
    /// The pane a selection is being drawn in.
    pub selecting: Option<usize>,
    pub settings_pressed: bool,
    pub settings_hover: bool,
    pub divider_hover: Option<Axis>,
    pub last_click: Option<Click>,
}

/// What a press does.
#[derive(Clone, Copy, Debug, PartialEq, Eq)]
pub enum Down {
    Nothing,
    /// The overlay takes the click.
    Picker,
    Palette,
    /// The settings button is held. It fires on release.
    Hold,
    Run(Action),
    /// A divider is taken hold of.
    Drag,
    /// The pane gets the focus, and no more.
    Focus(usize),
    /// A row of the tree is selected; activated, when it already was.
    Row { pane: usize, row: usize, activate: bool },
    /// A selection starts at a cell of a terminal.
    Cells { pane: usize, col: usize, row: usize },
    /// The caret goes there; the word there, on a second click. What the
    /// editor last said goes.
    Text { pane: usize, pos: Pos, word: bool },
}

/// Whether a click at `pos` is the second of two: same pane, same place, and
/// within the interval the user chose for the system.
pub open spec fn is_second(last: Option<Click>, pane: usize, pos: Pos, now: u64, interval: u64) -> bool {
    match last {
        Some(c) => c.pane == pane && c.pos == pos && now - c.at <= interval,
        None => false,
    }
}

/// A press: what it does, what the mouse is then in the middle of, and
/// whether the release has to come back here. An overlay owns the mouse while
/// it is up; the button and the hints sit over the panes, so they are asked
/// first.
pub open spec fn pressed(m: Mouse, u: Under, now: u64, interval: u64) -> (Mouse, Down, bool) {
    if u.overlay == Overlay::Picker {
        (m, Down::Picker, false)
    } else if u.overlay == Overlay::Palette {
        (m, Down::Palette, false)
    } else if u.settings {
        (Mouse { settings_pressed: true, ..m }, Down::Hold, true)
    } else {
        match u.chip {
            Some(a) => (m, Down::Run(a), false),
            None => match u.hit {
                None => (m, Down::Nothing, false),
                Some(Hit::Divider(d, _)) => (Mouse { dragging: Some(d), ..m }, Down::Drag, true),
                Some(Hit::Pane(p)) => match u.row {
                    Some(row) => (m, Down::Row { pane: p, row, activate: row == u.row_selected }, false),
                    None => match u.cell {
                        Some((col, row)) => (
                            Mouse { selecting: Some(p), ..m },
                            Down::Cells { pane: p, col, row },
                            true,
                        ),
                        None => match u.pos {
                            Some(pos) => (
                                Mouse {
                                    selecting: Some(p),
                                    last_click: Some(Click { pane: p, pos, at: now }),
                                    ..m
                                },
                                Down::Text { pane: p, pos, word: is_second(m.last_click, p, pos, now, interval) },
                                true,
                            ),
                            None => (m, Down::Focus(p), false),
                        },
                    },
                },
            },
        }
    }
}

/// What a release does: the settings open, when their button was held and is
/// let go of on it; otherwise the modal editor in `sync` follows what the
/// mouse did. Drawn again when `redraw`.
#[derive(Clone, Copy, Debug, PartialEq, Eq, Structural)]
pub struct Up {
    pub open_settings: bool,
    pub sync: Option<usize>,
    pub redraw: bool,
}

/// A release. The selection survives it: it is about to be copied.
pub open spec fn released(m: Mouse, on_settings: bool) -> (Mouse, Up) {
    if m.settings_pressed {
        (
            Mouse { settings_pressed: false, ..m },
            Up { open_settings: on_settings, sync: None, redraw: true },
        )
    } else {
        (
            Mouse { selecting: None, dragging: None, ..m },
            Up { open_settings: false, sync: m.selecting, redraw: m.dragging is Some },
        )
    }
}

/// What a move does.
#[derive(Clone, Copy, Debug, PartialEq, Eq)]
pub enum Move {
    /// The divider follows the pointer, sideways or up and down.
    Divider { divider: usize, sideways: bool },
    /// The selection in a terminal reaches to that cell.
    Cells { pane: usize, col: usize, row: usize },
    /// The selection in a text reaches to that place: the anchor stays, which
    /// is what makes a drag a selection.
    Text { pane: usize, pos: Pos },
    /// Nothing but a frame, when `redraw`.
    Hover { redraw: bool },
}

/// A move: `cell` and `pos` are the places under the pointer in the pane the
/// selection is being drawn in, `axis` is that of the divider being dragged.
pub open spec fn moved(
    m: Mouse,
    axis: Option<Axis>,
    cell: Option<(usize, usize)>,
    pos: Option<Pos>,
    picker: bool,
    hit: Option<Hit>,
    on_settings: bool,
) -> (Mouse, Move) {
    if let Some(d) = m.dragging {
        (m, Move::Divider { divider: d, sideways: axis == Some(Axis::Horizontal) })
    } else if m.selecting is Some && cell is Some {
        (m, Move::Cells { pane: m.selecting->Some_0, col: cell->Some_0.0, row: cell->Some_0.1 })
    } else if m.selecting is Some && pos is Some {
        (m, Move::Text { pane: m.selecting->Some_0, pos: pos->Some_0 })
    } else if picker {
        (m, Move::Hover { redraw: true })
    } else {
        let over = match hit {
            Some(Hit::Divider(_, a)) => Some(a),
            _ => None,
        };
        (
            Mouse { divider_hover: over, settings_hover: on_settings, ..m },
            Move::Hover { redraw: over != m.divider_hover || on_settings != m.settings_hover },
        )
    }
}

fn same_axis(a: Option<Axis>, b: Option<Axis>) -> (r: bool)
    ensures
        r == (a == b),
{
    match (a, b) {
        (Some(x), Some(y)) => x == y,
        (None, None) => true,
        _ => false,
    }
}

impl Mouse {
    pub fn new() -> (r: Mouse)
        ensures
            r == (Mouse {
                dragging: None,
                selecting: None,
                settings_pressed: false,
                settings_hover: false,
                divider_hover: None,
                last_click: None,
            }),
    {
        Mouse {
            dragging: None,
            selecting: None,
            settings_pressed: false,
            settings_hover: false,
            divider_hover: None,
            last_click: None,
        }
    }

    /// A press at `now`, in milliseconds. True when the release has to come
    /// back here.
    pub fn down(&mut self, u: Under, now: u64, interval: u64) -> (r: (Down, bool))
        ensures
            (*final(self), r.0, r.1) == pressed(*old(self), u, now, interval),
    {
        match u.overlay {
            Overlay::Picker => {
                return (Down::Picker, false);
            },
            Overlay::Palette => {
                return (Down::Palette, false);
            },
            Overlay::Off => {},
        }
        if u.settings {
            self.settings_pressed = true;
            return (Down::Hold, true);
        }
        if let Some(a) = u.chip {
            return (Down::Run(a), false);
        }
        match u.hit {
            None => (Down::Nothing, false),
            Some(Hit::Divider(d, _)) => {
                self.dragging = Some(d);
                (Down::Drag, true)
            },
            Some(Hit::Pane(p)) => {
                if let Some(row) = u.row {
                    return (Down::Row { pane: p, row, activate: row == u.row_selected }, false);
                }
                if let Some((col, row)) = u.cell {
                    self.selecting = Some(p);
                    return (Down::Cells { pane: p, col, row }, true);
                }
                if let Some(pos) = u.pos {
                    let word: bool = match self.last_click {
                        Some(c) => c.pane == p && c.pos == pos && (now <= c.at || now - c.at <= interval),
                        None => false,
                    };
                    self.last_click = Some(Click { pane: p, pos, at: now });
                    self.selecting = Some(p);
                    return (Down::Text { pane: p, pos, word }, true);
                }
                (Down::Focus(p), false)
            },
        }
    }

    /// A release, on the settings button or not.
    pub fn up(&mut self, on_settings: bool) -> (r: Up)
        ensures
            (*final(self), r) == released(*old(self), on_settings),
            !old(self).settings_pressed ==> final(self).dragging is None && final(self).selecting is None,
    {
        if self.settings_pressed {
            self.settings_pressed = false;
            return Up { open_settings: on_settings, sync: None, redraw: true };
        }
        let sync: Option<usize> = self.selecting;
        let redraw: bool = self.dragging.is_some();
        self.selecting = None;
        self.dragging = None;
        Up { open_settings: false, sync, redraw }
    }

    /// A move.
    pub fn travel(
        &mut self,
        axis: Option<Axis>,
        cell: Option<(usize, usize)>,
        pos: Option<Pos>,
        picker: bool,
        hit: Option<Hit>,
        on_settings: bool,
    ) -> (r: Move)
        ensures
            (*final(self), r) == moved(*old(self), axis, cell, pos, picker, hit, on_settings),
    {
        if let Some(d) = self.dragging {
            return Move::Divider { divider: d, sideways: same_axis(axis, Some(Axis::Horizontal)) };
        }
        if let Some(p) = self.selecting {
            if let Some((col, row)) = cell {
                return Move::Cells { pane: p, col, row };
            }
            if let Some(at) = pos {
                return Move::Text { pane: p, pos: at };
            }
        }
        if picker {
            return Move::Hover { redraw: true };
        }
        let over: Option<Axis> = match hit {
            Some(Hit::Divider(_, a)) => Some(a),
            _ => None,
        };
        let redraw: bool = !same_axis(over, self.divider_hover) || on_settings != self.settings_hover;
        self.divider_hover = over;
        self.settings_hover = on_settings;
        Move::Hover { redraw }
    }
}

/// What a right click does.
#[derive(Clone, Copy, Debug, PartialEq, Eq, Structural)]
pub enum Right {
    Nothing,
    /// The pane gets the focus, and no more.
    Focus(usize),
    /// Its selection is copied and cleared.
    Copy(usize),
    Paste(usize),
}

/// A right click in a terminal copies when there is a selection and pastes
/// when there is none: two jobs on one button, but never ambiguous.
pub fn on_right_click(hit: Option<Hit>, terminal: bool, selection: bool) -> (r: Right)
    ensures
        r == (match hit {
            Some(Hit::Pane(p)) => if !terminal {
                Right::Focus(p)
            } else if selection {
                Right::Copy(p)
            } else {
                Right::Paste(p)
            },
            _ => Right::Nothing,
        }),
{
    match hit {
        Some(Hit::Pane(p)) => if !terminal {
            Right::Focus(p)
        } else if selection {
            Right::Copy(p)
        } else {
            Right::Paste(p)
        },
        _ => Right::Nothing,
    }
}

/// The pane the wheel turns: the one under the pointer rather than the
/// focused one, since the mouse already said what it meant.
pub fn wheel_target(hit: Option<Hit>, focus: usize) -> (r: usize)
    ensures
        r == (match hit {
            Some(Hit::Pane(p)) => p,
            _ => focus,
        }),
{
    match hit {
        Some(Hit::Pane(p)) => p,
        _ => focus,
    }
}

/// The cell of a terminal under the pointer, held inside it so that a drag
/// slightly past the edge does not drop the selection.
pub fn cell_in(col: i64, row: i64, cols: usize, rows: usize) -> (r: (usize, usize))
    requires
        0 < cols <= i64::MAX,
        0 < rows <= i64::MAX,
    ensures
        r.0 == scroll::clamped(col as int, cols - 1),
        r.1 == scroll::clamped(row as int, rows - 1),
{
    let c: usize = if col < 0 {
        0
    } else if col as u64 > (cols - 1) as u64 {
        cols - 1
    } else {
        col as usize
    };
    let r: usize = if row < 0 {
        0
    } else if row as u64 > (rows - 1) as u64 {
        rows - 1
    } else {
        row as usize
    };
    (c, r)
}

/// The row of the tree `offset` rows below the first one drawn, if there is
/// one.
pub fn tree_row(top: usize, offset: usize, rows: usize) -> (r: Option<usize>)
    ensures
        r == (if top + offset < rows { Some((top + offset) as usize) } else { None }),
{
    if top < rows && offset < rows - top { Some(top + offset) } else { None }
}

/// The place in a text of the cell under the pointer. The view may be
/// scrolled both ways, so a cell on screen is not a place in the text.
pub fn text_pos(top: usize, left: usize, row: usize, col: usize) -> (r: Pos)
    requires
        top + row <= usize::MAX,
        left + col <= usize::MAX,
    ensures
        r == (Pos { line: (top + row) as usize, col: (left + col) as usize }),
{
    Pos { line: top + row, col: left + col }
}

/// Whether the folder dialog has something to press there. A row that turns
/// the pointer into a hand is a row that looks pressable before it is pressed.
pub fn picker_clickable(spot: &Spot) -> (r: bool)
    ensures
        r == !(spot is BarRow || spot is Rail || spot is Nowhere),
{
    match spot {
        Spot::BarRow | Spot::Rail | Spot::Nowhere => false,
        _ => true,
    }
}

// -------------------------------------------------------------------- laws

/// While an overlay is up, a click reaches nothing under it.
pub proof fn an_overlay_owns_the_mouse(m: Mouse, u: Under, now: u64, interval: u64)
    requires
        u.overlay != Overlay::Off,
    ensures
        pressed(m, u, now, interval).0 == m,
        pressed(m, u, now, interval).1 == Down::Picker || pressed(m, u, now, interval).1 == Down::Palette,
{
}

/// A press on the settings button let go of elsewhere opens nothing, and
/// leaves nothing held.
pub proof fn a_slipped_press_opens_nothing(m: Mouse, u: Under, now: u64, interval: u64)
    requires
        u.overlay == Overlay::Off,
        u.settings,
    ensures
        ({
            let held = pressed(m, u, now, interval).0;
            &&& held.settings_pressed
            &&& !released(held, false).1.open_settings
            &&& released(held, true).1.open_settings
            &&& !released(held, false).0.settings_pressed
        }),
{
}

/// Two clicks in one place within the interval take the word; the first alone
/// moves the caret.
pub proof fn a_second_click_takes_the_word(m: Mouse, u: Under, pane: usize, pos: Pos, now: u64, later: u64, interval: u64)
    requires
        u.overlay == Overlay::Off,
        !u.settings,
        u.chip is None,
        u.hit == Some(Hit::Pane(pane)),
        u.row is None,
        u.cell is None,
        u.pos == Some(pos),
        m.last_click is None,
        now <= later <= now + interval,
    ensures
        ({
            let first = pressed(m, u, now, interval);
            let second = pressed(first.0, u, later, interval);
            &&& first.1 == (Down::Text { pane, pos, word: false })
            &&& second.1 == (Down::Text { pane, pos, word: true })
        }),
{
}

/// A release ends every drag.
pub proof fn a_release_lets_go(m: Mouse, on_settings: bool)
    requires
        !m.settings_pressed,
    ensures
        released(m, on_settings).0.dragging is None,
        released(m, on_settings).0.selecting is None,
{
}

/// What turns the pointer into a hand is exactly what a click answers to: a
/// spot that does not, changes nothing but an open address bar.
pub proof fn a_hand_keeps_its_promise(m: crate::dialog::DialogState, spot: Spot)
    requires
        spot is BarRow || spot is Rail || spot is Nowhere,
    ensures
        crate::dialog::dialog_clicked(m, spot).0.picker == m.picker,
        crate::dialog::dialog_clicked(m, spot).1 == crate::dialog::AskState::Done,
{
}

/// A press on another place, or later than a double click allows, is a first
/// one again, wherever the last one was.
pub proof fn a_press_elsewhere_is_a_first_one(m: Mouse, u: Under, pane: usize, pos: Pos, now: u64, interval: u64)
    requires
        u.overlay == Overlay::Off,
        !u.settings,
        u.chip is None,
        u.hit == Some(Hit::Pane(pane)),
        u.row is None,
        u.cell is None,
        u.pos == Some(pos),
    ensures
        pressed(m, u, now, interval).1 is Text,
        pressed(m, u, now, interval).1->Text_pos == pos,
        m.last_click is None ==> !pressed(m, u, now, interval).1->Text_word,
        m.last_click matches Some(c) ==> (c.pos != pos || c.pane != pane || now - c.at > interval
            ==> !pressed(m, u, now, interval).1->Text_word),
        pressed(m, u, now, interval).0.last_click == Some(Click { pane, pos, at: now }),
{
}

/// A press goes to what lies on top: a picker, a palette, the button, a
/// chip, and only then to what is on the panes.
pub proof fn a_press_goes_to_what_lies_on_top(m: Mouse, u: Under, now: u64, interval: u64)
    ensures
        ({
            let (after, does, held) = pressed(m, u, now, interval);
            &&& u.overlay == Overlay::Picker ==> does == Down::Picker && after == m && !held
            &&& u.overlay == Overlay::Palette ==> does == Down::Palette && after == m && !held
            &&& u.overlay == Overlay::Off && u.settings ==> does == Down::Hold && after.settings_pressed && held
            &&& u.overlay == Overlay::Off && !u.settings ==> {
                &&& u.chip is Some ==> does == Down::Run(u.chip.unwrap()) && after == m && !held
                &&& u.chip is None && u.hit is None ==> does == Down::Nothing && after == m && !held
                &&& u.chip is None && u.hit is Some && u.hit.unwrap() is Divider ==> does == Down::Drag && held
                    && after == (Mouse { dragging: Some(u.hit.unwrap()->Divider_0), ..m })
                &&& u.chip is None && u.hit is Some && u.hit.unwrap() is Pane ==> {
                    let pane = u.hit.unwrap()->Pane_0;
                    // A row is selected, and the one that already was is opened.
                    &&& u.row matches Some(row) ==> does == (Down::Row {
                        pane,
                        row,
                        activate: row == u.row_selected,
                    }) && after == m && !held
                    &&& u.row is None && u.cell is Some ==> does == (Down::Cells {
                        pane,
                        col: u.cell.unwrap().0,
                        row: u.cell.unwrap().1,
                    }) && after == (Mouse { selecting: Some(pane), ..m }) && held
                    &&& u.row is None && u.cell is None && u.pos is None ==> does == Down::Focus(pane) && after == m
                        && !held
                    &&& u.row is None && u.cell is None && u.pos is Some ==> does is Text && does->Text_pane == pane
                        && does->Text_pos == u.pos.unwrap() && after.selecting == Some(pane) && held
                }
            }
        }),
{
}

/// Letting go ends what the press began: a drag is over and redrawn, a
/// selection is over and its pane is brought up to date, and the settings
/// open only where the button is still under the pointer.
pub proof fn letting_go_ends_what_was_begun(m: Mouse, on_settings: bool)
    ensures
        ({
            let (after, up) = released(m, on_settings);
            &&& m.settings_pressed ==> up.open_settings == on_settings && !after.settings_pressed && up.redraw
                && up.sync is None
            &&& !m.settings_pressed ==> {
                &&& !up.open_settings
                &&& after.dragging is None && after.selecting is None
                &&& up.sync == m.selecting
                &&& up.redraw == (m.dragging is Some)
            }
            &&& after.last_click == m.last_click
        }),
{
}

/// While something is held the pointer moves that and nothing else.
pub proof fn moving_moves_what_is_held(
    m: Mouse,
    axis: Option<Axis>,
    cell: Option<(usize, usize)>,
    pos: Option<Pos>,
    picker: bool,
    hit: Option<Hit>,
    on_settings: bool,
)
    ensures
        ({
            let (after, does) = moved(m, axis, cell, pos, picker, hit, on_settings);
            &&& m.dragging is Some ==> after == m && does == (Move::Divider {
                divider: m.dragging.unwrap(),
                sideways: axis == Some(Axis::Horizontal),
            })
            &&& m.dragging is None && m.selecting is Some && cell is Some ==> after == m && does == (Move::Cells {
                pane: m.selecting.unwrap(),
                col: cell.unwrap().0,
                row: cell.unwrap().1,
            })
            &&& m.dragging is None && m.selecting is Some && cell is None && pos is Some ==> after == m && does == (
            Move::Text { pane: m.selecting.unwrap(), pos: pos.unwrap() })
            &&& m.dragging is None && m.selecting is None ==> does is Hover
            // What is under the pointer is known afterwards, and drawn again
            // exactly where it changed.
            &&& m.dragging is None && m.selecting is None && !picker ==> {
                &&& after.settings_hover == on_settings
                &&& hit matches Some(Hit::Divider(_, a)) ==> after.divider_hover == Some(a)
                &&& !(hit is Some && hit.unwrap() is Divider) ==> after.divider_hover is None
                &&& does->Hover_redraw == (after.divider_hover != m.divider_hover || after.settings_hover
                    != m.settings_hover)
            }
        }),
{
}

/// Dragging a divider: from the press on it until the pointer is let go, the
/// pointer moves that divider, and afterwards none.
pub proof fn a_divider_is_dragged_until_let_go(
    m: Mouse,
    u: Under,
    divider: usize,
    a: Axis,
    cell: Option<(usize, usize)>,
    pos: Option<Pos>,
    now: u64,
    interval: u64,
)
    requires
        u.overlay == Overlay::Off,
        !u.settings,
        u.chip is None,
        u.hit == Some(Hit::Divider(divider, a)),
        !m.settings_pressed,
    ensures
        ({
            let held = pressed(m, u, now, interval).0;
            let over = released(held, false).0;
            &&& moved(held, Some(a), cell, pos, false, u.hit, false).1 == (Move::Divider {
                divider,
                sideways: a == Axis::Horizontal,
            })
            &&& moved(over, Some(a), cell, pos, false, u.hit, false).1 is Hover
        }),
{
}

} // verus!
