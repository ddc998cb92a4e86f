//! Keys, characters, the pointer, the mouse and the clock: who gets what.
use kubide::action::Action;
use kubide::clipboard::{copied, for_editor, for_terminal, wheel_arrows, AfterCopy};
use kubide::content::{Settings, Welcome};
use kubide::desk::{Confirm, Desk};
use kubide::keys::{agent_key, editor_key, explorer_key, settings_key, snippet_trigger, term_key_bytes, vim_named_key,
    welcome_key, AgentKey, Bound, CharRoute, EditKey, KeyFacts, Mods, Route, Scope, SettingsDo, TreeDo, VimKey, WelcomeDo};
use kubide::lsp::Pos;
use kubide::mouse::{cell_in, on_right_click, text_pos, tree_row, wheel_target, Axis, Down, Hit, Mouse, Move, Overlay, Right,
    Under};
use kubide::panes::Content;
use kubide::path::Path;
use kubide::pointer;
use kubide::pointer::{PointerStyle, Shape, Stock, Style, TextPointerStyle};
use kubide::session::PaneId;
use kubide::tick::{caret_on, status_stamp, Due, Seen, Stamp, Ticker, GIT_INTERVAL, SESSION_INTERVAL};

const PLAIN: Mods = Mods { ctrl: false, shift: false, alt: false };
const CTRL: Mods = Mods { ctrl: true, shift: false, alt: false };

fn desk(content: Content) -> Desk {
    let mut d = Desk::new(PaneId(0), Path::parse("C:\\work"));
    d.panes.place(PaneId(0), content);
    d
}

fn editor() -> Content {
    Content::Editor { path: None, modified: false }
}

fn facts() -> KeyFacts {
    KeyFacts {
        dialog_open: false,
        bound: None,
        vim_on: false,
        vim_chords: false,
        vim_wants: false,
        chord_declined: false,
        key_declined: false,
        visible: 10,
        auto_close: true,
        selecting: false,
        agent_asks: false,
        agent_completes: false,
    }
}

fn bound(action: Action, scope: Scope) -> KeyFacts {
    KeyFacts { bound: Some(Bound { action, scope }), ..facts() }
}

/// An open overlay takes every key, bound or not.
#[test]
fn an_open_overlay_takes_every_key() {
    let mut d = desk(editor());
    let k = KeyFacts { dialog_open: true, ..bound(Action::Quit, Scope::Global) };
    assert_eq!(d.on_key(b'Q', CTRL, &k), Route::Dialog);
    d.prompt_for(kubide::desk::Pending::ReplaceWhat, "replace", "");
    assert_eq!(d.on_key(b'Q', CTRL, &bound(Action::Quit, Scope::Global)), Route::Overlay);
    assert_eq!(d.on_char('q', false, false, false, true, false), CharRoute::Overlay);
}

/// A bound key runs its action, and a shell keeps its control characters.
#[test]
fn a_shell_keeps_ctrl_c() {
    let k = bound(Action::Copy, Scope::Editor);
    assert_eq!(desk(editor()).on_key(b'C', CTRL, &k), Route::Run(Action::Copy));
    assert_ne!(desk(Content::Terminal).on_key(b'C', CTRL, &k), Route::Run(Action::Copy));
    let tree_only = bound(Action::Rename, Scope::Explorer);
    assert_eq!(desk(Content::Explorer).on_key(0x71, PLAIN, &tree_only), Route::Run(Action::Rename));
    assert_eq!(desk(editor()).on_key(0x71, PLAIN, &tree_only), Route::Nobody);
}

/// Unbound keys go to what the focused pane holds.
#[test]
fn an_unbound_key_goes_to_the_pane() {
    assert_eq!(desk(Content::Terminal).on_key(0x26, PLAIN, &facts()), Route::Terminal(b"\x1b[A".to_vec()));
    assert_eq!(
        desk(editor()).on_key(0x28, PLAIN, &facts()),
        Route::Editor(EditKey::Vertical { lines: 1, extend: false })
    );
    assert_eq!(desk(Content::Settings).on_key(0x28, PLAIN, &facts()), Route::Settings);
    assert_eq!(desk(Content::Git).on_key(0x20, PLAIN, &facts()), Route::Git(None));
    assert_eq!(desk(Content::Explorer).on_key(0x0D, PLAIN, &facts()), Route::Explorer);
    assert_eq!(desk(Content::Agent).on_key(0x0D, PLAIN, &facts()), Route::Agent(AgentKey::Send));
}

/// Typing forgets a waiting confirmation.
#[test]
fn typing_forgets_a_confirmation() {
    let mut d = desk(editor());
    d.confirm = Some(Confirm::DeletePath);
    assert_eq!(d.on_char('x', false, false, false, true, false), CharRoute::Text { paired: true });
    assert_eq!(d.confirm, None);
    assert_eq!(d.on_char('\r', false, false, false, true, false), CharRoute::NewLine);
    assert_eq!(desk(Content::Terminal).on_char('x', false, false, false, true, false), CharRoute::Terminal);
}

/// What keys are to a shell and to vim.
#[test]
fn keys_as_a_shell_and_vim_know_them() {
    assert_eq!(term_key_bytes(0x08, false), Some(vec![0x7f]));
    assert_eq!(term_key_bytes(0x08, true), Some(vec![0x08]));
    assert_eq!(term_key_bytes(0x2E, false), Some(b"\x1b[3~".to_vec()));
    assert_eq!(term_key_bytes(b'A', false), None);
    assert_eq!(vim_named_key(b'D', CTRL), Some(VimKey::Ctrl('d')));
    assert_eq!(vim_named_key(0x1B, PLAIN), Some(VimKey::Esc));
    assert_eq!(vim_named_key(b'D', PLAIN), None);
}

/// The keys of the editor, the tree, the settings and the welcome screen.
#[test]
fn the_keys_of_each_pane() {
    let shift = Mods { shift: true, ..PLAIN };
    assert_eq!(editor_key(0x25, CTRL, 10, false, false), Some(EditKey::WordLeft { extend: false }));
    assert_eq!(editor_key(0x22, shift, 10, false, false), Some(EditKey::Vertical { lines: 10, extend: true }));
    assert_eq!(editor_key(0x09, shift, 10, false, false), Some(EditKey::Dedent));
    assert_eq!(editor_key(0x09, PLAIN, 10, false, true), Some(EditKey::Indent));
    assert_eq!(editor_key(0x09, PLAIN, 10, false, false), Some(EditKey::Spaces));
    assert!(EditKey::Spaces.edits() && !EditKey::Left { extend: false }.edits());

    let root = Path::parse("C:\\work\\thing");
    assert_eq!(explorer_key(0x28, 10, false, &root), TreeDo::Move(1));
    assert_eq!(explorer_key(0x08, 10, false, &root), TreeDo::Up(Path::parse("C:\\work")));
    assert_eq!(explorer_key(b'A', 10, false, &root), TreeDo::Pass);

    let mut s = Settings::new();
    assert_eq!(settings_key(&mut s, 0x28, 10, 3), SettingsDo::Done);
    assert_eq!(settings_key(&mut s, 0x25, 10, 3), SettingsDo::Change { setting: 1, delta: -1 });
    assert_eq!(settings_key(&mut s, 0x1B, 10, 3), SettingsDo::Close);

    let mut w = Welcome::new(&root, Vec::new());
    assert_eq!(welcome_key(&mut w, 0x0D), WelcomeDo::Go(root.dup()));
    assert_eq!(welcome_key(&mut w, b'A'), WelcomeDo::Pass);
}

/// The agent's pane: answers first, then completions, then the turn.
#[test]
fn the_agents_keys() {
    assert_eq!(agent_key(0x0D, false, true, false, 10), AgentKey::Answer);
    assert_eq!(agent_key(0x1B, false, true, false, 10), AgentKey::Deny);
    assert_eq!(agent_key(0x0D, false, false, false, 10), AgentKey::Send);
    assert_eq!(agent_key(0x1B, false, false, false, 10), AgentKey::Cancel);
    assert_eq!(agent_key(0x26, false, false, true, 10), AgentKey::CompleteMove(-1));
    assert_eq!(agent_key(0x26, false, false, false, 10), AgentKey::Scroll(3));
    assert_eq!(agent_key(0x08, true, false, false, 10), AgentKey::Backspace { word: true });
}

/// Tab looks a word up, unless it has something better to do.
#[test]
fn tab_looks_up_a_word() {
    assert_eq!(snippet_trigger(true, false, "fn".into()), Some("fn".into()));
    assert_eq!(snippet_trigger(false, false, "fn".into()), None);
    assert_eq!(snippet_trigger(true, true, "fn".into()), None);
    assert_eq!(snippet_trigger(true, false, "".into()), None);
}

/// Pasted text is marked for a shell and cleaned for a buffer.
#[test]
fn pasting_a_script_runs_nothing() {
    assert_eq!(for_terminal("a\r\nb\nc"), "\x1b[200~a\rb\nc\x1b[201~");
    assert_eq!(for_editor("a\r\nb\rc\nd"), "a\nb\nc\nd");
    assert_eq!(for_editor("plain"), "plain");
    assert_eq!(wheel_arrows(2), ("\x1b[A", 2));
    assert_eq!(wheel_arrows(-40), ("\x1b[B", 5));
}

/// Text is removed only once there is a copy of it.
#[test]
fn a_failed_cut_keeps_the_text() {
    assert_eq!(copied(false, false, true, true, false), AfterCopy::Nothing);
    assert_eq!(copied(false, false, true, true, true), AfterCopy::RemoveText);
    assert_eq!(copied(false, true, true, true, true), AfterCopy::ModalDelete);
    assert_eq!(copied(false, false, false, true, true), AfterCopy::Nothing);
    assert_eq!(copied(true, false, false, true, false), AfterCopy::ClearSelection);
    assert_eq!(copied(true, false, false, false, true), AfterCopy::Nothing);
}

fn under() -> Under {
    Under {
        overlay: Overlay::Off,
        settings: false,
        chip: None,
        hit: Some(Hit::Pane(3)),
        row: None,
        row_selected: 0,
        cell: None,
        pos: None,
    }
}

/// Two clicks in one place take the word; a third place starts over.
#[test]
fn a_double_click_takes_the_word() {
    let mut m = Mouse::new();
    let pos = Pos { line: 2, col: 5 };
    let u = Under { pos: Some(pos), ..under() };
    assert_eq!(m.down(u, 1000, 500), (Down::Text { pane: 3, pos, word: false }, true));
    assert_eq!(m.down(u, 1400, 500), (Down::Text { pane: 3, pos, word: true }, true));
    assert_eq!(m.down(u, 2000, 500), (Down::Text { pane: 3, pos, word: false }, true));
    let up = m.up(false);
    assert_eq!((up.sync, up.redraw), (Some(3), false));
}

/// Clicks on a tree, a terminal, a divider, a hint and an overlay.
#[test]
fn a_click_goes_to_what_is_under_it() {
    let mut m = Mouse::new();
    let row = Under { row: Some(4), row_selected: 4, ..under() };
    assert_eq!(m.down(row, 0, 500).0, Down::Row { pane: 3, row: 4, activate: true });
    let cell = Under { cell: Some((7, 1)), ..under() };
    assert_eq!(m.down(cell, 0, 500), (Down::Cells { pane: 3, col: 7, row: 1 }, true));
    assert_eq!(m.travel(None, Some((9, 2)), None, false, None, false), Move::Cells { pane: 3, col: 9, row: 2 });
    m.up(false);
    let divider = Under { hit: Some(Hit::Divider(1, Axis::Horizontal)), ..under() };
    assert_eq!(m.down(divider, 0, 500), (Down::Drag, true));
    assert_eq!(
        m.travel(Some(Axis::Horizontal), None, None, false, None, false),
        Move::Divider { divider: 1, sideways: true }
    );
    assert!(m.up(false).redraw);
    let chip = Under { chip: Some(Action::Commands), ..under() };
    assert_eq!(m.down(chip, 0, 500), (Down::Run(Action::Commands), false));
    let covered = Under { overlay: Overlay::Palette, ..chip };
    assert_eq!(m.down(covered, 0, 500), (Down::Palette, false));
    assert_eq!(m.down(under(), 0, 500), (Down::Focus(3), false));
    assert_eq!(m.down(Under { hit: None, ..under() }, 0, 500), (Down::Nothing, false));
}

/// The settings button fires on release, and only on the button.
#[test]
fn a_button_fires_on_release() {
    let mut m = Mouse::new();
    let u = Under { settings: true, ..under() };
    assert_eq!(m.down(u, 0, 500), (Down::Hold, true));
    assert!(!m.up(false).open_settings);
    m.down(u, 0, 500);
    assert!(m.up(true).open_settings);
    assert_eq!(m.travel(None, None, None, false, None, true), Move::Hover { redraw: true });
    assert_eq!(m.travel(None, None, None, false, None, true), Move::Hover { redraw: false });
}

/// The right button copies or pastes, the wheel turns what is under it.
#[test]
fn the_right_button_and_the_wheel() {
    assert_eq!(on_right_click(Some(Hit::Pane(2)), true, true), Right::Copy(2));
    assert_eq!(on_right_click(Some(Hit::Pane(2)), true, false), Right::Paste(2));
    assert_eq!(on_right_click(Some(Hit::Pane(2)), false, false), Right::Focus(2));
    assert_eq!(on_right_click(None, true, true), Right::Nothing);
    assert_eq!(wheel_target(Some(Hit::Pane(2)), 9), 2);
    assert_eq!(wheel_target(None, 9), 9);
    assert_eq!(cell_in(-3, 99, 80, 24), (0, 23));
    assert_eq!(tree_row(5, 3, 9), Some(8));
    assert_eq!(tree_row(5, 4, 9), None);
    assert_eq!(text_pos(10, 4, 2, 3), Pos { line: 12, col: 7 });
}

fn plain_style() -> Style {
    Style {
        custom: false,
        size: 24,
        pointer: PointerStyle::Arrow,
        over_text: TextPointerStyle::Ibeam,
        color: String::new(),
        pointer_color: String::new(),
        text_color: String::new(),
        pointer_file: String::new(),
        text_file: String::new(),
        hand_file: String::new(),
        resize_we_file: String::new(),
        resize_ns_file: String::new(),
    }
}

/// A window that asks for nothing special wears the system's pointers.
#[test]
fn a_plain_window_wears_the_systems_pointers() {
    let over = |divider, over_text| pointer::Over {
        divider,
        dialog_open: false,
        clickable: false,
        overlay_open: false,
        over_text,
    };
    assert_eq!(plain_style().cursor(&over(None, true), 0), Shape::Stock(Stock::Text));
    assert_eq!(plain_style().cursor(&over(None, false), 0), Shape::Stock(Stock::Arrow));
    assert_eq!(
        plain_style().cursor(&over(Some(kubide::session::Axis::Horizontal), true), 0),
        Shape::Stock(Stock::SizeWE)
    );
}

fn quiet() -> Seen {
    Seen {
        terminal_dirty: false,
        git_changed: false,
        tree_changed: false,
        remote_done: false,
        agent_changed: false,
        busy_secs: 0,
        stamp: Stamp { minute: 0, countdown: 0 },
        timer_turned: false,
        caret_shown: false,
        blink: true,
    }
}

/// An idle window owes no frame; a clock owes one when its minute turns.
#[test]
fn an_idle_window_is_not_drawn() {
    let mut t = Ticker::new(0);
    assert!(!t.finish(&quiet()));
    let later = Seen { stamp: status_stamp(true, 120, false, 99), ..quiet() };
    assert!(t.finish(&later));
    assert!(!t.finish(&later));
    assert_eq!(status_stamp(false, 120, false, 99), Stamp { minute: 0, countdown: 0 });
}

/// The layout is written and git is asked when their time has come.
#[test]
fn work_comes_due() {
    let mut t = Ticker::new(0);
    assert_eq!(t.due(1, false), Due::Work { save: false, refresh: false });
    assert_eq!(t.due(GIT_INTERVAL, false), Due::Work { save: false, refresh: true });
    assert_eq!(t.due(SESSION_INTERVAL, false), Due::Work { save: true, refresh: true });
    assert_eq!(t.due(SESSION_INTERVAL, true), Due::Reload);
    assert!(caret_on(400_000_000, 0));
    assert!(!caret_on(600_000_000, 0));
    assert!(caret_on(1_100_000_000, 0));
}

/// News from git makes every gutter stale, and a move starts both clocks over.
#[test]
fn news_and_moves_are_counted() {
    let mut t = Ticker::new(0);
    t.git_news();
    assert_eq!(t.git_gen, 1);
    t.moved(7);
    assert_eq!((t.git_at, t.session_at), (7, 7));
}

/// A chord vim declines goes to its binding; one with no binding is offered
/// once more by name, and after that to nobody.
#[test]
fn what_vim_declines_takes_the_ordinary_path() {
    let mut d = desk(editor());
    let k = KeyFacts { vim_on: true, vim_chords: true, vim_wants: true, ..bound(Action::Save, Scope::Global) };
    assert!(matches!(d.on_key(b'S', CTRL, &k), Route::Vim(_)));
    let once = d.declined(b'S', CTRL, &k);
    assert!(once.chord_declined && !once.key_declined);
    assert_eq!(d.on_key(b'S', CTRL, &once), Route::Run(Action::Save));

    let k = KeyFacts { bound: None, ..k };
    let once = d.declined(b'S', CTRL, &k);
    assert!(matches!(d.on_key(b'S', CTRL, &once), Route::Vim(_)));
    let twice = d.declined(b'S', CTRL, &once);
    assert!(twice.chord_declined && twice.key_declined);
    assert_eq!(d.on_key(b'S', CTRL, &twice), Route::Nobody);

    // A named key is offered once.
    let once = d.declined(0x1B, PLAIN, &k);
    assert!(!once.chord_declined && once.key_declined);
    assert!(!matches!(d.on_key(0x1B, PLAIN, &once), Route::Vim(_)));
}
