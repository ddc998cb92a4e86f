//! Coming up: which folder the window is about, what it opens with, what the
//! font can draw, and what a changed configuration asks for.
use vstd::prelude::*;
use vstd::string::*;
use crate::panes;
use crate::path;
use crate::path::{Path, PathState};
use crate::text;
use crate::text::{joined, same};

verus! {

/// What the window is about.
#[derive(Debug)]
pub struct Workspace {
    pub dir: Path,
    /// A file named on the command line.
    pub file: Option<Path>,
    /// Whether somebody said where to work, by naming a place or by marking
    /// it.
    pub explicit: bool,
    /// Mark the folder before opening it.
    pub init: bool,
}

/// A workspace as a value.
#[verifier::ext_equal]
pub struct WorkspaceState {
    pub dir: PathState,
    pub file: Option<PathState>,
    pub explicit: bool,
    pub init: bool,
}

impl View for Workspace {
    type V = WorkspaceState;

    open spec fn view(&self) -> WorkspaceState {
        WorkspaceState {
            dir: self.dir@,
            file: panes::opt_path(self.file),
            explicit: self.explicit,
            init: self.init,
        }
    }
}

/// What was named on the command line: the word as given, whether something
/// in the folder has that name, the real path it leads to, whether that is a
/// folder, and the marked folder around a file, if there is one.
#[derive(Debug)]
pub struct Named {
    pub word: String,
    pub exists: bool,
    pub path: Path,
    pub is_dir: bool,
    pub marked: Option<Path>,
}

/// The folder a named file sits in, which is where to look for a marked one.
pub open spec fn beside_of(path: PathState, cwd: PathState) -> PathState {
    match path::path_parent(path) {
        Some(p) => p,
        None => cwd,
    }
}

pub fn beside(path: &Path, cwd: &Path) -> (r: Path)
    ensures
        r@ == beside_of(path@, cwd@),
{
    match path.parent() {
        Some(p) => p,
        None => cwd.dup(),
    }
}

/// Where to work. With nothing named, the marked folder around this one, or
/// this one. The word `workspace` marks this folder, unless something here
/// has that name, in which case the path wins: a word can be reclaimed, a
/// folder cannot. A file names itself, not a workspace: the project beside it
/// is what opens.
pub open spec fn workspace_of(cwd: PathState, marked: Option<PathState>, named: Option<Named>) -> WorkspaceState {
    match named {
        None => WorkspaceState {
            dir: match marked {
                Some(d) => d,
                None => cwd,
            },
            file: None,
            explicit: marked is Some,
            init: false,
        },
        Some(n) => if n.word@ == "workspace"@ && !n.exists {
            WorkspaceState { dir: cwd, file: None, explicit: true, init: true }
        } else if n.is_dir {
            WorkspaceState { dir: n.path@, file: None, explicit: true, init: false }
        } else {
            WorkspaceState {
                dir: match n.marked {
                    Some(d) => d@,
                    None => beside_of(n.path@, cwd),
                },
                file: Some(n.path@),
                explicit: true,
                init: false,
            }
        },
    }
}

impl Workspace {
    pub fn from_args(cwd: Path, marked: Option<Path>, named: Option<Named>) -> (r: Workspace)
        ensures
            r@ == workspace_of(cwd@, panes::opt_path(marked), named),
    {
        match named {
            None => match marked {
                Some(dir) => Workspace { dir, file: None, explicit: true, init: false },
                None => Workspace { dir: cwd, file: None, explicit: false, init: false },
            },
            Some(n) => {
                if same(n.word.as_str(), "workspace") && !n.exists {
                    return Workspace { dir: cwd, file: None, explicit: true, init: true };
                }
                if n.is_dir {
                    return Workspace { dir: n.path, file: None, explicit: true, init: false };
                }
                let dir: Path = match n.marked {
                    Some(d) => d,
                    None => beside(&n.path, &cwd),
                };
                Workspace { dir, file: Some(n.path), explicit: true, init: false }
            },
        }
    }

    /// Whether to pick up where the last session left off: a named file is an
    /// instruction, and wins over whatever was open.
    pub fn wants_restoring(&self) -> (r: bool)
        ensures
            r == (self@.file is None),
    {
        self.file.is_none()
    }

    /// What the window opens with.
    pub fn opening(&self, restored: bool, marked: bool) -> (r: Opening)
        ensures
            r == opening_of(self@, restored, marked),
    {
        let welcome: bool = !restored && !self.explicit && !marked;
        let first: First = if welcome {
            First::Welcome
        } else if !restored {
            First::Tree
        } else {
            First::AsLeft
        };
        Opening { first, file: !welcome && self.file.is_some(), remember: !welcome }
    }
}

/// What a window opens with.
#[derive(Clone, Copy, Debug, PartialEq, Eq, Structural)]
pub enum First {
    /// Nowhere was named, nothing remembered, nothing marked: the doorway.
    Welcome,
    /// The tree on a quarter of the width, work on the right, focus there.
    Tree,
    /// As the last session left it.
    AsLeft,
}

/// What comes up, whether the named file goes into the focused pane, and
/// whether the folder and the layout are remembered. The doorway is never
/// remembered: that would be the noise it exists to avoid.
#[derive(Clone, Copy, Debug, PartialEq, Eq, Structural)]
pub struct Opening {
    pub first: First,
    pub file: bool,
    pub remember: bool,
}

pub open spec fn opening_of(w: WorkspaceState, restored: bool, marked: bool) -> Opening {
    let welcome = !restored && !w.explicit && !marked;
    Opening {
        first: if welcome {
            First::Welcome
        } else if !restored {
            First::Tree
        } else {
            First::AsLeft
        },
        file: !welcome && w.file is Some,
        remember: !welcome,
    }
}

// ----------------------------------------------------------------- the font

/// Which set of marks the tree is drawn with.
#[derive(Clone, Copy, Debug, PartialEq, Eq, Structural)]
pub enum Icons {
    Nerd,
    Shapes,
    Ascii,
}

/// Which decorative glyphs the font has.
#[derive(Clone, Copy, Debug, PartialEq, Eq, Structural)]
pub struct Glyphs {
    pub icons: Icons,
    pub branch: bool,
    pub arrow: bool,
    pub boxes: bool,
    pub blocks: bool,
}

/// Whether the font has each of the characters asked about, in the order of
/// [`Glyphs::asked`].
#[derive(Clone, Copy, Debug, PartialEq, Eq, Structural)]
pub struct Has {
    pub folder: bool,
    pub closed: bool,
    pub open: bool,
    pub branch: bool,
    pub arrow: bool,
    pub corner: bool,
    pub block: bool,
}

impl Glyphs {
    /// The characters to ask the font about. One for each range rather than
    /// one for each icon: fonts are patched whole ranges at a time.
    pub fn asked() -> (r: [char; 7])
        ensures
            r@ == seq!['\u{f07b}', '\u{25b8}', '\u{25be}', '\u{e0a0}', '\u{21e1}', '\u{2554}', '\u{2588}'],
    {
        ['\u{f07b}', '\u{25b8}', '\u{25be}', '\u{e0a0}', '\u{21e1}', '\u{2554}', '\u{2588}']
    }

    /// Best set first, falling back until something can be drawn.
    pub fn detect(has: Has) -> (r: Glyphs)
        ensures
            r.icons == (if has.folder {
                Icons::Nerd
            } else if has.closed && has.open {
                Icons::Shapes
            } else {
                Icons::Ascii
            }),
            r.branch == has.branch,
            r.arrow == has.arrow,
            r.boxes == has.corner,
            r.blocks == has.block,
    {
        let icons: Icons = if has.folder {
            Icons::Nerd
        } else if has.closed && has.open {
            Icons::Shapes
        } else {
            Icons::Ascii
        };
        Glyphs { icons, branch: has.branch, arrow: has.arrow, boxes: has.corner, blocks: has.block }
    }

    /// Said once at startup of a font without icons, unless the configuration
    /// has something more pressing to say.
    pub fn hint(self, problem: bool) -> (r: Option<&'static str>)
        ensures
            match r {
                Some(h) => self.icons != Icons::Nerd && !problem && h@
                    == "no Nerd Font found \u{2014} file icons are off; install one from nerdfonts.com"@,
                None => self.icons == Icons::Nerd || problem,
            },
    {
        if self.icons != Icons::Nerd && !problem {
            Some("no Nerd Font found \u{2014} file icons are off; install one from nerdfonts.com")
        } else {
            None
        }
    }
}

// ------------------------------------------------------- the configuration

/// What a new configuration changes of the old one.
#[derive(Clone, Copy, Debug, PartialEq, Eq, Structural)]
pub struct Refresh {
    pub vim: bool,
    pub font: bool,
    pub paint: bool,
    pub window: bool,
    pub layout: bool,
}

/// What has to be done about a change, and no more than that: a colour must
/// not rebuild a font or restart a running shell.
#[derive(Clone, Copy, Debug, PartialEq, Eq, Structural)]
pub struct Plan {
    pub vim_options: bool,
    /// Load the font, and ask again what it can draw.
    pub fonts: bool,
    /// The timer's lengths, the terminals' colours, and the pointer.
    pub colors: bool,
    pub backdrop: bool,
    pub caption: bool,
    pub relayout: bool,
}

/// What a change asks for. What concerns the window waits until there is one.
pub open spec fn plan_of(r: Refresh, window: bool) -> Plan {
    Plan {
        vim_options: r.vim,
        fonts: r.font,
        colors: r.paint,
        backdrop: window && r.window,
        caption: window && r.layout,
        relayout: r.font || r.layout,
    }
}

pub fn plan(r: Refresh, window: bool) -> (p: Plan)
    ensures
        p == plan_of(r, window),
{
    Plan {
        vim_options: r.vim,
        fonts: r.font,
        colors: r.paint,
        backdrop: window && r.window,
        caption: window && r.layout,
        relayout: r.font || r.layout,
    }
}

/// What the settings screen says of a write, and what the status bar says of
/// a failed one.
pub fn config_written(path: &Path, result: Result<(), String>) -> (r: (String, Option<String>))
    ensures
        match result {
            Ok(_) => r.0@ == "written to "@ + path::path_text(path@) && r.1 is None,
            Err(e) => {
                &&& r.0@ == "could not write: "@ + e@
                &&& r.1 is Some
                &&& r.1->Some_0@ == "config: "@ + e@
            },
        },
{
    match result {
        Ok(_) => {
            let at: String = path.text();
            (joined("written to ", at.as_str()), None)
        },
        Err(e) => (joined("could not write: ", e.as_str()), Some(joined("config: ", e.as_str()))),
    }
}

// --------------------------------------------------------------- languages

/// The languages whose line comment starts with a hash, and all others.
#[derive(Clone, Copy, Debug, PartialEq, Eq, Structural)]
pub enum Lang {
    Toml,
    Python,
    Yaml,
    Bash,
    Other,
}

/// The line-comment marker of a file's language. Two slashes where a language
/// has none: a wrong marker toggles straight back off, a missing one reads as
/// broken.
pub fn comment_marker(lang: Option<Lang>) -> (r: &'static str)
    ensures
        r@ == (match lang {
            Some(Lang::Other) | None => "//"@,
            Some(_) => "#"@,
        }),
{
    match lang {
        Some(Lang::Toml) | Some(Lang::Python) | Some(Lang::Yaml) | Some(Lang::Bash) => "#",
        Some(Lang::Other) | None => "//",
    }
}

/// Most files listed by walking a folder.
pub const LIMIT: usize = 20_000;

/// Which list of files the finder shows, and against which folder names are
/// shortened: git's, when it has one, since it honours what is ignored, and
/// shortened against where that list came from.
pub fn files_to_find(listed: Option<Vec<Path>>, git_root: Option<Path>, root: &Path) -> (r: Option<(Vec<Path>, Path)>)
    ensures
        match r {
            Some((files, base)) => {
                &&& listed is Some
                &&& listed->Some_0@.len() > 0
                &&& files == listed->Some_0
                &&& base@ == (match git_root {
                    Some(g) => g@,
                    None => root@,
                })
            },
            None => listed is None || listed->Some_0@.len() == 0,
        },
{
    match listed {
        Some(files) => {
            if files.len() == 0 {
                return None;
            }
            let base: Path = match git_root {
                Some(g) => g,
                None => root.dup(),
            };
            Some((files, base))
        },
        None => None,
    }
}

/// Whether an open file is read again after somebody else changed it: never
/// over unsaved work. What is said of it once it is.
pub fn reloads(modified: bool, changed_on_disk: bool) -> (r: Option<&'static str>)
    ensures
        match r {
            Some(s) => !modified && changed_on_disk && s@ == "reloaded \u{b7} changed by the agent"@,
            None => modified || !changed_on_disk,
        },
{
    if !modified && changed_on_disk { Some("reloaded \u{b7} changed by the agent") } else { None }
}

// -------------------------------------------------------------------- laws

/// A named file is opened, whatever else comes up.
pub proof fn a_named_file_is_opened(
    cwd: PathState,
    marked: Option<PathState>,
    named: Named,
    restored: bool,
    mark: bool,
)
    requires
        !named.is_dir,
        named.exists || named.word@ != "workspace"@,
    ensures
        workspace_of(cwd, marked, Some(named)).file == Some(named.path@),
        opening_of(workspace_of(cwd, marked, Some(named)), restored, mark).file,
{
}

/// Naming a place never leads to the doorway.
pub proof fn a_named_place_is_no_doorway(
    cwd: PathState,
    marked: Option<PathState>,
    named: Named,
    restored: bool,
    mark: bool,
)
    ensures
        opening_of(workspace_of(cwd, marked, Some(named)), restored, mark).first != First::Welcome,
{
}

/// The doorway leaves nothing behind, and everything else does.
pub proof fn the_doorway_is_not_remembered(w: WorkspaceState, restored: bool, marked: bool)
    ensures
        opening_of(w, restored, marked).remember == (opening_of(w, restored, marked).first != First::Welcome),
{
}

/// A change of colours touches neither the font nor the panes.
pub proof fn a_colour_disturbs_nothing(r: Refresh, window: bool)
    requires
        !r.vim && !r.font && !r.window && !r.layout,
    ensures
        plan_of(r, window) == (Plan {
            vim_options: false,
            fonts: false,
            colors: r.paint,
            backdrop: false,
            caption: false,
            relayout: false,
        }),
{
}

/// What the window opens on: the folder that is named, or the one that marks
/// a workspace around where one is, or where one is.
pub proof fn where_the_window_opens(cwd: PathState, marked: Option<PathState>, n: Named)
    ensures
        ({
            let bare = workspace_of(cwd, marked, None);
            let named = workspace_of(cwd, marked, Some(n));
            &&& marked matches Some(d) ==> bare.dir == d && bare.explicit
            &&& marked is None ==> bare.dir == cwd && !bare.explicit
            &&& bare.file is None && !bare.init
            &&& n.word@ == "workspace"@ && !n.exists ==> named == (WorkspaceState {
                dir: cwd,
                file: None,
                explicit: true,
                init: true,
            })
            &&& !(n.word@ == "workspace"@ && !n.exists) ==> {
                &&& named.explicit && !named.init
                &&& n.is_dir ==> named.dir == n.path@ && named.file is None
                &&& !n.is_dir ==> named.file == Some(n.path@)
                &&& !n.is_dir && n.marked is Some ==> named.dir == n.marked.unwrap()@
                &&& !n.is_dir && n.marked is None ==> (match path::path_parent(n.path@) {
                    Some(up) => named.dir == up,
                    None => named.dir == cwd,
                })
            }
        }),
{
}

/// What is shown first: what was left, where a session came back; the tree
/// of a folder that was meant; and otherwise the welcome, which opens no
/// file and is not remembered.
pub proof fn what_is_shown_first(w: WorkspaceState, restored: bool, marked: bool)
    ensures
        ({
            let o = opening_of(w, restored, marked);
            &&& restored ==> o.first == First::AsLeft
            &&& !restored && (w.explicit || marked) ==> o.first == First::Tree
            &&& !restored && !w.explicit && !marked ==> o.first == First::Welcome
            &&& o.remember == (o.first != First::Welcome)
            &&& o.file == (w.file is Some && o.first != First::Welcome)
        }),
{
}

/// A setting that changed brings about what it is about and no more.
pub proof fn a_change_brings_about_what_it_needs(r: Refresh, window: bool)
    ensures
        ({
            let p = plan_of(r, window);
            &&& p.vim_options == r.vim
            &&& p.fonts == r.font
            &&& p.colors == r.paint
            &&& p.backdrop == (r.window && window)
            &&& p.caption == (r.layout && window)
            &&& p.relayout == (r.font || r.layout)
        }),
{
}

} // verus!
