//! The language servers behind the open editors.
//!
//! One process per language, started the first time a file of that language
//! is shown and kept for the life of the workspace. A server that is not
//! installed is tried once and then left alone, because the editor without a
//! server is still the editor.
use vstd::prelude::*;
use vstd::string::*;
use crate::path::{Path, PathState};
use crate::places;
use crate::text;
use crate::text::{joined, joined3, same};

verus! {

/// A place in a document: line and column, both from zero.
#[derive(Clone, Copy, Debug, PartialEq, Eq, Structural)]
pub struct Pos {
    pub line: usize,
    pub col: usize,
}

/// How serious a complaint is, the worst first.
#[derive(Clone, Copy, Debug, PartialEq, Eq, Structural)]
pub enum Severity {
    Error,
    Warning,
    Info,
    Hint,
}

/// The order of severities: the worst is the least.
pub open spec fn rank_of(s: Severity) -> nat {
    match s {
        Severity::Error => 0,
        Severity::Warning => 1,
        Severity::Info => 2,
        Severity::Hint => 3,
    }
}

fn rank(s: Severity) -> (r: u8)
    ensures
        r == rank_of(s),
{
    match s {
        Severity::Error => 0,
        Severity::Warning => 1,
        Severity::Info => 2,
        Severity::Hint => 3,
    }
}

/// One complaint about a document.
#[derive(Debug, PartialEq)]
pub struct Diagnostic {
    pub start: Pos,
    pub end: Pos,
    pub severity: Severity,
    pub message: String,
    pub source: Option<String>,
}

/// Whether a complaint covers a line.
pub open spec fn covers(d: Diagnostic, line: nat) -> bool {
    d.start.line <= line <= d.end.line
}

/// The most serious complaint covering a line, for the message shown while
/// the caret is on it; the first of several equally serious ones.
pub fn worst_on_line(items: &[Diagnostic], line: usize) -> (r: Option<&Diagnostic>)
    ensures
        match r {
            Some(d) => exists|k: int|
                0 <= k < items@.len() && *d == #[trigger] items@[k] && covers(items@[k], line as nat) && (
                forall|j: int|
                    0 <= j < items@.len() && covers(#[trigger] items@[j], line as nat) ==> {
                        &&& rank_of(items@[k].severity) <= rank_of(items@[j].severity)
                        &&& rank_of(items@[k].severity) == rank_of(items@[j].severity) ==> k <= j
                    }),
            None => forall|j: int| 0 <= j < items@.len() ==> !covers(#[trigger] items@[j], line as nat),
        },
{
    let mut best: Option<usize> = None;
    let mut i: usize = 0;
    while i < items.len()
        invariant
            i <= items.len(),
            match best {
                Some(k) => k < i && covers(items@[k as int], line as nat) && (forall|j: int|
                    0 <= j < i && covers(#[trigger] items@[j], line as nat) ==> {
                        &&& rank_of(items@[k as int].severity) <= rank_of(items@[j].severity)
                        &&& rank_of(items@[k as int].severity) == rank_of(items@[j].severity) ==> k <= j
                    }),
                None => forall|j: int| 0 <= j < i ==> !covers(#[trigger] items@[j], line as nat),
            },
        decreases items.len() - i,
    {
        if items[i].start.line <= line && line <= items[i].end.line {
            let better: bool = match best {
                Some(k) => rank(items[i].severity) < rank(items[k].severity),
                None => true,
            };
            if better {
                best = Some(i);
            }
        }
        i = i + 1;
    }
    match best {
        Some(k) => {
            assert(covers(items@[k as int], line as nat));
            Some(&items[k])
        },
        None => None,
    }
}

/// The columns of a line that a complaint covers, given that line's length.
/// A complaint spanning several lines covers each of them to its end, and one
/// that covers nothing is one cell wide so that it can be found.
pub open spec fn span(d: Diagnostic, line: nat, len: nat) -> Option<(nat, nat)> {
    if !covers(d, line) {
        None
    } else {
        let from = if line == d.start.line { d.start.col as nat } else { 0 };
        let to = if line == d.end.line { d.end.col as nat } else { len };
        Some((if from <= len { from } else { len }, if to >= from + 1 { to } else { from + 1 }))
    }
}

pub fn span_on_line(d: &Diagnostic, line: usize, len: usize) -> (r: Option<(usize, usize)>)
    requires
        d.start.col < usize::MAX,
    ensures
        match r {
            Some((a, b)) => span(*d, line as nat, len as nat) == Some((a as nat, b as nat)),
            None => span(*d, line as nat, len as nat) is None,
        },
{
    if line < d.start.line || line > d.end.line {
        return None;
    }
    let from: usize = if line == d.start.line { d.start.col } else { 0 };
    let to: usize = if line == d.end.line { d.end.col } else { len };
    Some((if from <= len { from } else { len }, if to >= from + 1 { to } else { from + 1 }))
}

/// What a complaint covers of a line is never empty.
pub proof fn a_span_can_be_seen(d: Diagnostic, line: nat, len: nat)
    requires
        covers(d, line),
    ensures
        span(d, line, len) is Some,
        span(d, line, len)->Some_0.0 < span(d, line, len)->Some_0.1,
{
}

// -------------------------------------------------------------- the servers

pub struct Servers {
    /// Languages whose server is up.
    pub up: Vec<String>,
    /// Languages whose server would not start, or died, so they are asked
    /// once.
    pub absent: Vec<String>,
    /// The current complaints per file, as the servers last published them.
    /// A file is in here once, and only while there is something to say.
    pub diagnostics: Vec<(Path, Vec<Diagnostic>)>,
    /// Every document a server has been told about.
    pub open: Vec<Path>,
    /// Documents that had unsaved edits at the last tick.
    pub modified: Vec<Path>,
    /// What could not be started or has died, waiting to be shown once.
    pub notes: Vec<String>,
}

/// The servers as a value.
#[verifier::ext_equal]
pub struct ServersState {
    pub up: Set<Seq<char>>,
    pub absent: Set<Seq<char>>,
    pub diagnostics: Map<PathState, Seq<Diagnostic>>,
    pub open: Set<PathState>,
    pub modified: Set<PathState>,
    pub notes: Seq<Seq<char>>,
}

/// The complaints about a file among the pairs from `i` on.
pub open spec fn about(pairs: Seq<(Path, Vec<Diagnostic>)>, p: PathState, i: int) -> Option<Seq<Diagnostic>>
    decreases pairs.len() - i,
{
    if i < 0 || i >= pairs.len() {
        None
    } else if pairs[i].0@ == p {
        Some(pairs[i].1@)
    } else {
        about(pairs, p, i + 1)
    }
}

/// The complaints, by file.
pub open spec fn by_file(pairs: Seq<(Path, Vec<Diagnostic>)>) -> Map<PathState, Seq<Diagnostic>> {
    Map::new(|p: PathState| about(pairs, p, 0) is Some, |p: PathState| about(pairs, p, 0)->Some_0)
}

impl View for Servers {
    type V = ServersState;

    open spec fn view(&self) -> ServersState {
        ServersState {
            up: text::texts(self.up@).to_set(),
            absent: text::texts(self.absent@).to_set(),
            diagnostics: by_file(self.diagnostics@),
            open: places::path_list(self.open@).to_set(),
            modified: places::path_list(self.modified@).to_set(),
            notes: text::texts(self.notes@),
        }
    }
}

/// The files of some pairs, in order.
pub open spec fn files_of(pairs: Seq<(Path, Vec<Diagnostic>)>) -> Seq<PathState> {
    Seq::new(pairs.len(), |i: int| pairs[i].0@)
}

impl Servers {
    /// A file stands once among those with complaints, and once among those
    /// a server has been told about.
    pub open spec fn wf(&self) -> bool {
        &&& files_of(self.diagnostics@).no_duplicates()
        &&& places::path_list(self.open@).no_duplicates()
    }
}

/// What to do with a document's server next.
#[derive(Clone, Copy, Debug, PartialEq, Eq, Structural)]
pub enum Plan {
    /// Nothing.
    Skip,
    /// Start the server, then [`Servers::spawned`].
    Spawn,
    /// Hand it the document, then [`Servers::synced`].
    Sync,
}

/// What a document needs of the server for its language: nothing when that
/// is off or there is none to be had, a start when this is the first file of
/// the language.
pub open spec fn planned(m: ServersState, enabled: bool, lang: Seq<char>, command: nat) -> Plan {
    if !enabled {
        Plan::Skip
    } else if m.up.contains(lang) {
        Plan::Sync
    } else if m.absent.contains(lang) || command == 0 {
        Plan::Skip
    } else {
        Plan::Spawn
    }
}

/// The servers once one has stopped, `last` being the last thing it said.
pub open spec fn after_exit(m: ServersState, lang: Seq<char>, last: Seq<char>) -> ServersState {
    ServersState {
        up: m.up.remove(lang),
        absent: m.absent.insert(lang),
        notes: m.notes.push(
            "the "@ + lang + " language server stopped"@ + (if last.len() == 0 {
                Seq::empty()
            } else {
                ": "@ + last
            }),
        ),
        ..m
    }
}

fn has_text(list: &Vec<String>, s: &str) -> (r: bool)
    ensures
        r == text::texts(list@).to_set().contains(s@),
{
    let ghost all = text::texts(list@);
    let mut i: usize = 0;
    while i < list.len()
        invariant
            i <= list.len(),
            all == text::texts(list@),
            forall|k: int| 0 <= k < i ==> all[k] != s@,
        decreases list.len() - i,
    {
        assert(all[i as int] == list@[i as int]@);
        if same(list[i].as_str(), s) {
            assert(all.contains(s@));
            return true;
        }
        i = i + 1;
    }
    assert(!all.contains(s@));
    false
}

fn has_path(list: &Vec<Path>, p: &Path) -> (r: bool)
    ensures
        r == places::path_list(list@).to_set().contains(p@),
{
    let ghost all = places::path_list(list@);
    let mut i: usize = 0;
    while i < list.len()
        invariant
            i <= list.len(),
            all == places::path_list(list@),
            forall|k: int| 0 <= k < i ==> all[k] != p@,
        decreases list.len() - i,
    {
        assert(all[i as int] == list@[i as int]@);
        if list[i].same(p) {
            assert(all.contains(p@));
            return true;
        }
        i = i + 1;
    }
    assert(!all.contains(p@));
    false
}

fn add_text(list: &mut Vec<String>, s: &str)
    ensures
        text::texts(final(list)@) == text::texts(old(list)@).push(s@),
        text::texts(final(list)@).to_set() == text::texts(old(list)@).to_set().insert(s@),
{
    let ghost before = text::texts(list@);
    list.push(s.to_owned());
    proof {
        let now = text::texts(list@);
        assert(now =~= before.push(s@));
        lemma_push_set(before, s@);
    }
}

fn add_path(list: &mut Vec<Path>, p: &Path)
    ensures
        places::path_list(final(list)@) == places::path_list(old(list)@).push(p@),
        places::path_list(final(list)@).to_set() == places::path_list(old(list)@).to_set().insert(p@),
{
    let ghost before = places::path_list(list@);
    list.push(p.dup());
    proof {
        assert(places::path_list(list@) =~= before.push(p@));
        lemma_push_set(before, p@);
    }
}

proof fn lemma_push_distinct<A>(s: Seq<A>, a: A)
    requires
        s.no_duplicates(),
        !s.contains(a),
    ensures
        s.push(a).no_duplicates(),
{
    assert forall|i: int, j: int| 0 <= i < s.len() + 1 && 0 <= j < s.len() + 1 && i != j implies s.push(a)[i]
        != s.push(a)[j] by {
        if i < s.len() && j < s.len() {
            assert(s[i] != s[j]);
        } else if i < s.len() {
            assert(s.contains(s[i]));
        } else {
            assert(s.contains(s[j]));
        }
    }
}

proof fn lemma_push_set<A>(s: Seq<A>, a: A)
    ensures
        s.push(a).to_set() == s.to_set().insert(a),
{
    assert forall|x: A| s.push(a).to_set().contains(x) == s.to_set().insert(a).contains(x) by {
        if s.push(a).contains(x) {
            let k = choose|k: int| 0 <= k < s.push(a).len() && s.push(a)[k] == x;
            if k < s.len() {
                assert(s[k] == x);
            }
        }
        if s.contains(x) {
            let k = choose|k: int| 0 <= k < s.len() && s[k] == x;
            assert(s.push(a)[k] == x);
        }
        assert(s.push(a)[s.len() as int] == a);
    }
    assert(s.push(a).to_set() =~= s.to_set().insert(a));
}

/// Takes a path out of a list, wherever it is.
fn drop_path(list: &mut Vec<Path>, p: &Path)
    ensures
        places::path_list(final(list)@).to_set() == places::path_list(old(list)@).to_set().remove(p@),
{
    let ghost start = places::path_list(list@);
    let mut i: usize = 0;
    while i < list.len()
        invariant
            i <= list.len(),
            forall|k: int| 0 <= k < i ==> places::path_list(list@)[k] != p@,
            forall|q: PathState|
                q != p@ ==> (#[trigger] places::path_list(list@).contains(q) <==> start.contains(q)),
        decreases list.len() - i,
    {
        let ghost was = places::path_list(list@);
        assert(was[i as int] == list@[i as int]@);
        if list[i].same(p) {
            list.remove(i);
            proof {
                let now = places::path_list(list@);
                assert(now =~= was.remove(i as int));
                assert forall|q: PathState| q != p@ implies (#[trigger] now.contains(q) <==> start.contains(q)) by {
                    assert(was.contains(q) <==> start.contains(q));
                    if now.contains(q) {
                        let k = choose|k: int| 0 <= k < now.len() && now[k] == q;
                        assert(was[if k < i { k } else { k + 1 }] == q);
                    }
                    if was.contains(q) {
                        let k = choose|k: int| 0 <= k < was.len() && was[k] == q;
                        assert(k != i);
                        assert(now[if k < i { k } else { k - 1 }] == q);
                    }
                }
            }
        } else {
            i = i + 1;
        }
    }
    proof {
        let now = places::path_list(list@);
        assert forall|q: PathState| now.to_set().contains(q) == start.to_set().remove(p@).contains(q) by {
            if q == p@ {
                assert(!now.contains(q));
            } else {
                assert(now.contains(q) <==> start.contains(q));
            }
        }
        assert(now.to_set() =~= start.to_set().remove(p@));
    }
}

impl Servers {
    pub fn new() -> (r: Servers)
        ensures
            r.wf(),
            r@ == (ServersState {
                up: Set::empty(),
                absent: Set::empty(),
                diagnostics: Map::empty(),
                open: Set::empty(),
                modified: Set::empty(),
                notes: Seq::empty(),
            }),
    {
        let r: Servers = Servers {
            up: Vec::new(),
            absent: Vec::new(),
            diagnostics: Vec::new(),
            open: Vec::new(),
            modified: Vec::new(),
            notes: Vec::new(),
        };
        proof {
            assert(r@.up =~= Set::empty());
            assert(r@.absent =~= Set::empty());
            assert(r@.diagnostics =~= Map::empty());
            assert(r@.open =~= Set::empty());
            assert(r@.modified =~= Set::empty());
            assert(r@.notes =~= Seq::empty());
        }
        r
    }

    /// Keeps the server for a language in step with a document: what has to
    /// happen first. `command` is how many words the configured command has,
    /// 0 for a language with none.
    pub fn sync(&mut self, enabled: bool, lang: &str, command: usize) -> (plan: Plan)
        requires
            old(self).wf(),
        ensures
            final(self).wf(),
            plan == planned(old(self)@, enabled, lang@, command as nat),
            final(self)@ == (ServersState {
                absent: if enabled && !old(self)@.up.contains(lang@) && command == 0 {
                    old(self)@.absent.insert(lang@)
                } else {
                    old(self)@.absent
                },
                ..old(self)@
            }),
    {
        let ghost m = self@;
        if !enabled {
            return Plan::Skip;
        }
        if has_text(&self.up, lang) {
            return Plan::Sync;
        }
        if has_text(&self.absent, lang) {
            assert(m.absent.insert(lang@) =~= m.absent);
            return Plan::Skip;
        }
        if command == 0 {
            add_text(&mut self.absent, lang);
            return Plan::Skip;
        }
        Plan::Spawn
    }

    /// What came of starting a server. Not installed is the normal case for
    /// most languages on most machines, and not worth a word.
    pub fn spawned(&mut self, lang: &str, ok: bool) -> (plan: Plan)
        requires
            old(self).wf(),
        ensures
            final(self).wf(),
            plan == (if ok { Plan::Sync } else { Plan::Skip }),
            final(self)@ == (if ok {
                ServersState { up: old(self)@.up.insert(lang@), ..old(self)@ }
            } else {
                ServersState { absent: old(self)@.absent.insert(lang@), ..old(self)@ }
            }),
    {
        if ok {
            add_text(&mut self.up, lang);
            Plan::Sync
        } else {
            add_text(&mut self.absent, lang);
            Plan::Skip
        }
    }

    /// A server has been handed that document.
    pub fn synced(&mut self, p: &Path)
        requires
            old(self).wf(),
        ensures
            final(self).wf(),
            final(self)@ == (ServersState { open: old(self)@.open.insert(p@), ..old(self)@ }),
    {
        let ghost m = self@;
        if has_path(&self.open, p) {
            assert(m.open.insert(p@) =~= m.open);
        } else {
            proof {
                lemma_push_distinct(places::path_list(self.open@), p@);
            }
            add_path(&mut self.open, p);
        }
    }

    /// Notices a save as the moment a document stops being modified, which
    /// catches every way of saving without a hook in each of them. Says
    /// whether the server is to be told.
    pub fn note_modified(&mut self, lang: &str, p: &Path, modified: bool) -> (saved: bool)
        requires
            old(self).wf(),
        ensures
            final(self).wf(),
            saved == (old(self)@.modified.contains(p@) && !modified && old(self)@.up.contains(lang@)),
            final(self)@ == (ServersState {
                modified: if modified {
                    old(self)@.modified.insert(p@)
                } else {
                    old(self)@.modified.remove(p@)
                },
                ..old(self)@
            }),
    {
        let ghost m = self@;
        let was: bool = has_path(&self.modified, p);
        if modified {
            if was {
                assert(m.modified.insert(p@) =~= m.modified);
            } else {
                add_path(&mut self.modified, p);
            }
        } else {
            drop_path(&mut self.modified, p);
        }
        was && !modified && has_text(&self.up, lang)
    }

    /// The files no editor shows any more, which the servers are to be told
    /// about. They are forgotten here.
    pub fn close_except(&mut self, shown: &Vec<Path>) -> (gone: Vec<Path>)
        requires
            old(self).wf(),
        ensures
            final(self).wf(),
            places::path_list(gone@).no_duplicates(),
            places::path_list(gone@).to_set() == old(self)@.open.difference(
                places::path_list(shown@).to_set(),
            ),
            final(self)@ == (ServersState {
                open: old(self)@.open.intersect(places::path_list(shown@).to_set()),
                ..old(self)@
            }),
    {
        let ghost m = self@;
        let ghost keep = places::path_list(shown@).to_set();
        let ghost all = places::path_list(self.open@);
        let mut gone: Vec<Path> = Vec::new();
        let mut stay: Vec<Path> = Vec::new();
        let mut i: usize = 0;
        proof {
            assert(all.take(0).to_set() =~= Set::empty());
            assert(places::path_list(gone@).to_set() =~= all.take(0).to_set().difference(keep));
            assert(places::path_list(stay@).to_set() =~= all.take(0).to_set().intersect(keep));
        }
        while i < self.open.len()
            invariant
                i <= self.open.len(),
                *self == *old(self),
                all == places::path_list(self.open@),
                all.no_duplicates(),
                places::path_list(gone@).no_duplicates(),
                places::path_list(stay@).no_duplicates(),
                keep == places::path_list(shown@).to_set(),
                places::path_list(gone@).to_set() == all.take(i as int).to_set().difference(keep),
                places::path_list(stay@).to_set() == all.take(i as int).to_set().intersect(keep),
            decreases self.open.len() - i,
        {
            proof {
                assert(all.take(i + 1) =~= all.take(i as int).push(all[i as int]));
                lemma_push_set(all.take(i as int), all[i as int]);
                assert(all[i as int] == self.open@[i as int]@);
                assert(!all.take(i as int).contains(all[i as int]));
                let (g, t) = (places::path_list(gone@), places::path_list(stay@));
                assert(!g.to_set().contains(all[i as int]));
                assert(!t.to_set().contains(all[i as int]));
                lemma_push_distinct(g, all[i as int]);
                lemma_push_distinct(t, all[i as int]);
            }
            if has_path(shown, &self.open[i]) {
                add_path(&mut stay, &self.open[i]);
            } else {
                add_path(&mut gone, &self.open[i]);
            }
            proof {
                assert(places::path_list(gone@).to_set() =~= all.take(i + 1).to_set().difference(keep));
                assert(places::path_list(stay@).to_set() =~= all.take(i + 1).to_set().intersect(keep));
            }
            i = i + 1;
        }
        assert(all.take(all.len() as int) =~= all);
        self.open = stay;
        gone
    }

    /// What a server published about a file: its complaints, or that there
    /// are none any more.
    pub fn published(&mut self, p: Path, items: Vec<Diagnostic>)
        requires
            old(self).wf(),
        ensures
            final(self).wf(),
            final(self)@ == (ServersState {
                diagnostics: if items@.len() == 0 {
                    old(self)@.diagnostics.remove(p@)
                } else {
                    old(self)@.diagnostics.insert(p@, items@)
                },
                ..old(self)@
            }),
    {
        let ghost m = self@;
        self.forget(&p);
        if items.len() == 0 {
            return;
        }
        let ghost before = self.diagnostics@;
        self.diagnostics.push((p, items));
        proof {
            lemma_about_is_listed(before, p@, 0);
            assert(!by_file(before).dom().contains(p@));
            lemma_by_file_push(before, (p, items));
            assert(by_file(self.diagnostics@) =~= m.diagnostics.insert(p@, items@));
            lemma_push_distinct(files_of(before), p@);
            assert(files_of(self.diagnostics@) =~= files_of(before).push(p@));
        }
    }

    fn forget(&mut self, p: &Path)
        requires
            old(self).wf(),
        ensures
            final(self).wf(),
            final(self)@ == (ServersState {
                diagnostics: old(self)@.diagnostics.remove(p@),
                ..old(self)@
            }),
    {
        let ghost m = self@;
        let ghost start = self.diagnostics@;
        let mut i: usize = 0;
        while i < self.diagnostics.len()
            invariant
                i <= self.diagnostics.len(),
                self.wf(),
                forall|k: int| 0 <= k < i ==> self.diagnostics@[k].0@ != p@,
                forall|q: PathState|
                    q != p@ ==> #[trigger] about(self.diagnostics@, q, 0) == about(start, q, 0),
                self@ == (ServersState { diagnostics: by_file(self.diagnostics@), ..m }),
            decreases self.diagnostics.len() - i,
        {
            let ghost was = self.diagnostics@;
            if self.diagnostics[i].0.same(p) {
                self.diagnostics.remove(i);
                proof {
                    assert(self.diagnostics@ =~= was.remove(i as int));
                    assert(files_of(self.diagnostics@) =~= files_of(was).remove(i as int));
                    lemma_remove_distinct(files_of(was), i as int);
                    assert forall|q: PathState| q != p@ implies #[trigger] about(self.diagnostics@, q, 0)
                        == about(start, q, 0) by {
                        lemma_about_remove(was, i as int, q, 0);
                        assert(about(was, q, 0) == about(start, q, 0));
                    }
                }
            } else {
                i = i + 1;
            }
        }
        proof {
            lemma_about_none(self.diagnostics@, p@, 0);
            assert(by_file(self.diagnostics@) =~= m.diagnostics.remove(p@));
        }
    }

    /// A server that stopped. Not restarted: one that died once on this
    /// workspace will usually die again, and a crash loop is worse than its
    /// absence.
    pub fn exited(&mut self, lang: &str, last: &str)
        requires
            old(self).wf(),
        ensures
            final(self).wf(),
            final(self)@ == after_exit(old(self)@, lang@, last@),
    {
        let ghost m = self@;
        let mut note: String = joined3("the ", lang, " language server stopped");
        if last.unicode_len() > 0 {
            let why: String = joined(": ", last);
            note.append(why.as_str());
        }
        assert(note@ =~= "the "@ + lang@ + " language server stopped"@ + (if last@.len() == 0 {
            Seq::empty()
        } else {
            ": "@ + last@
        }));
        add_text(&mut self.notes, note.as_str());
        add_text(&mut self.absent, lang);
        let ghost all = text::texts(self.up@);
        let mut stay: Vec<String> = Vec::new();
        let mut i: usize = 0;
        proof {
            assert(all.take(0).to_set() =~= Set::empty());
            assert(text::texts(stay@).to_set() =~= all.take(0).to_set().remove(lang@));
        }
        while i < self.up.len()
            invariant
                i <= self.up.len(),
                all == text::texts(self.up@),
                text::texts(stay@).to_set() == all.take(i as int).to_set().remove(lang@),
            decreases self.up.len() - i,
        {
            proof {
                assert(all.take(i + 1) =~= all.take(i as int).push(all[i as int]));
                lemma_push_set(all.take(i as int), all[i as int]);
                assert(all[i as int] == self.up@[i as int]@);
            }
            if !same(self.up[i].as_str(), lang) {
                add_text(&mut stay, self.up[i].as_str());
            }
            assert(text::texts(stay@).to_set() =~= all.take(i + 1).to_set().remove(lang@));
            i = i + 1;
        }
        assert(all.take(all.len() as int) =~= all);
        self.up = stay;
    }

    /// The complaints about a file.
    pub fn diagnostics(&self, p: &Path) -> (r: Option<&Vec<Diagnostic>>)
        ensures
            match r {
                Some(items) => self@.diagnostics.dom().contains(p@) && self@.diagnostics[p@] == items@,
                None => !self@.diagnostics.dom().contains(p@),
            },
    {
        let mut i: usize = 0;
        while i < self.diagnostics.len()
            invariant
                i <= self.diagnostics.len(),
                about(self.diagnostics@, p@, 0) == about(self.diagnostics@, p@, i as int),
            decreases self.diagnostics.len() - i,
        {
            if self.diagnostics[i].0.same(p) {
                return Some(&self.diagnostics[i].1);
            }
            i = i + 1;
        }
        None
    }

    /// Errors and warnings across every file, for the status bar.
    pub fn counts(&self) -> (r: (usize, usize))
        requires
            self.wf(),
            tally_files(self@.diagnostics, Severity::Error) <= usize::MAX,
            tally_files(self@.diagnostics, Severity::Warning) <= usize::MAX,
        ensures
            r.0 == tally_files(self@.diagnostics, Severity::Error),
            r.1 == tally_files(self@.diagnostics, Severity::Warning),
    {
        proof {
            lemma_tally_by_file(self.diagnostics@, Severity::Error);
            lemma_tally_by_file(self.diagnostics@, Severity::Warning);
        }
        let mut errors: usize = 0;
        let mut warnings: usize = 0;
        let mut i: usize = 0;
        let ghost n = self.diagnostics@.len() as int;
        while i < self.diagnostics.len()
            invariant
                i <= self.diagnostics.len(),
                n == self.diagnostics@.len(),
                tally_all(self.diagnostics@, n, Severity::Error) <= usize::MAX,
                tally_all(self.diagnostics@, n, Severity::Warning) <= usize::MAX,
                errors == tally_all(self.diagnostics@, i as int, Severity::Error),
                warnings == tally_all(self.diagnostics@, i as int, Severity::Warning),
            decreases self.diagnostics.len() - i,
        {
            let items: &Vec<Diagnostic> = &self.diagnostics[i].1;
            let mut k: usize = 0;
            proof {
                lemma_tally_grows(self.diagnostics@, i + 1, n, Severity::Error);
                lemma_tally_grows(self.diagnostics@, i + 1, n, Severity::Warning);
            }
            let ghost e0 = errors;
            let ghost w0 = warnings;
            while k < items.len()
                invariant
                    k <= items.len(),
                    e0 + tally(items@, items@.len() as int, Severity::Error) <= usize::MAX,
                    w0 + tally(items@, items@.len() as int, Severity::Warning) <= usize::MAX,
                    errors == e0 + tally(items@, k as int, Severity::Error),
                    warnings == w0 + tally(items@, k as int, Severity::Warning),
                decreases items.len() - k,
            {
                proof {
                    lemma_tally_one_grows(items@, k + 1, items@.len() as int, Severity::Error);
                    lemma_tally_one_grows(items@, k + 1, items@.len() as int, Severity::Warning);
                }
                match items[k].severity {
                    Severity::Error => {
                        errors = errors + 1;
                    },
                    Severity::Warning => {
                        warnings = warnings + 1;
                    },
                    _ => {},
                }
                k = k + 1;
            }
            i = i + 1;
        }
        (errors, warnings)
    }
}

/// How many of the first `n` complaints are of that severity.
pub open spec fn tally(items: Seq<Diagnostic>, n: int, s: Severity) -> nat
    decreases n,
{
    if n <= 0 {
        0
    } else {
        tally(items, n - 1, s) + (if items[n - 1].severity == s { 1nat } else { 0 })
    }
}

/// How many complaints there are of that severity over all files.
pub open spec fn tally_files(m: Map<PathState, Seq<Diagnostic>>, s: Severity) -> nat
    decreases m.dom().len(),
{
    if !m.dom().finite() || m.dom().len() == 0 {
        0
    } else {
        let p = m.dom().choose();
        tally(m[p], m[p].len() as int, s) + tally_files(m.remove(p), s)
    }
}

/// The files can be counted in any order.
proof fn lemma_tally_any_order(m: Map<PathState, Seq<Diagnostic>>, p: PathState, s: Severity)
    requires
        m.dom().finite(),
        m.dom().contains(p),
    ensures
        tally_files(m, s) == tally(m[p], m[p].len() as int, s) + tally_files(m.remove(p), s),
    decreases m.dom().len(),
{
    let q = m.dom().choose();
    if p != q {
        lemma_tally_any_order(m.remove(q), p, s);
        lemma_tally_any_order(m.remove(p), q, s);
        assert(m.remove(q).remove(p) =~= m.remove(p).remove(q));
    }
}

/// What a file says counts in place of what it said before, and what the
/// others say counts as it did.
pub proof fn publishing_again_replaces(
    m: Map<PathState, Seq<Diagnostic>>,
    p: PathState,
    items: Seq<Diagnostic>,
    s: Severity,
)
    requires
        m.dom().finite(),
    ensures
        tally_files(m.insert(p, items), s) == tally_files(m.remove(p), s) + tally(items, items.len() as int, s),
{
    lemma_tally_any_order(m.insert(p, items), p, s);
    assert(m.insert(p, items).remove(p) =~= m.remove(p));
}

/// The complaints counted file by file, over the pairs they are kept in.
proof fn lemma_tally_by_file(pairs: Seq<(Path, Vec<Diagnostic>)>, s: Severity)
    requires
        files_of(pairs).no_duplicates(),
    ensures
        by_file(pairs).dom().finite(),
        tally_files(by_file(pairs), s) == tally_all(pairs, pairs.len() as int, s),
    decreases pairs.len(),
{
    if pairs.len() == 0 {
        assert(by_file(pairs) =~= Map::empty());
    } else {
        let front = pairs.drop_last();
        let one = pairs.last();
        assert(files_of(front) =~= files_of(pairs).drop_last());
        lemma_tally_by_file(front, s);
        lemma_about_is_listed(front, one.0@, 0);
        assert forall|k: int| 0 <= k < front.len() implies (#[trigger] files_of(front)[k]) != one.0@ by {
            assert(files_of(pairs)[k] != files_of(pairs)[pairs.len() - 1]);
        }
        assert(!by_file(front).dom().contains(one.0@));
        lemma_by_file_push(front, one);
        assert(front.push(one) =~= pairs);
        lemma_tally_any_order(by_file(pairs), one.0@, s);
        assert(by_file(pairs).remove(one.0@) =~= by_file(front));
        lemma_tally_front(front, pairs, front.len() as int, s);
    }
}

proof fn lemma_tally_front(a: Seq<(Path, Vec<Diagnostic>)>, b: Seq<(Path, Vec<Diagnostic>)>, n: int, s: Severity)
    requires
        0 <= n <= a.len(),
        n <= b.len(),
        forall|k: int| 0 <= k < n ==> a[k] == b[k],
    ensures
        tally_all(a, n, s) == tally_all(b, n, s),
    decreases n,
{
    if n > 0 {
        lemma_tally_front(a, b, n - 1, s);
        assert(a[n - 1] == b[n - 1]);
    }
}

/// The same over the first `n` pairs.
pub open spec fn tally_all(pairs: Seq<(Path, Vec<Diagnostic>)>, n: int, s: Severity) -> nat
    decreases n,
{
    if n <= 0 {
        0
    } else {
        tally_all(pairs, n - 1, s) + tally(pairs[n - 1].1@, pairs[n - 1].1@.len() as int, s)
    }
}

proof fn lemma_tally_one_grows(items: Seq<Diagnostic>, a: int, b: int, s: Severity)
    requires
        0 <= a <= b,
    ensures
        tally(items, a, s) <= tally(items, b, s),
    decreases b - a,
{
    if a < b {
        lemma_tally_one_grows(items, a, b - 1, s);
    }
}

proof fn lemma_tally_grows(pairs: Seq<(Path, Vec<Diagnostic>)>, a: int, b: int, s: Severity)
    requires
        0 <= a <= b,
    ensures
        tally_all(pairs, a, s) <= tally_all(pairs, b, s),
    decreases b - a,
{
    if a < b {
        lemma_tally_grows(pairs, a, b - 1, s);
    }
}

proof fn lemma_about_push(pairs: Seq<(Path, Vec<Diagnostic>)>, one: (Path, Vec<Diagnostic>), q: PathState, i: int)
    requires
        0 <= i <= pairs.len(),
    ensures
        about(pairs.push(one), q, i) == (match about(pairs, q, i) {
            Some(d) => Some(d),
            None => if one.0@ == q { Some(one.1@) } else { None },
        }),
    decreases pairs.len() - i,
{
    if i < pairs.len() {
        assert(pairs.push(one)[i] == pairs[i]);
        if pairs[i].0@ != q {
            lemma_about_push(pairs, one, q, i + 1);
        }
    } else {
        assert(pairs.push(one)[i] == one);
        assert(about(pairs.push(one), q, i + 1) is None);
    }
}

proof fn lemma_about_remove(pairs: Seq<(Path, Vec<Diagnostic>)>, k: int, q: PathState, i: int)
    requires
        0 <= k < pairs.len(),
        pairs[k].0@ != q,
        0 <= i <= pairs.len(),
    ensures
        i <= k ==> about(pairs.remove(k), q, i) == about(pairs, q, i),
        i > k ==> about(pairs.remove(k), q, i - 1) == about(pairs, q, i),
    decreases pairs.len() - i,
{
    let now = pairs.remove(k);
    if i < pairs.len() {
        lemma_about_remove(pairs, k, q, i + 1);
        if i < k {
            assert(now[i] == pairs[i]);
        } else if i > k {
            assert(now[i - 1] == pairs[i]);
        }
    }
}

proof fn lemma_remove_distinct<A>(s: Seq<A>, k: int)
    requires
        s.no_duplicates(),
        0 <= k < s.len(),
    ensures
        s.remove(k).no_duplicates(),
{
    let now = s.remove(k);
    assert forall|i: int, j: int| 0 <= i < now.len() && 0 <= j < now.len() && i != j implies now[i] != now[j] by {
        assert(s[if i < k { i } else { i + 1 }] != s[if j < k { j } else { j + 1 }]);
    }
}

/// A file has complaints exactly when it is among the files.
proof fn lemma_about_is_listed(pairs: Seq<(Path, Vec<Diagnostic>)>, q: PathState, i: int)
    requires
        0 <= i <= pairs.len(),
    ensures
        about(pairs, q, i) is Some <==> exists|k: int| i <= k < pairs.len() && (#[trigger] files_of(pairs)[k]) == q,
    decreases pairs.len() - i,
{
    if i < pairs.len() {
        assert(files_of(pairs)[i] == pairs[i].0@);
        if pairs[i].0@ != q {
            lemma_about_is_listed(pairs, q, i + 1);
        }
    }
}

proof fn lemma_by_file_push(pairs: Seq<(Path, Vec<Diagnostic>)>, one: (Path, Vec<Diagnostic>))
    requires
        !by_file(pairs).dom().contains(one.0@),
    ensures
        by_file(pairs.push(one)) == by_file(pairs).insert(one.0@, one.1@),
{
    let now = by_file(pairs.push(one));
    let want = by_file(pairs).insert(one.0@, one.1@);
    assert forall|q: PathState| #[trigger] now.dom().contains(q) == want.dom().contains(q) && (want.dom().contains(q)
        ==> now[q] == want[q]) by {
        lemma_about_push(pairs, one, q, 0);
        assert(by_file(pairs).dom().contains(q) == (about(pairs, q, 0) is Some));
    }
    assert(now =~= want);
}

proof fn lemma_about_none(pairs: Seq<(Path, Vec<Diagnostic>)>, q: PathState, i: int)
    requires
        0 <= i <= pairs.len(),
        forall|k: int| 0 <= k < pairs.len() ==> pairs[k].0@ != q,
    ensures
        about(pairs, q, i) is None,
    decreases pairs.len() - i,
{
    if i < pairs.len() {
        lemma_about_none(pairs, q, i + 1);
    }
}

/// A server that died is not started again.
pub proof fn a_dead_server_stays_dead(
    m: ServersState,
    lang: Seq<char>,
    last: Seq<char>,
    enabled: bool,
    command: nat,
)
    ensures
        planned(after_exit(m, lang, last), enabled, lang, command) == Plan::Skip,
{
}

// ---------------------------------------------- where a complaint is shown

/// A complaint about one stretch of one line covers exactly the columns from
/// its start up to its end.
pub proof fn a_complaint_covers_its_own_columns(d: Diagnostic, len: nat)
    requires
        d.start.line == d.end.line,
        d.start.col < d.end.col,
        d.start.col <= len,
    ensures
        span(d, d.start.line as nat, len) == Some((d.start.col as nat, d.end.col as nat)),
{
}

/// A complaint over several lines covers its first from where it starts to
/// the end of the line, each line between from end to end, and its last up to
/// where it stops. No other line is covered.
pub proof fn a_complaint_covers_its_own_lines(d: Diagnostic, line: nat, len: nat)
    requires
        d.start.line < d.end.line,
        len > 0,
        line == d.start.line ==> d.start.col < len,
        line == d.end.line ==> d.end.col > 0,
    ensures
        line == d.start.line ==> span(d, line, len) == Some((d.start.col as nat, len)),
        d.start.line < line < d.end.line ==> span(d, line, len) == Some((0nat, len)),
        line == d.end.line ==> span(d, line, len) == Some((0nat, d.end.col as nat)),
{
}

pub proof fn no_other_line_is_covered(d: Diagnostic, line: nat, len: nat)
    ensures
        span(d, line, len) is Some <==> d.start.line <= line <= d.end.line,
{
}

/// A complaint about nothing, at a place in the line, is one column wide.
pub proof fn an_empty_complaint_is_one_column(d: Diagnostic, len: nat)
    requires
        d.start == d.end,
        d.start.col <= len,
    ensures
        span(d, d.start.line as nat, len) == Some((d.start.col as nat, (d.start.col + 1) as nat)),
{
}

// ---------------------------------------------------------- the servers' work

/// The first file of a language starts its server, the next ones go to the one
/// that is up; with servers off, or none to be had, nothing is started.
pub proof fn a_server_is_started_once(m: ServersState, lang: Seq<char>, command: nat)
    ensures
        planned(m, false, lang, command) == Plan::Skip,
        m.up.contains(lang) ==> planned(m, true, lang, command) == Plan::Sync,
        !m.up.contains(lang) && !m.absent.contains(lang) && command > 0 ==> planned(m, true, lang, command)
            == Plan::Spawn,
        !m.up.contains(lang) && m.absent.contains(lang) ==> planned(m, true, lang, command) == Plan::Skip,
        !m.up.contains(lang) ==> planned(m, true, lang, 0) == Plan::Skip,
{
}

/// A server that stops takes no other down with it, keeps what was said of the
/// files, and is told about once, by name.
pub proof fn a_stop_is_about_one_server(m: ServersState, lang: Seq<char>, other: Seq<char>, last: Seq<char>)
    ensures
        ({
            let n = after_exit(m, lang, last);
            &&& !n.up.contains(lang)
            &&& other != lang ==> (n.up.contains(other) <==> m.up.contains(other))
            &&& other != lang ==> (n.absent.contains(other) <==> m.absent.contains(other))
            &&& n.diagnostics == m.diagnostics && n.open == m.open && n.modified == m.modified
            &&& n.notes.len() == m.notes.len() + 1
            &&& n.notes.take(m.notes.len() as int) == m.notes
            &&& last.len() == 0 ==> n.notes[m.notes.len() as int] == "the "@ + lang + " language server stopped"@
            &&& last.len() > 0 ==> n.notes[m.notes.len() as int] == "the "@ + lang + " language server stopped: "@ + last
        }),
{
    let n = after_exit(m, lang, last);
    assert(n.notes.take(m.notes.len() as int) =~= m.notes);
    reveal_strlit(" language server stopped");
    reveal_strlit(" language server stopped: ");
    reveal_strlit(": ");
    assert(" language server stopped: "@ =~= " language server stopped"@ + ": "@);
    assert("the "@ + lang + " language server stopped"@ + Seq::<char>::empty() =~= "the "@ + lang
        + " language server stopped"@);
    assert("the "@ + lang + " language server stopped"@ + (": "@ + last) =~= "the "@ + lang
        + (" language server stopped"@ + ": "@) + last);
}

/// One more complaint of a severity is one more counted, and one of another is
/// not.
pub proof fn each_complaint_counts_once(items: Seq<Diagnostic>, d: Diagnostic, s: Severity)
    ensures
        tally(items.push(d), items.len() as int + 1, s) == tally(items, items.len() as int, s) + (if d.severity == s {
            1nat
        } else {
            0nat
        }),
        tally(Seq::empty(), 0, s) == 0,
{
    lemma_tally_same(items.push(d), items, items.len() as int, s);
}

proof fn lemma_tally_same(a: Seq<Diagnostic>, b: Seq<Diagnostic>, n: int, s: Severity)
    requires
        0 <= n <= a.len(),
        n <= b.len(),
        forall|k: int| 0 <= k < n ==> a[k] == b[k],
    ensures
        tally(a, n, s) == tally(b, n, s),
    decreases n,
{
    if n > 0 {
        lemma_tally_same(a, b, n - 1, s);
        assert(a[n - 1] == b[n - 1]);
    }
}

/// What is counted over all files is nothing where no file has a complaint,
/// and for a single file what that file has.
pub proof fn counting_adds_up(m: Map<PathState, Seq<Diagnostic>>, p: PathState, items: Seq<Diagnostic>, s: Severity)
    ensures
        tally_files(Map::empty(), s) == 0,
        tally_files(Map::<PathState, Seq<Diagnostic>>::empty().insert(p, items), s) == tally(
            items,
            items.len() as int,
            s,
        ),
{
    let none = Map::<PathState, Seq<Diagnostic>>::empty();
    publishing_again_replaces(none, p, items, s);
    assert(none.remove(p) =~= none);
}

/// An error is worse than a warning, that than a remark, and that than a hint.
pub proof fn the_worst_comes_first()
    ensures
        rank_of(Severity::Error) < rank_of(Severity::Warning) < rank_of(Severity::Info) < rank_of(Severity::Hint),
{
}

/// What is said of a server that stopped: its name, and the last thing it
/// said where it said anything.
pub proof fn a_stop_is_told_with_its_reason(m: ServersState, lang: Seq<char>, last: Seq<char>)
    ensures
        last.len() == 0 ==> after_exit(m, lang, last).notes.last() == "the "@ + lang + " language server stopped"@,
        last.len() > 0 ==> after_exit(m, lang, last).notes.last() == "the "@ + lang + " language server stopped"@ + (
        ": "@ + last),
        after_exit(m, lang, last).notes.drop_last() == m.notes,
        !after_exit(m, lang, last).up.contains(lang),
        after_exit(m, lang, last).absent.contains(lang),
{
    let front = "the "@ + lang + " language server stopped"@;
    assert(front + Seq::<char>::empty() =~= front);
    assert(after_exit(m, lang, last).notes.drop_last() =~= m.notes);
}

} // verus!
