//! Where things are remembered: a workspace's session file, the workspaces
//! opened before, and the window's last size and place.
use vstd::prelude::*;
use vstd::string::*;
use crate::path;
use crate::path::{Path, PathState};
use crate::text;
use crate::text::{chars_of, parse_i32, same, signed_text, split_lines, split_words, to_lowercase};

verus! {

// ----------------------------------------------------------- a stable name

/// One byte into a running FNV-1a hash.
pub open spec fn fnv_step(h: u64, b: u8) -> u64 {
    (h ^ (b as u64)).wrapping_mul(0x0000_0100_0000_01b3)
}

/// The FNV-1a hash of the first `n` bytes. Not cryptographic and does not
/// need to be: a collision costs two projects one shared layout file.
pub open spec fn fnv(bytes: Seq<u8>, n: int) -> u64
    decreases n,
{
    if n <= 0 {
        0xcbf2_9ce4_8422_2325
    } else {
        fnv_step(fnv(bytes, n - 1), bytes[n - 1])
    }
}

/// The number a directory goes by, the same however it is capitalised.
pub open spec fn dir_hash(s: Seq<char>) -> u64 {
    let bytes = vstd::utf8::encode_utf8(text::lowercase(s));
    fnv(bytes, bytes.len() as int)
}

pub fn hash(s: &str) -> (r: u64)
    ensures
        r == dir_hash(s@),
{
    let low: String = to_lowercase(s);
    let bytes: &[u8] = low.as_str().as_bytes();
    let mut h: u64 = 0xcbf2_9ce4_8422_2325;
    let mut i: usize = 0;
    while i < bytes.len()
        invariant
            i <= bytes.len(),
            h == fnv(bytes@, i as int),
        decreases bytes.len() - i,
    {
        h = (h ^ (bytes[i] as u64)).wrapping_mul(0x0000_0100_0000_01b3);
        i = i + 1;
    }
    h
}

/// Two names that differ only in case are the same directory's.
pub proof fn capitals_do_not_matter(a: Seq<char>, b: Seq<char>)
    requires
        text::lowercase(a) == text::lowercase(b),
    ensures
        dir_hash(a) == dir_hash(b),
{
}

/// The character of a hexadecimal digit.
pub open spec fn hex_char(d: int) -> char {
    if d < 10 {
        text::digit_char(d)
    } else if d == 10 {
        'a'
    } else if d == 11 {
        'b'
    } else if d == 12 {
        'c'
    } else if d == 13 {
        'd'
    } else if d == 14 {
        'e'
    } else {
        'f'
    }
}

/// The last `width` hexadecimal digits of a number.
pub open spec fn hex(n: nat, width: nat) -> Seq<char>
    decreases width,
{
    if width == 0 {
        Seq::empty()
    } else {
        hex(n / 16, (width - 1) as nat).push(hex_char((n % 16) as int))
    }
}

fn hex_digit(d: u64) -> (c: char)
    requires
        d < 16,
    ensures
        c == hex_char(d as int),
{
    if d < 10 {
        text::digit_of(d)
    } else if d == 10 {
        'a'
    } else if d == 11 {
        'b'
    } else if d == 12 {
        'c'
    } else if d == 13 {
        'd'
    } else if d == 14 {
        'e'
    } else {
        'f'
    }
}

fn hex_text(n: u64, width: usize) -> (r: String)
    ensures
        r@ == hex(n as nat, width as nat),
    decreases width,
{
    if width == 0 {
        let out: String = String::new();
        assert(out@ =~= Seq::<char>::empty());
        out
    } else {
        let mut out: String = hex_text(n / 16, width - 1);
        out.push(hex_digit(n % 16));
        out
    }
}

/// One name deeper.
pub open spec fn deeper(p: PathState, name: Seq<char>) -> PathState {
    PathState { root: p.root, parts: p.parts.push(name) }
}

/// Where a workspace's session lives. One that is marked keeps its own,
/// inside the folder that marks it, and takes its layout with it when it is
/// renamed or moved. Everything else goes to the program's own folder, under
/// a name made from the directory's hash: a directory's own name can hold
/// anything.
pub open spec fn session_place(root: PathState, marked: bool, data: PathState) -> PathState {
    if marked {
        deeper(deeper(root, ".kubide"@), "session"@)
    } else {
        deeper(
            deeper(data, "sessions"@),
            hex(dir_hash(path::path_text(root)) as nat, 16) + ".session"@,
        )
    }
}

/// `marked` says that `root` has a `.kubide` folder; `data` is the program's
/// own folder.
pub fn path_for(root: &Path, marked: bool, data: &Path) -> (r: Path)
    ensures
        r@ == session_place(root@, marked, data@),
{
    if marked {
        let inner: Path = root.child(".kubide");
        inner.child("session")
    } else {
        let whole: String = root.text();
        let mut name: String = hex_text(hash(whole.as_str()), 16);
        name.append(".session");
        let folder: Path = data.child("sessions");
        folder.child(name.as_str())
    }
}

/// Whether a session file in that folder is to be kept out of the project's
/// history: it is one machine's arrangement of one checkout. `has_ignore`
/// says that the folder already holds a list of what to ignore.
pub fn wants_ignore(folder: &Path, has_ignore: bool) -> (r: bool)
    ensures
        r == (path::path_name(folder@) == Some(".kubide"@) && !has_ignore),
{
    match folder.file_name() {
        Some(name) => same(name.as_str(), ".kubide") && !has_ignore,
        None => false,
    }
}

// -------------------------------------------------------------- the recents

/// How many workspaces are remembered.
pub const RECENTS: usize = 8;

/// The paths of a list as values.
pub open spec fn path_list(s: Seq<Path>) -> Seq<PathState> {
    Seq::new(s.len(), |i: int| s[i]@)
}

/// The list without a path.
pub open spec fn without(list: Seq<PathState>, p: PathState) -> Seq<PathState>
    decreases list.len(),
{
    if list.len() == 0 {
        Seq::empty()
    } else if list.last() == p {
        without(list.drop_last(), p)
    } else {
        without(list.drop_last(), p).push(list.last())
    }
}

/// As many as are remembered.
pub open spec fn capped(list: Seq<PathState>) -> Seq<PathState> {
    if list.len() <= RECENTS { list } else { list.take(RECENTS as int) }
}

/// Each path of a list once, where it stood first.
pub open spec fn first_occurrences(list: Seq<PathState>) -> Seq<PathState>
    decreases list.len(),
{
    if list.len() == 0 {
        Seq::empty()
    } else {
        let before = first_occurrences(list.drop_last());
        if before.contains(list.last()) { before } else { before.push(list.last()) }
    }
}

/// `dir` first, the others in their old order, duplicates gone.
pub open spec fn moved_up(dir: PathState, old_list: Seq<PathState>) -> Seq<PathState> {
    capped(seq![dir] + first_occurrences(without(old_list, dir)))
}

pub fn bumped(dir: &Path, old_list: Vec<Path>) -> (r: Vec<Path>)
    ensures
        path_list(r@) == moved_up(dir@, path_list(old_list@)),
{
    let ghost all = path_list(old_list@);
    let mut out: Vec<Path> = Vec::new();
    out.push(dir.dup());
    let mut i: usize = 0;
    assert(all.take(0) =~= Seq::empty());
    assert(path_list(out@) =~= seq![dir@] + first_occurrences(without(all.take(0), dir@)));
    while i < old_list.len()
        invariant
            i <= old_list.len(),
            all == path_list(old_list@),
            path_list(out@) == seq![dir@] + first_occurrences(without(all.take(i as int), dir@)),
        decreases old_list.len() - i,
    {
        let ghost done = path_list(out@);
        let ghost kept = first_occurrences(without(all.take(i as int), dir@));
        let ghost one = old_list@[i as int]@;
        proof {
            assert(all.take(i + 1).drop_last() =~= all.take(i as int));
            assert(all.take(i + 1).last() == one);
            assert(without(all.take(i as int), dir@).push(one).drop_last() =~= without(all.take(i as int), dir@));
            if kept.contains(one) {
                let k = choose|k: int| 0 <= k < kept.len() && kept[k] == one;
                assert(done[k + 1] == one);
            }
            assert(done[0] == dir@);
            if done.contains(one) && one != dir@ {
                let k = choose|k: int| 0 <= k < done.len() && done[k] == one;
                assert(kept[k - 1] == one);
            }
        }
        if !holds(&out, &old_list[i]) {
            let next: Path = old_list[i].dup();
            out.push(next);
            proof {
                assert(path_list(out@) =~= done.push(one));
                assert(path_list(out@) =~= seq![dir@] + first_occurrences(without(all.take(i + 1), dir@)));
            }
        }
        i = i + 1;
    }
    assert(all.take(all.len() as int) =~= all);
    let ghost whole = path_list(out@);
    out.truncate(RECENTS);
    assert(path_list(out@) =~= capped(whole));
    out
}

pub proof fn lemma_without(list: Seq<PathState>, p: PathState)
    ensures
        !without(list, p).contains(p),
        forall|q: PathState| #[trigger] without(list, p).contains(q) <==> list.contains(q) && q != p,
    decreases list.len(),
{
    if list.len() > 0 {
        let front = list.drop_last();
        lemma_without(front, p);
        let kept = without(front, p);
        let all = without(list, p);
        assert forall|q: PathState| #[trigger] all.contains(q) <==> list.contains(q) && q != p by {
            if all.contains(q) {
                let k = choose|k: int| 0 <= k < all.len() && all[k] == q;
                if k < kept.len() {
                    assert(kept[k] == q);
                    assert(kept.contains(q));
                    let j = choose|j: int| 0 <= j < front.len() && front[j] == q;
                    assert(list[j] == q);
                } else {
                    assert(list[list.len() - 1] == q);
                }
            }
            if list.contains(q) && q != p {
                let j = choose|j: int| 0 <= j < list.len() && list[j] == q;
                if j < front.len() {
                    assert(front[j] == q);
                    assert(kept.contains(q));
                    let k = choose|k: int| 0 <= k < kept.len() && kept[k] == q;
                    assert(all[k] == q);
                } else {
                    assert(all[all.len() - 1] == q);
                }
            }
        }
    }
}

proof fn lemma_first_occurrences(list: Seq<PathState>)
    ensures
        first_occurrences(list).no_duplicates(),
        forall|q: PathState| #[trigger] first_occurrences(list).contains(q) <==> list.contains(q),
    decreases list.len(),
{
    if list.len() > 0 {
        let front = list.drop_last();
        lemma_first_occurrences(front);
        let kept = first_occurrences(front);
        let all = first_occurrences(list);
        assert forall|q: PathState| #[trigger] all.contains(q) <==> list.contains(q) by {
            if all.contains(q) {
                let k = choose|k: int| 0 <= k < all.len() && all[k] == q;
                if k < kept.len() {
                    assert(kept[k] == q);
                    assert(kept.contains(q));
                    let j = choose|j: int| 0 <= j < front.len() && front[j] == q;
                    assert(list[j] == q);
                } else {
                    assert(list[list.len() - 1] == q);
                }
            }
            if list.contains(q) {
                let j = choose|j: int| 0 <= j < list.len() && list[j] == q;
                if j < front.len() {
                    assert(front[j] == q);
                    assert(kept.contains(q));
                }
                if kept.contains(q) {
                    let k = choose|k: int| 0 <= k < kept.len() && kept[k] == q;
                    assert(all[k] == q);
                } else {
                    assert(all[all.len() - 1] == q);
                }
            }
        }
        assert forall|i: int, j: int| 0 <= i < all.len() && 0 <= j < all.len() && i != j implies all[i] != all[j] by {
            if i < kept.len() && j < kept.len() {
                assert(kept[i] != kept[j]);
            } else if i < kept.len() {
                assert(kept.contains(kept[i]));
            } else {
                assert(kept.contains(kept[j]));
            }
        }
    }
}

/// A workspace that is opened again moves to the top, once; nothing is on the
/// list twice, and the list has a ceiling.
pub proof fn a_reopened_workspace_is_first_and_once(dir: PathState, old_list: Seq<PathState>)
    ensures
        1 <= moved_up(dir, old_list).len() <= RECENTS,
        moved_up(dir, old_list)[0] == dir,
        moved_up(dir, old_list).no_duplicates(),
        forall|p: PathState| #[trigger] moved_up(dir, old_list).contains(p) ==> p == dir || old_list.contains(p),
{
    lemma_without(old_list, dir);
    lemma_first_occurrences(without(old_list, dir));
    let rest = first_occurrences(without(old_list, dir));
    let all = moved_up(dir, old_list);
    assert forall|i: int| 1 <= i < all.len() implies #[trigger] all[i] != dir && old_list.contains(all[i]) by {
        assert(all[i] == rest[i - 1]);
        assert(rest.contains(rest[i - 1]));
        assert(without(old_list, dir).contains(rest[i - 1]));
    }
    assert forall|i: int, j: int| 0 <= i < all.len() && 0 <= j < all.len() && i != j implies all[i] != all[j] by {
        if i > 0 && j > 0 {
            assert(all[i] == rest[i - 1]);
            assert(all[j] == rest[j - 1]);
        }
    }
}

/// Of the directories noted, in order, the ones that are offered: named,
/// still there, not offered already, and no more than are remembered.
pub open spec fn offered(found: Seq<(PathState, bool)>) -> Seq<PathState>
    decreases found.len(),
{
    if found.len() == 0 {
        Seq::empty()
    } else {
        let before = offered(found.drop_last());
        let (p, there) = found.last();
        if before.len() >= RECENTS || !there || (p.root.len() == 0 && p.parts.len() == 0) || before.contains(p) {
            before
        } else {
            before.push(p)
        }
    }
}

/// The directories of a list and whether each is still there, as values.
pub open spec fn found_list(s: Seq<(Path, bool)>) -> Seq<(PathState, bool)> {
    Seq::new(s.len(), |i: int| (s[i].0@, s[i].1))
}

fn holds(list: &Vec<Path>, p: &Path) -> (r: bool)
    ensures
        r == path_list(list@).contains(p@),
{
    let ghost all = path_list(list@);
    let mut i: usize = 0;
    while i < list.len()
        invariant
            i <= list.len(),
            all == path_list(list@),
            forall|k: int| 0 <= k < i ==> all[k] != p@,
        decreases list.len() - i,
    {
        assert(all[i as int] == list@[i as int]@);
        if list[i].same(p) {
            assert(all.contains(p@));
            return true;
        }
        i = i + 1;
    }
    false
}

/// The workspaces opened before, newest first. Only the ones that still
/// exist: a welcome screen offering a directory that is gone would be an
/// error message with extra steps.
pub fn recent_workspaces(found: &Vec<(Path, bool)>) -> (r: Vec<Path>)
    ensures
        path_list(r@) == offered(found_list(found@)),
{
    let ghost all = found_list(found@);
    let mut out: Vec<Path> = Vec::new();
    let mut i: usize = 0;
    assert(all.take(0) =~= Seq::empty());
    assert(path_list(out@) =~= Seq::empty());
    while i < found.len()
        invariant
            i <= found.len(),
            all == found_list(found@),
            path_list(out@) == offered(all.take(i as int)),
        decreases found.len() - i,
    {
        let ghost done = path_list(out@);
        let dir: &Path = &found[i].0;
        proof {
            assert(all.take(i + 1).drop_last() =~= all.take(i as int));
            assert(all.take(i + 1).last() == (dir@, found@[i as int].1));
            assert(dir@.parts.len() == dir.parts@.len());
            assert(done.len() == out@.len());
        }
        let named: bool = dir.root.as_str().unicode_len() > 0 || dir.parts.len() > 0;
        if out.len() < RECENTS && found[i].1 && named && !holds(&out, dir) {
            let one: Path = dir.dup();
            out.push(one);
            assert(path_list(out@) =~= done.push(one@));
        }
        i = i + 1;
    }
    assert(all.take(all.len() as int) =~= all);
    out
}

/// Nothing is offered twice, and no more than are remembered.
pub proof fn nothing_is_offered_twice(found: Seq<(PathState, bool)>)
    ensures
        offered(found).no_duplicates(),
        offered(found).len() <= RECENTS,
    decreases found.len(),
{
    if found.len() > 0 {
        nothing_is_offered_twice(found.drop_last());
        let before = offered(found.drop_last());
        let all = offered(found);
        assert forall|i: int, j: int| 0 <= i < all.len() && 0 <= j < all.len() && i != j implies all[i]
            != all[j] by {
            if i < before.len() && j < before.len() {
                assert(before[i] != before[j]);
            } else if i < before.len() {
                assert(before.contains(before[i]));
            } else {
                assert(before.contains(before[j]));
            }
        }
    }
}

/// The texts of a list of paths.
pub open spec fn path_texts(list: Seq<PathState>) -> Seq<Seq<char>> {
    Seq::new(list.len(), |i: int| path::path_text(list[i]))
}

/// The list as it is written: one path per line, newest first.
pub fn recents_text(list: &Vec<Path>) -> (r: String)
    ensures
        r@ == text::unlines(path_texts(path_list(list@))),
{
    let ghost all = path_texts(path_list(list@));
    let mut out: String = String::new();
    let mut i: usize = 0;
    assert(all.take(0) =~= Seq::empty());
    assert(out@ =~= text::unlines(all.take(0)));
    while i < list.len()
        invariant
            i <= list.len(),
            all == path_texts(path_list(list@)),
            out@ == text::unlines(all.take(i as int)),
        decreases list.len() - i,
    {
        let line: String = list[i].text();
        out.append(line.as_str());
        out.push('\n');
        proof {
            assert(all.take(i + 1).drop_last() =~= all.take(i as int));
            assert(all[i as int] == line@);
            assert(out@ =~= text::unlines(all.take(i + 1)));
        }
        i = i + 1;
    }
    assert(all.take(all.len() as int) =~= all);
    out
}

/// The lines of the list as they are read.
pub fn recents_lines(s: &str) -> (r: Vec<Path>)
    ensures
        path_list(r@) == Seq::new(text::lines(s@).len(), |i: int| path::path_of(text::lines(s@)[i])),
{
    let v: Vec<char> = chars_of(s);
    let lines: Vec<Vec<char>> = split_lines(&v);
    let ghost all = text::char_lists(lines@);
    let mut out: Vec<Path> = Vec::new();
    let mut i: usize = 0;
    while i < lines.len()
        invariant
            i <= lines.len(),
            out.len() == i,
            all == text::char_lists(lines@),
            forall|k: int| 0 <= k < i ==> (#[trigger] out@[k])@ == path::path_of(all[k]),
        decreases lines.len() - i,
    {
        assert(all[i as int] == lines@[i as int]@);
        out.push(Path::from_chars(&lines[i]));
        i = i + 1;
    }
    assert(path_list(out@) =~= Seq::new(text::lines(s@).len(), |i: int| path::path_of(text::lines(s@)[i])));
    out
}

/// The list, written and read, is the same list.
pub proof fn recents_survive(list: Seq<PathState>)
    requires
        forall|i: int|
            0 <= i < list.len() ==> path::clean(#[trigger] list[i]) && text::fits_line(path::path_text(list[i])),
    ensures
        ({
            let lines = text::lines(text::unlines(path_texts(list)));
            Seq::new(lines.len(), |i: int| path::path_of(lines[i])) == list
        }),
{
    let ts = path_texts(list);
    assert forall|i: int| 0 <= i < ts.len() implies text::fits_line(#[trigger] ts[i]) by {
        assert(path::clean(list[i]));
    }
    text::lemma_lines_read_back(ts);
    assert forall|i: int| 0 <= i < ts.len() implies path::path_of(#[trigger] ts[i]) == list[i] by {
        path::lemma_path_reads_back(list[i]);
    }
    let lines = text::lines(text::unlines(ts));
    assert(Seq::new(lines.len(), |i: int| path::path_of(lines[i])) =~= list);
}

// --------------------------------------------------------------- the window

/// A window's size and place.
#[derive(Clone, Copy, Debug, PartialEq, Eq, Structural)]
pub struct Placement {
    pub x: i32,
    pub y: i32,
    pub width: i32,
    pub height: i32,
    pub maximized: bool,
}

/// The numbers that some words are, all of them; none where a word is not one.
pub open spec fn small_numbers(ws: Seq<Seq<char>>) -> Option<Seq<int>>
    decreases ws.len(),
{
    if ws.len() == 0 {
        Some(Seq::empty())
    } else {
        match (
            small_numbers(ws.drop_last()),
            text::parsed_signed(ws.last(), i32::MIN as int, i32::MAX as int),
        ) {
            (Some(before), Some(n)) => Some(before.push(n)),
            _ => None,
        }
    }
}

/// The place a text notes: five words, each a number, a size that is one.
/// Anything else is simply no answer.
pub open spec fn noted_place(s: Seq<char>) -> Option<Placement> {
    match small_numbers(text::words(s)) {
        Some(n) => if n.len() == 5 && n[2] > 0 && n[3] > 0 {
            Some(
                Placement {
                    x: n[0] as i32,
                    y: n[1] as i32,
                    width: n[2] as i32,
                    height: n[3] as i32,
                    maximized: n[4] != 0,
                },
            )
        } else {
            None
        },
        None => None,
    }
}

/// Words among which one is no number are no numbers.
proof fn lemma_no_number(ws: Seq<Seq<char>>, i: int)
    requires
        0 <= i < ws.len(),
        text::parsed_signed(ws[i], i32::MIN as int, i32::MAX as int) is None,
    ensures
        small_numbers(ws) is None,
    decreases ws.len(),
{
    if i < ws.len() - 1 {
        assert(ws.drop_last()[i] == ws[i]);
        lemma_no_number(ws.drop_last(), i);
    }
}

/// The words a place is written in.
pub open spec fn place_words(p: Placement) -> Seq<Seq<char>> {
    seq![
        text::signed_decimal(p.x as int),
        text::signed_decimal(p.y as int),
        text::signed_decimal(p.width as int),
        text::signed_decimal(p.height as int),
        text::signed_decimal(if p.maximized { 1 } else { 0 }),
    ]
}

/// A place as it is written.
pub open spec fn place_line(p: Placement) -> Seq<char> {
    text::join(place_words(p), seq![' ']) + seq!['\n']
}

/// A list of small numbers as mathematical ones.
pub open spec fn ints(v: Seq<i32>) -> Seq<int> {
    Seq::new(v.len(), |i: int| v[i] as int)
}

/// The size and place the window was left at, read from where it was noted.
pub fn window_place(s: &str) -> (r: Option<Placement>)
    ensures
        r == noted_place(s@),
{
    let v: Vec<char> = chars_of(s);
    let ws: Vec<Vec<char>> = split_words(&v);
    let ghost all = text::char_lists(ws@);
    let mut n: Vec<i32> = Vec::new();
    let mut i: usize = 0;
    assert(all.take(0) =~= Seq::empty());
    assert(ints(n@) =~= Seq::empty());
    while i < ws.len()
        invariant
            i <= ws.len(),
            all == text::char_lists(ws@),
            all == text::words(s@),
            small_numbers(all.take(i as int)) == Some(ints(n@)),
        decreases ws.len() - i,
    {
        let ghost done = ints(n@);
        proof {
            assert(all.take(i + 1).drop_last() =~= all.take(i as int));
            assert(all.take(i + 1).last() == ws@[i as int]@);
        }
        match parse_i32(&ws[i]) {
            Some(k) => {
                n.push(k);
                assert(ints(n@) =~= done.push(k as int));
            },
            None => {
                proof {
                    assert(all[i as int] == ws@[i as int]@);
                    lemma_no_number(all, i as int);
                }
                return None;
            },
        }
        i = i + 1;
    }
    assert(all.take(all.len() as int) =~= all);
    assert(ints(n@).len() == n@.len());
    if n.len() == 5 && n[2] > 0 && n[3] > 0 {
        proof {
            let k = ints(n@);
            assert(k[0] == n@[0] && k[1] == n@[1] && k[2] == n@[2] && k[3] == n@[3] && k[4] == n@[4]);
        }
        Some(
            Placement { x: n[0], y: n[1], width: n[2], height: n[3], maximized: n[4] != 0 },
        )
    } else {
        proof {
            let k = ints(n@);
            if k.len() == 5 {
                assert(k[2] == n@[2] && k[3] == n@[3]);
            }
        }
        None
    }
}

/// The text that notes a window's place.
pub fn note_window_place(p: Placement) -> (r: String)
    ensures
        r@ == place_line(p),
{
    let mut ws: Vec<String> = Vec::new();
    ws.push(signed_text(p.x as i64));
    ws.push(signed_text(p.y as i64));
    ws.push(signed_text(p.width as i64));
    ws.push(signed_text(p.height as i64));
    ws.push(signed_text(if p.maximized { 1 } else { 0 }));
    assert(text::texts(ws@) =~= place_words(p));
    let mut out: String = text::join_texts(&ws, " ");
    proof {
        reveal_strlit(" ");
        assert(" "@ =~= seq![' ']);
    }
    out.push('\n');
    assert(out@ =~= place_line(p));
    out
}

proof fn lemma_signed_word(n: int)
    requires
        i32::MIN <= n <= i32::MAX,
    ensures
        text::is_word(text::signed_decimal(n)),
        text::parsed_signed(text::signed_decimal(n), i32::MIN as int, i32::MAX as int) == Some(n),
{
    let m = if n < 0 { (-n) as nat } else { n as nat };
    text::lemma_decimal_is_word(m);
    text::lemma_decimal_reads_back(m);
    let s = text::signed_decimal(n);
    let d = text::decimal(m);
    if n < 0 {
        assert(s.skip(1) =~= d);
        assert forall|i: int| 0 <= i < s.len() implies !text::is_white(#[trigger] s[i]) by {
            if i > 0 {
                assert(s[i] == d[i - 1]);
                assert(!text::is_white(d[i - 1]));
            }
        }
    } else {
        assert('0' <= d[0]);
    }
}

/// A window's place, noted and read, is the same place.
pub proof fn a_window_place_survives(p: Placement)
    requires
        p.width > 0,
        p.height > 0,
    ensures
        noted_place(place_line(p)) == Some(p),
{
    let ws = place_words(p);
    lemma_signed_word(p.x as int);
    lemma_signed_word(p.y as int);
    lemma_signed_word(p.width as int);
    lemma_signed_word(p.height as int);
    lemma_signed_word(if p.maximized { 1 } else { 0 });
    text::lemma_words_of_joined(ws, '\n');
    reveal_with_fuel(small_numbers, 6);
    let a = ws.drop_last();
    let b = a.drop_last();
    let c = b.drop_last();
    let d = c.drop_last();
    assert(ws.last() == ws[4] && a.last() == ws[3] && b.last() == ws[2] && c.last() == ws[1] && d.last() == ws[0]);
    assert(d.drop_last().len() == 0);
    assert(small_numbers(d.drop_last()) == Some(Seq::<int>::empty()));
    assert(small_numbers(ws) is Some);
}

/// Taking a path out keeps the others, each once where each was there once,
/// and changes nothing where the path is not in the list.
pub proof fn lemma_without_keeps(list: Seq<PathState>, p: PathState)
    ensures
        without(list, p).len() <= list.len(),
        list.no_duplicates() ==> without(list, p).no_duplicates(),
        !list.contains(p) ==> without(list, p) == list,
    decreases list.len(),
{
    if list.len() > 0 {
        let front = list.drop_last();
        lemma_without_keeps(front, p);
        lemma_without(front, p);
        let kept = without(front, p);
        let all = without(list, p);
        if list.no_duplicates() {
            assert(front.no_duplicates());
            assert(!kept.contains(list.last())) by {
                if kept.contains(list.last()) {
                    assert(front.contains(list.last()));
                    let j = choose|j: int| 0 <= j < front.len() && front[j] == list.last();
                    assert(list[j] == list[list.len() - 1]);
                }
            }
            assert forall|i: int, j: int| 0 <= i < all.len() && 0 <= j < all.len() && i != j implies all[i] != all[j] by {
                if i < kept.len() && j < kept.len() {
                    assert(kept[i] != kept[j]);
                } else if i < kept.len() {
                    assert(kept.contains(kept[i]));
                } else {
                    assert(kept.contains(kept[j]));
                }
            }
        }
        if !list.contains(p) {
            assert(!front.contains(p)) by {
                if front.contains(p) {
                    let j = choose|j: int| 0 <= j < front.len() && front[j] == p;
                    assert(list[j] == p);
                }
            }
            assert(list[list.len() - 1] != p);
            assert(all =~= list);
        }
    } else {
        assert(without(list, p) =~= list);
    }
}

/// Adding a name to a path gives what lies under it by that name.
pub proof fn deeper_is_one_name_further(p: PathState, name: Seq<char>)
    ensures
        deeper(p, name).root == p.root,
        deeper(p, name).parts.drop_last() == p.parts,
        deeper(p, name).parts.last() == name,
{
    assert(deeper(p, name).parts.drop_last() =~= p.parts);
}

/// A marked workspace keeps its session inside itself; the session of any
/// other is in the program's own folder, in a file that only the hash of the
/// workspace names.
pub proof fn where_a_session_is_kept(root: PathState, other: PathState, data: PathState)
    ensures
        session_place(root, true, data).parts == root.parts + seq![".kubide"@, "session"@],
        session_place(root, true, data).root == root.root,
        session_place(root, false, data).root == data.root,
        session_place(root, false, data).parts.drop_last() == data.parts.push("sessions"@),
        dir_hash(path::path_text(root)) == dir_hash(path::path_text(other)) ==> session_place(root, false, data)
            == session_place(other, false, data),
        dir_hash(path::path_text(root)) != dir_hash(path::path_text(other)) ==> session_place(root, false, data)
            != session_place(other, false, data),
{
    assert(session_place(root, true, data).parts =~= root.parts + seq![".kubide"@, "session"@]);
    assert(session_place(root, false, data).parts.drop_last() =~= data.parts.push("sessions"@));
    let a = dir_hash(path::path_text(root));
    let b = dir_hash(path::path_text(other));
    if a != b {
        let x = hex(a as nat, 16) + ".session"@;
        let y = hex(b as nat, 16) + ".session"@;
        lemma_hex_length(a as nat, 16);
        lemma_hex_length(b as nat, 16);
        if x == y {
            assert(hex(a as nat, 16) =~= x.take(16));
            assert(hex(b as nat, 16) =~= y.take(16));
            assert(0x1_0000_0000_0000_0000nat == 16 * sixteens(15)) by {
                reveal_with_fuel(sixteens, 17);
            }
            reveal_with_fuel(sixteens, 2);
            different_numbers_are_written_differently(a as nat, b as nat, 16);
        }
        assert(session_place(root, false, data).parts.last() == x);
        assert(session_place(other, false, data).parts.last() == y);
    }
}

/// Sixteen to the power of `n`.
pub open spec fn sixteens(n: nat) -> nat
    decreases n,
{
    if n == 0 { 1 } else { 16 * sixteens((n - 1) as nat) }
}

proof fn lemma_hex_length(n: nat, width: nat)
    ensures
        hex(n, width).len() == width,
    decreases width,
{
    if width > 0 {
        lemma_hex_length(n / 16, (width - 1) as nat);
    }
}

/// Two different numbers of a width are written differently.
pub proof fn different_numbers_are_written_differently(a: nat, b: nat, width: nat)
    requires
        a < sixteens(width),
        b < sixteens(width),
        hex(a, width) == hex(b, width),
    ensures
        a == b,
    decreases width,
{
    if width > 0 {
        let w = (width - 1) as nat;
        assert(hex(a / 16, w) =~= hex(a, width).drop_last());
        assert(hex(b / 16, w) =~= hex(b, width).drop_last());
        assert(hex(a, width).last() == hex_char((a % 16) as int));
        assert(hex(b, width).last() == hex_char((b % 16) as int));
        different_numbers_are_written_differently(a / 16, b / 16, w);
    }
}

/// The hash starts from its basis, and each byte is mixed in and multiplied
/// by the prime.
pub proof fn the_hash_takes_a_byte_at_a_time(bytes: Seq<u8>, b: u8)
    ensures
        fnv(Seq::empty(), 0) == 14_695_981_039_346_656_037u64,
        fnv(bytes.push(b), bytes.len() as int + 1) == (fnv(bytes, bytes.len() as int) ^ (b as u64)).wrapping_mul(
            1_099_511_628_211u64,
        ),
{
    lemma_fnv_prefix(bytes, bytes.push(b), bytes.len() as int);
}

proof fn lemma_fnv_prefix(a: Seq<u8>, b: Seq<u8>, n: int)
    requires
        n <= a.len(),
        n <= b.len(),
        forall|i: int| 0 <= i < n ==> #[trigger] a[i] == b[i],
    ensures
        fnv(a, n) == fnv(b, n),
    decreases n,
{
    if n > 0 {
        lemma_fnv_prefix(a, b, n - 1);
        assert(a[n - 1] == b[n - 1]);
    }
}

/// The workspaces offered are ones that are there, no more than eight, and
/// in the order they were found.
pub proof fn what_is_offered_is_there(found: Seq<(PathState, bool)>, p: PathState)
    ensures
        offered(found).len() <= 8,
        offered(found).contains(p) ==> found.contains((p, true)),
    decreases found.len(),
{
    if found.len() > 0 {
        let front = found.drop_last();
        what_is_offered_is_there(front, p);
        if offered(found).contains(p) {
            let before = offered(front);
            let i = choose|i: int| 0 <= i < offered(found).len() && offered(found)[i] == p;
            if i < before.len() {
                assert(before[i] == p);
                let j = choose|j: int| 0 <= j < front.len() && front[j] == (p, true);
                assert(found[j] == (p, true));
            } else {
                assert(found[found.len() - 1] == (p, true));
            }
        }
    }
}

/// One more workspace that is there is offered behind the others, while
/// there is room and it is not offered already; one that is not there is
/// passed over.
pub proof fn one_more_workspace(found: Seq<(PathState, bool)>, p: PathState)
    ensures
        p.parts.len() > 0 && offered(found).len() < 8 && !offered(found).contains(p) ==> offered(
            found.push((p, true)),
        ) == offered(found).push(p),
        offered(found.push((p, false))) == offered(found),
{
    assert(found.push((p, true)).drop_last() =~= found);
    assert(found.push((p, false)).drop_last() =~= found);
}

/// The workspace opened last is first, those opened before it follow in
/// their order, and eight are kept.
pub proof fn a_workspace_opened_is_first(dir: PathState, list: Seq<PathState>)
    ensures
        moved_up(dir, list).len() > 0,
        moved_up(dir, list)[0] == dir,
        moved_up(dir, list).len() <= 8,
        list.no_duplicates() && !list.contains(dir) && list.len() < 8 ==> moved_up(dir, list) == seq![dir] + list,
        list.no_duplicates() && !list.contains(dir) && list.len() >= 8 ==> moved_up(dir, list) == seq![dir]
            + list.take(7),
{
    if list.no_duplicates() && !list.contains(dir) {
        lemma_without_keeps(list, dir);
        lemma_nothing_to_drop(list, dir);
        lemma_all_first(list);
        if list.len() >= 8 {
            assert((seq![dir] + list).take(8) =~= seq![dir] + list.take(7));
        }
    }
}

proof fn lemma_nothing_to_drop(list: Seq<PathState>, p: PathState)
    requires
        !list.contains(p),
    ensures
        without(list, p) == list,
    decreases list.len(),
{
    if list.len() > 0 {
        assert(list[list.len() - 1] != p);
        assert forall|i: int| 0 <= i < list.drop_last().len() implies list.drop_last()[i] != p by {
            assert(list[i] != p);
        }
        lemma_nothing_to_drop(list.drop_last(), p);
        assert(list.drop_last().push(list.last()) =~= list);
    } else {
        assert(list =~= Seq::empty());
    }
}

proof fn lemma_all_first(list: Seq<PathState>)
    requires
        list.no_duplicates(),
    ensures
        first_occurrences(list) == list,
    decreases list.len(),
{
    if list.len() > 0 {
        let front = list.drop_last();
        assert(front.no_duplicates());
        lemma_all_first(front);
        if front.contains(list.last()) {
            let i = choose|i: int| 0 <= i < front.len() && front[i] == list.last();
            assert(list[i] == list[list.len() - 1]);
        }
        assert(front.push(list.last()) =~= list);
    } else {
        assert(list =~= Seq::empty());
    }
}

} // verus!
