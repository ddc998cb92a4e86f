//! Paths as a root and a list of names.
//!
//! What the editor asks of a path is what it is made of: whether it lies
//! under a folder, what it is called, what it is next to. So a path here is
//! its components. A drive (`C:\`), a share (`\\`), a bare separator (`/` or
//! `\`) or nothing stands at the front; the rest is names. Both slashes
//! separate when a path is read. A path from a bare slash is written with
//! slashes, any other with backslashes. A drive's letter is a capital, so the
//! same drive is the same root however it was typed.
use vstd::prelude::*;
use vstd::string::*;
use crate::text;
use crate::text::{chars_of, join_texts, same, slice_text};

verus! {

/// A path: where it starts and the names on the way down.
#[derive(Debug, PartialEq, Eq)]
pub struct Path {
    pub root: String,
    pub parts: Vec<String>,
}

/// A path as a value: the root's text and the names.
#[verifier::ext_equal]
pub struct PathState {
    pub root: Seq<char>,
    pub parts: Seq<Seq<char>>,
}

impl View for Path {
    type V = PathState;

    open spec fn view(&self) -> PathState {
        PathState { root: self.root@, parts: text::texts(self.parts@) }
    }
}

/// Either slash.
pub open spec fn is_sep(c: char) -> bool {
    c == '/' || c == '\\'
}

pub fn sep(c: char) -> (r: bool)
    ensures
        r == is_sep(c),
{
    c == '/' || c == '\\'
}

/// A letter a drive can have.
pub open spec fn is_letter(c: char) -> bool {
    ('a' <= c && c <= 'z') || ('A' <= c && c <= 'Z')
}

pub fn letter(c: char) -> (r: bool)
    ensures
        r == is_letter(c),
{
    ('a' <= c && c <= 'z') || ('A' <= c && c <= 'Z')
}

/// Whether the text begins with a drive, `X:`.
pub open spec fn has_drive(s: Seq<char>) -> bool {
    s.len() >= 2 && is_letter(s[0]) && s[1] == ':'
}

/// How many characters of the text are its root.
pub open spec fn root_len(s: Seq<char>) -> int {
    if has_drive(s) {
        if s.len() >= 3 && is_sep(s[2]) { 3 } else { 2 }
    } else if s.len() >= 2 && is_sep(s[0]) && is_sep(s[1]) {
        2
    } else if s.len() >= 1 && is_sep(s[0]) {
        1
    } else {
        0
    }
}

/// The capital of a drive's letter.
pub open spec fn capital(c: char) -> char {
    if 'a' <= c && c <= 'z' { (c as u32 - 32) as char } else { c }
}

pub fn capital_of(c: char) -> (r: char)
    ensures
        r == capital(c),
{
    if 'a' <= c && c <= 'z' { (c as u8 - 32) as char } else { c }
}

/// One character of the root of a text: a bare separator is kept as it was
/// read; behind a drive and in front of a share it is a backslash, and the
/// drive's letter is a capital.
pub open spec fn root_char(s: Seq<char>, i: int) -> char {
    if is_sep(s[i]) {
        if root_len(s) == 1 { s[i] } else { '\\' }
    } else {
        capital(s[i])
    }
}

/// The root a text begins with.
pub open spec fn root_of(s: Seq<char>) -> Seq<char> {
    Seq::new(root_len(s) as nat, |i: int| root_char(s, i))
}

/// The first separator at or after `i`; the length when there is none.
pub open spec fn find_sep(s: Seq<char>, i: int) -> int
    decreases s.len() - i,
{
    if i < 0 || i >= s.len() {
        s.len() as int
    } else if is_sep(s[i]) {
        i
    } else {
        find_sep(s, i + 1)
    }
}

pub proof fn lemma_find_sep(s: Seq<char>, i: int)
    requires
        0 <= i <= s.len(),
    ensures
        i <= find_sep(s, i) <= s.len(),
        find_sep(s, i) < s.len() ==> is_sep(s[find_sep(s, i)]),
        forall|k: int| i <= k < find_sep(s, i) ==> !is_sep(#[trigger] s[k]),
    decreases s.len() - i,
{
    if i < s.len() && !is_sep(s[i]) {
        lemma_find_sep(s, i + 1);
    }
}

pub proof fn lemma_find_sep_unique(s: Seq<char>, i: int, e: int)
    requires
        0 <= i <= e <= s.len(),
        e < s.len() ==> is_sep(s[e]),
        forall|k: int| i <= k < e ==> !is_sep(#[trigger] s[k]),
    ensures
        find_sep(s, i) == e,
    decreases e - i,
{
    if i < e {
        assert(!is_sep(s[i]));
        lemma_find_sep_unique(s, i + 1, e);
    }
}

/// Whether a piece between separators is a name: an empty piece is a doubled
/// separator, and a single dot is where one already is.
pub open spec fn is_name(s: Seq<char>) -> bool {
    s.len() > 0 && s != seq!['.']
}

/// The names in the text from `i` on.
pub open spec fn names_from(s: Seq<char>, i: int) -> Seq<Seq<char>>
    decreases s.len() - i,
{
    if i < 0 || i >= s.len() {
        Seq::empty()
    } else {
        let e = find_sep(s, i);
        if e < i || e > s.len() {
            Seq::empty()
        } else {
            let piece = s.subrange(i, e);
            let rest = if e == s.len() { Seq::empty() } else { names_from(s, e + 1) };
            if is_name(piece) { seq![piece] + rest } else { rest }
        }
    }
}

/// The path a text names.
pub open spec fn path_of(s: Seq<char>) -> PathState {
    PathState { root: root_of(s), parts: names_from(s, root_len(s)) }
}

/// The separator a path with this root is written with.
pub open spec fn written_sep(root: Seq<char>) -> char {
    if root == seq!['/'] { '/' } else { '\\' }
}

/// The text of a path.
pub open spec fn path_text(p: PathState) -> Seq<char> {
    p.root + text::join(p.parts, seq![written_sep(p.root)])
}

/// A path with no root of its own is relative to wherever it is put.
pub open spec fn is_relative_path(p: PathState) -> bool {
    p.root.len() == 0
}

/// Whether a root is a backslash alone: the top of a drive or a share that is
/// not named. A slash alone is the top of everything.
pub open spec fn is_bare(root: Seq<char>) -> bool {
    root == seq!['\\']
}

/// The top of where a path is: its drive or its share, and the names that
/// belong to that.
pub open spec fn path_top(p: PathState) -> PathState {
    if has_drive(p.root) {
        PathState { root: seq![p.root[0], ':', '\\'], parts: Seq::empty() }
    } else {
        let n = if p.parts.len() < root_parts(p) { p.parts.len() } else { root_parts(p) };
        PathState { root: p.root, parts: p.parts.take(n as int) }
    }
}

/// `tail` put under `base`. One that starts at a bare backslash stays on the
/// drive or the share of `base`; one with a root of its own replaces `base`.
pub open spec fn path_join(base: PathState, tail: PathState) -> PathState {
    if is_relative_path(tail) {
        PathState { root: base.root, parts: base.parts + tail.parts }
    } else if is_bare(tail.root) && base.root.len() > 1 {
        PathState { root: path_top(base).root, parts: path_top(base).parts + tail.parts }
    } else {
        tail
    }
}

/// Whether `p` is `base` or lies somewhere under it.
pub open spec fn is_under(p: PathState, base: PathState) -> bool {
    &&& p.root == base.root
    &&& base.parts.len() <= p.parts.len()
    &&& p.parts.take(base.parts.len() as int) == base.parts
}

/// What is left of `p` below `base`.
pub open spec fn below(p: PathState, base: PathState) -> PathState {
    PathState { root: Seq::empty(), parts: p.parts.skip(base.parts.len() as int) }
}

/// The names that belong to the root itself: a share is a machine and a name
/// on it, and there is nothing above that.
pub open spec fn root_parts(p: PathState) -> nat {
    if p.root == seq!['\\', '\\'] { 2 } else { 0 }
}

/// The folder a path is in.
pub open spec fn path_parent(p: PathState) -> Option<PathState> {
    if p.parts.len() > root_parts(p) {
        Some(PathState { root: p.root, parts: p.parts.drop_last() })
    } else {
        None
    }
}

/// The last name of a path.
pub open spec fn path_name(p: PathState) -> Option<Seq<char>> {
    if p.parts.len() > 0 && p.parts.last() != seq!['.', '.'] {
        Some(p.parts.last())
    } else {
        None
    }
}

/// Whether a name can stand in a path and be read back.
pub open spec fn plain_name(s: Seq<char>) -> bool {
    &&& is_name(s)
    &&& forall|i: int| 0 <= i < s.len() ==> !is_sep(#[trigger] s[i])
}

/// A path whose text reads back as itself.
pub open spec fn clean(p: PathState) -> bool {
    &&& p.root == root_of(p.root) && root_len(p.root) == p.root.len()
    &&& forall|i: int| 0 <= i < p.parts.len() ==> plain_name(#[trigger] p.parts[i])
    &&& p.parts.len() > 0 ==> root_len(path_text(p)) == p.root.len()
}

/// The parts joined are the first part, then the rest joined.
proof fn lemma_join_front(parts: Seq<Seq<char>>, sep: Seq<char>)
    requires
        parts.len() >= 2,
    ensures
        text::join(parts, sep) == parts[0] + sep + text::join(parts.skip(1), sep),
    decreases parts.len(),
{
    reveal_with_fuel(text::join, 2);
    if parts.len() == 2 {
        assert(parts.drop_last() =~= seq![parts[0]]);
        assert(parts.skip(1) =~= seq![parts[1]]);
    } else {
        lemma_join_front(parts.drop_last(), sep);
        assert(parts.drop_last().skip(1) =~= parts.skip(1).drop_last());
        assert(parts.skip(1).last() == parts.last());
        assert(text::join(parts, sep) =~= parts[0] + sep + text::join(parts.skip(1), sep));
    }
}

/// Names written one after another are read back as those names.
proof fn lemma_names_read_back(front: Seq<char>, parts: Seq<Seq<char>>, c: char)
    requires
        is_sep(c),
        forall|i: int| 0 <= i < parts.len() ==> plain_name(#[trigger] parts[i]),
    ensures
        names_from(front + text::join(parts, seq![c]), front.len() as int) == parts,
    decreases parts.len(),
{
    let sep = seq![c];
    let s = front + text::join(parts, sep);
    if parts.len() == 0 {
        assert(names_from(s, front.len() as int) =~= parts);
    } else {
        let a = parts[0];
        let e = front.len() + a.len();
        assert(plain_name(a));
        if parts.len() == 1 {
            assert(s =~= front + a);
            assert forall|k: int| front.len() <= k < e implies !is_sep(#[trigger] s[k]) by {
                assert(s[k] == a[k - front.len()]);
            }
            lemma_find_sep_unique(s, front.len() as int, e as int);
            assert(s.subrange(front.len() as int, e as int) =~= a);
            assert(names_from(s, front.len() as int) =~= parts);
        } else {
            lemma_join_front(parts, sep);
            let rest = parts.skip(1);
            let next = front + a + sep;
            assert(s =~= next + text::join(rest, sep));
            assert forall|k: int| front.len() <= k < e implies !is_sep(#[trigger] s[k]) by {
                assert(s[k] == a[k - front.len()]);
            }
            assert(s[e as int] == c);
            lemma_find_sep_unique(s, front.len() as int, e as int);
            assert(s.subrange(front.len() as int, e as int) =~= a);
            assert forall|i: int| 0 <= i < rest.len() implies plain_name(#[trigger] rest[i]) by {
                assert(rest[i] == parts[i + 1]);
            }
            lemma_names_read_back(next, rest, c);
            assert(names_from(s, front.len() as int) =~= seq![a] + rest);
            assert(seq![a] + rest =~= parts);
        }
    }
}

/// A clean path, written out and read again, is the same path.
pub proof fn lemma_path_reads_back(p: PathState)
    requires
        clean(p),
    ensures
        path_of(path_text(p)) == p,
{
    let s = path_text(p);
    if p.parts.len() == 0 {
        assert(s =~= p.root);
    }
    lemma_names_read_back(p.root, p.parts, written_sep(p.root));
    assert forall|i: int| 0 <= i < p.root.len() implies root_of(s)[i] == p.root[i] by {
        assert(s[i] == p.root[i]);
        assert(root_of(p.root)[i] == p.root[i]);
    }
    assert(root_of(s) =~= p.root);
}

/// A file under a folder is that folder with what is left of the file's path
/// put back under it.
pub proof fn lemma_below_joins_back(p: PathState, base: PathState)
    requires
        is_under(p, base),
    ensures
        is_relative_path(below(p, base)),
        path_join(base, below(p, base)) == p,
{
    assert(p.parts.take(base.parts.len() as int) + p.parts.skip(base.parts.len() as int) =~= p.parts);
}

/// However a drive and its separators are typed, it is the same path.
pub proof fn a_drive_is_the_same_however_typed(a: char, b: char, x: char, y: char, rest: Seq<char>)
    requires
        is_letter(a),
        is_letter(b),
        capital(a) == capital(b),
        is_sep(x),
        is_sep(y),
    ensures
        path_of(seq![a, ':', x] + rest) == path_of(seq![b, ':', y] + rest),
{
    let s = seq![a, ':', x] + rest;
    let t = seq![b, ':', y] + rest;
    assert(root_of(s) =~= root_of(t));
    lemma_names_agree(s, t, 3);
}

/// Names depend only on what stands behind the place they are read from.
proof fn lemma_names_agree(s: Seq<char>, t: Seq<char>, i: int)
    requires
        0 <= i,
        s.len() == t.len(),
        forall|k: int| i <= k < s.len() ==> #[trigger] s[k] == t[k],
    ensures
        names_from(s, i) == names_from(t, i),
    decreases s.len() - i,
{
    if i < s.len() {
        lemma_find_sep(s, i);
        let e = find_sep(s, i);
        assert forall|k: int| i <= k < e implies !is_sep(#[trigger] t[k]) by {
            assert(s[k] == t[k]);
        }
        if e < s.len() {
            assert(s[e] == t[e]);
        }
        lemma_find_sep_unique(t, i, e);
        assert(s.subrange(i, e) =~= t.subrange(i, e));
        if e < s.len() {
            lemma_names_agree(s, t, e + 1);
        }
    }
}

/// A path from a bare backslash put under one on a drive stays on that drive.
pub proof fn a_bare_path_stays_on_the_drive(base: PathState, tail: PathState)
    requires
        has_drive(base.root),
        is_bare(tail.root),
    ensures
        has_drive(path_join(base, tail).root),
        path_join(base, tail).root[0] == base.root[0],
        path_join(base, tail).parts == tail.parts,
{
    assert(Seq::<Seq<char>>::empty() + tail.parts =~= tail.parts);
}

// -------------------------------------------------------------- reading

fn find_sep_at(v: &Vec<char>, from: usize) -> (r: usize)
    requires
        from <= v.len(),
    ensures
        r == find_sep(v@, from as int),
        from <= r <= v.len(),
{
    let mut i: usize = from;
    while i < v.len() && !sep(v[i])
        invariant
            from <= i <= v.len(),
            find_sep(v@, from as int) == find_sep(v@, i as int),
        decreases v.len() - i,
    {
        i = i + 1;
    }
    i
}

fn root_len_of(v: &Vec<char>) -> (r: usize)
    ensures
        r == root_len(v@),
        r <= v.len(),
{
    if v.len() >= 2 && letter(v[0]) && v[1] == ':' {
        if v.len() >= 3 && sep(v[2]) { 3 } else { 2 }
    } else if v.len() >= 2 && sep(v[0]) && sep(v[1]) {
        2
    } else if v.len() >= 1 && sep(v[0]) {
        1
    } else {
        0
    }
}

impl Path {
    /// Reads a path out of its text.
    pub fn parse(s: &str) -> (r: Path)
        ensures
            r@ == path_of(s@),
    {
        let v: Vec<char> = chars_of(s);
        Path::from_chars(&v)
    }

    pub fn from_chars(v: &Vec<char>) -> (r: Path)
        ensures
            r@ == path_of(v@),
    {
        let n: usize = root_len_of(v);
        let mut root: String = String::new();
        let mut k: usize = 0;
        while k < n
            invariant
                k <= n,
                n == root_len(v@),
                n <= v.len(),
                root@ == root_of(v@).take(k as int),
            decreases n - k,
        {
            if !sep(v[k]) {
                root.push(capital_of(v[k]));
            } else if n == 1 {
                root.push(v[k]);
            } else {
                root.push('\\');
            }
            k = k + 1;
            assert(root@ =~= root_of(v@).take(k as int));
        }
        assert(root@ =~= root_of(v@));
        let mut parts: Vec<String> = Vec::new();
        let mut i: usize = n;
        while i < v.len()
            invariant
                n <= i <= v.len(),
                text::texts(parts@) + names_from(v@, i as int) == names_from(v@, n as int),
            decreases v.len() - i,
        {
            let e: usize = find_sep_at(v, i);
            let ghost before = parts@;
            let ghost piece = v@.subrange(i as int, e as int);
            if e > i && !(e - i == 1 && v[i] == '.') {
                let name: String = slice_text(v, i, e);
                parts.push(name);
                proof {
                    if e - i == 1 {
                        assert(piece[0] != seq!['.'][0]);
                    } else {
                        assert(piece.len() != seq!['.'].len());
                    }
                    assert(text::texts(parts@) =~= text::texts(before).push(piece));
                    let rest = if e == v@.len() { Seq::empty() } else { names_from(v@, e + 1) };
                    assert(text::texts(parts@) + rest =~= text::texts(before) + names_from(v@, i as int));
                }
            } else {
                proof {
                    if e > i {
                        assert(piece =~= seq!['.']);
                    }
                }
            }
            if e >= v.len() {
                assert(names_from(v@, v@.len() as int) =~= Seq::empty());
                i = v.len();
            } else {
                i = e + 1;
            }
        }
        assert(text::texts(parts@) =~= names_from(v@, n as int));
        Path { root, parts }
    }

    /// The path written out.
    pub fn text(&self) -> (r: String)
        ensures
            r@ == path_text(self@),
    {
        let mut out: String = self.root.clone();
        proof {
            reveal_strlit("\\");
            reveal_strlit("/");
            assert("\\"@ =~= seq!['\\']);
            assert("/"@ =~= seq!['/']);
        }
        let between: &str = if same(self.root.as_str(), "/") { "/" } else { "\\" };
        let tail: String = join_texts(&self.parts, between);
        out.append(tail.as_str());
        out
    }

    /// The same path again.
    pub fn dup(&self) -> (r: Path)
        ensures
            r@ == self@,
    {
        let parts: Vec<String> = dup_texts(&self.parts);
        Path { root: self.root.clone(), parts }
    }

    /// Whether two paths have the same components.
    pub fn same(&self, other: &Path) -> (r: bool)
        ensures
            r == (self@ == other@),
    {
        if self.root != other.root || self.parts.len() != other.parts.len() {
            assert(self@.parts.len() == self.parts@.len());
            assert(other@.parts.len() == other.parts@.len());
            return false;
        }
        let r: bool = same_parts(&self.parts, &other.parts, other.parts.len());
        proof {
            assert(text::texts(self.parts@).take(self.parts@.len() as int) =~= text::texts(self.parts@));
            assert(text::texts(other.parts@).take(other.parts@.len() as int) =~= text::texts(other.parts@));
        }
        r
    }

    /// Whether the path has no root of its own.
    pub fn is_relative(&self) -> (r: bool)
        ensures
            r == is_relative_path(self@),
    {
        self.root.as_str().unicode_len() == 0
    }

    /// The drive or the share the path is on.
    fn top(&self) -> (r: Path)
        ensures
            r@ == path_top(self@),
    {
        let v: Vec<char> = chars_of(self.root.as_str());
        if v.len() >= 2 && letter(v[0]) && v[1] == ':' {
            let mut root: String = String::new();
            root.push(v[0]);
            root.push(':');
            root.push('\\');
            assert(root@ =~= seq![v@[0], ':', '\\']);
            let out: Path = Path { root, parts: Vec::new() };
            assert(out@.parts =~= Seq::empty());
            return out;
        }
        let floor: usize = self.floor();
        let mut parts: Vec<String> = dup_texts(&self.parts);
        let ghost whole = parts@;
        let n: usize = if parts.len() < floor { parts.len() } else { floor };
        parts.truncate(n);
        assert(text::texts(parts@) =~= text::texts(whole).take(n as int));
        Path { root: self.root.clone(), parts }
    }

    /// How many names belong to the root.
    fn floor(&self) -> (r: usize)
        ensures
            r == root_parts(self@),
    {
        proof {
            reveal_strlit("\\\\");
            assert("\\\\"@ =~= seq!['\\', '\\']);
        }
        if same(self.root.as_str(), "\\\\") { 2 } else { 0 }
    }

    /// `tail` under this path: from the top of its drive when `tail` starts at
    /// a bare backslash, and `tail` itself when it has a root of its own.
    pub fn join(&self, tail: &Path) -> (r: Path)
        ensures
            r@ == path_join(self@, tail@),
    {
        if !tail.is_relative() {
            proof {
                reveal_strlit("\\");
                assert("\\"@ =~= seq!['\\']);
            }
            if same(tail.root.as_str(), "\\") && self.root.as_str().unicode_len() > 1 {
                let mut up: Path = self.top();
                let ghost a = up.parts@;
                let mut more: Vec<String> = dup_texts(&tail.parts);
                let ghost b = more@;
                up.parts.append(&mut more);
                assert(text::texts(up.parts@) =~= text::texts(a) + text::texts(b));
                return up;
            }
            return tail.dup();
        }
        let mut parts: Vec<String> = dup_texts(&self.parts);
        let mut more: Vec<String> = dup_texts(&tail.parts);
        let ghost a = parts@;
        let ghost b = more@;
        parts.append(&mut more);
        assert(text::texts(parts@) =~= text::texts(a) + text::texts(b));
        Path { root: self.root.clone(), parts }
    }

    /// What is left of the path below `base`, when it lies under it.
    pub fn strip_prefix(&self, base: &Path) -> (r: Option<Path>)
        ensures
            match r {
                Some(rest) => is_under(self@, base@) && rest@ == below(self@, base@),
                None => !is_under(self@, base@),
            },
    {
        if self.root != base.root || base.parts.len() > self.parts.len() {
            assert(self@.parts.len() == self.parts@.len());
            assert(base@.parts.len() == base.parts@.len());
            return None;
        }
        let n: usize = base.parts.len();
        if !same_parts(&self.parts, &base.parts, n) {
            assert(text::texts(base.parts@).take(n as int) =~= text::texts(base.parts@));
            return None;
        }
        let mut parts: Vec<String> = Vec::new();
        let mut i: usize = n;
        while i < self.parts.len()
            invariant
                n <= i <= self.parts.len(),
                text::texts(parts@) == text::texts(self.parts@).subrange(n as int, i as int),
            decreases self.parts.len() - i,
        {
            let ghost before = parts@;
            parts.push(self.parts[i].clone());
            i = i + 1;
            assert(text::texts(parts@) =~= text::texts(before).push(self.parts@[i - 1]@));
            assert(text::texts(parts@) =~= text::texts(self.parts@).subrange(n as int, i as int));
        }
        proof {
            assert(text::texts(base.parts@).take(n as int) =~= text::texts(base.parts@));
            assert(text::texts(parts@) =~= text::texts(self.parts@).skip(n as int));
        }
        let out: Path = Path { root: String::new(), parts };
        assert(out@.root =~= Seq::<char>::empty());
        Some(out)
    }

    /// The folder the path is in.
    pub fn parent(&self) -> (r: Option<Path>)
        ensures
            match r {
                Some(p) => path_parent(self@) == Some(p@),
                None => path_parent(self@) is None,
            },
    {
        let floor: usize = self.floor();
        if self.parts.len() <= floor {
            return None;
        }
        let mut parts: Vec<String> = dup_texts(&self.parts);
        let ghost whole = parts@;
        parts.truncate(self.parts.len() - 1);
        assert(text::texts(parts@) =~= text::texts(whole).drop_last());
        Some(Path { root: self.root.clone(), parts })
    }

    /// The last name of the path.
    pub fn file_name(&self) -> (r: Option<String>)
        ensures
            match r {
                Some(n) => path_name(self@) == Some(n@),
                None => path_name(self@) is None,
            },
    {
        if self.parts.len() == 0 {
            return None;
        }
        let last: &String = &self.parts[self.parts.len() - 1];
        proof {
            reveal_strlit("..");
            assert(".."@ =~= seq!['.', '.']);
            assert(self@.parts.last() == last@);
        }
        if same(last.as_str(), "..") {
            return None;
        }
        Some(last.clone())
    }

    /// A path one name deeper.
    pub fn child(&self, name: &str) -> (r: Path)
        ensures
            r@ == (PathState { root: self@.root, parts: self@.parts.push(name@) }),
    {
        let mut parts: Vec<String> = dup_texts(&self.parts);
        let ghost before = parts@;
        parts.push(name.to_owned());
        assert(text::texts(parts@) =~= text::texts(before).push(name@));
        Path { root: self.root.clone(), parts }
    }
}

/// The same strings again.
pub fn dup_texts(v: &Vec<String>) -> (r: Vec<String>)
    ensures
        text::texts(r@) == text::texts(v@),
        r.len() == v.len(),
{
    let mut out: Vec<String> = Vec::new();
    let mut i: usize = 0;
    while i < v.len()
        invariant
            i <= v.len(),
            out.len() == i,
            forall|k: int| 0 <= k < i ==> out@[k]@ == v@[k]@,
        decreases v.len() - i,
    {
        out.push(v[i].clone());
        i = i + 1;
    }
    assert(text::texts(out@) =~= text::texts(v@));
    out
}

/// Whether the first `n` strings of two lists agree.
fn same_parts(a: &Vec<String>, b: &Vec<String>, n: usize) -> (r: bool)
    requires
        n <= a.len(),
        n <= b.len(),
    ensures
        r == (text::texts(a@).take(n as int) == text::texts(b@).take(n as int)),
{
    let mut i: usize = 0;
    while i < n
        invariant
            i <= n <= a.len(),
            n <= b.len(),
            forall|k: int| 0 <= k < i ==> a@[k]@ == b@[k]@,
        decreases n - i,
    {
        if a[i] != b[i] {
            assert(text::texts(a@).take(n as int)[i as int] != text::texts(b@).take(n as int)[i as int]);
            return false;
        }
        i = i + 1;
    }
    assert(text::texts(a@).take(n as int) =~= text::texts(b@).take(n as int));
    true
}

/// A path under a folder: below it, behind its separator. A whole path put
/// under a folder is that path.
pub proof fn a_path_put_under_a_folder(base: PathState, tail: PathState)
    ensures
        tail.root.len() == 0 ==> path_join(base, tail).root == base.root && path_join(base, tail).parts == base.parts
            + tail.parts,
        tail.root.len() > 0 && !is_bare(tail.root) ==> path_join(base, tail) == tail,
        tail.root.len() == 0 ==> is_under(path_join(base, tail), base) && below(path_join(base, tail), base) == tail,
{
    if tail.root.len() == 0 {
        assert((base.parts + tail.parts).take(base.parts.len() as int) =~= base.parts);
        assert((base.parts + tail.parts).skip(base.parts.len() as int) =~= tail.parts);
        assert(tail.root =~= Seq::<char>::empty());
    }
}

/// What lies in a folder has the folder for its parent and goes by its name.
pub proof fn a_child_lies_in_its_folder(p: PathState, name: Seq<char>)
    requires
        name != seq!['.', '.'],
        p.parts.len() >= root_parts(p),
    ensures
        ({
            let child = PathState { root: p.root, parts: p.parts.push(name) };
            &&& path_parent(child) == Some(p)
            &&& path_name(child) == Some(name)
            &&& is_under(child, p)
            &&& !is_under(p, child)
            &&& below(child, p) == (PathState { root: Seq::empty(), parts: seq![name] })
        }),
{
    let child = PathState { root: p.root, parts: p.parts.push(name) };
    assert(child.parts.drop_last() =~= p.parts);
    assert(child.parts.take(p.parts.len() as int) =~= p.parts);
    assert(child.parts.skip(p.parts.len() as int) =~= seq![name]);
}

/// A folder is under itself, what is under it is under all it is under, and
/// two folders under each other are the same.
pub proof fn lying_under_is_an_order(a: PathState, b: PathState, c: PathState)
    ensures
        is_under(a, a),
        is_under(a, b) && is_under(b, c) ==> is_under(a, c),
        is_under(a, b) && is_under(b, a) ==> a == b,
{
    assert(a.parts.take(a.parts.len() as int) =~= a.parts);
    if is_under(a, b) && is_under(b, c) {
        assert(a.parts.take(c.parts.len() as int) =~= b.parts.take(c.parts.len() as int));
    }
    if is_under(a, b) && is_under(b, a) {
        assert(a.parts =~= b.parts);
    }
}

/// The top of a drive has no parent, nor has the top of a share; every other
/// path has one, and it is one name shorter.
pub proof fn going_up_takes_off_a_name(p: PathState)
    ensures
        p.parts.len() == 0 ==> path_parent(p) is None,
        p.root == seq!['\\', '\\'] && p.parts.len() == 2 ==> path_parent(p) is None,
        p.root != seq!['\\', '\\'] && p.parts.len() > 0 ==> path_parent(p) is Some,
        path_parent(p) matches Some(up) ==> up.root == p.root && up.parts.push(p.parts.last()) == p.parts,
{
    if p.parts.len() > 0 {
        assert(p.parts.drop_last().push(p.parts.last()) =~= p.parts);
    }
}

proof fn lemma_names_shift(s: Seq<char>, t: Seq<char>, i: int)
    requires
        0 <= i <= t.len(),
    ensures
        names_from(s + t, s.len() + i) == names_from(t, i),
    decreases t.len() - i,
{
    let all = s + t;
    let n = s.len() as int;
    if i < t.len() {
        lemma_find_sep(t, i);
        let e = find_sep(t, i);
        assert forall|k: int| n + i <= k < n + e implies !is_sep(#[trigger] all[k]) by {
            assert(all[k] == t[k - n]);
        }
        if e < t.len() {
            assert(all[n + e] == t[e]);
        }
        lemma_find_sep_unique(all, n + i, n + e);
        assert(all.subrange(n + i, n + e) =~= t.subrange(i, e));
        if e < t.len() {
            lemma_names_shift(s, t, e + 1);
        }
    }
}

/// A path is read name by name, at its separators; a separator too many and
/// a single point are passed over.
pub proof fn a_path_is_read_name_by_name(name: Seq<char>, sep: char, rest: Seq<char>)
    requires
        is_sep(sep),
        forall|i: int| 0 <= i < name.len() ==> !is_sep(#[trigger] name[i]),
    ensures
        name.len() > 0 && name != seq!['.'] ==> names_from(name + seq![sep] + rest, 0) == seq![name] + names_from(
            rest,
            0,
        ),
        name.len() == 0 || name == seq!['.'] ==> names_from(name + seq![sep] + rest, 0) == names_from(rest, 0),
        name.len() > 0 && name != seq!['.'] ==> names_from(name, 0) == seq![name],
        names_from(Seq::empty(), 0) == Seq::<Seq<char>>::empty(),
{
    let all = name + seq![sep] + rest;
    let n = name.len() as int;
    assert(all[n] == sep);
    assert forall|k: int| 0 <= k < n implies !is_sep(#[trigger] all[k]) by {
        assert(all[k] == name[k]);
    }
    lemma_find_sep_unique(all, 0, n);
    assert(all.subrange(0, n) =~= name);
    lemma_names_shift(name + seq![sep], rest, 0);
    assert(all =~= (name + seq![sep]) + rest);
    if n > 0 {
        lemma_find_sep_unique(name, 0, n);
        assert(name.subrange(0, n) =~= name);
        assert(seq![name] + Seq::<Seq<char>>::empty() =~= seq![name]);
    }
}

/// Where a path begins: at a drive, at a share, at the root of a disk, or
/// where one is.
pub proof fn where_a_path_begins(s: Seq<char>)
    ensures
        s.len() >= 3 && is_letter(s[0]) && s[1] == ':' && is_sep(s[2]) ==> path_of(s).root == seq![
            capital(s[0]),
            ':',
            '\\',
        ],
        s.len() >= 2 && is_sep(s[0]) && is_sep(s[1]) ==> path_of(s).root == seq!['\\', '\\'],
        s.len() >= 2 && is_sep(s[0]) && !is_sep(s[1]) ==> path_of(s).root == seq![s[0]],
        s.len() >= 2 && !is_sep(s[0]) && s[1] != ':' ==> is_relative_path(path_of(s)),
        s.len() == 0 ==> is_relative_path(path_of(s)),
{
    if s.len() >= 3 && is_letter(s[0]) && s[1] == ':' && is_sep(s[2]) {
        assert(root_of(s) =~= seq![capital(s[0]), ':', '\\']);
    } else if s.len() >= 2 && is_sep(s[0]) && is_sep(s[1]) {
        assert(root_of(s) =~= seq!['\\', '\\']);
    } else if s.len() >= 2 && is_sep(s[0]) && !is_sep(s[1]) {
        assert(root_of(s) =~= seq![s[0]]);
    }
}

} // verus!
