//! Text as a sequence of characters.
//!
//! Everything the rest of the crate says about a `String` it says about its
//! view, a `Seq<char>`. This module has the sequence-level vocabulary
//! (`find_from`, `split_from`, `trimmed`, `decimal`, ...) and the executable
//! functions that compute it.
use vstd::prelude::*;
use vstd::string::*;

verus! {

/// `String::push` appends one character at the end of the string.
pub assume_specification[ String::push ](s: &mut String, c: char)
    ensures
        final(s)@ == old(s)@.push(c),
;

/// `String::pop` takes the last character off and hands it back; an empty
/// string stays empty and the answer is `None`.
pub assume_specification[ String::pop ](s: &mut String) -> (r: Option<char>)
    ensures
        old(s)@.len() == 0 ==> r is None && final(s)@ == old(s)@,
        old(s)@.len() > 0 ==> r == Some(old(s)@.last()) && final(s)@ == old(s)@.drop_last(),
;

/// The lower-case form of a text, by Unicode's own table.
pub uninterp spec fn lowercase(s: Seq<char>) -> Seq<char>;

/// `str::to_lowercase`: the lower-case equivalent of the whole text. The
/// table behind it is Unicode's; nothing is claimed of it but that it is a
/// function of the text.
#[verifier::external_body]
pub(crate) fn to_lowercase(s: &str) -> (r: String)
    ensures
        r@ == lowercase(s@),
{
    s.to_lowercase()
}

/// The texts of a list of strings.
pub open spec fn texts(v: Seq<String>) -> Seq<Seq<char>> {
    Seq::new(v.len(), |i: int| v[i]@)
}

// ---------------------------------------------------------------- pieces

/// The characters of a string, in order.
pub fn chars_of(s: &str) -> (r: Vec<char>)
    ensures
        r@ == s@,
{
    let mut out: Vec<char> = Vec::new();
    for c in iter: s.chars()
        invariant
            iter.seq() == s@,
            out@ == s@.take(iter.index()),
    {
        out.push(c);
    }
    out
}

/// The characters from `from` up to, not including, `to`.
pub fn slice_text(v: &Vec<char>, from: usize, to: usize) -> (r: String)
    requires
        from <= to <= v.len(),
    ensures
        r@ == v@.subrange(from as int, to as int),
{
    let mut out: String = String::new();
    let mut i: usize = from;
    while i < to
        invariant
            from <= i <= to <= v.len(),
            out@ == v@.subrange(from as int, i as int),
        decreases to - i,
    {
        out.push(v[i]);
        i = i + 1;
    }
    out
}

/// Whether two texts are the same, character for character.
pub fn same(a: &str, b: &str) -> (r: bool)
    ensures
        r == (a@ == b@),
{
    let x: String = a.to_owned();
    let y: String = b.to_owned();
    x == y
}

/// Whether `s` begins with `prefix`.
pub open spec fn has_prefix(s: Seq<char>, prefix: Seq<char>) -> bool {
    prefix.len() <= s.len() && s.take(prefix.len() as int) == prefix
}

pub fn starts_with(v: &Vec<char>, prefix: &Vec<char>) -> (r: bool)
    ensures
        r == has_prefix(v@, prefix@),
{
    if prefix.len() > v.len() {
        return false;
    }
    let mut i: usize = 0;
    while i < prefix.len()
        invariant
            i <= prefix.len() <= v.len(),
            forall|k: int| 0 <= k < i ==> v@[k] == prefix@[k],
        decreases prefix.len() - i,
    {
        if v[i] != prefix[i] {
            assert(v@.take(prefix@.len() as int)[i as int] != prefix@[i as int]);
            return false;
        }
        i = i + 1;
    }
    assert(v@.take(prefix@.len() as int) =~= prefix@);
    true
}

/// The same characters again, as a string of their own.
pub fn copy_text(s: &str) -> (r: String)
    ensures
        r@ == s@,
{
    s.to_owned()
}

/// `a` followed by `b`.
pub fn joined(a: &str, b: &str) -> (r: String)
    ensures
        r@ == a@ + b@,
{
    let mut out: String = a.to_owned();
    out.append(b);
    out
}

/// `a`, `b` and `c` in one string.
pub fn joined3(a: &str, b: &str, c: &str) -> (r: String)
    ensures
        r@ == a@ + b@ + c@,
{
    let mut out: String = a.to_owned();
    out.append(b);
    out.append(c);
    out
}

// ------------------------------------------------------------- searching

/// Where `c` next occurs at or after `i`; the length when it does not.
pub open spec fn find_from(s: Seq<char>, c: char, i: int) -> int
    decreases s.len() - i,
{
    if i < 0 || i >= s.len() {
        s.len() as int
    } else if s[i] == c {
        i
    } else {
        find_from(s, c, i + 1)
    }
}

/// `find_from` is the first place at or after `i` that holds `c`.
pub proof fn lemma_find_from(s: Seq<char>, c: char, i: int)
    requires
        0 <= i <= s.len(),
    ensures
        i <= find_from(s, c, i) <= s.len(),
        find_from(s, c, i) < s.len() ==> s[find_from(s, c, i)] == c,
        forall|k: int| i <= k < find_from(s, c, i) ==> s[k] != c,
    decreases s.len() - i,
{
    if i < s.len() && s[i] != c {
        lemma_find_from(s, c, i + 1);
    }
}

/// Any place with those properties is `find_from`.
pub proof fn lemma_find_from_unique(s: Seq<char>, c: char, i: int, e: int)
    requires
        0 <= i <= e <= s.len(),
        e < s.len() ==> s[e] == c,
        forall|k: int| i <= k < e ==> s[k] != c,
    ensures
        find_from(s, c, i) == e,
    decreases e - i,
{
    if i < e {
        lemma_find_from_unique(s, c, i + 1, e);
    }
}

pub fn find_char(v: &Vec<char>, c: char, from: usize) -> (r: usize)
    requires
        from <= v.len(),
    ensures
        r == find_from(v@, c, from as int),
        from <= r <= v.len(),
        r < v.len() ==> v@[r as int] == c,
{
    let mut i: usize = from;
    while i < v.len()
        invariant
            from <= i <= v.len(),
            find_from(v@, c, from as int) == find_from(v@, c, i as int),
        decreases v.len() - i,
    {
        if v[i] == c {
            return i;
        }
        i = i + 1;
    }
    i
}

/// Whether `c` occurs in the text.
pub fn has_char(v: &Vec<char>, c: char) -> (r: bool)
    ensures
        r == v@.contains(c),
{
    let i: usize = find_char(v, c, 0);
    proof {
        lemma_find_from(v@, c, 0);
    }
    i < v.len()
}

/// The text from `start` on, cut at every `sep`. Always at least one piece.
pub open spec fn split_from(s: Seq<char>, sep: char, start: int) -> Seq<Seq<char>>
    decreases s.len() - start,
{
    if start < 0 || start > s.len() {
        Seq::empty()
    } else {
        let e = find_from(s, sep, start);
        if e < start || e >= s.len() {
            seq![s.subrange(start, s.len() as int)]
        } else {
            seq![s.subrange(start, e)] + split_from(s, sep, e + 1)
        }
    }
}

/// The pieces of a text between separators.
pub open spec fn split_on(s: Seq<char>, sep: char) -> Seq<Seq<char>> {
    split_from(s, sep, 0)
}

pub fn split_text(v: &Vec<char>, sep: char) -> (r: Vec<Vec<char>>)
    ensures
        char_lists(r@) == split_on(v@, sep),
        r.len() > 0,
{
    let mut out: Vec<Vec<char>> = Vec::new();
    let mut start: usize = 0;
    loop
        invariant
            start <= v.len(),
            char_lists(out@) + split_from(v@, sep, start as int) == split_on(v@, sep),
        decreases v.len() - start,
    {
        let e: usize = find_char(v, sep, start);
        let piece: Vec<char> = sub_chars(v, start, e);
        let ghost before = out@;
        out.push(piece);
        proof {
            assert(char_lists(out@) =~= char_lists(before).push(piece@));
        }
        if e >= v.len() {
            assert(char_lists(out@) =~= char_lists(before) + seq![v@.subrange(start as int, v@.len() as int)]);
            return out;
        }
        assert(char_lists(out@) + split_from(v@, sep, e + 1)
            =~= char_lists(before) + split_from(v@, sep, start as int));
        start = e + 1;
    }
}

/// The texts of a list of character lists.
pub open spec fn char_lists(v: Seq<Vec<char>>) -> Seq<Seq<char>> {
    Seq::new(v.len(), |i: int| v[i]@)
}

/// The characters from `from` up to, not including, `to`.
pub fn sub_chars(v: &Vec<char>, from: usize, to: usize) -> (r: Vec<char>)
    requires
        from <= to <= v.len(),
    ensures
        r@ == v@.subrange(from as int, to as int),
{
    let mut out: Vec<char> = Vec::new();
    let mut i: usize = from;
    while i < to
        invariant
            from <= i <= to <= v.len(),
            out@ == v@.subrange(from as int, i as int),
        decreases to - i,
    {
        out.push(v[i]);
        i = i + 1;
    }
    out
}

// ------------------------------------------------------------- white space

/// The characters Unicode calls white space.
pub open spec fn is_white(c: char) -> bool {
    let n = c as u32;
    ||| 0x09 <= n <= 0x0d
    ||| n == 0x20
    ||| n == 0x85
    ||| n == 0xa0
    ||| n == 0x1680
    ||| 0x2000 <= n <= 0x200a
    ||| n == 0x2028
    ||| n == 0x2029
    ||| n == 0x202f
    ||| n == 0x205f
    ||| n == 0x3000
}

pub fn white(c: char) -> (r: bool)
    ensures
        r == is_white(c),
{
    let n: u32 = c as u32;
    (n >= 0x09 && n <= 0x0d) || n == 0x20 || n == 0x85 || n == 0xa0 || n == 0x1680 || (n >= 0x2000
        && n <= 0x200a) || n == 0x2028 || n == 0x2029 || n == 0x202f || n == 0x205f || n == 0x3000
}

/// Whether a text holds nothing but white space.
pub open spec fn is_blank(s: Seq<char>) -> bool {
    forall|i: int| 0 <= i < s.len() ==> is_white(#[trigger] s[i])
}

/// The first place at or after `i` that is not white space.
pub open spec fn skip_white(s: Seq<char>, i: int) -> int
    decreases s.len() - i,
{
    if i < 0 || i >= s.len() {
        s.len() as int
    } else if is_white(s[i]) {
        skip_white(s, i + 1)
    } else {
        i
    }
}

/// The first place at or after `i` that is white space.
pub open spec fn skip_word(s: Seq<char>, i: int) -> int
    decreases s.len() - i,
{
    if i < 0 || i >= s.len() {
        s.len() as int
    } else if is_white(s[i]) {
        i
    } else {
        skip_word(s, i + 1)
    }
}

/// Where the text ends once white space before `n` is left off.
pub open spec fn back_white(s: Seq<char>, n: int) -> int
    decreases n,
{
    if n <= 0 {
        0
    } else if is_white(s[n - 1]) {
        back_white(s, n - 1)
    } else {
        n
    }
}

/// The text without white space at its front.
pub open spec fn trimmed_start(s: Seq<char>) -> Seq<char> {
    s.skip(skip_white(s, 0))
}

/// The text without white space at its end.
pub open spec fn trimmed_end(s: Seq<char>) -> Seq<char> {
    s.take(back_white(s, s.len() as int))
}

/// The text without white space at either end.
pub open spec fn trimmed(s: Seq<char>) -> Seq<char> {
    trimmed_start(trimmed_end(s))
}

/// What `skip_white` passes over is white space, and what it stops at is not.
pub proof fn lemma_skip_white(s: Seq<char>, i: int)
    requires
        0 <= i <= s.len(),
    ensures
        i <= skip_white(s, i) <= s.len(),
        forall|k: int| i <= k < skip_white(s, i) ==> is_white(#[trigger] s[k]),
        skip_white(s, i) < s.len() ==> !is_white(s[skip_white(s, i)]),
    decreases s.len() - i,
{
    if i < s.len() && is_white(s[i]) {
        lemma_skip_white(s, i + 1);
    }
}

/// What `skip_word` passes over is not white space, and what it stops at is.
pub proof fn lemma_skip_word(s: Seq<char>, i: int)
    requires
        0 <= i <= s.len(),
    ensures
        i <= skip_word(s, i) <= s.len(),
        forall|k: int| i <= k < skip_word(s, i) ==> !is_white(#[trigger] s[k]),
        skip_word(s, i) < s.len() ==> is_white(s[skip_word(s, i)]),
    decreases s.len() - i,
{
    if i < s.len() && !is_white(s[i]) {
        lemma_skip_word(s, i + 1);
    }
}

/// What `back_white` passes over is white space, and what it stops at is not.
pub proof fn lemma_back_white(s: Seq<char>, n: int)
    requires
        0 <= n <= s.len(),
    ensures
        0 <= back_white(s, n) <= n,
        forall|k: int| back_white(s, n) <= k < n ==> is_white(#[trigger] s[k]),
        back_white(s, n) > 0 ==> !is_white(s[back_white(s, n) - 1]),
    decreases n,
{
    if n > 0 && is_white(s[n - 1]) {
        lemma_back_white(s, n - 1);
    }
}

/// Trimming leaves nothing exactly of a blank text.
pub proof fn lemma_trimmed_blank(s: Seq<char>)
    ensures
        (trimmed(s).len() == 0) == is_blank(s),
        trimmed(s).len() > 0 ==> !is_white(trimmed(s)[0]) && !is_white(trimmed(s).last()),
{
    lemma_back_white(s, s.len() as int);
    let e = trimmed_end(s);
    lemma_skip_white(e, 0);
    if e.len() > 0 {
        assert(e.last() == s[back_white(s, s.len() as int) - 1]);
        assert(e[e.len() - 1] == e.last());
        assert(skip_white(e, 0) < e.len());
        assert(trimmed(s)[0] == e[skip_white(e, 0)]);
        assert(e[skip_white(e, 0)] == s[skip_white(e, 0)]);
        assert(trimmed(s).last() == e.last());
    }
}

/// A text with no white space at either end is its own trimmed form.
pub proof fn lemma_trimmed_fixed(s: Seq<char>)
    requires
        s.len() > 0 ==> !is_white(s[0]) && !is_white(s.last()),
    ensures
        trimmed(s) == s,
{
    assert(back_white(s, s.len() as int) == s.len());
    assert(trimmed_end(s) =~= s);
    assert(skip_white(s, 0) == 0);
    assert(trimmed_start(s) =~= s);
}

pub fn skip_white_at(v: &Vec<char>, from: usize) -> (r: usize)
    requires
        from <= v.len(),
    ensures
        r == skip_white(v@, from as int),
        from <= r <= v.len(),
{
    let mut i: usize = from;
    while i < v.len() && white(v[i])
        invariant
            from <= i <= v.len(),
            skip_white(v@, from as int) == skip_white(v@, i as int),
        decreases v.len() - i,
    {
        i = i + 1;
    }
    i
}

pub fn skip_word_at(v: &Vec<char>, from: usize) -> (r: usize)
    requires
        from <= v.len(),
    ensures
        r == skip_word(v@, from as int),
        from <= r <= v.len(),
{
    let mut i: usize = from;
    while i < v.len() && !white(v[i])
        invariant
            from <= i <= v.len(),
            skip_word(v@, from as int) == skip_word(v@, i as int),
        decreases v.len() - i,
    {
        i = i + 1;
    }
    i
}

pub fn back_white_at(v: &Vec<char>) -> (r: usize)
    ensures
        r == back_white(v@, v@.len() as int),
        r <= v.len(),
{
    let mut n: usize = v.len();
    while n > 0 && white(v[n - 1])
        invariant
            n <= v.len(),
            back_white(v@, v@.len() as int) == back_white(v@, n as int),
        decreases n,
    {
        n = n - 1;
    }
    n
}

/// `str::trim` on a list of characters.
pub fn trim_chars(v: &Vec<char>) -> (r: Vec<char>)
    ensures
        r@ == trimmed(v@),
{
    let end: usize = back_white_at(v);
    let front: Vec<char> = sub_chars(v, 0, end);
    assert(front@ =~= trimmed_end(v@));
    let start: usize = skip_white_at(&front, 0);
    let out: Vec<char> = sub_chars(&front, start, front.len());
    assert(out@ =~= trimmed(v@));
    out
}

/// The characters as a string.
pub fn text_of(v: &Vec<char>) -> (r: String)
    ensures
        r@ == v@,
{
    let out: String = slice_text(v, 0, v.len());
    assert(v@.subrange(0, v@.len() as int) =~= v@);
    out
}

/// The text without white space at either end.
pub fn trim(s: &str) -> (r: String)
    ensures
        r@ == trimmed(s@),
{
    let v: Vec<char> = chars_of(s);
    let t: Vec<char> = trim_chars(&v);
    text_of(&t)
}

/// Whether the text is empty once trimmed.
pub fn blank(s: &str) -> (r: bool)
    ensures
        r == (trimmed(s@).len() == 0),
{
    let v: Vec<char> = chars_of(s);
    let t: Vec<char> = trim_chars(&v);
    t.len() == 0
}

// ------------------------------------------------------------------ words

/// The words of the text from `i` on, split at white space.
pub open spec fn words_from(s: Seq<char>, i: int) -> Seq<Seq<char>>
    decreases s.len() - i,
{
    if i < 0 || i > s.len() {
        Seq::empty()
    } else {
        let a = skip_white(s, i);
        if a < i || a >= s.len() {
            Seq::empty()
        } else {
            let b = skip_word(s, a);
            if b <= a || b > s.len() {
                Seq::empty()
            } else {
                seq![s.subrange(a, b)] + words_from(s, b)
            }
        }
    }
}

/// The words of a text.
pub open spec fn words(s: Seq<char>) -> Seq<Seq<char>> {
    words_from(s, 0)
}

pub fn split_words(v: &Vec<char>) -> (r: Vec<Vec<char>>)
    ensures
        char_lists(r@) == words(v@),
{
    let mut out: Vec<Vec<char>> = Vec::new();
    let mut i: usize = 0;
    loop
        invariant
            i <= v.len(),
            char_lists(out@) + words_from(v@, i as int) == words(v@),
        decreases v.len() - i,
    {
        let a: usize = skip_white_at(v, i);
        if a >= v.len() {
            assert(words_from(v@, i as int) =~= Seq::empty());
            assert(char_lists(out@) =~= words(v@));
            return out;
        }
        proof {
            lemma_skip_white(v@, i as int);
            lemma_skip_word(v@, a as int);
        }
        let b: usize = skip_word_at(v, a);
        assert(b > a);
        let piece: Vec<char> = sub_chars(v, a, b);
        let ghost before = out@;
        out.push(piece);
        proof {
            assert(char_lists(out@) =~= char_lists(before).push(piece@));
            assert(char_lists(out@) + words_from(v@, b as int) =~= char_lists(before) + words_from(v@, i as int));
        }
        i = b;
    }
}

// ------------------------------------------------------------------ lines

/// A line without the carriage return before its newline.
pub open spec fn without_cr(s: Seq<char>) -> Seq<char> {
    if s.len() > 0 && s.last() == '\r' {
        s.drop_last()
    } else {
        s
    }
}

/// The lines of the text from `start` on. A newline ends a line, so nothing
/// follows the last one; a carriage return before a newline belongs to it.
pub open spec fn lines_from(s: Seq<char>, start: int) -> Seq<Seq<char>>
    decreases s.len() - start,
{
    if start < 0 || start >= s.len() {
        Seq::empty()
    } else {
        let e = find_from(s, '\n', start);
        if e < start || e >= s.len() {
            seq![s.subrange(start, s.len() as int)]
        } else {
            seq![without_cr(s.subrange(start, e))] + lines_from(s, e + 1)
        }
    }
}

/// The lines of a text.
pub open spec fn lines(s: Seq<char>) -> Seq<Seq<char>> {
    lines_from(s, 0)
}

pub fn split_lines(v: &Vec<char>) -> (r: Vec<Vec<char>>)
    ensures
        char_lists(r@) == lines(v@),
{
    let mut out: Vec<Vec<char>> = Vec::new();
    let mut start: usize = 0;
    while start < v.len()
        invariant
            start <= v.len(),
            char_lists(out@) + lines_from(v@, start as int) == lines(v@),
        decreases v.len() - start,
    {
        let e: usize = find_char(v, '\n', start);
        let ghost before = out@;
        if e >= v.len() {
            let piece: Vec<char> = sub_chars(v, start, e);
            out.push(piece);
            proof {
                assert(char_lists(out@) =~= char_lists(before).push(piece@));
                assert(char_lists(out@) =~= char_lists(before) + lines_from(v@, start as int));
            }
            return out;
        }
        let mut piece: Vec<char> = sub_chars(v, start, e);
        if piece.len() > 0 && piece[piece.len() - 1] == '\r' {
            piece.truncate(piece.len() - 1);
            assert(piece@ =~= v@.subrange(start as int, e as int).drop_last());
        }
        assert(piece@ == without_cr(v@.subrange(start as int, e as int)));
        out.push(piece);
        proof {
            assert(char_lists(out@) =~= char_lists(before).push(piece@));
            assert(char_lists(out@) + lines_from(v@, e + 1) =~= char_lists(before) + lines_from(v@, start as int));
        }
        start = e + 1;
    }
    assert(char_lists(out@) =~= lines(v@));
    out
}

/// The first line of a text; nothing for an empty one.
pub open spec fn first_line(s: Seq<char>) -> Seq<char> {
    if lines(s).len() == 0 {
        Seq::empty()
    } else {
        lines(s)[0]
    }
}

pub fn first_line_of(v: &Vec<char>) -> (r: Vec<char>)
    ensures
        r@ == first_line(v@),
{
    let all: Vec<Vec<char>> = split_lines(v);
    assert(char_lists(all@).len() == all@.len());
    if all.len() == 0 {
        return Vec::new();
    }
    let out: Vec<char> = sub_chars(&all[0], 0, all[0].len());
    assert(char_lists(all@)[0] == all@[0]@);
    assert(out@ =~= all@[0]@);
    out
}

// ---------------------------------------------------------------- numbers

/// The character of a decimal digit.
pub open spec fn digit_char(d: int) -> char {
    if d == 0 { '0' } else if d == 1 { '1' } else if d == 2 { '2' } else if d == 3 { '3' } else if d
        == 4 { '4' } else if d == 5 { '5' } else if d == 6 { '6' } else if d == 7 { '7' } else if d
        == 8 { '8' } else { '9' }
}

/// What a decimal digit counts for.
pub open spec fn digit_value(c: char) -> Option<nat> {
    if '0' <= c && c <= '9' {
        Some((c as int - '0' as int) as nat)
    } else {
        None
    }
}

pub fn digit_of(d: u64) -> (c: char)
    requires
        d < 10,
    ensures
        c == digit_char(d as int),
{
    if d == 0 { '0' } else if d == 1 { '1' } else if d == 2 { '2' } else if d == 3 { '3' } else if d
        == 4 { '4' } else if d == 5 { '5' } else if d == 6 { '6' } else if d == 7 { '7' } else if d
        == 8 { '8' } else { '9' }
}

pub fn value_of(c: char) -> (r: Option<u64>)
    ensures
        match r {
            Some(d) => digit_value(c) == Some(d as nat) && d < 10,
            None => digit_value(c) is None,
        },
{
    if '0' <= c && c <= '9' {
        Some(c as u64 - '0' as u64)
    } else {
        None
    }
}

/// A number in decimal, without leading zeros.
pub open spec fn decimal(n: nat) -> Seq<char>
    decreases n,
{
    if n < 10 {
        seq![digit_char(n as int)]
    } else {
        decimal(n / 10).push(digit_char((n % 10) as int))
    }
}

/// A number takes far fewer digits than it counts.
pub proof fn lemma_decimal_short(n: nat)
    ensures
        1 <= decimal(n).len() <= n / 10 + 1,
    decreases n,
{
    if n >= 10 {
        lemma_decimal_short(n / 10);
    }
}

/// A number in decimal, with a minus in front of a negative one.
pub open spec fn signed_decimal(n: int) -> Seq<char> {
    if n < 0 {
        seq!['-'] + decimal((-n) as nat)
    } else {
        decimal(n as nat)
    }
}

pub fn decimal_text(n: u64) -> (r: String)
    ensures
        r@ == decimal(n as nat),
    decreases n,
{
    if n < 10 {
        let mut out: String = String::new();
        out.push(digit_of(n));
        assert(out@ =~= seq![digit_char(n as int)]);
        out
    } else {
        let mut out: String = decimal_text(n / 10);
        out.push(digit_of(n % 10));
        out
    }
}

/// A wide number in decimal.
pub fn wide_text(n: u128) -> (r: String)
    ensures
        r@ == decimal(n as nat),
    decreases n,
{
    if n < 10 {
        let mut out: String = String::new();
        out.push(digit_of(n as u64));
        assert(out@ =~= seq![digit_char(n as int)]);
        out
    } else {
        let mut out: String = wide_text(n / 10);
        out.push(digit_of((n % 10) as u64));
        out
    }
}

pub fn signed_text(n: i64) -> (r: String)
    ensures
        r@ == signed_decimal(n as int),
{
    if n < 0 {
        let m: u64 = (-(n as i128)) as u64;
        let tail: String = decimal_text(m);
        let mut out: String = String::new();
        out.push('-');
        out.append(tail.as_str());
        assert(out@ =~= seq!['-'] + decimal((-n) as nat));
        out
    } else {
        decimal_text(n as u64)
    }
}

/// The number a run of digits stands for; nothing if anything else is in it.
pub open spec fn digits_value(s: Seq<char>) -> Option<nat>
    decreases s.len(),
{
    if s.len() == 0 {
        Some(0)
    } else {
        match (digits_value(s.drop_last()), digit_value(s.last())) {
            (Some(n), Some(d)) => Some(n * 10 + d),
            _ => None,
        }
    }
}

/// How an unsigned number no larger than `max` is read: an optional plus,
/// then digits and nothing else, at least one of them.
pub open spec fn parsed(s: Seq<char>, max: nat) -> Option<nat> {
    let body = if s.len() > 0 && s[0] == '+' { s.skip(1) } else { s };
    if body.len() == 0 {
        None
    } else {
        match digits_value(body) {
            Some(n) if n <= max => Some(n),
            _ => None,
        }
    }
}

/// How a signed number between `min` and `max` is read: an optional sign,
/// then digits and nothing else, at least one of them.
pub open spec fn parsed_signed(s: Seq<char>, min: int, max: int) -> Option<int> {
    let negative = s.len() > 0 && s[0] == '-';
    let body = if s.len() > 0 && (s[0] == '+' || s[0] == '-') { s.skip(1) } else { s };
    if body.len() == 0 {
        None
    } else {
        match digits_value(body) {
            Some(n) => {
                let v = if negative { -(n as int) } else { n as int };
                if min <= v <= max { Some(v) } else { None }
            },
            None => None,
        }
    }
}

/// More digits never make a number smaller, and a bad character stays bad.
proof fn lemma_digits_prefix(s: Seq<char>, k: int)
    requires
        0 <= k <= s.len(),
    ensures
        digits_value(s.take(k)) is None ==> digits_value(s) is None,
        digits_value(s) is Some ==> digits_value(s.take(k)) is Some && digits_value(s.take(k))->0
            <= digits_value(s)->0,
    decreases s.len() - k,
{
    if k == s.len() {
        assert(s.take(k) =~= s);
    } else {
        lemma_digits_prefix(s, k + 1);
        let t = s.take(k + 1);
        assert(t.drop_last() =~= s.take(k));
        assert(t.len() > 0);
    }
}

/// Every decimal reads back as the number it was written from.
pub proof fn lemma_decimal_reads_back(n: nat)
    ensures
        decimal(n).len() > 0,
        digits_value(decimal(n)) == Some(n),
        forall|i: int| 0 <= i < decimal(n).len() ==> digit_value(#[trigger] decimal(n)[i]) is Some,
    decreases n,
{
    reveal_with_fuel(digits_value, 2);
    if n < 10 {
        let s = decimal(n);
        assert(s.drop_last() =~= Seq::empty());
        assert(s.last() == digit_char(n as int));
    } else {
        lemma_decimal_reads_back(n / 10);
        let s = decimal(n);
        assert(s.drop_last() =~= decimal(n / 10));
        assert(s.last() == digit_char((n % 10) as int));
        assert(n == (n / 10) * 10 + n % 10);
        assert forall|i: int| 0 <= i < s.len() implies digit_value(#[trigger] s[i]) is Some by {
            if i < s.len() - 1 {
                assert(s[i] == decimal(n / 10)[i]);
            }
        }
    }
}

/// A number written in decimal is parsed back to itself, when it fits.
pub proof fn lemma_parsed_decimal(n: nat, max: nat)
    requires
        n <= max,
    ensures
        parsed(decimal(n), max) == Some(n),
{
    lemma_decimal_reads_back(n);
    assert(digit_value(decimal(n)[0]) is Some);
}

/// Reads digits from `from` on; `None` when one is no digit or the number
/// passes `max`.
fn parse_digits(v: &Vec<char>, from: usize, max: u64) -> (r: Option<u64>)
    requires
        from < v.len(),
    ensures
        match r {
            Some(n) => digits_value(v@.skip(from as int)) == Some(n as nat) && n <= max,
            None => match digits_value(v@.skip(from as int)) {
                Some(n) => n > max,
                None => true,
            },
        },
{
    let ghost body = v@.skip(from as int);
    let mut n: u64 = 0;
    let mut i: usize = from;
    assert(body.take(0) =~= Seq::empty());
    while i < v.len()
        invariant
            from <= i <= v.len(),
            body == v@.skip(from as int),
            n <= max,
            digits_value(body.take(i - from)) == Some(n as nat),
        decreases v.len() - i,
    {
        let ghost next = body.take(i - from + 1);
        proof {
            assert(next.drop_last() =~= body.take(i - from));
            assert(next.last() == v@[i as int]);
            lemma_digits_prefix(body, i - from + 1);
        }
        match value_of(v[i]) {
            None => {
                return None;
            },
            Some(d) => {
                if n > max / 10 || d > max || n * 10 > max - d {
                    assert(n * 10 + d > max);
                    return None;
                }
                n = n * 10 + d;
            },
        }
        i = i + 1;
    }
    assert(body.take(body.len() as int) =~= body);
    Some(n)
}

pub fn parse_number(v: &Vec<char>, max: u64) -> (r: Option<u64>)
    ensures
        match r {
            Some(n) => parsed(v@, max as nat) == Some(n as nat),
            None => parsed(v@, max as nat) is None,
        },
{
    let from: usize = if v.len() > 0 && v[0] == '+' { 1 } else { 0 };
    if from >= v.len() {
        return None;
    }
    assert(v@.skip(0) =~= v@);
    parse_digits(v, from, max)
}

pub fn parse_i32(v: &Vec<char>) -> (r: Option<i32>)
    ensures
        match r {
            Some(n) => parsed_signed(v@, i32::MIN as int, i32::MAX as int) == Some(n as int),
            None => parsed_signed(v@, i32::MIN as int, i32::MAX as int) is None,
        },
{
    let negative: bool = v.len() > 0 && v[0] == '-';
    let from: usize = if v.len() > 0 && (v[0] == '+' || v[0] == '-') { 1 } else { 0 };
    if from >= v.len() {
        return None;
    }
    assert(v@.skip(0) =~= v@);
    let max: u64 = if negative { 0x8000_0000 } else { 0x7fff_ffff };
    match parse_digits(v, from, max) {
        None => None,
        Some(n) => if negative {
            Some((-(n as i64)) as i32)
        } else {
            Some(n as i32)
        },
    }
}

// ------------------------------------------------------------- assembling

/// One character, `n` times.
pub open spec fn repeated(c: char, n: nat) -> Seq<char> {
    Seq::new(n, |i: int| c)
}

pub fn repeat(c: char, n: usize) -> (r: String)
    ensures
        r@ == repeated(c, n as nat),
{
    let mut out: String = String::new();
    let mut i: usize = 0;
    while i < n
        invariant
            i <= n,
            out@ == repeated(c, i as nat),
        decreases n - i,
    {
        out.push(c);
        i = i + 1;
        assert(out@ =~= repeated(c, i as nat));
    }
    out
}

/// `s` with `fill` in front until it is `width` characters long.
pub open spec fn padded(s: Seq<char>, fill: char, width: nat) -> Seq<char> {
    if s.len() >= width {
        s
    } else {
        repeated(fill, (width - s.len()) as nat) + s
    }
}

/// `s` with `fill` behind it until it is `width` characters long.
pub open spec fn padded_right(s: Seq<char>, fill: char, width: nat) -> Seq<char> {
    if s.len() >= width {
        s
    } else {
        s + repeated(fill, (width - s.len()) as nat)
    }
}

pub fn pad(s: &str, fill: char, width: usize) -> (r: String)
    ensures
        r@ == padded(s@, fill, width as nat),
{
    let n: usize = s.unicode_len();
    if n >= width {
        return s.to_owned();
    }
    let mut out: String = repeat(fill, width - n);
    out.append(s);
    out
}

pub fn pad_right(s: &str, fill: char, width: usize) -> (r: String)
    ensures
        r@ == padded_right(s@, fill, width as nat),
{
    let n: usize = s.unicode_len();
    let mut out: String = s.to_owned();
    if n >= width {
        return out;
    }
    let tail: String = repeat(fill, width - n);
    out.append(tail.as_str());
    out
}

/// The parts with `sep` between each two.
pub open spec fn join(parts: Seq<Seq<char>>, sep: Seq<char>) -> Seq<char>
    decreases parts.len(),
{
    if parts.len() == 0 {
        Seq::empty()
    } else if parts.len() == 1 {
        parts[0]
    } else {
        join(parts.drop_last(), sep) + sep + parts.last()
    }
}

pub fn join_texts(parts: &Vec<String>, sep: &str) -> (r: String)
    ensures
        r@ == join(texts(parts@), sep@),
{
    let mut out: String = String::new();
    let mut i: usize = 0;
    while i < parts.len()
        invariant
            i <= parts.len(),
            out@ == join(texts(parts@).take(i as int), sep@),
        decreases parts.len() - i,
    {
        let ghost next = texts(parts@).take(i + 1);
        assert(next.drop_last() =~= texts(parts@).take(i as int));
        if i > 0 {
            out.append(sep);
        }
        out.append(parts[i].as_str());
        i = i + 1;
        assert(out@ =~= join(next, sep@));
    }
    assert(texts(parts@).take(parts@.len() as int) =~= texts(parts@));
    out
}

/// The first `n` characters, or all of them when there are fewer.
pub open spec fn first_chars(s: Seq<char>, n: nat) -> Seq<char> {
    if s.len() <= n {
        s
    } else {
        s.take(n as int)
    }
}

/// Every `from` in the text turned into `to`.
pub open spec fn swapped(s: Seq<char>, from: char, to: char) -> Seq<char> {
    Seq::new(s.len(), |i: int| if s[i] == from { to } else { s[i] })
}

pub fn swap_char(s: &str, from: char, to: char) -> (r: String)
    ensures
        r@ == swapped(s@, from, to),
{
    let mut out: String = String::new();
    for c in iter: s.chars()
        invariant
            iter.seq() == s@,
            out@ == swapped(s@, from, to).take(iter.index()),
    {
        if c == from {
            out.push(to);
        } else {
            out.push(c);
        }
        assert(out@ =~= swapped(s@, from, to).take(iter.index() + 1));
    }
    out
}

/// The text cut at the first `sep`, which belongs to neither half.
pub open spec fn split_once(s: Seq<char>, sep: char) -> Option<(Seq<char>, Seq<char>)> {
    let e = find_from(s, sep, 0);
    if e >= s.len() {
        None
    } else {
        Some((s.take(e), s.skip(e + 1)))
    }
}

pub fn cut_once(v: &Vec<char>, sep: char) -> (r: Option<(Vec<char>, Vec<char>)>)
    ensures
        match r {
            Some((a, b)) => split_once(v@, sep) == Some((a@, b@)),
            None => split_once(v@, sep) is None,
        },
{
    let e: usize = find_char(v, sep, 0);
    if e >= v.len() {
        return None;
    }
    let a: Vec<char> = sub_chars(v, 0, e);
    let b: Vec<char> = sub_chars(v, e + 1, v.len());
    assert(a@ =~= v@.take(e as int));
    assert(b@ =~= v@.skip(e + 1));
    Some((a, b))
}

/// Whether the characters spell the text.
pub fn spells(v: &Vec<char>, s: &str) -> (r: bool)
    ensures
        r == (v@ == s@),
{
    let t: String = text_of(v);
    same(t.as_str(), s)
}

// ------------------------------------------- writing what can be read back

/// Lines as they are written: each with its newline.
pub open spec fn unlines(ls: Seq<Seq<char>>) -> Seq<char>
    decreases ls.len(),
{
    if ls.len() == 0 {
        Seq::empty()
    } else {
        unlines(ls.drop_last()) + ls.last() + seq!['\n']
    }
}

/// A text that stands on a line of its own: no newline in it, and no carriage
/// return at its end.
pub open spec fn fits_line(s: Seq<char>) -> bool {
    &&& forall|i: int| 0 <= i < s.len() ==> s[i] != '\n'
    &&& s.len() > 0 ==> s.last() != '\r'
}

/// Words as they are written: each with a space behind it.
pub open spec fn spaced(ws: Seq<Seq<char>>) -> Seq<char>
    decreases ws.len(),
{
    if ws.len() == 0 {
        Seq::empty()
    } else {
        spaced(ws.drop_last()) + ws.last() + seq![' ']
    }
}

/// A text that is one word: something in it, and no white space.
pub open spec fn is_word(s: Seq<char>) -> bool {
    &&& s.len() > 0
    &&& forall|i: int| 0 <= i < s.len() ==> !is_white(#[trigger] s[i])
}

proof fn lemma_lines_of_more(front: Seq<char>, line: Seq<char>, start: int)
    requires
        0 <= start <= front.len(),
        start < front.len() ==> front.last() == '\n',
        fits_line(line),
    ensures
        lines_from(front + line + seq!['\n'], start) == lines_from(front, start).push(line),
    decreases front.len() - start,
{
    let s = front + line + seq!['\n'];
    let e = front.len() + line.len();
    if start == front.len() {
        assert forall|k: int| start <= k < e implies s[k] != '\n' by {
            assert(s[k] == line[k - front.len()]);
        }
        assert(s[e as int] == '\n');
        lemma_find_from_unique(s, '\n', start, e as int);
        assert(s.subrange(start, e as int) =~= line);
        assert(lines_from(s, (e + 1) as int) =~= Seq::empty());
        assert(lines_from(s, start) =~= seq![line]);
        assert(lines_from(front, start) =~= Seq::empty());
        assert(Seq::<Seq<char>>::empty().push(line) =~= seq![line]);
    } else {
        lemma_find_from(front, '\n', start);
        let f = find_from(front, '\n', start);
        assert(f < front.len()) by {
            if f >= front.len() {
                assert(front[front.len() - 1] == front.last());
            }
        }
        assert forall|k: int| start <= k < f implies s[k] != '\n' by {
            assert(s[k] == front[k]);
        }
        lemma_find_from_unique(s, '\n', start, f);
        assert(s.subrange(start, f) =~= front.subrange(start, f));
        lemma_lines_of_more(front, line, f + 1);
        assert(lines_from(s, start) =~= lines_from(front, start).push(line));
    }
}

/// Lines written out and read again are the same lines.
pub proof fn lemma_lines_read_back(ls: Seq<Seq<char>>)
    requires
        forall|i: int| 0 <= i < ls.len() ==> fits_line(#[trigger] ls[i]),
    ensures
        lines(unlines(ls)) == ls,
        ls.len() > 0 ==> unlines(ls).len() > 0 && unlines(ls).last() == '\n',
    decreases ls.len(),
{
    if ls.len() == 0 {
        assert(lines(unlines(ls)) =~= ls);
    } else {
        let front = ls.drop_last();
        assert forall|i: int| 0 <= i < front.len() implies fits_line(#[trigger] front[i]) by {
            assert(front[i] == ls[i]);
        }
        lemma_lines_read_back(front);
        assert(fits_line(ls[ls.len() - 1]));
        if front.len() == 0 {
            assert(unlines(front) =~= Seq::empty());
        }
        lemma_lines_of_more(unlines(front), ls.last(), 0);
        assert(front.push(ls.last()) =~= ls);
    }
}

proof fn lemma_skip_word_unique(s: Seq<char>, i: int, e: int)
    requires
        0 <= i <= e <= s.len(),
        e < s.len() ==> is_white(s[e]),
        forall|k: int| i <= k < e ==> !is_white(#[trigger] s[k]),
    ensures
        skip_word(s, i) == e,
    decreases e - i,
{
    if i < e {
        assert(!is_white(s[i]));
        lemma_skip_word_unique(s, i + 1, e);
    }
}

proof fn lemma_skip_white_unique(s: Seq<char>, i: int, e: int)
    requires
        0 <= i <= e <= s.len(),
        e < s.len() ==> !is_white(s[e]),
        forall|k: int| i <= k < e ==> is_white(#[trigger] s[k]),
    ensures
        skip_white(s, i) == e,
    decreases e - i,
{
    if i < e {
        assert(is_white(s[i]));
        lemma_skip_white_unique(s, i + 1, e);
    }
}

proof fn lemma_words_of_last(front: Seq<char>, word: Seq<char>, end: char, start: int)
    requires
        0 <= start <= front.len(),
        start < front.len() ==> is_white(front.last()),
        is_word(word),
        is_white(end),
    ensures
        words_from(front + word + seq![end], start) == words_from(front, start).push(word),
    decreases front.len() - start,
{
    let s = front + word + seq![end];
    let e = front.len() + word.len();
    lemma_skip_white(front, start);
    let a = skip_white(front, start);
    assert forall|k: int| start <= k < a implies is_white(#[trigger] s[k]) by {
        assert(s[k] == front[k]);
        assert(is_white(front[k]));
    }
    if a < front.len() {
        assert(s[a] == front[a]);
    } else {
        assert(s[a] == word[0]);
        assert(!is_white(word[0]));
    }
    lemma_skip_white_unique(s, start, a);
    if a == front.len() {
        assert forall|k: int| a <= k < e implies !is_white(#[trigger] s[k]) by {
            assert(s[k] == word[k - front.len()]);
            assert(!is_white(word[k - front.len()]));
        }
        assert(s[e as int] == end);
        lemma_skip_word_unique(s, a, e as int);
        assert(s.subrange(a, e as int) =~= word);
        assert forall|k: int| e <= k < s.len() implies is_white(#[trigger] s[k]) by {
            assert(s[k] == end);
        }
        lemma_skip_white_unique(s, e as int, s.len() as int);
        assert(words_from(s, e as int) =~= Seq::empty());
        assert(words_from(s, start) =~= seq![word]);
        assert(words_from(front, start) =~= Seq::empty());
        assert(Seq::<Seq<char>>::empty().push(word) =~= seq![word]);
    } else {
        lemma_skip_word(front, a);
        let b = skip_word(front, a);
        assert(front[front.len() - 1] == front.last());
        assert(b < front.len());
        assert forall|k: int| a <= k < b implies !is_white(#[trigger] s[k]) by {
            assert(s[k] == front[k]);
            assert(!is_white(front[k]));
        }
        assert(s[b] == front[b]);
        lemma_skip_word_unique(s, a, b);
        assert(s.subrange(a, b) =~= front.subrange(a, b));
        lemma_words_of_last(front, word, end, b);
        assert(words_from(s, start) =~= words_from(front, start).push(word));
    }
}

/// Words written out and read again are the same words.
pub proof fn lemma_words_read_back(ws: Seq<Seq<char>>)
    requires
        forall|i: int| 0 <= i < ws.len() ==> is_word(#[trigger] ws[i]),
    ensures
        words(spaced(ws)) == ws,
        ws.len() > 0 ==> spaced(ws).len() > 0 && spaced(ws).last() == ' ',
    decreases ws.len(),
{
    if ws.len() == 0 {
        assert(words(spaced(ws)) =~= ws);
    } else {
        let front = ws.drop_last();
        assert forall|i: int| 0 <= i < front.len() implies is_word(#[trigger] front[i]) by {
            assert(front[i] == ws[i]);
        }
        lemma_words_read_back(front);
        assert(is_word(ws[ws.len() - 1]));
        if front.len() == 0 {
            assert(spaced(front) =~= Seq::empty());
        }
        lemma_words_of_last(spaced(front), ws.last(), ' ', 0);
        assert(front.push(ws.last()) =~= ws);
    }
}

/// A text that has no `sep` before it is cut at the first one.
pub proof fn lemma_split_once_at(a: Seq<char>, sep: char, b: Seq<char>)
    requires
        forall|i: int| 0 <= i < a.len() ==> a[i] != sep,
    ensures
        split_once(a + seq![sep] + b, sep) == Some((a, b)),
{
    let s = a + seq![sep] + b;
    assert forall|k: int| 0 <= k < a.len() implies s[k] != sep by {
        assert(s[k] == a[k]);
    }
    assert(s[a.len() as int] == sep);
    lemma_find_from_unique(s, sep, 0, a.len() as int);
    assert(s.take(a.len() as int) =~= a);
    assert(s.skip((a.len() + 1) as int) =~= b);
}

/// The characters of a decimal are digits: no white space, no sign.
pub proof fn lemma_decimal_is_word(n: nat)
    ensures
        is_word(decimal(n)),
        forall|i: int| 0 <= i < decimal(n).len() ==> '0' <= #[trigger] decimal(n)[i] && decimal(n)[i] <= '9',
{
    lemma_decimal_reads_back(n);
    assert forall|i: int| 0 <= i < decimal(n).len() implies '0' <= #[trigger] decimal(n)[i] && decimal(n)[i]
        <= '9' && !is_white(decimal(n)[i]) by {
        assert(digit_value(decimal(n)[i]) is Some);
    }
}

/// Words with single spaces between, and one character of white space behind,
/// read back as the words.
pub proof fn lemma_words_of_joined(ws: Seq<Seq<char>>, end: char)
    requires
        ws.len() > 0,
        is_white(end),
        forall|i: int| 0 <= i < ws.len() ==> is_word(#[trigger] ws[i]),
    ensures
        words(join(ws, seq![' ']) + seq![end]) == ws,
{
    let front = ws.drop_last();
    let last = ws.last();
    assert(is_word(ws[ws.len() - 1]));
    assert forall|i: int| 0 <= i < front.len() implies is_word(#[trigger] front[i]) by {
        assert(front[i] == ws[i]);
    }
    lemma_words_read_back(front);
    lemma_join_is_spaced(ws);
    if front.len() == 0 {
        assert(spaced(front) =~= Seq::empty());
    }
    assert(join(ws, seq![' ']) + seq![end] =~= spaced(front) + last + seq![end]);
    lemma_words_of_last(spaced(front), last, end, 0);
    assert(front.push(last) =~= ws);
}

proof fn lemma_join_is_spaced(ws: Seq<Seq<char>>)
    requires
        ws.len() > 0,
    ensures
        join(ws, seq![' ']) == spaced(ws.drop_last()) + ws.last(),
    decreases ws.len(),
{
    if ws.len() == 1 {
        assert(spaced(ws.drop_last()) =~= Seq::empty());
        assert(join(ws, seq![' ']) =~= spaced(ws.drop_last()) + ws.last());
    } else {
        let front = ws.drop_last();
        lemma_join_is_spaced(front);
        assert(spaced(front) =~= spaced(front.drop_last()) + front.last() + seq![' ']);
        assert(join(ws, seq![' ']) =~= spaced(ws.drop_last()) + ws.last());
    }
}

/// A number padded to two places is itself from ten on, and has a nought in
/// front of it below.
pub proof fn lemma_two_digits(n: nat)
    ensures
        padded(decimal(n), '0', 2) == (if n < 10 { seq!['0'] + decimal(n) } else { decimal(n) }),
{
    if n < 10 {
        assert(repeated('0', 1) =~= seq!['0']);
    } else {
        lemma_decimal_short(n / 10);
    }
}

/// A number is written with its digits, the last one last.
pub proof fn a_number_is_written_digit_by_digit(n: nat, d: nat)
    requires
        d < 10,
    ensures
        decimal(d) == seq![(48 + d) as char],
        n > 0 ==> decimal(10 * n + d) == decimal(n).push((48 + d) as char),
{
    assert((10 * n + d) / 10 == n && (10 * n + d) % 10 == d);
}

/// Trimming takes the white space at both ends and nothing else.
pub proof fn trimming_takes_the_ends_only(a: Seq<char>, s: Seq<char>, b: Seq<char>)
    requires
        forall|i: int| 0 <= i < a.len() ==> is_white(#[trigger] a[i]),
        forall|i: int| 0 <= i < b.len() ==> is_white(#[trigger] b[i]),
        s.len() > 0,
        !is_white(s[0]),
        !is_white(s.last()),
    ensures
        trimmed(a + s + b) == s,
{
    let all = a + s + b;
    let n = all.len() as int;
    let to = (a.len() + s.len()) as int;
    lemma_back_white(all, n);
    assert(all[to - 1] == s.last());
    let e = back_white(all, n);
    if e < to {
        assert(is_white(all[to - 1]));
    }
    if e > to {
        assert(all[e - 1] == b[e - 1 - to]);
        assert(is_white(b[e - 1 - to]));
    }
    let front = trimmed_end(all);
    assert(front =~= a + s);
    lemma_skip_white(front, 0);
    let k = skip_white(front, 0);
    if k < a.len() {
        assert(front[k] == a[k]);
        assert(is_white(a[k]));
    }
    if k > a.len() {
        assert(front[a.len() as int] == s[0]);
        assert(is_white(front[a.len() as int]));
    }
    assert(front.skip(a.len() as int) =~= s);
}

/// A text is padded to its width on the side asked for, and never cut.
pub proof fn padding_keeps_the_text(s: Seq<char>, fill: char, width: nat)
    ensures
        s.len() >= width ==> padded(s, fill, width) == s && padded_right(s, fill, width) == s,
        s.len() < width ==> {
            let left = padded(s, fill, width);
            let right = padded_right(s, fill, width);
            &&& left.len() == width && right.len() == width
            &&& left.skip(width - s.len()) == s
            &&& right.take(s.len() as int) == s
            &&& forall|i: int| 0 <= i < width - s.len() ==> #[trigger] left[i] == fill
            &&& forall|i: int| s.len() <= i < width ==> #[trigger] right[i] == fill
        },
{
    if s.len() < width {
        assert(padded(s, fill, width).skip(width - s.len()) =~= s);
        assert(padded_right(s, fill, width).take(s.len() as int) =~= s);
    }
}

/// Texts are joined in their order, with what parts them between each two.
pub proof fn joining_puts_the_separator_between(parts: Seq<Seq<char>>, last: Seq<char>, sep: Seq<char>)
    ensures
        join(seq![last], sep) == last,
        join(Seq::empty(), sep) == Seq::<char>::empty(),
        parts.len() > 0 ==> join(parts.push(last), sep) == join(parts, sep) + sep + last,
{
    assert(parts.push(last).drop_last() =~= parts);
}

/// A negative number is written with a sign in front of it.
pub proof fn a_sign_stands_in_front(n: nat)
    ensures
        signed_decimal(n as int) == decimal(n),
        n > 0 ==> signed_decimal(-(n as int)) == seq!['-'] + decimal(n),
{
}

/// A text is parted at the first separator, which is in neither part.
pub proof fn parting_at_the_first_separator(a: Seq<char>, sep: char, b: Seq<char>)
    requires
        !a.contains(sep),
    ensures
        split_once(a + seq![sep] + b, sep) == Some((a, b)),
        split_once(a, sep) is None,
        split_on(a, sep) == seq![a],
{
    lemma_split_once_at(a, sep, b);
    lemma_find_from(a, sep, 0);
    assert(a.subrange(0, a.len() as int) =~= a);
}

/// Swapping a character changes its occurrences and nothing else.
pub proof fn swapping_changes_one_character(s: Seq<char>, from: char, to: char, i: int)
    requires
        0 <= i < s.len(),
    ensures
        swapped(s, from, to).len() == s.len(),
        s[i] == from ==> swapped(s, from, to)[i] == to,
        s[i] != from ==> swapped(s, from, to)[i] == s[i],
{
}

} // verus!
