//! Text on its way in and out of a pane.
use vstd::prelude::*;
use vstd::string::*;
use crate::text;
use crate::text::{chars_of, joined3, swap_char, text_of};

verus! {

/// The text from character `i` on, each carriage return with its line feed
/// taken as one character `by`.
pub open spec fn unpaired_from(s: Seq<char>, by: char, i: int) -> Seq<char>
    decreases s.len() - i,
{
    if i < 0 || i >= s.len() {
        Seq::empty()
    } else if s[i] == '\r' && i + 1 < s.len() && s[i + 1] == '\n' {
        seq![by] + unpaired_from(s, by, i + 2)
    } else {
        seq![s[i]] + unpaired_from(s, by, i + 1)
    }
}

pub open spec fn unpaired(s: Seq<char>, by: char) -> Seq<char> {
    unpaired_from(s, by, 0)
}

fn without_pairs(s: &str, by: char) -> (r: String)
    ensures
        r@ == unpaired(s@, by),
{
    let v: Vec<char> = chars_of(s);
    let ghost whole = unpaired(s@, by);
    let mut out: Vec<char> = Vec::new();
    let mut i: usize = 0;
    assert(out@ + whole =~= whole);
    while i < v.len()
        invariant
            i <= v.len(),
            v@ == s@,
            out@ + unpaired_from(s@, by, i as int) == whole,
        decreases v.len() - i,
    {
        let ghost before = out@;
        if v[i] == '\r' && i + 1 < v.len() && v[i + 1] == '\n' {
            let ghost rest = unpaired_from(s@, by, i + 2);
            out.push(by);
            assert(out@ + rest =~= before + (seq![by] + rest));
            i = i + 2;
        } else {
            let ghost rest = unpaired_from(s@, by, i + 1);
            let c: char = v[i];
            out.push(c);
            assert(out@ + rest =~= before + (seq![c] + rest));
            i = i + 1;
        }
    }
    assert(out@ + Seq::<char>::empty() =~= out@);
    text_of(&out)
}

/// What is written to a terminal for pasted text: marked as pasted, so that
/// the shell does not take each line of it as a command.
pub fn for_terminal(s: &str) -> (r: String)
    ensures
        r@ == "\u{1b}[200~"@ + unpaired(s@, '\r') + "\u{1b}[201~"@,
{
    let body: String = without_pairs(s, '\r');
    joined3("\u{1b}[200~", body.as_str(), "\u{1b}[201~")
}

/// What is put into a buffer for pasted text: its line ends are line feeds,
/// or stray carriage returns would be drawn as garbage.
pub fn for_editor(s: &str) -> (r: String)
    ensures
        r@ == text::swapped(unpaired(s@, '\n'), '\r', '\n'),
{
    let body: String = without_pairs(s, '\n');
    swap_char(body.as_str(), '\r', '\n')
}

/// How many arrow keys a turn of the wheel stands for, on a screen without
/// history.
pub open spec fn wheel_keys(lines: int) -> nat {
    let n = if lines < 0 { -lines } else { lines };
    if n < 5 { n as nat } else { 5 }
}

/// The arrow keys a turn of the wheel stands for: which, and how many.
pub fn wheel_arrows(lines: i32) -> (r: (&'static str, usize))
    ensures
        r.0@ == (if lines > 0 { "\u{1b}[A"@ } else { "\u{1b}[B"@ }),
        r.1 == wheel_keys(lines as int),
{
    let n: i64 = if lines < 0 { -(lines as i64) } else { lines as i64 };
    (if lines > 0 { "\u{1b}[A" } else { "\u{1b}[B" }, if n < 5 { n as usize } else { 5 })
}

/// What copying or cutting does to the pane it was done in.
#[derive(Clone, Copy, Debug, PartialEq, Eq, Structural)]
pub enum AfterCopy {
    Nothing,
    /// A terminal forgets its selection once it is copied.
    ClearSelection,
    /// The selected text goes.
    RemoveText,
    /// The selection is the modal editor's, and so is the removal: its
    /// registers see it too.
    ModalDelete,
}

/// What is left to do once the clipboard has, or has not, taken the
/// selection. Text is removed only when there is a copy of it.
pub open spec fn after_copy(terminal: bool, modal: bool, cut: bool, selected: bool, taken: bool) -> AfterCopy {
    if !selected {
        AfterCopy::Nothing
    } else if terminal {
        AfterCopy::ClearSelection
    } else if !cut || !taken {
        AfterCopy::Nothing
    } else if modal {
        AfterCopy::ModalDelete
    } else {
        AfterCopy::RemoveText
    }
}

pub fn copied(terminal: bool, modal: bool, cut: bool, selected: bool, taken: bool) -> (r: AfterCopy)
    ensures
        r == after_copy(terminal, modal, cut, selected, taken),
{
    if !selected {
        AfterCopy::Nothing
    } else if terminal {
        AfterCopy::ClearSelection
    } else if !cut || !taken {
        AfterCopy::Nothing
    } else if modal {
        AfterCopy::ModalDelete
    } else {
        AfterCopy::RemoveText
    }
}

// -------------------------------------------------------------------- laws

/// No carriage return reaches a buffer.
pub proof fn no_return_reaches_a_buffer(s: Seq<char>, i: int)
    requires
        0 <= i < text::swapped(unpaired(s, '\n'), '\r', '\n').len(),
    ensures
        text::swapped(unpaired(s, '\n'), '\r', '\n')[i] != '\r',
{
}

/// A text with no line ends of that kind is pasted as it is.
pub proof fn plain_text_is_pasted_as_it_is(s: Seq<char>, by: char)
    requires
        forall|i: int| 0 <= i < s.len() ==> s[i] != '\r',
    ensures
        unpaired(s, by) == s,
{
    lemma_unpaired_plain(s, by, 0);
    assert(s.skip(0) =~= s);
}

proof fn lemma_unpaired_plain(s: Seq<char>, by: char, i: int)
    requires
        0 <= i <= s.len(),
        forall|k: int| 0 <= k < s.len() ==> s[k] != '\r',
    ensures
        unpaired_from(s, by, i) == s.skip(i),
    decreases s.len() - i,
{
    if i < s.len() {
        lemma_unpaired_plain(s, by, i + 1);
        assert(s.skip(i) =~= seq![s[i]] + s.skip(i + 1));
    } else {
        assert(s.skip(i) =~= Seq::empty());
    }
}

/// A failed cut destroys nothing.
pub proof fn a_failed_cut_removes_nothing(terminal: bool, modal: bool, cut: bool, selected: bool)
    ensures
        after_copy(terminal, modal, cut, selected, false) != AfterCopy::RemoveText,
        after_copy(terminal, modal, cut, selected, false) != AfterCopy::ModalDelete,
{
}

/// A line break of two characters becomes one; what stands before it and
/// behind it stays.
pub proof fn a_pair_becomes_one(a: Seq<char>, b: Seq<char>, by: char)
    requires
        !a.contains('\r'),
    ensures
        unpaired(a + seq!['\r', '\n'] + b, by) == a + seq![by] + unpaired(b, by),
    decreases a.len(),
{
    let s = a + seq!['\r', '\n'] + b;
    if a.len() == 0 {
        assert(s[0] == '\r' && s[1] == '\n');
        lemma_unpaired_shift(seq!['\r', '\n'], b, by, 0);
        assert(s =~= seq!['\r', '\n'] + b);
        assert(a + seq![by] + unpaired(b, by) =~= seq![by] + unpaired(b, by));
    } else {
        let rest = a.skip(1);
        assert(a[0] != '\r') by {
            if a[0] == '\r' {
                assert(a.contains('\r'));
            }
        }
        assert forall|i: int| 0 <= i < rest.len() implies rest[i] != '\r' by {
            if a[i + 1] == '\r' {
                assert(a.contains('\r'));
            }
        }
        a_pair_becomes_one(rest, b, by);
        let tail = rest + seq!['\r', '\n'] + b;
        lemma_unpaired_shift(seq![a[0]], tail, by, 0);
        assert(s =~= seq![a[0]] + tail);
        assert(s[0] == a[0]);
        assert(seq![a[0]] + (rest + seq![by] + unpaired(b, by)) =~= a + seq![by] + unpaired(b, by));
    }
}

proof fn lemma_unpaired_shift(s: Seq<char>, t: Seq<char>, by: char, i: int)
    requires
        0 <= i <= t.len(),
    ensures
        unpaired_from(s + t, by, s.len() + i) == unpaired_from(t, by, i),
    decreases t.len() - i,
{
    let all = s + t;
    let n = s.len() as int;
    if i < t.len() {
        assert(all[n + i] == t[i]);
        if i + 1 < t.len() {
            assert(all[n + i + 1] == t[i + 1]);
        }
        if t[i] == '\r' && i + 1 < t.len() && t[i + 1] == '\n' {
            lemma_unpaired_shift(s, t, by, i + 2);
        } else {
            lemma_unpaired_shift(s, t, by, i + 1);
        }
    }
}

/// What follows a copy: in a shell the selection goes; a cut takes the text
/// once it was taken over, by the modal layer where that is on; and with
/// nothing selected nothing follows.
pub proof fn what_follows_a_copy(modal: bool, cut: bool, taken: bool)
    ensures
        after_copy(true, modal, cut, true, taken) == AfterCopy::ClearSelection,
        after_copy(false, modal, false, true, taken) == AfterCopy::Nothing,
        after_copy(false, false, true, true, true) == AfterCopy::RemoveText,
        after_copy(false, true, true, true, true) == AfterCopy::ModalDelete,
        after_copy(false, modal, cut, false, taken) == AfterCopy::Nothing,
        after_copy(true, modal, cut, false, taken) == AfterCopy::Nothing,
{
}

/// The wheel sends an arrow for each line, and never more than five.
pub proof fn the_wheel_sends_an_arrow_a_line(lines: int)
    ensures
        0 <= lines <= 5 ==> wheel_keys(lines) == lines,
        lines > 5 ==> wheel_keys(lines) == 5,
        wheel_keys(-lines) == wheel_keys(lines),
{
}

} // verus!
