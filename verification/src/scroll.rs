//! Moving a selection or a view inside a list without leaving it.
use vstd::prelude::*;

verus! {

/// `n` held between 0 and `last`.
pub open spec fn clamped(n: int, last: int) -> int {
    if n < 0 {
        0
    } else if n > last {
        last
    } else {
        n
    }
}

/// The last index of a list, 0 for an empty one.
pub open spec fn last_of(len: nat) -> nat {
    if len == 0 { 0 } else { (len - 1) as nat }
}

/// The highest first row of a view of `visible` rows on `len` rows.
pub open spec fn top_limit(len: nat, visible: nat) -> nat {
    let shown = if visible == 0 { 1 } else { visible };
    if len <= shown { 0 } else { (len - shown) as nat }
}

/// `pos` moved by `delta`, held between 0 and `last`.
pub fn stepped(pos: usize, delta: i32, last: usize) -> (r: usize)
    ensures
        r == clamped(pos + delta, last as int),
        r <= last,
{
    let moved: i128 = pos as i128 + delta as i128;
    if moved < 0 {
        0
    } else if moved > last as i128 {
        last
    } else {
        moved as usize
    }
}

/// `pos` moved up by `delta` rows, held between 0 and `last`.
pub fn stepped_up(pos: usize, delta: i32, last: usize) -> (r: usize)
    ensures
        r == clamped(pos - delta, last as int),
        r <= last,
{
    let moved: i128 = pos as i128 - delta as i128;
    if moved < 0 {
        0
    } else if moved > last as i128 {
        last
    } else {
        moved as usize
    }
}

pub fn last_index(len: usize) -> (r: usize)
    ensures
        r == last_of(len as nat),
{
    if len == 0 { 0 } else { len - 1 }
}

pub fn max_top(len: usize, visible: usize) -> (r: usize)
    ensures
        r == top_limit(len as nat, visible as nat),
{
    let shown: usize = if visible == 0 { 1 } else { visible };
    if len <= shown { 0 } else { len - shown }
}

/// The first row of a view of `visible` rows, moved no further than it takes
/// for `selected` to be in it.
pub open spec fn follow_top(top: int, selected: int, visible: int) -> int {
    let shown = if visible < 1 { 1 } else { visible };
    if selected < top {
        selected
    } else if selected >= top + shown {
        selected - shown + 1
    } else {
        top
    }
}

pub fn follow(top: usize, selected: usize, visible: usize) -> (r: usize)
    ensures
        r == follow_top(top as int, selected as int, visible as int),
{
    let shown: usize = if visible < 1 { 1 } else { visible };
    if selected < top {
        selected
    } else if selected - top >= shown {
        selected - shown + 1
    } else {
        top
    }
}

/// Following keeps the selection on screen, and moves nothing when it
/// already was.
pub proof fn following_shows_the_selection(top: int, selected: int, visible: int)
    requires
        0 <= top,
        0 <= selected,
    ensures
        0 <= follow_top(top, selected, visible) <= selected,
        selected < follow_top(top, selected, visible) + (if visible < 1 { 1 } else { visible }),
        top <= selected < top + visible ==> follow_top(top, selected, visible) == top,
{
}

/// A step inside the list goes exactly that far; one past either end stops at
/// that end. So a step back takes back what a step did wherever it moved all
/// the way, and more steps never lead back.
pub proof fn a_step_goes_as_far_as_it_says(pos: int, delta: int, last: int)
    requires
        0 <= pos <= last,
    ensures
        0 <= clamped(pos + delta, last) <= last,
        0 <= pos + delta <= last ==> clamped(pos + delta, last) == pos + delta,
        pos + delta < 0 ==> clamped(pos + delta, last) == 0,
        pos + delta > last ==> clamped(pos + delta, last) == last,
        0 <= pos + delta <= last ==> clamped(clamped(pos + delta, last) - delta, last) == pos,
{
}

/// A view at its highest first row shows the last row, at its bottom when there
/// are more rows than fit; a list that fits does not scroll.
pub proof fn the_last_row_can_be_seen(len: nat, visible: nat)
    requires
        visible > 0,
    ensures
        top_limit(len, visible) + visible >= len,
        len > visible ==> top_limit(len, visible) + visible == len,
        len <= visible ==> top_limit(len, visible) == 0,
{
}

} // verus!
