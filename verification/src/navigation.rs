//! Moving around a screen with arrows, Tab and a gamepad: where a press
//! lands, given where the focus is and what the screen holds.
//!
//! Each function here decides; the caller looks at the widgets to answer
//! its questions and then moves the focus where the answer says.

use vstd::prelude::*;
use vstd::arithmetic::div_mod::{lemma_mod_multiples_vanish, lemma_mod_add_multiples_vanish, lemma_fundamental_div_mod, lemma_small_mod, lemma_mod_bound};

verus! {

/// Rows a page jump covers, roughly a screenful at the default size.
pub const PAGE_ROWS: i32 = 8;

/// Where the focus is on a screen built round a list.
#[derive(Clone, Copy, PartialEq, Eq, Debug, Structural)]
pub enum ListFocus {
    /// On one of the buttons above the list.
    Header,
    /// On one of the buttons below it.
    Footer,
    /// In the list, on the row at this index, or on the first row when no
    /// row is selected yet.
    Row(i32),
}

/// Where a move through a list lands.
#[derive(Clone, Copy, PartialEq, Eq, Debug, Structural)]
pub enum Landing {
    /// On the row at this index.
    Row(i32),
    /// On the header: the button the page names as Up's landing, or else the
    /// last usable button above the list.
    Header,
    /// On the first usable button below the list.
    Footer,
    /// Nowhere: the press is spent.
    Stay,
}

/// Where a move of `delta` rows lands, from `focus`, in a list whose last
/// row is `last`.
pub open spec fn list_landing_of(focus: ListFocus, delta: int, last: int) -> Landing {
    match focus {
        ListFocus::Header => if delta > 0 { Landing::Row(0) } else { Landing::Stay },
        ListFocus::Footer => if delta < 0 { Landing::Row(last as i32) } else { Landing::Stay },
        ListFocus::Row(position) => {
            let next = position + delta;
            if next < 0 {
                if position > 0 { Landing::Row(0) } else { Landing::Header }
            } else if next > last && position < last {
                Landing::Row(last as i32)
            } else if next > last {
                Landing::Footer
            } else {
                Landing::Row(next as i32)
            }
        },
    }
}

/// Where a move of `delta` rows lands: the footer sits below the last row
/// and the header above the first, the top is a hard stop rather than
/// wrapping, and a page that runs off either end stops at that end - only a
/// step from the very edge leaves the list.
pub fn list_landing(focus: ListFocus, delta: i32, last: i32) -> (landing: Landing)
    ensures
        landing == list_landing_of(focus, delta as int, last as int),
{
    match focus {
        ListFocus::Header => if delta > 0 { Landing::Row(0) } else { Landing::Stay },
        ListFocus::Footer => if delta < 0 { Landing::Row(last) } else { Landing::Stay },
        ListFocus::Row(position) => {
            let next: i64 = position as i64 + delta as i64;
            if next < 0 {
                if position > 0 { Landing::Row(0) } else { Landing::Header }
            } else if next > last as i64 && position < last {
                Landing::Row(last)
            } else if next > last as i64 {
                Landing::Footer
            } else {
                Landing::Row(next as i32)
            }
        },
    }
}

/// A move never leaves a selection outside the list: from any row of it,
/// whatever the size of the step, it lands on a row between the first and
/// the last, on the header only from the first row going up, and on the
/// footer only from the last row going down. A step that stays inside the
/// list moves by exactly that many rows.
pub proof fn moves_stay_in_the_list(position: i32, delta: i32, last: i32)
    requires
        0 <= position <= last,
    ensures
        ({
            let landing = list_landing_of(ListFocus::Row(position), delta as int, last as int);
            &&& landing matches Landing::Row(row) ==> 0 <= row <= last
            &&& landing is Header ==> position == 0 && delta < 0
            &&& landing is Footer ==> position == last && delta > 0
            &&& landing !is Stay
            &&& 0 <= position + delta <= last ==> landing == Landing::Row((position + delta) as i32)
        }),
{
}

/// Which row of buttons holds the focus on a screen that has no list.
#[derive(Clone, Copy, PartialEq, Eq, Debug, Structural)]
pub enum ButtonRow {
    Header,
    Middle,
    Footer,
    /// None of them.
    Elsewhere,
}

/// Which row of buttons a move by `delta` lands on, on a screen of up to
/// three rows of buttons; `None` leaves the move to the toolkit's own
/// search. A middle row that is empty is stepped over rather than stopped at,
/// and a row with no buttons is nowhere to land.
pub open spec fn button_landing_of(delta: int, focus: ButtonRow, header: bool, middle: bool, footer: bool) -> Option<ButtonRow> {
    if delta > 0 && focus == ButtonRow::Header {
        if middle { Some(ButtonRow::Middle) } else if footer { Some(ButtonRow::Footer) } else { None }
    } else if delta > 0 && focus == ButtonRow::Middle {
        if footer { Some(ButtonRow::Footer) } else { None }
    } else if delta < 0 && focus == ButtonRow::Footer {
        if middle { Some(ButtonRow::Middle) } else if header { Some(ButtonRow::Header) } else { None }
    } else if delta < 0 && focus == ButtonRow::Middle {
        if header { Some(ButtonRow::Header) } else { None }
    } else {
        None
    }
}

/// Which row of buttons a move lands on, its first button taking the focus;
/// `header`, `middle` and `footer` say which rows have any buttons at all.
pub fn button_landing(delta: i32, focus: ButtonRow, header: bool, middle: bool, footer: bool) -> (row: Option<ButtonRow>)
    ensures
        row == button_landing_of(delta as int, focus, header, middle, footer),
{
    if delta > 0 && focus == ButtonRow::Header {
        if middle { Some(ButtonRow::Middle) } else if footer { Some(ButtonRow::Footer) } else { None }
    } else if delta > 0 && focus == ButtonRow::Middle {
        if footer { Some(ButtonRow::Footer) } else { None }
    } else if delta < 0 && focus == ButtonRow::Footer {
        if middle { Some(ButtonRow::Middle) } else if header { Some(ButtonRow::Header) } else { None }
    } else if delta < 0 && focus == ButtonRow::Middle {
        if header { Some(ButtonRow::Header) } else { None }
    } else {
        None
    }
}

/// Where a row of buttons stands on the screen, top to bottom.
pub open spec fn row_place(row: ButtonRow) -> int {
    match row {
        ButtonRow::Header => 0,
        ButtonRow::Middle => 1,
        ButtonRow::Footer => 2,
        ButtonRow::Elsewhere => -1,
    }
}

/// Whether a row has any buttons to land on.
pub open spec fn row_has_buttons(row: ButtonRow, header: bool, middle: bool, footer: bool) -> bool {
    match row {
        ButtonRow::Header => header,
        ButtonRow::Middle => middle,
        ButtonRow::Footer => footer,
        ButtonRow::Elsewhere => false,
    }
}

/// Whether `to` is a row of buttons lying beyond the row `from` in the
/// direction of `delta`: below it for a move down, above it for a move up.
pub open spec fn row_beyond(delta: int, from: ButtonRow, to: ButtonRow) -> bool {
    &&& from != ButtonRow::Elsewhere
    &&& to != ButtonRow::Elsewhere
    &&& (delta > 0 && row_place(to) > row_place(from) || delta < 0 && row_place(to) < row_place(from))
}

/// How far apart two rows are.
pub open spec fn rows_apart(a: ButtonRow, b: ButtonRow) -> int {
    if row_place(a) >= row_place(b) { row_place(a) - row_place(b) } else { row_place(b) - row_place(a) }
}

/// A move between rows of buttons goes one row at a time: it lands on the
/// nearest row in the direction moved that has any buttons - a row between
/// with buttons is never jumped over, only an empty one is stepped over -
/// and it leaves the move to the toolkit exactly when no row in that
/// direction has any.
pub proof fn moves_between_rows_skip_only_empty_rows(delta: int, focus: ButtonRow, header: bool, middle: bool, footer: bool)
    ensures
        button_landing_of(delta, focus, header, middle, footer) matches Some(row) ==> {
            &&& row_has_buttons(row, header, middle, footer)
            &&& row_beyond(delta, focus, row)
            &&& forall|other: ButtonRow| row_has_buttons(other, header, middle, footer) && #[trigger] row_beyond(delta, focus, other)
                ==> rows_apart(focus, row) <= rows_apart(focus, other)
        },
        button_landing_of(delta, focus, header, middle, footer) is None ==>
            forall|other: ButtonRow| !(row_has_buttons(other, header, middle, footer) && #[trigger] row_beyond(delta, focus, other)),
{
    assert forall|other: ButtonRow| #[trigger] row_beyond(delta, focus, other) implies
        other == ButtonRow::Header || other == ButtonRow::Middle || other == ButtonRow::Footer by {}
}

/// The stop Tab moves to among `count` stops, from the stop at `at`, if the
/// focus is in one: `delta` stops on, going round past either end. From
/// nowhere in particular, forwards starts at the first and backwards at the
/// last. `None` when the screen has no stops of its own.
pub open spec fn next_stop_of(at: Option<usize>, delta: int, count: nat) -> Option<usize> {
    if count == 0 {
        None
    } else {
        match at {
            Some(position) => Some(((position + delta) % (count as int)) as usize),
            None => if delta > 0 { Some(0) } else { Some((count - 1) as usize) },
        }
    }
}

proof fn lemma_step_round(position: int, delta: int, count: int, step: int)
    requires
        0 < count,
        0 <= step < count,
        step == delta % count,
    ensures
        (position + step) % count == (position + delta) % count,
{
    lemma_fundamental_div_mod(delta, count);
    lemma_mod_multiples_vanish(delta / count, position + step, count);
    assert(count * (delta / count) + (position + step) == position + delta);
}

/// The stop Tab moves the focus to; see `next_stop_of`.
pub fn next_stop(at: Option<usize>, delta: isize, count: usize) -> (next: Option<usize>)
    requires
        at matches Some(position) ==> position < count,
    ensures
        next == next_stop_of(at, delta as int, count as nat),
        next matches Some(stop) ==> stop < count,
{
    if count == 0 {
        return None;
    }
    match at {
        Some(position) => {
            let n: u128 = count as u128;
            let step: u128 = if delta >= 0 {
                (delta as u128) % n
            } else {
                let back: u128 = ((0i128 - delta as i128) as u128) % n;
                (n - back) % n
            };
            proof {
                if delta < 0 {
                    let m = -(delta as int);
                    let c = count as int;
                    let back = m % c;
                    let q = m / c;
                    lemma_fundamental_div_mod(m, c);
                    lemma_mod_multiples_vanish(-q - 1, c - back, c);
                    assert(c * (-q - 1) + (c - back) == delta as int) by (nonlinear_arith)
                        requires
                            m == c * q + back,
                            m == -(delta as int),
                    ;
                    if back == 0 {
                        lemma_mod_add_multiples_vanish(0, count as int);
                    }
                    assert((count - back) % (count as int) == step);
                }
                lemma_step_round(position as int, delta as int, count as int, step as int);
            }
            let next: u128 = (position as u128 + step) % n;
            Some(next as usize)
        },
        None => if delta > 0 { Some(0) } else { Some(count - 1) },
    }
}

/// Tab goes round: from the last stop forwards is the first, and from the
/// first backwards is the last, and a stop is always one of the screen's.
pub proof fn tab_goes_round(count: nat)
    requires
        0 < count <= usize::MAX,
    ensures
        next_stop_of(Some((count - 1) as usize), 1, count) == Some(0usize),
        next_stop_of(Some(0usize), -1, count) == Some((count - 1) as usize),
        forall|position: usize, delta: int| position < count ==>
            (#[trigger] next_stop_of(Some(position), delta, count)).unwrap() < count,
{
    lemma_mod_add_multiples_vanish(0, count as int);
    lemma_mod_multiples_vanish(-1, (count - 1) as int, count as int);
    assert((count as int) * -1 + (count - 1) == -1);
    lemma_small_mod((count - 1) as nat, count);
    lemma_small_mod(0, count);
    assert forall|position: usize, delta: int| position < count implies
        (#[trigger] next_stop_of(Some(position), delta, count)).unwrap() < count by {
        lemma_mod_bound(position + delta, count as int);
    }
}

/// The list beside the one holding the focus, for Left and Right: only
/// between two lists sitting side by side, and never on the settings screen,
/// whose two lists are stepped between with Enter and Escape. `lists` says
/// which of the screen's stops are lists, and `at` which stop holds the
/// focus.
pub open spec fn neighbour_list_of(at: Option<usize>, delta: int, lists: Seq<bool>, settings: bool) -> Option<usize> {
    if settings {
        None
    } else {
        match at {
            Some(position) => {
                let next = position + delta;
                if position >= lists.len() || !lists[position as int] {
                    None
                } else if next < 0 || next >= lists.len() {
                    None
                } else if !lists[next] {
                    None
                } else {
                    Some(next as usize)
                }
            },
            None => None,
        }
    }
}

/// The list Left or Right moves the focus to, if there is one; see
/// `neighbour_list_of`.
pub fn neighbour_list(at: Option<usize>, delta: isize, lists: &[bool], settings: bool) -> (next: Option<usize>)
    ensures
        next == neighbour_list_of(at, delta as int, lists@, settings),
{
    if settings {
        return None;
    }
    match at {
        Some(position) => {
            if position >= lists.len() || !lists[position] {
                return None;
            }
            let next: i128 = position as i128 + delta as i128;
            if next < 0 || next >= lists.len() as i128 {
                return None;
            }
            let next = next as usize;
            if !lists[next] {
                return None;
            }
            Some(next)
        },
        None => None,
    }
}

} // verus!
