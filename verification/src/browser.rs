//! The file browser's trail of folders and its type-ahead.

use vstd::prelude::*;
use crate::text::chars_of;

verus! {

/// The most folders the trail shows before the rest give way to one button.
pub const SHOWN: usize = 4;

/// One button of the trail of folders above the browser.
#[derive(Clone, Copy, PartialEq, Eq, Debug, Structural)]
pub struct Crumb {
    /// It stands for the folders trimmed from the front, and reads "…".
    pub trimmed: bool,
    /// The folder it opens, by its depth in the path: the top is `0`.
    pub level: usize,
}

/// The buttons of the trail for a path `levels` folders deep: every folder
/// while there are few enough, and otherwise the last few after one button
/// that stands for the rest and opens the folder just above the first shown.
pub open spec fn crumbs_of(levels: nat) -> Seq<Crumb> {
    if levels > SHOWN {
        let hidden = (levels - SHOWN) as nat;
        seq![Crumb { trimmed: true, level: (hidden - 1) as usize }]
            + Seq::new(SHOWN as nat, |i: int| Crumb { trimmed: false, level: (hidden + i) as usize })
    } else {
        Seq::new(levels, |i: int| Crumb { trimmed: false, level: i as usize })
    }
}

/// The buttons of the trail; see `crumbs_of`.
pub fn crumbs(levels: usize) -> (trail: Vec<Crumb>)
    ensures
        trail@ =~= crumbs_of(levels as nat),
{
    let mut trail: Vec<Crumb> = Vec::new();
    let first: usize = if levels > SHOWN {
        let hidden = levels - SHOWN;
        trail.push(Crumb { trimmed: true, level: hidden - 1 });
        hidden
    } else {
        0
    };
    let ghost lead = trail@;
    let mut level: usize = first;
    while level < levels
        invariant
            first <= level <= levels,
            trail@ =~= lead + Seq::new((level - first) as nat, |i: int| Crumb { trimmed: false, level: (first + i) as usize }),
        decreases levels - level,
    {
        trail.push(Crumb { trimmed: false, level });
        level = level + 1;
    }
    trail
}

/// The trail always ends on the folder on display, opens only folders of
/// the path, and never runs longer than the few it shows and the one that
/// stands for the rest - which opens the folder just above the first shown.
pub proof fn trail_ends_where_you_are(levels: nat)
    requires
        0 < levels <= usize::MAX,
    ensures
        crumbs_of(levels).last() == (Crumb { trimmed: false, level: (levels - 1) as usize }),
        crumbs_of(levels).len() <= SHOWN + 1,
        forall|i: int| 0 <= i < crumbs_of(levels).len() ==> (#[trigger] crumbs_of(levels)[i]).level < levels,
        levels > SHOWN ==> crumbs_of(levels)[0].trimmed && crumbs_of(levels)[0].level + 1 == crumbs_of(levels)[1].level,
{
}

/// Whether `label` begins with `typed`.
pub open spec fn begins_with(label: Seq<char>, typed: Seq<char>) -> bool {
    typed.len() <= label.len() && label.take(typed.len() as int) == typed
}

/// The first of the labels that begins with `typed`, looking from `from`
/// onwards and round past the end, among those at least `tried` places on.
pub open spec fn match_from(labels: Seq<Seq<char>>, typed: Seq<char>, from: nat, tried: nat) -> Option<usize>
    decreases labels.len() - tried,
{
    if tried >= labels.len() {
        None
    } else {
        let index = (from + tried) % labels.len();
        if begins_with(labels[index as int], typed) {
            Some(index as usize)
        } else {
            match_from(labels, typed, from, tried + 1)
        }
    }
}

/// The row typing `typed` jumps to: the first name that begins with it, or,
/// when the same letter is typed `again`, the next one after the row
/// `selected`, going round past the end.
pub open spec fn jump_of(labels: Seq<Seq<char>>, typed: Seq<char>, again: bool, selected: Option<usize>) -> Option<usize> {
    let from: nat = if again {
        match selected {
            Some(row) => (row + 1) as nat,
            None => 0,
        }
    } else {
        0
    };
    match_from(labels, typed, from, 0)
}

fn begins(label: &String, typed: &Vec<char>) -> (yes: bool)
    ensures
        yes == begins_with(label@, typed@),
{
    let chars = chars_of(label.as_str());
    if typed.len() > chars.len() {
        return false;
    }
    let mut i: usize = 0;
    while i < typed.len()
        invariant
            typed@.len() <= chars@.len(),
            chars@ == label@,
            i <= typed@.len(),
            forall|k: int| 0 <= k < i ==> chars@[k] == typed@[k],
        decreases typed@.len() - i,
    {
        if chars[i] != typed[i] {
            return false;
        }
        i = i + 1;
    }
    assert(label@.take(typed@.len() as int) =~= typed@);
    true
}

/// The row typing jumps to; see `jump_of`. The labels and what was typed
/// are already in lower case, so a capital finds what its small letter does.
pub fn type_ahead(labels: &[String], typed: &str, again: bool, selected: Option<usize>) -> (row: Option<usize>)
    requires
        selected matches Some(row) ==> row < labels@.len(),
    ensures
        row == jump_of(labels@.map_values(|l: String| l@), typed@, again, selected),
{
    let ghost names = labels@.map_values(|l: String| l@);
    let wanted = chars_of(typed);
    let count = labels.len();
    let from: usize = if again {
        match selected {
            Some(row) => row + 1,
            None => 0,
        }
    } else {
        0
    };
    let mut tried: usize = 0;
    while tried < count
        invariant
            count == labels@.len(),
            names == labels@.map_values(|l: String| l@),
            wanted@ == typed@,
            from <= count,
            tried <= count,
            from as nat == (if again {
                match selected {
                    Some(row) => (row + 1) as nat,
                    None => 0nat,
                }
            } else {
                0nat
            }),
            match_from(names, typed@, from as nat, 0) == match_from(names, typed@, from as nat, tried as nat),
        decreases count - tried,
    {
        let index: usize = if tried < count - from { from + tried } else { tried - (count - from) };
        proof {
            let n = count as int;
            let x = from + tried;
            if x < n {
                vstd::arithmetic::div_mod::lemma_small_mod(x as nat, n as nat);
            } else {
                vstd::arithmetic::div_mod::lemma_mod_add_multiples_vanish(x - n, n);
                vstd::arithmetic::div_mod::lemma_small_mod((x - n) as nat, n as nat);
            }
            assert(index == ((from + tried) as nat) % (count as nat));
        }
        if begins(&labels[index], &wanted) {
            proof {
                assert(names[index as int] == labels@[index as int]@);
                assert(match_from(names, typed@, from as nat, tried as nat) == Some(index));
            }
            return Some(index);
        }
        tried = tried + 1;
    }
    None
}

/// Typing finds what it says: the row it jumps to begins with what was
/// typed, and a first letter lands on the first row that begins with it.
pub proof fn typing_finds_what_it_says(labels: Seq<Seq<char>>, typed: Seq<char>, from: nat, tried: nat)
    requires
        labels.len() <= usize::MAX,
    ensures
        match_from(labels, typed, from, tried) matches Some(row) ==> row < labels.len() && begins_with(labels[row as int], typed),
    decreases labels.len() - tried,
{
    if tried < labels.len() {
        vstd::arithmetic::div_mod::lemma_mod_bound((from + tried) as int, labels.len() as int);
        typing_finds_what_it_says(labels, typed, from, tried + 1);
    }
}


proof fn lemma_wrapped(i: int, t: int, n: int)
    requires
        0 <= i < n,
        0 <= t < n,
    ensures
        (i + 1 + t) % n == if i + 1 + t < n { i + 1 + t } else { i + 1 + t - n },
{
    if i + 1 + t < n {
        vstd::arithmetic::div_mod::lemma_small_mod((i + 1 + t) as nat, n as nat);
    } else {
        vstd::arithmetic::div_mod::lemma_mod_add_multiples_vanish(i + 1 + t - n, n);
        vstd::arithmetic::div_mod::lemma_small_mod((i + 1 + t - n) as nat, n as nat);
    }
}

proof fn lemma_walks_on(labels: Seq<Seq<char>>, typed: Seq<char>, i: nat, tried: nat, target: nat)
    requires
        labels.len() <= usize::MAX,
        i < labels.len(),
        tried <= target,
        target + 1 < labels.len(),
        begins_with(labels[((i + 1 + target) as int) % (labels.len() as int)], typed),
    ensures
        match_from(labels, typed, i + 1, tried) matches Some(row) && row != i,
    decreases target - tried,
{
    let n = labels.len() as int;
    lemma_wrapped(i as int, tried as int, n);
    let index = ((i + 1 + tried) as int) % n;
    if !begins_with(labels[index], typed) {
        if tried == target {
            assert(false);
        }
        lemma_walks_on(labels, typed, i, tried + 1, target);
    }
}

/// The same letter again walks on: with the row `selected` already
/// beginning with it, typing it again lands on another row that does,
/// wherever in the list that row is, rather than answering every press
/// with the same row.
pub proof fn the_same_letter_walks_on(labels: Seq<Seq<char>>, typed: Seq<char>, selected: usize, other: int)
    requires
        labels.len() <= usize::MAX,
        selected < labels.len(),
        0 <= other < labels.len(),
        other != selected,
        begins_with(labels[other], typed),
    ensures
        jump_of(labels, typed, true, Some(selected)) matches Some(row) && row != selected,
{
    let n = labels.len() as int;
    let i = selected as int;
    let target: int = if other > i { other - i - 1 } else { other + n - i - 1 };
    lemma_wrapped(i, target, n);
    assert((i + 1 + target) % n == other);
    lemma_walks_on(labels, typed, selected as nat, 0, target as nat);
}


/// What the browser is looking for.
#[derive(Clone, Copy, PartialEq, Eq, Debug, Structural)]
pub enum Errand {
    /// A video to play.
    Video,
    /// A separate audio file for an output.
    Audio,
    /// A subtitle file.
    Subtitle,
}

/// A row of the browser, as activating it sees it.
#[derive(Clone, Copy, PartialEq, Eq, Debug, Structural)]
pub enum Entry {
    /// The row that goes up a level.
    Up,
    /// A folder.
    Folder,
    /// A file.
    File,
}

/// What activating a row of the browser does.
#[derive(Clone, Copy, PartialEq, Eq, Debug, Structural)]
pub enum RowStep {
    /// Nothing: there is no such row, or no folder above this one.
    Nothing,
    /// Open this folder in the browser.
    OpenFolder,
    /// Go up to the folder above, with the one just left selected.
    GoUp,
    /// Use the file as the subtitle, and go back to the page.
    UseSubtitle,
    /// Use the file as the output's audio, and go back to the page.
    UseAudio,
    /// Open the file as the video to play.
    OpenVideo,
}

/// What activating a row does: a folder opens whatever the errand, a file
/// is taken for what the browser was opened to find, and the row above the
/// list goes up a level where there is one. `has_parent` says whether there
/// is a folder above this one.
pub open spec fn row_step_of(entry: Option<Entry>, errand: Errand, has_parent: bool) -> RowStep {
    match entry {
        None => RowStep::Nothing,
        Some(Entry::Folder) => RowStep::OpenFolder,
        Some(Entry::File) => match errand {
            Errand::Subtitle => RowStep::UseSubtitle,
            Errand::Audio => RowStep::UseAudio,
            Errand::Video => RowStep::OpenVideo,
        },
        Some(Entry::Up) => if has_parent { RowStep::GoUp } else { RowStep::Nothing },
    }
}

/// What activating a row of the browser does; see `row_step_of`.
pub fn row_step(entry: Option<Entry>, errand: Errand, has_parent: bool) -> (step: RowStep)
    ensures
        step == row_step_of(entry, errand, has_parent),
{
    match entry {
        None => RowStep::Nothing,
        Some(Entry::Folder) => RowStep::OpenFolder,
        Some(Entry::File) => match errand {
            Errand::Subtitle => RowStep::UseSubtitle,
            Errand::Audio => RowStep::UseAudio,
            Errand::Video => RowStep::OpenVideo,
        },
        Some(Entry::Up) => if has_parent { RowStep::GoUp } else { RowStep::Nothing },
    }
}

/// The row the browser opens on: the one it was asked to select, which is
/// the folder just left when going up; else the first row that is a file or
/// a folder rather than the way up; else the top. `wanted` says which rows
/// are the one asked for, and `named` which are files or folders.
pub open spec fn opening_of(wanted: Seq<bool>, named: Seq<bool>) -> nat {
    match crate::choices::first_position(wanted, true) {
        Some(row) => row,
        None => match crate::choices::first_position(named, true) {
            Some(row) => row,
            None => 0,
        },
    }
}

fn first_true(flags: &[bool]) -> (row: Option<usize>)
    ensures
        match crate::choices::first_position(flags@, true) {
            Some(p) => row == Some(p as usize) && p < flags@.len() && p == p as usize,
            None => row is None,
        },
{
    proof {
        crate::choices::lemma_first_position(flags@, true);
    }
    let mut i: usize = 0;
    proof {
        assert(flags@.subrange(0, flags@.len() as int) =~= flags@);
    }
    while i < flags.len()
        invariant
            i <= flags@.len(),
            crate::choices::first_position(flags@, true) == match crate::choices::first_position(flags@.subrange(i as int, flags@.len() as int), true) {
                Some(q) => Some((q + i) as nat),
                None => None::<nat>,
            },
        decreases flags@.len() - i,
    {
        proof {
            assert(flags@.subrange(i as int, flags@.len() as int).drop_first()
                =~= flags@.subrange(i + 1, flags@.len() as int));
        }
        if flags[i] {
            return Some(i);
        }
        i = i + 1;
    }
    proof {
        assert(flags@.subrange(i as int, flags@.len() as int) =~= Seq::<bool>::empty());
    }
    None
}

/// The row the browser opens on; see `opening_of`.
pub fn opening(wanted: &[bool], named: &[bool]) -> (row: usize)
    ensures
        row == opening_of(wanted@, named@),
{
    match first_true(wanted) {
        Some(row) => row,
        None => match first_true(named) {
            Some(row) => row,
            None => 0,
        },
    }
}

/// Whether Open can be pressed: only with a row selected that holds
/// something the browser can open.
pub fn open_enabled(openable: &[bool], selected: Option<usize>) -> (enabled: bool)
    ensures
        enabled == match selected {
            Some(row) => row < openable@.len() && openable@[row as int],
            None => false,
        },
{
    match selected {
        Some(row) => row < openable.len() && openable[row],
        None => false,
    }
}

} // verus!
