//! How a level, a delay, a size and a version read beside the controls that set them.

use vstd::prelude::*;
use crate::text::{decimal, digit, push_decimal, push_str, string_of, chars_of};

verus! {

/// How far either output may be shifted, in milliseconds, in each direction.
pub const MAX_OFFSET_MS: i64 = 1000;

/// Space kept for the reading beside a bar, in characters. Shared by the
/// settings sliders and the volume panel, so a row of one lines up with a row
/// of the other - and sized to the longest of them, "-1000ms".
pub const READING_CHARS: i32 = 7;

/// The reading for a shift of `ms` milliseconds, already rounded to the
/// millisecond: signed when there is a shift, and a plain zero when there is
/// none.
pub open spec fn offset_reading(ms: int) -> Seq<char> {
    if ms == 0 {
        "0ms"@
    } else if ms > 0 {
        seq!['+'] + decimal(ms as nat) + "ms"@
    } else {
        seq!['-'] + decimal((-ms) as nat) + "ms"@
    }
}

/// How far an output is shifted, wherever that is shown.
///
/// Signed and short: it is watched while it moves against a picture, where
/// what matters is seeing it change. Unshifted is "0ms" and never a signed
/// zero, which would claim a shift that is not there.
pub fn offset_label(ms: i64) -> (label: String)
    ensures
        label@ == offset_reading(ms as int),
{
    let mut out: Vec<char> = Vec::new();
    if ms == 0 {
        push_str(&mut out, "0ms");
    } else {
        let magnitude: u64 = if ms > 0 {
            out.push('+');
            ms as u64
        } else {
            out.push('-');
            (-(ms as i128)) as u64
        };
        push_decimal(&mut out, magnitude);
        push_str(&mut out, "ms");
    }
    string_of(out)
}

/// The reading for an output's level, given in whole per cent.
pub open spec fn volume_reading(percent: nat, muted: bool) -> Seq<char> {
    if muted {
        "Muted"@
    } else {
        decimal(percent) + "%"@
    }
}

/// How an output's level reads: what it is set to, or that it is silenced
/// whatever it is set to.
///
/// A silenced output says so rather than showing the level it will come back
/// to, which would read as though it were playing.
pub fn volume_label(percent: u64, muted: bool) -> (label: String)
    ensures
        label@ == volume_reading(percent as nat, muted),
{
    let mut out: Vec<char> = Vec::new();
    if muted {
        push_str(&mut out, "Muted");
    } else {
        push_decimal(&mut out, percent);
        push_str(&mut out, "%");
    }
    string_of(out)
}

/// The reading for an interface size given in hundredths: the multiplier to
/// two places, without trailing noughts, and an "x".
pub open spec fn scale_reading(hundredths: nat) -> Seq<char> {
    let whole = hundredths / 100;
    let part = hundredths % 100;
    if part == 0 {
        decimal(whole) + "x"@
    } else if part % 10 == 0 {
        decimal(whole) + seq!['.', digit(part / 10)] + "x"@
    } else {
        decimal(whole) + seq!['.', digit(part / 10), digit(part % 10)] + "x"@
    }
}

/// How a size reads beside its bar: "1.5x", "2x", "0.33x".
pub fn scale_label(hundredths: u64) -> (label: String)
    ensures
        label@ == scale_reading(hundredths as nat),
{
    let whole = hundredths / 100;
    let part = hundredths % 100;
    let mut out: Vec<char> = Vec::new();
    push_decimal(&mut out, whole);
    if part != 0 {
        out.push('.');
        out.push(crate::text::digit_char(part / 10));
        if part % 10 != 0 {
            out.push(crate::text::digit_char(part % 10));
        }
    }
    push_str(&mut out, "x");
    string_of(out)
}


/// How many digits a number below ten thousand takes.
pub proof fn lemma_decimal_len(n: nat)
    ensures
        decimal(n).len() >= 1,
        n < 10 ==> decimal(n).len() == 1,
        n < 100 ==> decimal(n).len() <= 2,
        n < 1000 ==> decimal(n).len() <= 3,
        n < 10000 ==> decimal(n).len() <= 4,
    decreases n,
{
    if n >= 10 {
        lemma_decimal_len(n / 10);
    }
}

/// Every reading fits the space kept for it: any shift the slider can reach,
/// and any level from silent to full, whether muted or not.
pub proof fn readings_fit_their_space(ms: int, percent: nat, muted: bool)
    requires
        -MAX_OFFSET_MS <= ms <= MAX_OFFSET_MS,
        percent <= 100,
    ensures
        offset_reading(ms).len() <= READING_CHARS,
        volume_reading(percent, muted).len() <= READING_CHARS,
{
    reveal_strlit("0ms");
    reveal_strlit("ms");
    reveal_strlit("Muted");
    reveal_strlit("%");
    lemma_decimal_len(percent);
    if ms > 0 {
        lemma_decimal_len(ms as nat);
    } else if ms < 0 {
        lemma_decimal_len((-ms) as nat);
    }
}

/// A version as the release names it, without the "v" it may be written
/// with: every leading "v" or "V" is dropped.
pub open spec fn without_leading_v(s: Seq<char>) -> Seq<char>
    decreases s.len(),
{
    if s.len() > 0 && (s[0] == 'v' || s[0] == 'V') {
        without_leading_v(s.drop_first())
    } else {
        s
    }
}

/// What the version check has to say on its row.
pub open spec fn version_reading(checking: bool, newer: Option<Seq<char>>) -> Seq<char> {
    if !checking {
        Seq::empty()
    } else {
        match newer {
            Some(version) => "Update available: v"@ + without_leading_v(version),
            None => "Up to date"@,
        }
    }
}

/// What the update check made of it, or nothing while checking is off.
///
/// "Up to date" rather than "Latest", which beside an arrow read as an
/// instruction to go and get the latest rather than as a statement that this
/// is it. A release tagged "v1.4" or "1.4" reads the same.
pub fn version_status(checking: bool, newer: Option<&str>) -> (status: String)
    ensures
        status@ == version_reading(checking, match newer { Some(v) => Some(v@), None => None }),
{
    let mut out: Vec<char> = Vec::new();
    if checking {
        match newer {
            Some(version) => {
                push_str(&mut out, "Update available: v");
                let chars = chars_of(version);
                let mut start: usize = 0;
                assert(chars@.skip(0) =~= chars@);
                while start < chars.len() && (chars[start] == 'v' || chars[start] == 'V')
                    invariant
                        start <= chars.len(),
                        without_leading_v(chars@) == without_leading_v(chars@.skip(start as int)),
                    decreases chars.len() - start,
                {
                    assert(chars@.skip(start as int).drop_first() =~= chars@.skip(start + 1));
                    start = start + 1;
                }
                let mut i = start;
                let ghost before = out@;
                while i < chars.len()
                    invariant
                        start <= i <= chars.len(),
                        out@ == before + chars@.subrange(start as int, i as int),
                    decreases chars.len() - i,
                {
                    out.push(chars[i]);
                    assert(chars@.subrange(start as int, i + 1) =~= chars@.subrange(start as int, i as int).push(chars@[i as int]));
                    i = i + 1;
                }
                assert(chars@.subrange(start as int, chars.len() as int) =~= chars@.skip(start as int));
                assert(without_leading_v(chars@.skip(start as int)) == chars@.skip(start as int));
            }
            None => push_str(&mut out, "Up to date"),
        }
    }
    string_of(out)
}

/// A number written with at least two digits: "03", "12", "104".
pub open spec fn two_digits(n: nat) -> Seq<char> {
    if n < 10 { seq!['0'] + decimal(n) } else { decimal(n) }
}

fn push_two_digits(out: &mut Vec<char>, n: u32)
    ensures
        final(out)@ == old(out)@ + two_digits(n as nat),
{
    if n < 10 {
        out.push('0');
    }
    let ghost mid = out@;
    push_decimal(out, n as u64);
    assert(n < 10 ==> mid == old(out)@ + seq!['0']);
}

/// Which episode this is, the way every library writes it: "S02E05".
pub fn episode_code(season: u32, episode: u32) -> (code: String)
    ensures
        code@ == seq!['S'] + two_digits(season as nat) + seq!['E'] + two_digits(episode as nat),
{
    let mut out: Vec<char> = Vec::new();
    out.push('S');
    push_two_digits(&mut out, season);
    out.push('E');
    push_two_digits(&mut out, episode);
    string_of(out)
}

/// Which run of the programme this is.
pub open spec fn season_reading(season_name: Seq<char>, episode: Option<(u32, u32)>) -> Seq<char> {
    if season_name.len() > 0 {
        season_name
    } else {
        match episode {
            Some((season, _)) => "Season "@ + decimal(season as nat),
            None => Seq::empty(),
        }
    }
}

/// Which run of the programme this is: "Season 2".
///
/// The library's own wording wins where it gave one, because a number cannot
/// say everything a name can - season zero is "Specials", and reading it back
/// as "Season 0" would be wrong in the one case anybody would notice. Empty
/// for a film, and for an episode whose source said neither.
pub fn season_label(season_name: &str, episode: Option<(u32, u32)>) -> (label: String)
    ensures
        label@ == season_reading(season_name@, episode),
{
    let name = chars_of(season_name);
    if name.len() > 0 {
        return string_of(name);
    }
    let mut out: Vec<char> = Vec::new();
    if let Some((season, _)) = episode {
        push_str(&mut out, "Season ");
        push_decimal(&mut out, season as u64);
    }
    string_of(out)
}

} // verus!
