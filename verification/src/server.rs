//! The address of a Jellyfin server, as somebody types it.

use vstd::prelude::*;
use crate::text::{chars_of, string_of, push_str};

verus! {

/// Whether a character has Unicode's `White_Space` property, which is what
/// `char::is_whitespace` and so `str::trim` go by.
pub open spec fn is_white_space(c: char) -> bool {
    let n = c as u32;
    (0x9 <= n <= 0xd) || n == 0x20 || n == 0x85 || n == 0xa0 || n == 0x1680
        || (0x2000 <= n <= 0x200a) || n == 0x2028 || n == 0x2029 || n == 0x202f
        || n == 0x205f || n == 0x3000
}

/// The text without the white space at its start.
pub open spec fn without_leading_space(text: Seq<char>) -> Seq<char>
    decreases text.len(),
{
    if text.len() > 0 && is_white_space(text[0]) {
        without_leading_space(text.drop_first())
    } else {
        text
    }
}

/// The text without the white space at its end.
pub open spec fn without_trailing_space(text: Seq<char>) -> Seq<char>
    decreases text.len(),
{
    if text.len() > 0 && is_white_space(text.last()) {
        without_trailing_space(text.drop_last())
    } else {
        text
    }
}

/// What `str::trim` leaves of a text: the text without the white space
/// before and after it.
pub open spec fn trimmed(text: Seq<char>) -> Seq<char> {
    without_trailing_space(without_leading_space(text))
}

fn is_space(c: char) -> (yes: bool)
    ensures
        yes == is_white_space(c),
{
    let n = c as u32;
    (0x9 <= n && n <= 0xd) || n == 0x20 || n == 0x85 || n == 0xa0 || n == 0x1680
        || (0x2000 <= n && n <= 0x200a) || n == 0x2028 || n == 0x2029 || n == 0x202f
        || n == 0x205f || n == 0x3000
}

/// White space skipped at the start of a text leaves what skipping it all
/// leaves.
proof fn lemma_skip_leading(text: Seq<char>, k: int)
    requires
        0 <= k <= text.len(),
        forall|i: int| 0 <= i < k ==> is_white_space(#[trigger] text[i]),
    ensures
        without_leading_space(text) == without_leading_space(text.subrange(k, text.len() as int)),
    decreases k,
{
    if k > 0 {
        let rest = text.drop_first();
        assert forall|i: int| 0 <= i < k - 1 implies is_white_space(#[trigger] rest[i]) by {
            assert(rest[i] == text[i + 1]);
        }
        lemma_skip_leading(rest, k - 1);
        assert(rest.subrange(k - 1, rest.len() as int) =~= text.subrange(k, text.len() as int));
    } else {
        assert(text.subrange(0, text.len() as int) =~= text);
    }
}

/// White space skipped at the end of a text leaves what skipping it all
/// leaves.
proof fn lemma_skip_trailing(text: Seq<char>, k: int)
    requires
        0 <= k <= text.len(),
        forall|i: int| k <= i < text.len() ==> is_white_space(#[trigger] text[i]),
    ensures
        without_trailing_space(text) == without_trailing_space(text.subrange(0, k)),
    decreases text.len() - k,
{
    if k < text.len() {
        let rest = text.drop_last();
        assert(is_white_space(text[text.len() - 1]));
        assert forall|i: int| k <= i < rest.len() implies is_white_space(#[trigger] rest[i]) by {
            assert(rest[i] == text[i]);
        }
        lemma_skip_trailing(rest, k);
        assert(rest.subrange(0, k) =~= text.subrange(0, k));
    } else {
        assert(text.subrange(0, k) =~= text);
    }
}

/// The text without the white space before and after it; see `trimmed`.
pub fn trim_text(text: &str) -> (out: String)
    ensures
        out@ == trimmed(text@),
{
    let chars = chars_of(text);
    let n = chars.len();
    let mut start: usize = 0;
    while start < n && is_space(chars[start])
        invariant
            n == chars@.len(),
            start <= n,
            forall|i: int| 0 <= i < start ==> is_white_space(#[trigger] chars@[i]),
        decreases n - start,
    {
        start = start + 1;
    }
    let mut end: usize = n;
    while end > start && is_space(chars[end - 1])
        invariant
            n == chars@.len(),
            start <= end <= n,
            forall|i: int| end <= i < n ==> is_white_space(#[trigger] chars@[i]),
        decreases end - start,
    {
        end = end - 1;
    }
    let mut kept: Vec<char> = Vec::new();
    let mut i: usize = start;
    while i < end
        invariant
            n == chars@.len(),
            start <= i <= end,
            end <= n,
            kept@ == chars@.subrange(start as int, i as int),
        decreases end - i,
    {
        kept.push(chars[i]);
        proof {
            assert(chars@.subrange(start as int, i + 1) =~= chars@.subrange(start as int, i as int).push(chars@[i as int]));
        }
        i = i + 1;
    }
    proof {
        let whole = chars@;
        let rest = whole.subrange(start as int, n as int);
        lemma_skip_leading(whole, start as int);
        if start < n {
            assert(!is_white_space(rest[0]));
        } else {
            assert(rest.len() == 0);
        }
        assert(without_leading_space(whole) == rest);
        assert forall|i: int| end - start <= i < rest.len() implies is_white_space(#[trigger] rest[i]) by {
            assert(rest[i] == whole[start + i]);
        }
        lemma_skip_trailing(rest, end - start);
        let kept_view = rest.subrange(0, end - start);
        assert(kept_view =~= whole.subrange(start as int, end as int));
        if end > start {
            assert(kept_view.last() == whole[end - 1]);
            assert(!is_white_space(kept_view.last()));
        } else {
            assert(kept_view.len() == 0);
        }
        assert(without_trailing_space(kept_view) == kept_view);
    }
    string_of(kept)
}

/// Whether the text holds "://", which is what says it names its scheme.
pub open spec fn has_scheme(text: Seq<char>) -> bool {
    exists|at: int| 0 <= at && at + 3 <= text.len() && #[trigger] text.subrange(at, at + 3) == "://"@
}

/// The address a server is reached at, from what was typed with the
/// whitespace around it gone: as typed when it names a scheme, and over
/// plain HTTP when it does not, that being what a server on a home network
/// answers to.
pub open spec fn address_of(text: Seq<char>) -> Seq<char> {
    if has_scheme(text) { text } else { "http://"@ + text }
}

fn names_scheme(chars: &Vec<char>) -> (yes: bool)
    ensures
        yes == has_scheme(chars@),
{
    proof {
        reveal_strlit("://");
    }
    let mut at: usize = 0;
    assert("://"@ =~= seq![':', '/', '/']);
    while at < chars.len() && chars.len() - at >= 3
        invariant
            at <= chars@.len(),
            "://"@ == seq![':', '/', '/'],
            forall|k: int| 0 <= k < at ==> #[trigger] chars@.subrange(k, k + 3) != "://"@,
        decreases chars@.len() - at,
    {
        if chars[at] == ':' && chars[at + 1] == '/' && chars[at + 2] == '/' {
            assert(chars@.subrange(at as int, at + 3) =~= "://"@);
            return true;
        }
        assert(chars@.subrange(at as int, at + 3) != "://"@) by {
            if chars@.subrange(at as int, at + 3) =~= "://"@ {
                assert(chars@.subrange(at as int, at + 3)[0] == ':');
                assert(chars@.subrange(at as int, at + 3)[1] == '/');
                assert(chars@.subrange(at as int, at + 3)[2] == '/');
            }
        }
        at = at + 1;
    }
    false
}

/// The address for text that has no whitespace around it; see `address_of`.
pub fn address_for(text: &str) -> (address: String)
    ensures
        address@ == address_of(text@),
{
    let chars = chars_of(text);
    if names_scheme(&chars) {
        return text.to_string();
    }
    let mut address: Vec<char> = Vec::new();
    push_str(&mut address, "http://");
    push_str(&mut address, text);
    string_of(address)
}

/// The address a server is reached at, from what was typed.
pub fn server_address(typed: &str) -> (address: String)
    ensures
        address@ == address_of(trimmed(typed@)),
{
    let text = trim_text(typed);
    address_for(text.as_str())
}


/// How many times the server is asked whether a Quick Connect code has been
/// approved, two seconds apart: five minutes in all.
pub const TRIES: usize = 150;

/// What the server said when asked about a code.
#[derive(Clone, Copy, PartialEq, Eq, Debug, Structural)]
pub enum Answer {
    /// Approved: the account comes with it.
    Approved,
    /// Not yet.
    Waiting,
    /// The request failed.
    Failed,
}

/// What waiting on a Quick Connect code does next.
#[derive(Clone, Copy, PartialEq, Eq, Debug, Structural)]
pub enum Wait {
    /// Nobody is looking any more: stop without a word.
    Abandon,
    /// Ask the server, having asked it this many times already.
    Ask(usize),
    /// Paired.
    Paired,
    /// Say what went wrong.
    Fail,
    /// Say that the code was not approved in time.
    TooLate,
}

/// What waiting on a code does after `asked` questions, the last answered
/// with `answer` (none before the first): `alive` says whether the screen
/// waiting on it is still the one on display.
pub open spec fn wait_step_of(asked: nat, answer: Option<Answer>, alive: bool) -> Wait {
    match answer {
        Some(Answer::Approved) => Wait::Paired,
        Some(Answer::Failed) => Wait::Fail,
        _ => if asked >= TRIES {
            Wait::TooLate
        } else if !alive {
            Wait::Abandon
        } else {
            Wait::Ask(asked as usize)
        },
    }
}

/// What waiting on a Quick Connect code does next; see `wait_step_of`.
pub fn wait_step(asked: usize, answer: Option<Answer>, alive: bool) -> (step: Wait)
    ensures
        step == wait_step_of(asked as nat, answer, alive),
{
    match answer {
        Some(Answer::Approved) => Wait::Paired,
        Some(Answer::Failed) => Wait::Fail,
        _ => if asked >= TRIES {
            Wait::TooLate
        } else if !alive {
            Wait::Abandon
        } else {
            Wait::Ask(asked)
        },
    }
}

/// The server is asked at most `TRIES` times about one code, a screen that
/// has gone stops the asking, and only an approval pairs.
pub proof fn asking_is_bounded(asked: nat, answer: Option<Answer>, alive: bool)
    ensures
        wait_step_of(asked, answer, alive) matches Wait::Ask(n) ==> n < TRIES && alive,
        wait_step_of(asked, answer, alive) == Wait::Paired <==> answer == Some(Answer::Approved),
{
}

} // verus!
