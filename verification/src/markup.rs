//! Text put into Pango markup, and the language lines on a video's page.
//!
//! Track titles and languages come from files and can hold anything, and a
//! single stray `&` makes markup invalid - at which point the toolkit draws
//! nothing at all for the whole line. So every piece of text that is not
//! markup itself is escaped on its way in, as GLib's `g_markup_escape_text`
//! escapes it: the five characters markup reads by their references, and
//! the control characters markup cannot hold by their code in hexadecimal.

use vstd::prelude::*;
use crate::text::{chars_of, string_of, decimal, push_decimal, push_str};

verus! {

/// The most languages a line on the page names before counting the rest.
pub const MOST_LANGUAGES: usize = 6;

/// The hexadecimal digit for `d`, which is below sixteen, in lower case.
pub open spec fn hex_digit(d: nat) -> char {
    if d < 10 {
        crate::text::digit(d)
    } else if d == 10 { 'a' }
    else if d == 11 { 'b' }
    else if d == 12 { 'c' }
    else if d == 13 { 'd' }
    else if d == 14 { 'e' }
    else { 'f' }
}

/// `n` in lower-case hexadecimal, with no leading zeros.
pub open spec fn hex(n: nat) -> Seq<char>
    decreases n,
{
    if n < 16 {
        seq![hex_digit(n)]
    } else {
        hex(n / 16).push(hex_digit(n % 16))
    }
}

/// Whether a character is a control character that markup cannot hold as
/// itself, and so is written as a character reference.
pub open spec fn is_restricted(c: char) -> bool {
    let n = c as u32;
    (0x1 <= n <= 0x8) || (0xb <= n <= 0xc) || (0xe <= n <= 0x1f) || (0x7f <= n <= 0x84) || (0x86 <= n <= 0x9f)
}

/// What one character becomes in markup.
pub open spec fn escaped_char(c: char) -> Seq<char> {
    if c == '&' {
        "&amp;"@
    } else if c == '<' {
        "&lt;"@
    } else if c == '>' {
        "&gt;"@
    } else if c == '\'' {
        "&#39;"@
    } else if c == '"' {
        "&quot;"@
    } else if is_restricted(c) {
        seq!['&', '#', 'x'] + hex(c as u32 as nat) + seq![';']
    } else {
        seq![c]
    }
}

/// Text as markup shows it, character by character.
pub open spec fn escaped(text: Seq<char>) -> Seq<char>
    decreases text.len(),
{
    if text.len() == 0 {
        Seq::empty()
    } else {
        escaped(text.drop_last()) + escaped_char(text.last())
    }
}

fn hex_digit_char(d: u32) -> (c: char)
    requires
        d < 16,
    ensures
        c == hex_digit(d as nat),
{
    if d < 10 {
        crate::text::digit_char(d as u64)
    } else if d == 10 { 'a' }
    else if d == 11 { 'b' }
    else if d == 12 { 'c' }
    else if d == 13 { 'd' }
    else if d == 14 { 'e' }
    else { 'f' }
}

fn push_hex(out: &mut Vec<char>, n: u32)
    ensures
        final(out)@ == old(out)@ + hex(n as nat),
    decreases n,
{
    if n >= 16 {
        push_hex(out, n / 16);
    }
    out.push(hex_digit_char(n % 16));
    assert(n >= 16 ==> hex(n as nat) == hex((n / 16) as nat).push(hex_digit((n % 16) as nat)));
}

fn push_escaped_char(out: &mut Vec<char>, c: char)
    ensures
        final(out)@ == old(out)@ + escaped_char(c),
{
    if c == '&' {
        push_str(out, "&amp;");
    } else if c == '<' {
        push_str(out, "&lt;");
    } else if c == '>' {
        push_str(out, "&gt;");
    } else if c == '\'' {
        push_str(out, "&#39;");
    } else if c == '"' {
        push_str(out, "&quot;");
    } else {
        let n = c as u32;
        if (0x1 <= n && n <= 0x8) || (0xb <= n && n <= 0xc) || (0xe <= n && n <= 0x1f)
            || (0x7f <= n && n <= 0x84) || (0x86 <= n && n <= 0x9f) {
            out.push('&');
            out.push('#');
            out.push('x');
            push_hex(out, n);
            out.push(';');
            assert(final(out)@ =~= old(out)@ + escaped_char(c));
        } else {
            out.push(c);
        }
    }
}

/// Writes `text`, escaped for markup, onto the end of `out`.
pub fn push_escaped(out: &mut Vec<char>, text: &Vec<char>)
    ensures
        final(out)@ == old(out)@ + escaped(text@),
{
    let ghost start = out@;
    let mut i: usize = 0;
    while i < text.len()
        invariant
            i <= text@.len(),
            out@ == start + escaped(text@.take(i as int)),
        decreases text@.len() - i,
    {
        push_escaped_char(out, text[i]);
        proof {
            assert(text@.take(i + 1).drop_last() =~= text@.take(i as int));
            assert(text@.take(i + 1).last() == text@[i as int]);
        }
        i = i + 1;
    }
    proof {
        assert(text@.take(text@.len() as int) =~= text@);
    }
}

/// `text` with everything markup would read as markup escaped, so that
/// it shows as the characters it is.
pub fn escape_markup(text: &str) -> (out: String)
    ensures
        out@ == escaped(text@),
{
    let chars = chars_of(text);
    let mut out: Vec<char> = Vec::new();
    push_escaped(&mut out, &chars);
    string_of(out)
}

/// Names joined with a comma and a space between each two.
pub open spec fn joined(names: Seq<Seq<char>>) -> Seq<char>
    decreases names.len(),
{
    if names.len() == 0 {
        Seq::empty()
    } else if names.len() == 1 {
        names[0]
    } else {
        joined(names.drop_last()) + ", "@ + names.last()
    }
}

/// What a language line shows of its languages: the first few of them, or
/// "None" when the file has no such track at all.
pub open spec fn shown_languages(languages: Seq<Seq<char>>) -> Seq<char> {
    if languages.len() == 0 {
        "None"@
    } else {
        joined(languages.take(if languages.len() < MOST_LANGUAGES { languages.len() as int } else { MOST_LANGUAGES as int }))
    }
}

/// How many languages a line leaves out.
pub open spec fn left_out(languages: Seq<Seq<char>>) -> nat {
    if languages.len() > MOST_LANGUAGES { (languages.len() - MOST_LANGUAGES) as nat } else { 0 }
}

/// The line in markup: its name dimmed, the languages shown, and a dimmed
/// count of the ones left out where any are.
pub open spec fn summary_line(name: Seq<char>, languages: Seq<Seq<char>>) -> Seq<char> {
    let more = if left_out(languages) == 0 {
        Seq::empty()
    } else {
        ", <span alpha='60%'>"@ + escaped("+"@ + decimal(left_out(languages)) + " more"@) + "</span>"@
    };
    "<span alpha='60%'>"@ + escaped(name) + ":</span> "@ + escaped(shown_languages(languages)) + more
}

/// A line on a video's page naming the languages of its audio or subtitle
/// tracks, in markup: at most six of them, and how many more there are.
pub fn summary_markup(name: &str, languages: &[String]) -> (line: String)
    ensures
        line@ == summary_line(name@, languages@.map_values(|l: String| l@)),
{
    let ghost names = languages@.map_values(|l: String| l@);
    let count = languages.len();
    let mut shown: Vec<char> = Vec::new();
    if count == 0 {
        push_str(&mut shown, "None");
    } else {
        let limit = if count < MOST_LANGUAGES { count } else { MOST_LANGUAGES };
        let mut i: usize = 0;
        while i < limit
            invariant
                i <= limit,
                limit <= count,
                count == languages@.len(),
                count > 0,
                names == languages@.map_values(|l: String| l@),
                shown@ == joined(names.take(i as int)),
            decreases limit - i,
        {
            if i > 0 {
                push_str(&mut shown, ", ");
            }
            push_str(&mut shown, languages[i].as_str());
            proof {
                assert(names.take(i + 1).drop_last() =~= names.take(i as int));
                assert(names.take(i + 1).last() == languages@[i as int]@);
                if i == 0 {
                    assert(names.take(1)[0] == languages@[0]@);
                }
            }
            i = i + 1;
        }
    }
    let mut line: Vec<char> = Vec::new();
    push_str(&mut line, "<span alpha='60%'>");
    let name_chars = chars_of(name);
    push_escaped(&mut line, &name_chars);
    push_str(&mut line, ":</span> ");
    push_escaped(&mut line, &shown);
    if count > MOST_LANGUAGES {
        let mut counted: Vec<char> = Vec::new();
        push_str(&mut counted, "+");
        push_decimal(&mut counted, (count - MOST_LANGUAGES) as u64);
        push_str(&mut counted, " more");
        push_str(&mut line, ", <span alpha='60%'>");
        push_escaped(&mut line, &counted);
        push_str(&mut line, "</span>");
    }
    proof {
        assert(line@ =~= summary_line(name@, names));
    }
    string_of(line)
}


proof fn lemma_hex_is_digits(n: nat)
    ensures
        forall|i: int| 0 <= i < hex(n).len() ==> {
            let c = #[trigger] hex(n)[i];
            ('0' <= c <= '9') || ('a' <= c <= 'f')
        },
    decreases n,
{
    if n >= 16 {
        lemma_hex_is_digits(n / 16);
        assert forall|i: int| 0 <= i < hex(n).len() implies {
            let c = #[trigger] hex(n)[i];
            ('0' <= c <= '9') || ('a' <= c <= 'f')
        } by {
            if i < hex(n / 16).len() {
                assert(hex(n)[i] == hex(n / 16)[i]);
            }
        }
    }
}

/// Escaped text cannot break the markup it is put into: it holds no angle
/// bracket and no quote of either kind, so whatever a file calls its tracks
/// can open or close no tag and end no attribute.
pub proof fn escaped_text_holds_no_markup(text: Seq<char>)
    ensures
        forall|i: int| 0 <= i < escaped(text).len() ==> {
            let c = #[trigger] escaped(text)[i];
            c != '<' && c != '>' && c != '"' && c != '\''
        },
    decreases text.len(),
{
    reveal_strlit("&amp;");
    reveal_strlit("&lt;");
    reveal_strlit("&gt;");
    reveal_strlit("&#39;");
    reveal_strlit("&quot;");
    if text.len() > 0 {
        let rest = text.drop_last();
        let last = text.last();
        escaped_text_holds_no_markup(rest);
        if is_restricted(last) {
            lemma_hex_is_digits(last as u32 as nat);
        }
        assert forall|i: int| 0 <= i < escaped(text).len() implies {
            let c = #[trigger] escaped(text)[i];
            c != '<' && c != '>' && c != '"' && c != '\''
        } by {
            if i < escaped(rest).len() {
                assert(escaped(text)[i] == escaped(rest)[i]);
            } else {
                let k = i - escaped(rest).len();
                assert(escaped(text)[i] == escaped_char(last)[k]);
                if is_restricted(last) && last != '&' && last != '<' && last != '>' && last != '\'' && last != '"' {
                    let h = hex(last as u32 as nat);
                    if 3 <= k < 3 + h.len() {
                        assert(escaped_char(last)[k] == h[k - 3]);
                    }
                }
            }
        }
    }
}


/// The note under the row that clears saved data, in markup: its sentence,
/// and on the same line a link to the folder that data lives in.
pub open spec fn note_with_link_of(sentence: Seq<char>, uri: Seq<char>) -> Seq<char> {
    escaped(sentence) + "  <a href=\""@ + escaped(uri) + "\">"@ + escaped("Open user data folder"@) + "</a>"@
}

/// The note with its link; see `note_with_link_of`. Everything that is
/// text rather than markup is escaped, the folder's address included.
pub fn note_with_link(sentence: &str, uri: &str) -> (note: String)
    ensures
        note@ == note_with_link_of(sentence@, uri@),
{
    let mut out: Vec<char> = Vec::new();
    push_escaped(&mut out, &chars_of(sentence));
    push_str(&mut out, "  <a href=\"");
    push_escaped(&mut out, &chars_of(uri));
    push_str(&mut out, "\">");
    push_escaped(&mut out, &chars_of("Open user data folder"));
    push_str(&mut out, "</a>");
    string_of(out)
}


/// A line accounts for every language it is given: the ones it names and
/// the ones it counts as more add up to all of them, it names at most six,
/// and it says nothing about more when there are none.
pub proof fn a_line_counts_what_it_leaves_out(languages: Seq<Seq<char>>)
    ensures
        ({
            let named = if languages.len() < MOST_LANGUAGES { languages.len() } else { MOST_LANGUAGES as nat };
            &&& languages.len() > 0 ==> shown_languages(languages) == joined(languages.take(named as int))
            &&& named <= MOST_LANGUAGES
            &&& named + left_out(languages) == languages.len()
            &&& left_out(languages) == 0 <==> languages.len() <= MOST_LANGUAGES
        }),
{
}

} // verus!
