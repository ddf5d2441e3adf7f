//! The languages a video's page lists, and the facts it states about the file.

use vstd::prelude::*;
use crate::text::{chars_of, string_of, push_str};

verus! {

/// The names, each kept at its first appearance only.
pub open spec fn distinct(names: Seq<Seq<char>>) -> Seq<Seq<char>>
    decreases names.len(),
{
    if names.len() == 0 {
        Seq::empty()
    } else {
        let before = distinct(names.drop_last());
        if before.contains(names.last()) { before } else { before.push(names.last()) }
    }
}

fn holds(named: &Vec<String>, name: &String) -> (held: bool)
    ensures
        held == named@.map_values(|n: String| n@).contains(name@),
{
    let ghost views = named@.map_values(|n: String| n@);
    let mut i: usize = 0;
    while i < named.len()
        invariant
            i <= named@.len(),
            views == named@.map_values(|n: String| n@),
            forall|k: int| 0 <= k < i ==> views[k] != name@,
        decreases named@.len() - i,
    {
        if named[i] == *name {
            assert(views[i as int] == name@);
            return true;
        }
        i = i + 1;
    }
    false
}

/// The names, in the order they first appear, each once: a file with three
/// English tracks says English once.
pub fn distinct_in_order(names: &[String]) -> (named: Vec<String>)
    ensures
        named@.map_values(|n: String| n@) == distinct(names@.map_values(|n: String| n@)),
{
    let ghost views = names@.map_values(|n: String| n@);
    let mut named: Vec<String> = Vec::new();
    let mut i: usize = 0;
    while i < names.len()
        invariant
            i <= names@.len(),
            views == names@.map_values(|n: String| n@),
            named@.map_values(|n: String| n@) == distinct(views.take(i as int)),
        decreases names@.len() - i,
    {
        proof {
            assert(views.take(i + 1).drop_last() =~= views.take(i as int));
            assert(views.take(i + 1).last() == names@[i as int]@);
        }
        if !holds(&named, &names[i]) {
            let ghost earlier = named@;
            named.push(names[i].clone());
            proof {
                assert(named@.map_values(|n: String| n@) =~= earlier.map_values(|n: String| n@).push(names@[i as int]@));
            }
        }
        i = i + 1;
    }
    proof {
        assert(views.take(names@.len() as int) =~= views);
    }
    named
}

proof fn lemma_distinct(names: Seq<Seq<char>>)
    ensures
        forall|a: int, b: int| 0 <= a < b < distinct(names).len() ==> distinct(names)[a] != distinct(names)[b],
        forall|i: int| 0 <= i < names.len() ==> distinct(names).contains(#[trigger] names[i]),
        forall|i: int| 0 <= i < distinct(names).len() ==> names.contains(#[trigger] distinct(names)[i]),
    decreases names.len(),
{
    if names.len() > 0 {
        let rest = names.drop_last();
        lemma_distinct(rest);
        let before = distinct(rest);
        assert forall|i: int| 0 <= i < names.len() implies distinct(names).contains(#[trigger] names[i]) by {
            if i < names.len() - 1 {
                assert(names[i] == rest[i]);
                assert(before.contains(rest[i]));
                let j = choose|j: int| 0 <= j < before.len() && before[j] == rest[i];
                assert(distinct(names)[j] == names[i]);
            } else if !before.contains(names.last()) {
                assert(distinct(names)[before.len() as int] == names[i]);
            }
        }
        assert forall|i: int| 0 <= i < distinct(names).len() implies names.contains(#[trigger] distinct(names)[i]) by {
            if i < before.len() {
                assert(distinct(names)[i] == before[i]);
                let j = choose|j: int| 0 <= j < rest.len() && rest[j] == before[i];
                assert(names[j] == rest[j]);
            } else {
                assert(distinct(names)[i] == names[names.len() - 1]);
            }
        }
    }
}

/// A language line names each language once, and leaves none out: every
/// name given is on it, and nothing else is.
pub proof fn each_language_once(names: Seq<Seq<char>>)
    ensures
        forall|a: int, b: int| 0 <= a < b < distinct(names).len() ==> distinct(names)[a] != distinct(names)[b],
        forall|name: Seq<char>| names.contains(name) <==> distinct(names).contains(name),
{
    lemma_distinct(names);
    assert forall|name: Seq<char>| names.contains(name) <==> distinct(names).contains(name) by {
        if names.contains(name) {
            let i = choose|i: int| 0 <= i < names.len() && names[i] == name;
            assert(distinct(names).contains(names[i]));
        }
        if distinct(names).contains(name) {
            let i = choose|i: int| 0 <= i < distinct(names).len() && distinct(names)[i] == name;
            assert(names.contains(distinct(names)[i]));
        }
    }
}

/// How an audio track's language reads on the page: a described track says
/// so after its language.
pub fn audio_entry(language: &str, described: bool) -> (entry: String)
    ensures
        entry@ == if described { language@ + " (Described)"@ } else { language@ },
{
    let mut out = chars_of(language);
    if described {
        push_str(&mut out, " (Described)");
    }
    string_of(out)
}

/// Where `separator` first begins in `text`, if it does.
pub open spec fn first_at(text: Seq<char>, separator: Seq<char>, from: nat) -> Option<nat>
    decreases text.len() + 1 - from,
{
    if from + separator.len() > text.len() {
        None
    } else if text.subrange(from as int, (from + separator.len()) as int) == separator {
        Some(from)
    } else {
        first_at(text, separator, from + 1)
    }
}

/// What comes before the first `separator` in `text`, or all of it.
pub open spec fn before(text: Seq<char>, separator: Seq<char>) -> Seq<char> {
    match first_at(text, separator, 0) {
        Some(at) => text.take(at as int),
        None => text,
    }
}

fn cut_before(text: &Vec<char>, separator: &Vec<char>) -> (part: Vec<char>)
    requires
        separator@.len() > 0,
    ensures
        part@ == before(text@, separator@),
{
    let n = text.len();
    let mut from: usize = 0;
    while from <= text.len() && separator.len() <= text.len() - from
        invariant
            n == text@.len(),
            first_at(text@, separator@, 0) == first_at(text@, separator@, from as nat),
        decreases text@.len() + 1 - from,
    {
        let mut k: usize = 0;
        let mut same = true;
        while k < separator.len()
            invariant
                n == text@.len(),
                from + separator@.len() <= text@.len(),
                k <= separator@.len(),
                same == forall|j: int| 0 <= j < k ==> text@[from + j] == separator@[j],
            decreases separator@.len() - k,
        {
            if text[from + k] != separator[k] {
                same = false;
            }
            k = k + 1;
        }
        proof {
            if same {
                assert(text@.subrange(from as int, from + separator@.len()) =~= separator@);
            } else {
                let j = choose|j: int| 0 <= j < separator@.len() && text@[from + j] != separator@[j];
                assert(text@.subrange(from as int, from + separator@.len())[j] != separator@[j]);
            }
        }
        if same {
            let mut part: Vec<char> = Vec::new();
            let mut i: usize = 0;
            while i < from
                invariant
                    i <= from,
                    from <= text@.len(),
                    part@ == text@.take(i as int),
                decreases from - i,
            {
                part.push(text[i]);
                proof {
                    assert(text@.take(i + 1) =~= text@.take(i as int).push(text@[i as int]));
                }
                i = i + 1;
            }
            return part;
        }
        from = from + 1;
    }
    let mut whole: Vec<char> = Vec::new();
    let mut i: usize = 0;
    while i < text.len()
        invariant
            i <= text@.len(),
            whole@ == text@.take(i as int),
        decreases text@.len() - i,
    {
        whole.push(text[i]);
        proof {
            assert(text@.take(i + 1) =~= text@.take(i as int).push(text@[i as int]));
        }
        i = i + 1;
    }
    proof {
        assert(text@.take(text@.len() as int) =~= text@);
    }
    whole
}

/// The language tag a subtitle's label begins with. Labels arrive as a tag
/// and perhaps a title after it - "eng", "eng - Forced", "en.hi" - and the
/// language is the first word of whichever shape it is.
pub fn subtitle_tag(label: &str) -> (tag: String)
    ensures
        tag@ == before(before(label@, " - "@), "."@),
{
    let text = chars_of(label);
    let dash = chars_of(" - ");
    let dot = chars_of(".");
    proof {
        reveal_strlit(" - ");
        reveal_strlit(".");
    }
    let head = cut_before(&text, &dash);
    let tag = cut_before(&head, &dot);
    string_of(tag)
}

/// The facts the page states about the file, each named: only those it
/// knows, in the order given.
pub open spec fn known_facts(facts: Seq<(Seq<char>, Option<Seq<char>>)>) -> Seq<(Seq<char>, Seq<char>)>
    decreases facts.len(),
{
    if facts.len() == 0 {
        Seq::empty()
    } else {
        let rest = known_facts(facts.drop_last());
        match facts.last().1 {
            Some(value) => rest.push((facts.last().0, value)),
            None => rest,
        }
    }
}

/// The facts the page states about the file; see `known_facts`.
pub fn file_facts(facts: Vec<(String, Option<String>)>) -> (stated: Vec<(String, String)>)
    ensures
        stated@.map_values(|f: (String, String)| (f.0@, f.1@))
            == known_facts(facts@.map_values(|f: (String, Option<String>)| (f.0@, crate::choices::opt_view(f.1)))),
{
    let ghost views = facts@.map_values(|f: (String, Option<String>)| (f.0@, crate::choices::opt_view(f.1)));
    let mut stated: Vec<(String, String)> = Vec::new();
    let mut i: usize = 0;
    while i < facts.len()
        invariant
            i <= facts@.len(),
            views == facts@.map_values(|f: (String, Option<String>)| (f.0@, crate::choices::opt_view(f.1))),
            stated@.map_values(|f: (String, String)| (f.0@, f.1@)) == known_facts(views.take(i as int)),
        decreases facts@.len() - i,
    {
        proof {
            assert(views.take(i + 1).drop_last() =~= views.take(i as int));
            assert(views.take(i + 1).last() == views[i as int]);
        }
        match &facts[i].1 {
            Some(value) => {
                let ghost earlier = stated@;
                stated.push((facts[i].0.clone(), value.clone()));
                proof {
                    assert(stated@.map_values(|f: (String, String)| (f.0@, f.1@))
                        =~= earlier.map_values(|f: (String, String)| (f.0@, f.1@)).push((facts@[i as int].0@, value@)));
                }
            },
            None => {},
        }
        i = i + 1;
    }
    proof {
        assert(views.take(facts@.len() as int) =~= views);
    }
    stated
}


/// How many characters wide the column naming the facts is: wide enough
/// for the longest name and its colon, but never narrower than twelve nor
/// wider than twenty.
pub open spec fn name_width_of(names: Seq<Seq<char>>) -> int
    decreases names.len(),
{
    if names.len() == 0 {
        12
    } else {
        let rest = name_width_of(names.drop_last());
        let this: int = if names.last().len() + 1 < 12 { 12 } else if names.last().len() + 1 > 20 { 20 } else { (names.last().len() + 1) as int };
        if this > rest { this } else { rest }
    }
}

/// How many characters wide the column naming the facts is; see
/// `name_width_of`.
pub fn name_width(names: &[String]) -> (width: i32)
    ensures
        width == name_width_of(names@.map_values(|n: String| n@)),
        12 <= width <= 20,
{
    let ghost views = names@.map_values(|n: String| n@);
    let mut width: i32 = 12;
    let mut i: usize = 0;
    while i < names.len()
        invariant
            i <= names@.len(),
            views == names@.map_values(|n: String| n@),
            width == name_width_of(views.take(i as int)),
            12 <= width <= 20,
        decreases names@.len() - i,
    {
        proof {
            assert(views.take(i + 1).drop_last() =~= views.take(i as int));
            assert(views.take(i + 1).last() == names@[i as int]@);
        }
        let count = chars_of(names[i].as_str()).len();
        let this: i32 = if count < 11 { 12 } else if count > 19 { 20 } else { (count + 1) as i32 };
        if this > width {
            width = this;
        }
        i = i + 1;
    }
    proof {
        assert(views.take(names@.len() as int) =~= views);
    }
    width
}

} // verus!
