//! Small operations on strings and on lists of strings, with their meaning
//! stated over sequences of characters.

use vstd::prelude::*;
use vstd::string::*;

verus! {

/// The character sequences of a list of strings.
pub open spec fn texts(strings: Seq<String>) -> Seq<Seq<char>> {
    strings.map_values(|s: String| s@)
}

/// The character sequence of an optional string.
pub open spec fn opt_text(text: Option<String>) -> Option<Seq<char>> {
    match text {
        Some(s) => Some(s@),
        None => None,
    }
}

/// Each text of `items` with `prefix` put before it.
pub open spec fn prefixed(prefix: Seq<char>, items: Seq<Seq<char>>) -> Seq<Seq<char>> {
    items.map_values(|item: Seq<char>| prefix + item)
}

pub(crate) proof fn lemma_texts_push(strings: Seq<String>, s: String)
    ensures
        texts(strings.push(s)) == texts(strings).push(s@),
{
    assert(texts(strings.push(s)) =~= texts(strings).push(s@));
}

pub(crate) proof fn lemma_texts_take_next(strings: Seq<String>, i: int)
    requires
        0 <= i < strings.len(),
    ensures
        texts(strings.take(i + 1)) == texts(strings.take(i)).push(strings[i]@),
        texts(strings).take(i + 1) == texts(strings).take(i).push(strings[i]@),
        texts(strings.take(i)) == texts(strings).take(i),
{
    assert(texts(strings.take(i + 1)) =~= texts(strings.take(i)).push(strings[i]@));
    assert(texts(strings).take(i + 1) =~= texts(strings).take(i).push(strings[i]@));
    assert(texts(strings.take(i)) =~= texts(strings).take(i));
}

pub(crate) proof fn lemma_prefixed_push(prefix: Seq<char>, items: Seq<Seq<char>>, item: Seq<char>)
    ensures
        prefixed(prefix, items.push(item)) == prefixed(prefix, items).push(prefix + item),
{
    assert(prefixed(prefix, items.push(item)) =~= prefixed(prefix, items).push(prefix + item));
}

pub(crate) fn text_is(a: &str, b: &str) -> (same: bool)
    ensures
        same == (a@ == b@),
{
    let left = String::from_str(a);
    let right = String::from_str(b);
    left == right
}

pub(crate) fn concat(a: &str, b: &str) -> (joined: String)
    ensures
        joined@ == a@ + b@,
{
    String::from_str(a).concat(b)
}

pub(crate) fn clone_opt_text(text: &Option<String>) -> (copy: Option<String>)
    ensures
        opt_text(copy) == opt_text(*text),
{
    match text {
        Some(s) => Some(s.clone()),
        None => None,
    }
}

pub(crate) fn clone_texts(strings: &Vec<String>) -> (copy: Vec<String>)
    ensures
        texts(copy@) == texts(strings@),
{
    let mut copy: Vec<String> = Vec::new();
    let mut i: usize = 0;
    proof {
        assert(texts(copy@) =~= texts(strings@.take(0)));
    }
    while i < strings.len()
        invariant
            i <= strings.len(),
            texts(copy@) == texts(strings@.take(i as int)),
        decreases strings.len() - i,
    {
        let item = strings[i].clone();
        proof {
            lemma_texts_push(copy@, item);
            lemma_texts_take_next(strings@, i as int);
        }
        copy.push(item);
        i += 1;
    }
    proof {
        assert(strings@.take(i as int) =~= strings@);
    }
    copy
}

pub(crate) fn push_text(out: &mut Vec<String>, item: String)
    ensures
        texts(final(out)@) == texts(old(out)@).push(item@),
{
    proof {
        lemma_texts_push(out@, item);
    }
    out.push(item);
}

/// Appends to `out` each text of `items` with `prefix` put before it.
pub(crate) fn push_prefixed(out: &mut Vec<String>, prefix: &str, items: &Vec<String>)
    ensures
        texts(final(out)@) == texts(old(out)@) + prefixed(prefix@, texts(items@)),
{
    let mut i: usize = 0;
    proof {
        assert(texts(out@) =~= texts(old(out)@) + prefixed(prefix@, texts(items@.take(0))));
    }
    while i < items.len()
        invariant
            i <= items.len(),
            texts(out@) == texts(old(out)@) + prefixed(prefix@, texts(items@.take(i as int))),
        decreases items.len() - i,
    {
        let item = concat(prefix, items[i].as_str());
        proof {
            let done = prefixed(prefix@, texts(items@.take(i as int)));
            lemma_texts_push(out@, item);
            lemma_texts_take_next(items@, i as int);
            lemma_prefixed_push(prefix@, texts(items@.take(i as int)), items@[i as int]@);
            assert((texts(old(out)@) + done).push(item@) =~= texts(old(out)@) + done.push(
                item@,
            ));
        }
        out.push(item);
        i += 1;
    }
    proof {
        assert(items@.take(i as int) =~= items@);
    }
}

/// Appends copies of `items` to `out`.
pub(crate) fn push_texts(out: &mut Vec<String>, items: &Vec<String>)
    ensures
        texts(final(out)@) == texts(old(out)@) + texts(items@),
{
    let mut i: usize = 0;
    proof {
        assert(texts(out@) =~= texts(old(out)@) + texts(items@.take(0)));
    }
    while i < items.len()
        invariant
            i <= items.len(),
            texts(out@) == texts(old(out)@) + texts(items@.take(i as int)),
        decreases items.len() - i,
    {
        let item = items[i].clone();
        proof {
            let done = texts(items@.take(i as int));
            lemma_texts_push(out@, item);
            lemma_texts_take_next(items@, i as int);
            assert((texts(old(out)@) + done).push(item@) =~= texts(old(out)@) + done.push(
                item@,
            ));
        }
        out.push(item);
        i += 1;
    }
    proof {
        assert(items@.take(i as int) =~= items@);
    }
}

/// Whether `needle` occurs in `text` at position `at`.
pub open spec fn occurs_at(text: Seq<char>, needle: Seq<char>, at: int) -> bool {
    0 <= at && at + needle.len() <= text.len() && text.subrange(at, at + needle.len()) == needle
}

/// Whether `needle` occurs somewhere in `text`.
pub open spec fn has_substring(text: Seq<char>, needle: Seq<char>) -> bool {
    exists|at: int| occurs_at(text, needle, at)
}

fn chars_of(text: &str) -> (chars: Vec<char>)
    ensures
        chars@ == text@,
{
    let mut chars: Vec<char> = Vec::new();
    for c in it: text.chars()
        invariant
            chars@ == it.seq().take(it.index() as int),
            it.seq() == text@,
    {
        chars.push(c);
    }
    chars
}

/// Decides whether `needle` occurs somewhere in `text`.
pub(crate) fn contains_text(text: &str, needle: &str) -> (found: bool)
    ensures
        found == has_substring(text@, needle@),
{
    let hay = chars_of(text);
    let pat = chars_of(needle);
    if pat.len() > hay.len() {
        return false;
    }
    let last = hay.len() - pat.len();
    let mut at: usize = 0;
    while at <= last
        invariant
            hay@ == text@,
            pat@ == needle@,
            last == hay.len() - pat.len(),
            at <= last + 1,
            forall|k: int| 0 <= k < at ==> !occurs_at(text@, needle@, k),
        decreases last + 1 - at,
    {
        let mut j: usize = 0;
        while j < pat.len() && hay[at + j] == pat[j]
            invariant
                at <= last,
                last == hay.len() - pat.len(),
                j <= pat.len(),
                forall|k: int| 0 <= k < j ==> hay@[at + k] == pat@[k],
            decreases pat.len() - j,
        {
            j += 1;
        }
        if j == pat.len() {
            proof {
                assert(hay@.subrange(at as int, at + pat.len()) =~= pat@);
                assert(occurs_at(text@, needle@, at as int));
            }
            return true;
        }
        proof {
            assert(hay@.subrange(at as int, at + pat.len())[j as int] == hay@[at + j]);
        }
        at += 1;
    }
    false
}

} // verus!
