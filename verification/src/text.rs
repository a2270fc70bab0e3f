//! Small helpers on strings, stated over their character sequences.

use crate::search::{
    first_from, first_where, lemma_first_from_is, lemma_first_from_none, lemma_first_from_some,
    lemma_first_where_exists,
};
use itertools::Itertools;
use vstd::prelude::*;
use vstd::string::*;

verus! {

/// `str`'s equality from std: two slices compare equal exactly when they hold
/// the same characters.
pub assume_specification[ <str as PartialEq>::eq ](a: &str, b: &str) -> (r: bool)
    ensures
        r == (a@ == b@),
;

/// Whether two string slices hold the same characters.
pub fn same_text(a: &str, b: &str) -> (r: bool)
    ensures
        r == (a@ == b@),
{
    a.eq(b)
}

/// The characters of `s`, in order.
pub fn chars_of(s: &str) -> (r: Vec<char>)
    ensures
        r@ == s@,
{
    let mut out: Vec<char> = Vec::new();
    for c in it: s.chars()
        invariant
            out@ == it.seq().take(it.index() as int),
    {
        out.push(c);
    }
    out
}

/// Holds of the text `needle`.
pub open spec fn is_text(needle: Seq<char>) -> spec_fn(Seq<char>) -> bool {
    |t: Seq<char>| t == needle
}

/// Where `needle` first stands in `texts`.
pub fn position_of(texts: &Vec<String>, needle: &str) -> (r: Option<usize>)
    ensures
        match r {
            Some(i) => first_where(texts.deep_view(), is_text(needle@)) == Some(i as int)
                && i < texts@.len(),
            None => first_where(texts.deep_view(), is_text(needle@)) is None,
        },
{
    let ghost p = is_text(needle@);
    let mut i: usize = 0;
    while i < texts.len()
        invariant
            p == is_text(needle@),
            i <= texts@.len(),
            first_from(texts.deep_view(), p, 0) == first_from(texts.deep_view(), p, i as int),
        decreases texts@.len() - i,
    {
        if same_text(texts[i].as_str(), needle) {
            return Some(i);
        }
        i += 1;
    }
    None
}

/// Whether `needle` is one of `texts`.
pub fn holds_text(texts: &Vec<String>, needle: &str) -> (r: bool)
    ensures
        r == texts.deep_view().contains(needle@),
{
    let found = position_of(texts, needle);
    proof {
        let p = is_text(needle@);
        lemma_first_where_exists(texts.deep_view(), p);
    }
    found.is_some()
}

/// An owned copy of each of `texts`, in order.
pub fn copy_texts(texts: &Vec<String>) -> (r: Vec<String>)
    ensures
        r.deep_view() == texts.deep_view(),
{
    let mut out: Vec<String> = Vec::new();
    let mut i: usize = 0;
    while i < texts.len()
        invariant
            i <= texts@.len(),
            out@.len() == i,
            forall|k: int| 0 <= k < i ==> out@[k]@ == texts@[k]@,
        decreases texts@.len() - i,
    {
        out.push(texts[i].clone());
        i += 1;
    }
    assert(out.deep_view() =~= texts.deep_view());
    out
}

/// Those of `texts` that `test` accepts, in order. What `test` decides of a
/// text is what `p` says of its characters.
pub(crate) fn keep_texts<F: Fn(&str) -> bool>(
    texts: &Vec<String>,
    test: F,
    Ghost(p): Ghost<spec_fn(Seq<char>) -> bool>,
) -> (r: Vec<String>)
    requires
        forall|t: &str| call_requires(test, (t,)),
        forall|t: &str, kept: bool| call_ensures(test, (t,), kept) ==> kept == p(t@),
    ensures
        r.deep_view() == texts.deep_view().filter(p),
{
    let mut out: Vec<String> = Vec::new();
    let mut i: usize = 0;
    proof {
        reveal(Seq::filter);
        assert(texts.deep_view().take(0) =~= Seq::<Seq<char>>::empty());
        assert(out.deep_view() =~= Seq::<Seq<char>>::empty());
    }
    while i < texts.len()
        invariant
            i <= texts@.len(),
            forall|t: &str| call_requires(test, (t,)),
            forall|t: &str, kept: bool| call_ensures(test, (t,), kept) ==> kept == p(t@),
            out.deep_view() == texts.deep_view().take(i as int).filter(p),
        decreases texts@.len() - i,
    {
        let ghost before = out.deep_view();
        proof {
            assert(texts.deep_view().take(i + 1) =~= texts.deep_view().take(i as int).push(
                texts@[i as int]@,
            ));
            texts.deep_view().take(i as int).lemma_filter_push(texts@[i as int]@, p);
        }
        if test(texts[i].as_str()) {
            out.push(texts[i].clone());
            assert(out.deep_view() =~= before.push(texts@[i as int]@));
        }
        i += 1;
    }
    assert(texts.deep_view().take(texts@.len() as int) =~= texts.deep_view());
    out
}

/// The texts of `s` in order, each one only where it first occurs.
pub open spec fn without_repeats(s: Seq<Seq<char>>) -> Seq<Seq<char>>
    decreases s.len(),
{
    if s.len() == 0 {
        s
    } else if without_repeats(s.drop_last()).contains(s.last()) {
        without_repeats(s.drop_last())
    } else {
        without_repeats(s.drop_last()).push(s.last())
    }
}

/// `Itertools::unique` of the crate itertools, over owned strings: the
/// adaptor hands on each item that it has not handed on before, in the order
/// in which they come, so that of equal items the first is the one kept.
#[verifier::external_body]
pub(crate) fn unique_texts(texts: Vec<String>) -> (r: Vec<String>)
    ensures
        r.deep_view() == without_repeats(texts.deep_view()),
{
    texts.into_iter().unique().collect()
}

/// Taking the repeats out leaves nothing twice and keeps every text that
/// was there.
pub proof fn lemma_without_repeats(s: Seq<Seq<char>>)
    ensures
        without_repeats(s).no_duplicates(),
        forall|x: Seq<char>| without_repeats(s).contains(x) <==> s.contains(x),
    decreases s.len(),
{
    if s.len() > 0 {
        let front = s.drop_last();
        let kept = without_repeats(front);
        lemma_without_repeats(front);
        assert forall|x: Seq<char>| without_repeats(s).contains(x) <==> s.contains(x) by {
            assert(s.contains(x) <==> front.contains(x) || x == s.last()) by {
                if s.contains(x) {
                    let i = choose|i: int| 0 <= i < s.len() && s[i] == x;
                    if i < s.len() - 1 {
                        assert(front[i] == x);
                    }
                }
                if front.contains(x) {
                    let i = choose|i: int| 0 <= i < front.len() && front[i] == x;
                    assert(s[i] == x);
                }
                assert(s[s.len() - 1] == s.last());
            }
            if !kept.contains(s.last()) {
                let more = kept.push(s.last());
                if more.contains(x) {
                    let i = choose|i: int| 0 <= i < more.len() && more[i] == x;
                    if i < kept.len() {
                        assert(kept[i] == x);
                    }
                }
                if kept.contains(x) {
                    let i = choose|i: int| 0 <= i < kept.len() && kept[i] == x;
                    assert(more[i] == x);
                }
                assert(more[kept.len() as int] == s.last());
            }
        }
        if !kept.contains(s.last()) {
            let more = kept.push(s.last());
            assert forall|i: int, j: int| 0 <= i < j < more.len() implies more[i] != more[j] by {
                if j == kept.len() {
                    assert(kept.contains(kept[i]));
                }
            }
        }
    }
}

/// Where nothing stands twice there is no repeat to take out.
pub proof fn lemma_without_repeats_same(s: Seq<Seq<char>>)
    requires
        s.no_duplicates(),
    ensures
        without_repeats(s) == s,
    decreases s.len(),
{
    if s.len() > 0 {
        let front = s.drop_last();
        lemma_without_repeats_same(front);
        if front.contains(s.last()) {
            let i = choose|i: int| 0 <= i < front.len() && front[i] == s.last();
            assert(s[i] == s[s.len() - 1]);
        }
        assert(front.push(s.last()) =~= s);
    }
}

/// Whether `c` is white space: a character with the Unicode property
/// `White_Space`.
pub open spec fn is_space(c: char) -> bool {
    ||| '\u{9}' <= c <= '\u{d}'
    ||| c == ' '
    ||| c == '\u{85}'
    ||| c == '\u{a0}'
    ||| c == '\u{1680}'
    ||| '\u{2000}' <= c <= '\u{200a}'
    ||| c == '\u{2028}'
    ||| c == '\u{2029}'
    ||| c == '\u{202f}'
    ||| c == '\u{205f}'
    ||| c == '\u{3000}'
}

/// Whether `c` is white space.
pub fn space(c: char) -> (r: bool)
    ensures
        r == is_space(c),
{
    ('\u{9}' <= c && c <= '\u{d}') || c == ' ' || c == '\u{85}' || c == '\u{a0}' || c
        == '\u{1680}' || ('\u{2000}' <= c && c <= '\u{200a}') || c == '\u{2028}' || c
        == '\u{2029}' || c == '\u{202f}' || c == '\u{205f}' || c == '\u{3000}'
}

/// Holds of white space.
pub open spec fn spaces() -> spec_fn(char) -> bool {
    |c: char| is_space(c)
}

/// How many characters stand in `s` before its first white space.
pub open spec fn word_len(s: Seq<char>) -> int {
    match first_where(s, spaces()) {
        Some(i) => i,
        None => s.len() as int,
    }
}

/// The words of `s`: its longest runs of characters that are not white
/// space, in order.
pub open spec fn words(s: Seq<char>) -> Seq<Seq<char>>
    decreases s.len(),
{
    if s.len() == 0 {
        Seq::empty()
    } else if is_space(s[0]) {
        words(s.drop_first())
    } else if 0 < word_len(s) <= s.len() {
        seq![s.take(word_len(s))] + words(s.skip(word_len(s)))
    } else {
        Seq::empty()
    }
}

/// A sequence that starts with a character other than white space starts
/// with a word.
pub proof fn lemma_word_len(s: Seq<char>)
    requires
        s.len() > 0,
        !is_space(s[0]),
    ensures
        0 < word_len(s) <= s.len(),
{
    let p = spaces();
    if first_where(s, p) is Some {
        lemma_first_from_some(s, p, 0);
    }
}

/// Whether `w` is a word: not empty and free of white space.
pub open spec fn is_word(w: Seq<char>) -> bool {
    w.len() > 0 && forall|k: int| 0 <= k < w.len() ==> !is_space(#[trigger] w[k])
}

/// Each of the words of a text is a word: none is empty and none holds
/// white space.
pub proof fn lemma_words(s: Seq<char>)
    ensures
        forall|i: int| 0 <= i < words(s).len() ==> is_word(#[trigger] words(s)[i]),
    decreases s.len(),
{
    if s.len() == 0 {
        assert(words(s).len() == 0);
    } else if is_space(s[0]) {
        lemma_words(s.drop_first());
        assert(words(s) == words(s.drop_first()));
    } else {
        lemma_word_len(s);
        let n = word_len(s);
        let first = s.take(n);
        let rest = words(s.skip(n));
        lemma_words(s.skip(n));
        assert(words(s) == seq![first] + rest);
        assert(is_word(first)) by {
            if first_where(s, spaces()) is Some {
                lemma_first_from_some(s, spaces(), 0);
            } else {
                lemma_first_from_none(s, spaces(), 0);
            }
            assert forall|k: int| 0 <= k < first.len() implies !is_space(#[trigger] first[k]) by {
                assert(!spaces()(s[k]));
            }
        }
        assert forall|i: int| 0 <= i < words(s).len() implies is_word(#[trigger] words(s)[i]) by {
            if i == 0 {
                assert(words(s)[0] == first);
            } else {
                assert(words(s)[i] == rest[i - 1]);
            }
        }
    }
}

/// The words of `text`, see `words`.
pub fn split_words<'a>(text: &'a str) -> (r: Vec<&'a str>)
    ensures
        r.deep_view() == words(text@),
{
    let chars = chars_of(text);
    let n = chars.len();
    let mut out: Vec<&'a str> = Vec::new();
    let mut i: usize = 0;
    assert(text@.skip(0) =~= text@);
    assert(out.deep_view() =~= Seq::<Seq<char>>::empty());
    while i < n
        invariant
            i <= n,
            n == text@.len(),
            chars@ == text@,
            words(text@) == out.deep_view() + words(text@.skip(i as int)),
        decreases n - i,
    {
        let ghost rest = text@.skip(i as int);
        if space(chars[i]) {
            assert(rest.drop_first() =~= text@.skip(i + 1));
            i += 1;
        } else {
            let start = i;
            let mut end = i + 1;
            while end < n && !space(chars[end])
                invariant
                    start < end <= n,
                    n == text@.len(),
                    chars@ == text@,
                    forall|k: int| start <= k < end ==> !is_space(#[trigger] text@[k]),
                decreases n - end,
            {
                end += 1;
            }
            let word = text.substring_char(start, end);
            proof {
                let p = spaces();
                if end < n {
                    assert forall|k: int| 0 <= k < end - start implies !p(#[trigger] rest[k]) by {
                        assert(rest[k] == text@[start + k]);
                    }
                    lemma_first_from_is(rest, p, 0, end - start);
                } else {
                    if first_where(rest, p) is Some {
                        lemma_first_from_some(rest, p, 0);
                        let k = first_where(rest, p)->0;
                        assert(rest[k] == text@[start + k]);
                    }
                }
                assert(word_len(rest) == end - start);
                assert(rest.take(end - start) =~= text@.subrange(start as int, end as int));
                assert(rest.skip(end - start) =~= text@.skip(end as int));
                let ghost_out = out.deep_view();
                assert(ghost_out + (seq![word@] + words(text@.skip(end as int))) =~= ghost_out.push(
                    word@,
                ) + words(text@.skip(end as int)));
            }
            let ghost before = out.deep_view();
            out.push(word);
            assert(out.deep_view() =~= before.push(word@));
            i = end;
        }
    }
    assert(text@.skip(n as int) =~= Seq::<char>::empty());
    assert(out.deep_view() + Seq::<Seq<char>>::empty() =~= out.deep_view());
    out
}

/// The `parts` in order, with `sep` between each two.
pub open spec fn join(parts: Seq<Seq<char>>, sep: Seq<char>) -> Seq<char>
    decreases parts.len(),
{
    if parts.len() == 0 {
        Seq::empty()
    } else if parts.len() == 1 {
        parts[0]
    } else {
        join(parts.drop_last(), sep) + sep + parts.last()
    }
}

/// The `parts` in order, with `sep` between each two.
pub fn join_texts(parts: &Vec<String>, sep: &str) -> (r: String)
    ensures
        r@ == join(parts.deep_view(), sep@),
{
    let mut out = String::new();
    let mut i: usize = 0;
    while i < parts.len()
        invariant
            i <= parts@.len(),
            out@ == join(parts.deep_view().take(i as int), sep@),
        decreases parts@.len() - i,
    {
        proof {
            let next = parts.deep_view().take(i + 1);
            assert(next.drop_last() =~= parts.deep_view().take(i as int));
            assert(next.last() == parts@[i as int]@);
            if i == 0 {
                assert(Seq::<char>::empty() + parts@[0]@ =~= parts@[0]@);
            }
        }
        if i > 0 {
            out.append(sep);
        }
        out.append(parts[i].as_str());
        i += 1;
    }
    assert(parts.deep_view().take(parts@.len() as int) =~= parts.deep_view());
    out
}

/// `s` followed by `t`.
pub fn joined(s: &str, t: &str) -> (r: String)
    ensures
        r@ == s@ + t@,
{
    let mut out = String::from_str(s);
    out.append(t);
    out
}

/// `x` between `before` and `after`.
pub fn framed(before: &str, x: &str, after: &str) -> (r: String)
    ensures
        r@ == before@ + x@ + after@,
{
    let mut out = String::from_str(before);
    out.append(x);
    out.append(after);
    out
}

/// `x` and `y` between `before`, `between` and `after`.
pub fn framed_pair(before: &str, x: &str, between: &str, y: &str, after: &str) -> (r: String)
    ensures
        r@ == before@ + x@ + between@ + y@ + after@,
{
    let mut out = String::from_str(before);
    out.append(x);
    out.append(between);
    out.append(y);
    out.append(after);
    out
}

} // verus!
