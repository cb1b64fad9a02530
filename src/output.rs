use vstd::prelude::*;
use vstd::string::*;
use crate::text::str_eq;

verus! {

/// The pieces of `s` between single spaces, as `str::split(' ')` gives them:
/// empty pieces included, and one empty piece for an empty string.
pub open spec fn words(s: Seq<char>) -> Seq<Seq<char>>
    decreases s.len(),
{
    if s.len() == 0 {
        seq![Seq::<char>::empty()]
    } else {
        let w = words(s.drop_last());
        if s.last() == ' ' {
            w.push(Seq::<char>::empty())
        } else {
            w.update(w.len() - 1, w.last().push(s.last()))
        }
    }
}

/// A flag token: a word longer than two characters, split after its second.
pub open spec fn flag_token(w: Seq<char>) -> (Seq<char>, Seq<char>) {
    (w.subrange(0, 2), w.subrange(2, w.len() as int))
}

/// The flag tokens of a sequence of words, in order: words of two characters
/// or fewer are dropped.
pub open spec fn tokens_of(ws: Seq<Seq<char>>) -> Seq<(Seq<char>, Seq<char>)>
    decreases ws.len(),
{
    if ws.len() == 0 {
        Seq::empty()
    } else if ws.last().len() > 2 {
        tokens_of(ws.drop_last()).push(flag_token(ws.last()))
    } else {
        tokens_of(ws.drop_last())
    }
}

/// The flag tokens of the tool's output.
pub open spec fn parse_spec(s: Seq<char>) -> Seq<(Seq<char>, Seq<char>)> {
    tokens_of(words(s))
}

/// The names that follow each word `-framework`, in order; a `-framework`
/// that ends the words names nothing, and the name it takes is not read as a
/// word again.
pub open spec fn frameworks_of(ws: Seq<Seq<char>>) -> Seq<Seq<char>>
    decreases ws.len(),
{
    if ws.len() == 0 {
        Seq::empty()
    } else if ws[0] == "-framework"@ && ws.len() >= 2 {
        seq![ws[1]] + frameworks_of(ws.subrange(2, ws.len() as int))
    } else {
        frameworks_of(ws.subrange(1, ws.len() as int))
    }
}

pub open spec fn views(v: Seq<String>) -> Seq<Seq<char>> {
    v.map_values(|s: String| s@)
}

pub open spec fn pair_views(v: Seq<(String, String)>) -> Seq<(Seq<char>, Seq<char>)> {
    v.map_values(|p: (String, String)| (p.0@, p.1@))
}

/// The pieces of `s` between single spaces.
pub fn split_words(s: &str) -> (r: Vec<String>)
    ensures
        views(r@) == words(s@),
{
    let n = s.unicode_len();
    let mut out: Vec<String> = Vec::new();
    let mut start: usize = 0;
    let mut i: usize = 0;
    assert(s@.subrange(0, 0) =~= Seq::<char>::empty());
    assert(views(out@).push(s@.subrange(0, 0)) =~= words(s@.subrange(0, 0)));
    while i < n
        invariant
            n == s@.len(),
            start <= i <= n,
            words(s@.subrange(0, i as int)) == views(out@).push(s@.subrange(start as int, i as int)),
        decreases n - i,
    {
        let ghost pre = s@.subrange(0, i as int);
        assert(s@.subrange(0, i + 1).drop_last() =~= pre);
        if s.get_char(i) == ' ' {
            let ghost before = out@;
            let w = s.substring_char(start, i).to_string();
            out.push(w);
            assert(views(out@) =~= views(before).push(s@.subrange(start as int, i as int)));
            start = i + 1;
            assert(s@.subrange(start as int, i + 1) =~= Seq::<char>::empty());
        } else {
            assert(s@.subrange(start as int, i + 1) =~= s@.subrange(start as int, i as int).push(s@[i as int]));
        }
        i = i + 1;
    }
    assert(s@.subrange(0, n as int) =~= s@);
    let ghost before = out@;
    let w = s.substring_char(start, n).to_string();
    out.push(w);
    assert(views(out@) =~= views(before).push(s@.subrange(start as int, n as int)));
    out
}

/// The flag tokens of a sequence of words are its words longer than two
/// characters, in their order, each split after its second character.
pub proof fn lemma_tokens_are_long_words(ws: Seq<Seq<char>>)
    ensures
        tokens_of(ws) == ws.filter(|w: Seq<char>| w.len() > 2).map_values(
            |w: Seq<char>| flag_token(w),
        ),
    decreases ws.len(),
{
    reveal(Seq::filter);
    if ws.len() > 0 {
        lemma_tokens_are_long_words(ws.drop_last());
        let p = |w: Seq<char>| w.len() > 2;
        let f = |w: Seq<char>| flag_token(w);
        let sub = ws.drop_last().filter(p);
        if ws.last().len() > 2 {
            assert(sub.push(ws.last()).map_values(f) =~= sub.map_values(f).push(f(ws.last())));
        }
    }
}

/// Parsing yields, in order, the words of the output longer than two
/// characters, each split after its second character; shorter words yield
/// nothing.
pub proof fn lemma_parse_in_order(s: Seq<char>)
    ensures
        parse_spec(s) == words(s).filter(|w: Seq<char>| w.len() > 2).map_values(
            |w: Seq<char>| flag_token(w),
        ),
{
    lemma_tokens_are_long_words(words(s));
}

/// The flag tokens of the tool's output, in the order in which they stand:
/// each word longer than two characters, split into its first two characters
/// and the rest.
pub fn parse_flags(output: &str) -> (r: Vec<(String, String)>)
    ensures
        pair_views(r@) == parse_spec(output@),
{
    let ws = split_words(output);
    let ghost vw = views(ws@);
    let mut out: Vec<(String, String)> = Vec::new();
    let mut i: usize = 0;
    assert(vw.subrange(0, 0) =~= Seq::<Seq<char>>::empty());
    assert(pair_views(out@) =~= Seq::<(Seq<char>, Seq<char>)>::empty());
    while i < ws.len()
        invariant
            vw == views(ws@),
            i <= ws.len(),
            pair_views(out@) == tokens_of(vw.subrange(0, i as int)),
        decreases ws.len() - i,
    {
        assert(vw.subrange(0, i + 1).drop_last() =~= vw.subrange(0, i as int));
        assert(vw[i as int] == ws@[i as int]@);
        let w = ws[i].as_str();
        let len = w.unicode_len();
        if len > 2 {
            let ghost before = out@;
            let flag = w.substring_char(0, 2).to_string();
            let value = w.substring_char(2, len).to_string();
            out.push((flag, value));
            assert(pair_views(out@) =~= pair_views(before).push(flag_token(vw[i as int])));
        }
        i = i + 1;
    }
    assert(vw.subrange(0, ws.len() as int) =~= vw);
    out
}

/// The framework names of the tool's output: the word after each
/// `-framework`, in order.
pub fn scan_frameworks(output: &str) -> (r: Vec<String>)
    ensures
        views(r@) == frameworks_of(words(output@)),
{
    let ws = split_words(output);
    let ghost vw = views(ws@);
    let mut out: Vec<String> = Vec::new();
    let mut i: usize = 0;
    assert(vw.subrange(0, vw.len() as int) =~= vw);
    assert(views(out@) + frameworks_of(vw) =~= frameworks_of(vw));
    while i < ws.len()
        invariant
            vw == views(ws@),
            i <= ws.len(),
            frameworks_of(vw) == views(out@) + frameworks_of(vw.subrange(i as int, vw.len() as int)),
        decreases ws.len() - i,
    {
        let ghost rest = vw.subrange(i as int, vw.len() as int);
        assert(rest[0] == ws@[i as int]@);
        if str_eq(ws[i].as_str(), "-framework") && i + 1 < ws.len() {
            let ghost before = out@;
            out.push(ws[i + 1].clone());
            assert(rest[1] == ws@[i + 1]@);
            assert(rest.subrange(2, rest.len() as int) =~= vw.subrange(i + 2, vw.len() as int));
            assert(views(out@) =~= views(before).push(rest[1]));
            assert(views(out@) + frameworks_of(vw.subrange(i + 2, vw.len() as int)) =~= views(before)
                + (seq![rest[1]] + frameworks_of(vw.subrange(i + 2, vw.len() as int))));
            i = i + 2;
        } else {
            assert(rest.subrange(1, rest.len() as int) =~= vw.subrange(i + 1, vw.len() as int));
            i = i + 1;
        }
    }
    assert(vw.subrange(i as int, vw.len() as int) =~= Seq::<Seq<char>>::empty());
    assert(views(out@) + Seq::<Seq<char>>::empty() =~= views(out@));
    out
}

} // verus!
