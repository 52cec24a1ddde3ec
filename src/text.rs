//! Plain text helpers: whitespace, splitting into words, joining, prefixes.

use vstd::prelude::*;
use vstd::string::*;

verus! {

/// The Unicode `White_Space` property, as `char::is_whitespace` uses it.
pub open spec fn white(c: char) -> bool {
    let v = c as u32;
    (0x09 <= v && v <= 0x0d) || v == 0x20 || v == 0x85 || v == 0xa0 || v == 0x1680 || (0x2000
        <= v && v <= 0x200a) || v == 0x2028 || v == 0x2029 || v == 0x202f || v == 0x205f || v
        == 0x3000
}

pub fn is_white(c: char) -> (r: bool)
    ensures
        r == white(c),
{
    let v = c as u32;
    (0x09 <= v && v <= 0x0d) || v == 0x20 || v == 0x85 || v == 0xa0 || v == 0x1680 || (0x2000
        <= v && v <= 0x200a) || v == 0x2028 || v == 0x2029 || v == 0x202f || v == 0x205f || v
        == 0x3000
}

/// The pieces between single whitespace characters, empty ones included:
/// there is always one more piece than there are whitespace characters.
pub open spec fn pieces(s: Seq<char>) -> Seq<Seq<char>>
    decreases s.len(),
{
    if s.len() == 0 {
        seq![Seq::empty()]
    } else {
        let p = pieces(s.drop_last());
        if white(s.last()) {
            p.push(Seq::empty())
        } else {
            p.update(p.len() - 1, p.last().push(s.last()))
        }
    }
}

pub open spec fn nonempty(w: Seq<char>) -> bool {
    w.len() > 0
}

pub open spec fn keep() -> spec_fn(Seq<char>) -> bool {
    |w: Seq<char>| nonempty(w)
}

/// The maximal runs of non-whitespace characters, in order.
pub open spec fn words(s: Seq<char>) -> Seq<Seq<char>> {
    pieces(s).filter(keep())
}

/// A word: non-empty, with no whitespace in it.
pub open spec fn is_word(w: Seq<char>) -> bool {
    w.len() > 0 && forall|i: int| 0 <= i < w.len() ==> !white(#[trigger] w[i])
}

/// The words of a sequence joined by single spaces.
pub open spec fn joined(ws: Seq<Seq<char>>) -> Seq<char>
    decreases ws.len(),
{
    if ws.len() == 0 {
        Seq::empty()
    } else if ws.len() == 1 {
        ws[0]
    } else {
        joined(ws.drop_last()) + seq![' '] + ws.last()
    }
}

pub open spec fn views(v: Seq<String>) -> Seq<Seq<char>> {
    v.map_values(|w: String| w@)
}

/// The text of an optional string.
pub open spec fn opt_text(o: Option<String>) -> Option<Seq<char>> {
    match o {
        Some(s) => Some(s@),
        None => None,
    }
}

pub open spec fn has_prefix(s: Seq<char>, p: Seq<char>) -> bool {
    p.len() <= s.len() && s.take(p.len() as int) == p
}

pub proof fn lemma_pieces_len(s: Seq<char>)
    ensures
        pieces(s).len() >= 1,
    decreases s.len(),
{
    if s.len() > 0 {
        lemma_pieces_len(s.drop_last());
    }
}

/// Splitting at a whitespace character splits the pieces.
pub proof fn lemma_pieces_split(x: Seq<char>, w: char, y: Seq<char>)
    requires
        white(w),
    ensures
        pieces(x + seq![w] + y) == pieces(x) + pieces(y),
    decreases y.len(),
{
    let s = x + seq![w] + y;
    if y.len() == 0 {
        assert(s == x + seq![w]);
        assert(s.drop_last() == x);
        assert(pieces(s) =~= pieces(x) + pieces(y));
    } else {
        let y0 = y.drop_last();
        lemma_pieces_split(x, w, y0);
        lemma_pieces_len(y0);
        assert(s.drop_last() == x + seq![w] + y0);
        assert(s.last() == y.last());
        assert(pieces(s) =~= pieces(x) + pieces(y));
    }
}

/// A word is a single piece.
pub proof fn lemma_pieces_of_word(w: Seq<char>)
    requires
        forall|i: int| 0 <= i < w.len() ==> !white(#[trigger] w[i]),
    ensures
        pieces(w) == seq![w],
    decreases w.len(),
{
    if w.len() == 0 {
        assert(w =~= Seq::empty());
    } else {
        let w0 = w.drop_last();
        assert forall|i: int| 0 <= i < w0.len() implies !white(#[trigger] w0[i]) by {
            assert(w0[i] == w[i]);
        }
        lemma_pieces_of_word(w0);
        assert(!white(w[w.len() - 1]));
        assert(w0.push(w.last()) == w);
        assert(pieces(w) =~= seq![w]);
    }
}

pub proof fn lemma_filter_all_nonempty(ws: Seq<Seq<char>>)
    requires
        forall|i: int| 0 <= i < ws.len() ==> nonempty(#[trigger] ws[i]),
    ensures
        ws.filter(keep()) == ws,
    decreases ws.len(),
{
    reveal(Seq::filter);
    if ws.len() > 0 {
        let w0 = ws.drop_last();
        assert forall|i: int| 0 <= i < w0.len() implies nonempty(#[trigger] w0[i]) by {
            assert(w0[i] == ws[i]);
        }
        lemma_filter_all_nonempty(w0);
        assert(w0.push(ws.last()) =~= ws);
    }
}

/// Doubling a whitespace character, or putting another whitespace character in
/// its place, leaves the words unchanged: tags read from `"a  b c"` and from
/// `"a b c"` are the same.
pub proof fn law_words_ignore_spacing(a: Seq<char>, b: Seq<char>, w1: char, w2: char)
    requires
        white(w1),
        white(w2),
    ensures
        words(a + seq![w1, w2] + b) == words(a + seq![w1] + b),
        words(a + seq![w2] + b) == words(a + seq![w1] + b),
{
    let ghost keep = keep();
    lemma_pieces_split(a, w1, b);
    lemma_pieces_split(a, w2, b);
    lemma_pieces_split(a, w1, seq![w2] + b);
    lemma_pieces_split(Seq::empty(), w2, b);
    assert(a + seq![w1, w2] + b == a + seq![w1] + (seq![w2] + b));
    assert(Seq::<char>::empty() + seq![w2] + b == seq![w2] + b);
    assert(pieces(Seq::<char>::empty()) == seq![Seq::<char>::empty()]);
    let pa = pieces(a);
    let pb = pieces(b);
    let e = seq![Seq::<char>::empty()];
    assert(pieces(a + seq![w1, w2] + b) == pa + (e + pb));
    Seq::filter_distributes_over_add(pa, e + pb, keep);
    Seq::filter_distributes_over_add(e, pb, keep);
    Seq::filter_distributes_over_add(pa, pb, keep);
    reveal_with_fuel(Seq::filter, 2);
    assert(e.drop_last() =~= Seq::<Seq<char>>::empty());
    assert(!keep(e.last()));
    assert(e.filter(keep) =~= Seq::<Seq<char>>::empty());
    assert(e.filter(keep) + pb.filter(keep) =~= pb.filter(keep));
}

/// Tags joined by spaces read back as the same tags.
pub proof fn law_words_of_joined(ws: Seq<Seq<char>>)
    requires
        forall|i: int| 0 <= i < ws.len() ==> is_word(#[trigger] ws[i]),
    ensures
        words(joined(ws)) == ws,
{
    lemma_pieces_of_joined(ws);
    if ws.len() == 0 {
        reveal_with_fuel(Seq::filter, 2);
        let e = seq![Seq::<char>::empty()];
        assert(pieces(joined(ws)) == e);
        assert(e.drop_last() =~= Seq::<Seq<char>>::empty());
        assert(!nonempty(e.last()));
        assert(words(joined(ws)) =~= ws);
    } else {
        assert forall|i: int| 0 <= i < ws.len() implies nonempty(#[trigger] ws[i]) by {
            assert(is_word(ws[i]));
        }
        lemma_filter_all_nonempty(ws);
    }
}

proof fn lemma_pieces_of_joined(ws: Seq<Seq<char>>)
    requires
        forall|i: int| 0 <= i < ws.len() ==> is_word(#[trigger] ws[i]),
    ensures
        ws.len() > 0 ==> pieces(joined(ws)) == ws,
    decreases ws.len(),
{
    if ws.len() == 1 {
        assert(is_word(ws[0]));
        lemma_pieces_of_word(ws[0]);
        assert(seq![ws[0]] =~= ws);
    } else if ws.len() > 1 {
        let w0 = ws.drop_last();
        assert forall|i: int| 0 <= i < w0.len() implies is_word(#[trigger] w0[i]) by {
            assert(w0[i] == ws[i]);
        }
        lemma_pieces_of_joined(w0);
        assert(is_word(ws[ws.len() - 1]));
        lemma_pieces_of_word(ws.last());
        lemma_pieces_split(joined(w0), ' ', ws.last());
        assert(w0 + seq![ws.last()] =~= ws);
    }
}

/// The whitespace-separated words of `s`, empty ones left out.
pub fn split_words(s: &str) -> (r: Vec<String>)
    ensures
        views(r@) == words(s@),
{
    let n = s.unicode_len();
    let mut r: Vec<String> = Vec::new();
    let mut start: usize = 0;
    let mut i: usize = 0;
    proof {
        reveal(Seq::filter);
        lemma_pieces_len(s@.take(0));
        assert(s@.take(0) =~= Seq::<char>::empty());
        assert(s@.subrange(0, 0) =~= Seq::<char>::empty());
        assert(seq![Seq::<char>::empty()].drop_last() =~= Seq::<Seq<char>>::empty());
        assert(views(r@) =~= Seq::<Seq<char>>::empty());
    }
    while i < n
        invariant
            n == s@.len(),
            start <= i <= n,
            pieces(s@.take(i as int)).len() >= 1,
            pieces(s@.take(i as int)).last() == s@.subrange(start as int, i as int),
            views(r@) == pieces(s@.take(i as int)).drop_last().filter(keep()),
        decreases n - i,
    {
        let c = s.get_char(i);
        proof {
            lemma_pieces_len(s@.take(i + 1));
            assert(s@.take(i + 1).drop_last() =~= s@.take(i as int));
            assert(s@.take(i + 1).last() == c);
        }
        let ghost p = pieces(s@.take(i as int));
        if is_white(c) {
            let ghost r0 = r@;
            if start < i {
                let w = s.substring_char(start, i).to_owned();
                r.push(w);
                proof {
                    assert(views(r@) =~= views(r0).push(p.last()));
                }
            }
            proof {
                reveal(Seq::filter);
                assert(p.len() > 0);
                assert(p.last() == s@.subrange(start as int, i as int));
                assert(keep()(p.last()) == (start < i));
                assert(pieces(s@.take(i + 1)) == p.push(Seq::empty()));
                assert(p.push(Seq::<char>::empty()).drop_last() =~= p);
                assert(p == p.drop_last().push(p.last()));
                assert(views(r@) =~= p.filter(keep()));
                assert(s@.subrange(i + 1, i + 1) =~= Seq::<char>::empty());
            }
            start = i + 1;
        } else {
            proof {
                let q = p.update(p.len() - 1, p.last().push(c));
                assert(pieces(s@.take(i + 1)) == q);
                assert(q.drop_last() =~= p.drop_last());
                assert(s@.subrange(start as int, i + 1) =~= s@.subrange(start as int, i as int).push(c));
            }
        }
        i = i + 1;
    }
    proof {
        assert(s@.take(n as int) =~= s@);
        lemma_pieces_len(s@);
    }
    let ghost p = pieces(s@);
    let ghost r0 = r@;
    if start < n {
        let w = s.substring_char(start, n).to_owned();
        r.push(w);
        proof {
            assert(views(r@) =~= views(r0).push(p.last()));
        }
    }
    proof {
        reveal(Seq::filter);
        assert(p == p.drop_last().push(p.last()));
        assert(views(r@) =~= p.filter(keep()));
    }
    r
}

/// The words joined by single spaces.
pub fn join_words(ws: &Vec<String>) -> (r: String)
    ensures
        r@ == joined(views(ws@)),
{
    let mut r = String::new();
    let mut i: usize = 0;
    while i < ws.len()
        invariant
            i <= ws.len(),
            r@ == joined(views(ws@).take(i as int)),
        decreases ws.len() - i,
    {
        proof {
            assert(views(ws@).take(i + 1).drop_last() =~= views(ws@).take(i as int));
            assert(views(ws@).take(i + 1).last() == ws@[i as int]@);
        }
        if i > 0 {
            r.append(" ");
            proof {
                reveal_strlit(" ");
            }
        }
        r.append(ws[i].as_str());
        proof {
            if i == 0 {
                assert(r@ =~= joined(views(ws@).take(1)));
            } else {
                assert(r@ =~= joined(views(ws@).take(i + 1)));
            }
        }
        i = i + 1;
    }
    proof {
        assert(views(ws@).take(ws@.len() as int) =~= views(ws@));
    }
    r
}

/// Whether `s` begins with `p`.
pub fn starts_with(s: &str, p: &str) -> (r: bool)
    ensures
        r == has_prefix(s@, p@),
{
    let n = s.unicode_len();
    let m = p.unicode_len();
    if m > n {
        return false;
    }
    let mut i: usize = 0;
    while i < m
        invariant
            m <= n,
            n == s@.len(),
            m == p@.len(),
            i <= m,
            s@.take(i as int) == p@.take(i as int),
        decreases m - i,
    {
        if s.get_char(i) != p.get_char(i) {
            proof {
                assert(s@.take(m as int)[i as int] != p@[i as int]);
            }
            return false;
        }
        proof {
            assert(s@.take(i + 1) =~= p@.take(i + 1));
        }
        i = i + 1;
    }
    proof {
        assert(p@.take(m as int) =~= p@);
    }
    true
}

/// Whether `c` occurs in `s`.
pub fn contains_char(s: &str, c: char) -> (r: bool)
    ensures
        r == s@.contains(c),
{
    let n = s.unicode_len();
    let mut i: usize = 0;
    while i < n
        invariant
            n == s@.len(),
            i <= n,
            forall|j: int| 0 <= j < i ==> s@[j] != c,
        decreases n - i,
    {
        if s.get_char(i) == c {
            return true;
        }
        i = i + 1;
    }
    false
}

/// Whether `a` and `b` hold the same characters.
pub fn same_text(a: &str, b: &str) -> (r: bool)
    ensures
        r == (a@ == b@),
{
    if a.unicode_len() != b.unicode_len() {
        return false;
    }
    let r = starts_with(a, b);
    proof {
        assert(a@.take(b@.len() as int) =~= a@);
    }
    r
}

} // verus!
