//! Bookmarks, the store that holds them keyed by exact URL, and the pages
//! generated from the store.

use vstd::prelude::*;
use vstd::string::*;
use crate::text::{is_word, opt_text, join_words, joined, same_text, views};

verus! {

/// A saved page: its name, an optional description, its URL and its tags.
pub struct Bookmark {
    pub name: String,
    pub description: Option<String>,
    pub url: String,
    pub tags: Vec<String>,
}

pub ghost struct BookmarkView {
    pub name: Seq<char>,
    pub description: Option<Seq<char>>,
    pub url: Seq<char>,
    pub tags: Seq<Seq<char>>,
}

impl View for Bookmark {
    type V = BookmarkView;

    open spec fn view(&self) -> BookmarkView {
        BookmarkView {
            name: self.name@,
            description: opt_text(self.description),
            url: self.url@,
            tags: views(self.tags@),
        }
    }
}

impl BookmarkView {
    /// What a bookmark made from the edit form looks like: its tags are words
    /// and its description, if any, is not empty.
    pub open spec fn wf(self) -> bool {
        &&& forall|i: int| 0 <= i < self.tags.len() ==> is_word(#[trigger] self.tags[i])
        &&& match self.description {
            Some(d) => d.len() > 0,
            None => true,
        }
    }
}

impl Bookmark {
    pub fn new(name: String, description: Option<String>, url: String, tags: Vec<String>) -> (r:
        Bookmark)
        ensures
            r@ == (BookmarkView {
                name: name@,
                description: opt_text(description),
                url: url@,
                tags: views(tags@),
            }),
    {
        Bookmark { name, description, url, tags }
    }

    pub fn name(&self) -> (r: &String)
        ensures
            r@ == self@.name,
    {
        &self.name
    }

    pub fn description(&self) -> (r: &Option<String>)
        ensures
            opt_text(*r) == self@.description,
    {
        &self.description
    }

    pub fn url(&self) -> (r: &String)
        ensures
            r@ == self@.url,
    {
        &self.url
    }

    pub fn tags(&self) -> (r: &Vec<String>)
        ensures
            views(r@) == self@.tags,
    {
        &self.tags
    }

    /// Whether one of the tags is `tag`.
    pub fn has_tag(&self, tag: &str) -> (r: bool)
        ensures
            r == self@.tags.contains(tag@),
    {
        let mut k: usize = 0;
        while k < self.tags.len()
            invariant
                k <= self.tags.len(),
                forall|j: int| 0 <= j < k ==> self@.tags[j] != tag@,
            decreases self.tags.len() - k,
        {
            if same_text(self.tags[k].as_str(), tag) {
                proof {
                    assert(self@.tags[k as int] == tag@);
                }
                return true;
            }
            k = k + 1;
        }
        false
    }
}

pub open spec fn has_url(bs: Seq<BookmarkView>, u: Seq<char>) -> bool {
    exists|i: int| 0 <= i < bs.len() && (#[trigger] bs[i]).url == u
}

pub open spec fn urls_unique(bs: Seq<BookmarkView>) -> bool {
    forall|i: int, j: int|
        0 <= i < bs.len() && 0 <= j < bs.len() && i != j ==> (#[trigger] bs[i]).url != (
        #[trigger] bs[j]).url
}

/// The entry whose URL is exactly `u`, if any.
pub open spec fn find(bs: Seq<BookmarkView>, u: Seq<char>) -> Option<BookmarkView>
    decreases bs.len(),
{
    if bs.len() == 0 {
        None
    } else if bs.last().url == u {
        Some(bs.last())
    } else {
        find(bs.drop_last(), u)
    }
}

/// `b` in place of the entry with its URL, or added at the end.
pub open spec fn upserted(bs: Seq<BookmarkView>, b: BookmarkView) -> Seq<BookmarkView> {
    if has_url(bs, b.url) {
        bs.map_values(|e: BookmarkView| if e.url == b.url { b } else { e })
    } else {
        bs.push(b)
    }
}

pub open spec fn tagged(bs: Seq<BookmarkView>, tag: Seq<char>) -> Seq<BookmarkView> {
    bs.filter(|b: BookmarkView| b.tags.contains(tag))
}

/// Every tag of every entry, in order, repeats included.
pub open spec fn all_tags(bs: Seq<BookmarkView>) -> Seq<Seq<char>>
    decreases bs.len(),
{
    if bs.len() == 0 {
        Seq::empty()
    } else {
        all_tags(bs.drop_last()) + bs.last().tags
    }
}

/// Each value once, in the order of first occurrence.
pub open spec fn distinct(ts: Seq<Seq<char>>) -> Seq<Seq<char>>
    decreases ts.len(),
{
    if ts.len() == 0 {
        Seq::empty()
    } else if distinct(ts.drop_last()).contains(ts.last()) {
        distinct(ts.drop_last())
    } else {
        distinct(ts.drop_last()).push(ts.last())
    }
}

pub open spec fn description_text(d: Option<Seq<char>>) -> Seq<char> {
    match d {
        Some(t) => t + "\n"@,
        None => Seq::empty(),
    }
}

pub open spec fn tags_text(ts: Seq<Seq<char>>) -> Seq<char> {
    if ts.len() > 0 {
        "Tags: "@ + joined(ts) + "\n"@
    } else {
        Seq::empty()
    }
}

/// One bookmark in a listing: a heading, the description, a link, the tags.
pub open spec fn entry_text(b: BookmarkView) -> Seq<char> {
    "### "@ + b.name + "\n"@ + description_text(b.description) + "=> "@ + b.url + "\n"@
        + tags_text(b.tags) + "\n"@
}

pub open spec fn entries_text(bs: Seq<BookmarkView>) -> Seq<char>
    decreases bs.len(),
{
    if bs.len() == 0 {
        Seq::empty()
    } else {
        entries_text(bs.drop_last()) + entry_text(bs.last())
    }
}

/// A titled page that lists the given bookmarks, in order.
pub open spec fn listing(title: Seq<char>, bs: Seq<BookmarkView>) -> Seq<char> {
    "# "@ + title + "\n\n"@ + entries_text(bs)
}

pub open spec fn tag_lines(ts: Seq<Seq<char>>) -> Seq<char>
    decreases ts.len(),
{
    if ts.len() == 0 {
        Seq::empty()
    } else {
        tag_lines(ts.drop_last()) + "=> eva://bookmarks/tags/"@ + ts.last() + " "@ + ts.last()
            + "\n"@
    }
}

/// The page of all bookmarks.
pub open spec fn bookmarks_page(bs: Seq<BookmarkView>) -> Seq<char> {
    listing("Bookmarks"@, bs)
}

/// The page that links each distinct tag to its own listing.
pub open spec fn tags_page(bs: Seq<BookmarkView>) -> Seq<char> {
    "# Bookmark Tags\n\n"@ + tag_lines(distinct(all_tags(bs)))
}

/// The page of the bookmarks that carry `tag`.
pub open spec fn tag_page(bs: Seq<BookmarkView>, tag: Seq<char>) -> Seq<char> {
    listing("Bookmarks tagged "@ + tag, tagged(bs, tag))
}

pub proof fn lemma_entries_text_add(a: Seq<BookmarkView>, b: Seq<BookmarkView>)
    ensures
        entries_text(a + b) == entries_text(a) + entries_text(b),
    decreases b.len(),
{
    if b.len() == 0 {
        assert(a + b =~= a);
        assert(entries_text(a) + entries_text(b) =~= entries_text(a));
    } else {
        lemma_entries_text_add(a, b.drop_last());
        assert((a + b).drop_last() =~= a + b.drop_last());
        assert(entries_text(a + b) =~= entries_text(a) + entries_text(b));
    }
}

/// The page of all bookmarks holds the entry of each bookmark of the store, in
/// store order, between the entries before it and those after it, whatever
/// page was shown before.
pub proof fn law_bookmarks_page_lists_each(bs: Seq<BookmarkView>, i: int)
    requires
        0 <= i < bs.len(),
    ensures
        bookmarks_page(bs) == "# Bookmarks\n\n"@ + entries_text(bs.take(i)) + entry_text(bs[i])
            + entries_text(bs.skip(i + 1)),
{
    let one = seq![bs[i]];
    assert(bs =~= bs.take(i) + one + bs.skip(i + 1));
    lemma_entries_text_add(bs.take(i) + one, bs.skip(i + 1));
    lemma_entries_text_add(bs.take(i), one);
    assert(one.drop_last() =~= Seq::<BookmarkView>::empty());
    assert(entries_text(Seq::<BookmarkView>::empty()) == Seq::<char>::empty());
    assert(one.last() == bs[i]);
    assert(entries_text(one) =~= entry_text(bs[i]));
    reveal_strlit("# Bookmarks\n\n");
    reveal_strlit("# ");
    reveal_strlit("Bookmarks");
    reveal_strlit("\n\n");
    assert(bookmarks_page(bs) =~= "# Bookmarks\n\n"@ + entries_text(bs.take(i)) + entry_text(bs[i])
        + entries_text(bs.skip(i + 1)));
}

/// The page of a tag lists a bookmark exactly when the store holds it and one
/// of its tags is that tag.
pub proof fn law_tag_page_holds_exactly_tagged(bs: Seq<BookmarkView>, tag: Seq<char>, b: BookmarkView)
    ensures
        tagged(bs, tag).contains(b) <==> (bs.contains(b) && b.tags.contains(tag)),
{
    let pred = |x: BookmarkView| x.tags.contains(tag);
    if bs.contains(b) && b.tags.contains(tag) {
        let j = choose|j: int| 0 <= j < bs.len() && bs[j] == b;
        bs.lemma_filter_contains(pred, j);
    }
    if tagged(bs, tag).contains(b) {
        bs.lemma_filter_contains_rev(pred, b);
        let k = choose|k: int| 0 <= k < tagged(bs, tag).len() && tagged(bs, tag)[k] == b;
        bs.lemma_filter_pred(pred, k);
    }
}

/// Appends the listing entry of `b` to `out`.
pub fn push_entry(out: &mut String, b: &Bookmark)
    ensures
        final(out)@ == old(out)@ + entry_text(b@),
{
    out.append("### ");
    out.append(b.name.as_str());
    out.append("\n");
    match &b.description {
        Some(d) => {
            out.append(d.as_str());
            out.append("\n");
        },
        None => {},
    }
    out.append("=> ");
    out.append(b.url.as_str());
    out.append("\n");
    if b.tags.len() > 0 {
        out.append("Tags: ");
        let t = join_words(&b.tags);
        out.append(t.as_str());
        out.append("\n");
    }
    out.append("\n");
    proof {
        assert(final(out)@ =~= old(out)@ + entry_text(b@));
    }
}

/// All bookmarks, at most one per exact URL, in the order they were added.
pub struct BookmarkStore {
    entries: Vec<Bookmark>,
}

impl View for BookmarkStore {
    type V = Seq<BookmarkView>;

    closed spec fn view(&self) -> Seq<BookmarkView> {
        self.entries@.map_values(|b: Bookmark| b@)
    }
}

impl BookmarkStore {
    pub open spec fn wf(&self) -> bool {
        urls_unique(self@)
    }

    pub fn new() -> (r: BookmarkStore)
        ensures
            r.wf(),
            r@ == Seq::<BookmarkView>::empty(),
    {
        let r = BookmarkStore { entries: Vec::new() };
        proof {
            assert(r@ =~= Seq::<BookmarkView>::empty());
        }
        r
    }

    pub fn len(&self) -> (r: usize)
        ensures
            r == self@.len(),
    {
        self.entries.len()
    }

    pub fn get(&self, i: usize) -> (r: &Bookmark)
        requires
            i < self@.len(),
        ensures
            r@ == self@[i as int],
    {
        &self.entries[i]
    }

    /// The bookmark whose URL is exactly `url`.
    pub fn lookup(&self, url: &str) -> (r: Option<&Bookmark>)
        ensures
            match r {
                Some(b) => find(self@, url@) == Some(b@),
                None => find(self@, url@) is None,
            },
    {
        let mut j: usize = self.entries.len();
        proof {
            assert(self@.take(j as int) =~= self@);
        }
        while j > 0
            invariant
                j <= self@.len(),
                self@.len() == self.entries@.len(),
                find(self@, url@) == find(self@.take(j as int), url@),
            decreases j,
        {
            proof {
                assert(self@.take(j as int).drop_last() =~= self@.take(j - 1));
                assert(self@.take(j as int).last() == self.entries@[j - 1]@);
            }
            j = j - 1;
            if same_text(self.entries[j].url.as_str(), url) {
                return Some(&self.entries[j]);
            }
        }
        proof {
            assert(self@.take(0) =~= Seq::<BookmarkView>::empty());
        }
        None
    }

    /// Puts `b` in place of the bookmark with the same URL, or adds it at the end.
    pub fn update(&mut self, b: Bookmark)
        requires
            old(self).wf(),
        ensures
            final(self).wf(),
            final(self)@ == upserted(old(self)@, b@),
    {
        let ghost bv = b@;
        let ghost s0 = self@;
        let mut i: usize = 0;
        while i < self.entries.len()
            invariant
                i <= self.entries@.len(),
                self@ == s0,
                s0 == old(self)@,
                urls_unique(s0),
                bv == b@,
                self@.len() == self.entries@.len(),
                forall|j: int| 0 <= j < i ==> self@[j].url != bv.url,
            decreases self.entries.len() - i,
        {
            proof {
                assert(self@[i as int] == self.entries@[i as int]@);
            }
            if same_text(self.entries[i].url.as_str(), b.url.as_str()) {
                proof {
                    assert(s0[i as int].url == bv.url);
                }
                self.entries.set(i, b);
                proof {
                    assert(has_url(s0, bv.url));
                    assert forall|j: int| 0 <= j < s0.len() && j != i implies s0[j].url != bv.url by {
                        assert(s0[j].url != s0[i as int].url);
                    }
                    assert(self@ =~= s0.map_values(
                        |e: BookmarkView| if e.url == bv.url { bv } else { e },
                    ));
                    assert(self@ == upserted(s0, bv));
                    assert forall|x: int, y: int|
                        0 <= x < self@.len() && 0 <= y < self@.len() && x != y implies (
                        #[trigger] self@[x]).url != (#[trigger] self@[y]).url by {
                        assert(self@[x].url == s0[x].url);
                        assert(self@[y].url == s0[y].url);
                    }
                }
                return;
            }
            i = i + 1;
        }
        self.entries.push(b);
        proof {
            assert(self@ =~= s0.push(bv));
            assert(!has_url(s0, bv.url));
        }
    }

    /// The page of all bookmarks.
    pub fn to_gmi(&self) -> (r: String)
        ensures
            r@ == bookmarks_page(self@),
    {
        let mut out = String::from_str("# Bookmarks\n\n");
        let mut i: usize = 0;
        proof {
            assert(self@.take(0) =~= Seq::<BookmarkView>::empty());
        }
        while i < self.entries.len()
            invariant
                i <= self@.len(),
                self@.len() == self.entries@.len(),
                out@ == "# Bookmarks\n\n"@ + entries_text(self@.take(i as int)),
            decreases self.entries.len() - i,
        {
            proof {
                assert(self@.take(i + 1).drop_last() =~= self@.take(i as int));
                assert(self@.take(i + 1).last() == self.entries@[i as int]@);
            }
            push_entry(&mut out, &self.entries[i]);
            proof {
                assert(out@ =~= "# Bookmarks\n\n"@ + entries_text(self@.take(i + 1)));
            }
            i = i + 1;
        }
        proof {
            assert(self@.take(i as int) =~= self@);
            reveal_strlit("# Bookmarks\n\n");
            reveal_strlit("# ");
            reveal_strlit("Bookmarks");
            reveal_strlit("\n\n");
            assert(out@ =~= bookmarks_page(self@));
        }
        out
    }

    /// Each tag of the store once, in the order of first occurrence.
    pub fn distinct_tags(&self) -> (r: Vec<String>)
        ensures
            views(r@) == distinct(all_tags(self@)),
    {
        let mut r: Vec<String> = Vec::new();
        let mut i: usize = 0;
        proof {
            assert(self@.take(0) =~= Seq::<BookmarkView>::empty());
            assert(views(r@) =~= Seq::<Seq<char>>::empty());
        }
        while i < self.entries.len()
            invariant
                i <= self@.len(),
                self@.len() == self.entries@.len(),
                views(r@) == distinct(all_tags(self@.take(i as int))),
            decreases self.entries.len() - i,
        {
            let tags = &self.entries[i].tags;
            let ghost before = all_tags(self@.take(i as int));
            let ghost tv = views(tags@);
            proof {
                assert(self@.take(i + 1).drop_last() =~= self@.take(i as int));
                assert(self@.take(i + 1).last() == self.entries@[i as int]@);
                assert(before + tv.take(0) =~= before);
            }
            let mut k: usize = 0;
            while k < tags.len()
                invariant
                    k <= tags@.len(),
                    tv == views(tags@),
                    views(r@) == distinct(before + tv.take(k as int)),
                decreases tags.len() - k,
            {
                let ghost ts = before + tv.take(k + 1);
                proof {
                    assert(ts.drop_last() =~= before + tv.take(k as int));
                    assert(ts.last() == tags@[k as int]@);
                }
                let mut seen = false;
                let mut m: usize = 0;
                while m < r.len()
                    invariant
                        m <= r@.len(),
                        k < tags@.len(),
                        seen == views(r@).take(m as int).contains(tags@[k as int]@),
                    decreases r.len() - m,
                {
                    proof {
                        assert(views(r@).take(m + 1) =~= views(r@).take(m as int).push(r@[m as int]@));
                    }
                    let same = same_text(r[m].as_str(), tags[k].as_str());
                    if same {
                        seen = true;
                    }
                    proof {
                        let t = tags@[k as int]@;
                        let a = views(r@).take(m as int);
                        let b = views(r@).take(m + 1);
                        if same {
                            assert(b[m as int] == t);
                        } else if !a.contains(t) {
                            assert forall|j: int| 0 <= j < b.len() implies b[j] != t by {
                                if j < m {
                                    assert(b[j] == a[j]);
                                }
                            }
                        } else {
                            let j = choose|j: int| 0 <= j < a.len() && a[j] == t;
                            assert(b[j] == t);
                        }
                    }
                    m = m + 1;
                }
                proof {
                    assert(views(r@).take(m as int) =~= views(r@));
                }
                if !seen {
                    let ghost r0 = r@;
                    r.push(tags[k].clone());
                    proof {
                        assert(views(r@) =~= views(r0).push(tags@[k as int]@));
                    }
                }
                k = k + 1;
            }
            proof {
                assert(tv.take(k as int) =~= tv);
            }
            i = i + 1;
        }
        proof {
            assert(self@.take(i as int) =~= self@);
        }
        r
    }

    /// The page that links each distinct tag to the listing of its bookmarks.
    pub fn tags_to_gmi(&self) -> (r: String)
        ensures
            r@ == tags_page(self@),
    {
        let tags = self.distinct_tags();
        let ghost tv = views(tags@);
        let mut out = String::from_str("# Bookmark Tags\n\n");
        let mut k: usize = 0;
        proof {
            assert(tv.take(0) =~= Seq::<Seq<char>>::empty());
        }
        while k < tags.len()
            invariant
                k <= tags@.len(),
                tv == views(tags@),
                out@ == "# Bookmark Tags\n\n"@ + tag_lines(tv.take(k as int)),
            decreases tags.len() - k,
        {
            proof {
                assert(tv.take(k + 1).drop_last() =~= tv.take(k as int));
                assert(tv.take(k + 1).last() == tags@[k as int]@);
            }
            out.append("=> eva://bookmarks/tags/");
            out.append(tags[k].as_str());
            out.append(" ");
            out.append(tags[k].as_str());
            out.append("\n");
            proof {
                assert(out@ =~= "# Bookmark Tags\n\n"@ + tag_lines(tv.take(k + 1)));
            }
            k = k + 1;
        }
        proof {
            assert(tv.take(k as int) =~= tv);
        }
        out
    }

    /// The page of the bookmarks tagged `tag`, or `None` when none is.
    pub fn tag_to_gmi(&self, tag: &str) -> (r: Option<String>)
        ensures
            match r {
                Some(p) => tagged(self@, tag@).len() > 0 && p@ == tag_page(self@, tag@),
                None => tagged(self@, tag@).len() == 0,
            },
    {
        let ghost pred = |b: BookmarkView| b.tags.contains(tag@);
        let mut out = String::from_str("# ");
        out.append("Bookmarks tagged ");
        out.append(tag);
        out.append("\n\n");
        let ghost head = out@;
        let mut found = false;
        let mut i: usize = 0;
        proof {
            reveal(Seq::filter);
            assert(self@.take(0) =~= Seq::<BookmarkView>::empty());
        }
        while i < self.entries.len()
            invariant
                i <= self@.len(),
                self@.len() == self.entries@.len(),
                pred == (|b: BookmarkView| b.tags.contains(tag@)),
                out@ == head + entries_text(self@.take(i as int).filter(pred)),
                found == (self@.take(i as int).filter(pred).len() > 0),
            decreases self.entries.len() - i,
        {
            proof {
                reveal(Seq::filter);
                assert(self@.take(i + 1).drop_last() =~= self@.take(i as int));
                assert(self@.take(i + 1).last() == self.entries@[i as int]@);
            }
            if self.entries[i].has_tag(tag) {
                push_entry(&mut out, &self.entries[i]);
                found = true;
                proof {
                    let f = self@.take(i as int).filter(pred).push(self.entries@[i as int]@);
                    assert(f.drop_last() =~= self@.take(i as int).filter(pred));
                    assert(out@ =~= head + entries_text(f));
                }
            }
            i = i + 1;
        }
        proof {
            assert(self@.take(i as int) =~= self@);
            assert(out@ =~= tag_page(self@, tag@));
        }
        if found {
            Some(out)
        } else {
            None
        }
    }
}

} // verus!
