//! One browser tab: the state its chrome shows and the decisions taken on
//! each event of its content engine. The engine and the widgets live outside;
//! they hand events in and carry out the pages and navigations handed back.

use vstd::prelude::*;
use vstd::string::*;
use crate::bookmarks::{
    bookmarks_page, find, tag_page, tagged, tags_page, Bookmark, BookmarkStore, BookmarkView,
};
use crate::text::{
    contains_char, has_prefix, join_words, joined, law_words_of_joined, same_text, split_words,
    opt_text, starts_with, words,
};
use crate::web::{UrlParts, parse_url, percent_encode, url_encode, url_parts};
use vstd::utf8::{decode_utf8, encode_utf8, valid_utf8};

verus! {

/// Whether the bookmark form creates a new bookmark or edits a stored one.
#[derive(PartialEq, Eq, Structural, Clone, Copy, Debug)]
pub enum EditorMode {
    Create,
    Edit,
}

/// The fields of the bookmark form.
pub struct BookmarkEditor {
    pub mode: EditorMode,
    pub name: String,
    pub description: String,
    pub url: String,
    pub tags: String,
}

pub ghost struct FormView {
    pub edit: bool,
    pub name: Seq<char>,
    pub description: Seq<char>,
    pub url: Seq<char>,
    pub tags: Seq<char>,
}

impl View for BookmarkEditor {
    type V = FormView;

    open spec fn view(&self) -> FormView {
        FormView {
            edit: self.mode == EditorMode::Edit,
            name: self.name@,
            description: self.description@,
            url: self.url@,
            tags: self.tags@,
        }
    }
}

/// The form showing a stored bookmark.
pub open spec fn edit_form(b: BookmarkView) -> FormView {
    FormView {
        edit: true,
        name: b.name,
        description: match b.description {
            Some(d) => d,
            None => Seq::empty(),
        },
        url: b.url,
        tags: joined(b.tags),
    }
}

/// The form offering to bookmark `uri`, named after its host.
pub open spec fn create_form(host: Option<Seq<char>>, uri: Seq<char>) -> FormView {
    FormView {
        edit: false,
        name: match host {
            Some(h) => h,
            None => "Unknown host"@,
        },
        description: Seq::empty(),
        url: uri,
        tags: Seq::empty(),
    }
}

/// The bookmark that a form describes.
pub open spec fn form_bookmark(f: FormView) -> BookmarkView {
    BookmarkView {
        name: f.name,
        description: if f.description.len() == 0 {
            None
        } else {
            Some(f.description)
        },
        url: f.url,
        tags: words(f.tags),
    }
}

/// A bookmark shown in the form and read back from it is the same bookmark,
/// for every bookmark whose tags are words and whose description, if any, is
/// not empty.
pub proof fn law_form_round_trip(b: BookmarkView)
    requires
        b.wf(),
    ensures
        form_bookmark(edit_form(b)) == b,
{
    law_words_of_joined(b.tags);
}

impl BookmarkEditor {
    pub fn new() -> (r: BookmarkEditor)
        ensures
            r@ == create_form(Some(Seq::empty()), Seq::empty()),
    {
        BookmarkEditor {
            mode: EditorMode::Create,
            name: String::new(),
            description: String::new(),
            url: String::new(),
            tags: String::new(),
        }
    }

    /// The bookmark described by the form: an empty description is none, and
    /// the tags are the whitespace-separated words of the tags field.
    pub fn to_bookmark(&self) -> (r: Bookmark)
        ensures
            r@ == form_bookmark(self@),
    {
        let description = if self.description.unicode_len() == 0 {
            None
        } else {
            Some(self.description.clone())
        };
        let tags = split_words(self.tags.as_str());
        Bookmark::new(self.name.clone(), description, self.url.clone(), tags)
    }

    /// Fills the form from a stored bookmark.
    pub fn show_bookmark(&mut self, b: &Bookmark)
        ensures
            final(self)@ == edit_form(b@),
    {
        self.mode = EditorMode::Edit;
        self.name = b.name.clone();
        self.description = match &b.description {
            Some(d) => d.clone(),
            None => String::new(),
        };
        self.url = b.url.clone();
        self.tags = join_words(&b.tags);
    }

    /// Offers to bookmark `uri`, named after `host`.
    pub fn show_new(&mut self, host: &Option<String>, uri: &str)
        ensures
            final(self)@ == create_form(opt_text(*host), uri@),
    {
        self.mode = EditorMode::Create;
        self.name = match host {
            Some(h) => h.clone(),
            None => String::from_str("Unknown host"),
        };
        self.description = String::new();
        self.url = uri.to_owned();
        self.tags = String::new();
    }
}

/// The tab's title and its loading indicator.
pub struct Label {
    pub text: String,
    pub spinning: bool,
}

impl Label {
    pub fn new() -> (r: Label)
        ensures
            r.text@ == "about:blank"@,
            !r.spinning,
    {
        Label { text: String::from_str("about:blank"), spinning: false }
    }

    pub fn label(&self) -> (r: &String)
        ensures
            r@ == self.text@,
    {
        &self.text
    }
}

/// The prompt for a server's input request. `target` is the URL that a
/// response goes to while a request is pending; at most one is.
pub struct Input {
    pub prompt: String,
    pub visible: bool,
    pub open: bool,
    pub target: Option<String>,
}

/// The URL that a response to a prompt for `target` navigates to.
pub open spec fn response_url(target: Seq<char>, response: Seq<char>) -> Seq<char> {
    target + "?"@ + percent_encode(encode_utf8(response))
}

impl Input {
    pub fn new() -> (r: Input)
        ensures
            r.prompt@ == Seq::<char>::empty(),
            r.visible,
            !r.open,
            r.target is None,
    {
        Input { prompt: String::new(), visible: true, open: false, target: None }
    }

    pub fn show(&mut self)
        ensures
            final(self).open,
            final(self).prompt == old(self).prompt,
            final(self).visible == old(self).visible,
            final(self).target == old(self).target,
    {
        self.open = true;
    }

    pub fn request(&mut self, meta: &str)
        ensures
            final(self).open,
            final(self).prompt@ == meta@,
            final(self).visible == old(self).visible,
            final(self).target == old(self).target,
    {
        self.prompt = meta.to_owned();
        self.show();
    }

    /// Resolves the pending request with `response`: the URL to visit, or
    /// `None`, the prompt unchanged, when nothing is pending or `response` is
    /// empty.
    pub fn submit(&mut self, response: &str) -> (r: Option<String>)
        ensures
            match old(self).target {
                Some(t) if response@.len() > 0 => {
                    &&& r is Some
                    &&& r->0@ == response_url(t@, response@)
                    &&& final(self).target is None
                    &&& !final(self).open
                    &&& final(self).prompt == old(self).prompt
                    &&& final(self).visible == old(self).visible
                },
                _ => r is None && *final(self) == *old(self),
            },
    {
        if response.unicode_len() == 0 {
            return None;
        }
        match self.target.take() {
            None => None,
            Some(t) => {
                let mut url = t;
                url.append("?");
                let enc = url_encode(response);
                url.append(enc.as_str());
                self.open = false;
                Some(url)
            },
        }
    }
}

/// A generated page and the `eva:` URI it stands at.
pub enum Page {
    Gemtext { markup: String, uri: String },
    Text { text: String, uri: String },
}

pub ghost enum PageView {
    Gemtext(Seq<char>, Seq<char>),
    Text(Seq<char>, Seq<char>),
}

impl View for Page {
    type V = PageView;

    open spec fn view(&self) -> PageView {
        match self {
            Page::Gemtext { markup, uri } => PageView::Gemtext(markup@, uri@),
            Page::Text { text, uri } => PageView::Text(text@, uri@),
        }
    }
}

impl PageView {
    pub open spec fn uri(self) -> Seq<char> {
        match self {
            PageView::Gemtext(_, u) => u,
            PageView::Text(_, u) => u,
        }
    }
}

pub open spec fn page_opt(p: Option<Page>) -> Option<PageView> {
    match p {
        Some(q) => Some(q@),
        None => None,
    }
}

/// What `String::from_utf8_lossy` makes of a byte sequence.
pub uninterp spec fn lossy_text(b: Seq<u8>) -> Seq<char>;

/// Relies on `String::from_utf8_lossy`: the text depends on the bytes alone,
/// and valid UTF-8 is decoded as it is.
#[verifier::external_body]
fn decode_lossy(b: &Vec<u8>) -> (r: String)
    ensures
        r@ == lossy_text(b@),
        valid_utf8(b@) ==> r@ == decode_utf8(b@),
{
    String::from_utf8_lossy(b).into_owned()
}

/// Whether the top-level type of a MIME type, the part before the first `/`,
/// is `text`.
pub open spec fn is_text_mime(mime: Seq<char>) -> bool {
    has_prefix(mime, "text/"@) || mime == "text"@
}

/// The source page of a buffer: its text, where its MIME type is textual.
pub open spec fn source_page(mime: Seq<char>, content: Seq<u8>) -> Option<PageView> {
    if is_text_mime(mime) {
        Some(PageView::Text(lossy_text(content), "eva://source"@))
    } else {
        None
    }
}

/// A text page shows valid UTF-8 content exactly as its decoding.
pub open spec fn text_exact(p: Option<PageView>, content: Seq<u8>) -> bool {
    valid_utf8(content) ==> match p {
        Some(PageView::Text(t, _)) => t == decode_utf8(content),
        _ => true,
    }
}

/// Where an `eva:` URL leads, by its host and path.
pub ghost enum Route {
    Bookmarks,
    TagIndex,
    Tagged(Seq<char>),
    Source,
    Unknown,
}

pub open spec fn route_of(host: Option<Seq<char>>, path: Seq<char>) -> Route {
    if host == Some("bookmarks"@) {
        if path == ""@ || path == "/"@ {
            Route::Bookmarks
        } else if path == "/tags"@ || path == "/tags/"@ {
            Route::TagIndex
        } else if has_prefix(path, "/tags/"@) {
            Route::Tagged(path.skip(6))
        } else {
            Route::Unknown
        }
    } else if host == Some("source"@) {
        Route::Source
    } else {
        Route::Unknown
    }
}

/// The page that `uri` shows, if any, given the store and the current buffer.
pub open spec fn eva_page(
    bs: Seq<BookmarkView>,
    uri: Seq<char>,
    mime: Seq<char>,
    content: Seq<u8>,
) -> Option<PageView> {
    match url_parts(uri) {
        None => None,
        Some(parts) => routed_page(bs, parts.0, parts.1, mime, content),
    }
}

/// The page that an `eva:` URL with this host and path shows, if any.
pub open spec fn routed_page(
    bs: Seq<BookmarkView>,
    host: Option<Seq<char>>,
    path: Seq<char>,
    mime: Seq<char>,
    content: Seq<u8>,
) -> Option<PageView> {
    match route_of(host, path) {
            Route::Bookmarks => Some(PageView::Gemtext(bookmarks_page(bs), "eva://bookmarks"@)),
            Route::TagIndex => Some(PageView::Gemtext(tags_page(bs), "eva://bookmarks/tags"@)),
            Route::Tagged(t) => if tagged(bs, t).len() > 0 {
                Some(PageView::Gemtext(tag_page(bs, t), "eva://bookmarks/tags/"@ + t))
            } else {
                None
            },
            Route::Source => source_page(mime, content),
            Route::Unknown => None,
    }
}

pub open spec fn alphanumeric(c: char) -> bool {
    ('a' <= c && c <= 'z') || ('A' <= c && c <= 'Z') || ('0' <= c && c <= '9')
}

/// Relies on `fastrand::alphanumeric`: a random character among a-z, A-Z, 0-9.
#[verifier::external_body]
fn random_alphanumeric() -> (c: char)
    ensures
        alphanumeric(c),
{
    fastrand::alphanumeric()
}

/// Relies on `String::push`: appends one character.
#[verifier::external_body]
fn push_char(s: &mut String, c: char)
    ensures
        final(s)@ == old(s)@.push(c),
{
    s.push(c)
}

/// A random key of ten ASCII letters and digits that names a tab's widget.
pub fn random_name() -> (r: String)
    ensures
        r@.len() == 10,
        forall|i: int| 0 <= i < 10 ==> alphanumeric(#[trigger] r@[i]),
{
    let mut r = String::new();
    let mut i: usize = 0;
    while i < 10
        invariant
            i <= 10,
            r@.len() == i,
            forall|j: int| 0 <= j < i ==> alphanumeric(#[trigger] r@[j]),
        decreases 10 - i,
    {
        let c = random_alphanumeric();
        push_char(&mut r, c);
        i = i + 1;
    }
    r
}

/// A file to send to the current page.
pub struct Upload {
    pub url: String,
    pub data: Vec<u8>,
}

/// What to do with a URL whose scheme the content engine does not handle.
pub enum SchemeAction {
    /// Show a generated page.
    Show(Page),
    /// Hand the URL to the system's opener.
    Open(String),
    /// Nothing.
    Ignore,
}

/// One browser tab: what its chrome shows, its bookmark form, and its
/// pending input and upload requests.
pub struct Tab {
    pub name: String,
    pub label: Label,
    pub bookmark_editor: BookmarkEditor,
    pub input: Input,
    pub upload_open: bool,
    pub back_enabled: bool,
    pub forward_enabled: bool,
    pub reload_enabled: bool,
    pub address: String,
    pub bookmarked: bool,
}

impl Tab {
    /// All but the address, the label and the bookmark icon agree.
    pub open spec fn keeps_panels(self, o: Tab) -> bool {
        &&& self.name == o.name
        &&& self.bookmark_editor == o.bookmark_editor
        &&& self.input == o.input
        &&& self.upload_open == o.upload_open
        &&& self.back_enabled == o.back_enabled
        &&& self.forward_enabled == o.forward_enabled
        &&& self.reload_enabled == o.reload_enabled
    }

    /// `self` is `o` showing a generated page at `uri`: the address shows `uri`,
    /// the page counts as not bookmarked, the label is blank and still.
    pub open spec fn shows_generated(self, o: Tab, uri: Seq<char>) -> bool {
        &&& self.keeps_panels(o)
        &&& self.address@ == uri
        &&& !self.bookmarked
        &&& self.label.text@ == Seq::<char>::empty()
        &&& !self.label.spinning
    }

    pub open spec fn after_page(self, o: Tab, p: Option<PageView>) -> bool {
        match p {
            Some(q) => self.shows_generated(o, q.uri()),
            None => self == o,
        }
    }

    pub fn set_label(&mut self, text: &str, spin: bool)
        ensures
            final(self).label.text@ == text@,
            final(self).label.spinning == spin,
            final(self).keeps_panels(*old(self)),
            final(self).address == old(self).address,
            final(self).bookmarked == old(self).bookmarked,
    {
        self.label.text = text.to_owned();
        self.label.spinning = spin;
    }

    fn show_generated(&mut self, uri: &str)
        ensures
            final(self).shows_generated(*old(self), uri@),
    {
        self.address = uri.to_owned();
        self.bookmarked = false;
        self.label.text = String::new();
        self.label.spinning = false;
    }

    /// Shows the page of all bookmarks.
    pub fn open_bookmarks(&mut self, store: &BookmarkStore) -> (r: Page)
        ensures
            r@ == PageView::Gemtext(bookmarks_page(store@), "eva://bookmarks"@),
            final(self).shows_generated(*old(self), r@.uri()),
    {
        let markup = store.to_gmi();
        let uri = String::from_str("eva://bookmarks");
        self.show_generated(uri.as_str());
        Page::Gemtext { markup, uri }
    }

    /// Shows the page of all tags.
    pub fn open_bookmark_tags(&mut self, store: &BookmarkStore) -> (r: Page)
        ensures
            r@ == PageView::Gemtext(tags_page(store@), "eva://bookmarks/tags"@),
            final(self).shows_generated(*old(self), r@.uri()),
    {
        let markup = store.tags_to_gmi();
        let uri = String::from_str("eva://bookmarks/tags");
        self.show_generated(uri.as_str());
        Page::Gemtext { markup, uri }
    }

    /// Shows the page of the bookmarks tagged `tag`; where none is, nothing
    /// changes and the page shown before stays.
    pub fn open_tag(&mut self, store: &BookmarkStore, tag: &str) -> (r: Option<Page>)
        ensures
            page_opt(r) == (if tagged(store@, tag@).len() > 0 {
                Some(PageView::Gemtext(tag_page(store@, tag@), "eva://bookmarks/tags/"@ + tag@))
            } else {
                None
            }),
            final(self).after_page(*old(self), page_opt(r)),
    {
        match store.tag_to_gmi(tag) {
            Some(markup) => {
                let mut uri = String::from_str("eva://bookmarks/tags/");
                uri.append(tag);
                self.show_generated(uri.as_str());
                Some(Page::Gemtext { markup, uri })
            },
            None => None,
        }
    }

    /// Shows the current buffer as plain text, where its MIME type is text.
    pub fn view_source(&mut self, mime: &str, content: &Vec<u8>) -> (r: Option<Page>)
        ensures
            page_opt(r) == source_page(mime@, content@),
            text_exact(page_opt(r), content@),
            final(self).after_page(*old(self), page_opt(r)),
    {
        proof {
            reveal_strlit("text");
        }
        if starts_with(mime, "text/") || same_text(mime, "text") {
            let text = decode_lossy(content);
            let uri = String::from_str("eva://source");
            self.show_generated(uri.as_str());
            Some(Page::Text { text, uri })
        } else {
            None
        }
    }

    /// Serves an `eva:` URL from the store or the current buffer. URLs that do
    /// not parse, routes outside the table, a tag that no bookmark carries and
    /// a buffer that is not text change nothing.
    pub fn request_eva_page(
        &mut self,
        uri: &str,
        store: &BookmarkStore,
        mime: &str,
        content: &Vec<u8>,
    ) -> (r: Option<Page>)
        ensures
            page_opt(r) == eva_page(store@, uri@, mime@, content@),
            text_exact(page_opt(r), content@),
            final(self).after_page(*old(self), page_opt(r)),
    {
        match parse_url(uri) {
            Some(parts) => self.open_route(&parts, store, mime, content),
            None => None,
        }
    }

    /// Serves the `eva:` URL with the host and path of `parts`: the routing
    /// table on its own, whatever URL these parts came from.
    pub fn open_route(
        &mut self,
        parts: &UrlParts,
        store: &BookmarkStore,
        mime: &str,
        content: &Vec<u8>,
    ) -> (r: Option<Page>)
        ensures
            page_opt(r) == routed_page(store@, parts@.0, parts@.1, mime@, content@),
            text_exact(page_opt(r), content@),
            final(self).after_page(*old(self), page_opt(r)),
    {
        let path = parts.path.as_str();
        proof {
            reveal_strlit("bookmarks");
            reveal_strlit("source");
            reveal_strlit("");
            reveal_strlit("/");
            reveal_strlit("/tags");
            reveal_strlit("/tags/");
        }
        match &parts.host {
            Some(h) => {
                if same_text(h.as_str(), "bookmarks") {
                    if same_text(path, "") || same_text(path, "/") {
                        Some(self.open_bookmarks(store))
                    } else if same_text(path, "/tags") || same_text(path, "/tags/") {
                        Some(self.open_bookmark_tags(store))
                    } else if starts_with(path, "/tags/") {
                        let n = path.unicode_len();
                        let tag = path.substring_char(6, n);
                        proof {
                            assert(tag@ == path@.skip(6));
                        }
                        self.open_tag(store, tag)
                    } else {
                        None
                    }
                } else if same_text(h.as_str(), "source") {
                    self.view_source(mime, content)
                } else {
                    None
                }
            },
            None => None,
        }
    }

    /// Decides what becomes of a URL that the content engine does not handle:
    /// `eva:` URLs are served here, others with a scheme go to the system's
    /// opener, and text without a `:` is dropped.
    pub fn on_unsupported_scheme(
        &mut self,
        uri: &str,
        store: &BookmarkStore,
        mime: &str,
        content: &Vec<u8>,
    ) -> (r: SchemeAction)
        ensures
            has_prefix(uri@, "eva:"@) ==> match r {
                SchemeAction::Show(p) => {
                    &&& eva_page(store@, uri@, mime@, content@) == Some(p@)
                    &&& text_exact(Some(p@), content@)
                    &&& final(self).shows_generated(*old(self), p@.uri())
                },
                SchemeAction::Ignore => {
                    &&& eva_page(store@, uri@, mime@, content@) is None
                    &&& *final(self) == *old(self)
                },
                SchemeAction::Open(_) => false,
            },
            !has_prefix(uri@, "eva:"@) ==> *final(self) == *old(self) && match r {
                SchemeAction::Open(u) => uri@.contains(':') && u@ == uri@,
                SchemeAction::Ignore => !uri@.contains(':'),
                SchemeAction::Show(_) => false,
            },
    {
        if starts_with(uri, "eva:") {
            match self.request_eva_page(uri, store, mime, content) {
                Some(p) => SchemeAction::Show(p),
                None => SchemeAction::Ignore,
            }
        } else if contains_char(uri, ':') {
            SchemeAction::Open(uri.to_owned())
        } else {
            SchemeAction::Ignore
        }
    }

    /// A redirect shows its target in the address bar; the bookmark form is
    /// left as it was.
    pub fn on_redirect(&mut self, uri: &str)
        ensures
            final(self).address@ == uri@,
            final(self).keeps_panels(*old(self)),
            final(self).label == old(self).label,
            final(self).bookmarked == old(self).bookmarked,
    {
        self.address = uri.to_owned();
    }

    /// Makes the bookmark form agree with the store for the page at `uri`: the
    /// stored bookmark with exactly that URL, or a new one named after the
    /// host. A `uri` that does not parse changes nothing.
    pub fn update_bookmark_editor(&mut self, store: &BookmarkStore, uri: &str)
        ensures
            match url_parts(uri@) {
                None => *final(self) == *old(self),
                Some(parts) => {
                    &&& final(self).bookmark_editor@ == match find(store@, uri@) {
                        Some(b) => edit_form(b),
                        None => create_form(parts.0, uri@),
                    }
                    &&& final(self).bookmarked == find(store@, uri@) is Some
                    &&& final(self).name == old(self).name
                    &&& final(self).input == old(self).input
                    &&& final(self).upload_open == old(self).upload_open
                    &&& final(self).back_enabled == old(self).back_enabled
                    &&& final(self).forward_enabled == old(self).forward_enabled
                    &&& final(self).reload_enabled == old(self).reload_enabled
                    &&& final(self).label == old(self).label
                    &&& final(self).address == old(self).address
                },
            },
    {
        let parts = match parse_url(uri) {
            Some(p) => p,
            None => return ,
        };
        match store.lookup(uri) {
            Some(b) => {
                self.bookmark_editor.show_bookmark(b);
                self.bookmarked = true;
            },
            None => {
                self.bookmark_editor.show_new(&parts.host, uri);
                self.bookmarked = false;
            },
        }
    }

    /// A server asks for input: the prompt shows `meta`, masks the entry unless
    /// `visibility`, and a response now goes to `url`, in place of any request
    /// still pending.
    pub fn request_input(&mut self, meta: &str, url: String, visibility: bool)
        ensures
            final(self).input.prompt@ == meta@,
            final(self).input.visible == visibility,
            final(self).input.open,
            final(self).input.target == Some(url),
            final(self).name == old(self).name,
            final(self).bookmark_editor == old(self).bookmark_editor,
            final(self).upload_open == old(self).upload_open,
            final(self).label == old(self).label,
            final(self).address == old(self).address,
            final(self).bookmarked == old(self).bookmarked,
    {
        self.input.visible = visibility;
        self.input.target = Some(url);
        self.input.request(meta);
    }

    /// The user answers the pending prompt: the URL to visit, or `None` with
    /// the prompt left open while the answer is empty.
    pub fn submit_input(&mut self, response: &str) -> (r: Option<String>)
        ensures
            match old(self).input.target {
                Some(t) if response@.len() > 0 => {
                    &&& r is Some
                    &&& r->0@ == response_url(t@, response@)
                    &&& final(self).input.target is None
                    &&& !final(self).input.open
                    &&& final(self).input.prompt == old(self).input.prompt
                    &&& final(self).input.visible == old(self).input.visible
                },
                _ => r is None && final(self).input == old(self).input,
            },
            final(self).name == old(self).name,
            final(self).bookmark_editor == old(self).bookmark_editor,
            final(self).upload_open == old(self).upload_open,
            final(self).label == old(self).label,
            final(self).address == old(self).address,
            final(self).bookmarked == old(self).bookmarked,
    {
        self.input.submit(response)
    }

    /// A server asks for a file: the file dialog opens.
    pub fn request_upload(&mut self)
        ensures
            final(self).upload_open,
            final(self).input == old(self).input,
            final(self).bookmark_editor == old(self).bookmark_editor,
            final(self).address == old(self).address,
            final(self).name == old(self).name,
            final(self).label == old(self).label,
            final(self).bookmarked == old(self).bookmarked,
            final(self).back_enabled == old(self).back_enabled,
            final(self).forward_enabled == old(self).forward_enabled,
            final(self).reload_enabled == old(self).reload_enabled,
    {
        self.upload_open = true;
    }

    /// The file dialog closes. Where it was accepted with a file read whole
    /// into `data`, and the page now shown at `uri` has a URL that parses, the
    /// bytes go to that URL; else nothing is sent.
    pub fn resolve_upload(&mut self, accepted: bool, data: Option<Vec<u8>>, uri: &str) -> (r:
        Option<Upload>)
        ensures
            !final(self).upload_open,
            final(self).input == old(self).input,
            final(self).bookmark_editor == old(self).bookmark_editor,
            final(self).address == old(self).address,
            final(self).name == old(self).name,
            final(self).label == old(self).label,
            final(self).bookmarked == old(self).bookmarked,
            final(self).back_enabled == old(self).back_enabled,
            final(self).forward_enabled == old(self).forward_enabled,
            final(self).reload_enabled == old(self).reload_enabled,
            r is Some <==> (accepted && data is Some && url_parts(uri@) is Some),
            match r {
                Some(u) => u.url@ == uri@ && u.data@ == data->0@,
                None => true,
            },
    {
        self.upload_open = false;
        if !accepted {
            return None;
        }
        match data {
            None => None,
            Some(d) => match parse_url(uri) {
                Some(_) => Some(Upload { url: uri.to_owned(), data: d }),
                None => None,
            },
        }
    }

    /// A new tab for the page at `uri`: a random name, an idle label, no
    /// history, and the bookmark form in step with the store.
    pub fn init(store: &BookmarkStore, uri: &str) -> (r: Tab)
        ensures
            r.name@.len() == 10,
            forall|i: int| 0 <= i < 10 ==> alphanumeric(#[trigger] r.name@[i]),
            r.label.text@ == "about:blank"@,
            !r.label.spinning,
            !r.back_enabled,
            !r.forward_enabled,
            !r.reload_enabled,
            !r.upload_open,
            r.input.target is None,
            !r.input.open,
            r.address@ == Seq::<char>::empty(),
            match url_parts(uri@) {
                None => r.bookmark_editor@ == create_form(Some(Seq::empty()), Seq::empty())
                    && !r.bookmarked,
                Some(parts) => {
                    &&& r.bookmark_editor@ == match find(store@, uri@) {
                        Some(b) => edit_form(b),
                        None => create_form(parts.0, uri@),
                    }
                    &&& r.bookmarked == find(store@, uri@) is Some
                },
            },
    {
        let mut tab = Tab {
            name: random_name(),
            label: Label::new(),
            bookmark_editor: BookmarkEditor::new(),
            input: Input::new(),
            upload_open: false,
            back_enabled: false,
            forward_enabled: false,
            reload_enabled: false,
            address: String::new(),
            bookmarked: false,
        };
        tab.update_bookmark_editor(store, uri);
        tab
    }

    pub fn label(&self) -> (r: &Label)
        ensures
            *r == self.label,
    {
        &self.label
    }

    pub fn bookmark_editor(&self) -> (r: &BookmarkEditor)
        ensures
            *r == self.bookmark_editor,
    {
        &self.bookmark_editor
    }

    pub fn input(&self) -> (r: &Input)
        ensures
            *r == self.input,
    {
        &self.input
    }

    pub fn address(&self) -> (r: &String)
        ensures
            *r == self.address,
    {
        &self.address
    }

    pub fn name(&self) -> (r: &String)
        ensures
            *r == self.name,
    {
        &self.name
    }
}

} // verus!
