use eva::bookmarks::{Bookmark, BookmarkStore};
use eva::tab::{random_name, BookmarkEditor, EditorMode, Page, SchemeAction, Tab};
use eva::text::{join_words, split_words};
use eva::web::UrlParts;

fn strings(v: &[&str]) -> Vec<String> {
    v.iter().map(|s| s.to_string()).collect()
}

fn bookmark(name: &str, desc: Option<&str>, url: &str, tags: &[&str]) -> Bookmark {
    Bookmark::new(name.to_string(), desc.map(|d| d.to_string()), url.to_string(), strings(tags))
}

fn sample_store() -> BookmarkStore {
    let mut s = BookmarkStore::new();
    s.update(bookmark("Home", Some("my capsule"), "gemini://home.example/", &["me", "gem"]));
    s.update(bookmark("News", None, "gemini://news.example/", &["gem"]));
    s.update(bookmark("Bare", None, "gemini://bare.example/", &[]));
    s
}

fn empty_buffer() -> Vec<u8> {
    Vec::new()
}

#[test]
fn tags_ignore_repeated_spaces() {
    assert_eq!(split_words("a  b c"), strings(&["a", "b", "c"]));
    assert_eq!(split_words("a b c"), strings(&["a", "b", "c"]));
    assert_eq!(split_words("a  b c"), split_words("a b c"));
}

#[test]
fn tags_from_blank_text_are_empty() {
    assert!(split_words("").is_empty());
    assert!(split_words(" \t\n ").is_empty());
}

#[test]
fn tags_split_on_unicode_whitespace() {
    assert_eq!(split_words("\tx\u{3000}y\u{a0}z "), strings(&["x", "y", "z"]));
}

#[test]
fn tags_join_with_single_spaces() {
    assert_eq!(join_words(&strings(&["a", "b", "c"])), "a b c");
    assert_eq!(join_words(&strings(&[])), "");
    assert_eq!(join_words(&strings(&["one"])), "one");
}

#[test]
fn store_update_inserts_then_replaces() {
    let mut s = sample_store();
    assert_eq!(s.len(), 3);
    s.update(bookmark("Home2", None, "gemini://home.example/", &["x"]));
    assert_eq!(s.len(), 3);
    let b = s.lookup("gemini://home.example/").unwrap();
    assert_eq!(b.name(), "Home2");
    assert_eq!(b.description(), &None);
    assert_eq!(s.get(0).name(), "Home2");
}

#[test]
fn store_lookup_is_exact() {
    let s = sample_store();
    assert!(s.lookup("gemini://home.example/").is_some());
    assert!(s.lookup("gemini://home.example").is_none());
    assert!(s.lookup("GEMINI://home.example/").is_none());
}

#[test]
fn bookmarks_page_lists_every_entry() {
    let s = sample_store();
    let expected = "# Bookmarks\n\n\
### Home\nmy capsule\n=> gemini://home.example/\nTags: me gem\n\n\
### News\n=> gemini://news.example/\nTags: gem\n\n\
### Bare\n=> gemini://bare.example/\n\n";
    assert_eq!(s.to_gmi(), expected);
}

#[test]
fn empty_store_page_has_only_title() {
    assert_eq!(BookmarkStore::new().to_gmi(), "# Bookmarks\n\n");
}

#[test]
fn tag_index_lists_distinct_tags() {
    let s = sample_store();
    let expected = "# Bookmark Tags\n\n\
=> eva://bookmarks/tags/me me\n\
=> eva://bookmarks/tags/gem gem\n";
    assert_eq!(s.tags_to_gmi(), expected);
    assert_eq!(s.distinct_tags(), strings(&["me", "gem"]));
}

#[test]
fn tag_page_lists_only_tagged() {
    let s = sample_store();
    let expected = "# Bookmarks tagged me\n\n\
### Home\nmy capsule\n=> gemini://home.example/\nTags: me gem\n\n";
    assert_eq!(s.tag_to_gmi("me").unwrap(), expected);
    assert!(s.tag_to_gmi("none").is_none());
}

#[test]
fn sync_present_uri_gives_edit_mode() {
    let s = sample_store();
    let mut tab = Tab::init(&s, "about:blank");
    tab.update_bookmark_editor(&s, "gemini://home.example/");
    let ed = tab.bookmark_editor();
    assert_eq!(ed.mode, EditorMode::Edit);
    assert_eq!(ed.name, "Home");
    assert_eq!(ed.description, "my capsule");
    assert_eq!(ed.url, "gemini://home.example/");
    assert_eq!(ed.tags, "me gem");
    assert!(tab.bookmarked);
    tab.update_bookmark_editor(&s, "gemini://news.example/");
    assert_eq!(tab.bookmark_editor().description, "");
}

#[test]
fn sync_round_trips_bookmark() {
    let s = sample_store();
    let mut tab = Tab::init(&s, "gemini://news.example/");
    let b = tab.bookmark_editor().to_bookmark();
    assert_eq!(b.name(), "News");
    assert_eq!(b.description(), &None);
    assert_eq!(b.url(), "gemini://news.example/");
    assert_eq!(b.tags(), &strings(&["gem"]));
    tab.update_bookmark_editor(&s, "gemini://home.example/");
    let b = tab.bookmark_editor().to_bookmark();
    assert_eq!(b.description(), &Some("my capsule".to_string()));
    assert_eq!(b.tags(), &strings(&["me", "gem"]));
}

#[test]
fn sync_absent_uri_gives_create_mode() {
    let s = sample_store();
    let tab = Tab::init(&s, "gemini://other.example/page");
    let ed = tab.bookmark_editor();
    assert_eq!(ed.mode, EditorMode::Create);
    assert_eq!(ed.name, "other.example");
    assert_eq!(ed.description, "");
    assert_eq!(ed.url, "gemini://other.example/page");
    assert_eq!(ed.tags, "");
    assert!(!tab.bookmarked);
}

#[test]
fn sync_without_host_uses_placeholder() {
    let s = sample_store();
    let tab = Tab::init(&s, "about:blank");
    assert_eq!(tab.bookmark_editor().name, "Unknown host");
    assert_eq!(tab.bookmark_editor().url, "about:blank");
}

#[test]
fn sync_ignores_unparsable_uri() {
    let s = sample_store();
    let mut tab = Tab::init(&s, "gemini://home.example/");
    tab.update_bookmark_editor(&s, "not a url");
    assert_eq!(tab.bookmark_editor().mode, EditorMode::Edit);
    assert_eq!(tab.bookmark_editor().name, "Home");
}

#[test]
fn init_state() {
    let s = BookmarkStore::new();
    let tab = Tab::init(&s, "about:blank");
    assert_eq!(tab.label().label(), "about:blank");
    assert!(!tab.label().spinning);
    assert!(!tab.back_enabled && !tab.forward_enabled && !tab.reload_enabled);
    assert_eq!(tab.name().len(), 10);
    assert_eq!(tab.address(), "");
}

#[test]
fn random_name_is_alphanumeric() {
    let n = random_name();
    assert_eq!(n.chars().count(), 10);
    assert!(n.chars().all(|c| c.is_ascii_alphanumeric()));
}

#[test]
fn editor_empty_description_is_none() {
    let mut ed = BookmarkEditor::new();
    ed.name = "n".to_string();
    ed.url = "gemini://u/".to_string();
    ed.tags = "a  b c".to_string();
    let b = ed.to_bookmark();
    assert_eq!(b.description(), &None);
    assert_eq!(b.tags(), &strings(&["a", "b", "c"]));
    ed.description = "d".to_string();
    assert_eq!(ed.to_bookmark().description(), &Some("d".to_string()));
}

#[test]
fn route_bookmarks_lists_all() {
    let s = sample_store();
    let mut tab = Tab::init(&s, "about:blank");
    tab.set_label("loading", true);
    let _ = tab.request_eva_page("eva://bookmarks/tags/me", &s, "", &empty_buffer());
    for uri in ["eva://bookmarks", "eva://bookmarks/"] {
        match tab.request_eva_page(uri, &s, "", &empty_buffer()) {
            Some(Page::Gemtext { markup, uri }) => {
                assert_eq!(markup, s.to_gmi());
                assert_eq!(uri, "eva://bookmarks");
            },
            _ => panic!("no bookmarks page"),
        }
        assert_eq!(tab.address(), "eva://bookmarks");
        assert_eq!(tab.label().label(), "");
        assert!(!tab.label().spinning);
        assert!(!tab.bookmarked);
    }
}

#[test]
fn route_tag_index() {
    let s = sample_store();
    let mut tab = Tab::init(&s, "about:blank");
    for uri in ["eva://bookmarks/tags", "eva://bookmarks/tags/"] {
        match tab.request_eva_page(uri, &s, "", &empty_buffer()) {
            Some(Page::Gemtext { markup, uri }) => {
                assert_eq!(markup, s.tags_to_gmi());
                assert_eq!(uri, "eva://bookmarks/tags");
            },
            _ => panic!("no tag index"),
        }
    }
}

#[test]
fn route_tag_filter() {
    let s = sample_store();
    let mut tab = Tab::init(&s, "about:blank");
    match tab.request_eva_page("eva://bookmarks/tags/gem", &s, "", &empty_buffer()) {
        Some(Page::Gemtext { markup, uri }) => {
            assert_eq!(markup, s.tag_to_gmi("gem").unwrap());
            assert!(markup.contains("### Home") && markup.contains("### News"));
            assert!(!markup.contains("### Bare"));
            assert_eq!(uri, "eva://bookmarks/tags/gem");
        },
        _ => panic!("no tag page"),
    }
    assert_eq!(tab.address(), "eva://bookmarks/tags/gem");
}

#[test]
fn route_tag_without_matches_keeps_page() {
    let s = sample_store();
    let mut tab = Tab::init(&s, "about:blank");
    tab.on_redirect("gemini://home.example/");
    let r = tab.request_eva_page("eva://bookmarks/tags/nothing", &s, "", &empty_buffer());
    assert!(r.is_none());
    assert_eq!(tab.address(), "gemini://home.example/");
}

#[test]
fn route_unknown_is_noop() {
    let s = sample_store();
    let mut tab = Tab::init(&s, "about:blank");
    tab.on_redirect("gemini://a/");
    assert!(tab.request_eva_page("eva://history", &s, "text/gemini", &empty_buffer()).is_none());
    assert!(tab.request_eva_page("eva://bookmarks/other", &s, "", &empty_buffer()).is_none());
    assert_eq!(tab.address(), "gemini://a/");
}

#[test]
fn view_source_text_buffer() {
    let s = BookmarkStore::new();
    let mut tab = Tab::init(&s, "about:blank");
    let content = b"# Title\n=> link".to_vec();
    match tab.view_source("text/gemini", &content) {
        Some(Page::Text { text, uri }) => {
            assert_eq!(text, "# Title\n=> link");
            assert_eq!(uri, "eva://source");
        },
        _ => panic!("no source page"),
    }
    assert_eq!(tab.address(), "eva://source");
}

#[test]
fn view_source_image_is_noop() {
    let s = BookmarkStore::new();
    let mut tab = Tab::init(&s, "about:blank");
    tab.on_redirect("gemini://pic/");
    assert!(tab.view_source("image/png", &vec![0x89, 0x50]).is_none());
    assert_eq!(tab.address(), "gemini://pic/");
}

#[test]
fn view_source_replaces_invalid_bytes() {
    let s = BookmarkStore::new();
    let mut tab = Tab::init(&s, "about:blank");
    match tab.request_eva_page("eva://source", &s, "text/plain", &vec![b'a', 0xff, b'b']) {
        Some(Page::Text { text, .. }) => assert_eq!(text, "a\u{fffd}b"),
        _ => panic!("no source page"),
    }
}

#[test]
fn input_response_is_percent_encoded() {
    let s = BookmarkStore::new();
    let mut tab = Tab::init(&s, "about:blank");
    tab.request_input("Search", "gemini://x/y".to_string(), true);
    assert!(tab.input().open);
    assert_eq!(tab.input().prompt, "Search");
    let r = tab.submit_input("hello world");
    assert_eq!(r, Some("gemini://x/y?hello%20world".to_string()));
    assert!(!tab.input().open);
    assert!(tab.input().target.is_none());
}

#[test]
fn input_encodes_reserved_and_unicode() {
    let s = BookmarkStore::new();
    let mut tab = Tab::init(&s, "about:blank");
    tab.request_input("q", "gemini://x/".to_string(), false);
    assert!(!tab.input().visible);
    assert_eq!(tab.submit_input("a&b=é~"), Some("gemini://x/?a%26b%3D%C3%A9~".to_string()));
}

#[test]
fn input_empty_response_stays_pending() {
    let s = BookmarkStore::new();
    let mut tab = Tab::init(&s, "about:blank");
    tab.request_input("Name?", "gemini://x/y".to_string(), true);
    assert_eq!(tab.submit_input(""), None);
    assert!(tab.input().open);
    assert_eq!(tab.input().target, Some("gemini://x/y".to_string()));
    assert_eq!(tab.submit_input("a"), Some("gemini://x/y?a".to_string()));
}

#[test]
fn input_new_request_replaces_old() {
    let s = BookmarkStore::new();
    let mut tab = Tab::init(&s, "about:blank");
    tab.request_input("one", "gemini://one/".to_string(), true);
    tab.request_input("two", "gemini://two/".to_string(), true);
    assert_eq!(tab.submit_input("x"), Some("gemini://two/?x".to_string()));
    assert_eq!(tab.submit_input("y"), None);
}

#[test]
fn unsupported_scheme_dispatch() {
    let s = sample_store();
    let mut tab = Tab::init(&s, "about:blank");
    match tab.on_unsupported_scheme("mailto:me@example.org", &s, "", &empty_buffer()) {
        SchemeAction::Open(u) => assert_eq!(u, "mailto:me@example.org"),
        _ => panic!("not opened"),
    }
    assert!(matches!(tab.on_unsupported_scheme("nocolon", &s, "", &empty_buffer()), SchemeAction::Ignore));
    assert!(matches!(
        tab.on_unsupported_scheme("eva://bookmarks", &s, "", &empty_buffer()),
        SchemeAction::Show(Page::Gemtext { .. })
    ));
    assert!(matches!(tab.on_unsupported_scheme("eva://nowhere", &s, "", &empty_buffer()), SchemeAction::Ignore));
}

#[test]
fn redirect_does_not_resync_form() {
    let s = sample_store();
    let mut tab = Tab::init(&s, "gemini://other.example/");
    tab.on_redirect("gemini://home.example/");
    assert_eq!(tab.address(), "gemini://home.example/");
    assert_eq!(tab.bookmark_editor().mode, EditorMode::Create);
}

#[test]
fn upload_posts_to_current_uri() {
    let s = BookmarkStore::new();
    let mut tab = Tab::init(&s, "about:blank");
    tab.request_upload();
    assert!(tab.upload_open);
    let u = tab.resolve_upload(true, Some(vec![1, 2, 3]), "spartan://host/up").unwrap();
    assert_eq!(u.url, "spartan://host/up");
    assert_eq!(u.data, vec![1, 2, 3]);
    assert!(!tab.upload_open);
}

#[test]
fn upload_failures_send_nothing() {
    let s = BookmarkStore::new();
    let mut tab = Tab::init(&s, "about:blank");
    tab.request_upload();
    assert!(tab.resolve_upload(false, Some(vec![1]), "spartan://host/").is_none());
    assert!(!tab.upload_open);
    tab.request_upload();
    assert!(tab.resolve_upload(true, None, "spartan://host/").is_none());
    tab.request_upload();
    assert!(tab.resolve_upload(true, Some(vec![1]), "no url").is_none());
    assert!(!tab.upload_open);
}

#[test]
fn view_source_bare_text_mime() {
    let s = BookmarkStore::new();
    let mut tab = Tab::init(&s, "about:blank");
    match tab.view_source("text", &b"plain".to_vec()) {
        Some(Page::Text { text, uri }) => {
            assert_eq!(text, "plain");
            assert_eq!(uri, "eva://source");
        },
        _ => panic!("no source page"),
    }
    assert_eq!(tab.address(), "eva://source");
}

#[test]
fn view_source_textual_is_noop() {
    let s = BookmarkStore::new();
    let mut tab = Tab::init(&s, "about:blank");
    tab.on_redirect("gemini://a/");
    assert!(tab.view_source("textual/x", &b"x".to_vec()).is_none());
    assert_eq!(tab.address(), "gemini://a/");
}

#[test]
fn route_from_parts() {
    let s = sample_store();
    let mut tab = Tab::init(&s, "about:blank");
    let parts = UrlParts { host: Some("bookmarks".to_string()), path: "/tags/me".to_string() };
    match tab.open_route(&parts, &s, "", &empty_buffer()) {
        Some(Page::Gemtext { markup, uri }) => {
            assert_eq!(markup, s.tag_to_gmi("me").unwrap());
            assert_eq!(uri, "eva://bookmarks/tags/me");
        },
        _ => panic!("no tag page"),
    }
    let none = UrlParts { host: None, path: "/".to_string() };
    assert!(tab.open_route(&none, &s, "text/plain", &empty_buffer()).is_none());
    let source = UrlParts { host: Some("source".to_string()), path: String::new() };
    assert!(tab.open_route(&source, &s, "text/plain", &b"hi".to_vec()).is_some());
}

#[test]
fn upload_keeps_chrome() {
    let s = sample_store();
    let mut tab = Tab::init(&s, "gemini://home.example/");
    tab.set_label("page", true);
    tab.request_upload();
    let _ = tab.resolve_upload(true, Some(vec![7]), "spartan://h/");
    assert_eq!(tab.label().label(), "page");
    assert!(tab.label().spinning);
    assert!(tab.bookmarked);
    assert_eq!(tab.bookmark_editor().name, "Home");
}
