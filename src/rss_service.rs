//! The decisions of the site's request handling: which page a request asks
//! for, what the link form carries, and the variables of the index page.

use vstd::prelude::*;
use crate::rss::Entries;
use crate::templater::{self, template, render_spec, result_view};
use crate::text::{chars_of, string_of, region_is, nat_text, push_nat};
use crate::value::{TemplateVar, ValueView, Vars};

verus! {

/// Why a request could not be handled.
#[derive(Debug)]
pub enum Error {
    /// The body of a link submission is not a well-formed form.
    ParseAddEntryForm(FormError),
    /// The page template could not be rendered.
    Templater(templater::Error),
}

/// `cur` as a finished path segment: nothing if it is empty.
pub open spec fn close_segment(cur: Seq<char>) -> Seq<Seq<char>> {
    if cur.len() > 0 {
        seq![cur]
    } else {
        Seq::empty()
    }
}

/// The non-empty `/`-separated segments of `s`, the first of them continuing
/// `cur`.
pub open spec fn segments_from(s: Seq<char>, cur: Seq<char>) -> Seq<Seq<char>>
    decreases s.len(),
{
    if s.len() == 0 {
        close_segment(cur)
    } else if s[0] == '/' {
        close_segment(cur) + segments_from(s.drop_first(), Seq::empty())
    } else {
        segments_from(s.drop_first(), cur.push(s[0]))
    }
}

/// The non-empty segments of a URI path, in order.
pub open spec fn uri_segments(s: Seq<char>) -> Seq<Seq<char>> {
    segments_from(s, Seq::empty())
}

pub open spec fn strings_view(v: Seq<String>) -> Seq<Seq<char>> {
    v.map_values(|x: String| x@)
}

/// Splits a URI path at `/` and keeps the non-empty segments.
pub fn split_uri_path(path: &str) -> (r: Vec<String>)
    ensures
        strings_view(r@) == uri_segments(path@),
{
    let t = chars_of(path);
    let n = t.len();
    let mut out: Vec<String> = Vec::new();
    let mut start: usize = 0;
    let mut i: usize = 0;
    assert(t@.subrange(0, n as int) =~= t@);
    assert(t@.subrange(0, 0) =~= Seq::<char>::empty());
    assert(strings_view(out@) + uri_segments(path@) =~= uri_segments(path@));
    while i < n
        invariant
            n == t@.len(),
            t@ == path@,
            start <= i <= n,
            uri_segments(path@) == strings_view(out@) + segments_from(
                t@.subrange(i as int, n as int),
                t@.subrange(start as int, i as int),
            ),
        decreases n - i,
    {
        let ghost rest = t@.subrange(i as int, n as int);
        let ghost cur = t@.subrange(start as int, i as int);
        assert(rest.drop_first() =~= t@.subrange(i + 1, n as int));
        if t[i] == '/' {
            let ghost before = strings_view(out@);
            if start < i {
                let seg = string_of(&t, start, i);
                out.push(seg);
                assert(strings_view(out@) =~= before + close_segment(cur));
            } else {
                assert(strings_view(out@) =~= before + close_segment(cur));
            }
            assert(t@.subrange(i + 1, i + 1) =~= Seq::<char>::empty());
            assert(before + (close_segment(cur) + segments_from(rest.drop_first(), Seq::empty()))
                =~= (before + close_segment(cur)) + segments_from(rest.drop_first(), Seq::empty()));
            start = i + 1;
        } else {
            assert(cur.push(t@[i as int]) =~= t@.subrange(start as int, i + 1));
        }
        i = i + 1;
    }
    let ghost cur = t@.subrange(start as int, n as int);
    let ghost before = strings_view(out@);
    if start < n {
        let seg = string_of(&t, start, n);
        out.push(seg);
    }
    assert(strings_view(out@) =~= before + close_segment(cur));
    out
}

pub open spec fn visitors_word() -> Seq<char> {
    seq!['v', 'i', 's', 'i', 't', 'o', 'r', 's']
}

pub open spec fn entries_word() -> Seq<char> {
    seq!['e', 'n', 't', 'r', 'i', 'e', 's']
}

/// The variables of the index page: the visit count as `visitors`, and the
/// links as the object `entries`.
pub open spec fn index_env(visits: u64) -> Seq<(Seq<char>, ValueView)> {
    seq![(visitors_word(), ValueView::Int(visits as i64 as int)), (entries_word(), ValueView::Object)]
}

/// Renders the index page template with the visit count and the links.
pub fn template_index(text: &str, entries: &Entries, visits: u64) -> (r: Result<String, templater::Error>)
    requires
        entries.wf(),
    ensures
        result_view(r) == render_spec(text@, index_env(visits)),
{
    let mut links = Vars::new();
    let mut i: usize = 0;
    while i < entries.len()
        invariant
            i <= entries@.len(),
            links.wf(),
        decreases entries@.len() - i,
    {
        let (name, url) = entries.entry(i);
        links.insert(name.clone(), TemplateVar::String(url.clone()));
        i = i + 1;
    }
    let mut vars = Vars::new();
    let visitors_name = string_of(&vec!['v', 'i', 's', 'i', 't', 'o', 'r', 's'], 0, 8);
    let entries_name = string_of(&vec!['e', 'n', 't', 'r', 'i', 'e', 's'], 0, 7);
    assert(visitors_name@ == visitors_word());
    assert(entries_name@ == entries_word());
    vars.insert(visitors_name, TemplateVar::Int(visits as i64));
    assert(entries_word() != visitors_word()) by {
        assert(entries_word()[0] != visitors_word()[0]);
    }
    vars.insert(entries_name, TemplateVar::Object(links));
    assert(vars@ =~= index_env(visits));
    template(text, vars)
}

/// Why a link submission is not a well-formed form.
#[derive(Debug, PartialEq, Eq, Structural)]
pub enum FormError {
    /// It does not start with `entry_name=`.
    MissingNameField,
    /// No `&` follows the name.
    MissingSeparator,
    /// `entry_url=` does not follow the `&`.
    MissingUrlField,
}

/// A submitted link.
#[derive(Debug)]
pub struct AddEntryForm {
    pub name: String,
    pub url: String,
}

pub open spec fn name_key() -> Seq<char> {
    seq!['e', 'n', 't', 'r', 'y', '_', 'n', 'a', 'm', 'e', '=']
}

pub open spec fn url_key() -> Seq<char> {
    seq!['e', 'n', 't', 'r', 'y', '_', 'u', 'r', 'l', '=']
}

/// The first `c` at or after position `k`.
pub open spec fn find_from(s: Seq<char>, k: int, c: char) -> Option<int>
    decreases s.len() - k,
{
    if k < 0 || k >= s.len() {
        None
    } else if s[k] == c {
        Some(k)
    } else {
        find_from(s, k + 1, c)
    }
}

pub open spec fn is_ascii_char(c: char) -> bool {
    c <= '\x7F'
}

/// Where the run of ASCII characters that starts at `k` ends.
pub open spec fn ascii_end(s: Seq<char>, k: int) -> int
    decreases s.len() - k,
{
    if k < 0 || k >= s.len() || !is_ascii_char(s[k]) {
        k
    } else {
        ascii_end(s, k + 1)
    }
}

/// The name and URL that a submission `s` carries: `entry_name=`, the name up
/// to the first `&`, then `entry_url=` and the URL, which is the run of ASCII
/// characters that follows. Text after the URL is ignored.
pub open spec fn form_spec(s: Seq<char>) -> Result<(Seq<char>, Seq<char>), FormError> {
    if !(s.len() >= 11 && s.subrange(0, 11) == name_key()) {
        Err(FormError::MissingNameField)
    } else {
        match find_from(s, 11, '&') {
            None => Err(FormError::MissingSeparator),
            Some(a) => if !(s.len() >= a + 11 && s.subrange(a + 1, a + 11) == url_key()) {
                Err(FormError::MissingUrlField)
            } else {
                Ok((s.subrange(11, a), s.subrange(a + 11, ascii_end(s, a + 11))))
            },
        }
    }
}

/// Reads a link submission (`entry_name=NAME&entry_url=URL`).
pub fn parse_add_entry_form(input: &str) -> (r: Result<AddEntryForm, FormError>)
    ensures
        match r {
            Ok(f) => form_spec(input@) == Ok::<(Seq<char>, Seq<char>), FormError>((f.name@, f.url@)),
            Err(e) => form_spec(input@) == Err::<(Seq<char>, Seq<char>), FormError>(e),
        },
{
    let t = chars_of(input);
    let n = t.len();
    let name_k: Vec<char> = vec!['e', 'n', 't', 'r', 'y', '_', 'n', 'a', 'm', 'e', '='];
    let url_k: Vec<char> = vec!['e', 'n', 't', 'r', 'y', '_', 'u', 'r', 'l', '='];
    assert(name_k@ == name_key());
    assert(url_k@ == url_key());
    if !(n >= 11 && region_is(&t, 0, 11, &name_k)) {
        return Err(FormError::MissingNameField);
    }
    let mut a: usize = 11;
    while a < n && t[a] != '&'
        invariant
            n == t@.len(),
            11 <= a <= n,
            find_from(t@, 11, '&') == find_from(t@, a as int, '&'),
        decreases n - a,
    {
        a = a + 1;
    }
    if a == n {
        return Err(FormError::MissingSeparator);
    }
    if !(n - a >= 11 && region_is(&t, a + 1, a + 11, &url_k)) {
        return Err(FormError::MissingUrlField);
    }
    let mut z: usize = a + 11;
    while z < n && t[z] <= '\x7F'
        invariant
            n == t@.len(),
            a + 11 <= z <= n,
            ascii_end(t@, a + 11) == ascii_end(t@, z as int),
        decreases n - z,
    {
        z = z + 1;
    }
    Ok(AddEntryForm { name: string_of(&t, 11, a), url: string_of(&t, a + 11, z) })
}

/// The request methods that the site tells apart.
#[derive(Debug, PartialEq, Eq, Structural)]
pub enum Method {
    Get,
    Post,
    Other,
}

/// What a request asks for.
#[derive(Debug, PartialEq, Eq, Structural)]
pub enum Route {
    /// `GET /`: the index page.
    Index,
    /// `POST /add_entry`: a link submission.
    AddEntry,
    /// Anything else: a plain greeting with the visit count.
    Fallback,
}

pub open spec fn add_entry_word() -> Seq<char> {
    seq!['a', 'd', 'd', '_', 'e', 'n', 't', 'r', 'y']
}

/// The page that a request with `method` on `path` asks for.
pub fn route(method: Method, path: &str) -> (r: Route)
    ensures
        r == (if method == Method::Get && uri_segments(path@).len() == 0 {
            Route::Index
        } else if method == Method::Post && uri_segments(path@) == seq![add_entry_word()] {
            Route::AddEntry
        } else {
            Route::Fallback
        }),
{
    let segs = split_uri_path(path);
    assert(strings_view(segs@).len() == segs@.len());
    let add_entry = string_of(&vec!['a', 'd', 'd', '_', 'e', 'n', 't', 'r', 'y'], 0, 9);
    assert(add_entry@ == add_entry_word());
    match method {
        Method::Get => {
            if segs.len() == 0 {
                Route::Index
            } else {
                Route::Fallback
            }
        },
        Method::Post => {
            if segs.len() == 1 && segs[0] == add_entry {
                assert(strings_view(segs@) =~= seq![add_entry_word()]);
                Route::AddEntry
            } else {
                proof {
                    if uri_segments(path@) == seq![add_entry_word()] {
                        assert(strings_view(segs@).len() == segs@.len());
                        assert(segs@.len() == 1);
                        assert(strings_view(segs@)[0] == segs@[0]@);
                    }
                }
                Route::Fallback
            }
        },
        Method::Other => Route::Fallback,
    }
}

pub open spec fn greeting_head() -> Seq<char> {
    seq!['H', 'e', 'l', 'l', 'o', ' ', 'w', 'o', 'r', 'l', 'd', '!', ' ', 'W', 'e', '\'', 'v', 'e', ' ', 'h', 'a', 'd', ' ']
}

pub open spec fn greeting_tail() -> Seq<char> {
    seq![' ', 'v', 'i', 's', 'i', 't', 's', ' ', 'a', 'l', 'r', 'e', 'a', 'd', 'y', '!']
}

/// The greeting that answers any request but the two pages.
pub fn fallback_body(visits: u64) -> (r: String)
    ensures
        r@ == greeting_head() + nat_text(visits as nat) + greeting_tail(),
{
    let mut out: Vec<char> = vec!['H', 'e', 'l', 'l', 'o', ' ', 'w', 'o', 'r', 'l', 'd', '!', ' ', 'W', 'e', '\'', 'v', 'e', ' ', 'h', 'a', 'd', ' '];
    push_nat(&mut out, visits);
    let mut tail: Vec<char> = vec![' ', 'v', 'i', 's', 'i', 't', 's', ' ', 'a', 'l', 'r', 'e', 'a', 'd', 'y', '!'];
    out.append(&mut tail);
    string_of(&out, 0, out.len())
}

} // verus!
