//! WebDAV collections: reading a PROPFIND listing, resolving and naming the
//! entries it lists, and walking a collection tree into tracks.

use vstd::prelude::*;

use crate::errors::WebDavError;
use crate::models::{audio_format_of, audio_format_of_name, RepositorySource, Timestamp, Track};
use crate::text::{
    append_chars, chars_of, joined_by, contains_chars, contains_seq, find_from, first_occurrence_from,
    lemma_first_occurrence, occurs_at, parse_u64, parse_u64_spec, push_char, split_chars,
    split_pieces, string_of, trim_chars, trim_seq,
};

verus! {

broadcast use {vstd::string::group_string_axioms, vstd::slice::group_slice_axioms};

/// The tag suffix searched for an element: `:` name `>`.
pub open spec fn colon_tag(name: Seq<char>) -> Seq<char> {
    seq![':'] + name + seq!['>']
}

/// Where the text of the first `:name>` element starts.
pub open spec fn tag_text_start(xml: Seq<char>, name: Seq<char>) -> Option<int> {
    match first_occurrence_from(xml, colon_tag(name), 0) {
        Some(i) => Some(i as int + colon_tag(name).len()),
        None => None,
    }
}

/// Where the next `:name>` after the text start is found.
pub open spec fn tag_close_at(xml: Seq<char>, name: Seq<char>) -> Option<int> {
    match tag_text_start(xml, name) {
        Some(s) => match first_occurrence_from(xml, colon_tag(name), s as nat) {
            Some(j) => Some(j as int),
            None => None,
        },
        None => None,
    }
}

/// The `<` that opens the closing tag whose `:name>` is at `j`: the last `<`
/// at or after `s` and before `j`.
pub open spec fn closing_tag_open(xml: Seq<char>, s: int, j: int) -> Option<int>
    decreases j - s,
{
    if j <= s {
        None
    } else if xml[j - 1] == '<' {
        Some(j - 1)
    } else {
        closing_tag_open(xml, s, j - 1)
    }
}

/// The text of the first element whose tag ends in `:name>`: what lies
/// between that opening tag and the closing tag `</prefix:name>` that
/// follows it, trimmed; none where either tag is missing.
pub open spec fn xml_text(xml: Seq<char>, name: Seq<char>) -> Option<Seq<char>> {
    match (tag_text_start(xml, name), tag_close_at(xml, name)) {
        (Some(s), Some(j)) => match closing_tag_open(xml, s, j) {
            Some(e) => Some(trim_seq(xml.subrange(s, e))),
            None => None,
        },
        _ => None,
    }
}

fn colon_tag_chars(name: &str) -> (t: Vec<char>)
    ensures
        t@ == colon_tag(name@),
{
    let mut t: Vec<char> = Vec::new();
    t.push(':');
    let n = chars_of(name);
    append_chars(&mut t, &n);
    t.push('>');
    assert(t@ =~= colon_tag(name@));
    t
}

/// The trimmed text of the first element named `local_name` in any
/// namespace.
pub fn extract_xml_text(xml: &str, local_name: &str) -> (r: Option<String>)
    ensures
        match r {
            Some(t) => xml_text(xml@, local_name@) == Some(t@),
            None => xml_text(xml@, local_name@) is None,
        },
{
    let x = chars_of(xml);
    let tag = colon_tag_chars(local_name);
    proof {
        lemma_first_occurrence(x@, tag@, 0);
    }
    let i = match find_from(&x, &tag, 0) {
        Some(i) => i,
        None => return None,
    };
    assert(occurs_at(x@, tag@, i as int));
    assert(i + tag@.len() <= x@.len());
    assert(tag@.len() == tag.len() && x@.len() == x.len());
    let start = i + tag.len();
    proof {
        lemma_first_occurrence(x@, tag@, start as nat);
    }
    let j = match find_from(&x, &tag, start) {
        Some(j) => j,
        None => return None,
    };
    assert(occurs_at(x@, tag@, j as int));
    let mut e = j;
    while e > start && x[e - 1] != '<'
        invariant
            start <= e <= j <= x@.len(),
            closing_tag_open(x@, start as int, j as int) == closing_tag_open(x@, start as int, e as int),
        decreases e,
    {
        e = e - 1;
    }
    if e == start {
        return None;
    }
    let end = e - 1;
    let text = crate::text::copy_range(&x, start, end);
    let trimmed = trim_chars(&text);
    Some(string_of(&trimmed))
}

/// One entry of a PROPFIND listing.
#[derive(Debug, Clone)]
pub struct WebDavEntry {
    pub href: String,
    pub is_collection: bool,
    pub size: u64,
}

/// An entry as plain values: its href, whether it is a collection, its size.
pub open spec fn entry_view(e: WebDavEntry) -> (Seq<char>, bool, u64) {
    (e.href@, e.is_collection, e.size)
}

/// The entry one `<d:response` block describes, if it names an href: its
/// size is the `getcontentlength` text where that parses, else 0; it is a
/// collection where the block mentions a collection resource type.
pub open spec fn response_entry(block: Seq<char>) -> Option<(Seq<char>, bool, u64)> {
    let href = match xml_text(block, "href"@) {
        Some(t) => t,
        None => Seq::empty(),
    };
    let size: u64 = match xml_text(block, "getcontentlength"@) {
        Some(v) => match parse_u64_spec(v) {
            Some(n) => n,
            None => 0,
        },
        None => 0,
    };
    let collection = contains_seq(block, "<d:collection"@) || contains_seq(block, "<collection"@)
        || contains_seq(block, ":collection"@);
    if href.len() == 0 {
        None
    } else {
        Some((href, collection, size))
    }
}

/// The entries of a sequence of response blocks, in order.
pub open spec fn response_entries(blocks: Seq<Seq<char>>) -> Seq<(Seq<char>, bool, u64)>
    decreases blocks.len(),
{
    if blocks.len() == 0 {
        Seq::empty()
    } else {
        response_entries(blocks.drop_last()) + match response_entry(blocks.last()) {
            Some(e) => seq![e],
            None => Seq::empty(),
        }
    }
}

/// The response blocks of a PROPFIND reply: what follows each `<d:response`.
pub open spec fn response_blocks(xml: Seq<char>) -> Seq<Seq<char>> {
    split_pieces(xml, "<d:response"@).drop_first()
}

/// The entries a PROPFIND reply lists.
pub open spec fn propfind_entries(xml: Seq<char>) -> Seq<(Seq<char>, bool, u64)> {
    response_entries(response_blocks(xml))
}

/// The entries of a PROPFIND multistatus reply.
pub fn parse_propfind_response(xml: &str) -> (entries: Vec<WebDavEntry>)
    ensures
        entries@.len() == propfind_entries(xml@).len(),
        forall|k: int|
            0 <= k < entries@.len() ==> entry_view(#[trigger] entries@[k]) == propfind_entries(
                xml@,
            )[k],
{
    let x = chars_of(xml);
    let sep = chars_of("<d:response");
    proof {
        reveal_strlit("<d:response");
    }
    let pieces = split_chars(&x, &sep);
    let ghost blocks = response_blocks(xml@);
    let mut entries: Vec<WebDavEntry> = Vec::new();
    if pieces.len() == 0 {
        assert(blocks.len() == 0);
        return entries;
    }
    let mut k: usize = 1;
    assert(blocks.take(0) =~= Seq::<Seq<char>>::empty());
    while k < pieces.len()
        invariant
            1 <= k <= pieces@.len(),
            pieces.deep_view() == split_pieces(xml@, "<d:response"@),
            blocks == response_blocks(xml@),
            blocks.len() == pieces@.len() - 1,
            entries@.len() == response_entries(blocks.take(k - 1)).len(),
            forall|i: int|
                0 <= i < entries@.len() ==> entry_view(#[trigger] entries@[i]) == response_entries(
                    blocks.take(k - 1),
                )[i],
        decreases pieces@.len() - k,
    {
        let block = string_of(&pieces[k]);
        assert(block@ == pieces.deep_view()[k as int]);
        assert(block@ == blocks[k - 1]);
        let href = match extract_xml_text(block.as_str(), "href") {
            Some(t) => t,
            None => String::new(),
        };
        let size: u64 = match extract_xml_text(block.as_str(), "getcontentlength") {
            Some(v) => {
                let digits = chars_of(v.as_str());
                match parse_u64(&digits) {
                    Some(n) => n,
                    None => 0,
                }
            },
            None => 0,
        };
        let bc = chars_of(block.as_str());
        let c1 = chars_of("<d:collection");
        let c2 = chars_of("<collection");
        let c3 = chars_of(":collection");
        let collection = contains_chars(&bc, &c1) || contains_chars(&bc, &c2) || contains_chars(
            &bc,
            &c3,
        );
        let ghost before = response_entries(blocks.take(k - 1));
        assert(blocks.take(k as int).drop_last() =~= blocks.take(k - 1));
        assert(blocks.take(k as int).last() == block@);
        if !href.as_str().is_empty() {
            entries.push(WebDavEntry { href, is_collection: collection, size });
            assert(response_entries(blocks.take(k as int)) =~= before.push(
                entry_view(entries@[entries@.len() - 1]),
            ));
        } else {
            proof {
                assert(response_entries(blocks.take(k as int)) =~= before);
            }
        }
        k = k + 1;
    }
    assert(blocks.take(k - 1) =~= blocks);
    entries
}

} // verus!

verus! {

/// `s` with every non-overlapping `%20`, scanning from the left, replaced
/// by a space (`str::replace`).
pub open spec fn spaces_decoded(s: Seq<char>) -> Seq<char> {
    joined_by(split_pieces(s, "%20"@), ' ')
}

/// Decodes the `%20` escapes of a URL path into spaces; other escapes stay.
pub fn percent_decode(value: &str) -> (r: String)
    ensures
        r@ == spaces_decoded(value@),
{
    let v = chars_of(value);
    let sep = chars_of("%20");
    proof {
        reveal_strlit("%20");
    }
    let pieces = split_chars(&v, &sep);
    let ghost ps = pieces.deep_view();
    let mut out: Vec<char> = Vec::new();
    let mut k: usize = 0;
    assert(ps.take(0) =~= Seq::<Seq<char>>::empty());
    while k < pieces.len()
        invariant
            k <= pieces@.len(),
            ps == pieces.deep_view(),
            out@ == joined_by(ps.take(k as int), ' '),
        decreases pieces@.len() - k,
    {
        assert(ps.take(k + 1).drop_last() =~= ps.take(k as int));
        assert(ps[k as int] == pieces@[k as int]@);
        if k > 0 {
            out.push(' ');
        }
        append_chars(&mut out, &pieces[k]);
        proof {
            if k == 0 {
                assert(ps.take(1) =~= seq![ps[0]]);
                assert(out@ =~= ps[0]);
            }
        }
        k = k + 1;
    }
    assert(ps.take(pieces@.len() as int) =~= ps);
    string_of(&out)
}

/// A collection URL as compared and stored: trimmed, ending in `/`.
pub open spec fn normalized_collection(url: Seq<char>) -> Seq<char> {
    let t = trim_seq(url);
    if t.len() > 0 && t.last() == '/' {
        t
    } else {
        t.push('/')
    }
}

/// Trims a collection URL and makes it end in `/`.
pub fn normalize_collection_url(url: &str) -> (r: String)
    ensures
        r@ == normalized_collection(url@),
{
    let u = chars_of(url);
    let mut t = trim_chars(&u);
    if t.len() > 0 && t[t.len() - 1] == '/' {
        string_of(&t)
    } else {
        t.push('/');
        string_of(&t)
    }
}

/// Law: a normalized collection URL is already in normal form, so
/// normalizing twice gives what normalizing once gives, and a URL names
/// the same collection as its normal form.
pub proof fn law_normalize_idempotent(url: Seq<char>)
    ensures
        normalized_collection(normalized_collection(url)) == normalized_collection(url),
{
    let t = trim_seq(url);
    crate::text::lemma_trim_shape(url);
    let n = normalized_collection(url);
    if !(t.len() > 0 && t.last() == '/') {
        assert(n.last() == '/');
        if t.len() > 0 {
            assert(n[0] == t[0]);
        }
    }
    crate::text::lemma_trim_shape(n);
}

/// Whether two URLs name the same collection.
pub fn same_collection_url(left: &str, right: &str) -> (b: bool)
    ensures
        b == (normalized_collection(left@) == normalized_collection(right@)),
{
    let l = normalize_collection_url(left);
    let r = normalize_collection_url(right);
    crate::text::str_equal(l.as_str(), r.as_str())
}

/// URLs, carried through unchanged.
#[verifier::external_type_specification]
#[verifier::external_body]
pub struct ExUrl(reqwest::Url);

/// How `Url::parse` reads a text: the URL, or the text of the parse error.
pub uninterp spec fn parsed_url(text: Seq<char>) -> Result<reqwest::Url, Seq<char>>;

/// `Url::parse`, with a parse error as its message. URL parsing (the
/// WHATWG rules) is left to the name.
#[verifier::external_body]
fn parse_url(text: &str) -> (r: Result<reqwest::Url, String>)
    ensures
        match r {
            Ok(u) => parsed_url(text@) == Ok::<reqwest::Url, Seq<char>>(u),
            Err(e) => parsed_url(text@) == Err::<reqwest::Url, Seq<char>>(e@),
        },
{
    match reqwest::Url::parse(text) {
        Ok(u) => Ok(u),
        Err(e) => Err(e.to_string()),
    }
}

/// What `Url::join` gives for `href` against `base`: the joined URL's text,
/// or the text of the parse error.
pub uninterp spec fn joined_url(base: reqwest::Url, href: Seq<char>) -> Result<Seq<char>, Seq<char>>;

/// `Url::join`, with the result as text and a parse error as its message.
#[verifier::external_body]
fn join_url(base: &reqwest::Url, href: &str) -> (r: Result<String, String>)
    ensures
        match r {
            Ok(u) => joined_url(*base, href@) == Ok::<Seq<char>, Seq<char>>(u@),
            Err(e) => joined_url(*base, href@) == Err::<Seq<char>, Seq<char>>(e@),
        },
{
    match base.join(href) {
        Ok(u) => Ok(u.to_string()),
        Err(e) => Err(e.to_string()),
    }
}

/// The path of a URL (`Url::path`).
pub uninterp spec fn path_of_url(u: reqwest::Url) -> Seq<char>;

/// `Url::path`, as text.
#[verifier::external_body]
fn url_path_of(u: &reqwest::Url) -> (p: String)
    ensures
        p@ == path_of_url(*u),
{
    u.path().to_string()
}

/// What resolving `href` against the URL `base` gives: `base` parsed, then
/// `href` joined to it, as text; or the text of the first parse error.
pub open spec fn url_resolution(base: Seq<char>, href: Seq<char>) -> Result<Seq<char>, Seq<char>> {
    match parsed_url(base) {
        Ok(u) => joined_url(u, href),
        Err(e) => Err(e),
    }
}

/// Parses `base` and joins `href` to it.
fn resolve_url(base: &str, href: &str) -> (r: Result<String, String>)
    ensures
        match r {
            Ok(u) => url_resolution(base@, href@) == Ok::<Seq<char>, Seq<char>>(u@),
            Err(e) => url_resolution(base@, href@) == Err::<Seq<char>, Seq<char>>(e@),
        },
{
    match parse_url(base) {
        Ok(u) => join_url(&u, href),
        Err(e) => Err(e),
    }
}

/// Resolves an href of a listing against the collection's base URL.
pub fn resolve_webdav_url(base_url: &str, href: &str) -> (r: Result<String, WebDavError>)
    ensures
        match url_resolution(base_url@, href@) {
            Ok(u) => r matches Ok(s) && s@ == u,
            Err(e) => r matches Err(WebDavError::UrlParse(m)) && m@ == e,
        },
{
    match resolve_url(base_url, href) {
        Ok(u) => Ok(u),
        Err(e) => Err(WebDavError::UrlParse(e)),
    }
}

/// The path of a URL, where it parses.
pub open spec fn url_path(url: Seq<char>) -> Option<Seq<char>> {
    match parsed_url(url) {
        Ok(u) => Some(path_of_url(u)),
        Err(_) => None,
    }
}

/// The path of a URL, where it parses.
fn url_path_text(url: &str) -> (r: Option<String>)
    ensures
        match r {
            Some(p) => url_path(url@) == Some(p@),
            None => url_path(url@) is None,
        },
{
    match parse_url(url) {
        Ok(u) => Some(url_path_of(&u)),
        Err(_) => None,
    }
}

/// The last non-empty segment.
pub open spec fn last_nonempty(segments: Seq<Seq<char>>) -> Option<Seq<char>>
    decreases segments.len(),
{
    if segments.len() == 0 {
        None
    } else if segments.last().len() > 0 {
        Some(segments.last())
    } else {
        last_nonempty(segments.drop_last())
    }
}

/// The segments of a URL path, as `Url::path_segments` gives them: the
/// path after its leading `/`, split at every `/`; none for a path that
/// does not start with `/` (a URL that cannot be a base).
pub open spec fn path_segments_of(path: Seq<char>) -> Option<Seq<Seq<char>>> {
    if path.len() > 0 && path[0] == '/' {
        Some(split_pieces(path.skip(1), "/"@))
    } else {
        None
    }
}

/// The file name a URL ends in: the last non-empty segment of its path,
/// with `%20` decoded.
pub open spec fn url_file_name(url: Seq<char>) -> Option<Seq<char>> {
    match url_path(url) {
        Some(p) => match path_segments_of(p) {
            Some(segments) => match last_nonempty(segments) {
                Some(s) => Some(spaces_decoded(s)),
                None => None,
            },
            None => None,
        },
        None => None,
    }
}

/// The file name a URL ends in.
pub fn file_name_from_url(url: &str) -> (r: Option<String>)
    ensures
        match r {
            Some(n) => url_file_name(url@) == Some(n@),
            None => url_file_name(url@) is None,
        },
{
    let path = match url_path_text(url) {
        Some(p) => p,
        None => return None,
    };
    let pc = chars_of(path.as_str());
    if pc.len() == 0 || pc[0] != '/' {
        return None;
    }
    let rest = crate::text::copy_range(&pc, 1, pc.len());
    assert(rest@ =~= pc@.skip(1));
    let slash = chars_of("/");
    proof {
        reveal_strlit("/");
    }
    let segments = split_chars(&rest, &slash);
    let ghost segs = segments.deep_view();
    assert(path_segments_of(path@) == Some(segs));
    let mut k: usize = segments.len();
    assert(segs.take(segs.len() as int) =~= segs);
    while k > 0
        invariant
            k <= segments@.len(),
            segs == segments.deep_view(),
            url_path(url@) == Some(path@),
            path_segments_of(path@) == Some(segs),
            last_nonempty(segs) == last_nonempty(segs.take(k as int)),
        decreases k,
    {
        assert(segs.take(k as int).drop_last() =~= segs.take(k - 1));
        assert(segs.take(k as int).last() == segments@[k - 1]@);
        if segments[k - 1].len() > 0 {
            assert(segs[k - 1].len() > 0);
            assert(segs.take(k as int).last() == segs[k - 1]);
            assert(last_nonempty(segs.take(k as int)) == Some(segs[k - 1]));
            let name = string_of(&segments[k - 1]);
            return Some(percent_decode(name.as_str()));
        }
        k = k - 1;
    }
    None
}

/// `s` without its leading `/` characters.
pub open spec fn without_leading_slashes(s: Seq<char>) -> Seq<char>
    decreases s.len(),
{
    if s.len() > 0 && s[0] == '/' {
        without_leading_slashes(s.drop_first())
    } else {
        s
    }
}

/// Where a track lies inside the source: its URL path relative to the root
/// URL's path, decoded; failing that, its file name; failing that, its URL.
pub open spec fn track_path_in_source(root_url: Seq<char>, track_url: Seq<char>) -> Seq<char> {
    match (url_path(root_url), url_path(track_url)) {
        (Some(root), Some(track)) if track.len() >= root.len() && track.take(root.len() as int)
            == root => spaces_decoded(without_leading_slashes(track.skip(root.len() as int))),
        _ => match url_file_name(track_url) {
            Some(n) => n,
            None => track_url,
        },
    }
}

/// The path of a track relative to its source's root URL.
pub fn webdav_track_path(root_url: &str, track_url: &str) -> (p: String)
    ensures
        p@ == track_path_in_source(root_url@, track_url@),
{
    let root = url_path_text(root_url);
    let track = url_path_text(track_url);
    if let (Some(root), Some(track)) = (root, track) {
        let r = chars_of(root.as_str());
        let t = chars_of(track.as_str());
        if t.len() >= r.len() && crate::text::matches_at(&t, &r, 0) {
            assert(t@.take(r@.len() as int) =~= t@.subrange(0, r@.len() as int));
            let mut a = r.len();
            assert(t@.skip(a as int) =~= t@.subrange(a as int, t@.len() as int));
            while a < t.len() && t[a] == '/'
                invariant
                    r@.len() <= a <= t@.len(),
                    without_leading_slashes(t@.skip(r@.len() as int)) == without_leading_slashes(
                        t@.skip(a as int),
                    ),
                decreases t@.len() - a,
            {
                assert(t@.skip(a as int).drop_first() =~= t@.skip(a + 1));
                a = a + 1;
            }
            let rest = crate::text::copy_range(&t, a, t.len());
            assert(rest@ =~= t@.skip(a as int));
            let rest_text = string_of(&rest);
            return percent_decode(rest_text.as_str());
        } else {
            assert(!(t@.len() >= r@.len() && t@.take(r@.len() as int) == r@)) by {
                if t@.len() >= r@.len() && t@.take(r@.len() as int) == r@ {
                    assert(t@.subrange(0, r@.len() as int) =~= t@.take(r@.len() as int));
                }
            }
        }
    }
    match file_name_from_url(track_url) {
        Some(n) => n,
        None => track_url.to_string(),
    }
}

} // verus!

verus! {

/// A discovered track as plain values: its path in the source, file name,
/// format, size and URL.
pub type TrackFacts = (Seq<char>, Seq<char>, Seq<char>, u64, Seq<char>);

/// `t` is the freshly discovered track described by `facts`, of repository
/// `repository_id`, found at `now`: not yet stored, downloaded, or marked.
pub open spec fn is_new_track(t: Track, repository_id: i64, facts: TrackFacts, now: Timestamp) -> bool {
    &&& t.id == 0
    &&& t.repository_id == repository_id
    &&& t.path@ == facts.0
    &&& t.name@ == facts.1
    &&& t.format@ == facts.2
    &&& t.size == facts.3
    &&& t.url@ == facts.4
    &&& t.duration is None
    &&& t.local_path is None
    &&& !t.downloaded
    &&& t.discovered_at == now
    &&& !t.favorite
    &&& !t.blacklisted
}

/// The sub-collection a listed entry leads to: the entry itself when it is a
/// collection other than the one listed, as a normalized URL.
pub open spec fn descent_of(root: Seq<char>, collection: Seq<char>, e: (Seq<char>, bool, u64)) -> Option<Seq<char>> {
    match url_resolution(root, e.0) {
        Ok(u) => if normalized_collection(u) == normalized_collection(collection) {
            None
        } else if e.1 {
            Some(normalized_collection(u))
        } else {
            None
        },
        Err(_) => None,
    }
}

/// The track a listed entry is: a file other than the listed collection,
/// whose URL ends in a file name with an audio extension.
pub open spec fn track_of(root: Seq<char>, collection: Seq<char>, e: (Seq<char>, bool, u64)) -> Option<TrackFacts> {
    match url_resolution(root, e.0) {
        Ok(u) => if normalized_collection(u) == normalized_collection(collection) || e.1 {
            None
        } else {
            match url_file_name(u) {
                Some(name) => match audio_format_of(name) {
                    Some(format) => Some((track_path_in_source(root, u), name, format, e.2, u)),
                    None => None,
                },
                None => None,
            }
        },
        Err(_) => None,
    }
}

/// The sub-collections a listing leads to, in listing order.
pub open spec fn descents(root: Seq<char>, collection: Seq<char>, es: Seq<(Seq<char>, bool, u64)>) -> Seq<Seq<char>>
    decreases es.len(),
{
    if es.len() == 0 {
        Seq::empty()
    } else {
        descents(root, collection, es.drop_last()) + match descent_of(root, collection, es.last()) {
            Some(d) => seq![d],
            None => Seq::empty(),
        }
    }
}

/// The tracks a listing holds, in listing order.
pub open spec fn listed_tracks(root: Seq<char>, collection: Seq<char>, es: Seq<(Seq<char>, bool, u64)>) -> Seq<TrackFacts>
    decreases es.len(),
{
    if es.len() == 0 {
        Seq::empty()
    } else {
        listed_tracks(root, collection, es.drop_last()) + match track_of(root, collection, es.last()) {
            Some(t) => seq![t],
            None => Seq::empty(),
        }
    }
}

/// Law: every track a listing yields is an audio file, its format the
/// lower-cased extension of its file name.
pub proof fn law_listed_tracks_are_audio(root: Seq<char>, collection: Seq<char>, es: Seq<(Seq<char>, bool, u64)>)
    ensures
        forall|i: int|
            0 <= i < listed_tracks(root, collection, es).len() ==> crate::models::is_audio_file(
                #[trigger] listed_tracks(root, collection, es)[i].1,
                listed_tracks(root, collection, es)[i].2,
            ),
    decreases es.len(),
{
    if es.len() > 0 {
        law_listed_tracks_are_audio(root, collection, es.drop_last());
        let before = listed_tracks(root, collection, es.drop_last());
        assert forall|i: int| 0 <= i < listed_tracks(root, collection, es).len() implies crate::models::is_audio_file(
            #[trigger] listed_tracks(root, collection, es)[i].1,
            listed_tracks(root, collection, es)[i].2,
        ) by {
            if i < before.len() {
                assert(listed_tracks(root, collection, es)[i] == before[i]);
            }
        }
    }
}

/// Law: the walk never queues the collection being listed: whatever the
/// entries of a collection's listing, none of the sub-collections it leads
/// to is that collection (in normal form), so listing a collection whose
/// reply names the collection itself does not list it again.
pub proof fn law_listing_never_requeues_itself(
    root: Seq<char>,
    collection: Seq<char>,
    es: Seq<(Seq<char>, bool, u64)>,
)
    ensures
        forall|i: int|
            0 <= i < descents(root, collection, es).len() ==> #[trigger] descents(root, collection, es)[i]
                != normalized_collection(collection),
    decreases es.len(),
{
    if es.len() > 0 {
        law_listing_never_requeues_itself(root, collection, es.drop_last());
        let before = descents(root, collection, es.drop_last());
        assert forall|i: int|
            0 <= i < descents(root, collection, es).len() implies #[trigger] descents(root, collection, es)[i]
                != normalized_collection(collection) by {
            if i < before.len() {
                assert(descents(root, collection, es)[i] == before[i]);
            }
        }
    }
}

/// The entries as plain values.
pub open spec fn entry_views(es: Seq<WebDavEntry>) -> Seq<(Seq<char>, bool, u64)> {
    es.map_values(|e: WebDavEntry| entry_view(e))
}

/// Every entry's href resolves against the root URL.
pub open spec fn all_resolve(root: Seq<char>, es: Seq<(Seq<char>, bool, u64)>) -> bool {
    forall|k: int| 0 <= k < es.len() ==> #[trigger] url_resolution(root, es[k].0) is Ok
}

/// What one listed entry means for the scan.
#[derive(Debug)]
pub enum EntryAction {
    Skip,
    Descend(String),
    AddTrack(Track),
}

/// Decides what a listed entry means: a sub-collection to list, a track, or
/// nothing. Fails when its href does not resolve against the root URL.
pub fn classify_entry(
    root_url: &str,
    collection_url: &str,
    entry: &WebDavEntry,
    repository_id: i64,
    now: Timestamp,
) -> (r: Result<EntryAction, WebDavError>)
    ensures
        match url_resolution(root_url@, entry.href@) {
            Err(e) => r matches Err(WebDavError::UrlParse(m)) && m@ == e,
            Ok(_) => r matches Ok(a) && match a {
                EntryAction::Skip => descent_of(root_url@, collection_url@, entry_view(*entry)) is None
                    && track_of(root_url@, collection_url@, entry_view(*entry)) is None,
                EntryAction::Descend(d) => descent_of(root_url@, collection_url@, entry_view(*entry))
                    == Some(d@),
                EntryAction::AddTrack(t) => match track_of(root_url@, collection_url@, entry_view(*entry)) {
                    Some(facts) => is_new_track(t, repository_id, facts, now),
                    None => false,
                },
            },
        },
{
    let entry_url = match resolve_webdav_url(root_url, entry.href.as_str()) {
        Ok(u) => u,
        Err(e) => return Err(e),
    };
    if same_collection_url(entry_url.as_str(), collection_url) {
        return Ok(EntryAction::Skip);
    }
    if entry.is_collection {
        return Ok(EntryAction::Descend(normalize_collection_url(entry_url.as_str())));
    }
    let file_name = match file_name_from_url(entry_url.as_str()) {
        Some(n) => n,
        None => return Ok(EntryAction::Skip),
    };
    let format = match audio_format_of_name(file_name.as_str()) {
        Some(f) => f,
        None => return Ok(EntryAction::Skip),
    };
    let path = webdav_track_path(root_url, entry_url.as_str());
    Ok(
        EntryAction::AddTrack(
            Track {
                id: 0,
                repository_id,
                path,
                name: file_name,
                format,
                size: entry.size,
                duration: None,
                url: entry_url,
                local_path: None,
                downloaded: false,
                discovered_at: now,
                favorite: false,
                blacklisted: false,
            },
        ),
    )
}

/// A walk over a WebDAV collection tree: the collections still to list and
/// the tracks found so far.
#[derive(Debug)]
pub struct WebDavScan {
    pub pending: Vec<String>,
    pub tracks: Vec<Track>,
}

impl WebDavScan {
    /// A walk that starts by listing the root collection.
    pub fn new(root_url: &str) -> (s: Self)
        ensures
            s.pending.deep_view() == seq![root_url@],
            s.tracks@.len() == 0,
    {
        let mut pending: Vec<String> = Vec::new();
        pending.push(root_url.to_string());
        assert(pending.deep_view() =~= seq![root_url@]);
        WebDavScan { pending, tracks: Vec::new() }
    }

    /// The next collection to list, most recently found first.
    pub fn next_collection(&mut self) -> (c: Option<String>)
        ensures
            old(self).pending@.len() == 0 ==> c is None && final(self).pending@.len() == 0,
            old(self).pending@.len() > 0 ==> (c matches Some(u) && u@ == old(self).pending@.last()@
                && final(self).pending@ == old(self).pending@.drop_last()),
            final(self).tracks@ == old(self).tracks@,
    {
        self.pending.pop()
    }

    /// Takes in the listing of `collection_url`: sub-collections join the
    /// collections to list, audio files join the tracks, in listing order.
    /// Fails, leaving the walk to be abandoned, when an href does not
    /// resolve against the root URL.
    pub fn absorb_listing(
        &mut self,
        root_url: &str,
        repository_id: i64,
        collection_url: &str,
        entries: &[WebDavEntry],
        now: Timestamp,
    ) -> (r: Result<(), WebDavError>)
        ensures
            r is Ok <==> all_resolve(root_url@, entry_views(entries@)),
            r is Ok ==> final(self).pending.deep_view() == old(self).pending.deep_view() + descents(
                root_url@,
                collection_url@,
                entry_views(entries@),
            ),
            r is Ok ==> forall|i: int|
                old(self).pending@.len() <= i < final(self).pending@.len() ==> #[trigger] final(self).pending.deep_view()[i]
                    != normalized_collection(collection_url@),
            r is Ok ==> final(self).tracks@.len() == old(self).tracks@.len() + listed_tracks(
                root_url@,
                collection_url@,
                entry_views(entries@),
            ).len(),
            r is Ok ==> forall|i: int|
                0 <= i < old(self).tracks@.len() ==> #[trigger] final(self).tracks@[i] == old(
                    self,
                ).tracks@[i],
            r is Ok ==> forall|i: int|
                0 <= i < listed_tracks(root_url@, collection_url@, entry_views(entries@)).len()
                    ==> is_new_track(
                    #[trigger] final(self).tracks@[old(self).tracks@.len() + i],
                    repository_id,
                    listed_tracks(root_url@, collection_url@, entry_views(entries@))[i],
                    now,
                ),
    {
        let ghost views = entry_views(entries@);
        let ghost old_pending = self.pending.deep_view();
        let ghost old_tracks = self.tracks@;
        let mut k: usize = 0;
        assert(views.take(0) =~= Seq::<(Seq<char>, bool, u64)>::empty());
        assert(old_pending + Seq::<Seq<char>>::empty() =~= old_pending);
        while k < entries.len()
            invariant
                k <= entries@.len(),
                views == entry_views(entries@),
                views.len() == entries@.len(),
                all_resolve(root_url@, views.take(k as int)),
                self.pending.deep_view() == old_pending + descents(
                    root_url@,
                    collection_url@,
                    views.take(k as int),
                ),
                self.tracks@.len() == old_tracks.len() + listed_tracks(
                    root_url@,
                    collection_url@,
                    views.take(k as int),
                ).len(),
                forall|i: int| 0 <= i < old_tracks.len() ==> #[trigger] self.tracks@[i] == old_tracks[i],
                forall|i: int|
                    0 <= i < listed_tracks(root_url@, collection_url@, views.take(k as int)).len()
                        ==> is_new_track(
                        #[trigger] self.tracks@[old_tracks.len() + i],
                        repository_id,
                        listed_tracks(root_url@, collection_url@, views.take(k as int))[i],
                        now,
                    ),
            decreases entries@.len() - k,
        {
            assert(views[k as int] == entry_view(entries@[k as int]));
            assert(views.take(k + 1).drop_last() =~= views.take(k as int));
            assert(views.take(k + 1).last() == views[k as int]);
            let ghost before_pending = self.pending.deep_view();
            let ghost before_tracks = self.tracks@;
            let ghost prev_hits = listed_tracks(root_url@, collection_url@, views.take(k as int));
            match classify_entry(root_url, collection_url, &entries[k], repository_id, now) {
                Err(e) => {
                    proof {
                        assert(url_resolution(root_url@, views[k as int].0) is Err);
                        assert(!all_resolve(root_url@, views));
                    }
                    return Err(e);
                },
                Ok(EntryAction::Skip) => {
                    assert(listed_tracks(root_url@, collection_url@, views.take(k + 1)) =~= prev_hits);
                },
                Ok(EntryAction::Descend(d)) => {
                    self.pending.push(d);
                    assert(self.pending.deep_view() =~= before_pending.push(d@));
                    assert(listed_tracks(root_url@, collection_url@, views.take(k + 1)) =~= prev_hits);
                },
                Ok(EntryAction::AddTrack(t)) => {
                    self.tracks.push(t);
                    assert(listed_tracks(root_url@, collection_url@, views.take(k + 1)) =~= prev_hits.push(
                        track_of(root_url@, collection_url@, views[k as int]).unwrap(),
                    ));
                    assert(self.tracks@ == before_tracks.push(t));
                },
            }
            proof {
                assert forall|j: int| 0 <= j < k + 1 implies #[trigger] url_resolution(
                    root_url@,
                    views.take(k + 1)[j].0,
                ) is Ok by {
                    if j < k {
                        assert(views.take(k + 1)[j] == views.take(k as int)[j]);
                    }
                }
            }
            k = k + 1;
        }
        assert(views.take(k as int) =~= views);
        proof {
            law_listing_never_requeues_itself(root_url@, collection_url@, views);
            let added = descents(root_url@, collection_url@, views);
            assert forall|i: int|
                old_pending.len() <= i < self.pending@.len() implies #[trigger] self.pending.deep_view()[i]
                    != normalized_collection(collection_url@) by {
                assert(self.pending.deep_view()[i] == added[i - old_pending.len()]);
            }
        }
        Ok(())
    }
}

} // verus!
