//! Decisions of the command-line interface: reading repository
//! identifiers, building the repositories it adds, choosing where a WebDAV
//! password is kept, and the checks and filters of its track commands.

use vstd::prelude::*;

use crate::credentials::{
    lookup_view, resolve_webdav_password, store_webdav_password, unit_view, webdav_key,
    CredentialStore,
};
use crate::models::{Repository, RepositorySource, Timestamp, Track};
use crate::text::{
    chars_of, copy_range, first_occurrence_from, is_white_space, lemma_trim_shape, occurs_at,
    split_chars, split_pieces, string_of, trim_chars, trim_leading, trim_leading_chars, trim_seq,
};

verus! {

broadcast use {vstd::string::group_string_axioms, vstd::slice::group_slice_axioms};

/// `s` without trailing `/` characters.
pub open spec fn without_trailing_slashes(s: Seq<char>) -> Seq<char>
    decreases s.len(),
{
    if s.len() > 0 && s.last() == '/' {
        without_trailing_slashes(s.drop_last())
    } else {
        s
    }
}

/// A repository identifier reduced to `owner/name...`: trimmed, without
/// trailing slashes, and without leading `https://`, `http://` and
/// `github.com/`.
pub open spec fn repository_path(url: Seq<char>) -> Seq<char> {
    trim_leading(
        trim_leading(
            trim_leading(without_trailing_slashes(trim_seq(url)), "https://"@),
            "http://"@,
        ),
        "github.com/"@,
    )
}

/// The message of an identifier that names no repository.
pub open spec fn invalid_repository_message() -> Seq<char> {
    "Invalid repository URL format. Expected owner/repo or GitHub URL"@
}

/// The owner and name an identifier gives: the first two `/`-separated
/// pieces of its repository path, both non-empty.
pub open spec fn parsed_repository(url: Seq<char>) -> Result<(Seq<char>, Seq<char>), Seq<char>> {
    let parts = split_pieces(repository_path(url), "/"@);
    if parts.len() < 2 || parts[0].len() == 0 || parts[1].len() == 0 {
        Err(invalid_repository_message())
    } else {
        Ok((parts[0], parts[1]))
    }
}

/// No `/` in the text.
pub open spec fn has_no_slash(s: Seq<char>) -> bool {
    forall|i: int| 0 <= i < s.len() ==> s[i] != '/'
}

/// `owner/name` for an owner and a name without `/`: its only `/` is the
/// separator, and it splits into exactly the two.
proof fn lemma_owner_name_shape(owner: Seq<char>, name: Seq<char>)
    requires
        has_no_slash(owner),
        has_no_slash(name),
    ensures
        ({
            let s = owner + "/"@ + name;
            &&& s.len() == owner.len() + 1 + name.len()
            &&& s[owner.len() as int] == '/'
            &&& forall|j: int| 0 <= j < s.len() && s[j] == '/' ==> j == owner.len()
            &&& split_pieces(s, "/"@) == seq![owner, name]
        }),
{
    reveal_strlit("/");
    let s = owner + "/"@ + name;
    let k = owner.len() as int;
    assert forall|j: int| 0 <= j < s.len() && s[j] == '/' implies j == k by {
        if j < k {
            assert(s[j] == owner[j]);
        } else if j > k {
            assert(s[j] == name[j - k - 1]);
        }
    }
    crate::text::lemma_first_occurrence(s, "/"@, 0);
    assert(s.subrange(k, k + 1) =~= "/"@);
    assert(occurs_at(s, "/"@, k));
    match first_occurrence_from(s, "/"@, 0) {
        Some(i) => {
            assert(s.subrange(i as int, i as int + 1)[0] == s[i as int]);
            assert(i == k);
        },
        None => {},
    }
    assert(s.take(k) =~= owner);
    assert(s.skip(k + 1) =~= name);
    crate::text::lemma_first_occurrence(name, "/"@, 0);
    match first_occurrence_from(name, "/"@, 0) {
        Some(i) => {
            assert(name.subrange(i as int, i as int + 1)[0] == name[i as int]);
        },
        None => {},
    }
    assert(split_pieces(name, "/"@) == seq![name]);
    assert(split_pieces(s, "/"@) =~= seq![owner] + seq![name]);
}

/// Law: `owner/name` reads back as that owner and name, for every
/// non-empty owner and name without `/` and without whitespace at the outer
/// ends, but for the owner `github.com`, which is read as the host.
pub proof fn law_owner_name_round_trip(owner: Seq<char>, name: Seq<char>)
    requires
        owner.len() > 0,
        name.len() > 0,
        has_no_slash(owner),
        has_no_slash(name),
        !is_white_space(owner[0]),
        !is_white_space(name.last()),
        owner != "github.com"@,
    ensures
        parsed_repository(owner + "/"@ + name) == Ok::<(Seq<char>, Seq<char>), Seq<char>>((owner, name)),
{
    let s = owner + "/"@ + name;
    let k = owner.len() as int;
    lemma_owner_name_shape(owner, name);
    assert(s[0] == owner[0]);
    assert(s.last() == name.last());
    lemma_trim_shape(s);
    assert(without_trailing_slashes(s) == s);
    reveal_strlit("https://");
    reveal_strlit("http://");
    reveal_strlit("github.com/");
    reveal_strlit("github.com");
    if s.len() >= 8 && s.take(8) == "https://"@ {
        assert(s[6] == s.take(8)[6] && s[7] == s.take(8)[7]);
    }
    assert(trim_leading(s, "https://"@) == s);
    if s.len() >= 7 && s.take(7) == "http://"@ {
        assert(s[5] == s.take(7)[5] && s[6] == s.take(7)[6]);
    }
    assert(trim_leading(s, "http://"@) == s);
    if s.len() >= 11 && s.take(11) == "github.com/"@ {
        assert(s[10] == s.take(11)[10]);
        assert(k == 10);
        assert(owner =~= s.take(11).take(10));
        assert(owner =~= "github.com"@);
    }
    assert(trim_leading(s, "github.com/"@) == s);
    assert(repository_path(s) == s);
}

/// Law: the GitHub URL `https://github.com/owner/name` reads as that owner
/// and name, under the same conditions as `owner/name`.
pub proof fn law_github_url_round_trip(owner: Seq<char>, name: Seq<char>)
    requires
        owner.len() > 0,
        name.len() > 0,
        has_no_slash(owner),
        has_no_slash(name),
        !is_white_space(name.last()),
        owner != "github.com"@,
    ensures
        parsed_repository("https://github.com/"@ + owner + "/"@ + name) == Ok::<
            (Seq<char>, Seq<char>),
            Seq<char>,
        >((owner, name)),
{
    let p = owner + "/"@ + name;
    let u = "https://github.com/"@ + owner + "/"@ + name;
    let k = owner.len() as int;
    lemma_owner_name_shape(owner, name);
    reveal_strlit("https://github.com/");
    reveal_strlit("https://");
    reveal_strlit("http://");
    reveal_strlit("github.com/");
    reveal_strlit("github.com");
    assert(u =~= "https://github.com/"@ + p);
    assert(u[0] == 'h');
    assert(u.last() == name.last());
    lemma_trim_shape(u);
    assert(without_trailing_slashes(u) == u);
    let g = u.skip(8);
    assert(u.take(8) =~= "https://"@);
    assert(g =~= "github.com/"@ + p);
    assert(g[0] == 'g');
    if g.len() >= 8 && g.take(8) == "https://"@ {
        assert(g[0] == g.take(8)[0]);
    }
    assert(trim_leading(g, "https://"@) == g);
    assert(trim_leading(u, "https://"@) == g);
    if g.len() >= 7 && g.take(7) == "http://"@ {
        assert(g[0] == g.take(7)[0]);
    }
    assert(trim_leading(g, "http://"@) == g);
    assert(g.take(11) =~= "github.com/"@);
    assert(g.skip(11) =~= p);
    if p.len() >= 11 && p.take(11) == "github.com/"@ {
        assert(p[10] == p.take(11)[10]);
        assert(k == 10);
        assert(owner =~= p.take(11).take(10));
        assert(owner =~= "github.com"@);
    }
    assert(trim_leading(p, "github.com/"@) == p);
    assert(trim_leading(g, "github.com/"@) == p);
    assert(repository_path(u) == p);
}

/// Reads `owner/repo`, or a GitHub URL, into owner and repository name.
pub fn parse_repository_url(url: &str) -> (r: Result<(String, String), String>)
    ensures
        match r {
            Ok((owner, name)) => parsed_repository(url@) == Ok::<(Seq<char>, Seq<char>), Seq<char>>(
                (owner@, name@),
            ),
            Err(e) => parsed_repository(url@) == Err::<(Seq<char>, Seq<char>), Seq<char>>(e@),
        },
{
    let u = chars_of(url);
    let t = trim_chars(&u);
    let mut end = t.len();
    assert(t@.take(end as int) =~= t@);
    while end > 0 && t[end - 1] == '/'
        invariant
            end <= t@.len(),
            without_trailing_slashes(t@) == without_trailing_slashes(t@.take(end as int)),
        decreases end,
    {
        assert(t@.take(end as int).drop_last() =~= t@.take(end - 1));
        end = end - 1;
    }
    let s = copy_range(&t, 0, end);
    assert(s@ =~= t@.take(end as int));
    let https = chars_of("https://");
    let http = chars_of("http://");
    let github = chars_of("github.com/");
    let s = trim_leading_chars(&s, &https);
    let s = trim_leading_chars(&s, &http);
    let s = trim_leading_chars(&s, &github);
    let slash = chars_of("/");
    proof {
        reveal_strlit("/");
    }
    let parts = split_chars(&s, &slash);
    let ghost ps = parts.deep_view();
    if parts.len() < 2 || parts[0].len() == 0 || parts[1].len() == 0 {
        proof {
            if parts@.len() >= 2 {
                assert(ps[0] == parts@[0]@);
                assert(ps[1] == parts@[1]@);
            }
        }
        return Err("Invalid repository URL format. Expected owner/repo or GitHub URL".to_string());
    }
    assert(ps[0] == parts@[0]@);
    assert(ps[1] == parts@[1]@);
    Ok((string_of(&parts[0]), string_of(&parts[1])))
}

/// The repository `add` records for a GitHub `owner/repo`: cached, not yet
/// scanned, with its web address.
pub fn github_repository(owner: &str, repo_name: &str, now: Timestamp) -> (r: Repository)
    ensures
        r.id == 0,
        r.owner@ == owner@,
        r.name@ == repo_name@,
        r.url@ == "https://github.com/"@ + owner@ + "/"@ + repo_name@,
        r.source_type == RepositorySource::GitHub,
        r.cache_enabled,
        r.username is None && r.password is None,
        r.added_at == now,
        r.last_scanned is None,
        r.track_count == 0,
        r.tree_etag is None,
{
    Repository {
        id: 0,
        owner: owner.to_string(),
        name: repo_name.to_string(),
        url: crate::github::repository_web_url(owner, repo_name),
        source_type: RepositorySource::GitHub,
        cache_enabled: true,
        username: None,
        password: None,
        added_at: now,
        last_scanned: None,
        track_count: 0,
        tree_etag: None,
    }
}

/// The repository a WebDAV source is recorded as: owned by `webdav`, at its
/// normalized collection URL, not yet scanned.
pub fn webdav_repository(
    name: &str,
    url: &str,
    username: Option<String>,
    password: Option<String>,
    cache_enabled: bool,
    now: Timestamp,
) -> (r: Repository)
    ensures
        r.id == 0,
        r.owner@ == "webdav"@,
        r.name@ == name@,
        r.url@ == crate::webdav::normalized_collection(url@),
        r.source_type == RepositorySource::WebDav,
        r.cache_enabled == cache_enabled,
        r.username == username && r.password == password,
        r.added_at == now,
        r.last_scanned is None,
        r.track_count == 0,
        r.tree_etag is None,
{
    Repository {
        id: 0,
        owner: "webdav".to_string(),
        name: name.to_string(),
        url: crate::webdav::normalize_collection_url(url),
        source_type: RepositorySource::WebDav,
        cache_enabled,
        username,
        password,
        added_at: now,
        last_scanned: None,
        track_count: 0,
        tree_etag: None,
    }
}

/// The password to persist with a new WebDAV source in the database: none
/// when it went to the credential store, the password itself when storing
/// it failed (so the source stays usable).
pub fn inline_password_after_store<S: CredentialStore>(
    name: &str,
    password: Option<&str>,
    store: &mut S,
) -> (r: Option<String>)
    ensures
        password is None ==> r is None && *final(store) == *old(store),
        password matches Some(p) ==> exists|outcome: Result<(), Seq<char>>|
            #![trigger old(store).set_allows(final(store).contents(), webdav_key(name@), p@, outcome)]
            old(store).set_allows(final(store).contents(), webdav_key(name@), p@, outcome) && (outcome is Ok
                ==> r is None) && (outcome is Err ==> (r matches Some(s) && s@ == p@)),
{
    match password {
        None => None,
        Some(value) => {
            let stored = store_webdav_password(name, value, store);
            let ghost outcome = unit_view(stored);
            match stored {
                Ok(()) => None,
                Err(_) => Some(value.to_string()),
            }
        },
    }
}

/// The password to use for a WebDAV source: the stored one (or the inline
/// fallback) as resolved from the credential store, or the inline value
/// when the store cannot be read.
pub fn webdav_password_for<S: CredentialStore>(repository: &Repository, store: &S) -> (r: Option<String>)
    ensures
        exists|stored: Result<Option<Seq<char>>, Seq<char>>|
            #![trigger store.get_allows(webdav_key(repository.name@), stored)]
            store.get_allows(webdav_key(repository.name@), stored) && match crate::credentials::resolved_password(
                stored,
                crate::credentials::opt_string_view(repository.password),
            ) {
                Ok(v) => crate::credentials::opt_string_view(r) == v,
                Err(_) => crate::credentials::opt_string_view(r) == crate::credentials::opt_string_view(
                    repository.password,
                ),
            },
{
    let inline: Option<&str> = match &repository.password {
        Some(p) => Some(p.as_str()),
        None => None,
    };
    assert(crate::credentials::opt_str_view(inline) == crate::credentials::opt_string_view(repository.password));
    match resolve_webdav_password(repository.name.as_str(), inline, store) {
        Ok(value) => value,
        Err(_) => match &repository.password {
            Some(p) => Some(p.clone()),
            None => None,
        },
    }
}

/// Refuses to favorite a blacklisted track.
pub fn check_favorite_allowed(track: &Track, favorite: bool) -> (r: Result<(), String>)
    ensures
        (track.blacklisted && favorite) <==> r is Err,
        r matches Err(e) ==> e@ == "Blacklisted tracks cannot be favorited. Unblock the track first."@,
{
    if track.blacklisted && favorite {
        Err("Blacklisted tracks cannot be favorited. Unblock the track first.".to_string())
    } else {
        Ok(())
    }
}

/// The favorites among `tracks` (blacklisted ones excluded), in order.
pub open spec fn favorites_of(tracks: Seq<Track>) -> Seq<Track>
    decreases tracks.len(),
{
    if tracks.len() == 0 {
        Seq::empty()
    } else {
        favorites_of(tracks.drop_last()) + if tracks.last().favorite && !tracks.last().blacklisted {
            seq![tracks.last()]
        } else {
            Seq::empty()
        }
    }
}

/// The blacklisted tracks among `tracks`, in order.
pub open spec fn blacklisted_of(tracks: Seq<Track>) -> Seq<Track>
    decreases tracks.len(),
{
    if tracks.len() == 0 {
        Seq::empty()
    } else {
        blacklisted_of(tracks.drop_last()) + if tracks.last().blacklisted {
            seq![tracks.last()]
        } else {
            Seq::empty()
        }
    }
}

/// Keeps the favorite tracks that are not blacklisted.
pub fn keep_favorites(tracks: Vec<Track>) -> (r: Vec<Track>)
    ensures
        r@ == favorites_of(tracks@),
{
    let mut out: Vec<Track> = Vec::new();
    let ghost all = tracks@;
    for t in iter: tracks
        invariant
            iter.seq() == all,
            out@ == favorites_of(all.take(iter.index() as int)),
    {
        assert(all.take(iter.index() + 1).drop_last() =~= all.take(iter.index() as int));
        if t.favorite && !t.blacklisted {
            out.push(t);
        }
    }
    assert(all.take(all.len() as int) =~= all);
    out
}

/// Keeps the blacklisted tracks.
pub fn keep_blacklisted(tracks: Vec<Track>) -> (r: Vec<Track>)
    ensures
        r@ == blacklisted_of(tracks@),
{
    let mut out: Vec<Track> = Vec::new();
    let ghost all = tracks@;
    for t in iter: tracks
        invariant
            iter.seq() == all,
            out@ == blacklisted_of(all.take(iter.index() as int)),
    {
        assert(all.take(iter.index() + 1).drop_last() =~= all.take(iter.index() as int));
        if t.blacklisted {
            out.push(t);
        }
    }
    assert(all.take(all.len() as int) =~= all);
    out
}

/// The tracks among `tracks` that are not blacklisted, in order.
pub open spec fn listed_of(tracks: Seq<Track>) -> Seq<Track>
    decreases tracks.len(),
{
    if tracks.len() == 0 {
        Seq::empty()
    } else {
        listed_of(tracks.drop_last()) + if !tracks.last().blacklisted {
            seq![tracks.last()]
        } else {
            Seq::empty()
        }
    }
}

/// Keeps the tracks that are not blacklisted (what `list-tracks` shows by
/// default).
pub fn keep_listed(tracks: Vec<Track>) -> (r: Vec<Track>)
    ensures
        r@ == listed_of(tracks@),
{
    let mut out: Vec<Track> = Vec::new();
    let ghost all = tracks@;
    for t in iter: tracks
        invariant
            iter.seq() == all,
            out@ == listed_of(all.take(iter.index() as int)),
    {
        assert(all.take(iter.index() + 1).drop_last() =~= all.take(iter.index() as int));
        if !t.blacklisted {
            out.push(t);
        }
    }
    assert(all.take(all.len() as int) =~= all);
    out
}

/// The status column of a listed track: downloaded or not, then its marks.
pub open spec fn track_status(track: Track) -> Seq<char> {
    (if track.downloaded {
        "Downloaded"@
    } else {
        "Not downloaded"@
    }) + (if track.favorite {
        ", Favorite"@
    } else {
        ""@
    }) + (if track.blacklisted {
        ", Blacklisted"@
    } else {
        ""@
    })
}

/// The status column of a listed track.
pub fn track_status_text(track: &Track) -> (t: String)
    ensures
        t@ == track_status(*track),
{
    proof {
        reveal_strlit("");
        assert(""@ =~= Seq::<char>::empty());
    }
    let head = if track.downloaded {
        "Downloaded".to_string()
    } else {
        "Not downloaded".to_string()
    };
    let head = if track.favorite {
        crate::text::concat_str(head.as_str(), ", Favorite")
    } else {
        head
    };
    let r = if track.blacklisted {
        crate::text::concat_str(head.as_str(), ", Blacklisted")
    } else {
        head
    };
    assert(r@ =~= track_status(*track));
    r
}

/// How a repository identifier is looked up: by id when it reads as an
/// integer, else as the name of a WebDAV source.
#[derive(Debug, Clone, Copy, PartialEq, Eq, Structural)]
pub enum RepositoryLookup {
    ById(i64),
    ByWebDavName,
}

/// Decides how to look up a repository identifier.
pub fn repository_lookup(identifier: &str) -> (l: RepositoryLookup)
    ensures
        match crate::text::parse_i64_spec(identifier@) {
            Some(id) => l == RepositoryLookup::ById(id),
            None => l == RepositoryLookup::ByWebDavName,
        },
{
    let cs = chars_of(identifier);
    match crate::text::parse_i64(&cs) {
        Some(id) => RepositoryLookup::ById(id),
        None => RepositoryLookup::ByWebDavName,
    }
}

} // verus!
