//! Talking to the Drop server: how request URLs are built from the stored
//! base URL, how the server's answers are judged, and how the sign-in
//! handshake and the object cache decide what to do. The requests themselves
//! are sent elsewhere.

use vstd::prelude::*;
use vstd::string::{StrSliceExecFns, StringExecFns, StringSliceAdditionalSpecFns};
use crate::codec::{hex_encode, hex_text, md5_compute, md5_digest, split_char, split_on};
use crate::errors::{DropServerError, RemoteAccessError};
use crate::models::{clone_string, AppStatus};
use crate::paths::{join_path, spec_join_path};
use crate::text::{concat, starts_with, spec_starts_with, views};

verus! {

#[verifier::external_type_specification]
#[verifier::external_body]
pub struct ExUrlParseError(url::ParseError);

/// The serialization of the URL that `url::Url::parse` makes of a text, or
/// `None` where it refuses it.
pub uninterp spec fn url_parse_text(input: Seq<char>) -> Option<Seq<char>>;

/// The serialization of `input` resolved against the URL `base`, as
/// `url::Url::join` gives it, or `None` where either step refuses.
pub uninterp spec fn url_join_text(base: Seq<char>, input: Seq<char>) -> Option<Seq<char>>;

/// The serialization of the URL `url` once its query has been opened for
/// appending, as `url::Url::query_pairs_mut` leaves it.
pub uninterp spec fn url_open_query_text(url: Seq<char>) -> Option<Seq<char>>;

/// The serialization of the URL `url` with one more form-encoded query pair.
pub uninterp spec fn url_append_pair_text(url: Seq<char>, key: Seq<char>, value: Seq<char>) -> Option<Seq<char>>;

/// Trusted: `url::Url::parse`, serialized. Its outcome is a function of the
/// text alone; what the serialization is, is not stated.
#[verifier::external_body]
fn parse_url(input: &str) -> (r: Result<String, url::ParseError>)
    ensures
        match r {
            Ok(u) => url_parse_text(input@) == Some(u@),
            Err(_) => url_parse_text(input@) is None,
        },
{
    match url::Url::parse(input) {
        Ok(u) => Ok(String::from(u)),
        Err(e) => Err(e),
    }
}

/// Trusted: `url::Url::parse` of `base` followed by `url::Url::join`, serialized.
#[verifier::external_body]
fn join_url(base: &str, input: &str) -> (r: Result<String, url::ParseError>)
    ensures
        match r {
            Ok(u) => url_join_text(base@, input@) == Some(u@),
            Err(_) => url_join_text(base@, input@) is None,
        },
{
    match url::Url::parse(base) {
        Ok(b) => match b.join(input) {
            Ok(u) => Ok(String::from(u)),
            Err(e) => Err(e),
        },
        Err(e) => Err(e),
    }
}

/// Trusted: `url::Url::query_pairs_mut` on the parsed `url`, with nothing
/// appended (it leaves a `?` where there was no query).
#[verifier::external_body]
fn open_query(url: &str) -> (r: Result<String, url::ParseError>)
    ensures
        match r {
            Ok(u) => url_open_query_text(url@) == Some(u@),
            Err(_) => url_open_query_text(url@) is None,
        },
{
    match url::Url::parse(url) {
        Ok(mut u) => {
            u.query_pairs_mut();
            Ok(String::from(u))
        },
        Err(e) => Err(e),
    }
}

/// Trusted: `append_pair` on the query of the parsed `url`, serialized.
#[verifier::external_body]
fn append_query_pair(url: &str, key: &str, value: &str) -> (r: Result<String, url::ParseError>)
    ensures
        match r {
            Ok(u) => url_append_pair_text(url@, key@, value@) == Some(u@),
            Err(_) => url_append_pair_text(url@, key@, value@) is None,
        },
{
    match url::Url::parse(url) {
        Ok(mut u) => {
            u.query_pairs_mut().append_pair(key, value);
            Ok(String::from(u))
        },
        Err(e) => Err(e),
    }
}

/// Trusted: the `Display` text of a `url::ParseError`; nothing is stated of it.
#[verifier::external_body]
fn parse_error_text(e: &url::ParseError) -> (r: String) {
    e.to_string()
}

/// A refused URL becomes the library's parsing error.
fn url_outcome(r: Result<String, url::ParseError>) -> (out: Result<String, RemoteAccessError>)
    ensures
        match r {
            Ok(u) => out == Ok::<String, RemoteAccessError>(u),
            Err(_) => out matches Err(RemoteAccessError::ParsingError(_)),
        },
{
    match r {
        Ok(u) => Ok(u),
        Err(e) => Err(RemoteAccessError::ParsingError(parse_error_text(&e))),
    }
}

/// The URL after joining each of `paths` in turn onto `start`.
pub open spec fn spec_join_all(start: Option<Seq<char>>, paths: Seq<Seq<char>>) -> Option<Seq<char>>
    decreases paths.len(),
{
    if paths.len() == 0 {
        start
    } else {
        match spec_join_all(start, paths.drop_last()) {
            Some(u) => url_join_text(u, paths.last()),
            None => None,
        }
    }
}

/// The URL after appending each of `pairs` to its query, in order.
pub open spec fn spec_append_all(start: Option<Seq<char>>, pairs: Seq<(Seq<char>, Seq<char>)>) -> Option<Seq<char>>
    decreases pairs.len(),
{
    if pairs.len() == 0 {
        start
    } else {
        match spec_append_all(start, pairs.drop_last()) {
            Some(u) => url_append_pair_text(u, pairs.last().0, pairs.last().1),
            None => None,
        }
    }
}

pub open spec fn pair_views(v: Seq<(String, String)>) -> Seq<(Seq<char>, Seq<char>)> {
    v.map_values(|p: (String, String)| (p.0@, p.1@))
}

/// The URL of a request: the base URL with each path component joined on in
/// turn, then the query opened and each pair appended.
pub open spec fn spec_generate_url(
    base_url: Seq<char>,
    path_components: Seq<Seq<char>>,
    query: Seq<(Seq<char>, Seq<char>)>,
) -> Option<Seq<char>> {
    let joined = spec_join_all(url_parse_text(base_url), path_components);
    let opened = match joined {
        Some(u) => url_open_query_text(u),
        None => None,
    };
    spec_append_all(opened, query)
}

/// Builds the URL of a request to the server at `base_url`; fails with a
/// parsing error where a step is refused.
pub fn generate_url(
    base_url: &str,
    path_components: &Vec<String>,
    query: &Vec<(String, String)>,
) -> (r: Result<String, RemoteAccessError>)
    ensures
        match spec_generate_url(base_url@, views(path_components@), pair_views(query@)) {
            Some(u) => r matches Ok(v) && v@ == u,
            None => r matches Err(RemoteAccessError::ParsingError(_)),
        },
{
    let mut url = match url_outcome(parse_url(base_url)) {
        Ok(u) => u,
        Err(e) => {
            proof {
                assert(spec_join_all(None, views(path_components@)) is None) by {
                    lemma_join_all_none(views(path_components@));
                }
                lemma_append_all_none(pair_views(query@));
            }
            return Err(e);
        },
    };
    let mut i: usize = 0;
    while i < path_components.len()
        invariant
            i <= path_components@.len(),
            spec_join_all(url_parse_text(base_url@), views(path_components@.subrange(0, i as int))) == Some(url@),
        decreases path_components@.len() - i,
    {
        proof {
            let sub = views(path_components@.subrange(0, i as int + 1));
            assert(sub.drop_last() =~= views(path_components@.subrange(0, i as int)));
            assert(sub.last() == path_components@[i as int]@);
        }
        url = match url_outcome(join_url(url.as_str(), path_components[i].as_str())) {
            Ok(u) => u,
            Err(e) => {
                proof {
                    assert(views(path_components@).subrange(0, i as int + 1) =~= views(path_components@.subrange(0, i as int + 1)));
                    lemma_join_all_prefix_none(url_parse_text(base_url@), views(path_components@), i as int + 1);
                    lemma_append_all_none(pair_views(query@));
                }
                return Err(e);
            },
        };
        i = i + 1;
    }
    proof {
        assert(path_components@.subrange(0, i as int) =~= path_components@);
    }
    url = match url_outcome(open_query(url.as_str())) {
        Ok(u) => u,
        Err(e) => {
            proof {
                lemma_append_all_none(pair_views(query@));
            }
            return Err(e);
        },
    };
    let ghost opened = Some(url@);
    let mut j: usize = 0;
    while j < query.len()
        invariant
            j <= query@.len(),
            spec_append_all(opened, pair_views(query@.subrange(0, j as int))) == Some(url@),
            opened == (match spec_join_all(url_parse_text(base_url@), views(path_components@)) {
                Some(u) => url_open_query_text(u),
                None => None,
            }),
        decreases query@.len() - j,
    {
        proof {
            let sub = pair_views(query@.subrange(0, j as int + 1));
            assert(sub.drop_last() =~= pair_views(query@.subrange(0, j as int)));
            assert(sub.last() == (query@[j as int].0@, query@[j as int].1@));
        }
        url = match url_outcome(append_query_pair(url.as_str(), query[j].0.as_str(), query[j].1.as_str())) {
            Ok(u) => u,
            Err(e) => {
                proof {
                    assert(pair_views(query@).subrange(0, j as int + 1) =~= pair_views(query@.subrange(0, j as int + 1)));
                    lemma_append_all_prefix_none(opened, pair_views(query@), j as int + 1);
                }
                return Err(e);
            },
        };
        j = j + 1;
    }
    proof {
        assert(query@.subrange(0, j as int) =~= query@);
    }
    Ok(url)
}

proof fn lemma_join_all_none(paths: Seq<Seq<char>>)
    ensures
        spec_join_all(None, paths) is None,
    decreases paths.len(),
{
    if paths.len() > 0 {
        lemma_join_all_none(paths.drop_last());
    }
}

proof fn lemma_append_all_none(pairs: Seq<(Seq<char>, Seq<char>)>)
    ensures
        spec_append_all(None, pairs) is None,
    decreases pairs.len(),
{
    if pairs.len() > 0 {
        lemma_append_all_none(pairs.drop_last());
    }
}

/// Once a prefix of the components is refused, so is the whole.
proof fn lemma_join_all_prefix_none(start: Option<Seq<char>>, paths: Seq<Seq<char>>, k: int)
    requires
        0 <= k <= paths.len(),
        spec_join_all(start, paths.subrange(0, k)) is None,
    ensures
        spec_join_all(start, paths) is None,
    decreases paths.len(),
{
    if k < paths.len() {
        assert(paths.drop_last().subrange(0, k) =~= paths.subrange(0, k));
        lemma_join_all_prefix_none(start, paths.drop_last(), k);
    } else {
        assert(paths.subrange(0, k) =~= paths);
    }
}

proof fn lemma_append_all_prefix_none(start: Option<Seq<char>>, pairs: Seq<(Seq<char>, Seq<char>)>, k: int)
    requires
        0 <= k <= pairs.len(),
        spec_append_all(start, pairs.subrange(0, k)) is None,
    ensures
        spec_append_all(start, pairs) is None,
    decreases pairs.len(),
{
    if k < pairs.len() {
        assert(pairs.drop_last().subrange(0, k) =~= pairs.subrange(0, k));
        lemma_append_all_prefix_none(start, pairs.drop_last(), k);
    } else {
        assert(pairs.subrange(0, k) =~= pairs);
    }
}

/// The URL of a path on the server at `base_url`. Needs the path to resolve
/// against a base URL that parses.
pub fn gen_drop_url(base_url: &str, path: &str) -> (r: Result<String, RemoteAccessError>)
    requires
        url_parse_text(base_url@) matches Some(b) ==> url_join_text(b, path@) is Some,
    ensures
        match url_parse_text(base_url@) {
            None => r matches Err(RemoteAccessError::ParsingError(_)),
            Some(b) => r matches Ok(u) && Some(u@) == url_join_text(b, path@),
        },
{
    let base = match url_outcome(parse_url(base_url)) {
        Ok(b) => b,
        Err(e) => return Err(e),
    };
    match join_url(base.as_str(), path) {
        Ok(u) => Ok(u),
        Err(_) => {
            proof {
                assert(false);
            }
            Err(RemoteAccessError::InvalidRedirect)
        },
    }
}

/// `gen_drop_url` where the path resolves; `None` where it does not.
pub fn try_gen_drop_url(base_url: &str, path: &str) -> (r: Option<Result<String, RemoteAccessError>>)
    ensures
        match url_parse_text(base_url@) {
            None => r matches Some(Err(RemoteAccessError::ParsingError(_))),
            Some(b) => match url_join_text(b, path@) {
                Some(j) => r matches Some(Ok(u)) && u@ == j,
                None => r is None,
            },
        },
{
    let base = match url_outcome(parse_url(base_url)) {
        Ok(b) => b,
        Err(e) => return Some(Err(e)),
    };
    match join_url(base.as_str(), path) {
        Ok(_) => Some(gen_drop_url(base_url, path)),
        Err(_) => None,
    }
}

/// What connecting to a new server needs: its base URL and the health-check
/// endpoint `/api/v1` on it.
pub fn remote_endpoints(url: &str) -> (r: Result<(String, String), RemoteAccessError>)
    ensures
        match url_parse_text(url@) {
            None => r matches Err(RemoteAccessError::ParsingError(_)),
            Some(b) => match url_join_text(b, "/api/v1"@) {
                None => r matches Err(RemoteAccessError::ParsingError(_)),
                Some(t) => r matches Ok(p) && p.0@ == b && p.1@ == t,
            },
        },
{
    let base = match url_outcome(parse_url(url)) {
        Ok(b) => b,
        Err(e) => return Err(e),
    };
    let test = match url_outcome(join_url(base.as_str(), "/api/v1")) {
        Ok(t) => t,
        Err(e) => return Err(e),
    };
    Ok((base, test))
}

/// A server answered the health check: only one that calls itself `Drop` is
/// accepted.
pub fn check_health_response(app_name: &str) -> (r: Result<(), RemoteAccessError>)
    ensures
        app_name@ == "Drop"@ ==> r is Ok,
        app_name@ != "Drop"@ ==> r == Err::<(), RemoteAccessError>(RemoteAccessError::InvalidEndpoint),
{
    if crate::text::same_text(app_name, "Drop") {
        Ok(())
    } else {
        Err(RemoteAccessError::InvalidEndpoint)
    }
}

/// The client id and token of a handshake callback path
/// `<anything>/<client id>/<token>`.
pub fn parse_handshake_path(path: &str) -> (r: Result<(String, String), RemoteAccessError>)
    ensures
        split_on(path@, '/').len() == 3 ==> (r matches Ok(p)
            && p.0@ == split_on(path@, '/')[1] && p.1@ == split_on(path@, '/')[2]),
        split_on(path@, '/').len() != 3 ==> (r matches Err(RemoteAccessError::HandshakeFailed(m))
            && m@ == "failed to parse token"@),
{
    let chunks = split_char(path, '/');
    if chunks.len() != 3 {
        return Err(RemoteAccessError::HandshakeFailed(String::from_str("failed to parse token")));
    }
    proof {
        assert(views(chunks@)[1] == chunks@[1]@);
        assert(views(chunks@)[2] == chunks@[2]@);
    }
    Ok((clone_string(&chunks[1]), clone_string(&chunks[2])))
}

/// The callback path a manually entered token is handled as.
pub fn manual_handshake_path(token: &str) -> (r: String)
    ensures
        r@ == "handshake/"@ + token@,
{
    concat("handshake/", token)
}

/// The error a failed user request reports: an expired nonce means the
/// clocks disagree, anything else is an invalid response.
pub fn user_fetch_error(err: DropServerError) -> (r: RemoteAccessError)
    ensures
        err.status_message@ == "Nonce expired"@ ==> r == RemoteAccessError::OutOfSync,
        err.status_message@ != "Nonce expired"@ ==> r == RemoteAccessError::InvalidResponse(err),
{
    if crate::text::same_text(err.status_message.as_str(), "Nonce expired") {
        RemoteAccessError::OutOfSync
    } else {
        RemoteAccessError::InvalidResponse(err)
    }
}

/// The error a refused sign-in start reports.
pub fn initiate_error(err: &DropServerError) -> (r: RemoteAccessError)
    ensures
        r == RemoteAccessError::HandshakeFailed(err.status_message),
{
    RemoteAccessError::HandshakeFailed(clone_string(&err.status_message))
}

/// The `Authorization` header of a signed request.
pub fn authorization_header(client_id: &str, nonce: &str, signature: &str) -> (r: String)
    ensures
        r@ == "Nonce "@ + client_id@ + " "@ + nonce@ + " "@ + signature@,
{
    let mut r = concat("Nonce ", client_id);
    r.append(" ");
    r.append(nonce);
    r.append(" ");
    r.append(signature);
    r
}

/// The name this client registers under.
pub fn device_name(hostname: &str) -> (r: String)
    ensures
        r@ == hostname@ + " (Desktop)"@,
{
    concat(hostname, " (Desktop)")
}

/// What a message on the sign-in code socket asks for: a `token` message
/// carries the token to hand over, any other kind fails the handshake.
pub fn code_socket_message(response_type: &str, value: String) -> (r: Result<String, RemoteAccessError>)
    ensures
        response_type@ == "token"@ ==> r == Ok::<String, RemoteAccessError>(value),
        response_type@ != "token"@ ==> r == Err::<String, RemoteAccessError>(RemoteAccessError::HandshakeFailed(value)),
{
    if crate::text::same_text(response_type, "token") {
        Ok(value)
    } else {
        Err(RemoteAccessError::HandshakeFailed(value))
    }
}

/// The prefixes of server paths the client proxies itself; others open in
/// the browser.
pub open spec fn spec_proxied_prefix(path: Seq<char>) -> bool {
    ||| spec_starts_with(path, "/store"@)
    ||| spec_starts_with(path, "/api"@)
    ||| spec_starts_with(path, "/_"@)
    ||| spec_starts_with(path, "/fonts"@)
}

pub fn is_proxied_path(path: &str) -> (r: bool)
    ensures
        r == spec_proxied_prefix(path@),
{
    starts_with(path, "/store") || starts_with(path, "/api") || starts_with(path, "/_") || starts_with(path, "/fonts")
}

/// The path and query a proxied request is sent with.
pub fn proxied_path_and_query(path: &str) -> (r: String)
    ensures
        r@ == path@ + "?noWrapper=true"@,
{
    concat(path, "?noWrapper=true")
}

/// The `Authorization` header of a proxied request.
pub fn bearer_header(web_token: &str) -> (r: String)
    ensures
        r@ == "Bearer "@ + web_token@,
{
    concat("Bearer ", web_token)
}

/// What a user request came back with.
pub enum UserFetch<U> {
    /// The server sent the user.
    Fetched(U),
    /// The request failed: `true` when it could not be sent at all.
    Failed(bool),
}

/// The application's status at start-up and the user it knows of. Without
/// stored credentials the user is signed out; with them, a fetched user
/// signs in, an unreachable server goes offline with the cached user, and any
/// other failure asks to sign in again.
pub fn setup<U>(fetch: Option<UserFetch<U>>, cached_user: Option<U>) -> (r: (AppStatus, Option<U>))
    requires
        fetch matches Some(UserFetch::Failed(true)) ==> cached_user is Some,
    ensures
        match fetch {
            None => r == (AppStatus::SignedOut, None::<U>),
            Some(UserFetch::Fetched(u)) => r == (AppStatus::SignedIn, Some(u)),
            Some(UserFetch::Failed(true)) => r == (AppStatus::Offline, cached_user),
            Some(UserFetch::Failed(false)) => r == (AppStatus::SignedInNeedsReauth, None::<U>),
        },
{
    match fetch {
        None => (AppStatus::SignedOut, None),
        Some(UserFetch::Fetched(u)) => (AppStatus::SignedIn, Some(u)),
        Some(UserFetch::Failed(unreachable)) => {
            if unreachable {
                (AppStatus::Offline, cached_user)
            } else {
                (AppStatus::SignedInNeedsReauth, None)
            }
        },
    }
}

/// Whether a failed user request counts as the server being unreachable.
pub fn is_unreachable(e: &RemoteAccessError) -> (r: bool)
    ensures
        r == (*e is FetchError),
{
    match e {
        RemoteAccessError::FetchError(_, _) => true,
        _ => false,
    }
}

/// The file a cache entry for `key` lives in: the hex MD5 of the key's UTF-8
/// bytes, under `base`.
pub fn get_cache_path(base: &str, key: &str) -> (r: String)
    ensures
        r@ == spec_join_path(base@, hex_text(md5_digest(key.spec_bytes()))),
{
    let bytes = key.as_bytes_vec();
    let digest = md5_compute(bytes.as_slice());
    let name = hex_encode(digest.as_slice());
    join_path(base, name.as_str())
}

/// How long a cached object stays fresh, in seconds.
pub const OBJECT_CACHE_SECONDS: u64 = 86400;

/// A cached server object.
pub struct ObjectCache {
    pub content_type: String,
    pub body: Vec<u8>,
    /// Seconds since the epoch after which it is stale.
    pub expiry: u64,
}

impl ObjectCache {
    /// Caches a response received at `now`; it stays fresh for a day.
    pub fn new(content_type: String, body: Vec<u8>, now: u64) -> (r: Self)
        requires
            now + OBJECT_CACHE_SECONDS <= u64::MAX,
        ensures
            r.content_type == content_type,
            r.body == body,
            r.expiry == now + OBJECT_CACHE_SECONDS,
    {
        ObjectCache { content_type, body, expiry: now + OBJECT_CACHE_SECONDS }
    }

    /// Stale once its expiry lies before `current`.
    pub fn has_expired(&self, current: u64) -> (r: bool)
        ensures
            r == (self.expiry < current),
    {
        self.expiry < current
    }
}

/// Trusted: `SystemTime::now` measured from the Unix epoch, in whole seconds;
/// `None` when the clock is set before the epoch. Nothing is stated of the value.
#[verifier::external_body]
fn seconds_since_epoch() -> (r: Option<u64>) {
    match std::time::SystemTime::now().duration_since(std::time::UNIX_EPOCH) {
        Ok(d) => Some(d.as_secs()),
        Err(_) => None,
    }
}

/// The current time in seconds since the epoch; `None` when the clock is set
/// before the epoch.
pub fn get_sys_time_in_secs() -> (r: Option<u64>) {
    seconds_since_epoch()
}

/// The object id of a request path: the path without its leading `/`.
pub fn object_id_of(path: &str) -> (r: String)
    requires
        path@.len() > 0,
        path@[0] == '/',
    ensures
        r@ == path@.drop_first(),
{
    let n = path.unicode_len();
    proof {
        assert(path@.subrange(1, n as int) =~= path@.drop_first());
    }
    String::from_str(path.substring_char(1, n))
}

/// The server URL of an object.
pub fn object_url(base_url: &str, object_id: &str) -> (r: String)
    ensures
        r@ == base_url@ + "api/v1/client/object/"@ + object_id@,
{
    let mut r = concat(base_url, "api/v1/client/object/");
    r.append(object_id);
    r
}

/// How an object request is answered.
pub enum ObjectPlan {
    /// The cached copy is fresh: answer with it, no request.
    ServeCached,
    /// Ask the server.
    Fetch,
}

/// Answers from the cache only while the cached copy is fresh.
pub fn plan_object_request(cached: &Option<ObjectCache>, now: u64) -> (r: ObjectPlan)
    ensures
        r is ServeCached <==> (cached matches Some(c) && c.expiry >= now),
{
    match cached {
        Some(c) => if !c.has_expired(now) {
            ObjectPlan::ServeCached
        } else {
            ObjectPlan::Fetch
        },
        None => ObjectPlan::Fetch,
    }
}

/// Whether a freshly fetched object is written to the cache: when there was
/// no cached copy or it had gone stale.
pub fn should_store_object(cached: &Option<ObjectCache>, now: u64) -> (r: bool)
    ensures
        r == !(cached matches Some(c) && c.expiry >= now),
{
    match cached {
        Some(c) => c.has_expired(now),
        None => true,
    }
}

} // verus!
