//! The AniList side: the watch list entries, the OAuth token exchange and
//! the GraphQL requests, as request bodies to send and values to read out
//! of the parsed replies.

use vstd::prelude::*;

use crate::json::{
    array_of, as_u64_of, deref_opt, field_of, get_of, json_quoted, lemma_quoted_verbatim,
    needs_no_escape, quote, str_of, Json,
};
use crate::text::{
    decimal, law_decimal_written, law_signed_written, push_decimal, push_signed_decimal,
    signed_decimal, written_as, written_signed,
};

verus! {

broadcast use vstd::string::group_string_axioms;

/// Where the OAuth authorisation code is exchanged for an access token.
pub const TOKEN_URL: &'static str = "https://anilist.co/api/v2/oauth/token";

/// The GraphQL endpoint.
pub const GRAPHQL_URL: &'static str = "https://graphql.anilist.co";

/// The page where the user grants access; it redirects to `ndnd://?code=...`.
pub const AUTHORIZE_URL: &'static str = "https://anilist.co/api/v2/oauth/authorize?client_id=14244&redirect_uri=ndnd://&response_type=code";

/// The token request body up to the authorisation code (members in
/// serde_json's key order).
pub const TOKEN_BODY_HEAD: &'static str = "{\"client_id\":\"14244\",\"client_secret\":\"0wff5vDRO60TB19fStqWGydVtfd01Nahf2TzyXQU\",\"code\":";

/// The token request body after the authorisation code.
pub const TOKEN_BODY_TAIL: &'static str = ",\"grant_type\":\"authorization_code\",\"redirect_uri\":\"ndnd://\"}";

/// The query for the id of the logged-in user.
pub const VIEWER_QUERY: &'static str = "{\"query\":\"{Viewer { id }}\"}";

/// The watch list query up to the user id (line breaks removed, the
/// indentation kept).
pub const WATCHING_QUERY_HEAD: &'static str = "{                \"query\": \"{                    MediaListCollection (userId: ";

/// The watch list query after the user id.
pub const WATCHING_QUERY_TAIL: &'static str = ", type: ANIME) {                        lists {                            name,                            entries {                                id,                                progress,                                media {                                    title {                                        romaji(stylised: false)                                    },                                    episodes,                                    updatedAt,                                    nextAiringEpisode {                                        airingAt,                                        episode                                    }                                }                            }                        }                    }                }\"            }";

/// The progress mutation up to the list entry id.
pub const UPDATE_QUERY_HEAD: &'static str = "{                    \"query\": \"mutation {                        UpdateMediaListEntries (ids: [";

/// The progress mutation between the entry id and the new progress.
pub const UPDATE_QUERY_MIDDLE: &'static str = "], progress: ";

/// The progress mutation after the new progress.
pub const UPDATE_QUERY_TAIL: &'static str = ") {                            progress                        }                    }\"                }";

/// The name of the list whose entries are shown.
pub const WATCHING_LIST: &'static str = "Watching";

/// One entry of the user's watch list.
#[derive(Clone, Debug)]
pub struct Anime {
    /// The id of the list entry (not of the show).
    pub id: u64,
    /// The romaji title.
    pub name: String,
    /// Episodes watched.
    pub progress: u64,
    /// Episodes out so far: one less than the next one to air, else the
    /// total count (0 when unknown).
    pub episodes: u64,
}

/// The logged-in user: the access token and the user id.
#[derive(Clone, Debug)]
pub struct User {
    pub token: String,
    pub id: u64,
}

// ---------------------------------------------------------------------------
// Reading list entries
// ---------------------------------------------------------------------------

pub open spec fn entry_id(e: Json) -> Option<u64> {
    as_u64_of(e.field("id"@))
}

pub open spec fn entry_title(e: Json) -> Option<Seq<char>> {
    str_of(field_of(field_of(e.field("media"@), "title"@), "romaji"@))
}

pub open spec fn entry_progress(e: Json) -> Option<u64> {
    as_u64_of(e.field("progress"@))
}

/// `media.nextAiringEpisode.episode`: the next episode to air.
pub open spec fn entry_next_episode(e: Json) -> Option<u64> {
    as_u64_of(field_of(field_of(e.field("media"@), "nextAiringEpisode"@), "episode"@))
}

/// `media.episodes`: the total episode count.
pub open spec fn entry_total_episodes(e: Json) -> Option<u64> {
    as_u64_of(field_of(e.field("media"@), "episodes"@))
}

/// Episodes out so far: the next airing episode less one, else the total,
/// saturating at 0. The total plus one is computed either way, so a total
/// of `u64::MAX` gives nothing.
pub open spec fn aired_episodes(next: Option<u64>, total: Option<u64>) -> Option<u64> {
    let t: int = match total { Some(t) => t as int, None => 0 };
    if t == u64::MAX {
        None
    } else {
        let n: int = match next { Some(n) => n as int, None => t + 1 };
        Some((if n == 0 { 0 } else { n - 1 }) as u64)
    }
}

/// `e` has every member an entry needs.
pub open spec fn entry_complete(e: Json) -> bool {
    &&& entry_id(e) is Some
    &&& entry_title(e) is Some
    &&& entry_progress(e) is Some
    &&& aired_episodes(entry_next_episode(e), entry_total_episodes(e)) is Some
}

impl Anime {
    /// This entry holds what the JSON list entry `e` says.
    pub open spec fn describes(self, e: Json) -> bool {
        &&& entry_id(e) == Some(self.id)
        &&& entry_title(e) == Some(self.name@)
        &&& entry_progress(e) == Some(self.progress)
        &&& aired_episodes(entry_next_episode(e), entry_total_episodes(e)) == Some(self.episodes)
    }

    /// Reads a watch list entry: `id`, `progress`, `media.title.romaji` and
    /// the episode count. Nothing when one of the first three is missing or
    /// the total count is `u64::MAX`.
    pub fn from_json(e: &Json) -> (r: Option<Anime>)
        ensures
            r is Some <==> entry_complete(*e),
            r matches Some(a) ==> a.describes(*e),
            r matches Some(a) ==> as_u64_of(e.field("id"@)) == Some(a.id),
            r matches Some(a) ==> str_of(field_of(field_of(e.field("media"@), "title"@), "romaji"@))
                == Some(a.name@),
            r matches Some(a) ==> as_u64_of(e.field("progress"@)) == Some(a.progress),
            r matches Some(a) ==> aired_episodes(
                as_u64_of(field_of(field_of(e.field("media"@), "nextAiringEpisode"@), "episode"@)),
                as_u64_of(field_of(e.field("media"@), "episodes"@)),
            ) == Some(a.episodes),
    {
        let id = match get_of(Some(e), "id") {
            Some(v) => v.as_u64(),
            None => None,
        };
        let media = get_of(Some(e), "media");
        let title = get_of(get_of(media, "title"), "romaji");
        let name = match title {
            Some(v) => v.as_str(),
            None => None,
        };
        let progress = match get_of(Some(e), "progress") {
            Some(v) => v.as_u64(),
            None => None,
        };
        let next = match get_of(get_of(media, "nextAiringEpisode"), "episode") {
            Some(v) => v.as_u64(),
            None => None,
        };
        let total = match get_of(media, "episodes") {
            Some(v) => v.as_u64(),
            None => None,
        };
        let episodes = aired(next, total);
        match (id, name, progress, episodes) {
            (Some(id), Some(name), Some(progress), Some(episodes)) => Some(
                Anime { id, name: name.clone(), progress, episodes },
            ),
            _ => None,
        }
    }
}

/// See `aired_episodes`.
pub fn aired(next: Option<u64>, total: Option<u64>) -> (r: Option<u64>)
    ensures
        r == aired_episodes(next, total),
{
    let t = match total {
        Some(t) => t,
        None => 0,
    };
    if t == u64::MAX {
        return None;
    }
    let n = match next {
        Some(n) => n,
        None => t + 1,
    };
    Some(n.saturating_sub(1))
}

// ---------------------------------------------------------------------------
// Logging in
// ---------------------------------------------------------------------------

/// The token request body for an authorisation code.
pub open spec fn token_body(code: Seq<char>) -> Seq<char> {
    TOKEN_BODY_HEAD@ + json_quoted(code) + TOKEN_BODY_TAIL@
}

/// The JSON body that exchanges `auth_code` for an access token.
pub fn token_request_body(auth_code: &str) -> (r: String)
    ensures
        r@ == token_body(auth_code@),
{
    let mut r = String::from_str(TOKEN_BODY_HEAD);
    let quoted = quote(auth_code);
    r.append(quoted.as_str());
    r.append(TOKEN_BODY_TAIL);
    r
}

/// `access_token` of the token reply.
pub open spec fn token_of(reply: Json) -> Option<Seq<char>> {
    str_of(reply.field("access_token"@))
}

/// The access token in the token reply, when it has one.
pub fn access_token(reply: &Json) -> (r: Option<String>)
    ensures
        r is Some <==> token_of(*reply) is Some,
        r matches Some(t) ==> token_of(*reply) == Some(t@),
        r is Some <==> (reply.field("access_token"@) matches Some(Json::Str(_))),
        r matches Some(t) ==> str_of(reply.field("access_token"@)) == Some(t@),
{
    match get_of(Some(reply), "access_token") {
        Some(v) => match v.as_str() {
            Some(t) => Some(t.clone()),
            None => None,
        },
        None => None,
    }
}

/// The `Authorization` header value for a token.
pub open spec fn bearer(token: Seq<char>) -> Seq<char> {
    "Bearer "@ + token
}

/// `Bearer <token>`.
pub fn authorization(token: &str) -> (r: String)
    ensures
        r@ == bearer(token@),
{
    let mut r = String::from_str("Bearer ");
    r.append(token);
    r
}

/// `data.Viewer.id` of the viewer reply.
pub open spec fn viewer_of(reply: Json) -> Option<u64> {
    as_u64_of(field_of(field_of(reply.field("data"@), "Viewer"@), "id"@))
}

/// The user id in the viewer reply, when it has one.
pub fn viewer_id(reply: &Json) -> (r: Option<u64>)
    ensures
        r == viewer_of(*reply),
{
    match get_of(get_of(get_of(Some(reply), "data"), "Viewer"), "id") {
        Some(v) => v.as_u64(),
        None => None,
    }
}

// ---------------------------------------------------------------------------
// The watch list
// ---------------------------------------------------------------------------

/// The watch list query for a user.
pub open spec fn watching_body(user_id: u64) -> Seq<char> {
    WATCHING_QUERY_HEAD@ + decimal(user_id as nat) + WATCHING_QUERY_TAIL@
}

/// The GraphQL body that asks for the lists of `user_id`.
pub fn watching_request_body(user_id: u64) -> (r: String)
    ensures
        r@ == watching_body(user_id),
{
    let mut r = String::from_str(WATCHING_QUERY_HEAD);
    push_decimal(&mut r, user_id);
    r.append(WATCHING_QUERY_TAIL);
    r
}

/// `data.MediaListCollection.lists` of the watch list reply.
pub open spec fn lists_of(reply: Json) -> Option<Seq<Json>> {
    array_of(field_of(field_of(reply.field("data"@), "MediaListCollection"@), "lists"@))
}

/// The list's `name` is the string `name`.
pub open spec fn is_named(list: Json, name: Seq<char>) -> bool {
    str_of(list.field("name"@)) == Some(name)
}

/// The first list called `name`.
pub open spec fn first_named(lists: Seq<Json>, name: Seq<char>) -> Option<Json>
    decreases lists.len(),
{
    if lists.len() == 0 {
        None
    } else if is_named(lists[0], name) {
        Some(lists[0])
    } else {
        first_named(lists.drop_first(), name)
    }
}

/// The entries of the first list called `Watching`.
pub open spec fn watching_entries(reply: Json) -> Option<Seq<Json>> {
    match lists_of(reply) {
        Some(lists) => match first_named(lists, WATCHING_LIST@) {
            Some(list) => array_of(list.field("entries"@)),
            None => None,
        },
        None => None,
    }
}

/// Whether `list` is called `name`.
fn named(list: &Json, name: &str) -> (r: bool)
    ensures
        r == is_named(*list, name@),
{
    match get_of(Some(list), "name") {
        Some(v) => match v.as_str() {
            Some(s) => {
                let n = String::from_str(name);
                *s == n
            },
            None => false,
        },
        None => false,
    }
}

/// The first of `lists` called `name`.
fn find_named<'a>(lists: &'a Vec<Json>, name: &str) -> (r: Option<&'a Json>)
    ensures
        deref_opt(r) == first_named(lists@, name@),
{
    let mut i: usize = 0;
    assert(lists@.skip(0) =~= lists@);
    while i < lists.len()
        invariant
            i <= lists@.len(),
            first_named(lists@, name@) == first_named(lists@.skip(i as int), name@),
        decreases lists.len() - i,
    {
        assert(lists@.skip(i as int).drop_first() =~= lists@.skip(i + 1));
        assert(lists@.skip(i as int)[0] == lists@[i as int]);
        if named(&lists[i], name) {
            return Some(&lists[i]);
        }
        i += 1;
    }
    None
}

/// Every entry is complete.
pub open spec fn all_complete(entries: Seq<Json>) -> bool {
    forall|i: int| 0 <= i < entries.len() ==> entry_complete(#[trigger] entries[i])
}

/// `list` holds, in order, what `entries` say.
pub open spec fn describes_all(list: Seq<Anime>, entries: Seq<Json>) -> bool {
    &&& list.len() == entries.len()
    &&& forall|i: int| 0 <= i < entries.len() ==> #[trigger] list[i].describes(entries[i])
}

/// The watch list: the entries of the first list called `Watching`, each
/// read as an `Anime`. Nothing when the reply lacks the lists, has no such
/// list, the list has no entries array, or an entry is incomplete.
pub fn watching_from_reply(reply: &Json) -> (r: Option<Vec<Anime>>)
    ensures
        r is Some <==> (watching_entries(*reply) is Some && all_complete(
            watching_entries(*reply)->0,
        )),
        r matches Some(v) ==> describes_all(v@, watching_entries(*reply)->0),
{
    let lists = match get_of(get_of(get_of(Some(reply), "data"), "MediaListCollection"), "lists") {
        Some(v) => v.as_array(),
        None => None,
    };
    let lists = match lists {
        Some(l) => l,
        None => return None,
    };
    let list = match find_named(lists, WATCHING_LIST) {
        Some(l) => l,
        None => return None,
    };
    let entries = match get_of(Some(list), "entries") {
        Some(v) => v.as_array(),
        None => None,
    };
    let entries = match entries {
        Some(e) => e,
        None => return None,
    };
    let ghost es = entries@;
    assert(watching_entries(*reply) == Some(es));
    let mut out: Vec<Anime> = Vec::new();
    let mut i: usize = 0;
    while i < entries.len()
        invariant
            es == entries@,
            watching_entries(*reply) == Some(es),
            i <= es.len(),
            out@.len() == i,
            forall|j: int| 0 <= j < i ==> entry_complete(#[trigger] es[j]),
            forall|j: int| 0 <= j < i ==> #[trigger] out@[j].describes(es[j]),
        decreases entries.len() - i,
    {
        match Anime::from_json(&entries[i]) {
            Some(a) => out.push(a),
            None => {
                assert(!entry_complete(es[i as int]));
                return None;
            },
        }
        i += 1;
    }
    Some(out)
}

// ---------------------------------------------------------------------------
// Progress
// ---------------------------------------------------------------------------

/// The progress after moving by `delta`: the stored progress taken as an
/// `i32` (truncated) plus `delta`; nothing when the sum overflows `i32`.
pub open spec fn shifted_progress(progress: u64, delta: i32) -> Option<i32> {
    let p: int = (progress as i32) as int + delta as int;
    if i32::MIN <= p <= i32::MAX {
        Some(p as i32)
    } else {
        None
    }
}

/// An entry is read member by member, each value taken whole: the id and
/// progress are the integers stored under `id` and `progress`, the name is
/// the whole string stored at `media.title.romaji`, and the episode counts
/// come from `media.nextAiringEpisode.episode` and `media.episodes`.
pub proof fn law_entry_members(e: Json)
    ensures
        entry_id(e) == as_u64_of(e.field("id"@)),
        entry_progress(e) == as_u64_of(e.field("progress"@)),
        entry_title(e) == str_of(field_of(field_of(e.field("media"@), "title"@), "romaji"@)),
        entry_next_episode(e) == as_u64_of(
            field_of(field_of(e.field("media"@), "nextAiringEpisode"@), "episode"@),
        ),
        entry_total_episodes(e) == as_u64_of(field_of(e.field("media"@), "episodes"@)),
        field_of(field_of(e.field("media"@), "title"@), "romaji"@) matches Some(Json::Str(t))
            ==> entry_title(e) == Some(t@),
        e.field("id"@) matches Some(Json::Unsigned(n)) ==> entry_id(e) == Some(n),
        e.field("progress"@) matches Some(Json::Unsigned(n)) ==> entry_progress(e) == Some(n),
{
}

/// An entry is complete when each of its four values can be read, and an
/// `Anime` describes an entry when it holds exactly those four values.
pub proof fn law_describes(a: Anime, e: Json)
    ensures
        entry_complete(e) <==> (entry_id(e) is Some && entry_title(e) is Some && entry_progress(e)
            is Some && aired_episodes(entry_next_episode(e), entry_total_episodes(e)) is Some),
        a.describes(e) <==> (entry_id(e) == Some(a.id) && entry_title(e) == Some(a.name@)
            && entry_progress(e) == Some(a.progress) && aired_episodes(
            entry_next_episode(e),
            entry_total_episodes(e),
        ) == Some(a.episodes)),
{
}

/// A list describes entries when it has one item per entry, in order, each
/// describing its entry; the lists are read from `data.MediaListCollection.lists`
/// and a list is named by the string under `name`.
pub proof fn law_list_reading(list: Seq<Anime>, entries: Seq<Json>, reply: Json, l: Json, name: Seq<char>)
    ensures
        describes_all(list, entries) <==> (list.len() == entries.len() && forall|i: int|
            0 <= i < entries.len() ==> #[trigger] list[i].describes(entries[i])),
        all_complete(entries) <==> forall|i: int| 0 <= i < entries.len() ==> entry_complete(
            #[trigger] entries[i],
        ),
        lists_of(reply) == array_of(
            field_of(field_of(reply.field("data"@), "MediaListCollection"@), "lists"@),
        ),
        is_named(l, name) <==> str_of(l.field("name"@)) == Some(name),
        watching_entries(reply) == (match lists_of(reply) {
            Some(ls) => match first_named(ls, "Watching"@) {
                Some(w) => array_of(w.field("entries"@)),
                None => None,
            },
            None => None,
        }),
{
}

/// The new progress is the stored progress taken as an `i32` plus the
/// change, and there is none exactly when that sum leaves the `i32` range.
pub proof fn law_shifted_progress(p: u64, delta: i32)
    ensures
        shifted_progress(p, delta) is None <==> (((p as i32) as int + delta as int > i32::MAX) || ((
        p as i32) as int + delta as int) < i32::MIN),
        shifted_progress(p, delta) matches Some(v) ==> v as int == (p as i32) as int + delta as int,
{
}

/// The episodes out so far: one less than the next episode to air (none
/// when that is the first), else the total (none known: 0); a total of
/// `u64::MAX` gives nothing.
pub proof fn law_aired_episodes(next: Option<u64>, total: Option<u64>)
    ensures
        total == Some(u64::MAX) ==> aired_episodes(next, total) is None,
        total != Some(u64::MAX) && next == Some(0u64) ==> aired_episodes(next, total) == Some(
            0u64,
        ),
        total != Some(u64::MAX) && next is Some && next->0 > 0 ==> aired_episodes(next, total)
            == Some((next->0 - 1) as u64),
        total is Some && total->0 < u64::MAX && next is None ==> aired_episodes(next, total)
            == Some(total->0),
        next is None && total is None ==> aired_episodes(next, total) == Some(0u64),
{
}

/// The token is exactly the string stored under `access_token`, and there
/// is none when that member is missing or not a string.
pub proof fn law_token_is_member(reply: Json)
    ensures
        reply.field("access_token"@) matches Some(Json::Str(t)) ==> token_of(reply) == Some(t@),
        !(reply.field("access_token"@) matches Some(Json::Str(_))) ==> token_of(reply) is None,
{
}

/// The user id is exactly the integer stored at `data.Viewer.id`.
pub proof fn law_viewer_is_member(reply: Json)
    ensures
        field_of(field_of(reply.field("data"@), "Viewer"@), "id"@) matches Some(Json::Unsigned(n))
            ==> viewer_of(reply) == Some(n),
        !(field_of(field_of(reply.field("data"@), "Viewer"@), "id"@) matches Some(
            Json::Unsigned(_),
        )) ==> viewer_of(reply) is None,
{
}

/// The watch list comes from the first list whose `name` is the string
/// `Watching`: lists before it have another name or none, and its
/// `entries` array is what is read.
pub proof fn law_first_watching_list(lists: Seq<Json>)
    ensures
        first_named(lists, "Watching"@) matches Some(l) ==> exists|i: int|
            0 <= i < lists.len() && lists[i] == l && str_of(l.field("name"@)) == Some("Watching"@)
                && forall|j: int| 0 <= j < i ==> str_of(#[trigger] lists[j].field("name"@)) != Some(
                "Watching"@,
            ),
        first_named(lists, "Watching"@) is None ==> forall|j: int|
            0 <= j < lists.len() ==> str_of(#[trigger] lists[j].field("name"@)) != Some(
                "Watching"@,
            ),
    decreases lists.len(),
{
    if lists.len() > 0 {
        let rest = lists.drop_first();
        law_first_watching_list(rest);
        if is_named(lists[0], "Watching"@) {
            assert(lists[0] == lists[0]);
        } else {
            if let Some(l) = first_named(lists, "Watching"@) {
                let k = choose|k: int|
                    0 <= k < rest.len() && rest[k] == l && str_of(l.field("name"@)) == Some(
                        "Watching"@,
                    ) && forall|j: int|
                        0 <= j < k ==> str_of(#[trigger] rest[j].field("name"@)) != Some(
                            "Watching"@,
                        );
                assert(lists[k + 1] == l);
                assert forall|j: int| 0 <= j < k + 1 implies str_of(
                    #[trigger] lists[j].field("name"@),
                ) != Some("Watching"@) by {
                    if j > 0 {
                        assert(lists[j] == rest[j - 1]);
                    }
                }
            } else {
                assert forall|j: int| 0 <= j < lists.len() implies str_of(
                    #[trigger] lists[j].field("name"@),
                ) != Some("Watching"@) by {
                    if j > 0 {
                        assert(lists[j] == rest[j - 1]);
                    }
                }
            }
        }
    }
}

/// The token request carries the code as a JSON string between the fixed
/// head and tail; a code with nothing to escape appears as it is, between
/// double quotes.
pub proof fn law_token_body(code: Seq<char>)
    ensures
        token_body(code) == TOKEN_BODY_HEAD@ + json_quoted(code) + TOKEN_BODY_TAIL@,
        needs_no_escape(code) ==> token_body(code) == TOKEN_BODY_HEAD@ + seq!['"'] + code + seq![
            '"',
        ] + TOKEN_BODY_TAIL@,
{
    if needs_no_escape(code) {
        lemma_quoted_verbatim(code);
    }
}

/// The header is `Bearer `, then the whole token.
pub proof fn law_bearer(token: Seq<char>)
    ensures
        bearer(token).len() == token.len() + 7,
        bearer(token).subrange(0, 7) == seq!['B', 'e', 'a', 'r', 'e', 'r', ' '],
        bearer(token).subrange(7, bearer(token).len() as int) == token,
{
    reveal_strlit("Bearer ");
    assert(bearer(token).subrange(0, 7) =~= seq!['B', 'e', 'a', 'r', 'e', 'r', ' ']);
    assert(bearer(token).subrange(7, bearer(token).len() as int) =~= token);
}

/// The watch list query is the fixed head, the user id written in decimal,
/// and the fixed tail.
pub proof fn law_watching_body(user_id: u64)
    ensures
        ({
            let b = watching_body(user_id);
            let h = WATCHING_QUERY_HEAD@.len() as int;
            let t = WATCHING_QUERY_TAIL@.len() as int;
            &&& b.len() >= h + t
            &&& b.subrange(0, h) == WATCHING_QUERY_HEAD@
            &&& b.subrange(b.len() - t, b.len() as int) == WATCHING_QUERY_TAIL@
            &&& written_as(b.subrange(h, b.len() - t), user_id as int)
        }),
{
    law_decimal_written(user_id as nat);
    let b = watching_body(user_id);
    let h = WATCHING_QUERY_HEAD@.len() as int;
    let t = WATCHING_QUERY_TAIL@.len() as int;
    assert(b.subrange(0, h) =~= WATCHING_QUERY_HEAD@);
    assert(b.subrange(b.len() - t, b.len() as int) =~= WATCHING_QUERY_TAIL@);
    assert(b.subrange(h, b.len() - t) =~= decimal(user_id as nat));
}

/// The progress mutation is the fixed head, the entry id in decimal, the
/// fixed middle, the new progress in signed decimal, and the fixed tail.
pub proof fn law_update_body(entry_id: u64, progress: i32)
    ensures
        ({
            let b = update_body(entry_id, progress);
            let h = UPDATE_QUERY_HEAD@.len() as int;
            let m = UPDATE_QUERY_MIDDLE@.len() as int;
            let t = UPDATE_QUERY_TAIL@.len() as int;
            exists|k: int|
                #![trigger b.subrange(h, k)]
                h < k && k + m + t <= b.len() && b.subrange(0, h) == UPDATE_QUERY_HEAD@ && written_as(
                    b.subrange(h, k),
                    entry_id as int,
                ) && b.subrange(k, k + m) == UPDATE_QUERY_MIDDLE@ && written_signed(
                    b.subrange(k + m, b.len() - t),
                    progress as int,
                ) && b.subrange(b.len() - t, b.len() as int) == UPDATE_QUERY_TAIL@
        }),
{
    law_decimal_written(entry_id as nat);
    law_signed_written(progress as int);
    let b = update_body(entry_id, progress);
    let h = UPDATE_QUERY_HEAD@.len() as int;
    let m = UPDATE_QUERY_MIDDLE@.len() as int;
    let t = UPDATE_QUERY_TAIL@.len() as int;
    let k = h + decimal(entry_id as nat).len();
    assert(b.subrange(0, h) =~= UPDATE_QUERY_HEAD@);
    assert(b.subrange(h, k) =~= decimal(entry_id as nat));
    assert(b.subrange(k, k + m) =~= UPDATE_QUERY_MIDDLE@);
    assert(b.subrange(k + m, b.len() - t) =~= signed_decimal(progress as int));
    assert(b.subrange(b.len() - t, b.len() as int) =~= UPDATE_QUERY_TAIL@);
}

/// Marking one more episode watched, then one fewer, comes back to where
/// it started (the second change starts from the reloaded progress); this
/// holds while the progress is below `i32::MAX`.
pub proof fn law_increment_then_decrement(p: u64)
    requires
        p < i32::MAX,
    ensures
        shifted_progress(p, 1i32) == Some((p + 1) as i32),
        shifted_progress((p + 1) as u64, -1i32) == Some(p as i32),
        (p as i32) as int == p,
{
    assert((p as i32) as u64 == p) by (bit_vector)
        requires
            p < 0x7fff_ffffu64,
    ;
    let q: u64 = (p + 1) as u64;
    assert((q as i32) as u64 == q) by (bit_vector)
        requires
            q <= 0x7fff_ffffu64,
    ;
}

/// See `shifted_progress`.
pub fn new_progress(progress: u64, delta: i32) -> (r: Option<i32>)
    ensures
        r == shifted_progress(progress, delta),
{
    let p: i32 = progress as i32;
    p.checked_add(delta)
}

/// The progress mutation that sets entry `entry_id` to `progress`.
pub open spec fn update_body(entry_id: u64, progress: i32) -> Seq<char> {
    UPDATE_QUERY_HEAD@ + decimal(entry_id as nat) + UPDATE_QUERY_MIDDLE@ + signed_decimal(
        progress as int,
    ) + UPDATE_QUERY_TAIL@
}

/// The GraphQL body that moves the progress of `anime` by `delta`; nothing
/// when the new progress overflows `i32`.
pub fn progress_update_body(anime: &Anime, delta: i32) -> (r: Option<String>)
    ensures
        r is Some <==> shifted_progress(anime.progress, delta) is Some,
        r matches Some(b) ==> b@ == update_body(anime.id, shifted_progress(anime.progress, delta)->0),
{
    let progress = match new_progress(anime.progress, delta) {
        Some(p) => p,
        None => return None,
    };
    let mut r = String::from_str(UPDATE_QUERY_HEAD);
    push_decimal(&mut r, anime.id);
    r.append(UPDATE_QUERY_MIDDLE);
    push_signed_decimal(&mut r, progress);
    r.append(UPDATE_QUERY_TAIL);
    Some(r)
}

} // verus!
