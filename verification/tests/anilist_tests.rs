use ndnd::anilist::{
    access_token, aired, authorization, new_progress, progress_update_body, token_request_body,
    viewer_id, watching_from_reply, watching_request_body, Anime, TOKEN_BODY_HEAD,
    TOKEN_BODY_TAIL, UPDATE_QUERY_HEAD, UPDATE_QUERY_MIDDLE, UPDATE_QUERY_TAIL,
    WATCHING_QUERY_HEAD, WATCHING_QUERY_TAIL,
};
use ndnd::json::Json;

fn obj(members: Vec<(&str, Json)>) -> Json {
    Json::Object(members.into_iter().map(|(k, v)| (String::from(k), v)).collect())
}

fn text(s: &str) -> Json {
    Json::Str(String::from(s))
}

fn entry(id: u64, title: &str, progress: u64, episodes: Json, next: Json) -> Json {
    obj(vec![
        ("id", Json::Unsigned(id)),
        ("progress", Json::Unsigned(progress)),
        (
            "media",
            obj(vec![
                ("title", obj(vec![("romaji", text(title))])),
                ("episodes", episodes),
                ("updatedAt", Json::Unsigned(1)),
                ("nextAiringEpisode", next),
            ]),
        ),
    ])
}

#[test]
fn entry_of_a_finished_show_counts_all_episodes() {
    let e = entry(11, "Frieren", 3, Json::Unsigned(28), Json::Null);
    let a = Anime::from_json(&e).unwrap();
    assert_eq!(a.id, 11);
    assert_eq!(a.name, "Frieren");
    assert_eq!(a.progress, 3);
    assert_eq!(a.episodes, 28);
}

#[test]
fn entry_of_an_airing_show_counts_aired_episodes() {
    let next = obj(vec![("airingAt", Json::Unsigned(1700000000)), ("episode", Json::Unsigned(6))]);
    let e = entry(12, "Dandadan", 2, Json::Null, next);
    assert_eq!(Anime::from_json(&e).unwrap().episodes, 5);
}

#[test]
fn entry_without_counts_has_no_episodes() {
    let e = entry(13, "Unknown", 0, Json::Null, Json::Null);
    assert_eq!(Anime::from_json(&e).unwrap().episodes, 0);
    let first = obj(vec![("episode", Json::Unsigned(0))]);
    let e = entry(14, "Soon", 0, Json::Unsigned(12), first);
    assert_eq!(Anime::from_json(&e).unwrap().episodes, 0);
}

#[test]
fn entry_missing_a_member_is_refused() {
    let mut e = entry(15, "x", 1, Json::Unsigned(2), Json::Null);
    if let Json::Object(m) = &mut e {
        m.retain(|(k, _)| k != "progress");
    }
    assert!(Anime::from_json(&e).is_none());
    let e = obj(vec![("id", Json::Unsigned(1))]);
    assert!(Anime::from_json(&e).is_none());
    let e = entry(16, "x", 1, Json::OtherNumber, Json::Null);
    assert_eq!(Anime::from_json(&e).unwrap().episodes, 0);
}

#[test]
fn entry_with_a_wrong_kind_is_refused() {
    let mut e = entry(17, "x", 1, Json::Unsigned(2), Json::Null);
    if let Json::Object(m) = &mut e {
        m[0].1 = text("17");
    }
    assert!(Anime::from_json(&e).is_none());
}

#[test]
fn entry_with_the_largest_total_is_refused() {
    let e = entry(18, "x", 1, Json::Unsigned(u64::MAX), Json::Null);
    assert!(Anime::from_json(&e).is_none());
}

#[test]
fn aired_counts() {
    assert_eq!(aired(Some(6), Some(12)), Some(5));
    assert_eq!(aired(None, Some(12)), Some(12));
    assert_eq!(aired(None, None), Some(0));
    assert_eq!(aired(Some(0), None), Some(0));
    assert_eq!(aired(Some(3), Some(u64::MAX)), None);
}

fn reply(lists: Vec<Json>) -> Json {
    obj(vec![("data", obj(vec![("MediaListCollection", obj(vec![("lists", Json::Array(lists))]))]))])
}

#[test]
fn watching_reads_the_watching_list() {
    let planning = obj(vec![
        ("name", text("Planning")),
        ("entries", Json::Array(vec![entry(1, "Later", 0, Json::Unsigned(1), Json::Null)])),
    ]);
    let watching = obj(vec![
        ("name", text("Watching")),
        (
            "entries",
            Json::Array(vec![
                entry(2, "A", 1, Json::Unsigned(10), Json::Null),
                entry(3, "B", 4, Json::Unsigned(24), Json::Null),
            ]),
        ),
    ]);
    let list = watching_from_reply(&reply(vec![planning, watching])).unwrap();
    assert_eq!(list.len(), 2);
    assert_eq!(list[0].name, "A");
    assert_eq!(list[1].id, 3);
    assert_eq!(list[1].progress, 4);
}

#[test]
fn watching_takes_the_first_list_of_that_name() {
    let first = obj(vec![("name", text("Watching")), ("entries", Json::Array(vec![]))]);
    let second = obj(vec![
        ("name", text("Watching")),
        ("entries", Json::Array(vec![entry(2, "A", 1, Json::Unsigned(10), Json::Null)])),
    ]);
    assert_eq!(watching_from_reply(&reply(vec![first, second])).unwrap().len(), 0);
}

#[test]
fn watching_without_the_list_is_refused() {
    let other = obj(vec![("name", text("Completed")), ("entries", Json::Array(vec![]))]);
    assert!(watching_from_reply(&reply(vec![other])).is_none());
    assert!(watching_from_reply(&obj(vec![("errors", Json::Array(vec![]))])).is_none());
    let bad = obj(vec![
        ("name", text("Watching")),
        ("entries", Json::Array(vec![obj(vec![("id", Json::Unsigned(1))])])),
    ]);
    assert!(watching_from_reply(&reply(vec![bad])).is_none());
}

#[test]
fn token_body_quotes_the_code() {
    let body = token_request_body("abc123");
    assert_eq!(
        body,
        "{\"client_id\":\"14244\",\"client_secret\":\"0wff5vDRO60TB19fStqWGydVtfd01Nahf2TzyXQU\",\"code\":\"abc123\",\"grant_type\":\"authorization_code\",\"redirect_uri\":\"ndnd://\"}"
    );
}

#[test]
fn token_body_escapes_the_code() {
    let body = token_request_body("a\"b\\c\n");
    assert_eq!(body, format!("{}{}{}", TOKEN_BODY_HEAD, "\"a\\\"b\\\\c\\n\"", TOKEN_BODY_TAIL));
    let parsed: serde_json::Value = serde_json::from_str(&body).unwrap();
    assert_eq!(parsed["code"], "a\"b\\c\n");
    assert_eq!(parsed["grant_type"], "authorization_code");
}

#[test]
fn token_body_escapes_control_characters() {
    let body = token_request_body("x\u{1}\t\u{8}\u{c}\r\u{1f}é/");
    let code = "\"x\\u0001\\t\\b\\f\\r\\u001fé/\"";
    assert_eq!(body, format!("{}{}{}", TOKEN_BODY_HEAD, code, TOKEN_BODY_TAIL));
}

#[test]
fn token_and_viewer_are_read_from_replies() {
    let r = obj(vec![("access_token", text("tok")), ("token_type", text("Bearer"))]);
    assert_eq!(access_token(&r), Some(String::from("tok")));
    assert_eq!(access_token(&obj(vec![("error", text("invalid_grant"))])), None);
    assert_eq!(access_token(&obj(vec![("access_token", Json::Unsigned(1))])), None);
    let v = obj(vec![("data", obj(vec![("Viewer", obj(vec![("id", Json::Unsigned(42))]))]))]);
    assert_eq!(viewer_id(&v), Some(42));
    assert_eq!(viewer_id(&Json::Null), None);
    assert_eq!(authorization("tok"), "Bearer tok");
}

#[test]
fn watching_body_names_the_user() {
    let body = watching_request_body(5150);
    assert_eq!(body, format!("{}5150{}", WATCHING_QUERY_HEAD, WATCHING_QUERY_TAIL));
    assert!(!body.contains('\n'));
    assert!(body.contains("MediaListCollection (userId: 5150, type: ANIME)"));
}

#[test]
fn update_body_carries_the_new_progress() {
    let a = Anime { id: 77, name: String::from("x"), progress: 3, episodes: 12 };
    let up = progress_update_body(&a, 1).unwrap();
    assert_eq!(up, format!("{}77{}4{}", UPDATE_QUERY_HEAD, UPDATE_QUERY_MIDDLE, UPDATE_QUERY_TAIL));
    assert!(up.contains("UpdateMediaListEntries (ids: [77], progress: 4)"));
    let zero = Anime { id: 77, name: String::from("x"), progress: 0, episodes: 12 };
    let down = progress_update_body(&zero, -1).unwrap();
    assert!(down.contains("progress: -1)"));
}

#[test]
fn progress_overflow_is_refused() {
    assert_eq!(new_progress(i32::MAX as u64, 1), None);
    assert_eq!(new_progress(5, -1), Some(4));
    assert_eq!(new_progress(1u64 << 32, 3), Some(3));
    let a = Anime { id: 1, name: String::new(), progress: i32::MAX as u64, episodes: 0 };
    assert!(progress_update_body(&a, 1).is_none());
}

#[test]
fn increment_then_decrement_returns() {
    let p = 41u64;
    let up = new_progress(p, 1).unwrap();
    assert_eq!(up, 42);
    assert_eq!(new_progress(up as u64, -1), Some(41));
}

#[test]
fn watching_body_is_the_query_without_line_breaks() {
    let id: u64 = 123456;
    let expected = format!("{{
                \"query\": \"{{
                    MediaListCollection (userId: {}, type: ANIME) {{
                        lists {{
                            name,
                            entries {{
                                id,
                                progress,
                                media {{
                                    title {{
                                        romaji(stylised: false)
                                    }},
                                    episodes,
                                    updatedAt,
                                    nextAiringEpisode {{
                                        airingAt,
                                        episode
                                    }}
                                }}
                            }}
                        }}
                    }}
                }}\"
            }}", id).replace("\n", "");
    assert_eq!(watching_request_body(id), expected);
}

#[test]
fn update_body_is_the_mutation_without_line_breaks() {
    let a = Anime { id: 9001, name: String::from("x"), progress: 12, episodes: 24 };
    let expected = format!(
                "{{
                    \"query\": \"mutation {{
                        UpdateMediaListEntries (ids: [{}], progress: {}) {{
                            progress
                        }}
                    }}\"
                }}",
        a.id,
        a.progress as i32 + -1
    )
    .replace("\n", "");
    assert_eq!(progress_update_body(&a, -1).unwrap(), expected);
}
