use creamlinux::fetch::{
    details_url, fetch_dlc_details, fetch_dlc_details_with_progress, percent_done, reply_for,
    time_left, CancelToken, DlcReply, FetchStep, ReplyEffect, CANCEL_HOLDS_MS, REQUEST_PAUSE_MS,
};
use creamlinux::installer::{ErrorKind, InstallerError};
use creamlinux::json::{dlc_ids, dlc_name, release_tag, Json, JsonNumber};

fn obj(members: Vec<(&str, Json)>) -> Json {
    Json::Object(members.into_iter().map(|(k, v)| (k.to_string(), v)).collect())
}

fn num(n: u64) -> Json {
    Json::Number(JsonNumber::Unsigned(n))
}

fn details(app_id: &str, dlc: Json) -> Json {
    obj(vec![(app_id, obj(vec![("success", Json::Bool(true)), ("data", obj(vec![("dlc", dlc)]))]))])
}

fn named(dlc_id: &str, name: Json) -> Json {
    obj(vec![(dlc_id, obj(vec![("data", obj(vec![("name", name)]))]))])
}

#[test]
fn dlc_identifiers_are_read_from_the_answer() {
    let answer = details(
        "480",
        Json::Array(vec![
            num(1001),
            Json::Text("1002".to_string()),
            Json::Number(JsonNumber::Signed(-5)),
            Json::Number(JsonNumber::Real),
            num(0),
            Json::Null,
            num(18446744073709551615),
        ]),
    );
    assert_eq!(dlc_ids(&answer, "480"), vec!["1001", "0", "18446744073709551615"]);
    assert!(dlc_ids(&answer, "481").is_empty());
    assert!(dlc_ids(&details("480", Json::Text("none".to_string())), "480").is_empty());
    assert!(dlc_ids(&obj(vec![("480", obj(vec![("success", Json::Bool(false))]))]), "480").is_empty());
    assert!(dlc_ids(&Json::Null, "480").is_empty());
    assert!(dlc_ids(&Json::Array(Vec::new()), "480").is_empty());
}

#[test]
fn dlc_names_fall_back_to_unknown() {
    assert_eq!(dlc_name(&named("1001", Json::Text("Expansion".to_string())), "1001"), "Expansion");
    assert_eq!(dlc_name(&named("1001", num(7)), "1001"), "Unknown DLC");
    assert_eq!(dlc_name(&named("1001", Json::Text("Expansion".to_string())), "1002"), "Unknown DLC");
    assert_eq!(dlc_name(&Json::Bool(true), "1001"), "Unknown DLC");
}

#[test]
fn the_first_member_of_a_name_counts() {
    let twice = obj(vec![("tag_name", Json::Text("v1".to_string())), ("tag_name", Json::Null)]);
    assert_eq!(release_tag(&twice), Some("v1".to_string()));
    assert!(matches!(twice.get("tag_name"), Some(Json::Text(t)) if t == "v1"));
    assert!(twice.get("other").is_none());
    assert!(Json::Null.get("tag_name").is_none());
    assert!(twice.get_nested("tag_name", "a", "b").is_none());
}

#[test]
fn release_tags() {
    assert_eq!(
        release_tag(&obj(vec![("id", num(1)), ("tag_name", Json::Text("v2.0.5".to_string()))])),
        Some("v2.0.5".to_string())
    );
    assert_eq!(release_tag(&obj(vec![("tag_name", num(2))])), None);
    assert_eq!(release_tag(&obj(vec![("name", Json::Text("x".to_string()))])), None);
    assert_eq!(release_tag(&Json::Array(Vec::new())), None);
}

#[test]
fn progress_runs_from_ten_towards_a_hundred() {
    assert_eq!(percent_done(0, 4), 10);
    assert_eq!(percent_done(1, 4), 32);
    assert_eq!(percent_done(2, 4), 55);
    assert_eq!(percent_done(3, 4), 77);
    assert_eq!(percent_done(4, 4), 100);
    assert_eq!(percent_done(1, 3), 40);
    assert_eq!(percent_done(0, 0), 10);
    assert_eq!(percent_done(usize::MAX - 1, usize::MAX), 99);
}

#[test]
fn the_time_left_is_three_tenths_of_a_second_for_each_request() {
    assert_eq!(time_left(0), "almost done");
    assert_eq!(time_left(1), "~1 seconds");
    assert_eq!(time_left(3), "~1 seconds");
    assert_eq!(time_left(4), "~2 seconds");
    assert_eq!(time_left(10), "~3 seconds");
    assert_eq!(time_left(196), "~59 seconds");
    assert_eq!(time_left(197), "~1 minute(s)");
    assert_eq!(time_left(200), "~1 minute(s)");
    assert_eq!(time_left(201), "~2 minute(s)");
    assert_eq!(time_left(1000), "~5 minute(s)");
}

#[test]
fn an_enumeration_asks_for_each_dlc_in_turn() {
    let answer = details("480", Json::Array(vec![num(11), num(22), num(33)]));
    let mut fetch = fetch_dlc_details(&answer, "480");
    assert!(!fetch.is_finished());
    match fetch_dlc_details_with_progress(&fetch, false).unwrap() {
        FetchStep::Request { dlc_id, message, progress, time_left } => {
            assert_eq!(dlc_id, "11");
            assert_eq!(message, "Processing DLC 1/3");
            assert_eq!(progress, 10);
            assert_eq!(time_left, "~1 seconds");
        }
        _ => panic!("no request"),
    }
    let effect = fetch.record(&DlcReply::Details(named("11", Json::Text("Eleven".to_string()))));
    assert!(matches!(effect, ReplyEffect::Found(d) if d.appid == "11" && d.name == "Eleven"));
    match fetch_dlc_details_with_progress(&fetch, false).unwrap() {
        FetchStep::Request { dlc_id, message, progress, .. } => {
            assert_eq!(dlc_id, "22");
            assert_eq!(message, "Processing DLC 2/3");
            assert_eq!(progress, 40);
        }
        _ => panic!("no request"),
    }
    let effect = fetch.record(&DlcReply::RateLimited);
    assert!(matches!(
        effect,
        ReplyEffect::Wait { seconds: 10, message } if message == "Rate limited by Steam. Waiting..."
    ));
    match fetch_dlc_details_with_progress(&fetch, false).unwrap() {
        FetchStep::Request { dlc_id, progress, .. } => {
            assert_eq!(dlc_id, "33");
            assert_eq!(progress, 70);
        }
        _ => panic!("no request"),
    }
    assert!(matches!(fetch.record(&DlcReply::Refused), ReplyEffect::Nothing));
    assert!(fetch.is_finished());
    match fetch_dlc_details_with_progress(&fetch, true).unwrap() {
        FetchStep::Finished { message, progress } => {
            assert_eq!(message, "Completed! Found 1 DLCs");
            assert_eq!(progress, 100);
        }
        _ => panic!("not finished"),
    }
    assert!(matches!(fetch.record(&DlcReply::Refused), ReplyEffect::Nothing));
    let found = fetch.into_details();
    assert_eq!(found.len(), 1);
    assert_eq!(found[0].name, "Eleven");
}

#[test]
fn a_description_without_name_gives_an_unknown_dlc() {
    let answer = details("480", Json::Array(vec![num(5)]));
    let mut fetch = fetch_dlc_details(&answer, "480");
    let effect = fetch.record(&DlcReply::Details(Json::Null));
    assert!(matches!(effect, ReplyEffect::Found(d) if d.appid == "5" && d.name == "Unknown DLC"));
}

#[test]
fn cancellation_is_honoured_before_each_request() {
    let answer = details("480", Json::Array(vec![num(11), num(22)]));
    let mut fetch = fetch_dlc_details(&answer, "480");
    let called_off = fetch_dlc_details_with_progress(&fetch, true).unwrap_err();
    assert_eq!(called_off.kind(), ErrorKind::Cancelled);
    assert_eq!(called_off.message(), "Operation cancelled by user");
    fetch.record(&DlcReply::Refused);
    assert!(matches!(fetch_dlc_details_with_progress(&fetch, true), Err(InstallerError::Cancelled)));
    assert!(matches!(
        fetch_dlc_details_with_progress(&fetch, false),
        Ok(FetchStep::Request { .. })
    ));
    fetch.record(&DlcReply::Refused);
    assert!(matches!(fetch_dlc_details_with_progress(&fetch, true), Ok(FetchStep::Finished { .. })));
    let empty = fetch_dlc_details(&Json::Null, "480");
    assert!(matches!(
        fetch_dlc_details_with_progress(&empty, true),
        Ok(FetchStep::Finished { message, .. }) if message == "Completed! Found 0 DLCs"
    ));
}

#[test]
fn a_wish_to_stop_lapses_after_half_a_second() {
    let mut token = CancelToken::new();
    assert!(!token.is_cancelled(0));
    assert!(!token.is_cancelled(1_000_000));
    token.abort_dlc_fetch(1000);
    assert!(token.is_cancelled(1000));
    assert!(token.is_cancelled(1499));
    assert!(!token.is_cancelled(1500));
    assert!(!token.is_cancelled(999));
    assert!(!token.is_cancelled(u64::MAX));
    token.abort_dlc_fetch(u64::MAX);
    assert!(token.is_cancelled(u64::MAX));
}

#[test]
fn answers_are_told_apart_by_their_status() {
    assert!(matches!(reply_for(200, Json::Bool(true)), DlcReply::Details(Json::Bool(true))));
    assert!(matches!(reply_for(204, Json::Null), DlcReply::Details(Json::Null)));
    assert!(matches!(reply_for(299, Json::Null), DlcReply::Details(_)));
    assert!(matches!(reply_for(429, Json::Null), DlcReply::RateLimited));
    for status in [0u16, 199, 300, 301, 403, 404, 428, 430, 500, 503] {
        assert!(matches!(reply_for(status, Json::Null), DlcReply::Refused));
    }
}

#[test]
fn where_the_store_describes_a_title() {
    assert_eq!(details_url("480"), "https://store.steampowered.com/api/appdetails?appids=480");
    assert_eq!(details_url(""), "https://store.steampowered.com/api/appdetails?appids=");
    assert_eq!(REQUEST_PAUSE_MS, 300);
    assert_eq!(CANCEL_HOLDS_MS, 500);
}
