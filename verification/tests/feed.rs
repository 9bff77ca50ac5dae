use alarm_sync::fetch_data::{
    feed_request, get_alerts, get_alerts_api_connection_url, AlertsResponseResult, FeedBody,
    FeedReply, FetchOutcome, Location, Meta,
};

fn alert_in(region: i16) -> Location {
    Location {
        id: 7,
        location_title: "Place".to_string(),
        location_type: "oblast".to_string(),
        started_at: "2024-05-01T10:00:00.000Z".to_string(),
        finished_at: None,
        updated_at: None,
        alert_type: "air_raid".to_string(),
        location_uid: Some("17".to_string()),
        location_oblast: Some("Region".to_string()),
        location_oblast_uid: Some(region),
        location_raion: None,
        notes: None,
        calculated: None,
    }
}

fn document() -> AlertsResponseResult {
    AlertsResponseResult {
        alerts: vec![alert_in(3)],
        meta: Some(Meta { last_updated_at: Some("now".to_string()), meta_type: None }),
        disclaimer: Some("as is".to_string()),
    }
}

fn answered(status: u16, last_modified: Option<&str>, body: FeedBody) -> FeedReply {
    FeedReply::Answered { status, last_modified: last_modified.map(|h| h.as_bytes().to_vec()), body }
}

#[test]
fn url_carries_the_token() {
    assert_eq!(
        get_alerts_api_connection_url("abc123"),
        "https://api.alerts.in.ua/v1/alerts/active.json?token=abc123"
    );
    assert_eq!(
        get_alerts_api_connection_url(""),
        "https://api.alerts.in.ua/v1/alerts/active.json?token="
    );
}

#[test]
fn request_carries_the_cursor() {
    let request = feed_request("tok", "Wed, 01 May 2024 10:00:00 GMT");
    assert_eq!(request.url, "https://api.alerts.in.ua/v1/alerts/active.json?token=tok");
    assert_eq!(request.if_modified_since, "Wed, 01 May 2024 10:00:00 GMT");
    let first = feed_request("tok", "");
    assert_eq!(first.if_modified_since, "");
}

#[test]
fn a_fresh_document_comes_with_its_cursor() {
    let reply = answered(200, Some("Wed, 01 May 2024 10:00:00 GMT"), FeedBody::Decoded(document()));
    assert_eq!(get_alerts(reply), Ok((document(), "Wed, 01 May 2024 10:00:00 GMT".to_string())));
}

#[test]
fn every_success_status_is_accepted() {
    for status in [200u16, 201, 204, 299] {
        let reply = answered(status, Some("t"), FeedBody::Decoded(document()));
        assert_eq!(get_alerts(reply), Ok((document(), "t".to_string())));
    }
}

#[test]
fn not_modified_is_no_change() {
    let reply = answered(304, Some("t"), FeedBody::Decoded(document()));
    assert_eq!(get_alerts(reply), Err(FetchOutcome::NoChange));
    let bare = answered(304, None, FeedBody::Lost);
    assert_eq!(get_alerts(bare), Err(FetchOutcome::NoChange));
}

#[test]
fn no_reply_is_a_transport_error() {
    assert_eq!(get_alerts(FeedReply::Unreachable), Err(FetchOutcome::TransportError));
}

#[test]
fn other_statuses_are_transport_errors() {
    for status in [100u16, 199, 300, 301, 303, 305, 400, 401, 404, 429, 500, 503] {
        let reply = answered(status, Some("t"), FeedBody::Decoded(document()));
        assert_eq!(get_alerts(reply), Err(FetchOutcome::TransportError));
    }
}

#[test]
fn a_lost_body_is_a_transport_error() {
    let reply = answered(200, Some("t"), FeedBody::Lost);
    assert_eq!(get_alerts(reply), Err(FetchOutcome::TransportError));
}

#[test]
fn a_malformed_body_is_a_decode_error() {
    let reply = answered(200, Some("t"), FeedBody::Malformed);
    assert_eq!(get_alerts(reply), Err(FetchOutcome::DecodeError));
    let without_header = answered(200, None, FeedBody::Malformed);
    assert_eq!(get_alerts(without_header), Err(FetchOutcome::DecodeError));
}

#[test]
fn a_document_without_freshness_header_is_refused() {
    let reply = answered(200, None, FeedBody::Decoded(document()));
    assert_eq!(get_alerts(reply), Err(FetchOutcome::MissingFreshnessHeader));
}

#[test]
fn an_empty_freshness_header_is_still_a_cursor() {
    let reply = answered(200, Some(""), FeedBody::Decoded(document()));
    assert_eq!(get_alerts(reply), Ok((document(), String::new())));
}

#[test]
fn a_freshness_header_that_is_no_text_is_refused() {
    for raw in [vec![0xC3u8, 0xA9], vec![b'a', 0x7F], vec![b'a', b'\n'], vec![0u8], vec![0xFF], vec![b'o', b'k', 0x1F]] {
        let reply = FeedReply::Answered {
            status: 200,
            last_modified: Some(raw),
            body: FeedBody::Decoded(document()),
        };
        assert_eq!(get_alerts(reply), Err(FetchOutcome::MissingFreshnessHeader));
    }
}

#[test]
fn a_freshness_header_of_visible_ascii_space_and_tab_is_the_cursor() {
    let every: Vec<u8> = (32u8..127).collect();
    let text: String = every.iter().map(|b| *b as char).collect();
    let reply = FeedReply::Answered {
        status: 200,
        last_modified: Some(every),
        body: FeedBody::Decoded(document()),
    };
    assert_eq!(get_alerts(reply), Ok((document(), text)));
    let tabbed = FeedReply::Answered {
        status: 200,
        last_modified: Some(b"a\tb c".to_vec()),
        body: FeedBody::Decoded(document()),
    };
    assert_eq!(get_alerts(tabbed), Ok((document(), "a\tb c".to_string())));
}
