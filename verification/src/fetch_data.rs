//! The upstream alert feed: what is asked of it, and what its reply means.

use vstd::prelude::*;
use vstd::string::StringExecFns;

verus! {

/// The feed document: the alerts that are active now, and what came with them.
#[derive(Debug, Clone, PartialEq, Eq)]
pub struct AlertsResponseResult {
    pub alerts: Vec<Location>,
    pub meta: Option<Meta>,
    pub disclaimer: Option<String>,
}

/// What the feed says about the document itself.
#[derive(Debug, Clone, PartialEq, Eq)]
pub struct Meta {
    pub last_updated_at: Option<String>,
    pub meta_type: Option<String>,
}

/// One alert of the feed, as received.
#[derive(Debug, Clone, PartialEq, Eq)]
pub struct Location {
    pub id: i32,
    pub location_title: String,
    pub location_type: String,
    pub started_at: String,
    pub finished_at: Option<String>,
    pub updated_at: Option<String>,
    pub alert_type: String,
    pub location_uid: Option<String>,
    pub location_oblast: Option<String>,
    pub location_oblast_uid: Option<i16>,
    pub location_raion: Option<String>,
    pub notes: Option<String>,
    pub calculated: Option<bool>,
}

/// How a fetch ended when it brought no usable document.
/// `NoChange` is the ordinary answer to a conditional request, not a fault.
#[derive(Debug, Clone, Copy, PartialEq, Eq, Structural)]
pub enum FetchOutcome {
    NoChange,
    TransportError,
    DecodeError,
    MissingFreshnessHeader,
}

/// The conditional request of one poll.
#[derive(Debug, Clone, PartialEq, Eq)]
pub struct FeedRequest {
    /// Where the request goes.
    pub url: String,
    /// The value of its `If-Modified-Since` header: the cursor.
    pub if_modified_since: String,
}

/// The body of a reply, as far as it could be had.
#[derive(Debug, Clone, PartialEq, Eq)]
pub enum FeedBody {
    /// The body could not be read to its end.
    Lost,
    /// The body was read and is no feed document.
    Malformed,
    /// The body was read and holds this document.
    Decoded(AlertsResponseResult),
}

/// What became of one request to the feed.
#[derive(Debug, Clone, PartialEq, Eq)]
pub enum FeedReply {
    /// No reply came: the feed could not be reached, or did not answer in time.
    Unreachable,
    /// A reply came, with this status, the bytes of its `Last-Modified`
    /// header where it carried one, and this body.
    Answered { status: u16, last_modified: Option<Vec<u8>>, body: FeedBody },
}

/// The status with which the feed says that nothing changed since the cursor.
pub const NOT_MODIFIED: u16 = 304;

/// Whether `status` reports success.
pub open spec fn is_success(status: u16) -> bool {
    200 <= status < 300
}

/// The address of the feed for the holder of `token`.
pub open spec fn alerts_url(token: Seq<char>) -> Seq<char> {
    "https://api.alerts.in.ua/v1/alerts/active.json?token="@ + token
}

/// The address at which the feed answers the holder of `token`.
pub fn get_alerts_api_connection_url(token: &str) -> (url: String)
    ensures
        url@ == alerts_url(token@),
{
    let mut url = String::from_str("https://api.alerts.in.ua/v1/alerts/active.json?token=");
    url.append(token);
    url
}

/// The request to send with the cursor `last_modified`: the feed is asked
/// for its document only if that document changed since the cursor.
pub fn feed_request(token: &str, last_modified: &str) -> (request: FeedRequest)
    ensures
        request.url@ == alerts_url(token@),
        request.if_modified_since@ == last_modified@,
{
    FeedRequest {
        url: get_alerts_api_connection_url(token),
        if_modified_since: String::from_str(last_modified),
    }
}

/// Whether a byte of a header value is text: a visible ASCII character, a
/// space or a tab.
pub open spec fn is_header_text_byte(byte: u8) -> bool {
    32 <= byte < 127 || byte == 9
}

/// Whether a header value is text throughout.
pub open spec fn is_header_text(raw: Seq<u8>) -> bool {
    forall|i: int| 0 <= i < raw.len() ==> is_header_text_byte(#[trigger] raw[i])
}

/// The characters of a header value that is text: one for each byte.
pub open spec fn header_chars(raw: Seq<u8>) -> Seq<char> {
    Seq::new(raw.len(), |i: int| raw[i] as char)
}

/// The text of a header value, by `HeaderValue::from_bytes` and
/// `HeaderValue::to_str` of reqwest's `header` module.
///
/// Trusted, not proved: the first accepts the bytes unless one is a
/// control character other than a tab, the second gives their text unless
/// one is outside visible ASCII, space and tab. So there is a text exactly
/// when every byte is text, and it has one character for each byte.
#[verifier::external_body]
fn header_text(raw: &[u8]) -> (text: Option<String>)
    ensures
        text is Some <==> is_header_text(raw@),
        text matches Some(t) ==> t@ == header_chars(raw@),
{
    let value = reqwest::header::HeaderValue::from_bytes(raw).ok()?;
    value.to_str().ok().map(|text| text.to_string())
}

/// What a reply means: the document with the new cursor, or how the fetch ended.
///
/// An unchanged feed is `NoChange`. No reply, a status outside 200..=299
/// other than 304, or a body that could not be read is `TransportError`. A
/// body that is no feed document is `DecodeError`. A document without a
/// freshness header that is text is `MissingFreshnessHeader`: without a
/// new cursor the same document would be fetched again and again.
pub open spec fn get_alerts_spec(reply: FeedReply) -> Result<
    (AlertsResponseResult, Seq<char>),
    FetchOutcome,
> {
    match reply {
        FeedReply::Unreachable => Err(FetchOutcome::TransportError),
        FeedReply::Answered { status, last_modified, body } => if status == NOT_MODIFIED {
            Err(FetchOutcome::NoChange)
        } else if !is_success(status) {
            Err(FetchOutcome::TransportError)
        } else {
            match (body, last_modified) {
                (FeedBody::Lost, _) => Err(FetchOutcome::TransportError),
                (FeedBody::Malformed, _) => Err(FetchOutcome::DecodeError),
                (FeedBody::Decoded(_), None) => Err(FetchOutcome::MissingFreshnessHeader),
                (FeedBody::Decoded(payload), Some(raw)) => if is_header_text(raw@) {
                    Ok((payload, header_chars(raw@)))
                } else {
                    Err(FetchOutcome::MissingFreshnessHeader)
                },
            }
        },
    }
}

/// What a fetch stands for: the document with the characters of the cursor.
pub open spec fn fetched_view(fetched: Result<(AlertsResponseResult, String), FetchOutcome>) -> Result<
    (AlertsResponseResult, Seq<char>),
    FetchOutcome,
> {
    match fetched {
        Ok((payload, cursor)) => Ok((payload, cursor@)),
        Err(outcome) => Err(outcome),
    }
}

/// Reads a reply of the feed: the document and the cursor for the next
/// request, or the outcome that ends the fetch.
pub fn get_alerts(reply: FeedReply) -> (fetched: Result<
    (AlertsResponseResult, String),
    FetchOutcome,
>)
    ensures
        fetched_view(fetched) == get_alerts_spec(reply),
{
    match reply {
        FeedReply::Unreachable => Err(FetchOutcome::TransportError),
        FeedReply::Answered { status, last_modified, body } => {
            if status == NOT_MODIFIED {
                return Err(FetchOutcome::NoChange);
            }
            if status < 200 || status >= 300 {
                return Err(FetchOutcome::TransportError);
            }
            let payload = match body {
                FeedBody::Lost => { return Err(FetchOutcome::TransportError); },
                FeedBody::Malformed => { return Err(FetchOutcome::DecodeError); },
                FeedBody::Decoded(payload) => payload,
            };
            let text = match last_modified {
                None => None,
                Some(raw) => header_text(raw.as_slice()),
            };
            match text {
                None => Err(FetchOutcome::MissingFreshnessHeader),
                Some(cursor) => Ok((payload, cursor)),
            }
        },
    }
}

} // verus!
