//! The browser-extension message policy: what each inbound message does
//! and which reply it gets. Transport framing is length-prefixed with a
//! four-byte little-endian prefix and a one-mebibyte cap; the byte-level
//! framing rules live here, the raw I/O does not.

use vstd::prelude::*;
use crate::activity::Activity;
use crate::categorizer::{Categorizer, spec_first_domain_match};
use crate::clock;
use crate::error::AppError;
use crate::focus::FocusManager;
use crate::store::{Store, db_activities, db_sessions, spec_activity_row, spec_has_open};
use crate::text::{chars_vec, lemma_first_index, spec_first_index, spec_strip_prefix_rep,
    strip_prefix_rep_index, find_char_from};
use vstd::string::StrSliceExecFns;

verus! {

/// The largest framed message accepted, in bytes (1 MiB).
pub const MAX_MESSAGE_SIZE: u32 = 1048576;

/// A message from the browser extension.
#[derive(Debug)]
pub enum IncomingMessage {
    /// A page visit to record.
    Activity { url: String, title: String, timestamp: i64 },
    /// A request for the current focus state.
    RequestState,
    /// A request to spend distraction time on the running session.
    UseDistractionTime,
}

/// A reply to the browser extension.
#[derive(Debug)]
pub enum OutgoingMessage {
    State { focus_active: bool, budget_remaining: i32, blocked_domains: Vec<String> },
    BudgetUpdated { remaining: i32 },
    HardBlocked,
}

/// The little-endian value of a four-byte length prefix.
pub open spec fn spec_frame_len(b: Seq<u8>) -> int {
    b[0] + 256 * (b[1] + 256 * (b[2] + 256 * b[3]))
}

/// Decodes a four-byte little-endian length prefix.
pub fn decode_frame_len(b: &[u8; 4]) -> (r: u32)
    ensures
        r == spec_frame_len(b@),
{
    b[0] as u32 + 256 * (b[1] as u32 + 256 * (b[2] as u32 + 256 * (b[3] as u32)))
}

/// Whether a framed message of this length is accepted.
pub fn frame_len_ok(len: u32) -> (r: bool)
    ensures
        r == (len <= MAX_MESSAGE_SIZE),
{
    len <= MAX_MESSAGE_SIZE
}

/// Encodes a length as a four-byte little-endian prefix.
pub fn encode_frame_len(len: u32) -> (r: [u8; 4])
    ensures
        spec_frame_len(r@) == len,
{
    let b0 = (len % 256) as u8;
    let b1 = ((len / 256) % 256) as u8;
    let b2 = ((len / 65536) % 256) as u8;
    let b3 = (len / 16777216) as u8;
    let r = [b0, b1, b2, b3];
    proof {
        assert(spec_frame_len(r@) == len) by {
            assert(r@[0] == len % 256 && r@[1] == (len / 256) % 256 && r@[2] == (len / 65536) % 256
                && r@[3] == len / 16777216);
            assert(len % 256 + 256 * ((len / 256) % 256 + 256 * ((len / 65536) % 256 + 256 * (
            len / 16777216))) == len) by (nonlinear_arith);
        }
    }
    r
}

/// The domain of a URL: everything before the first `/` once every leading
/// `https://` and then `http://` marker is stripped.
pub open spec fn spec_extract_domain(u: Seq<char>) -> Seq<char> {
    let s = spec_strip_prefix_rep(spec_strip_prefix_rep(u, "https://"@), "http://"@);
    s.take(spec_first_index(s, '/'))
}

/// Extracts the domain part of a URL, as the wire contract defines it.
pub fn extract_domain(url: &str) -> (r: String)
    ensures
        r@ == spec_extract_domain(url@),
{
    let v = chars_vec(url);
    let https = chars_vec("https://");
    let http = chars_vec("http://");
    let a1 = strip_prefix_rep_index(&v, &https);
    let rest1 = crate::text::subvec(&v, a1, v.len());
    let a2 = strip_prefix_rep_index(&rest1, &http);
    let rest2 = crate::text::subvec(&rest1, a2, rest1.len());
    let end = match find_char_from(&rest2, '/', 0) {
        Some(i) => i,
        None => rest2.len(),
    };
    proof {
        lemma_first_index(rest2@, '/');
        let fi = spec_first_index(rest2@, '/');
        if fi < rest2@.len() {
            assert(rest2@[fi] == '/');
        }
        assert(fi == end as int);
        assert(rest2@ == spec_strip_prefix_rep(spec_strip_prefix_rep(url@, "https://"@), "http://"@));
        assert(url@.subrange(a1 + a2, a1 + a2 + end) =~= rest2@.take(end as int));
    }
    url.substring_char(a1 + a2, a1 + a2 + end).to_owned()
}

/// Records a page visit reported by the extension: the URL's domain is
/// categorized and an append-only browser sample stored; store failures
/// are swallowed, as the message has no reply.
pub fn record_activity(store: &mut Store, categorizer: &Categorizer, url: &str, title: &str)
    ensures
        db_activities(final(store).conn) == db_activities(old(store).conn) || db_activities(
            final(store).conn,
        ) == db_activities(old(store).conn).push(
            (
                db_activities(final(store).conn).last().0,
                5,
                "browser"@,
                None,
                Some(title@),
                Some(url@),
                Some(spec_extract_domain(url@)),
                Some(
                    match spec_first_domain_match(
                        categorizer.spec_rules(),
                        spec_extract_domain(url@),
                    ) {
                        Some(c) => c,
                        None => categorizer.spec_default(),
                    },
                ),
            ),
        ),
{
    let domain = extract_domain(url);
    let timestamp = clock::now_secs();
    let category_id = categorizer.categorize_url(domain.as_str());
    let mut activity = Activity::new(timestamp, 5, "browser", None, Some(title));
    activity.url = Some(url.to_owned());
    activity.domain = Some(domain);
    activity.category_id = Some(category_id);
    let ghost row = spec_activity_row(activity);
    match activity.save(store) {
        Ok(()) => {
            proof {
                assert(db_activities(store.conn).last() == row);
            }
        },
        Err(_) => {},
    }
}

/// The reply owed for a deduction result: no session draws no reply, an
/// exhausted budget is a hard block, and anything left is reported as the
/// remaining budget.
pub fn distraction_reply(result: Option<i32>) -> (r: Option<OutgoingMessage>)
    ensures
        match result {
            None => r is None,
            Some(rem) => r matches Some(m) && (if rem <= 0 {
                m is HardBlocked
            } else {
                m matches OutgoingMessage::BudgetUpdated { remaining } && remaining == rem
            }),
        },
{
    match result {
        None => None,
        Some(remaining) => {
            if remaining <= 0 {
                Some(OutgoingMessage::HardBlocked)
            } else {
                Some(OutgoingMessage::BudgetUpdated { remaining })
            }
        },
    }
}

/// Handles one inbound message: visits are recorded with no reply, state
/// requests always get a state reply, and a distraction request is
/// answered through `distraction_reply` when the deduction yields a value
/// (so only a store failure or a missing session draws no reply), every
/// reply implying a session was running.
pub fn handle_message(
    manager: &mut FocusManager,
    store: &mut Store,
    categorizer: &Categorizer,
    message: IncomingMessage,
) -> (r: Option<OutgoingMessage>)
    ensures
        message matches IncomingMessage::Activity { .. } ==> r is None,
        message matches IncomingMessage::RequestState ==> (r matches Some(m) && m is State),
        message matches IncomingMessage::UseDistractionTime ==> match r {
            None => true,
            Some(m) => ((m matches OutgoingMessage::BudgetUpdated { remaining } && remaining > 0)
                || m is HardBlocked) && spec_has_open(db_sessions(old(store).conn)),
        },
{
    match message {
        IncomingMessage::Activity { url, title, timestamp: _ } => {
            record_activity(store, categorizer, url.as_str(), title.as_str());
            None
        },
        IncomingMessage::RequestState => {
            match manager.get_state(store) {
                Ok(state) => Some(
                    OutgoingMessage::State {
                        focus_active: state.active,
                        budget_remaining: state.budget_remaining,
                        blocked_domains: state.blocked_domains,
                    },
                ),
                Err(_) => Some(
                    OutgoingMessage::State {
                        focus_active: false,
                        budget_remaining: 0,
                        blocked_domains: Vec::new(),
                    },
                ),
            }
        },
        IncomingMessage::UseDistractionTime => {
            match manager.use_distraction_time(store, 30) {
                Ok(result) => distraction_reply(result),
                Err(_) => None,
            }
        },
    }
}

} // verus!
