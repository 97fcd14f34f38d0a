//! Requests on the capture resource: list all captures, get one, or turn
//! one on or off. The answer is a value that the transport writes out.

use vstd::prelude::*;
use vstd::string::StringExecFns;
use crate::model::{Device, Pcap, State};
use crate::registry::{Pcaps, PcapsView, has_pcap_id, states_set};
use crate::controller::{handle_pcap_list, snapshot_of, reconciled};
use crate::json::registry_json;
use crate::text::{parse_i32, decimal_i32, str_eq};

verus! {

/// The answer to a request.
#[derive(Debug)]
pub enum Response {
    /// Success with a body.
    Success { mime_type: String, body: String },
    /// Success announced with its length, the body to follow in chunks.
    OkWithLength { mime_type: String, length: u32 },
    /// Failure with a status code and a message.
    Error { code: u16, message: String },
}

/// A response as its texts read.
pub enum ResponseView {
    Success { mime_type: Seq<char>, body: Seq<char> },
    OkWithLength { mime_type: Seq<char>, length: nat },
    Error { code: nat, message: Seq<char> },
}

impl View for Response {
    type V = ResponseView;

    open spec fn view(&self) -> ResponseView {
        match self {
            Response::Success { mime_type, body } => ResponseView::Success {
                mime_type: mime_type@,
                body: body@,
            },
            Response::OkWithLength { mime_type, length } => ResponseView::OkWithLength {
                mime_type: mime_type@,
                length: *length as nat,
            },
            Response::Error { code, message } => ResponseView::Error {
                code: *code as nat,
                message: message@,
            },
        }
    }
}

/// The path of the capture collection.
pub open spec fn collection_path() -> Seq<char> {
    "/v1/pcaps"@
}

/// The path of a request on the collection (no id) or on one capture.
pub open spec fn pcap_uri(param: Seq<char>) -> Seq<char> {
    if param.len() == 0 {
        collection_path()
    } else {
        "/v1/pcaps/"@ + param
    }
}

/// A 404 answer with the given message.
pub open spec fn not_found(message: Seq<char>) -> ResponseView {
    ResponseView::Error { code: 404, message }
}

/// What a request does: the registry before and after it, and the answer.
/// `snapshot` is the topology's records when it could be read.
pub open spec fn handled(
    before: PcapsView,
    after: PcapsView,
    r: ResponseView,
    method: Seq<char>,
    uri: Seq<char>,
    param: Seq<char>,
    body: Seq<char>,
    snapshot: Option<Seq<Pcap>>,
) -> bool {
    if uri == collection_path() {
        if method == "GET"@ {
            &&& after == match snapshot {
                Some(entries) => reconciled(before, entries),
                None => before,
            }
            &&& r == (ResponseView::Success {
                mime_type: "text/json"@,
                body: registry_json(after.records),
            })
        } else {
            after == before && r == not_found("Not found."@)
        }
    } else if method == "GET"@ {
        after == before && r == (ResponseView::OkWithLength { mime_type: "text/plain"@, length: 0 })
    } else if method == "PATCH"@ {
        match decimal_i32(param) {
            None => after == before && r == not_found(
                "Incorrect ID type for pcap, ID should be i32."@,
            ),
            Some(id) => if body != "1"@ && body != "2"@ {
                after == before && r == not_found("Incorrect state for PatchPcap"@)
            } else if has_pcap_id(before.records, id as i32) {
                &&& after.records == states_set(
                    before.records,
                    id as i32,
                    if body == "1"@ { State::On } else { State::Off },
                )
                &&& after.facades == before.facades
                &&& after.next_id == before.next_id
                &&& r == (ResponseView::Success { mime_type: "text/plain"@, body: Seq::<char>::empty() })
            } else {
                after == before && r == not_found("Pcap ID not found."@)
            },
        }
    } else {
        after == before && r == not_found("Not found."@)
    }
}

/// Whether a list request with this snapshot keeps record ids in range.
pub open spec fn ids_fit(v: PcapsView, devices: Option<&Vec<Device>>) -> bool {
    match devices {
        Some(ds) => v.next_id + snapshot_of(ds@).len() <= i32::MAX,
        None => true,
    }
}

/// The snapshot's records, when the topology could be read.
pub open spec fn snapshot_opt(devices: Option<&Vec<Device>>) -> Option<Seq<Pcap>> {
    match devices {
        Some(ds) => Some(snapshot_of(ds@)),
        None => None,
    }
}

fn error(message: &str) -> (r: Response)
    ensures
        r@ == not_found(message@),
{
    Response::Error { code: 404, message: String::from_str(message) }
}

/// Serves a request on the capture resource: `GET` on the collection lists
/// the captures after reconciling with the topology snapshot `devices`;
/// `PATCH` on one capture, with the body `1` or `2`, turns it on or off.
pub fn handle_pcap(
    pcaps: &mut Pcaps,
    method: &str,
    uri: &str,
    param: &str,
    body: &str,
    devices: Option<&Vec<Device>>,
) -> (r: Response)
    requires
        old(pcaps).wf(),
        (uri@ == collection_path() && method@ == "GET"@) ==> ids_fit(old(pcaps)@, devices),
    ensures
        final(pcaps).wf(),
        handled(old(pcaps)@, final(pcaps)@, r@, method@, uri@, param@, body@, snapshot_opt(devices)),
{
    if str_eq(uri, "/v1/pcaps") {
        if str_eq(method, "GET") {
            let out = handle_pcap_list(pcaps, devices);
            Response::Success { mime_type: String::from_str("text/json"), body: out }
        } else {
            error("Not found.")
        }
    } else if str_eq(method, "GET") {
        Response::OkWithLength { mime_type: String::from_str("text/plain"), length: 0 }
    } else if str_eq(method, "PATCH") {
        let id = match parse_i32(param) {
            Some(num) => num,
            None => {
                return error("Incorrect ID type for pcap, ID should be i32.");
            },
        };
        let state = if str_eq(body, "1") {
            true
        } else if str_eq(body, "2") {
            false
        } else {
            return error("Incorrect state for PatchPcap");
        };
        if pcaps.set_state(id, state) {
            Response::Success { mime_type: String::from_str("text/plain"), body: String::new() }
        } else {
            error("Pcap ID not found.")
        }
    } else {
        error("Not found.")
    }
}

/// Serves a request given as a method, an id parameter (empty for the
/// collection) and a body: the path is `/v1/pcaps` or `/v1/pcaps/{param}`.
pub fn handle_pcap_cxx(
    pcaps: &mut Pcaps,
    method: String,
    param: String,
    body: String,
    devices: Option<&Vec<Device>>,
) -> (r: Response)
    requires
        old(pcaps).wf(),
        (param@.len() == 0 && method@ == "GET"@) ==> ids_fit(old(pcaps)@, devices),
    ensures
        final(pcaps).wf(),
        handled(
            old(pcaps)@,
            final(pcaps)@,
            r@,
            method@,
            pcap_uri(param@),
            param@,
            body@,
            snapshot_opt(devices),
        ),
{
    let mut uri = String::from_str("/v1/pcaps");
    if param.unicode_len() != 0 {
        uri.append("/");
        uri.append(param.as_str());
    }
    proof {
        reveal_strlit("/v1/pcaps");
        reveal_strlit("/v1/pcaps/");
        reveal_strlit("/");
        assert(uri@ =~= pcap_uri(param@));
        if param@.len() != 0 {
            assert(uri@.len() != collection_path().len());
        }
    }
    handle_pcap(pcaps, method.as_str(), uri.as_str(), param.as_str(), body.as_str(), devices)
}

} // verus!
