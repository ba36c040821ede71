//! Deciding what becomes of a page polled from another exporter.

use vstd::prelude::*;

verus! {

/// The key under which a polled page is stored: `external_poll: ` and the
/// address it came from. A response whose status is not 200, or whose
/// address is unknown, is discarded (`None`).
pub open spec fn poll_key_spec(status: u16, remote_addr: Option<Seq<char>>) -> Option<Seq<char>> {
    if status != 200 {
        None
    } else {
        match remote_addr {
            Some(a) => Some("external_poll: "@ + a),
            None => None,
        }
    }
}

/// The key for a polled response with HTTP status `status` from
/// `remote_addr`, or `None` where the response is discarded.
pub fn poll_response_key(status: u16, remote_addr: Option<&str>) -> (r: Option<String>)
    ensures
        (match r {
            Some(s) => Some(s@),
            None => None,
        }) == poll_key_spec(status, match remote_addr {
            Some(a) => Some(a@),
            None => None,
        }),
{
    if status != 200 {
        return None;
    }
    match remote_addr {
        Some(addr) => {
            let mut key = "external_poll: ".to_owned();
            key.append(addr);
            Some(key)
        },
        None => None,
    }
}

/// Only a 200 response from a known address is kept: any other status, or
/// an unknown address, discards it; a kept response is keyed by
/// `external_poll: ` followed by its address.
pub proof fn lemma_only_ok_responses_are_kept(status: u16, remote_addr: Option<Seq<char>>)
    ensures
        status != 200 ==> poll_key_spec(status, remote_addr) is None,
        remote_addr is None ==> poll_key_spec(status, remote_addr) is None,
        status == 200 && remote_addr is Some ==> poll_key_spec(status, remote_addr) == Some(
            "external_poll: "@ + remote_addr->0,
        ),
{
}

} // verus!
