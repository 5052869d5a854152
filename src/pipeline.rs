//! The per-frame decisions of the capture pipeline: when to refresh the
//! attribution cache, which application a frame belongs to, whether the
//! classified record is discovery noise, and so whether it is delivered.

use crate::capture::{dest_text, frame_label, is_record_of, parse_packet_full, PacketData};
use crate::frame::{frame_ports, frame_ports_of, sliced_ethernet};
use crate::process::{resolved_app, ProcessResolver};
use crate::text::{contains, contains_text};
use vstd::prelude::*;

verus! {

/// How long the attribution cache may go without a refresh, in nanoseconds.
pub const REFRESH_INTERVAL_NANOS: u64 = 2_000_000_000;

/// Whether the attribution cache, last refreshed at `last_refresh`, is due
/// for a refresh at `now`: more than the interval has elapsed.
pub fn refresh_due(last_refresh: u64, now: u64) -> (r: bool)
    ensures
        r == (now > last_refresh && now - last_refresh > REFRESH_INTERVAL_NANOS),
{
    now > last_refresh && now - last_refresh > REFRESH_INTERVAL_NANOS
}

/// Multicast discovery chatter: the SSDP label, or a destination at the
/// IPv4 or IPv6 discovery multicast address.
pub open spec fn is_noise(label: Seq<char>, dest: Seq<char>) -> bool {
    label == "SSDP"@ || contains(dest, "239.255.255.250"@) || contains(dest, "ff05::c"@)
}

/// Whether a record is multicast discovery chatter.
pub fn is_noise_record(r: &PacketData) -> (b: bool)
    ensures
        b == is_noise(r.proto_label@, r.dest@),
{
    let ssdp = String::from_str("SSDP");
    r.proto_label == ssdp || contains_text(r.dest.as_str(), "239.255.255.250") || contains_text(
        r.dest.as_str(),
        "ff05::c",
    )
}

/// What the pipeline makes of one captured frame: the frame's ports are
/// resolved to an application, the frame is classified, and the record is
/// delivered unless the frame could not be sliced or is discovery noise.
/// `timestamp` and `time_label` are the capture instant on the monotonic
/// and the wall clock.
pub fn process_frame(
    data: &[u8],
    resolver: &ProcessResolver,
    timestamp: u64,
    time_label: String,
) -> (r: Option<PacketData>)
    ensures
        r is Some <==> (sliced_ethernet(data@) is Some && !is_noise(
            frame_label(sliced_ethernet(data@)->0),
            dest_text(sliced_ethernet(data@)->0.net),
        )),
        r is Some ==> is_record_of(
            r->0,
            data@,
            sliced_ethernet(data@)->0,
            resolved_app(resolver@, frame_ports_of(data@).0, frame_ports_of(data@).1),
            timestamp,
            time_label@,
        ),
{
    let (src, dst) = frame_ports(data);
    let app = resolver.resolve(src, dst);
    match parse_packet_full(data, app, timestamp, time_label) {
        Some(rec) => if is_noise_record(&rec) {
            None
        } else {
            Some(rec)
        },
        None => None,
    }
}

} // verus!
