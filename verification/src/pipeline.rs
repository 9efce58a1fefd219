//! The receive pipeline's packet step. For each well-formed RXLOG record
//! the payload bytes go to the mesh-packet library, decryption is
//! attempted against the keystore (failure is non-fatal: the packet is
//! still forwarded), and a one-line textual summary is produced for the
//! console sink. The packet format, the keystore and decryption itself
//! belong to the packet library and are taken on its contracts.

use vstd::prelude::*;

use crate::rxlog::RxRecord;

verus! {

/// The packet library's parsed mesh packet; opaque here.
#[verifier::external_type_specification]
#[verifier::external_body]
pub struct ExPacket(meshcore::packet::Packet);

/// The packet library's compiled key material store; opaque here.
#[verifier::external_type_specification]
#[verifier::external_body]
pub struct ExKeystore(meshcore::identity::Keystore);

/// The payload-type bits of a packet header select the acknowledgement
/// parser.
pub open spec fn is_ack_header(header: u8) -> bool {
    (header & 0x3C) >> 2 == 3
}

/// Whether `meshcore::packet::Packet::from` returns on `d` without reading
/// past the end. Its sub-parsers all guard their reads except the
/// acknowledgement parser, which reads four bytes unconditionally; this
/// follows the parse prefix — header, optional transport words, route
/// path — and asks that an acknowledgement payload leave those four
/// bytes. Everything too short to reach a sub-parser returns early and is
/// safe.
pub open spec fn packet_parse_safe(d: Seq<u8>) -> bool {
    if d.len() < 2 {
        true
    } else {
        let header = d[0];
        let rt = header & 0x03;
        let has_transport = rt == 0 || rt == 3;
        if has_transport && d.len() < 5 {
            true
        } else {
            let off: int = if has_transport {
                5
            } else {
                1
            };
            if d.len() == off {
                true
            } else {
                let plen = d[off] as int;
                let version = (header & 0xC0) >> 6;
                let body = d.len() - off - 1;
                if version == 0 {
                    body < plen || !is_ack_header(header) || body - plen >= 4
                } else if version == 1 {
                    body < 2 * plen || !is_ack_header(header) || body - 2 * plen >= 4
                } else {
                    true
                }
            }
        }
    }
}

/// Whether the payload-type bits select the acknowledgement parser.
fn is_ack_header_exec(header: u8) -> (r: bool)
    ensures
        r == is_ack_header(header),
{
    (header & 0x3C) >> 2 == 3
}

/// Whether the packet library's parser returns on `d` without reading
/// past the end.
pub fn packet_parse_safe_exec(d: &Vec<u8>) -> (r: bool)
    ensures
        r == packet_parse_safe(d@),
{
    let n = d.len();
    if n < 2 {
        return true;
    }
    let header = d[0];
    let rt = header & 0x03;
    let has_transport = rt == 0 || rt == 3;
    if has_transport && n < 5 {
        return true;
    }
    let off: usize = if has_transport {
        5
    } else {
        1
    };
    if n == off {
        return true;
    }
    let plen = d[off] as usize;
    let version = (header & 0xC0) >> 6;
    let body = n - off - 1;
    if version == 0 {
        body < plen || !is_ack_header_exec(header) || body - plen >= 4
    } else if version == 1 {
        body < 2 * plen || !is_ack_header_exec(header) || body - 2 * plen >= 4
    } else {
        true
    }
}

/// Relies on `meshcore::packet::Packet::from`: any byte string parses to a
/// packet (a short or unrecognized one parses to an incomplete packet).
/// The one exception is an acknowledgement payload cut shorter than its
/// checksum, on which the parser reads past the end; `requires` keeps
/// those bytes out.
#[verifier::external_body]
fn packet_from_payload(data: &Vec<u8>) -> (p: meshcore::packet::Packet)
    requires
        packet_parse_safe(data@),
{
    meshcore::packet::Packet::from(tokio_util::bytes::Bytes::copy_from_slice(data))
}

/// Relies on `meshcore::packet::Packet::default`: the empty, incomplete
/// packet.
#[verifier::external_body]
fn packet_default() -> (p: meshcore::packet::Packet)
{
    meshcore::packet::Packet::default()
}

/// Relies on `meshcore::packet::Packet::try_decrypt`: it attempts
/// decryption of the packet's content against the keystore in place and
/// says whether it succeeded; it never fails otherwise.
#[verifier::external_body]
fn try_decrypt_packet(p: &mut meshcore::packet::Packet, ks: &meshcore::identity::Keystore) -> (r:
    bool)
{
    p.try_decrypt(ks)
}

/// Relies on `meshcore::packet::Packet`'s display contract: it renders a
/// one-line textual summary of the packet.
#[verifier::external_body]
fn packet_summary(p: &meshcore::packet::Packet) -> (s: String)
{
    format!("{}", p)
}

/// One captured frame as handed to the sinks: the record's signal fields
/// and the parsed packet.
pub struct RawPacket {
    /// Received signal strength, as the device printed it, if numeric.
    pub rssi: Option<Vec<u8>>,
    /// Signal-to-noise ratio, as the device printed it, if numeric.
    pub snr: Option<Vec<u8>>,
    /// Port; absent for frames captured off the radio log.
    pub port: Option<i8>,
    /// The packet library's parsed packet.
    pub contents: meshcore::packet::Packet,
}

/// Turns one RXLOG record into a captured frame: parses the payload with
/// the packet library, attempts decryption against the keystore (failure
/// is non-fatal), and renders the console summary. The record's signal
/// fields are carried over unchanged and the port is absent. A payload on
/// which the packet parser would read past the end stands as the empty,
/// incomplete packet instead.
pub fn receive(rec: RxRecord, ks: &meshcore::identity::Keystore) -> (r: (RawPacket, String))
    ensures
        r.0.rssi == rec.rssi,
        r.0.snr == rec.snr,
        r.0.port is None,
{
    let contents = if packet_parse_safe_exec(&rec.payload) {
        packet_from_payload(&rec.payload)
    } else {
        packet_default()
    };
    let mut pkt = RawPacket { rssi: rec.rssi, snr: rec.snr, port: None, contents };
    try_decrypt_packet(&mut pkt.contents, ks);
    let summary = packet_summary(&pkt.contents);
    (pkt, summary)
}

} // verus!
