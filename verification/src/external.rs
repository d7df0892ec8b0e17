//! What this crate takes on trust from the crates it calls: their types,
//! named results of their functions, and the wrappers that make the calls.
//! Nothing in this file is proved.

use crate::pull_from_ct::first_occurrences;
use crate::push_to_ta::{OutputState, MAX_DATAGRAM_BYTES};
use crate::read_ext_temp::{Reading, ReadingValue};
use itertools::Itertools;
use vstd::prelude::*;

verus! {

/// `std::io::Error`, carried through unread.
#[verifier::external_type_specification]
#[verifier::external_body]
pub struct ExIoError(std::io::Error);

/// `sqlx::Error`, carried through unread.
#[verifier::external_type_specification]
#[verifier::external_body]
pub struct ExSqlxError(sqlx::Error);

/// `reqwest::Error`, carried through unread.
#[verifier::external_type_specification]
#[verifier::external_body]
pub struct ExReqwestError(reqwest::Error);

/// `chrono::ParseError`, carried through unread.
#[verifier::external_type_specification]
#[verifier::external_body]
pub struct ExParseError(chrono::ParseError);

} // verus!

verus! {

/// The instant, in whole seconds since the Unix epoch, that
/// `chrono::DateTime::parse_from_rfc3339` reads from a text; `None` where it
/// rejects the text.
pub uninterp spec fn rfc3339_seconds(text: Seq<char>) -> Option<i64>;

/// Calls `chrono::DateTime::parse_from_rfc3339` and, where it accepts the
/// text, `DateTime::timestamp` on what it returns. The contract claims only
/// that whether the text is accepted, and the instant read from it, depend
/// on the text alone.
#[verifier::external_body]
pub(crate) fn parse_rfc3339(text: &str) -> (parsed: Result<i64, chrono::ParseError>)
    ensures
        match parsed {
            Ok(seconds) => rfc3339_seconds(text@) == Some(seconds),
            Err(_) => rfc3339_seconds(text@) is None,
        },
{
    match chrono::DateTime::parse_from_rfc3339(text) {
        Ok(instant) => Ok(instant.timestamp()),
        Err(e) => Err(e),
    }
}

/// Calls `itertools::Itertools::unique` on the ids in order. The contract
/// claims what its documentation says: every id comes out once, at the place
/// of its first occurrence.
#[verifier::external_body]
pub(crate) fn unique_ids(ids: Vec<i64>) -> (unique: Vec<i64>)
    ensures
        unique@ == first_occurrences(ids@),
{
    ids.into_iter().unique().collect()
}

} // verus!

verus! {

/// The datagrams, each as its bytes, into which `coe::packets_from_payloads`
/// packs one on/off value for each of the outputs of the node, in order.
pub uninterp spec fn coe_datagrams(node: u8, outputs: Seq<OutputState>) -> Seq<Seq<u8>>;

/// Makes a `coe::Payload` with a digital on/off value for each output, calls
/// `coe::packets_from_payloads` on them and turns each packet into its
/// bytes. The contract claims that the bytes depend on the node and the
/// outputs alone, and that no datagram is longer than the protocol allows:
/// a packet holds a header of 4 bytes and at most 31 payloads of 8 bytes.
#[verifier::external_body]
pub(crate) fn encode_outputs(node: u8, outputs: &Vec<OutputState>) -> (datagrams: Vec<Vec<u8>>)
    ensures
        datagrams.deep_view() == coe_datagrams(node, outputs@),
        forall|i: int|
            0 <= i < datagrams@.len() ==> (#[trigger] datagrams@[i])@.len() <= MAX_DATAGRAM_BYTES,
{
    let payloads: Vec<coe::Payload> = outputs
        .iter()
        .map(|o| coe::Payload::new(node, o.pdo_index, coe::DigitalCOEValue::OnOff(o.on).into()))
        .collect();
    coe::packets_from_payloads(&payloads).into_iter().map(|packet| packet.into()).collect()
}

/// The readings that `coe::Packet::try_from` finds in a datagram, in order;
/// `None` where it rejects the datagram.
pub uninterp spec fn coe_readings(datagram: Seq<u8>) -> Option<Seq<Reading>>;

/// Calls `coe::Packet::try_from` on the datagram and copies node, output
/// index and value of each payload. The contract claims only that the
/// outcome depends on the datagram alone.
#[verifier::external_body]
pub(crate) fn decode_datagram(datagram: &[u8]) -> (readings: Option<Vec<Reading>>)
    ensures
        match readings {
            Some(found) => coe_readings(datagram@) == Some(found@),
            None => coe_readings(datagram@) is None,
        },
{
    let packet = coe::Packet::try_from(datagram).ok()?;
    Some(packet.iter().map(|p| Reading {
        node: p.node(),
        pdo_index: p.pdo_index(),
        value: match p.value() {
            coe::COEValue::Analogue(coe::AnalogueCOEValue::DegreeCentigrade_Tens(x)) =>
                ReadingValue::DegreeCentigradeTenths(x),
            coe::COEValue::Analogue(_) => ReadingValue::OtherAnalogue,
            coe::COEValue::Digital(_) => ReadingValue::Digital,
        },
    }).collect())
}

} // verus!
