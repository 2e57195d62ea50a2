//! The XML events of a Mitsuba 2 scene file, as `xml-rs` reads them.
use vstd::prelude::*;

use xml::reader::EventReader;
use xml::reader::XmlEvent::{
    CData, Characters, EndDocument, EndElement, ProcessingInstruction, StartElement, Whitespace,
};

use super::reader::mitsuba_scene;
use super::spec::mitsuba_spec;
use super::types::{events_view, MitsubaError, MitsubaSceneDesc, XmlEvent, XmlEventView};

verus! {

/// The events that `xml-rs` reads from `bytes`, up to the end of the
/// document or the first error, and whether it met an error.
pub uninterp spec fn xml_events_of(bytes: Seq<u8>) -> (Seq<XmlEventView>, bool);

/// Reads the events of the XML document in `bytes` with `xml-rs`'s
/// `EventReader`, until the end of the document or the first error. Claimed
/// of it: the events, each as its kind with its local names and texts, and
/// whether the reader stopped on an error, are `xml_events_of` the bytes.
/// What `xml_events_of` is on given bytes is not stated.
#[verifier::external_body]
fn read_xml_events(bytes: &[u8]) -> (r: (Vec<XmlEvent>, bool))
    ensures
        (events_view(r.0@), r.1) == xml_events_of(bytes@),
{
    let mut reader = EventReader::new(bytes);
    let mut events = vec![];
    loop {
        events.push(match reader.next() {
            Ok(EndDocument) => return (events, false),
            Ok(StartElement { name, attributes, .. }) => XmlEvent::StartElement { name: name.local_name, attributes: attributes.into_iter().map(|a| (a.name.local_name, a.value)).collect() },
            Ok(EndElement { name }) => XmlEvent::EndElement { name: name.local_name },
            Ok(Characters(s)) => XmlEvent::Characters(s),
            Ok(CData(s)) => XmlEvent::CData(s),
            Ok(ProcessingInstruction { name, .. }) => XmlEvent::ProcessingInstruction(name),
            Ok(Whitespace(_)) => XmlEvent::Whitespace,
            Ok(_) => XmlEvent::Other,
            _ => return (events, true),
        });
    }
}

/// Reads the scene that the bytes of a Mitsuba 2 scene file describe, and
/// tells whether the XML reader stopped on an error (the scene is then read
/// from the events before it).
pub fn read_mitsuba(bytes: &[u8]) -> (r: (Result<MitsubaSceneDesc, MitsubaError>, bool))
    ensures
        r.1 == xml_events_of(bytes@).1,
        match (r.0, mitsuba_spec(xml_events_of(bytes@).0)) {
            (Ok(s), Ok(s2)) => s@ == s2,
            (Err(e), Err(e2)) => e@ == e2,
            _ => false,
        },
{
    let (events, xml_error) = read_xml_events(bytes);
    (mitsuba_scene(events.as_slice()), xml_error)
}

} // verus!
