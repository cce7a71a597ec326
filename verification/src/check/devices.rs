//! Choosing the audio endpoint a test runs on.

use vstd::prelude::*;
use vstd::utf8::encode_utf8;
use crate::check::analysis::{find_subslice, occurs_at};
use crate::check::types::{DeviceSelector, DeviceSummary};

verus! {

/// The UTF-8 bytes of a string.
pub open spec fn text_bytes(s: String) -> Seq<u8> {
    encode_utf8(s@)
}

pub open spec fn lower_byte(b: u8) -> u8 {
    if 65 <= b <= 90 {
        (b + 32) as u8
    } else {
        b
    }
}

/// ASCII lowercase: `A`..`Z` become `a`..`z`, every other byte is kept.
pub open spec fn lowercase(s: Seq<u8>) -> Seq<u8> {
    Seq::new(s.len(), |i: int| lower_byte(s[i]))
}

/// The text a query is matched against: id, friendly name, interface name
/// and description, one per line.
pub open spec fn summary_text(d: DeviceSummary) -> Seq<u8> {
    text_bytes(d.id) + seq![10u8] + text_bytes(d.friendly_name) + seq![10u8] + text_bytes(d.interface_name) + seq![10u8]
        + text_bytes(d.description)
}

/// A device matches when the query occurs in its text, ignoring ASCII case.
pub open spec fn device_matches_spec(d: DeviceSummary, query: String) -> bool {
    exists|i: int| occurs_at(lowercase(summary_text(d)), lowercase(text_bytes(query)), i)
}

fn string_bytes(s: &String) -> (b: &[u8])
    ensures
        b@ == text_bytes(*s),
{
    s.as_str().as_bytes()
}

pub fn ascii_lowercase(bytes: &[u8]) -> (r: Vec<u8>)
    ensures
        r@ == lowercase(bytes@),
{
    let mut r: Vec<u8> = Vec::new();
    let mut i: usize = 0;
    while i < bytes.len()
        invariant
            i <= bytes@.len(),
            r@ == lowercase(bytes@.take(i as int)),
        decreases bytes@.len() - i,
    {
        let b = bytes[i];
        let l: u8 = if 65 <= b && b <= 90 { b + 32 } else { b };
        r.push(l);
        assert(r@ =~= lowercase(bytes@.take(i as int + 1)));
        i += 1;
    }
    assert(bytes@.take(i as int) =~= bytes@);
    r
}

fn append(out: &mut Vec<u8>, bytes: &[u8])
    ensures
        final(out)@ == old(out)@ + bytes@,
{
    let ghost start = out@;
    let mut i: usize = 0;
    while i < bytes.len()
        invariant
            i <= bytes@.len(),
            out@ == start + bytes@.take(i as int),
        decreases bytes@.len() - i,
    {
        out.push(bytes[i]);
        assert(bytes@.take(i as int + 1) =~= bytes@.take(i as int).push(bytes@[i as int]));
        i += 1;
    }
    assert(bytes@.take(i as int) =~= bytes@);
}

pub fn device_matches(device: &DeviceSummary, query: &String) -> (b: bool)
    ensures
        b == device_matches_spec(*device, *query),
{
    let mut text: Vec<u8> = Vec::new();
    append(&mut text, string_bytes(&device.id));
    text.push(10);
    append(&mut text, string_bytes(&device.friendly_name));
    text.push(10);
    append(&mut text, string_bytes(&device.interface_name));
    text.push(10);
    append(&mut text, string_bytes(&device.description));
    assert(text@ =~= summary_text(*device));
    let haystack = ascii_lowercase(text.as_slice());
    let needle = ascii_lowercase(string_bytes(query));
    let found = find_subslice(haystack.as_slice(), needle.as_slice());
    found.is_some()
}

/// The outcome of matching a query against the endpoints of one direction.
#[derive(Clone, Debug, PartialEq, Eq)]
pub enum DeviceChoice {
    /// Exactly this endpoint matches.
    One(usize),
    NoMatch,
    /// These endpoints (all of the matching ones, in order) match.
    Ambiguous(Vec<usize>),
}

/// The indices of the matching endpoints, in order.
pub open spec fn matching_indices(devices: Seq<DeviceSummary>, query: String) -> Seq<usize> {
    Seq::new(devices.len(), |i: int| i as usize).filter(|i: usize| device_matches_spec(devices[i as int], query))
}

pub fn choose_device(devices: &Vec<DeviceSummary>, query: &String) -> (c: DeviceChoice)
    ensures
        ({
            let m = matching_indices(devices@, *query);
            &&& m.len() == 0 ==> c == DeviceChoice::NoMatch
            &&& m.len() == 1 ==> c == DeviceChoice::One(m[0])
            &&& m.len() > 1 ==> (c matches DeviceChoice::Ambiguous(v) && v@ == m)
        }),
{
    let ghost all = Seq::new(devices@.len(), |i: int| i as usize);
    let ghost f = |i: usize| device_matches_spec(devices@[i as int], *query);
    let mut matches: Vec<usize> = Vec::new();
    let mut i: usize = 0;
    while i < devices.len()
        invariant
            i <= devices@.len(),
            all == Seq::new(devices@.len(), |k: int| k as usize),
            f == (|k: usize| device_matches_spec(devices@[k as int], *query)),
            matches@ == all.take(i as int).filter(f),
        decreases devices@.len() - i,
    {
        let is_match = device_matches(&devices[i], query);
        proof {
            assert(all.take(i as int + 1) =~= all.take(i as int).push(i as usize));
            all.take(i as int).lemma_filter_push(i as usize, f);
        }
        if is_match {
            matches.push(i);
        }
        i += 1;
    }
    proof {
        assert(all.take(i as int) =~= all);
    }
    if matches.len() == 0 {
        DeviceChoice::NoMatch
    } else if matches.len() == 1 {
        DeviceChoice::One(matches[0])
    } else {
        DeviceChoice::Ambiguous(matches)
    }
}

/// The exact endpoint id the selector names for a direction, if any.
pub fn selector_id(selector: &DeviceSelector, render: bool) -> (id: Option<&String>)
    ensures
        render ==> match selector.render_id {
            Some(r) => id == Some(&r),
            None => id is None,
        },
        !render ==> match selector.capture_id {
            Some(c) => id == Some(&c),
            None => id is None,
        },
{
    if render {
        selector.render_id.as_ref()
    } else {
        selector.capture_id.as_ref()
    }
}

} // verus!
