//! Property sets: properties one behind the other, in an order that encoding
//! and decoding keep, where an identifier stands twice only if the protocol
//! lets it repeat.

use vstd::prelude::*;
use crate::error::CodecError;
use crate::primitives::bytes_from;
use crate::property::{
    property_bytes, property_decoded_len, property_round_trip, spec_decode_property, Property,
    PropertySpec,
};

verus! {

/// True for the identifiers that the protocol lets stand more than once in a
/// set. Of the identifiers in the table this is the subscription identifier.
pub open spec fn spec_is_repeatable(identifier: nat) -> bool {
    identifier == 11
}

/// Tells whether the identifier may stand more than once in a set.
pub fn is_repeatable(identifier: u32) -> (r: bool)
    ensures
        r == spec_is_repeatable(identifier as nat),
{
    identifier == 11
}

/// What each property of a sequence says.
pub open spec fn property_views(properties: Seq<Property>) -> Seq<PropertySpec> {
    properties.map_values(|p: Property| p@)
}

/// True when one of the properties has the given identifier.
pub open spec fn holds_identifier(properties: Seq<PropertySpec>, identifier: nat) -> bool {
    exists|i: int| 0 <= i < properties.len() && (#[trigger] properties[i]).identifier == identifier
}

/// True when no identifier stands twice but those that may repeat.
pub open spec fn no_duplicates(properties: Seq<PropertySpec>) -> bool {
    forall|i: int, j: int|
        0 <= i < j < properties.len() && (#[trigger] properties[i]).identifier == (
        #[trigger] properties[j]).identifier ==> spec_is_repeatable(properties[i].identifier)
}

/// The bytes of a property set: the bytes of its properties in their order.
pub open spec fn property_set_bytes(properties: Seq<PropertySpec>) -> Seq<u8>
    decreases properties.len(),
{
    if properties.len() == 0 {
        Seq::empty()
    } else {
        property_bytes(properties[0]) + property_set_bytes(properties.drop_first())
    }
}

/// What decoding the rest of a property set gives, where `found` are the
/// properties decoded so far and `s` holds the bytes still to be read: `found`
/// when `s` is used up; otherwise the next property is decoded from the front
/// of `s`, refused when its identifier stands in `found` already and may not
/// repeat, and put behind `found`.
pub open spec fn spec_decode_property_set_after(found: Seq<PropertySpec>, s: Seq<u8>) -> Result<
    Seq<PropertySpec>,
    CodecError,
>
    decreases s.len(),
{
    if s.len() == 0 {
        Ok(found)
    } else {
        match spec_decode_property(s) {
            Err(e) => Err(e.spec_in_packet()),
            Ok((property, used)) => {
                if !spec_is_repeatable(property.identifier) && holds_identifier(
                    found,
                    property.identifier,
                ) {
                    Err(CodecError::InvalidPropertyIdentifier)
                } else {
                    proof {
                        property_decoded_len(s);
                    }
                    spec_decode_property_set_after(found.push(property), s.skip(used as int))
                }
            },
        }
    }
}

/// What decoding a property set gives, where `s` holds the set and nothing
/// else: its properties in their order on the wire. A property that runs past
/// the end of `s` makes the packet truncated; an identifier that stands twice
/// and may not repeat is refused as an invalid identifier.
pub open spec fn spec_decode_property_set(s: Seq<u8>) -> Result<Seq<PropertySpec>, CodecError> {
    spec_decode_property_set_after(Seq::empty(), s)
}

/// Encodes a property set: each property in turn.
pub fn encode_property_set(properties: &Vec<Property>) -> (r: Vec<u8>)
    ensures
        r@ == property_set_bytes(property_views(properties@)),
        forall|i: int| 0 <= i < properties@.len() ==> (#[trigger] properties@[i])@.wf(),
{
    let mut out: Vec<u8> = Vec::new();
    let mut i: usize = 0;
    while i < properties.len()
        invariant
            i <= properties@.len(),
            out@ == property_set_bytes(property_views(properties@).take(i as int)),
            forall|k: int| 0 <= k < i ==> (#[trigger] properties@[k])@.wf(),
        decreases properties@.len() - i,
    {
        let mut bytes = properties[i].encode();
        proof {
            property_set_bytes_push(
                property_views(properties@).take(i as int),
                properties@[i as int]@,
            );
            assert(property_views(properties@).take(i + 1) =~= property_views(properties@).take(
                i as int,
            ).push(properties@[i as int]@));
        }
        out.append(&mut bytes);
        i = i + 1;
    }
    assert(property_views(properties@).take(i as int) =~= property_views(properties@));
    out
}

/// Tells whether one of the properties has the given identifier.
fn has_identifier(properties: &Vec<Property>, identifier: u32) -> (r: bool)
    ensures
        r == holds_identifier(property_views(properties@), identifier as nat),
{
    let mut i: usize = 0;
    while i < properties.len()
        invariant
            i <= properties@.len(),
            forall|k: int|
                0 <= k < i ==> (#[trigger] property_views(properties@)[k]).identifier
                    != identifier,
        decreases properties@.len() - i,
    {
        if properties[i].identifier.to_u32() == identifier {
            assert(property_views(properties@)[i as int].identifier == identifier);
            return true;
        }
        i = i + 1;
    }
    false
}

/// Decodes a property set, where `source` holds the set and nothing else.
///
/// The properties are read one after the other until `source` is used up, and
/// come out in their order on the wire. Fails as the property decoder does on
/// a property, but with `TruncatedPacket` where a property runs past the end
/// of `source`; and with `InvalidPropertyIdentifier` where an identifier that
/// may not repeat stands a second time.
pub fn decode_property_set(source: &[u8]) -> (r: Result<Vec<Property>, CodecError>)
    ensures
        match r {
            Ok(properties) => spec_decode_property_set(source@) == Ok::<
                Seq<PropertySpec>,
                CodecError,
            >(property_views(properties@)),
            Err(e) => spec_decode_property_set(source@) == Err::<Seq<PropertySpec>, CodecError>(
                e,
            ),
        },
{
    let mut found: Vec<Property> = Vec::new();
    let mut pos: usize = 0;
    assert(property_views(found@) =~= Seq::empty());
    assert(source@.skip(0) =~= source@);
    while pos < source.len()
        invariant
            pos <= source@.len(),
            spec_decode_property_set(source@) == spec_decode_property_set_after(
                property_views(found@),
                source@.skip(pos as int),
            ),
        decreases source@.len() - pos,
    {
        let ghost before = property_views(found@);
        let ghost rest = source@.skip(pos as int);
        let (property, used) = match Property::decode(bytes_from(source, pos)) {
            Err(e) => { return Err(e.in_packet()); },
            Ok(decoded) => decoded,
        };
        let identifier: u32 = property.identifier.to_u32();
        if !is_repeatable(identifier) && has_identifier(&found, identifier) {
            return Err(CodecError::InvalidPropertyIdentifier);
        }
        proof {
            property_decoded_len(rest);
            assert(rest.skip(used as int) =~= source@.skip(pos + used));
            assert(property_views(found@.push(property)) =~= before.push(property@));
        }
        found.push(property);
        pos = pos + used;
    }
    Ok(found)
}

/// The bytes of a set with one more property at its end are the bytes of the
/// set, then the bytes of that property.
pub proof fn property_set_bytes_push(properties: Seq<PropertySpec>, last: PropertySpec)
    ensures
        property_set_bytes(properties.push(last)) == property_set_bytes(properties)
            + property_bytes(last),
    decreases properties.len(),
{
    let longer = properties.push(last);
    if properties.len() == 0 {
        assert(longer.drop_first() =~= properties);
        assert(property_set_bytes(properties) =~= Seq::<u8>::empty());
        assert(longer[0] == last);
        assert(property_set_bytes(longer) =~= property_set_bytes(properties) + property_bytes(
            last,
        ));
    } else {
        property_set_bytes_push(properties.drop_first(), last);
        assert(longer.drop_first() =~= properties.drop_first().push(last));
        assert(property_set_bytes(longer) =~= property_set_bytes(properties) + property_bytes(
            last,
        ));
    }
}

/// Decoding goes on behind what was found as it began: where the properties
/// of `properties` can be encoded, have the shapes that the protocol's table
/// gives for their identifiers, and bring no identifier a second time that
/// may not repeat, decoding their bytes behind `found` gives `found`, then
/// `properties`.
proof fn property_set_round_trip_after(found: Seq<PropertySpec>, properties: Seq<PropertySpec>)
    requires
        forall|i: int|
            0 <= i < properties.len() ==> (#[trigger] properties[i]).wf()
                && properties[i].in_table(),
        no_duplicates(found + properties),
    ensures
        spec_decode_property_set_after(found, property_set_bytes(properties)) == Ok::<
            Seq<PropertySpec>,
            CodecError,
        >(found + properties),
    decreases properties.len(),
{
    if properties.len() == 0 {
        assert(found + properties =~= found);
    } else {
        let first = properties[0];
        let others = properties.drop_first();
        let tail = property_set_bytes(others);
        let s = property_set_bytes(properties);
        let all = found + properties;
        assert(first.wf() && first.in_table());
        property_round_trip(first, tail);
        property_decoded_len(s);
        let used = property_bytes(first).len();
        assert(s.skip(used as int) =~= tail);
        assert(all[found.len() as int] == first);
        if !spec_is_repeatable(first.identifier) && holds_identifier(found, first.identifier) {
            let i = choose|i: int|
                0 <= i < found.len() && (#[trigger] found[i]).identifier == first.identifier;
            assert(all[i] == found[i]);
            assert(false);
        }
        assert(found.push(first) + others =~= all);
        assert forall|i: int| 0 <= i < others.len() implies (#[trigger] others[i]).wf()
            && others[i].in_table() by {
            assert(others[i] == properties[i + 1]);
        }
        property_set_round_trip_after(found.push(first), others);
    }
}

/// Decoding undoes encoding of a property set: from the bytes of properties
/// that can be encoded, that have the shapes that the protocol's table gives
/// for their identifiers, and among which no identifier stands twice but
/// those that may repeat, the decoder gives back the properties in their
/// order.
pub proof fn property_set_round_trip(properties: Seq<PropertySpec>)
    requires
        forall|i: int|
            0 <= i < properties.len() ==> (#[trigger] properties[i]).wf()
                && properties[i].in_table(),
        no_duplicates(properties),
    ensures
        spec_decode_property_set(property_set_bytes(properties)) == Ok::<
            Seq<PropertySpec>,
            CodecError,
        >(properties),
{
    assert(Seq::<PropertySpec>::empty() + properties =~= properties);
    property_set_round_trip_after(Seq::empty(), properties);
}

/// What decoding yields behind properties without a forbidden repetition is
/// without one too.
proof fn decoded_property_set_after_no_duplicates(found: Seq<PropertySpec>, s: Seq<u8>)
    requires
        no_duplicates(found),
    ensures
        spec_decode_property_set_after(found, s) matches Ok(properties) ==> no_duplicates(
            properties,
        ),
    decreases s.len(),
{
    if s.len() != 0 {
        if let Ok((property, used)) = spec_decode_property(s) {
            if spec_is_repeatable(property.identifier) || !holds_identifier(
                found,
                property.identifier,
            ) {
                property_decoded_len(s);
                let longer = found.push(property);
                assert forall|i: int, j: int|
                    0 <= i < j < longer.len() && (#[trigger] longer[i]).identifier == (
                    #[trigger] longer[j]).identifier implies spec_is_repeatable(
                    longer[i].identifier,
                ) by {
                    if j < found.len() {
                        assert(longer[i] == found[i] && longer[j] == found[j]);
                    } else {
                        assert(longer[i] == found[i]);
                    }
                }
                decoded_property_set_after_no_duplicates(longer, s.skip(used as int));
            }
        }
    }
}

/// No decoded property set holds an identifier twice but those that may
/// repeat.
pub proof fn decoded_property_set_no_duplicates(s: Seq<u8>)
    ensures
        spec_decode_property_set(s) matches Ok(properties) ==> no_duplicates(properties),
{
    decoded_property_set_after_no_duplicates(Seq::empty(), s);
}

} // verus!
