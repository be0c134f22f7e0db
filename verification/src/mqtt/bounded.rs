//! The bounded lists that packets hold: `heapless` vectors of eight places.

use crate::mqtt::packet::{Property, QoS};
use heapless::Vec as BoundedVec;
use vstd::prelude::*;

verus! {

#[verifier::external_type_specification]
#[verifier::external_body]
#[verifier::reject_recursive_types(T)]
pub struct ExBoundedVec<T, const N: usize>(heapless::Vec<T, N>);

/// The properties in a list, in order: identifier and data of each.
pub uninterp spec fn properties_in(v: heapless::Vec<Property<'_>, 8>) -> Seq<(u8, Seq<u8>)>;

/// The topic filters in a list, in order.
pub uninterp spec fn filters_in(v: heapless::Vec<(&str, QoS), 8>) -> Seq<(Seq<char>, QoS)>;

/// The reason codes in a list, in order.
pub uninterp spec fn codes_in(v: heapless::Vec<u8, 8>) -> Seq<u8>;

/// `heapless::Vec::new`: an empty list.
#[verifier::external_body]
pub(crate) fn no_properties<'a>() -> (v: BoundedVec<Property<'a>, 8>)
    ensures
        properties_in(v) == Seq::<(u8, Seq<u8>)>::empty(),
{
    BoundedVec::new()
}

/// `heapless::Vec::push`: appends the item where one of the eight places is free, and leaves the
/// list as it is otherwise.
#[verifier::external_body]
pub(crate) fn push_property<'a>(v: &mut BoundedVec<Property<'a>, 8>, p: Property<'a>) -> (pushed: bool)
    ensures
        pushed == (properties_in(*old(v)).len() < 8),
        properties_in(*final(v)) == if pushed {
            properties_in(*old(v)).push((p.id, p.data@))
        } else {
            properties_in(*old(v))
        },
{
    v.push(p).is_ok()
}

/// The contents of a list of properties.
pub open spec fn property_views(props: Seq<Property<'_>>) -> Seq<(u8, Seq<u8>)> {
    props.map_values(|p: Property<'_>| (p.id, p.data@))
}

/// `heapless::Vec::as_slice`: the items of the list, in order.
#[verifier::external_body]
pub(crate) fn property_slice<'v, 'a>(v: &'v BoundedVec<Property<'a>, 8>) -> (s: &'v [Property<'a>])
    ensures
        property_views(s@) == properties_in(*v),
{
    v.as_slice()
}

/// `heapless::Vec::new`: an empty list.
#[verifier::external_body]
pub(crate) fn no_filters<'a>() -> (v: BoundedVec<(&'a str, QoS), 8>)
    ensures
        filters_in(v) == Seq::<(Seq<char>, QoS)>::empty(),
{
    BoundedVec::new()
}

/// `heapless::Vec::push`: appends the item where one of the eight places is free, and leaves the
/// list as it is otherwise.
#[verifier::external_body]
pub(crate) fn push_filter<'a>(v: &mut BoundedVec<(&'a str, QoS), 8>, topic: &'a str, qos: QoS) -> (pushed:
    bool)
    ensures
        pushed == (filters_in(*old(v)).len() < 8),
        filters_in(*final(v)) == if pushed {
            filters_in(*old(v)).push((topic@, qos))
        } else {
            filters_in(*old(v))
        },
{
    v.push((topic, qos)).is_ok()
}

/// The contents of a list of topic filters.
pub open spec fn filter_views(filters: Seq<(&str, QoS)>) -> Seq<(Seq<char>, QoS)> {
    filters.map_values(|f: (&str, QoS)| (f.0@, f.1))
}

/// `heapless::Vec::as_slice`: the items of the list, in order.
#[verifier::external_body]
pub(crate) fn filter_slice<'v, 'a>(v: &'v BoundedVec<(&'a str, QoS), 8>) -> (s: &'v [(&'a str, QoS)])
    ensures
        filter_views(s@) == filters_in(*v),
{
    v.as_slice()
}

/// `heapless::Vec::new`: an empty list.
#[verifier::external_body]
pub(crate) fn no_codes() -> (v: BoundedVec<u8, 8>)
    ensures
        codes_in(v) == Seq::<u8>::empty(),
{
    BoundedVec::new()
}

/// `heapless::Vec::push`: appends the item where one of the eight places is free, and leaves the
/// list as it is otherwise.
#[verifier::external_body]
pub(crate) fn push_code(v: &mut BoundedVec<u8, 8>, code: u8) -> (pushed: bool)
    ensures
        pushed == (codes_in(*old(v)).len() < 8),
        codes_in(*final(v)) == if pushed {
            codes_in(*old(v)).push(code)
        } else {
            codes_in(*old(v))
        },
{
    v.push(code).is_ok()
}

} // verus!
