//! Sorting the options by name.

use std::cmp::Ordering;
use vstd::prelude::*;
use crate::record::{copy_docs, records_of, OptionDoc, OptionRecord};
use crate::strings::{comes_before, text_before};

verus! {

/// How the names of two records compare, in the order of their UTF-8 bytes.
pub open spec fn name_order(a: OptionRecord, b: OptionRecord) -> Ordering {
    if text_before(a.name, b.name) {
        Ordering::Less
    } else if text_before(b.name, a.name) {
        Ordering::Greater
    } else {
        Ordering::Equal
    }
}

/// Whether no record of `records` stands behind one that its name comes
/// before.
pub open spec fn sorted_by_name(records: Seq<OptionRecord>) -> bool {
    forall|i: int, j: int|
        0 <= i < j < records.len() ==> !text_before(
            (#[trigger] records[j]).name,
            (#[trigger] records[i]).name,
        )
}

/// The records of `records` that have the name `name`, in order.
pub open spec fn with_name(records: Seq<OptionRecord>, name: Seq<char>) -> Seq<OptionRecord>
    decreases records.len(),
{
    if records.len() == 0 {
        Seq::empty()
    } else if records.last().name == name {
        with_name(records.drop_last(), name).push(records.last())
    } else {
        with_name(records.drop_last(), name)
    }
}

/// Compares two options by name.
pub fn compare_names(a: &OptionDoc, b: &OptionDoc) -> (order: Ordering)
    ensures
        order == name_order(a@, b@),
{
    if comes_before(a.name.as_str(), b.name.as_str()) {
        Ordering::Less
    } else if comes_before(b.name.as_str(), a.name.as_str()) {
        Ordering::Greater
    } else {
        Ordering::Equal
    }
}

/// `slice::sort_by` with `compare_names`: puts the options in the order of
/// their names. The same options are there afterwards, none stands behind
/// one that its name comes before, and the options of one name keep their
/// order.
#[verifier::external_body]
pub(crate) fn sort_in_place(options: &mut Vec<OptionDoc>)
    ensures
        records_of(final(options)@).to_multiset() == records_of(old(options)@).to_multiset(),
        sorted_by_name(records_of(final(options)@)),
        forall|name: Seq<char>| #[trigger]
            with_name(records_of(final(options)@), name) == with_name(
                records_of(old(options)@),
                name,
            ),
{
    options.sort_by(|a, b| compare_names(a, b))
}

/// The options in the order of their names: the same options, none behind
/// one that its name comes before, those of one name in the order they had.
pub fn sort_options(options: &[OptionDoc]) -> (sorted: Vec<OptionDoc>)
    ensures
        records_of(sorted@).to_multiset() == records_of(options@).to_multiset(),
        sorted_by_name(records_of(sorted@)),
        forall|name: Seq<char>| #[trigger]
            with_name(records_of(sorted@), name) == with_name(records_of(options@), name),
{
    let mut sorted = copy_docs(options);
    sort_in_place(&mut sorted);
    sorted
}

} // verus!
