//! The record of one documented option, and the two ways in which records
//! of the same name are merged.

use vstd::prelude::*;
use crate::strings::same_text;
use crate::types::{NixType, TypeKind};

verus! {

/// The documentation of one option.
#[derive(Debug)]
pub struct OptionDoc {
    /// The full name of the option, its path segments joined by dots.
    pub name: String,
    /// The description of the option, as it is shown.
    pub description: Option<String>,
    /// The kind of type of the option.
    pub nix_type: NixType,
    /// The default value of the option, as source text.
    pub default_value: Option<String>,
    /// An example value for the option, as source text.
    pub example: Option<String>,
    /// The path of the file that declares the option.
    pub file_path: String,
    /// The line, counted from 1, on which the declaration starts.
    pub line_number: usize,
}

/// What an `OptionDoc` stands for.
pub ghost struct OptionRecord {
    pub name: Seq<char>,
    pub description: Option<Seq<char>>,
    pub nix_type: TypeKind,
    pub default_value: Option<Seq<char>>,
    pub example: Option<Seq<char>>,
    pub file_path: Seq<char>,
    pub line_number: nat,
}

/// What an optional string holds.
pub open spec fn text_of(text: Option<String>) -> Option<Seq<char>> {
    match text {
        Some(found) => Some(found@),
        None => None,
    }
}

impl View for OptionDoc {
    type V = OptionRecord;

    open spec fn view(&self) -> OptionRecord {
        OptionRecord {
            name: self.name@,
            description: text_of(self.description),
            nix_type: self.nix_type@,
            default_value: text_of(self.default_value),
            example: text_of(self.example),
            file_path: self.file_path@,
            line_number: self.line_number as nat,
        }
    }
}

/// A copy of an optional string.
fn copy_text(text: &Option<String>) -> (copy: Option<String>)
    ensures
        text_of(copy) == text_of(*text),
{
    match text {
        Some(found) => Some(found.clone()),
        None => None,
    }
}

impl Clone for OptionDoc {
    fn clone(&self) -> (copy: Self)
        ensures
            copy@ == self@,
    {
        OptionDoc {
            name: self.name.clone(),
            description: copy_text(&self.description),
            nix_type: self.nix_type.clone(),
            default_value: copy_text(&self.default_value),
            example: copy_text(&self.example),
            file_path: self.file_path.clone(),
            line_number: self.line_number,
        }
    }
}

/// The records that a sequence of documented options stands for.
pub open spec fn records_of(docs: Seq<OptionDoc>) -> Seq<OptionRecord> {
    docs.map_values(|doc: OptionDoc| doc@)
}

/// Whether one of `records` has the name `name`.
pub open spec fn has_name(records: Seq<OptionRecord>, name: Seq<char>) -> bool {
    exists|i: int| 0 <= i < records.len() && (#[trigger] records[i]).name == name
}

/// Whether no two of `records` have the same name.
pub open spec fn distinct_names(records: Seq<OptionRecord>) -> bool {
    forall|i: int, j: int|
        0 <= i < j < records.len() ==> (#[trigger] records[i]).name != (#[trigger] records[j]).name
}

/// `records` without those of the name `name`.
pub open spec fn without_name(records: Seq<OptionRecord>, name: Seq<char>) -> Seq<OptionRecord>
    decreases records.len(),
{
    if records.len() == 0 {
        Seq::empty()
    } else if records.last().name == name {
        without_name(records.drop_last(), name)
    } else {
        without_name(records.drop_last(), name).push(records.last())
    }
}

/// `records` after `record` is put in: it takes the place of any record of
/// the same name, and stands last.
pub open spec fn inserted(records: Seq<OptionRecord>, record: OptionRecord) -> Seq<OptionRecord> {
    without_name(records, record.name).push(record)
}

/// `records` after each of `more` is put in, in order.
pub open spec fn merged(records: Seq<OptionRecord>, more: Seq<OptionRecord>) -> Seq<OptionRecord>
    decreases more.len(),
{
    if more.len() == 0 {
        records
    } else {
        inserted(merged(records, more.drop_last()), more.last())
    }
}

/// `records` with, of each name, only the record that comes last.
pub open spec fn last_wins(records: Seq<OptionRecord>) -> Seq<OptionRecord> {
    merged(Seq::empty(), records)
}

/// `records` with, of each name, only the record that comes first.
pub open spec fn first_wins(records: Seq<OptionRecord>) -> Seq<OptionRecord>
    decreases records.len(),
{
    if records.len() == 0 {
        Seq::empty()
    } else {
        let front = first_wins(records.drop_last());
        if has_name(front, records.last().name) {
            front
        } else {
            front.push(records.last())
        }
    }
}


/// Whether the record at position `at` is the last of its name among the
/// first `count` of `records`.
pub open spec fn is_last_of_name(records: Seq<OptionRecord>, at: int, count: int) -> bool {
    &&& 0 <= at < count <= records.len()
    &&& forall|j: int| at < j < count ==> (#[trigger] records[j]).name != records[at].name
}

/// Whether the record at position `at` is the first of its name in `records`.
pub open spec fn is_first_of_name(records: Seq<OptionRecord>, at: int) -> bool {
    &&& 0 <= at < records.len()
    &&& forall|j: int| 0 <= j < at ==> (#[trigger] records[j]).name != records[at].name
}

/// `without_name` keeps exactly the records of another name, and keeps the
/// names distinct; where no record has the name, it keeps all.
pub proof fn lemma_without_name(records: Seq<OptionRecord>, name: Seq<char>)
    ensures
        forall|record: OptionRecord| #[trigger]
            without_name(records, name).contains(record) <==> records.contains(record)
                && record.name != name,
        distinct_names(records) ==> distinct_names(without_name(records, name)),
        !has_name(records, name) ==> without_name(records, name) == records,
        !has_name(without_name(records, name), name),
    decreases records.len(),
{
    let kept = without_name(records, name);
    if records.len() > 0 {
        let front = records.drop_last();
        let last = records.last();
        lemma_without_name(front, name);
        let kept_front = without_name(front, name);
        assert forall|record: OptionRecord| #[trigger]
            kept.contains(record) <==> records.contains(record) && record.name != name by {
            if kept.contains(record) {
                let i = choose|i: int| 0 <= i < kept.len() && kept[i] == record;
                if last.name != name && i == kept.len() - 1 {
                    assert(records[records.len() - 1] == record);
                } else {
                    assert(kept_front[i] == record);
                    assert(kept_front.contains(record));
                    let k = choose|k: int| 0 <= k < front.len() && front[k] == record;
                    assert(records[k] == record);
                }
            }
            if records.contains(record) && record.name != name {
                let k = choose|k: int| 0 <= k < records.len() && records[k] == record;
                if k == records.len() - 1 {
                    assert(kept[kept.len() - 1] == record);
                } else {
                    assert(front[k] == record);
                    assert(kept_front.contains(record));
                    let i = choose|i: int| 0 <= i < kept_front.len() && kept_front[i] == record;
                    assert(kept[i] == record);
                }
            }
        }
        if distinct_names(records) {
            assert(distinct_names(front)) by {
                assert forall|i: int, j: int| 0 <= i < j < front.len() implies (#[trigger] front[i]).name
                    != (#[trigger] front[j]).name by {
                    assert(records[i].name != records[j].name);
                }
            }
            assert forall|i: int, j: int| 0 <= i < j < kept.len() implies (#[trigger] kept[i]).name
                != (#[trigger] kept[j]).name by {
                if last.name != name && j == kept.len() - 1 {
                    assert(kept_front[i] == kept[i]);
                    assert(kept_front.contains(kept[i]));
                    assert(front.contains(kept[i]));
                    let k = choose|k: int| 0 <= k < front.len() && front[k] == kept[i];
                    assert(records[k].name != records[records.len() - 1].name);
                } else {
                    assert(kept_front[i] == kept[i]);
                    assert(kept_front[j] == kept[j]);
                }
            }
        }
        if !has_name(records, name) {
            assert(!has_name(front, name)) by {
                if has_name(front, name) {
                    let k = choose|k: int| 0 <= k < front.len() && (#[trigger] front[k]).name == name;
                    assert(records[k].name == name);
                }
            }
            assert(records[records.len() - 1].name != name);
            assert(kept =~= records);
        }
        assert(!has_name(kept, name)) by {
            if has_name(kept, name) {
                let i = choose|i: int| 0 <= i < kept.len() && (#[trigger] kept[i]).name == name;
                if last.name == name || i < kept.len() - 1 {
                    assert(kept_front[i].name == name);
                }
            }
        }
    }
}

/// Putting records in one after another is putting them in all at once.
pub proof fn lemma_merged_concat(
    records: Seq<OptionRecord>,
    first: Seq<OptionRecord>,
    second: Seq<OptionRecord>,
)
    ensures
        merged(records, first + second) == merged(merged(records, first), second),
    decreases second.len(),
{
    if second.len() == 0 {
        assert(first + second =~= first);
    } else {
        lemma_merged_concat(records, first, second.drop_last());
        assert((first + second).drop_last() =~= first + second.drop_last());
        assert((first + second).last() == second.last());
    }
}

/// Putting one record in is `inserted`.
pub proof fn lemma_merged_one(records: Seq<OptionRecord>, record: OptionRecord)
    ensures
        merged(records, seq![record]) == inserted(records, record),
{
    assert(seq![record].drop_last() =~= Seq::<OptionRecord>::empty());
    assert(merged(records, seq![record].drop_last()) == records);
}

/// Putting records in keeps the names distinct.
pub proof fn lemma_merged_distinct(records: Seq<OptionRecord>, more: Seq<OptionRecord>)
    requires
        distinct_names(records),
    ensures
        distinct_names(merged(records, more)),
    decreases more.len(),
{
    if more.len() > 0 {
        lemma_merged_distinct(records, more.drop_last());
        let before = merged(records, more.drop_last());
        lemma_without_name(before, more.last().name);
        let kept = without_name(before, more.last().name);
        let after = inserted(before, more.last());
        assert forall|i: int, j: int| 0 <= i < j < after.len() implies (#[trigger] after[i]).name != (
        #[trigger] after[j]).name by {
            if j == after.len() - 1 {
                assert(kept[i] == after[i]);
                assert(kept[i].name != more.last().name);
            } else {
                assert(kept[i] == after[i]);
                assert(kept[j] == after[j]);
            }
        }
    }
}

/// Of the records of one name that are declared one after another, exactly
/// one is kept, and it is the last one.
///
/// `last_wins(records)` holds no name twice; it holds each record that is the
/// last of its name in `records`; and it holds nothing else.
pub proof fn lemma_last_wins(records: Seq<OptionRecord>)
    ensures
        distinct_names(last_wins(records)),
        forall|i: int| #[trigger]
            is_last_of_name(records, i, records.len() as int) ==> last_wins(records).contains(
                records[i],
            ),
        forall|record: OptionRecord| #[trigger]
            last_wins(records).contains(record) ==> exists|i: int| #[trigger]
                is_last_of_name(records, i, records.len() as int) && records[i] == record,
    decreases records.len(),
{
    lemma_merged_distinct(Seq::empty(), records);
    if records.len() > 0 {
        let front = records.drop_last();
        let last = records.last();
        let n = records.len() as int;
        lemma_last_wins(front);
        let before = last_wins(front);
        lemma_without_name(before, last.name);
        let kept = without_name(before, last.name);
        let after = last_wins(records);
        assert(after == kept.push(last));
        assert forall|i: int| #[trigger] is_last_of_name(records, i, n) implies after.contains(
            records[i],
        ) by {
            if i == n - 1 {
                assert(after[after.len() - 1] == records[i]);
            } else {
                assert(records[n - 1].name != records[i].name);
                assert(is_last_of_name(front, i, n - 1)) by {
                    assert forall|j: int| i < j < n - 1 implies (#[trigger] front[j]).name
                        != front[i].name by {
                        assert(records[j].name != records[i].name);
                    }
                }
                assert(before.contains(front[i]));
                assert(kept.contains(records[i]));
                let k = choose|k: int| 0 <= k < kept.len() && kept[k] == records[i];
                assert(after[k] == records[i]);
            }
        }
        assert forall|record: OptionRecord| #[trigger] after.contains(record) implies exists|i: int| #[trigger]
            is_last_of_name(records, i, n) && records[i] == record by {
            let k = choose|k: int| 0 <= k < after.len() && after[k] == record;
            if k == after.len() - 1 {
                assert(is_last_of_name(records, n - 1, n));
            } else {
                assert(kept[k] == after[k]);
                assert(kept.contains(after[k]));
                assert(before.contains(after[k]));
                let i = choose|i: int| #[trigger]
                    is_last_of_name(front, i, n - 1) && front[i] == record;
                assert(is_last_of_name(records, i, n)) by {
                    assert forall|j: int| i < j < n implies (#[trigger] records[j]).name
                        != records[i].name by {
                        if j < n - 1 {
                            assert(front[j].name != front[i].name);
                        }
                    }
                }
            }
        }
    }
}

/// Of the records of one name that come from anywhere in a collection,
/// exactly one is kept, and it is the first one.
///
/// `first_wins(records)` holds no name twice; it holds each record that is
/// the first of its name in `records`; and it holds nothing else.
pub proof fn lemma_first_wins(records: Seq<OptionRecord>)
    ensures
        distinct_names(first_wins(records)),
        forall|name: Seq<char>|
            #![trigger has_name(first_wins(records), name)]
            #![trigger has_name(records, name)]
            has_name(first_wins(records), name) <==> has_name(records, name),
        forall|i: int| #[trigger]
            is_first_of_name(records, i) ==> first_wins(records).contains(records[i]),
        forall|record: OptionRecord| #[trigger]
            first_wins(records).contains(record) ==> exists|i: int| #[trigger]
                is_first_of_name(records, i) && records[i] == record,
    decreases records.len(),
{
    if records.len() > 0 {
        let front = records.drop_last();
        let last = records.last();
        let n = records.len() as int;
        lemma_first_wins(front);
        let before = first_wins(front);
        let after = first_wins(records);
        assert forall|name: Seq<char>|
            #![trigger has_name(after, name)]
            #![trigger has_name(records, name)]
            has_name(after, name) <==> has_name(records, name) by {
            if has_name(after, name) {
                let k = choose|k: int| 0 <= k < after.len() && (#[trigger] after[k]).name == name;
                if k < before.len() {
                    assert(before[k].name == name);
                    assert(has_name(before, name));
                    let i = choose|i: int| 0 <= i < front.len() && (#[trigger] front[i]).name == name;
                    assert(records[i].name == name);
                } else {
                    assert(records[n - 1].name == name);
                }
            }
            if has_name(records, name) {
                let i = choose|i: int| 0 <= i < records.len() && (#[trigger] records[i]).name == name;
                if i < n - 1 {
                    assert(front[i].name == name);
                    assert(has_name(before, name));
                    let k = choose|k: int| 0 <= k < before.len() && (#[trigger] before[k]).name == name;
                    assert(after[k].name == name);
                } else if has_name(before, name) {
                    let k = choose|k: int| 0 <= k < before.len() && (#[trigger] before[k]).name == name;
                    assert(after[k].name == name);
                } else {
                    assert(after[after.len() - 1].name == name);
                }
            }
        }
        assert(distinct_names(after)) by {
            assert forall|i: int, j: int| 0 <= i < j < after.len() implies (#[trigger] after[i]).name
                != (#[trigger] after[j]).name by {
                if j < before.len() {
                    assert(before[i].name != before[j].name);
                } else {
                    assert(before[i] == after[i]);
                }
            }
        }
        assert forall|i: int| #[trigger] is_first_of_name(records, i) implies after.contains(
            records[i],
        ) by {
            if i < n - 1 {
                assert(is_first_of_name(front, i)) by {
                    assert forall|j: int| 0 <= j < i implies (#[trigger] front[j]).name
                        != front[i].name by {
                        assert(records[j].name != records[i].name);
                    }
                }
                assert(before.contains(front[i]));
                let k = choose|k: int| 0 <= k < before.len() && before[k] == front[i];
                assert(after[k] == records[i]);
            } else {
                assert(!has_name(front, last.name)) by {
                    if has_name(front, last.name) {
                        let j = choose|j: int|
                            0 <= j < front.len() && (#[trigger] front[j]).name == last.name;
                        assert(records[j].name == records[i].name);
                    }
                }
                assert(after[after.len() - 1] == records[i]);
            }
        }
        assert forall|record: OptionRecord| #[trigger] after.contains(record) implies exists|i: int| #[trigger]
            is_first_of_name(records, i) && records[i] == record by {
            let k = choose|k: int| 0 <= k < after.len() && after[k] == record;
            if k < before.len() {
                assert(before[k] == after[k]);
                assert(before.contains(record));
                let i = choose|i: int| #[trigger] is_first_of_name(front, i) && front[i] == record;
                assert(is_first_of_name(records, i)) by {
                    assert forall|j: int| 0 <= j < i implies (#[trigger] records[j]).name
                        != records[i].name by {
                        assert(front[j].name != front[i].name);
                    }
                }
            } else {
                assert(is_first_of_name(records, n - 1)) by {
                    assert forall|j: int| 0 <= j < n - 1 implies (#[trigger] records[j]).name
                        != records[n - 1].name by {
                        if records[j].name == last.name {
                            assert(front[j].name == last.name);
                            assert(has_name(front, last.name));
                        }
                    }
                }
            }
        }
    }
}

/// A copy of `docs`.
pub fn copy_docs(docs: &[OptionDoc]) -> (copies: Vec<OptionDoc>)
    ensures
        records_of(copies@) == records_of(docs@),
{
    let mut copies: Vec<OptionDoc> = Vec::new();
    let mut i: usize = 0;
    while i < docs.len()
        invariant
            i <= docs.len(),
            records_of(copies@) == records_of(docs@).take(i as int),
        decreases docs.len() - i,
    {
        let ghost before = records_of(copies@);
        let copy = docs[i].clone();
        copies.push(copy);
        assert(records_of(copies@) =~= before.push(copy@));
        i += 1;
    }
    assert(records_of(docs@).take(docs.len() as int) =~= records_of(docs@));
    copies
}

/// Whether one of `docs` has the name `name`.
pub fn holds_name(docs: &Vec<OptionDoc>, name: &str) -> (held: bool)
    ensures
        held == has_name(records_of(docs@), name@),
{
    let mut i: usize = 0;
    while i < docs.len()
        invariant
            i <= docs.len(),
            forall|j: int| 0 <= j < i ==> (#[trigger] records_of(docs@)[j]).name != name@,
        decreases docs.len() - i,
    {
        if same_text(docs[i].name.as_str(), name) {
            assert(records_of(docs@)[i as int].name == name@);
            return true;
        }
        i += 1;
    }
    false
}

/// Puts `doc` into `docs`: it takes the place of any record of the same
/// name, and stands last.
pub fn insert_record(docs: &mut Vec<OptionDoc>, doc: OptionDoc)
    ensures
        records_of(final(docs)@) == inserted(records_of(old(docs)@), doc@),
{
    let ghost before = records_of(docs@);
    if holds_name(docs, doc.name.as_str()) {
        let mut kept: Vec<OptionDoc> = Vec::new();
        let mut i: usize = 0;
        while i < docs.len()
            invariant
                i <= docs.len(),
                records_of(docs@) == before,
                records_of(kept@) == without_name(before.take(i as int), doc@.name),
            decreases docs.len() - i,
        {
            proof {
                assert(before.take(i + 1).drop_last() =~= before.take(i as int));
            }
            if !same_text(docs[i].name.as_str(), doc.name.as_str()) {
                let copy = docs[i].clone();
                kept.push(copy);
                assert(records_of(kept@) =~= without_name(before.take(i as int), doc@.name).push(
                    docs@[i as int]@,
                ));
            }
            i += 1;
        }
        assert(before.take(docs.len() as int) =~= before);
        kept.push(doc);
        *docs = kept;
    } else {
        proof {
            lemma_without_name(before, doc@.name);
        }
        docs.push(doc);
    }
}

/// Keeps of each name only the record that comes first.
pub fn keep_first(docs: Vec<OptionDoc>) -> (kept: Vec<OptionDoc>)
    ensures
        records_of(kept@) == first_wins(records_of(docs@)),
{
    let ghost all = records_of(docs@);
    let mut kept: Vec<OptionDoc> = Vec::new();
    let mut i: usize = 0;
    while i < docs.len()
        invariant
            i <= docs.len(),
            all == records_of(docs@),
            records_of(kept@) == first_wins(all.take(i as int)),
        decreases docs.len() - i,
    {
        proof {
            assert(all.take(i + 1).drop_last() =~= all.take(i as int));
        }
        if !holds_name(&kept, docs[i].name.as_str()) {
            let copy = docs[i].clone();
            kept.push(copy);
        }
        i += 1;
    }
    assert(all.take(docs.len() as int) =~= all);
    kept
}

} // verus!
