use vstd::prelude::*;

verus! {

/// A dynamically typed value of a contract event's field record.
#[derive(Debug, PartialEq, Eq)]
pub enum MoveValue {
    Number(u64),
    Bool(bool),
    /// An address, in its textual form (`0x...`).
    Address(String),
    String(String),
    /// An object id, in its textual form.
    Uid(String),
    Vector(Vec<MoveValue>),
    Struct(MoveStruct),
    Optional(Option<Box<MoveValue>>),
}

/// A structured value: positional, or named fields with or without the
/// struct's type.
#[derive(Debug, PartialEq, Eq)]
pub enum MoveStruct {
    Runtime(Vec<MoveValue>),
    WithTypes { struct_type: String, fields: FieldRecord },
    WithFields(FieldRecord),
}

/// One named field of a record.
#[derive(Debug, PartialEq, Eq)]
pub struct Field {
    pub name: String,
    pub value: MoveValue,
}

/// A record of named fields. A record read from the feed has unique names
/// (see [`names_unique`]); should a name occur more than once, the first
/// entry counts.
#[derive(Debug, PartialEq, Eq)]
pub struct FieldRecord {
    pub entries: Vec<Field>,
}

/// One raw event as the feed delivers it.
#[derive(Debug, PartialEq, Eq)]
pub enum Envelope {
    /// An event emitted by a contract: its sender's address, its fully
    /// qualified type tag and its field record, if any.
    MoveEvent { sender: String, type_tag: String, fields: Option<MoveStruct> },
    /// Any other kind of chain event, by its event type.
    Other { event_type: String },
}

/// The value of the first entry named `name`, if any.
pub open spec fn lookup(entries: Seq<Field>, name: Seq<char>) -> Option<MoveValue>
    decreases entries.len(),
{
    if entries.len() == 0 {
        None
    } else if entries[0].name@ == name {
        Some(entries[0].value)
    } else {
        lookup(entries.drop_first(), name)
    }
}

/// The value of the field named `name` in a record, if any.
pub open spec fn field_of(rec: FieldRecord, name: Seq<char>) -> Option<MoveValue> {
    lookup(rec.entries@, name)
}

/// No two entries of the record share a name, as in a record read from a map.
pub open spec fn names_unique(rec: FieldRecord) -> bool {
    forall|i: int, j: int|
        0 <= i < rec.entries@.len() && 0 <= j < rec.entries@.len() && i != j
            ==> rec.entries@[i].name@ != rec.entries@[j].name@
}

/// Where names are unique, a record reads as a map: the field named by an
/// entry is that entry's value, and a name that no entry holds has no field.
pub proof fn lemma_field_of_unique(rec: FieldRecord, name: Seq<char>)
    requires
        names_unique(rec),
    ensures
        forall|i: int|
            0 <= i < rec.entries@.len() && rec.entries@[i].name@ == name ==> field_of(rec, name)
                == Some(#[trigger] rec.entries@[i].value),
        (forall|i: int| 0 <= i < rec.entries@.len() ==> #[trigger] rec.entries@[i].name@ != name)
            ==> field_of(rec, name) is None,
{
    lemma_lookup_first(rec.entries@, name);
}

/// `lookup` yields the value of the first entry with the name, and none where
/// no entry has it.
pub proof fn lemma_lookup_first(entries: Seq<Field>, name: Seq<char>)
    ensures
        forall|i: int|
            0 <= i < entries.len() && entries[i].name@ == name && (forall|j: int|
                0 <= j < i ==> entries[j].name@ != name) ==> lookup(entries, name) == Some(
                #[trigger] entries[i].value,
            ),
        (forall|i: int| 0 <= i < entries.len() ==> #[trigger] entries[i].name@ != name) ==> lookup(
            entries,
            name,
        ) is None,
    decreases entries.len(),
{
    if entries.len() > 0 {
        let rest = entries.drop_first();
        lemma_lookup_first(rest, name);
        assert forall|i: int|
            0 <= i < entries.len() && entries[i].name@ == name && (forall|j: int|
                0 <= j < i ==> entries[j].name@ != name) implies lookup(entries, name) == Some(
            #[trigger] entries[i].value,
        ) by {
            if i > 0 {
                assert(entries[0].name@ != name);
                assert(rest[i - 1] == entries[i]);
                assert forall|j: int| 0 <= j < i - 1 implies rest[j].name@ != name by {
                    assert(rest[j] == entries[j + 1]);
                }
            }
        }
        if forall|i: int| 0 <= i < entries.len() ==> #[trigger] entries[i].name@ != name {
            assert(entries[0].name@ != name);
            assert forall|i: int| 0 <= i < rest.len() implies #[trigger] rest[i].name@ != name by {
                assert(rest[i] == entries[i + 1]);
            }
        }
    }
}

impl FieldRecord {
    /// Position of the entry that `field_of` reads for `name`.
    pub fn find(&self, name: &String) -> (r: Option<usize>)
        ensures
            match r {
                Some(i) => i < self.entries@.len() && field_of(*self, name@) == Some(
                    self.entries@[i as int].value,
                ),
                None => field_of(*self, name@) is None,
            },
    {
        let mut i: usize = 0;
        assert(self.entries@.subrange(0, self.entries@.len() as int) =~= self.entries@);
        while i < self.entries.len()
            invariant
                i <= self.entries@.len(),
                lookup(self.entries@.subrange(i as int, self.entries@.len() as int), name@)
                    == field_of(*self, name@),
            decreases self.entries@.len() - i,
        {
            let ghost rest = self.entries@.subrange(i as int, self.entries@.len() as int);
            assert(rest.drop_first() =~= self.entries@.subrange(i + 1, self.entries@.len() as int));
            if self.entries[i].name == *name {
                return Some(i);
            }
            i = i + 1;
        }
        None
    }
}

} // verus!
