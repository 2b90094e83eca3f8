use vstd::prelude::*;

use crate::envelope::{field_of, Envelope, FieldRecord, MoveStruct, MoveValue};
use crate::errors::{Error, ErrorV};
use crate::model::{traits_view, Item, Nft, NftV, Trait, TraitV};

verus! {

/// A decoded contract event.
#[derive(Debug, PartialEq, Eq)]
pub enum Event {
    /// A new entity was minted.
    Nft(Nft),
    /// An item became attached to a lemon.
    ItemAdded(Item),
    /// An item became detached from a lemon.
    ItemRemoved(Item),
}

/// What an [`Item`] holds.
pub struct ItemV {
    pub lemon_id: Seq<char>,
    pub item_id: Seq<char>,
}

/// What an [`Event`] holds.
pub enum EventV {
    Created(NftV),
    ItemAdded(ItemV),
    ItemRemoved(ItemV),
}

impl View for Item {
    type V = ItemV;

    open spec fn view(&self) -> ItemV {
        ItemV { lemon_id: self.lemon_id@, item_id: self.item_id@ }
    }
}

impl View for Event {
    type V = EventV;

    open spec fn view(&self) -> EventV {
        match self {
            Event::Nft(n) => EventV::Created(n@),
            Event::ItemAdded(i) => EventV::ItemAdded(i@),
            Event::ItemRemoved(i) => EventV::ItemRemoved(i@),
        }
    }
}

/// What a decoding result holds.
pub open spec fn decoded_view(r: Result<Event, Error>) -> Result<EventV, ErrorV> {
    match r {
        Ok(e) => Ok(e@),
        Err(e) => Err(e@),
    }
}

/// Start of the last `::` that ends at or before `end`, or -1 where there is none.
pub open spec fn last_sep(tag: Seq<char>, end: int) -> int
    decreases end,
{
    if end < 2 {
        -1
    } else if tag[end - 2] == ':' && tag[end - 1] == ':' {
        end - 2
    } else {
        last_sep(tag, end - 1)
    }
}

/// The last segment of a fully qualified type tag: what follows its last
/// `::`. A tag without `::` has none.
pub open spec fn type_suffix(tag: Seq<char>) -> Option<Seq<char>> {
    let p = last_sep(tag, tag.len() as int);
    if p < 0 {
        None
    } else {
        Some(tag.subrange(p + 2, tag.len() as int))
    }
}

/// The trait that a record with string fields `name` and `flavour` yields.
pub open spec fn trait_of_record(fields: FieldRecord) -> Option<TraitV> {
    match field_of(fields, "name"@) {
        Some(MoveValue::String(name)) => match field_of(fields, "flavour"@) {
            Some(MoveValue::String(flavour)) => Some(TraitV { name: name@, flavour: flavour@ }),
            _ => None,
        },
        _ => None,
    }
}

/// The trait that one element of a `traits` vector yields: a typed struct
/// (the form in which the feed delivers the elements of a vector of structs)
/// whose `name` and `flavour` fields are strings. Any other element, an
/// untyped record included, yields none.
pub open spec fn trait_of(v: MoveValue) -> Option<TraitV> {
    match v {
        MoveValue::Struct(MoveStruct::WithTypes { fields, .. }) => trait_of_record(fields),
        _ => None,
    }
}

/// The traits that a `traits` vector yields, in order, skipping the elements
/// of another shape.
pub open spec fn traits_of(vs: Seq<MoveValue>) -> Seq<TraitV>
    decreases vs.len(),
{
    if vs.len() == 0 {
        Seq::empty()
    } else {
        let init = traits_of(vs.drop_last());
        match trait_of(vs.last()) {
            Some(t) => init.push(t),
            None => init,
        }
    }
}

/// Decoding of a creation event's record, for an entity of the given kind
/// owned by the event's sender and stamped with `now`.
pub open spec fn created_spec(rec: FieldRecord, owner: Seq<char>, kind: Seq<char>, now: i64) -> Result<
    EventV,
    ErrorV,
> {
    match field_of(rec, "id"@) {
        None => Err(ErrorV::MissingField("id"@)),
        Some(MoveValue::Address(id)) => match field_of(rec, "url"@) {
            None => Err(ErrorV::MissingField("url"@)),
            Some(MoveValue::String(url)) => match field_of(rec, "traits"@) {
                None => Err(ErrorV::MissingField("traits"@)),
                Some(MoveValue::Vector(vs)) => Ok(
                    EventV::Created(
                        NftV {
                            id: id@,
                            kind,
                            owner,
                            url: url@,
                            traits: traits_of(vs@),
                            items: Seq::empty(),
                            created_at: now,
                            attached_to: None,
                        },
                    ),
                ),
                Some(_) => Err(ErrorV::WrongFieldType("traits"@)),
            },
            Some(_) => Err(ErrorV::WrongFieldType("url"@)),
        },
        Some(_) => Err(ErrorV::WrongFieldType("id"@)),
    }
}

/// Decoding of an attach or detach event's record: both ids must be strings.
pub open spec fn link_spec(rec: FieldRecord) -> Result<ItemV, ErrorV> {
    match field_of(rec, "lemon_id"@) {
        Some(MoveValue::String(lemon_id)) => match field_of(rec, "item_id"@) {
            Some(MoveValue::String(item_id)) => Ok(ItemV { lemon_id: lemon_id@, item_id: item_id@ }),
            _ => Err(ErrorV::WrongEventFieldName("item_id"@)),
        },
        _ => Err(ErrorV::WrongEventFieldName("lemon_id"@)),
    }
}

/// Decoding of a whole envelope, with `now` as the creation time of a new entity.
pub open spec fn decode_spec(e: Envelope, now: i64) -> Result<EventV, ErrorV> {
    match e {
        Envelope::Other { event_type } => Err(ErrorV::UnsupportedSuiEvent(event_type@)),
        Envelope::MoveEvent { sender, type_tag, fields } => match fields {
            Some(MoveStruct::WithFields(rec)) => match type_suffix(type_tag@) {
                None => Err(ErrorV::EventTypeSplit),
                Some(s) => if s == "LemonCreated"@ {
                    created_spec(rec, sender@, "lemon"@, now)
                } else if s == "ItemCreated"@ {
                    created_spec(rec, sender@, "item"@, now)
                } else if s == "ItemAdded"@ {
                    match link_spec(rec) {
                        Ok(i) => Ok(EventV::ItemAdded(i)),
                        Err(e) => Err(e),
                    }
                } else if s == "ItemRemoved"@ {
                    match link_spec(rec) {
                        Ok(i) => Ok(EventV::ItemRemoved(i)),
                        Err(e) => Err(e),
                    }
                } else {
                    Err(ErrorV::UnsupportedEventType(s))
                },
            },
            _ => Err(ErrorV::EventWithoutFields),
        },
    }
}

/// The last segment of a type tag, after its last `::`.
pub fn split_type_tag(tag: &String) -> (r: Option<String>)
    ensures
        match r {
            Some(s) => type_suffix(tag@) == Some(s@),
            None => type_suffix(tag@) is None,
        },
{
    let t = tag.as_str();
    let n = t.unicode_len();
    let mut end: usize = n;
    while end >= 2
        invariant
            end <= n,
            n == tag@.len(),
            t@ == tag@,
            last_sep(tag@, n as int) == last_sep(tag@, end as int),
        decreases end,
    {
        if t.get_char(end - 2) == ':' && t.get_char(end - 1) == ':' {
            return Some(String::from_str(t.substring_char(end, n)));
        }
        end = end - 1;
    }
    None
}

/// The trait that a record with string fields `name` and `flavour` yields, if any.
fn parse_trait_record(fields: &FieldRecord) -> (r: Option<Trait>)
    ensures
        match r {
            Some(t) => trait_of_record(*fields) == Some(t@),
            None => trait_of_record(*fields) is None,
        },
{
    let name = match fields.find(&String::from_str("name")) {
        Some(i) => match &fields.entries[i].value {
            MoveValue::String(s) => s.clone(),
            _ => return None,
        },
        None => return None,
    };
    let flavour = match fields.find(&String::from_str("flavour")) {
        Some(i) => match &fields.entries[i].value {
            MoveValue::String(s) => s.clone(),
            _ => return None,
        },
        None => return None,
    };
    Some(Trait { name, flavour })
}

/// The trait that one element of a `traits` vector yields, if any.
fn parse_trait(v: &MoveValue) -> (r: Option<Trait>)
    ensures
        match r {
            Some(t) => trait_of(*v) == Some(t@),
            None => trait_of(*v) is None,
        },
{
    match v {
        MoveValue::Struct(MoveStruct::WithTypes { fields, .. }) => parse_trait_record(fields),
        _ => None,
    }
}

/// The traits of a `traits` vector, in order; elements of another shape are skipped.
pub fn parse_traits(values: &Vec<MoveValue>) -> (r: Vec<Trait>)
    ensures
        traits_view(r@) == traits_of(values@),
{
    let mut r: Vec<Trait> = Vec::new();
    let mut i: usize = 0;
    while i < values.len()
        invariant
            i <= values@.len(),
            traits_view(r@) == traits_of(values@.subrange(0, i as int)),
        decreases values@.len() - i,
    {
        let ghost before = r@;
        let t = parse_trait(&values[i]);
        proof {
            assert(values@.subrange(0, i + 1).drop_last() =~= values@.subrange(0, i as int));
        }
        match t {
            Some(t) => {
                r.push(t);
                assert(traits_view(r@) =~= traits_view(before).push(t@));
            },
            None => {},
        }
        i = i + 1;
    }
    assert(values@.subrange(0, values@.len() as int) =~= values@);
    r
}

/// Decodes a creation event's record into a new entity of the given kind,
/// owned by `sender` and stamped with `now`.
pub fn parse_event_nft_created(fields: &FieldRecord, sender: &String, kind: &str, now: i64) -> (r:
    Result<Event, Error>)
    ensures
        decoded_view(r) == created_spec(*fields, sender@, kind@, now),
{
    let id_name = String::from_str("id");
    let id = match fields.find(&id_name) {
        None => return Err(Error::MissingField(id_name)),
        Some(i) => match &fields.entries[i].value {
            MoveValue::Address(a) => a.clone(),
            _ => return Err(Error::WrongFieldType(id_name)),
        },
    };
    let url_name = String::from_str("url");
    let url = match fields.find(&url_name) {
        None => return Err(Error::MissingField(url_name)),
        Some(i) => match &fields.entries[i].value {
            MoveValue::String(s) => s.clone(),
            _ => return Err(Error::WrongFieldType(url_name)),
        },
    };
    let traits_name = String::from_str("traits");
    let traits = match fields.find(&traits_name) {
        None => return Err(Error::MissingField(traits_name)),
        Some(i) => match &fields.entries[i].value {
            MoveValue::Vector(vs) => parse_traits(vs),
            _ => return Err(Error::WrongFieldType(traits_name)),
        },
    };
    let nft = Nft {
        id,
        kind: String::from_str(kind),
        owner: sender.clone(),
        url,
        traits,
        items: Vec::new(),
        created_at: now,
        attached_to: None,
    };
    proof {
        assert(nft.items@ =~= Seq::<Nft>::empty());
        assert(nft@.items =~= Seq::<NftV>::empty());
    }
    Ok(Event::Nft(nft))
}

/// Decodes the two ids of an attach or detach event's record.
pub fn parse_item(fields: &FieldRecord) -> (r: Result<Item, Error>)
    ensures
        match r {
            Ok(i) => link_spec(*fields) == Ok::<ItemV, ErrorV>(i@),
            Err(e) => link_spec(*fields) == Err::<ItemV, ErrorV>(e@),
        },
{
    let lemon_name = String::from_str("lemon_id");
    let lemon_id = match fields.find(&lemon_name) {
        Some(i) => match &fields.entries[i].value {
            MoveValue::String(s) => s.clone(),
            _ => return Err(Error::WrongEventFieldName(lemon_name)),
        },
        None => return Err(Error::WrongEventFieldName(lemon_name)),
    };
    let item_name = String::from_str("item_id");
    let item_id = match fields.find(&item_name) {
        Some(i) => match &fields.entries[i].value {
            MoveValue::String(s) => s.clone(),
            _ => return Err(Error::WrongEventFieldName(item_name)),
        },
        None => return Err(Error::WrongEventFieldName(item_name)),
    };
    Ok(Item { lemon_id, item_id })
}

impl Event {
    /// Decodes one envelope; a new entity gets `now` as its creation time.
    pub fn decode(envelope: &Envelope, now: i64) -> (r: Result<Event, Error>)
        ensures
            decoded_view(r) == decode_spec(*envelope, now),
    {
        match envelope {
            Envelope::Other { event_type } => Err(Error::UnsupportedSuiEvent(event_type.clone())),
            Envelope::MoveEvent { sender, type_tag, fields } => {
                let rec = match fields {
                    Some(MoveStruct::WithFields(rec)) => rec,
                    _ => return Err(Error::EventWithoutFields),
                };
                let suffix = match split_type_tag(type_tag) {
                    Some(s) => s,
                    None => return Err(Error::EventTypeSplit),
                };
                if suffix == String::from_str("LemonCreated") {
                    parse_event_nft_created(rec, sender, "lemon", now)
                } else if suffix == String::from_str("ItemCreated") {
                    parse_event_nft_created(rec, sender, "item", now)
                } else if suffix == String::from_str("ItemAdded") {
                    match parse_item(rec) {
                        Ok(i) => Ok(Event::ItemAdded(i)),
                        Err(e) => Err(e),
                    }
                } else if suffix == String::from_str("ItemRemoved") {
                    match parse_item(rec) {
                        Ok(i) => Ok(Event::ItemRemoved(i)),
                        Err(e) => Err(e),
                    }
                } else {
                    Err(Error::UnsupportedEventType(suffix))
                }
            },
        }
    }
}

} // verus!
