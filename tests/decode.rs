use battlemon::envelope::{Envelope, Field, FieldRecord, MoveStruct, MoveValue};
use battlemon::errors::Error;
use battlemon::events::{split_type_tag, Event};
use battlemon::model::{Item, Nft, Trait};
use battlemon::mutation::{build_query, InsertNftMutationArguments, MutationRequest};
use battlemon::store::NftStore;

fn s(x: &str) -> String {
    x.to_string()
}

fn field(name: &str, value: MoveValue) -> Field {
    Field { name: s(name), value }
}

fn trait_value(name: &str, flavour: &str) -> MoveValue {
    MoveValue::Struct(MoveStruct::WithTypes {
        struct_type: s("0x2::lemon::Trait"),
        fields: FieldRecord {
            entries: vec![
                field("name", MoveValue::String(s(name))),
                field("flavour", MoveValue::String(s(flavour))),
            ],
        },
    })
}

fn event(tag: &str, sender: &str, entries: Vec<Field>) -> Envelope {
    Envelope::MoveEvent {
        sender: s(sender),
        type_tag: s(tag),
        fields: Some(MoveStruct::WithFields(FieldRecord { entries })),
    }
}

fn lemon_fields() -> Vec<Field> {
    vec![
        field("id", MoveValue::Address(s("0x1"))),
        field("url", MoveValue::String(s("http://x"))),
        field("traits", MoveValue::Vector(vec![])),
    ]
}

#[test]
fn lemon_created_scenario() {
    let env = event("0x5::lemon::LemonCreated", "0xA", lemon_fields());
    let decoded = Event::decode(&env, 1_700_000_000_000).unwrap();
    let expected = Nft {
        id: s("0x1"),
        kind: s("lemon"),
        owner: s("0xA"),
        url: s("http://x"),
        traits: vec![],
        items: vec![],
        created_at: 1_700_000_000_000,
        attached_to: None,
    };
    assert_eq!(decoded, Event::Nft(expected.snapshot()));
    let request = build_query(decoded);
    assert_eq!(
        request,
        MutationRequest::InsertNft(InsertNftMutationArguments { nft: expected.snapshot() })
    );
    let mut store = NftStore::new();
    assert!(store.apply(request).is_ok());
    assert_eq!(store.len(), 1);
    assert_eq!(store.nft(&s("0x1")), Some(expected));
}

#[test]
fn item_created_has_item_kind() {
    let env = event("0x5::item::ItemCreated", "0xB", lemon_fields());
    match Event::decode(&env, 7).unwrap() {
        Event::Nft(n) => {
            assert_eq!(n.kind, "item");
            assert_eq!(n.owner, "0xB");
            assert_eq!(n.created_at, 7);
        }
        other => panic!("unexpected {:?}", other),
    }
}

#[test]
fn missing_url_is_reported() {
    let env = event(
        "0x5::lemon::LemonCreated",
        "0xA",
        vec![
            field("id", MoveValue::Address(s("0x1"))),
            field("traits", MoveValue::Vector(vec![])),
        ],
    );
    assert_eq!(Event::decode(&env, 0), Err(Error::MissingField(s("url"))));
}

#[test]
fn missing_url_produces_no_mutation() {
    let env = event(
        "0x5::lemon::LemonCreated",
        "0xA",
        vec![field("id", MoveValue::Address(s("0x1")))],
    );
    let mut store = NftStore::new();
    if let Ok(ev) = Event::decode(&env, 0) {
        store.apply(build_query(ev)).unwrap();
    }
    assert_eq!(store.len(), 0);
}

#[test]
fn wrong_field_shapes_are_reported() {
    let env = event(
        "0x5::lemon::LemonCreated",
        "0xA",
        vec![
            field("id", MoveValue::String(s("0x1"))),
            field("url", MoveValue::String(s("http://x"))),
            field("traits", MoveValue::Vector(vec![])),
        ],
    );
    assert_eq!(Event::decode(&env, 0), Err(Error::WrongFieldType(s("id"))));
    let env = event(
        "0x5::lemon::LemonCreated",
        "0xA",
        vec![
            field("id", MoveValue::Address(s("0x1"))),
            field("url", MoveValue::String(s("http://x"))),
            field("traits", MoveValue::Number(3)),
        ],
    );
    assert_eq!(Event::decode(&env, 0), Err(Error::WrongFieldType(s("traits"))));
    let env = event(
        "0x5::lemon::LemonCreated",
        "0xA",
        vec![field("id", MoveValue::Address(s("0x1"))), field("url", MoveValue::Bool(true))],
    );
    assert_eq!(Event::decode(&env, 0), Err(Error::WrongFieldType(s("url"))));
}

#[test]
fn missing_id_is_reported_first() {
    let env = event("0x5::lemon::LemonCreated", "0xA", vec![]);
    assert_eq!(Event::decode(&env, 0), Err(Error::MissingField(s("id"))));
}

#[test]
fn unknown_event_type_is_reported() {
    let env = event("0x5::lemon::SomethingElse", "0xA", lemon_fields());
    assert_eq!(
        Event::decode(&env, 0),
        Err(Error::UnsupportedEventType(s("SomethingElse")))
    );
}

#[test]
fn tag_without_separator_is_reported() {
    let env = event("LemonCreated", "0xA", lemon_fields());
    assert_eq!(Event::decode(&env, 0), Err(Error::EventTypeSplit));
}

#[test]
fn event_without_fields_is_reported() {
    let env = Envelope::MoveEvent {
        sender: s("0xA"),
        type_tag: s("0x5::lemon::LemonCreated"),
        fields: None,
    };
    assert_eq!(Event::decode(&env, 0), Err(Error::EventWithoutFields));
    let env = Envelope::MoveEvent {
        sender: s("0xA"),
        type_tag: s("0x5::lemon::LemonCreated"),
        fields: Some(MoveStruct::Runtime(vec![])),
    };
    assert_eq!(Event::decode(&env, 0), Err(Error::EventWithoutFields));
}

#[test]
fn other_chain_events_are_unsupported() {
    let env = Envelope::Other { event_type: s("Publish") };
    assert_eq!(Event::decode(&env, 0), Err(Error::UnsupportedSuiEvent(s("Publish"))));
}

#[test]
fn traits_are_parsed_in_order_and_malformed_ones_skipped() {
    let bad_flavour = MoveValue::Struct(MoveStruct::WithTypes {
        struct_type: s("T"),
        fields: FieldRecord { entries: vec![field("name", MoveValue::String(s("eyes")))] },
    });
    let untyped = MoveValue::Struct(MoveStruct::WithFields(FieldRecord {
        entries: vec![
            field("name", MoveValue::String(s("cap"))),
            field("flavour", MoveValue::String(s("red"))),
        ],
    }));
    let positional = MoveValue::Struct(MoveStruct::Runtime(vec![
        MoveValue::String(s("x")),
        MoveValue::String(s("y")),
    ]));
    let env = event(
        "0x5::lemon::LemonCreated",
        "0xA",
        vec![
            field("id", MoveValue::Address(s("0x1"))),
            field("url", MoveValue::String(s("http://x"))),
            field(
                "traits",
                MoveValue::Vector(vec![
                    trait_value("hat", "blue"),
                    bad_flavour,
                    MoveValue::Number(1),
                    untyped,
                    positional,
                    trait_value("body", "sour"),
                ]),
            ),
        ],
    );
    match Event::decode(&env, 0).unwrap() {
        Event::Nft(n) => assert_eq!(
            n.traits,
            vec![
                Trait { name: s("hat"), flavour: s("blue") },
                Trait { name: s("body"), flavour: s("sour") },
            ]
        ),
        other => panic!("unexpected {:?}", other),
    }
}

#[test]
fn first_entry_of_a_name_counts() {
    let env = event(
        "0x5::lemon::LemonCreated",
        "0xA",
        vec![
            field("id", MoveValue::Address(s("0x1"))),
            field("id", MoveValue::Address(s("0x9"))),
            field("url", MoveValue::String(s("u"))),
            field("traits", MoveValue::Vector(vec![])),
        ],
    );
    match Event::decode(&env, 0).unwrap() {
        Event::Nft(n) => assert_eq!(n.id, "0x1"),
        other => panic!("unexpected {:?}", other),
    }
}

#[test]
fn item_added_and_removed_are_decoded() {
    let link = || {
        vec![
            field("lemon_id", MoveValue::String(s("0x1"))),
            field("item_id", MoveValue::String(s("0x2"))),
        ]
    };
    let item = Item { lemon_id: s("0x1"), item_id: s("0x2") };
    let env = event("0x5::lemon::ItemAdded", "0xA", link());
    assert_eq!(Event::decode(&env, 0), Ok(Event::ItemAdded(item.clone())));
    let env = event("0x5::lemon::ItemRemoved", "0xA", link());
    assert_eq!(Event::decode(&env, 0), Ok(Event::ItemRemoved(item)));
}

#[test]
fn link_events_need_string_ids() {
    let env = event(
        "0x5::lemon::ItemAdded",
        "0xA",
        vec![field("item_id", MoveValue::String(s("0x2")))],
    );
    assert_eq!(Event::decode(&env, 0), Err(Error::WrongEventFieldName(s("lemon_id"))));
    let env = event(
        "0x5::lemon::ItemRemoved",
        "0xA",
        vec![
            field("lemon_id", MoveValue::String(s("0x1"))),
            field("item_id", MoveValue::Address(s("0x2"))),
        ],
    );
    assert_eq!(Event::decode(&env, 0), Err(Error::WrongEventFieldName(s("item_id"))));
}

#[test]
fn type_tag_suffix_is_the_last_segment() {
    assert_eq!(split_type_tag(&s("0x5::lemon::LemonCreated")), Some(s("LemonCreated")));
    assert_eq!(split_type_tag(&s("a::")), Some(s("")));
    assert_eq!(split_type_tag(&s("a:::b")), Some(s("b")));
    assert_eq!(split_type_tag(&s("a:b")), None);
    assert_eq!(split_type_tag(&s("")), None);
}
