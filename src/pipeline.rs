use vstd::prelude::*;

use crate::envelope::{field_of, Envelope, FieldRecord, MoveStruct, MoveValue};
use crate::errors::{Error, ErrorV};
use crate::events::{decode_spec, traits_of, type_suffix, Event};
use crate::model::NftV;
use crate::mutation::{build_query, build_spec, MutationRequest, MutationV};
use crate::store::{apply_spec, lemma_pos_push, pos};

verus! {

/// The propagation loop's state: it runs until the feed ends.
#[derive(Debug, Clone, Copy, PartialEq, Eq)]
pub enum LoopState {
    Running,
    Terminated,
}

/// What the loop does next.
#[derive(Debug, PartialEq, Eq)]
pub enum Action {
    /// Send this request to the store.
    Submit(MutationRequest),
    /// Report this decoding failure and drop the envelope.
    Drop(Error),
    /// The feed has ended: stop loudly.
    Halt,
}

/// What an [`Action`] holds.
pub enum ActionV {
    Submit(MutationV),
    Drop(ErrorV),
    Halt,
}

impl View for Action {
    type V = ActionV;

    open spec fn view(&self) -> ActionV {
        match self {
            Action::Submit(m) => ActionV::Submit(m@),
            Action::Drop(e) => ActionV::Drop(e@),
            Action::Halt => ActionV::Halt,
        }
    }
}

/// One transition: the next item of the feed (`None` once it has ended),
/// decoded with `now` as the creation time.
pub open spec fn step_spec(state: LoopState, next: Option<Envelope>, now: i64) -> (LoopState, ActionV) {
    match state {
        LoopState::Terminated => (LoopState::Terminated, ActionV::Halt),
        LoopState::Running => match next {
            None => (LoopState::Terminated, ActionV::Halt),
            Some(e) => match decode_spec(e, now) {
                Ok(ev) => (LoopState::Running, ActionV::Submit(build_spec(ev))),
                Err(err) => (LoopState::Running, ActionV::Drop(err)),
            },
        },
    }
}

/// The state and the actions after feeding `items` in order, the i-th
/// decoded at `times[i]`.
pub open spec fn run_spec(state: LoopState, items: Seq<Option<Envelope>>, times: Seq<i64>) -> (
    LoopState,
    Seq<ActionV>,
)
    decreases items.len(),
{
    if items.len() == 0 || times.len() == 0 {
        (state, Seq::empty())
    } else {
        let (s1, a) = step_spec(state, items[0], times[0]);
        let (s2, rest) = run_spec(s1, items.drop_first(), times.drop_first());
        (s2, seq![a].add(rest))
    }
}

/// The loop's decision on the next item of the feed: decode and build a
/// request, drop an envelope that fails to decode, halt once the feed ends.
/// `now` is the caller's reading of the clock, the creation time of a new
/// entity.
pub fn handle_contract_event(state: LoopState, next: Option<Envelope>, now: i64) -> (r: (LoopState, Action))
    ensures
        (r.0, r.1@) == step_spec(state, next, now),
{
    match state {
        LoopState::Terminated => (LoopState::Terminated, Action::Halt),
        LoopState::Running => match next {
            None => (LoopState::Terminated, Action::Halt),
            Some(e) => match Event::decode(&e, now) {
                Ok(ev) => (LoopState::Running, Action::Submit(build_query(ev))),
                Err(err) => (LoopState::Running, Action::Drop(err)),
            },
        },
    }
}

/// A malformed envelope between two well-formed ones is dropped with one
/// report, both neighbours are submitted, and the loop keeps running.
pub proof fn lemma_malformed_envelope_is_dropped(
    e1: Envelope,
    e2: Envelope,
    e3: Envelope,
    t1: i64,
    t2: i64,
    t3: i64,
)
    requires
        decode_spec(e1, t1) is Ok,
        decode_spec(e2, t2) is Err,
        decode_spec(e3, t3) is Ok,
    ensures
        ({
            let (s, actions) = run_spec(
                LoopState::Running,
                seq![Some(e1), Some(e2), Some(e3)],
                seq![t1, t2, t3],
            );
            &&& s == LoopState::Running
            &&& actions.len() == 3
            &&& actions[0] == ActionV::Submit(build_spec(decode_spec(e1, t1)->Ok_0))
            &&& actions[1] == ActionV::Drop(decode_spec(e2, t2)->Err_0)
            &&& actions[2] == ActionV::Submit(build_spec(decode_spec(e3, t3)->Ok_0))
            &&& actions.filter(|a: ActionV| a is Drop).len() == 1
        }),
{
    let items = seq![Some(e1), Some(e2), Some(e3)];
    let times = seq![t1, t2, t3];
    let a1 = ActionV::Submit(build_spec(decode_spec(e1, t1)->Ok_0));
    let a2 = ActionV::Drop(decode_spec(e2, t2)->Err_0);
    let a3 = ActionV::Submit(build_spec(decode_spec(e3, t3)->Ok_0));
    let i3 = seq![Some(e3)];
    let x3 = seq![t3];
    assert(i3.drop_first() =~= Seq::<Option<Envelope>>::empty());
    assert(x3.drop_first() =~= Seq::<i64>::empty());
    assert(step_spec(LoopState::Running, Some(e3), t3) == (LoopState::Running, a3));
    assert(run_spec(LoopState::Running, i3.drop_first(), x3.drop_first()) == (
        LoopState::Running,
        Seq::<ActionV>::empty(),
    ));
    assert(run_spec(LoopState::Running, i3, x3) == (LoopState::Running, seq![a3])) by {
        assert(seq![a3].add(Seq::<ActionV>::empty()) =~= seq![a3]);
    }
    let i2 = seq![Some(e2), Some(e3)];
    let x2 = seq![t2, t3];
    assert(i2.drop_first() =~= i3);
    assert(x2.drop_first() =~= x3);
    assert(run_spec(LoopState::Running, i2, x2) == (LoopState::Running, seq![a2, a3])) by {
        assert(seq![a2].add(seq![a3]) =~= seq![a2, a3]);
    }
    assert(items.drop_first() =~= i2);
    assert(times.drop_first() =~= x2);
    assert(run_spec(LoopState::Running, items, times) == (LoopState::Running, seq![a1, a2, a3]))
        by {
        assert(seq![a1].add(seq![a2, a3]) =~= seq![a1, a2, a3]);
    }
    let pred = |a: ActionV| a is Drop;
    reveal(Seq::filter);
    assert(seq![a1, a2, a3].drop_last() =~= seq![a1, a2]);
    assert(seq![a1, a2].drop_last() =~= seq![a1]);
    assert(seq![a1].drop_last() =~= Seq::<ActionV>::empty());
    assert(Seq::<ActionV>::empty().filter(pred) =~= Seq::<ActionV>::empty());
    assert(seq![a1].filter(pred) =~= Seq::<ActionV>::empty());
    assert(seq![a1, a2].filter(pred) =~= seq![a2]);
    assert(seq![a1, a2, a3].filter(pred) =~= seq![a2]);
}

/// A well-formed creation envelope, decoded, built into a request and
/// applied to a store that lacks its id, leaves a stored entity whose fields
/// are the envelope's: id, url and traits (in order) from its record, owner
/// from its sender, kind from its type tag.
pub proof fn lemma_created_envelope_is_stored(
    sender: String,
    type_tag: String,
    rec: FieldRecord,
    id: String,
    url: String,
    values: Vec<MoveValue>,
    now: i64,
    s: Seq<NftV>,
)
    requires
        type_suffix(type_tag@) == Some("LemonCreated"@) || type_suffix(type_tag@) == Some(
            "ItemCreated"@,
        ),
        field_of(rec, "id"@) == Some(MoveValue::Address(id)),
        field_of(rec, "url"@) == Some(MoveValue::String(url)),
        field_of(rec, "traits"@) == Some(MoveValue::Vector(values)),
        pos(s, id@) < 0,
    ensures
        ({
            let e = Envelope::MoveEvent {
                sender,
                type_tag,
                fields: Some(MoveStruct::WithFields(rec)),
            };
            let decoded = decode_spec(e, now);
            let stored = apply_spec(s, build_spec(decoded->Ok_0));
            &&& decoded is Ok
            &&& stored is Ok
            &&& pos(stored->Ok_0, id@) == s.len()
            &&& stored->Ok_0[s.len() as int] == NftV {
                id: id@,
                kind: if type_suffix(type_tag@) == Some("LemonCreated"@) {
                    "lemon"@
                } else {
                    "item"@
                },
                owner: sender@,
                url: url@,
                traits: traits_of(values@),
                items: Seq::empty(),
                created_at: now,
                attached_to: None,
            }
        }),
{
    let kind: Seq<char> = if type_suffix(type_tag@) == Some("LemonCreated"@) {
        "lemon"@
    } else {
        "item"@
    };
    let n = NftV {
        id: id@,
        kind,
        owner: sender@,
        url: url@,
        traits: traits_of(values@),
        items: Seq::empty(),
        created_at: now,
        attached_to: None,
    };
    lemma_pos_push(s, n);
}

} // verus!
