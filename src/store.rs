use vstd::prelude::*;

use crate::events::EventV;
use crate::model::{
    lemma_nfts_view_index, lemma_nfts_view_push, lemma_nfts_view_update, nft_view, nfts_view,
    opt_view, Nft, NftV,
};
use crate::mutation::{build_spec, MutationRequest, MutationV};

verus! {

broadcast use vstd::seq_lib::group_seq_properties;

/// Why a write was refused; the store is then left as it was.
#[derive(Debug, Clone, PartialEq, Eq)]
pub enum StoreError {
    /// No entity has this id.
    NotFound(String),
}

/// What a [`StoreError`] holds.
pub enum StoreErrorV {
    NotFound(Seq<char>),
}

impl View for StoreError {
    type V = StoreErrorV;

    open spec fn view(&self) -> StoreErrorV {
        match self {
            StoreError::NotFound(s) => StoreErrorV::NotFound(s@),
        }
    }
}

/// What a write's result holds.
pub open spec fn write_view(r: Result<(), StoreError>) -> Result<(), StoreErrorV> {
    match r {
        Ok(()) => Ok(()),
        Err(e) => Err(e@),
    }
}

/// Index of the first entity with this id, or -1 where there is none.
pub open spec fn pos(s: Seq<NftV>, id: Seq<char>) -> int
    decreases s.len(),
{
    if s.len() == 0 {
        -1
    } else {
        let p = pos(s.drop_last(), id);
        if p >= 0 {
            p
        } else if s.last().id == id {
            s.len() - 1
        } else {
            -1
        }
    }
}

/// No two entities share an id.
pub open spec fn ids_unique(s: Seq<NftV>) -> bool {
    forall|i: int, j: int| 0 <= i < s.len() && 0 <= j < s.len() && i != j ==> s[i].id != s[j].id
}

/// Creation: the entity is added unless its id is already taken, in which
/// case nothing changes.
pub open spec fn insert_spec(s: Seq<NftV>, n: NftV) -> Seq<NftV> {
    if pos(s, n.id) >= 0 {
        s
    } else {
        s.push(n)
    }
}

/// Attach: a snapshot of the child, as it stands, is appended to the
/// parent's items, then the child records the parent's id. Both must exist.
/// A child that already records a parent is attached all the same; its
/// snapshot stays in that parent's items, as snapshots are never re-synced.
pub open spec fn attach_spec(s: Seq<NftV>, parent: Seq<char>, child: Seq<char>) -> Result<
    Seq<NftV>,
    StoreErrorV,
> {
    let p = pos(s, parent);
    let c = pos(s, child);
    if p < 0 {
        Err(StoreErrorV::NotFound(parent))
    } else if c < 0 {
        Err(StoreErrorV::NotFound(child))
    } else {
        let s1 = s.update(p, NftV { items: s[p].items.push(s[c]), ..s[p] });
        Ok(s1.update(c, NftV { attached_to: Some(parent), ..s1[c] }))
    }
}

/// Keeps the items whose id is not `child`.
pub open spec fn not_child(child: Seq<char>) -> spec_fn(NftV) -> bool {
    |n: NftV| n.id != child
}

/// Detach: every item with the child's id leaves the parent's items, if the
/// parent exists; the child's link is cleared whichever parent was named.
pub open spec fn detach_spec(s: Seq<NftV>, parent: Seq<char>, child: Seq<char>) -> Seq<NftV> {
    let p = pos(s, parent);
    let s1 = if p >= 0 {
        s.update(p, NftV { items: s[p].items.filter(not_child(child)), ..s[p] })
    } else {
        s
    };
    let c = pos(s1, child);
    if c >= 0 {
        s1.update(c, NftV { attached_to: None, ..s1[c] })
    } else {
        s1
    }
}

/// Update: every field of the entity with that id but its creation time
/// takes the given value; without such an entity nothing changes.
pub open spec fn update_spec(s: Seq<NftV>, n: NftV) -> Seq<NftV> {
    let p = pos(s, n.id);
    if p >= 0 {
        s.update(p, NftV { created_at: s[p].created_at, ..n })
    } else {
        s
    }
}

/// Deletion of the entity with that id, if any.
pub open spec fn delete_spec(s: Seq<NftV>, id: Seq<char>) -> Seq<NftV> {
    let p = pos(s, id);
    if p >= 0 {
        s.remove(p)
    } else {
        s
    }
}

/// The effect of one write request.
pub open spec fn apply_spec(s: Seq<NftV>, m: MutationV) -> Result<Seq<NftV>, StoreErrorV> {
    match m {
        MutationV::InsertNft(n) => Ok(insert_spec(s, n)),
        MutationV::AddItem(i) => attach_spec(s, i.lemon_id, i.item_id),
        MutationV::RemoveItem(i) => Ok(detach_spec(s, i.lemon_id, i.item_id)),
    }
}

/// Whether an entity passes the optional owner and kind filters.
pub open spec fn selected(n: NftV, owner: Option<Seq<char>>, kind: Option<Seq<char>>) -> bool {
    (owner is None || owner == Some(n.owner)) && (kind is None || kind == Some(
        n.kind,
    ))
}

/// The filter on an entity's owner and kind, each optional.
pub open spec fn selector(owner: Option<Seq<char>>, kind: Option<Seq<char>>) -> spec_fn(NftV) -> bool {
    |n: NftV| selected(n, owner, kind)
}

/// `pos` finds the first entity with the id.
pub proof fn lemma_pos(s: Seq<NftV>, id: Seq<char>)
    ensures
        -1 <= pos(s, id) < s.len(),
        pos(s, id) >= 0 ==> s[pos(s, id)].id == id,
        pos(s, id) >= 0 ==> forall|j: int| 0 <= j < pos(s, id) ==> s[j].id != id,
        pos(s, id) < 0 ==> forall|j: int| 0 <= j < s.len() ==> s[j].id != id,
    decreases s.len(),
{
    if s.len() > 0 {
        lemma_pos(s.drop_last(), id);
        assert(forall|j: int| 0 <= j < s.len() - 1 ==> s.drop_last()[j] == s[j]);
    }
}

/// The first index holding the id is `pos`.
pub proof fn lemma_pos_is(s: Seq<NftV>, id: Seq<char>, i: int)
    requires
        0 <= i < s.len(),
        s[i].id == id,
        forall|j: int| 0 <= j < i ==> s[j].id != id,
    ensures
        pos(s, id) == i,
{
    lemma_pos(s, id);
}

/// Two sequences with the same ids at the same places agree on `pos`.
pub proof fn lemma_pos_same_ids(s: Seq<NftV>, t: Seq<NftV>, id: Seq<char>)
    requires
        s.len() == t.len(),
        forall|i: int| 0 <= i < s.len() ==> s[i].id == #[trigger] t[i].id,
    ensures
        pos(s, id) == pos(t, id),
{
    lemma_pos(s, id);
    lemma_pos(t, id);
    if pos(s, id) >= 0 {
        lemma_pos_is(t, id, pos(s, id));
    } else if pos(t, id) >= 0 {
        assert(s[pos(t, id)].id == id);
    }
}

/// Keeps the items whose id is `child`.
pub open spec fn is_child(child: Seq<char>) -> spec_fn(NftV) -> bool {
    |n: NftV| n.id == child
}

/// Appending an entity with a new id puts it at the end.
pub proof fn lemma_pos_push(s: Seq<NftV>, n: NftV)
    requires
        pos(s, n.id) < 0,
    ensures
        pos(s.push(n), n.id) == s.len(),
{
    assert(s.push(n).drop_last() =~= s);
}

/// Submitting the same creation event twice leaves the store as submitting
/// it once: the second request changes nothing.
pub proof fn lemma_create_is_idempotent(s: Seq<NftV>, n: NftV)
    ensures
        ({
            let m = build_spec(EventV::Created(n));
            &&& apply_spec(s, m) == Ok::<Seq<NftV>, StoreErrorV>(insert_spec(s, n))
            &&& apply_spec(insert_spec(s, n), m) == Ok::<Seq<NftV>, StoreErrorV>(insert_spec(s, n))
        }),
{
    if pos(s, n.id) < 0 {
        lemma_pos_push(s, n);
    }
}

/// After a successful attach, the child records the parent's id, and the
/// child's snapshot as it stood before the attach is the one item of the
/// parent with the child's id, where the parent held none before.
pub proof fn lemma_attach_links_child(s: Seq<NftV>, parent: Seq<char>, child: Seq<char>)
    requires
        ids_unique(s),
        attach_spec(s, parent, child) is Ok,
        forall|k: int|
            0 <= k < s[pos(s, parent)].items.len() ==> #[trigger] s[pos(s, parent)].items[k].id
                != child,
    ensures
        ({
            let s2 = attach_spec(s, parent, child)->Ok_0;
            &&& pos(s2, child) >= 0
            &&& s2[pos(s2, child)].attached_to == Some(parent)
            &&& pos(s2, parent) >= 0
            &&& s2[pos(s2, parent)].items.filter(is_child(child)) == seq![s[pos(s, child)]]
        }),
{
    let p = pos(s, parent);
    let c = pos(s, child);
    lemma_pos(s, parent);
    lemma_pos(s, child);
    let s1 = s.update(p, NftV { items: s[p].items.push(s[c]), ..s[p] });
    let s2 = s1.update(c, NftV { attached_to: Some(parent), ..s1[c] });
    assert(forall|i: int| 0 <= i < s.len() ==> s[i].id == #[trigger] s2[i].id);
    lemma_pos_same_ids(s, s2, parent);
    lemma_pos_same_ids(s, s2, child);
    let items = s[p].items;
    assert(s2[p].items == items.push(s[c]));
    items.lemma_filter_push(s[c], is_child(child));
    assert(items.all(|x: NftV| !is_child(child)(x))) by {
        assert forall|k: int| 0 <= k < items.len() implies !is_child(child)(items[k]) by {
            assert(items[k].id != child);
        }
    }
    items.lemma_all_neg_filter_empty(is_child(child));
    assert(items.filter(is_child(child)).push(s[c]) =~= seq![s[c]]);
}

/// After an attach and then a detach of the same pair, the child records no
/// parent and the parent holds no item with the child's id.
pub proof fn lemma_attach_then_detach(s: Seq<NftV>, parent: Seq<char>, child: Seq<char>)
    requires
        ids_unique(s),
        attach_spec(s, parent, child) is Ok,
    ensures
        ({
            let s3 = detach_spec(attach_spec(s, parent, child)->Ok_0, parent, child);
            &&& pos(s3, child) >= 0
            &&& s3[pos(s3, child)].attached_to is None
            &&& pos(s3, parent) >= 0
            &&& forall|k: int|
                0 <= k < s3[pos(s3, parent)].items.len() ==> #[trigger] s3[pos(
                    s3,
                    parent,
                )].items[k].id != child
        }),
{
    let p = pos(s, parent);
    let c = pos(s, child);
    lemma_pos(s, parent);
    lemma_pos(s, child);
    let s2 = attach_spec(s, parent, child)->Ok_0;
    assert(forall|i: int| 0 <= i < s.len() ==> s[i].id == #[trigger] s2[i].id);
    lemma_pos_same_ids(s, s2, parent);
    lemma_pos_same_ids(s, s2, child);
    let kept = s2[p].items.filter(not_child(child));
    let s4 = s2.update(p, NftV { items: kept, ..s2[p] });
    assert(forall|i: int| 0 <= i < s.len() ==> s[i].id == #[trigger] s4[i].id);
    lemma_pos_same_ids(s, s4, parent);
    lemma_pos_same_ids(s, s4, child);
    let s3 = s4.update(c, NftV { attached_to: None, ..s4[c] });
    assert(s3 == detach_spec(s2, parent, child));
    assert(forall|i: int| 0 <= i < s.len() ==> s[i].id == #[trigger] s3[i].id);
    lemma_pos_same_ids(s, s3, parent);
    lemma_pos_same_ids(s, s3, child);
    assert(s3[p].items == kept);
    assert forall|k: int| 0 <= k < kept.len() implies #[trigger] kept[k].id != child by {
        s2[p].items.lemma_filter_pred(not_child(child), k);
    }
}

/// The entity store: one row per entity, ids unique.
pub struct NftStore {
    rows: Vec<Nft>,
}

impl View for NftStore {
    type V = Seq<NftV>;

    closed spec fn view(&self) -> Seq<NftV> {
        nfts_view(self.rows@)
    }
}

impl NftStore {
    /// The store's invariant: no two rows share an id.
    pub open spec fn wf(&self) -> bool {
        ids_unique(self@)
    }

    /// An empty store.
    pub fn new() -> (r: NftStore)
        ensures
            r@ == Seq::<NftV>::empty(),
            r.wf(),
    {
        NftStore { rows: Vec::new() }
    }

    /// Number of entities.
    pub fn len(&self) -> (r: usize)
        ensures
            r == self@.len(),
    {
        proof {
            lemma_nfts_view_index(self.rows@);
        }
        self.rows.len()
    }

    fn position(&self, id: &String) -> (r: Option<usize>)
        ensures
            match r {
                Some(i) => i == pos(self@, id@) && i < self@.len(),
                None => pos(self@, id@) < 0,
            },
    {
        proof {
            lemma_nfts_view_index(self.rows@);
            lemma_pos(self@, id@);
        }
        let mut i: usize = 0;
        while i < self.rows.len()
            invariant
                i <= self.rows@.len(),
                self@.len() == self.rows@.len(),
                forall|j: int| 0 <= j < i ==> self@[j].id != id@,
                forall|j: int| 0 <= j < self.rows@.len() ==> #[trigger] self@[j] == nft_view(self.rows@[j]),
            decreases self.rows@.len() - i,
        {
            if self.rows[i].id == *id {
                proof {
                    lemma_pos_is(self@, id@, i as int);
                }
                return Some(i);
            }
            i = i + 1;
        }
        None
    }

    /// A copy of the entity with this id, if any.
    pub fn nft(&self, id: &String) -> (r: Option<Nft>)
        ensures
            match r {
                Some(n) => pos(self@, id@) >= 0 && n@ == self@[pos(self@, id@)],
                None => pos(self@, id@) < 0,
            },
    {
        proof {
            lemma_nfts_view_index(self.rows@);
        }
        match self.position(id) {
            Some(i) => Some(self.rows[i].snapshot()),
            None => None,
        }
    }

    /// Copies of the entities that pass the optional owner and kind filters,
    /// in store order.
    pub fn nfts(&self, owner: &Option<String>, kind: &Option<String>) -> (r: Vec<Nft>)
        ensures
            nfts_view(r@) == self@.filter(selector(opt_view(*owner), opt_view(*kind))),
    {
        proof {
            lemma_nfts_view_index(self.rows@);
        }
        let mut r: Vec<Nft> = Vec::new();
        let mut i: usize = 0;
        while i < self.rows.len()
            invariant
                i <= self.rows@.len(),
                self@.len() == self.rows@.len(),
                forall|j: int| 0 <= j < self.rows@.len() ==> #[trigger] self@[j] == nft_view(self.rows@[j]),
                nfts_view(r@) == self@.subrange(0, i as int).filter(selector(opt_view(*owner), opt_view(*kind))),
            decreases self.rows@.len() - i,
        {
            let row = &self.rows[i];
            let owner_ok = match owner {
                Some(o) => row.owner == *o,
                None => true,
            };
            let kind_ok = match kind {
                Some(k) => row.kind == *k,
                None => true,
            };
            let ghost before = r@;
            proof {
                assert((owner_ok && kind_ok) == selector(opt_view(*owner), opt_view(*kind))(
                    self@[i as int],
                ));
                assert(self@.subrange(0, i + 1) =~= self@.subrange(0, i as int).push(self@[i as int]));
                self@.subrange(0, i as int).lemma_filter_push(
                    self@[i as int],
                    selector(opt_view(*owner), opt_view(*kind)),
                );
            }
            if owner_ok && kind_ok {
                let c = row.snapshot();
                proof {
                    lemma_nfts_view_push(before, c);
                }
                r.push(c);
            }
            i = i + 1;
        }
        assert(self@.subrange(0, self@.len() as int) =~= self@);
        r
    }

    /// Creates an entity unless its id is taken; an existing entity is never
    /// overwritten.
    pub fn insert_nft(&mut self, nft: Nft)
        requires
            old(self).wf(),
        ensures
            final(self).wf(),
            final(self)@ == insert_spec(old(self)@, nft@),
    {
        match self.position(&nft.id) {
            Some(_) => {},
            None => {
                proof {
                    lemma_nfts_view_push(self.rows@, nft);
                    lemma_pos(self@, nft@.id);
                }
                self.rows.push(nft);
            },
        }
    }

    /// Attaches the item `item_id` to the lemon `lemon_id`: a snapshot of the
    /// item joins the lemon's items and the item records its parent, whatever
    /// parent it recorded before. Nothing changes where either is missing.
    pub fn add_item(&mut self, lemon_id: &String, item_id: &String) -> (r: Result<(), StoreError>)
        requires
            old(self).wf(),
        ensures
            final(self).wf(),
            match attach_spec(old(self)@, lemon_id@, item_id@) {
                Ok(s) => r is Ok && final(self)@ == s,
                Err(e) => write_view(r) == Err::<(), StoreErrorV>(e) && final(self)@ == old(self)@,
            },
    {
        let p = match self.position(lemon_id) {
            Some(p) => p,
            None => return Err(StoreError::NotFound(lemon_id.clone())),
        };
        let c = match self.position(item_id) {
            Some(c) => c,
            None => return Err(StoreError::NotFound(item_id.clone())),
        };
        proof {
            lemma_nfts_view_index(self.rows@);
        }
        let ghost s0 = self@;
        let ghost rows0 = self.rows@;
        let snap = self.rows[c].snapshot();
        self.rows[p].items.push(snap);
        proof {
            lemma_nfts_view_push(rows0[p as int].items@, snap);
            lemma_nfts_view_update(rows0, p as int, self.rows@[p as int]);
            assert(self.rows@ == rows0.update(p as int, self.rows@[p as int]));
            assert(nft_view(self.rows@[p as int]) == NftV {
                items: s0[p as int].items.push(s0[c as int]),
                ..s0[p as int]
            });
        }
        let ghost s1 = self@;
        let ghost rows1 = self.rows@;
        self.rows[c].attached_to = Some(lemon_id.clone());
        proof {
            lemma_nfts_view_index(rows1);
            lemma_nfts_view_update(rows1, c as int, self.rows@[c as int]);
            assert(self.rows@ == rows1.update(c as int, self.rows@[c as int]));
            assert(nft_view(self.rows@[c as int]) == NftV {
                attached_to: Some(lemon_id@),
                ..s1[c as int]
            });
            assert(forall|i: int| 0 <= i < s0.len() ==> s0[i].id == #[trigger] self@[i].id);
        }
        Ok(())
    }

    /// Detaches the item `item_id` from the lemon `lemon_id`: every item with
    /// that id leaves the lemon's items, and the item's link is cleared even
    /// where another parent was named.
    pub fn remove_item(&mut self, lemon_id: &String, item_id: &String)
        requires
            old(self).wf(),
        ensures
            final(self).wf(),
            final(self)@ == detach_spec(old(self)@, lemon_id@, item_id@),
    {
        let ghost s0 = self@;
        proof {
            lemma_nfts_view_index(self.rows@);
        }
        match self.position(lemon_id) {
            Some(p) => {
                let ghost rows0 = self.rows@;
                let kept = without_item(&self.rows[p].items, item_id);
                self.rows[p].items = kept;
                proof {
                    lemma_nfts_view_update(rows0, p as int, self.rows@[p as int]);
                    assert(self.rows@ == rows0.update(p as int, self.rows@[p as int]));
                    assert(nft_view(self.rows@[p as int]) == NftV {
                        items: s0[p as int].items.filter(not_child(item_id@)),
                        ..s0[p as int]
                    });
                }
            },
            None => {},
        }
        let ghost s1 = self@;
        proof {
            lemma_nfts_view_index(self.rows@);
            assert(forall|i: int| 0 <= i < s0.len() ==> s0[i].id == #[trigger] s1[i].id);
        }
        match self.position(item_id) {
            Some(c) => {
                let ghost rows1 = self.rows@;
                self.rows[c].attached_to = None;
                proof {
                    lemma_nfts_view_update(rows1, c as int, self.rows@[c as int]);
                    assert(self.rows@ == rows1.update(c as int, self.rows@[c as int]));
                    assert(nft_view(self.rows@[c as int]) == NftV { attached_to: None, ..s1[c as int] });
                    lemma_nfts_view_index(self.rows@);
                }
            },
            None => {},
        }
        proof {
            assert(forall|i: int| 0 <= i < s0.len() ==> s0[i].id == #[trigger] self@[i].id);
        }
    }

    /// Replaces every field but the creation time of the entity with the
    /// given id; without such an entity nothing changes.
    pub fn update_nft(&mut self, nft: Nft)
        requires
            old(self).wf(),
        ensures
            final(self).wf(),
            final(self)@ == update_spec(old(self)@, nft@),
    {
        let ghost s0 = self@;
        proof {
            lemma_nfts_view_index(self.rows@);
        }
        match self.position(&nft.id) {
            Some(p) => {
                let ghost rows0 = self.rows@;
                proof {
                    lemma_pos(s0, nft@.id);
                }
                let mut nft = nft;
                nft.created_at = self.rows[p].created_at;
                self.rows.set(p, nft);
                proof {
                    lemma_nfts_view_update(rows0, p as int, self.rows@[p as int]);
                    lemma_nfts_view_index(self.rows@);
                    assert(forall|i: int| 0 <= i < s0.len() ==> s0[i].id == #[trigger] self@[i].id);
                }
            },
            None => {},
        }
    }

    /// Deletes the entity with the given id, if any.
    pub fn delete_nft(&mut self, id: &String)
        requires
            old(self).wf(),
        ensures
            final(self).wf(),
            final(self)@ == delete_spec(old(self)@, id@),
    {
        let ghost s0 = self@;
        proof {
            lemma_nfts_view_index(self.rows@);
        }
        match self.position(id) {
            Some(p) => {
                let ghost rows0 = self.rows@;
                self.rows.remove(p);
                proof {
                    lemma_nfts_view_index(rows0);
                    lemma_nfts_view_index(self.rows@);
                    assert(self@ =~= s0.remove(p as int));
                }
            },
            None => {},
        }
    }

    /// Executes one write request.
    pub fn apply(&mut self, req: MutationRequest) -> (r: Result<(), StoreError>)
        requires
            old(self).wf(),
        ensures
            final(self).wf(),
            match apply_spec(old(self)@, req@) {
                Ok(s) => r is Ok && final(self)@ == s,
                Err(e) => write_view(r) == Err::<(), StoreErrorV>(e) && final(self)@ == old(self)@,
            },
    {
        match req {
            MutationRequest::InsertNft(a) => {
                self.insert_nft(a.nft);
                Ok(())
            },
            MutationRequest::AddItem(a) => self.add_item(&a.lemon_id, &a.item_id),
            MutationRequest::RemoveItem(a) => {
                self.remove_item(&a.lemon_id, &a.item_id);
                Ok(())
            },
        }
    }
}

/// Copies of the items whose id is not `id`, in order.
fn without_item(items: &Vec<Nft>, id: &String) -> (r: Vec<Nft>)
    ensures
        nfts_view(r@) == nfts_view(items@).filter(not_child(id@)),
{
    let mut r: Vec<Nft> = Vec::new();
    let mut i: usize = 0;
    while i < items.len()
        invariant
            i <= items@.len(),
            nfts_view(r@) == nfts_view(items@.subrange(0, i as int)).filter(not_child(id@)),
        decreases items@.len() - i,
    {
        let ghost before = r@;
        proof {
            assert(items@.subrange(0, i + 1) =~= items@.subrange(0, i as int).push(items@[i as int]));
            lemma_nfts_view_push(items@.subrange(0, i as int), items@[i as int]);
            nfts_view(items@.subrange(0, i as int)).lemma_filter_push(
                nft_view(items@[i as int]),
                not_child(id@),
            );
        }
        if items[i].id != *id {
            let c = items[i].snapshot();
            proof {
                lemma_nfts_view_push(before, c);
            }
            r.push(c);
        }
        i = i + 1;
    }
    assert(items@.subrange(0, items@.len() as int) =~= items@);
    r
}

} // verus!
