use vstd::prelude::*;

verus! {

/// A `{name, flavour}` pair carried by an entity; it has no identity of its own.
#[derive(Debug, Clone, PartialEq, Eq)]
pub struct Trait {
    pub name: String,
    pub flavour: String,
}

/// A game entity: a lemon, or an item that can be attached to one.
///
/// `items` holds snapshots of the entities attached to this one, taken at
/// attach time. `created_at` counts milliseconds since the Unix epoch.
/// A copy is made with [`Nft::snapshot`].
#[derive(Debug, PartialEq, Eq)]
pub struct Nft {
    pub id: String,
    pub kind: String,
    pub owner: String,
    pub url: String,
    pub traits: Vec<Trait>,
    pub items: Vec<Nft>,
    pub created_at: i64,
    pub attached_to: Option<String>,
}

/// The two ids named by an attach or a detach event.
#[derive(Debug, Clone, PartialEq, Eq)]
pub struct Item {
    pub lemon_id: String,
    pub item_id: String,
}

/// What a [`Trait`] holds.
pub struct TraitV {
    pub name: Seq<char>,
    pub flavour: Seq<char>,
}

/// What an [`Nft`] holds, attached snapshots included.
pub struct NftV {
    pub id: Seq<char>,
    pub kind: Seq<char>,
    pub owner: Seq<char>,
    pub url: Seq<char>,
    pub traits: Seq<TraitV>,
    pub items: Seq<NftV>,
    pub created_at: i64,
    pub attached_to: Option<Seq<char>>,
}

impl View for Trait {
    type V = TraitV;

    open spec fn view(&self) -> TraitV {
        TraitV { name: self.name@, flavour: self.flavour@ }
    }
}

/// The contents of a sequence of traits.
pub open spec fn traits_view(traits: Seq<Trait>) -> Seq<TraitV> {
    traits.map_values(|t: Trait| t@)
}

/// The contents of an optional string.
pub open spec fn opt_view(s: Option<String>) -> Option<Seq<char>> {
    match s {
        Some(s) => Some(s@),
        None => None,
    }
}

/// The contents of an entity.
pub open spec fn nft_view(n: Nft) -> NftV
    decreases n,
{
    NftV {
        id: n.id@,
        kind: n.kind@,
        owner: n.owner@,
        url: n.url@,
        traits: traits_view(n.traits@),
        items: nfts_view(n.items@),
        created_at: n.created_at,
        attached_to: opt_view(n.attached_to),
    }
}

/// The contents of a sequence of entities, in order.
pub open spec fn nfts_view(s: Seq<Nft>) -> Seq<NftV>
    decreases s,
{
    if s.len() == 0 {
        Seq::empty()
    } else {
        nfts_view(s.drop_last()).push(nft_view(s.last()))
    }
}

impl View for Nft {
    type V = NftV;

    open spec fn view(&self) -> NftV {
        nft_view(*self)
    }
}

/// `nfts_view` keeps the length and views each element.
pub proof fn lemma_nfts_view_index(s: Seq<Nft>)
    ensures
        nfts_view(s).len() == s.len(),
        forall|i: int| 0 <= i < s.len() ==> #[trigger] nfts_view(s)[i] == nft_view(s[i]),
    decreases s.len(),
{
    if s.len() > 0 {
        lemma_nfts_view_index(s.drop_last());
    }
}

/// `nfts_view` commutes with `push`.
pub proof fn lemma_nfts_view_push(s: Seq<Nft>, x: Nft)
    ensures
        nfts_view(s.push(x)) == nfts_view(s).push(nft_view(x)),
{
    assert(s.push(x).drop_last() =~= s);
}

/// `nfts_view` commutes with `update`.
pub proof fn lemma_nfts_view_update(s: Seq<Nft>, i: int, x: Nft)
    requires
        0 <= i < s.len(),
    ensures
        nfts_view(s.update(i, x)) == nfts_view(s).update(i, nft_view(x)),
{
    lemma_nfts_view_index(s);
    lemma_nfts_view_index(s.update(i, x));
    assert(nfts_view(s.update(i, x)) =~= nfts_view(s).update(i, nft_view(x)));
}

impl Trait {
    /// A copy of this trait.
    pub fn duplicate(&self) -> (r: Trait)
        ensures
            r == *self,
    {
        Trait { name: self.name.clone(), flavour: self.flavour.clone() }
    }
}

/// A copy of a sequence of traits, in the same order.
pub fn copy_traits(traits: &Vec<Trait>) -> (r: Vec<Trait>)
    ensures
        r@ == traits@,
{
    let mut r: Vec<Trait> = Vec::new();
    let mut i: usize = 0;
    while i < traits.len()
        invariant
            i <= traits@.len(),
            r@ == traits@.subrange(0, i as int),
        decreases traits@.len() - i,
    {
        r.push(traits[i].duplicate());
        i = i + 1;
    }
    assert(r@ =~= traits@);
    r
}

/// A copy of an optional string.
pub fn copy_opt(s: &Option<String>) -> (r: Option<String>)
    ensures
        r == *s,
{
    match s {
        Some(p) => Some(p.clone()),
        None => None,
    }
}

impl Nft {
    /// A full copy of this entity, attached items included: what an attach
    /// stores inside the parent.
    pub fn snapshot(&self) -> (r: Nft)
        ensures
            r@ == self@,
        decreases self,
    {
        let mut items: Vec<Nft> = Vec::new();
        let mut i: usize = 0;
        while i < self.items.len()
            invariant
                i <= self.items@.len(),
                nfts_view(items@) == nfts_view(self.items@.subrange(0, i as int)),
            decreases self.items@.len() - i,
        {
            proof {
                assert(decreases_to!(self => self.items));
            }
            let c = self.items[i].snapshot();
            proof {
                lemma_nfts_view_push(items@, c);
                lemma_nfts_view_push(self.items@.subrange(0, i as int), self.items@[i as int]);
                assert(self.items@.subrange(0, i as int).push(self.items@[i as int])
                    =~= self.items@.subrange(0, i + 1));
            }
            items.push(c);
            i = i + 1;
        }
        assert(self.items@.subrange(0, self.items@.len() as int) =~= self.items@);
        Nft {
            id: self.id.clone(),
            kind: self.kind.clone(),
            owner: self.owner.clone(),
            url: self.url.clone(),
            traits: copy_traits(&self.traits),
            items,
            created_at: self.created_at,
            attached_to: copy_opt(&self.attached_to),
        }
    }
}

} // verus!
