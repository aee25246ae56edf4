//! Supply: what can be claimed, in which bucket, and a ledger of claims.
use vstd::prelude::*;

use crate::primitives::ids::{CatalogItemId, ComponentId, PrefixedIdView, SupplyClaimId};
use crate::text::{
    chars_of, char_is_alnum, debug_text, decimal, is_alnum, lemma_text_less_order, owned, push_decimal, push_text, str_debug_of,
    text_less, text_lt, trim, trimmed,
};

verus! {

broadcast use vstd::seq_lib::group_seq_properties;

pub enum SupplyTargetView {
    Choice(PrefixedIdView),
    CatalogItem(PrefixedIdView),
    Custom(Seq<char>),
}

/// What a supply claim is about.
#[derive(Debug, Eq, PartialEq, Ord, PartialOrd, Hash)]
pub enum SupplyTarget {
    Choice(ComponentId),
    CatalogItem(CatalogItemId),
    Custom(SupplyKey),
}

impl View for SupplyTarget {
    type V = SupplyTargetView;

    open spec fn view(&self) -> SupplyTargetView {
        match self {
            SupplyTarget::Choice(id) => SupplyTargetView::Choice(id@),
            SupplyTarget::CatalogItem(id) => SupplyTargetView::CatalogItem(id@),
            SupplyTarget::Custom(key) => SupplyTargetView::Custom(key@),
        }
    }
}

impl Clone for SupplyTarget {
    fn clone(&self) -> (r: Self)
        ensures
            r@ == self@,
    {
        match self {
            SupplyTarget::Choice(id) => SupplyTarget::Choice(id.clone()),
            SupplyTarget::CatalogItem(id) => SupplyTarget::CatalogItem(id.clone()),
            SupplyTarget::Custom(key) => SupplyTarget::Custom(key.clone()),
        }
    }
}

impl SupplyTarget {
    pub fn choice(choice_id: ComponentId) -> (r: Self)
        ensures
            r@ == SupplyTargetView::Choice(choice_id@),
    {
        SupplyTarget::Choice(choice_id)
    }

    pub fn catalog_item(catalog_item_id: CatalogItemId) -> (r: Self)
        ensures
            r@ == SupplyTargetView::CatalogItem(catalog_item_id@),
    {
        SupplyTarget::CatalogItem(catalog_item_id)
    }

    pub fn custom(value: &str) -> (r: Result<Self, SupplyError>)
        ensures
            match r {
                Ok(t) => spec_supply_key(value@) == Ok::<Seq<char>, SupplyErrorView>(t@->Custom_0) && t@ is Custom,
                Err(e) => spec_supply_key(value@) == Err::<Seq<char>, SupplyErrorView>(e@),
            },
    {
        Ok(SupplyTarget::Custom(SupplyKey::new(value)?))
    }

    /// Whether two targets are the same.
    pub fn same_as(&self, other: &Self) -> (r: bool)
        ensures
            r == (self@ == other@),
    {
        match (self, other) {
            (SupplyTarget::Choice(a), SupplyTarget::Choice(b)) => a.same_as(b),
            (SupplyTarget::CatalogItem(a), SupplyTarget::CatalogItem(b)) => a.same_as(b),
            (SupplyTarget::Custom(a), SupplyTarget::Custom(b)) => a.same_as(b),
            _ => false,
        }
    }
}

/// A character allowed in a supply key besides letters and digits.
pub open spec fn is_key_punct(c: char) -> bool {
    c == '-' || c == '_' || c == '.' || c == ':' || c == '/'
}

/// A supply key is the trimmed text, non-empty, of letters, digits and `- _ . : /`.
pub open spec fn spec_supply_key(value: Seq<char>) -> Result<Seq<char>, SupplyErrorView> {
    let t = trim(value);
    if t.len() == 0 {
        Err(SupplyErrorView::EmptySupplyKey)
    } else if !(forall|i: int| 0 <= i < t.len() ==> is_alnum(#[trigger] t[i]) || is_key_punct(t[i])) {
        Err(SupplyErrorView::InvalidSupplyKey(t))
    } else {
        Ok(t)
    }
}

/// A custom supply key.
#[derive(Debug, Eq, PartialEq, Ord, PartialOrd, Hash)]
pub struct SupplyKey(String);

impl View for SupplyKey {
    type V = Seq<char>;

    closed spec fn view(&self) -> Seq<char> {
        self.0@
    }
}

impl Clone for SupplyKey {
    fn clone(&self) -> (r: Self)
        ensures
            r@ == self@,
    {
        SupplyKey(self.0.clone())
    }
}

impl SupplyKey {
    pub fn new(value: &str) -> (r: Result<Self, SupplyError>)
        ensures
            match r {
                Ok(k) => spec_supply_key(value@) == Ok::<Seq<char>, SupplyErrorView>(k@),
                Err(e) => spec_supply_key(value@) == Err::<Seq<char>, SupplyErrorView>(e@),
            },
    {
        let t = trimmed(value);
        let v = chars_of(t.as_str());
        if v.len() == 0 {
            return Err(SupplyError::EmptySupplyKey);
        }
        let mut i: usize = 0;
        while i < v.len()
            invariant
                v@ == t@,
                t@ == trim(value@),
                i <= v.len(),
                forall|j: int| 0 <= j < i ==> is_alnum(#[trigger] t@[j]) || is_key_punct(t@[j]),
            decreases v.len() - i,
        {
            let c = v[i];
            if !(char_is_alnum(c) || c == '-' || c == '_' || c == '.' || c == ':' || c == '/') {
                assert(!(is_alnum(t@[i as int]) || is_key_punct(t@[i as int])));
                return Err(SupplyError::InvalidSupplyKey(t));
            }
            i += 1;
        }
        Ok(SupplyKey(t))
    }

    pub fn as_str(&self) -> (r: &str)
        ensures
            r@ == self@,
    {
        self.0.as_str()
    }

    pub fn same_as(&self, other: &Self) -> (r: bool)
        ensures
            r == (self@ == other@),
    {
        self.0 == other.0
    }
}

/// The map of a list of key/value pairs whose keys are distinct.
pub open spec fn pairs_to_map(pairs: Seq<(Seq<char>, Seq<char>)>) -> Map<Seq<char>, Seq<char>>
    decreases pairs.len(),
{
    if pairs.len() == 0 {
        Map::empty()
    } else {
        pairs_to_map(pairs.drop_last()).insert(pairs.last().0, pairs.last().1)
    }
}

pub open spec fn distinct_keys(pairs: Seq<(Seq<char>, Seq<char>)>) -> bool {
    forall|i: int, j: int| 0 <= i < j < pairs.len() ==> pairs[i].0 != pairs[j].0
}

/// The keys come in ascending code-point order, as a `BTreeMap` of strings
/// keeps them.
pub open spec fn keys_ascending(pairs: Seq<(Seq<char>, Seq<char>)>) -> bool {
    forall|i: int, j: int| 0 <= i < j < pairs.len() ==> text_less(#[trigger] pairs[i].0, #[trigger] pairs[j].0)
}

/// Inserting a key between the keys below it and the keys above it keeps
/// the keys ascending, and so distinct.
proof fn lemma_insert_keeps_ascending(pv: Seq<(Seq<char>, Seq<char>)>, pos: int, kv: (Seq<char>, Seq<char>))
    requires
        0 <= pos <= pv.len(),
        keys_ascending(pv),
        forall|j: int| 0 <= j < pos ==> text_less(#[trigger] pv[j].0, kv.0),
        pos < pv.len() ==> text_less(kv.0, pv[pos].0),
    ensures
        keys_ascending(pv.insert(pos, kv)),
        distinct_keys(pv.insert(pos, kv)),
{
    let npv = pv.insert(pos, kv);
    let k = kv.0;
    assert forall|i: int, j: int| 0 <= i < j < npv.len() implies text_less(#[trigger] npv[i].0, #[trigger] npv[j].0) by {
        if i < pos && j < pos {
            assert(npv[i] == pv[i] && npv[j] == pv[j]);
        } else if i < pos && j == pos {
            assert(npv[i] == pv[i]);
        } else if i < pos {
            assert(npv[i] == pv[i] && npv[j] == pv[j - 1]);
            lemma_text_less_order(pv[i].0, k, pv[pos].0);
            if j - 1 > pos {
                lemma_text_less_order(pv[i].0, pv[pos].0, pv[j - 1].0);
            }
        } else if i == pos {
            assert(npv[j] == pv[j - 1]);
            if j - 1 > pos {
                lemma_text_less_order(k, pv[pos].0, pv[j - 1].0);
            }
        } else {
            assert(npv[i] == pv[i - 1] && npv[j] == pv[j - 1]);
        }
    }
    assert forall|i: int, j: int| 0 <= i < j < npv.len() implies npv[i].0 != npv[j].0 by {
        assert(text_less(npv[i].0, npv[j].0));
        lemma_text_less_order(npv[i].0, npv[j].0, npv[j].0);
    }
}

/// Adding a pair with a new key anywhere in a list adds it to the map.
proof fn lemma_pairs_to_map_insert(pairs: Seq<(Seq<char>, Seq<char>)>, p: int, kv: (Seq<char>, Seq<char>))
    requires
        0 <= p <= pairs.len(),
        distinct_keys(pairs.insert(p, kv)),
    ensures
        distinct_keys(pairs),
        pairs_to_map(pairs.insert(p, kv)) == pairs_to_map(pairs).insert(kv.0, kv.1),
{
    let n = pairs.insert(p, kv);
    assert forall|i: int, j: int| 0 <= i < j < pairs.len() implies pairs[i].0 != pairs[j].0 by {
        let i2 = if i < p { i } else { i + 1 };
        let j2 = if j < p { j } else { j + 1 };
        assert(n[i2] == pairs[i] && n[j2] == pairs[j]);
    }
    lemma_pairs_to_map(pairs);
    lemma_pairs_to_map(n);
    let a = pairs_to_map(n);
    let b = pairs_to_map(pairs).insert(kv.0, kv.1);
    assert forall|k: Seq<char>| #[trigger] a.contains_key(k) <==> b.contains_key(k) by {
        if a.contains_key(k) && k != kv.0 {
            let i = choose|i: int| 0 <= i < n.len() && n[i].0 == k;
            if i < p {
                assert(pairs[i].0 == k);
            } else if i > p {
                assert(pairs[i - 1].0 == k);
            }
        }
        if b.contains_key(k) {
            if k == kv.0 {
                assert(n[p].0 == k);
            } else {
                let i = choose|i: int| 0 <= i < pairs.len() && pairs[i].0 == k;
                if i < p {
                    assert(n[i].0 == k);
                } else {
                    assert(n[i + 1].0 == k);
                }
            }
        }
    }
    assert forall|k: Seq<char>| a.contains_key(k) implies #[trigger] a[k] == b[k] by {
        let i = choose|i: int| 0 <= i < n.len() && n[i].0 == k;
        assert(a[n[i].0] == n[i].1);
        if i < p {
            assert(n[i] == pairs[i]);
            assert(pairs_to_map(pairs)[pairs[i].0] == pairs[i].1);
            assert(n[p].0 != n[i].0);
        } else if i > p {
            assert(n[i] == pairs[i - 1]);
            assert(pairs_to_map(pairs)[pairs[i - 1].0] == pairs[i - 1].1);
            assert(n[p].0 != n[i].0);
        }
    }
    assert(a =~= b);
}

pub proof fn lemma_pairs_to_map(pairs: Seq<(Seq<char>, Seq<char>)>)
    requires
        distinct_keys(pairs),
    ensures
        forall|k: Seq<char>| #[trigger] pairs_to_map(pairs).contains_key(k) <==> exists|i: int| 0 <= i < pairs.len() && pairs[i].0 == k,
        forall|i: int| 0 <= i < pairs.len() ==> #[trigger] pairs_to_map(pairs)[pairs[i].0] == pairs[i].1,
        pairs_to_map(pairs).dom().finite(),
        pairs_to_map(pairs).dom().len() == pairs.len(),
    decreases pairs.len(),
{
    if pairs.len() > 0 {
        let init = pairs.drop_last();
        lemma_pairs_to_map(init);
        let m = pairs_to_map(init);
        assert(!m.contains_key(pairs.last().0)) by {
            if m.contains_key(pairs.last().0) {
                let i = choose|i: int| 0 <= i < init.len() && init[i].0 == pairs.last().0;
                assert(pairs[i].0 == pairs[pairs.len() - 1].0);
            }
        }
        assert forall|k: Seq<char>| #[trigger] pairs_to_map(pairs).contains_key(k) <==> exists|i: int| 0 <= i < pairs.len() && pairs[i].0 == k by {
            if pairs_to_map(pairs).contains_key(k) && k != pairs.last().0 {
                let i = choose|i: int| 0 <= i < init.len() && init[i].0 == k;
                assert(pairs[i].0 == k);
            }
            if exists|i: int| 0 <= i < pairs.len() && pairs[i].0 == k {
                let i = choose|i: int| 0 <= i < pairs.len() && pairs[i].0 == k;
                if i < pairs.len() - 1 {
                    assert(init[i].0 == k);
                }
            }
        }
        assert forall|i: int| 0 <= i < pairs.len() implies #[trigger] pairs_to_map(pairs)[pairs[i].0] == pairs[i].1 by {
            if i < pairs.len() - 1 {
                assert(init[i] == pairs[i]);
                assert(pairs[i].0 != pairs.last().0);
            }
        }
    }
}

/// A bucket: named dimensions that distinguish supply of one target.
#[derive(Debug, Eq, PartialEq, Ord, PartialOrd, Hash)]
pub struct SupplyBucket {
    dimensions: Vec<(String, String)>,
}

pub open spec fn pair_views(v: Seq<(String, String)>) -> Seq<(Seq<char>, Seq<char>)> {
    v.map_values(|p: (String, String)| (p.0@, p.1@))
}

proof fn lemma_pair_views_push(v: Seq<(String, String)>, p: (String, String))
    ensures
        pair_views(v.push(p)) == pair_views(v).push((p.0@, p.1@)),
{
    assert(pair_views(v.push(p)) =~= pair_views(v).push((p.0@, p.1@)));
}

impl SupplyBucket {
    #[verifier::type_invariant]
    spec fn well_formed(self) -> bool {
        &&& distinct_keys(pair_views(self.dimensions@))
        &&& keys_ascending(pair_views(self.dimensions@))
    }

    pub closed spec fn pairs(self) -> Seq<(Seq<char>, Seq<char>)> {
        pair_views(self.dimensions@)
    }
}

impl View for SupplyBucket {
    type V = Map<Seq<char>, Seq<char>>;

    closed spec fn view(&self) -> Map<Seq<char>, Seq<char>> {
        pairs_to_map(pair_views(self.dimensions@))
    }
}

impl Clone for SupplyBucket {
    fn clone(&self) -> (r: Self)
        ensures
            r@ == self@,
            r.pairs() == self.pairs(),
    {
        proof {
            use_type_invariant(self);
        }
        let mut dimensions: Vec<(String, String)> = Vec::new();
        let mut i: usize = 0;
        while i < self.dimensions.len()
            invariant
                i <= self.dimensions.len(),
                pair_views(dimensions@) == pair_views(self.dimensions@).take(i as int),
            decreases self.dimensions.len() - i,
        {
            let k = self.dimensions[i].0.clone();
            let v = self.dimensions[i].1.clone();
            let ghost before = dimensions@;
            dimensions.push((k, v));
            proof {
                lemma_pair_views_push(before, (k, v));
                assert(pair_views(self.dimensions@).take(i + 1) =~= pair_views(self.dimensions@).take(i as int).push(pair_views(self.dimensions@)[i as int]));
            }
            i += 1;
        }
        assert(pair_views(dimensions@) =~= pair_views(self.dimensions@));
        SupplyBucket { dimensions }
    }
}

impl Default for SupplyBucket {
    fn default() -> (r: Self)
        ensures
            r@ == Map::<Seq<char>, Seq<char>>::empty(),
    {
        Self::empty()
    }
}

/// What adding a dimension to a bucket gives.
pub open spec fn spec_with_dimension(bucket: Map<Seq<char>, Seq<char>>, key: Seq<char>, value: Seq<char>) -> Result<Map<Seq<char>, Seq<char>>, SupplyErrorView> {
    let k = trim(key);
    let v = trim(value);
    if k.len() == 0 {
        Err(SupplyErrorView::EmptyBucketDimensionKey)
    } else if v.len() == 0 {
        Err(SupplyErrorView::EmptyBucketDimensionValue { key: k })
    } else if bucket.contains_key(k) {
        Err(SupplyErrorView::DuplicateBucketDimension(k))
    } else {
        Ok(bucket.insert(k, v))
    }
}

impl SupplyBucket {
    pub fn empty() -> (r: Self)
        ensures
            r@ == Map::<Seq<char>, Seq<char>>::empty(),
    {
        let r = SupplyBucket { dimensions: Vec::new() };
        assert(pair_views(r.dimensions@) =~= Seq::<(Seq<char>, Seq<char>)>::empty());
        r
    }

    pub fn with_dimension(self, key: &str, value: &str) -> (r: Result<Self, SupplyError>)
        ensures
            match r {
                Ok(b) => spec_with_dimension(self@, key@, value@) == Ok::<Map<Seq<char>, Seq<char>>, SupplyErrorView>(b@),
                Err(e) => spec_with_dimension(self@, key@, value@) == Err::<Map<Seq<char>, Seq<char>>, SupplyErrorView>(e@),
            },
    {
        proof {
            use_type_invariant(&self);
            lemma_pairs_to_map(pair_views(self.dimensions@));
        }
        let k = trimmed(key);
        let v = trimmed(value);
        if k.as_str().is_empty() {
            return Err(SupplyError::EmptyBucketDimensionKey);
        }
        if v.as_str().is_empty() {
            return Err(SupplyError::EmptyBucketDimensionValue { key: k });
        }
        let ghost pv = pair_views(self.dimensions@);
        let mut i: usize = 0;
        while i < self.dimensions.len()
            invariant
                i <= self.dimensions.len(),
                pv == pair_views(self.dimensions@),
                k@ == trim(key@),
                v@ == trim(value@),
                k@.len() > 0,
                v@.len() > 0,
                forall|j: int| 0 <= j < i ==> pv[j].0 != k@,
            decreases self.dimensions.len() - i,
        {
            if self.dimensions[i].0 == k {
                proof {
                    use_type_invariant(&self);
                    lemma_pairs_to_map(pv);
                    assert(pv[i as int].0 == k@);
                    assert(self@.contains_key(pv[i as int].0));
                }
                return Err(SupplyError::DuplicateBucketDimension(k));
            }
            i += 1;
        }
        let mut pos: usize = 0;
        while pos < self.dimensions.len() && !text_lt(k.as_str(), self.dimensions[pos].0.as_str())
            invariant
                pos <= self.dimensions.len(),
                pv == pair_views(self.dimensions@),
                forall|j: int| 0 <= j < pos ==> text_less(#[trigger] pv[j].0, k@),
                forall|j: int| 0 <= j < self.dimensions.len() ==> pv[j].0 != k@,
            decreases self.dimensions.len() - pos,
        {
            proof {
                lemma_text_less_order(pv[pos as int].0, k@, k@);
                assert(pv[pos as int].0 == self.dimensions@[pos as int].0@);
            }
            pos += 1;
        }
        proof {
            use_type_invariant(&self);
        }
        let mut dimensions = self.dimensions;
        let ghost old_dims = dimensions@;
        dimensions.insert(pos, (k, v));
        let ghost npv = pair_views(dimensions@);
        assert(npv =~= pv.insert(pos as int, (k@, v@))) by {
            assert(dimensions@ =~= old_dims.insert(pos as int, (k, v)));
        }
        assert(pos < pv.len() ==> text_less(k@, pv[pos as int].0)) by {
            if pos < pv.len() {
                assert(pv[pos as int].0 == old_dims[pos as int].0@);
            }
        }
        proof {
            lemma_insert_keeps_ascending(pv, pos as int, (k@, v@));
        }
        proof {
            lemma_pairs_to_map_insert(pv, pos as int, (k@, v@));
        }
        Ok(SupplyBucket { dimensions })
    }

    /// The dimensions as key/value pairs, each key once, in ascending key
    /// order.
    pub fn dimensions(&self) -> (r: &[(String, String)])
        ensures
            pairs_to_map(pair_views(r@)) == self@,
            distinct_keys(pair_views(r@)),
            keys_ascending(pair_views(r@)),
            pair_views(r@) == self.pairs(),
    {
        proof {
            use_type_invariant(self);
        }
        self.dimensions.as_slice()
    }

    pub fn is_empty(&self) -> (r: bool)
        ensures
            r == (self@.dom().len() == 0),
    {
        proof {
            use_type_invariant(self);
            lemma_pairs_to_map(pair_views(self.dimensions@));
        }
        self.dimensions.len() == 0
    }

    fn lookup(&self, key: &String) -> (r: Option<&String>)
        ensures
            r is Some <==> self@.contains_key(key@),
            r matches Some(v) ==> self@[key@] == v@,
    {
        proof {
            use_type_invariant(self);
            lemma_pairs_to_map(pair_views(self.dimensions@));
        }
        let ghost pv = pair_views(self.dimensions@);
        let mut i: usize = 0;
        while i < self.dimensions.len()
            invariant
                i <= self.dimensions.len(),
                pv == pair_views(self.dimensions@),
                forall|j: int| 0 <= j < i ==> pv[j].0 != key@,
            decreases self.dimensions.len() - i,
        {
            if self.dimensions[i].0 == *key {
                proof {
                    use_type_invariant(self);
                    lemma_pairs_to_map(pv);
                    assert(pv[i as int].0 == key@);
                    assert(self@[pv[i as int].0] == pv[i as int].1);
                }
                return Some(&self.dimensions[i].1);
            }
            i += 1;
        }
        None
    }

    /// Whether two buckets hold the same dimensions.
    pub fn same_as(&self, other: &Self) -> (r: bool)
        ensures
            r == (self@ == other@),
    {
        proof {
            use_type_invariant(self);
            use_type_invariant(other);
            lemma_pairs_to_map(pair_views(self.dimensions@));
            lemma_pairs_to_map(pair_views(other.dimensions@));
        }
        let a = self.includes(other);
        let b = other.includes(self);
        proof {
            if a && b {
                assert(self@ =~= other@);
            }
        }
        a && b
    }

    fn includes(&self, other: &Self) -> (r: bool)
        ensures
            r == forall|k: Seq<char>| #[trigger] other@.contains_key(k) ==> self@.contains_key(k) && self@[k] == other@[k],
    {
        proof {
            use_type_invariant(self);
            use_type_invariant(other);
            lemma_pairs_to_map(pair_views(self.dimensions@));
            lemma_pairs_to_map(pair_views(other.dimensions@));
        }
        let ghost pv = pair_views(other.dimensions@);
        let mut i: usize = 0;
        while i < other.dimensions.len()
            invariant
                i <= other.dimensions.len(),
                pv == pair_views(other.dimensions@),
                forall|j: int| 0 <= j < pv.len() ==> #[trigger] other@[pv[j].0] == pv[j].1,
                forall|k: Seq<char>| #[trigger] other@.contains_key(k) <==> exists|j: int| 0 <= j < pv.len() && pv[j].0 == k,
                forall|j: int| 0 <= j < i ==> self@.contains_key(#[trigger] pv[j].0) && self@[pv[j].0] == pv[j].1,
            decreases other.dimensions.len() - i,
        {
            let (k, v) = &other.dimensions[i];
            assert(pv[i as int] == (k@, v@));
            match self.lookup(k) {
                Some(w) => {
                    if *w != *v {
                        assert(other@.contains_key(k@));
                        assert(!(self@.contains_key(k@) && self@[k@] == other@[k@]));
                        return false;
                    }
                },
                None => {
                    assert(other@.contains_key(k@));
                    assert(!(self@.contains_key(k@) && self@[k@] == other@[k@]));
                    return false;
                },
            }
            i += 1;
        }
        assert forall|k: Seq<char>| #[trigger] other@.contains_key(k) implies self@.contains_key(k) && self@[k] == other@[k] by {
            let j = choose|j: int| 0 <= j < pv.len() && pv[j].0 == k;
            assert(self@.contains_key(pv[j].0));
        }
        true
    }
}

pub struct SupplyRequestView {
    pub target: SupplyTargetView,
    pub quantity: nat,
    pub bucket: Map<Seq<char>, Seq<char>>,
}

/// A request for a positive quantity of a target in a bucket.
#[derive(Debug, Eq, PartialEq, Ord, PartialOrd, Hash)]
pub struct SupplyRequest {
    target: SupplyTarget,
    quantity: u32,
    bucket: SupplyBucket,
}

impl View for SupplyRequest {
    type V = SupplyRequestView;

    closed spec fn view(&self) -> SupplyRequestView {
        SupplyRequestView { target: self.target@, quantity: self.quantity as nat, bucket: self.bucket@ }
    }
}

impl Clone for SupplyRequest {
    fn clone(&self) -> (r: Self)
        ensures
            r@ == self@,
    {
        SupplyRequest { target: self.target.clone(), quantity: self.quantity, bucket: self.bucket.clone() }
    }
}

impl SupplyRequest {
    pub fn new(target: SupplyTarget, quantity: u32) -> (r: Result<Self, SupplyError>)
        ensures
            r is Ok <==> quantity > 0,
            r matches Ok(req) ==> req@ == (SupplyRequestView { target: target@, quantity: quantity as nat, bucket: Map::empty() }),
            r matches Err(e) ==> e@ == SupplyErrorView::ZeroSupplyQuantity,
    {
        if quantity == 0 {
            return Err(SupplyError::ZeroSupplyQuantity);
        }
        Ok(SupplyRequest { target, quantity, bucket: SupplyBucket::empty() })
    }

    pub fn with_bucket(self, bucket: SupplyBucket) -> (r: Self)
        ensures
            r@ == (SupplyRequestView { bucket: bucket@, ..self@ }),
    {
        SupplyRequest { bucket, ..self }
    }

    pub fn target(&self) -> (r: &SupplyTarget)
        ensures
            r@ == self@.target,
    {
        &self.target
    }

    pub fn quantity(&self) -> (r: u32)
        ensures
            r == self@.quantity,
    {
        self.quantity
    }

    pub fn bucket(&self) -> (r: &SupplyBucket)
        ensures
            r@ == self@.bucket,
    {
        &self.bucket
    }

    fn matches(&self, target: &SupplyTarget, bucket: &SupplyBucket) -> (r: bool)
        ensures
            r == (self@.target == target@ && self@.bucket == bucket@),
    {
        self.target.same_as(target) && self.bucket.same_as(bucket)
    }

    /// Whether two requests ask for the same target, quantity and bucket.
    pub fn same_as(&self, other: &Self) -> (r: bool)
        ensures
            r == (self@ == other@),
    {
        self.target.same_as(&other.target) && self.quantity == other.quantity && self.bucket.same_as(&other.bucket)
    }
}

pub struct AvailableSupplyView {
    pub target: SupplyTargetView,
    pub bucket: Map<Seq<char>, Seq<char>>,
    pub quantity: nat,
}

/// The quantity of a target available in a bucket.
#[derive(Debug, Eq, PartialEq)]
pub struct AvailableSupply {
    target: SupplyTarget,
    bucket: SupplyBucket,
    quantity: u32,
}

impl View for AvailableSupply {
    type V = AvailableSupplyView;

    closed spec fn view(&self) -> AvailableSupplyView {
        AvailableSupplyView { target: self.target@, bucket: self.bucket@, quantity: self.quantity as nat }
    }
}

impl DeepView for AvailableSupply {
    type V = AvailableSupplyView;

    open spec fn deep_view(&self) -> AvailableSupplyView {
        self@
    }
}

impl AvailableSupply {
    pub fn new(target: SupplyTarget, bucket: SupplyBucket, quantity: u32) -> (r: Self)
        ensures
            r@ == (AvailableSupplyView { target: target@, bucket: bucket@, quantity: quantity as nat }),
    {
        AvailableSupply { target, bucket, quantity }
    }

    pub fn target(&self) -> (r: &SupplyTarget)
        ensures
            r@ == self@.target,
    {
        &self.target
    }

    pub fn bucket(&self) -> (r: &SupplyBucket)
        ensures
            r@ == self@.bucket,
    {
        &self.bucket
    }

    pub fn quantity(&self) -> (r: u32)
        ensures
            r == self@.quantity,
    {
        self.quantity
    }
}

/// Something that answers supply requests.
pub trait SupplyProvider {
    fn resolve_supply(&self, request: &SupplyRequest) -> SupplyResolution;
}

/// At most one available supply per target and bucket.
pub open spec fn distinct_availability(available: Seq<AvailableSupplyView>) -> bool {
    forall|i: int, j: int| 0 <= i < j < available.len() ==> !(available[i].target == available[j].target && available[i].bucket == available[j].bucket)
}

/// The available supplies a provider knows, at most one per target and bucket.
#[derive(Debug, Eq, PartialEq)]
pub struct SupplyView {
    available: Vec<AvailableSupply>,
}

impl SupplyView {
    #[verifier::type_invariant]
    spec fn well_formed(self) -> bool {
        distinct_availability(self.available.deep_view())
    }
}

impl View for SupplyView {
    type V = Seq<AvailableSupplyView>;

    closed spec fn view(&self) -> Seq<AvailableSupplyView> {
        self.available.deep_view()
    }
}

impl Default for SupplyView {
    fn default() -> (r: Self)
        ensures
            r@ == Seq::<AvailableSupplyView>::empty(),
    {
        let r = SupplyView { available: Vec::new() };
        assert(r@ =~= Seq::<AvailableSupplyView>::empty());
        r
    }
}

/// The resolution of a request against a list of available supplies.
pub open spec fn spec_resolve_supply(available: Seq<AvailableSupplyView>, request: SupplyRequestView) -> SupplyResolution {
    if exists|i: int| 0 <= i < available.len() && #[trigger] available[i].target == request.target && available[i].bucket == request.bucket {
        let i = choose|i: int| 0 <= i < available.len() && #[trigger] available[i].target == request.target && available[i].bucket == request.bucket;
        if request.quantity <= available[i].quantity {
            SupplyResolution::Available { requested: request.quantity as u32, available: available[i].quantity as u32 }
        } else {
            SupplyResolution::Unavailable {
                requested: request.quantity as u32,
                available: available[i].quantity as u32,
                reason: SupplyUnavailableReason::InsufficientSupply,
            }
        }
    } else {
        SupplyResolution::Unresolved { reason: SupplyUnresolvedReason::MissingAvailableSupply }
    }
}

impl SupplyView {
    /// Builds a view; the first supply whose target and bucket an earlier one
    /// already has is refused.
    pub fn new(available: Vec<AvailableSupply>) -> (r: Result<Self, SupplyError>)
        ensures
            r is Ok <==> distinct_availability(available.deep_view()),
            r matches Ok(v) ==> v@ == available.deep_view(),
            r matches Err(e) ==> exists|j: int| 0 <= j < available.len() && e@ == (SupplyErrorView::DuplicateAvailableSupply {
                target: #[trigger] available.deep_view()[j].target,
                bucket: available.deep_view()[j].bucket,
            }) && !distinct_availability(available.deep_view().take(j + 1)) && distinct_availability(available.deep_view().take(j)),
    {
        let ghost all = available.deep_view();
        let mut j: usize = 0;
        while j < available.len()
            invariant
                j <= available.len(),
                all == available.deep_view(),
                distinct_availability(all.take(j as int)),
            decreases available.len() - j,
        {
            let mut i: usize = 0;
            while i < j
                invariant
                    i <= j < available.len(),
                    all == available.deep_view(),
                    distinct_availability(all.take(j as int)),
                    forall|k: int| 0 <= k < i ==> !(#[trigger] all[k].target == all[j as int].target && all[k].bucket == all[j as int].bucket),
                decreases j - i,
            {
                assert(all[i as int] == available@[i as int]@);
                assert(all[j as int] == available@[j as int]@);
                if available[i].target.same_as(&available[j].target) && available[i].bucket.same_as(&available[j].bucket) {
                    proof {
                        let t = all.take(j + 1);
                        assert(t[i as int].target == t[j as int].target && t[i as int].bucket == t[j as int].bucket);
                        assert(all[j as int].target == all.take(j + 1)[j as int].target);
                        assert(available.deep_view()[j as int].target == all[j as int].target);
                        assert(!distinct_availability(t));
                        assert(distinct_availability(all.take(j as int)));
                        assert(all.take(j + 1)[i as int] == all[i as int]);
                        assert(all.take(j + 1)[j as int] == all[j as int]);
                        assert(all.take(j as int) =~= all.take(j + 1).take(j as int));
                        if distinct_availability(all) {
                            assert(!(all[i as int].target == all[j as int].target && all[i as int].bucket == all[j as int].bucket));
                        }
                    }
                    return Err(SupplyError::DuplicateAvailableSupply {
                        target: available[j].target.clone(),
                        bucket: available[j].bucket.clone(),
                    });
                }
                i += 1;
            }
            proof {
                let t = all.take(j + 1);
                let p = all.take(j as int);
                assert forall|a: int, b: int| #![trigger t[a], t[b]] 0 <= a < b < t.len() implies !(t[a].target == t[b].target && t[a].bucket == t[b].bucket) by {
                    if b < j {
                        assert(p[a] == t[a]);
                        assert(p[b] == t[b]);
                    } else {
                        assert(t[b] == all[j as int]);
                        assert(t[a] == all[a]);
                    }
                }
            }
            j += 1;
        }
        assert(all.take(available.len() as int) =~= all);
        Ok(SupplyView { available })
    }

    pub fn with_available(self, available: AvailableSupply) -> (r: Result<Self, SupplyError>)
        ensures
            r is Ok <==> !exists|i: int| 0 <= i < self@.len() && #[trigger] self@[i].target == available@.target && self@[i].bucket == available@.bucket,
            r matches Ok(v) ==> v@ == self@.push(available@),
            r matches Err(e) ==> e@ == (SupplyErrorView::DuplicateAvailableSupply { target: available@.target, bucket: available@.bucket }),
    {
        proof {
            use_type_invariant(&self);
        }
        let mut i: usize = 0;
        while i < self.available.len()
            invariant
                i <= self.available.len(),
                forall|j: int| 0 <= j < i ==> !(#[trigger] self@[j].target == available@.target && self@[j].bucket == available@.bucket),
            decreases self.available.len() - i,
        {
            assert(self@[i as int] == self.available@[i as int]@);
            if self.available[i].target.same_as(&available.target) && self.available[i].bucket.same_as(&available.bucket) {
                assert(self@[i as int].target == available@.target && self@[i as int].bucket == available@.bucket);
                return Err(SupplyError::DuplicateAvailableSupply { target: available.target, bucket: available.bucket });
            }
            i += 1;
        }
        let ghost before = self@;
        let mut v = self.available;
        v.push(available);
        assert(v.deep_view() =~= before.push(available@));
        Ok(SupplyView { available: v })
    }

    /// The available supplies.
    pub fn available(&self) -> (r: &[AvailableSupply])
        ensures
            r.deep_view() == self@,
    {
        self.available.as_slice()
    }

    /// Resolves a request: missing when no supply is known for its target and
    /// bucket, available when the known quantity covers it, unavailable otherwise.
    pub fn resolve(&self, request: &SupplyRequest) -> (r: SupplyResolution)
        ensures
            r == spec_resolve_supply(self@, request@),
    {
        proof {
            use_type_invariant(self);
        }
        let mut i: usize = 0;
        while i < self.available.len()
            invariant
                i <= self.available.len(),
                distinct_availability(self@),
                forall|j: int| 0 <= j < i ==> !(#[trigger] self@[j].target == request@.target && self@[j].bucket == request@.bucket),
            decreases self.available.len() - i,
        {
            assert(self@[i as int] == self.available@[i as int]@);
            let available = &self.available[i];
            if available.target.same_as(&request.target) && available.bucket.same_as(&request.bucket) {
                proof {
                    let c = choose|c: int| 0 <= c < self@.len() && #[trigger] self@[c].target == request@.target && self@[c].bucket == request@.bucket;
                    if c != i {
                        assert(c > i);
                        assert(!(self@[i as int].target == self@[c].target && self@[i as int].bucket == self@[c].bucket));
                    }
                }
                if request.quantity <= available.quantity {
                    return SupplyResolution::Available { requested: request.quantity, available: available.quantity };
                } else {
                    return SupplyResolution::Unavailable {
                        requested: request.quantity,
                        available: available.quantity,
                        reason: SupplyUnavailableReason::InsufficientSupply,
                    };
                }
            }
            i += 1;
        }
        SupplyResolution::Unresolved { reason: SupplyUnresolvedReason::MissingAvailableSupply }
    }
}

impl SupplyProvider for SupplyView {
    fn resolve_supply(&self, request: &SupplyRequest) -> (r: SupplyResolution)
        ensures
            r == spec_resolve_supply(self@, request@),
    {
        self.resolve(request)
    }
}

/// The answer to a supply request.
#[derive(Debug, Copy, Clone, Eq, PartialEq)]
pub enum SupplyResolution {
    Available { requested: u32, available: u32 },
    Unavailable { requested: u32, available: u32, reason: SupplyUnavailableReason },
    Unresolved { reason: SupplyUnresolvedReason },
}

impl SupplyResolution {
    pub fn is_available(&self) -> (r: bool)
        ensures
            r == self is Available,
    {
        matches!(self, SupplyResolution::Available { .. })
    }

    pub fn is_unresolved(&self) -> (r: bool)
        ensures
            r == self is Unresolved,
    {
        matches!(self, SupplyResolution::Unresolved { .. })
    }
}

#[derive(Debug, Copy, Clone, Eq, PartialEq)]
pub enum SupplyUnavailableReason {
    InsufficientSupply,
}

#[derive(Debug, Copy, Clone, Eq, PartialEq)]
pub enum SupplyUnresolvedReason {
    MissingAvailableSupply,
    ProviderUnavailable,
}

/// An operation on the supply ledger.
#[derive(Debug, Eq, PartialEq)]
pub enum SupplyOperation {
    Reserve(SupplyReserve),
    Unreserve(SupplyUnreserve),
    Consume(SupplyConsume),
    Unconsume(SupplyUnconsume),
}

/// Holds back a quantity under a new claim.
#[derive(Debug, Eq, PartialEq)]
pub struct SupplyReserve {
    claim_id: SupplyClaimId,
    request: SupplyRequest,
}

impl SupplyReserve {
    pub fn new(claim_id: SupplyClaimId, request: SupplyRequest) -> (r: Self)
        ensures
            r@ == (claim_id@, request@),
    {
        SupplyReserve { claim_id, request }
    }

    pub fn claim_id(&self) -> (r: &SupplyClaimId)
        ensures
            r@ == self@.0,
    {
        &self.claim_id
    }

    pub fn request(&self) -> (r: &SupplyRequest)
        ensures
            r@ == self@.1,
    {
        &self.request
    }
}

impl View for SupplyReserve {
    type V = (PrefixedIdView, SupplyRequestView);

    closed spec fn view(&self) -> (PrefixedIdView, SupplyRequestView) {
        (self.claim_id@, self.request@)
    }
}

/// Releases a reserved claim.
#[derive(Debug, Eq, PartialEq)]
pub struct SupplyUnreserve {
    claim_id: SupplyClaimId,
}

impl SupplyUnreserve {
    pub fn new(claim_id: SupplyClaimId) -> (r: Self)
        ensures
            r@ == claim_id@,
    {
        SupplyUnreserve { claim_id }
    }

    pub fn claim_id(&self) -> (r: &SupplyClaimId)
        ensures
            r@ == self@,
    {
        &self.claim_id
    }
}

impl View for SupplyUnreserve {
    type V = PrefixedIdView;

    closed spec fn view(&self) -> PrefixedIdView {
        self.claim_id@
    }
}

/// Uses up a quantity, committing a matching reservation or as a new claim.
#[derive(Debug, Eq, PartialEq)]
pub struct SupplyConsume {
    claim_id: SupplyClaimId,
    request: SupplyRequest,
}

impl SupplyConsume {
    pub fn new(claim_id: SupplyClaimId, request: SupplyRequest) -> (r: Self)
        ensures
            r@ == (claim_id@, request@),
    {
        SupplyConsume { claim_id, request }
    }

    pub fn claim_id(&self) -> (r: &SupplyClaimId)
        ensures
            r@ == self@.0,
    {
        &self.claim_id
    }

    pub fn request(&self) -> (r: &SupplyRequest)
        ensures
            r@ == self@.1,
    {
        &self.request
    }
}

impl View for SupplyConsume {
    type V = (PrefixedIdView, SupplyRequestView);

    closed spec fn view(&self) -> (PrefixedIdView, SupplyRequestView) {
        (self.claim_id@, self.request@)
    }
}

/// Gives back a consumed claim.
#[derive(Debug, Eq, PartialEq)]
pub struct SupplyUnconsume {
    claim_id: SupplyClaimId,
}

impl SupplyUnconsume {
    pub fn new(claim_id: SupplyClaimId) -> (r: Self)
        ensures
            r@ == claim_id@,
    {
        SupplyUnconsume { claim_id }
    }

    pub fn claim_id(&self) -> (r: &SupplyClaimId)
        ensures
            r@ == self@,
    {
        &self.claim_id
    }
}

impl View for SupplyUnconsume {
    type V = PrefixedIdView;

    closed spec fn view(&self) -> PrefixedIdView {
        self.claim_id@
    }
}

pub enum ClaimStateView {
    Reserved(SupplyRequestView),
    Unreserved(SupplyRequestView),
    Consumed(SupplyRequestView),
    Unconsumed(SupplyRequestView),
}

/// The state of one supply claim.
#[derive(Debug, Eq, PartialEq)]
pub enum SupplyClaimState {
    Reserved { request: SupplyRequest },
    Unreserved { request: SupplyRequest },
    Consumed { request: SupplyRequest },
    Unconsumed { request: SupplyRequest },
}

impl View for SupplyClaimState {
    type V = ClaimStateView;

    open spec fn view(&self) -> ClaimStateView {
        match self {
            SupplyClaimState::Reserved { request } => ClaimStateView::Reserved(request@),
            SupplyClaimState::Unreserved { request } => ClaimStateView::Unreserved(request@),
            SupplyClaimState::Consumed { request } => ClaimStateView::Consumed(request@),
            SupplyClaimState::Unconsumed { request } => ClaimStateView::Unconsumed(request@),
        }
    }
}

impl Clone for SupplyClaimState {
    fn clone(&self) -> (r: Self)
        ensures
            r@ == self@,
    {
        match self {
            SupplyClaimState::Reserved { request } => SupplyClaimState::Reserved { request: request.clone() },
            SupplyClaimState::Unreserved { request } => SupplyClaimState::Unreserved { request: request.clone() },
            SupplyClaimState::Consumed { request } => SupplyClaimState::Consumed { request: request.clone() },
            SupplyClaimState::Unconsumed { request } => SupplyClaimState::Unconsumed { request: request.clone() },
        }
    }
}

impl ClaimStateView {
    pub open spec fn request(self) -> SupplyRequestView {
        match self {
            ClaimStateView::Reserved(r) => r,
            ClaimStateView::Unreserved(r) => r,
            ClaimStateView::Consumed(r) => r,
            ClaimStateView::Unconsumed(r) => r,
        }
    }
}

impl SupplyClaimState {
    pub fn request(&self) -> (r: &SupplyRequest)
        ensures
            r@ == self@.request(),
    {
        match self {
            SupplyClaimState::Reserved { request } => request,
            SupplyClaimState::Unreserved { request } => request,
            SupplyClaimState::Consumed { request } => request,
            SupplyClaimState::Unconsumed { request } => request,
        }
    }
}

#[derive(Debug, Copy, Clone, Eq, PartialEq)]
pub enum SupplyOperationKind {
    Reserve,
    Unreserve,
    Consume,
    Unconsume,
}

/// The claims of a ledger in the order they were made, each ID once.
pub struct LedgerView {
    pub claims: Seq<(PrefixedIdView, ClaimStateView)>,
}

pub open spec fn distinct_claims(claims: Seq<(PrefixedIdView, ClaimStateView)>) -> bool {
    forall|i: int, j: int| 0 <= i < j < claims.len() ==> claims[i].0 != claims[j].0
}

impl LedgerView {
    pub open spec fn has(self, id: PrefixedIdView) -> bool {
        exists|i: int| 0 <= i < self.claims.len() && #[trigger] self.claims[i].0 == id
    }

    pub open spec fn index_of(self, id: PrefixedIdView) -> int {
        choose|i: int| 0 <= i < self.claims.len() && #[trigger] self.claims[i].0 == id
    }

    /// The state of a claim, if the ledger holds it.
    pub open spec fn claim(self, id: PrefixedIdView) -> Option<ClaimStateView> {
        if self.has(id) {
            Some(self.claims[self.index_of(id)].1)
        } else {
            None
        }
    }

    pub open spec fn set_claim(self, id: PrefixedIdView, state: ClaimStateView) -> LedgerView {
        if self.has(id) {
            LedgerView { claims: self.claims.update(self.index_of(id), (id, state)) }
        } else {
            LedgerView { claims: self.claims.push((id, state)) }
        }
    }

    /// What applying an operation to the ledger gives.
    pub open spec fn apply(self, op: OperationView) -> Result<LedgerView, SupplyErrorView> {
        match op {
            OperationView::Reserve(id, request) => if self.has(id) {
                Err(SupplyErrorView::DuplicateSupplyClaim(id))
            } else {
                Ok(self.set_claim(id, ClaimStateView::Reserved(request)))
            },
            OperationView::Unreserve(id) => match self.claim(id) {
                None => Err(SupplyErrorView::UnknownSupplyClaim(id)),
                Some(ClaimStateView::Reserved(request)) => Ok(self.set_claim(id, ClaimStateView::Unreserved(request))),
                Some(current) => Err(SupplyErrorView::InvalidSupplyTransition { claim_id: id, current, operation: SupplyOperationKind::Unreserve }),
            },
            OperationView::Consume(id, request) => match self.claim(id) {
                None => Ok(self.set_claim(id, ClaimStateView::Consumed(request))),
                Some(ClaimStateView::Reserved(reserved)) => if reserved == request {
                    Ok(self.set_claim(id, ClaimStateView::Consumed(reserved)))
                } else {
                    Err(SupplyErrorView::MismatchedSupplyClaim { claim_id: id, expected: reserved, actual: request })
                },
                Some(current) => Err(SupplyErrorView::InvalidSupplyTransition { claim_id: id, current, operation: SupplyOperationKind::Consume }),
            },
            OperationView::Unconsume(id) => match self.claim(id) {
                None => Err(SupplyErrorView::UnknownSupplyClaim(id)),
                Some(ClaimStateView::Consumed(request)) => Ok(self.set_claim(id, ClaimStateView::Unconsumed(request))),
                Some(current) => Err(SupplyErrorView::InvalidSupplyTransition { claim_id: id, current, operation: SupplyOperationKind::Unconsume }),
            },
        }
    }
}

/// The quantity held by reserved (or, with `consumed`, consumed) claims of a
/// target and bucket.
pub open spec fn held_quantity(claims: Seq<(PrefixedIdView, ClaimStateView)>, target: SupplyTargetView, bucket: Map<Seq<char>, Seq<char>>, consumed: bool) -> int
    decreases claims.len(),
{
    if claims.len() == 0 {
        0
    } else {
        held_quantity(claims.drop_last(), target, bucket, consumed) + claim_contribution(claims.last().1, target, bucket, consumed)
    }
}

pub open spec fn claim_contribution(state: ClaimStateView, target: SupplyTargetView, bucket: Map<Seq<char>, Seq<char>>, consumed: bool) -> int {
    match state {
        ClaimStateView::Reserved(r) => if !consumed && r.target == target && r.bucket == bucket { r.quantity as int } else { 0 },
        ClaimStateView::Consumed(r) => if consumed && r.target == target && r.bucket == bucket { r.quantity as int } else { 0 },
        _ => 0,
    }
}

pub enum OperationView {
    Reserve(PrefixedIdView, SupplyRequestView),
    Unreserve(PrefixedIdView),
    Consume(PrefixedIdView, SupplyRequestView),
    Unconsume(PrefixedIdView),
}

impl View for SupplyOperation {
    type V = OperationView;

    open spec fn view(&self) -> OperationView {
        match self {
            SupplyOperation::Reserve(op) => OperationView::Reserve(op@.0, op@.1),
            SupplyOperation::Unreserve(op) => OperationView::Unreserve(op@),
            SupplyOperation::Consume(op) => OperationView::Consume(op@.0, op@.1),
            SupplyOperation::Unconsume(op) => OperationView::Unconsume(op@),
        }
    }
}

/// The ledger of supply claims.
#[derive(Debug, Eq, PartialEq)]
pub struct SupplyLedger {
    claims: Vec<(SupplyClaimId, SupplyClaimState)>,
}

pub open spec fn claim_views(v: Seq<(SupplyClaimId, SupplyClaimState)>) -> Seq<(PrefixedIdView, ClaimStateView)> {
    v.map_values(|p: (SupplyClaimId, SupplyClaimState)| (p.0@, p.1@))
}

impl SupplyLedger {
    #[verifier::type_invariant]
    spec fn well_formed(self) -> bool {
        distinct_claims(claim_views(self.claims@))
    }
}

impl View for SupplyLedger {
    type V = LedgerView;

    closed spec fn view(&self) -> LedgerView {
        LedgerView { claims: claim_views(self.claims@) }
    }
}

impl Default for SupplyLedger {
    fn default() -> (r: Self)
        ensures
            r@.claims == Seq::<(PrefixedIdView, ClaimStateView)>::empty(),
    {
        Self::new()
    }
}

impl SupplyLedger {
    pub fn new() -> (r: Self)
        ensures
            r@.claims == Seq::<(PrefixedIdView, ClaimStateView)>::empty(),
    {
        let r = SupplyLedger { claims: Vec::new() };
        assert(r@.claims =~= Seq::<(PrefixedIdView, ClaimStateView)>::empty());
        r
    }

    fn find(&self, claim_id: &SupplyClaimId) -> (r: Option<usize>)
        ensures
            r is Some <==> self@.has(claim_id@),
            r matches Some(i) ==> i < self.claims.len() && self@.index_of(claim_id@) == i && self@.claims[i as int].0 == claim_id@,
    {
        proof {
            use_type_invariant(self);
        }
        let mut i: usize = 0;
        while i < self.claims.len()
            invariant
                i <= self.claims.len(),
                distinct_claims(self@.claims),
                forall|j: int| 0 <= j < i ==> #[trigger] self@.claims[j].0 != claim_id@,
            decreases self.claims.len() - i,
        {
            assert(self@.claims[i as int] == (self.claims@[i as int].0@, self.claims@[i as int].1@));
            if self.claims[i].0.same_as(claim_id) {
                proof {
                    assert(self@.claims[i as int].0 == claim_id@);
                    assert(self@.has(claim_id@));
                    let c = self@.index_of(claim_id@);
                    assert(self@.claims[c].0 == claim_id@);
                    if c != i {
                        assert(self@.claims[c].0 != self@.claims[i as int].0);
                    }
                }
                return Some(i);
            }
            i += 1;
        }
        None
    }

    /// Applies an operation; on an error the ledger is unchanged.
    pub fn apply(&mut self, operation: SupplyOperation) -> (r: Result<(), SupplyError>)
        ensures
            match r {
                Ok(_) => old(self)@.apply(operation@) == Ok::<LedgerView, SupplyErrorView>(final(self)@),
                Err(e) => old(self)@.apply(operation@) == Err::<LedgerView, SupplyErrorView>(e@) && final(self)@ == old(self)@,
            },
    {
        proof {
            use_type_invariant(&*self);
        }
        let ghost before = self@;
        let (claim_id, request, kind) = match operation {
            SupplyOperation::Reserve(op) => (op.claim_id, Some(op.request), SupplyOperationKind::Reserve),
            SupplyOperation::Unreserve(op) => (op.claim_id, None, SupplyOperationKind::Unreserve),
            SupplyOperation::Consume(op) => (op.claim_id, Some(op.request), SupplyOperationKind::Consume),
            SupplyOperation::Unconsume(op) => (op.claim_id, None, SupplyOperationKind::Unconsume),
        };
        match self.find(&claim_id) {
            None => {
                match (kind, request) {
                    (SupplyOperationKind::Reserve, Some(request)) => {
                        self.push_claim(claim_id, SupplyClaimState::Reserved { request });
                        Ok(())
                    },
                    (SupplyOperationKind::Consume, Some(request)) => {
                        self.push_claim(claim_id, SupplyClaimState::Consumed { request });
                        Ok(())
                    },
                    _ => Err(SupplyError::UnknownSupplyClaim(claim_id)),
                }
            },
            Some(i) => {
                let current = self.claims[i].1.clone();
                assert(current@ == before.claims[i as int].1);
                match (kind, current, request) {
                    (SupplyOperationKind::Reserve, _, _) => Err(SupplyError::DuplicateSupplyClaim(claim_id)),
                    (SupplyOperationKind::Unreserve, SupplyClaimState::Reserved { request: reserved }, _) => {
                        self.set_claim(i, SupplyClaimState::Unreserved { request: reserved });
                        Ok(())
                    },
                    (SupplyOperationKind::Consume, SupplyClaimState::Reserved { request: reserved }, Some(request)) => {
                        if reserved.same_as(&request) {
                            self.set_claim(i, SupplyClaimState::Consumed { request: reserved });
                            Ok(())
                        } else {
                            Err(SupplyError::MismatchedSupplyClaim { claim_id, expected: reserved, actual: request })
                        }
                    },
                    (SupplyOperationKind::Unconsume, SupplyClaimState::Consumed { request: consumed }, _) => {
                        self.set_claim(i, SupplyClaimState::Unconsumed { request: consumed });
                        Ok(())
                    },
                    (kind, current, _) => Err(SupplyError::InvalidSupplyTransition { claim_id, current, operation: kind }),
                }
            },
        }
    }

    fn push_claim(&mut self, claim_id: SupplyClaimId, state: SupplyClaimState)
        requires
            !old(self)@.has(claim_id@),
        ensures
            final(self)@ == old(self)@.set_claim(claim_id@, state@),
    {
        proof {
            use_type_invariant(&*self);
        }
        let ghost before = self@;
        let ghost id = claim_id@;
        let ghost st = state@;
        let mut claims: Vec<(SupplyClaimId, SupplyClaimState)> = Vec::new();
        std::mem::swap(&mut claims, &mut self.claims);
        claims.push((claim_id, state));
        assert(claim_views(claims@) =~= before.claims.push((id, st)));
        assert(distinct_claims(claim_views(claims@))) by {
            let cv = claim_views(claims@);
            assert forall|i: int, j: int| 0 <= i < j < cv.len() implies cv[i].0 != cv[j].0 by {
                if j == cv.len() - 1 {
                    assert(cv[i] == before.claims[i]);
                    if before.claims[i].0 == id {
                        assert(before.has(id));
                    }
                }
            }
        }
        self.claims = claims;
        assert(self@.claims =~= before.claims.push((id, st)));
        assert(distinct_claims(self@.claims)) by {
            assert forall|i: int, j: int| 0 <= i < j < self@.claims.len() implies self@.claims[i].0 != self@.claims[j].0 by {
                if j == self@.claims.len() - 1 {
                    assert(self@.claims[i] == before.claims[i]);
                    if before.claims[i].0 == id {
                        assert(before.has(id));
                    }
                }
            }
        }
    }

    fn set_claim(&mut self, i: usize, state: SupplyClaimState)
        requires
            i < old(self).claims.len(),
            old(self)@.index_of(old(self)@.claims[i as int].0) == i,
        ensures
            final(self)@ == old(self)@.set_claim(old(self)@.claims[i as int].0, state@),
    {
        proof {
            use_type_invariant(&*self);
        }
        let ghost before = self@;
        let ghost id = before.claims[i as int].0;
        assert(before.has(id));
        let claim_id = self.claims[i].0.clone();
        let ghost st = state@;
        let mut claims: Vec<(SupplyClaimId, SupplyClaimState)> = Vec::new();
        std::mem::swap(&mut claims, &mut self.claims);
        claims.set(i, (claim_id, state));
        assert(claim_views(claims@) =~= before.claims.update(i as int, (id, st)));
        self.claims = claims;
        assert(self@.claims =~= before.claims.update(i as int, (id, st)));
    }

    pub fn claim(&self, claim_id: &SupplyClaimId) -> (r: Option<&SupplyClaimState>)
        ensures
            match r {
                Some(s) => self@.claim(claim_id@) == Some(s@),
                None => self@.claim(claim_id@) is None,
            },
    {
        match self.find(claim_id) {
            Some(i) => {
                assert(self@.claims[i as int].1 == self.claims@[i as int].1@);
                Some(&self.claims[i].1)
            },
            None => None,
        }
    }

    fn held(&self, target: &SupplyTarget, bucket: &SupplyBucket, consumed: bool) -> (r: u32)
        requires
            held_quantity(self@.claims, target@, bucket@, consumed) <= u32::MAX,
        ensures
            r == held_quantity(self@.claims, target@, bucket@, consumed),
    {
        let mut total: u32 = 0;
        let mut i: usize = 0;
        while i < self.claims.len()
            invariant
                i <= self.claims.len(),
                held_quantity(self@.claims, target@, bucket@, consumed) <= u32::MAX,
                total == held_quantity(self@.claims.take(i as int), target@, bucket@, consumed),
            decreases self.claims.len() - i,
        {
            let ghost prefix = self@.claims.take(i + 1);
            assert(prefix.drop_last() =~= self@.claims.take(i as int));
            assert(prefix.last().1 == self.claims@[i as int].1@);
            proof {
                lemma_held_prefix_bounded(self@.claims, target@, bucket@, consumed, i + 1);
            }
            let add: u32 = match &self.claims[i].1 {
                SupplyClaimState::Reserved { request } => if !consumed && request.matches(target, bucket) {
                    request.quantity()
                } else {
                    0
                },
                SupplyClaimState::Consumed { request } => if consumed && request.matches(target, bucket) {
                    request.quantity()
                } else {
                    0
                },
                _ => 0,
            };
            total = total + add;
            i += 1;
        }
        assert(self@.claims.take(self.claims.len() as int) =~= self@.claims);
        total
    }

    /// The total quantity of reserved claims of a target and bucket.
    pub fn reserved_quantity(&self, target: &SupplyTarget, bucket: &SupplyBucket) -> (r: u32)
        requires
            held_quantity(self@.claims, target@, bucket@, false) <= u32::MAX,
        ensures
            r == held_quantity(self@.claims, target@, bucket@, false),
    {
        self.held(target, bucket, false)
    }

    /// The total quantity of consumed claims of a target and bucket.
    pub fn consumed_quantity(&self, target: &SupplyTarget, bucket: &SupplyBucket) -> (r: u32)
        requires
            held_quantity(self@.claims, target@, bucket@, true) <= u32::MAX,
        ensures
            r == held_quantity(self@.claims, target@, bucket@, true),
    {
        self.held(target, bucket, true)
    }
}

proof fn lemma_held_prefix_bounded(claims: Seq<(PrefixedIdView, ClaimStateView)>, target: SupplyTargetView, bucket: Map<Seq<char>, Seq<char>>, consumed: bool, k: int)
    requires
        0 <= k <= claims.len(),
    ensures
        held_quantity(claims.take(k), target, bucket, consumed) <= held_quantity(claims, target, bucket, consumed),
    decreases claims.len() - k,
{
    if k < claims.len() {
        lemma_held_prefix_bounded(claims, target, bucket, consumed, k + 1);
        assert(claims.take(k + 1).drop_last() =~= claims.take(k));
        assert(claims.take(k + 1).last() == claims[k]);
    } else {
        assert(claims.take(k) =~= claims);
    }
}

pub enum SupplyErrorView {
    EmptySupplyKey,
    InvalidSupplyKey(Seq<char>),
    EmptyBucketDimensionKey,
    EmptyBucketDimensionValue { key: Seq<char> },
    DuplicateBucketDimension(Seq<char>),
    ZeroSupplyQuantity,
    DuplicateAvailableSupply { target: SupplyTargetView, bucket: Map<Seq<char>, Seq<char>> },
    DuplicateSupplyClaim(PrefixedIdView),
    UnknownSupplyClaim(PrefixedIdView),
    InvalidSupplyTransition { claim_id: PrefixedIdView, current: ClaimStateView, operation: SupplyOperationKind },
    MismatchedSupplyClaim { claim_id: PrefixedIdView, expected: SupplyRequestView, actual: SupplyRequestView },
}

#[derive(Debug, Eq, PartialEq)]
pub enum SupplyError {
    EmptySupplyKey,
    InvalidSupplyKey(String),
    EmptyBucketDimensionKey,
    EmptyBucketDimensionValue { key: String },
    DuplicateBucketDimension(String),
    ZeroSupplyQuantity,
    DuplicateAvailableSupply { target: SupplyTarget, bucket: SupplyBucket },
    DuplicateSupplyClaim(SupplyClaimId),
    UnknownSupplyClaim(SupplyClaimId),
    InvalidSupplyTransition { claim_id: SupplyClaimId, current: SupplyClaimState, operation: SupplyOperationKind },
    MismatchedSupplyClaim { claim_id: SupplyClaimId, expected: SupplyRequest, actual: SupplyRequest },
}

impl View for SupplyError {
    type V = SupplyErrorView;

    open spec fn view(&self) -> SupplyErrorView {
        match self {
            SupplyError::EmptySupplyKey => SupplyErrorView::EmptySupplyKey,
            SupplyError::InvalidSupplyKey(s) => SupplyErrorView::InvalidSupplyKey(s@),
            SupplyError::EmptyBucketDimensionKey => SupplyErrorView::EmptyBucketDimensionKey,
            SupplyError::EmptyBucketDimensionValue { key } => SupplyErrorView::EmptyBucketDimensionValue { key: key@ },
            SupplyError::DuplicateBucketDimension(k) => SupplyErrorView::DuplicateBucketDimension(k@),
            SupplyError::ZeroSupplyQuantity => SupplyErrorView::ZeroSupplyQuantity,
            SupplyError::DuplicateAvailableSupply { target, bucket } => SupplyErrorView::DuplicateAvailableSupply { target: target@, bucket: bucket@ },
            SupplyError::DuplicateSupplyClaim(id) => SupplyErrorView::DuplicateSupplyClaim(id@),
            SupplyError::UnknownSupplyClaim(id) => SupplyErrorView::UnknownSupplyClaim(id@),
            SupplyError::InvalidSupplyTransition { claim_id, current, operation } => SupplyErrorView::InvalidSupplyTransition { claim_id: claim_id@, current: current@, operation: *operation },
            SupplyError::MismatchedSupplyClaim { claim_id, expected, actual } => SupplyErrorView::MismatchedSupplyClaim { claim_id: claim_id@, expected: expected@, actual: actual@ },
        }
    }
}

/// Reserving a new claim and then unreserving it leaves the reserved quantity
/// of every target and bucket where it was, and records the claim as
/// unreserved with its request.
pub proof fn lemma_reserve_then_unreserve(ledger: LedgerView, id: PrefixedIdView, request: SupplyRequestView, target: SupplyTargetView, bucket: Map<Seq<char>, Seq<char>>)
    requires
        distinct_claims(ledger.claims),
        !ledger.has(id),
    ensures
        ledger.apply(OperationView::Reserve(id, request)) is Ok,
        ({
            let reserved = ledger.apply(OperationView::Reserve(id, request))->Ok_0;
            &&& reserved.claim(id) == Some(ClaimStateView::Reserved(request))
            &&& held_quantity(reserved.claims, target, bucket, false) == held_quantity(ledger.claims, target, bucket, false)
                + if request.target == target && request.bucket == bucket { request.quantity } else { 0 }
            &&& reserved.apply(OperationView::Unreserve(id)) is Ok
            &&& {
                let released = reserved.apply(OperationView::Unreserve(id))->Ok_0;
                &&& released.claim(id) == Some(ClaimStateView::Unreserved(request))
                &&& held_quantity(released.claims, target, bucket, false) == held_quantity(ledger.claims, target, bucket, false)
            }
        }),
{
    let reserved = ledger.set_claim(id, ClaimStateView::Reserved(request));
    assert(reserved.claims == ledger.claims.push((id, ClaimStateView::Reserved(request))));
    let n = ledger.claims.len() as int;
    assert(reserved.claims[n].0 == id);
    assert(reserved.has(id));
    let k = reserved.index_of(id);
    if k != n {
        assert(reserved.claims[k] == ledger.claims[k]);
        assert(ledger.has(id));
    }
    assert(reserved.claims.drop_last() =~= ledger.claims);
    let released = reserved.set_claim(id, ClaimStateView::Unreserved(request));
    assert(released.claims =~= ledger.claims.push((id, ClaimStateView::Unreserved(request))));
    assert(released.claims.drop_last() =~= ledger.claims);
    assert(released.claims[n].0 == id);
    assert(released.has(id));
    let k2 = released.index_of(id);
    if k2 != n {
        assert(released.claims[k2] == ledger.claims[k2]);
        assert(ledger.has(id));
    }
}

/// The quantity a request asks of a target and bucket: its own quantity when
/// it is for them, else nothing.
pub open spec fn asked_of(r: SupplyRequestView, target: SupplyTargetView, bucket: Map<Seq<char>, Seq<char>>) -> int {
    if r.target == target && r.bucket == bucket {
        r.quantity as int
    } else {
        0
    }
}

/// Changing one claim's state changes the held quantity by the difference
/// of what the old and new states hold.
proof fn lemma_held_update(
    claims: Seq<(PrefixedIdView, ClaimStateView)>,
    k: int,
    p: (PrefixedIdView, ClaimStateView),
    target: SupplyTargetView,
    bucket: Map<Seq<char>, Seq<char>>,
    consumed: bool,
)
    requires
        0 <= k < claims.len(),
    ensures
        held_quantity(claims.update(k, p), target, bucket, consumed) == held_quantity(claims, target, bucket, consumed)
            - claim_contribution(claims[k].1, target, bucket, consumed) + claim_contribution(p.1, target, bucket, consumed),
    decreases claims.len(),
{
    let u = claims.update(k, p);
    if k == claims.len() - 1 {
        assert(u.drop_last() =~= claims.drop_last());
    } else {
        assert(u.drop_last() =~= claims.drop_last().update(k, p));
        lemma_held_update(claims.drop_last(), k, p, target, bucket, consumed);
    }
}

/// What each operation does to the reserved and the consumed quantity of
/// every target and bucket. Reserving adds the request to the reserved
/// quantity and leaves the consumed quantity alone; unreserving takes the
/// reserved request back out of the reserved quantity and leaves the
/// consumed quantity alone; consuming adds the request to the consumed
/// quantity and takes it out of the reserved quantity when it commits a
/// reservation; unconsuming takes the consumed request back out of the
/// consumed quantity and leaves the reserved quantity alone.
pub proof fn lemma_operation_quantities(
    ledger: LedgerView,
    op: OperationView,
    target: SupplyTargetView,
    bucket: Map<Seq<char>, Seq<char>>,
)
    requires
        ledger.apply(op) is Ok,
    ensures
        ({
            let next = ledger.apply(op)->Ok_0;
            let reserved_before = held_quantity(ledger.claims, target, bucket, false);
            let consumed_before = held_quantity(ledger.claims, target, bucket, true);
            let reserved_after = held_quantity(next.claims, target, bucket, false);
            let consumed_after = held_quantity(next.claims, target, bucket, true);
            match op {
                OperationView::Reserve(id, r) => {
                    &&& reserved_after == reserved_before + asked_of(r, target, bucket)
                    &&& consumed_after == consumed_before
                },
                OperationView::Unreserve(id) => {
                    &&& ledger.claim(id) matches Some(ClaimStateView::Reserved(r))
                    &&& reserved_after == reserved_before - asked_of(r, target, bucket)
                    &&& consumed_after == consumed_before
                },
                OperationView::Consume(id, r) => {
                    &&& consumed_after == consumed_before + asked_of(r, target, bucket)
                    &&& reserved_after == reserved_before - if ledger.has(id) {
                        asked_of(r, target, bucket)
                    } else {
                        0
                    }
                },
                OperationView::Unconsume(id) => {
                    &&& ledger.claim(id) matches Some(ClaimStateView::Consumed(r))
                    &&& consumed_after == consumed_before - asked_of(r, target, bucket)
                    &&& reserved_after == reserved_before
                },
            }
        }),
{
    let claims = ledger.claims;
    match op {
        OperationView::Reserve(id, r) => {
            let next = ledger.set_claim(id, ClaimStateView::Reserved(r));
            assert(next.claims.drop_last() =~= claims);
        },
        OperationView::Unreserve(id) => {
            let k = ledger.index_of(id);
            let st = ledger.claim(id)->Some_0;
            lemma_held_update(claims, k, (id, ClaimStateView::Unreserved(st->Reserved_0)), target, bucket, false);
            lemma_held_update(claims, k, (id, ClaimStateView::Unreserved(st->Reserved_0)), target, bucket, true);
        },
        OperationView::Consume(id, r) => {
            if ledger.has(id) {
                let k = ledger.index_of(id);
                lemma_held_update(claims, k, (id, ClaimStateView::Consumed(r)), target, bucket, false);
                lemma_held_update(claims, k, (id, ClaimStateView::Consumed(r)), target, bucket, true);
            } else {
                let next = ledger.set_claim(id, ClaimStateView::Consumed(r));
                assert(next.claims.drop_last() =~= claims);
            }
        },
        OperationView::Unconsume(id) => {
            let k = ledger.index_of(id);
            let st = ledger.claim(id)->Some_0;
            lemma_held_update(claims, k, (id, ClaimStateView::Unconsumed(st->Consumed_0)), target, bucket, false);
            lemma_held_update(claims, k, (id, ClaimStateView::Unconsumed(st->Consumed_0)), target, bucket, true);
        },
    }
}

/// An empty ledger holds nothing reserved and nothing consumed.
pub proof fn lemma_empty_ledger_holds_nothing(target: SupplyTargetView, bucket: Map<Seq<char>, Seq<char>>)
    ensures
        held_quantity(Seq::empty(), target, bucket, false) == 0,
        held_quantity(Seq::empty(), target, bucket, true) == 0,
{
}

/// Consuming a new claim and then unconsuming it leaves the consumed quantity
/// of every target and bucket where it was.
pub proof fn lemma_consume_then_unconsume(ledger: LedgerView, id: PrefixedIdView, request: SupplyRequestView, target: SupplyTargetView, bucket: Map<Seq<char>, Seq<char>>)
    requires
        distinct_claims(ledger.claims),
        !ledger.has(id),
    ensures
        ledger.apply(OperationView::Consume(id, request)) is Ok,
        ({
            let consumed = ledger.apply(OperationView::Consume(id, request))->Ok_0;
            &&& consumed.claim(id) == Some(ClaimStateView::Consumed(request))
            &&& consumed.apply(OperationView::Unconsume(id)) is Ok
            &&& {
                let returned = consumed.apply(OperationView::Unconsume(id))->Ok_0;
                &&& returned.claim(id) == Some(ClaimStateView::Unconsumed(request))
                &&& held_quantity(returned.claims, target, bucket, true) == held_quantity(ledger.claims, target, bucket, true)
            }
        }),
{
    let consumed = ledger.set_claim(id, ClaimStateView::Consumed(request));
    assert(consumed.claims == ledger.claims.push((id, ClaimStateView::Consumed(request))));
    let n = ledger.claims.len() as int;
    assert(consumed.claims[n].0 == id);
    assert(consumed.has(id));
    let k = consumed.index_of(id);
    if k != n {
        assert(consumed.claims[k] == ledger.claims[k]);
        assert(ledger.has(id));
    }
    let returned = consumed.set_claim(id, ClaimStateView::Unconsumed(request));
    assert(returned.claims =~= ledger.claims.push((id, ClaimStateView::Unconsumed(request))));
    assert(returned.claims.drop_last() =~= ledger.claims);
    assert(returned.claims[n].0 == id);
    assert(returned.has(id));
    let k2 = returned.index_of(id);
    if k2 != n {
        assert(returned.claims[k2] == ledger.claims[k2]);
        assert(ledger.has(id));
    }
}

impl SupplyRequest {
    /// The request's bucket dimensions in ascending key order.
    pub closed spec fn bucket_pairs(self) -> Seq<(Seq<char>, Seq<char>)> {
        self.bucket.pairs()
    }
}

/// The `Debug` text of a supply target.
pub open spec fn target_debug(t: SupplyTargetView) -> Seq<char> {
    match t {
        SupplyTargetView::Choice(id) => "Choice(ComponentId("@ + str_debug_of(id.full()) + "))"@,
        SupplyTargetView::CatalogItem(id) => "CatalogItem(CatalogItemId("@ + str_debug_of(id.full()) + "))"@,
        SupplyTargetView::Custom(key) => "Custom(SupplyKey("@ + str_debug_of(key) + "))"@,
    }
}

/// The `Debug` text of one map entry.
pub open spec fn pair_debug(p: (Seq<char>, Seq<char>)) -> Seq<char> {
    str_debug_of(p.0) + ": "@ + str_debug_of(p.1)
}

/// The `Debug` text of map entries, comma separated.
pub open spec fn pairs_debug(ps: Seq<(Seq<char>, Seq<char>)>) -> Seq<char>
    decreases ps.len(),
{
    if ps.len() == 0 {
        Seq::empty()
    } else if ps.len() == 1 {
        pair_debug(ps[0])
    } else {
        pairs_debug(ps.drop_last()) + ", "@ + pair_debug(ps.last())
    }
}

/// The `Debug` text of a supply request.
pub open spec fn request_debug(r: SupplyRequest) -> Seq<char> {
    "SupplyRequest { target: "@ + target_debug(r@.target) + ", quantity: "@ + decimal(r@.quantity) + ", bucket: SupplyBucket { dimensions: {"@
        + pairs_debug(r.bucket_pairs()) + "} } }"@
}

/// The `Debug` text of a claim state.
pub open spec fn claim_state_debug(st: SupplyClaimState) -> Seq<char> {
    match st {
        SupplyClaimState::Reserved { request } => "Reserved { request: "@ + request_debug(request) + " }"@,
        SupplyClaimState::Unreserved { request } => "Unreserved { request: "@ + request_debug(request) + " }"@,
        SupplyClaimState::Consumed { request } => "Consumed { request: "@ + request_debug(request) + " }"@,
        SupplyClaimState::Unconsumed { request } => "Unconsumed { request: "@ + request_debug(request) + " }"@,
    }
}

/// The `Debug` text of an operation kind.
pub open spec fn operation_kind_debug(k: SupplyOperationKind) -> Seq<char> {
    match k {
        SupplyOperationKind::Reserve => "Reserve"@,
        SupplyOperationKind::Unreserve => "Unreserve"@,
        SupplyOperationKind::Consume => "Consume"@,
        SupplyOperationKind::Unconsume => "Unconsume"@,
    }
}

/// The text a supply error reads as.
pub open spec fn supply_error_message(e: SupplyError) -> Seq<char> {
    match e {
        SupplyError::EmptySupplyKey => "supply key cannot be empty"@,
        SupplyError::InvalidSupplyKey(value) => "invalid supply key `"@ + value@ + "`"@,
        SupplyError::EmptyBucketDimensionKey => "supply bucket key cannot be empty"@,
        SupplyError::EmptyBucketDimensionValue { key } => "supply bucket value for `"@ + key@ + "` cannot be empty"@,
        SupplyError::DuplicateBucketDimension(key) => "duplicate supply bucket dimension `"@ + key@ + "`"@,
        SupplyError::ZeroSupplyQuantity => "supply quantity cannot be zero"@,
        SupplyError::DuplicateAvailableSupply { .. } => "duplicate available supply for target and bucket"@,
        SupplyError::DuplicateSupplyClaim(id) => "duplicate supply claim `"@ + id@.full() + "`"@,
        SupplyError::UnknownSupplyClaim(id) => "unknown supply claim `"@ + id@.full() + "`"@,
        SupplyError::InvalidSupplyTransition { claim_id, current, operation } => "cannot apply supply operation `"@
            + operation_kind_debug(operation) + "` to claim `"@ + claim_id@.full() + "` in state `"@ + claim_state_debug(current)
            + "`"@,
        SupplyError::MismatchedSupplyClaim { claim_id, .. } => "supply claim `"@ + claim_id@.full() + "` request does not match"@,
    }
}

fn push_target_debug(s: &mut String, t: &SupplyTarget)
    ensures
        final(s)@ == old(s)@ + target_debug(t@),
{
    let ghost s0 = s@;
    match t {
        SupplyTarget::Choice(id) => {
            push_text(s, "Choice(ComponentId(");
            push_text(s, debug_text(id.as_str()).as_str());
            push_text(s, "))");
        },
        SupplyTarget::CatalogItem(id) => {
            push_text(s, "CatalogItem(CatalogItemId(");
            push_text(s, debug_text(id.as_str()).as_str());
            push_text(s, "))");
        },
        SupplyTarget::Custom(key) => {
            push_text(s, "Custom(SupplyKey(");
            push_text(s, debug_text(key.as_str()).as_str());
            push_text(s, "))");
        },
    }
    assert(s@ =~= s0 + target_debug(t@));
}

proof fn lemma_pairs_debug_step(ps: Seq<(Seq<char>, Seq<char>)>, i: int)
    requires
        0 <= i < ps.len(),
    ensures
        pairs_debug(ps.take(i + 1)) == pairs_debug(ps.take(i)) + (if i == 0 { Seq::<char>::empty() } else { ", "@ }) + pair_debug(ps[i]),
{
    let t = ps.take(i + 1);
    assert(t.drop_last() =~= ps.take(i));
    assert(t.last() == ps[i]);
    if i == 0 {
        assert(t.len() == 1);
        assert(pairs_debug(ps.take(0)) =~= Seq::<char>::empty());
        assert(pair_debug(ps[0]) =~= Seq::<char>::empty() + Seq::<char>::empty() + pair_debug(ps[0]));
    }
}

fn push_bucket_pairs_debug(s: &mut String, b: &SupplyBucket)
    ensures
        final(s)@ == old(s)@ + pairs_debug(b.pairs()),
{
    let ghost s0 = s@;
    let ghost ps = b.pairs();
    let mut i: usize = 0;
    assert(ps.take(0) =~= Seq::<(Seq<char>, Seq<char>)>::empty());
    assert(s@ =~= s0 + pairs_debug(ps.take(0)));
    while i < b.dimensions.len()
        invariant
            i <= b.dimensions.len(),
            ps == b.pairs(),
            ps == pair_views(b.dimensions@),
            s@ == s0 + pairs_debug(ps.take(i as int)),
        decreases b.dimensions.len() - i,
    {
        let ghost before = s@;
        if i > 0 {
            push_text(s, ", ");
        }
        let ghost mid = s@;
        push_text(s, debug_text(b.dimensions[i].0.as_str()).as_str());
        push_text(s, ": ");
        push_text(s, debug_text(b.dimensions[i].1.as_str()).as_str());
        proof {
            lemma_pairs_debug_step(ps, i as int);
            assert(ps[i as int] == (b.dimensions@[i as int].0@, b.dimensions@[i as int].1@));
            assert(s@ =~= mid + pair_debug(ps[i as int]));
            assert(mid =~= before + (if i == 0 { Seq::<char>::empty() } else { ", "@ }));
            assert(s@ =~= s0 + pairs_debug(ps.take(i + 1)));
        }
        i += 1;
    }
    assert(ps.take(b.dimensions.len() as int) =~= ps);
}

fn push_request_debug(s: &mut String, r: &SupplyRequest)
    ensures
        final(s)@ == old(s)@ + request_debug(*r),
{
    let ghost s0 = s@;
    push_text(s, "SupplyRequest { target: ");
    let ghost a = s@;
    push_target_debug(s, &r.target);
    let ghost b = s@;
    push_text(s, ", quantity: ");
    push_decimal(s, r.quantity as u64);
    push_text(s, ", bucket: SupplyBucket { dimensions: {");
    let ghost c = s@;
    push_bucket_pairs_debug(s, &r.bucket);
    push_text(s, "} } }");
    assert(s@ =~= s0 + request_debug(*r));
}

fn push_claim_state_debug(s: &mut String, st: &SupplyClaimState)
    ensures
        final(s)@ == old(s)@ + claim_state_debug(*st),
{
    let ghost s0 = s@;
    match st {
        SupplyClaimState::Reserved { request } => {
            push_text(s, "Reserved { request: ");
            push_request_debug(s, request);
        },
        SupplyClaimState::Unreserved { request } => {
            push_text(s, "Unreserved { request: ");
            push_request_debug(s, request);
        },
        SupplyClaimState::Consumed { request } => {
            push_text(s, "Consumed { request: ");
            push_request_debug(s, request);
        },
        SupplyClaimState::Unconsumed { request } => {
            push_text(s, "Unconsumed { request: ");
            push_request_debug(s, request);
        },
    }
    push_text(s, " }");
    assert(s@ =~= s0 + claim_state_debug(*st));
}

impl SupplyError {
    /// The error as text.
    pub fn message(&self) -> (r: String)
        ensures
            r@ == supply_error_message(*self),
    {
        match self {
            SupplyError::EmptySupplyKey => owned("supply key cannot be empty"),
            SupplyError::InvalidSupplyKey(value) => {
                let mut s = owned("invalid supply key `");
                push_text(&mut s, value.as_str());
                push_text(&mut s, "`");
                s
            },
            SupplyError::EmptyBucketDimensionKey => owned("supply bucket key cannot be empty"),
            SupplyError::EmptyBucketDimensionValue { key } => {
                let mut s = owned("supply bucket value for `");
                push_text(&mut s, key.as_str());
                push_text(&mut s, "` cannot be empty");
                s
            },
            SupplyError::DuplicateBucketDimension(key) => {
                let mut s = owned("duplicate supply bucket dimension `");
                push_text(&mut s, key.as_str());
                push_text(&mut s, "`");
                s
            },
            SupplyError::ZeroSupplyQuantity => owned("supply quantity cannot be zero"),
            SupplyError::DuplicateAvailableSupply { .. } => owned("duplicate available supply for target and bucket"),
            SupplyError::DuplicateSupplyClaim(id) => {
                let mut s = owned("duplicate supply claim `");
                push_text(&mut s, id.as_str());
                push_text(&mut s, "`");
                s
            },
            SupplyError::UnknownSupplyClaim(id) => {
                let mut s = owned("unknown supply claim `");
                push_text(&mut s, id.as_str());
                push_text(&mut s, "`");
                s
            },
            SupplyError::InvalidSupplyTransition { claim_id, current, operation } => {
                let mut s = owned("cannot apply supply operation `");
                let kind = match operation {
                    SupplyOperationKind::Reserve => "Reserve",
                    SupplyOperationKind::Unreserve => "Unreserve",
                    SupplyOperationKind::Consume => "Consume",
                    SupplyOperationKind::Unconsume => "Unconsume",
                };
                assert(kind@ == operation_kind_debug(*operation));
                push_text(&mut s, kind);
                push_text(&mut s, "` to claim `");
                push_text(&mut s, claim_id.as_str());
                push_text(&mut s, "` in state `");
                push_claim_state_debug(&mut s, current);
                push_text(&mut s, "`");
                s
            },
            SupplyError::MismatchedSupplyClaim { claim_id, .. } => {
                let mut s = owned("supply claim `");
                push_text(&mut s, claim_id.as_str());
                push_text(&mut s, "` request does not match");
                s
            },
        }
    }
}

} // verus!
