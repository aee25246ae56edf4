//! Consumer attributes and the consumer profiles that select labels and media.
use vstd::prelude::*;

use crate::primitives::ids::{ConsumerAttributeId, PrefixedIdView};
use crate::text::{is_blank, owned, push_text, str_is_blank};

verus! {

broadcast use vstd::seq_lib::group_seq_properties;

pub struct ConsumerAttributeView {
    pub consumer_attribute_id: PrefixedIdView,
    pub code: Seq<char>,
}

/// A named attribute of a consumer context (a surface, a language, ...).
#[derive(Debug, Eq, PartialEq)]
pub struct ConsumerAttribute {
    consumer_attribute_id: ConsumerAttributeId,
    code: String,
}

impl View for ConsumerAttribute {
    type V = ConsumerAttributeView;

    closed spec fn view(&self) -> ConsumerAttributeView {
        ConsumerAttributeView { consumer_attribute_id: self.consumer_attribute_id@, code: self.code@ }
    }
}

impl Clone for ConsumerAttribute {
    fn clone(&self) -> (r: Self)
        ensures
            r@ == self@,
    {
        ConsumerAttribute { consumer_attribute_id: self.consumer_attribute_id.clone(), code: self.code.clone() }
    }
}

impl ConsumerAttribute {
    pub fn new(consumer_attribute_id: ConsumerAttributeId, code: &str) -> (r: Result<
        Self,
        ConsumerAttributeError,
    >)
        ensures
            r is Ok <==> !is_blank(code@),
            r matches Ok(a) ==> a@ == (ConsumerAttributeView {
                consumer_attribute_id: consumer_attribute_id@,
                code: code@,
            }),
            r matches Err(e) ==> e == ConsumerAttributeError::EmptyCode,
    {
        if str_is_blank(code) {
            return Err(ConsumerAttributeError::EmptyCode);
        }
        Ok(ConsumerAttribute { consumer_attribute_id, code: owned(code) })
    }

    pub fn consumer_attribute_id(&self) -> (r: &ConsumerAttributeId)
        ensures
            r@ == self@.consumer_attribute_id,
    {
        &self.consumer_attribute_id
    }

    pub fn code(&self) -> (r: &str)
        ensures
            r@ == self@.code,
    {
        self.code.as_str()
    }
}

#[derive(Debug, Clone, Eq, PartialEq)]
pub enum ConsumerAttributeError {
    EmptyCode,
}

/// A set of consumer attributes, kept without duplicates.
#[derive(Debug, Eq, PartialEq)]
pub struct ConsumerProfile {
    attributes: Vec<ConsumerAttributeId>,
}

impl ConsumerProfile {
    #[verifier::type_invariant]
    spec fn well_formed(self) -> bool {
        self.attributes.deep_view().no_duplicates()
    }

    /// The attributes in the order they were added.
    pub closed spec fn members(self) -> Seq<PrefixedIdView> {
        self.attributes.deep_view()
    }
}

impl View for ConsumerProfile {
    type V = Set<PrefixedIdView>;

    closed spec fn view(&self) -> Set<PrefixedIdView> {
        self.attributes.deep_view().to_set()
    }
}

impl DeepView for ConsumerProfile {
    type V = Set<PrefixedIdView>;

    open spec fn deep_view(&self) -> Set<PrefixedIdView> {
        self@
    }
}

impl Clone for ConsumerProfile {
    fn clone(&self) -> (r: Self)
        ensures
            r@ == self@,
            r.members() == self.members(),
    {
        proof {
            use_type_invariant(self);
        }
        let attributes = self.attributes.clone();
        assert(attributes.deep_view() =~= self.attributes.deep_view());
        ConsumerProfile { attributes }
    }
}

impl Default for ConsumerProfile {
    fn default() -> (r: Self)
        ensures
            r@ == Set::<PrefixedIdView>::empty(),
    {
        Self::empty()
    }
}

fn index_of_id(ids: &Vec<ConsumerAttributeId>, id: &ConsumerAttributeId) -> (r: Option<usize>)
    ensures
        r is Some <==> ids.deep_view().contains(id@),
        r matches Some(i) ==> i < ids.len() && ids.deep_view()[i as int] == id@,
{
    let mut i: usize = 0;
    while i < ids.len()
        invariant
            i <= ids.len(),
            forall|j: int| 0 <= j < i ==> ids.deep_view()[j] != id@,
        decreases ids.len() - i,
    {
        assert(ids.deep_view()[i as int] == ids@[i as int]@);
        if ids[i].same_as(id) {
            return Some(i);
        }
        i += 1;
    }
    None
}

impl ConsumerProfile {
    pub fn empty() -> (r: Self)
        ensures
            r@ == Set::<PrefixedIdView>::empty(),
            r.members() == Seq::<PrefixedIdView>::empty(),
    {
        let r = ConsumerProfile { attributes: Vec::new() };
        assert(r.attributes.deep_view() =~= Seq::<PrefixedIdView>::empty());
        assert(r@ =~= Set::<PrefixedIdView>::empty());
        r
    }

    /// The profile of the given attributes; a repeated attribute is an error
    /// naming its first repetition.
    pub fn new(attributes: Vec<ConsumerAttributeId>) -> (r: Result<Self, ConsumerProfileError>)
        ensures
            r is Ok <==> attributes.deep_view().no_duplicates(),
            r matches Ok(p) ==> p@ == attributes.deep_view().to_set() && p.members()
                == attributes.deep_view(),
            r matches Err(e) ==> e matches ConsumerProfileError::DuplicateAttribute(id) && exists|
                i: int,
                j: int,
            |
                0 <= i < j < attributes@.len() && attributes.deep_view()[i] == attributes.deep_view()[j]
                    && id@ == attributes.deep_view()[j] && attributes.deep_view().take(
                    j,
                ).no_duplicates(),
    {
        let mut profile = Self::empty();
        let mut i: usize = 0;
        while i < attributes.len()
            invariant
                i <= attributes.len(),
                profile.members() == attributes.deep_view().take(i as int),
                profile@ == attributes.deep_view().take(i as int).to_set(),
                attributes.deep_view().take(i as int).no_duplicates(),
            decreases attributes.len() - i,
        {
            let ghost before = attributes.deep_view().take(i as int);
            assert(attributes.deep_view().take(i + 1) =~= before.push(attributes.deep_view()[i as int]));
            match profile.with_attribute(attributes[i].clone()) {
                Ok(p) => {
                    profile = p;
                },
                Err(e) => {
                    proof {
                        let k = choose|k: int| 0 <= k < before.len() && before[k] == attributes.deep_view()[i as int];
                        assert(attributes.deep_view()[k] == attributes.deep_view()[i as int]);
                        assert(!attributes.deep_view().no_duplicates());
                    }
                    return Err(e);
                },
            }
            i += 1;
        }
        assert(attributes.deep_view().take(attributes@.len() as int) =~= attributes.deep_view());
        Ok(profile)
    }

    /// The profile with one more attribute; an attribute already present is an error.
    pub fn with_attribute(self, attribute_id: ConsumerAttributeId) -> (r: Result<
        Self,
        ConsumerProfileError,
    >)
        ensures
            r is Ok <==> !self@.contains(attribute_id@),
            r matches Ok(p) ==> p@ == self@.insert(attribute_id@) && p.members() == self.members().push(
                attribute_id@,
            ),
            r matches Err(e) ==> e matches ConsumerProfileError::DuplicateAttribute(id) && id@
                == attribute_id@,
    {
        proof {
            use_type_invariant(&self);
        }
        if index_of_id(&self.attributes, &attribute_id).is_some() {
            return Err(ConsumerProfileError::DuplicateAttribute(attribute_id));
        }
        let ghost old_members = self.attributes.deep_view();
        let mut attributes = self.attributes;
        attributes.push(attribute_id);
        assert(attributes.deep_view() =~= old_members.push(attribute_id@));
        let r = ConsumerProfile { attributes };
        assert(r@ =~= self@.insert(attribute_id@));
        Ok(r)
    }

    /// The attributes of the profile, each once.
    pub fn attributes(&self) -> (r: &[ConsumerAttributeId])
        ensures
            r.deep_view() == self.members(),
            r.deep_view().to_set() == self@,
            r.deep_view().no_duplicates(),
    {
        proof {
            use_type_invariant(self);
        }
        self.attributes.as_slice()
    }

    pub fn contains(&self, attribute_id: &ConsumerAttributeId) -> (r: bool)
        ensures
            r == self@.contains(attribute_id@),
    {
        index_of_id(&self.attributes, attribute_id).is_some()
    }

    /// Whether every attribute of `required` is in this profile.
    pub fn contains_all(&self, required: &ConsumerProfile) -> (r: bool)
        ensures
            r == required@.subset_of(self@),
    {
        let mut i: usize = 0;
        while i < required.attributes.len()
            invariant
                i <= required.attributes.len(),
                forall|j: int| 0 <= j < i ==> self@.contains(#[trigger] required.attributes.deep_view()[j]),
            decreases required.attributes.len() - i,
        {
            if !self.contains(&required.attributes[i]) {
                assert(required@.contains(required.attributes.deep_view()[i as int]));
                return false;
            }
            i += 1;
        }
        assert forall|x: PrefixedIdView| required@.contains(x) implies self@.contains(x) by {
            let k = choose|k: int| 0 <= k < required.attributes.deep_view().len()
                && required.attributes.deep_view()[k] == x;
            assert(self@.contains(required.attributes.deep_view()[k]));
        }
        true
    }

    /// Whether the two profiles hold the same attributes.
    pub(crate) fn has_same_attributes(&self, other: &ConsumerProfile) -> (r: bool)
        ensures
            r == (self@ == other@),
    {
        let r = self.contains_all(other) && other.contains_all(self);
        proof {
            if r {
                assert(self@ =~= other@);
            }
        }
        r
    }

    /// The number of attributes, which is how specific the profile is.
    pub fn len(&self) -> (r: usize)
        ensures
            r == self@.len(),
    {
        proof {
            use_type_invariant(self);
            self.attributes.deep_view().unique_seq_to_set();
        }
        self.attributes.len()
    }

    pub fn is_empty(&self) -> (r: bool)
        ensures
            r == (self@.len() == 0),
    {
        self.len() == 0
    }

    pub proof fn lemma_finite(&self)
        ensures
            self@.finite(),
    {
        self.attributes.deep_view().lemma_cardinality_of_set();
    }
}

#[derive(Debug, Clone, Eq, PartialEq)]
pub enum ConsumerProfileError {
    DuplicateAttribute(ConsumerAttributeId),
}

/// The required profile at `i` is satisfied by the active profile.
pub open spec fn profile_matches(required: Seq<Set<PrefixedIdView>>, active: Set<PrefixedIdView>, i: int) -> bool {
    0 <= i < required.len() && required[i].subset_of(active)
}

/// `b` is the most specific matching profile, and the first of those.
pub open spec fn is_most_specific(required: Seq<Set<PrefixedIdView>>, active: Set<PrefixedIdView>, b: int) -> bool {
    &&& profile_matches(required, active, b)
    &&& forall|j: int| #[trigger] profile_matches(required, active, j) ==> required[j].len() <= required[b].len()
    &&& forall|j: int| 0 <= j < b && #[trigger] profile_matches(required, active, j) ==> required[j].len() < required[b].len()
}

/// Two different matching profiles share the largest specificity.
pub open spec fn is_ambiguous(required: Seq<Set<PrefixedIdView>>, active: Set<PrefixedIdView>) -> bool {
    exists|j: int, k: int|
        #![trigger profile_matches(required, active, j), profile_matches(required, active, k)]
        j != k && profile_matches(required, active, j) && profile_matches(required, active, k)
            && required[j].len() == required[k].len() && forall|m: int| #[trigger] profile_matches(required, active, m) ==> required[m].len() <= required[j].len()
}

pub open spec fn any_match(required: Seq<Set<PrefixedIdView>>, active: Set<PrefixedIdView>) -> bool {
    exists|j: int| #[trigger] profile_matches(required, active, j)
}

/// Chooses among required profiles the one an active profile satisfies most
/// specifically: `Ok(None)` when none is satisfied, `Ok(Some(i))` for the
/// unique most specific, and `Err(specificity)` when two share the largest
/// specificity.
pub fn most_specific_match(required: &Vec<ConsumerProfile>, active: &ConsumerProfile) -> (r: Result<
    Option<usize>,
    usize,
>)
    ensures
        r is Err <==> is_ambiguous(required.deep_view(), active@),
        r matches Err(s) ==> exists|j: int| #[trigger] profile_matches(required.deep_view(), active@, j) && s == required.deep_view()[j].len() && forall|m: int| #[trigger] profile_matches(required.deep_view(), active@, m) ==> required.deep_view()[m].len() <= s,
        r == Ok::<Option<usize>, usize>(None) <==> !any_match(required.deep_view(), active@),
        r matches Ok(Some(b)) ==> is_most_specific(required.deep_view(), active@, b as int),
{
    let ghost req = required.deep_view();
    let mut best: Option<usize> = None;
    let mut best_len: usize = 0;
    let mut ambiguous = false;
    let mut i: usize = 0;
    while i < required.len()
        invariant
            i <= required.len(),
            req == required.deep_view(),
            best is None <==> !exists|j: int| 0 <= j < i && #[trigger] profile_matches(req, active@, j),
            best is None ==> !ambiguous,
            best matches Some(b) ==> {
                &&& b < i
                &&& profile_matches(req, active@, b as int)
                &&& best_len == req[b as int].len()
                &&& forall|j: int| 0 <= j < i && #[trigger] profile_matches(req, active@, j) ==> req[j].len() <= best_len
                &&& forall|j: int| 0 <= j < b && #[trigger] profile_matches(req, active@, j) ==> req[j].len() < best_len
                &&& ambiguous <==> exists|j: int| 0 <= j < i && j != b && #[trigger] profile_matches(req, active@, j) && req[j].len() == best_len
            },
        decreases required.len() - i,
    {
        let candidate = &required[i];
        assert(req[i as int] == candidate@);
        let ghost old_best = best;
        let ghost old_amb = ambiguous;
        let ghost old_len = best_len;
        if active.contains_all(candidate) {
            assert(profile_matches(req, active@, i as int));
            let specificity = candidate.len();
            match best {
                None => {
                    best = Some(i);
                    best_len = specificity;
                    ambiguous = false;
                },
                Some(b) => {
                    if specificity > best_len {
                        best = Some(i);
                        best_len = specificity;
                        ambiguous = false;
                    } else if specificity == best_len {
                        ambiguous = true;
                    }
                },
            }
            proof {
                if old_best is None {
                    assert forall|j: int| 0 <= j < i + 1 && #[trigger] profile_matches(req, active@, j) implies req[j].len() <= best_len by {
                        if j < i {
                            assert(exists|j: int| 0 <= j < i && #[trigger] profile_matches(req, active@, j));
                        }
                    }
                    assert forall|j: int| 0 <= j < i && #[trigger] profile_matches(req, active@, j) implies false by {
                        assert(exists|j: int| 0 <= j < i && #[trigger] profile_matches(req, active@, j));
                    }
                } else if specificity > old_len {
                    assert forall|j: int| 0 <= j < i + 1 && j != i && #[trigger] profile_matches(req, active@, j) implies req[j].len() < best_len by {
                    }
                } else if specificity == old_len {
                    let b = old_best->Some_0;
                    assert(i != b && profile_matches(req, active@, i as int) && req[i as int].len() == best_len);
                } else {
                }
            }
        } else {
            assert(!profile_matches(req, active@, i as int));
            proof {
                if old_best is Some {
                    let b = old_best->Some_0;
                    if ambiguous {
                        let j = choose|j: int| 0 <= j < i && j != b && #[trigger] profile_matches(req, active@, j) && req[j].len() == best_len;
                        assert(0 <= j < i + 1 && j != b && profile_matches(req, active@, j) && req[j].len() == best_len);
                    }
                }
            }
        }
        i += 1;
    }
    if ambiguous {
        return Err(best_len);
    }
    Ok(best)
}

/// The text a consumer attribute error reads as.
pub open spec fn consumer_attribute_error_message(e: ConsumerAttributeError) -> Seq<char> {
    match e {
        ConsumerAttributeError::EmptyCode => "consumer attribute code cannot be empty"@,
    }
}

impl ConsumerAttributeError {
    /// The error as text.
    pub fn message(&self) -> (r: String)
        ensures
            r@ == consumer_attribute_error_message(*self),
    {
        match self {
            ConsumerAttributeError::EmptyCode => owned("consumer attribute code cannot be empty"),
        }
    }
}

/// The text a consumer profile error reads as.
pub open spec fn consumer_profile_error_message(e: ConsumerProfileError) -> Seq<char> {
    match e {
        ConsumerProfileError::DuplicateAttribute(id) => "duplicate consumer attribute `"@ + id@.full() + "`"@,
    }
}

impl ConsumerProfileError {
    /// The error as text.
    pub fn message(&self) -> (r: String)
        ensures
            r@ == consumer_profile_error_message(*self),
    {
        match self {
            ConsumerProfileError::DuplicateAttribute(id) => {
                let mut s = owned("duplicate consumer attribute `");
                push_text(&mut s, id.as_str());
                push_text(&mut s, "`");
                s
            },
        }
    }
}

} // verus!
