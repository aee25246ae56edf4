//! Labels: default text plus values chosen by consumer profile.
use vstd::prelude::*;

use crate::primitives::consumer::{
    any_match, is_ambiguous, is_most_specific, most_specific_match, profile_matches,
    ConsumerProfile,
};
use crate::primitives::ids::{LabelId, PrefixedIdView};
use crate::text::{decimal, is_blank, owned, push_decimal, push_text, str_is_blank};

verus! {

pub struct LabelValueView {
    pub profile: Set<PrefixedIdView>,
    pub value: Seq<char>,
}

pub struct LabelView {
    pub label_id: Option<PrefixedIdView>,
    pub default: Seq<char>,
    pub values: Seq<LabelValueView>,
}

pub struct ResolvedLabelView {
    pub label_id: Option<PrefixedIdView>,
    pub value: Seq<char>,
    pub matched_profile: Option<Set<PrefixedIdView>>,
}

pub enum LabelErrorView {
    EmptyDefault,
    EmptyValue,
    EmptyProfile,
    DuplicateProfile { label_id: Option<PrefixedIdView>, profile: Set<PrefixedIdView> },
    AmbiguousResolution {
        label_id: Option<PrefixedIdView>,
        consumer_profile: Set<PrefixedIdView>,
        specificity: nat,
    },
}

pub open spec fn opt_id_view<K>(id: Option<crate::primitives::ids::TypedId<K>>) -> Option<PrefixedIdView> {
    match id {
        Some(i) => Some(i@),
        None => None,
    }
}

impl LabelView {
    pub open spec fn required_profiles(self) -> Seq<Set<PrefixedIdView>> {
        self.values.map_values(|v: LabelValueView| v.profile)
    }

    /// The value whose required profile the consumer profile satisfies most
    /// specifically; the default when none is satisfied; an error when two
    /// satisfied profiles share the largest specificity.
    pub open spec fn resolve(self, active: Set<PrefixedIdView>) -> Result<ResolvedLabelView, LabelErrorView> {
        let required = self.required_profiles();
        if is_ambiguous(required, active) {
            let j = choose|j: int| #[trigger] profile_matches(required, active, j) && forall|m: int| #[trigger] profile_matches(required, active, m) ==> required[m].len() <= required[j].len();
            Err(LabelErrorView::AmbiguousResolution {
                label_id: self.label_id,
                consumer_profile: active,
                specificity: required[j].len(),
            })
        } else if !any_match(required, active) {
            Ok(ResolvedLabelView { label_id: self.label_id, value: self.default, matched_profile: None })
        } else {
            let b = choose|b: int| is_most_specific(required, active, b);
            Ok(ResolvedLabelView {
                label_id: self.label_id,
                value: self.values[b].value,
                matched_profile: Some(self.values[b].profile),
            })
        }
    }

    /// What adding a value for a profile gives.
    pub open spec fn add_value(self, profile: Set<PrefixedIdView>, value: Seq<char>) -> Result<LabelView, LabelErrorView> {
        if profile.len() == 0 {
            Err(LabelErrorView::EmptyProfile)
        } else if is_blank(value) {
            Err(LabelErrorView::EmptyValue)
        } else if exists|i: int| 0 <= i < self.values.len() && #[trigger] self.values[i].profile == profile {
            Err(LabelErrorView::DuplicateProfile { label_id: self.label_id, profile })
        } else {
            Ok(LabelView { values: self.values.push(LabelValueView { profile, value }), ..self })
        }
    }
}

/// A text value shown to consumers whose profile includes `profile`.
#[derive(Debug, Eq, PartialEq)]
pub struct LabelValue {
    profile: ConsumerProfile,
    value: String,
}

impl View for LabelValue {
    type V = LabelValueView;

    closed spec fn view(&self) -> LabelValueView {
        LabelValueView { profile: self.profile@, value: self.value@ }
    }
}

impl DeepView for LabelValue {
    type V = LabelValueView;

    open spec fn deep_view(&self) -> LabelValueView {
        self@
    }
}

impl Clone for LabelValue {
    fn clone(&self) -> (r: Self)
        ensures
            r@ == self@,
    {
        LabelValue { profile: self.profile.clone(), value: self.value.clone() }
    }
}

impl LabelValue {
    pub fn required_profile(&self) -> (r: &ConsumerProfile)
        ensures
            r@ == self@.profile,
    {
        &self.profile
    }

    pub fn value(&self) -> (r: &str)
        ensures
            r@ == self@.value,
    {
        self.value.as_str()
    }
}

/// Text with a default and consumer-profile-specific values.
#[derive(Debug, Eq, PartialEq)]
pub struct Label {
    label_id: Option<LabelId>,
    default: String,
    values: Vec<LabelValue>,
}

impl View for Label {
    type V = LabelView;

    closed spec fn view(&self) -> LabelView {
        LabelView {
            label_id: opt_id_view(self.label_id),
            default: self.default@,
            values: self.values.deep_view(),
        }
    }
}

impl DeepView for Label {
    type V = LabelView;

    open spec fn deep_view(&self) -> LabelView {
        self@
    }
}

fn clone_opt_id<K>(id: &Option<crate::primitives::ids::TypedId<K>>) -> (r: Option<crate::primitives::ids::TypedId<K>>)
    ensures
        opt_id_view(r) == opt_id_view(*id),
{
    match id {
        Some(i) => Some(i.clone()),
        None => None,
    }
}

impl Clone for Label {
    fn clone(&self) -> (r: Self)
        ensures
            r@ == self@,
    {
        let values = self.values.clone();
        let r = Label { label_id: clone_opt_id(&self.label_id), default: self.default.clone(), values };
        assert(r@.values =~= self@.values);
        r
    }
}

pub open spec fn resolved_result(r: Result<ResolvedLabel, LabelError>) -> Result<ResolvedLabelView, LabelErrorView> {
    match r {
        Ok(v) => Ok(v@),
        Err(e) => Err(e@),
    }
}

impl Label {
    pub fn new(label_id: LabelId, default: &str) -> (r: Result<Self, LabelError>)
        ensures
            r is Ok <==> !is_blank(default@),
            r matches Ok(l) ==> l@ == (LabelView { label_id: Some(label_id@), default: default@, values: Seq::empty() }),
            r matches Err(e) ==> e@ == LabelErrorView::EmptyDefault,
    {
        Self::with_optional_id(Some(label_id), default)
    }

    pub fn without_id(default: &str) -> (r: Result<Self, LabelError>)
        ensures
            r is Ok <==> !is_blank(default@),
            r matches Ok(l) ==> l@ == (LabelView { label_id: None, default: default@, values: Seq::empty() }),
            r matches Err(e) ==> e@ == LabelErrorView::EmptyDefault,
    {
        Self::with_optional_id(None, default)
    }

    fn with_optional_id(label_id: Option<LabelId>, default: &str) -> (r: Result<Self, LabelError>)
        ensures
            r is Ok <==> !is_blank(default@),
            r matches Ok(l) ==> l@ == (LabelView { label_id: opt_id_view(label_id), default: default@, values: Seq::empty() }),
            r matches Err(e) ==> e@ == LabelErrorView::EmptyDefault,
    {
        if str_is_blank(default) {
            return Err(LabelError::EmptyDefault);
        }
        let r = Label { label_id, default: owned(default), values: Vec::new() };
        assert(r@.values =~= Seq::<LabelValueView>::empty());
        Ok(r)
    }

    pub fn with_value(self, profile: ConsumerProfile, value: &str) -> (r: Result<Self, LabelError>)
        ensures
            match r {
                Ok(l) => self@.add_value(profile@, value@) == Ok::<LabelView, LabelErrorView>(l@),
                Err(e) => self@.add_value(profile@, value@) == Err::<LabelView, LabelErrorView>(e@),
            },
    {
        let mut s = self;
        s.add_value(profile, value)?;
        Ok(s)
    }

    pub fn add_value(&mut self, profile: ConsumerProfile, value: &str) -> (r: Result<(), LabelError>)
        ensures
            match r {
                Ok(_) => old(self)@.add_value(profile@, value@) == Ok::<LabelView, LabelErrorView>(final(self)@),
                Err(e) => old(self)@.add_value(profile@, value@) == Err::<LabelView, LabelErrorView>(e@)
                    && final(self)@ == old(self)@,
            },
    {
        if profile.is_empty() {
            return Err(LabelError::EmptyProfile);
        }
        if str_is_blank(value) {
            return Err(LabelError::EmptyValue);
        }
        let mut i: usize = 0;
        while i < self.values.len()
            invariant
                i <= self.values.len(),
                self@ == old(self)@,
                profile@.len() != 0,
                !is_blank(value@),
                forall|j: int| 0 <= j < i ==> #[trigger] self@.values[j].profile != profile@,
            decreases self.values.len() - i,
        {
            assert(self@.values[i as int] == self.values@[i as int]@);
            if self.values[i].required_profile().has_same_attributes(&profile) {
                assert(self@.values[i as int].profile == profile@);
                return Err(LabelError::DuplicateProfile { label_id: clone_opt_id(&self.label_id), profile });
            }
            i += 1;
        }
        let ghost before = self@;
        self.values.push(LabelValue { profile, value: owned(value) });
        assert(self@.values =~= before.values.push(LabelValueView { profile: profile@, value: value@ }));
        Ok(())
    }

    pub fn label_id(&self) -> (r: Option<&LabelId>)
        ensures
            match r {
                Some(id) => self@.label_id == Some(id@),
                None => self@.label_id is None,
            },
    {
        self.label_id.as_ref()
    }

    pub fn default_text(&self) -> (r: &str)
        ensures
            r@ == self@.default,
    {
        self.default.as_str()
    }

    pub fn values(&self) -> (r: &[LabelValue])
        ensures
            r.deep_view() == self@.values,
    {
        self.values.as_slice()
    }

    pub fn resolve(&self, consumer_profile: &ConsumerProfile) -> (r: Result<ResolvedLabel, LabelError>)
        ensures
            resolved_result(r) == self@.resolve(consumer_profile@),
    {
        let mut required: Vec<ConsumerProfile> = Vec::new();
        let mut i: usize = 0;
        while i < self.values.len()
            invariant
                i <= self.values.len(),
                required.deep_view() == self@.required_profiles().take(i as int),
            decreases self.values.len() - i,
        {
            assert(self@.values[i as int] == self.values@[i as int]@);
            let ghost before = required.deep_view();
            required.push(self.values[i].required_profile().clone());
            assert(self@.required_profiles()[i as int] == self@.values[i as int].profile);
            assert(required.deep_view() =~= before.push(self@.values[i as int].profile));
            assert(required.deep_view() =~= self@.required_profiles().take(i + 1));
            i += 1;
        }
        assert(required.deep_view() =~= self@.required_profiles());
        let ghost req = self@.required_profiles();
        match most_specific_match(&required, consumer_profile) {
            Err(specificity) => {
                proof {
                    let j = choose|j: int| #[trigger] profile_matches(req, consumer_profile@, j) && forall|m: int| #[trigger] profile_matches(req, consumer_profile@, m) ==> req[m].len() <= req[j].len();
                    let j2 = choose|j: int| #[trigger] profile_matches(req, consumer_profile@, j) && specificity == req[j].len() && forall|m: int| #[trigger] profile_matches(req, consumer_profile@, m) ==> req[m].len() <= specificity;
                    assert(req[j].len() <= req[j2].len());
                    assert(req[j2].len() <= req[j].len());
                }
                Err(LabelError::AmbiguousResolution {
                    label_id: clone_opt_id(&self.label_id),
                    consumer_profile: consumer_profile.clone(),
                    specificity,
                })
            },
            Ok(None) => Ok(ResolvedLabel {
                label_id: clone_opt_id(&self.label_id),
                value: self.default.clone(),
                matched_profile: None,
            }),
            Ok(Some(b)) => {
                proof {
                    let c = choose|c: int| is_most_specific(req, consumer_profile@, c);
                    assert(is_most_specific(req, consumer_profile@, b as int));
                    if c < b {
                        assert(profile_matches(req, consumer_profile@, c));
                    }
                    if b < c {
                        assert(profile_matches(req, consumer_profile@, b as int));
                    }
                    assert(c == b);
                    assert(self@.values[b as int] == self.values@[b as int]@);
                }
                let value = &self.values[b];
                Ok(ResolvedLabel {
                    label_id: clone_opt_id(&self.label_id),
                    value: value.value.clone(),
                    matched_profile: Some(value.profile.clone()),
                })
            },
        }
    }
}

/// A label resolved for one consumer profile.
#[derive(Debug, Eq, PartialEq)]
pub struct ResolvedLabel {
    label_id: Option<LabelId>,
    value: String,
    matched_profile: Option<ConsumerProfile>,
}

impl View for ResolvedLabel {
    type V = ResolvedLabelView;

    closed spec fn view(&self) -> ResolvedLabelView {
        ResolvedLabelView {
            label_id: opt_id_view(self.label_id),
            value: self.value@,
            matched_profile: match self.matched_profile {
                Some(p) => Some(p@),
                None => None,
            },
        }
    }
}

impl DeepView for ResolvedLabel {
    type V = ResolvedLabelView;

    open spec fn deep_view(&self) -> ResolvedLabelView {
        self@
    }
}

impl Clone for ResolvedLabel {
    fn clone(&self) -> (r: Self)
        ensures
            r@ == self@,
    {
        let matched_profile = match &self.matched_profile {
            Some(p) => Some(p.clone()),
            None => None,
        };
        ResolvedLabel { label_id: clone_opt_id(&self.label_id), value: self.value.clone(), matched_profile }
    }
}

impl ResolvedLabel {
    pub fn label_id(&self) -> (r: Option<&LabelId>)
        ensures
            match r {
                Some(id) => self@.label_id == Some(id@),
                None => self@.label_id is None,
            },
    {
        self.label_id.as_ref()
    }

    pub fn value(&self) -> (r: &str)
        ensures
            r@ == self@.value,
    {
        self.value.as_str()
    }

    pub fn matched_profile(&self) -> (r: Option<&ConsumerProfile>)
        ensures
            match r {
                Some(p) => self@.matched_profile == Some(p@),
                None => self@.matched_profile is None,
            },
    {
        self.matched_profile.as_ref()
    }
}

#[derive(Debug, Eq, PartialEq)]
pub enum LabelError {
    EmptyDefault,
    EmptyValue,
    EmptyProfile,
    DuplicateProfile { label_id: Option<LabelId>, profile: ConsumerProfile },
    AmbiguousResolution { label_id: Option<LabelId>, consumer_profile: ConsumerProfile, specificity: usize },
}

impl View for LabelError {
    type V = LabelErrorView;

    open spec fn view(&self) -> LabelErrorView {
        match self {
            LabelError::EmptyDefault => LabelErrorView::EmptyDefault,
            LabelError::EmptyValue => LabelErrorView::EmptyValue,
            LabelError::EmptyProfile => LabelErrorView::EmptyProfile,
            LabelError::DuplicateProfile { label_id, profile } => LabelErrorView::DuplicateProfile {
                label_id: opt_id_view(*label_id),
                profile: profile@,
            },
            LabelError::AmbiguousResolution { label_id, consumer_profile, specificity } => LabelErrorView::AmbiguousResolution {
                label_id: opt_id_view(*label_id),
                consumer_profile: consumer_profile@,
                specificity: *specificity as nat,
            },
        }
    }
}

/// How a label is named in messages: its identifier, or `<none>`.
pub open spec fn label_id_text(label_id: Option<PrefixedIdView>) -> Seq<char> {
    match label_id {
        Some(id) => id.full(),
        None => "<none>"@,
    }
}

/// The text a label error reads as.
pub open spec fn label_error_message(e: LabelErrorView) -> Seq<char> {
    match e {
        LabelErrorView::EmptyDefault => "label default cannot be empty"@,
        LabelErrorView::EmptyValue => "label value cannot be empty"@,
        LabelErrorView::EmptyProfile => "label value profile cannot be empty"@,
        LabelErrorView::DuplicateProfile { label_id, .. } => "label `"@ + label_id_text(label_id)
            + "` has duplicate consumer profile values"@,
        LabelErrorView::AmbiguousResolution { label_id, specificity, .. } => "label `"@ + label_id_text(label_id)
            + "` has multiple matching values at specificity `"@ + decimal(specificity) + "`"@,
    }
}

fn display_label_id(s: &mut String, label_id: &Option<LabelId>)
    ensures
        final(s)@ == old(s)@ + label_id_text(opt_id_view(*label_id)),
{
    match label_id {
        Some(id) => push_text(s, id.as_str()),
        None => push_text(s, "<none>"),
    }
}

impl LabelError {
    /// The error as text.
    pub fn message(&self) -> (r: String)
        ensures
            r@ == label_error_message(self@),
    {
        match self {
            LabelError::EmptyDefault => owned("label default cannot be empty"),
            LabelError::EmptyValue => owned("label value cannot be empty"),
            LabelError::EmptyProfile => owned("label value profile cannot be empty"),
            LabelError::DuplicateProfile { label_id, .. } => {
                let mut s = owned("label `");
                display_label_id(&mut s, label_id);
                push_text(&mut s, "` has duplicate consumer profile values");
                s
            },
            LabelError::AmbiguousResolution { label_id, specificity, .. } => {
                let mut s = owned("label `");
                display_label_id(&mut s, label_id);
                push_text(&mut s, "` has multiple matching values at specificity `");
                push_decimal(&mut s, *specificity as u64);
                push_text(&mut s, "`");
                s
            },
        }
    }
}

impl Clone for LabelError {
    fn clone(&self) -> (r: Self)
        ensures
            r@ == self@,
    {
        match self {
            LabelError::EmptyDefault => LabelError::EmptyDefault,
            LabelError::EmptyValue => LabelError::EmptyValue,
            LabelError::EmptyProfile => LabelError::EmptyProfile,
            LabelError::DuplicateProfile { label_id, profile } => LabelError::DuplicateProfile {
                label_id: clone_opt_id(label_id),
                profile: profile.clone(),
            },
            LabelError::AmbiguousResolution { label_id, consumer_profile, specificity } => LabelError::AmbiguousResolution {
                label_id: clone_opt_id(label_id),
                consumer_profile: consumer_profile.clone(),
                specificity: *specificity,
            },
        }
    }
}

/// A label with no values resolves to its default for every profile.
pub proof fn lemma_resolve_without_values_is_default(l: LabelView, active: Set<PrefixedIdView>)
    requires
        l.values.len() == 0,
    ensures
        l.resolve(active) == Ok::<ResolvedLabelView, LabelErrorView>(ResolvedLabelView { label_id: l.label_id, value: l.default, matched_profile: None }),
{
    assert(!any_match(l.required_profiles(), active));
    assert(!is_ambiguous(l.required_profiles(), active));
}

/// A resolved value always comes from a value whose required profile the
/// consumer profile satisfies, and resolution never changes the label ID.
pub proof fn lemma_resolved_value_matches(l: LabelView, active: Set<PrefixedIdView>)
    requires
        l.resolve(active) is Ok,
    ensures
        ({
            let r = l.resolve(active)->Ok_0;
            &&& r.label_id == l.label_id
            &&& r.matched_profile matches Some(p) ==> p.subset_of(active)
            &&& r.matched_profile is None ==> r.value == l.default
        }),
{
    let required = l.required_profiles();
    if any_match(required, active) && !is_ambiguous(required, active) {
        let j = choose|j: int| #[trigger] profile_matches(required, active, j);
        lemma_most_specific_exists(required, active, j);
        let b = choose|b: int| is_most_specific(required, active, b);
        assert(required[b] == l.values[b].profile);
    }
}

/// The first index of the largest specificity among matches in
/// `required[0..k]`, or `-1` when nothing there matches.
pub open spec fn best_in_prefix(required: Seq<Set<PrefixedIdView>>, active: Set<PrefixedIdView>, k: int) -> int
    decreases k,
{
    if k <= 0 {
        -1
    } else {
        let b = best_in_prefix(required, active, k - 1);
        if profile_matches(required, active, k - 1) && (b == -1 || required[k - 1].len() > required[b].len()) {
            k - 1
        } else {
            b
        }
    }
}

proof fn lemma_best_in_prefix(required: Seq<Set<PrefixedIdView>>, active: Set<PrefixedIdView>, k: int)
    requires
        0 <= k <= required.len(),
    ensures
        ({
            let best = best_in_prefix(required, active, k);
            &&& best == -1 <==> !exists|i: int| 0 <= i < k && #[trigger] profile_matches(required, active, i)
            &&& best != -1 ==> 0 <= best < k && profile_matches(required, active, best)
                && (forall|i: int| 0 <= i < k && #[trigger] profile_matches(required, active, i) ==> required[i].len() <= required[best].len())
                && (forall|i: int| 0 <= i < best && #[trigger] profile_matches(required, active, i) ==> required[i].len() < required[best].len())
        }),
    decreases k,
{
    if k > 0 {
        lemma_best_in_prefix(required, active, k - 1);
        let b = best_in_prefix(required, active, k - 1);
        if b != -1 {
            assert(exists|i: int| 0 <= i < k - 1 && #[trigger] profile_matches(required, active, i));
        }
        if profile_matches(required, active, k - 1) {
            assert(exists|i: int| 0 <= i < k && #[trigger] profile_matches(required, active, i));
        }
    }
}

/// When some profile matches, a most specific one exists.
pub proof fn lemma_most_specific_exists(required: Seq<Set<PrefixedIdView>>, active: Set<PrefixedIdView>, j: int)
    requires
        profile_matches(required, active, j),
    ensures
        exists|b: int| is_most_specific(required, active, b),
{
    lemma_best_in_prefix(required, active, required.len() as int);
    let best = best_in_prefix(required, active, required.len() as int);
    assert(best != -1);
    assert(is_most_specific(required, active, best));
}

} // verus!
