//! Media with consumer-profile-specific variants.
use vstd::prelude::*;

use crate::primitives::consumer::{
    any_match, is_ambiguous, is_most_specific, most_specific_match, profile_matches,
    ConsumerProfile,
};
use crate::primitives::ids::{MediaId, PrefixedIdView};
use crate::primitives::label::{
    label_error_message, Label, LabelError, LabelErrorView, LabelView, ResolvedLabel, ResolvedLabelView,
};
use crate::text::{
    decimal, owned, push_decimal, push_text, chars_of, first_index, is_ascii_space, lemma_first_index, lowered, string_of, string_of_range,
    to_lower, trim, trimmed,
};

verus! {

pub struct MediaMimeTypeView {
    pub value: Seq<char>,
    pub slash_index: int,
}

impl MediaMimeTypeView {
    pub open spec fn top_level_type(self) -> Seq<char> {
        self.value.subrange(0, self.slash_index)
    }

    pub open spec fn subtype(self) -> Seq<char> {
        self.value.subrange(self.slash_index + 1, self.value.len() as int)
    }
}

/// The normalized text of a MIME type: trimmed and lowercased.
pub open spec fn normalized_mime(value: Seq<char>) -> Seq<char> {
    to_lower(trim(value))
}

/// A normalized MIME text is valid when it splits at its first `/` into a
/// non-empty type and a non-empty subtype without `/`, and holds no ASCII
/// whitespace.
pub open spec fn valid_mime(n: Seq<char>) -> bool {
    let i = first_index(n, '/');
    &&& i < n.len()
    &&& i > 0
    &&& i + 1 < n.len()
    &&& !n.subrange(i + 1, n.len() as int).contains('/')
    &&& forall|k: int| 0 <= k < n.len() ==> !is_ascii_space(#[trigger] n[k])
}

/// A MIME type such as `image/webp`, normalized to lowercase.
#[derive(Debug, Eq, PartialEq, Ord, PartialOrd, Hash)]
pub struct MediaMimeType {
    value: String,
    slash_index: usize,
    top_level_type: String,
    subtype: String,
}

impl MediaMimeType {
    #[verifier::type_invariant]
    spec fn well_formed(self) -> bool {
        &&& 0 <= self.slash_index < self.value@.len()
        &&& self.top_level_type@ == self.value@.subrange(0, self.slash_index as int)
        &&& self.subtype@ == self.value@.subrange(self.slash_index + 1, self.value@.len() as int)
    }
}

impl View for MediaMimeType {
    type V = MediaMimeTypeView;

    closed spec fn view(&self) -> MediaMimeTypeView {
        MediaMimeTypeView { value: self.value@, slash_index: self.slash_index as int }
    }
}

impl DeepView for MediaMimeType {
    type V = MediaMimeTypeView;

    open spec fn deep_view(&self) -> MediaMimeTypeView {
        self@
    }
}

impl Clone for MediaMimeType {
    fn clone(&self) -> (r: Self)
        ensures
            r@ == self@,
    {
        proof {
            use_type_invariant(self);
        }
        MediaMimeType {
            value: self.value.clone(),
            slash_index: self.slash_index,
            top_level_type: self.top_level_type.clone(),
            subtype: self.subtype.clone(),
        }
    }
}

impl std::str::FromStr for MediaMimeType {
    type Err = MediaError;

    fn from_str(value: &str) -> Result<Self, Self::Err> {
        Self::parse(value)
    }
}

impl AsRef<str> for MediaMimeType {
    fn as_ref(&self) -> &str {
        self.as_str()
    }
}

impl MediaMimeType {
    pub fn parse(value: &str) -> (r: Result<Self, MediaError>)
        ensures
            r is Ok <==> valid_mime(normalized_mime(value@)),
            r matches Ok(m) ==> m@ == (MediaMimeTypeView {
                value: normalized_mime(value@),
                slash_index: first_index(normalized_mime(value@), '/'),
            }),
            r matches Err(e) ==> e@ == MediaErrorView::InvalidMimeType(normalized_mime(value@)),
    {
        let t = trimmed(value);
        let tv = chars_of(t.as_str());
        let n = lowered(&tv);
        let ghost nv = normalized_mime(value@);
        assert(n@ == nv);
        let normalized = string_of(&n);
        proof {
            lemma_first_index(nv, '/');
        }
        let mut i: usize = 0;
        while i < n.len() && n[i] != '/'
            invariant
                n@ == nv,
                nv == normalized_mime(value@),
                normalized@ == nv,
                i <= n.len(),
                forall|j: int| 0 <= j < i ==> nv[j] != '/',
            decreases n.len() - i,
        {
            i += 1;
        }
        assert(i == first_index(nv, '/')) by {
            if i < first_index(nv, '/') {
                assert(nv[i as int] != '/');
            }
            if i > first_index(nv, '/') {
                assert(nv[first_index(nv, '/')] == '/');
            }
        }
        if i == n.len() || i == 0 || i + 1 == n.len() {
            return Err(MediaError::InvalidMimeType(normalized));
        }
        let mut k: usize = 0;
        while k < n.len()
            invariant
                n@ == nv,
                nv == normalized_mime(value@),
                normalized@ == nv,
                i == first_index(nv, '/'),
                i < n.len(),
                k <= n.len(),
                forall|j: int| 0 <= j < k ==> !is_ascii_space(#[trigger] nv[j]),
                forall|j: int| i < j < k ==> nv[j] != '/',
            decreases n.len() - k,
        {
            let c = n[k];
            let u = c as u32;
            if u == 32 || u == 9 || u == 10 || u == 12 || u == 13 {
                return Err(MediaError::InvalidMimeType(normalized));
            }
            if k > i && c == '/' {
                proof {
                    assert(nv.subrange(i + 1, nv.len() as int)[k - i - 1] == '/');
                }
                return Err(MediaError::InvalidMimeType(normalized));
            }
            k += 1;
        }
        proof {
            if nv.subrange(i + 1, nv.len() as int).contains('/') {
                let q = choose|q: int| 0 <= q < nv.len() - i - 1 && #[trigger] nv.subrange(i + 1, nv.len() as int)[q] == '/';
                assert(nv[i + 1 + q] == '/');
            }
        }
        let top_level_type = string_of_range(&n, 0, i);
        let subtype = string_of_range(&n, i + 1, n.len());
        Ok(MediaMimeType { value: normalized, slash_index: i, top_level_type, subtype })
    }

    pub fn as_str(&self) -> (r: &str)
        ensures
            r@ == self@.value,
    {
        self.value.as_str()
    }

    pub fn top_level_type(&self) -> (r: &str)
        ensures
            r@ == self@.top_level_type(),
    {
        proof {
            use_type_invariant(self);
        }
        self.top_level_type.as_str()
    }

    pub fn subtype(&self) -> (r: &str)
        ensures
            r@ == self@.subtype(),
    {
        proof {
            use_type_invariant(self);
        }
        self.subtype.as_str()
    }

    pub fn is_image(&self) -> (r: bool)
        ensures
            r == (self@.top_level_type() == seq!['i', 'm', 'a', 'g', 'e']),
    {
        proof {
            reveal_strlit("image");
            assert("image"@ =~= seq!['i', 'm', 'a', 'g', 'e']);
        }
        crate::text::same_text(self.top_level_type(), "image")
    }

    pub fn is_video(&self) -> (r: bool)
        ensures
            r == (self@.top_level_type() == seq!['v', 'i', 'd', 'e', 'o']),
    {
        proof {
            reveal_strlit("video");
            assert("video"@ =~= seq!['v', 'i', 'd', 'e', 'o']);
        }
        crate::text::same_text(self.top_level_type(), "video")
    }

    pub fn is_application(&self) -> (r: bool)
        ensures
            r == (self@.top_level_type() == seq![
                'a',
                'p',
                'p',
                'l',
                'i',
                'c',
                'a',
                't',
                'i',
                'o',
                'n',
            ]),
    {
        proof {
            reveal_strlit("application");
            assert("application"@ =~= seq!['a', 'p', 'p', 'l', 'i', 'c', 'a', 't', 'i', 'o', 'n']);
        }
        crate::text::same_text(self.top_level_type(), "application")
    }
}

pub struct MediaDimensionsView {
    pub width_px: int,
    pub height_px: int,
}

/// Pixel dimensions, both positive.
#[derive(Debug, Eq, PartialEq)]
pub struct MediaDimensions {
    width_px: u32,
    height_px: u32,
}

impl View for MediaDimensions {
    type V = MediaDimensionsView;

    closed spec fn view(&self) -> MediaDimensionsView {
        MediaDimensionsView { width_px: self.width_px as int, height_px: self.height_px as int }
    }
}

impl DeepView for MediaDimensions {
    type V = MediaDimensionsView;

    open spec fn deep_view(&self) -> MediaDimensionsView {
        self@
    }
}

impl Clone for MediaDimensions {
    fn clone(&self) -> (r: Self)
        ensures
            r@ == self@,
    {
        MediaDimensions { width_px: self.width_px, height_px: self.height_px }
    }
}

impl MediaDimensions {
    pub fn new(width_px: u32, height_px: u32) -> (r: Result<Self, MediaError>)
        ensures
            r is Ok <==> width_px > 0 && height_px > 0,
            r matches Ok(d) ==> d@ == (MediaDimensionsView { width_px: width_px as int, height_px: height_px as int }),
            r matches Err(e) ==> (if width_px == 0 {
                e@ == MediaErrorView::ZeroWidth
            } else {
                e@ == MediaErrorView::ZeroHeight
            }),
    {
        if width_px == 0 {
            return Err(MediaError::ZeroWidth);
        }
        if height_px == 0 {
            return Err(MediaError::ZeroHeight);
        }
        Ok(MediaDimensions { width_px, height_px })
    }

    pub fn width_px(&self) -> (r: u32)
        ensures
            r == self@.width_px,
    {
        self.width_px
    }

    pub fn height_px(&self) -> (r: u32)
        ensures
            r == self@.height_px,
    {
        self.height_px
    }
}

pub open spec fn opt_view<T: View>(o: Option<T>) -> Option<T::V> {
    match o {
        Some(t) => Some(t@),
        None => None,
    }
}

fn clone_opt_label(l: &Option<Label>) -> (r: Option<Label>)
    ensures
        opt_view(r) == opt_view(*l),
{
    match l {
        Some(l) => Some(l.clone()),
        None => None,
    }
}

fn clone_opt_dimensions(d: &Option<MediaDimensions>) -> (r: Option<MediaDimensions>)
    ensures
        opt_view(r) == opt_view(*d),
{
    match d {
        Some(d) => Some(d.clone()),
        None => None,
    }
}

pub struct MediaVariantView {
    pub required_profile: Set<PrefixedIdView>,
    pub media_id: PrefixedIdView,
    pub mime_type: MediaMimeTypeView,
    pub label: Option<LabelView>,
    pub dimensions: Option<MediaDimensionsView>,
}

/// An alternative rendition of a media item for consumers whose profile
/// includes `required_profile`.
#[derive(Debug, Eq, PartialEq)]
pub struct MediaVariant {
    required_profile: ConsumerProfile,
    media_id: MediaId,
    mime_type: MediaMimeType,
    label: Option<Label>,
    dimensions: Option<MediaDimensions>,
}

impl View for MediaVariant {
    type V = MediaVariantView;

    closed spec fn view(&self) -> MediaVariantView {
        MediaVariantView {
            required_profile: self.required_profile@,
            media_id: self.media_id@,
            mime_type: self.mime_type@,
            label: opt_view(self.label),
            dimensions: opt_view(self.dimensions),
        }
    }
}

impl DeepView for MediaVariant {
    type V = MediaVariantView;

    open spec fn deep_view(&self) -> MediaVariantView {
        self@
    }
}

impl Clone for MediaVariant {
    fn clone(&self) -> (r: Self)
        ensures
            r@ == self@,
    {
        MediaVariant {
            required_profile: self.required_profile.clone(),
            media_id: self.media_id.clone(),
            mime_type: self.mime_type.clone(),
            label: clone_opt_label(&self.label),
            dimensions: clone_opt_dimensions(&self.dimensions),
        }
    }
}

impl MediaVariant {
    pub fn new(required_profile: ConsumerProfile, media_id: MediaId, mime_type: MediaMimeType) -> (r: Result<
        Self,
        MediaError,
    >)
        ensures
            r is Ok <==> required_profile@.len() > 0,
            r matches Ok(v) ==> v@ == (MediaVariantView {
                required_profile: required_profile@,
                media_id: media_id@,
                mime_type: mime_type@,
                label: None,
                dimensions: None,
            }),
            r matches Err(e) ==> e@ == MediaErrorView::EmptyVariantProfile,
    {
        if required_profile.is_empty() {
            return Err(MediaError::EmptyVariantProfile);
        }
        Ok(MediaVariant { required_profile, media_id, mime_type, label: None, dimensions: None })
    }

    pub fn with_label(self, label: Label) -> (r: Self)
        ensures
            r@ == (MediaVariantView { label: Some(label@), ..self@ }),
    {
        MediaVariant { label: Some(label), ..self }
    }

    pub fn with_dimensions(self, dimensions: MediaDimensions) -> (r: Self)
        ensures
            r@ == (MediaVariantView { dimensions: Some(dimensions@), ..self@ }),
    {
        MediaVariant { dimensions: Some(dimensions), ..self }
    }

    pub fn required_profile(&self) -> (r: &ConsumerProfile)
        ensures
            r@ == self@.required_profile,
    {
        &self.required_profile
    }

    pub fn media_id(&self) -> (r: &MediaId)
        ensures
            r@ == self@.media_id,
    {
        &self.media_id
    }

    pub fn mime_type(&self) -> (r: &MediaMimeType)
        ensures
            r@ == self@.mime_type,
    {
        &self.mime_type
    }

    pub fn label(&self) -> (r: Option<&Label>)
        ensures
            match r {
                Some(l) => self@.label == Some(l@),
                None => self@.label is None,
            },
    {
        self.label.as_ref()
    }

    pub fn dimensions(&self) -> (r: Option<&MediaDimensions>)
        ensures
            match r {
                Some(d) => self@.dimensions == Some(d@),
                None => self@.dimensions is None,
            },
    {
        self.dimensions.as_ref()
    }
}

pub struct ResolvedMediaView {
    pub media_id: PrefixedIdView,
    pub mime_type: MediaMimeTypeView,
    pub label: Option<ResolvedLabelView>,
    pub dimensions: Option<MediaDimensionsView>,
    pub matched_profile: Option<Set<PrefixedIdView>>,
}

pub struct MediaView {
    pub media_id: PrefixedIdView,
    pub mime_type: MediaMimeTypeView,
    pub label: Option<LabelView>,
    pub dimensions: Option<MediaDimensionsView>,
    pub variants: Seq<MediaVariantView>,
}

/// A label resolved for a profile, or the label error it gives.
pub open spec fn resolve_opt_label(label: Option<LabelView>, active: Set<PrefixedIdView>) -> Result<
    Option<ResolvedLabelView>,
    LabelErrorView,
> {
    match label {
        None => Ok(None),
        Some(l) => match l.resolve(active) {
            Ok(r) => Ok(Some(r)),
            Err(e) => Err(e),
        },
    }
}

impl MediaView {
    pub open spec fn required_profiles(self) -> Seq<Set<PrefixedIdView>> {
        self.variants.map_values(|v: MediaVariantView| v.required_profile)
    }

    /// The most specific matching variant replaces the default rendition (its
    /// label falling back to the default's); two equally specific matches are
    /// an error; the chosen label is resolved for the same profile.
    #[verifier::opaque]
    pub open spec fn resolve(self, active: Set<PrefixedIdView>) -> Result<ResolvedMediaView, MediaErrorView> {
        let required = self.required_profiles();
        if is_ambiguous(required, active) {
            let j = choose|j: int| #[trigger] profile_matches(required, active, j) && forall|m: int| #[trigger] profile_matches(required, active, m) ==> required[m].len() <= required[j].len();
            Err(MediaErrorView::AmbiguousResolution {
                media_id: self.media_id,
                consumer_profile: active,
                specificity: required[j].len(),
            })
        } else if !any_match(required, active) {
            match resolve_opt_label(self.label, active) {
                Err(e) => Err(MediaErrorView::Label(e)),
                Ok(label) => Ok(ResolvedMediaView {
                    media_id: self.media_id,
                    mime_type: self.mime_type,
                    label,
                    dimensions: self.dimensions,
                    matched_profile: None,
                }),
            }
        } else {
            let b = choose|b: int| is_most_specific(required, active, b);
            let v = self.variants[b];
            let chosen = if v.label is Some {
                v.label
            } else {
                self.label
            };
            match resolve_opt_label(chosen, active) {
                Err(e) => Err(MediaErrorView::Label(e)),
                Ok(label) => Ok(ResolvedMediaView {
                    media_id: v.media_id,
                    mime_type: v.mime_type,
                    label,
                    dimensions: v.dimensions,
                    matched_profile: Some(v.required_profile),
                }),
            }
        }
    }
}

/// A media item: a default rendition with optional label, dimensions and
/// profile-specific variants.
#[derive(Debug, Eq, PartialEq)]
pub struct Media {
    media_id: MediaId,
    mime_type: MediaMimeType,
    label: Option<Label>,
    dimensions: Option<MediaDimensions>,
    variants: Vec<MediaVariant>,
}

impl View for Media {
    type V = MediaView;

    closed spec fn view(&self) -> MediaView {
        MediaView {
            media_id: self.media_id@,
            mime_type: self.mime_type@,
            label: opt_view(self.label),
            dimensions: opt_view(self.dimensions),
            variants: self.variants.deep_view(),
        }
    }
}

impl DeepView for Media {
    type V = MediaView;

    open spec fn deep_view(&self) -> MediaView {
        self@
    }
}

impl Clone for Media {
    fn clone(&self) -> (r: Self)
        ensures
            r@ == self@,
    {
        let variants = self.variants.clone();
        let r = Media {
            media_id: self.media_id.clone(),
            mime_type: self.mime_type.clone(),
            label: clone_opt_label(&self.label),
            dimensions: clone_opt_dimensions(&self.dimensions),
            variants,
        };
        assert(r@.variants =~= self@.variants);
        r
    }
}

pub open spec fn media_result(r: Result<ResolvedMedia, MediaError>) -> Result<ResolvedMediaView, MediaErrorView> {
    match r {
        Ok(m) => Ok(m@),
        Err(e) => Err(e@),
    }
}

fn resolve_label_option(label: Option<&Label>, consumer_profile: &ConsumerProfile) -> (r: Result<
    Option<ResolvedLabel>,
    LabelError,
>)
    ensures
        match r {
            Ok(l) => resolve_opt_label(opt_view(label), consumer_profile@) == Ok::<Option<ResolvedLabelView>, LabelErrorView>(opt_view(l)),
            Err(e) => resolve_opt_label(opt_view(label), consumer_profile@) == Err::<Option<ResolvedLabelView>, LabelErrorView>(e@),
        },
{
    match label {
        None => Ok(None),
        Some(l) => match l.resolve(consumer_profile) {
            Ok(r) => Ok(Some(r)),
            Err(e) => Err(e),
        },
    }
}

impl Media {
    pub fn new(media_id: MediaId, mime_type: MediaMimeType) -> (r: Self)
        ensures
            r@ == (MediaView {
                media_id: media_id@,
                mime_type: mime_type@,
                label: None,
                dimensions: None,
                variants: Seq::empty(),
            }),
    {
        let r = Media { media_id, mime_type, label: None, dimensions: None, variants: Vec::new() };
        assert(r@.variants =~= Seq::<MediaVariantView>::empty());
        r
    }

    pub fn with_label(self, label: Label) -> (r: Self)
        ensures
            r@ == (MediaView { label: Some(label@), ..self@ }),
    {
        Media { label: Some(label), ..self }
    }

    pub fn with_dimensions(self, dimensions: MediaDimensions) -> (r: Self)
        ensures
            r@ == (MediaView { dimensions: Some(dimensions@), ..self@ }),
    {
        Media { dimensions: Some(dimensions), ..self }
    }

    pub fn with_variant(self, variant: MediaVariant) -> (r: Result<Self, MediaError>)
        ensures
            match r {
                Ok(m) => !exists|i: int| 0 <= i < self@.variants.len() && #[trigger] self@.variants[i].required_profile == variant@.required_profile
                    && m@ == (MediaView { variants: self@.variants.push(variant@), ..self@ }),
                Err(e) => (exists|i: int| 0 <= i < self@.variants.len() && #[trigger] self@.variants[i].required_profile == variant@.required_profile)
                    && e@ == (MediaErrorView::DuplicateVariantProfile { media_id: self@.media_id, profile: variant@.required_profile }),
            },
    {
        let mut m = self;
        m.add_variant(variant)?;
        Ok(m)
    }

    pub fn add_variant(&mut self, variant: MediaVariant) -> (r: Result<(), MediaError>)
        ensures
            match r {
                Ok(_) => !exists|i: int| 0 <= i < old(self)@.variants.len() && #[trigger] old(self)@.variants[i].required_profile == variant@.required_profile
                    && final(self)@ == (MediaView { variants: old(self)@.variants.push(variant@), ..old(self)@ }),
                Err(e) => (exists|i: int| 0 <= i < old(self)@.variants.len() && #[trigger] old(self)@.variants[i].required_profile == variant@.required_profile)
                    && e@ == (MediaErrorView::DuplicateVariantProfile { media_id: old(self)@.media_id, profile: variant@.required_profile })
                    && final(self)@ == old(self)@,
            },
    {
        let mut i: usize = 0;
        while i < self.variants.len()
            invariant
                i <= self.variants.len(),
                self@ == old(self)@,
                forall|j: int| 0 <= j < i ==> #[trigger] self@.variants[j].required_profile != variant@.required_profile,
            decreases self.variants.len() - i,
        {
            assert(self@.variants[i as int] == self.variants@[i as int]@);
            if self.variants[i].required_profile().has_same_attributes(variant.required_profile()) {
                assert(self@.variants.len() == self.variants@.len());
                return Err(MediaError::DuplicateVariantProfile {
                    media_id: self.media_id.clone(),
                    profile: variant.required_profile.clone(),
                });
            }
            i += 1;
        }
        let ghost before = self@;
        self.variants.push(variant);
        assert(self@.variants =~= before.variants.push(variant@));
        Ok(())
    }

    pub fn media_id(&self) -> (r: &MediaId)
        ensures
            r@ == self@.media_id,
    {
        &self.media_id
    }

    pub fn mime_type(&self) -> (r: &MediaMimeType)
        ensures
            r@ == self@.mime_type,
    {
        &self.mime_type
    }

    pub fn label(&self) -> (r: Option<&Label>)
        ensures
            match r {
                Some(l) => self@.label == Some(l@),
                None => self@.label is None,
            },
    {
        self.label.as_ref()
    }

    pub fn dimensions(&self) -> (r: Option<&MediaDimensions>)
        ensures
            match r {
                Some(d) => self@.dimensions == Some(d@),
                None => self@.dimensions is None,
            },
    {
        self.dimensions.as_ref()
    }

    pub fn variants(&self) -> (r: &[MediaVariant])
        ensures
            r.deep_view() == self@.variants,
    {
        self.variants.as_slice()
    }

    pub fn resolve(&self, consumer_profile: &ConsumerProfile) -> (r: Result<ResolvedMedia, MediaError>)
        ensures
            media_result(r) == self@.resolve(consumer_profile@),
    {
        proof {
            reveal(MediaView::resolve);
        }
        let chosen = self.resolve_variant(consumer_profile)?;
        let ghost req = self@.required_profiles();
        match chosen {
            Some(b) => {
                let variant = &self.variants[b];
                assert(self@.variants[b as int] == variant@);
                proof {
                    let c = choose|c: int| is_most_specific(req, consumer_profile@, c);
                    if c < b {
                        assert(profile_matches(req, consumer_profile@, c));
                    }
                    if b < c {
                        assert(profile_matches(req, consumer_profile@, b as int));
                    }
                }
                let label = match variant.label.as_ref() {
                    Some(l) => Some(l),
                    None => self.label.as_ref(),
                };
                let resolved_label = match resolve_label_option(label, consumer_profile) {
                    Ok(l) => l,
                    Err(e) => return Err(MediaError::Label(e)),
                };
                Ok(ResolvedMedia {
                    media_id: variant.media_id.clone(),
                    mime_type: variant.mime_type.clone(),
                    label: resolved_label,
                    dimensions: clone_opt_dimensions(&variant.dimensions),
                    matched_profile: Some(variant.required_profile.clone()),
                })
            },
            None => {
                let resolved_label = match resolve_label_option(self.label.as_ref(), consumer_profile) {
                    Ok(l) => l,
                    Err(e) => return Err(MediaError::Label(e)),
                };
                Ok(ResolvedMedia {
                    media_id: self.media_id.clone(),
                    mime_type: self.mime_type.clone(),
                    label: resolved_label,
                    dimensions: clone_opt_dimensions(&self.dimensions),
                    matched_profile: None,
                })
            },
        }
    }

    fn resolve_variant(&self, consumer_profile: &ConsumerProfile) -> (r: Result<Option<usize>, MediaError>)
        ensures
            r is Err <==> is_ambiguous(self@.required_profiles(), consumer_profile@),
            r matches Err(e) ==> Err::<ResolvedMediaView, MediaErrorView>(e@) == self@.resolve(consumer_profile@),
            r == Ok::<Option<usize>, MediaError>(None) <==> !is_ambiguous(self@.required_profiles(), consumer_profile@) && !any_match(self@.required_profiles(), consumer_profile@),
            r matches Ok(Some(b)) ==> is_most_specific(self@.required_profiles(), consumer_profile@, b as int),
    {
        proof {
            reveal(MediaView::resolve);
        }
        let mut required: Vec<ConsumerProfile> = Vec::new();
        let mut i: usize = 0;
        while i < self.variants.len()
            invariant
                i <= self.variants.len(),
                required.deep_view() == self@.required_profiles().take(i as int),
            decreases self.variants.len() - i,
        {
            assert(self@.variants[i as int] == self.variants@[i as int]@);
            let ghost before = required.deep_view();
            required.push(self.variants[i].required_profile().clone());
            assert(self@.required_profiles()[i as int] == self@.variants[i as int].required_profile);
            assert(required.deep_view() =~= before.push(self@.variants[i as int].required_profile));
            assert(required.deep_view() =~= self@.required_profiles().take(i + 1));
            i += 1;
        }
        assert(required.deep_view() =~= self@.required_profiles());
        let ghost req = self@.required_profiles();
        match most_specific_match(&required, consumer_profile) {
            Err(specificity) => {
                proof {
                    let j = choose|j: int| #[trigger] profile_matches(req, consumer_profile@, j) && forall|m: int| #[trigger] profile_matches(req, consumer_profile@, m) ==> req[m].len() <= req[j].len();
                    let j2 = choose|j: int| #[trigger] profile_matches(req, consumer_profile@, j) && specificity == req[j].len() && forall|m: int| #[trigger] profile_matches(req, consumer_profile@, m) ==> req[m].len() <= specificity;
                    assert(req[j].len() <= req[j2].len());
                    assert(req[j2].len() <= req[j].len());
                }
                Err(MediaError::AmbiguousResolution {
                    media_id: self.media_id.clone(),
                    consumer_profile: consumer_profile.clone(),
                    specificity,
                })
            },
            Ok(best) => Ok(best),
        }
    }
}

/// A media item resolved for one consumer profile.
#[derive(Debug, Eq, PartialEq)]
pub struct ResolvedMedia {
    media_id: MediaId,
    mime_type: MediaMimeType,
    label: Option<ResolvedLabel>,
    dimensions: Option<MediaDimensions>,
    matched_profile: Option<ConsumerProfile>,
}

impl View for ResolvedMedia {
    type V = ResolvedMediaView;

    closed spec fn view(&self) -> ResolvedMediaView {
        ResolvedMediaView {
            media_id: self.media_id@,
            mime_type: self.mime_type@,
            label: opt_view(self.label),
            dimensions: opt_view(self.dimensions),
            matched_profile: opt_view(self.matched_profile),
        }
    }
}

impl ResolvedMedia {
    pub fn media_id(&self) -> (r: &MediaId)
        ensures
            r@ == self@.media_id,
    {
        &self.media_id
    }

    pub fn mime_type(&self) -> (r: &MediaMimeType)
        ensures
            r@ == self@.mime_type,
    {
        &self.mime_type
    }

    pub fn label(&self) -> (r: Option<&ResolvedLabel>)
        ensures
            match r {
                Some(l) => self@.label == Some(l@),
                None => self@.label is None,
            },
    {
        self.label.as_ref()
    }

    pub fn dimensions(&self) -> (r: Option<&MediaDimensions>)
        ensures
            match r {
                Some(d) => self@.dimensions == Some(d@),
                None => self@.dimensions is None,
            },
    {
        self.dimensions.as_ref()
    }

    pub fn matched_profile(&self) -> (r: Option<&ConsumerProfile>)
        ensures
            match r {
                Some(p) => self@.matched_profile == Some(p@),
                None => self@.matched_profile is None,
            },
    {
        self.matched_profile.as_ref()
    }
}

/// An ordered collection of media whose default media IDs are distinct.
#[derive(Debug, Eq, PartialEq)]
pub struct MediaCollection {
    media: Vec<Media>,
}

impl View for MediaCollection {
    type V = Seq<MediaView>;

    closed spec fn view(&self) -> Seq<MediaView> {
        self.media.deep_view()
    }
}

impl DeepView for MediaCollection {
    type V = Seq<MediaView>;

    open spec fn deep_view(&self) -> Seq<MediaView> {
        self@
    }
}

impl Clone for MediaCollection {
    fn clone(&self) -> (r: Self)
        ensures
            r@ == self@,
    {
        let media = self.media.clone();
        let r = MediaCollection { media };
        assert(r@ =~= self@);
        r
    }
}

impl Default for MediaCollection {
    fn default() -> (r: Self)
        ensures
            r@ == Seq::<MediaView>::empty(),
    {
        Self::empty()
    }
}

/// Some media ID occurs twice; the reported ID is the first repetition.
pub open spec fn first_repeated_media_id(media: Seq<MediaView>, j: int) -> bool {
    &&& 0 <= j < media.len()
    &&& exists|i: int| 0 <= i < j && #[trigger] media[i].media_id == media[j].media_id
    &&& forall|a: int, b: int| 0 <= a < b < j ==> media[a].media_id != media[b].media_id
}

pub open spec fn distinct_media_ids(media: Seq<MediaView>) -> bool {
    forall|a: int, b: int| 0 <= a < b < media.len() ==> media[a].media_id != media[b].media_id
}

/// Resolving every media item in order; the first error stops it.
pub open spec fn resolve_all(media: Seq<MediaView>, active: Set<PrefixedIdView>) -> Result<Seq<ResolvedMediaView>, MediaErrorView>
    decreases media.len(),
{
    if media.len() == 0 {
        Ok(Seq::empty())
    } else {
        match resolve_all(media.drop_last(), active) {
            Err(e) => Err(e),
            Ok(prefix) => match media.last().resolve(active) {
                Err(e) => Err(e),
                Ok(m) => Ok(prefix.push(m)),
            },
        }
    }
}

impl MediaCollection {
    pub fn empty() -> (r: Self)
        ensures
            r@ == Seq::<MediaView>::empty(),
    {
        let r = MediaCollection { media: Vec::new() };
        assert(r@ =~= Seq::<MediaView>::empty());
        r
    }

    pub fn new(media: Vec<Media>) -> (r: Result<Self, MediaError>)
        ensures
            r is Ok <==> distinct_media_ids(media.deep_view()),
            r matches Ok(c) ==> c@ == media.deep_view(),
            r matches Err(e) ==> exists|j: int| first_repeated_media_id(media.deep_view(), j)
                && #[trigger] e@ == MediaErrorView::DuplicateMedia(media.deep_view()[j].media_id),
    {
        validate_unique_default_media_ids(&media)?;
        Ok(MediaCollection { media })
    }

    pub fn media(&self) -> (r: &[Media])
        ensures
            r.deep_view() == self@,
    {
        self.media.as_slice()
    }

    pub fn is_empty(&self) -> (r: bool)
        ensures
            r == (self@.len() == 0),
    {
        self.media.len() == 0
    }

    pub fn len(&self) -> (r: usize)
        ensures
            r == self@.len(),
    {
        self.media.len()
    }

    #[verifier::spinoff_prover]
    pub fn resolve(&self, consumer_profile: &ConsumerProfile) -> (r: Result<Vec<ResolvedMedia>, MediaError>)
        ensures
            match r {
                Ok(v) => resolve_all(self@, consumer_profile@) == Ok::<Seq<ResolvedMediaView>, MediaErrorView>(v@.map_values(|m: ResolvedMedia| m@)),
                Err(e) => resolve_all(self@, consumer_profile@) == Err::<Seq<ResolvedMediaView>, MediaErrorView>(e@),
            },
    {
        let mut out: Vec<ResolvedMedia> = Vec::new();
        let mut i: usize = 0;
        assert(self@.take(0) =~= Seq::<MediaView>::empty());
        assert(out@.map_values(|m: ResolvedMedia| m@) =~= Seq::<ResolvedMediaView>::empty());
        while i < self.media.len()
            invariant
                i <= self.media.len(),
                resolve_all(self@.take(i as int), consumer_profile@) == Ok::<Seq<ResolvedMediaView>, MediaErrorView>(out@.map_values(|m: ResolvedMedia| m@)),
            decreases self.media.len() - i,
        {
            proof {
                lemma_resolve_all_step(self@, consumer_profile@, i as int);
            }
            assert(self@[i as int] == self.media@[i as int]@);
            match self.media[i].resolve(consumer_profile) {
                Ok(m) => {
                    let ghost before = out@;
                    out.push(m);
                    assert(out@.map_values(|m: ResolvedMedia| m@) =~= before.map_values(|m: ResolvedMedia| m@).push(m@));
                },
                Err(e) => {
                    proof {
                        lemma_resolve_all_error_extends(self@, consumer_profile@, i as int + 1);
                    }
                    return Err(e);
                },
            }
            i += 1;
        }
        assert(self@.take(self.media.len() as int) =~= self@);
        Ok(out)
    }
}

proof fn lemma_resolve_all_step(media: Seq<MediaView>, active: Set<PrefixedIdView>, i: int)
    requires
        0 <= i < media.len(),
    ensures
        resolve_all(media.take(i + 1), active) == match resolve_all(media.take(i), active) {
            Err(e) => Err(e),
            Ok(prefix) => match media[i].resolve(active) {
                Err(e) => Err(e),
                Ok(m) => Ok::<Seq<ResolvedMediaView>, MediaErrorView>(prefix.push(m)),
            },
        },
{
    assert(media.take(i + 1).drop_last() =~= media.take(i));
    assert(media.take(i + 1).last() == media[i]);
}

proof fn lemma_resolve_all_error_extends(media: Seq<MediaView>, active: Set<PrefixedIdView>, k: int)
    requires
        0 <= k <= media.len(),
        resolve_all(media.take(k), active) is Err,
    ensures
        resolve_all(media, active) == resolve_all(media.take(k), active),
    decreases media.len() - k,
{
    if k < media.len() {
        assert(media.take(k + 1).drop_last() =~= media.take(k));
        lemma_resolve_all_error_extends(media, active, k + 1);
    } else {
        assert(media.take(k) =~= media);
    }
}

fn validate_unique_default_media_ids(media: &Vec<Media>) -> (r: Result<(), MediaError>)
    ensures
        r is Ok <==> distinct_media_ids(media.deep_view()),
        r matches Err(e) ==> exists|j: int| first_repeated_media_id(media.deep_view(), j)
            && #[trigger] e@ == MediaErrorView::DuplicateMedia(media.deep_view()[j].media_id),
{
    let ghost mv = media.deep_view();
    let mut j: usize = 0;
    while j < media.len()
        invariant
            j <= media.len(),
            mv == media.deep_view(),
            forall|a: int, b: int| 0 <= a < b < j ==> mv[a].media_id != mv[b].media_id,
        decreases media.len() - j,
    {
        let mut i: usize = 0;
        while i < j
            invariant
                i <= j < media.len(),
                mv == media.deep_view(),
                forall|a: int, b: int| 0 <= a < b < j ==> mv[a].media_id != mv[b].media_id,
                forall|a: int| 0 <= a < i ==> mv[a].media_id != mv[j as int].media_id,
            decreases j - i,
        {
            assert(mv[i as int] == media@[i as int]@);
            assert(mv[j as int] == media@[j as int]@);
            if media[i].media_id().same_as(media[j].media_id()) {
                let e = MediaError::DuplicateMedia(media[j].media_id().clone());
                assert(mv[i as int].media_id == mv[j as int].media_id);
                assert(first_repeated_media_id(mv, j as int));
                return Err(e);
            }
            i += 1;
        }
        j += 1;
    }
    Ok(())
}

pub enum MediaErrorView {
    DuplicateMedia(PrefixedIdView),
    DuplicateVariantProfile { media_id: PrefixedIdView, profile: Set<PrefixedIdView> },
    AmbiguousResolution { media_id: PrefixedIdView, consumer_profile: Set<PrefixedIdView>, specificity: nat },
    EmptyVariantProfile,
    InvalidMimeType(Seq<char>),
    ZeroWidth,
    ZeroHeight,
    Label(LabelErrorView),
}

#[derive(Debug, Eq, PartialEq)]
pub enum MediaError {
    DuplicateMedia(MediaId),
    DuplicateVariantProfile { media_id: MediaId, profile: ConsumerProfile },
    AmbiguousResolution { media_id: MediaId, consumer_profile: ConsumerProfile, specificity: usize },
    EmptyVariantProfile,
    InvalidMimeType(String),
    ZeroWidth,
    ZeroHeight,
    Label(LabelError),
}

impl View for MediaError {
    type V = MediaErrorView;

    open spec fn view(&self) -> MediaErrorView {
        match self {
            MediaError::DuplicateMedia(id) => MediaErrorView::DuplicateMedia(id@),
            MediaError::DuplicateVariantProfile { media_id, profile } => MediaErrorView::DuplicateVariantProfile { media_id: media_id@, profile: profile@ },
            MediaError::AmbiguousResolution { media_id, consumer_profile, specificity } => MediaErrorView::AmbiguousResolution {
                media_id: media_id@,
                consumer_profile: consumer_profile@,
                specificity: *specificity as nat,
            },
            MediaError::EmptyVariantProfile => MediaErrorView::EmptyVariantProfile,
            MediaError::InvalidMimeType(s) => MediaErrorView::InvalidMimeType(s@),
            MediaError::ZeroWidth => MediaErrorView::ZeroWidth,
            MediaError::ZeroHeight => MediaErrorView::ZeroHeight,
            MediaError::Label(e) => MediaErrorView::Label(e@),
        }
    }
}

impl From<LabelError> for MediaError {
    fn from(error: LabelError) -> (r: Self) {
        MediaError::Label(error)
    }
}

impl vstd::std_specs::convert::FromSpecImpl<LabelError> for MediaError {
    open spec fn obeys_from_spec() -> bool {
        true
    }

    open spec fn from_spec(v: LabelError) -> Self {
        MediaError::Label(v)
    }
}

/// A media item without variants resolves to its default rendition.
pub proof fn lemma_media_without_variants_resolves_default(m: MediaView, active: Set<PrefixedIdView>)
    requires
        m.variants.len() == 0,
        resolve_opt_label(m.label, active) is Ok,
    ensures
        m.resolve(active) is Ok,
        m.resolve(active)->Ok_0.media_id == m.media_id,
        m.resolve(active)->Ok_0.matched_profile is None,
{
    reveal(MediaView::resolve);
    assert(!any_match(m.required_profiles(), active));
    assert(!is_ambiguous(m.required_profiles(), active));
}

/// The text a media error reads as.
pub open spec fn media_error_message(e: MediaErrorView) -> Seq<char> {
    match e {
        MediaErrorView::DuplicateMedia(media_id) => "duplicate media `"@ + media_id.full() + "`"@,
        MediaErrorView::DuplicateVariantProfile { media_id, .. } => "media `"@ + media_id.full()
            + "` has duplicate variant profiles"@,
        MediaErrorView::AmbiguousResolution { media_id, specificity, .. } => "media `"@ + media_id.full()
            + "` has multiple matching variants at specificity `"@ + decimal(specificity) + "`"@,
        MediaErrorView::EmptyVariantProfile => "media variant profile cannot be empty"@,
        MediaErrorView::InvalidMimeType(value) => "invalid media MIME type `"@ + value + "`"@,
        MediaErrorView::ZeroWidth => "media width must be greater than zero"@,
        MediaErrorView::ZeroHeight => "media height must be greater than zero"@,
        MediaErrorView::Label(error) => label_error_message(error),
    }
}

impl MediaError {
    /// The error as text.
    pub fn message(&self) -> (r: String)
        ensures
            r@ == media_error_message(self@),
    {
        match self {
            MediaError::DuplicateMedia(media_id) => {
                let mut s = owned("duplicate media `");
                push_text(&mut s, media_id.as_str());
                push_text(&mut s, "`");
                s
            },
            MediaError::DuplicateVariantProfile { media_id, .. } => {
                let mut s = owned("media `");
                push_text(&mut s, media_id.as_str());
                push_text(&mut s, "` has duplicate variant profiles");
                s
            },
            MediaError::AmbiguousResolution { media_id, specificity, .. } => {
                let mut s = owned("media `");
                push_text(&mut s, media_id.as_str());
                push_text(&mut s, "` has multiple matching variants at specificity `");
                push_decimal(&mut s, *specificity as u64);
                push_text(&mut s, "`");
                s
            },
            MediaError::EmptyVariantProfile => owned("media variant profile cannot be empty"),
            MediaError::InvalidMimeType(value) => {
                let mut s = owned("invalid media MIME type `");
                push_text(&mut s, value.as_str());
                push_text(&mut s, "`");
                s
            },
            MediaError::ZeroWidth => owned("media width must be greater than zero"),
            MediaError::ZeroHeight => owned("media height must be greater than zero"),
            MediaError::Label(error) => error.message(),
        }
    }
}

} // verus!
