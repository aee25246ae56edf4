//! Prefixed identifiers such as `ORD-01HX7Y9M8N6ZQ4K3V2B1C0D9EA`.
use vstd::prelude::*;

use crate::text::{
    chars_of, char_is_alnum, char_is_upper, first_index, is_alnum, is_upper, lemma_first_index,
    owned, push_char, push_text, string_of_range,
};

verus! {

/// Exactly three uppercase ASCII letters.
pub open spec fn valid_prefix(p: Seq<char>) -> bool {
    p.len() == 3 && forall|i: int| 0 <= i < 3 ==> is_upper(#[trigger] p[i])
}

/// A non-empty run of ASCII letters, digits and hyphens.
pub open spec fn valid_suffix(s: Seq<char>) -> bool {
    s.len() > 0 && forall|i: int| 0 <= i < s.len() ==> is_alnum(#[trigger] s[i]) || s[i] == '-'
}

/// The full text `PREFIX-suffix`.
pub open spec fn joined(prefix: Seq<char>, suffix: Seq<char>) -> Seq<char> {
    prefix + seq!['-'] + suffix
}

/// The abstract value of a prefixed identifier.
pub struct PrefixedIdView {
    pub prefix: Seq<char>,
    pub suffix: Seq<char>,
}

impl PrefixedIdView {
    pub open spec fn full(self) -> Seq<char> {
        joined(self.prefix, self.suffix)
    }
}

/// The abstract value of an identifier parse error.
pub enum IdParseErrorView {
    InvalidPrefix(Seq<char>),
    MissingSeparator,
    WrongPrefix { expected: Seq<char>, actual: Seq<char> },
    EmptySuffix,
    InvalidSuffix(Seq<char>),
}

/// What `PrefixedId::from_suffix(prefix, suffix)` gives.
pub open spec fn spec_from_suffix(prefix: Seq<char>, suffix: Seq<char>) -> Result<
    PrefixedIdView,
    IdParseErrorView,
> {
    if !valid_prefix(prefix) {
        Err(IdParseErrorView::InvalidPrefix(prefix))
    } else if suffix.len() == 0 {
        Err(IdParseErrorView::EmptySuffix)
    } else if !valid_suffix(suffix) {
        Err(IdParseErrorView::InvalidSuffix(suffix))
    } else {
        Ok(PrefixedIdView { prefix, suffix })
    }
}

/// What `PrefixedId::parse(prefix, value)` gives: the value is split at its
/// first hyphen, the part before it must equal the expected prefix, and the
/// rest is validated as a suffix.
pub open spec fn spec_parse(prefix: Seq<char>, value: Seq<char>) -> Result<
    PrefixedIdView,
    IdParseErrorView,
> {
    let i = first_index(value, '-');
    if !valid_prefix(prefix) {
        Err(IdParseErrorView::InvalidPrefix(prefix))
    } else if i == value.len() {
        Err(IdParseErrorView::MissingSeparator)
    } else if value.subrange(0, i) != prefix {
        Err(IdParseErrorView::WrongPrefix { expected: prefix, actual: value.subrange(0, i) })
    } else {
        spec_from_suffix(prefix, value.subrange(i + 1, value.len() as int))
    }
}

#[derive(Debug, Eq, PartialEq, Ord, PartialOrd, Hash)]
pub struct PrefixedId {
    prefix: String,
    suffix: String,
    full: String,
}

impl PrefixedId {
    #[verifier::type_invariant]
    spec fn well_formed(self) -> bool {
        &&& self.full@ == joined(self.prefix@, self.suffix@)
        &&& valid_prefix(self.prefix@)
        &&& valid_suffix(self.suffix@)
    }
}

impl View for PrefixedId {
    type V = PrefixedIdView;

    closed spec fn view(&self) -> PrefixedIdView {
        PrefixedIdView { prefix: self.prefix@, suffix: self.suffix@ }
    }
}

impl DeepView for PrefixedId {
    type V = PrefixedIdView;

    open spec fn deep_view(&self) -> PrefixedIdView {
        self@
    }
}

impl Clone for PrefixedId {
    fn clone(&self) -> (r: Self)
        ensures
            r@ == self@,
    {
        proof {
            use_type_invariant(self);
        }
        PrefixedId { prefix: self.prefix.clone(), suffix: self.suffix.clone(), full: self.full.clone() }
    }
}

#[derive(Debug, Clone, Eq, PartialEq)]
pub enum IdParseError {
    InvalidPrefix(String),
    MissingSeparator,
    WrongPrefix { expected: String, actual: String },
    EmptySuffix,
    InvalidSuffix(String),
}

impl View for IdParseError {
    type V = IdParseErrorView;

    open spec fn view(&self) -> IdParseErrorView {
        match self {
            IdParseError::InvalidPrefix(p) => IdParseErrorView::InvalidPrefix(p@),
            IdParseError::MissingSeparator => IdParseErrorView::MissingSeparator,
            IdParseError::WrongPrefix { expected, actual } => IdParseErrorView::WrongPrefix {
                expected: expected@,
                actual: actual@,
            },
            IdParseError::EmptySuffix => IdParseErrorView::EmptySuffix,
            IdParseError::InvalidSuffix(s) => IdParseErrorView::InvalidSuffix(s@),
        }
    }
}

/// The abstract value of a parse result.
pub open spec fn id_result_view(r: Result<PrefixedId, IdParseError>) -> Result<
    PrefixedIdView,
    IdParseErrorView,
> {
    match r {
        Ok(id) => Ok(id@),
        Err(e) => Err(e@),
    }
}

fn validate_prefix(prefix: &str) -> (r: Result<(), IdParseError>)
    ensures
        r is Ok <==> valid_prefix(prefix@),
        r matches Err(e) ==> e@ == IdParseErrorView::InvalidPrefix(prefix@),
{
    let v = chars_of(prefix);
    let mut valid = v.len() == 3;
    let mut i: usize = 0;
    while valid && i < v.len()
        invariant
            v@ == prefix@,
            i <= v.len(),
            valid ==> v.len() == 3,
            valid ==> forall|j: int| 0 <= j < i ==> is_upper(#[trigger] prefix@[j]),
            !valid ==> !valid_prefix(prefix@),
        decreases v.len() - i,
    {
        if !char_is_upper(v[i]) {
            valid = false;
        }
        i += 1;
    }
    if valid {
        Ok(())
    } else {
        Err(IdParseError::InvalidPrefix(owned(prefix)))
    }
}

fn validate_suffix(suffix: &str) -> (r: Result<(), IdParseError>)
    ensures
        r is Ok <==> valid_suffix(suffix@),
        r matches Err(e) ==> (if suffix@.len() == 0 {
            e@ == IdParseErrorView::EmptySuffix
        } else {
            e@ == IdParseErrorView::InvalidSuffix(suffix@)
        }),
{
    let v = chars_of(suffix);
    if v.len() == 0 {
        return Err(IdParseError::EmptySuffix);
    }
    let mut i: usize = 0;
    while i < v.len()
        invariant
            v@ == suffix@,
            i <= v.len(),
            forall|j: int| 0 <= j < i ==> is_alnum(#[trigger] suffix@[j]) || suffix@[j] == '-',
        decreases v.len() - i,
    {
        if !(char_is_alnum(v[i]) || v[i] == '-') {
            return Err(IdParseError::InvalidSuffix(owned(suffix)));
        }
        i += 1;
    }
    Ok(())
}

impl PrefixedId {
    pub fn parse(expected_prefix: &str, value: &str) -> (r: Result<Self, IdParseError>)
        ensures
            id_result_view(r) == spec_parse(expected_prefix@, value@),
    {
        validate_prefix(expected_prefix)?;
        let v = chars_of(value);
        proof {
            lemma_first_index(value@, '-');
        }
        let mut i: usize = 0;
        while i < v.len() && v[i] != '-'
            invariant
                v@ == value@,
                i <= v.len(),
                forall|j: int| 0 <= j < i ==> value@[j] != '-',
            decreases v.len() - i,
        {
            i += 1;
        }
        assert(i == first_index(value@, '-')) by {
            if i < first_index(value@, '-') {
                assert(value@[i as int] != '-');
            }
            if i > first_index(value@, '-') {
                assert(value@[first_index(value@, '-')] == '-');
            }
        }
        if i == v.len() {
            return Err(IdParseError::MissingSeparator);
        }
        let actual = string_of_range(&v, 0, i);
        let expected = owned(expected_prefix);
        if actual != expected {
            return Err(IdParseError::WrongPrefix { expected, actual });
        }
        let suffix = string_of_range(&v, i + 1, v.len());
        Self::from_suffix(expected_prefix, suffix.as_str())
    }

    pub fn from_suffix(expected_prefix: &str, suffix: &str) -> (r: Result<Self, IdParseError>)
        ensures
            id_result_view(r) == spec_from_suffix(expected_prefix@, suffix@),
    {
        validate_prefix(expected_prefix)?;
        validate_suffix(suffix)?;
        let mut full = owned(expected_prefix);
        push_char(&mut full, '-');
        let suffix_owned = owned(suffix);
        full.append(suffix);
        assert(full@ =~= joined(expected_prefix@, suffix@));
        Ok(PrefixedId { prefix: owned(expected_prefix), suffix: suffix_owned, full })
    }

    pub fn prefix(&self) -> (r: &str)
        ensures
            r@ == self@.prefix,
    {
        self.prefix.as_str()
    }

    pub fn suffix(&self) -> (r: &str)
        ensures
            r@ == self@.suffix,
            valid_suffix(r@),
    {
        proof {
            use_type_invariant(self);
        }
        self.suffix.as_str()
    }

    pub fn as_str(&self) -> (r: &str)
        ensures
            r@ == self@.full(),
            valid_prefix(self@.prefix),
    {
        proof {
            use_type_invariant(self);
        }
        self.full.as_str()
    }

    /// Whether two identifiers are the same.
    pub fn same_as(&self, other: &Self) -> (r: bool)
        ensures
            r == (self@ == other@),
    {
        let r = self.prefix == other.prefix && self.suffix == other.suffix;
        proof {
            if self.prefix@ == other.prefix@ && self.suffix@ == other.suffix@ {
                assert(self@ == other@);
            }
        }
        r
    }
}

/// The text an identifier parse error reads as.
pub open spec fn id_parse_error_message(e: IdParseErrorView) -> Seq<char> {
    match e {
        IdParseErrorView::InvalidPrefix(prefix) => "invalid ID prefix `"@ + prefix
            + "`; expected exactly three uppercase ASCII letters"@,
        IdParseErrorView::MissingSeparator => "invalid ID; expected `XXX-suffix`"@,
        IdParseErrorView::WrongPrefix { expected, actual } => "wrong ID prefix `"@ + actual + "`; expected `"@ + expected
            + "`"@,
        IdParseErrorView::EmptySuffix => "invalid ID; suffix cannot be empty"@,
        IdParseErrorView::InvalidSuffix(suffix) => "invalid ID suffix `"@ + suffix
            + "`; expected ASCII letters, digits, or hyphens"@,
    }
}

impl IdParseError {
    /// The error as text.
    pub fn message(&self) -> (r: String)
        ensures
            r@ == id_parse_error_message(self@),
    {
        match self {
            IdParseError::InvalidPrefix(prefix) => {
                let mut s = owned("invalid ID prefix `");
                push_text(&mut s, prefix.as_str());
                push_text(&mut s, "`; expected exactly three uppercase ASCII letters");
                s
            },
            IdParseError::MissingSeparator => owned("invalid ID; expected `XXX-suffix`"),
            IdParseError::WrongPrefix { expected, actual } => {
                let mut s = owned("wrong ID prefix `");
                push_text(&mut s, actual.as_str());
                push_text(&mut s, "`; expected `");
                push_text(&mut s, expected.as_str());
                push_text(&mut s, "`");
                s
            },
            IdParseError::EmptySuffix => owned("invalid ID; suffix cannot be empty"),
            IdParseError::InvalidSuffix(suffix) => {
                let mut s = owned("invalid ID suffix `");
                push_text(&mut s, suffix.as_str());
                push_text(&mut s, "`; expected ASCII letters, digits, or hyphens");
                s
            },
        }
    }
}

} // verus!
