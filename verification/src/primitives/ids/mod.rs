//! Typed identifiers: each kind of identifier carries its own three-letter prefix.
use core::marker::PhantomData;
use vstd::prelude::*;

mod pfx_prefixed_id;

pub use pfx_prefixed_id::{
    id_parse_error_message, id_result_view, joined, spec_from_suffix, spec_parse, valid_prefix, valid_suffix, IdParseError,
    IdParseErrorView, PrefixedId, PrefixedIdView,
};

verus! {

/// A kind of identifier, named by its prefix.
pub trait IdKind {
    spec fn spec_prefix() -> Seq<char>;

    fn prefix() -> (p: &'static str)
        ensures
            p@ == Self::spec_prefix(),
    ;
}

/// An identifier of kind `K`: a prefixed identifier whose prefix is `K`'s.
#[derive(Debug, Eq, PartialEq, Ord, PartialOrd, Hash)]
pub struct TypedId<K> {
    id: PrefixedId,
    kind: PhantomData<K>,
}

impl<K> View for TypedId<K> {
    type V = PrefixedIdView;

    closed spec fn view(&self) -> PrefixedIdView {
        self.id@
    }
}

impl<K> DeepView for TypedId<K> {
    type V = PrefixedIdView;

    open spec fn deep_view(&self) -> PrefixedIdView {
        self@
    }
}

impl<K> Clone for TypedId<K> {
    fn clone(&self) -> (r: Self)
        ensures
            r@ == self@,
    {
        TypedId { id: self.id.clone(), kind: PhantomData }
    }
}

/// The abstract value of a typed parse result.
pub open spec fn typed_result_view<K>(r: Result<TypedId<K>, IdParseError>) -> Result<
    PrefixedIdView,
    IdParseErrorView,
> {
    match r {
        Ok(id) => Ok(id@),
        Err(e) => Err(e@),
    }
}

impl<K: IdKind> TypedId<K> {
    /// Parses `PREFIX-suffix`, where `PREFIX` must be this kind's prefix.
    pub fn parse(value: &str) -> (r: Result<Self, IdParseError>)
        ensures
            typed_result_view(r) == spec_parse(K::spec_prefix(), value@),
    {
        match PrefixedId::parse(K::prefix(), value) {
            Ok(id) => Ok(TypedId { id, kind: PhantomData }),
            Err(e) => Err(e),
        }
    }

    /// Builds the identifier `PREFIX-suffix` from its suffix.
    pub fn from_suffix(suffix: &str) -> (r: Result<Self, IdParseError>)
        ensures
            typed_result_view(r) == spec_from_suffix(K::spec_prefix(), suffix@),
    {
        match PrefixedId::from_suffix(K::prefix(), suffix) {
            Ok(id) => Ok(TypedId { id, kind: PhantomData }),
            Err(e) => Err(e),
        }
    }

    pub fn as_str(&self) -> (r: &str)
        ensures
            r@ == self@.full(),
            valid_prefix(self@.prefix),
    {
        self.id.as_str()
    }

    pub fn suffix(&self) -> (r: &str)
        ensures
            r@ == self@.suffix,
            valid_suffix(r@),
    {
        self.id.suffix()
    }
}

impl<K: IdKind> std::str::FromStr for TypedId<K> {
    type Err = IdParseError;

    fn from_str(value: &str) -> Result<Self, Self::Err> {
        Self::parse(value)
    }
}

impl<K: IdKind> AsRef<str> for TypedId<K> {
    fn as_ref(&self) -> &str {
        self.as_str()
    }
}

impl<K> TypedId<K> {
    /// Whether two identifiers are the same.
    pub fn same_as(&self, other: &Self) -> (r: bool)
        ensures
            r == (self@ == other@),
    {
        self.id.same_as(&other.id)
    }
}

/// The kind of [`ActorId`], prefixed `ACT`.
#[derive(Debug, Clone, Copy, Eq, PartialEq, Ord, PartialOrd, Hash)]
pub struct ActorIdKind;

impl IdKind for ActorIdKind {
    open spec fn spec_prefix() -> Seq<char> {
        seq!['A', 'C', 'T']
    }

    fn prefix() -> (p: &'static str) {
        proof {
            reveal_strlit("ACT");
        }
        "ACT"
    }
}

pub type ActorId = TypedId<ActorIdKind>;

/// The kind of [`AllocationId`], prefixed `ALC`.
#[derive(Debug, Clone, Copy, Eq, PartialEq, Ord, PartialOrd, Hash)]
pub struct AllocationIdKind;

impl IdKind for AllocationIdKind {
    open spec fn spec_prefix() -> Seq<char> {
        seq!['A', 'L', 'C']
    }

    fn prefix() -> (p: &'static str) {
        proof {
            reveal_strlit("ALC");
        }
        "ALC"
    }
}

pub type AllocationId = TypedId<AllocationIdKind>;

/// The kind of [`ConsumerAttributeId`], prefixed `ATR`.
#[derive(Debug, Clone, Copy, Eq, PartialEq, Ord, PartialOrd, Hash)]
pub struct ConsumerAttributeIdKind;

impl IdKind for ConsumerAttributeIdKind {
    open spec fn spec_prefix() -> Seq<char> {
        seq!['A', 'T', 'R']
    }

    fn prefix() -> (p: &'static str) {
        proof {
            reveal_strlit("ATR");
        }
        "ATR"
    }
}

pub type ConsumerAttributeId = TypedId<ConsumerAttributeIdKind>;

/// The kind of [`BagId`], prefixed `BAG`.
#[derive(Debug, Clone, Copy, Eq, PartialEq, Ord, PartialOrd, Hash)]
pub struct BagIdKind;

impl IdKind for BagIdKind {
    open spec fn spec_prefix() -> Seq<char> {
        seq!['B', 'A', 'G']
    }

    fn prefix() -> (p: &'static str) {
        proof {
            reveal_strlit("BAG");
        }
        "BAG"
    }
}

pub type BagId = TypedId<BagIdKind>;

/// The kind of [`BrandId`], prefixed `BRD`.
#[derive(Debug, Clone, Copy, Eq, PartialEq, Ord, PartialOrd, Hash)]
pub struct BrandIdKind;

impl IdKind for BrandIdKind {
    open spec fn spec_prefix() -> Seq<char> {
        seq!['B', 'R', 'D']
    }

    fn prefix() -> (p: &'static str) {
        proof {
            reveal_strlit("BRD");
        }
        "BRD"
    }
}

pub type BrandId = TypedId<BrandIdKind>;

/// The kind of [`CatalogId`], prefixed `CAT`.
#[derive(Debug, Clone, Copy, Eq, PartialEq, Ord, PartialOrd, Hash)]
pub struct CatalogIdKind;

impl IdKind for CatalogIdKind {
    open spec fn spec_prefix() -> Seq<char> {
        seq!['C', 'A', 'T']
    }

    fn prefix() -> (p: &'static str) {
        proof {
            reveal_strlit("CAT");
        }
        "CAT"
    }
}

pub type CatalogId = TypedId<CatalogIdKind>;

/// The kind of [`CheckId`], prefixed `CHK`.
#[derive(Debug, Clone, Copy, Eq, PartialEq, Ord, PartialOrd, Hash)]
pub struct CheckIdKind;

impl IdKind for CheckIdKind {
    open spec fn spec_prefix() -> Seq<char> {
        seq!['C', 'H', 'K']
    }

    fn prefix() -> (p: &'static str) {
        proof {
            reveal_strlit("CHK");
        }
        "CHK"
    }
}

pub type CheckId = TypedId<CheckIdKind>;

/// The kind of [`SupplyClaimId`], prefixed `CLM`.
#[derive(Debug, Clone, Copy, Eq, PartialEq, Ord, PartialOrd, Hash)]
pub struct SupplyClaimIdKind;

impl IdKind for SupplyClaimIdKind {
    open spec fn spec_prefix() -> Seq<char> {
        seq!['C', 'L', 'M']
    }

    fn prefix() -> (p: &'static str) {
        proof {
            reveal_strlit("CLM");
        }
        "CLM"
    }
}

pub type SupplyClaimId = TypedId<SupplyClaimIdKind>;

/// The kind of [`CommandId`], prefixed `CMD`.
#[derive(Debug, Clone, Copy, Eq, PartialEq, Ord, PartialOrd, Hash)]
pub struct CommandIdKind;

impl IdKind for CommandIdKind {
    open spec fn spec_prefix() -> Seq<char> {
        seq!['C', 'M', 'D']
    }

    fn prefix() -> (p: &'static str) {
        proof {
            reveal_strlit("CMD");
        }
        "CMD"
    }
}

pub type CommandId = TypedId<CommandIdKind>;

/// The kind of [`ComponentId`], prefixed `CMP`.
#[derive(Debug, Clone, Copy, Eq, PartialEq, Ord, PartialOrd, Hash)]
pub struct ComponentIdKind;

impl IdKind for ComponentIdKind {
    open spec fn spec_prefix() -> Seq<char> {
        seq!['C', 'M', 'P']
    }

    fn prefix() -> (p: &'static str) {
        proof {
            reveal_strlit("CMP");
        }
        "CMP"
    }
}

pub type ComponentId = TypedId<ComponentIdKind>;

/// The kind of [`CustomerId`], prefixed `CUS`.
#[derive(Debug, Clone, Copy, Eq, PartialEq, Ord, PartialOrd, Hash)]
pub struct CustomerIdKind;

impl IdKind for CustomerIdKind {
    open spec fn spec_prefix() -> Seq<char> {
        seq!['C', 'U', 'S']
    }

    fn prefix() -> (p: &'static str) {
        proof {
            reveal_strlit("CUS");
        }
        "CUS"
    }
}

pub type CustomerId = TypedId<CustomerIdKind>;

/// The kind of [`CatalogVersionId`], prefixed `CVN`.
#[derive(Debug, Clone, Copy, Eq, PartialEq, Ord, PartialOrd, Hash)]
pub struct CatalogVersionIdKind;

impl IdKind for CatalogVersionIdKind {
    open spec fn spec_prefix() -> Seq<char> {
        seq!['C', 'V', 'N']
    }

    fn prefix() -> (p: &'static str) {
        proof {
            reveal_strlit("CVN");
        }
        "CVN"
    }
}

pub type CatalogVersionId = TypedId<CatalogVersionIdKind>;

/// The kind of [`ComponentVersionId`], prefixed `CVR`.
#[derive(Debug, Clone, Copy, Eq, PartialEq, Ord, PartialOrd, Hash)]
pub struct ComponentVersionIdKind;

impl IdKind for ComponentVersionIdKind {
    open spec fn spec_prefix() -> Seq<char> {
        seq!['C', 'V', 'R']
    }

    fn prefix() -> (p: &'static str) {
        proof {
            reveal_strlit("CVR");
        }
        "CVR"
    }
}

pub type ComponentVersionId = TypedId<ComponentVersionIdKind>;

/// The kind of [`DeviceId`], prefixed `DVC`.
#[derive(Debug, Clone, Copy, Eq, PartialEq, Ord, PartialOrd, Hash)]
pub struct DeviceIdKind;

impl IdKind for DeviceIdKind {
    open spec fn spec_prefix() -> Seq<char> {
        seq!['D', 'V', 'C']
    }

    fn prefix() -> (p: &'static str) {
        proof {
            reveal_strlit("DVC");
        }
        "DVC"
    }
}

pub type DeviceId = TypedId<DeviceIdKind>;

/// The kind of [`EdgeId`], prefixed `EDG`.
#[derive(Debug, Clone, Copy, Eq, PartialEq, Ord, PartialOrd, Hash)]
pub struct EdgeIdKind;

impl IdKind for EdgeIdKind {
    open spec fn spec_prefix() -> Seq<char> {
        seq!['E', 'D', 'G']
    }

    fn prefix() -> (p: &'static str) {
        proof {
            reveal_strlit("EDG");
        }
        "EDG"
    }
}

pub type EdgeId = TypedId<EdgeIdKind>;

/// The kind of [`EntryId`], prefixed `ENT`.
#[derive(Debug, Clone, Copy, Eq, PartialEq, Ord, PartialOrd, Hash)]
pub struct EntryIdKind;

impl IdKind for EntryIdKind {
    open spec fn spec_prefix() -> Seq<char> {
        seq!['E', 'N', 'T']
    }

    fn prefix() -> (p: &'static str) {
        proof {
            reveal_strlit("ENT");
        }
        "ENT"
    }
}

pub type EntryId = TypedId<EntryIdKind>;

/// The kind of [`EventId`], prefixed `EVT`.
#[derive(Debug, Clone, Copy, Eq, PartialEq, Ord, PartialOrd, Hash)]
pub struct EventIdKind;

impl IdKind for EventIdKind {
    open spec fn spec_prefix() -> Seq<char> {
        seq!['E', 'V', 'T']
    }

    fn prefix() -> (p: &'static str) {
        proof {
            reveal_strlit("EVT");
        }
        "EVT"
    }
}

pub type EventId = TypedId<EventIdKind>;

/// The kind of [`FulfillmentModeId`], prefixed `FUL`.
#[derive(Debug, Clone, Copy, Eq, PartialEq, Ord, PartialOrd, Hash)]
pub struct FulfillmentModeIdKind;

impl IdKind for FulfillmentModeIdKind {
    open spec fn spec_prefix() -> Seq<char> {
        seq!['F', 'U', 'L']
    }

    fn prefix() -> (p: &'static str) {
        proof {
            reveal_strlit("FUL");
        }
        "FUL"
    }
}

pub type FulfillmentModeId = TypedId<FulfillmentModeIdKind>;

/// The kind of [`CatalogItemId`], prefixed `ITM`.
#[derive(Debug, Clone, Copy, Eq, PartialEq, Ord, PartialOrd, Hash)]
pub struct CatalogItemIdKind;

impl IdKind for CatalogItemIdKind {
    open spec fn spec_prefix() -> Seq<char> {
        seq!['I', 'T', 'M']
    }

    fn prefix() -> (p: &'static str) {
        proof {
            reveal_strlit("ITM");
        }
        "ITM"
    }
}

pub type CatalogItemId = TypedId<CatalogItemIdKind>;

/// The kind of [`LabelId`], prefixed `LBL`.
#[derive(Debug, Clone, Copy, Eq, PartialEq, Ord, PartialOrd, Hash)]
pub struct LabelIdKind;

impl IdKind for LabelIdKind {
    open spec fn spec_prefix() -> Seq<char> {
        seq!['L', 'B', 'L']
    }

    fn prefix() -> (p: &'static str) {
        proof {
            reveal_strlit("LBL");
        }
        "LBL"
    }
}

pub type LabelId = TypedId<LabelIdKind>;

/// The kind of [`MerchantId`], prefixed `MCH`.
#[derive(Debug, Clone, Copy, Eq, PartialEq, Ord, PartialOrd, Hash)]
pub struct MerchantIdKind;

impl IdKind for MerchantIdKind {
    open spec fn spec_prefix() -> Seq<char> {
        seq!['M', 'C', 'H']
    }

    fn prefix() -> (p: &'static str) {
        proof {
            reveal_strlit("MCH");
        }
        "MCH"
    }
}

pub type MerchantId = TypedId<MerchantIdKind>;

/// The kind of [`MediaId`], prefixed `MED`.
#[derive(Debug, Clone, Copy, Eq, PartialEq, Ord, PartialOrd, Hash)]
pub struct MediaIdKind;

impl IdKind for MediaIdKind {
    open spec fn spec_prefix() -> Seq<char> {
        seq!['M', 'E', 'D']
    }

    fn prefix() -> (p: &'static str) {
        proof {
            reveal_strlit("MED");
        }
        "MED"
    }
}

pub type MediaId = TypedId<MediaIdKind>;

/// The kind of [`OrderItemId`], prefixed `OIT`.
#[derive(Debug, Clone, Copy, Eq, PartialEq, Ord, PartialOrd, Hash)]
pub struct OrderItemIdKind;

impl IdKind for OrderItemIdKind {
    open spec fn spec_prefix() -> Seq<char> {
        seq!['O', 'I', 'T']
    }

    fn prefix() -> (p: &'static str) {
        proof {
            reveal_strlit("OIT");
        }
        "OIT"
    }
}

pub type OrderItemId = TypedId<OrderItemIdKind>;

/// The kind of [`ClientOperationId`], prefixed `OPR`.
#[derive(Debug, Clone, Copy, Eq, PartialEq, Ord, PartialOrd, Hash)]
pub struct ClientOperationIdKind;

impl IdKind for ClientOperationIdKind {
    open spec fn spec_prefix() -> Seq<char> {
        seq!['O', 'P', 'R']
    }

    fn prefix() -> (p: &'static str) {
        proof {
            reveal_strlit("OPR");
        }
        "OPR"
    }
}

pub type ClientOperationId = TypedId<ClientOperationIdKind>;

/// The kind of [`OrderId`], prefixed `ORD`.
#[derive(Debug, Clone, Copy, Eq, PartialEq, Ord, PartialOrd, Hash)]
pub struct OrderIdKind;

impl IdKind for OrderIdKind {
    open spec fn spec_prefix() -> Seq<char> {
        seq!['O', 'R', 'D']
    }

    fn prefix() -> (p: &'static str) {
        proof {
            reveal_strlit("ORD");
        }
        "ORD"
    }
}

pub type OrderId = TypedId<OrderIdKind>;

/// The kind of [`PaymentId`], prefixed `PAY`.
#[derive(Debug, Clone, Copy, Eq, PartialEq, Ord, PartialOrd, Hash)]
pub struct PaymentIdKind;

impl IdKind for PaymentIdKind {
    open spec fn spec_prefix() -> Seq<char> {
        seq!['P', 'A', 'Y']
    }

    fn prefix() -> (p: &'static str) {
        proof {
            reveal_strlit("PAY");
        }
        "PAY"
    }
}

pub type PaymentId = TypedId<PaymentIdKind>;

/// The kind of [`PermissionId`], prefixed `PER`.
#[derive(Debug, Clone, Copy, Eq, PartialEq, Ord, PartialOrd, Hash)]
pub struct PermissionIdKind;

impl IdKind for PermissionIdKind {
    open spec fn spec_prefix() -> Seq<char> {
        seq!['P', 'E', 'R']
    }

    fn prefix() -> (p: &'static str) {
        proof {
            reveal_strlit("PER");
        }
        "PER"
    }
}

pub type PermissionId = TypedId<PermissionIdKind>;

/// The kind of [`RoleId`], prefixed `ROL`.
#[derive(Debug, Clone, Copy, Eq, PartialEq, Ord, PartialOrd, Hash)]
pub struct RoleIdKind;

impl IdKind for RoleIdKind {
    open spec fn spec_prefix() -> Seq<char> {
        seq!['R', 'O', 'L']
    }

    fn prefix() -> (p: &'static str) {
        proof {
            reveal_strlit("ROL");
        }
        "ROL"
    }
}

pub type RoleId = TypedId<RoleIdKind>;

/// The kind of [`SurfaceId`], prefixed `SUR`.
#[derive(Debug, Clone, Copy, Eq, PartialEq, Ord, PartialOrd, Hash)]
pub struct SurfaceIdKind;

impl IdKind for SurfaceIdKind {
    open spec fn spec_prefix() -> Seq<char> {
        seq!['S', 'U', 'R']
    }

    fn prefix() -> (p: &'static str) {
        proof {
            reveal_strlit("SUR");
        }
        "SUR"
    }
}

pub type SurfaceId = TypedId<SurfaceIdKind>;

/// The kind of [`TransactionId`], prefixed `TXN`.
#[derive(Debug, Clone, Copy, Eq, PartialEq, Ord, PartialOrd, Hash)]
pub struct TransactionIdKind;

impl IdKind for TransactionIdKind {
    open spec fn spec_prefix() -> Seq<char> {
        seq!['T', 'X', 'N']
    }

    fn prefix() -> (p: &'static str) {
        proof {
            reveal_strlit("TXN");
        }
        "TXN"
    }
}

pub type TransactionId = TypedId<TransactionIdKind>;

/// The kind of [`UserId`], prefixed `USR`.
#[derive(Debug, Clone, Copy, Eq, PartialEq, Ord, PartialOrd, Hash)]
pub struct UserIdKind;

impl IdKind for UserIdKind {
    open spec fn spec_prefix() -> Seq<char> {
        seq!['U', 'S', 'R']
    }

    fn prefix() -> (p: &'static str) {
        proof {
            reveal_strlit("USR");
        }
        "USR"
    }
}

pub type UserId = TypedId<UserIdKind>;

/// The kind of [`VariantId`], prefixed `VAR`.
#[derive(Debug, Clone, Copy, Eq, PartialEq, Ord, PartialOrd, Hash)]
pub struct VariantIdKind;

impl IdKind for VariantIdKind {
    open spec fn spec_prefix() -> Seq<char> {
        seq!['V', 'A', 'R']
    }

    fn prefix() -> (p: &'static str) {
        proof {
            reveal_strlit("VAR");
        }
        "VAR"
    }
}

pub type VariantId = TypedId<VariantIdKind>;

} // verus!
