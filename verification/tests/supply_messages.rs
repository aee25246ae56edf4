use pos_core_kernel::primitives::ids::{ComponentId, SupplyClaimId};
use pos_core_kernel::supply::{
    SupplyBucket, SupplyError, SupplyLedger, SupplyOperation, SupplyReserve, SupplyRequest, SupplyTarget,
    SupplyUnreserve, SupplyConsume,
};

fn claim_id(suffix: &str) -> SupplyClaimId {
    SupplyClaimId::from_suffix(suffix).unwrap()
}

#[test]
fn supply_error_messages_name_their_subject() {
    assert_eq!(SupplyError::EmptySupplyKey.message(), "supply key cannot be empty");
    assert_eq!(SupplyError::InvalidSupplyKey("a b".to_owned()).message(), "invalid supply key `a b`");
    assert_eq!(SupplyError::EmptyBucketDimensionKey.message(), "supply bucket key cannot be empty");
    assert_eq!(
        SupplyError::EmptyBucketDimensionValue { key: "slot".to_owned() }.message(),
        "supply bucket value for `slot` cannot be empty"
    );
    assert_eq!(
        SupplyError::DuplicateBucketDimension("slot".to_owned()).message(),
        "duplicate supply bucket dimension `slot`"
    );
    assert_eq!(SupplyError::ZeroSupplyQuantity.message(), "supply quantity cannot be zero");
    assert_eq!(SupplyError::UnknownSupplyClaim(claim_id("01CLAIM")).message(), "unknown supply claim `CLM-01CLAIM`");
    assert_eq!(SupplyError::DuplicateSupplyClaim(claim_id("01CLAIM")).message(), "duplicate supply claim `CLM-01CLAIM`");
}

#[test]
fn buckets_keep_dimensions_in_ascending_key_order() {
    let bucket = SupplyBucket::empty().with_dimension("window", "lunch").unwrap().with_dimension("class", "large").unwrap();
    let keys: Vec<&str> = bucket.dimensions().iter().map(|(k, _)| k.as_str()).collect();
    assert_eq!(keys, vec!["class", "window"]);
}

#[test]
fn invalid_transition_message_shows_the_claim_state() {
    let bucket = SupplyBucket::empty().with_dimension("window", "lunch").unwrap().with_dimension("class", "large").unwrap();
    let target = SupplyTarget::choice(ComponentId::from_suffix("01PEPPER").unwrap());
    let request = SupplyRequest::new(target, 2).unwrap().with_bucket(bucket);
    let mut ledger = SupplyLedger::new();
    let id = claim_id("01CLAIM");
    ledger.apply(SupplyOperation::Reserve(SupplyReserve::new(id.clone(), request.clone()))).unwrap();
    ledger.apply(SupplyOperation::Unreserve(SupplyUnreserve::new(id.clone()))).unwrap();
    let error = ledger.apply(SupplyOperation::Consume(SupplyConsume::new(id.clone(), request))).unwrap_err();
    assert_eq!(
        error.message(),
        "cannot apply supply operation `Consume` to claim `CLM-01CLAIM` in state `Unreserved { request: SupplyRequest { target: Choice(ComponentId(\"CMP-01PEPPER\")), quantity: 2, bucket: SupplyBucket { dimensions: {\"class\": \"large\", \"window\": \"lunch\"} } } }`"
    );
    let custom = SupplyRequest::new(SupplyTarget::custom("brunch").unwrap(), 1).unwrap();
    let mut ledger = SupplyLedger::new();
    ledger.apply(SupplyOperation::Reserve(SupplyReserve::new(id.clone(), custom.clone()))).unwrap();
    ledger.apply(SupplyOperation::Unreserve(SupplyUnreserve::new(id.clone()))).unwrap();
    let error = ledger.apply(SupplyOperation::Unreserve(SupplyUnreserve::new(id.clone()))).unwrap_err();
    assert_eq!(
        error.message(),
        "cannot apply supply operation `Unreserve` to claim `CLM-01CLAIM` in state `Unreserved { request: SupplyRequest { target: Custom(SupplyKey(\"brunch\")), quantity: 1, bucket: SupplyBucket { dimensions: {} } } }`"
    );
}
