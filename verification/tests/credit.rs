use carbon_ledger::address::Address;
use carbon_ledger::credit::CarbonCredit;
use carbon_ledger::error::CarbonError;

fn addr(strkey: &str) -> Address {
    Address::from_strkey(strkey.to_string())
}

fn setup() -> (CarbonCredit, Address) {
    let mut client = CarbonCredit::new();
    let minter = addr("GMINTER");
    client.initialize(minter.clone()).unwrap();
    (client, minter)
}

#[test]
fn cannot_initialize_twice() {
    let (mut client, _minter) = setup();
    let other = addr("GOTHER");
    let result = client.initialize(other);
    assert!(result.is_err());
}

#[test]
fn mint_transfer_retire_flow() {
    let (mut client, minter) = setup();
    let developer = addr("GDEVELOPER");
    let buyer = addr("GBUYER");

    let batch_id = client.mint_credits(&minter, 1u64, developer.clone(), 2024u32, 100u64).unwrap();
    let batch = client.get_credit_batch(batch_id).unwrap();
    assert_eq!(batch.serial_end - batch.serial_start + 1, 100);
    assert!(!batch.retired);
    assert_eq!(client.get_batches_by_owner(&developer).len(), 1);

    client.transfer_credits(&developer, batch_id, buyer.clone()).unwrap();
    let batch = client.get_credit_batch(batch_id).unwrap();
    assert_eq!(batch.owner, buyer);
    assert_eq!(client.get_batches_by_owner(&developer).len(), 0);
    assert_eq!(client.get_batches_by_owner(&buyer).len(), 1);

    client
        .retire_credits(
            buyer.clone(),
            batch_id,
            "Acme Corp".to_string(),
            "2024 ESG offset".to_string(),
            0,
        )
        .unwrap();
    let batch = client.get_credit_batch(batch_id).unwrap();
    assert!(batch.retired);

    let cert = client.get_retirement_certificate(batch_id).unwrap();
    assert_eq!(cert.tonnes, 100);
}

#[test]
fn cannot_retire_twice() {
    let (mut client, minter) = setup();
    let developer = addr("GDEVELOPER");

    let batch_id = client.mint_credits(&minter, 1u64, developer.clone(), 2024u32, 10u64).unwrap();
    client
        .retire_credits(developer.clone(), batch_id, "Beneficiary".to_string(), "Reason".to_string(), 0)
        .unwrap();

    let result = client.retire_credits(
        developer.clone(),
        batch_id,
        "Beneficiary".to_string(),
        "Reason".to_string(),
        0,
    );
    assert!(result.is_err());
}

#[test]
fn cannot_transfer_after_retirement() {
    let (mut client, minter) = setup();
    let developer = addr("GDEVELOPER");
    let buyer = addr("GBUYER");

    let batch_id = client.mint_credits(&minter, 1u64, developer.clone(), 2024u32, 10u64).unwrap();
    client
        .retire_credits(developer.clone(), batch_id, "Beneficiary".to_string(), "Reason".to_string(), 0)
        .unwrap();

    let result = client.transfer_credits(&developer, batch_id, buyer);
    assert!(result.is_err());
}

#[test]
fn cannot_transfer_someone_elses_batch() {
    let (mut client, minter) = setup();
    let developer = addr("GDEVELOPER");
    let stranger = addr("GSTRANGER");
    let buyer = addr("GBUYER");

    let batch_id = client.mint_credits(&minter, 1u64, developer, 2024u32, 10u64).unwrap();
    let result = client.transfer_credits(&stranger, batch_id, buyer);
    assert!(result.is_err());
}

#[test]
fn rejects_zero_tonnes_and_bad_vintage() {
    let (mut client, minter) = setup();
    let developer = addr("GDEVELOPER");

    let result = client.mint_credits(&minter, 1u64, developer.clone(), 2024u32, 0u64);
    assert!(result.is_err());

    let result = client.mint_credits(&minter, 1u64, developer, 1999u32, 10u64);
    assert!(result.is_err());
}

#[test]
fn only_minter_can_mint() {
    let (mut client, _minter) = setup();
    let stranger = addr("GSTRANGER");
    let developer = addr("GDEVELOPER");

    let result = client.mint_credits(&stranger, 1u64, developer, 2024u32, 10u64);
    assert!(result.is_err());
}

#[test]
fn minter_transfer_works() {
    let (mut client, minter) = setup();
    let new_minter = addr("GNEWMINTER");
    let developer = addr("GDEVELOPER");

    client.transfer_minter(&minter, new_minter.clone()).unwrap();

    let result = client.mint_credits(&minter, 1u64, developer.clone(), 2024u32, 10u64);
    assert!(result.is_err());

    let batch_id = client.mint_credits(&new_minter, 1u64, developer.clone(), 2024u32, 10u64).unwrap();
    assert_eq!(client.get_credit_batch(batch_id).unwrap().owner, developer);
}

#[test]
fn serial_ranges_never_overlap() {
    let (mut client, minter) = setup();
    let developer = addr("GDEVELOPER");

    let batch1 = client.mint_credits(&minter, 1u64, developer.clone(), 2024u32, 50u64).unwrap();
    let batch2 = client.mint_credits(&minter, 2u64, developer.clone(), 2024u32, 50u64).unwrap();

    let b1 = client.get_credit_batch(batch1).unwrap();
    let b2 = client.get_credit_batch(batch2).unwrap();
    assert!(b1.serial_end < b2.serial_start);
    assert!(client.verify_serial_range(b1.serial_start, b1.serial_end).unwrap());
}

// ---------------------------------------------------------------------------
// Further cases
// ---------------------------------------------------------------------------

#[test]
fn mint_before_initialize_is_unauthorized() {
    let mut client = CarbonCredit::new();
    let someone = addr("GSOMEONE");
    let result = client.mint_credits(&someone, 1, someone.clone(), 2024, 10);
    assert_eq!(result, Err(CarbonError::UnauthorizedVerifier));
}

#[test]
fn mint_assigns_sequential_ids_and_serials() {
    let (mut client, minter) = setup();
    let dev = addr("GDEVELOPER");
    assert_eq!(client.mint_credits(&minter, 7, dev.clone(), 2020, 10), Ok(1));
    assert_eq!(client.mint_credits(&minter, 7, dev.clone(), 2021, 5), Ok(2));
    let b1 = client.get_credit_batch(1).unwrap();
    let b2 = client.get_credit_batch(2).unwrap();
    assert_eq!((b1.serial_start, b1.serial_end), (1, 10));
    assert_eq!((b2.serial_start, b2.serial_end), (11, 15));
    assert_eq!(b2.project_id, 7);
    assert_eq!(b2.vintage_year, 2021);
    assert_eq!(client.get_batches_by_owner(&dev), vec![1, 2]);
}

#[test]
fn vintage_year_bounds_are_inclusive() {
    let (mut client, minter) = setup();
    let dev = addr("GDEVELOPER");
    assert!(client.mint_credits(&minter, 1, dev.clone(), 2005, 1).is_ok());
    assert!(client.mint_credits(&minter, 1, dev.clone(), 2100, 1).is_ok());
    assert_eq!(client.mint_credits(&minter, 1, dev.clone(), 2004, 1), Err(CarbonError::InvalidVintageYear));
    assert_eq!(client.mint_credits(&minter, 1, dev, 2101, 1), Err(CarbonError::InvalidVintageYear));
}

#[test]
fn zero_tonnes_is_checked_before_vintage() {
    let (mut client, minter) = setup();
    let dev = addr("GDEVELOPER");
    assert_eq!(client.mint_credits(&minter, 1, dev, 1999, 0), Err(CarbonError::ZeroAmountNotAllowed));
}

#[test]
fn retirement_certificate_records_the_retirement() {
    let (mut client, minter) = setup();
    let dev = addr("GDEVELOPER");
    let id = client.mint_credits(&minter, 1, dev.clone(), 2024, 25).unwrap();
    assert_eq!(client.get_retirement_certificate(id).unwrap_err(), CarbonError::AlreadyRetired);
    client.retire_credits(dev.clone(), id, "Acme".to_string(), "offset".to_string(), 4242).unwrap();
    let cert = client.get_retirement_certificate(id).unwrap();
    assert_eq!(cert.batch_id, id);
    assert_eq!(cert.beneficiary, "Acme");
    assert_eq!(cert.reason, "offset");
    assert_eq!(cert.retired_by, dev);
    assert_eq!(cert.retired_ledger, 4242);
    assert_eq!(cert.tonnes, 25);
    // The retired batch stays with its owner in the index.
    assert_eq!(client.get_batches_by_owner(&dev), vec![id]);
}

#[test]
fn retired_batch_errors_are_exact() {
    let (mut client, minter) = setup();
    let dev = addr("GDEVELOPER");
    let other = addr("GOTHER");
    let id = client.mint_credits(&minter, 1, dev.clone(), 2024, 5).unwrap();
    client.retire_credits(dev.clone(), id, "b".to_string(), "r".to_string(), 1).unwrap();
    assert_eq!(client.transfer_credits(&dev, id, other.clone()), Err(CarbonError::AlreadyRetired));
    assert_eq!(client.transfer_credits(&other, id, dev.clone()), Err(CarbonError::NotOwner));
    assert_eq!(
        client.retire_credits(dev.clone(), id, "b".to_string(), "r".to_string(), 2),
        Err(CarbonError::AlreadyRetired)
    );
    assert_eq!(client.get_retirement_certificate(id).unwrap().retired_ledger, 1);
}

#[test]
fn missing_batch_is_not_found() {
    let (mut client, minter) = setup();
    let dev = addr("GDEVELOPER");
    assert_eq!(client.get_credit_batch(1).unwrap_err(), CarbonError::ProjectNotFound);
    assert_eq!(client.get_credit_batch(0).unwrap_err(), CarbonError::ProjectNotFound);
    assert_eq!(client.transfer_credits(&dev, 3, dev.clone()), Err(CarbonError::ProjectNotFound));
    client.mint_credits(&minter, 1, dev.clone(), 2024, 5).unwrap();
    assert!(client.get_credit_batch(1).is_ok());
    assert_eq!(client.get_credit_batch(2).unwrap_err(), CarbonError::ProjectNotFound);
}

#[test]
fn transfer_to_self_keeps_one_index_entry() {
    let (mut client, minter) = setup();
    let dev = addr("GDEVELOPER");
    let a = client.mint_credits(&minter, 1, dev.clone(), 2024, 5).unwrap();
    let b = client.mint_credits(&minter, 1, dev.clone(), 2024, 5).unwrap();
    client.transfer_credits(&dev, a, dev.clone()).unwrap();
    assert_eq!(client.get_batches_by_owner(&dev), vec![b, a]);
}

#[test]
fn verify_serial_range_cases() {
    let (mut client, minter) = setup();
    let dev = addr("GDEVELOPER");
    assert_eq!(client.verify_serial_range(5, 4), Err(CarbonError::InvalidSerialRange));
    assert_eq!(client.verify_serial_range(1, 1), Ok(false));
    client.mint_credits(&minter, 1, dev, 2024, 10).unwrap();
    assert_eq!(client.verify_serial_range(1, 10), Ok(true));
    assert_eq!(client.verify_serial_range(3, 3), Ok(true));
    assert_eq!(client.verify_serial_range(10, 11), Ok(false));
}

#[test]
fn transfer_minter_needs_the_minter() {
    let (mut client, _minter) = setup();
    let stranger = addr("GSTRANGER");
    assert_eq!(
        client.transfer_minter(&stranger, stranger.clone()),
        Err(CarbonError::UnauthorizedVerifier)
    );
}

#[test]
fn error_codes_match_the_published_table() {
    assert_eq!(CarbonError::ProjectNotFound.code(), 1);
    assert_eq!(CarbonError::UnauthorizedVerifier.code(), 7);
    assert_eq!(CarbonError::UnauthorizedOracle.code(), 8);
    assert_eq!(CarbonError::ZeroAmountNotAllowed.code(), 13);
    assert_eq!(CarbonError::ProjectAlreadyExists.code(), 14);
    assert_eq!(CarbonError::AlreadyListed.code(), 17);
}
