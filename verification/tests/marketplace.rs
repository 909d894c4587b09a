use carbon_ledger::address::Address;
use carbon_ledger::error::CarbonError;
use carbon_ledger::marketplace::{CarbonMarketplace, FEE_BPS};
use carbon_ledger::mock::{MockCredit, MockToken};

fn addr(strkey: &str) -> Address {
    Address::from_strkey(strkey.to_string())
}

fn setup() -> (CarbonMarketplace, Address, Address) {
    let mut client = CarbonMarketplace::new();
    let admin = addr("GADMIN");
    let fee_recipient = addr("GFEE");
    client
        .initialize(admin.clone(), addr("CCREDIT"), addr("CUSDC"), fee_recipient.clone())
        .unwrap();
    (client, admin, fee_recipient)
}

#[test]
fn list_and_delist() {
    let (mut client, _admin, _fee) = setup();

    let seller = addr("GSELLER");
    let listing_id = client.list_credits(seller.clone(), 1u64, 5_000_000i128, 10u64).unwrap();

    let listing = client.get_listing(listing_id).unwrap();
    assert!(listing.active);
    assert_eq!(listing.tonnes, 10);
    assert_eq!(client.get_listings_by_seller(&seller).len(), 1);

    client.delist_credits(&seller, listing_id).unwrap();
    let listing = client.get_listing(listing_id).unwrap();
    assert!(!listing.active);

    let active = client.get_active_listings();
    assert_eq!(active.len(), 0);
}

#[test]
fn marketplace_cannot_initialize_twice() {
    let mut client = CarbonMarketplace::new();
    let admin = addr("GADMIN");
    client.initialize(admin.clone(), addr("CA"), addr("CB"), addr("GC")).unwrap();

    let result = client.initialize(admin, addr("CD"), addr("CE"), addr("GF"));
    assert!(result.is_err());
}

#[test]
fn only_seller_can_delist() {
    let (mut client, _admin, _fee) = setup();

    let seller = addr("GSELLER");
    let stranger = addr("GSTRANGER");
    let listing_id = client.list_credits(seller, 1u64, 1_000_000i128, 5u64).unwrap();

    let result = client.delist_credits(&stranger, listing_id);
    assert!(result.is_err());
}

#[test]
fn only_admin_can_update_fee_recipient() {
    let (mut client, admin, _fee) = setup();

    let stranger = addr("GSTRANGER");
    let new_recipient = addr("GNEWFEE");
    let result = client.set_fee_recipient(&stranger, new_recipient.clone());
    assert!(result.is_err());

    client.set_fee_recipient(&admin, new_recipient).unwrap();
}

#[test]
fn rejects_zero_price_or_tonnes() {
    let (mut client, _admin, _fee) = setup();

    let seller = addr("GSELLER");
    let result = client.list_credits(seller.clone(), 1u64, 0i128, 10u64);
    assert!(result.is_err());

    let result = client.list_credits(seller, 1u64, 1_000_000i128, 0u64);
    assert!(result.is_err());
}

// ---------------------------------------------------------------------------
// Further cases
// ---------------------------------------------------------------------------

#[test]
fn purchase_settles_with_one_percent_fee() {
    let (mut client, _admin, fee_recipient) = setup();
    let seller = addr("GSELLER");
    let buyer = addr("GBUYER");
    let id = client.list_credits(seller.clone(), 42, 3_000_000, 7).unwrap();

    let s = client.purchase_credits(buyer.clone(), id).unwrap();
    assert_eq!(s.total_price, 21_000_000);
    assert_eq!(s.fee, 210_000);
    assert_eq!(s.seller_proceeds, 20_790_000);
    assert_eq!(s.fee, s.total_price * FEE_BPS / 10_000);
    assert_eq!(s.fee + s.seller_proceeds, s.total_price);
    assert_eq!(s.seller, seller);
    assert_eq!(s.buyer, buyer);
    assert_eq!(s.fee_recipient, fee_recipient);
    assert_eq!(s.usdc_token, addr("CUSDC"));
    assert_eq!(s.credit_contract, addr("CCREDIT"));
    assert_eq!(s.batch_id, 42);

    // Carry the settlement out against stand-in contracts.
    MockToken.transfer(&s.buyer, &s.seller, s.seller_proceeds);
    MockToken.transfer(&s.buyer, &s.fee_recipient, s.fee);
    MockCredit.transfer_credits(&s.seller, s.batch_id, &s.buyer);

    assert!(!client.get_listing(id).unwrap().active);
    // A sold listing cannot be bought again.
    assert_eq!(client.purchase_credits(buyer, id).unwrap_err(), CarbonError::ListingNotFound);
}

#[test]
fn fee_rounds_down() {
    let (mut client, _admin, _fee) = setup();
    let id = client.list_credits(addr("GSELLER"), 1, 199, 1).unwrap();
    let s = client.purchase_credits(addr("GBUYER"), id).unwrap();
    assert_eq!((s.total_price, s.fee, s.seller_proceeds), (199, 1, 198));
}

#[test]
fn new_recipient_receives_fees() {
    let (mut client, admin, _fee) = setup();
    let new_recipient = addr("GNEWFEE");
    client.set_fee_recipient(&admin, new_recipient.clone()).unwrap();
    let id = client.list_credits(addr("GSELLER"), 1, 1_000, 10).unwrap();
    let s = client.purchase_credits(addr("GBUYER"), id).unwrap();
    assert_eq!(s.fee_recipient, new_recipient);
}

#[test]
fn purchase_errors() {
    let mut uninit = CarbonMarketplace::new();
    let seller = addr("GSELLER");
    // Listing works before initialization, but nothing can be paid.
    let id = uninit.list_credits(seller.clone(), 1, 1_000, 1).unwrap();
    assert_eq!(uninit.purchase_credits(addr("GBUYER"), id).unwrap_err(), CarbonError::PriceNotSet);
    assert!(uninit.get_listing(id).unwrap().active);

    let (mut client, _admin, _fee) = setup();
    assert_eq!(client.purchase_credits(addr("GBUYER"), 5).unwrap_err(), CarbonError::ListingNotFound);
    let id = client.list_credits(seller.clone(), 1, 1_000, 1).unwrap();
    client.delist_credits(&seller, id).unwrap();
    assert_eq!(client.purchase_credits(addr("GBUYER"), id).unwrap_err(), CarbonError::ListingNotFound);
}

#[test]
fn delist_errors_are_exact() {
    let (mut client, _admin, _fee) = setup();
    let seller = addr("GSELLER");
    assert_eq!(client.delist_credits(&seller, 1), Err(CarbonError::ListingNotFound));
    let id = client.list_credits(seller.clone(), 1, 10, 1).unwrap();
    assert_eq!(client.delist_credits(&addr("GSTRANGER"), id), Err(CarbonError::NotOwner));
    assert_eq!(client.get_listing(2).unwrap_err(), CarbonError::ListingNotFound);
}

#[test]
fn active_listings_in_listing_order() {
    let (mut client, _admin, _fee) = setup();
    let a = addr("GSELLERA");
    let b = addr("GSELLERB");
    let id1 = client.list_credits(a.clone(), 10, 100, 1).unwrap();
    let id2 = client.list_credits(b.clone(), 20, 200, 2).unwrap();
    let id3 = client.list_credits(a.clone(), 30, 300, 3).unwrap();
    assert_eq!((id1, id2, id3), (1, 2, 3));
    client.delist_credits(&b, id2).unwrap();
    let active: Vec<u64> = client.get_active_listings().iter().map(|l| l.listing_id).collect();
    assert_eq!(active, vec![1, 3]);
    assert_eq!(client.get_listings_by_seller(&a), vec![1, 3]);
    assert_eq!(client.get_listings_by_seller(&b), vec![2]);
}

#[test]
fn set_fee_recipient_before_initialize_is_unauthorized() {
    let mut client = CarbonMarketplace::new();
    let someone = addr("GSOMEONE");
    assert_eq!(client.set_fee_recipient(&someone, someone.clone()), Err(CarbonError::UnauthorizedVerifier));
    assert_eq!(client.list_credits(someone, 1, -1, 1), Err(CarbonError::ZeroAmountNotAllowed));
}

#[test]
fn initialize_restarts_listing_ids() {
    let mut client = CarbonMarketplace::new();
    let seller = addr("GSELLER");
    let early = client.list_credits(seller.clone(), 1, 100, 1).unwrap();
    client.initialize(addr("GADMIN"), addr("CCREDIT"), addr("CUSDC"), addr("GFEE")).unwrap();
    assert_eq!(client.next_listing_id(), 1);
    // The early listing is still stored and active but no longer browsable.
    assert!(client.get_listing(early).unwrap().active);
    assert!(client.get_active_listings().is_empty());
    // Its id is handed out again, and the new listing replaces it.
    let later = client.list_credits(seller.clone(), 2, 200, 2).unwrap();
    assert_eq!((early, later), (1, 1));
    assert_eq!(client.get_listing(1).unwrap().batch_id, 2);
    let active: Vec<u64> = client.get_active_listings().iter().map(|l| l.listing_id).collect();
    assert_eq!(active, vec![1]);
    assert_eq!(client.get_listings_by_seller(&seller), vec![1, 1]);
}

#[test]
fn sold_listing_stays_closed() {
    let (mut client, _admin, _fee) = setup();
    let seller = addr("GSELLER");
    let id = client.list_credits(seller.clone(), 1, 1_000, 1).unwrap();
    client.purchase_credits(addr("GBUYER"), id).unwrap();
    client.list_credits(seller.clone(), 2, 1_000, 1).unwrap();
    client.delist_credits(&seller, id).unwrap();
    assert!(!client.get_listing(id).unwrap().active);
    assert_eq!(client.purchase_credits(addr("GOTHER"), id).unwrap_err(), CarbonError::ListingNotFound);
    assert!(client.get_active_listings().iter().all(|l| l.listing_id != id));
    assert_eq!(client.get_listings_by_seller(&seller), vec![1, 2]);
}
