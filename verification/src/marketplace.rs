use vstd::prelude::*;
use std::collections::HashMap;
use crate::address::Address;
use crate::error::CarbonError;
use crate::id_index::IdIndex;

verus! {

broadcast use vstd::std_specs::hash::group_hash_axioms;

/// Protocol fee in basis points of the total price (1%).
pub const FEE_BPS: i128 = 100;

/// Basis points in a whole.
pub const BPS_DENOMINATOR: i128 = 10_000;

/// A credit batch offered for sale as a whole, at a price per tonne in USDC
/// stroops (7 decimals).
#[derive(Debug)]
pub struct Listing {
    pub listing_id: u64,
    pub batch_id: u64,
    pub seller: Address,
    pub price_per_tonne: i128,
    pub tonnes: u64,
    pub active: bool,
}

impl Clone for Listing {
    fn clone(&self) -> (l: Self)
        ensures
            l == *self,
    {
        Listing { seller: self.seller.clone(), ..*self }
    }
}

/// The parties the marketplace deals with, fixed at initialization (the fee
/// recipient can later be changed by the admin).
#[derive(Debug)]
pub struct MarketConfig {
    pub admin: Address,
    pub credit_contract: Address,
    pub usdc_token: Address,
    pub fee_recipient: Address,
}

/// What a purchase leaves for the host to carry out: two USDC payments
/// from the buyer (the seller's proceeds and the protocol fee) and the
/// transfer of the batch from seller to buyer on the credit contract.
#[derive(Debug)]
pub struct PurchaseSettlement {
    pub usdc_token: Address,
    pub credit_contract: Address,
    pub buyer: Address,
    pub seller: Address,
    pub fee_recipient: Address,
    pub batch_id: u64,
    pub total_price: i128,
    pub seller_proceeds: i128,
    pub fee: i128,
}

/// Total price of a listing.
pub open spec fn total_price_of(l: Listing) -> int {
    l.price_per_tonne * l.tonnes
}

/// The protocol fee on a total price, rounded down.
pub open spec fn fee_of(total: int) -> int {
    total * FEE_BPS / (BPS_DENOMINATOR as int)
}

/// The listings among `ids` that are stored and active, in the order of `ids`.
pub open spec fn active_listings(ids: Seq<u64>, listings: Map<u64, Listing>) -> Seq<Listing>
    decreases ids.len(),
{
    if ids.len() == 0 {
        Seq::empty()
    } else {
        let rest = active_listings(ids.drop_last(), listings);
        let id = ids.last();
        if listings.contains_key(id) && listings[id].active {
            rest.push(listings[id])
        } else {
            rest
        }
    }
}

/// The model of the marketplace's ledger state.
pub struct MarketplaceModel {
    pub config: Option<MarketConfig>,
    pub next_id: u64,
    pub all_ids: Seq<u64>,
    pub listings: Map<u64, Listing>,
    pub seller_listings: Map<Seq<char>, Seq<u64>>,
}

impl MarketplaceModel {
    pub open spec fn admin_check(self, caller: Seq<char>) -> Option<CarbonError> {
        match self.config {
            Some(c) => if c.admin@ == caller {
                None
            } else {
                Some(CarbonError::UnauthorizedVerifier)
            },
            None => Some(CarbonError::UnauthorizedVerifier),
        }
    }

    pub open spec fn listed(
        self,
        seller: Address,
        batch_id: u64,
        price_per_tonne: i128,
        tonnes: u64,
    ) -> MarketplaceModel {
        let id = self.next_id;
        MarketplaceModel {
            next_id: (id + 1) as u64,
            all_ids: self.all_ids.push(id),
            listings: self.listings.insert(
                id,
                Listing { listing_id: id, batch_id, seller, price_per_tonne, tonnes, active: true },
            ),
            seller_listings: self.seller_listings.insert(
                seller@,
                self.seller_listings[seller@].push(id),
            ),
            ..self
        }
    }

    /// The state with listing `id` switched off.
    pub open spec fn deactivated(self, id: u64) -> MarketplaceModel {
        MarketplaceModel {
            listings: self.listings.insert(id, Listing { active: false, ..self.listings[id] }),
            ..self
        }
    }

    /// Why `caller` may not withdraw listing `id`, if they may not.
    pub open spec fn delist_check(self, caller: Seq<char>, id: u64) -> Option<CarbonError> {
        if !self.listings.contains_key(id) {
            Some(CarbonError::ListingNotFound)
        } else if self.listings[id].seller@ != caller {
            Some(CarbonError::NotOwner)
        } else {
            None
        }
    }

    /// Why listing `id` cannot be bought, if it cannot.
    pub open spec fn purchase_check(self, id: u64) -> Option<CarbonError> {
        if !self.listings.contains_key(id) || !self.listings[id].active {
            Some(CarbonError::ListingNotFound)
        } else if self.config is None {
            Some(CarbonError::PriceNotSet)
        } else {
            None
        }
    }

    /// The price arithmetic of buying listing `id` stays within `i128`.
    pub open spec fn purchase_fits(self, id: u64) -> bool {
        self.listings.contains_key(id) && self.listings[id].active ==> total_price_of(
            self.listings[id],
        ) * FEE_BPS <= i128::MAX
    }

    /// What every reachable state satisfies: each listing is filed under its
    /// own id, with a positive price and tonnage, and in its seller's list.
    pub open spec fn consistent(self) -> bool {
        &&& 1 <= self.next_id
        &&& forall|id: u64| #[trigger]
            self.listings.contains_key(id) ==> {
                &&& self.listings[id].listing_id == id
                &&& self.listings[id].price_per_tonne > 0
                &&& self.listings[id].tonnes > 0
                &&& self.seller_listings[self.listings[id].seller@].contains(id)
            }
    }

    /// Ids have not been handed out twice: the stored listings are exactly
    /// those with ids from 1 below the next id, the browse list is those ids
    /// in order, and each seller's list holds, in increasing order, only ids
    /// of that seller's listings. It holds from a fresh marketplace on,
    /// through every call, except `initialize` once listings were made before
    /// it (`initialize` restarts ids at 1 and empties the browse list).
    pub open spec fn ids_fresh(self) -> bool {
        &&& self.all_ids.len() + 1 == self.next_id
        &&& forall|i: int| 0 <= i < self.all_ids.len() ==> #[trigger] self.all_ids[i] == i + 1
        &&& forall|id: u64| #[trigger] self.listings.contains_key(id) <==> 1 <= id < self.next_id
        &&& forall|d: Seq<char>, k: int|
            0 <= k < self.seller_listings[d].len() ==> self.listings.contains_key(
                #[trigger] self.seller_listings[d][k],
            ) && self.listings[self.seller_listings[d][k]].seller@ == d
        &&& forall|d: Seq<char>, i: int, j: int|
            0 <= i < j < self.seller_listings[d].len() ==> #[trigger] self.seller_listings[d][i]
                < #[trigger] self.seller_listings[d][j]
    }

    /// Every closed listing is still there, unchanged, in `next`.
    pub open spec fn closed_kept(self, next: MarketplaceModel) -> bool {
        forall|id: u64| #[trigger]
            self.listings.contains_key(id) && !self.listings[id].active ==> next.listings.contains_key(
                id,
            ) && next.listings[id] == self.listings[id]
    }
}

/// The marketplace: sellers list whole credit batches, buyers purchase them,
/// and a 1% protocol fee goes to the fee recipient.
pub struct CarbonMarketplace {
    config: Option<MarketConfig>,
    next_id: u64,
    all_ids: Vec<u64>,
    listings: HashMap<u64, Listing>,
    seller_listings: IdIndex,
}

impl View for CarbonMarketplace {
    type V = MarketplaceModel;

    closed spec fn view(&self) -> MarketplaceModel {
        MarketplaceModel {
            config: self.config,
            next_id: self.next_id,
            all_ids: self.all_ids@,
            listings: self.listings@,
            seller_listings: self.seller_listings.view(),
        }
    }
}

impl CarbonMarketplace {
    pub closed spec fn wf(&self) -> bool {
        self.seller_listings.wf() && self@.consistent()
    }

    /// Every state the marketplace can reach is consistent.
    pub proof fn lemma_consistent(&self)
        requires
            self.wf(),
        ensures
            self@.consistent(),
    {
    }

    /// A marketplace that has not been initialized.
    pub fn new() -> (m: CarbonMarketplace)
        ensures
            m.wf(),
            m@.ids_fresh(),
            m@.config is None,
            m@.next_id == 1,
            m@.all_ids.len() == 0,
            m@.listings == Map::<u64, Listing>::empty(),
            m@.seller_listings == Map::new(|o: Seq<char>| true, |o: Seq<char>| Seq::<u64>::empty()),
    {
        CarbonMarketplace {
            config: None,
            next_id: 1,
            all_ids: Vec::new(),
            listings: HashMap::new(),
            seller_listings: IdIndex::new(),
        }
    }

    /// One-time setup. Refused once an admin is set. Restarts listing ids at
    /// 1 and empties the list buyers browse: listings made before setup drop
    /// out of that list, and their ids are handed out again.
    pub fn initialize(
        &mut self,
        admin: Address,
        credit_contract: Address,
        usdc_token: Address,
        fee_recipient: Address,
    ) -> (r: Result<(), CarbonError>)
        requires
            old(self).wf(),
        ensures
            final(self).wf(),
            old(self)@.closed_kept(final(self)@),
            match old(self)@.config {
                Some(_) => r == Err::<(), CarbonError>(CarbonError::ProjectAlreadyExists)
                    && final(self)@ == old(self)@,
                None => r is Ok && final(self)@ == (MarketplaceModel {
                    config: Some(MarketConfig { admin, credit_contract, usdc_token, fee_recipient }),
                    next_id: 1,
                    all_ids: Seq::empty(),
                    ..old(self)@
                }),
            },
            old(self)@.ids_fresh() && old(self)@.listings.dom().is_empty() ==> final(self)@.ids_fresh(),
    {
        if self.config.is_some() {
            return Err(CarbonError::ProjectAlreadyExists);
        }
        self.config = Some(MarketConfig { admin, credit_contract, usdc_token, fee_recipient });
        self.next_id = 1;
        self.all_ids = Vec::new();
        proof {
            if old(self)@.ids_fresh() && old(self)@.listings.dom().is_empty() {
                assert(old(self)@.next_id == 1) by {
                    if old(self)@.next_id > 1 {
                        assert(old(self)@.listings.contains_key(1));
                    }
                }
            }
        }
        Ok(())
    }

    /// Changes who receives the protocol fee; only the admin may.
    pub fn set_fee_recipient(&mut self, admin: &Address, new_recipient: Address) -> (r: Result<
        (),
        CarbonError,
    >)
        requires
            old(self).wf(),
        ensures
            final(self).wf(),
            old(self)@.ids_fresh() ==> final(self)@.ids_fresh(),
            old(self)@.closed_kept(final(self)@),
            match old(self)@.admin_check(admin@) {
                Some(e) => r == Err::<(), CarbonError>(e) && final(self)@ == old(self)@,
                None => r is Ok && final(self)@ == (MarketplaceModel {
                    config: Some(
                        MarketConfig { fee_recipient: new_recipient, ..old(self)@.config.unwrap() },
                    ),
                    ..old(self)@
                }),
            },
    {
        match self.config.take() {
            Some(c) => {
                if !c.admin.same(admin) {
                    self.config = Some(c);
                    return Err(CarbonError::UnauthorizedVerifier);
                }
                self.config = Some(MarketConfig { fee_recipient: new_recipient, ..c });
                Ok(())
            },
            None => Err(CarbonError::UnauthorizedVerifier),
        }
    }

    /// Lists batch `batch_id` for sale at `price_per_tonne` for `tonnes`
    /// tonnes. Price and tonnage must be positive. Returns the listing id.
    pub fn list_credits(&mut self, seller: Address, batch_id: u64, price_per_tonne: i128, tonnes: u64) -> (r:
        Result<u64, CarbonError>)
        requires
            old(self).wf(),
            price_per_tonne > 0 && tonnes > 0 ==> old(self)@.next_id < u64::MAX,
        ensures
            final(self).wf(),
            price_per_tonne > 0 && tonnes > 0 ==> r == Ok::<u64, CarbonError>(old(self)@.next_id)
                && final(self)@.listings.contains_key(old(self)@.next_id)
                && final(self)@.listings[old(self)@.next_id].active
                && final(self)@.listings[old(self)@.next_id].price_per_tonne == price_per_tonne
                && final(self)@.listings[old(self)@.next_id].tonnes == tonnes
                && final(self)@.listings[old(self)@.next_id].batch_id == batch_id
                && final(self)@.listings[old(self)@.next_id].seller == seller,
            !old(self)@.listings.contains_key(old(self)@.next_id) ==> old(self)@.closed_kept(
                final(self)@,
            ),
            old(self)@.ids_fresh() ==> !old(self)@.listings.contains_key(old(self)@.next_id)
                && final(self)@.ids_fresh(),
            if price_per_tonne <= 0 || tonnes == 0 {
                r == Err::<u64, CarbonError>(CarbonError::ZeroAmountNotAllowed) && final(self)@ == old(
                    self,
                )@
            } else {
                r == Ok::<u64, CarbonError>(old(self)@.next_id) && final(self)@ == old(self)@.listed(
                    seller,
                    batch_id,
                    price_per_tonne,
                    tonnes,
                )
            },
    {
        if price_per_tonne <= 0 || tonnes == 0 {
            return Err(CarbonError::ZeroAmountNotAllowed);
        }
        let ghost before = self@;
        proof {
            lemma_list_keeps_consistent(before, seller, batch_id, price_per_tonne, tonnes);
        }
        let listing_id = self.next_id;
        let listing = Listing {
            listing_id,
            batch_id,
            seller: seller.clone(),
            price_per_tonne,
            tonnes,
            active: true,
        };
        self.listings.insert(listing_id, listing);
        self.next_id = listing_id + 1;
        self.all_ids.push(listing_id);
        self.seller_listings.add(&seller, listing_id);
        assert(self@ == before.listed(seller, batch_id, price_per_tonne, tonnes));
        Ok(listing_id)
    }

    /// Withdraws a listing; only its seller may.
    pub fn delist_credits(&mut self, seller: &Address, listing_id: u64) -> (r: Result<
        (),
        CarbonError,
    >)
        requires
            old(self).wf(),
        ensures
            final(self).wf(),
            old(self)@.listings.contains_key(listing_id) && old(self)@.listings[listing_id].seller@
                == seller@ ==> r is Ok && !final(self)@.listings[listing_id].active
                && final(self)@.listings[listing_id].tonnes == old(self)@.listings[listing_id].tonnes,
            old(self)@.ids_fresh() ==> final(self)@.ids_fresh(),
            old(self)@.closed_kept(final(self)@),
            match old(self)@.delist_check(seller@, listing_id) {
                Some(e) => r == Err::<(), CarbonError>(e) && final(self)@ == old(self)@,
                None => r is Ok && final(self)@ == old(self)@.deactivated(listing_id),
            },
    {
        let mut listing = self.get_listing(listing_id)?;
        if !listing.seller.same(seller) {
            return Err(CarbonError::NotOwner);
        }
        listing.active = false;
        proof {
            lemma_deactivate_keeps_consistent(self@, listing_id);
        }
        self.listings.insert(listing_id, listing);
        Ok(())
    }

    /// Buys a whole active listing. The listing is closed, and the returned
    /// settlement says what must move: the buyer pays the seller the total
    /// price less a 1% fee and pays the fee to the fee recipient, and the
    /// batch passes from seller to buyer on the credit contract.
    pub fn purchase_credits(&mut self, buyer: Address, listing_id: u64) -> (r: Result<
        PurchaseSettlement,
        CarbonError,
    >)
        requires
            old(self).wf(),
            old(self)@.purchase_fits(listing_id),
        ensures
            final(self).wf(),
            r matches Ok(st) ==> {
                let l = old(self)@.listings[listing_id];
                &&& st.total_price == l.price_per_tonne * l.tonnes
                &&& st.fee + st.seller_proceeds == st.total_price
                &&& st.fee * 100 <= st.total_price < st.fee * 100 + 100
                &&& st.batch_id == l.batch_id
                &&& st.seller == l.seller
                &&& st.buyer == buyer
            },
            old(self)@.ids_fresh() ==> final(self)@.ids_fresh(),
            old(self)@.closed_kept(final(self)@),
            match old(self)@.purchase_check(listing_id) {
                Some(e) => r is Err && r->Err_0 == e && final(self)@ == old(self)@,
                None => {
                    let l = old(self)@.listings[listing_id];
                    let c = old(self)@.config.unwrap();
                    &&& final(self)@ == old(self)@.deactivated(listing_id)
                    &&& r matches Ok(s) && s == (PurchaseSettlement {
                        usdc_token: c.usdc_token,
                        credit_contract: c.credit_contract,
                        buyer,
                        seller: l.seller,
                        fee_recipient: c.fee_recipient,
                        batch_id: l.batch_id,
                        total_price: total_price_of(l) as i128,
                        seller_proceeds: (total_price_of(l) - fee_of(total_price_of(l))) as i128,
                        fee: fee_of(total_price_of(l)) as i128,
                    })
                },
            },
    {
        let mut listing = self.get_listing(listing_id)?;
        if !listing.active {
            return Err(CarbonError::ListingNotFound);
        }
        let total_price = listing.price_per_tonne * (listing.tonnes as i128);
        assert(total_price * FEE_BPS <= i128::MAX);
        let fee = (total_price * FEE_BPS) / BPS_DENOMINATOR;
        let seller_proceeds = total_price - fee;
        let settlement = match &self.config {
            Some(c) => PurchaseSettlement {
                usdc_token: c.usdc_token.clone(),
                credit_contract: c.credit_contract.clone(),
                buyer,
                seller: listing.seller.clone(),
                fee_recipient: c.fee_recipient.clone(),
                batch_id: listing.batch_id,
                total_price,
                seller_proceeds,
                fee,
            },
            None => return Err(CarbonError::PriceNotSet),
        };
        listing.active = false;
        proof {
            lemma_deactivate_keeps_consistent(self@, listing_id);
        }
        self.listings.insert(listing_id, listing);
        Ok(settlement)
    }

    pub fn get_listing(&self, listing_id: u64) -> (r: Result<Listing, CarbonError>)
        ensures
            r == (if self@.listings.contains_key(listing_id) {
                Ok::<Listing, CarbonError>(self@.listings[listing_id])
            } else {
                Err(CarbonError::ListingNotFound)
            }),
    {
        match self.listings.get(&listing_id) {
            Some(l) => Ok(l.clone()),
            None => Err(CarbonError::ListingNotFound),
        }
    }

    /// The active listings, in the order they were listed.
    pub fn get_active_listings(&self) -> (r: Vec<Listing>)
        ensures
            r@ == active_listings(self@.all_ids, self@.listings),
    {
        let mut active: Vec<Listing> = Vec::new();
        let mut i: usize = 0;
        while i < self.all_ids.len()
            invariant
                i <= self.all_ids@.len(),
                active@ == active_listings(self.all_ids@.take(i as int), self.listings@),
            decreases self.all_ids@.len() - i,
        {
            let id = self.all_ids[i];
            assert(self.all_ids@.take(i + 1).drop_last() =~= self.all_ids@.take(i as int));
            match self.listings.get(&id) {
                Some(l) => {
                    if l.active {
                        active.push(l.clone());
                    }
                },
                None => {},
            }
            i += 1;
        }
        assert(self.all_ids@.take(self.all_ids@.len() as int) =~= self.all_ids@);
        active
    }

    /// The id the next listing will receive.
    pub fn next_listing_id(&self) -> (n: u64)
        ensures
            n == self@.next_id,
    {
        self.next_id
    }

    /// The ids of every listing `seller` created, active or not, in order.
    pub fn get_listings_by_seller(&self, seller: &Address) -> (r: Vec<u64>)
        requires
            self.wf(),
        ensures
            r@ == self@.seller_listings[seller@],
    {
        self.seller_listings.ids(seller)
    }
}

/// The fee and the seller's proceeds add up to the total price, and the fee
/// is 1% of it, rounded down.
pub proof fn lemma_fee_split(total: int)
    requires
        total >= 0,
    ensures
        fee_of(total) + (total - fee_of(total)) == total,
        0 <= fee_of(total) <= total,
        fee_of(total) * 100 <= total < (fee_of(total) + 1) * 100,
{
}

/// A closed listing (delisted or sold) cannot be bought.
pub proof fn lemma_closed_listing_not_purchasable(s: MarketplaceModel, id: u64)
    requires
        s.listings.contains_key(id),
    ensures
        s.deactivated(id).purchase_check(id) == Some(CarbonError::ListingNotFound),
{
}


/// Listing keeps the marketplace consistent and closed listings unchanged;
/// the new id was unused.
pub proof fn lemma_list_keeps_consistent(
    s: MarketplaceModel,
    seller: Address,
    batch_id: u64,
    price_per_tonne: i128,
    tonnes: u64,
)
    requires
        s.consistent(),
        price_per_tonne > 0,
        tonnes > 0,
        s.next_id < u64::MAX,
    ensures
        s.listed(seller, batch_id, price_per_tonne, tonnes).consistent(),
        !s.listings.contains_key(s.next_id) ==> s.closed_kept(
            s.listed(seller, batch_id, price_per_tonne, tonnes),
        ),
        s.ids_fresh() ==> !s.listings.contains_key(s.next_id) && s.listed(
            seller,
            batch_id,
            price_per_tonne,
            tonnes,
        ).ids_fresh(),
{
    let t = s.listed(seller, batch_id, price_per_tonne, tonnes);
    let n = s.next_id;
    let sv = seller@;
    assert forall|id: u64| #[trigger] t.listings.contains_key(id) implies {
        &&& t.listings[id].listing_id == id
        &&& t.listings[id].price_per_tonne > 0
        &&& t.listings[id].tonnes > 0
        &&& t.seller_listings[t.listings[id].seller@].contains(id)
    } by {
        if id == n {
            let l = s.seller_listings[sv];
            assert(t.seller_listings[sv][l.len() as int] == n);
        } else {
            let d = s.listings[id].seller@;
            assert(s.seller_listings[d].contains(id));
            let k = choose|k: int| 0 <= k < s.seller_listings[d].len() && s.seller_listings[d][k] == id;
            assert(t.seller_listings[d][k] == id);
        }
    }
    if s.ids_fresh() {
        assert(!s.listings.contains_key(n));
        assert forall|i: int| 0 <= i < t.all_ids.len() implies #[trigger] t.all_ids[i] == i + 1 by {
            if i < s.all_ids.len() {
                assert(t.all_ids[i] == s.all_ids[i]);
            }
        }
        assert forall|id: u64| #[trigger] t.listings.contains_key(id) <==> 1 <= id < t.next_id by {
            if id != n {
                assert(s.listings.contains_key(id) <==> 1 <= id < s.next_id);
            }
        }
        assert forall|d: Seq<char>, k: int| 0 <= k < t.seller_listings[d].len() implies t.listings.contains_key(
            #[trigger] t.seller_listings[d][k],
        ) && t.listings[t.seller_listings[d][k]].seller@ == d by {
            if d == sv && k == s.seller_listings[d].len() {
            } else {
                assert(t.seller_listings[d][k] == s.seller_listings[d][k]);
                assert(s.listings.contains_key(s.seller_listings[d][k]));
            }
        }
        assert forall|d: Seq<char>, i: int, j: int| 0 <= i < j < t.seller_listings[d].len() implies #[trigger] t.seller_listings[d][i]
            < #[trigger] t.seller_listings[d][j] by {
            assert(t.seller_listings[d][i] == s.seller_listings[d][i]);
            assert(s.listings.contains_key(s.seller_listings[d][i]));
            if d == sv && j == s.seller_listings[d].len() {
            } else {
                assert(t.seller_listings[d][j] == s.seller_listings[d][j]);
            }
        }
    }
}

/// Closing a stored listing keeps the marketplace consistent and closed
/// listings unchanged.
pub proof fn lemma_deactivate_keeps_consistent(s: MarketplaceModel, id: u64)
    requires
        s.consistent(),
        s.listings.contains_key(id),
    ensures
        s.deactivated(id).consistent(),
        s.closed_kept(s.deactivated(id)),
        s.ids_fresh() ==> s.deactivated(id).ids_fresh(),
{
    let t = s.deactivated(id);
    if s.ids_fresh() {
        assert forall|x: u64| #[trigger] t.listings.contains_key(x) <==> 1 <= x < t.next_id by {
            assert(s.listings.contains_key(x) <==> 1 <= x < s.next_id);
        }
        assert forall|d: Seq<char>, k: int| 0 <= k < t.seller_listings[d].len() implies t.listings.contains_key(
            #[trigger] t.seller_listings[d][k],
        ) && t.listings[t.seller_listings[d][k]].seller@ == d by {
            assert(s.listings.contains_key(s.seller_listings[d][k]));
        }
    }
}

/// Once closed (delisted or sold), a listing stays closed through any later
/// state that keeps closed listings, and cannot be bought there.
pub proof fn lemma_closed_listing_stays_unsold(s: MarketplaceModel, later: MarketplaceModel, id: u64)
    requires
        s.listings.contains_key(id),
        !s.listings[id].active,
        s.closed_kept(later),
    ensures
        later.listings.contains_key(id),
        !later.listings[id].active,
        later.purchase_check(id) == Some(CarbonError::ListingNotFound),
{
}

/// Keeping closed listings is transitive, so it holds across any sequence of
/// calls.
pub proof fn lemma_closed_kept_transitive(a: MarketplaceModel, b: MarketplaceModel, c: MarketplaceModel)
    requires
        a.closed_kept(b),
        b.closed_kept(c),
    ensures
        a.closed_kept(c),
{
}

/// With fresh ids, a seller's list holds exactly the ids of that seller's
/// listings, active or not, in increasing order.
pub proof fn lemma_seller_index_exact(s: MarketplaceModel, seller: Seq<char>, id: u64)
    requires
        s.consistent(),
        s.ids_fresh(),
    ensures
        s.seller_listings[seller].contains(id) <==> (s.listings.contains_key(id)
            && s.listings[id].seller@ == seller),
        forall|i: int, j: int|
            0 <= i < j < s.seller_listings[seller].len() ==> s.seller_listings[seller][i]
                < s.seller_listings[seller][j],
{
    if s.seller_listings[seller].contains(id) {
        let k = choose|k: int| 0 <= k < s.seller_listings[seller].len() && s.seller_listings[seller][k] == id;
        assert(s.listings.contains_key(s.seller_listings[seller][k]));
    }
    assert forall|i: int, j: int| 0 <= i < j < s.seller_listings[seller].len() implies s.seller_listings[seller][i]
        < s.seller_listings[seller][j] by {
        assert(s.seller_listings[seller][i] < s.seller_listings[seller][j]);
    }
}


/// What `active_listings` picks out of a list of ids: stored active listings
/// of those ids, every such one, and in increasing id order when the ids
/// increase.
proof fn lemma_active_listings_of(ids: Seq<u64>, m: Map<u64, Listing>)
    requires
        forall|k: u64| #[trigger] m.contains_key(k) ==> m[k].listing_id == k,
    ensures
        forall|i: int|
            0 <= i < active_listings(ids, m).len() ==> {
                let l = #[trigger] active_listings(ids, m)[i];
                &&& ids.contains(l.listing_id)
                &&& m.contains_key(l.listing_id)
                &&& m[l.listing_id] == l
                &&& l.active
            },
        forall|id: u64|
            ids.contains(id) && #[trigger] m.contains_key(id) && m[id].active ==> exists|i: int|
                0 <= i < active_listings(ids, m).len() && (#[trigger] active_listings(ids, m)[i]).listing_id
                    == id,
        (forall|a: int, b: int| 0 <= a < b < ids.len() ==> ids[a] < ids[b]) ==> forall|a: int, b: int|
            0 <= a < b < active_listings(ids, m).len() ==> active_listings(ids, m)[a].listing_id
                < active_listings(ids, m)[b].listing_id,
    decreases ids.len(),
{
    if ids.len() > 0 {
        let p = ids.drop_last();
        let last = ids.last();
        lemma_active_listings_of(p, m);
        let rp = active_listings(p, m);
        let r = active_listings(ids, m);
        assert forall|x: u64| p.contains(x) implies ids.contains(x) by {
            let k = choose|k: int| 0 <= k < p.len() && p[k] == x;
            assert(ids[k] == x);
        }
        assert(ids.contains(last)) by {
            assert(ids[ids.len() - 1] == last);
        }
        assert forall|x: u64| ids.contains(x) implies p.contains(x) || x == last by {
            let k = choose|k: int| 0 <= k < ids.len() && ids[k] == x;
            if k < ids.len() - 1 {
                assert(p[k] == x);
            }
        }
        if m.contains_key(last) && m[last].active {
            assert(r == rp.push(m[last]));
            assert forall|i: int| 0 <= i < r.len() implies {
                let l = #[trigger] r[i];
                &&& ids.contains(l.listing_id)
                &&& m.contains_key(l.listing_id)
                &&& m[l.listing_id] == l
                &&& l.active
            } by {
                if i < rp.len() {
                    assert(r[i] == rp[i]);
                }
            }
            assert forall|id: u64| ids.contains(id) && #[trigger] m.contains_key(id) && m[id].active implies exists|i: int|
                0 <= i < r.len() && (#[trigger] r[i]).listing_id == id by {
                if p.contains(id) {
                    let i = choose|i: int| 0 <= i < rp.len() && (#[trigger] rp[i]).listing_id == id;
                    assert(r[i] == rp[i]);
                } else {
                    assert(r[rp.len() as int].listing_id == id);
                }
            }
            if forall|a: int, b: int| 0 <= a < b < ids.len() ==> ids[a] < ids[b] {
                assert forall|a: int, b: int| 0 <= a < b < p.len() implies p[a] < p[b] by {
                    assert(ids[a] < ids[b]);
                }
                assert forall|x: u64| p.contains(x) implies x < last by {
                    let k = choose|k: int| 0 <= k < p.len() && p[k] == x;
                    assert(ids[k] < ids[ids.len() - 1]);
                }
                assert forall|a: int, b: int| 0 <= a < b < r.len() implies r[a].listing_id
                    < r[b].listing_id by {
                    assert(r[a] == rp[a]);
                    if b < rp.len() {
                        assert(r[b] == rp[b]);
                    } else {
                        assert(p.contains(rp[a].listing_id));
                    }
                }
            }
        } else {
            assert(r == rp);
            assert forall|id: u64| ids.contains(id) && #[trigger] m.contains_key(id) && m[id].active implies exists|i: int|
                0 <= i < r.len() && (#[trigger] r[i]).listing_id == id by {
                assert(p.contains(id));
            }
            if forall|a: int, b: int| 0 <= a < b < ids.len() ==> ids[a] < ids[b] {
                assert forall|a: int, b: int| 0 <= a < b < p.len() implies p[a] < p[b] by {
                    assert(ids[a] < ids[b]);
                }
            }
        }
    }
}

/// With fresh ids, the browse list holds every active listing exactly once,
/// and nothing else, in increasing id order.
pub proof fn lemma_active_listings_exact(s: MarketplaceModel)
    requires
        s.consistent(),
        s.ids_fresh(),
    ensures
        forall|i: int|
            0 <= i < active_listings(s.all_ids, s.listings).len() ==> {
                let l = #[trigger] active_listings(s.all_ids, s.listings)[i];
                &&& s.listings.contains_key(l.listing_id)
                &&& s.listings[l.listing_id] == l
                &&& l.active
            },
        forall|id: u64|
            #[trigger] s.listings.contains_key(id) && s.listings[id].active ==> exists|i: int|
                0 <= i < active_listings(s.all_ids, s.listings).len() && (#[trigger] active_listings(
                    s.all_ids,
                    s.listings,
                )[i]).listing_id == id,
        forall|a: int, b: int|
            0 <= a < b < active_listings(s.all_ids, s.listings).len() ==> active_listings(
                s.all_ids,
                s.listings,
            )[a].listing_id < active_listings(s.all_ids, s.listings)[b].listing_id,
{
    lemma_active_listings_of(s.all_ids, s.listings);
    assert forall|a: int, b: int| 0 <= a < b < s.all_ids.len() implies s.all_ids[a] < s.all_ids[b] by {
        assert(s.all_ids[a] == a + 1);
        assert(s.all_ids[b] == b + 1);
    }
    assert forall|id: u64| #[trigger] s.listings.contains_key(id) && s.listings[id].active implies s.all_ids.contains(id) by {
        assert(s.all_ids[id - 1] == id);
    }
}


/// The total price of a listing is its price per tonne times its tonnes, and
/// the fee is that total divided by 100, rounded down; the seller gets the
/// rest.
pub proof fn lemma_settlement_amounts(l: Listing)
    requires
        l.price_per_tonne > 0,
    ensures
        total_price_of(l) == l.price_per_tonne * l.tonnes,
        fee_of(total_price_of(l)) * 100 <= total_price_of(l) < fee_of(total_price_of(l)) * 100 + 100,
        fee_of(total_price_of(l)) + (total_price_of(l) - fee_of(total_price_of(l))) == total_price_of(l),
{
}

/// Doubling the tonnes of a listing doubles its total price: every tonne is
/// charged at the listed price.
pub proof fn lemma_total_price_per_tonne(l: Listing, extra: u64)
    ensures
        total_price_of(Listing { tonnes: extra, ..l }) + total_price_of(l) == l.price_per_tonne * (
        extra + l.tonnes),
{
    assert(l.price_per_tonne * extra + l.price_per_tonne * l.tonnes == l.price_per_tonne * (extra
        + l.tonnes)) by (nonlinear_arith);
}

} // verus!
