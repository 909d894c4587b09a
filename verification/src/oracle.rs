use vstd::prelude::*;
use std::collections::HashMap;
use crate::address::Address;
use crate::error::CarbonError;
use crate::keyed::{KeyedStore, StoreKey};

verus! {

broadcast use vstd::std_specs::hash::group_hash_axioms;

/// How many ledgers monitoring data stays current: about 365 days at
/// 5 seconds per ledger.
pub const MONITORING_FRESHNESS_LEDGERS: u64 = 365 * 17_280;

/// The largest move, in percent of the last price, that one price update
/// may make.
pub const MAX_PRICE_MOVE_PERCENT: i128 = 15;

/// Satellite monitoring data last submitted for a project.
#[derive(Debug)]
pub struct MonitoringData {
    pub project_id: u64,
    pub submitted_ledger: u64,
    /// IPFS CID or hash of the monitoring payload.
    pub data_hash: String,
    pub flagged: bool,
}

impl Clone for MonitoringData {
    fn clone(&self) -> (d: Self)
        ensures
            d == *self,
    {
        MonitoringData {
            project_id: self.project_id,
            submitted_ledger: self.submitted_ledger,
            data_hash: self.data_hash.clone(),
            flagged: self.flagged,
        }
    }
}

/// The benchmark price of a tonne for one methodology and vintage year, in
/// USDC stroops.
#[derive(Debug)]
pub struct BenchmarkPrice {
    pub methodology: String,
    pub vintage_year: u32,
    pub price_per_tonne: i128,
    pub updated_ledger: u64,
}

impl Clone for BenchmarkPrice {
    fn clone(&self) -> (p: Self)
        ensures
            p == *self,
    {
        BenchmarkPrice {
            methodology: self.methodology.clone(),
            vintage_year: self.vintage_year,
            price_per_tonne: self.price_per_tonne,
            updated_ledger: self.updated_ledger,
        }
    }
}

/// Benchmark prices are kept per methodology and vintage year.
pub struct PriceKey {
    pub methodology: String,
    pub vintage_year: u32,
}

impl View for PriceKey {
    type V = (Seq<char>, u32);

    open spec fn view(&self) -> (Seq<char>, u32) {
        (self.methodology@, self.vintage_year)
    }
}

impl StoreKey for PriceKey {
    fn same_key(&self, other: &Self) -> (b: bool) {
        self.vintage_year == other.vintage_year && self.methodology == other.methodology
    }
}

/// `|a - b|`.
pub open spec fn abs_diff(a: int, b: int) -> int {
    if a >= b {
        a - b
    } else {
        b - a
    }
}

/// The largest move allowed from a price of `last`.
pub open spec fn max_move(last: int) -> int {
    last * MAX_PRICE_MOVE_PERCENT / 100
}

/// The model of the oracle's ledger state.
pub struct OracleModel {
    pub admin: Option<Seq<char>>,
    pub signer: Option<Seq<char>>,
    pub monitoring: Map<u64, MonitoringData>,
    pub prices: Map<(Seq<char>, u32), BenchmarkPrice>,
}

impl OracleModel {
    pub open spec fn signer_check(self, caller: Seq<char>) -> Option<CarbonError> {
        if self.signer == Some(caller) {
            None
        } else {
            Some(CarbonError::UnauthorizedOracle)
        }
    }

    /// Why a price update is refused, if it is.
    pub open spec fn price_check(
        self,
        caller: Seq<char>,
        methodology: Seq<char>,
        vintage_year: u32,
        price_per_tonne: i128,
    ) -> Option<CarbonError> {
        if self.signer_check(caller) is Some {
            self.signer_check(caller)
        } else if price_per_tonne <= 0 {
            Some(CarbonError::ZeroAmountNotAllowed)
        } else if self.prices.contains_key((methodology, vintage_year)) && abs_diff(
            price_per_tonne as int,
            self.prices[(methodology, vintage_year)].price_per_tonne as int,
        ) > max_move(self.prices[(methodology, vintage_year)].price_per_tonne as int) {
            Some(CarbonError::PriceNotSet)
        } else {
            None
        }
    }

    /// The bound on the last price holds where an update reaches it.
    pub open spec fn price_update_fits(
        self,
        caller: Seq<char>,
        methodology: Seq<char>,
        vintage_year: u32,
        price_per_tonne: i128,
    ) -> bool {
        self.signer_check(caller) is None && price_per_tonne > 0 && self.prices.contains_key(
            (methodology, vintage_year),
        ) ==> self.prices[(methodology, vintage_year)].price_per_tonne * MAX_PRICE_MOVE_PERCENT
            <= i128::MAX
    }

    /// Whether the last monitoring data for a project is at most
    /// `MONITORING_FRESHNESS_LEDGERS` old at ledger `now`.
    pub open spec fn monitoring_current(self, project_id: u64, now: u32) -> bool {
        self.monitoring.contains_key(project_id) && (if now >= self.monitoring[project_id].submitted_ledger {
            now - self.monitoring[project_id].submitted_ledger
        } else {
            0
        }) <= MONITORING_FRESHNESS_LEDGERS
    }

    /// What every reachable state satisfies: records are filed under their
    /// own keys, and every stored price is positive.
    pub open spec fn consistent(self) -> bool {
        &&& forall|id: u64| #[trigger]
            self.monitoring.contains_key(id) ==> self.monitoring[id].project_id == id
        &&& forall|k: (Seq<char>, u32)| #[trigger]
            self.prices.contains_key(k) ==> {
                &&& self.prices[k].price_per_tonne > 0
                &&& self.prices[k].methodology@ == k.0
                &&& self.prices[k].vintage_year == k.1
            }
    }
}

/// The oracle: a signer pushes monitoring data and benchmark prices.
pub struct CarbonOracle {
    admin: Option<Address>,
    signer: Option<Address>,
    monitoring: HashMap<u64, MonitoringData>,
    prices: KeyedStore<PriceKey, BenchmarkPrice>,
}

impl View for CarbonOracle {
    type V = OracleModel;

    closed spec fn view(&self) -> OracleModel {
        OracleModel {
            admin: match self.admin {
                Some(a) => Some(a@),
                None => None,
            },
            signer: match self.signer {
                Some(a) => Some(a@),
                None => None,
            },
            monitoring: self.monitoring@,
            prices: self.prices.view(),
        }
    }
}

impl CarbonOracle {
    pub closed spec fn wf(&self) -> bool {
        self.prices.wf() && self@.consistent()
    }

    /// Every state the oracle can reach is consistent.
    pub proof fn lemma_consistent(&self)
        requires
            self.wf(),
        ensures
            self@.consistent(),
    {
    }

    /// An oracle that has not been initialized.
    pub fn new() -> (o: CarbonOracle)
        ensures
            o.wf(),
            o@.admin is None,
            o@.signer is None,
            o@.monitoring == Map::<u64, MonitoringData>::empty(),
            o@.prices == Map::<(Seq<char>, u32), BenchmarkPrice>::empty(),
    {
        CarbonOracle {
            admin: None,
            signer: None,
            monitoring: HashMap::new(),
            prices: KeyedStore::new(),
        }
    }

    /// Names the admin and the oracle signer. Nothing guards against a
    /// second call, which names them again.
    pub fn initialize(&mut self, admin: Address, oracle_signer: Address)
        requires
            old(self).wf(),
        ensures
            final(self).wf(),
            final(self)@ == (OracleModel {
                admin: Some(admin@),
                signer: Some(oracle_signer@),
                ..old(self)@
            }),
    {
        self.admin = Some(admin);
        self.signer = Some(oracle_signer);
    }

    /// Records fresh monitoring data for a project; only the signer may.
    /// The project's flag is cleared.
    pub fn submit_monitoring_data(
        &mut self,
        signer: &Address,
        project_id: u64,
        data_hash: String,
        ledger_sequence: u32,
    ) -> (r: Result<(), CarbonError>)
        requires
            old(self).wf(),
        ensures
            final(self).wf(),
            old(self)@.signer == Some(signer@) ==> r is Ok && final(self)@.monitoring.contains_key(
                project_id,
            ) && final(self)@.monitoring[project_id].submitted_ledger == ledger_sequence
                && !final(self)@.monitoring[project_id].flagged,
            match old(self)@.signer_check(signer@) {
                Some(e) => r == Err::<(), CarbonError>(e) && final(self)@ == old(self)@,
                None => r is Ok && final(self)@ == (OracleModel {
                    monitoring: old(self)@.monitoring.insert(
                        project_id,
                        MonitoringData {
                            project_id,
                            submitted_ledger: ledger_sequence as u64,
                            data_hash,
                            flagged: false,
                        },
                    ),
                    ..old(self)@
                }),
            },
    {
        self.require_signer(signer)?;
        let data = MonitoringData {
            project_id,
            submitted_ledger: ledger_sequence as u64,
            data_hash,
            flagged: false,
        };
        self.monitoring.insert(project_id, data);
        Ok(())
    }

    /// Sets the benchmark price for a methodology and vintage year; only the
    /// signer may. The price must be positive, and an update may move the
    /// last price by at most `MAX_PRICE_MOVE_PERCENT` percent of it, which
    /// guards against a single bad feed read.
    pub fn update_credit_price(
        &mut self,
        signer: &Address,
        methodology: String,
        vintage_year: u32,
        price_per_tonne: i128,
        ledger_sequence: u32,
    ) -> (r: Result<(), CarbonError>)
        requires
            old(self).wf(),
            old(self)@.price_update_fits(signer@, methodology@, vintage_year, price_per_tonne),
        ensures
            final(self).wf(),
            ({
                let key = (methodology@, vintage_year);
                let last = old(self)@.prices[key].price_per_tonne as int;
                &&& old(self)@.signer_check(signer@) is None && price_per_tonne > 0 && (
                !old(self)@.prices.contains_key(key) || ((price_per_tonne - last) * 100 <= last * 15
                    && (last - price_per_tonne) * 100 <= last * 15)) ==> r is Ok
                    && final(self)@.prices.contains_key(key)
                    && final(self)@.prices[key].price_per_tonne == price_per_tonne
                    && final(self)@.prices[key].updated_ledger == ledger_sequence
                &&& old(self)@.prices.contains_key(key) && ((price_per_tonne - last) * 100 > last * 15
                    || (last - price_per_tonne) * 100 > last * 15) ==> r is Err && final(self)@
                    == old(self)@
            }),
            match old(self)@.price_check(signer@, methodology@, vintage_year, price_per_tonne) {
                Some(e) => r == Err::<(), CarbonError>(e) && final(self)@ == old(self)@,
                None => r is Ok && final(self)@ == (OracleModel {
                    prices: old(self)@.prices.insert(
                        (methodology@, vintage_year),
                        BenchmarkPrice {
                            methodology,
                            vintage_year,
                            price_per_tonne,
                            updated_ledger: ledger_sequence as u64,
                        },
                    ),
                    ..old(self)@
                }),
            },
    {
        self.require_signer(signer)?;
        if price_per_tonne <= 0 {
            return Err(CarbonError::ZeroAmountNotAllowed);
        }
        let key = PriceKey { methodology: methodology.clone(), vintage_year };
        match self.prices.get(&key) {
            Some(existing) => {
                let last = existing.price_per_tonne;
                let diff = if price_per_tonne >= last {
                    price_per_tonne - last
                } else {
                    last - price_per_tonne
                };
                let max_allowed = last * MAX_PRICE_MOVE_PERCENT / 100;
                if diff > max_allowed {
                    return Err(CarbonError::PriceNotSet);
                }
            },
            None => {},
        }
        let price = BenchmarkPrice {
            methodology,
            vintage_year,
            price_per_tonne,
            updated_ledger: ledger_sequence as u64,
        };
        self.prices.insert(key, price);
        Ok(())
    }

    /// Flags a project for investigation; only the signer may, and only for
    /// a project with monitoring data.
    pub fn flag_project(&mut self, signer: &Address, project_id: u64) -> (r: Result<(), CarbonError>)
        requires
            old(self).wf(),
        ensures
            final(self).wf(),
            if old(self)@.signer_check(signer@) is Some {
                r == Err::<(), CarbonError>(CarbonError::UnauthorizedOracle) && final(self)@ == old(
                    self,
                )@
            } else if !old(self)@.monitoring.contains_key(project_id) {
                r == Err::<(), CarbonError>(CarbonError::ProjectNotFound) && final(self)@ == old(
                    self,
                )@
            } else {
                r is Ok && final(self)@ == (OracleModel {
                    monitoring: old(self)@.monitoring.insert(
                        project_id,
                        MonitoringData { flagged: true, ..old(self)@.monitoring[project_id] },
                    ),
                    ..old(self)@
                })
            },
    {
        self.require_signer(signer)?;
        let mut data = match self.monitoring.get(&project_id) {
            Some(d) => d.clone(),
            None => return Err(CarbonError::ProjectNotFound),
        };
        data.flagged = true;
        self.monitoring.insert(project_id, data);
        Ok(())
    }

    /// False when no monitoring data was submitted for the project within
    /// the last `MONITORING_FRESHNESS_LEDGERS` ledgers before `current_ledger`.
    pub fn is_monitoring_current(&self, project_id: u64, current_ledger: u32) -> (b: bool)
        ensures
            b == self@.monitoring_current(project_id, current_ledger),
            !self@.monitoring.contains_key(project_id) ==> !b,
            self@.monitoring.contains_key(project_id) ==> (b <==> current_ledger
                <= self@.monitoring[project_id].submitted_ledger + 365 * 17_280),
    {
        match self.monitoring.get(&project_id) {
            Some(data) => {
                let now = current_ledger as u64;
                now.saturating_sub(data.submitted_ledger) <= MONITORING_FRESHNESS_LEDGERS
            },
            None => false,
        }
    }

    pub fn get_benchmark_price(&self, methodology: String, vintage_year: u32) -> (r: Result<
        BenchmarkPrice,
        CarbonError,
    >)
        requires
            self.wf(),
        ensures
            r == (if self@.prices.contains_key((methodology@, vintage_year)) {
                Ok::<BenchmarkPrice, CarbonError>(self@.prices[(methodology@, vintage_year)])
            } else {
                Err(CarbonError::PriceNotSet)
            }),
    {
        let key = PriceKey { methodology, vintage_year };
        match self.prices.get(&key) {
            Some(p) => Ok(p.clone()),
            None => Err(CarbonError::PriceNotSet),
        }
    }

    /// Whether `a` is the oracle signer.
    pub fn is_signer(&self, a: &Address) -> (b: bool)
        ensures
            b == (self@.signer_check(a@) is None),
    {
        self.require_signer(a).is_ok()
    }

    fn require_signer(&self, signer: &Address) -> (r: Result<(), CarbonError>)
        ensures
            match self@.signer_check(signer@) {
                Some(e) => r == Err::<(), CarbonError>(e),
                None => r is Ok,
            },
    {
        match &self.signer {
            Some(authorized) => {
                if authorized.same(signer) {
                    Ok(())
                } else {
                    Err(CarbonError::UnauthorizedOracle)
                }
            },
            None => Err(CarbonError::UnauthorizedOracle),
        }
    }
}

/// An accepted update moves an existing price by at most
/// `MAX_PRICE_MOVE_PERCENT` percent of it.
pub proof fn lemma_accepted_price_move_bounded(
    s: OracleModel,
    caller: Seq<char>,
    methodology: Seq<char>,
    vintage_year: u32,
    price_per_tonne: i128,
)
    requires
        s.price_check(caller, methodology, vintage_year, price_per_tonne) is None,
        s.prices.contains_key((methodology, vintage_year)),
    ensures
        abs_diff(price_per_tonne as int, s.prices[(methodology, vintage_year)].price_per_tonne as int)
            <= max_move(s.prices[(methodology, vintage_year)].price_per_tonne as int),
{
}


/// Monitoring data submitted at ledger `t` is current at every ledger up to
/// `t` plus about 365 days of ledgers, and not after; no data, not current.
pub proof fn lemma_monitoring_window(s: OracleModel, project_id: u64, now: u32)
    ensures
        !s.monitoring.contains_key(project_id) ==> !s.monitoring_current(project_id, now),
        s.monitoring.contains_key(project_id) ==> (s.monitoring_current(project_id, now) <==> now
            <= s.monitoring[project_id].submitted_ledger + 365 * 17_280),
{
}

/// Flagging a project does not change whether its monitoring data is current.
pub proof fn lemma_flag_keeps_currency(s: OracleModel, project_id: u64, now: u32)
    requires
        s.monitoring.contains_key(project_id),
    ensures
        (OracleModel {
            monitoring: s.monitoring.insert(
                project_id,
                MonitoringData { flagged: true, ..s.monitoring[project_id] },
            ),
            ..s
        }).monitoring_current(project_id, now) == s.monitoring_current(project_id, now),
{
}

/// From the signer, a positive first price is always accepted, and a later
/// one exactly when it moves the last price by at most 15% of it
/// (`|price - last| * 100 <= last * 15`).
pub proof fn lemma_price_update_acceptance(
    s: OracleModel,
    caller: Seq<char>,
    methodology: Seq<char>,
    vintage_year: u32,
    price_per_tonne: i128,
)
    requires
        s.consistent(),
        s.signer_check(caller) is None,
        price_per_tonne > 0,
    ensures
        !s.prices.contains_key((methodology, vintage_year)) ==> s.price_check(
            caller,
            methodology,
            vintage_year,
            price_per_tonne,
        ) is None,
        s.prices.contains_key((methodology, vintage_year)) ==> {
            let last = s.prices[(methodology, vintage_year)].price_per_tonne as int;
            (s.price_check(caller, methodology, vintage_year, price_per_tonne) is None <==> ((
            price_per_tonne - last) * 100 <= last * 15 && (last - price_per_tonne) * 100 <= last * 15))
        },
        s.price_check(caller, methodology, vintage_year, price_per_tonne) is None || s.price_check(
            caller,
            methodology,
            vintage_year,
            price_per_tonne,
        ) == Some(CarbonError::PriceNotSet),
{
}

} // verus!
