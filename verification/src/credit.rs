use vstd::prelude::*;
use std::collections::HashMap;
use crate::address::Address;
use crate::error::CarbonError;
use crate::id_index::{IdIndex, without, lemma_without_contains, lemma_without_no_duplicates};

verus! {

broadcast use vstd::std_specs::hash::group_hash_axioms;

/// Earliest vintage year a batch may carry.
pub const MIN_VINTAGE_YEAR: u32 = 2005;

/// Latest vintage year a batch may carry.
pub const MAX_VINTAGE_YEAR: u32 = 2100;

/// A minted batch of tokenized carbon credits, one tonne per serial number in
/// the contiguous range `serial_start..=serial_end`.
#[derive(Debug)]
pub struct CreditBatch {
    pub batch_id: u64,
    pub project_id: u64,
    pub owner: Address,
    pub vintage_year: u32,
    pub serial_start: u64,
    pub serial_end: u64,
    pub retired: bool,
}

impl Clone for CreditBatch {
    fn clone(&self) -> (b: Self)
        ensures
            b == *self,
    {
        CreditBatch { owner: self.owner.clone(), ..*self }
    }
}

/// The public proof that a batch was retired, and on whose behalf.
#[derive(Debug)]
pub struct RetirementCertificate {
    pub batch_id: u64,
    pub beneficiary: String,
    pub reason: String,
    pub retired_by: Address,
    pub retired_ledger: u64,
    pub tonnes: u64,
}

impl Clone for RetirementCertificate {
    fn clone(&self) -> (c: Self)
        ensures
            c == *self,
    {
        RetirementCertificate {
            batch_id: self.batch_id,
            beneficiary: self.beneficiary.clone(),
            reason: self.reason.clone(),
            retired_by: self.retired_by.clone(),
            retired_ledger: self.retired_ledger,
            tonnes: self.tonnes,
        }
    }
}

/// The model of the credit contract's ledger state. Batch `id` is
/// `batches[id - 1]`: ids are handed out in order from 1.
pub struct CreditModel {
    pub minter: Option<Seq<char>>,
    pub next_serial: u64,
    pub batches: Seq<CreditBatch>,
    pub certificates: Map<u64, RetirementCertificate>,
    pub owner_batches: Map<Seq<char>, Seq<u64>>,
}

/// Number of tonnes a batch covers.
pub open spec fn tonnes_of(b: CreditBatch) -> int {
    b.serial_end - b.serial_start + 1
}

impl CreditModel {
    pub open spec fn has_batch(self, id: u64) -> bool {
        1 <= id <= self.batches.len()
    }

    pub open spec fn batch(self, id: u64) -> CreditBatch {
        self.batches[id - 1]
    }

    /// The id the next minted batch receives.
    pub open spec fn next_batch_id(self) -> int {
        self.batches.len() + 1int
    }

    /// Whether `caller` holds the minting role.
    pub open spec fn minter_check(self, caller: Seq<char>) -> Option<CarbonError> {
        if self.minter == Some(caller) {
            None
        } else {
            Some(CarbonError::UnauthorizedVerifier)
        }
    }

    /// Why a mint is refused, if it is.
    pub open spec fn mint_check(self, caller: Seq<char>, vintage_year: u32, tonnes: u64) -> Option<
        CarbonError,
    > {
        if self.minter_check(caller) is Some {
            self.minter_check(caller)
        } else if tonnes == 0 {
            Some(CarbonError::ZeroAmountNotAllowed)
        } else if vintage_year < MIN_VINTAGE_YEAR || vintage_year > MAX_VINTAGE_YEAR {
            Some(CarbonError::InvalidVintageYear)
        } else {
            None
        }
    }

    /// The counters stay within `u64` after minting `tonnes` more.
    pub open spec fn mint_fits(self, tonnes: u64) -> bool {
        &&& self.next_serial + tonnes <= u64::MAX
        &&& self.batches.len() + 2 <= u64::MAX
    }

    /// The state after a batch of `tonnes` is minted to `owner`.
    pub open spec fn minted(
        self,
        project_id: u64,
        owner: Address,
        vintage_year: u32,
        tonnes: u64,
    ) -> CreditModel {
        let id = self.next_batch_id() as u64;
        CreditModel {
            next_serial: (self.next_serial + tonnes) as u64,
            batches: self.batches.push(
                CreditBatch {
                    batch_id: id,
                    project_id,
                    owner,
                    vintage_year,
                    serial_start: self.next_serial,
                    serial_end: (self.next_serial + tonnes - 1) as u64,
                    retired: false,
                },
            ),
            owner_batches: self.owner_batches.insert(owner@, self.owner_batches[owner@].push(id)),
            ..self
        }
    }

    /// Why `caller` may not move or retire batch `id`, if they may not.
    pub open spec fn holder_check(self, caller: Seq<char>, id: u64) -> Option<CarbonError> {
        if !self.has_batch(id) {
            Some(CarbonError::ProjectNotFound)
        } else if self.batch(id).owner@ != caller {
            Some(CarbonError::NotOwner)
        } else if self.batch(id).retired {
            Some(CarbonError::AlreadyRetired)
        } else {
            None
        }
    }

    /// The state after batch `id` passes from `from` to `to`.
    pub open spec fn transferred(self, from: Seq<char>, id: u64, to: Address) -> CreditModel {
        let taken = self.owner_batches.insert(from, without(self.owner_batches[from], id));
        CreditModel {
            batches: self.batches.update(id - 1, CreditBatch { owner: to, ..self.batch(id) }),
            owner_batches: taken.insert(to@, taken[to@].push(id)),
            ..self
        }
    }

    /// The state after batch `id` is retired by `by`.
    pub open spec fn retired(
        self,
        id: u64,
        beneficiary: String,
        reason: String,
        by: Address,
        ledger_sequence: u32,
    ) -> CreditModel {
        CreditModel {
            batches: self.batches.update(id - 1, CreditBatch { retired: true, ..self.batch(id) }),
            certificates: self.certificates.insert(
                id,
                RetirementCertificate {
                    batch_id: id,
                    beneficiary,
                    reason,
                    retired_by: by,
                    retired_ledger: ledger_sequence as u64,
                    tonnes: tonnes_of(self.batch(id)) as u64,
                },
            ),
            ..self
        }
    }

    /// Whether a claimed serial range lies wholly within what was minted.
    pub open spec fn serial_range_result(self, start: u64, end: u64) -> Result<bool, CarbonError> {
        if start > end {
            Err(CarbonError::InvalidSerialRange)
        } else {
            Ok(end < self.next_serial)
        }
    }

    /// What every reachable state satisfies.
    ///
    /// Serial ranges are non-empty, ordered by batch id and pairwise disjoint,
    /// and all lie below the next free serial; a certificate exists exactly
    /// for the retired batches and records their tonnage; the owner index
    /// lists, without repetition, exactly the batches each party owns.
    pub open spec fn consistent(self) -> bool {
        &&& 1 <= self.next_serial
        &&& self.minter is None ==> self.batches.len() == 0 && self.next_serial == 1
        &&& forall|i: int|
            0 <= i < self.batches.len() ==> {
                &&& (#[trigger] self.batches[i]).batch_id == i + 1
                &&& 1 <= self.batches[i].serial_start <= self.batches[i].serial_end
                &&& self.batches[i].serial_end < self.next_serial
            }
        &&& forall|i: int, j: int|
            0 <= i < j < self.batches.len() ==> (#[trigger] self.batches[i]).serial_end
                < (#[trigger] self.batches[j]).serial_start
        &&& forall|id: u64|
            #[trigger] self.certificates.contains_key(id) <==> (self.has_batch(id) && self.batch(
                id,
            ).retired)
        &&& forall|id: u64| #[trigger]
            self.certificates.contains_key(id) ==> self.certificates[id].batch_id == id
                && self.certificates[id].tonnes == tonnes_of(self.batch(id))
        &&& forall|o: Seq<char>| (#[trigger] self.owner_batches[o]).no_duplicates()
        &&& forall|o: Seq<char>, k: int|
            0 <= k < self.owner_batches[o].len() ==> self.has_batch(
                #[trigger] self.owner_batches[o][k],
            ) && self.batch(self.owner_batches[o][k]).owner@ == o
        &&& forall|i: int|
            0 <= i < self.batches.len() ==> self.owner_batches[(#[trigger] self.batches[i]).owner@].contains(
                (i + 1) as u64,
            )
    }

    /// A retired batch, and its certificate, are the same in `next`.
    pub open spec fn retired_kept(self, next: CreditModel) -> bool {
        &&& self.batches.len() <= next.batches.len()
        &&& forall|id: u64|
            self.has_batch(id) && #[trigger] self.batch(id).retired ==> next.batch(id) == self.batch(id)
                && next.certificates.contains_key(id) == self.certificates.contains_key(id)
                && next.certificates[id] == self.certificates[id]
    }
}

/// Minting keeps the state consistent and leaves retired batches alone.
pub proof fn lemma_mint_keeps_consistent(
    s: CreditModel,
    caller: Seq<char>,
    project_id: u64,
    owner: Address,
    vintage_year: u32,
    tonnes: u64,
)
    requires
        s.consistent(),
        s.mint_check(caller, vintage_year, tonnes) is None,
        s.mint_fits(tonnes),
    ensures
        s.minted(project_id, owner, vintage_year, tonnes).consistent(),
        s.retired_kept(s.minted(project_id, owner, vintage_year, tonnes)),
{
    let t = s.minted(project_id, owner, vintage_year, tonnes);
    let n = s.batches.len() as int;
    let id = (n + 1) as u64;
    assert(t.batches[n].batch_id == n + 1);
    assert forall|i: int| 0 <= i < t.batches.len() implies {
        &&& (#[trigger] t.batches[i]).batch_id == i + 1
        &&& 1 <= t.batches[i].serial_start <= t.batches[i].serial_end
        &&& t.batches[i].serial_end < t.next_serial
    } by {
        if i < n {
            assert(t.batches[i] == s.batches[i]);
        }
    }
    assert forall|i: int, j: int| 0 <= i < j < t.batches.len() implies (#[trigger] t.batches[i]).serial_end
        < (#[trigger] t.batches[j]).serial_start by {
        assert(t.batches[i] == s.batches[i]);
        if j < n {
            assert(t.batches[j] == s.batches[j]);
        }
    }
    assert forall|x: u64| #[trigger] t.certificates.contains_key(x) <==> (t.has_batch(x) && t.batch(x).retired) by {
        if 1 <= x <= n {
            assert(t.batch(x) == s.batch(x));
        }
    }
    assert forall|x: u64| #[trigger] t.certificates.contains_key(x) implies t.certificates[x].batch_id == x
        && t.certificates[x].tonnes == tonnes_of(t.batch(x)) by {
        assert(s.has_batch(x));
        assert(t.batch(x) == s.batch(x));
    }
    // No batch id filed under anyone is the fresh one.
    assert forall|o: Seq<char>| !(#[trigger] s.owner_batches[o]).contains(id) by {
        if s.owner_batches[o].contains(id) {
            let k = choose|k: int| 0 <= k < s.owner_batches[o].len() && s.owner_batches[o][k] == id;
            assert(s.has_batch(s.owner_batches[o][k]));
        }
    }
    assert forall|o: Seq<char>| (#[trigger] t.owner_batches[o]).no_duplicates() by {
        assert(s.owner_batches[o].no_duplicates());
        if o == owner@ {
            let l = s.owner_batches[o];
            assert(!l.contains(id));
            assert forall|a: int, b: int| 0 <= a < l.push(id).len() && 0 <= b < l.push(id).len() && a != b
                implies l.push(id)[a] != l.push(id)[b] by {
                if a < l.len() && b < l.len() {
                } else if a < l.len() {
                    assert(l.contains(l[a]));
                } else {
                    assert(l.contains(l[b]));
                }
            }
        }
    }
    assert forall|o: Seq<char>, k: int| 0 <= k < t.owner_batches[o].len() implies t.has_batch(
        #[trigger] t.owner_batches[o][k],
    ) && t.batch(t.owner_batches[o][k]).owner@ == o by {
        if o == owner@ && k == s.owner_batches[o].len() {
            assert(t.owner_batches[o][k] == id);
        } else {
            assert(t.owner_batches[o][k] == s.owner_batches[o][k]);
            assert(s.has_batch(s.owner_batches[o][k]));
            assert(t.batch(s.owner_batches[o][k]) == s.batch(s.owner_batches[o][k]));
        }
    }
    assert forall|i: int| 0 <= i < t.batches.len() implies t.owner_batches[(#[trigger] t.batches[i]).owner@].contains(
        (i + 1) as u64,
    ) by {
        if i < n {
            assert(t.batches[i] == s.batches[i]);
            let o = s.batches[i].owner@;
            assert(s.owner_batches[o].contains((i + 1) as u64));
            let k = choose|k: int| 0 <= k < s.owner_batches[o].len() && s.owner_batches[o][k] == (i + 1) as u64;
            assert(t.owner_batches[o][k] == (i + 1) as u64);
        } else {
            let l = s.owner_batches[owner@];
            assert(t.owner_batches[owner@][l.len() as int] == id);
        }
    }
    assert forall|x: u64| s.has_batch(x) && #[trigger] s.batch(x).retired implies t.batch(x) == s.batch(x)
        && t.certificates.contains_key(x) == s.certificates.contains_key(x)
        && t.certificates[x] == s.certificates[x] by {
    }
}

/// Passing a batch on keeps the state consistent and leaves retired batches alone.
pub proof fn lemma_transfer_keeps_consistent(s: CreditModel, from: Seq<char>, id: u64, to: Address)
    requires
        s.consistent(),
        s.holder_check(from, id) is None,
    ensures
        s.transferred(from, id, to).consistent(),
        s.retired_kept(s.transferred(from, id, to)),
{
    let t = s.transferred(from, id, to);
    let n = s.batches.len() as int;
    let taken = s.owner_batches.insert(from, without(s.owner_batches[from], id));
    assert(s.batch(id).owner@ == from);
    assert forall|i: int| 0 <= i < n && i != id - 1 implies #[trigger] t.batches[i] == s.batches[i] by {
    }
    assert(t.batches[id - 1] == (CreditBatch { owner: to, ..s.batch(id) }));
    assert forall|i: int| 0 <= i < t.batches.len() implies {
        &&& (#[trigger] t.batches[i]).batch_id == i + 1
        &&& 1 <= t.batches[i].serial_start <= t.batches[i].serial_end
        &&& t.batches[i].serial_end < t.next_serial
    } by {
        assert(s.batches[i].batch_id == i + 1);
    }
    assert forall|i: int, j: int| 0 <= i < j < t.batches.len() implies (#[trigger] t.batches[i]).serial_end
        < (#[trigger] t.batches[j]).serial_start by {
        assert(s.batches[i].serial_end < s.batches[j].serial_start);
    }
    assert forall|x: u64| #[trigger] t.certificates.contains_key(x) <==> (t.has_batch(x) && t.batch(x).retired) by {
        if 1 <= x <= n {
            assert(t.batch(x).retired == s.batch(x).retired);
        }
    }
    assert forall|x: u64| #[trigger] t.certificates.contains_key(x) implies t.certificates[x].batch_id == x
        && t.certificates[x].tonnes == tonnes_of(t.batch(x)) by {
        assert(s.has_batch(x));
        assert(tonnes_of(t.batch(x)) == tonnes_of(s.batch(x)));
    }
    // Where `id` is filed before the move.
    assert forall|o: Seq<char>| o != from implies !(#[trigger] s.owner_batches[o]).contains(id) by {
        if s.owner_batches[o].contains(id) {
            let k = choose|k: int| 0 <= k < s.owner_batches[o].len() && s.owner_batches[o][k] == id;
            assert(s.batch(s.owner_batches[o][k]).owner@ == o);
        }
    }
    lemma_without_no_duplicates(s.owner_batches[from], id);
    lemma_without_contains(s.owner_batches[from], id, id);
    assert(!taken[to@].contains(id));
    assert forall|o: Seq<char>| (#[trigger] t.owner_batches[o]).no_duplicates() by {
        assert(s.owner_batches[o].no_duplicates());
        if o == to@ {
            let l = taken[o];
            assert(l.no_duplicates());
            assert forall|a: int, b: int| 0 <= a < l.push(id).len() && 0 <= b < l.push(id).len() && a != b
                implies l.push(id)[a] != l.push(id)[b] by {
                if a < l.len() && b < l.len() {
                } else if a < l.len() {
                    assert(l.contains(l[a]));
                } else {
                    assert(l.contains(l[b]));
                }
            }
        }
    }
    assert forall|o: Seq<char>, k: int| 0 <= k < t.owner_batches[o].len() implies t.has_batch(
        #[trigger] t.owner_batches[o][k],
    ) && t.batch(t.owner_batches[o][k]).owner@ == o by {
        let x = t.owner_batches[o][k];
        if o == to@ && k == taken[o].len() {
            assert(x == id);
        } else {
            assert(x == taken[o][k]);
            if o == from {
                lemma_without_contains(s.owner_batches[from], id, x);
                assert(taken[o].contains(x));
                assert(s.owner_batches[from].contains(x));
                let k2 = choose|k2: int| 0 <= k2 < s.owner_batches[from].len() && s.owner_batches[from][k2] == x;
                assert(s.has_batch(s.owner_batches[from][k2]));
                assert(x != id);
            } else {
                assert(x == s.owner_batches[o][k]);
                assert(s.has_batch(s.owner_batches[o][k]));
                assert(s.owner_batches[o].contains(x));
                assert(x != id);
            }
            assert(t.batch(x) == s.batch(x));
        }
    }
    assert forall|i: int| 0 <= i < t.batches.len() implies t.owner_batches[(#[trigger] t.batches[i]).owner@].contains(
        (i + 1) as u64,
    ) by {
        let x = (i + 1) as u64;
        if x == id {
            assert(t.owner_batches[to@][taken[to@].len() as int] == id);
        } else {
            assert(t.batches[i] == s.batches[i]);
            let o = s.batches[i].owner@;
            assert(s.owner_batches[o].contains(x));
            assert(taken[o].contains(x)) by {
                if o == from {
                    lemma_without_contains(s.owner_batches[from], id, x);
                }
            }
            let k = choose|k: int| 0 <= k < taken[o].len() && taken[o][k] == x;
            assert(t.owner_batches[o][k] == x);
        }
    }
    assert forall|x: u64| s.has_batch(x) && #[trigger] s.batch(x).retired implies t.batch(x) == s.batch(x)
        && t.certificates.contains_key(x) == s.certificates.contains_key(x)
        && t.certificates[x] == s.certificates[x] by {
    }
}

/// Retiring a batch keeps the state consistent and leaves retired batches alone.
pub proof fn lemma_retire_keeps_consistent(
    s: CreditModel,
    id: u64,
    beneficiary: String,
    reason: String,
    by: Address,
    ledger_sequence: u32,
)
    requires
        s.consistent(),
        s.holder_check(by@, id) is None,
    ensures
        s.retired(id, beneficiary, reason, by, ledger_sequence).consistent(),
        s.retired_kept(s.retired(id, beneficiary, reason, by, ledger_sequence)),
{
    let t = s.retired(id, beneficiary, reason, by, ledger_sequence);
    let n = s.batches.len() as int;
    assert forall|i: int| 0 <= i < n && i != id - 1 implies #[trigger] t.batches[i] == s.batches[i] by {
    }
    assert forall|i: int| 0 <= i < t.batches.len() implies {
        &&& (#[trigger] t.batches[i]).batch_id == i + 1
        &&& 1 <= t.batches[i].serial_start <= t.batches[i].serial_end
        &&& t.batches[i].serial_end < t.next_serial
    } by {
        assert(s.batches[i].batch_id == i + 1);
    }
    assert forall|i: int, j: int| 0 <= i < j < t.batches.len() implies (#[trigger] t.batches[i]).serial_end
        < (#[trigger] t.batches[j]).serial_start by {
        assert(s.batches[i].serial_end < s.batches[j].serial_start);
    }
    assert forall|x: u64| #[trigger] t.certificates.contains_key(x) <==> (t.has_batch(x) && t.batch(x).retired) by {
        if 1 <= x <= n && x != id {
            assert(t.batch(x) == s.batch(x));
        }
    }
    assert forall|x: u64| #[trigger] t.certificates.contains_key(x) implies t.certificates[x].batch_id == x
        && t.certificates[x].tonnes == tonnes_of(t.batch(x)) by {
        if x != id {
            assert(t.batch(x) == s.batch(x));
        }
    }
    assert forall|o: Seq<char>, k: int| 0 <= k < t.owner_batches[o].len() implies t.has_batch(
        #[trigger] t.owner_batches[o][k],
    ) && t.batch(t.owner_batches[o][k]).owner@ == o by {
        assert(s.has_batch(s.owner_batches[o][k]));
        assert(t.batch(s.owner_batches[o][k]).owner == s.batch(s.owner_batches[o][k]).owner);
    }
    assert forall|i: int| 0 <= i < t.batches.len() implies t.owner_batches[(#[trigger] t.batches[i]).owner@].contains(
        (i + 1) as u64,
    ) by {
        assert(t.batches[i].owner == s.batches[i].owner);
        assert(s.owner_batches[s.batches[i].owner@].contains((i + 1) as u64));
    }
    assert forall|x: u64| s.has_batch(x) && #[trigger] s.batch(x).retired implies t.batch(x) == s.batch(x)
        && t.certificates.contains_key(x) == s.certificates.contains_key(x)
        && t.certificates[x] == s.certificates[x] by {
        assert(x != id);
    }
}


/// The credit contract: mints batches of credits with globally sequential
/// serial numbers, moves whole batches between owners, and retires them
/// permanently with a certificate.
pub struct CarbonCredit {
    minter: Option<Address>,
    next_serial: u64,
    batches: Vec<CreditBatch>,
    certificates: HashMap<u64, RetirementCertificate>,
    owner_batches: IdIndex,
}

impl View for CarbonCredit {
    type V = CreditModel;

    closed spec fn view(&self) -> CreditModel {
        CreditModel {
            minter: match self.minter {
                Some(a) => Some(a@),
                None => None,
            },
            next_serial: self.next_serial,
            batches: self.batches@,
            certificates: self.certificates@,
            owner_batches: self.owner_batches.view(),
        }
    }
}

impl CarbonCredit {
    pub closed spec fn wf(&self) -> bool {
        self.owner_batches.wf() && self@.consistent()
    }

    /// Every state the contract can reach is consistent.
    pub proof fn lemma_consistent(&self)
        requires
            self.wf(),
        ensures
            self@.consistent(),
    {
    }

    /// A contract that has not been initialized.
    pub fn new() -> (c: CarbonCredit)
        ensures
            c.wf(),
            c@.minter is None,
            c@.next_serial == 1,
            c@.batches.len() == 0,
            c@.certificates == Map::<u64, RetirementCertificate>::empty(),
            c@.owner_batches == Map::new(|o: Seq<char>| true, |o: Seq<char>| Seq::<u64>::empty()),
    {
        CarbonCredit {
            minter: None,
            next_serial: 1,
            batches: Vec::new(),
            certificates: HashMap::new(),
            owner_batches: IdIndex::new(),
        }
    }

    /// One-time setup: names the party allowed to mint. Refused once a
    /// minter is set, so the role can never be silently reassigned.
    pub fn initialize(&mut self, minter: Address) -> (r: Result<(), CarbonError>)
        requires
            old(self).wf(),
        ensures
            final(self).wf(),
            old(self)@.retired_kept(final(self)@),
            match old(self)@.minter {
                Some(_) => r == Err::<(), CarbonError>(CarbonError::ProjectAlreadyExists)
                    && final(self)@ == old(self)@,
                None => r is Ok && final(self)@ == (CreditModel {
                    minter: Some(minter@),
                    next_serial: 1,
                    ..old(self)@
                }),
            },
    {
        if self.minter.is_some() {
            return Err(CarbonError::ProjectAlreadyExists);
        }
        self.minter = Some(minter);
        self.next_serial = 1;
        Ok(())
    }

    /// Hands the minting role to `new_minter`; only the current minter may.
    pub fn transfer_minter(&mut self, minter: &Address, new_minter: Address) -> (r: Result<
        (),
        CarbonError,
    >)
        requires
            old(self).wf(),
        ensures
            final(self).wf(),
            old(self)@.retired_kept(final(self)@),
            match old(self)@.minter_check(minter@) {
                Some(e) => r == Err::<(), CarbonError>(e) && final(self)@ == old(self)@,
                None => r is Ok && final(self)@ == (CreditModel {
                    minter: Some(new_minter@),
                    ..old(self)@
                }),
            },
    {
        self.require_minter(minter)?;
        self.minter = Some(new_minter);
        Ok(())
    }

    /// Mints a batch of `tonnes` credits for `owner`. Its serial numbers
    /// continue the global sequence, so ranges are never reused. Returns the
    /// new batch id.
    pub fn mint_credits(
        &mut self,
        minter: &Address,
        project_id: u64,
        owner: Address,
        vintage_year: u32,
        tonnes: u64,
    ) -> (r: Result<u64, CarbonError>)
        requires
            old(self).wf(),
            old(self)@.mint_check(minter@, vintage_year, tonnes) is None ==> old(self)@.mint_fits(
                tonnes,
            ),
        ensures
            final(self).wf(),
            old(self)@.minter == Some(minter@) && tonnes > 0 && 2005 <= vintage_year <= 2100 ==> {
                let n = old(self)@.batches.len() as int;
                &&& r == Ok::<u64, CarbonError>((n + 1) as u64)
                &&& final(self)@.batches.len() == n + 1
                &&& final(self)@.batches[n].batch_id == n + 1
                &&& final(self)@.batches[n].serial_start == old(self)@.next_serial
                &&& final(self)@.batches[n].serial_end - final(self)@.batches[n].serial_start + 1 == tonnes
                &&& final(self)@.batches[n].owner == owner
                &&& final(self)@.batches[n].vintage_year == vintage_year
                &&& !final(self)@.batches[n].retired
                &&& final(self)@.next_serial == old(self)@.next_serial + tonnes
            },
            old(self)@.retired_kept(final(self)@),
            match old(self)@.mint_check(minter@, vintage_year, tonnes) {
                Some(e) => r == Err::<u64, CarbonError>(e) && final(self)@ == old(self)@,
                None => r == Ok::<u64, CarbonError>(old(self)@.next_batch_id() as u64)
                    && final(self)@ == old(self)@.minted(project_id, owner, vintage_year, tonnes),
            },
    {
        self.require_minter(minter)?;
        if tonnes == 0 {
            return Err(CarbonError::ZeroAmountNotAllowed);
        }
        if vintage_year < MIN_VINTAGE_YEAR || vintage_year > MAX_VINTAGE_YEAR {
            return Err(CarbonError::InvalidVintageYear);
        }
        let ghost before = self@;
        proof {
            lemma_mint_keeps_consistent(before, minter@, project_id, owner, vintage_year, tonnes);
        }
        let batch_id = self.batches.len() as u64 + 1;
        let serial_start = self.next_serial;
        let serial_end = serial_start + tonnes - 1;
        let batch = CreditBatch {
            batch_id,
            project_id,
            owner: owner.clone(),
            vintage_year,
            serial_start,
            serial_end,
            retired: false,
        };
        self.batches.push(batch);
        self.next_serial = serial_end + 1;
        self.owner_batches.add(&owner, batch_id);
        assert(self@ == before.minted(project_id, owner, vintage_year, tonnes));
        Ok(batch_id)
    }

    /// Position of batch `batch_id` in the batch list, if it was minted.
    fn batch_index(&self, batch_id: u64) -> (r: Option<usize>)
        requires
            self.wf(),
        ensures
            match r {
                Some(i) => self@.has_batch(batch_id) && i == batch_id - 1,
                None => !self@.has_batch(batch_id),
            },
    {
        if batch_id >= 1 && batch_id <= self.batches.len() as u64 {
            Some((batch_id - 1) as usize)
        } else {
            None
        }
    }

    /// Why `caller` may not move or retire batch `batch_id`, if they may not.
    fn check_holder(&self, caller: &Address, batch_id: u64) -> (r: Result<usize, CarbonError>)
        requires
            self.wf(),
        ensures
            match self@.holder_check(caller@, batch_id) {
                Some(e) => r == Err::<usize, CarbonError>(e),
                None => r == Ok::<usize, CarbonError>((batch_id - 1) as usize),
            },
    {
        let i = match self.batch_index(batch_id) {
            Some(i) => i,
            None => return Err(CarbonError::ProjectNotFound),
        };
        if !self.batches[i].owner.same(caller) {
            return Err(CarbonError::NotOwner);
        }
        if self.batches[i].retired {
            return Err(CarbonError::AlreadyRetired);
        }
        Ok(i)
    }

    /// Moves a whole batch from `from` to `to` (for instance on a sale).
    /// Only the owner may, and never once the batch is retired.
    pub fn transfer_credits(&mut self, from: &Address, batch_id: u64, to: Address) -> (r: Result<
        (),
        CarbonError,
    >)
        requires
            old(self).wf(),
        ensures
            final(self).wf(),
            old(self)@.has_batch(batch_id) && old(self)@.batch(batch_id).owner@ == from@
                && !old(self)@.batch(batch_id).retired ==> r is Ok && final(self)@.batch(batch_id).owner
                == to && final(self)@.owner_batches[to@].last() == batch_id && (from@ != to@
                ==> !final(self)@.owner_batches[from@].contains(batch_id)),
            old(self)@.retired_kept(final(self)@),
            match old(self)@.holder_check(from@, batch_id) {
                Some(e) => r == Err::<(), CarbonError>(e) && final(self)@ == old(self)@,
                None => r is Ok && final(self)@ == old(self)@.transferred(from@, batch_id, to),
            },
    {
        let i = self.check_holder(from, batch_id)?;
        let ghost before = self@;
        proof {
            lemma_transfer_keeps_consistent(before, from@, batch_id, to);
        }
        let mut batch = self.batches[i].clone();
        batch.owner = to.clone();
        self.batches.set(i, batch);
        self.owner_batches.remove(from, batch_id);
        self.owner_batches.add(&to, batch_id);
        assert(self@ == before.transferred(from@, batch_id, to));
        Ok(())
    }

    /// Permanently retires a batch on behalf of `beneficiary` and files its
    /// certificate. Once retired a batch can never be moved or retired again.
    pub fn retire_credits(
        &mut self,
        owner: Address,
        batch_id: u64,
        beneficiary: String,
        reason: String,
        ledger_sequence: u32,
    ) -> (r: Result<(), CarbonError>)
        requires
            old(self).wf(),
        ensures
            final(self).wf(),
            old(self)@.has_batch(batch_id) && old(self)@.batch(batch_id).owner@ == owner@
                && !old(self)@.batch(batch_id).retired ==> r is Ok && final(self)@.batch(batch_id).retired
                && final(self)@.batch(batch_id).owner == old(self)@.batch(batch_id).owner
                && final(self)@.certificates.contains_key(batch_id)
                && final(self)@.certificates[batch_id].tonnes == old(self)@.batch(batch_id).serial_end
                - old(self)@.batch(batch_id).serial_start + 1
                && final(self)@.certificates[batch_id].retired_ledger == ledger_sequence,
            old(self)@.retired_kept(final(self)@),
            match old(self)@.holder_check(owner@, batch_id) {
                Some(e) => r == Err::<(), CarbonError>(e) && final(self)@ == old(self)@,
                None => r is Ok && final(self)@ == old(self)@.retired(
                    batch_id,
                    beneficiary,
                    reason,
                    owner,
                    ledger_sequence,
                ),
            },
    {
        let i = self.check_holder(&owner, batch_id)?;
        let ghost before = self@;
        proof {
            lemma_retire_keeps_consistent(before, batch_id, beneficiary, reason, owner, ledger_sequence);
        }
        let mut batch = self.batches[i].clone();
        batch.retired = true;
        let tonnes = batch.serial_end - batch.serial_start + 1;
        self.batches.set(i, batch);
        let cert = RetirementCertificate {
            batch_id,
            beneficiary,
            reason,
            retired_by: owner,
            retired_ledger: ledger_sequence as u64,
            tonnes,
        };
        self.certificates.insert(batch_id, cert);
        assert(self@ == before.retired(batch_id, beneficiary, reason, owner, ledger_sequence));
        Ok(())
    }

    /// Whether a claimed serial range lies wholly below the next free
    /// serial number, that is, within what this contract has minted.
    pub fn verify_serial_range(&self, start: u64, end: u64) -> (r: Result<bool, CarbonError>)
        ensures
            r == self@.serial_range_result(start, end),
    {
        if start > end {
            return Err(CarbonError::InvalidSerialRange);
        }
        Ok(end < self.next_serial)
    }

    pub fn get_credit_batch(&self, batch_id: u64) -> (r: Result<CreditBatch, CarbonError>)
        requires
            self.wf(),
        ensures
            r == (if self@.has_batch(batch_id) {
                Ok::<CreditBatch, CarbonError>(self@.batch(batch_id))
            } else {
                Err(CarbonError::ProjectNotFound)
            }),
    {
        match self.batch_index(batch_id) {
            Some(i) => Ok(self.batches[i].clone()),
            None => Err(CarbonError::ProjectNotFound),
        }
    }

    pub fn get_retirement_certificate(&self, batch_id: u64) -> (r: Result<
        RetirementCertificate,
        CarbonError,
    >)
        ensures
            r == (if self@.certificates.contains_key(batch_id) {
                Ok::<RetirementCertificate, CarbonError>(self@.certificates[batch_id])
            } else {
                Err(CarbonError::AlreadyRetired)
            }),
    {
        match self.certificates.get(&batch_id) {
            Some(c) => Ok(c.clone()),
            None => Err(CarbonError::AlreadyRetired),
        }
    }

    /// The ids of the batches `owner` holds, in the order they came to them.
    pub fn get_batches_by_owner(&self, owner: &Address) -> (r: Vec<u64>)
        requires
            self.wf(),
        ensures
            r@ == self@.owner_batches[owner@],
    {
        self.owner_batches.ids(owner)
    }

    /// The first serial number the next batch will carry.
    pub fn next_free_serial(&self) -> (n: u64)
        ensures
            n == self@.next_serial,
    {
        self.next_serial
    }

    /// How many batches have been minted.
    pub fn batch_count(&self) -> (n: u64)
        ensures
            n == self@.batches.len(),
    {
        self.batches.len() as u64
    }

    /// Whether `a` holds the minting role.
    pub fn is_minter(&self, a: &Address) -> (b: bool)
        ensures
            b == (self@.minter_check(a@) is None),
    {
        self.require_minter(a).is_ok()
    }

    fn require_minter(&self, minter: &Address) -> (r: Result<(), CarbonError>)
        ensures
            match self@.minter_check(minter@) {
                Some(e) => r == Err::<(), CarbonError>(e),
                None => r is Ok,
            },
    {
        match &self.minter {
            Some(authorized) => {
                if authorized.same(minter) {
                    Ok(())
                } else {
                    Err(CarbonError::UnauthorizedVerifier)
                }
            },
            None => Err(CarbonError::UnauthorizedVerifier),
        }
    }
}


/// Distinct batches never share a serial number.
pub proof fn lemma_serial_ranges_disjoint(s: CreditModel, a: u64, b: u64)
    requires
        s.consistent(),
        s.has_batch(a),
        s.has_batch(b),
        a != b,
    ensures
        s.batch(a).serial_end < s.batch(b).serial_start || s.batch(b).serial_end < s.batch(
            a,
        ).serial_start,
{
    if a < b {
        assert(s.batches[a - 1].serial_end < s.batches[b - 1].serial_start);
    } else {
        assert(s.batches[b - 1].serial_end < s.batches[a - 1].serial_start);
    }
}

/// The serial range of every minted batch verifies as minted.
pub proof fn lemma_minted_range_verifies(s: CreditModel, id: u64)
    requires
        s.consistent(),
        s.has_batch(id),
    ensures
        s.serial_range_result(s.batch(id).serial_start, s.batch(id).serial_end) == Ok::<
            bool,
            CarbonError,
        >(true),
{
    assert(s.batches[id - 1].batch_id == id);
}

/// A minted batch covers exactly the tonnes asked for, starting at the
/// next free serial, and the next free serial moves past it.
pub proof fn lemma_mint_covers_tonnes(
    s: CreditModel,
    project_id: u64,
    owner: Address,
    vintage_year: u32,
    tonnes: u64,
)
    requires
        s.consistent(),
        tonnes > 0,
        s.mint_fits(tonnes),
    ensures
        ({
            let t = s.minted(project_id, owner, vintage_year, tonnes);
            let b = t.batch(s.next_batch_id() as u64);
            &&& t.has_batch(s.next_batch_id() as u64)
            &&& b.serial_start == s.next_serial
            &&& tonnes_of(b) == tonnes
            &&& b.serial_end < t.next_serial
            &&& !b.retired
        }),
{
}

/// A retired batch can be neither moved nor retired again, by anyone.
pub proof fn lemma_retired_batch_frozen(s: CreditModel, caller: Seq<char>, id: u64)
    requires
        s.has_batch(id),
        s.batch(id).retired,
    ensures
        s.holder_check(caller, id) is Some,
        s.batch(id).owner@ == caller ==> s.holder_check(caller, id) == Some(
            CarbonError::AlreadyRetired,
        ),
{
}


/// The batches listed for a party are exactly the batches it holds (retired
/// ones included), each listed once.
pub proof fn lemma_owner_index_exact(s: CreditModel, owner: Seq<char>, id: u64)
    requires
        s.consistent(),
    ensures
        s.owner_batches[owner].contains(id) <==> (s.has_batch(id) && s.batch(id).owner@ == owner),
        s.owner_batches[owner].no_duplicates(),
{
    if s.owner_batches[owner].contains(id) {
        let k = choose|k: int| 0 <= k < s.owner_batches[owner].len() && s.owner_batches[owner][k] == id;
        assert(s.has_batch(s.owner_batches[owner][k]));
    }
    if s.has_batch(id) && s.batch(id).owner@ == owner {
        assert(s.owner_batches[s.batches[id - 1].owner@].contains(id));
    }
}


/// The minter's request is refused exactly when the tonnage is zero or the
/// vintage year lies outside 2005..=2100; anyone else is refused as
/// unauthorized. There is no cap on the tonnage of a batch.
pub proof fn lemma_mint_acceptance(s: CreditModel, caller: Seq<char>, vintage_year: u32, tonnes: u64)
    ensures
        s.minter != Some(caller) ==> s.mint_check(caller, vintage_year, tonnes) == Some(
            CarbonError::UnauthorizedVerifier,
        ),
        s.minter == Some(caller) ==> (s.mint_check(caller, vintage_year, tonnes) is None <==> (tonnes
            > 0 && 2005 <= vintage_year <= 2100)),
        s.minter == Some(caller) && tonnes == 0 ==> s.mint_check(caller, vintage_year, tonnes) == Some(
            CarbonError::ZeroAmountNotAllowed,
        ),
        s.minter == Some(caller) && tonnes > 0 && !(2005 <= vintage_year <= 2100) ==> s.mint_check(
            caller,
            vintage_year,
            tonnes,
        ) == Some(CarbonError::InvalidVintageYear),
{
}

} // verus!
