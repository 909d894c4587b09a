use vstd::prelude::*;
use std::collections::HashMap;
use crate::address::Address;
use crate::error::CarbonError;
use crate::id_index::IdIndex;
use crate::keyed::KeyedStore;

verus! {

broadcast use vstd::std_specs::hash::group_hash_axioms;

/// Lowest methodology score with which a project can be verified.
pub const MIN_METHODOLOGY_SCORE: u32 = 70;

/// Highest methodology score a project can carry (scores run from 0 to 100).
pub const MAX_METHODOLOGY_SCORE: u32 = 100;

/// Lifecycle status of a registered carbon project.
#[derive(Clone, Copy, Debug, PartialEq, Eq, Structural)]
pub enum ProjectStatus {
    Pending,
    Verified,
    Suspended,
    Rejected,
}

/// A registered carbon project. Coordinates are fixed-point degrees
/// times 1_000_000.
#[derive(Debug)]
pub struct Project {
    pub id: u64,
    pub developer: Address,
    pub methodology: String,
    pub lat_micro: i64,
    pub lng_micro: i64,
    pub methodology_score: u32,
    pub status: ProjectStatus,
    pub last_monitoring_ledger: u64,
}

impl Clone for Project {
    fn clone(&self) -> (p: Self)
        ensures
            p == *self,
    {
        Project {
            id: self.id,
            developer: self.developer.clone(),
            methodology: self.methodology.clone(),
            lat_micro: self.lat_micro,
            lng_micro: self.lng_micro,
            methodology_score: self.methodology_score,
            status: self.status,
            last_monitoring_ledger: self.last_monitoring_ledger,
        }
    }
}

/// The model of the registry's ledger state.
pub struct RegistryModel {
    pub admin: Option<Seq<char>>,
    pub next_id: u64,
    pub verifiers: Map<Seq<char>, bool>,
    pub projects: Map<u64, Project>,
    pub developer_projects: Map<Seq<char>, Seq<u64>>,
}

impl RegistryModel {
    pub open spec fn is_verifier(self, a: Seq<char>) -> bool {
        self.verifiers.contains_key(a) && self.verifiers[a]
    }

    pub open spec fn admin_check(self, caller: Seq<char>) -> Option<CarbonError> {
        if self.admin == Some(caller) {
            None
        } else {
            Some(CarbonError::UnauthorizedVerifier)
        }
    }

    pub open spec fn verifier_check(self, caller: Seq<char>) -> Option<CarbonError> {
        if self.is_verifier(caller) {
            None
        } else {
            Some(CarbonError::UnauthorizedVerifier)
        }
    }

    /// The project a fresh registration files under the next id.
    pub open spec fn new_project(
        self,
        developer: Address,
        methodology: String,
        lat_micro: i64,
        lng_micro: i64,
        ledger_sequence: u32,
    ) -> Project {
        Project {
            id: self.next_id,
            developer,
            methodology,
            lat_micro,
            lng_micro,
            methodology_score: 0,
            status: ProjectStatus::Pending,
            last_monitoring_ledger: ledger_sequence as u64,
        }
    }

    pub open spec fn registered(
        self,
        developer: Address,
        methodology: String,
        lat_micro: i64,
        lng_micro: i64,
        ledger_sequence: u32,
    ) -> RegistryModel {
        RegistryModel {
            next_id: (self.next_id + 1) as u64,
            projects: self.projects.insert(
                self.next_id,
                self.new_project(developer, methodology, lat_micro, lng_micro, ledger_sequence),
            ),
            developer_projects: self.developer_projects.insert(
                developer@,
                self.developer_projects[developer@].push(self.next_id),
            ),
            ..self
        }
    }

    /// Why `caller` may not verify project `id` with `score`, if they may not.
    pub open spec fn verify_check(self, caller: Seq<char>, id: u64, score: u32) -> Option<CarbonError> {
        if self.verifier_check(caller) is Some {
            self.verifier_check(caller)
        } else if score < MIN_METHODOLOGY_SCORE || score > MAX_METHODOLOGY_SCORE {
            Some(CarbonError::ProjectNotVerified)
        } else if !self.projects.contains_key(id) {
            Some(CarbonError::ProjectNotFound)
        } else if self.projects[id].status != ProjectStatus::Pending && self.projects[id].status
            != ProjectStatus::Suspended {
            Some(CarbonError::ProjectSuspended)
        } else {
            None
        }
    }

    /// Why `caller` may not reject or suspend project `id`, if they may not.
    pub open spec fn sanction_check(self, caller: Seq<char>, id: u64) -> Option<CarbonError> {
        if self.verifier_check(caller) is Some {
            self.verifier_check(caller)
        } else if !self.projects.contains_key(id) {
            Some(CarbonError::ProjectNotFound)
        } else if self.projects[id].status == ProjectStatus::Rejected {
            Some(CarbonError::ProjectSuspended)
        } else {
            None
        }
    }

    /// The state with project `id` replaced by `p`.
    pub open spec fn with_project(self, id: u64, p: Project) -> RegistryModel {
        RegistryModel { projects: self.projects.insert(id, p), ..self }
    }

    /// What every reachable state satisfies: every stored project is filed
    /// under its own id and in its developer's list; scores lie in 0..=100,
    /// and a verified project's score is at least the minimum.
    pub open spec fn consistent(self) -> bool {
        &&& 1 <= self.next_id
        &&& forall|id: u64| #[trigger]
            self.projects.contains_key(id) ==> {
                &&& self.projects[id].id == id
                &&& self.projects[id].methodology_score <= MAX_METHODOLOGY_SCORE
                &&& self.projects[id].status == ProjectStatus::Verified
                    ==> self.projects[id].methodology_score >= MIN_METHODOLOGY_SCORE
                &&& self.developer_projects[self.projects[id].developer@].contains(id)
            }
    }

    /// Ids have not been handed out twice: every stored project lies below
    /// the next id, and each developer's list holds, in increasing order,
    /// only ids of that developer's projects. It holds from a fresh registry
    /// on, through every call, except `initialize` once projects were
    /// registered before it (`initialize` restarts ids at 1).
    pub open spec fn ids_fresh(self) -> bool {
        &&& forall|id: u64| #[trigger] self.projects.contains_key(id) ==> 1 <= id < self.next_id
        &&& forall|d: Seq<char>, k: int|
            0 <= k < self.developer_projects[d].len() ==> self.projects.contains_key(
                #[trigger] self.developer_projects[d][k],
            ) && self.projects[self.developer_projects[d][k]].developer@ == d
        &&& forall|d: Seq<char>, i: int, j: int|
            0 <= i < j < self.developer_projects[d].len() ==> #[trigger] self.developer_projects[d][i]
                < #[trigger] self.developer_projects[d][j]
    }

    /// Every rejected project is still there, and still rejected, in `next`.
    pub open spec fn rejected_kept(self, next: RegistryModel) -> bool {
        forall|id: u64| #[trigger]
            self.projects.contains_key(id) && self.projects[id].status == ProjectStatus::Rejected
                ==> next.projects.contains_key(id) && next.projects[id].status
                == ProjectStatus::Rejected
    }
}

/// The project registry: developers register projects, accredited
/// verifiers approve, suspend or reject them, and an admin manages the
/// verifiers.
pub struct CarbonRegistry {
    admin: Option<Address>,
    next_id: u64,
    verifiers: KeyedStore<Address, bool>,
    projects: HashMap<u64, Project>,
    developer_projects: IdIndex,
}

impl View for CarbonRegistry {
    type V = RegistryModel;

    closed spec fn view(&self) -> RegistryModel {
        RegistryModel {
            admin: match self.admin {
                Some(a) => Some(a@),
                None => None,
            },
            next_id: self.next_id,
            verifiers: self.verifiers.view(),
            projects: self.projects@,
            developer_projects: self.developer_projects.view(),
        }
    }
}

impl CarbonRegistry {
    pub closed spec fn wf(&self) -> bool {
        self.verifiers.wf() && self.developer_projects.wf() && self@.consistent()
    }

    /// Every state the registry can reach is consistent.
    pub proof fn lemma_consistent(&self)
        requires
            self.wf(),
        ensures
            self@.consistent(),
    {
    }

    /// A registry that has not been initialized.
    pub fn new() -> (r: CarbonRegistry)
        ensures
            r.wf(),
            r@.ids_fresh(),
            r@.admin is None,
            r@.next_id == 1,
            r@.verifiers == Map::<Seq<char>, bool>::empty(),
            r@.projects == Map::<u64, Project>::empty(),
            r@.developer_projects == Map::new(|o: Seq<char>| true, |o: Seq<char>| Seq::<u64>::empty()),
    {
        CarbonRegistry {
            admin: None,
            next_id: 1,
            verifiers: KeyedStore::new(),
            projects: HashMap::new(),
            developer_projects: IdIndex::new(),
        }
    }

    /// One-time setup: names the admin who manages verifiers. Refused once
    /// an admin is set, so the admin can never be silently reassigned.
    /// Restarts project ids at 1: a project registered before setup has
    /// its id handed out again, and the new project replaces it.
    pub fn initialize(&mut self, admin: Address) -> (r: Result<(), CarbonError>)
        requires
            old(self).wf(),
        ensures
            final(self).wf(),
            old(self)@.rejected_kept(final(self)@),
            match old(self)@.admin {
                Some(_) => r == Err::<(), CarbonError>(CarbonError::ProjectAlreadyExists)
                    && final(self)@ == old(self)@,
                None => r is Ok && final(self)@ == (RegistryModel {
                    admin: Some(admin@),
                    next_id: 1,
                    ..old(self)@
                }),
            },
            old(self)@.ids_fresh() && old(self)@.projects.dom().is_empty() ==> final(self)@.ids_fresh(),
    {
        if self.admin.is_some() {
            return Err(CarbonError::ProjectAlreadyExists);
        }
        self.admin = Some(admin);
        self.next_id = 1;
        Ok(())
    }

    /// Grants verifier rights; only the admin may.
    pub fn add_verifier(&mut self, admin: &Address, verifier: Address) -> (r: Result<(), CarbonError>)
        requires
            old(self).wf(),
        ensures
            final(self).wf(),
            old(self)@.ids_fresh() ==> final(self)@.ids_fresh(),
            old(self)@.rejected_kept(final(self)@),
            match old(self)@.admin_check(admin@) {
                Some(e) => r == Err::<(), CarbonError>(e) && final(self)@ == old(self)@,
                None => r is Ok && final(self)@ == (RegistryModel {
                    verifiers: old(self)@.verifiers.insert(verifier@, true),
                    ..old(self)@
                }),
            },
    {
        self.require_admin(admin)?;
        self.verifiers.insert(verifier, true);
        Ok(())
    }

    /// Revokes verifier rights; only the admin may.
    pub fn remove_verifier(&mut self, admin: &Address, verifier: Address) -> (r: Result<
        (),
        CarbonError,
    >)
        requires
            old(self).wf(),
        ensures
            final(self).wf(),
            old(self)@.ids_fresh() ==> final(self)@.ids_fresh(),
            old(self)@.rejected_kept(final(self)@),
            match old(self)@.admin_check(admin@) {
                Some(e) => r == Err::<(), CarbonError>(e) && final(self)@ == old(self)@,
                None => r is Ok && final(self)@ == (RegistryModel {
                    verifiers: old(self)@.verifiers.insert(verifier@, false),
                    ..old(self)@
                }),
            },
    {
        self.require_admin(admin)?;
        self.verifiers.insert(verifier, false);
        Ok(())
    }

    /// Hands the admin role to `new_admin`; only the admin may.
    pub fn transfer_admin(&mut self, admin: &Address, new_admin: Address) -> (r: Result<
        (),
        CarbonError,
    >)
        requires
            old(self).wf(),
        ensures
            final(self).wf(),
            old(self)@.ids_fresh() ==> final(self)@.ids_fresh(),
            old(self)@.rejected_kept(final(self)@),
            match old(self)@.admin_check(admin@) {
                Some(e) => r == Err::<(), CarbonError>(e) && final(self)@ == old(self)@,
                None => r is Ok && final(self)@ == (RegistryModel {
                    admin: Some(new_admin@),
                    ..old(self)@
                }),
            },
    {
        self.require_admin(admin)?;
        self.admin = Some(new_admin);
        Ok(())
    }

    pub fn get_admin(&self) -> (r: Result<Address, CarbonError>)
        ensures
            match self@.admin {
                Some(a) => r matches Ok(x) && x@ == a,
                None => r == Err::<Address, CarbonError>(CarbonError::UnauthorizedVerifier),
            },
    {
        match &self.admin {
            Some(a) => Ok(a.clone()),
            None => Err(CarbonError::UnauthorizedVerifier),
        }
    }

    pub fn is_verifier(&self, address: &Address) -> (b: bool)
        requires
            self.wf(),
        ensures
            b == self@.is_verifier(address@),
    {
        match self.verifiers.get(address) {
            Some(v) => *v,
            None => false,
        }
    }

    /// Files a new project, pending verification, under the next id and
    /// returns that id.
    pub fn register_project(
        &mut self,
        developer: Address,
        methodology: String,
        lat_micro: i64,
        lng_micro: i64,
        ledger_sequence: u32,
    ) -> (r: Result<u64, CarbonError>)
        requires
            old(self).wf(),
            old(self)@.next_id < u64::MAX,
        ensures
            final(self).wf(),
            !old(self)@.projects.contains_key(old(self)@.next_id) ==> old(self)@.rejected_kept(
                final(self)@,
            ),
            old(self)@.ids_fresh() ==> !old(self)@.projects.contains_key(old(self)@.next_id)
                && final(self)@.ids_fresh(),
            r == Ok::<u64, CarbonError>(old(self)@.next_id),
            final(self)@ == old(self)@.registered(
                developer,
                methodology,
                lat_micro,
                lng_micro,
                ledger_sequence,
            ),
    {
        let id = self.next_id;
        let ghost before = self@;
        proof {
            lemma_register_keeps_consistent(before, developer, methodology, lat_micro, lng_micro, ledger_sequence);
        }
        let project = Project {
            id,
            developer: developer.clone(),
            methodology,
            lat_micro,
            lng_micro,
            methodology_score: 0,
            status: ProjectStatus::Pending,
            last_monitoring_ledger: ledger_sequence as u64,
        };
        self.projects.insert(id, project);
        self.next_id = id + 1;
        self.developer_projects.add(&developer, id);
        assert(self@ == before.registered(developer, methodology, lat_micro, lng_micro, ledger_sequence));
        Ok(id)
    }

    /// Approves a pending or suspended project with a methodology score from
    /// the minimum up to 100; only a verifier may. A rejected or already verified
    /// project cannot be verified.
    pub fn verify_project(&mut self, verifier: &Address, project_id: u64, methodology_score: u32) -> (r:
        Result<(), CarbonError>)
        requires
            old(self).wf(),
        ensures
            final(self).wf(),
            old(self)@.is_verifier(verifier@) && 70 <= methodology_score <= 100
                && old(self)@.projects.contains_key(project_id) && (old(self)@.projects[project_id].status
                == ProjectStatus::Pending || old(self)@.projects[project_id].status
                == ProjectStatus::Suspended) ==> r is Ok && final(self)@.projects[project_id].status
                == ProjectStatus::Verified && final(self)@.projects[project_id].methodology_score
                == methodology_score,
            old(self)@.ids_fresh() ==> final(self)@.ids_fresh(),
            old(self)@.rejected_kept(final(self)@),
            match old(self)@.verify_check(verifier@, project_id, methodology_score) {
                Some(e) => r == Err::<(), CarbonError>(e) && final(self)@ == old(self)@,
                None => r is Ok && final(self)@ == old(self)@.with_project(
                    project_id,
                    Project {
                        status: ProjectStatus::Verified,
                        methodology_score,
                        ..old(self)@.projects[project_id]
                    },
                ),
            },
    {
        self.require_verifier(verifier)?;
        if methodology_score < MIN_METHODOLOGY_SCORE || methodology_score > MAX_METHODOLOGY_SCORE {
            return Err(CarbonError::ProjectNotVerified);
        }
        let mut project = self.get_project(project_id)?;
        if project.status != ProjectStatus::Pending && project.status != ProjectStatus::Suspended {
            return Err(CarbonError::ProjectSuspended);
        }
        project.status = ProjectStatus::Verified;
        project.methodology_score = methodology_score;
        proof {
            lemma_update_keeps_consistent(self@, project_id, project);
        }
        self.projects.insert(project_id, project);
        Ok(())
    }

    /// Permanently rejects a project; only a verifier may. Rejection is
    /// terminal: a rejected project cannot be rejected, suspended or
    /// verified again.
    pub fn reject_project(&mut self, verifier: &Address, project_id: u64) -> (r: Result<
        (),
        CarbonError,
    >)
        requires
            old(self).wf(),
        ensures
            final(self).wf(),
            old(self)@.is_verifier(verifier@) && old(self)@.projects.contains_key(project_id)
                && old(self)@.projects[project_id].status != ProjectStatus::Rejected ==> r is Ok
                && final(self)@.projects.contains_key(project_id)
                && final(self)@.projects[project_id].status == ProjectStatus::Rejected
                && final(self)@.projects[project_id].developer == old(self)@.projects[project_id].developer
                && final(self)@.projects[project_id].methodology_score == old(self)@.projects[project_id].methodology_score,
            old(self)@.ids_fresh() ==> final(self)@.ids_fresh(),
            old(self)@.rejected_kept(final(self)@),
            match old(self)@.sanction_check(verifier@, project_id) {
                Some(e) => r == Err::<(), CarbonError>(e) && final(self)@ == old(self)@,
                None => r is Ok && final(self)@ == old(self)@.with_project(
                    project_id,
                    Project { status: ProjectStatus::Rejected, ..old(self)@.projects[project_id] },
                ),
            },
    {
        self.sanction(verifier, project_id, ProjectStatus::Rejected)
    }

    /// Halts a project under investigation; only a verifier may, and not
    /// for a rejected project. A suspended project can be verified again.
    pub fn suspend_project(&mut self, verifier: &Address, project_id: u64) -> (r: Result<
        (),
        CarbonError,
    >)
        requires
            old(self).wf(),
        ensures
            final(self).wf(),
            old(self)@.is_verifier(verifier@) && old(self)@.projects.contains_key(project_id)
                && old(self)@.projects[project_id].status != ProjectStatus::Rejected ==> r is Ok
                && final(self)@.projects.contains_key(project_id)
                && final(self)@.projects[project_id].status == ProjectStatus::Suspended
                && final(self)@.projects[project_id].developer == old(self)@.projects[project_id].developer
                && final(self)@.projects[project_id].methodology_score == old(self)@.projects[project_id].methodology_score,
            old(self)@.ids_fresh() ==> final(self)@.ids_fresh(),
            old(self)@.rejected_kept(final(self)@),
            match old(self)@.sanction_check(verifier@, project_id) {
                Some(e) => r == Err::<(), CarbonError>(e) && final(self)@ == old(self)@,
                None => r is Ok && final(self)@ == old(self)@.with_project(
                    project_id,
                    Project { status: ProjectStatus::Suspended, ..old(self)@.projects[project_id] },
                ),
            },
    {
        self.sanction(verifier, project_id, ProjectStatus::Suspended)
    }

    /// Sets the status of a project that is not rejected; shared by
    /// rejection and suspension.
    fn sanction(&mut self, verifier: &Address, project_id: u64, status: ProjectStatus) -> (r: Result<
        (),
        CarbonError,
    >)
        requires
            old(self).wf(),
            status == ProjectStatus::Rejected || status == ProjectStatus::Suspended,
        ensures
            final(self).wf(),
            old(self)@.is_verifier(verifier@) && old(self)@.projects.contains_key(project_id)
                && old(self)@.projects[project_id].status != ProjectStatus::Rejected ==> r is Ok
                && final(self)@.projects.contains_key(project_id)
                && final(self)@.projects[project_id].status == status,
            old(self)@.ids_fresh() ==> final(self)@.ids_fresh(),
            old(self)@.rejected_kept(final(self)@),
            match old(self)@.sanction_check(verifier@, project_id) {
                Some(e) => r == Err::<(), CarbonError>(e) && final(self)@ == old(self)@,
                None => r is Ok && final(self)@ == old(self)@.with_project(
                    project_id,
                    Project { status, ..old(self)@.projects[project_id] },
                ),
            },
    {
        self.require_verifier(verifier)?;
        let mut project = self.get_project(project_id)?;
        if project.status == ProjectStatus::Rejected {
            return Err(CarbonError::ProjectSuspended);
        }
        project.status = status;
        proof {
            lemma_update_keeps_consistent(self@, project_id, project);
        }
        self.projects.insert(project_id, project);
        Ok(())
    }

    /// Records the ledger of fresh monitoring data for a project. No role
    /// is checked beyond the caller's own authorization.
    pub fn update_monitoring(&mut self, oracle: &Address, project_id: u64, ledger_sequence: u32) -> (r:
        Result<(), CarbonError>)
        requires
            old(self).wf(),
        ensures
            final(self).wf(),
            old(self)@.ids_fresh() ==> final(self)@.ids_fresh(),
            old(self)@.rejected_kept(final(self)@),
            if old(self)@.projects.contains_key(project_id) {
                r is Ok && final(self)@ == old(self)@.with_project(
                    project_id,
                    Project {
                        last_monitoring_ledger: ledger_sequence as u64,
                        ..old(self)@.projects[project_id]
                    },
                )
            } else {
                r == Err::<(), CarbonError>(CarbonError::ProjectNotFound) && final(self)@ == old(
                    self,
                )@
            },
    {
        let _ = oracle;
        let mut project = self.get_project(project_id)?;
        project.last_monitoring_ledger = ledger_sequence as u64;
        proof {
            lemma_update_keeps_consistent(self@, project_id, project);
        }
        self.projects.insert(project_id, project);
        Ok(())
    }

    pub fn get_project(&self, project_id: u64) -> (r: Result<Project, CarbonError>)
        ensures
            r == (if self@.projects.contains_key(project_id) {
                Ok::<Project, CarbonError>(self@.projects[project_id])
            } else {
                Err(CarbonError::ProjectNotFound)
            }),
    {
        match self.projects.get(&project_id) {
            Some(p) => Ok(p.clone()),
            None => Err(CarbonError::ProjectNotFound),
        }
    }

    /// The ids of the projects `developer` registered, in submission order.
    pub fn get_projects_by_developer(&self, developer: &Address) -> (r: Vec<u64>)
        requires
            self.wf(),
        ensures
            r@ == self@.developer_projects[developer@],
    {
        self.developer_projects.ids(developer)
    }

    /// The id the next registered project will receive.
    pub fn next_project_id(&self) -> (n: u64)
        ensures
            n == self@.next_id,
    {
        self.next_id
    }

    fn require_verifier(&self, verifier: &Address) -> (r: Result<(), CarbonError>)
        requires
            self.wf(),
        ensures
            match self@.verifier_check(verifier@) {
                Some(e) => r == Err::<(), CarbonError>(e),
                None => r is Ok,
            },
    {
        if !self.is_verifier(verifier) {
            return Err(CarbonError::UnauthorizedVerifier);
        }
        Ok(())
    }

    fn require_admin(&self, caller: &Address) -> (r: Result<(), CarbonError>)
        ensures
            match self@.admin_check(caller@) {
                Some(e) => r == Err::<(), CarbonError>(e),
                None => r is Ok,
            },
    {
        match &self.admin {
            Some(admin) => {
                if admin.same(caller) {
                    Ok(())
                } else {
                    Err(CarbonError::UnauthorizedVerifier)
                }
            },
            None => Err(CarbonError::UnauthorizedVerifier),
        }
    }
}


/// A rejected project can never be verified, rejected or suspended again.
pub proof fn lemma_rejected_project_final(s: RegistryModel, caller: Seq<char>, id: u64, score: u32)
    requires
        s.projects.contains_key(id),
        s.projects[id].status == ProjectStatus::Rejected,
    ensures
        s.verify_check(caller, id, score) is Some,
        s.sanction_check(caller, id) is Some,
{
}

/// Only a verifier can change a project's status.
pub proof fn lemma_status_changes_need_verifier(s: RegistryModel, caller: Seq<char>, id: u64, score: u32)
    requires
        !s.is_verifier(caller),
    ensures
        s.verify_check(caller, id, score) == Some(CarbonError::UnauthorizedVerifier),
        s.sanction_check(caller, id) == Some(CarbonError::UnauthorizedVerifier),
{
}


/// Registering keeps the registry consistent. Rejected projects stay
/// rejected unless the next id is already taken; with fresh ids it never is,
/// and ids stay fresh.
pub proof fn lemma_register_keeps_consistent(
    s: RegistryModel,
    developer: Address,
    methodology: String,
    lat_micro: i64,
    lng_micro: i64,
    ledger_sequence: u32,
)
    requires
        s.consistent(),
        s.next_id < u64::MAX,
    ensures
        s.registered(developer, methodology, lat_micro, lng_micro, ledger_sequence).consistent(),
        !s.projects.contains_key(s.next_id) ==> s.rejected_kept(
            s.registered(developer, methodology, lat_micro, lng_micro, ledger_sequence),
        ),
        s.ids_fresh() ==> !s.projects.contains_key(s.next_id) && s.registered(
            developer,
            methodology,
            lat_micro,
            lng_micro,
            ledger_sequence,
        ).ids_fresh(),
{
    let t = s.registered(developer, methodology, lat_micro, lng_micro, ledger_sequence);
    let n = s.next_id;
    let dv = developer@;
    assert forall|id: u64| #[trigger] t.projects.contains_key(id) implies {
        &&& t.projects[id].id == id
        &&& t.projects[id].methodology_score <= MAX_METHODOLOGY_SCORE
        &&& t.projects[id].status == ProjectStatus::Verified
            ==> t.projects[id].methodology_score >= MIN_METHODOLOGY_SCORE
        &&& t.developer_projects[t.projects[id].developer@].contains(id)
    } by {
        if id == n {
            let l = s.developer_projects[dv];
            assert(t.developer_projects[dv][l.len() as int] == n);
        } else {
            let d = s.projects[id].developer@;
            assert(s.developer_projects[d].contains(id));
            let k = choose|k: int| 0 <= k < s.developer_projects[d].len() && s.developer_projects[d][k] == id;
            assert(t.developer_projects[d][k] == id);
        }
    }
    if s.ids_fresh() {
        assert(!s.projects.contains_key(n));
        assert forall|id: u64| #[trigger] t.projects.contains_key(id) implies 1 <= id < t.next_id by {
        }
        assert forall|d: Seq<char>, k: int| 0 <= k < t.developer_projects[d].len() implies t.projects.contains_key(
            #[trigger] t.developer_projects[d][k],
        ) && t.projects[t.developer_projects[d][k]].developer@ == d by {
            if d == dv && k == s.developer_projects[d].len() {
            } else {
                assert(t.developer_projects[d][k] == s.developer_projects[d][k]);
                assert(s.projects.contains_key(s.developer_projects[d][k]));
            }
        }
        assert forall|d: Seq<char>, i: int, j: int| 0 <= i < j < t.developer_projects[d].len() implies #[trigger] t.developer_projects[d][i]
            < #[trigger] t.developer_projects[d][j] by {
            assert(t.developer_projects[d][i] == s.developer_projects[d][i]);
            assert(s.projects.contains_key(s.developer_projects[d][i]));
            if d == dv && j == s.developer_projects[d].len() {
            } else {
                assert(t.developer_projects[d][j] == s.developer_projects[d][j]);
            }
        }
    }
}

/// Replacing a stored project by one with the same id and developer, a score
/// in range, and a verified status only with an adequate score, keeps the
/// registry consistent, its ids fresh, and rejected projects rejected.
pub proof fn lemma_update_keeps_consistent(s: RegistryModel, id: u64, p: Project)
    requires
        s.consistent(),
        s.projects.contains_key(id),
        s.projects[id].status == ProjectStatus::Rejected ==> p.status == ProjectStatus::Rejected,
        p.id == id,
        p.developer == s.projects[id].developer,
        p.methodology_score <= MAX_METHODOLOGY_SCORE,
        p.status == ProjectStatus::Verified ==> p.methodology_score >= MIN_METHODOLOGY_SCORE,
    ensures
        s.with_project(id, p).consistent(),
        s.rejected_kept(s.with_project(id, p)),
        s.ids_fresh() ==> s.with_project(id, p).ids_fresh(),
{
    let t = s.with_project(id, p);
    if s.ids_fresh() {
        assert forall|d: Seq<char>, k: int| 0 <= k < t.developer_projects[d].len() implies t.projects.contains_key(
            #[trigger] t.developer_projects[d][k],
        ) && t.projects[t.developer_projects[d][k]].developer@ == d by {
            assert(s.projects.contains_key(s.developer_projects[d][k]));
        }
    }
}

/// With fresh ids, registering never replaces a project, so a rejected
/// project stays rejected.
pub proof fn lemma_fresh_register_keeps_rejected(
    s: RegistryModel,
    developer: Address,
    methodology: String,
    lat_micro: i64,
    lng_micro: i64,
    ledger_sequence: u32,
)
    requires
        s.consistent(),
        s.ids_fresh(),
        s.next_id < u64::MAX,
    ensures
        s.rejected_kept(s.registered(developer, methodology, lat_micro, lng_micro, ledger_sequence)),
{
    lemma_register_keeps_consistent(s, developer, methodology, lat_micro, lng_micro, ledger_sequence);
}

/// With fresh ids, a developer's list holds exactly the ids of the projects
/// that developer registered, in increasing id order, each once.
pub proof fn lemma_developer_index_exact(s: RegistryModel, developer: Seq<char>, id: u64)
    requires
        s.consistent(),
        s.ids_fresh(),
    ensures
        s.developer_projects[developer].contains(id) <==> (s.projects.contains_key(id)
            && s.projects[id].developer@ == developer),
        forall|i: int, j: int|
            0 <= i < j < s.developer_projects[developer].len() ==> s.developer_projects[developer][i]
                < s.developer_projects[developer][j],
{
    if s.developer_projects[developer].contains(id) {
        let k = choose|k: int|
            0 <= k < s.developer_projects[developer].len() && s.developer_projects[developer][k] == id;
        assert(s.projects.contains_key(s.developer_projects[developer][k]));
    }
    assert forall|i: int, j: int| 0 <= i < j < s.developer_projects[developer].len() implies s.developer_projects[developer][i]
        < s.developer_projects[developer][j] by {
        assert(s.developer_projects[developer][i] < s.developer_projects[developer][j]);
    }
}

/// Every stored score lies in 0..=100, and a verified project's score is at
/// least the minimum.
pub proof fn lemma_scores_in_range(s: RegistryModel, id: u64)
    requires
        s.consistent(),
        s.projects.contains_key(id),
    ensures
        s.projects[id].methodology_score <= MAX_METHODOLOGY_SCORE,
        s.projects[id].status == ProjectStatus::Verified ==> s.projects[id].methodology_score
            >= MIN_METHODOLOGY_SCORE,
{
}


/// A verifier may reject or suspend any stored project except a rejected
/// one: the refusal comes exactly for a rejected project.
pub proof fn lemma_sanction_refused_only_when_rejected(s: RegistryModel, caller: Seq<char>, id: u64)
    requires
        s.is_verifier(caller),
        s.projects.contains_key(id),
    ensures
        s.sanction_check(caller, id) is None <==> s.projects[id].status != ProjectStatus::Rejected,
        s.projects[id].status == ProjectStatus::Rejected ==> s.sanction_check(caller, id) == Some(
            CarbonError::ProjectSuspended,
        ),
{
}

/// A project under suspension can still be rejected, and a rejected one can
/// no longer be suspended.
pub proof fn lemma_suspend_then_reject(s: RegistryModel, caller: Seq<char>, id: u64)
    requires
        s.is_verifier(caller),
        s.projects.contains_key(id),
        s.projects[id].status != ProjectStatus::Rejected,
    ensures
        ({
            let suspended = s.with_project(id, Project { status: ProjectStatus::Suspended, ..s.projects[id] });
            let rejected = suspended.with_project(
                id,
                Project { status: ProjectStatus::Rejected, ..suspended.projects[id] },
            );
            &&& s.sanction_check(caller, id) is None
            &&& suspended.sanction_check(caller, id) is None
            &&& rejected.projects[id].status == ProjectStatus::Rejected
            &&& rejected.sanction_check(caller, id) == Some(CarbonError::ProjectSuspended)
        }),
{
}

} // verus!
