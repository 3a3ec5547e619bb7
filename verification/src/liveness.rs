//! Liveness oracle: per-principal verification models, append-only score
//! history, and the cached last-known liveness score.
//!
//! Scores are oracle-attested values in [0, 10000]; a principal with no
//! submitted verification is treated as maximally alive (score 10000).
//! The advisory status band computed on submission is emitted as an event
//! only: this store never writes to the vault ledger.

use vstd::prelude::*;

use crate::vault::Address;
use crate::vault::VaultStatus;

verus! {

/// Maximal (and default) liveness score.
pub const MAX_SCORE: u32 = 10_000;

/// Threshold below which the advisory band is `Alert`.
pub const DEFAULT_ALERT_THRESHOLD: u32 = 7_000;

/// Threshold below which the advisory band is `GracePeriod`.
pub const DEFAULT_CRITICAL_THRESHOLD: u32 = 3_000;

/// Default grace period, in days.
pub const DEFAULT_GRACE_PERIOD_DAYS: u32 = 30;

/// Required length of a model's weight vector.
pub const EXPECTED_WEIGHTS_COUNT: usize = 10;

/// Errors surfaced by the liveness oracle.
#[derive(Clone, Copy, PartialEq, Eq, Structural, Debug)]
pub enum ProofOfLifeError {
    NotAuthorized,
    UserNotRegistered,
    InvalidScore,
    InvalidWeights,
    OracleNotRegistered,
    AlreadyInitialized,
    NotInitialized,
    VaultNotLinked,
}

/// Provenance of a submitted verification score.
#[derive(Clone, Copy, PartialEq, Eq, Structural, Debug)]
pub enum VerificationSource {
    FacialRecognition,
    Fingerprint,
    BehaviorPattern,
    PerceptronAggregate,
    ManualCheckin,
    WitnessAttestation,
}

/// Per-principal scoring model: a 10-element fixed-point weight vector,
/// a bias, and the thresholds driving the advisory bands.
#[derive(Clone, Debug)]
pub struct LifeModel {
    pub weights: Vec<i128>,
    pub bias: i128,
    pub version: u32,
    pub last_updated: u64,
    pub calibration_complete: bool,
    pub total_verifications: u64,
    pub avg_confidence: u32,
    pub alert_threshold: u32,
    pub critical_threshold: u32,
    pub grace_period_days: u32,
}

/// Mathematical model of a `LifeModel`.
#[verifier::ext_equal]
pub struct LifeModelView {
    pub weights: Seq<i128>,
    pub bias: i128,
    pub version: u32,
    pub last_updated: u64,
    pub calibration_complete: bool,
    pub total_verifications: u64,
    pub avg_confidence: u32,
    pub alert_threshold: u32,
    pub critical_threshold: u32,
    pub grace_period_days: u32,
}

impl View for LifeModel {
    type V = LifeModelView;

    open spec fn view(&self) -> LifeModelView {
        LifeModelView {
            weights: self.weights@,
            bias: self.bias,
            version: self.version,
            last_updated: self.last_updated,
            calibration_complete: self.calibration_complete,
            total_verifications: self.total_verifications,
            avg_confidence: self.avg_confidence,
            alert_threshold: self.alert_threshold,
            critical_threshold: self.critical_threshold,
            grace_period_days: self.grace_period_days,
        }
    }
}

/// One oracle-attested verification, appended to a principal's history.
#[derive(Clone, Copy, Debug)]
pub struct VerificationRecord {
    pub timestamp: u64,
    pub liveness_score: u32,
    pub source: VerificationSource,
    pub oracle_signature: [u8; 64],
}

/// Association of a principal with a vault, used only for the advisory
/// event on submission.
#[derive(Clone, Copy, PartialEq, Eq, Structural, Debug)]
pub struct VaultLink {
    pub user: Address,
    pub vault_contract: Address,
    pub vault_id: u64,
}

/// Append-only event records emitted by mutating operations.
#[derive(Clone, Copy, PartialEq, Eq, Structural, Debug)]
pub enum PolEvent {
    ModelRegistered { user: Address },
    VerificationSubmitted { user: Address, score: u32 },
    Checkin { user: Address },
    TransitionAdvisory { user: Address, vault_id: u64, status: VaultStatus },
}

/// State held for one registered principal.
pub struct UserEntry {
    pub user: Address,
    pub model: LifeModel,
    pub records: Vec<VerificationRecord>,
    pub last_score: Option<u32>,
}

/// Mathematical model of one principal's state.
#[verifier::ext_equal]
pub struct UserEntryView {
    pub user: Address,
    pub model: LifeModelView,
    pub records: Seq<VerificationRecord>,
    pub last_score: Option<u32>,
}

impl View for UserEntry {
    type V = UserEntryView;

    open spec fn view(&self) -> UserEntryView {
        UserEntryView {
            user: self.user,
            model: self.model@,
            records: self.records@,
            last_score: self.last_score,
        }
    }
}

/// Mathematical model of the oracle store.
#[verifier::ext_equal]
pub struct LivenessOracleView {
    pub admin: Option<Address>,
    pub oracle: Option<Address>,
    pub initialized: bool,
    pub users: Seq<UserEntryView>,
    pub links: Seq<VaultLink>,
    pub events: Seq<PolEvent>,
}

/// The liveness oracle: one durable store owning models, histories, and
/// cached scores.
pub struct ProofOfLifeContract {
    pub admin: Option<Address>,
    pub oracle: Option<Address>,
    pub initialized: bool,
    pub users: Vec<UserEntry>,
    pub links: Vec<VaultLink>,
    pub events: Vec<PolEvent>,
}

impl View for ProofOfLifeContract {
    type V = LivenessOracleView;

    open spec fn view(&self) -> LivenessOracleView {
        LivenessOracleView {
            admin: self.admin,
            oracle: self.oracle,
            initialized: self.initialized,
            users: Seq::new(self.users@.len(), |i: int| self.users@[i]@),
            links: self.links@,
            events: self.events@,
        }
    }
}

/// Advisory status band for a score against a model's thresholds:
/// `Active` at or above the alert threshold, `Alert` between the two,
/// `GracePeriod` below the critical threshold.
pub open spec fn spec_advisory_status(
    score: u32,
    alert_threshold: u32,
    critical_threshold: u32,
) -> VaultStatus {
    if score < critical_threshold {
        VaultStatus::GracePeriod
    } else if score < alert_threshold {
        VaultStatus::Alert
    } else {
        VaultStatus::Active
    }
}

/// Pure, side-effect-free band computation, exposed for the external
/// driver that acts on advisory events.
pub fn advisory_status(score: u32, alert_threshold: u32, critical_threshold: u32) -> (r:
    VaultStatus)
    ensures
        r == spec_advisory_status(score, alert_threshold, critical_threshold),
{
    if score < critical_threshold {
        VaultStatus::GracePeriod
    } else if score < alert_threshold {
        VaultStatus::Alert
    } else {
        VaultStatus::Active
    }
}

impl LivenessOracleView {
    pub open spec fn has_model(self, user: Address) -> bool {
        exists|i: int| 0 <= i < self.users.len() && (#[trigger] self.users[i]).user == user
    }

    pub open spec fn user_index(self, user: Address) -> int {
        choose|i: int| 0 <= i < self.users.len() && (#[trigger] self.users[i]).user == user
    }

    pub open spec fn model_of(self, user: Address) -> LifeModelView {
        self.users[self.user_index(user)].model
    }

    pub open spec fn records_of(self, user: Address) -> Seq<VerificationRecord> {
        self.users[self.user_index(user)].records
    }

    /// The cached last score, defaulting to `MAX_SCORE` when no
    /// verification was ever submitted.
    pub open spec fn liveness_score_of(self, user: Address) -> u32 {
        match self.users[self.user_index(user)].last_score {
            Some(s) => s,
            None => MAX_SCORE,
        }
    }

    pub open spec fn has_link(self, user: Address) -> bool {
        exists|i: int| 0 <= i < self.links.len() && (#[trigger] self.links[i]).user == user
    }

    pub open spec fn link_index(self, user: Address) -> int {
        choose|i: int| 0 <= i < self.links.len() && (#[trigger] self.links[i]).user == user
    }

    pub open spec fn link_of(self, user: Address) -> VaultLink {
        self.links[self.link_index(user)]
    }

    /// Well-formedness: one entry per principal, one link per principal,
    /// every stored weight vector of length 10, and admin and oracle
    /// recorded exactly when the store is initialized.
    pub open spec fn wf(self) -> bool {
        &&& forall|i: int, j: int|
            0 <= i < j < self.users.len() ==> (#[trigger] self.users[i]).user != (
            #[trigger] self.users[j]).user
        &&& forall|i: int, j: int|
            0 <= i < j < self.links.len() ==> (#[trigger] self.links[i]).user != (
            #[trigger] self.links[j]).user
        &&& forall|i: int|
            0 <= i < self.users.len() ==> (#[trigger] self.users[i]).model.weights.len() == 10
        &&& self.initialized <==> self.admin is Some
        &&& self.admin is Some <==> self.oracle is Some
    }

    /// Under `wf`, a slot holding `user` is the unique entry for it.
    pub proof fn lemma_user_index_is(self, user: Address, j: int)
        requires
            self.wf(),
            0 <= j < self.users.len(),
            self.users[j].user == user,
        ensures
            self.has_model(user),
            self.user_index(user) == j,
    {
        assert(self.has_model(user));
        let c = self.user_index(user);
        assert(self.users[c].user == user);
        if c < j {
            assert(self.users[c].user != self.users[j].user);
        } else if j < c {
            assert(self.users[j].user != self.users[c].user);
        }
    }

    /// Under `wf`, a slot holding a link for `user` is the unique one.
    pub proof fn lemma_link_index_is(self, user: Address, j: int)
        requires
            self.wf(),
            0 <= j < self.links.len(),
            self.links[j].user == user,
        ensures
            self.has_link(user),
            self.link_index(user) == j,
    {
        assert(self.has_link(user));
        let c = self.link_index(user);
        assert(self.links[c].user == user);
        if c < j {
            assert(self.links[c].user != self.links[j].user);
        } else if j < c {
            assert(self.links[j].user != self.links[c].user);
        }
    }
}

/// One-time setup recording the administrator and oracle identities.
pub open spec fn spec_initialize(pre: LivenessOracleView, admin: Address, oracle: Address) -> (
    LivenessOracleView,
    Result<(), ProofOfLifeError>,
) {
    if pre.initialized {
        (pre, Err(ProofOfLifeError::AlreadyInitialized))
    } else {
        (
            LivenessOracleView { admin: Some(admin), oracle: Some(oracle), initialized: true, ..pre },
            Ok(()),
        )
    }
}

/// The model created for a fresh registration: version 1, default
/// thresholds, empty statistics.
pub open spec fn initial_model(weights: Seq<i128>, bias: i128, now: u64) -> LifeModelView {
    LifeModelView {
        weights,
        bias,
        version: 1,
        last_updated: now,
        calibration_complete: false,
        total_verifications: 0,
        avg_confidence: 0,
        alert_threshold: DEFAULT_ALERT_THRESHOLD,
        critical_threshold: DEFAULT_CRITICAL_THRESHOLD,
        grace_period_days: DEFAULT_GRACE_PERIOD_DAYS,
    }
}

/// Registration of a principal's model: requires a 10-element weight
/// vector; overwrites any existing model while keeping the principal's
/// history and cached score.
pub open spec fn spec_register_model(
    pre: LivenessOracleView,
    user: Address,
    weights: Seq<i128>,
    bias: i128,
    now: u64,
) -> (LivenessOracleView, Result<(), ProofOfLifeError>) {
    if weights.len() != 10 {
        (pre, Err(ProofOfLifeError::InvalidWeights))
    } else {
        let model = initial_model(weights, bias, now);
        let users = if pre.has_model(user) {
            let i = pre.user_index(user);
            pre.users.update(i, UserEntryView { model, ..pre.users[i] })
        } else {
            pre.users.push(
                UserEntryView { user, model, records: Seq::empty(), last_score: None },
            )
        };
        (
            LivenessOracleView {
                users,
                events: pre.events.push(PolEvent::ModelRegistered { user }),
                ..pre
            },
            Ok(()),
        )
    }
}

/// Whether a submission passes every check: oracle as caller, score in
/// range, registered principal.
pub open spec fn submission_allowed(
    pre: LivenessOracleView,
    caller: Address,
    user: Address,
    score: u32,
) -> bool {
    &&& pre.oracle is Some
    &&& Some(caller) == pre.oracle
    &&& score <= MAX_SCORE
    &&& pre.has_model(user)
}

/// Oracle-attested score submission: appends a record, caches the score,
/// counts the verification, and, when a vault link exists, emits the
/// advisory band for the external driver.
pub open spec fn spec_submit_verification(
    pre: LivenessOracleView,
    caller: Address,
    user: Address,
    score: u32,
    source: VerificationSource,
    oracle_sig: [u8; 64],
    now: u64,
) -> (LivenessOracleView, Result<(), ProofOfLifeError>) {
    if pre.oracle is None {
        (pre, Err(ProofOfLifeError::NotInitialized))
    } else if Some(caller) != pre.oracle {
        (pre, Err(ProofOfLifeError::NotAuthorized))
    } else if score > MAX_SCORE {
        (pre, Err(ProofOfLifeError::InvalidScore))
    } else if !pre.has_model(user) {
        (pre, Err(ProofOfLifeError::UserNotRegistered))
    } else {
        let i = pre.user_index(user);
        let entry = pre.users[i];
        let record = VerificationRecord {
            timestamp: now,
            liveness_score: score,
            source,
            oracle_signature: oracle_sig,
        };
        let updated = UserEntryView {
            model: LifeModelView {
                total_verifications: (entry.model.total_verifications + 1) as u64,
                ..entry.model
            },
            records: entry.records.push(record),
            last_score: Some(score),
            ..entry
        };
        let events = pre.events.push(PolEvent::VerificationSubmitted { user, score });
        let events = if pre.has_link(user) {
            events.push(
                PolEvent::TransitionAdvisory {
                    user,
                    vault_id: pre.link_of(user).vault_id,
                    status: spec_advisory_status(
                        score,
                        entry.model.alert_threshold,
                        entry.model.critical_threshold,
                    ),
                },
            )
        } else {
            events
        };
        (
            LivenessOracleView { users: pre.users.update(i, updated), events, ..pre },
            Ok(()),
        )
    }
}

/// Weight update after re-training: requires a 10-element vector and an
/// existing model; increments the version.
pub open spec fn spec_update_model(
    pre: LivenessOracleView,
    user: Address,
    weights: Seq<i128>,
    bias: i128,
    now: u64,
) -> (LivenessOracleView, Result<(), ProofOfLifeError>) {
    if weights.len() != 10 {
        (pre, Err(ProofOfLifeError::InvalidWeights))
    } else if !pre.has_model(user) {
        (pre, Err(ProofOfLifeError::UserNotRegistered))
    } else {
        let i = pre.user_index(user);
        let entry = pre.users[i];
        let updated = UserEntryView {
            model: LifeModelView {
                weights,
                bias,
                version: (entry.model.version + 1) as u32,
                last_updated: now,
                ..entry.model
            },
            ..entry
        };
        (
            LivenessOracleView { users: pre.users.update(i, updated), ..pre },
            Ok(()),
        )
    }
}

/// Manual "I am alive" override: resets the cached score to the maximum
/// unconditionally for a registered principal.
pub open spec fn spec_emergency_checkin(pre: LivenessOracleView, user: Address) -> (
    LivenessOracleView,
    Result<(), ProofOfLifeError>,
) {
    if !pre.has_model(user) {
        (pre, Err(ProofOfLifeError::UserNotRegistered))
    } else {
        let i = pre.user_index(user);
        let updated = UserEntryView { last_score: Some(MAX_SCORE), ..pre.users[i] };
        (
            LivenessOracleView {
                users: pre.users.update(i, updated),
                events: pre.events.push(PolEvent::Checkin { user }),
                ..pre
            },
            Ok(()),
        )
    }
}

/// Records the vault association used for advisory events; overwrites any
/// prior link and does not require a registered model.
pub open spec fn spec_link_vault(
    pre: LivenessOracleView,
    user: Address,
    vault_contract: Address,
    vault_id: u64,
) -> (LivenessOracleView, Result<(), ProofOfLifeError>) {
    let link = VaultLink { user, vault_contract, vault_id };
    let links = if pre.has_link(user) {
        pre.links.update(pre.link_index(user), link)
    } else {
        pre.links.push(link)
    };
    (LivenessOracleView { links, ..pre }, Ok(()))
}

impl ProofOfLifeContract {
    /// A freshly deployed, uninitialized oracle store.
    pub fn new() -> (c: ProofOfLifeContract)
        ensures
            c@.wf(),
            !c@.initialized,
            c@.admin is None,
            c@.oracle is None,
            c@.users =~= Seq::<UserEntryView>::empty(),
            c@.links =~= Seq::<VaultLink>::empty(),
            c@.events =~= Seq::<PolEvent>::empty(),
    {
        ProofOfLifeContract {
            admin: None,
            oracle: None,
            initialized: false,
            users: Vec::new(),
            links: Vec::new(),
            events: Vec::new(),
        }
    }

    /// Initialize the store with admin and oracle addresses.
    pub fn initialize(&mut self, admin: Address, oracle: Address) -> (r: Result<
        (),
        ProofOfLifeError,
    >)
        ensures
            (final(self)@, r) == spec_initialize(old(self)@, admin, oracle),
            old(self)@.wf() ==> final(self)@.wf(),
    {
        if self.initialized {
            return Err(ProofOfLifeError::AlreadyInitialized);
        }
        self.admin = Some(admin);
        self.oracle = Some(oracle);
        self.initialized = true;
        proof {
            assert(self@ =~= spec_initialize(old(self)@, admin, oracle).0);
        }
        Ok(())
    }

    /// Find the slot of `user`, if registered.
    fn find_user(&self, user: Address) -> (r: Option<usize>)
        requires
            self@.wf(),
        ensures
            match r {
                Some(j) => {
                    &&& j < self.users@.len()
                    &&& self@.has_model(user)
                    &&& self@.user_index(user) == j
                },
                None => !self@.has_model(user),
            },
    {
        let m = self.users.len();
        let mut j: usize = 0;
        while j < m
            invariant
                j <= m,
                m == self.users@.len(),
                self@.wf(),
                forall|t: int| 0 <= t < j ==> (#[trigger] self.users@[t])@.user != user,
            decreases m - j,
        {
            if self.users[j].user == user {
                proof {
                    assert(self@.users[j as int] == self.users@[j as int]@);
                    self@.lemma_user_index_is(user, j as int);
                }
                return Some(j);
            }
            j = j + 1;
        }
        proof {
            assert forall|i: int|
                0 <= i < self@.users.len() implies (#[trigger] self@.users[i]).user != user by {
                assert(self.users@[i]@.user != user);
            }
        }
        None
    }

    /// Find the slot of `user`'s vault link, if any.
    fn find_link(&self, user: Address) -> (r: Option<usize>)
        requires
            self@.wf(),
        ensures
            match r {
                Some(j) => {
                    &&& j < self.links@.len()
                    &&& self@.has_link(user)
                    &&& self@.link_index(user) == j
                },
                None => !self@.has_link(user),
            },
    {
        let m = self.links.len();
        let mut j: usize = 0;
        while j < m
            invariant
                j <= m,
                m == self.links@.len(),
                self@.wf(),
                forall|t: int| 0 <= t < j ==> (#[trigger] self.links@[t]).user != user,
            decreases m - j,
        {
            if self.links[j].user == user {
                proof {
                    self@.lemma_link_index_is(user, j as int);
                }
                return Some(j);
            }
            j = j + 1;
        }
        None
    }

    /// Register a scoring model for `user` (the attested caller).
    pub fn register_model(
        &mut self,
        user: Address,
        initial_weights: Vec<i128>,
        bias: i128,
        now: u64,
    ) -> (r: Result<(), ProofOfLifeError>)
        requires
            old(self)@.wf(),
        ensures
            (final(self)@, r) == spec_register_model(old(self)@, user, initial_weights@, bias, now),
            r is Ok <==> initial_weights@.len() == 10,
            final(self)@.wf(),
    {
        if initial_weights.len() != EXPECTED_WEIGHTS_COUNT {
            return Err(ProofOfLifeError::InvalidWeights);
        }
        let model = LifeModel {
            weights: initial_weights,
            bias,
            version: 1,
            last_updated: now,
            calibration_complete: false,
            total_verifications: 0,
            avg_confidence: 0,
            alert_threshold: DEFAULT_ALERT_THRESHOLD,
            critical_threshold: DEFAULT_CRITICAL_THRESHOLD,
            grace_period_days: DEFAULT_GRACE_PERIOD_DAYS,
        };
        match self.find_user(user) {
            Some(j) => {
                let entry = &mut self.users[j];
                entry.model = model;
            },
            None => {
                self.users.push(
                    UserEntry { user, model, records: Vec::new(), last_score: None },
                );
            },
        }
        self.events.push(PolEvent::ModelRegistered { user });
        proof {
            let target = spec_register_model(old(self)@, user, initial_weights@, bias, now).0;
            assert(self@.users =~~= target.users);
            assert(self@ =~~= target);
            lemma_unique_users_after_upsert(old(self)@, self@, user);
        }
        Ok(())
    }

    /// Submit an oracle-attested verification score for `user`.
    pub fn submit_verification(
        &mut self,
        caller: Address,
        user: Address,
        score: u32,
        source: VerificationSource,
        oracle_sig: [u8; 64],
        now: u64,
    ) -> (r: Result<(), ProofOfLifeError>)
        requires
            old(self)@.wf(),
            submission_allowed(old(self)@, caller, user, score) ==> old(self)@.model_of(
                user,
            ).total_verifications < u64::MAX,
        ensures
            (final(self)@, r) == spec_submit_verification(
                old(self)@,
                caller,
                user,
                score,
                source,
                oracle_sig,
                now,
            ),
            r is Ok <==> submission_allowed(old(self)@, caller, user, score),
            final(self)@.wf(),
    {
        let oracle = match self.oracle {
            Some(o) => o,
            None => { return Err(ProofOfLifeError::NotInitialized); },
        };
        if caller != oracle {
            return Err(ProofOfLifeError::NotAuthorized);
        }
        if score > MAX_SCORE {
            return Err(ProofOfLifeError::InvalidScore);
        }
        let j = match self.find_user(user) {
            Some(j) => j,
            None => { return Err(ProofOfLifeError::UserNotRegistered); },
        };
        let record = VerificationRecord {
            timestamp: now,
            liveness_score: score,
            source,
            oracle_signature: oracle_sig,
        };
        let linked_vault: Option<u64> = match self.find_link(user) {
            Some(l) => Some(self.links[l].vault_id),
            None => None,
        };
        let alert_threshold = self.users[j].model.alert_threshold;
        let critical_threshold = self.users[j].model.critical_threshold;
        let entry = &mut self.users[j];
        entry.records.push(record);
        entry.last_score = Some(score);
        entry.model.total_verifications = entry.model.total_verifications + 1;
        self.events.push(PolEvent::VerificationSubmitted { user, score });
        match linked_vault {
            Some(vault_id) => {
                let band = advisory_status(score, alert_threshold, critical_threshold);
                self.events.push(PolEvent::TransitionAdvisory { user, vault_id, status: band });
            },
            None => {},
        }
        proof {
            let target = spec_submit_verification(
                old(self)@,
                caller,
                user,
                score,
                source,
                oracle_sig,
                now,
            ).0;
            assert(self@.users =~~= target.users);
            assert(self@.events =~= target.events);
            assert(self@ =~~= target);
            lemma_unique_users_after_upsert(old(self)@, self@, user);
        }
        Ok(())
    }

    /// Update a registered model's weights and bias; the version counts
    /// every update.
    pub fn update_model(
        &mut self,
        user: Address,
        new_weights: Vec<i128>,
        new_bias: i128,
        now: u64,
    ) -> (r: Result<(), ProofOfLifeError>)
        requires
            old(self)@.wf(),
            new_weights@.len() == 10 && old(self)@.has_model(user) ==> old(self)@.model_of(
                user,
            ).version < u32::MAX,
        ensures
            (final(self)@, r) == spec_update_model(old(self)@, user, new_weights@, new_bias, now),
            r is Ok <==> new_weights@.len() == 10 && old(self)@.has_model(user),
            final(self)@.wf(),
    {
        if new_weights.len() != EXPECTED_WEIGHTS_COUNT {
            return Err(ProofOfLifeError::InvalidWeights);
        }
        let j = match self.find_user(user) {
            Some(j) => j,
            None => { return Err(ProofOfLifeError::UserNotRegistered); },
        };
        let entry = &mut self.users[j];
        entry.model.weights = new_weights;
        entry.model.bias = new_bias;
        entry.model.version = entry.model.version + 1;
        entry.model.last_updated = now;
        proof {
            let target = spec_update_model(old(self)@, user, new_weights@, new_bias, now).0;
            assert(self@.users =~~= target.users);
            assert(self@ =~~= target);
            lemma_unique_users_after_upsert(old(self)@, self@, user);
        }
        Ok(())
    }

    /// Current liveness score of `user`: the cached last score, or the
    /// maximum when no verification was ever submitted.
    pub fn get_liveness_score(&self, user: Address) -> (r: Result<u32, ProofOfLifeError>)
        requires
            self@.wf(),
        ensures
            self@.has_model(user) ==> r == Ok::<u32, ProofOfLifeError>(
                self@.liveness_score_of(user),
            ),
            !self@.has_model(user) ==> r == Err::<u32, ProofOfLifeError>(
                ProofOfLifeError::UserNotRegistered,
            ),
    {
        let j = match self.find_user(user) {
            Some(j) => j,
            None => { return Err(ProofOfLifeError::UserNotRegistered); },
        };
        match self.users[j].last_score {
            Some(s) => Ok(s),
            None => Ok(MAX_SCORE),
        }
    }

    /// Manual check-in by `user` (the attested caller): resets the cached
    /// score to the maximum.
    pub fn emergency_checkin(&mut self, user: Address) -> (r: Result<(), ProofOfLifeError>)
        requires
            old(self)@.wf(),
        ensures
            (final(self)@, r) == spec_emergency_checkin(old(self)@, user),
            r is Ok <==> old(self)@.has_model(user),
            final(self)@.wf(),
    {
        let j = match self.find_user(user) {
            Some(j) => j,
            None => { return Err(ProofOfLifeError::UserNotRegistered); },
        };
        let entry = &mut self.users[j];
        entry.last_score = Some(MAX_SCORE);
        self.events.push(PolEvent::Checkin { user });
        proof {
            let target = spec_emergency_checkin(old(self)@, user).0;
            assert(self@.users =~~= target.users);
            assert(self@ =~~= target);
            lemma_unique_users_after_upsert(old(self)@, self@, user);
        }
        Ok(())
    }

    /// Read a registered principal's model.
    pub fn get_model(&self, user: Address) -> (r: Result<&LifeModel, ProofOfLifeError>)
        requires
            self@.wf(),
        ensures
            self@.has_model(user) ==> (r matches Ok(m) && m@ == self@.model_of(user)),
            !self@.has_model(user) ==> (r matches Err(e) && e == ProofOfLifeError::UserNotRegistered),
    {
        let j = match self.find_user(user) {
            Some(j) => j,
            None => { return Err(ProofOfLifeError::UserNotRegistered); },
        };
        Ok(&self.users[j].model)
    }

    /// Associate `user` (the attested caller) with a vault for advisory
    /// events.
    pub fn link_vault(&mut self, user: Address, vault_contract: Address, vault_id: u64) -> (r:
        Result<(), ProofOfLifeError>)
        requires
            old(self)@.wf(),
        ensures
            (final(self)@, r) == spec_link_vault(old(self)@, user, vault_contract, vault_id),
            final(self)@.wf(),
    {
        let link = VaultLink { user, vault_contract, vault_id };
        match self.find_link(user) {
            Some(j) => {
                let slot = &mut self.links[j];
                *slot = link;
            },
            None => {
                self.links.push(link);
            },
        }
        proof {
            let target = spec_link_vault(old(self)@, user, vault_contract, vault_id).0;
            assert(self@.links =~= target.links);
            assert(self@ =~= target);
            lemma_unique_links_after_upsert(old(self)@, self@, user);
        }
        Ok(())
    }
}

/// Law: a freshly registered principal scores the maximum (10000) before
/// any verification; a submitted score becomes the principal's score;
/// and an emergency check-in always succeeds for a registered principal
/// and restores the maximum, superseding any prior low score.
pub proof fn lemma_liveness_score_lifecycle(
    s0: LivenessOracleView,
    s1: LivenessOracleView,
    s2: LivenessOracleView,
    s3: LivenessOracleView,
    user: Address,
    weights: Seq<i128>,
    bias: i128,
    caller: Address,
    score: u32,
    source: VerificationSource,
    sig: [u8; 64],
    now1: u64,
    now2: u64,
    r1: Result<(), ProofOfLifeError>,
    r2: Result<(), ProofOfLifeError>,
    r3: Result<(), ProofOfLifeError>,
)
    requires
        s0.wf(),
        !s0.has_model(user),
        (s1, r1) == spec_register_model(s0, user, weights, bias, now1),
        r1 is Ok,
        (s2, r2) == spec_submit_verification(s1, caller, user, score, source, sig, now2),
        r2 is Ok,
        (s3, r3) == spec_emergency_checkin(s2, user),
    ensures
        s1.has_model(user),
        s1.liveness_score_of(user) == MAX_SCORE,
        s2.liveness_score_of(user) == score,
        r3 is Ok,
        s3.liveness_score_of(user) == MAX_SCORE,
{
    let n = s0.users.len();
    assert(s1.users[n as int].user == user);
    assert(s1.has_model(user));
    let c1 = s1.user_index(user);
    assert(s1.users[c1].user == user);
    if c1 < n {
        assert(s0.users[c1].user == user);
        assert(s0.has_model(user));
    }
    assert(c1 == n);
    assert(s1.users[n as int].last_score is None);

    let c2 = s2.user_index(user);
    assert(s2.users[n as int].user == user);
    assert(s2.has_model(user));
    assert(s2.users[c2].user == user);
    if c2 < n {
        assert(s2.users[c2] == s1.users[c2]);
        assert(s0.users[c2].user == user);
        assert(s0.has_model(user));
    }
    assert(c2 == n);
    assert(s2.users[n as int].last_score == Some(score));

    let c3 = s3.user_index(user);
    assert(s3.users[n as int].user == user);
    assert(s3.users[c3].user == user);
    if c3 < n {
        assert(s3.users[c3] == s2.users[c3]);
        assert(s0.users[c3].user == user);
        assert(s0.has_model(user));
    }
    assert(c3 == n);
    assert(s3.users[n as int].last_score == Some(MAX_SCORE));
}

/// Upserting the entry of one principal preserves uniqueness of users.
proof fn lemma_unique_users_after_upsert(
    pre: LivenessOracleView,
    post: LivenessOracleView,
    user: Address,
)
    requires
        pre.wf(),
        post.users.len() == pre.users.len() || post.users.len() == pre.users.len() + 1,
        forall|i: int|
            0 <= i < pre.users.len() ==> (#[trigger] post.users[i]).user == pre.users[i].user,
        post.users.len() == pre.users.len() + 1 ==> {
            &&& post.users[pre.users.len() as int].user == user
            &&& !pre.has_model(user)
        },
    ensures
        forall|i: int, j: int|
            0 <= i < j < post.users.len() ==> (#[trigger] post.users[i]).user != (
            #[trigger] post.users[j]).user,
{
    assert forall|i: int, j: int|
        0 <= i < j < post.users.len() implies (#[trigger] post.users[i]).user != (
    #[trigger] post.users[j]).user by {
        if j < pre.users.len() {
            assert(post.users[i].user == pre.users[i].user);
            assert(post.users[j].user == pre.users[j].user);
        } else {
            assert(post.users[i].user == pre.users[i].user);
            if pre.users[i].user == user {
                assert(pre.has_model(user));
            }
        }
    }
}

/// Upserting the link of one principal preserves uniqueness of links.
proof fn lemma_unique_links_after_upsert(
    pre: LivenessOracleView,
    post: LivenessOracleView,
    user: Address,
)
    requires
        pre.wf(),
        post.links.len() == pre.links.len() || post.links.len() == pre.links.len() + 1,
        forall|i: int|
            0 <= i < pre.links.len() ==> (#[trigger] post.links[i]).user == pre.links[i].user,
        post.links.len() == pre.links.len() + 1 ==> {
            &&& post.links[pre.links.len() as int].user == user
            &&& !pre.has_link(user)
        },
    ensures
        forall|i: int, j: int|
            0 <= i < j < post.links.len() ==> (#[trigger] post.links[i]).user != (
            #[trigger] post.links[j]).user,
{
    assert forall|i: int, j: int|
        0 <= i < j < post.links.len() implies (#[trigger] post.links[i]).user != (
    #[trigger] post.links[j]).user by {
        if j < pre.links.len() {
            assert(post.links[i].user == pre.links[i].user);
            assert(post.links[j].user == pre.links[j].user);
        } else {
            assert(post.links[i].user == pre.links[i].user);
            if pre.links[i].user == user {
                assert(pre.has_link(user));
            }
        }
    }
}

} // verus!
