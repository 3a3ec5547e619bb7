//! Vault ledger: per-vault custody state (balance, status, token reference)
//! and the authorization rules for deposits, withdrawals, beneficiary
//! allocation, and status transitions.
//!
//! Asset movement itself is delegated to the host's token-transfer
//! capability: the mutating operations return the exact transfer the host
//! must execute atomically with the recorded state change.

use vstd::prelude::*;

verus! {

/// An attested identity (account or contract), compared only for equality.
pub type Address = u64;

/// Monotonically increasing vault identifier.
pub type VaultId = u64;

/// Lifecycle status of a vault.  Initial status is `Active`; transitions are
/// authorization-gated, not order-gated.
#[derive(Clone, Copy, PartialEq, Eq, Structural, Debug)]
pub enum VaultStatus {
    Active,
    Alert,
    GracePeriod,
    Triggered,
    Distributed,
}

/// One entry of a vault's percentage allocation, in basis points.
#[derive(Clone, Copy, PartialEq, Eq, Structural, Debug)]
pub struct Beneficiary {
    pub address: Address,
    pub percentage: u32,
    pub claimed: bool,
}

/// Custody record of a single vault.
#[derive(Clone, Copy, PartialEq, Eq, Structural, Debug)]
pub struct VaultInfo {
    pub id: VaultId,
    pub owner: Address,
    pub token: Address,
    pub status: VaultStatus,
    pub balance: i128,
    pub created_at: u64,
    pub last_updated: u64,
}

/// Errors surfaced by the vault ledger.
#[derive(Clone, Copy, PartialEq, Eq, Structural, Debug)]
pub enum VaultError {
    NotAuthorized,
    VaultNotFound,
    InsufficientBalance,
    InvalidStatus,
    InvalidBeneficiaries,
    PercentageSumInvalid,
    NoBeneficiaries,
    ZeroAmount,
    AlreadyInitialized,
    NotInitialized,
    ProofOfLifeNotLinked,
}

/// Append-only event records emitted by mutating operations.
#[derive(Clone, Copy, PartialEq, Eq, Structural, Debug)]
pub enum VaultEvent {
    Created { vault_id: VaultId },
    Deposit { vault_id: VaultId, amount: i128 },
    Withdraw { vault_id: VaultId, amount: i128 },
    BeneficiariesSet { vault_id: VaultId },
    StatusChanged { vault_id: VaultId, status: VaultStatus },
}

/// One endpoint of a token transfer: an external account, or the ledger's
/// own custody address.
#[derive(Clone, Copy, PartialEq, Eq, Structural, Debug)]
pub enum TransferParty {
    External(Address),
    VaultCustody,
}

/// The transfer that the host's token capability must execute atomically
/// with the state change of the operation that returned it.
#[derive(Clone, Copy, PartialEq, Eq, Structural, Debug)]
pub struct TokenTransfer {
    pub token: Address,
    pub from: TransferParty,
    pub to: TransferParty,
    pub amount: i128,
}

/// Per-vault state held by the ledger.
pub struct VaultSlot {
    pub info: VaultInfo,
    pub beneficiaries: Vec<Beneficiary>,
    pub pol_link: Option<Address>,
}

/// Mathematical model of one vault slot.
#[verifier::ext_equal]
pub struct VaultSlotView {
    pub info: VaultInfo,
    pub beneficiaries: Seq<Beneficiary>,
    pub pol_link: Option<Address>,
}

impl View for VaultSlot {
    type V = VaultSlotView;

    open spec fn view(&self) -> VaultSlotView {
        VaultSlotView {
            info: self.info,
            beneficiaries: self.beneficiaries@,
            pol_link: self.pol_link,
        }
    }
}

/// Mathematical model of the whole ledger.
#[verifier::ext_equal]
pub struct VaultLedgerView {
    pub admin: Option<Address>,
    pub initialized: bool,
    pub vaults: Seq<VaultSlotView>,
    pub events: Seq<VaultEvent>,
}

/// The vault ledger: one durable store owning every vault's custody state.
pub struct VaultContract {
    pub admin: Option<Address>,
    pub initialized: bool,
    pub vaults: Vec<VaultSlot>,
    pub events: Vec<VaultEvent>,
}

impl View for VaultContract {
    type V = VaultLedgerView;

    open spec fn view(&self) -> VaultLedgerView {
        VaultLedgerView {
            admin: self.admin,
            initialized: self.initialized,
            vaults: Seq::new(self.vaults@.len(), |i: int| self.vaults@[i]@),
            events: self.events@,
        }
    }
}

/// Sum in basis points of an allocation sequence.
pub open spec fn sum_percentages(s: Seq<Beneficiary>) -> int
    decreases s.len(),
{
    if s.len() == 0 {
        0
    } else {
        sum_percentages(s.drop_last()) + s.last().percentage
    }
}

/// A prefix of an allocation never sums to more than the whole.
pub proof fn lemma_sum_percentages_prefix(s: Seq<Beneficiary>, i: int)
    requires
        0 <= i <= s.len(),
    ensures
        sum_percentages(s.take(i)) <= sum_percentages(s),
    decreases s.len() - i,
{
    if i == s.len() {
        assert(s.take(i) =~= s);
    } else {
        assert(s.take(i + 1).drop_last() =~= s.take(i));
        assert(s.take(i + 1).last() == s[i]);
        lemma_sum_percentages_prefix(s, i + 1);
    }
}

impl VaultLedgerView {
    pub open spec fn has_vault(self, id: VaultId) -> bool {
        id < self.vaults.len()
    }

    pub open spec fn vault(self, id: VaultId) -> VaultInfo {
        self.vaults[id as int].info
    }

    pub open spec fn beneficiaries_of(self, id: VaultId) -> Seq<Beneficiary> {
        self.vaults[id as int].beneficiaries
    }

    pub open spec fn pol_link_of(self, id: VaultId) -> Option<Address> {
        self.vaults[id as int].pol_link
    }

    /// Well-formedness: slot `i` holds the vault with id `i`, balances are
    /// never negative, every stored allocation is empty or sums to exactly
    /// 10000 basis points, and an admin is recorded exactly when the store
    /// is initialized.
    pub open spec fn wf(self) -> bool {
        &&& forall|i: int|
            0 <= i < self.vaults.len() ==> (#[trigger] self.vaults[i]).info.id == i
        &&& forall|i: int|
            0 <= i < self.vaults.len() ==> (#[trigger] self.vaults[i]).info.balance >= 0
        &&& forall|i: int|
            0 <= i < self.vaults.len() ==> {
                let b = (#[trigger] self.vaults[i]).beneficiaries;
                b.len() == 0 || sum_percentages(b) == 10000
            }
        &&& self.initialized <==> self.admin is Some
    }
}

/// One-time setup recording the administrator identity.
pub open spec fn spec_initialize(pre: VaultLedgerView, admin: Address) -> (VaultLedgerView, Result<
    (),
    VaultError,
>) {
    if pre.initialized {
        (pre, Err(VaultError::AlreadyInitialized))
    } else {
        (
            VaultLedgerView { admin: Some(admin), initialized: true, ..pre },
            Ok(()),
        )
    }
}

/// Allocation of a fresh vault: next sequential id, status `Active`,
/// zero balance.
pub open spec fn spec_create_vault(
    pre: VaultLedgerView,
    owner: Address,
    token: Address,
    now: u64,
) -> (VaultLedgerView, Result<VaultId, VaultError>) {
    let id = pre.vaults.len() as VaultId;
    let slot = VaultSlotView {
        info: VaultInfo {
            id,
            owner,
            token,
            status: VaultStatus::Active,
            balance: 0,
            created_at: now,
            last_updated: now,
        },
        beneficiaries: Seq::empty(),
        pol_link: None,
    };
    (
        VaultLedgerView {
            vaults: pre.vaults.push(slot),
            events: pre.events.push(VaultEvent::Created { vault_id: id }),
            ..pre
        },
        Ok(id),
    )
}

/// Whether a deposit passes every check and will be recorded.
pub open spec fn deposit_allowed(
    pre: VaultLedgerView,
    vault_id: VaultId,
    from: Address,
    amount: i128,
) -> bool {
    &&& amount > 0
    &&& pre.has_vault(vault_id)
    &&& from == pre.vault(vault_id).owner
}

pub open spec fn spec_deposit(
    pre: VaultLedgerView,
    vault_id: VaultId,
    from: Address,
    amount: i128,
    now: u64,
) -> (VaultLedgerView, Result<TokenTransfer, VaultError>) {
    if amount <= 0 {
        (pre, Err(VaultError::ZeroAmount))
    } else if !pre.has_vault(vault_id) {
        (pre, Err(VaultError::VaultNotFound))
    } else if from != pre.vault(vault_id).owner {
        (pre, Err(VaultError::NotAuthorized))
    } else {
        let old_slot = pre.vaults[vault_id as int];
        let slot = VaultSlotView {
            info: VaultInfo {
                balance: (old_slot.info.balance + amount) as i128,
                last_updated: now,
                ..old_slot.info
            },
            ..old_slot
        };
        (
            VaultLedgerView {
                vaults: pre.vaults.update(vault_id as int, slot),
                events: pre.events.push(VaultEvent::Deposit { vault_id, amount }),
                ..pre
            },
            Ok(
                TokenTransfer {
                    token: old_slot.info.token,
                    from: TransferParty::External(from),
                    to: TransferParty::VaultCustody,
                    amount,
                },
            ),
        )
    }
}

/// Whether a withdrawal passes every check: positive amount, known vault,
/// owner as caller, `Active` status, and sufficient balance.
pub open spec fn withdraw_allowed(
    pre: VaultLedgerView,
    caller: Address,
    vault_id: VaultId,
    amount: i128,
) -> bool {
    &&& amount > 0
    &&& pre.has_vault(vault_id)
    &&& caller == pre.vault(vault_id).owner
    &&& pre.vault(vault_id).status is Active
    &&& amount <= pre.vault(vault_id).balance
}

pub open spec fn spec_withdraw(
    pre: VaultLedgerView,
    caller: Address,
    vault_id: VaultId,
    to: Address,
    amount: i128,
    now: u64,
) -> (VaultLedgerView, Result<TokenTransfer, VaultError>) {
    if amount <= 0 {
        (pre, Err(VaultError::ZeroAmount))
    } else if !pre.has_vault(vault_id) {
        (pre, Err(VaultError::VaultNotFound))
    } else if caller != pre.vault(vault_id).owner {
        (pre, Err(VaultError::NotAuthorized))
    } else if !(pre.vault(vault_id).status is Active) {
        (pre, Err(VaultError::InvalidStatus))
    } else if pre.vault(vault_id).balance < amount {
        (pre, Err(VaultError::InsufficientBalance))
    } else {
        let old_slot = pre.vaults[vault_id as int];
        let slot = VaultSlotView {
            info: VaultInfo {
                balance: (old_slot.info.balance - amount) as i128,
                last_updated: now,
                ..old_slot.info
            },
            ..old_slot
        };
        (
            VaultLedgerView {
                vaults: pre.vaults.update(vault_id as int, slot),
                events: pre.events.push(VaultEvent::Withdraw { vault_id, amount }),
                ..pre
            },
            Ok(
                TokenTransfer {
                    token: old_slot.info.token,
                    from: TransferParty::VaultCustody,
                    to: TransferParty::External(to),
                    amount,
                },
            ),
        )
    }
}

/// Full-overwrite replacement of a vault's allocation: requires the owner
/// as caller, `Active` status, and a non-empty set summing to exactly
/// 10000 basis points.
pub open spec fn spec_set_beneficiaries(
    pre: VaultLedgerView,
    caller: Address,
    vault_id: VaultId,
    beneficiaries: Seq<Beneficiary>,
) -> (VaultLedgerView, Result<(), VaultError>) {
    if !pre.has_vault(vault_id) {
        (pre, Err(VaultError::VaultNotFound))
    } else if caller != pre.vault(vault_id).owner {
        (pre, Err(VaultError::NotAuthorized))
    } else if !(pre.vault(vault_id).status is Active) {
        (pre, Err(VaultError::InvalidStatus))
    } else if beneficiaries.len() == 0 {
        (pre, Err(VaultError::NoBeneficiaries))
    } else if sum_percentages(beneficiaries) != 10000 {
        (pre, Err(VaultError::PercentageSumInvalid))
    } else {
        let old_slot = pre.vaults[vault_id as int];
        let slot = VaultSlotView { beneficiaries, ..old_slot };
        (
            VaultLedgerView {
                vaults: pre.vaults.update(vault_id as int, slot),
                events: pre.events.push(VaultEvent::BeneficiariesSet { vault_id }),
                ..pre
            },
            Ok(()),
        )
    }
}

/// Records the oracle reference later accepted as a transition authority.
pub open spec fn spec_link_proof_of_life(
    pre: VaultLedgerView,
    caller: Address,
    vault_id: VaultId,
    pol_contract: Address,
) -> (VaultLedgerView, Result<(), VaultError>) {
    if !pre.has_vault(vault_id) {
        (pre, Err(VaultError::VaultNotFound))
    } else if caller != pre.vault(vault_id).owner {
        (pre, Err(VaultError::NotAuthorized))
    } else {
        let old_slot = pre.vaults[vault_id as int];
        let slot = VaultSlotView { pol_link: Some(pol_contract), ..old_slot };
        (
            VaultLedgerView { vaults: pre.vaults.update(vault_id as int, slot), ..pre },
            Ok(()),
        )
    }
}

/// Whether `caller` may transition `vault_id`: the administrator, or the
/// linked proof-of-life reference.
pub open spec fn transition_authorized(
    pre: VaultLedgerView,
    caller: Address,
    vault_id: VaultId,
) -> bool {
    ||| pre.admin == Some(caller)
    ||| pre.pol_link_of(vault_id) == Some(caller)
}

/// Status overwrite by an authorized caller.  No ordering constraint
/// between states is enforced: any authorized caller may set any status.
pub open spec fn spec_transition_status(
    pre: VaultLedgerView,
    caller: Address,
    vault_id: VaultId,
    new_status: VaultStatus,
    now: u64,
) -> (VaultLedgerView, Result<(), VaultError>) {
    if !pre.has_vault(vault_id) {
        (pre, Err(VaultError::VaultNotFound))
    } else if pre.admin is None {
        (pre, Err(VaultError::NotInitialized))
    } else if !transition_authorized(pre, caller, vault_id) {
        (pre, Err(VaultError::NotAuthorized))
    } else {
        let old_slot = pre.vaults[vault_id as int];
        let slot = VaultSlotView {
            info: VaultInfo { status: new_status, last_updated: now, ..old_slot.info },
            ..old_slot
        };
        (
            VaultLedgerView {
                vaults: pre.vaults.update(vault_id as int, slot),
                events: pre.events.push(
                    VaultEvent::StatusChanged { vault_id, status: new_status },
                ),
                ..pre
            },
            Ok(()),
        )
    }
}

/// Law: a withdrawal succeeds exactly when the amount is positive, the
/// vault exists, the caller is its owner, the status is `Active`, and
/// the balance covers the amount.
pub proof fn lemma_withdraw_iff(
    pre: VaultLedgerView,
    caller: Address,
    vault_id: VaultId,
    to: Address,
    amount: i128,
    now: u64,
)
    ensures
        spec_withdraw(pre, caller, vault_id, to, amount, now).1 is Ok <==> withdraw_allowed(
            pre,
            caller,
            vault_id,
            amount,
        ),
{
}

/// Law: after an authorized transition to any non-`Active` status, a
/// withdrawal that was permitted before the transition fails with
/// `InvalidStatus` and changes nothing.
pub proof fn lemma_withdraw_blocked_after_transition(
    pre: VaultLedgerView,
    mid: VaultLedgerView,
    transition_caller: Address,
    caller: Address,
    vault_id: VaultId,
    to: Address,
    amount: i128,
    new_status: VaultStatus,
    now1: u64,
    now2: u64,
    tr: Result<(), VaultError>,
)
    requires
        (mid, tr) == spec_transition_status(pre, transition_caller, vault_id, new_status, now1),
        tr is Ok,
        !(new_status is Active),
        withdraw_allowed(pre, caller, vault_id, amount),
    ensures
        spec_withdraw(mid, caller, vault_id, to, amount, now2).1 == Err::<
            TokenTransfer,
            VaultError,
        >(VaultError::InvalidStatus),
        spec_withdraw(mid, caller, vault_id, to, amount, now2).0 == mid,
{
}

impl VaultContract {
    /// A freshly deployed, uninitialized ledger with no vaults.
    pub fn new() -> (c: VaultContract)
        ensures
            c@.wf(),
            !c@.initialized,
            c@.admin is None,
            c@.vaults =~= Seq::<VaultSlotView>::empty(),
            c@.events =~= Seq::<VaultEvent>::empty(),
    {
        VaultContract { admin: None, initialized: false, vaults: Vec::new(), events: Vec::new() }
    }

    /// Initialize the ledger with an admin address.
    pub fn initialize(&mut self, admin: Address) -> (r: Result<(), VaultError>)
        ensures
            (final(self)@, r) == spec_initialize(old(self)@, admin),
            old(self)@.wf() ==> final(self)@.wf(),
    {
        if self.initialized {
            return Err(VaultError::AlreadyInitialized);
        }
        self.admin = Some(admin);
        self.initialized = true;
        proof {
            assert(self@ =~= spec_initialize(old(self)@, admin).0);
        }
        Ok(())
    }

    /// Create a new vault for `owner` (the attested caller).  Returns the
    /// vault id.
    pub fn create_vault(&mut self, owner: Address, token: Address, now: u64) -> (r: Result<
        VaultId,
        VaultError,
    >)
        requires
            old(self)@.wf(),
        ensures
            (final(self)@, r) == spec_create_vault(old(self)@, owner, token, now),
            final(self)@.wf(),
    {
        let vault_id = self.vaults.len() as u64;
        let vault = VaultInfo {
            id: vault_id,
            owner,
            token,
            status: VaultStatus::Active,
            balance: 0,
            created_at: now,
            last_updated: now,
        };
        self.vaults.push(VaultSlot { info: vault, beneficiaries: Vec::new(), pol_link: None });
        self.events.push(VaultEvent::Created { vault_id });
        proof {
            assert(self@.vaults =~= spec_create_vault(old(self)@, owner, token, now).0.vaults);
            assert(self@ =~= spec_create_vault(old(self)@, owner, token, now).0);
        }
        Ok(vault_id)
    }

    /// Record a deposit from the vault's owner.  The returned transfer
    /// moves `amount` from `from` into custody; the host must execute it
    /// atomically with this state change, so that the recorded balance
    /// never rises without a confirmed transfer.
    pub fn deposit(&mut self, vault_id: VaultId, from: Address, amount: i128, now: u64) -> (r:
        Result<TokenTransfer, VaultError>)
        requires
            old(self)@.wf(),
            deposit_allowed(old(self)@, vault_id, from, amount) ==> old(self)@.vault(
                vault_id,
            ).balance + amount <= i128::MAX,
        ensures
            (final(self)@, r) == spec_deposit(old(self)@, vault_id, from, amount, now),
            r is Ok <==> deposit_allowed(old(self)@, vault_id, from, amount),
            final(self)@.wf(),
    {
        if amount <= 0 {
            return Err(VaultError::ZeroAmount);
        }
        if vault_id >= self.vaults.len() as u64 {
            return Err(VaultError::VaultNotFound);
        }
        let i = vault_id as usize;
        if self.vaults[i].info.owner != from {
            return Err(VaultError::NotAuthorized);
        }
        let token = self.vaults[i].info.token;
        let slot = &mut self.vaults[i];
        slot.info.balance = slot.info.balance + amount;
        slot.info.last_updated = now;
        self.events.push(VaultEvent::Deposit { vault_id, amount });
        proof {
            assert(self@.vaults =~= spec_deposit(old(self)@, vault_id, from, amount, now).0.vaults);
            assert(self@ =~= spec_deposit(old(self)@, vault_id, from, amount, now).0);
        }
        Ok(
            TokenTransfer {
                token,
                from: TransferParty::External(from),
                to: TransferParty::VaultCustody,
                amount,
            },
        )
    }

    /// Record a withdrawal by the vault's owner (the attested caller).
    /// Permitted only while the vault is `Active` and covered by its
    /// balance; the returned transfer moves `amount` out of custody to
    /// `to`.
    pub fn withdraw(
        &mut self,
        caller: Address,
        vault_id: VaultId,
        to: Address,
        amount: i128,
        now: u64,
    ) -> (r: Result<TokenTransfer, VaultError>)
        requires
            old(self)@.wf(),
        ensures
            (final(self)@, r) == spec_withdraw(old(self)@, caller, vault_id, to, amount, now),
            r is Ok <==> withdraw_allowed(old(self)@, caller, vault_id, amount),
            final(self)@.wf(),
    {
        if amount <= 0 {
            return Err(VaultError::ZeroAmount);
        }
        if vault_id >= self.vaults.len() as u64 {
            return Err(VaultError::VaultNotFound);
        }
        let i = vault_id as usize;
        if self.vaults[i].info.owner != caller {
            return Err(VaultError::NotAuthorized);
        }
        if self.vaults[i].info.status != VaultStatus::Active {
            return Err(VaultError::InvalidStatus);
        }
        if self.vaults[i].info.balance < amount {
            return Err(VaultError::InsufficientBalance);
        }
        let token = self.vaults[i].info.token;
        let slot = &mut self.vaults[i];
        slot.info.balance = slot.info.balance - amount;
        slot.info.last_updated = now;
        self.events.push(VaultEvent::Withdraw { vault_id, amount });
        proof {
            assert(self@.vaults =~= spec_withdraw(
                old(self)@,
                caller,
                vault_id,
                to,
                amount,
                now,
            ).0.vaults);
            assert(self@ =~= spec_withdraw(old(self)@, caller, vault_id, to, amount, now).0);
        }
        Ok(
            TokenTransfer {
                token,
                from: TransferParty::VaultCustody,
                to: TransferParty::External(to),
                amount,
            },
        )
    }

    /// Replace a vault's allocation wholesale.  Succeeds exactly when the
    /// vault exists, the caller is its owner, the status is `Active`, and
    /// the non-empty set sums to exactly 10000 basis points.
    pub fn set_beneficiaries(
        &mut self,
        caller: Address,
        vault_id: VaultId,
        beneficiaries: Vec<Beneficiary>,
    ) -> (r: Result<(), VaultError>)
        requires
            old(self)@.wf(),
        ensures
            (final(self)@, r) == spec_set_beneficiaries(
                old(self)@,
                caller,
                vault_id,
                beneficiaries@,
            ),
            r is Ok <==> {
                &&& old(self)@.has_vault(vault_id)
                &&& caller == old(self)@.vault(vault_id).owner
                &&& old(self)@.vault(vault_id).status is Active
                &&& beneficiaries@.len() > 0
                &&& sum_percentages(beneficiaries@) == 10000
            },
            final(self)@.wf(),
    {
        if vault_id >= self.vaults.len() as u64 {
            return Err(VaultError::VaultNotFound);
        }
        let i = vault_id as usize;
        if self.vaults[i].info.owner != caller {
            return Err(VaultError::NotAuthorized);
        }
        if self.vaults[i].info.status != VaultStatus::Active {
            return Err(VaultError::InvalidStatus);
        }
        if beneficiaries.len() == 0 {
            return Err(VaultError::NoBeneficiaries);
        }
        let n = beneficiaries.len();
        let mut sum: u64 = 0;
        let mut k: usize = 0;
        while k < n
            invariant
                k <= n,
                n == beneficiaries@.len(),
                sum == sum_percentages(beneficiaries@.take(k as int)),
                sum <= 10000,
                *self == *old(self),
                self@.wf(),
                vault_id < self.vaults@.len(),
                caller == self@.vault(vault_id).owner,
                self@.vault(vault_id).status is Active,
                beneficiaries@.len() > 0,
            decreases n - k,
        {
            proof {
                assert(beneficiaries@.take(k + 1).drop_last() =~= beneficiaries@.take(k as int));
                assert(beneficiaries@.take(k + 1).last() == beneficiaries@[k as int]);
            }
            sum = sum + beneficiaries[k].percentage as u64;
            k = k + 1;
            if sum > 10000 {
                proof {
                    lemma_sum_percentages_prefix(beneficiaries@, k as int);
                }
                return Err(VaultError::PercentageSumInvalid);
            }
        }
        proof {
            assert(beneficiaries@.take(n as int) =~= beneficiaries@);
        }
        if sum != 10000 {
            return Err(VaultError::PercentageSumInvalid);
        }
        let slot = &mut self.vaults[i];
        slot.beneficiaries = beneficiaries;
        self.events.push(VaultEvent::BeneficiariesSet { vault_id });
        proof {
            assert(self@.vaults =~= spec_set_beneficiaries(
                old(self)@,
                caller,
                vault_id,
                beneficiaries@,
            ).0.vaults);
            assert(self@ =~= spec_set_beneficiaries(
                old(self)@,
                caller,
                vault_id,
                beneficiaries@,
            ).0);
        }
        Ok(())
    }

    /// Link a proof-of-life oracle reference to a vault; the reference is
    /// later accepted as a transition authority.
    pub fn link_proof_of_life(
        &mut self,
        caller: Address,
        vault_id: VaultId,
        pol_contract: Address,
    ) -> (r: Result<(), VaultError>)
        requires
            old(self)@.wf(),
        ensures
            (final(self)@, r) == spec_link_proof_of_life(old(self)@, caller, vault_id, pol_contract),
            final(self)@.wf(),
    {
        if vault_id >= self.vaults.len() as u64 {
            return Err(VaultError::VaultNotFound);
        }
        let i = vault_id as usize;
        if self.vaults[i].info.owner != caller {
            return Err(VaultError::NotAuthorized);
        }
        let slot = &mut self.vaults[i];
        slot.pol_link = Some(pol_contract);
        proof {
            assert(self@.vaults =~= spec_link_proof_of_life(
                old(self)@,
                caller,
                vault_id,
                pol_contract,
            ).0.vaults);
            assert(self@ =~= spec_link_proof_of_life(old(self)@, caller, vault_id, pol_contract).0);
        }
        Ok(())
    }

    /// Overwrite a vault's status.  Only the administrator or the linked
    /// proof-of-life reference may transition; any target status is
    /// accepted.
    pub fn transition_status(
        &mut self,
        caller: Address,
        vault_id: VaultId,
        new_status: VaultStatus,
        now: u64,
    ) -> (r: Result<(), VaultError>)
        requires
            old(self)@.wf(),
        ensures
            (final(self)@, r) == spec_transition_status(
                old(self)@,
                caller,
                vault_id,
                new_status,
                now,
            ),
            r is Ok <==> old(self)@.has_vault(vault_id) && old(self)@.admin is Some
                && transition_authorized(old(self)@, caller, vault_id),
            final(self)@.wf(),
    {
        if vault_id >= self.vaults.len() as u64 {
            return Err(VaultError::VaultNotFound);
        }
        let i = vault_id as usize;
        let admin = match self.admin {
            Some(a) => a,
            None => { return Err(VaultError::NotInitialized); },
        };
        let is_admin = caller == admin;
        let is_pol = match self.vaults[i].pol_link {
            Some(p) => caller == p,
            None => false,
        };
        if !is_admin && !is_pol {
            return Err(VaultError::NotAuthorized);
        }
        let slot = &mut self.vaults[i];
        slot.info.status = new_status;
        slot.info.last_updated = now;
        self.events.push(VaultEvent::StatusChanged { vault_id, status: new_status });
        proof {
            assert(self@.vaults =~= spec_transition_status(
                old(self)@,
                caller,
                vault_id,
                new_status,
                now,
            ).0.vaults);
            assert(self@ =~= spec_transition_status(
                old(self)@,
                caller,
                vault_id,
                new_status,
                now,
            ).0);
        }
        Ok(())
    }

    /// Read a vault's custody record.
    pub fn get_vault(&self, vault_id: VaultId) -> (r: Result<VaultInfo, VaultError>)
        ensures
            self@.has_vault(vault_id) ==> r == Ok::<VaultInfo, VaultError>(self@.vault(vault_id)),
            !self@.has_vault(vault_id) ==> r == Err::<VaultInfo, VaultError>(
                VaultError::VaultNotFound,
            ),
    {
        if vault_id >= self.vaults.len() as u64 {
            return Err(VaultError::VaultNotFound);
        }
        Ok(self.vaults[vault_id as usize].info)
    }

    /// Read a vault's status.
    pub fn get_status(&self, vault_id: VaultId) -> (r: Result<VaultStatus, VaultError>)
        ensures
            self@.has_vault(vault_id) ==> r == Ok::<VaultStatus, VaultError>(
                self@.vault(vault_id).status,
            ),
            !self@.has_vault(vault_id) ==> r == Err::<VaultStatus, VaultError>(
                VaultError::VaultNotFound,
            ),
    {
        if vault_id >= self.vaults.len() as u64 {
            return Err(VaultError::VaultNotFound);
        }
        Ok(self.vaults[vault_id as usize].info.status)
    }

    /// Read a vault's balance.
    pub fn get_balance(&self, vault_id: VaultId) -> (r: Result<i128, VaultError>)
        ensures
            self@.has_vault(vault_id) ==> r == Ok::<i128, VaultError>(
                self@.vault(vault_id).balance,
            ),
            !self@.has_vault(vault_id) ==> r == Err::<i128, VaultError>(VaultError::VaultNotFound),
    {
        if vault_id >= self.vaults.len() as u64 {
            return Err(VaultError::VaultNotFound);
        }
        Ok(self.vaults[vault_id as usize].info.balance)
    }

    /// Read a copy of a vault's stored allocation.
    pub fn get_beneficiaries(&self, vault_id: VaultId) -> (r: Result<Vec<Beneficiary>, VaultError>)
        ensures
            self@.has_vault(vault_id) ==> (r matches Ok(b) && b@ == self@.beneficiaries_of(
                vault_id,
            )),
            !self@.has_vault(vault_id) ==> r == Err::<Vec<Beneficiary>, VaultError>(
                VaultError::VaultNotFound,
            ),
    {
        if vault_id >= self.vaults.len() as u64 {
            return Err(VaultError::VaultNotFound);
        }
        Ok(vstd::slice::slice_to_vec(self.vaults[vault_id as usize].beneficiaries.as_slice()))
    }
}

} // verus!
