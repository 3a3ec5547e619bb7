//! Beneficiary registry: the percentage-allocation table per vault and the
//! at-most-once claim records.
//!
//! Vault ids here are plain caller-supplied identifiers; the registry does
//! not validate them against the vault ledger.  Lookup of a claimer in an
//! allocation is a linear scan with first-match semantics.

use vstd::prelude::*;

use crate::vault::Address;
use crate::vault::Beneficiary;

verus! {

/// Errors surfaced by the beneficiary registry.
#[derive(Clone, Copy, PartialEq, Eq, Structural, Debug)]
pub enum BeneficiaryError {
    NotAuthorized,
    VaultNotTriggered,
    AlreadyClaimed,
    NotABeneficiary,
    InvalidPercentage,
    VaultNotFound,
    AlreadyInitialized,
    NotInitialized,
    PercentageSumInvalid,
    NoBeneficiaries,
}

/// Append-only event records emitted by mutating operations.
#[derive(Clone, Copy, PartialEq, Eq, Structural, Debug)]
pub enum BeneficiaryEvent {
    AllocationsSet { vault_id: u64 },
    Claim { claimer: Address, vault_id: u64 },
}

/// The allocation stored for one vault id.
pub struct AllocEntry {
    pub vault_id: u64,
    pub beneficiaries: Vec<Beneficiary>,
}

/// Mathematical model of one stored allocation.
#[verifier::ext_equal]
pub struct AllocEntryView {
    pub vault_id: u64,
    pub beneficiaries: Seq<Beneficiary>,
}

impl View for AllocEntry {
    type V = AllocEntryView;

    open spec fn view(&self) -> AllocEntryView {
        AllocEntryView { vault_id: self.vault_id, beneficiaries: self.beneficiaries@ }
    }
}

/// A recorded claim: the pair (vault id, claimer), present at most once.
#[derive(Clone, Copy, PartialEq, Eq, Structural, Debug)]
pub struct ClaimRecord {
    pub vault_id: u64,
    pub claimer: Address,
}

/// Mathematical model of the registry.
#[verifier::ext_equal]
pub struct BeneficiaryRegistryView {
    pub admin: Option<Address>,
    pub initialized: bool,
    pub vault_contract: Option<Address>,
    pub allocations: Seq<AllocEntryView>,
    pub claims: Seq<ClaimRecord>,
    pub events: Seq<BeneficiaryEvent>,
}

/// The beneficiary registry: one durable store owning allocations and
/// claim records.
pub struct BeneficiaryContract {
    pub admin: Option<Address>,
    pub initialized: bool,
    pub vault_contract: Option<Address>,
    pub allocations: Vec<AllocEntry>,
    pub claims: Vec<ClaimRecord>,
    pub events: Vec<BeneficiaryEvent>,
}

impl View for BeneficiaryContract {
    type V = BeneficiaryRegistryView;

    open spec fn view(&self) -> BeneficiaryRegistryView {
        BeneficiaryRegistryView {
            admin: self.admin,
            initialized: self.initialized,
            vault_contract: self.vault_contract,
            allocations: Seq::new(self.allocations@.len(), |i: int| self.allocations@[i]@),
            claims: self.claims@,
            events: self.events@,
        }
    }
}

/// First-match percentage of `claimer` in an allocation, `None` if absent.
pub open spec fn lookup_percentage(s: Seq<Beneficiary>, claimer: Address) -> Option<u32>
    decreases s.len(),
{
    if s.len() == 0 {
        None
    } else if s[0].address == claimer {
        Some(s[0].percentage)
    } else {
        lookup_percentage(s.skip(1), claimer)
    }
}

impl BeneficiaryRegistryView {
    pub open spec fn has_allocation(self, vault_id: u64) -> bool {
        exists|i: int|
            0 <= i < self.allocations.len() && (#[trigger] self.allocations[i]).vault_id == vault_id
    }

    pub open spec fn alloc_index(self, vault_id: u64) -> int {
        choose|i: int|
            0 <= i < self.allocations.len() && (#[trigger] self.allocations[i]).vault_id == vault_id
    }

    /// The allocation stored for `vault_id`, empty if none was ever set.
    pub open spec fn allocation_of(self, vault_id: u64) -> Seq<Beneficiary> {
        if self.has_allocation(vault_id) {
            self.allocations[self.alloc_index(vault_id)].beneficiaries
        } else {
            Seq::empty()
        }
    }

    /// Whether the pair (vault id, claimer) has a recorded claim.
    pub open spec fn has_claimed(self, vault_id: u64, claimer: Address) -> bool {
        exists|i: int|
            0 <= i < self.claims.len() && #[trigger] self.claims[i] == (ClaimRecord {
                vault_id,
                claimer,
            })
    }

    /// Pure claim predicate: no prior claim, and the claimer appears in
    /// the stored allocation.
    pub open spec fn claimable(self, vault_id: u64, claimer: Address) -> bool {
        &&& !self.has_claimed(vault_id, claimer)
        &&& lookup_percentage(self.allocation_of(vault_id), claimer) is Some
    }

    /// Well-formedness: at most one allocation entry per vault id, and an
    /// admin is recorded exactly when the store is initialized.
    pub open spec fn wf(self) -> bool {
        &&& forall|i: int, j: int|
            0 <= i < j < self.allocations.len() ==> (#[trigger] self.allocations[i]).vault_id != (
            #[trigger] self.allocations[j]).vault_id
        &&& self.initialized <==> self.admin is Some
    }

    /// Under `wf`, a slot holding `vault_id` is the unique allocation
    /// entry for it.
    pub proof fn lemma_alloc_index_is(self, vault_id: u64, j: int)
        requires
            self.wf(),
            0 <= j < self.allocations.len(),
            self.allocations[j].vault_id == vault_id,
        ensures
            self.has_allocation(vault_id),
            self.alloc_index(vault_id) == j,
            self.allocation_of(vault_id) == self.allocations[j].beneficiaries,
    {
        assert(self.has_allocation(vault_id));
        let c = self.alloc_index(vault_id);
        assert(self.allocations[c].vault_id == vault_id);
        if c < j {
            assert(self.allocations[c].vault_id != self.allocations[j].vault_id);
        } else if j < c {
            assert(self.allocations[j].vault_id != self.allocations[c].vault_id);
        }
    }
}

/// Linear scan for the first allocation entry matching `claimer`.
fn scan_percentage(list: &Vec<Beneficiary>, claimer: Address) -> (r: Option<u32>)
    ensures
        r == lookup_percentage(list@, claimer),
{
    proof {
        assert(list@.skip(0) =~= list@);
    }
    let n = list.len();
    let mut k: usize = 0;
    while k < n
        invariant
            k <= n,
            n == list@.len(),
            lookup_percentage(list@, claimer) == lookup_percentage(list@.skip(k as int), claimer),
        decreases n - k,
    {
        if list[k].address == claimer {
            proof {
                assert(list@.skip(k as int)[0] == list@[k as int]);
            }
            return Some(list[k].percentage);
        }
        proof {
            assert(list@.skip(k as int).skip(1) =~= list@.skip(k + 1));
        }
        k = k + 1;
    }
    proof {
        assert(list@.skip(n as int).len() == 0);
    }
    None
}

/// One-time setup recording the administrator identity.
pub open spec fn spec_initialize(pre: BeneficiaryRegistryView, admin: Address) -> (
    BeneficiaryRegistryView,
    Result<(), BeneficiaryError>,
) {
    if pre.initialized {
        (pre, Err(BeneficiaryError::AlreadyInitialized))
    } else {
        (
            BeneficiaryRegistryView { admin: Some(admin), initialized: true, ..pre },
            Ok(()),
        )
    }
}

/// Records the vault ledger reference used by external orchestration.
pub open spec fn spec_set_vault_contract(
    pre: BeneficiaryRegistryView,
    caller: Address,
    vault_contract: Address,
) -> (BeneficiaryRegistryView, Result<(), BeneficiaryError>) {
    if pre.admin is None {
        (pre, Err(BeneficiaryError::NotInitialized))
    } else if Some(caller) != pre.admin {
        (pre, Err(BeneficiaryError::NotAuthorized))
    } else {
        (
            BeneficiaryRegistryView { vault_contract: Some(vault_contract), ..pre },
            Ok(()),
        )
    }
}

/// Full-overwrite replacement of a vault's allocation: administrator as
/// caller, non-empty set summing to exactly 10000 basis points.
pub open spec fn spec_set_beneficiaries(
    pre: BeneficiaryRegistryView,
    caller: Address,
    vault_id: u64,
    beneficiaries: Seq<Beneficiary>,
) -> (BeneficiaryRegistryView, Result<(), BeneficiaryError>) {
    if pre.admin is None {
        (pre, Err(BeneficiaryError::NotInitialized))
    } else if Some(caller) != pre.admin {
        (pre, Err(BeneficiaryError::NotAuthorized))
    } else if beneficiaries.len() == 0 {
        (pre, Err(BeneficiaryError::NoBeneficiaries))
    } else if crate::vault::sum_percentages(beneficiaries) != 10000 {
        (pre, Err(BeneficiaryError::PercentageSumInvalid))
    } else {
        let entry = AllocEntryView { vault_id, beneficiaries };
        let allocations = if pre.has_allocation(vault_id) {
            pre.allocations.update(pre.alloc_index(vault_id), entry)
        } else {
            pre.allocations.push(entry)
        };
        (
            BeneficiaryRegistryView {
                allocations,
                events: pre.events.push(BeneficiaryEvent::AllocationsSet { vault_id }),
                ..pre
            },
            Ok(()),
        )
    }
}

/// At-most-once claim: fails on a repeated pair, fails for an address
/// absent from the allocation, and otherwise records the pair and returns
/// the first-match percentage.
pub open spec fn spec_record_claim(
    pre: BeneficiaryRegistryView,
    caller: Address,
    vault_id: u64,
    claimer: Address,
) -> (BeneficiaryRegistryView, Result<u32, BeneficiaryError>) {
    if pre.admin is None {
        (pre, Err(BeneficiaryError::NotInitialized))
    } else if Some(caller) != pre.admin {
        (pre, Err(BeneficiaryError::NotAuthorized))
    } else if pre.has_claimed(vault_id, claimer) {
        (pre, Err(BeneficiaryError::AlreadyClaimed))
    } else {
        match lookup_percentage(pre.allocation_of(vault_id), claimer) {
            None => (pre, Err(BeneficiaryError::NotABeneficiary)),
            Some(percentage) => (
                BeneficiaryRegistryView {
                    claims: pre.claims.push(ClaimRecord { vault_id, claimer }),
                    events: pre.events.push(BeneficiaryEvent::Claim { claimer, vault_id }),
                    ..pre
                },
                Ok(percentage),
            ),
        }
    }
}

/// Law: with the administrator as caller, replacing an allocation
/// succeeds exactly when the set is non-empty and sums to 10000 basis
/// points; an empty set fails with `NoBeneficiaries` and any other sum
/// with `PercentageSumInvalid`.
pub proof fn lemma_set_beneficiaries_exact(
    pre: BeneficiaryRegistryView,
    caller: Address,
    vault_id: u64,
    beneficiaries: Seq<Beneficiary>,
)
    requires
        pre.admin == Some(caller),
    ensures
        spec_set_beneficiaries(pre, caller, vault_id, beneficiaries).1 is Ok <==> beneficiaries.len()
            > 0 && crate::vault::sum_percentages(beneficiaries) == 10000,
        beneficiaries.len() == 0 ==> spec_set_beneficiaries(pre, caller, vault_id, beneficiaries).1
            == Err::<(), BeneficiaryError>(BeneficiaryError::NoBeneficiaries),
        beneficiaries.len() > 0 && crate::vault::sum_percentages(beneficiaries) != 10000
            ==> spec_set_beneficiaries(pre, caller, vault_id, beneficiaries).1 == Err::<
            (),
            BeneficiaryError,
        >(BeneficiaryError::PercentageSumInvalid),
{
}

/// Law: a claim is recorded at most once.  After a successful claim of
/// (vault, claimer), a second claim of the same pair fails with
/// `AlreadyClaimed` and mutates nothing; the stored allocation is
/// untouched by both calls, and the only state change of the first is
/// the claim mark (and its event).
pub proof fn lemma_claim_at_most_once(
    s0: BeneficiaryRegistryView,
    s1: BeneficiaryRegistryView,
    s2: BeneficiaryRegistryView,
    caller: Address,
    vault_id: u64,
    claimer: Address,
    r1: Result<u32, BeneficiaryError>,
    r2: Result<u32, BeneficiaryError>,
)
    requires
        (s1, r1) == spec_record_claim(s0, caller, vault_id, claimer),
        r1 is Ok,
        (s2, r2) == spec_record_claim(s1, caller, vault_id, claimer),
    ensures
        r2 == Err::<u32, BeneficiaryError>(BeneficiaryError::AlreadyClaimed),
        s2 == s1,
        s1.allocations == s0.allocations,
        !s0.has_claimed(vault_id, claimer),
        s1.has_claimed(vault_id, claimer),
        r1 == Ok::<u32, BeneficiaryError>(
            lookup_percentage(s0.allocation_of(vault_id), claimer)->Some_0,
        ),
{
    assert(s1.claims[s0.claims.len() as int] == (ClaimRecord { vault_id, claimer }));
    assert(s1.has_claimed(vault_id, claimer));
}

impl BeneficiaryContract {
    /// A freshly deployed, uninitialized registry.
    pub fn new() -> (c: BeneficiaryContract)
        ensures
            c@.wf(),
            !c@.initialized,
            c@.admin is None,
            c@.vault_contract is None,
            c@.allocations =~= Seq::<AllocEntryView>::empty(),
            c@.claims =~= Seq::<ClaimRecord>::empty(),
            c@.events =~= Seq::<BeneficiaryEvent>::empty(),
    {
        BeneficiaryContract {
            admin: None,
            initialized: false,
            vault_contract: None,
            allocations: Vec::new(),
            claims: Vec::new(),
            events: Vec::new(),
        }
    }

    /// Initialize the registry with an admin address.
    pub fn initialize(&mut self, admin: Address) -> (r: Result<(), BeneficiaryError>)
        ensures
            (final(self)@, r) == spec_initialize(old(self)@, admin),
            old(self)@.wf() ==> final(self)@.wf(),
    {
        if self.initialized {
            return Err(BeneficiaryError::AlreadyInitialized);
        }
        self.admin = Some(admin);
        self.initialized = true;
        proof {
            assert(self@ =~= spec_initialize(old(self)@, admin).0);
        }
        Ok(())
    }

    /// Record the vault ledger reference (administrator as caller).
    pub fn set_vault_contract(&mut self, caller: Address, vault_contract: Address) -> (r: Result<
        (),
        BeneficiaryError,
    >)
        ensures
            (final(self)@, r) == spec_set_vault_contract(old(self)@, caller, vault_contract),
            old(self)@.wf() ==> final(self)@.wf(),
    {
        let admin = match self.admin {
            Some(a) => a,
            None => { return Err(BeneficiaryError::NotInitialized); },
        };
        if caller != admin {
            return Err(BeneficiaryError::NotAuthorized);
        }
        self.vault_contract = Some(vault_contract);
        proof {
            assert(self@ =~= spec_set_vault_contract(old(self)@, caller, vault_contract).0);
        }
        Ok(())
    }

    /// Replace the allocation stored for `vault_id`.  Succeeds exactly
    /// when the caller is the administrator and the non-empty set sums to
    /// exactly 10000 basis points.
    pub fn set_beneficiaries(
        &mut self,
        caller: Address,
        vault_id: u64,
        beneficiaries: Vec<Beneficiary>,
    ) -> (r: Result<(), BeneficiaryError>)
        requires
            old(self)@.wf(),
        ensures
            (final(self)@, r) == spec_set_beneficiaries(old(self)@, caller, vault_id, beneficiaries@),
            r is Ok <==> {
                &&& old(self)@.admin == Some(caller)
                &&& beneficiaries@.len() > 0
                &&& crate::vault::sum_percentages(beneficiaries@) == 10000
            },
            r is Ok ==> final(self)@.allocation_of(vault_id) == beneficiaries@,
            final(self)@.wf(),
    {
        let admin = match self.admin {
            Some(a) => a,
            None => { return Err(BeneficiaryError::NotInitialized); },
        };
        if caller != admin {
            return Err(BeneficiaryError::NotAuthorized);
        }
        if beneficiaries.len() == 0 {
            return Err(BeneficiaryError::NoBeneficiaries);
        }
        let n = beneficiaries.len();
        let mut sum: u64 = 0;
        let mut k: usize = 0;
        while k < n
            invariant
                k <= n,
                n == beneficiaries@.len(),
                sum == crate::vault::sum_percentages(beneficiaries@.take(k as int)),
                sum <= 10000,
                *self == *old(self),
                self@.wf(),
                self@.admin == Some(caller),
                beneficiaries@.len() > 0,
            decreases n - k,
        {
            proof {
                assert(beneficiaries@.take(k + 1).drop_last() =~= beneficiaries@.take(k as int));
                assert(beneficiaries@.take(k + 1).last() == beneficiaries@[k as int]);
            }
            sum = sum + beneficiaries[k].percentage as u64;
            k = k + 1;
            if sum > 10000 {
                proof {
                    crate::vault::lemma_sum_percentages_prefix(beneficiaries@, k as int);
                }
                return Err(BeneficiaryError::PercentageSumInvalid);
            }
        }
        proof {
            assert(beneficiaries@.take(n as int) =~= beneficiaries@);
        }
        if sum != 10000 {
            return Err(BeneficiaryError::PercentageSumInvalid);
        }
        let entry = AllocEntry { vault_id, beneficiaries };
        let m = self.allocations.len();
        let mut j: usize = 0;
        let mut found: bool = false;
        let mut idx: usize = 0;
        while j < m
            invariant
                j <= m,
                m == self.allocations@.len(),
                *self == *old(self),
                !found ==> forall|t: int|
                    0 <= t < j ==> (#[trigger] self.allocations@[t])@.vault_id != vault_id,
                found ==> idx < j && self.allocations@[idx as int]@.vault_id == vault_id,
            decreases m - j,
        {
            if !found && self.allocations[j].vault_id == vault_id {
                found = true;
                idx = j;
            }
            j = j + 1;
        }
        if found {
            proof {
                assert(self@.allocations[idx as int] == self.allocations@[idx as int]@);
                self@.lemma_alloc_index_is(vault_id, idx as int);
            }
            let slot = &mut self.allocations[idx];
            *slot = entry;
        } else {
            proof {
                assert forall|i: int|
                    0 <= i < self@.allocations.len() implies (
                #[trigger] self@.allocations[i]).vault_id != vault_id by {
                    assert(self.allocations@[i]@.vault_id != vault_id);
                }
                assert(!self@.has_allocation(vault_id));
            }
            self.allocations.push(entry);
        }
        self.events.push(BeneficiaryEvent::AllocationsSet { vault_id });
        proof {
            let pre = old(self)@;
            let target = spec_set_beneficiaries(pre, caller, vault_id, beneficiaries@).0;
            assert(self@.allocations =~= target.allocations);
            assert(self@ =~= target);
            let post = self@;
            assert forall|a: int, b: int|
                0 <= a < b < post.allocations.len() implies (
            #[trigger] post.allocations[a]).vault_id != (#[trigger] post.allocations[b]).vault_id
                by {
                if found {
                    assert(post.allocations[a].vault_id == pre.allocations[a].vault_id);
                    assert(post.allocations[b].vault_id == pre.allocations[b].vault_id);
                } else {
                    if b < post.allocations.len() - 1 {
                        assert(post.allocations[a].vault_id == pre.allocations[a].vault_id);
                        assert(post.allocations[b].vault_id == pre.allocations[b].vault_id);
                    } else {
                        assert(post.allocations[a].vault_id == pre.allocations[a].vault_id);
                        assert(pre.allocations[a].vault_id != vault_id);
                    }
                }
            }
            if found {
                post.lemma_alloc_index_is(vault_id, idx as int);
            } else {
                post.lemma_alloc_index_is(vault_id, post.allocations.len() - 1);
            }
        }
        Ok(())
    }

    /// Read a copy of the allocation stored for `vault_id`, empty if none
    /// was ever set.
    pub fn get_beneficiaries(&self, vault_id: u64) -> (r: Vec<Beneficiary>)
        requires
            self@.wf(),
        ensures
            r@ == self@.allocation_of(vault_id),
    {
        let m = self.allocations.len();
        let mut j: usize = 0;
        while j < m
            invariant
                j <= m,
                m == self.allocations@.len(),
                self@.wf(),
                forall|t: int|
                    0 <= t < j ==> (#[trigger] self.allocations@[t])@.vault_id != vault_id,
            decreases m - j,
        {
            if self.allocations[j].vault_id == vault_id {
                proof {
                    assert(self@.allocations[j as int] == self.allocations@[j as int]@);
                    self@.lemma_alloc_index_is(vault_id, j as int);
                }
                return vstd::slice::slice_to_vec(self.allocations[j].beneficiaries.as_slice());
            }
            j = j + 1;
        }
        proof {
            assert forall|i: int|
                0 <= i < self@.allocations.len() implies (
            #[trigger] self@.allocations[i]).vault_id != vault_id by {
                assert(self.allocations@[i]@.vault_id != vault_id);
            }
            assert(!self@.has_allocation(vault_id));
        }
        Vec::new()
    }

    /// Whether `claimer` has a recorded claim for `vault_id`.
    fn has_claimed(&self, vault_id: u64, claimer: Address) -> (r: bool)
        ensures
            r == self@.has_claimed(vault_id, claimer),
    {
        let m = self.claims.len();
        let mut j: usize = 0;
        while j < m
            invariant
                j <= m,
                m == self.claims@.len(),
                forall|t: int|
                    0 <= t < j ==> #[trigger] self.claims@[t] != (ClaimRecord { vault_id, claimer }),
            decreases m - j,
        {
            if self.claims[j].vault_id == vault_id && self.claims[j].claimer == claimer {
                proof {
                    assert(self@.claims[j as int] == (ClaimRecord { vault_id, claimer }));
                }
                return true;
            }
            j = j + 1;
        }
        false
    }

    /// First-match percentage of `claimer` in `vault_id`'s allocation.
    fn lookup_in_allocation(&self, vault_id: u64, claimer: Address) -> (r: Option<u32>)
        requires
            self@.wf(),
        ensures
            r == lookup_percentage(self@.allocation_of(vault_id), claimer),
    {
        let m = self.allocations.len();
        let mut j: usize = 0;
        while j < m
            invariant
                j <= m,
                m == self.allocations@.len(),
                self@.wf(),
                forall|t: int|
                    0 <= t < j ==> (#[trigger] self.allocations@[t])@.vault_id != vault_id,
            decreases m - j,
        {
            if self.allocations[j].vault_id == vault_id {
                proof {
                    assert(self@.allocations[j as int] == self.allocations@[j as int]@);
                    self@.lemma_alloc_index_is(vault_id, j as int);
                }
                return scan_percentage(&self.allocations[j].beneficiaries, claimer);
            }
            j = j + 1;
        }
        proof {
            assert forall|i: int|
                0 <= i < self@.allocations.len() implies (
            #[trigger] self@.allocations[i]).vault_id != vault_id by {
                assert(self.allocations@[i]@.vault_id != vault_id);
            }
            assert(!self@.has_allocation(vault_id));
        }
        None
    }

    /// Pure claim check: false once claimed, otherwise true exactly when
    /// the claimer appears (first match) in the stored allocation.
    pub fn can_claim(&self, vault_id: u64, claimer: Address) -> (r: bool)
        requires
            self@.wf(),
        ensures
            r == self@.claimable(vault_id, claimer),
    {
        if self.has_claimed(vault_id, claimer) {
            return false;
        }
        self.lookup_in_allocation(vault_id, claimer).is_some()
    }

    /// Record that a beneficiary has claimed; returns the claimer's
    /// percentage.  A second call for the same pair always fails with
    /// `AlreadyClaimed` and mutates nothing.
    pub fn record_claim(&mut self, caller: Address, vault_id: u64, claimer: Address) -> (r: Result<
        u32,
        BeneficiaryError,
    >)
        requires
            old(self)@.wf(),
        ensures
            (final(self)@, r) == spec_record_claim(old(self)@, caller, vault_id, claimer),
            r is Ok <==> old(self)@.admin == Some(caller) && old(self)@.claimable(vault_id, claimer),
            final(self)@.wf(),
    {
        let admin = match self.admin {
            Some(a) => a,
            None => { return Err(BeneficiaryError::NotInitialized); },
        };
        if caller != admin {
            return Err(BeneficiaryError::NotAuthorized);
        }
        if self.has_claimed(vault_id, claimer) {
            return Err(BeneficiaryError::AlreadyClaimed);
        }
        let percentage = match self.lookup_in_allocation(vault_id, claimer) {
            Some(p) => p,
            None => { return Err(BeneficiaryError::NotABeneficiary); },
        };
        self.claims.push(ClaimRecord { vault_id, claimer });
        self.events.push(BeneficiaryEvent::Claim { claimer, vault_id });
        proof {
            let target = spec_record_claim(old(self)@, caller, vault_id, claimer).0;
            assert(self@.allocations =~= target.allocations);
            assert(self@ =~= target);
        }
        Ok(percentage)
    }
}

} // verus!
