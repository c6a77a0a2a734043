use vstd::prelude::*;

verus! {

/// Account identifier.
pub type AccountId = u64;

/// Amount of funds held or moved by the ledger.
pub type Balance = u64;

/// Tick (block) number.
pub type BlockNumber = u64;

/// Abstract cost unit metered against the per-tick budget.
pub type Weight = u64;

pub type Nonce = u64;

/// Identity of a reusable plan.
#[derive(Copy, Clone, PartialEq, Eq, Debug, Default, Structural)]
pub struct PlanId(pub u64);

impl From<u64> for PlanId {
    fn from(id: u64) -> (r: Self)
        ensures
            r.0 == id,
    {
        PlanId(id)
    }
}

impl vstd::std_specs::convert::FromSpecImpl<u64> for PlanId {
    open spec fn obeys_from_spec() -> bool {
        true
    }

    open spec fn from_spec(id: u64) -> Self {
        PlanId(id)
    }
}

/// Identity of a direct (account-to-account) subscription.
#[derive(Copy, Clone, PartialEq, Eq, Debug, Default, Structural)]
pub struct SubscriptionToUserId(pub u64);

impl From<u64> for SubscriptionToUserId {
    fn from(id: u64) -> (r: Self)
        ensures
            r.0 == id,
    {
        SubscriptionToUserId(id)
    }
}

impl vstd::std_specs::convert::FromSpecImpl<u64> for SubscriptionToUserId {
    open spec fn obeys_from_spec() -> bool {
        true
    }

    open spec fn from_spec(id: u64) -> Self {
        SubscriptionToUserId(id)
    }
}

/// Where an instalment takes its terms from.
#[derive(Copy, Clone, PartialEq, Eq, Debug, Structural)]
pub enum SubscriptionId {
    Unassigned,
    Plan(PlanId),
    User(SubscriptionToUserId),
}

impl Default for SubscriptionId {
    fn default() -> (r: Self)
        ensures
            r == SubscriptionId::Unassigned,
    {
        SubscriptionId::Unassigned
    }
}

impl From<PlanId> for SubscriptionId {
    fn from(id: PlanId) -> (r: Self)
        ensures
            r == SubscriptionId::Plan(id),
    {
        SubscriptionId::Plan(id)
    }
}

impl vstd::std_specs::convert::FromSpecImpl<PlanId> for SubscriptionId {
    open spec fn obeys_from_spec() -> bool {
        true
    }

    open spec fn from_spec(id: PlanId) -> Self {
        SubscriptionId::Plan(id)
    }
}

impl From<SubscriptionToUserId> for SubscriptionId {
    fn from(id: SubscriptionToUserId) -> (r: Self)
        ensures
            r == SubscriptionId::User(id),
    {
        SubscriptionId::User(id)
    }
}

impl vstd::std_specs::convert::FromSpecImpl<SubscriptionToUserId> for SubscriptionId {
    open spec fn obeys_from_spec() -> bool {
        true
    }

    open spec fn from_spec(id: SubscriptionToUserId) -> Self {
        SubscriptionId::User(id)
    }
}

/// One pending payment obligation, as it sits in the due-queue.
#[derive(Copy, Clone, PartialEq, Eq, Debug, Structural)]
pub struct InstalmentData {
    pub subscription_id: SubscriptionId,
    /// Instalments left; `None` means unbounded.
    pub remaining_payments: Option<u32>,
    pub payer: AccountId,
}

/// The terms of a subscription: who is paid, how much and how often.
#[derive(Copy, Clone, PartialEq, Eq, Debug, Structural)]
pub struct PlanData {
    pub beneficiary: AccountId,
    pub amount: Balance,
    pub frequency: BlockNumber,
    pub number_of_instalments: Option<u32>,
}

} // verus!
