use vstd::prelude::*;
use vstd::hash_map::HashMapWithView;
use crate::balances::{after_transfer, transfer_outcome, Balances};
use crate::types::{
    AccountId, Balance, BlockNumber, InstalmentData, PlanData, PlanId, SubscriptionId,
    SubscriptionToUserId, Weight,
};
use crate::weights::{sat_add, RuntimeDbWeight};

verus! {

broadcast use vstd::std_specs::hash::group_hash_axioms;

/// Fixed parameters of a scheduler.
#[derive(Copy, Clone, PartialEq, Eq, Debug, Structural)]
pub struct Config {
    /// Work budget of one tick.
    pub maximum_weight: Weight,
    /// Cost of the storage operations that a tick performs.
    pub db_weight: RuntimeDbWeight,
    /// Largest number of metadata bytes a plan may carry.
    pub max_metadata_length: u32,
}

/// Notifications emitted by the subscription commands.
#[derive(Copy, Clone, PartialEq, Eq, Debug, Structural)]
pub enum Event {
    PlanCreated(PlanId, PlanData),
    PlanDeleted(PlanId),
    PlanClosed(PlanId),
    PlanOpened(PlanId),
    Subscription(AccountId, SubscriptionId),
    SubscriptionToUser(AccountId, PlanData, SubscriptionToUserId),
    Unsubscription(AccountId, SubscriptionId),
}

#[derive(Copy, Clone, PartialEq, Eq, Debug, Structural)]
pub enum Error {
    InvalidAmount,
    InvalidFrequency,
    InvalidNumberOfInstalment,
    CannotSubscribeToSelf,
    IndexOutOfBounds,
    NoSubscriptionPlannedAtBlock,
    CallerIsNotPayer,
    PlanDoesNotExist,
    PlanIdMustBeSome,
    MustBeOwner,
    SubscriptionsAreClosed,
}

/// Mathematical model of a scheduler.
pub struct PalletState {
    pub plan_nonce: u64,
    pub subscription_to_user_nonce: u64,
    /// Plan registry, keyed by plan id.
    pub plans: Map<u64, PlanData>,
    /// Terms of the direct subscriptions, keyed by their id.
    pub user_subscriptions: Map<u64, PlanData>,
    pub metadata: Map<u64, Seq<u8>>,
    /// Open/closed flags; a missing flag means open.
    pub closed: Map<u64, bool>,
    /// The due-queue: instalments by the tick they are due at.
    pub active: Map<BlockNumber, Seq<InstalmentData>>,
    pub block_number: BlockNumber,
    pub events: Seq<Event>,
    pub config: Config,
}

impl PalletState {
    /// Ids are handed out by the nonces: every plan, metadata entry, closed
    /// flag and direct subscription is stored under an id already issued.
    pub open spec fn wf(self) -> bool {
        &&& forall|k: u64| #[trigger] self.plans.contains_key(k) ==> k < self.plan_nonce
        &&& forall|k: u64| #[trigger] self.metadata.contains_key(k) ==> k < self.plan_nonce
        &&& forall|k: u64| #[trigger] self.closed.contains_key(k) ==> k < self.plan_nonce
        &&& forall|k: u64| #[trigger] self.user_subscriptions.contains_key(k) ==> k
            < self.subscription_to_user_nonce
    }
}

/// The instalments due at `t`; a missing bucket is empty.
pub open spec fn bucket(q: Map<BlockNumber, Seq<InstalmentData>>, t: BlockNumber) -> Seq<
    InstalmentData,
> {
    if q.contains_key(t) {
        q[t]
    } else {
        Seq::empty()
    }
}

/// The due-queue after appending `s` to the bucket at `t`.
pub open spec fn enqueue(
    q: Map<BlockNumber, Seq<InstalmentData>>,
    t: BlockNumber,
    s: Seq<InstalmentData>,
) -> Map<BlockNumber, Seq<InstalmentData>> {
    q.insert(t, bucket(q, t) + s)
}

pub open spec fn is_closed(closed: Map<u64, bool>, id: u64) -> bool {
    closed.contains_key(id) && closed[id]
}

/// The validation error that the terms of a subscription draw, if any.
pub open spec fn terms_error(amount: Balance, frequency: BlockNumber, cap: Option<u32>) -> Option<
    Error,
> {
    if frequency == 0 {
        Some(Error::InvalidFrequency)
    } else if amount == 0 {
        Some(Error::InvalidAmount)
    } else if cap == Some(0u32) {
        Some(Error::InvalidNumberOfInstalment)
    } else {
        None
    }
}

/// The terms an instalment is paid by, if they still exist.
pub open spec fn plan_of(s: PalletState, id: SubscriptionId) -> Option<PlanData> {
    match id {
        SubscriptionId::Unassigned => None,
        SubscriptionId::Plan(p) => if s.plans.contains_key(p.0) {
            Some(s.plans[p.0])
        } else {
            None
        },
        SubscriptionId::User(u) => if s.user_subscriptions.contains_key(u.0) {
            Some(s.user_subscriptions[u.0])
        } else {
            None
        },
    }
}

/// The instalment as it is rescheduled after a successful payment.
pub open spec fn next_instalment(i: InstalmentData) -> InstalmentData {
    InstalmentData {
        remaining_payments: match i.remaining_payments {
            Some(n) => Some((n - 1) as u32),
            None => None,
        },
        ..i
    }
}

/// Whether the instalment has no payment left after the one being made.
pub open spec fn last_payment(i: InstalmentData) -> bool {
    match i.remaining_payments {
        Some(n) => n <= 1,
        None => false,
    }
}

/// What a tick works on: the due-queue, the ledger and the cost so far.
pub struct TickState {
    pub active: Map<BlockNumber, Seq<InstalmentData>>,
    pub balances: Map<AccountId, Balance>,
    pub weight: Weight,
}

/// What handling one popped instalment does to the tick: one read to look
/// up its terms; if they exist, a transfer attempt (one read and one
/// write); if the transfer went through, payments are left and the next tick
/// fits, the instalment is appended to the bucket `frequency` ticks later
/// (another read and write).
pub open spec fn pay_step(
    s: PalletState,
    existential_deposit: Balance,
    tick: BlockNumber,
    st: TickState,
    inst: InstalmentData,
) -> TickState {
    let rw = s.config.db_weight.spec_read_write();
    let read = sat_add(st.weight, s.config.db_weight.read);
    match plan_of(s, inst.subscription_id) {
        None => TickState { weight: read, ..st },
        Some(plan) => {
            let paid = sat_add(read, rw);
            let outcome = transfer_outcome(
                st.balances,
                existential_deposit,
                inst.payer,
                plan.beneficiary,
                plan.amount,
            );
            let balances = after_transfer(
                st.balances,
                existential_deposit,
                inst.payer,
                plan.beneficiary,
                plan.amount,
            );
            if outcome is Err || last_payment(inst) || tick + plan.frequency > u64::MAX {
                TickState { balances, weight: paid, ..st }
            } else {
                TickState {
                    active: enqueue(
                        st.active,
                        (tick + plan.frequency) as BlockNumber,
                        seq![next_instalment(inst)],
                    ),
                    balances,
                    weight: sat_add(paid, rw),
                }
            }
        },
    }
}

/// Drains `pending`, the taken bucket of tick `tick`, from its tail, one
/// `pay_step` per entry. Once `st.weight` reaches the budget, the rest of
/// `pending` is appended to the bucket of the next tick.
pub open spec fn drain(
    s: PalletState,
    existential_deposit: Balance,
    tick: BlockNumber,
    st: TickState,
    pending: Seq<InstalmentData>,
) -> TickState
    decreases pending.len(),
{
    if st.weight >= s.config.maximum_weight {
        if pending.len() == 0 {
            st
        } else {
            TickState {
                active: enqueue(st.active, (tick + 1) as BlockNumber, pending),
                weight: sat_add(st.weight, s.config.db_weight.spec_read_write()),
                ..st
            }
        }
    } else if pending.len() == 0 {
        st
    } else {
        drain(
            s,
            existential_deposit,
            tick,
            pay_step(s, existential_deposit, tick, st, pending.last()),
            pending.drop_last(),
        )
    }
}

/// How many entries of `pending` the drain never reaches: they are the ones
/// moved to the next tick.
pub open spec fn carried(
    s: PalletState,
    existential_deposit: Balance,
    tick: BlockNumber,
    st: TickState,
    pending: Seq<InstalmentData>,
) -> nat
    decreases pending.len(),
{
    if st.weight >= s.config.maximum_weight {
        pending.len()
    } else if pending.len() == 0 {
        0
    } else {
        carried(
            s,
            existential_deposit,
            tick,
            pay_step(s, existential_deposit, tick, st, pending.last()),
            pending.drop_last(),
        )
    }
}

/// Everything one tick does, from the state before it.
pub open spec fn process_tick(
    s: PalletState,
    existential_deposit: Balance,
    balances: Map<AccountId, Balance>,
    tick: BlockNumber,
) -> TickState {
    drain(
        s,
        existential_deposit,
        tick,
        TickState {
            active: s.active.remove(tick),
            balances,
            weight: s.config.db_weight.spec_read_write(),
        },
        bucket(s.active, tick),
    )
}

/// The recurring-payment scheduler: plan registry, due-queue and tick processor.
pub struct Pallet {
    plan_nonce: u64,
    subscription_to_user_nonce: u64,
    subscription_plan: HashMapWithView<u64, PlanData>,
    subscription_to_user: HashMapWithView<u64, PlanData>,
    plan_metadata: HashMapWithView<u64, Vec<u8>>,
    are_subscriptions_closed: HashMapWithView<u64, bool>,
    active_subscriptions: HashMapWithView<BlockNumber, Vec<InstalmentData>>,
    block_number: BlockNumber,
    events: Vec<Event>,
    config: Config,
}

impl View for Pallet {
    type V = PalletState;

    closed spec fn view(&self) -> PalletState {
        PalletState {
            plan_nonce: self.plan_nonce,
            subscription_to_user_nonce: self.subscription_to_user_nonce,
            plans: self.subscription_plan@,
            user_subscriptions: self.subscription_to_user@,
            metadata: self.plan_metadata@.map_values(|v: Vec<u8>| v@),
            closed: self.are_subscriptions_closed@,
            active: self.active_subscriptions@.map_values(|v: Vec<InstalmentData>| v@),
            block_number: self.block_number,
            events: self.events@,
            config: self.config,
        }
    }
}

proof fn lemma_view_insert(m: Map<BlockNumber, Vec<InstalmentData>>, k: BlockNumber, v: Vec<InstalmentData>)
    ensures
        m.insert(k, v).map_values(|v: Vec<InstalmentData>| v@) =~= m.map_values(|v: Vec<InstalmentData>| v@).insert(k, v@),
{
}

proof fn lemma_bytes_view_insert(m: Map<u64, Vec<u8>>, k: u64, v: Vec<u8>)
    ensures
        m.insert(k, v).map_values(|v: Vec<u8>| v@) =~= m.map_values(|v: Vec<u8>| v@).insert(k, v@),
{
}

fn copy_vec<T: Copy>(v: &Vec<T>) -> (r: Vec<T>)
    ensures
        r@ == v@,
{
    let mut r: Vec<T> = Vec::new();
    let mut i: usize = 0;
    while i < v.len()
        invariant
            i <= v.len(),
            r@ == v@.subrange(0, i as int),
        decreases v.len() - i,
    {
        r.push(v[i]);
        i = i + 1;
    }
    assert(r@ =~= v@);
    r
}

impl Pallet {
    /// An empty scheduler at tick zero.
    pub fn new(config: Config) -> (r: Self)
        ensures
            r@ == (PalletState {
                plan_nonce: 0,
                subscription_to_user_nonce: 0,
                plans: Map::empty(),
                user_subscriptions: Map::empty(),
                metadata: Map::empty(),
                closed: Map::empty(),
                active: Map::empty(),
                block_number: 0,
                events: Seq::empty(),
                config,
            }),
            r@.wf(),
    {
        let r = Pallet {
            plan_nonce: 0,
            subscription_to_user_nonce: 0,
            subscription_plan: HashMapWithView::new(),
            subscription_to_user: HashMapWithView::new(),
            plan_metadata: HashMapWithView::new(),
            are_subscriptions_closed: HashMapWithView::new(),
            active_subscriptions: HashMapWithView::new(),
            block_number: 0,
            events: Vec::new(),
            config,
        };
        assert(r@.metadata =~= Map::empty());
        assert(r@.active =~= Map::empty());
        r
    }

    /// Removes and returns the whole bucket at `when`.
    fn take_bucket(&mut self, when: BlockNumber) -> (r: Vec<InstalmentData>)
        ensures
            r@ == bucket(old(self)@.active, when),
            final(self)@ == (PalletState { active: old(self)@.active.remove(when), ..old(self)@ }),
    {
        let r = match self.active_subscriptions.remove(&when) {
            Some(v) => v,
            None => Vec::new(),
        };
        assert(self@.active =~= old(self)@.active.remove(when));
        r
    }

    /// Appends `new_subscriptions` to the bucket at `when`.
    fn schedule_subscriptions(&mut self, when: BlockNumber, new_subscriptions: Vec<InstalmentData>)
        ensures
            final(self)@ == (PalletState {
                active: enqueue(old(self)@.active, when, new_subscriptions@),
                ..old(self)@
            }),
    {
        let ghost added = new_subscriptions@;
        let mut new_subscriptions = new_subscriptions;
        let mut current = self.take_bucket(when);
        current.append(&mut new_subscriptions);
        let ghost mid = self.active_subscriptions@;
        proof {
            lemma_view_insert(mid, when, current);
        }
        self.active_subscriptions.insert(when, current);
        assert(self@.active =~= enqueue(old(self)@.active, when, added));
    }
}

impl Pallet {
    /// The terms an instalment is paid by.
    fn get_plan_form_id(&self, plan_id: SubscriptionId) -> (r: Result<PlanData, Error>)
        ensures
            match plan_of(self@, plan_id) {
                Some(p) => r == Ok::<PlanData, Error>(p),
                None => r == Err::<PlanData, Error>(
                    if plan_id is Unassigned {
                        Error::PlanIdMustBeSome
                    } else {
                        Error::PlanDoesNotExist
                    },
                ),
            },
    {
        let found = match plan_id {
            SubscriptionId::Unassigned => {
                return Err(Error::PlanIdMustBeSome);
            },
            SubscriptionId::Plan(id) => self.subscription_plan.get(&id.0),
            SubscriptionId::User(id) => self.subscription_to_user.get(&id.0),
        };
        match found {
            Some(p) => Ok(*p),
            None => Err(Error::PlanDoesNotExist),
        }
    }

    /// Runs the tick `block_number`: takes its bucket and pays the instalments
    /// from its tail while the work budget lasts. A paid instalment with
    /// payments left is rescheduled `frequency` ticks later; one whose transfer
    /// failed, whose last payment this was, whose terms are gone, or whose
    /// next tick would lie past the largest tick is dropped. Once the budget is spent, what is left of the bucket moves
    /// whole to the next tick. Returns the cost consumed.
    pub fn on_initialize(&mut self, balances: &mut Balances, block_number: BlockNumber) -> (w:
        Weight)
        requires
            old(self)@.wf(),
            block_number < u64::MAX,
        ensures
            ({
                let r = process_tick(
                    old(self)@,
                    old(balances).spec_existential_deposit(),
                    old(balances)@,
                    block_number,
                );
                &&& final(self)@ == (PalletState { active: r.active, ..old(self)@ })
                &&& final(balances)@ == r.balances
                &&& w == r.weight
            }),
            final(balances).spec_existential_deposit() == old(balances).spec_existential_deposit(),
            final(self)@.wf(),
    {
        let ghost s0 = self@;
        let ghost ed = balances.spec_existential_deposit();
        let ghost target = process_tick(s0, ed, balances@, block_number);
        let limit = self.config.maximum_weight;
        let read = self.config.db_weight.read;
        let rw = read.saturating_add(self.config.db_weight.write);
        let mut scheduled = self.take_bucket(block_number);
        let mut total_weight: Weight = rw;
        loop
            invariant
                drain(
                    s0,
                    ed,
                    block_number,
                    TickState { active: self@.active, balances: balances@, weight: total_weight },
                    scheduled@,
                ) == target,
                self@ == (PalletState { active: self@.active, ..s0 }),
                balances.spec_existential_deposit() == ed,
                ed == old(balances).spec_existential_deposit(),
                s0 == old(self)@,
                s0.wf(),
                target == process_tick(s0, ed, old(balances)@, block_number),
                block_number < u64::MAX,
                limit == s0.config.maximum_weight,
                read == s0.config.db_weight.read,
                rw == s0.config.db_weight.spec_read_write(),
            decreases scheduled.len(),
        {
            if total_weight >= limit {
                if scheduled.len() > 0 {
                    self.schedule_subscriptions(block_number + 1, scheduled);
                    total_weight = total_weight.saturating_add(rw);
                }
                return total_weight;
            }
            let sub_info = match scheduled.pop() {
                Some(data) => data,
                None => {
                    return total_weight;
                },
            };
            total_weight = total_weight.saturating_add(read);
            let plan_data = match self.get_plan_form_id(sub_info.subscription_id) {
                Ok(data) => data,
                Err(_) => {
                    continue;
                },
            };
            let res_transfer = balances.transfer(
                sub_info.payer,
                plan_data.beneficiary,
                plan_data.amount,
            );
            total_weight = total_weight.saturating_add(rw);
            if res_transfer.is_err() {
                continue;
            }
            let next_remaining = match sub_info.remaining_payments {
                Some(n) => {
                    if n <= 1 {
                        continue;
                    }
                    Some(n - 1)
                },
                None => None,
            };
            match block_number.checked_add(plan_data.frequency) {
                Some(when) => {
                    let mut next = Vec::new();
                    next.push(InstalmentData { remaining_payments: next_remaining, ..sub_info });
                    self.schedule_subscriptions(when, next);
                    total_weight = total_weight.saturating_add(rw);
                },
                None => {},
            }
        }
    }
}

impl Pallet {
    /// Creates a plan whose beneficiary is `origin`, under the next plan id.
    pub fn create_plan(
        &mut self,
        origin: AccountId,
        amount: Balance,
        frequency: BlockNumber,
        number_of_instalments: Option<u32>,
        metadata: Vec<u8>,
    ) -> (r: Result<(), Error>)
        requires
            old(self)@.wf(),
            old(self)@.plan_nonce < u64::MAX,
            metadata@.len() <= old(self)@.config.max_metadata_length,
        ensures
            match terms_error(amount, frequency, number_of_instalments) {
                Some(e) => r == Err::<(), Error>(e) && final(self)@ == old(self)@,
                None => {
                    let id = old(self)@.plan_nonce;
                    let plan = PlanData { beneficiary: origin, amount, frequency, number_of_instalments };
                    &&& r is Ok
                    &&& final(self)@ == (PalletState {
                        plan_nonce: (id + 1) as u64,
                        plans: old(self)@.plans.insert(id, plan),
                        metadata: old(self)@.metadata.insert(id, metadata@),
                        events: old(self)@.events.push(Event::PlanCreated(PlanId(id), plan)),
                        ..old(self)@
                    })
                    &&& !old(self)@.plans.contains_key(id)
                    &&& !is_closed(final(self)@.closed, id)
                },
            },
            final(self)@.wf(),
    {
        if frequency == 0 {
            return Err(Error::InvalidFrequency);
        }
        if amount == 0 {
            return Err(Error::InvalidAmount);
        }
        match number_of_instalments {
            Some(x) => {
                if x < 1 {
                    return Err(Error::InvalidNumberOfInstalment);
                }
            },
            None => {},
        }
        let nonce = self.plan_nonce;
        assert(!self@.closed.contains_key(nonce));
        self.plan_nonce = nonce + 1;
        let id = PlanId::from(nonce);
        let plan_data = PlanData { beneficiary: origin, amount, frequency, number_of_instalments };
        self.subscription_plan.insert(id.0, plan_data);
        let ghost mid = self.plan_metadata@;
        proof {
            lemma_bytes_view_insert(mid, id.0, metadata);
        }
        self.plan_metadata.insert(id.0, metadata);
        self.events.push(Event::PlanCreated(id, plan_data));
        Ok(())
    }

    /// Removes a plan with its metadata and flag; instalments already
    /// scheduled from it stay in the due-queue.
    pub fn delete_plan(&mut self, origin: AccountId, plan_id: PlanId) -> (r: Result<(), Error>)
        requires
            old(self)@.wf(),
        ensures
            !old(self)@.plans.contains_key(plan_id.0) ==> r == Err::<(), Error>(
                Error::PlanDoesNotExist,
            ) && final(self)@ == old(self)@,
            old(self)@.plans.contains_key(plan_id.0) && old(self)@.plans[plan_id.0].beneficiary
                != origin ==> r == Err::<(), Error>(Error::MustBeOwner) && final(self)@ == old(
                self,
            )@,
            old(self)@.plans.contains_key(plan_id.0) && old(self)@.plans[plan_id.0].beneficiary
                == origin ==> r is Ok && final(self)@ == (PalletState {
                plans: old(self)@.plans.remove(plan_id.0),
                metadata: old(self)@.metadata.remove(plan_id.0),
                closed: old(self)@.closed.remove(plan_id.0),
                events: old(self)@.events.push(Event::PlanDeleted(plan_id)),
                ..old(self)@
            }),
            final(self)@.wf(),
    {
        let plan = match self.subscription_plan.get(&plan_id.0) {
            Some(p) => *p,
            None => {
                return Err(Error::PlanDoesNotExist);
            },
        };
        if plan.beneficiary != origin {
            return Err(Error::MustBeOwner);
        }
        self.remove_plan_from_storage(plan_id);
        self.events.push(Event::PlanDeleted(plan_id));
        Ok(())
    }

    fn remove_plan_from_storage(&mut self, plan_id: PlanId)
        ensures
            final(self)@ == (PalletState {
                plans: old(self)@.plans.remove(plan_id.0),
                metadata: old(self)@.metadata.remove(plan_id.0),
                closed: old(self)@.closed.remove(plan_id.0),
                ..old(self)@
            }),
    {
        self.subscription_plan.remove(&plan_id.0);
        self.plan_metadata.remove(&plan_id.0);
        self.are_subscriptions_closed.remove(&plan_id.0);
        assert(self@.plans =~= old(self)@.plans.remove(plan_id.0));
        assert(self@.metadata =~= old(self)@.metadata.remove(plan_id.0));
        assert(self@.closed =~= old(self)@.closed.remove(plan_id.0));
    }

    /// Sets the plan's closed flag, for its owner only.
    fn set_closed(&mut self, origin: AccountId, plan_id: PlanId, closed: bool) -> (r: Result<
        (),
        Error,
    >)
        ensures
            !old(self)@.plans.contains_key(plan_id.0) ==> r == Err::<(), Error>(
                Error::PlanDoesNotExist,
            ) && final(self)@ == old(self)@,
            old(self)@.plans.contains_key(plan_id.0) && old(self)@.plans[plan_id.0].beneficiary
                != origin ==> r == Err::<(), Error>(Error::MustBeOwner) && final(self)@ == old(
                self,
            )@,
            old(self)@.plans.contains_key(plan_id.0) && old(self)@.plans[plan_id.0].beneficiary
                == origin ==> r is Ok && final(self)@ == (PalletState {
                closed: old(self)@.closed.insert(plan_id.0, closed),
                ..old(self)@
            }),
    {
        let plan = match self.subscription_plan.get(&plan_id.0) {
            Some(p) => *p,
            None => {
                return Err(Error::PlanDoesNotExist);
            },
        };
        if plan.beneficiary != origin {
            return Err(Error::MustBeOwner);
        }
        self.are_subscriptions_closed.insert(plan_id.0, closed);
        Ok(())
    }

    /// Stops new subscriptions to the plan; idempotent.
    pub fn close_plan(&mut self, origin: AccountId, plan_id: PlanId) -> (r: Result<(), Error>)
        requires
            old(self)@.wf(),
        ensures
            !old(self)@.plans.contains_key(plan_id.0) ==> r == Err::<(), Error>(
                Error::PlanDoesNotExist,
            ) && final(self)@ == old(self)@,
            old(self)@.plans.contains_key(plan_id.0) && old(self)@.plans[plan_id.0].beneficiary
                != origin ==> r == Err::<(), Error>(Error::MustBeOwner) && final(self)@ == old(
                self,
            )@,
            old(self)@.plans.contains_key(plan_id.0) && old(self)@.plans[plan_id.0].beneficiary
                == origin ==> r is Ok && final(self)@ == (PalletState {
                closed: old(self)@.closed.insert(plan_id.0, true),
                events: old(self)@.events.push(Event::PlanClosed(plan_id)),
                ..old(self)@
            }),
            final(self)@.wf(),
    {
        let r = self.set_closed(origin, plan_id, true);
        if r.is_ok() {
            self.events.push(Event::PlanClosed(plan_id));
        }
        r
    }

    /// Accepts new subscriptions to the plan again; idempotent.
    pub fn open_plan(&mut self, origin: AccountId, plan_id: PlanId) -> (r: Result<(), Error>)
        requires
            old(self)@.wf(),
        ensures
            !old(self)@.plans.contains_key(plan_id.0) ==> r == Err::<(), Error>(
                Error::PlanDoesNotExist,
            ) && final(self)@ == old(self)@,
            old(self)@.plans.contains_key(plan_id.0) && old(self)@.plans[plan_id.0].beneficiary
                != origin ==> r == Err::<(), Error>(Error::MustBeOwner) && final(self)@ == old(
                self,
            )@,
            old(self)@.plans.contains_key(plan_id.0) && old(self)@.plans[plan_id.0].beneficiary
                == origin ==> r is Ok && final(self)@ == (PalletState {
                closed: old(self)@.closed.insert(plan_id.0, false),
                events: old(self)@.events.push(Event::PlanOpened(plan_id)),
                ..old(self)@
            }),
            final(self)@.wf(),
    {
        let r = self.set_closed(origin, plan_id, false);
        if r.is_ok() {
            self.events.push(Event::PlanOpened(plan_id));
        }
        r
    }

    /// Subscribes `origin` to a plan; the first payment is due next tick.
    pub fn subscribe_to_plan(&mut self, origin: AccountId, plan_id: PlanId) -> (r: Result<(), Error>)
        requires
            old(self)@.wf(),
            old(self)@.block_number < u64::MAX,
        ensures
            !old(self)@.plans.contains_key(plan_id.0) ==> r == Err::<(), Error>(
                Error::PlanDoesNotExist,
            ) && final(self)@ == old(self)@,
            old(self)@.plans.contains_key(plan_id.0) && old(self)@.plans[plan_id.0].beneficiary
                == origin ==> r == Err::<(), Error>(Error::CannotSubscribeToSelf) && final(self)@
                == old(self)@,
            old(self)@.plans.contains_key(plan_id.0) && old(self)@.plans[plan_id.0].beneficiary
                != origin && is_closed(old(self)@.closed, plan_id.0) ==> r == Err::<(), Error>(
                Error::SubscriptionsAreClosed,
            ) && final(self)@ == old(self)@,
            old(self)@.plans.contains_key(plan_id.0) && !is_closed(old(self)@.closed, plan_id.0)
                && old(self)@.plans[plan_id.0].beneficiary != origin ==> r is Ok && final(self)@
                == (PalletState {
                active: enqueue(
                    old(self)@.active,
                    (old(self)@.block_number + 1) as BlockNumber,
                    seq![
                        InstalmentData {
                            subscription_id: SubscriptionId::Plan(plan_id),
                            remaining_payments: old(self)@.plans[plan_id.0].number_of_instalments,
                            payer: origin,
                        },
                    ],
                ),
                events: old(self)@.events.push(
                    Event::Subscription(origin, SubscriptionId::Plan(plan_id)),
                ),
                ..old(self)@
            }),
            final(self)@.wf(),
    {
        let plan = match self.subscription_plan.get(&plan_id.0) {
            Some(p) => *p,
            None => {
                return Err(Error::PlanDoesNotExist);
            },
        };
        if plan.beneficiary == origin {
            return Err(Error::CannotSubscribeToSelf);
        }
        if self.are_subscriptions_closed(plan_id) {
            return Err(Error::SubscriptionsAreClosed);
        }
        let subscription_id = SubscriptionId::from(plan_id);
        let next_block_number = self.block_number + 1;
        let mut new_subscription = Vec::new();
        new_subscription.push(
            InstalmentData {
                subscription_id,
                remaining_payments: plan.number_of_instalments,
                payer: origin,
            },
        );
        self.schedule_subscriptions(next_block_number, new_subscription);
        self.events.push(Event::Subscription(origin, subscription_id));
        Ok(())
    }

    /// Subscribes `origin` directly to `to`, on terms of its own; the first
    /// payment is due next tick.
    pub fn subscribe_to_account(
        &mut self,
        origin: AccountId,
        to: AccountId,
        amount: Balance,
        frequency: BlockNumber,
        number_of_instalments: Option<u32>,
    ) -> (r: Result<(), Error>)
        requires
            old(self)@.wf(),
            old(self)@.subscription_to_user_nonce < u64::MAX,
            old(self)@.block_number < u64::MAX,
        ensures
            terms_error(amount, frequency, number_of_instalments) matches Some(e) ==> r == Err::<
                (),
                Error,
            >(e) && final(self)@ == old(self)@,
            terms_error(amount, frequency, number_of_instalments) is None && origin == to ==> r
                == Err::<(), Error>(Error::CannotSubscribeToSelf) && final(self)@ == old(self)@,
            terms_error(amount, frequency, number_of_instalments) is None && origin != to ==> {
                let id = old(self)@.subscription_to_user_nonce;
                let plan = PlanData { beneficiary: to, amount, frequency, number_of_instalments };
                &&& r is Ok
                &&& final(self)@ == (PalletState {
                    subscription_to_user_nonce: (id + 1) as u64,
                    user_subscriptions: old(self)@.user_subscriptions.insert(id, plan),
                    active: enqueue(
                        old(self)@.active,
                        (old(self)@.block_number + 1) as BlockNumber,
                        seq![
                            InstalmentData {
                                subscription_id: SubscriptionId::User(SubscriptionToUserId(id)),
                                remaining_payments: number_of_instalments,
                                payer: origin,
                            },
                        ],
                    ),
                    events: old(self)@.events.push(
                        Event::SubscriptionToUser(origin, plan, SubscriptionToUserId(id)),
                    ),
                    ..old(self)@
                })
            },
            final(self)@.wf(),
    {
        if frequency == 0 {
            return Err(Error::InvalidFrequency);
        }
        if amount == 0 {
            return Err(Error::InvalidAmount);
        }
        match number_of_instalments {
            Some(x) => {
                if x < 1 {
                    return Err(Error::InvalidNumberOfInstalment);
                }
            },
            None => {},
        }
        if origin == to {
            return Err(Error::CannotSubscribeToSelf);
        }
        let nonce = self.subscription_to_user_nonce;
        self.subscription_to_user_nonce = nonce + 1;
        let id = SubscriptionToUserId::from(nonce);
        let plan_data = PlanData { beneficiary: to, amount, frequency, number_of_instalments };
        self.subscription_to_user.insert(id.0, plan_data);
        let next_block_number = self.block_number + 1;
        let mut new_subscription = Vec::new();
        new_subscription.push(
            InstalmentData {
                subscription_id: SubscriptionId::from(id),
                remaining_payments: number_of_instalments,
                payer: origin,
            },
        );
        self.schedule_subscriptions(next_block_number, new_subscription);
        self.events.push(Event::SubscriptionToUser(origin, plan_data, id));
        Ok(())
    }

    /// Cancels the instalment at position `index` of the bucket at `when`,
    /// for its payer only. The last entry of the bucket takes its place.
    pub fn unsubscribe(&mut self, origin: AccountId, when: BlockNumber, index: u32) -> (r: Result<
        (),
        Error,
    >)
        requires
            old(self)@.wf(),
        ensures
            ({
                let b = bucket(old(self)@.active, when);
                &&& b.len() == 0 ==> r == Err::<(), Error>(Error::NoSubscriptionPlannedAtBlock)
                    && final(self)@ == old(self)@
                &&& b.len() > 0 && index >= b.len() ==> r == Err::<(), Error>(
                    Error::IndexOutOfBounds,
                ) && final(self)@ == old(self)@
                &&& index < b.len() && b[index as int].payer != origin ==> r == Err::<(), Error>(
                    Error::CallerIsNotPayer,
                ) && final(self)@ == old(self)@
                &&& index < b.len() && b[index as int].payer == origin ==> {
                    let removed = b[index as int];
                    &&& r is Ok
                    &&& final(self)@ == (PalletState {
                        active: old(self)@.active.insert(
                            when,
                            b.update(index as int, b.last()).drop_last(),
                        ),
                        user_subscriptions: match removed.subscription_id {
                            SubscriptionId::User(id) => old(self)@.user_subscriptions.remove(id.0),
                            _ => old(self)@.user_subscriptions,
                        },
                        events: old(self)@.events.push(
                            Event::Unsubscription(origin, removed.subscription_id),
                        ),
                        ..old(self)@
                    })
                }
            }),
            final(self)@.wf(),
    {
        let len = match self.active_subscriptions.get(&when) {
            Some(v) => v.len(),
            None => 0,
        };
        if len == 0 {
            return Err(Error::NoSubscriptionPlannedAtBlock);
        }
        let index = index as usize;
        if index >= len {
            return Err(Error::IndexOutOfBounds);
        }
        let payer = match self.active_subscriptions.get(&when) {
            Some(v) => v[index].payer,
            None => origin,
        };
        if payer != origin {
            return Err(Error::CallerIsNotPayer);
        }
        let mut instalments = self.take_bucket(when);
        let subscription_data = instalments.swap_remove(index);
        let ghost mid = self.active_subscriptions@;
        proof {
            lemma_view_insert(mid, when, instalments);
        }
        self.active_subscriptions.insert(when, instalments);
        assert(self@.active =~= old(self)@.active.insert(when, self@.active[when]));
        match subscription_data.subscription_id {
            SubscriptionId::User(id) => {
                self.subscription_to_user.remove(&id.0);
                assert(self@.user_subscriptions =~= old(self)@.user_subscriptions.remove(id.0));
            },
            _ => {},
        }
        self.events.push(Event::Unsubscription(origin, subscription_data.subscription_id));
        Ok(())
    }
}

impl Pallet {
    pub fn plan_nonce(&self) -> (r: u64)
        ensures
            r == self@.plan_nonce,
    {
        self.plan_nonce
    }

    pub fn subscription_to_user_nonce(&self) -> (r: u64)
        ensures
            r == self@.subscription_to_user_nonce,
    {
        self.subscription_to_user_nonce
    }

    pub fn subscription_plan(&self, plan_id: PlanId) -> (r: Option<PlanData>)
        ensures
            r == (if self@.plans.contains_key(plan_id.0) {
                Some(self@.plans[plan_id.0])
            } else {
                None
            }),
    {
        match self.subscription_plan.get(&plan_id.0) {
            Some(p) => Some(*p),
            None => None,
        }
    }

    pub fn subscription_to_user(&self, id: SubscriptionToUserId) -> (r: Option<PlanData>)
        ensures
            r == (if self@.user_subscriptions.contains_key(id.0) {
                Some(self@.user_subscriptions[id.0])
            } else {
                None
            }),
    {
        match self.subscription_to_user.get(&id.0) {
            Some(p) => Some(*p),
            None => None,
        }
    }

    pub fn plan_metadata(&self, plan_id: PlanId) -> (r: Option<Vec<u8>>)
        ensures
            match r {
                Some(v) => self@.metadata.contains_key(plan_id.0) && v@ == self@.metadata[plan_id.0],
                None => !self@.metadata.contains_key(plan_id.0),
            },
    {
        match self.plan_metadata.get(&plan_id.0) {
            Some(v) => Some(copy_vec(v)),
            None => None,
        }
    }

    pub fn are_subscriptions_closed(&self, plan_id: PlanId) -> (r: bool)
        ensures
            r == is_closed(self@.closed, plan_id.0),
    {
        match self.are_subscriptions_closed.get(&plan_id.0) {
            Some(c) => *c,
            None => false,
        }
    }

    /// The instalments due at `when`, in bucket order.
    pub fn active_subscriptions(&self, when: BlockNumber) -> (r: Vec<InstalmentData>)
        ensures
            r@ == bucket(self@.active, when),
    {
        match self.active_subscriptions.get(&when) {
            Some(v) => copy_vec(v),
            None => Vec::new(),
        }
    }

    /// The notifications emitted so far, oldest first.
    pub fn events(&self) -> (r: &Vec<Event>)
        ensures
            r@ == self@.events,
    {
        &self.events
    }

    pub fn block_number(&self) -> (r: BlockNumber)
        ensures
            r == self@.block_number,
    {
        self.block_number
    }

    /// Moves the clock to tick `n`.
    pub fn set_block_number(&mut self, n: BlockNumber)
        requires
            old(self)@.wf(),
        ensures
            final(self)@ == (PalletState { block_number: n, ..old(self)@ }),
            final(self)@.wf(),
    {
        self.block_number = n;
    }

    pub fn config(&self) -> (r: Config)
        ensures
            r == self@.config,
    {
        self.config
    }
}

} // verus!
