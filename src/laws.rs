use vstd::prelude::*;
use crate::balances::{after_transfer, apply_transfer, balance_of, transfer_outcome};
use crate::pallet::{
    bucket, carried, drain, enqueue, last_payment, next_instalment, pay_step, plan_of,
    process_tick, PalletState, TickState,
};
use crate::weights::sat_add;
use crate::types::{AccountId, Balance, BlockNumber, InstalmentData};

verus! {

/// Every bucket of `q1` is a prefix of the same bucket in `q2`: `q2` only
/// appended to `q1`.
pub open spec fn extends(
    q1: Map<BlockNumber, Seq<InstalmentData>>,
    q2: Map<BlockNumber, Seq<InstalmentData>>,
) -> bool {
    forall|k: BlockNumber| #[trigger] bucket(q1, k).is_prefix_of(bucket(q2, k))
}

proof fn lemma_enqueue_extends(
    q: Map<BlockNumber, Seq<InstalmentData>>,
    t: BlockNumber,
    x: Seq<InstalmentData>,
)
    ensures
        extends(q, enqueue(q, t, x)),
{
    assert forall|k: BlockNumber| #[trigger] bucket(q, k).is_prefix_of(
        bucket(enqueue(q, t, x), k),
    ) by {
        if k == t {
            assert(bucket(q, k) =~= (bucket(q, k) + x).subrange(0, bucket(q, k).len() as int));
        } else {
            assert(bucket(q, k) =~= bucket(enqueue(q, t, x), k).subrange(0, bucket(q, k).len() as int));
        }
    }
}

proof fn lemma_extends_trans(
    q1: Map<BlockNumber, Seq<InstalmentData>>,
    q2: Map<BlockNumber, Seq<InstalmentData>>,
    q3: Map<BlockNumber, Seq<InstalmentData>>,
)
    requires
        extends(q1, q2),
        extends(q2, q3),
    ensures
        extends(q1, q3),
{
    assert forall|k: BlockNumber| #[trigger] bucket(q1, k).is_prefix_of(bucket(q3, k)) by {
        let a = bucket(q1, k);
        let b = bucket(q2, k);
        let c = bucket(q3, k);
        assert(a.is_prefix_of(b));
        assert(b.is_prefix_of(c));
        assert(a =~= c.subrange(0, a.len() as int));
    }
}

proof fn lemma_extends_refl(q: Map<BlockNumber, Seq<InstalmentData>>)
    ensures
        extends(q, q),
{
    assert forall|k: BlockNumber| #[trigger] bucket(q, k).is_prefix_of(bucket(q, k)) by {
        assert(bucket(q, k) =~= bucket(q, k).subrange(0, bucket(q, k).len() as int));
    }
}

/// A tick never takes anything out of a bucket once it has started: it only
/// appends.
pub proof fn lemma_drain_only_appends(
    s: PalletState,
    existential_deposit: Balance,
    tick: BlockNumber,
    st: TickState,
    pending: Seq<InstalmentData>,
)
    ensures
        extends(st.active, drain(s, existential_deposit, tick, st, pending).active),
    decreases pending.len(),
{
    if st.weight >= s.config.maximum_weight {
        if pending.len() == 0 {
            lemma_extends_refl(st.active);
        } else {
            lemma_enqueue_extends(st.active, (tick + 1) as BlockNumber, pending);
        }
    } else if pending.len() == 0 {
        lemma_extends_refl(st.active);
    } else {
        let inst = pending.last();
        let st1 = pay_step(s, existential_deposit, tick, st, inst);
        if st1.active == st.active {
            lemma_extends_refl(st.active);
        } else {
            let plan = plan_of(s, inst.subscription_id)->0;
            lemma_enqueue_extends(
                st.active,
                (tick + plan.frequency) as BlockNumber,
                seq![next_instalment(inst)],
            );
        }
        lemma_drain_only_appends(s, existential_deposit, tick, st1, pending.drop_last());
        lemma_extends_trans(
            st.active,
            st1.active,
            drain(s, existential_deposit, tick, st1, pending.drop_last()).active,
        );
    }
}

/// At any point of a tick, with any other entries around it: an instalment
/// reached while budget is left, whose transfer goes through, with payments
/// left and a next tick that fits, is paid once and appended, with one
/// payment fewer (or still open-ended), to the bucket `frequency` ticks later,
/// where it stays for the rest of the tick.
pub proof fn lemma_paid_instalment_rescheduled(
    s: PalletState,
    existential_deposit: Balance,
    tick: BlockNumber,
    st: TickState,
    pending: Seq<InstalmentData>,
)
    requires
        st.weight < s.config.maximum_weight,
        pending.len() > 0,
        plan_of(s, pending.last().subscription_id) is Some,
        transfer_outcome(
            st.balances,
            existential_deposit,
            pending.last().payer,
            plan_of(s, pending.last().subscription_id)->0.beneficiary,
            plan_of(s, pending.last().subscription_id)->0.amount,
        ) is Ok,
        !last_payment(pending.last()),
        tick + plan_of(s, pending.last().subscription_id)->0.frequency <= u64::MAX,
    ensures
        ({
            let inst = pending.last();
            let plan = plan_of(s, inst.subscription_id)->0;
            let due = (tick + plan.frequency) as BlockNumber;
            let after = TickState {
                active: enqueue(st.active, due, seq![next_instalment(inst)]),
                balances: apply_transfer(st.balances, inst.payer, plan.beneficiary, plan.amount),
                weight: sat_add(
                    sat_add(
                        sat_add(st.weight, s.config.db_weight.read),
                        s.config.db_weight.spec_read_write(),
                    ),
                    s.config.db_weight.spec_read_write(),
                ),
            };
            &&& drain(s, existential_deposit, tick, st, pending) == drain(
                s,
                existential_deposit,
                tick,
                after,
                pending.drop_last(),
            )
            &&& (bucket(st.active, due) + seq![next_instalment(inst)]).is_prefix_of(
                bucket(drain(s, existential_deposit, tick, st, pending).active, due),
            )
        }),
{
    let inst = pending.last();
    let plan = plan_of(s, inst.subscription_id)->0;
    let due = (tick + plan.frequency) as BlockNumber;
    let st1 = pay_step(s, existential_deposit, tick, st, inst);
    lemma_drain_only_appends(s, existential_deposit, tick, st1, pending.drop_last());
    assert(bucket(st1.active, due) == bucket(st.active, due) + seq![next_instalment(inst)]);
}

/// At any point of a tick, with any other entries around it: an instalment
/// reached while budget is left whose transfer fails, or whose last payment
/// this is, is never enqueued again: the rest of the tick goes on from the
/// queue as it was, with the transfer made or, on failure, no balance
/// changed.
pub proof fn lemma_instalment_dropped(
    s: PalletState,
    existential_deposit: Balance,
    tick: BlockNumber,
    st: TickState,
    pending: Seq<InstalmentData>,
)
    requires
        st.weight < s.config.maximum_weight,
        pending.len() > 0,
        plan_of(s, pending.last().subscription_id) is Some,
        transfer_outcome(
            st.balances,
            existential_deposit,
            pending.last().payer,
            plan_of(s, pending.last().subscription_id)->0.beneficiary,
            plan_of(s, pending.last().subscription_id)->0.amount,
        ) is Err || last_payment(pending.last()),
    ensures
        ({
            let inst = pending.last();
            let plan = plan_of(s, inst.subscription_id)->0;
            let after = TickState {
                active: st.active,
                balances: after_transfer(
                    st.balances,
                    existential_deposit,
                    inst.payer,
                    plan.beneficiary,
                    plan.amount,
                ),
                weight: sat_add(
                    sat_add(st.weight, s.config.db_weight.read),
                    s.config.db_weight.spec_read_write(),
                ),
            };
            &&& drain(s, existential_deposit, tick, st, pending) == drain(
                s,
                existential_deposit,
                tick,
                after,
                pending.drop_last(),
            )
            &&& transfer_outcome(
                st.balances,
                existential_deposit,
                inst.payer,
                plan.beneficiary,
                plan.amount,
            ) is Err ==> after.balances == st.balances
        }),
{
}

/// Carry-over of a partly drained bucket: the entries the drain never
/// reached are exactly the first `carried` of `pending`, and they end the
/// bucket of the next tick, entry for entry and in their original order;
/// every other entry was handled once.
pub proof fn lemma_carry_over_intact(
    s: PalletState,
    existential_deposit: Balance,
    tick: BlockNumber,
    st: TickState,
    pending: Seq<InstalmentData>,
)
    requires
        tick < u64::MAX,
    ensures
        ({
            let r = drain(s, existential_deposit, tick, st, pending);
            let c = carried(s, existential_deposit, tick, st, pending);
            let next = bucket(r.active, (tick + 1) as BlockNumber);
            &&& c <= pending.len()
            &&& c > 0 ==> c <= next.len() && next.subrange(next.len() - c, next.len() as int)
                == pending.subrange(0, c as int)
        }),
    decreases pending.len(),
{
    let r = drain(s, existential_deposit, tick, st, pending);
    let c = carried(s, existential_deposit, tick, st, pending);
    let next = bucket(r.active, (tick + 1) as BlockNumber);
    if st.weight >= s.config.maximum_weight {
        if pending.len() > 0 {
            let old_next = bucket(st.active, (tick + 1) as BlockNumber);
            assert(next == old_next + pending);
            assert(next.subrange(next.len() - c, next.len() as int) =~= pending.subrange(0, c as int));
        }
    } else if pending.len() > 0 {
        let rest = pending.drop_last();
        let st1 = pay_step(s, existential_deposit, tick, st, pending.last());
        lemma_carry_over_intact(s, existential_deposit, tick, st1, rest);
        assert(rest.subrange(0, c as int) =~= pending.subrange(0, c as int));
    }
}

/// A tick whose budget covers taking the bucket reaches at least one of its
/// entries: at most all but one are carried over.
pub proof fn lemma_tick_makes_progress(
    s: PalletState,
    existential_deposit: Balance,
    balances: Map<AccountId, Balance>,
    tick: BlockNumber,
)
    requires
        s.config.db_weight.spec_read_write() < s.config.maximum_weight,
        bucket(s.active, tick).len() > 0,
    ensures
        carried(
            s,
            existential_deposit,
            tick,
            TickState {
                active: s.active.remove(tick),
                balances,
                weight: s.config.db_weight.spec_read_write(),
            },
            bucket(s.active, tick),
        ) < bucket(s.active, tick).len(),
{
    let pending = bucket(s.active, tick);
    let st = TickState {
        active: s.active.remove(tick),
        balances,
        weight: s.config.db_weight.spec_read_write(),
    };
    lemma_carried_bound(s, existential_deposit, tick, pay_step(s, existential_deposit, tick, st, pending.last()), pending.drop_last());
}

proof fn lemma_carried_bound(
    s: PalletState,
    existential_deposit: Balance,
    tick: BlockNumber,
    st: TickState,
    pending: Seq<InstalmentData>,
)
    ensures
        carried(s, existential_deposit, tick, st, pending) <= pending.len(),
    decreases pending.len(),
{
    if st.weight < s.config.maximum_weight && pending.len() > 0 {
        lemma_carried_bound(
            s,
            existential_deposit,
            tick,
            pay_step(s, existential_deposit, tick, st, pending.last()),
            pending.drop_last(),
        );
    }
}

/// Once the budget of a tick is spent, whatever is left of its bucket is
/// appended whole, in the same order, to the bucket of the next tick.
pub proof fn lemma_budget_carry_over(
    s: PalletState,
    existential_deposit: Balance,
    tick: BlockNumber,
    st: TickState,
    pending: Seq<InstalmentData>,
)
    requires
        st.weight >= s.config.maximum_weight,
        pending.len() > 0,
        tick < u64::MAX,
    ensures
        drain(s, existential_deposit, tick, st, pending).active == enqueue(
            st.active,
            (tick + 1) as BlockNumber,
            pending,
        ),
        drain(s, existential_deposit, tick, st, pending).balances == st.balances,
{
}

/// A tick whose budget does not cover even taking its bucket moves the whole
/// bucket to the next tick and pays nothing.
pub proof fn lemma_budget_exhausted_tick(
    s: PalletState,
    existential_deposit: Balance,
    balances: Map<AccountId, Balance>,
    tick: BlockNumber,
)
    requires
        s.config.db_weight.spec_read_write() >= s.config.maximum_weight,
        bucket(s.active, tick).len() > 0,
        tick < u64::MAX,
    ensures
        process_tick(s, existential_deposit, balances, tick).active == enqueue(
            s.active.remove(tick),
            (tick + 1) as BlockNumber,
            bucket(s.active, tick),
        ),
        process_tick(s, existential_deposit, balances, tick).balances == balances,
{
}

/// An open-ended instalment alone in its bucket, whose payment goes through
/// on a tick whose budget covers it, is paid exactly once and is due again,
/// unchanged, `frequency` ticks later.
pub proof fn lemma_open_ended_recurs(
    s: PalletState,
    existential_deposit: Balance,
    balances: Map<AccountId, Balance>,
    tick: BlockNumber,
    inst: InstalmentData,
)
    requires
        bucket(s.active, tick) == seq![inst],
        inst.remaining_payments is None,
        plan_of(s, inst.subscription_id) is Some,
        transfer_outcome(
            balances,
            existential_deposit,
            inst.payer,
            plan_of(s, inst.subscription_id)->0.beneficiary,
            plan_of(s, inst.subscription_id)->0.amount,
        ) is Ok,
        tick + plan_of(s, inst.subscription_id)->0.frequency <= u64::MAX,
        s.config.db_weight.spec_read_write() < s.config.maximum_weight,
    ensures
        ({
            let plan = plan_of(s, inst.subscription_id)->0;
            let r = process_tick(s, existential_deposit, balances, tick);
            &&& r.active == enqueue(
                s.active.remove(tick),
                (tick + plan.frequency) as BlockNumber,
                seq![inst],
            )
            &&& r.balances == apply_transfer(balances, inst.payer, plan.beneficiary, plan.amount)
        }),
{
    let pending = seq![inst];
    assert(pending.drop_last() =~= Seq::<InstalmentData>::empty());
    reveal_with_fuel(drain, 2);
}

/// A capped instalment with `n > 1` payments left, alone in its bucket, whose
/// payment goes through, is paid once and is due again `frequency` ticks
/// later with `n - 1` payments left.
pub proof fn lemma_capped_counts_down(
    s: PalletState,
    existential_deposit: Balance,
    balances: Map<AccountId, Balance>,
    tick: BlockNumber,
    inst: InstalmentData,
    n: u32,
)
    requires
        bucket(s.active, tick) == seq![inst],
        inst.remaining_payments == Some(n),
        n > 1,
        plan_of(s, inst.subscription_id) is Some,
        transfer_outcome(
            balances,
            existential_deposit,
            inst.payer,
            plan_of(s, inst.subscription_id)->0.beneficiary,
            plan_of(s, inst.subscription_id)->0.amount,
        ) is Ok,
        tick + plan_of(s, inst.subscription_id)->0.frequency <= u64::MAX,
        s.config.db_weight.spec_read_write() < s.config.maximum_weight,
    ensures
        ({
            let plan = plan_of(s, inst.subscription_id)->0;
            let r = process_tick(s, existential_deposit, balances, tick);
            &&& r.active == enqueue(
                s.active.remove(tick),
                (tick + plan.frequency) as BlockNumber,
                seq![InstalmentData { remaining_payments: Some((n - 1) as u32), ..inst }],
            )
            &&& r.balances == apply_transfer(balances, inst.payer, plan.beneficiary, plan.amount)
        }),
{
    let pending = seq![inst];
    assert(pending.drop_last() =~= Seq::<InstalmentData>::empty());
    reveal_with_fuel(drain, 2);
}

/// The last payment of a capped instalment, alone in its bucket, is made once
/// and nothing is scheduled after it.
pub proof fn lemma_last_payment_ends(
    s: PalletState,
    existential_deposit: Balance,
    balances: Map<AccountId, Balance>,
    tick: BlockNumber,
    inst: InstalmentData,
)
    requires
        bucket(s.active, tick) == seq![inst],
        inst.remaining_payments == Some(1u32),
        plan_of(s, inst.subscription_id) is Some,
        transfer_outcome(
            balances,
            existential_deposit,
            inst.payer,
            plan_of(s, inst.subscription_id)->0.beneficiary,
            plan_of(s, inst.subscription_id)->0.amount,
        ) is Ok,
        s.config.db_weight.spec_read_write() < s.config.maximum_weight,
    ensures
        ({
            let plan = plan_of(s, inst.subscription_id)->0;
            let r = process_tick(s, existential_deposit, balances, tick);
            &&& r.active == s.active.remove(tick)
            &&& r.balances == apply_transfer(balances, inst.payer, plan.beneficiary, plan.amount)
        }),
{
    let pending = seq![inst];
    assert(pending.drop_last() =~= Seq::<InstalmentData>::empty());
    reveal_with_fuel(drain, 2);
}

/// An instalment, alone in its bucket, whose transfer fails is dropped: it is
/// due at no later tick and no balance changes.
pub proof fn lemma_failed_transfer_drops(
    s: PalletState,
    existential_deposit: Balance,
    balances: Map<AccountId, Balance>,
    tick: BlockNumber,
    inst: InstalmentData,
)
    requires
        bucket(s.active, tick) == seq![inst],
        plan_of(s, inst.subscription_id) is Some,
        transfer_outcome(
            balances,
            existential_deposit,
            inst.payer,
            plan_of(s, inst.subscription_id)->0.beneficiary,
            plan_of(s, inst.subscription_id)->0.amount,
        ) is Err,
        s.config.db_weight.spec_read_write() < s.config.maximum_weight,
    ensures
        process_tick(s, existential_deposit, balances, tick).active == s.active.remove(tick),
        process_tick(s, existential_deposit, balances, tick).balances == balances,
{
    let pending = seq![inst];
    assert(pending.drop_last() =~= Seq::<InstalmentData>::empty());
    reveal_with_fuel(drain, 2);
}


/// Scheduler state and balances after running `k` ticks in a row, from
/// tick `from`, with no command in between.
pub open spec fn run_ticks(
    s: PalletState,
    existential_deposit: Balance,
    balances: Map<AccountId, Balance>,
    from: BlockNumber,
    k: nat,
) -> (PalletState, Map<AccountId, Balance>)
    decreases k,
{
    if k == 0 {
        (s, balances)
    } else {
        let r = process_tick(s, existential_deposit, balances, from);
        run_ticks(
            PalletState { active: r.active, ..s },
            existential_deposit,
            r.balances,
            (from + 1) as BlockNumber,
            (k - 1) as nat,
        )
    }
}

proof fn lemma_run_split(
    s: PalletState,
    existential_deposit: Balance,
    balances: Map<AccountId, Balance>,
    from: BlockNumber,
    a: nat,
    b: nat,
)
    requires
        from + a + b <= u64::MAX,
    ensures
        run_ticks(s, existential_deposit, balances, from, a + b) == ({
            let m = run_ticks(s, existential_deposit, balances, from, a);
            run_ticks(m.0, existential_deposit, m.1, (from + a) as BlockNumber, b)
        }),
    decreases a,
{
    if a > 0 {
        let r = process_tick(s, existential_deposit, balances, from);
        lemma_run_split(
            PalletState { active: r.active, ..s },
            existential_deposit,
            r.balances,
            (from + 1) as BlockNumber,
            (a - 1) as nat,
            b,
        );
        assert((a + b - 1) as nat == (a - 1) as nat + b);
    }
}

/// Ticks whose buckets are all missing change nothing.
proof fn lemma_quiet_ticks(
    s: PalletState,
    existential_deposit: Balance,
    balances: Map<AccountId, Balance>,
    from: BlockNumber,
    k: nat,
)
    requires
        forall|j: int| 0 <= j < k ==> !s.active.contains_key(#[trigger] ((from + j) as BlockNumber)),
        from + k <= u64::MAX,
    ensures
        run_ticks(s, existential_deposit, balances, from, k) == (s, balances),
    decreases k,
{
    if k > 0 {
        assert(!s.active.contains_key(((from + 0) as BlockNumber)));
        let r = process_tick(s, existential_deposit, balances, from);
        assert(r.active =~= s.active);
        assert(PalletState { active: r.active, ..s } == s);
        assert forall|j: int| 0 <= j < (k - 1) as nat implies !s.active.contains_key(
            #[trigger] (((from + 1) as BlockNumber + j) as BlockNumber),
        ) by {
            assert(((from + 1) as BlockNumber + j) as BlockNumber == (from + (j + 1)) as BlockNumber);
        }
        lemma_quiet_ticks(s, existential_deposit, r.balances, (from + 1) as BlockNumber, (k - 1) as nat);
    }
}

/// The payment of an instalment that goes through, when it is the only
/// entry of the due-queue, and the period of quiet ticks after it.
proof fn lemma_one_period(
    s: PalletState,
    existential_deposit: Balance,
    balances: Map<AccountId, Balance>,
    tick: BlockNumber,
    inst: InstalmentData,
)
    requires
        s.active == Map::<BlockNumber, Seq<InstalmentData>>::empty().insert(tick, seq![inst]),
        !last_payment(inst),
        plan_of(s, inst.subscription_id) is Some,
        transfer_outcome(
            balances,
            existential_deposit,
            inst.payer,
            plan_of(s, inst.subscription_id)->0.beneficiary,
            plan_of(s, inst.subscription_id)->0.amount,
        ) is Ok,
        plan_of(s, inst.subscription_id)->0.frequency >= 1,
        tick + plan_of(s, inst.subscription_id)->0.frequency <= u64::MAX,
        s.config.db_weight.spec_read_write() < s.config.maximum_weight,
    ensures
        ({
            let plan = plan_of(s, inst.subscription_id)->0;
            run_ticks(s, existential_deposit, balances, tick, plan.frequency as nat) == (
                PalletState {
                    active: Map::<BlockNumber, Seq<InstalmentData>>::empty().insert(
                        (tick + plan.frequency) as BlockNumber,
                        seq![next_instalment(inst)],
                    ),
                    ..s
                },
                apply_transfer(balances, inst.payer, plan.beneficiary, plan.amount),
            )
        }),
{
    let plan = plan_of(s, inst.subscription_id)->0;
    let f = plan.frequency;
    let pending = seq![inst];
    assert(pending.drop_last() =~= Seq::<InstalmentData>::empty());
    reveal_with_fuel(drain, 2);
    let r = process_tick(s, existential_deposit, balances, tick);
    let next_tick = (tick + f) as BlockNumber;
    let q = Map::<BlockNumber, Seq<InstalmentData>>::empty().insert(next_tick, seq![next_instalment(inst)]);
    assert(s.active.remove(tick) =~= Map::<BlockNumber, Seq<InstalmentData>>::empty());
    assert(r.active =~= q);
    let s1 = PalletState { active: q, ..s };
    lemma_run_split(s, existential_deposit, balances, tick, 1, (f - 1) as nat);
    assert(1 + (f - 1) as nat == f as nat);
    assert forall|j: int| 0 <= j < (f - 1) as nat implies !s1.active.contains_key(
        #[trigger] (((tick + 1) as BlockNumber + j) as BlockNumber),
    ) by {}
    lemma_quiet_ticks(s1, existential_deposit, r.balances, (tick + 1) as BlockNumber, (f - 1) as nat);
}

/// An open-ended subscription pays once per period: started as the only
/// instalment of the due-queue at tick `tick`, after `k` periods it has paid
/// `k` times and is due again, unchanged, at `tick + k * frequency`, while the
/// payer can afford each payment.
pub proof fn lemma_open_ended_schedule(
    s: PalletState,
    existential_deposit: Balance,
    balances: Map<AccountId, Balance>,
    tick: BlockNumber,
    inst: InstalmentData,
    k: nat,
)
    requires
        s.active == Map::<BlockNumber, Seq<InstalmentData>>::empty().insert(tick, seq![inst]),
        inst.remaining_payments is None,
        plan_of(s, inst.subscription_id) is Some,
        ({
            let plan = plan_of(s, inst.subscription_id)->0;
            &&& plan.frequency >= 1
            &&& plan.amount > 0
            &&& inst.payer != plan.beneficiary
            &&& tick + k * plan.frequency <= u64::MAX
            &&& balance_of(balances, inst.payer) >= k * plan.amount + existential_deposit
            &&& balance_of(balances, plan.beneficiary) + k * plan.amount <= u64::MAX
            &&& balance_of(balances, plan.beneficiary) + plan.amount >= existential_deposit
        }),
        s.config.db_weight.spec_read_write() < s.config.maximum_weight,
    ensures
        ({
            let plan = plan_of(s, inst.subscription_id)->0;
            let r = run_ticks(s, existential_deposit, balances, tick, (k * plan.frequency) as nat);
            &&& r.0 == (PalletState {
                active: Map::<BlockNumber, Seq<InstalmentData>>::empty().insert(
                    (tick + k * plan.frequency) as BlockNumber,
                    seq![inst],
                ),
                ..s
            })
            &&& balance_of(r.1, inst.payer) == balance_of(balances, inst.payer) - k * plan.amount
            &&& balance_of(r.1, plan.beneficiary) == balance_of(balances, plan.beneficiary) + k
                * plan.amount
        }),
    decreases k,
{
    let plan = plan_of(s, inst.subscription_id)->0;
    let f = plan.frequency;
    let amount = plan.amount;
    if k == 0 {
        assert(k * f == 0 && k * amount == 0) by (nonlinear_arith)
            requires
                k == 0,
        ;
        assert(s.active =~= Map::<BlockNumber, Seq<InstalmentData>>::empty().insert(
            (tick + k * f) as BlockNumber,
            seq![inst],
        ));
    } else {
        let b = balance_of(balances, inst.payer);
        let c = balance_of(balances, plan.beneficiary);
        assert(k * amount >= amount) by (nonlinear_arith)
            requires
                k >= 1,
        ;
        assert(k * f >= f) by (nonlinear_arith)
            requires
                k >= 1,
        ;
        assert(k * amount == (k - 1) as nat * amount + amount) by (nonlinear_arith)
            requires
                k >= 1,
        ;
        assert(k * f == f + (k - 1) as nat * f) by (nonlinear_arith)
            requires
                k >= 1,
        ;
        lemma_one_period(s, existential_deposit, balances, tick, inst);
        assert(next_instalment(inst) == inst);
        let bal1 = apply_transfer(balances, inst.payer, plan.beneficiary, amount);
        let s1 = PalletState {
            active: Map::<BlockNumber, Seq<InstalmentData>>::empty().insert(
                (tick + f) as BlockNumber,
                seq![inst],
            ),
            ..s
        };
        assert(plan_of(s1, inst.subscription_id) == plan_of(s, inst.subscription_id));
        lemma_open_ended_schedule(
            s1,
            existential_deposit,
            bal1,
            (tick + f) as BlockNumber,
            inst,
            (k - 1) as nat,
        );
        assert(transfer_outcome(balances, existential_deposit, inst.payer, plan.beneficiary, amount) is Ok);
        lemma_run_split(s, existential_deposit, balances, tick, f as nat, ((k - 1) as nat * f) as nat);
        assert((k * f) as nat == f as nat + ((k - 1) as nat * f) as nat);
        assert(balance_of(bal1, inst.payer) == b - amount);
        assert(balance_of(bal1, plan.beneficiary) == c + amount);
    }
}

/// A subscription capped at `n` payments pays exactly `n` times, the last
/// at `tick + (n - 1) * frequency`, and leaves the due-queue empty, while
/// the payer can afford each payment.
pub proof fn lemma_cap_exhaustion(
    s: PalletState,
    existential_deposit: Balance,
    balances: Map<AccountId, Balance>,
    tick: BlockNumber,
    inst: InstalmentData,
    n: u32,
)
    requires
        s.active == Map::<BlockNumber, Seq<InstalmentData>>::empty().insert(tick, seq![inst]),
        inst.remaining_payments == Some(n),
        n >= 1,
        plan_of(s, inst.subscription_id) is Some,
        ({
            let plan = plan_of(s, inst.subscription_id)->0;
            &&& plan.frequency >= 1
            &&& plan.amount > 0
            &&& inst.payer != plan.beneficiary
            &&& tick + n * plan.frequency <= u64::MAX
            &&& balance_of(balances, inst.payer) >= n * plan.amount + existential_deposit
            &&& balance_of(balances, plan.beneficiary) + n * plan.amount <= u64::MAX
            &&& balance_of(balances, plan.beneficiary) + plan.amount >= existential_deposit
        }),
        s.config.db_weight.spec_read_write() < s.config.maximum_weight,
    ensures
        ({
            let plan = plan_of(s, inst.subscription_id)->0;
            let r = run_ticks(
                s,
                existential_deposit,
                balances,
                tick,
                ((n - 1) * plan.frequency + 1) as nat,
            );
            &&& r.0 == (PalletState {
                active: Map::<BlockNumber, Seq<InstalmentData>>::empty(),
                ..s
            })
            &&& balance_of(r.1, inst.payer) == balance_of(balances, inst.payer) - n * plan.amount
            &&& balance_of(r.1, plan.beneficiary) == balance_of(balances, plan.beneficiary) + n
                * plan.amount
        }),
    decreases n,
{
    let plan = plan_of(s, inst.subscription_id)->0;
    let f = plan.frequency;
    let amount = plan.amount;
    assert(n * amount >= amount) by (nonlinear_arith)
        requires
            n >= 1,
    ;
    assert(n * f >= f) by (nonlinear_arith)
        requires
            n >= 1,
    ;
    if n == 1 {
        let pending = seq![inst];
        assert(pending.drop_last() =~= Seq::<InstalmentData>::empty());
        reveal_with_fuel(drain, 2);
        let r = process_tick(s, existential_deposit, balances, tick);
        assert(s.active.remove(tick) =~= Map::<BlockNumber, Seq<InstalmentData>>::empty());
        assert((n - 1) * f == 0) by (nonlinear_arith)
            requires
                n == 1,
        ;
        assert(((n - 1) * f + 1) as nat == 1);
        assert(n * amount == amount) by (nonlinear_arith)
            requires
                n == 1,
        ;
        reveal_with_fuel(run_ticks, 2);
        assert(PalletState { active: r.active, ..s } == PalletState {
            active: Map::<BlockNumber, Seq<InstalmentData>>::empty(),
            ..s
        });
    } else {
        assert(n * amount == (n - 1) * amount + amount) by (nonlinear_arith)
            requires
                n >= 1,
        ;
        assert(n * f == f + (n - 1) * f) by (nonlinear_arith)
            requires
                n >= 1,
        ;
        assert((n - 1) * f == f + (n - 2) * f) by (nonlinear_arith)
            requires
                n >= 2,
        ;
        lemma_one_period(s, existential_deposit, balances, tick, inst);
        let next = next_instalment(inst);
        let bal1 = apply_transfer(balances, inst.payer, plan.beneficiary, amount);
        let s1 = PalletState {
            active: Map::<BlockNumber, Seq<InstalmentData>>::empty().insert(
                (tick + f) as BlockNumber,
                seq![next],
            ),
            ..s
        };
        assert(plan_of(s1, next.subscription_id) == plan_of(s, inst.subscription_id));
        lemma_cap_exhaustion(
            s1,
            existential_deposit,
            bal1,
            (tick + f) as BlockNumber,
            next,
            (n - 1) as u32,
        );
        lemma_run_split(
            s,
            existential_deposit,
            balances,
            tick,
            f as nat,
            (((n - 1) as u32 - 1) * f + 1) as nat,
        );
    }
}

/// An instalment whose transfer fails, when it is the only entry of the
/// due-queue, is gone for good: on every later tick the queue stays empty
/// and no balance changes.
pub proof fn lemma_failed_transfer_never_returns(
    s: PalletState,
    existential_deposit: Balance,
    balances: Map<AccountId, Balance>,
    tick: BlockNumber,
    inst: InstalmentData,
    k: nat,
)
    requires
        s.active == Map::<BlockNumber, Seq<InstalmentData>>::empty().insert(tick, seq![inst]),
        plan_of(s, inst.subscription_id) is Some,
        transfer_outcome(
            balances,
            existential_deposit,
            inst.payer,
            plan_of(s, inst.subscription_id)->0.beneficiary,
            plan_of(s, inst.subscription_id)->0.amount,
        ) is Err,
        s.config.db_weight.spec_read_write() < s.config.maximum_weight,
        tick + 1 + k <= u64::MAX,
    ensures
        run_ticks(s, existential_deposit, balances, tick, 1 + k) == (
            PalletState { active: Map::<BlockNumber, Seq<InstalmentData>>::empty(), ..s },
            balances,
        ),
{
    lemma_failed_transfer_drops(s, existential_deposit, balances, tick, inst);
    let s1 = PalletState { active: Map::<BlockNumber, Seq<InstalmentData>>::empty(), ..s };
    assert(s.active.remove(tick) =~= Map::<BlockNumber, Seq<InstalmentData>>::empty());
    lemma_run_split(s, existential_deposit, balances, tick, 1, k);
    reveal_with_fuel(run_ticks, 2);
    lemma_quiet_ticks(s1, existential_deposit, balances, (tick + 1) as BlockNumber, k);
}

} // verus!
