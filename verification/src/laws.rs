//! The stated laws of the billing engine, each proved once and for all.

use vstd::prelude::*;

use crate::batch::{batch_step_spec, batch_upto_spec, bulk_step_spec, bulk_upto_spec};
use crate::date::{lemma_add_months_wf, lemma_date_round_trip, date_seq, parse_date_seq, Date};
use crate::ledger::{last_payment_for, lemma_sum_for_nonneg, recompute_student_spec, sum_for, LedgerV};
use crate::student::{
    next_due_result_spec, next_due_value_spec, status_result_spec, PaymentPlan, PaymentPlanConfig,
    PaymentStatus, StudentV,
};

verus! {

/// The aggregate invariant: in every well-formed ledger each student's
/// `paid_amount` equals the sum of that student's recorded transactions and
/// is never negative. Every ledger operation — recording a payment,
/// deleting one, recomputing — demands a well-formed ledger and ensures one
/// back, so the invariant holds after each operation of any sequence.
pub proof fn lemma_aggregate_invariant(l: LedgerV)
    requires
        l.wf(),
    ensures
        forall|i: int|
            0 <= i < l.students.len() ==> (#[trigger] l.students[i]).paid_amount == sum_for(
                l.transactions,
                l.students[i].id,
            ) && l.students[i].paid_amount >= 0,
{
    assert forall|i: int| 0 <= i < l.students.len() implies (
    #[trigger] l.students[i]).paid_amount == sum_for(l.transactions, l.students[i].id)
        && l.students[i].paid_amount >= 0 by {
        lemma_sum_for_nonneg(l.transactions, l.students[i].id);
    }
}

/// Idempotence of recompute: the status classifier and the due-date
/// calculator are functions of their arguments alone — the contracts of
/// `calculate_payment_status` and `calculate_next_due_date` pin each call's
/// result to `status_result_spec` and `next_due_result_spec`, so two calls
/// with identical inputs yield identical outputs; there is no hidden
/// mutable state.
pub proof fn lemma_recompute_idempotent(
    st1: Option<PaymentStatus>,
    st2: Option<PaymentStatus>,
    d1: Option<Date>,
    d2: Option<Date>,
    plan: PaymentPlan,
    plan_amount: int,
    paid: int,
    count: Option<int>,
    due: Option<Seq<char>>,
    enroll: Seq<char>,
    reminder: int,
    today: Date,
    last: Option<Seq<char>>,
    interval: int,
)
    requires
        st1 == status_result_spec(plan, plan_amount, paid, count, due, enroll, reminder, today),
        st2 == status_result_spec(plan, plan_amount, paid, count, due, enroll, reminder, today),
        d1 == next_due_result_spec(plan, enroll, last, interval),
        d2 == next_due_result_spec(plan, enroll, last, interval),
    ensures
        st1 == st2,
        d1 == d2,
{
}

/// A one-time plan whose amount is covered is `Paid` regardless of every
/// date: the enrollment date, the stored due date and the current day play
/// no part.
pub proof fn lemma_one_time_paid_regardless_of_dates(
    plan_amount: int,
    paid: int,
    count: Option<int>,
    due: Option<Seq<char>>,
    enroll: Seq<char>,
    reminder: int,
    today: Date,
)
    requires
        paid >= plan_amount,
    ensures
        status_result_spec(PaymentPlan::OneTime, plan_amount, paid, count, due, enroll, reminder, today)
            == Some(PaymentStatus::Paid),
{
}

/// A due date the calculator accepts is a well-formed calendar day.
pub proof fn lemma_next_due_wf(
    plan: PaymentPlan,
    enroll_str: Seq<char>,
    last_str: Option<Seq<char>>,
    interval: int,
)
    requires
        1 <= interval <= 12,
        next_due_result_spec(plan, enroll_str, last_str, interval) is Some,
    ensures
        match next_due_result_spec(plan, enroll_str, last_str, interval) {
            Some(d) => d.wf(),
            None => true,
        },
{
    match parse_date_seq(enroll_str) {
        None => {},
        Some(enrollment) => {
            let last_payment = match last_str {
                None => None,
                Some(ls) => parse_date_seq(ls),
            };
            let due = next_due_value_spec(plan, enrollment, last_payment, interval);
            match plan {
                PaymentPlan::OneTime => {},
                PaymentPlan::Monthly => {
                    match last_payment {
                        None => {},
                        Some(lp) => {
                            if due.year <= 9999 {
                                lemma_add_months_wf(lp, 1);
                            }
                        },
                    }
                },
                PaymentPlan::Installment => {
                    match last_payment {
                        None => {},
                        Some(lp) => {
                            if due.year <= 9999 {
                                lemma_add_months_wf(lp, interval);
                            }
                        },
                    }
                },
            }
        },
    }
}

/// The student fields the calculators read: everything except the two
/// cached derived fields and the write timestamp.
pub open spec fn same_billing_inputs(a: StudentV, b: StudentV) -> bool {
    &&& a.id == b.id
    &&& a.name == b.name
    &&& a.group_name == b.group_name
    &&& a.payment_plan == b.payment_plan
    &&& a.plan_amount == b.plan_amount
    &&& a.installment_count == b.installment_count
    &&& a.paid_amount == b.paid_amount
    &&& a.enrollment_date == b.enrollment_date
    &&& a.created_at == b.created_at
}

/// The row-by-row recomputer never touches the payment log, the id
/// counter, a student it has not reached yet, or any field the calculators
/// read.
pub proof fn lemma_batch_upto_frame(
    l: LedgerV,
    config: PaymentPlanConfig,
    today: Date,
    now: Seq<char>,
    n: int,
)
    requires
        0 <= n <= l.students.len(),
    ensures
        ({
            let b = batch_upto_spec(l, n, config, today, now);
            &&& b.0.transactions == l.transactions
            &&& b.0.next_payment_id == l.next_payment_id
            &&& b.0.students.len() == l.students.len()
            &&& b.1.len() == n
            &&& forall|j: int| n <= j < l.students.len() ==> b.0.students[j] == l.students[j]
            &&& forall|j: int|
                0 <= j < l.students.len() ==> same_billing_inputs(
                    #[trigger] b.0.students[j],
                    l.students[j],
                )
        }),
    decreases n,
{
    if n > 0 {
        lemma_batch_upto_frame(l, config, today, now, n - 1);
    }
}

/// The bulk recomputer, where it succeeds, never touches the payment log,
/// the id counter, a student it has not reached yet, any stored due date,
/// or any field the calculators read.
pub proof fn lemma_bulk_upto_frame(
    l: LedgerV,
    config: PaymentPlanConfig,
    today: Date,
    now: Seq<char>,
    n: int,
)
    requires
        0 <= n <= l.students.len(),
    ensures
        ({
            match bulk_upto_spec(l, n, config, today, now) {
                Ok(m) => {
                    &&& m.transactions == l.transactions
                    &&& m.next_payment_id == l.next_payment_id
                    &&& m.students.len() == l.students.len()
                    &&& forall|j: int| n <= j < l.students.len() ==> m.students[j] == l.students[j]
                    &&& forall|j: int|
                        0 <= j < l.students.len() ==> same_billing_inputs(
                            #[trigger] m.students[j],
                            l.students[j],
                        ) && m.students[j].next_due_date == l.students[j].next_due_date
                },
                Err(_) => true,
            }
        }),
    decreases n,
{
    if n > 0 {
        lemma_bulk_upto_frame(l, config, today, now, n - 1);
    }
}

/// A ledger whose cached due dates are consistent: for every student the
/// due-date calculator succeeds on the student's stored fields and the
/// freshest payment, and the stored `next_due_date` is exactly its result.
pub open spec fn cache_consistent(l: LedgerV, config: PaymentPlanConfig) -> bool {
    forall|i: int|
        0 <= i < l.students.len() ==> {
            let s = #[trigger] l.students[i];
            match next_due_result_spec(
                s.payment_plan,
                s.enrollment_date,
                last_payment_for(l.transactions, s.id),
                config.installment_interval as int,
            ) {
                Some(d) => s.next_due_date == Some(date_seq(d)),
                None => false,
            }
        }
}

/// Row-by-row vs. bulk equivalence: on a well-formed ledger whose cached
/// due dates are consistent, both batch strategies succeed on every
/// student, and they assign every student the same status. (On a ledger
/// with a stale cached due date the two can genuinely differ — the
/// row-by-row strategy re-derives the anchor while the bulk one reads the
/// stored date — which is why each mutation recomputes the cache at once.)
pub proof fn lemma_batch_strategies_agree(
    l: LedgerV,
    config: PaymentPlanConfig,
    today: Date,
    now: Seq<char>,
    n: int,
)
    requires
        l.wf(),
        today.wf(),
        config.wf(),
        cache_consistent(l, config),
        0 <= n <= l.students.len(),
    ensures
        ({
            let b = batch_upto_spec(l, n, config, today, now);
            let u = bulk_upto_spec(l, n, config, today, now);
            &&& forall|i: int| 0 <= i < n ==> b.1[i] == true
            &&& match u {
                Ok(m) => forall|i: int|
                    0 <= i < n ==> (#[trigger] b.0.students[i]).payment_status
                        == m.students[i].payment_status,
                Err(_) => false,
            }
        }),
    decreases n,
{
    if n > 0 {
        lemma_batch_strategies_agree(l, config, today, now, n - 1);
        lemma_batch_upto_frame(l, config, today, now, n - 1);
        lemma_bulk_upto_frame(l, config, today, now, n - 1);
        let b_prev = batch_upto_spec(l, n - 1, config, today, now);
        let u_prev = bulk_upto_spec(l, n - 1, config, today, now);
        let s = l.students[n - 1];
        let nr = next_due_result_spec(
            s.payment_plan,
            s.enrollment_date,
            last_payment_for(l.transactions, s.id),
            config.installment_interval as int,
        );
        match nr {
            None => {
                assert(false);
            },
            Some(d) => {
                lemma_next_due_wf(
                    s.payment_plan,
                    s.enrollment_date,
                    match last_payment_for(l.transactions, s.id) {
                        Some(x) => Some(x),
                        None => None,
                    },
                    config.installment_interval as int,
                );
                lemma_date_round_trip(d);
                let due_str = date_seq(d);
                let st = status_result_spec(
                    s.payment_plan,
                    s.plan_amount,
                    s.paid_amount,
                    s.installment_count,
                    Some(due_str),
                    s.enrollment_date,
                    config.reminder_days as int,
                    today,
                );
                assert(s.next_due_date == Some(due_str));
                assert(st is Some) by {
                    assert(parse_date_seq(s.enrollment_date) is Some);
                    assert(parse_date_seq(due_str) == Some(d));
                }
                let sb = b_prev.0.students[n - 1];
                assert(sb == s);
                assert(recompute_student_spec(b_prev.0, n - 1, config, today, now) is Some);
                match u_prev {
                    Err(_) => {
                        assert(false);
                    },
                    Ok(m_prev) => {
                        let sm = m_prev.students[n - 1];
                        assert(sm == s);
                        assert(bulk_step_spec(m_prev, n - 1, config, today, now) is Some);
                        let b = batch_upto_spec(l, n, config, today, now);
                        let u = bulk_upto_spec(l, n, config, today, now);
                        assert(b.1 =~= b_prev.1.push(true));
                        match st {
                            Some(stv) => {
                                assert(b.0.students[n - 1].payment_status == stv);
                                match u {
                                    Ok(m) => {
                                        assert(m.students[n - 1].payment_status == stv);
                                        assert(forall|i: int|
                                            0 <= i < n - 1 ==> (
                                            #[trigger] b.0.students[i]).payment_status
                                                == b_prev.0.students[i].payment_status);
                                        assert(forall|i: int|
                                            0 <= i < n - 1 ==> (
                                            #[trigger] m.students[i]).payment_status
                                                == m_prev.students[i].payment_status);
                                    },
                                    Err(_) => {
                                        assert(false);
                                    },
                                }
                            },
                            None => {
                                assert(false);
                            },
                        }
                    },
                }
            },
        }
    }
}

} // verus!
