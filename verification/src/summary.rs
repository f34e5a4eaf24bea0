//! Aggregate reporting over the whole ledger: overall totals, the per-plan
//! breakdown, and the combined payment summary with the freshest payments.

use vstd::prelude::*;

use crate::date::{lemma_day_number_bounds, Date};
use crate::error::{PaymentError, PaymentResult};
use crate::history::{matching_txs, sorted_history};
use crate::ledger::Ledger;
use crate::payment::{
    expected_amount_result_spec, PaymentPlanBreakdown, PaymentPlanStats, PaymentService,
    PaymentSummary, PaymentTransaction, PaymentTransactionV,
};
use crate::student::{
    lemma_months_elapsed_bound, months_elapsed_spec, PaymentPlan, PaymentStatus, StudentV,
};

verus! {

/// Aggregate figures over a prefix of the student list.
#[verifier::ext_equal]
pub struct TotalsV {
    pub students: int,
    pub expected: int,
    pub paid: int,
    pub paid_c: int,
    pub pending_c: int,
    pub overdue_c: int,
    pub due_soon_c: int,
}

/// The expectation calculator applied to one student record.
pub open spec fn expected_of(s: StudentV, today: Date) -> Option<int> {
    expected_amount_result_spec(
        s.payment_plan,
        s.plan_amount,
        s.enrollment_date,
        s.installment_count,
        today,
    )
}

/// One student folded into aggregate figures.
pub open spec fn add_student_totals(t: TotalsV, s: StudentV, e: int) -> TotalsV {
    TotalsV {
        students: t.students + 1,
        expected: t.expected + e,
        paid: t.paid + s.paid_amount,
        paid_c: t.paid_c + if s.payment_status == PaymentStatus::Paid {
            1int
        } else {
            0int
        },
        pending_c: t.pending_c + if s.payment_status == PaymentStatus::Pending {
            1int
        } else {
            0int
        },
        overdue_c: t.overdue_c + if s.payment_status == PaymentStatus::Overdue {
            1int
        } else {
            0int
        },
        due_soon_c: t.due_soon_c + if s.payment_status == PaymentStatus::DueSoon {
            1int
        } else {
            0int
        },
    }
}

pub open spec fn zero_totals() -> TotalsV {
    TotalsV {
        students: 0,
        expected: 0,
        paid: 0,
        paid_c: 0,
        pending_c: 0,
        overdue_c: 0,
        due_soon_c: 0,
    }
}

/// Overall aggregate figures over the first `k` students; `None` when some
/// student's expectation cannot be computed.
pub open spec fn totals_upto(students: Seq<StudentV>, k: int, today: Date) -> Option<TotalsV>
    decreases k,
{
    if k <= 0 {
        Some(zero_totals())
    } else {
        match totals_upto(students, k - 1, today) {
            None => None,
            Some(t) => match expected_of(students[k - 1], today) {
                None => None,
                Some(e) => Some(add_student_totals(t, students[k - 1], e)),
            },
        }
    }
}

/// Per-plan aggregate figures over the first `k` students, as one bucket
/// per plan in the order one-time, monthly, installment.
pub open spec fn breakdown_upto(students: Seq<StudentV>, k: int, today: Date) -> Option<
    (TotalsV, TotalsV, TotalsV),
>
    decreases k,
{
    if k <= 0 {
        Some((zero_totals(), zero_totals(), zero_totals()))
    } else {
        match breakdown_upto(students, k - 1, today) {
            None => None,
            Some(b) => match expected_of(students[k - 1], today) {
                None => None,
                Some(e) => Some(
                    match students[k - 1].payment_plan {
                        PaymentPlan::OneTime => (
                            add_student_totals(b.0, students[k - 1], e),
                            b.1,
                            b.2,
                        ),
                        PaymentPlan::Monthly => (
                            b.0,
                            add_student_totals(b.1, students[k - 1], e),
                            b.2,
                        ),
                        PaymentPlan::Installment => (
                            b.0,
                            b.1,
                            add_student_totals(b.2, students[k - 1], e),
                        ),
                    },
                ),
            },
        }
    }
}

/// Bounded billing fields: what student validation guarantees of every
/// record it admits.
pub open spec fn billing_bounded(students: Seq<StudentV>) -> bool {
    forall|i: int|
        0 <= i < students.len() ==> {
            let s = #[trigger] students[i];
            &&& 0 < s.plan_amount <= 1_000_000
            &&& (s.installment_count matches Some(c) ==> 1 <= c <= 12)
        }
}

/// With bounded billing fields, one student's expectation lies between 1
/// and 200 billion minor units.
pub proof fn lemma_expected_bound(s: StudentV, today: Date)
    requires
        0 < s.plan_amount <= 1_000_000,
        s.installment_count matches Some(c) ==> 1 <= c <= 12,
        today.wf(),
    ensures
        match expected_of(s, today) {
            Some(v) => 0 < v <= 200_000_000_000,
            None => true,
        },
{
    match s.payment_plan {
        PaymentPlan::OneTime => {},
        PaymentPlan::Monthly => {
            match crate::date::parse_date_seq(s.enrollment_date) {
                None => {},
                Some(e) => {
                    lemma_day_number_bounds(e);
                    lemma_day_number_bounds(today);
                    let days = crate::date::days_between(e, today);
                    lemma_months_elapsed_bound(days);
                    let me = months_elapsed_spec(days);
                    assert(0 < s.plan_amount * me <= 200_000_000_000) by (nonlinear_arith)
                        requires
                            0 < s.plan_amount <= 1_000_000,
                            1 <= me <= 200_000,
                    ;
                },
            }
        },
        PaymentPlan::Installment => {
            let c = crate::student::count_or_default(s.installment_count);
            assert(1 <= c <= 12);
            assert(0 < s.plan_amount * c <= 200_000_000_000) by (nonlinear_arith)
                requires
                    0 < s.plan_amount <= 1_000_000,
                    1 <= c <= 12,
            ;
        },
    }
}

impl PaymentService {
    /// Overall totals and status counts across all students. Fails with a
    /// validation error when some monthly student's enrollment date cannot
    /// be parsed. The population cap keeps every aggregate within `i64`.
    pub fn get_overall_payment_stats(ledger: &Ledger, today: Date) -> (r: PaymentResult<
        (i32, i64, i64, i32, i32, i32, i32),
    >)
        requires
            today.wf(),
            billing_bounded(ledger@.students),
            ledger@.students.len() <= 10_000_000,
        ensures
            ({
                let n = ledger@.students.len() as int;
                match totals_upto(ledger@.students, n, today) {
                    Some(t) => r == Ok::<(i32, i64, i64, i32, i32, i32, i32), PaymentError>(
                        (
                            n as i32,
                            t.paid as i64,
                            t.expected as i64,
                            t.paid_c as i32,
                            t.pending_c as i32,
                            t.overdue_c as i32,
                            t.due_soon_c as i32,
                        ),
                    ),
                    None => r matches Err(e) && e is ValidationError,
                }
            }),
    {
        let n: usize = ledger.students.len();
        let mut total_expected: i64 = 0;
        let mut total_paid: i64 = 0;
        let mut paid_c: i32 = 0;
        let mut pending_c: i32 = 0;
        let mut overdue_c: i32 = 0;
        let mut due_soon_c: i32 = 0;
        let mut i: usize = 0;
        while i < n
            invariant
                n == ledger.students.len(),
                ledger@.students.len() == n,
                n <= 10_000_000,
                today.wf(),
                billing_bounded(ledger@.students),
                i <= n,
                ({
                    let t = totals_upto(ledger@.students, i as int, today);
                    &&& t is Some
                    &&& (t matches Some(tv) && {
                        &&& total_expected == tv.expected
                        &&& total_paid == tv.paid
                        &&& paid_c == tv.paid_c
                        &&& pending_c == tv.pending_c
                        &&& overdue_c == tv.overdue_c
                        &&& due_soon_c == tv.due_soon_c
                        &&& 0 <= tv.expected <= (i as int) * 200_000_000_000
                        &&& -(i as int) * 0x8000_0000 <= tv.paid <= (i as int) * 0x8000_0000
                        &&& 0 <= tv.paid_c <= i
                        &&& 0 <= tv.pending_c <= i
                        &&& 0 <= tv.overdue_c <= i
                        &&& 0 <= tv.due_soon_c <= i
                    })
                }),
            decreases n - i,
        {
            proof {
                assert(ledger@.students[i as int] == ledger.students@[i as int]@);
                lemma_expected_bound(ledger@.students[i as int], today);
            }
            let s = &ledger.students[i];
            let e: i64 = match Self::calculate_expected_amount(
                &s.payment_plan,
                s.plan_amount,
                s.enrollment_date.as_str(),
                s.installment_count,
                today,
            ) {
                Ok(v) => v,
                Err(err) => {
                    proof {
                        assert(totals_upto(ledger@.students, i as int + 1, today) is None);
                        lemma_totals_none_stable(
                            ledger@.students,
                            i as int + 1,
                            n as int,
                            today,
                        );
                    }
                    return Err(err);
                },
            };
            total_expected = total_expected + e;
            total_paid = total_paid + (s.paid_amount as i64);
            match s.payment_status {
                PaymentStatus::Paid => {
                    paid_c = paid_c + 1;
                },
                PaymentStatus::Pending => {
                    pending_c = pending_c + 1;
                },
                PaymentStatus::Overdue => {
                    overdue_c = overdue_c + 1;
                },
                PaymentStatus::DueSoon => {
                    due_soon_c = due_soon_c + 1;
                },
            }
            i = i + 1;
        }
        Ok((n as i32, total_paid, total_expected, paid_c, pending_c, overdue_c, due_soon_c))
    }

    /// Per-plan aggregate figures across all students.
    pub fn get_payment_plan_breakdown(ledger: &Ledger, today: Date) -> (r: PaymentResult<
        PaymentPlanBreakdown,
    >)
        requires
            today.wf(),
            billing_bounded(ledger@.students),
            ledger@.students.len() <= 10_000_000,
        ensures
            ({
                let n = ledger@.students.len() as int;
                match breakdown_upto(ledger@.students, n, today) {
                    Some(b) => r matches Ok(pb) && stats_match(pb.one_time, b.0) && stats_match(
                        pb.monthly,
                        b.1,
                    ) && stats_match(pb.installment, b.2),
                    None => r matches Err(e) && e is ValidationError,
                }
            }),
    {
        let n: usize = ledger.students.len();
        let mut one_time = PaymentPlanStats::default();
        let mut monthly = PaymentPlanStats::default();
        let mut installment = PaymentPlanStats::default();
        let mut i: usize = 0;
        while i < n
            invariant
                n == ledger.students.len(),
                ledger@.students.len() == n,
                n <= 10_000_000,
                today.wf(),
                billing_bounded(ledger@.students),
                i <= n,
                ({
                    let b = breakdown_upto(ledger@.students, i as int, today);
                    &&& b is Some
                    &&& (b matches Some(bv) && {
                        &&& stats_match(one_time, bv.0)
                        &&& stats_match(monthly, bv.1)
                        &&& stats_match(installment, bv.2)
                        &&& stats_bounded(bv.0, i as int)
                        &&& stats_bounded(bv.1, i as int)
                        &&& stats_bounded(bv.2, i as int)
                    })
                }),
            decreases n - i,
        {
            proof {
                assert(ledger@.students[i as int] == ledger.students@[i as int]@);
                lemma_expected_bound(ledger@.students[i as int], today);
            }
            let e: i64 = match Self::calculate_expected_amount(
                &ledger.students[i].payment_plan,
                ledger.students[i].plan_amount,
                ledger.students[i].enrollment_date.as_str(),
                ledger.students[i].installment_count,
                today,
            ) {
                Ok(v) => v,
                Err(err) => {
                    proof {
                        assert(breakdown_upto(ledger@.students, i as int + 1, today) is None);
                        lemma_breakdown_none_stable(
                            ledger@.students,
                            i as int + 1,
                            n as int,
                            today,
                        );
                    }
                    return Err(err);
                },
            };
            match ledger.students[i].payment_plan {
                PaymentPlan::OneTime => {
                    Self::update_payment_plan_stats(&mut one_time, &ledger.students[i], e);
                },
                PaymentPlan::Monthly => {
                    Self::update_payment_plan_stats(&mut monthly, &ledger.students[i], e);
                },
                PaymentPlan::Installment => {
                    Self::update_payment_plan_stats(&mut installment, &ledger.students[i], e);
                },
            }
            i = i + 1;
        }
        Ok(PaymentPlanBreakdown { one_time, monthly, installment })
    }

    /// The ten freshest payments, in presentation order: a prefix of the
    /// whole log arranged newest-first.
    pub fn get_recent_payments(ledger: &Ledger) -> (r: Vec<PaymentTransaction>)
        ensures
            ({
                let rv = r@.map_values(|t: PaymentTransaction| t@);
                &&& sorted_history(rv)
                &&& rv.len() == (if ledger@.transactions.len() < 10 {
                    ledger@.transactions.len() as int
                } else {
                    10int
                })
                &&& forall|t: PaymentTransactionV|
                    #[trigger] rv.to_multiset().count(t) <= ledger@.transactions.to_multiset().count(
                        t,
                    )
                &&& exists|h: Seq<PaymentTransactionV>|
                    #[trigger] sorted_history(h) && h.to_multiset()
                        == ledger@.transactions.to_multiset() && rv == h.take(rv.len() as int)
            }),
    {
        let h: Vec<PaymentTransaction> = Self::get_payment_history(ledger, None);
        let ghost hv = h@.map_values(|t: PaymentTransaction| t@);
        proof {
            lemma_matching_none(ledger@.transactions);
            vstd::seq_lib::to_multiset_len::<PaymentTransactionV>(hv);
            vstd::seq_lib::to_multiset_len::<PaymentTransactionV>(ledger@.transactions);
        }
        let limit: usize = if h.len() < 10 {
            h.len()
        } else {
            10
        };
        let mut out: Vec<PaymentTransaction> = Vec::new();
        let mut i: usize = 0;
        while i < limit
            invariant
                limit <= h@.len(),
                hv == h@.map_values(|t: PaymentTransaction| t@),
                i <= limit,
                out@.map_values(|t: PaymentTransaction| t@) == hv.take(i as int),
            decreases limit - i,
        {
            proof {
                assert(hv[i as int] == h@[i as int]@);
                assert(hv.take(i as int + 1).drop_last() =~= hv.take(i as int));
                assert(hv.take(i as int + 1).last() == hv[i as int]);
            }
            out.push(h[i].duplicate());
            proof {
                assert(out@.map_values(|t: PaymentTransaction| t@) =~= hv.take(i as int + 1));
            }
            i = i + 1;
        }
        proof {
            let rv = out@.map_values(|t: PaymentTransaction| t@);
            assert(rv == hv.take(limit as int));
            assert(hv =~= hv.take(limit as int) + hv.skip(limit as int));
            vstd::seq_lib::lemma_multiset_commutative::<PaymentTransactionV>(
                hv.take(limit as int),
                hv.skip(limit as int),
            );
            assert forall|t: PaymentTransactionV| #[trigger] rv.to_multiset().count(t)
                <= ledger@.transactions.to_multiset().count(t) by {
                assert(hv.to_multiset().count(t) == rv.to_multiset().count(t) + hv.skip(
                    limit as int,
                ).to_multiset().count(t));
            }
            assert(sorted_history(hv) && hv.to_multiset() == ledger@.transactions.to_multiset()
                && rv == hv.take(rv.len() as int));
        }
        out
    }

    /// The comprehensive payment summary: overall totals, the per-plan
    /// breakdown, and the freshest payments.
    pub fn get_payment_summary(ledger: &Ledger, today: Date) -> (r: PaymentResult<PaymentSummary>)
        requires
            today.wf(),
            billing_bounded(ledger@.students),
            ledger@.students.len() <= 10_000_000,
        ensures
            ({
                let n = ledger@.students.len() as int;
                match totals_upto(ledger@.students, n, today) {
                    Some(t) => match breakdown_upto(ledger@.students, n, today) {
                        Some(b) => r matches Ok(s) && {
                            &&& s.total_students == n as i32
                            &&& s.total_paid_amount == t.paid as i64
                            &&& s.total_expected_amount == t.expected as i64
                            &&& s.students_paid == t.paid_c as i32
                            &&& s.students_pending == t.pending_c as i32
                            &&& s.students_overdue == t.overdue_c as i32
                            &&& s.students_due_soon == t.due_soon_c as i32
                            &&& stats_match(s.payment_plan_breakdown.one_time, b.0)
                            &&& stats_match(s.payment_plan_breakdown.monthly, b.1)
                            &&& stats_match(s.payment_plan_breakdown.installment, b.2)
                            &&& sorted_history(
                                s.recent_payments@.map_values(|t: PaymentTransaction| t@),
                            )
                            &&& s.recent_payments@.len() <= 10
                        },
                        None => r matches Err(e) && e is ValidationError,
                    },
                    None => r matches Err(e) && e is ValidationError,
                }
            }),
    {
        let overall = match Self::get_overall_payment_stats(ledger, today) {
            Ok(t) => t,
            Err(e) => {
                proof {
                    lemma_totals_breakdown_agree(
                        ledger@.students,
                        ledger@.students.len() as int,
                        today,
                    );
                }
                return Err(e);
            },
        };
        let breakdown = match Self::get_payment_plan_breakdown(ledger, today) {
            Ok(b) => b,
            Err(e) => {
                proof {
                    lemma_totals_breakdown_agree(
                        ledger@.students,
                        ledger@.students.len() as int,
                        today,
                    );
                }
                return Err(e);
            },
        };
        let recent = Self::get_recent_payments(ledger);
        proof {
            lemma_totals_breakdown_agree(ledger@.students, ledger@.students.len() as int, today);
            assert(recent@.len() == recent@.map_values(|t: PaymentTransaction| t@).len());
            assert(recent@.len() <= 10);
        }
        Ok(
            PaymentSummary {
                total_students: overall.0,
                total_paid_amount: overall.1,
                total_expected_amount: overall.2,
                students_paid: overall.3,
                students_pending: overall.4,
                students_overdue: overall.5,
                students_due_soon: overall.6,
                payment_plan_breakdown: breakdown,
                recent_payments: recent,
            },
        )
    }
}

/// Executable stats equal to their mathematical counterpart.
pub open spec fn stats_match(s: PaymentPlanStats, t: TotalsV) -> bool {
    &&& s.total_students == t.students
    &&& s.total_paid == t.paid
    &&& s.total_expected == t.expected
    &&& s.students_paid == t.paid_c
    &&& s.students_pending == t.pending_c
    &&& s.students_overdue == t.overdue_c
    &&& s.students_due_soon == t.due_soon_c
}

/// Aggregate figures over at most `k` students stay within their bounds.
pub open spec fn stats_bounded(t: TotalsV, k: int) -> bool {
    &&& 0 <= t.students <= k
    &&& 0 <= t.expected <= k * 200_000_000_000
    &&& -k * 0x8000_0000 <= t.paid <= k * 0x8000_0000
    &&& 0 <= t.paid_c <= k
    &&& 0 <= t.pending_c <= k
    &&& 0 <= t.overdue_c <= k
    &&& 0 <= t.due_soon_c <= k
}

/// Once the overall fold has failed, it stays failed.
pub proof fn lemma_totals_none_stable(students: Seq<StudentV>, k: int, k2: int, today: Date)
    requires
        0 <= k <= k2,
        totals_upto(students, k, today) is None,
    ensures
        totals_upto(students, k2, today) is None,
    decreases k2 - k,
{
    if k2 > k {
        lemma_totals_none_stable(students, k, k2 - 1, today);
    }
}

/// Once the per-plan fold has failed, it stays failed.
pub proof fn lemma_breakdown_none_stable(students: Seq<StudentV>, k: int, k2: int, today: Date)
    requires
        0 <= k <= k2,
        breakdown_upto(students, k, today) is None,
    ensures
        breakdown_upto(students, k2, today) is None,
    decreases k2 - k,
{
    if k2 > k {
        lemma_breakdown_none_stable(students, k, k2 - 1, today);
    }
}

/// The overall fold and the per-plan fold succeed together.
pub proof fn lemma_totals_breakdown_agree(students: Seq<StudentV>, k: int, today: Date)
    requires
        k <= students.len(),
    ensures
        totals_upto(students, k, today) is Some <==> breakdown_upto(students, k, today) is Some,
    decreases k,
{
    if k > 0 {
        lemma_totals_breakdown_agree(students, k - 1, today);
    }
}

/// With no filter, the matching transactions are the whole log.
pub proof fn lemma_matching_none(txs: Seq<PaymentTransactionV>)
    ensures
        matching_txs(txs, None) == txs,
    decreases txs.len(),
{
    if txs.len() == 0 {
        assert(matching_txs(txs, None) =~= txs);
    } else {
        lemma_matching_none(txs.drop_last());
        assert(matching_txs(txs, None) =~= txs);
    }
}

} // verus!
