//! The batch recomputer, in its two equivalent strategies.
//!
//! The row-by-row strategy re-derives each student's due date and status
//! from the payment log, writes both back, and collects per-student
//! failures without aborting the batch. The bulk strategy makes one pass
//! that re-derives the status alone from each student's stored due date,
//! writing only where the status changed, and stops at the first error —
//! the in-memory form of a single conditional update statement. On a
//! ledger whose cached due dates are consistent the two strategies assign
//! every student the same status; see `crate::laws`.

use vstd::prelude::*;

use crate::date::Date;
use crate::error::{PaymentError, PaymentResult};
use crate::ledger::{
    find_student_idx, lemma_find_student, recompute_student_spec, sum_for, Ledger, LedgerV,
};
use crate::payment::{BatchUpdateResult, PaymentService};
use crate::student::{status_result_spec, PaymentPlanConfig, StudentService, StudentV};

verus! {

/// One step of the row-by-row strategy: recompute student `i`, keeping the
/// ledger as it was when the student's dates cannot be processed. The
/// `bool` records success.
pub open spec fn batch_step_spec(
    l: LedgerV,
    i: int,
    config: PaymentPlanConfig,
    today: Date,
    now: Seq<char>,
) -> (LedgerV, bool) {
    match recompute_student_spec(l, i, config, today, now) {
        Some(l2) => (l2, true),
        None => (l, false),
    }
}

/// The row-by-row strategy applied to the first `k` students in order,
/// with the per-student outcomes.
pub open spec fn batch_upto_spec(
    l: LedgerV,
    k: int,
    config: PaymentPlanConfig,
    today: Date,
    now: Seq<char>,
) -> (LedgerV, Seq<bool>)
    decreases k,
{
    if k <= 0 {
        (l, Seq::empty())
    } else {
        let prev = batch_upto_spec(l, k - 1, config, today, now);
        let step = batch_step_spec(prev.0, k - 1, config, today, now);
        (step.0, prev.1.push(step.1))
    }
}

/// How many of the outcomes are successes.
pub open spec fn count_true(s: Seq<bool>) -> int
    decreases s.len(),
{
    if s.len() == 0 {
        0
    } else {
        count_true(s.drop_last()) + if s.last() {
            1int
        } else {
            0int
        }
    }
}

/// The ids of the students whose outcome was a failure, in batch order.
pub open spec fn failed_ids_spec(students: Seq<StudentV>, oks: Seq<bool>) -> Seq<Seq<char>>
    decreases oks.len(),
{
    if oks.len() == 0 {
        Seq::empty()
    } else {
        let rest = failed_ids_spec(students, oks.drop_last());
        if oks.last() {
            rest
        } else {
            rest.push(students[oks.len() - 1].id)
        }
    }
}

/// One step of the bulk strategy on student `k`: re-derive the status from
/// the stored due date and write it back only if it changed.
pub open spec fn bulk_step_spec(
    l: LedgerV,
    k: int,
    config: PaymentPlanConfig,
    today: Date,
    now: Seq<char>,
) -> Option<LedgerV>
    recommends
        0 <= k < l.students.len(),
{
    let s = l.students[k];
    match status_result_spec(
        s.payment_plan,
        s.plan_amount,
        s.paid_amount,
        s.installment_count,
        s.next_due_date,
        s.enrollment_date,
        config.reminder_days as int,
        today,
    ) {
        None => None,
        Some(st) => Some(
            if st == s.payment_status {
                l
            } else {
                LedgerV {
                    students: l.students.update(
                        k,
                        StudentV { payment_status: st, updated_at: now, ..s },
                    ),
                    ..l
                }
            },
        ),
    }
}

/// The bulk strategy applied to the first `k` students in order; `Err`
/// carries the index of the first student whose dates cannot be processed.
pub open spec fn bulk_upto_spec(
    l: LedgerV,
    k: int,
    config: PaymentPlanConfig,
    today: Date,
    now: Seq<char>,
) -> Result<LedgerV, int>
    decreases k,
{
    if k <= 0 {
        Ok(l)
    } else {
        match bulk_upto_spec(l, k - 1, config, today, now) {
            Err(i) => Err(i),
            Ok(l1) => match bulk_step_spec(l1, k - 1, config, today, now) {
                None => Err(k - 1),
                Some(l2) => Ok(l2),
            },
        }
    }
}

/// Once the bulk strategy has failed, processing more students changes
/// nothing.
pub proof fn lemma_bulk_err_stable(
    l: LedgerV,
    k: int,
    k2: int,
    config: PaymentPlanConfig,
    today: Date,
    now: Seq<char>,
)
    requires
        0 <= k <= k2,
        bulk_upto_spec(l, k, config, today, now) is Err,
    ensures
        bulk_upto_spec(l, k2, config, today, now) == bulk_upto_spec(l, k, config, today, now),
    decreases k2 - k,
{
    if k2 > k {
        lemma_bulk_err_stable(l, k, k2 - 1, config, today, now);
    }
}

impl PaymentService {
    /// Recompute due date and status for every student, row by row. One
    /// student's date error does not abort the batch: the outcome reports
    /// the number of students updated and the id of each student that
    /// failed, in order, with a message.
    pub fn update_all_payment_statuses(
        ledger: &mut Ledger,
        config: &PaymentPlanConfig,
        today: Date,
        now: &str,
    ) -> (r: BatchUpdateResult)
        requires
            old(ledger)@.wf(),
            today.wf(),
            config.wf(),
            old(ledger)@.students.len() <= i32::MAX,
        ensures
            ({
                let b = batch_upto_spec(
                    old(ledger)@,
                    old(ledger)@.students.len() as int,
                    *config,
                    today,
                    now@,
                );
                &&& final (ledger)@ == b.0
                &&& r.successful_updates == count_true(b.1)
                &&& r.failed_updates@.map_values(|p: (String, String)| p.0@) == failed_ids_spec(
                    old(ledger)@.students,
                    b.1,
                )
            }),
            final (ledger)@.wf(),
    {
        let ghost l0 = ledger@;
        let n: usize = ledger.students.len();
        proof {
            assert(l0.students.len() == n);
        }
        let mut successful: i32 = 0;
        let mut failed: Vec<(String, String)> = Vec::new();
        let mut i: usize = 0;
        proof {
            assert(failed@.map_values(|p: (String, String)| p.0@) =~= Seq::<Seq<char>>::empty());
        }
        while i < n
            invariant
                n == ledger.students.len(),
                l0.students.len() == n,
                n <= i32::MAX,
                i <= n,
                ledger@.wf(),
                today.wf(),
                config.wf(),
                ledger@.students.len() == n,
                forall|j: int|
                    0 <= j < n ==> (#[trigger] ledger@.students[j]).id == l0.students[j].id,
                0 <= successful <= i,
                ({
                    let b = batch_upto_spec(l0, i as int, *config, today, now@);
                    &&& ledger@ == b.0
                    &&& successful == count_true(b.1)
                    &&& b.1.len() == i
                    &&& failed@.map_values(|p: (String, String)| p.0@) == failed_ids_spec(
                        l0.students,
                        b.1,
                    )
                }),
            decreases n - i,
        {
            let ghost b_prev = batch_upto_spec(l0, i as int, *config, today, now@);
            let sid: String = ledger.students[i].id.clone();
            proof {
                assert(ledger@.students[i as int] == ledger.students@[i as int]@);
                assert(sid@ == ledger@.students[i as int].id);
                lemma_find_student(ledger@.students, sid@);
                match find_student_idx(ledger@.students, sid@) {
                    Some(k) => {
                        if k != i as int {
                            assert(ledger@.students[k].id == ledger@.students[i as int].id);
                            assert(false);
                        }
                    },
                    None => {
                        assert(false);
                    },
                }
            }
            let ghost failed_prev = failed@;
            let ghost sid_view = sid@;
            match Self::update_student_payment_status(ledger, sid.as_str(), config, today, now) {
                Ok(()) => {
                    successful = successful + 1;
                },
                Err(_) => {
                    failed.push((sid, "date fields could not be processed".to_owned()));
                    proof {
                        assert(failed@ =~= failed_prev.push(
                            (failed@[failed@.len() - 1].0, failed@[failed@.len() - 1].1),
                        ));
                        assert(failed@[failed@.len() - 1].0@ == sid_view);
                        assert(failed@.map_values(|p: (String, String)| p.0@) =~= failed_prev.map_values(
                            |p: (String, String)| p.0@,
                        ).push(sid_view));
                    }
                },
            }
            proof {
                let b = batch_upto_spec(l0, i as int + 1, *config, today, now@);
                assert(b.1.drop_last() =~= b_prev.1);
                assert(b.1.last() == batch_step_spec(b_prev.0, i as int, *config, today, now@).1);
            }
            i = i + 1;
        }
        BatchUpdateResult { successful_updates: successful, failed_updates: failed }
    }
}

impl StudentService {
    /// Recompute the status of every student in one pass from the stored
    /// due dates, writing only where the status changed. Stops at the
    /// first student whose dates cannot be processed.
    pub fn update_payment_statuses(
        ledger: &mut Ledger,
        config: &PaymentPlanConfig,
        today: Date,
        now: &str,
    ) -> (r: PaymentResult<()>)
        requires
            old(ledger)@.wf(),
            today.wf(),
            config.wf(),
        ensures
            ({
                let u = bulk_upto_spec(
                    old(ledger)@,
                    old(ledger)@.students.len() as int,
                    *config,
                    today,
                    now@,
                );
                match u {
                    Ok(lf) => r is Ok && final (ledger)@ == lf,
                    Err(i) => (r matches Err(e) && e is ValidationError) && (bulk_upto_spec(
                        old(ledger)@,
                        i,
                        *config,
                        today,
                        now@,
                    ) matches Ok(li) && final (ledger)@ == li),
                }
            }),
            final (ledger)@.wf(),
    {
        let ghost l0 = ledger@;
        let n: usize = ledger.students.len();
        proof {
            assert(l0.students.len() == n);
        }
        let mut i: usize = 0;
        while i < n
            invariant
                n == ledger.students.len(),
                l0 == old(ledger)@,
                l0.students.len() == n,
                i <= n,
                ledger@.wf(),
                today.wf(),
                config.wf(),
                ledger@.students.len() == n,
                bulk_upto_spec(l0, i as int, *config, today, now@) == Ok::<LedgerV, int>(ledger@),
            decreases n - i,
        {
            let ghost l_cur = ledger@;
            let plan = ledger.students[i].payment_plan;
            let plan_amount: i32 = ledger.students[i].plan_amount;
            let paid_amount: i32 = ledger.students[i].paid_amount;
            let installment_count: Option<i32> = ledger.students[i].installment_count;
            let current_status = ledger.students[i].payment_status;
            let enrollment: String = ledger.students[i].enrollment_date.clone();
            let due: Option<String> = match &ledger.students[i].next_due_date {
                Some(d) => Some(d.clone()),
                None => None,
            };
            let due_ref: Option<&str> = match &due {
                Some(d) => Some(d.as_str()),
                None => None,
            };
            proof {
                assert(ledger@.students[i as int] == ledger.students@[i as int]@);
            }
            let status = match StudentService::calculate_payment_status(
                &plan,
                plan_amount,
                paid_amount,
                installment_count,
                due_ref,
                enrollment.as_str(),
                config.reminder_days,
                today,
            ) {
                Ok(st) => st,
                Err(e) => {
                    proof {
                        assert(due_ref matches Some(d) ==> l_cur.students[i as int].next_due_date
                            == Some(d@));
                        assert(bulk_step_spec(l_cur, i as int, *config, today, now@) is None);
                        assert(bulk_upto_spec(l0, i as int + 1, *config, today, now@) == Err::<
                            LedgerV,
                            int,
                        >(i as int));
                        lemma_bulk_err_stable(l0, i as int + 1, n as int, *config, today, now@);
                    }
                    return Err(e);
                },
            };
            if status != current_status {
                let mut s = ledger.students.remove(i);
                s.payment_status = status;
                s.updated_at = now.to_owned();
                ledger.students.insert(i, s);
                proof {
                    let target = bulk_step_spec(l_cur, i as int, *config, today, now@).unwrap();
                    assert(ledger@.students =~= l_cur.students.update(
                        i as int,
                        ledger@.students[i as int],
                    ));
                    assert(ledger@.students[i as int] =~= target.students[i as int]);
                    assert(ledger@.students =~= target.students);
                    assert(ledger@.transactions =~= l_cur.transactions);
                    assert(ledger@ =~= target);
                    assert forall|j: int| 0 <= j < ledger@.students.len() implies (
                    #[trigger] ledger@.students[j]).paid_amount == sum_for(
                        ledger@.transactions,
                        ledger@.students[j].id,
                    ) by {
                        assert(l_cur.students[j].paid_amount == sum_for(
                            l_cur.transactions,
                            l_cur.students[j].id,
                        ));
                    }
                }
            } else {
                proof {
                    assert(bulk_step_spec(l_cur, i as int, *config, today, now@) == Some(l_cur));
                }
            }
            i = i + 1;
        }
        Ok(())
    }
}

} // verus!
