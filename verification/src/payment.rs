//! Payment transactions and the payment-side calculators: validation of a
//! payment request, the expected-amount calculator, and the per-plan
//! statistics that summaries are built from.

use vstd::prelude::*;
use vstd::string::StringSliceAdditionalSpecFns;

use crate::date::{days_between, days_between_exec, parse_date, parse_date_seq, Date};
use crate::error::{PaymentError, PaymentResult};
use crate::student::{
    count_or_default, months_elapsed, months_elapsed_spec, PaymentPlan, PaymentStatus, Student,
};
use crate::text::{bytes_blank, is_blank, str_eq};

verus! {

/// The largest single payment the engine accepts, in minor currency units.
pub const MAX_PAYMENT_AMOUNT: i32 = 1_000_000;

/// How a payment was made.
#[derive(Clone, Copy, Debug, PartialEq, Eq, Structural)]
pub enum PaymentMethod {
    Cash,
    BankTransfer,
    Check,
}

impl PaymentMethod {
    /// The token this method is stored and transported as.
    pub open spec fn token(self) -> Seq<char> {
        match self {
            PaymentMethod::Cash => "cash"@,
            PaymentMethod::BankTransfer => "bank_transfer"@,
            PaymentMethod::Check => "check"@,
        }
    }

    pub fn as_str(&self) -> (s: &'static str)
        ensures
            s@ == self.token(),
    {
        match self {
            PaymentMethod::Cash => "cash",
            PaymentMethod::BankTransfer => "bank_transfer",
            PaymentMethod::Check => "check",
        }
    }

    /// Decode a stored token; any unknown token is a validation error.
    pub fn from_str(s: &str) -> (r: Result<Self, String>)
        ensures
            s@ == PaymentMethod::Cash.token() ==> r == Ok::<Self, String>(PaymentMethod::Cash),
            s@ == PaymentMethod::BankTransfer.token() ==> r == Ok::<Self, String>(
                PaymentMethod::BankTransfer,
            ),
            s@ == PaymentMethod::Check.token() ==> r == Ok::<Self, String>(PaymentMethod::Check),
            r is Ok <==> (s@ == PaymentMethod::Cash.token() || s@
                == PaymentMethod::BankTransfer.token() || s@ == PaymentMethod::Check.token()),
    {
        proof {
            reveal_strlit("cash");
            reveal_strlit("bank_transfer");
            reveal_strlit("check");
            assert(("cash"@).len() == 4);
            assert(("bank_transfer"@).len() == 13);
            assert(("check"@).len() == 5);
        }
        if str_eq(s, "cash") {
            Ok(PaymentMethod::Cash)
        } else if str_eq(s, "bank_transfer") {
            Ok(PaymentMethod::BankTransfer)
        } else if str_eq(s, "check") {
            Ok(PaymentMethod::Check)
        } else {
            Err("Invalid payment method".to_owned())
        }
    }
}

/// One recorded payment. Rows are created by recording a payment and
/// removed by deleting one; there is no payment-edit operation.
#[derive(Clone, Debug)]
pub struct PaymentTransaction {
    pub id: i32,
    pub student_id: String,
    pub amount: i32,
    pub payment_date: String,
    pub payment_method: PaymentMethod,
    pub notes: Option<String>,
    pub created_at: String,
}

/// The mathematical value of a payment transaction.
#[verifier::ext_equal]
pub struct PaymentTransactionV {
    pub id: int,
    pub student_id: Seq<char>,
    pub amount: int,
    pub payment_date: Seq<char>,
    pub payment_method: PaymentMethod,
    pub notes: Option<Seq<char>>,
    pub created_at: Seq<char>,
}

impl PaymentTransaction {
    /// A copy of this row whose mathematical value equals the original's.
    pub fn duplicate(&self) -> (t: PaymentTransaction)
        ensures
            t@ == self@,
    {
        let t = PaymentTransaction {
            id: self.id,
            student_id: self.student_id.clone(),
            amount: self.amount,
            payment_date: self.payment_date.clone(),
            payment_method: self.payment_method,
            notes: match &self.notes {
                Some(n) => Some(n.clone()),
                None => None,
            },
            created_at: self.created_at.clone(),
        };
        assert(t@ =~= self@);
        t
    }
}

impl View for PaymentTransaction {
    type V = PaymentTransactionV;

    open spec fn view(&self) -> PaymentTransactionV {
        PaymentTransactionV {
            id: self.id as int,
            student_id: self.student_id@,
            amount: self.amount as int,
            payment_date: self.payment_date@,
            payment_method: self.payment_method,
            notes: match self.notes {
                Some(ref n) => Some(n@),
                None => None,
            },
            created_at: self.created_at@,
        }
    }
}

#[derive(Clone, Debug)]
pub struct RecordPaymentRequest {
    pub student_id: String,
    pub amount: i32,
    pub payment_date: String,
    pub payment_method: PaymentMethod,
    pub notes: Option<String>,
}

/// The outcome of a batch recompute: how many students were updated, and
/// which failed with what message.
#[derive(Clone, Debug)]
pub struct BatchUpdateResult {
    pub successful_updates: i32,
    pub failed_updates: Vec<(String, String)>,
}

/// Per-plan aggregate figures over a population of students.
#[derive(Clone, Copy, Debug, PartialEq, Eq, Structural)]
pub struct PaymentPlanStats {
    pub total_students: i32,
    pub total_paid: i64,
    pub total_expected: i64,
    pub students_paid: i32,
    pub students_pending: i32,
    pub students_overdue: i32,
    pub students_due_soon: i32,
}

impl Default for PaymentPlanStats {
    fn default() -> (s: Self)
        ensures
            s == (PaymentPlanStats {
                total_students: 0,
                total_paid: 0,
                total_expected: 0,
                students_paid: 0,
                students_pending: 0,
                students_overdue: 0,
                students_due_soon: 0,
            }),
    {
        PaymentPlanStats {
            total_students: 0,
            total_paid: 0,
            total_expected: 0,
            students_paid: 0,
            students_pending: 0,
            students_overdue: 0,
            students_due_soon: 0,
        }
    }
}

#[derive(Clone, Copy, Debug, PartialEq, Eq, Structural)]
pub struct PaymentPlanBreakdown {
    pub one_time: PaymentPlanStats,
    pub monthly: PaymentPlanStats,
    pub installment: PaymentPlanStats,
}

#[derive(Clone, Debug)]
pub struct PaymentSummary {
    pub total_students: i32,
    pub total_paid_amount: i64,
    pub total_expected_amount: i64,
    pub students_paid: i32,
    pub students_pending: i32,
    pub students_overdue: i32,
    pub students_due_soon: i32,
    pub payment_plan_breakdown: PaymentPlanBreakdown,
    pub recent_payments: Vec<PaymentTransaction>,
}

#[derive(Clone, Debug)]
pub struct PaymentHistoryFilter {
    pub student_id: Option<String>,
    pub start_date: Option<String>,
    pub end_date: Option<String>,
    pub payment_method: Option<PaymentMethod>,
    pub min_amount: Option<i32>,
    pub max_amount: Option<i32>,
}

#[derive(Clone, Debug)]
pub struct PaymentHistoryRequest {
    pub filter: Option<PaymentHistoryFilter>,
    pub limit: Option<i32>,
    pub offset: Option<i32>,
}

#[derive(Clone, Debug)]
pub struct PaginatedPaymentHistory {
    pub payments: Vec<PaymentTransaction>,
    pub total_count: i32,
    pub has_more: bool,
}

#[derive(Clone, Copy, Debug, PartialEq, Eq, Structural)]
pub struct PaymentMethodStats {
    pub count: i32,
    pub total_amount: i64,
}

#[derive(Clone, Copy, Debug, PartialEq, Eq, Structural)]
pub struct PaymentMethodBreakdown {
    pub cash: PaymentMethodStats,
    pub bank_transfer: PaymentMethodStats,
    pub check: PaymentMethodStats,
}

/// A student owing money past the due date, as reported to callers.
#[derive(Clone, Debug)]
pub struct OverduePaymentInfo {
    pub student_id: String,
    pub student_name: String,
    pub payment_plan: PaymentPlan,
    pub expected_amount: i64,
    pub paid_amount: i64,
    pub overdue_amount: i64,
    pub next_due_date: Option<String>,
    pub days_overdue: i64,
}

/// What payment validation accepts: a non-blank student id, an amount
/// between 1 and `MAX_PAYMENT_AMOUNT`, and a payment date in `YYYY-MM-DD`
/// shape naming an existing day. Every payment method is acceptable.
pub open spec fn valid_payment_data(
    student_id: Seq<u8>,
    amount: int,
    payment_date: Seq<char>,
) -> bool {
    &&& !is_blank(student_id)
    &&& 0 < amount <= MAX_PAYMENT_AMOUNT
    &&& parse_date_seq(payment_date) is Some
}

/// What the expectation calculator yields: `None` for an unparseable
/// enrollment date, otherwise the cumulative amount a student should have
/// paid by `today`. One-time plans expect the plan amount; monthly plans
/// expect the plan amount for every month begun since enrollment, so the
/// expectation grows with the passage of time even with no payments
/// recorded; installment plans expect the plan amount times the
/// installment count.
pub open spec fn expected_amount_result_spec(
    plan: PaymentPlan,
    plan_amount: int,
    enroll_str: Seq<char>,
    count: Option<int>,
    today: Date,
) -> Option<int> {
    match plan {
        PaymentPlan::OneTime => Some(plan_amount),
        PaymentPlan::Monthly => match parse_date_seq(enroll_str) {
            None => None,
            Some(enrollment) => Some(
                plan_amount * months_elapsed_spec(days_between(enrollment, today)),
            ),
        },
        PaymentPlan::Installment => Some(plan_amount * count_or_default(count)),
    }
}

pub struct PaymentService;

impl PaymentService {
    /// Validate a payment request before it touches any state.
    pub fn validate_payment_data(
        student_id: &str,
        amount: i32,
        payment_date: &str,
        payment_method: &PaymentMethod,
    ) -> (r: PaymentResult<()>)
        ensures
            r is Ok <==> valid_payment_data(
                student_id.spec_bytes(),
                amount as int,
                payment_date@,
            ),
            r matches Err(e) ==> e is ValidationError,
    {
        if bytes_blank(student_id.as_bytes()) {
            return Err(PaymentError::ValidationError("Student ID cannot be empty".to_owned()));
        }
        if amount <= 0 {
            return Err(
                PaymentError::ValidationError("Payment amount must be positive".to_owned()),
            );
        }
        if amount > MAX_PAYMENT_AMOUNT {
            return Err(
                PaymentError::ValidationError(
                    "Payment amount cannot exceed the configured maximum".to_owned(),
                ),
            );
        }
        match parse_date(payment_date) {
            Some(_) => {
                match payment_method {
                    PaymentMethod::Cash | PaymentMethod::BankTransfer | PaymentMethod::Check => {},
                }
                Ok(())
            },
            None => Err(
                PaymentError::ValidationError(
                    "Invalid payment date format. Use YYYY-MM-DD".to_owned(),
                ),
            ),
        }
    }

    /// The cumulative amount a student should have paid by `today`.
    pub fn calculate_expected_amount(
        payment_plan: &PaymentPlan,
        plan_amount: i32,
        enrollment_date: &str,
        installment_count: Option<i32>,
        today: Date,
    ) -> (r: PaymentResult<i64>)
        requires
            today.wf(),
        ensures
            ({
                let er = expected_amount_result_spec(
                    *payment_plan,
                    plan_amount as int,
                    enrollment_date@,
                    match installment_count {
                        Some(c) => Some(c as int),
                        None => None,
                    },
                    today,
                );
                &&& (r is Ok <==> er is Some)
                &&& (er matches Some(v) ==> r == Ok::<i64, PaymentError>(v as i64))
                &&& (er is None ==> (r matches Err(e) && e is ValidationError))
            }),
    {
        match payment_plan {
            PaymentPlan::OneTime => Ok(plan_amount as i64),
            PaymentPlan::Monthly => {
                let enrollment = match parse_date(enrollment_date) {
                    Some(d) => d,
                    None => {
                        return Err(
                            PaymentError::ValidationError("Invalid enrollment date".to_owned()),
                        );
                    },
                };
                let months: i64 = months_elapsed(days_between_exec(&enrollment, &today));
                proof {
                    let pa: int = plan_amount as int;
                    let mm: int = months as int;
                    assert(-0x8000_0000_0000_0000 <= pa * mm < 0x8000_0000_0000_0000)
                        by (nonlinear_arith)
                        requires
                            -0x8000_0000 <= pa < 0x8000_0000,
                            1 <= mm <= 200_000,
                    ;
                }
                Ok((plan_amount as i64) * months)
            },
            PaymentPlan::Installment => {
                let count: i32 = match installment_count {
                    Some(c) => c,
                    None => 3,
                };
                proof {
                    let pa: int = plan_amount as int;
                    let cc: int = count as int;
                    assert(-0x4000_0000_0000_0000 <= pa * cc <= 0x4000_0000_0000_0000)
                        by (nonlinear_arith)
                        requires
                            -0x8000_0000 <= pa < 0x8000_0000,
                            -0x8000_0000 <= cc < 0x8000_0000,
                    ;
                }
                Ok((plan_amount as i64) * (count as i64))
            },
        }
    }

    /// Fold one student into the aggregate figures of the plan bucket the
    /// student belongs to.
    pub fn update_payment_plan_stats(
        stats: &mut PaymentPlanStats,
        student: &Student,
        expected_amount: i64,
    )
        requires
            old(stats).total_students < i32::MAX,
            old(stats).students_paid < i32::MAX,
            old(stats).students_pending < i32::MAX,
            old(stats).students_overdue < i32::MAX,
            old(stats).students_due_soon < i32::MAX,
            i64::MIN <= old(stats).total_paid + student.paid_amount <= i64::MAX,
            i64::MIN <= old(stats).total_expected + expected_amount <= i64::MAX,
        ensures
            final (stats).total_students == old(stats).total_students + 1,
            final (stats).total_paid == old(stats).total_paid + student.paid_amount,
            final (stats).total_expected == old(stats).total_expected + expected_amount,
            final (stats).students_paid == old(stats).students_paid + (
            if student.payment_status == PaymentStatus::Paid {
                1int
            } else {
                0int
            }),
            final (stats).students_pending == old(stats).students_pending + (
            if student.payment_status == PaymentStatus::Pending {
                1int
            } else {
                0int
            }),
            final (stats).students_overdue == old(stats).students_overdue + (
            if student.payment_status == PaymentStatus::Overdue {
                1int
            } else {
                0int
            }),
            final (stats).students_due_soon == old(stats).students_due_soon + (
            if student.payment_status == PaymentStatus::DueSoon {
                1int
            } else {
                0int
            }),
    {
        stats.total_students = stats.total_students + 1;
        stats.total_paid = stats.total_paid + (student.paid_amount as i64);
        stats.total_expected = stats.total_expected + expected_amount;
        match student.payment_status {
            PaymentStatus::Paid => {
                stats.students_paid = stats.students_paid + 1;
            },
            PaymentStatus::Pending => {
                stats.students_pending = stats.students_pending + 1;
            },
            PaymentStatus::Overdue => {
                stats.students_overdue = stats.students_overdue + 1;
            },
            PaymentStatus::DueSoon => {
                stats.students_due_soon = stats.students_due_soon + 1;
            },
        }
    }
}

} // verus!
