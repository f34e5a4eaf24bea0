//! The export rows and the date arithmetic behind the overdue report.
//! Writing the rows out is the host application's business; the library
//! supplies the records and the computations that fill them.

use vstd::prelude::*;

use crate::clock::today_utc;
use crate::date::{days_between, days_between_exec, parse_date, parse_date_seq, Date};
use crate::error::{PaymentError, PaymentResult};

verus! {

#[derive(Clone, Debug)]
pub struct AttendanceExportRecord {
    pub student_id: String,
    pub student_name: String,
    pub group_name: String,
    pub date: String,
    pub created_at: String,
}

#[derive(Clone, Debug)]
pub struct PaymentSummaryExportRecord {
    pub student_id: String,
    pub student_name: String,
    pub group_name: String,
    pub payment_plan: String,
    pub plan_amount: i32,
    pub paid_amount: i32,
    pub payment_status: String,
    pub next_due_date: Option<String>,
    pub enrollment_date: String,
}

#[derive(Clone, Debug)]
pub struct PaymentHistoryExportRecord {
    pub student_id: String,
    pub student_name: String,
    pub group_name: String,
    pub payment_amount: i32,
    pub payment_date: String,
    pub payment_method: String,
    pub notes: Option<String>,
    pub created_at: String,
}

#[derive(Clone, Debug)]
pub struct OverdueStudentExportRecord {
    pub student_id: String,
    pub student_name: String,
    pub group_name: String,
    pub payment_plan: String,
    pub plan_amount: i32,
    pub paid_amount: i32,
    pub amount_due: i32,
    pub next_due_date: Option<String>,
    pub days_overdue: i32,
    pub enrollment_date: String,
}

/// How many days past the due date `today` lies, floored at zero; `None`
/// when the due date does not parse.
pub open spec fn days_overdue_spec(due_str: Seq<char>, today: Date) -> Option<int> {
    match parse_date_seq(due_str) {
        None => None,
        Some(due) => {
            let d = days_between(due, today);
            if d >= 0 {
                Some(d)
            } else {
                Some(0)
            }
        },
    }
}

/// How many whole calendar months lie between an enrollment date and
/// `today`, by year and month fields alone, never less than one; `None`
/// when the enrollment date does not parse.
pub open spec fn months_since_spec(enroll_str: Seq<char>, today: Date) -> Option<int> {
    match parse_date_seq(enroll_str) {
        None => None,
        Some(e) => {
            let m = (today.year - e.year) * 12 + today.month - e.month;
            if m >= 1 {
                Some(m)
            } else {
                Some(1)
            }
        },
    }
}

pub struct ExportService;

impl ExportService {
    /// Days overdue relative to an explicit `today`.
    pub fn calculate_days_overdue_on(due_date: &str, today: Date) -> (r: PaymentResult<i32>)
        requires
            today.wf(),
        ensures
            ({
                match days_overdue_spec(due_date@, today) {
                    Some(v) => r == Ok::<i32, PaymentError>(v as i32),
                    None => r matches Err(e) && e is ValidationError,
                }
            }),
    {
        let due = match parse_date(due_date) {
            Some(d) => d,
            None => {
                return Err(PaymentError::ValidationError("Invalid due date format".to_owned()));
            },
        };
        let d: i64 = days_between_exec(&due, &today);
        if d >= 0 {
            Ok(d as i32)
        } else {
            Ok(0)
        }
    }

    /// Days overdue as of the current UTC date, read from the system
    /// clock. Fails when the due date does not parse or the clock reads a
    /// date outside the supported year range.
    pub fn calculate_days_overdue(due_date: &str) -> (r: PaymentResult<i32>)
        ensures
            parse_date_seq(due_date@) is None ==> (r matches Err(e) && e is ValidationError),
            r matches Ok(v) ==> exists|t: Date|
                t.wf() && #[trigger] days_overdue_spec(due_date@, t) == Some(v as int),
    {
        let today = today_utc();
        if !today.is_wf() {
            return Err(PaymentError::ValidationError("Clock out of supported range".to_owned()));
        }
        let r = Self::calculate_days_overdue_on(due_date, today);
        proof {
            match r {
                Ok(v) => {
                    assert(days_overdue_spec(due_date@, today) == Some(v as int));
                },
                Err(_) => {},
            }
        }
        r
    }

    /// Whole months since enrollment relative to an explicit `today`.
    pub fn calculate_months_since_enrollment_on(enrollment_date: &str, today: Date) -> (r:
        PaymentResult<i32>)
        requires
            today.wf(),
        ensures
            ({
                match months_since_spec(enrollment_date@, today) {
                    Some(v) => r == Ok::<i32, PaymentError>(v as i32),
                    None => r matches Err(e) && e is ValidationError,
                }
            }),
    {
        let e = match parse_date(enrollment_date) {
            Some(d) => d,
            None => {
                return Err(
                    PaymentError::ValidationError("Invalid enrollment date format".to_owned()),
                );
            },
        };
        let m: i32 = (today.year - e.year) * 12 + today.month - e.month;
        if m >= 1 {
            Ok(m)
        } else {
            Ok(1)
        }
    }

    /// Whole months since enrollment as of the current UTC date.
    pub fn calculate_months_since_enrollment(enrollment_date: &str) -> (r: PaymentResult<i32>)
        ensures
            parse_date_seq(enrollment_date@) is None ==> (r matches Err(e)
                && e is ValidationError),
            r matches Ok(v) ==> exists|t: Date|
                t.wf() && #[trigger] months_since_spec(enrollment_date@, t) == Some(v as int),
    {
        let today = today_utc();
        if !today.is_wf() {
            return Err(PaymentError::ValidationError("Clock out of supported range".to_owned()));
        }
        let r = Self::calculate_months_since_enrollment_on(enrollment_date, today);
        proof {
            match r {
                Ok(v) => {
                    assert(months_since_spec(enrollment_date@, today) == Some(v as int));
                },
                Err(_) => {},
            }
        }
        r
    }
}

} // verus!
