//! Students and the vocabulary of the billing engine: payment plans,
//! payment statuses, and the per-plan configuration snapshot.

use vstd::prelude::*;
use vstd::string::StringSliceAdditionalSpecFns;

use crate::date::{
    add_months, add_months_spec, days_between, days_between_exec, date_seq, format_date,
    parse_date, parse_date_seq, Date,
};
use crate::error::{PaymentError, PaymentResult};
use crate::text::{bytes_blank, is_blank, parse_i32, parse_i32_seq, str_eq};

verus! {

/// The billing recurrence model assigned to a student.
#[derive(Clone, Copy, Debug, PartialEq, Eq, Structural)]
pub enum PaymentPlan {
    OneTime,
    Monthly,
    Installment,
}

impl PaymentPlan {
    /// The token this plan is stored and transported as.
    pub open spec fn token(self) -> Seq<char> {
        match self {
            PaymentPlan::OneTime => "one-time"@,
            PaymentPlan::Monthly => "monthly"@,
            PaymentPlan::Installment => "installment"@,
        }
    }

    pub fn as_str(&self) -> (s: &'static str)
        ensures
            s@ == self.token(),
    {
        match self {
            PaymentPlan::OneTime => "one-time",
            PaymentPlan::Monthly => "monthly",
            PaymentPlan::Installment => "installment",
        }
    }

    /// Decode a stored token; any unknown token is a validation error, never
    /// a silent default.
    pub fn from_str(s: &str) -> (r: Result<Self, String>)
        ensures
            s@ == PaymentPlan::OneTime.token() ==> r == Ok::<Self, String>(PaymentPlan::OneTime),
            s@ == PaymentPlan::Monthly.token() ==> r == Ok::<Self, String>(PaymentPlan::Monthly),
            s@ == PaymentPlan::Installment.token() ==> r == Ok::<Self, String>(
                PaymentPlan::Installment,
            ),
            r is Ok <==> (s@ == PaymentPlan::OneTime.token() || s@ == PaymentPlan::Monthly.token()
                || s@ == PaymentPlan::Installment.token()),
    {
        proof {
            reveal_strlit("one-time");
            reveal_strlit("monthly");
            reveal_strlit("installment");
            assert(("one-time"@).len() == 8);
            assert(("monthly"@).len() == 7);
            assert(("installment"@).len() == 11);
        }
        if str_eq(s, "one-time") {
            Ok(PaymentPlan::OneTime)
        } else if str_eq(s, "monthly") {
            Ok(PaymentPlan::Monthly)
        } else if str_eq(s, "installment") {
            Ok(PaymentPlan::Installment)
        } else {
            Err("Invalid payment plan".to_owned())
        }
    }
}

/// The four mutually exclusive classification buckets a student's billing
/// state can fall into. They form no progression: a payment can move a
/// student straight from `Overdue` back to `Pending` or `Paid`.
#[derive(Clone, Copy, Debug, PartialEq, Eq, Structural)]
pub enum PaymentStatus {
    Paid,
    Pending,
    Overdue,
    DueSoon,
}

impl PaymentStatus {
    /// The token this status is stored and transported as.
    pub open spec fn token(self) -> Seq<char> {
        match self {
            PaymentStatus::Paid => "paid"@,
            PaymentStatus::Pending => "pending"@,
            PaymentStatus::Overdue => "overdue"@,
            PaymentStatus::DueSoon => "due_soon"@,
        }
    }

    pub fn as_str(&self) -> (s: &'static str)
        ensures
            s@ == self.token(),
    {
        match self {
            PaymentStatus::Paid => "paid",
            PaymentStatus::Pending => "pending",
            PaymentStatus::Overdue => "overdue",
            PaymentStatus::DueSoon => "due_soon",
        }
    }

    /// Decode a stored token; any unknown token is a validation error.
    pub fn from_str(s: &str) -> (r: Result<Self, String>)
        ensures
            s@ == PaymentStatus::Paid.token() ==> r == Ok::<Self, String>(PaymentStatus::Paid),
            s@ == PaymentStatus::Pending.token() ==> r == Ok::<Self, String>(
                PaymentStatus::Pending,
            ),
            s@ == PaymentStatus::Overdue.token() ==> r == Ok::<Self, String>(
                PaymentStatus::Overdue,
            ),
            s@ == PaymentStatus::DueSoon.token() ==> r == Ok::<Self, String>(
                PaymentStatus::DueSoon,
            ),
            r is Ok <==> (s@ == PaymentStatus::Paid.token() || s@
                == PaymentStatus::Pending.token() || s@ == PaymentStatus::Overdue.token() || s@
                == PaymentStatus::DueSoon.token()),
    {
        proof {
            reveal_strlit("paid");
            reveal_strlit("pending");
            reveal_strlit("overdue");
            reveal_strlit("due_soon");
            assert(("paid"@).len() == 4);
            assert(("pending"@).len() == 7);
            assert(("overdue"@).len() == 7);
            assert(("due_soon"@).len() == 8);
            assert(("pending"@)[0] != ("overdue"@)[0]);
        }
        if str_eq(s, "paid") {
            Ok(PaymentStatus::Paid)
        } else if str_eq(s, "pending") {
            Ok(PaymentStatus::Pending)
        } else if str_eq(s, "overdue") {
            Ok(PaymentStatus::Overdue)
        } else if str_eq(s, "due_soon") {
            Ok(PaymentStatus::DueSoon)
        } else {
            Err("Invalid payment status".to_owned())
        }
    }
}

/// The billing-relevant record of one student. `paid_amount`,
/// `next_due_date` and `payment_status` are derived fields: the ledger keeps
/// `paid_amount` equal to the sum of the student's recorded transactions,
/// and the other two are a materialized cache of what the pure calculators
/// yield for the current state.
#[derive(Clone, Debug)]
pub struct Student {
    pub id: String,
    pub name: String,
    pub group_name: String,
    pub payment_plan: PaymentPlan,
    pub plan_amount: i32,
    pub installment_count: Option<i32>,
    pub paid_amount: i32,
    pub enrollment_date: String,
    pub next_due_date: Option<String>,
    pub payment_status: PaymentStatus,
    pub created_at: String,
    pub updated_at: String,
}

/// The mathematical value of a student record.
#[verifier::ext_equal]
pub struct StudentV {
    pub id: Seq<char>,
    pub name: Seq<char>,
    pub group_name: Seq<char>,
    pub payment_plan: PaymentPlan,
    pub plan_amount: int,
    pub installment_count: Option<int>,
    pub paid_amount: int,
    pub enrollment_date: Seq<char>,
    pub next_due_date: Option<Seq<char>>,
    pub payment_status: PaymentStatus,
    pub created_at: Seq<char>,
    pub updated_at: Seq<char>,
}

impl Student {
    /// A copy of this record whose mathematical value equals the
    /// original's.
    pub fn duplicate(&self) -> (s: Student)
        ensures
            s@ == self@,
    {
        let s = Student {
            id: self.id.clone(),
            name: self.name.clone(),
            group_name: self.group_name.clone(),
            payment_plan: self.payment_plan,
            plan_amount: self.plan_amount,
            installment_count: self.installment_count,
            paid_amount: self.paid_amount,
            enrollment_date: self.enrollment_date.clone(),
            next_due_date: match &self.next_due_date {
                Some(d) => Some(d.clone()),
                None => None,
            },
            payment_status: self.payment_status,
            created_at: self.created_at.clone(),
            updated_at: self.updated_at.clone(),
        };
        assert(s@ =~= self@);
        s
    }
}

impl View for Student {
    type V = StudentV;

    open spec fn view(&self) -> StudentV {
        StudentV {
            id: self.id@,
            name: self.name@,
            group_name: self.group_name@,
            payment_plan: self.payment_plan,
            plan_amount: self.plan_amount as int,
            installment_count: match self.installment_count {
                Some(c) => Some(c as int),
                None => None,
            },
            paid_amount: self.paid_amount as int,
            enrollment_date: self.enrollment_date@,
            next_due_date: match self.next_due_date {
                Some(ref d) => Some(d@),
                None => None,
            },
            payment_status: self.payment_status,
            created_at: self.created_at@,
            updated_at: self.updated_at@,
        }
    }
}

#[derive(Clone, Debug)]
pub struct CreateStudentRequest {
    pub name: String,
    pub group_name: String,
    pub payment_plan: PaymentPlan,
    pub plan_amount: i32,
    pub installment_count: Option<i32>,
}

#[derive(Clone, Debug)]
pub struct UpdateStudentRequest {
    pub name: String,
    pub group_name: String,
    pub payment_plan: PaymentPlan,
    pub plan_amount: i32,
    pub installment_count: Option<i32>,
}

/// The tunable parameters the engine reads before each computation:
/// per-plan default amounts (used only when creating students), the
/// installment interval in months, and the reminder window in days.
#[derive(Clone, Copy, Debug, PartialEq, Eq, Structural)]
pub struct PaymentPlanConfig {
    pub one_time_amount: i32,
    pub monthly_amount: i32,
    pub installment_amount: i32,
    pub installment_interval: i32,
    pub reminder_days: i32,
}

impl PaymentPlanConfig {
    /// A usable configuration: positive bounded amounts, an interval of one
    /// to twelve months, a reminder window of at most a year.
    pub open spec fn wf(self) -> bool {
        &&& 0 < self.one_time_amount <= 1_000_000
        &&& 0 < self.monthly_amount <= 1_000_000
        &&& 0 < self.installment_amount <= 1_000_000
        &&& 1 <= self.installment_interval <= 12
        &&& 0 <= self.reminder_days <= 365
    }
}

/// The installment count the engine falls back to when a student on an
/// installment plan somehow lacks one. Validation rejects such students, so
/// this is purely defensive.
pub open spec fn count_or_default(count: Option<int>) -> int {
    match count {
        Some(c) => c,
        None => 3,
    }
}

/// How many months of a monthly plan have begun after `days` elapsed days:
/// the elapsed days divided by the average month length of 30.44 days
/// (carried as the ratio 100 / 3044), floored, plus one, and never less
/// than one.
pub open spec fn months_elapsed_spec(days: int) -> int {
    if days <= 0 {
        1
    } else {
        (days * 100) / 3044 + 1
    }
}

/// Executable month count for a monthly plan.
pub fn months_elapsed(days: i64) -> (m: i64)
    requires
        -4_000_000 < days < 4_000_000,
    ensures
        m == months_elapsed_spec(days as int),
        1 <= m <= 200_000,
{
    if days <= 0 {
        1
    } else {
        (((days as u64) * 100) / 3044 + 1) as i64
    }
}

/// The month count is bounded while the elapsed days are.
pub proof fn lemma_months_elapsed_bound(days: int)
    requires
        days < 4_000_000,
    ensures
        1 <= months_elapsed_spec(days) <= 200_000,
{
    if days > 0 {
        let q: int = (days * 100) / 3044;
        assert(q * 3044 <= days * 100 < (q + 1) * 3044);
        assert(days * 100 < 400_000_000);
        assert(q >= 0);
        assert(q <= 131_500) by {
            if q > 131_500 {
                assert(q * 3044 > 131_500 * 3044);
            }
        }
    }
}

/// The next due date as a plain date, before any range check: the
/// enrollment date for one-time plans and for students with no payment yet,
/// otherwise the last payment date advanced by one month (monthly) or by
/// the installment interval (installment).
pub open spec fn next_due_value_spec(
    plan: PaymentPlan,
    enrollment: Date,
    last_payment: Option<Date>,
    interval: int,
) -> Date {
    match plan {
        PaymentPlan::OneTime => enrollment,
        PaymentPlan::Monthly => match last_payment {
            None => enrollment,
            Some(lp) => add_months_spec(lp, 1),
        },
        PaymentPlan::Installment => match last_payment {
            None => enrollment,
            Some(lp) => add_months_spec(lp, interval),
        },
    }
}

/// What the due-date calculator yields on string-level inputs: `None` for a
/// date error (an unparseable enrollment or last-payment date, or a result
/// past the year 9999), otherwise the next due date.
pub open spec fn next_due_result_spec(
    plan: PaymentPlan,
    enroll_str: Seq<char>,
    last_str: Option<Seq<char>>,
    interval: int,
) -> Option<Date> {
    match parse_date_seq(enroll_str) {
        None => None,
        Some(enrollment) => {
            let last_parse = match last_str {
                None => Some(None),
                Some(ls) => match parse_date_seq(ls) {
                    None => None,
                    Some(lp) => Some(Some(lp)),
                },
            };
            match last_parse {
                None => None,
                Some(last_payment) => {
                    let due = next_due_value_spec(plan, enrollment, last_payment, interval);
                    if due.year <= 9999 {
                        Some(due)
                    } else {
                        None
                    }
                },
            }
        },
    }
}

/// The status the reminder window assigns when completion by amount has
/// been ruled out: `None` for an unparseable stored due date; `Pending`
/// when no due date is stored; otherwise `Overdue` past the due date,
/// `DueSoon` within `reminder` days of it, `Pending` before that.
pub open spec fn due_status_spec(
    due_str: Option<Seq<char>>,
    reminder: int,
    today: Date,
) -> Option<PaymentStatus> {
    match due_str {
        None => Some(PaymentStatus::Pending),
        Some(ds) => match parse_date_seq(ds) {
            None => None,
            Some(due) => {
                let du = days_between(today, due);
                if du < 0 {
                    Some(PaymentStatus::Overdue)
                } else if du <= reminder {
                    Some(PaymentStatus::DueSoon)
                } else {
                    Some(PaymentStatus::Pending)
                }
            },
        },
    }
}

/// The classification rule, stated once on string-level inputs. `None`
/// means a date error.
///
/// One-time plans are `Paid` when the amount is covered, and otherwise go
/// by elapsed days since enrollment alone (more than 30 days means
/// `Overdue`), deliberately ignoring the stored due date and the reminder
/// window. Monthly and installment plans are `Paid` when the paid amount
/// covers the expected total (for monthly plans the amount expected to
/// date, for installment plans the plan amount times the installment
/// count), and otherwise go by the stored due date and the reminder window.
pub open spec fn status_result_spec(
    plan: PaymentPlan,
    plan_amount: int,
    paid: int,
    count: Option<int>,
    due_str: Option<Seq<char>>,
    enroll_str: Seq<char>,
    reminder: int,
    today: Date,
) -> Option<PaymentStatus> {
    match plan {
        PaymentPlan::OneTime => {
            if paid >= plan_amount {
                Some(PaymentStatus::Paid)
            } else {
                match parse_date_seq(enroll_str) {
                    None => None,
                    Some(enrollment) => {
                        if days_between(enrollment, today) > 30 {
                            Some(PaymentStatus::Overdue)
                        } else {
                            Some(PaymentStatus::Pending)
                        }
                    },
                }
            }
        },
        PaymentPlan::Monthly => {
            match parse_date_seq(enroll_str) {
                None => None,
                Some(enrollment) => {
                    if paid >= plan_amount * months_elapsed_spec(
                        days_between(enrollment, today),
                    ) {
                        Some(PaymentStatus::Paid)
                    } else {
                        due_status_spec(due_str, reminder, today)
                    }
                },
            }
        },
        PaymentPlan::Installment => {
            if paid >= plan_amount * count_or_default(count) {
                Some(PaymentStatus::Paid)
            } else {
                due_status_spec(due_str, reminder, today)
            }
        },
    }
}

/// What student validation accepts: a non-blank name of at most 255 bytes,
/// a non-blank group name of at most 100 bytes, a plan amount between 1 and
/// 1,000,000, and — for installment plans only — an installment count
/// between 1 and 12.
pub open spec fn valid_student_data(
    name: Seq<u8>,
    group_name: Seq<u8>,
    plan: PaymentPlan,
    plan_amount: int,
    installment_count: Option<int>,
) -> bool {
    &&& !is_blank(name)
    &&& name.len() <= 255
    &&& !is_blank(group_name)
    &&& group_name.len() <= 100
    &&& 0 < plan_amount <= 1_000_000
    &&& (plan == PaymentPlan::Installment ==> match installment_count {
        Some(c) => 1 <= c <= 12,
        None => false,
    })
}

/// The built-in default plan configuration.
pub open spec fn default_plan_config() -> PaymentPlanConfig {
    PaymentPlanConfig {
        one_time_amount: 6000,
        monthly_amount: 850,
        installment_amount: 2850,
        installment_interval: 3,
        reminder_days: 7,
    }
}

/// An integer parsed from a stored setting, or the built-in default when
/// the text is no integer.
pub open spec fn setting_or_default(v: Option<i32>, d: int) -> int {
    match v {
        Some(x) => x as int,
        None => d,
    }
}

/// One stored key/value row folded into the configuration.
pub open spec fn apply_setting(
    c: PaymentPlanConfig,
    key: Seq<char>,
    value: Seq<char>,
) -> PaymentPlanConfig {
    if key == "one_time_amount"@ {
        PaymentPlanConfig {
            one_time_amount: setting_or_default(parse_i32_seq(value), 6000) as i32,
            ..c
        }
    } else if key == "monthly_amount"@ {
        PaymentPlanConfig {
            monthly_amount: setting_or_default(parse_i32_seq(value), 850) as i32,
            ..c
        }
    } else if key == "installment_amount"@ {
        PaymentPlanConfig {
            installment_amount: setting_or_default(parse_i32_seq(value), 2850) as i32,
            ..c
        }
    } else if key == "installment_interval"@ {
        PaymentPlanConfig {
            installment_interval: setting_or_default(parse_i32_seq(value), 3) as i32,
            ..c
        }
    } else if key == "reminder_days"@ {
        PaymentPlanConfig { reminder_days: setting_or_default(parse_i32_seq(value), 7) as i32, ..c }
    } else {
        c
    }
}

/// The first `k` stored rows folded onto the defaults, in order.
pub open spec fn config_from_settings(rows: Seq<(Seq<char>, Seq<char>)>, k: int) -> PaymentPlanConfig
    decreases k,
{
    if k <= 0 {
        default_plan_config()
    } else {
        apply_setting(config_from_settings(rows, k - 1), rows[k - 1].0, rows[k - 1].1)
    }
}

pub struct StudentService;

impl StudentService {
    /// Validate the billing-relevant fields of a student before creating or
    /// updating one. Whitespace and length checks are byte-based, with the
    /// six ASCII whitespace characters counting as blank space.
    pub fn validate_student_data(
        name: &str,
        group_name: &str,
        payment_plan: &PaymentPlan,
        plan_amount: i32,
        installment_count: Option<i32>,
    ) -> (r: Result<(), String>)
        ensures
            r is Ok <==> valid_student_data(
                name.spec_bytes(),
                group_name.spec_bytes(),
                *payment_plan,
                plan_amount as int,
                match installment_count {
                    Some(c) => Some(c as int),
                    None => None,
                },
            ),
    {
        let name_bytes: &[u8] = name.as_bytes();
        let group_bytes: &[u8] = group_name.as_bytes();
        if bytes_blank(name_bytes) {
            return Err("Student name cannot be empty".to_owned());
        }
        if name_bytes.len() > 255 {
            return Err("Student name cannot exceed 255 characters".to_owned());
        }
        if bytes_blank(group_bytes) {
            return Err("Group name cannot be empty".to_owned());
        }
        if group_bytes.len() > 100 {
            return Err("Group name cannot exceed 100 characters".to_owned());
        }
        if plan_amount <= 0 {
            return Err("Plan amount must be positive".to_owned());
        }
        if plan_amount > 1_000_000 {
            return Err("Plan amount cannot exceed 1,000,000".to_owned());
        }
        if *payment_plan == PaymentPlan::Installment {
            match installment_count {
                Some(count) => {
                    if count <= 0 {
                        return Err("Installment count must be positive".to_owned());
                    }
                    if count > 12 {
                        return Err("Installment count cannot exceed 12".to_owned());
                    }
                },
                None => {
                    return Err("Installment count is required for installment plans".to_owned());
                },
            }
        }
        Ok(())
    }

    /// The plan configuration read from stored key/value settings rows,
    /// falling back to the built-in defaults for missing keys and for
    /// values that parse to no integer. Later rows overwrite earlier ones.
    pub fn get_payment_plan_config(settings: &Vec<(String, String)>) -> (c: PaymentPlanConfig)
        ensures
            c == config_from_settings(
                settings@.map_values(|p: (String, String)| (p.0@, p.1@)),
                settings@.len() as int,
            ),
    {
        let ghost rows = settings@.map_values(|p: (String, String)| (p.0@, p.1@));
        let n: usize = settings.len();
        let mut c = PaymentPlanConfig::default();
        let mut i: usize = 0;
        while i < n
            invariant
                n == settings@.len(),
                rows == settings@.map_values(|p: (String, String)| (p.0@, p.1@)),
                rows.len() == n,
                i <= n,
                c == config_from_settings(rows, i as int),
            decreases n - i,
        {
            proof {
                assert(rows[i as int] == (settings@[i as int].0@, settings@[i as int].1@));
            }
            let key: &String = &settings[i].0;
            let value: &String = &settings[i].1;
            if str_eq(key.as_str(), "one_time_amount") {
                c.one_time_amount = match parse_i32(value.as_str()) {
                    Some(v) => v,
                    None => 6000,
                };
            } else if str_eq(key.as_str(), "monthly_amount") {
                c.monthly_amount = match parse_i32(value.as_str()) {
                    Some(v) => v,
                    None => 850,
                };
            } else if str_eq(key.as_str(), "installment_amount") {
                c.installment_amount = match parse_i32(value.as_str()) {
                    Some(v) => v,
                    None => 2850,
                };
            } else if str_eq(key.as_str(), "installment_interval") {
                c.installment_interval = match parse_i32(value.as_str()) {
                    Some(v) => v,
                    None => 3,
                };
            } else if str_eq(key.as_str(), "reminder_days") {
                c.reminder_days = match parse_i32(value.as_str()) {
                    Some(v) => v,
                    None => 7,
                };
            }
            i = i + 1;
        }
        c
    }

    /// The next due date for a student, as a `YYYY-MM-DD` string.
    ///
    /// One-time plans are due at enrollment. Monthly and installment plans
    /// are due at enrollment until a payment exists, and thereafter one
    /// month (or one installment interval) after the most recent payment —
    /// the schedule anchors to the last payment date, not to the previous
    /// due date. Day-of-month overflow clamps to the target month's last
    /// day.
    pub fn calculate_next_due_date(
        payment_plan: &PaymentPlan,
        enrollment_date: &str,
        last_payment_date: Option<&str>,
        installment_interval: i32,
    ) -> (r: PaymentResult<Option<String>>)
        requires
            *payment_plan == PaymentPlan::Installment ==> 1 <= installment_interval <= 12,
        ensures
            ({
                let nr = next_due_result_spec(
                    *payment_plan,
                    enrollment_date@,
                    match last_payment_date {
                        Some(ls) => Some(ls@),
                        None => None,
                    },
                    installment_interval as int,
                );
                &&& (r is Ok <==> nr is Some)
                &&& (nr matches Some(d) ==> (r matches Ok(o) && o matches Some(s) && s@
                    == date_seq(d)))
                &&& (nr is None ==> (r matches Err(e) && e is ValidationError))
            }),
    {
        let enrollment = match parse_date(enrollment_date) {
            Some(d) => d,
            None => {
                return Err(
                    PaymentError::ValidationError("Invalid enrollment date format".to_owned()),
                );
            },
        };
        let last_payment: Option<Date> = match last_payment_date {
            None => None,
            Some(ls) => match parse_date(ls) {
                Some(d) => Some(d),
                None => {
                    return Err(
                        PaymentError::ValidationError(
                            "Invalid last payment date format".to_owned(),
                        ),
                    );
                },
            },
        };
        let due: Date = match payment_plan {
            PaymentPlan::OneTime => enrollment,
            PaymentPlan::Monthly => match last_payment {
                None => enrollment,
                Some(lp) => add_months(&lp, 1),
            },
            PaymentPlan::Installment => match last_payment {
                None => enrollment,
                Some(lp) => add_months(&lp, installment_interval),
            },
        };
        if due.year > 9999 {
            return Err(PaymentError::ValidationError("Due date out of range".to_owned()));
        }
        Ok(Some(format_date(&due)))
    }

    /// Classify a student's billing state as of `today`. A pure function of
    /// its arguments: calling it twice with the same inputs yields the same
    /// status.
    pub fn calculate_payment_status(
        payment_plan: &PaymentPlan,
        plan_amount: i32,
        paid_amount: i32,
        installment_count: Option<i32>,
        next_due_date: Option<&str>,
        enrollment_date: &str,
        reminder_days: i32,
        today: Date,
    ) -> (r: PaymentResult<PaymentStatus>)
        requires
            today.wf(),
        ensures
            ({
                let sr = status_result_spec(
                    *payment_plan,
                    plan_amount as int,
                    paid_amount as int,
                    match installment_count {
                        Some(c) => Some(c as int),
                        None => None,
                    },
                    match next_due_date {
                        Some(ds) => Some(ds@),
                        None => None,
                    },
                    enrollment_date@,
                    reminder_days as int,
                    today,
                );
                &&& (r is Ok <==> sr is Some)
                &&& (sr matches Some(st) ==> r == Ok::<PaymentStatus, PaymentError>(st))
                &&& (sr is None ==> (r matches Err(e) && e is ValidationError))
            }),
    {
        match payment_plan {
            PaymentPlan::OneTime => {
                if paid_amount >= plan_amount {
                    Ok(PaymentStatus::Paid)
                } else {
                    let enrollment = match parse_date(enrollment_date) {
                        Some(d) => d,
                        None => {
                            return Err(
                                PaymentError::ValidationError(
                                    "Invalid enrollment date format".to_owned(),
                                ),
                            );
                        },
                    };
                    if days_between_exec(&enrollment, &today) > 30 {
                        Ok(PaymentStatus::Overdue)
                    } else {
                        Ok(PaymentStatus::Pending)
                    }
                }
            },
            PaymentPlan::Monthly => {
                let enrollment = match parse_date(enrollment_date) {
                    Some(d) => d,
                    None => {
                        return Err(
                            PaymentError::ValidationError(
                                "Invalid enrollment date format".to_owned(),
                            ),
                        );
                    },
                };
                let months: i64 = months_elapsed(days_between_exec(&enrollment, &today));
                proof {
                    let pa: int = plan_amount as int;
                    let mm: int = months as int;
                    assert(-0x8000_0000_0000_0000 <= pa * mm < 0x8000_0000_0000_0000)
                        by (nonlinear_arith)
                        requires
                            -0x8000_0000 <= pa < 0x8000_0000,
                            1 <= mm <= 200_000,
                    ;
                }
                if (paid_amount as i64) >= (plan_amount as i64) * months {
                    Ok(PaymentStatus::Paid)
                } else {
                    Self::status_from_due_date(next_due_date, reminder_days, today)
                }
            },
            PaymentPlan::Installment => {
                let count: i32 = match installment_count {
                    Some(c) => c,
                    None => 3,
                };
                proof {
                    let pa: int = plan_amount as int;
                    let cc: int = count as int;
                    assert(-0x4000_0000_0000_0000 <= pa * cc <= 0x4000_0000_0000_0000)
                        by (nonlinear_arith)
                        requires
                            -0x8000_0000 <= pa < 0x8000_0000,
                            -0x8000_0000 <= cc < 0x8000_0000,
                    ;
                }
                if (paid_amount as i64) >= (plan_amount as i64) * (count as i64) {
                    Ok(PaymentStatus::Paid)
                } else {
                    Self::status_from_due_date(next_due_date, reminder_days, today)
                }
            },
        }
    }

    /// The reminder-window branch shared by monthly and installment plans.
    fn status_from_due_date(
        next_due_date: Option<&str>,
        reminder_days: i32,
        today: Date,
    ) -> (r: PaymentResult<PaymentStatus>)
        requires
            today.wf(),
        ensures
            ({
                let sr = due_status_spec(
                    match next_due_date {
                        Some(ds) => Some(ds@),
                        None => None,
                    },
                    reminder_days as int,
                    today,
                );
                &&& (r is Ok <==> sr is Some)
                &&& (sr matches Some(st) ==> r == Ok::<PaymentStatus, PaymentError>(st))
                &&& (sr is None ==> (r matches Err(e) && e is ValidationError))
            }),
    {
        match next_due_date {
            None => Ok(PaymentStatus::Pending),
            Some(ds) => {
                let due = match parse_date(ds) {
                    Some(d) => d,
                    None => {
                        return Err(
                            PaymentError::ValidationError("Invalid due date format".to_owned()),
                        );
                    },
                };
                let du: i64 = days_between_exec(&today, &due);
                if du < 0 {
                    Ok(PaymentStatus::Overdue)
                } else if du <= (reminder_days as i64) {
                    Ok(PaymentStatus::DueSoon)
                } else {
                    Ok(PaymentStatus::Pending)
                }
            },
        }
    }
}

impl Default for PaymentPlanConfig {
    /// The built-in defaults used when no stored configuration exists.
    fn default() -> (c: Self)
        ensures
            c.one_time_amount == 6000,
            c.monthly_amount == 850,
            c.installment_amount == 2850,
            c.installment_interval == 3,
            c.reminder_days == 7,
            c.wf(),
    {
        PaymentPlanConfig {
            one_time_amount: 6000,
            monthly_amount: 850,
            installment_amount: 2850,
            installment_interval: 3,
            reminder_days: 7,
        }
    }
}

} // verus!
