//! Attendance-side date helpers: the pieces of the attendance service that
//! compute rather than store.

use vstd::prelude::*;

use crate::date::{days_between, days_between_exec, parse_date, parse_date_seq};
use crate::error::{PaymentError, PaymentResult};

verus! {

#[derive(Clone, Debug)]
pub struct AttendanceHistoryFilter {
    pub student_id: Option<String>,
    pub start_date: Option<String>,
    pub end_date: Option<String>,
    pub group_name: Option<String>,
}

pub struct AttendanceService;

impl AttendanceService {
    /// Accept exactly the `YYYY-MM-DD` strings that name an existing day.
    pub fn validate_date_format(date: &str) -> (r: PaymentResult<()>)
        ensures
            r is Ok <==> parse_date_seq(date@) is Some,
            r matches Err(e) ==> e is ValidationError,
    {
        match parse_date(date) {
            Some(_) => Ok(()),
            None => Err(
                PaymentError::ValidationError("Invalid date format. Use YYYY-MM-DD".to_owned()),
            ),
        }
    }

    /// Validate a date and hand it back unchanged.
    pub fn validate_and_format_date(date: &str) -> (r: PaymentResult<String>)
        ensures
            (r matches Ok(s) && s@ == date@) <==> parse_date_seq(date@) is Some,
            r matches Err(e) ==> e is ValidationError,
    {
        match parse_date(date) {
            Some(_) => Ok(date.to_owned()),
            None => Err(
                PaymentError::ValidationError("Invalid date format. Use YYYY-MM-DD".to_owned()),
            ),
        }
    }

    /// The number of days from `start_date` to `end_date`, counting both
    /// endpoints.
    pub fn calculate_days_between(start_date: &str, end_date: &str) -> (r: PaymentResult<i32>)
        ensures
            ({
                match (parse_date_seq(start_date@), parse_date_seq(end_date@)) {
                    (Some(s), Some(e)) => r == Ok::<i32, PaymentError>(
                        (days_between(s, e) + 1) as i32,
                    ),
                    _ => r matches Err(er) && er is ValidationError,
                }
            }),
    {
        let start = match parse_date(start_date) {
            Some(d) => d,
            None => {
                return Err(
                    PaymentError::ValidationError("Invalid start date format".to_owned()),
                );
            },
        };
        let end = match parse_date(end_date) {
            Some(d) => d,
            None => {
                return Err(PaymentError::ValidationError("Invalid end date format".to_owned()));
            },
        };
        let d: i64 = days_between_exec(&start, &end);
        Ok((d + 1) as i32)
    }
}

} // verus!
