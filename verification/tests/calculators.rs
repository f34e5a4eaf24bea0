use tuition_billing::date::Date;
use tuition_billing::payment::PaymentService;
use tuition_billing::student::{PaymentPlan, PaymentStatus, StudentService};

#[test]
fn test_calculate_next_due_date() {
    // Test one-time payment
    let due_date =
        StudentService::calculate_next_due_date(&PaymentPlan::OneTime, "2024-01-01", None, 3)
            .unwrap();
    assert_eq!(due_date, Some("2024-01-01".to_string()));

    // Test monthly payment
    let due_date =
        StudentService::calculate_next_due_date(&PaymentPlan::Monthly, "2024-01-01", None, 3)
            .unwrap();
    assert_eq!(due_date, Some("2024-01-01".to_string()));

    // Test installment payment
    let due_date =
        StudentService::calculate_next_due_date(&PaymentPlan::Installment, "2024-01-01", None, 3)
            .unwrap();
    assert_eq!(due_date, Some("2024-01-01".to_string()));
}

#[test]
fn test_monthly_due_date_anchors_to_last_payment() {
    // No payment yet: due at enrollment
    let due =
        StudentService::calculate_next_due_date(&PaymentPlan::Monthly, "2024-01-15", None, 3)
            .unwrap();
    assert_eq!(due, Some("2024-01-15".to_string()));

    // After a payment on the enrollment day: one month later
    let due = StudentService::calculate_next_due_date(
        &PaymentPlan::Monthly,
        "2024-01-15",
        Some("2024-01-15"),
        3,
    )
    .unwrap();
    assert_eq!(due, Some("2024-02-15".to_string()));

    // The anchor is the last payment date, not the previous due date
    let due = StudentService::calculate_next_due_date(
        &PaymentPlan::Monthly,
        "2024-01-15",
        Some("2024-03-02"),
        3,
    )
    .unwrap();
    assert_eq!(due, Some("2024-04-02".to_string()));
}

#[test]
fn test_installment_due_date_advances_by_interval() {
    let due = StudentService::calculate_next_due_date(
        &PaymentPlan::Installment,
        "2024-01-15",
        Some("2024-01-15"),
        3,
    )
    .unwrap();
    assert_eq!(due, Some("2024-04-15".to_string()));

    let due = StudentService::calculate_next_due_date(
        &PaymentPlan::Installment,
        "2024-01-15",
        Some("2024-11-20"),
        3,
    )
    .unwrap();
    assert_eq!(due, Some("2025-02-20".to_string()));
}

#[test]
fn test_next_due_date_rejects_bad_dates() {
    assert!(
        StudentService::calculate_next_due_date(&PaymentPlan::Monthly, "not-a-date", None, 3)
            .is_err()
    );
    assert!(
        StudentService::calculate_next_due_date(
            &PaymentPlan::Monthly,
            "2024-01-15",
            Some("bad"),
            3
        )
        .is_err()
    );
}

#[test]
fn test_one_time_boundaries() {
    let today = Date { year: 2024, month: 2, day: 11 };

    // plan 6000, paid 6000: Paid regardless of dates
    let st = StudentService::calculate_payment_status(
        &PaymentPlan::OneTime,
        6000,
        6000,
        None,
        Some("1999-01-01"),
        "1999-01-01",
        7,
        today,
    )
    .unwrap();
    assert_eq!(st, PaymentStatus::Paid);

    // paid 3000, enrolled 31 days ago: Overdue
    let st = StudentService::calculate_payment_status(
        &PaymentPlan::OneTime,
        6000,
        3000,
        None,
        None,
        "2024-01-11",
        7,
        today,
    )
    .unwrap();
    assert_eq!(st, PaymentStatus::Overdue);

    // paid 3000, enrolled 10 days ago: Pending
    let st = StudentService::calculate_payment_status(
        &PaymentPlan::OneTime,
        6000,
        3000,
        None,
        None,
        "2024-02-01",
        7,
        today,
    )
    .unwrap();
    assert_eq!(st, PaymentStatus::Pending);

    // exactly 30 days is still Pending; 31 turns Overdue
    let st = StudentService::calculate_payment_status(
        &PaymentPlan::OneTime,
        6000,
        3000,
        None,
        None,
        "2024-01-12",
        7,
        today,
    )
    .unwrap();
    assert_eq!(st, PaymentStatus::Pending);
}

#[test]
fn test_reminder_window() {
    let today = Date { year: 2024, month: 3, day: 1 };
    // Monthly student far from covering the expectation
    // 5 days from now with a 7-day window: DueSoon
    let st = StudentService::calculate_payment_status(
        &PaymentPlan::Monthly,
        850,
        0,
        None,
        Some("2024-03-06"),
        "2024-01-01",
        7,
        today,
    )
    .unwrap();
    assert_eq!(st, PaymentStatus::DueSoon);

    // 8 days from now: Pending
    let st = StudentService::calculate_payment_status(
        &PaymentPlan::Monthly,
        850,
        0,
        None,
        Some("2024-03-09"),
        "2024-01-01",
        7,
        today,
    )
    .unwrap();
    assert_eq!(st, PaymentStatus::Pending);

    // yesterday: Overdue
    let st = StudentService::calculate_payment_status(
        &PaymentPlan::Monthly,
        850,
        0,
        None,
        Some("2024-02-29"),
        "2024-01-01",
        7,
        today,
    )
    .unwrap();
    assert_eq!(st, PaymentStatus::Overdue);

    // due exactly today: DueSoon even with a zero-day window
    let st = StudentService::calculate_payment_status(
        &PaymentPlan::Monthly,
        850,
        0,
        None,
        Some("2024-03-01"),
        "2024-01-01",
        0,
        today,
    )
    .unwrap();
    assert_eq!(st, PaymentStatus::DueSoon);
}

#[test]
fn test_installment_expectation() {
    let today = Date { year: 2024, month: 1, day: 20 };
    // plan_amount 2850 with 3 installments expects 8550 in total
    let expected = PaymentService::calculate_expected_amount(
        &PaymentPlan::Installment,
        2850,
        "2024-01-15",
        Some(3),
        today,
    )
    .unwrap();
    assert_eq!(expected, 8550);

    // paying one installment leaves 5700 and a date-governed status
    let paid = 2850;
    assert_eq!(expected - paid, 5700);
    let st = StudentService::calculate_payment_status(
        &PaymentPlan::Installment,
        2850,
        paid as i32,
        Some(3),
        Some("2024-04-15"),
        "2024-01-15",
        7,
        today,
    )
    .unwrap();
    assert_eq!(st, PaymentStatus::Pending);

    // a missing count falls back to three installments
    let fallback = PaymentService::calculate_expected_amount(
        &PaymentPlan::Installment,
        2850,
        "2024-01-15",
        None,
        today,
    )
    .unwrap();
    assert_eq!(fallback, 8550);
}

#[test]
fn test_monthly_expectation_grows_with_time() {
    // day zero: one month expected
    let expected = PaymentService::calculate_expected_amount(
        &PaymentPlan::Monthly,
        850,
        "2024-01-01",
        None,
        Date { year: 2024, month: 1, day: 1 },
    )
    .unwrap();
    assert_eq!(expected, 850);

    // 60 elapsed days: floor(60 / 30.44) + 1 = 2 months expected
    let expected = PaymentService::calculate_expected_amount(
        &PaymentPlan::Monthly,
        850,
        "2024-01-01",
        None,
        Date { year: 2024, month: 3, day: 1 },
    )
    .unwrap();
    assert_eq!(expected, 1700);

    // 365 elapsed days: floor(365 / 30.44) + 1 = 12 months expected
    let expected = PaymentService::calculate_expected_amount(
        &PaymentPlan::Monthly,
        850,
        "2024-01-01",
        None,
        Date { year: 2024, month: 12, day: 31 },
    )
    .unwrap();
    assert_eq!(expected, 850 * 12);

    // an enrollment in the future still expects one month
    let expected = PaymentService::calculate_expected_amount(
        &PaymentPlan::Monthly,
        850,
        "2024-06-01",
        None,
        Date { year: 2024, month: 1, day: 1 },
    )
    .unwrap();
    assert_eq!(expected, 850);
}

#[test]
fn test_one_time_expectation() {
    let today = Date { year: 2024, month: 1, day: 20 };
    let expected = PaymentService::calculate_expected_amount(
        &PaymentPlan::OneTime,
        6000,
        "2024-01-15",
        None,
        today,
    )
    .unwrap();
    assert_eq!(expected, 6000);
}

#[test]
fn test_monthly_covered_expectation_is_paid() {
    // spec rule: a monthly student who covered the amount expected to date
    // is Paid, whatever the due date says
    let today = Date { year: 2024, month: 3, day: 1 };
    let st = StudentService::calculate_payment_status(
        &PaymentPlan::Monthly,
        850,
        1700,
        None,
        Some("2024-02-01"),
        "2024-01-01",
        7,
        today,
    )
    .unwrap();
    assert_eq!(st, PaymentStatus::Paid);
}

#[test]
fn test_recompute_idempotence() {
    let today = Date { year: 2024, month: 3, day: 1 };
    let a = StudentService::calculate_payment_status(
        &PaymentPlan::Installment,
        2850,
        2850,
        Some(3),
        Some("2024-04-15"),
        "2024-01-15",
        7,
        today,
    )
    .unwrap();
    let b = StudentService::calculate_payment_status(
        &PaymentPlan::Installment,
        2850,
        2850,
        Some(3),
        Some("2024-04-15"),
        "2024-01-15",
        7,
        today,
    )
    .unwrap();
    assert_eq!(a, b);

    let d1 = StudentService::calculate_next_due_date(
        &PaymentPlan::Monthly,
        "2024-01-15",
        Some("2024-02-20"),
        3,
    )
    .unwrap();
    let d2 = StudentService::calculate_next_due_date(
        &PaymentPlan::Monthly,
        "2024-01-15",
        Some("2024-02-20"),
        3,
    )
    .unwrap();
    assert_eq!(d1, d2);
}

#[test]
fn test_status_without_due_date_is_pending() {
    let today = Date { year: 2024, month: 3, day: 1 };
    let st = StudentService::calculate_payment_status(
        &PaymentPlan::Monthly,
        850,
        0,
        None,
        None,
        "2024-01-01",
        7,
        today,
    )
    .unwrap();
    assert_eq!(st, PaymentStatus::Pending);
}

#[test]
fn test_status_rejects_bad_dates() {
    let today = Date { year: 2024, month: 3, day: 1 };
    assert!(
        StudentService::calculate_payment_status(
            &PaymentPlan::Monthly,
            850,
            0,
            None,
            Some("2024-03-06"),
            "bad-date",
            7,
            today,
        )
        .is_err()
    );
    assert!(
        StudentService::calculate_payment_status(
            &PaymentPlan::Monthly,
            850,
            0,
            None,
            Some("bad-date"),
            "2024-01-01",
            7,
            today,
        )
        .is_err()
    );
    // one-time plans that are fully paid never look at any date
    assert!(
        StudentService::calculate_payment_status(
            &PaymentPlan::OneTime,
            6000,
            6000,
            None,
            Some("bad-date"),
            "also-bad",
            7,
            today,
        )
        .is_ok()
    );
}
