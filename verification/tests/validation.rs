use tuition_billing::date::{add_months, days_between_exec, format_date, parse_date, Date};
use tuition_billing::error::PaymentError;
use tuition_billing::groups::GroupsService;
use tuition_billing::payment::{PaymentMethod, PaymentService};
use tuition_billing::settings::{PaymentSettingsService, UpdatePaymentSettingsRequest};
use tuition_billing::student::{PaymentPlan, PaymentPlanConfig, PaymentStatus, StudentService};
use tuition_billing::text::parse_i32;

#[test]
fn test_payment_plan_enum() {
    assert_eq!(PaymentPlan::OneTime.as_str(), "one-time");
    assert_eq!(PaymentPlan::Monthly.as_str(), "monthly");
    assert_eq!(PaymentPlan::Installment.as_str(), "installment");

    assert_eq!(PaymentPlan::from_str("one-time").unwrap(), PaymentPlan::OneTime);
    assert_eq!(PaymentPlan::from_str("monthly").unwrap(), PaymentPlan::Monthly);
    assert_eq!(PaymentPlan::from_str("installment").unwrap(), PaymentPlan::Installment);
    assert!(PaymentPlan::from_str("invalid").is_err());
}

#[test]
fn test_payment_status_enum() {
    assert_eq!(PaymentStatus::Paid.as_str(), "paid");
    assert_eq!(PaymentStatus::Pending.as_str(), "pending");
    assert_eq!(PaymentStatus::Overdue.as_str(), "overdue");
    assert_eq!(PaymentStatus::DueSoon.as_str(), "due_soon");

    assert_eq!(PaymentStatus::from_str("paid").unwrap(), PaymentStatus::Paid);
    assert_eq!(PaymentStatus::from_str("pending").unwrap(), PaymentStatus::Pending);
    assert_eq!(PaymentStatus::from_str("overdue").unwrap(), PaymentStatus::Overdue);
    assert_eq!(PaymentStatus::from_str("due_soon").unwrap(), PaymentStatus::DueSoon);
    assert!(PaymentStatus::from_str("invalid").is_err());
}

#[test]
fn test_payment_method_serialization() {
    assert_eq!(PaymentMethod::Cash.as_str(), "cash");
    assert_eq!(PaymentMethod::BankTransfer.as_str(), "bank_transfer");
    assert_eq!(PaymentMethod::Check.as_str(), "check");

    assert_eq!(PaymentMethod::from_str("cash").unwrap(), PaymentMethod::Cash);
    assert_eq!(PaymentMethod::from_str("bank_transfer").unwrap(), PaymentMethod::BankTransfer);
    assert_eq!(PaymentMethod::from_str("check").unwrap(), PaymentMethod::Check);

    assert!(PaymentMethod::from_str("invalid").is_err());
}

#[test]
fn test_validate_group_name() {
    assert!(GroupsService::validate_group_name("Valid Name").is_ok());
    assert!(GroupsService::validate_group_name("").is_err());
    assert!(GroupsService::validate_group_name("   ").is_err());
    assert!(GroupsService::validate_group_name("Name\nwith\nnewlines").is_err());
}

#[test]
fn test_validate_payment_data() {
    // Valid data should pass
    assert!(
        PaymentService::validate_payment_data("STU000001", 1000, "2024-01-15", &PaymentMethod::Cash)
            .is_ok()
    );

    // Empty student ID should fail
    assert!(
        PaymentService::validate_payment_data("", 1000, "2024-01-15", &PaymentMethod::Cash)
            .is_err()
    );

    // Negative amount should fail
    assert!(
        PaymentService::validate_payment_data("STU000001", -100, "2024-01-15", &PaymentMethod::Cash)
            .is_err()
    );

    // Zero amount should fail
    assert!(
        PaymentService::validate_payment_data("STU000001", 0, "2024-01-15", &PaymentMethod::Cash)
            .is_err()
    );

    // Amount too large should fail
    assert!(
        PaymentService::validate_payment_data(
            "STU000001",
            2_000_000,
            "2024-01-15",
            &PaymentMethod::Cash
        )
        .is_err()
    );

    // Invalid date format should fail
    assert!(
        PaymentService::validate_payment_data("STU000001", 1000, "15-01-2024", &PaymentMethod::Cash)
            .is_err()
    );

    // Invalid date should fail
    assert!(
        PaymentService::validate_payment_data("STU000001", 1000, "2024-13-01", &PaymentMethod::Cash)
            .is_err()
    );
}

#[test]
fn test_validate_payment_data_error_variant() {
    let err = PaymentService::validate_payment_data("", 1000, "2024-01-15", &PaymentMethod::Cash)
        .unwrap_err();
    assert!(matches!(err, PaymentError::ValidationError(_)));
}

#[test]
fn test_validate_payment_settings() {
    let valid_request = UpdatePaymentSettingsRequest {
        one_time_amount: 6000,
        monthly_amount: 850,
        installment_amount: 2850,
        installment_interval_months: 3,
        reminder_days: 7,
        payment_threshold: 6000,
    };
    assert!(PaymentSettingsService::validate_payment_settings(&valid_request).is_ok());

    let invalid_request = UpdatePaymentSettingsRequest {
        one_time_amount: -1000,
        monthly_amount: 850,
        installment_amount: 2850,
        installment_interval_months: 3,
        reminder_days: 7,
        payment_threshold: 6000,
    };
    assert!(PaymentSettingsService::validate_payment_settings(&invalid_request).is_err());

    let bad_interval = UpdatePaymentSettingsRequest {
        one_time_amount: 6000,
        monthly_amount: 850,
        installment_amount: 2850,
        installment_interval_months: 13,
        reminder_days: 7,
        payment_threshold: 6000,
    };
    assert!(PaymentSettingsService::validate_payment_settings(&bad_interval).is_err());

    let bad_reminder = UpdatePaymentSettingsRequest {
        one_time_amount: 6000,
        monthly_amount: 850,
        installment_amount: 2850,
        installment_interval_months: 3,
        reminder_days: 366,
        payment_threshold: 6000,
    };
    assert!(PaymentSettingsService::validate_payment_settings(&bad_reminder).is_err());
}

#[test]
fn test_get_amount_for_plan() {
    let settings = PaymentSettingsService::default_settings("2024-01-01 00:00:00");
    assert_eq!(PaymentSettingsService::get_amount_for_plan(&settings, "one-time").unwrap(), 6000);
    assert_eq!(PaymentSettingsService::get_amount_for_plan(&settings, "monthly").unwrap(), 850);
    assert_eq!(
        PaymentSettingsService::get_amount_for_plan(&settings, "installment").unwrap(),
        2850
    );
    assert!(PaymentSettingsService::get_amount_for_plan(&settings, "invalid").is_err());
}

#[test]
fn test_get_payment_plan_config() {
    let config = StudentService::get_payment_plan_config(&Vec::new());
    assert_eq!(config.one_time_amount, 6000);
    assert_eq!(config.monthly_amount, 850);
    assert_eq!(config.installment_amount, 2850);
    assert_eq!(config.installment_interval, 3);
    assert_eq!(config.reminder_days, 7);
}

#[test]
fn test_get_payment_plan_config_overrides() {
    let rows = vec![
        ("monthly_amount".to_string(), "900".to_string()),
        ("reminder_days".to_string(), "14".to_string()),
        ("installment_interval".to_string(), "not-a-number".to_string()),
        ("unrelated_key".to_string(), "5".to_string()),
    ];
    let config = StudentService::get_payment_plan_config(&rows);
    assert_eq!(config.monthly_amount, 900);
    assert_eq!(config.reminder_days, 14);
    // an unparsable value falls back to the built-in default
    assert_eq!(config.installment_interval, 3);
    assert_eq!(config.one_time_amount, 6000);
}

#[test]
fn test_validate_student_data_rules() {
    assert!(
        StudentService::validate_student_data("Alice", "Group A", &PaymentPlan::OneTime, 6000, None)
            .is_ok()
    );
    assert!(
        StudentService::validate_student_data("", "Group A", &PaymentPlan::OneTime, 6000, None)
            .is_err()
    );
    assert!(
        StudentService::validate_student_data("   ", "Group A", &PaymentPlan::OneTime, 6000, None)
            .is_err()
    );
    assert!(
        StudentService::validate_student_data("Alice", "", &PaymentPlan::OneTime, 6000, None)
            .is_err()
    );
    assert!(
        StudentService::validate_student_data("Alice", "Group A", &PaymentPlan::OneTime, 0, None)
            .is_err()
    );
    assert!(
        StudentService::validate_student_data(
            "Alice",
            "Group A",
            &PaymentPlan::OneTime,
            1_000_001,
            None
        )
        .is_err()
    );
    // installment plans demand a count between 1 and 12
    assert!(
        StudentService::validate_student_data(
            "Alice",
            "Group A",
            &PaymentPlan::Installment,
            2850,
            None
        )
        .is_err()
    );
    assert!(
        StudentService::validate_student_data(
            "Alice",
            "Group A",
            &PaymentPlan::Installment,
            2850,
            Some(0)
        )
        .is_err()
    );
    assert!(
        StudentService::validate_student_data(
            "Alice",
            "Group A",
            &PaymentPlan::Installment,
            2850,
            Some(13)
        )
        .is_err()
    );
    assert!(
        StudentService::validate_student_data(
            "Alice",
            "Group A",
            &PaymentPlan::Installment,
            2850,
            Some(3)
        )
        .is_ok()
    );
}

#[test]
fn test_parse_date_rules() {
    assert_eq!(parse_date("2024-01-15"), Some(Date { year: 2024, month: 1, day: 15 }));
    assert_eq!(parse_date("2024-02-29"), Some(Date { year: 2024, month: 2, day: 29 }));
    assert_eq!(parse_date("2023-02-29"), None); // not a leap year
    assert_eq!(parse_date("2024-13-01"), None);
    assert_eq!(parse_date("2024-02-30"), None);
    assert_eq!(parse_date("15-01-2024"), None);
    assert_eq!(parse_date("invalid-date"), None);
    assert_eq!(parse_date(""), None);
    assert_eq!(parse_date("2024-1-15"), None);
}

#[test]
fn test_format_parse_round_trip() {
    let d = Date { year: 2024, month: 2, day: 9 };
    let s = format_date(&d);
    assert_eq!(s, "2024-02-09");
    assert_eq!(parse_date(&s), Some(d));
}

#[test]
fn test_add_months_rollover_and_clamp() {
    // December rolls into January of the next year
    let dec = Date { year: 2024, month: 12, day: 15 };
    let jan = add_months(&dec, 1);
    assert_eq!((jan.year, jan.month, jan.day), (2025, 1, 15));

    // day-of-month overflow clamps to the target month's last day
    let jan31 = Date { year: 2024, month: 1, day: 31 };
    let feb = add_months(&jan31, 1);
    assert_eq!((feb.year, feb.month, feb.day), (2024, 2, 29));
    let not_leap = Date { year: 2023, month: 1, day: 31 };
    let feb23 = add_months(&not_leap, 1);
    assert_eq!((feb23.year, feb23.month, feb23.day), (2023, 2, 28));

    // a full year ahead
    let nov = Date { year: 2024, month: 11, day: 30 };
    let nov25 = add_months(&nov, 12);
    assert_eq!((nov25.year, nov25.month, nov25.day), (2025, 11, 30));
}

#[test]
fn test_add_months_agrees_with_chrono() {
    let cases = [
        (2024, 1, 31, 1),
        (2024, 12, 15, 1),
        (2023, 1, 31, 1),
        (2024, 5, 31, 4),
        (2021, 10, 29, 12),
        (2000, 2, 29, 12),
    ];
    for &(y, m, d, n) in cases.iter() {
        let ours = add_months(&Date { year: y, month: m, day: d }, n);
        let base = chrono::NaiveDate::from_ymd_opt(y, m as u32, d as u32).unwrap();
        let theirs = base.checked_add_months(chrono::Months::new(n as u32)).unwrap();
        assert_eq!(ours.year, chrono::Datelike::year(&theirs));
        assert_eq!(ours.month as u32, chrono::Datelike::month(&theirs));
        assert_eq!(ours.day as u32, chrono::Datelike::day(&theirs));
    }
}

#[test]
fn test_days_between_agrees_with_chrono() {
    let pairs = [
        ((2024, 1, 15), (2024, 2, 15)),
        ((2024, 2, 28), (2024, 3, 1)),
        ((2023, 12, 31), (2024, 1, 1)),
        ((2000, 1, 1), (2024, 6, 30)),
        ((2024, 6, 30), (2000, 1, 1)),
    ];
    for &((y1, m1, d1), (y2, m2, d2)) in pairs.iter() {
        let a = Date { year: y1, month: m1, day: d1 };
        let b = Date { year: y2, month: m2, day: d2 };
        let ours = days_between_exec(&a, &b);
        let ca = chrono::NaiveDate::from_ymd_opt(y1, m1 as u32, d1 as u32).unwrap();
        let cb = chrono::NaiveDate::from_ymd_opt(y2, m2 as u32, d2 as u32).unwrap();
        let theirs = cb.signed_duration_since(ca).num_days();
        assert_eq!(ours, theirs);
    }
}

#[test]
fn test_parse_i32_rules() {
    assert_eq!(parse_i32("0"), Some(0));
    assert_eq!(parse_i32("6000"), Some(6000));
    assert_eq!(parse_i32("-42"), Some(-42));
    assert_eq!(parse_i32("+7"), Some(7));
    assert_eq!(parse_i32("2147483647"), Some(i32::MAX));
    assert_eq!(parse_i32("-2147483648"), Some(i32::MIN));
    assert_eq!(parse_i32("2147483648"), None);
    assert_eq!(parse_i32("-2147483649"), None);
    assert_eq!(parse_i32(""), None);
    assert_eq!(parse_i32("-"), None);
    assert_eq!(parse_i32("12a"), None);
    assert_eq!(parse_i32(" 5"), None);
    assert_eq!(parse_i32("99999999999999999999"), None);
}

#[test]
fn test_default_plan_config_is_wf() {
    let c = PaymentPlanConfig::default();
    assert_eq!(c.one_time_amount, 6000);
    assert_eq!(c.installment_interval, 3);
    assert_eq!(c.reminder_days, 7);
}
