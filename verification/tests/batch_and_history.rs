use tuition_billing::date::Date;
use tuition_billing::ledger::Ledger;
use tuition_billing::payment::{
    PaymentHistoryFilter, PaymentMethod, PaymentService, RecordPaymentRequest,
};
use tuition_billing::student::{
    CreateStudentRequest, PaymentPlan, PaymentPlanConfig, PaymentStatus, StudentService,
};

fn batch_today() -> Date {
    Date { year: 2024, month: 1, day: 20 }
}

fn batch_now() -> &'static str {
    "2024-01-20T10:00:00+00:00"
}

fn batch_enroll(ledger: &mut Ledger, name: &str, plan: PaymentPlan, amount: i32, id: &str) -> String {
    let request = CreateStudentRequest {
        name: name.to_string(),
        group_name: "Test Group".to_string(),
        payment_plan: plan,
        plan_amount: amount,
        installment_count: if plan == PaymentPlan::Installment { Some(3) } else { None },
    };
    StudentService::create_student(
        ledger,
        request,
        id.to_string(),
        &PaymentPlanConfig::default(),
        batch_today(),
        batch_now(),
    )
    .expect("Failed to create test student")
    .id
}

fn batch_pay(ledger: &mut Ledger, sid: &str, amount: i32, date: &str, method: PaymentMethod) {
    let request = RecordPaymentRequest {
        student_id: sid.to_string(),
        amount,
        payment_date: date.to_string(),
        payment_method: method,
        notes: None,
    };
    PaymentService::record_payment(
        ledger,
        request,
        &PaymentPlanConfig::default(),
        batch_today(),
        batch_now(),
    )
    .expect("Failed to record payment");
}

fn batch_population() -> Ledger {
    let mut ledger = Ledger::new();
    let s1 = batch_enroll(&mut ledger, "Student 1", PaymentPlan::OneTime, 6000, "STU000001");
    let s2 = batch_enroll(&mut ledger, "Student 2", PaymentPlan::Monthly, 850, "STU000002");
    let s3 = batch_enroll(&mut ledger, "Student 3", PaymentPlan::Installment, 2850, "STU000003");
    let s4 = batch_enroll(&mut ledger, "Student 4", PaymentPlan::OneTime, 4000, "STU000004");
    let s5 = batch_enroll(&mut ledger, "Student 5", PaymentPlan::Monthly, 900, "STU000005");
    batch_pay(&mut ledger, &s1, 6000, "2024-01-15", PaymentMethod::Cash);
    batch_pay(&mut ledger, &s2, 850, "2024-01-15", PaymentMethod::BankTransfer);
    batch_pay(&mut ledger, &s3, 2850, "2024-01-16", PaymentMethod::Check);
    batch_pay(&mut ledger, &s4, 1000, "2024-01-17", PaymentMethod::Cash);
    batch_pay(&mut ledger, &s5, 300, "2024-01-18", PaymentMethod::Cash);
    ledger
}

#[test]
fn test_update_all_payment_statuses() {
    let mut ledger = Ledger::new();
    let s1 = batch_enroll(&mut ledger, "Student 1", PaymentPlan::OneTime, 6000, "STU000001");
    let s2 = batch_enroll(&mut ledger, "Student 2", PaymentPlan::Monthly, 850, "STU000002");
    batch_pay(&mut ledger, &s1, 6000, "2024-01-15", PaymentMethod::Cash);
    batch_pay(&mut ledger, &s2, 850, "2024-01-15", PaymentMethod::Cash);

    let result = PaymentService::update_all_payment_statuses(
        &mut ledger,
        &PaymentPlanConfig::default(),
        batch_today(),
        batch_now(),
    );
    assert_eq!(result.successful_updates, 2);
    assert!(result.failed_updates.is_empty());

    let student1 = StudentService::get_student_by_id(&ledger, &s1).expect("Student not found");
    assert_eq!(student1.payment_status, PaymentStatus::Paid);

    let student2 = StudentService::get_student_by_id(&ledger, &s2).expect("Student not found");
    assert!(matches!(
        student2.payment_status,
        PaymentStatus::Paid | PaymentStatus::Pending | PaymentStatus::DueSoon | PaymentStatus::Overdue
    ));
}

#[test]
fn test_batch_strategies_assign_equal_statuses() {
    // the same population run through the row-by-row strategy and through
    // the bulk strategy must end with identical statuses for every student
    let mut row_wise = batch_population();
    let mut bulk = batch_population();

    let outcome = PaymentService::update_all_payment_statuses(
        &mut row_wise,
        &PaymentPlanConfig::default(),
        batch_today(),
        batch_now(),
    );
    assert_eq!(outcome.successful_updates, 5);
    assert!(outcome.failed_updates.is_empty());

    StudentService::update_payment_statuses(
        &mut bulk,
        &PaymentPlanConfig::default(),
        batch_today(),
        batch_now(),
    )
    .expect("bulk recompute failed");

    assert_eq!(row_wise.students.len(), bulk.students.len());
    for i in 0..row_wise.students.len() {
        assert_eq!(row_wise.students[i].id, bulk.students[i].id);
        assert_eq!(row_wise.students[i].payment_status, bulk.students[i].payment_status);
    }
}

#[test]
fn test_get_student_payment_history() {
    let mut ledger = Ledger::new();
    let sid = batch_enroll(&mut ledger, "Test Student", PaymentPlan::Monthly, 850, "STU000001");

    batch_pay(&mut ledger, &sid, 850, "2024-01-15", PaymentMethod::Cash);
    batch_pay(&mut ledger, &sid, 850, "2024-02-15", PaymentMethod::BankTransfer);
    batch_pay(&mut ledger, &sid, 850, "2024-03-15", PaymentMethod::Check);

    let history = PaymentService::get_student_payment_history(&ledger, &sid);
    assert_eq!(history.len(), 3);

    assert_eq!(history[0].payment_date, "2024-03-15");
    assert_eq!(history[1].payment_date, "2024-02-15");
    assert_eq!(history[2].payment_date, "2024-01-15");

    assert_eq!(history[0].payment_method, PaymentMethod::Check);
    assert_eq!(history[1].payment_method, PaymentMethod::BankTransfer);
    assert_eq!(history[2].payment_method, PaymentMethod::Cash);
}

#[test]
fn test_get_payment_history_with_filters() {
    let mut ledger = Ledger::new();
    let student1_id = batch_enroll(&mut ledger, "Student 1", PaymentPlan::OneTime, 6000, "STU000001");
    let student2_id = batch_enroll(&mut ledger, "Student 2", PaymentPlan::OneTime, 6000, "STU000002");

    batch_pay(&mut ledger, &student1_id, 1000, "2024-01-15", PaymentMethod::Cash);
    batch_pay(&mut ledger, &student2_id, 2000, "2024-01-20", PaymentMethod::BankTransfer);
    batch_pay(&mut ledger, &student1_id, 1500, "2024-02-15", PaymentMethod::Cash);

    // filter by student id
    let filter = PaymentHistoryFilter {
        student_id: Some(student1_id.clone()),
        start_date: None,
        end_date: None,
        payment_method: None,
        min_amount: None,
        max_amount: None,
    };
    let history = PaymentService::get_payment_history(&ledger, Some(filter));
    assert_eq!(history.len(), 2);
    assert!(history.iter().all(|p| p.student_id == student1_id));

    // filter by payment method
    let filter = PaymentHistoryFilter {
        student_id: None,
        start_date: None,
        end_date: None,
        payment_method: Some(PaymentMethod::Cash),
        min_amount: None,
        max_amount: None,
    };
    let history = PaymentService::get_payment_history(&ledger, Some(filter));
    assert_eq!(history.len(), 2);
    assert!(history.iter().all(|p| p.payment_method == PaymentMethod::Cash));

    // filter by amount range
    let filter = PaymentHistoryFilter {
        student_id: None,
        start_date: None,
        end_date: None,
        payment_method: None,
        min_amount: Some(1500),
        max_amount: Some(2000),
    };
    let history = PaymentService::get_payment_history(&ledger, Some(filter));
    assert_eq!(history.len(), 2);
    assert!(history.iter().all(|p| p.amount >= 1500 && p.amount <= 2000));

    // filter by date range
    let filter = PaymentHistoryFilter {
        student_id: None,
        start_date: Some("2024-01-01".to_string()),
        end_date: Some("2024-01-31".to_string()),
        payment_method: None,
        min_amount: None,
        max_amount: None,
    };
    let history = PaymentService::get_payment_history(&ledger, Some(filter));
    assert_eq!(history.len(), 2);
    assert!(history.iter().all(|p| p.payment_date.starts_with("2024-01")));
}

#[test]
fn test_get_payment_summary() {
    let mut ledger = Ledger::new();
    let student1_id = batch_enroll(&mut ledger, "Student 1", PaymentPlan::OneTime, 6000, "STU000001");
    let student2_id = batch_enroll(&mut ledger, "Student 2", PaymentPlan::Monthly, 850, "STU000002");
    let student3_id =
        batch_enroll(&mut ledger, "Student 3", PaymentPlan::Installment, 2850, "STU000003");

    batch_pay(&mut ledger, &student1_id, 6000, "2024-01-15", PaymentMethod::Cash);
    batch_pay(&mut ledger, &student2_id, 850, "2024-01-15", PaymentMethod::BankTransfer);
    batch_pay(&mut ledger, &student3_id, 2850, "2024-01-15", PaymentMethod::Check);

    let summary = PaymentService::get_payment_summary(&ledger, batch_today())
        .expect("Failed to get payment summary");

    assert_eq!(summary.total_students, 3);
    assert_eq!(summary.total_paid_amount, 9700);

    assert_eq!(summary.payment_plan_breakdown.one_time.total_students, 1);
    assert_eq!(summary.payment_plan_breakdown.monthly.total_students, 1);
    assert_eq!(summary.payment_plan_breakdown.installment.total_students, 1);

    assert_eq!(summary.payment_plan_breakdown.one_time.total_paid, 6000);
    assert_eq!(summary.payment_plan_breakdown.monthly.total_paid, 850);
    assert_eq!(summary.payment_plan_breakdown.installment.total_paid, 2850);

    // expected: 6000 one-time + 850 for the first month + 2850 * 3
    assert_eq!(summary.total_expected_amount, 6000 + 850 + 8550);

    assert!(!summary.recent_payments.is_empty());
    assert!(summary.recent_payments.len() <= 10);
}

#[test]
fn test_recent_payments_limit_and_order() {
    let mut ledger = Ledger::new();
    let sid = batch_enroll(&mut ledger, "Busy Student", PaymentPlan::Monthly, 850, "STU000001");
    for day in 1..=12 {
        let date = format!("2024-01-{:02}", day);
        batch_pay(&mut ledger, &sid, 100, &date, PaymentMethod::Cash);
    }
    let recent = PaymentService::get_recent_payments(&ledger);
    assert_eq!(recent.len(), 10);
    // newest first
    assert_eq!(recent[0].payment_date, "2024-01-12");
    for w in recent.windows(2) {
        assert!(w[0].payment_date >= w[1].payment_date);
    }
}

#[test]
fn test_get_students_by_payment_status() {
    let mut ledger = Ledger::new();
    let s1 = batch_enroll(&mut ledger, "Student 1", PaymentPlan::OneTime, 6000, "STU000001");
    let s2 = batch_enroll(&mut ledger, "Student 2", PaymentPlan::Monthly, 850, "STU000002");

    let student1 = StudentService::get_student_by_id(&ledger, &s1).unwrap();
    let student2 = StudentService::get_student_by_id(&ledger, &s2).unwrap();
    println!("Student 1 status: {:?}", student1.payment_status);
    println!("Student 2 status: {:?}", student2.payment_status);

    let pending_students = StudentService::get_students_by_payment_status(&ledger, "pending");
    let due_soon_students = StudentService::get_students_by_payment_status(&ledger, "due_soon");
    assert!(pending_students.len() + due_soon_students.len() >= 2);
}

#[test]
fn test_bulk_recompute_stops_at_first_bad_student() {
    let mut ledger = batch_population();
    ledger.students[2].next_due_date = Some("junk".to_string());

    let result = StudentService::update_payment_statuses(
        &mut ledger,
        &PaymentPlanConfig::default(),
        batch_today(),
        batch_now(),
    );
    assert!(result.is_err());
}

#[test]
fn test_batch_collects_per_student_failures() {
    // a hand-built ledger with one student whose stored enrollment date is
    // broken: the batch must update the healthy student and report the
    // broken one, in order, without aborting
    let mut ledger = batch_population();
    ledger.students[1].enrollment_date = "garbage".to_string();

    let outcome = PaymentService::update_all_payment_statuses(
        &mut ledger,
        &PaymentPlanConfig::default(),
        batch_today(),
        batch_now(),
    );
    assert_eq!(outcome.successful_updates, 4);
    assert_eq!(outcome.failed_updates.len(), 1);
    assert_eq!(outcome.failed_updates[0].0, "STU000002");
}
