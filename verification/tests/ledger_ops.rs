use tuition_billing::date::Date;
use tuition_billing::error::PaymentError;
use tuition_billing::ledger::Ledger;
use tuition_billing::payment::{PaymentMethod, PaymentService, RecordPaymentRequest};
use tuition_billing::student::{
    CreateStudentRequest, PaymentPlan, PaymentPlanConfig, PaymentStatus, StudentService,
    UpdateStudentRequest,
};

fn ops_today() -> Date {
    Date { year: 2024, month: 1, day: 20 }
}

fn ops_now() -> &'static str {
    "2024-01-20T10:00:00+00:00"
}

fn ops_enroll(
    ledger: &mut Ledger,
    name: &str,
    plan: PaymentPlan,
    plan_amount: i32,
    id: &str,
) -> String {
    let request = CreateStudentRequest {
        name: name.to_string(),
        group_name: "Test Group".to_string(),
        payment_plan: plan,
        plan_amount,
        installment_count: if plan == PaymentPlan::Installment { Some(3) } else { None },
    };
    let student = StudentService::create_student(
        ledger,
        request,
        id.to_string(),
        &PaymentPlanConfig::default(),
        ops_today(),
        ops_now(),
    )
    .expect("Failed to create test student");
    student.id
}

fn ops_pay(ledger: &mut Ledger, student_id: &str, amount: i32, date: &str, method: PaymentMethod) {
    let request = RecordPaymentRequest {
        student_id: student_id.to_string(),
        amount,
        payment_date: date.to_string(),
        payment_method: method,
        notes: None,
    };
    PaymentService::record_payment(
        ledger,
        request,
        &PaymentPlanConfig::default(),
        ops_today(),
        ops_now(),
    )
    .expect("Failed to record payment");
}

#[test]
fn test_record_payment_success() {
    let mut ledger = Ledger::new();
    let student_id = ops_enroll(&mut ledger, "Test Student", PaymentPlan::OneTime, 6000, "STU000001");

    let request = RecordPaymentRequest {
        student_id: student_id.clone(),
        amount: 3000,
        payment_date: "2024-01-15".to_string(),
        payment_method: PaymentMethod::Cash,
        notes: Some("First payment".to_string()),
    };
    let payment = PaymentService::record_payment(
        &mut ledger,
        request,
        &PaymentPlanConfig::default(),
        ops_today(),
        ops_now(),
    )
    .expect("Failed to record payment");

    assert_eq!(payment.student_id, student_id);
    assert_eq!(payment.amount, 3000);
    assert_eq!(payment.payment_date, "2024-01-15");
    assert_eq!(payment.payment_method, PaymentMethod::Cash);
    assert_eq!(payment.notes, Some("First payment".to_string()));

    let updated = StudentService::get_student_by_id(&ledger, &student_id).expect("Student not found");
    assert_eq!(updated.paid_amount, 3000);
}

#[test]
fn test_record_payment_nonexistent_student() {
    let mut ledger = Ledger::new();
    let request = RecordPaymentRequest {
        student_id: "NONEXISTENT".to_string(),
        amount: 1000,
        payment_date: "2024-01-15".to_string(),
        payment_method: PaymentMethod::Cash,
        notes: None,
    };
    let result = PaymentService::record_payment(
        &mut ledger,
        request,
        &PaymentPlanConfig::default(),
        ops_today(),
        ops_now(),
    );
    assert!(result.is_err());
    assert!(matches!(result.unwrap_err(), PaymentError::StudentNotFound(_)));
}

#[test]
fn test_record_payment_invalid_data() {
    let mut ledger = Ledger::new();
    let student_id = ops_enroll(&mut ledger, "Test Student", PaymentPlan::OneTime, 6000, "STU000001");

    let request = RecordPaymentRequest {
        student_id: student_id.clone(),
        amount: -100,
        payment_date: "2024-01-15".to_string(),
        payment_method: PaymentMethod::Cash,
        notes: None,
    };
    assert!(
        PaymentService::record_payment(
            &mut ledger,
            request,
            &PaymentPlanConfig::default(),
            ops_today(),
            ops_now(),
        )
        .is_err()
    );

    let request = RecordPaymentRequest {
        student_id: student_id.clone(),
        amount: 1000,
        payment_date: "invalid-date".to_string(),
        payment_method: PaymentMethod::Cash,
        notes: None,
    };
    assert!(
        PaymentService::record_payment(
            &mut ledger,
            request,
            &PaymentPlanConfig::default(),
            ops_today(),
            ops_now(),
        )
        .is_err()
    );
}

#[test]
fn test_update_student_payment_status() {
    let mut ledger = Ledger::new();
    let student_id = ops_enroll(&mut ledger, "Test Student", PaymentPlan::OneTime, 6000, "STU000001");

    let student = StudentService::get_student_by_id(&ledger, &student_id).expect("Student not found");
    assert_eq!(student.payment_status, PaymentStatus::Pending);

    ops_pay(&mut ledger, &student_id, 6000, "2024-01-15", PaymentMethod::Cash);

    let updated = StudentService::get_student_by_id(&ledger, &student_id).expect("Student not found");
    assert_eq!(updated.payment_status, PaymentStatus::Paid);
}

#[test]
fn test_delete_payment() {
    let mut ledger = Ledger::new();
    let student_id = ops_enroll(&mut ledger, "Test Student", PaymentPlan::OneTime, 6000, "STU000001");

    let request = RecordPaymentRequest {
        student_id: student_id.clone(),
        amount: 3000,
        payment_date: "2024-01-15".to_string(),
        payment_method: PaymentMethod::Cash,
        notes: None,
    };
    let payment = PaymentService::record_payment(
        &mut ledger,
        request,
        &PaymentPlanConfig::default(),
        ops_today(),
        ops_now(),
    )
    .expect("Failed to record payment");

    let student = StudentService::get_student_by_id(&ledger, &student_id).expect("Student not found");
    assert_eq!(student.paid_amount, 3000);

    let deleted = PaymentService::delete_payment(
        &mut ledger,
        payment.id,
        &PaymentPlanConfig::default(),
        ops_today(),
        ops_now(),
    )
    .expect("Failed to delete payment");
    assert!(deleted);

    let updated = StudentService::get_student_by_id(&ledger, &student_id).expect("Student not found");
    assert_eq!(updated.paid_amount, 0);

    let history = PaymentService::get_student_payment_history(&ledger, &student_id);
    assert!(history.is_empty());

    let deleted = PaymentService::delete_payment(
        &mut ledger,
        999,
        &PaymentPlanConfig::default(),
        ops_today(),
        ops_now(),
    )
    .expect("Failed to delete payment");
    assert!(!deleted);
}

#[test]
fn test_aggregate_invariant_through_operations() {
    // the running aggregate equals the sum of the surviving transactions
    // after every record and delete, and never goes negative
    let mut ledger = Ledger::new();
    let sid = ops_enroll(&mut ledger, "Aggregate Student", PaymentPlan::Monthly, 850, "STU000001");

    let mut recorded_ids: Vec<i32> = Vec::new();
    for (amount, date) in
        [(850, "2024-01-15"), (850, "2024-02-15"), (400, "2024-02-20"), (450, "2024-03-15")]
    {
        let request = RecordPaymentRequest {
            student_id: sid.clone(),
            amount,
            payment_date: date.to_string(),
            payment_method: PaymentMethod::Cash,
            notes: None,
        };
        let tx = PaymentService::record_payment(
            &mut ledger,
            request,
            &PaymentPlanConfig::default(),
            ops_today(),
            ops_now(),
        )
        .expect("record");
        recorded_ids.push(tx.id);
        let s = StudentService::get_student_by_id(&ledger, &sid).unwrap();
        let total: i64 = ledger
            .transactions
            .iter()
            .filter(|t| t.student_id == sid)
            .map(|t| t.amount as i64)
            .sum();
        assert_eq!(s.paid_amount as i64, total);
        assert!(s.paid_amount >= 0);
    }

    for id in [recorded_ids[1], recorded_ids[3], recorded_ids[0]] {
        assert!(PaymentService::delete_payment(
            &mut ledger,
            id,
            &PaymentPlanConfig::default(),
            ops_today(),
            ops_now(),
        )
        .unwrap());
        let s = StudentService::get_student_by_id(&ledger, &sid).unwrap();
        let total: i64 = ledger
            .transactions
            .iter()
            .filter(|t| t.student_id == sid)
            .map(|t| t.amount as i64)
            .sum();
        assert_eq!(s.paid_amount as i64, total);
        assert!(s.paid_amount >= 0);
    }
}

#[test]
fn test_delete_reanchors_due_date() {
    // two monthly payments; deleting the later one must pull the due date
    // back to one month after the remaining payment
    let mut ledger = Ledger::new();
    let sid = ops_enroll(&mut ledger, "Anchor Student", PaymentPlan::Monthly, 850, "STU000001");

    ops_pay(&mut ledger, &sid, 850, "2024-01-15", PaymentMethod::Cash);
    let second = RecordPaymentRequest {
        student_id: sid.clone(),
        amount: 850,
        payment_date: "2024-02-15".to_string(),
        payment_method: PaymentMethod::Cash,
        notes: None,
    };
    let tx = PaymentService::record_payment(
        &mut ledger,
        second,
        &PaymentPlanConfig::default(),
        ops_today(),
        ops_now(),
    )
    .unwrap();

    let s = StudentService::get_student_by_id(&ledger, &sid).unwrap();
    assert_eq!(s.next_due_date, Some("2024-03-15".to_string()));

    assert!(PaymentService::delete_payment(
        &mut ledger,
        tx.id,
        &PaymentPlanConfig::default(),
        ops_today(),
        ops_now(),
    )
    .unwrap());

    let s = StudentService::get_student_by_id(&ledger, &sid).unwrap();
    assert_eq!(s.next_due_date, Some("2024-02-15".to_string()));

    // deleting the only remaining payment re-anchors to the enrollment date
    let only_id = ledger.transactions[0].id;
    assert!(PaymentService::delete_payment(
        &mut ledger,
        only_id,
        &PaymentPlanConfig::default(),
        ops_today(),
        ops_now(),
    )
    .unwrap());
    let s = StudentService::get_student_by_id(&ledger, &sid).unwrap();
    assert_eq!(s.next_due_date, Some("2024-01-20".to_string()));
}

#[test]
fn test_monthly_due_date_anchoring_through_ledger() {
    let mut ledger = Ledger::new();
    // enroll on 2024-01-15 by fixing "today" at that date
    let today = Date { year: 2024, month: 1, day: 15 };
    let request = CreateStudentRequest {
        name: "Monthly Student".to_string(),
        group_name: "Group A".to_string(),
        payment_plan: PaymentPlan::Monthly,
        plan_amount: 850,
        installment_count: None,
    };
    let student = StudentService::create_student(
        &mut ledger,
        request,
        "STU000001".to_string(),
        &PaymentPlanConfig::default(),
        today,
        "2024-01-15T09:00:00+00:00",
    )
    .unwrap();
    assert_eq!(student.next_due_date, Some("2024-01-15".to_string()));

    let request = RecordPaymentRequest {
        student_id: student.id.clone(),
        amount: 850,
        payment_date: "2024-01-15".to_string(),
        payment_method: PaymentMethod::Cash,
        notes: None,
    };
    PaymentService::record_payment(
        &mut ledger,
        request,
        &PaymentPlanConfig::default(),
        today,
        "2024-01-15T10:00:00+00:00",
    )
    .unwrap();

    let s = StudentService::get_student_by_id(&ledger, &student.id).unwrap();
    assert_eq!(s.next_due_date, Some("2024-02-15".to_string()));
}

#[test]
fn test_payment_plan_due_date_calculations() {
    let mut ledger = Ledger::new();

    // monthly plan: recording a payment moves the due date forward
    let monthly_student_id =
        ops_enroll(&mut ledger, "Monthly Student", PaymentPlan::Monthly, 850, "STU000001");
    ops_pay(&mut ledger, &monthly_student_id, 850, "2024-01-15", PaymentMethod::Cash);
    let student = StudentService::get_student_by_id(&ledger, &monthly_student_id)
        .expect("Student not found");
    assert!(student.next_due_date.is_some());
    assert_eq!(student.next_due_date, Some("2024-02-15".to_string()));

    // installment plan: the due date advances by the installment interval
    let installment_student_id =
        ops_enroll(&mut ledger, "Installment Student", PaymentPlan::Installment, 2850, "STU000002");
    ops_pay(&mut ledger, &installment_student_id, 2850, "2024-01-15", PaymentMethod::Cash);
    let student = StudentService::get_student_by_id(&ledger, &installment_student_id)
        .expect("Student not found");
    assert!(student.next_due_date.is_some());
    assert_eq!(student.next_due_date, Some("2024-04-15".to_string()));
}

#[test]
fn test_create_student_one_time() {
    let mut ledger = Ledger::new();
    let request = CreateStudentRequest {
        name: "أحمد محمد".to_string(),
        group_name: "Group A".to_string(),
        payment_plan: PaymentPlan::OneTime,
        plan_amount: 6000,
        installment_count: None,
    };
    let student = StudentService::create_student(
        &mut ledger,
        request,
        "STU000001".to_string(),
        &PaymentPlanConfig::default(),
        ops_today(),
        ops_now(),
    )
    .unwrap();

    assert_eq!(student.name, "أحمد محمد");
    assert_eq!(student.group_name, "Group A");
    assert_eq!(student.payment_plan, PaymentPlan::OneTime);
    assert_eq!(student.plan_amount, 6000);
    assert_eq!(student.paid_amount, 0);
    assert_eq!(student.payment_status, PaymentStatus::Pending);
    assert!(student.id.starts_with("STU"));
}

#[test]
fn test_create_student_monthly() {
    let mut ledger = Ledger::new();
    let request = CreateStudentRequest {
        name: "Test Student".to_string(),
        group_name: "Group A".to_string(),
        payment_plan: PaymentPlan::Monthly,
        plan_amount: 850,
        installment_count: None,
    };
    let student = StudentService::create_student(
        &mut ledger,
        request,
        "STU000001".to_string(),
        &PaymentPlanConfig::default(),
        ops_today(),
        ops_now(),
    )
    .unwrap();
    assert_eq!(student.payment_plan, PaymentPlan::Monthly);
    assert_eq!(student.plan_amount, 850);
    assert!(student.next_due_date.is_some());
}

#[test]
fn test_create_student_installment() {
    let mut ledger = Ledger::new();
    let request = CreateStudentRequest {
        name: "Test Student".to_string(),
        group_name: "Group A".to_string(),
        payment_plan: PaymentPlan::Installment,
        plan_amount: 2850,
        installment_count: Some(3),
    };
    let student = StudentService::create_student(
        &mut ledger,
        request,
        "STU000001".to_string(),
        &PaymentPlanConfig::default(),
        ops_today(),
        ops_now(),
    )
    .unwrap();
    assert_eq!(student.payment_plan, PaymentPlan::Installment);
    assert_eq!(student.plan_amount, 2850);
    assert_eq!(student.installment_count, Some(3));
    assert!(student.next_due_date.is_some());
}

#[test]
fn test_create_student_validation() {
    let mut ledger = Ledger::new();

    let request = CreateStudentRequest {
        name: "".to_string(),
        group_name: "Group A".to_string(),
        payment_plan: PaymentPlan::OneTime,
        plan_amount: 6000,
        installment_count: None,
    };
    assert!(StudentService::create_student(
        &mut ledger,
        request,
        "STU000001".to_string(),
        &PaymentPlanConfig::default(),
        ops_today(),
        ops_now(),
    )
    .is_err());

    let request = CreateStudentRequest {
        name: "Test Student".to_string(),
        group_name: "Group A".to_string(),
        payment_plan: PaymentPlan::OneTime,
        plan_amount: -100,
        installment_count: None,
    };
    assert!(StudentService::create_student(
        &mut ledger,
        request,
        "STU000001".to_string(),
        &PaymentPlanConfig::default(),
        ops_today(),
        ops_now(),
    )
    .is_err());

    let request = CreateStudentRequest {
        name: "Test Student".to_string(),
        group_name: "Group A".to_string(),
        payment_plan: PaymentPlan::Installment,
        plan_amount: 2850,
        installment_count: None,
    };
    assert!(StudentService::create_student(
        &mut ledger,
        request,
        "STU000001".to_string(),
        &PaymentPlanConfig::default(),
        ops_today(),
        ops_now(),
    )
    .is_err());
}

#[test]
fn test_update_student() {
    let mut ledger = Ledger::new();
    let sid = ops_enroll(&mut ledger, "Original Name", PaymentPlan::OneTime, 6000, "STU000001");

    let update_request = UpdateStudentRequest {
        name: "Updated Name".to_string(),
        group_name: "Group B".to_string(),
        payment_plan: PaymentPlan::Monthly,
        plan_amount: 850,
        installment_count: None,
    };
    StudentService::update_student(
        &mut ledger,
        &sid,
        update_request,
        &PaymentPlanConfig::default(),
        ops_today(),
        ops_now(),
    )
    .unwrap();

    let updated = StudentService::get_student_by_id(&ledger, &sid).unwrap();
    assert_eq!(updated.name, "Updated Name");
    assert_eq!(updated.group_name, "Group B");
    assert_eq!(updated.payment_plan, PaymentPlan::Monthly);
    assert_eq!(updated.plan_amount, 850);
}

#[test]
fn test_create_student_duplicate_id_rejected() {
    let mut ledger = Ledger::new();
    ops_enroll(&mut ledger, "First", PaymentPlan::OneTime, 6000, "STU000001");
    let request = CreateStudentRequest {
        name: "Second".to_string(),
        group_name: "Group A".to_string(),
        payment_plan: PaymentPlan::OneTime,
        plan_amount: 6000,
        installment_count: None,
    };
    let result = StudentService::create_student(
        &mut ledger,
        request,
        "STU000001".to_string(),
        &PaymentPlanConfig::default(),
        ops_today(),
        ops_now(),
    );
    assert!(matches!(result, Err(PaymentError::ValidationError(_))));
}
