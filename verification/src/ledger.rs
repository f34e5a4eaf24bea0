//! The billing ledger: the mutable state the engine operates on — the
//! students and the log of payment transactions — with the aggregate
//! invariant that every student's `paid_amount` equals the sum of that
//! student's recorded transactions.

use vstd::prelude::*;
use vstd::pervasive::unreached;

use crate::date::{date_seq, parse_date_seq, Date};
use vstd::utf8::encode_utf8;
use crate::error::{PaymentError, PaymentResult};
use crate::payment::{
    valid_payment_data, PaymentService, PaymentTransaction, PaymentTransactionV,
    RecordPaymentRequest,
};
use crate::student::{
    next_due_result_spec, status_result_spec, valid_student_data, CreateStudentRequest,
    PaymentPlanConfig, PaymentStatus, Student, StudentService, StudentV, UpdateStudentRequest,
};
use crate::text::{lex_le, str_eq, str_lex_le};

verus! {

/// The in-memory billing state. The fields are public so that a host
/// application can load and store them as it pleases; every operation of
/// the engine demands and preserves `wf` on the view.
#[derive(Debug)]
pub struct Ledger {
    pub students: Vec<Student>,
    pub transactions: Vec<PaymentTransaction>,
    pub next_payment_id: i32,
}

/// The mathematical value of the ledger.
#[verifier::ext_equal]
pub struct LedgerV {
    pub students: Seq<StudentV>,
    pub transactions: Seq<PaymentTransactionV>,
    pub next_payment_id: int,
}

impl View for Ledger {
    type V = LedgerV;

    open spec fn view(&self) -> LedgerV {
        LedgerV {
            students: self.students@.map_values(|s: Student| s@),
            transactions: self.transactions@.map_values(|t: PaymentTransaction| t@),
            next_payment_id: self.next_payment_id as int,
        }
    }
}

/// The sum of the amounts of the transactions recorded for one student.
pub open spec fn sum_for(txs: Seq<PaymentTransactionV>, id: Seq<char>) -> int
    decreases txs.len(),
{
    if txs.len() == 0 {
        0
    } else {
        sum_for(txs.drop_last(), id) + if txs.last().student_id == id {
            txs.last().amount
        } else {
            0
        }
    }
}

/// The index of the first student with the given id, if any.
pub open spec fn find_student_idx(students: Seq<StudentV>, id: Seq<char>) -> Option<int>
    decreases students.len(),
{
    if students.len() == 0 {
        None
    } else if students[0].id == id {
        Some(0)
    } else {
        match find_student_idx(students.drop_first(), id) {
            Some(i) => Some(i + 1),
            None => None,
        }
    }
}

/// The index of the transaction with the given id, if any.
pub open spec fn find_tx_idx(txs: Seq<PaymentTransactionV>, id: int) -> Option<int>
    decreases txs.len(),
{
    if txs.len() == 0 {
        None
    } else if txs[0].id == id {
        Some(0)
    } else {
        match find_tx_idx(txs.drop_first(), id) {
            Some(i) => Some(i + 1),
            None => None,
        }
    }
}

/// The latest payment date recorded for one student: the maximum of the
/// student's transaction dates in lexicographic order, which on
/// `YYYY-MM-DD` strings is the chronological order.
pub open spec fn last_payment_for(txs: Seq<PaymentTransactionV>, id: Seq<char>) -> Option<
    Seq<char>,
>
    decreases txs.len(),
{
    if txs.len() == 0 {
        None
    } else {
        let rest = last_payment_for(txs.drop_last(), id);
        if txs.last().student_id == id {
            match rest {
                None => Some(txs.last().payment_date),
                Some(d) => if lex_le(d, txs.last().payment_date) {
                    Some(txs.last().payment_date)
                } else {
                    Some(d)
                },
            }
        } else {
            rest
        }
    }
}

impl LedgerV {
    /// The ledger invariant.
    ///
    /// Student ids are unique; every student's aggregate equals the sum of
    /// that student's transactions; transaction amounts are positive and
    /// bounded, transaction dates are valid `YYYY-MM-DD` days, and
    /// transaction ids are unique and below the id counter.
    pub open spec fn wf(self) -> bool {
        &&& forall|i: int, j: int|
            0 <= i < j < self.students.len() ==> #[trigger] self.students[i].id
                != #[trigger] self.students[j].id
        &&& forall|i: int|
            0 <= i < self.students.len() ==> (#[trigger] self.students[i]).paid_amount == sum_for(
                self.transactions,
                self.students[i].id,
            )
        &&& forall|i: int|
            0 <= i < self.transactions.len() ==> 1 <= (#[trigger] self.transactions[i]).amount
                <= 1_000_000
        &&& forall|i: int|
            0 <= i < self.transactions.len() ==> parse_date_seq(
                (#[trigger] self.transactions[i]).payment_date,
            ) is Some
        &&& forall|i: int, j: int|
            0 <= i < j < self.transactions.len() ==> #[trigger] self.transactions[i].id
                != #[trigger] self.transactions[j].id
        &&& forall|i: int|
            0 <= i < self.transactions.len() ==> 1 <= (#[trigger] self.transactions[i]).id
                < self.next_payment_id
        &&& 1 <= self.next_payment_id
    }
}

/// With nonnegative amounts, a per-student sum is nonnegative.
pub proof fn lemma_sum_for_nonneg(txs: Seq<PaymentTransactionV>, id: Seq<char>)
    requires
        forall|i: int| 0 <= i < txs.len() ==> (#[trigger] txs[i]).amount >= 0,
    ensures
        sum_for(txs, id) >= 0,
    decreases txs.len(),
{
    if txs.len() > 0 {
        assert(forall|i: int|
            0 <= i < txs.drop_last().len() ==> (#[trigger] txs.drop_last()[i]).amount >= 0);
        lemma_sum_for_nonneg(txs.drop_last(), id);
    }
}

/// Appending a transaction adds its amount to the sum of the student it
/// belongs to and leaves every other student's sum unchanged.
pub proof fn lemma_sum_for_push(txs: Seq<PaymentTransactionV>, t: PaymentTransactionV, id: Seq<char>)
    ensures
        sum_for(txs.push(t), id) == sum_for(txs, id) + if t.student_id == id {
            t.amount
        } else {
            0
        },
{
    assert(txs.push(t).drop_last() =~= txs);
    assert(txs.push(t).last() == t);
}

/// Removing a transaction subtracts its amount from the sum of the student
/// it belongs to and leaves every other student's sum unchanged.
pub proof fn lemma_sum_for_remove(txs: Seq<PaymentTransactionV>, k: int, id: Seq<char>)
    requires
        0 <= k < txs.len(),
    ensures
        sum_for(txs.remove(k), id) == sum_for(txs, id) - if txs[k].student_id == id {
            txs[k].amount
        } else {
            0
        },
    decreases txs.len(),
{
    if k == txs.len() - 1 {
        assert(txs.remove(k) =~= txs.drop_last());
    } else {
        assert(txs.remove(k).drop_last() =~= txs.drop_last().remove(k));
        assert(txs.remove(k).last() == txs.last());
        lemma_sum_for_remove(txs.drop_last(), k, id);
    }
}

/// What `find_student_idx` finding (or not finding) an index means.
pub proof fn lemma_find_student(students: Seq<StudentV>, id: Seq<char>)
    ensures
        match find_student_idx(students, id) {
            Some(i) => 0 <= i < students.len() && students[i].id == id && forall|j: int|
                0 <= j < i ==> (#[trigger] students[j]).id != id,
            None => forall|j: int| 0 <= j < students.len() ==> (#[trigger] students[j]).id != id,
        },
    decreases students.len(),
{
    if students.len() > 0 && students[0].id != id {
        lemma_find_student(students.drop_first(), id);
        assert(forall|j: int|
            0 <= j < students.drop_first().len() ==> #[trigger] students.drop_first()[j]
                == students[j + 1]);
        match find_student_idx(students.drop_first(), id) {
            Some(i) => {
                assert(students[i + 1] == students.drop_first()[i]);
                assert forall|j: int| 0 <= j < i + 1 implies (#[trigger] students[j]).id
                    != id by {
                    if j > 0 {
                        assert(students[j] == students.drop_first()[j - 1]);
                    }
                }
            },
            None => {
                assert forall|j: int| 0 <= j < students.len() implies (#[trigger] students[j]).id
                    != id by {
                    if j > 0 {
                        assert(students[j] == students.drop_first()[j - 1]);
                    }
                }
            },
        }
    }
}

/// What `find_tx_idx` finding (or not finding) an index means.
pub proof fn lemma_find_tx(txs: Seq<PaymentTransactionV>, id: int)
    ensures
        match find_tx_idx(txs, id) {
            Some(i) => 0 <= i < txs.len() && txs[i].id == id && forall|j: int|
                0 <= j < i ==> (#[trigger] txs[j]).id != id,
            None => forall|j: int| 0 <= j < txs.len() ==> (#[trigger] txs[j]).id != id,
        },
    decreases txs.len(),
{
    if txs.len() > 0 && txs[0].id != id {
        lemma_find_tx(txs.drop_first(), id);
        assert(forall|j: int|
            0 <= j < txs.drop_first().len() ==> #[trigger] txs.drop_first()[j] == txs[j + 1]);
        match find_tx_idx(txs.drop_first(), id) {
            Some(i) => {
                assert(txs[i + 1] == txs.drop_first()[i]);
                assert forall|j: int| 0 <= j < i + 1 implies (#[trigger] txs[j]).id != id by {
                    if j > 0 {
                        assert(txs[j] == txs.drop_first()[j - 1]);
                    }
                }
            },
            None => {
                assert forall|j: int| 0 <= j < txs.len() implies (#[trigger] txs[j]).id != id by {
                    if j > 0 {
                        assert(txs[j] == txs.drop_first()[j - 1]);
                    }
                }
            },
        }
    }
}

impl Ledger {
    /// An empty ledger.
    pub fn new() -> (l: Ledger)
        ensures
            l@.wf(),
            l@.students.len() == 0,
            l@.transactions.len() == 0,
            l@.next_payment_id == 1,
    {
        let l = Ledger { students: Vec::new(), transactions: Vec::new(), next_payment_id: 1 };
        proof {
            assert(l@.students =~= Seq::<StudentV>::empty());
            assert(l@.transactions =~= Seq::<PaymentTransactionV>::empty());
        }
        l
    }

    /// The position of the student with this id, if the ledger holds one.
    pub fn find_student_index(&self, student_id: &str) -> (r: Option<usize>)
        ensures
            match r {
                Some(i) => find_student_idx(self@.students, student_id@) == Some(i as int),
                None => find_student_idx(self@.students, student_id@) is None,
            },
    {
        proof {
            lemma_find_student(self@.students, student_id@);
        }
        let n: usize = self.students.len();
        let mut i: usize = 0;
        while i < n
            invariant
                n == self.students.len(),
                self@.students.len() == n,
                i <= n,
                forall|j: int| 0 <= j < i ==> (#[trigger] self@.students[j]).id != student_id@,
                match find_student_idx(self@.students, student_id@) {
                    Some(k) => 0 <= k < n && self@.students[k].id == student_id@ && forall|j: int|
                        0 <= j < k ==> (#[trigger] self@.students[j]).id != student_id@,
                    None => forall|j: int|
                        0 <= j < n ==> (#[trigger] self@.students[j]).id != student_id@,
                },
            decreases n - i,
        {
            assert(self@.students[i as int] == self.students@[i as int]@);
            if str_eq(self.students[i].id.as_str(), student_id) {
                return Some(i);
            }
            i = i + 1;
        }
        None
    }

    /// The latest payment date recorded for this student, if any.
    pub fn get_last_payment_date(&self, student_id: &str) -> (r: Option<String>)
        ensures
            match r {
                Some(s) => last_payment_for(self@.transactions, student_id@) == Some(s@),
                None => last_payment_for(self@.transactions, student_id@) is None,
            },
    {
        let n: usize = self.transactions.len();
        let mut best: Option<String> = None;
        let mut k: usize = 0;
        while k < n
            invariant
                n == self.transactions.len(),
                self@.transactions.len() == n,
                k <= n,
                match best {
                    Some(ref s) => last_payment_for(
                        self@.transactions.take(k as int),
                        student_id@,
                    ) == Some(s@),
                    None => last_payment_for(
                        self@.transactions.take(k as int),
                        student_id@,
                    ) is None,
                },
            decreases n - k,
        {
            proof {
                assert(self@.transactions.take(k as int + 1).drop_last() =~= self@.transactions.take(
                    k as int,
                ));
                assert(self@.transactions.take(k as int + 1).last() == self@.transactions[k as int]);
                assert(self@.transactions[k as int] == self.transactions@[k as int]@);
            }
            let tx = &self.transactions[k];
            if str_eq(tx.student_id.as_str(), student_id) {
                best = match best {
                    None => Some(tx.payment_date.clone()),
                    Some(b) => {
                        if str_lex_le(b.as_str(), tx.payment_date.as_str()) {
                            Some(tx.payment_date.clone())
                        } else {
                            Some(b)
                        }
                    },
                };
            }
            k = k + 1;
        }
        proof {
            assert(self@.transactions.take(n as int) =~= self@.transactions);
        }
        best
    }
}

/// The position of the transaction with this id, if the ledger holds one.
impl Ledger {
    pub fn find_tx_index(&self, payment_id: i32) -> (r: Option<usize>)
        ensures
            match r {
                Some(k) => find_tx_idx(self@.transactions, payment_id as int) == Some(k as int),
                None => find_tx_idx(self@.transactions, payment_id as int) is None,
            },
    {
        proof {
            lemma_find_tx(self@.transactions, payment_id as int);
        }
        let n: usize = self.transactions.len();
        let mut k: usize = 0;
        while k < n
            invariant
                n == self.transactions.len(),
                self@.transactions.len() == n,
                k <= n,
                forall|j: int| 0 <= j < k ==> (#[trigger] self@.transactions[j]).id != payment_id,
                match find_tx_idx(self@.transactions, payment_id as int) {
                    Some(m) => 0 <= m < n && self@.transactions[m].id == payment_id && forall|
                        j: int,
                    |
                        0 <= j < m ==> (#[trigger] self@.transactions[j]).id != payment_id,
                    None => forall|j: int|
                        0 <= j < n ==> (#[trigger] self@.transactions[j]).id != payment_id,
                },
            decreases n - k,
        {
            assert(self@.transactions[k as int] == self.transactions@[k as int]@);
            if self.transactions[k].id == payment_id {
                return Some(k);
            }
            k = k + 1;
        }
        None
    }
}

/// What recomputing one student's derived fields does to the ledger:
/// derive the next due date from the student's plan, enrollment date and
/// latest payment, then the status from the fresh due date, and write both
/// back. `None` means a date error; the ledger is then left as it was.
pub open spec fn recompute_student_spec(
    l: LedgerV,
    i: int,
    config: PaymentPlanConfig,
    today: Date,
    now: Seq<char>,
) -> Option<LedgerV>
    recommends
        0 <= i < l.students.len(),
{
    let s = l.students[i];
    let last = last_payment_for(l.transactions, s.id);
    match next_due_result_spec(
        s.payment_plan,
        s.enrollment_date,
        last,
        config.installment_interval as int,
    ) {
        None => None,
        Some(d) => {
            let due_str = date_seq(d);
            match status_result_spec(
                s.payment_plan,
                s.plan_amount,
                s.paid_amount,
                s.installment_count,
                Some(due_str),
                s.enrollment_date,
                config.reminder_days as int,
                today,
            ) {
                None => None,
                Some(st) => Some(
                    LedgerV {
                        students: l.students.update(
                            i,
                            StudentV {
                                next_due_date: Some(due_str),
                                payment_status: st,
                                updated_at: now,
                                ..s
                            },
                        ),
                        ..l
                    },
                ),
            }
        },
    }
}

impl PaymentService {
    /// Re-derive and persist one student's `next_due_date` and
    /// `payment_status` from the current ledger state. A pure repair step:
    /// it never touches the money columns, so it can be retried freely.
    pub fn update_student_payment_status(
        ledger: &mut Ledger,
        student_id: &str,
        config: &PaymentPlanConfig,
        today: Date,
        now: &str,
    ) -> (r: PaymentResult<()>)
        requires
            old(ledger)@.wf(),
            today.wf(),
            config.wf(),
        ensures
            ({
                let l0 = old(ledger)@;
                match find_student_idx(l0.students, student_id@) {
                    None => final (ledger)@ == l0 && (r matches Err(e) && e is StudentNotFound),
                    Some(i) => match recompute_student_spec(l0, i, *config, today, now@) {
                        None => final (ledger)@ == l0 && (r matches Err(e)
                            && e is ValidationError),
                        Some(l2) => final (ledger)@ == l2 && r is Ok,
                    },
                }
            }),
            final (ledger)@.wf(),
            final (ledger)@.students.len() == old(ledger)@.students.len(),
            final (ledger)@.transactions == old(ledger)@.transactions,
            final (ledger)@.next_payment_id == old(ledger)@.next_payment_id,
            forall|j: int|
                0 <= j < old(ledger)@.students.len() ==> (#[trigger] final (ledger)@.students[j]).id
                    == old(ledger)@.students[j].id && final (ledger)@.students[j].paid_amount
                    == old(ledger)@.students[j].paid_amount,
    {
        let ghost l0 = ledger@;
        let idx: usize = match ledger.find_student_index(student_id) {
            Some(i) => i,
            None => {
                return Err(PaymentError::StudentNotFound(student_id.to_owned()));
            },
        };
        proof {
            lemma_find_student(l0.students, student_id@);
        }
        let plan = ledger.students[idx].payment_plan;
        let plan_amount: i32 = ledger.students[idx].plan_amount;
        let paid_amount: i32 = ledger.students[idx].paid_amount;
        let installment_count: Option<i32> = ledger.students[idx].installment_count;
        let enrollment: String = ledger.students[idx].enrollment_date.clone();
        let last: Option<String> = ledger.get_last_payment_date(student_id);
        let last_ref: Option<&str> = match &last {
            Some(s) => Some(s.as_str()),
            None => None,
        };
        let due_string: String = match StudentService::calculate_next_due_date(
            &plan,
            enrollment.as_str(),
            last_ref,
            config.installment_interval,
        ) {
            Ok(Some(s)) => s,
            Ok(None) => unreached(),
            Err(e) => {
                return Err(e);
            },
        };
        let status = match StudentService::calculate_payment_status(
            &plan,
            plan_amount,
            paid_amount,
            installment_count,
            Some(due_string.as_str()),
            enrollment.as_str(),
            config.reminder_days,
            today,
        ) {
            Ok(st) => st,
            Err(e) => {
                return Err(e);
            },
        };
        let ghost l2 = recompute_student_spec(l0, idx as int, *config, today, now@).unwrap();
        let mut s = ledger.students.remove(idx);
        s.next_due_date = Some(due_string);
        s.payment_status = status;
        s.updated_at = now.to_owned();
        ledger.students.insert(idx, s);
        proof {
            assert(ledger@.students =~= l0.students.update(idx as int, ledger@.students[idx as int]));
            assert(ledger@.students[idx as int] =~= l2.students[idx as int]);
            assert(ledger@.students =~= l2.students);
            assert(ledger@.transactions =~= l0.transactions);
            assert(ledger@ =~= l2);
            assert forall|i: int| 0 <= i < ledger@.students.len() implies (
            #[trigger] ledger@.students[i]).paid_amount == sum_for(
                ledger@.transactions,
                ledger@.students[i].id,
            ) by {
                assert(l0.students[i].paid_amount == sum_for(l0.transactions, l0.students[i].id));
            }
        }
        Ok(())
    }

    /// Record a payment: validate the request, append the transaction row
    /// and raise the student's aggregate as one atomic step, then recompute
    /// the student's due date and status as a second step. A date error in
    /// the second step leaves the committed money mutation in place — the
    /// derived fields are then stale but repairable by any later recompute.
    pub fn record_payment(
        ledger: &mut Ledger,
        request: RecordPaymentRequest,
        config: &PaymentPlanConfig,
        today: Date,
        now: &str,
    ) -> (r: PaymentResult<PaymentTransaction>)
        requires
            old(ledger)@.wf(),
            today.wf(),
            config.wf(),
            old(ledger)@.next_payment_id < i32::MAX,
            forall|i: int|
                0 <= i < old(ledger)@.students.len() ==> (
                #[trigger] old(ledger)@.students[i]).paid_amount + request.amount <= i32::MAX,
        ensures
            ({
                let l0 = old(ledger)@;
                let txv = PaymentTransactionV {
                    id: l0.next_payment_id,
                    student_id: request.student_id@,
                    amount: request.amount as int,
                    payment_date: request.payment_date@,
                    payment_method: request.payment_method,
                    notes: match request.notes {
                        Some(ref nt) => Some(nt@),
                        None => None,
                    },
                    created_at: now@,
                };
                if !valid_payment_data(
                    encode_utf8(request.student_id@),
                    request.amount as int,
                    request.payment_date@,
                ) {
                    final (ledger)@ == l0 && (r matches Err(e) && e is ValidationError)
                } else {
                    match find_student_idx(l0.students, request.student_id@) {
                        None => final (ledger)@ == l0 && (r matches Err(e)
                            && e is StudentNotFound),
                        Some(i) => {
                            let l1 = record_phase1_spec(l0, i, txv, now@);
                            match recompute_student_spec(l1, i, *config, today, now@) {
                                None => final (ledger)@ == l1 && (r matches Err(e)
                                    && e is ValidationError),
                                Some(l2) => final (ledger)@ == l2 && (r matches Ok(t) && t@
                                    == txv),
                            }
                        },
                    }
                }
            }),
            final (ledger)@.wf(),
    {
        let ghost l0 = ledger@;
        match PaymentService::validate_payment_data(
            request.student_id.as_str(),
            request.amount,
            request.payment_date.as_str(),
            &request.payment_method,
        ) {
            Ok(()) => {},
            Err(e) => {
                return Err(e);
            },
        }
        let idx: usize = match ledger.find_student_index(request.student_id.as_str()) {
            Some(i) => i,
            None => {
                return Err(PaymentError::StudentNotFound(request.student_id.clone()));
            },
        };
        proof {
            lemma_find_student(l0.students, request.student_id@);
        }
        let tx = PaymentTransaction {
            id: ledger.next_payment_id,
            student_id: request.student_id.clone(),
            amount: request.amount,
            payment_date: request.payment_date.clone(),
            payment_method: request.payment_method,
            notes: match &request.notes {
                Some(n) => Some(n.clone()),
                None => None,
            },
            created_at: now.to_owned(),
        };
        let ghost txv = tx@;
        let ghost l1 = record_phase1_spec(l0, idx as int, txv, now@);
        ledger.transactions.push(tx.duplicate());
        let mut s = ledger.students.remove(idx);
        s.paid_amount = s.paid_amount + request.amount;
        s.updated_at = now.to_owned();
        ledger.students.insert(idx, s);
        ledger.next_payment_id = ledger.next_payment_id + 1;
        proof {
            assert(ledger@.transactions =~= l0.transactions.push(txv));
            assert(ledger@.students =~= l0.students.update(idx as int, ledger@.students[idx as int]));
            assert(ledger@.students[idx as int] =~= l1.students[idx as int]);
            assert(ledger@.students =~= l1.students);
            assert(ledger@ =~= l1);
            assert forall|i: int| 0 <= i < ledger@.students.len() implies (
            #[trigger] ledger@.students[i]).paid_amount == sum_for(
                ledger@.transactions,
                ledger@.students[i].id,
            ) by {
                lemma_sum_for_push(l0.transactions, txv, l0.students[i].id);
                assert(l0.students[i].paid_amount == sum_for(l0.transactions, l0.students[i].id));
            }
            assert(ledger@.wf());
        }
        match Self::update_student_payment_status(
            ledger,
            request.student_id.as_str(),
            config,
            today,
            now,
        ) {
            Ok(()) => {},
            Err(e) => {
                proof {
                    lemma_find_student(l1.students, request.student_id@);
                }
                return Err(e);
            },
        }
        proof {
            lemma_find_student(l1.students, request.student_id@);
        }
        Ok(tx)
    }

    /// Delete a payment: remove the transaction row and lower the student's
    /// aggregate (floored at zero) as one atomic step, then recompute the
    /// student's due date and status — the due-date anchor shifts back to
    /// the last remaining payment, or to the enrollment date if none
    /// remains. Returns `Ok(false)` when no such payment exists.
    pub fn delete_payment(
        ledger: &mut Ledger,
        payment_id: i32,
        config: &PaymentPlanConfig,
        today: Date,
        now: &str,
    ) -> (r: PaymentResult<bool>)
        requires
            old(ledger)@.wf(),
            today.wf(),
            config.wf(),
        ensures
            ({
                let l0 = old(ledger)@;
                match find_tx_idx(l0.transactions, payment_id as int) {
                    None => final (ledger)@ == l0 && r == Ok::<bool, PaymentError>(false),
                    Some(k) => match find_student_idx(
                        l0.students,
                        l0.transactions[k].student_id,
                    ) {
                        None => final (ledger)@ == l0 && (r matches Err(e)
                            && e is StudentNotFound),
                        Some(i) => {
                            let l1 = delete_phase1_spec(l0, k, i, now@);
                            match recompute_student_spec(l1, i, *config, today, now@) {
                                None => final (ledger)@ == l1 && (r matches Err(e)
                                    && e is ValidationError),
                                Some(l2) => final (ledger)@ == l2 && r == Ok::<
                                    bool,
                                    PaymentError,
                                >(true),
                            }
                        },
                    },
                }
            }),
            final (ledger)@.wf(),
    {
        let ghost l0 = ledger@;
        let k: usize = match ledger.find_tx_index(payment_id) {
            Some(k) => k,
            None => {
                return Ok(false);
            },
        };
        proof {
            lemma_find_tx(l0.transactions, payment_id as int);
        }
        let student_id: String = ledger.transactions[k].student_id.clone();
        let amount: i32 = ledger.transactions[k].amount;
        let idx: usize = match ledger.find_student_index(student_id.as_str()) {
            Some(i) => i,
            None => {
                return Err(PaymentError::StudentNotFound(student_id));
            },
        };
        proof {
            lemma_find_student(l0.students, student_id@);
            lemma_sum_for_remove(l0.transactions, k as int, l0.students[idx as int].id);
            lemma_sum_for_nonneg(l0.transactions.remove(k as int), l0.students[idx as int].id);
        }
        let ghost l1 = delete_phase1_spec(l0, k as int, idx as int, now@);
        ledger.transactions.remove(k);
        let mut s = ledger.students.remove(idx);
        s.paid_amount = if s.paid_amount >= amount {
            s.paid_amount - amount
        } else {
            0
        };
        s.updated_at = now.to_owned();
        ledger.students.insert(idx, s);
        proof {
            assert(ledger@.transactions =~= l0.transactions.remove(k as int));
            assert(ledger@.students =~= l0.students.update(idx as int, ledger@.students[idx as int]));
            assert(ledger@.students[idx as int] =~= l1.students[idx as int]);
            assert(ledger@.students =~= l1.students);
            assert(ledger@ =~= l1);
            assert forall|i: int| 0 <= i < ledger@.students.len() implies (
            #[trigger] ledger@.students[i]).paid_amount == sum_for(
                ledger@.transactions,
                ledger@.students[i].id,
            ) by {
                lemma_sum_for_remove(l0.transactions, k as int, l0.students[i].id);
                assert(l0.students[i].paid_amount == sum_for(l0.transactions, l0.students[i].id));
            }
            assert(ledger@.wf());
        }
        match Self::update_student_payment_status(ledger, student_id.as_str(), config, today, now) {
            Ok(()) => {},
            Err(e) => {
                proof {
                    lemma_find_student(l1.students, student_id@);
                }
                return Err(e);
            },
        }
        proof {
            lemma_find_student(l1.students, student_id@);
        }
        Ok(true)
    }
}

/// A student with no recorded transaction has a zero sum.
pub proof fn lemma_sum_for_absent(txs: Seq<PaymentTransactionV>, id: Seq<char>)
    requires
        forall|i: int| 0 <= i < txs.len() ==> (#[trigger] txs[i]).student_id != id,
    ensures
        sum_for(txs, id) == 0,
    decreases txs.len(),
{
    if txs.len() > 0 {
        assert(forall|i: int|
            0 <= i < txs.drop_last().len() ==> (#[trigger] txs.drop_last()[i]).student_id != id);
        lemma_sum_for_absent(txs.drop_last(), id);
    }
}

impl StudentService {
    /// Enroll a student: validate the request, derive the initial due date
    /// and status for a zero paid amount as of `today`, and add the record.
    /// The identifier is assigned by the caller and must be fresh.
    pub fn create_student(
        ledger: &mut Ledger,
        request: CreateStudentRequest,
        student_id: String,
        config: &PaymentPlanConfig,
        today: Date,
        now: &str,
    ) -> (r: PaymentResult<Student>)
        requires
            old(ledger)@.wf(),
            today.wf(),
            config.wf(),
        ensures
            ({
                let l0 = old(ledger)@;
                let valid = valid_student_data(
                    encode_utf8(request.name@),
                    encode_utf8(request.group_name@),
                    request.payment_plan,
                    request.plan_amount as int,
                    match request.installment_count {
                        Some(c) => Some(c as int),
                        None => None,
                    },
                );
                let fresh = find_student_idx(l0.students, student_id@) is None && (forall|k: int|
                    0 <= k < l0.transactions.len() ==> (#[trigger] l0.transactions[k]).student_id
                        != student_id@);
                if !(valid && fresh) {
                    final (ledger)@ == l0 && (r matches Err(e) && e is ValidationError)
                } else {
                    match status_result_spec(
                        request.payment_plan,
                        request.plan_amount as int,
                        0,
                        match request.installment_count {
                            Some(c) => Some(c as int),
                            None => None,
                        },
                        Some(date_seq(today)),
                        date_seq(today),
                        config.reminder_days as int,
                        today,
                    ) {
                        Some(st) => (r matches Ok(s) && s@ == (StudentV {
                            id: student_id@,
                            name: request.name@,
                            group_name: request.group_name@,
                            payment_plan: request.payment_plan,
                            plan_amount: request.plan_amount as int,
                            installment_count: match request.installment_count {
                                Some(c) => Some(c as int),
                                None => None,
                            },
                            paid_amount: 0,
                            enrollment_date: date_seq(today),
                            next_due_date: Some(date_seq(today)),
                            payment_status: st,
                            created_at: now@,
                            updated_at: now@,
                        }) && final (ledger)@ == (LedgerV {
                            students: l0.students.push(s@),
                            ..l0
                        })),
                        None => false,
                    }
                }
            }),
            final (ledger)@.wf(),
    {
        let ghost l0 = ledger@;
        proof {
            crate::date::lemma_date_round_trip(today);
        }
        match StudentService::validate_student_data(
            request.name.as_str(),
            request.group_name.as_str(),
            &request.payment_plan,
            request.plan_amount,
            request.installment_count,
        ) {
            Ok(()) => {},
            Err(m) => {
                return Err(PaymentError::ValidationError(m));
            },
        }
        match ledger.find_student_index(student_id.as_str()) {
            Some(_) => {
                return Err(
                    PaymentError::ValidationError(
                        "A student with this id already exists".to_owned(),
                    ),
                );
            },
            None => {},
        }
        let n: usize = ledger.transactions.len();
        let mut k: usize = 0;
        while k < n
            invariant
                n == ledger.transactions.len(),
                ledger@ == l0,
                l0.wf(),
                ledger@.transactions.len() == n,
                k <= n,
                forall|j: int|
                    0 <= j < k ==> (#[trigger] ledger@.transactions[j]).student_id != student_id@,
            decreases n - k,
        {
            assert(ledger@.transactions[k as int] == ledger.transactions@[k as int]@);
            if str_eq(ledger.transactions[k].student_id.as_str(), student_id.as_str()) {
                return Err(
                    PaymentError::ValidationError(
                        "Payment transactions already reference this id".to_owned(),
                    ),
                );
            }
            k = k + 1;
        }
        let enrollment: String = crate::date::format_date(&today);
        let due: String = match StudentService::calculate_next_due_date(
            &request.payment_plan,
            enrollment.as_str(),
            None,
            config.installment_interval,
        ) {
            Ok(Some(s)) => s,
            Ok(None) => unreached(),
            Err(_) => unreached(),
        };
        let status = match StudentService::calculate_payment_status(
            &request.payment_plan,
            request.plan_amount,
            0,
            request.installment_count,
            Some(due.as_str()),
            enrollment.as_str(),
            config.reminder_days,
            today,
        ) {
            Ok(st) => st,
            Err(_) => unreached(),
        };
        let s = Student {
            id: student_id,
            name: request.name,
            group_name: request.group_name,
            payment_plan: request.payment_plan,
            plan_amount: request.plan_amount,
            installment_count: request.installment_count,
            paid_amount: 0,
            enrollment_date: enrollment,
            next_due_date: Some(due),
            payment_status: status,
            created_at: now.to_owned(),
            updated_at: now.to_owned(),
        };
        let out = s.duplicate();
        let ghost sv = s@;
        ledger.students.push(s);
        proof {
            assert(ledger@.students =~= l0.students.push(sv));
            assert(ledger@.transactions =~= l0.transactions);
            lemma_sum_for_absent(l0.transactions, sv.id);
            lemma_find_student(l0.students, sv.id);
            assert(ledger@.wf());
        }
        Ok(out)
    }

    /// Update a student's descriptive and plan fields. A plan change resets
    /// the due-date calculation (the anchor returns to the enrollment
    /// date); the status is re-derived either way. The paid amount, the
    /// enrollment date and the identifier never change here.
    pub fn update_student(
        ledger: &mut Ledger,
        student_id: &str,
        request: UpdateStudentRequest,
        config: &PaymentPlanConfig,
        today: Date,
        now: &str,
    ) -> (r: PaymentResult<()>)
        requires
            old(ledger)@.wf(),
            today.wf(),
            config.wf(),
        ensures
            ({
                let l0 = old(ledger)@;
                let valid = valid_student_data(
                    encode_utf8(request.name@),
                    encode_utf8(request.group_name@),
                    request.payment_plan,
                    request.plan_amount as int,
                    match request.installment_count {
                        Some(c) => Some(c as int),
                        None => None,
                    },
                );
                if !valid {
                    final (ledger)@ == l0 && (r matches Err(e) && e is ValidationError)
                } else {
                    match find_student_idx(l0.students, student_id@) {
                        None => final (ledger)@ == l0 && (r matches Err(e)
                            && e is StudentNotFound),
                        Some(i) => {
                            let s = l0.students[i];
                            let due_step: Option<Option<Seq<char>>> = if request.payment_plan
                                != s.payment_plan {
                                match next_due_result_spec(
                                    request.payment_plan,
                                    s.enrollment_date,
                                    None,
                                    config.installment_interval as int,
                                ) {
                                    None => None,
                                    Some(d) => Some(Some(date_seq(d))),
                                }
                            } else {
                                Some(s.next_due_date)
                            };
                            match due_step {
                                None => final (ledger)@ == l0 && (r matches Err(e)
                                    && e is ValidationError),
                                Some(due) => match status_result_spec(
                                    request.payment_plan,
                                    request.plan_amount as int,
                                    s.paid_amount,
                                    match request.installment_count {
                                        Some(c) => Some(c as int),
                                        None => None,
                                    },
                                    due,
                                    s.enrollment_date,
                                    config.reminder_days as int,
                                    today,
                                ) {
                                    None => final (ledger)@ == l0 && (r matches Err(e)
                                        && e is ValidationError),
                                    Some(st) => r is Ok && final (ledger)@ == (LedgerV {
                                        students: l0.students.update(
                                            i,
                                            StudentV {
                                                name: request.name@,
                                                group_name: request.group_name@,
                                                payment_plan: request.payment_plan,
                                                plan_amount: request.plan_amount as int,
                                                installment_count: match request
                                                    .installment_count {
                                                    Some(c) => Some(c as int),
                                                    None => None,
                                                },
                                                next_due_date: due,
                                                payment_status: st,
                                                updated_at: now@,
                                                ..s
                                            },
                                        ),
                                        ..l0
                                    }),
                                },
                            }
                        },
                    }
                }
            }),
            final (ledger)@.wf(),
    {
        let ghost l0 = ledger@;
        match StudentService::validate_student_data(
            request.name.as_str(),
            request.group_name.as_str(),
            &request.payment_plan,
            request.plan_amount,
            request.installment_count,
        ) {
            Ok(()) => {},
            Err(m) => {
                return Err(PaymentError::ValidationError(m));
            },
        }
        let idx: usize = match ledger.find_student_index(student_id) {
            Some(i) => i,
            None => {
                return Err(PaymentError::StudentNotFound(student_id.to_owned()));
            },
        };
        proof {
            lemma_find_student(l0.students, student_id@);
        }
        let plan_changed: bool = !(request.payment_plan == ledger.students[idx].payment_plan);
        let enrollment: String = ledger.students[idx].enrollment_date.clone();
        let paid_amount: i32 = ledger.students[idx].paid_amount;
        let due: Option<String> = if plan_changed {
            match StudentService::calculate_next_due_date(
                &request.payment_plan,
                enrollment.as_str(),
                None,
                config.installment_interval,
            ) {
                Ok(Some(sd)) => Some(sd),
                Ok(None) => unreached(),
                Err(e) => {
                    return Err(e);
                },
            }
        } else {
            match &ledger.students[idx].next_due_date {
                Some(d) => Some(d.clone()),
                None => None,
            }
        };
        let due_ref: Option<&str> = match &due {
            Some(d) => Some(d.as_str()),
            None => None,
        };
        let status = match StudentService::calculate_payment_status(
            &request.payment_plan,
            request.plan_amount,
            paid_amount,
            request.installment_count,
            due_ref,
            enrollment.as_str(),
            config.reminder_days,
            today,
        ) {
            Ok(st) => st,
            Err(e) => {
                return Err(e);
            },
        };
        let mut s = ledger.students.remove(idx);
        s.name = request.name;
        s.group_name = request.group_name;
        s.payment_plan = request.payment_plan;
        s.plan_amount = request.plan_amount;
        s.installment_count = request.installment_count;
        s.next_due_date = due;
        s.payment_status = status;
        s.updated_at = now.to_owned();
        ledger.students.insert(idx, s);
        proof {
            assert(ledger@.students =~= l0.students.update(idx as int, ledger@.students[idx as int]));
            assert(ledger@.transactions =~= l0.transactions);
            assert forall|j: int| 0 <= j < ledger@.students.len() implies (
            #[trigger] ledger@.students[j]).paid_amount == sum_for(
                ledger@.transactions,
                ledger@.students[j].id,
            ) by {
                assert(l0.students[j].paid_amount == sum_for(l0.transactions, l0.students[j].id));
            }
            assert(ledger@ =~= (LedgerV {
                students: l0.students.update(idx as int, ledger@.students[idx as int]),
                ..l0
            }));
        }
        Ok(())
    }

    /// The student with this id, if the ledger holds one.
    pub fn get_student_by_id(ledger: &Ledger, student_id: &str) -> (r: Option<Student>)
        ensures
            match find_student_idx(ledger@.students, student_id@) {
                Some(i) => r matches Some(s) && s@ == ledger@.students[i],
                None => r is None,
            },
    {
        proof {
            lemma_find_student(ledger@.students, student_id@);
        }
        match ledger.find_student_index(student_id) {
            Some(i) => {
                assert(ledger@.students[i as int] == ledger.students@[i as int]@);
                Some(ledger.students[i].duplicate())
            },
            None => None,
        }
    }

    /// All students, in ledger order.
    pub fn get_all_students(ledger: &Ledger) -> (r: Vec<Student>)
        ensures
            r@.map_values(|s: Student| s@) == ledger@.students,
    {
        let n: usize = ledger.students.len();
        let mut out: Vec<Student> = Vec::new();
        let mut i: usize = 0;
        proof {
            assert(out@.map_values(|s: Student| s@) =~= ledger@.students.take(0));
        }
        while i < n
            invariant
                n == ledger.students.len(),
                ledger@.students.len() == n,
                i <= n,
                out@.map_values(|s: Student| s@) == ledger@.students.take(i as int),
            decreases n - i,
        {
            proof {
                assert(ledger@.students[i as int] == ledger.students@[i as int]@);
                assert(ledger@.students.take(i as int + 1).drop_last() =~= ledger@.students.take(
                    i as int,
                ));
                assert(ledger@.students.take(i as int + 1).last() == ledger@.students[i as int]);
            }
            out.push(ledger.students[i].duplicate());
            proof {
                assert(out@.map_values(|s: Student| s@) =~= ledger@.students.take(i as int + 1));
            }
            i = i + 1;
        }
        proof {
            assert(ledger@.students.take(n as int) =~= ledger@.students);
        }
        out
    }

    /// The students whose stored status carries this token, in ledger
    /// order.
    pub fn get_students_by_payment_status(ledger: &Ledger, status: &str) -> (r: Vec<Student>)
        ensures
            r@.map_values(|s: Student| s@) == students_with_status(ledger@.students, status@),
    {
        let n: usize = ledger.students.len();
        let mut out: Vec<Student> = Vec::new();
        let mut i: usize = 0;
        proof {
            assert(out@.map_values(|s: Student| s@) =~= students_with_status(
                ledger@.students.take(0),
                status@,
            ));
        }
        while i < n
            invariant
                n == ledger.students.len(),
                ledger@.students.len() == n,
                i <= n,
                out@.map_values(|s: Student| s@) == students_with_status(
                    ledger@.students.take(i as int),
                    status@,
                ),
            decreases n - i,
        {
            proof {
                assert(ledger@.students.take(i as int + 1).drop_last() =~= ledger@.students.take(
                    i as int,
                ));
                assert(ledger@.students.take(i as int + 1).last() == ledger@.students[i as int]);
                assert(ledger@.students[i as int] == ledger.students@[i as int]@);
            }
            if str_eq(ledger.students[i].payment_status.as_str(), status) {
                out.push(ledger.students[i].duplicate());
                proof {
                    assert(out@.map_values(|s: Student| s@) =~= students_with_status(
                        ledger@.students.take(i as int + 1),
                        status@,
                    ));
                }
            }
            i = i + 1;
        }
        proof {
            assert(ledger@.students.take(n as int) =~= ledger@.students);
        }
        out
    }

    /// The students of one group, in ledger order.
    pub fn get_students_by_group(ledger: &Ledger, group_name: &str) -> (r: Vec<Student>)
        ensures
            r@.map_values(|s: Student| s@) == students_in_group(ledger@.students, group_name@),
    {
        let n: usize = ledger.students.len();
        let mut out: Vec<Student> = Vec::new();
        let mut i: usize = 0;
        proof {
            assert(out@.map_values(|s: Student| s@) =~= students_in_group(
                ledger@.students.take(0),
                group_name@,
            ));
        }
        while i < n
            invariant
                n == ledger.students.len(),
                ledger@.students.len() == n,
                i <= n,
                out@.map_values(|s: Student| s@) == students_in_group(
                    ledger@.students.take(i as int),
                    group_name@,
                ),
            decreases n - i,
        {
            proof {
                assert(ledger@.students.take(i as int + 1).drop_last() =~= ledger@.students.take(
                    i as int,
                ));
                assert(ledger@.students.take(i as int + 1).last() == ledger@.students[i as int]);
                assert(ledger@.students[i as int] == ledger.students@[i as int]@);
            }
            if str_eq(ledger.students[i].group_name.as_str(), group_name) {
                out.push(ledger.students[i].duplicate());
                proof {
                    assert(out@.map_values(|s: Student| s@) =~= students_in_group(
                        ledger@.students.take(i as int + 1),
                        group_name@,
                    ));
                }
            }
            i = i + 1;
        }
        proof {
            assert(ledger@.students.take(n as int) =~= ledger@.students);
        }
        out
    }

    /// The students currently overdue, in ledger order.
    pub fn get_overdue_students(ledger: &Ledger) -> (r: Vec<Student>)
        ensures
            r@.map_values(|s: Student| s@) == students_with_status(ledger@.students, "overdue"@),
    {
        Self::get_students_by_payment_status(ledger, "overdue")
    }

    /// The students whose payment is due soon, in ledger order.
    pub fn get_due_soon_students(ledger: &Ledger) -> (r: Vec<Student>)
        ensures
            r@.map_values(|s: Student| s@) == students_with_status(ledger@.students, "due_soon"@),
    {
        Self::get_students_by_payment_status(ledger, "due_soon")
    }
}

/// The subsequence of students belonging to the given group, in order.
pub open spec fn students_in_group(students: Seq<StudentV>, group: Seq<char>) -> Seq<StudentV>
    decreases students.len(),
{
    if students.len() == 0 {
        Seq::empty()
    } else {
        let rest = students_in_group(students.drop_last(), group);
        if students.last().group_name == group {
            rest.push(students.last())
        } else {
            rest
        }
    }
}

/// The subsequence of students whose stored status carries the given
/// token, in order.
pub open spec fn students_with_status(students: Seq<StudentV>, tok: Seq<char>) -> Seq<StudentV>
    decreases students.len(),
{
    if students.len() == 0 {
        Seq::empty()
    } else {
        let rest = students_with_status(students.drop_last(), tok);
        if students.last().payment_status.token() == tok {
            rest.push(students.last())
        } else {
            rest
        }
    }
}

/// The atomic money mutation of recording one payment: the transaction is
/// appended and the student's aggregate raised by its amount, both in one
/// step.
pub open spec fn record_phase1_spec(
    l: LedgerV,
    i: int,
    t: PaymentTransactionV,
    now: Seq<char>,
) -> LedgerV
    recommends
        0 <= i < l.students.len(),
{
    LedgerV {
        students: l.students.update(
            i,
            StudentV {
                paid_amount: l.students[i].paid_amount + t.amount,
                updated_at: now,
                ..l.students[i]
            },
        ),
        transactions: l.transactions.push(t),
        next_payment_id: l.next_payment_id + 1,
    }
}

/// The atomic money mutation of deleting one payment: the transaction row
/// is removed and the student's aggregate lowered by its amount, floored at
/// zero so that deleting more than was ever recorded cannot drive the
/// balance negative.
pub open spec fn delete_phase1_spec(l: LedgerV, k: int, i: int, now: Seq<char>) -> LedgerV
    recommends
        0 <= k < l.transactions.len(),
        0 <= i < l.students.len(),
{
    let lowered = l.students[i].paid_amount - l.transactions[k].amount;
    LedgerV {
        students: l.students.update(
            i,
            StudentV {
                paid_amount: if lowered >= 0 {
                    lowered
                } else {
                    0
                },
                updated_at: now,
                ..l.students[i]
            },
        ),
        transactions: l.transactions.remove(k),
        next_payment_id: l.next_payment_id,
    }
}

} // verus!
