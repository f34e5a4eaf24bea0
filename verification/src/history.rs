//! Payment history queries: filtering the transaction log and presenting
//! it ordered by payment date, newest first, with the write timestamp as
//! tie-break — the order the transaction store serves its consumers.

use vstd::prelude::*;
use vstd::seq_lib::group_to_multiset_ensures;

use crate::ledger::Ledger;
use crate::payment::{
    PaymentHistoryFilter, PaymentService, PaymentTransaction, PaymentTransactionV,
};
use crate::text::{
    lemma_lex_le_antisym, lemma_lex_le_total, lemma_lex_le_trans, lex_le, str_eq, str_lex_le,
};

verus! {

/// Whether one transaction satisfies a history filter.
pub open spec fn tx_matches(t: PaymentTransactionV, f: PaymentHistoryFilter) -> bool {
    &&& (match f.student_id {
        Some(ref id) => t.student_id == id@,
        None => true,
    })
    &&& (match f.start_date {
        Some(ref sd) => lex_le(sd@, t.payment_date),
        None => true,
    })
    &&& (match f.end_date {
        Some(ref ed) => lex_le(t.payment_date, ed@),
        None => true,
    })
    &&& (match f.payment_method {
        Some(m) => t.payment_method == m,
        None => true,
    })
    &&& (match f.min_amount {
        Some(a) => t.amount >= a,
        None => true,
    })
    &&& (match f.max_amount {
        Some(a) => t.amount <= a,
        None => true,
    })
}

/// Whether one transaction passes an optional filter.
pub open spec fn tx_passes(t: PaymentTransactionV, f: Option<PaymentHistoryFilter>) -> bool {
    match f {
        None => true,
        Some(ff) => tx_matches(t, ff),
    }
}

/// The subsequence of transactions passing the filter, in log order.
pub open spec fn matching_txs(
    txs: Seq<PaymentTransactionV>,
    f: Option<PaymentHistoryFilter>,
) -> Seq<PaymentTransactionV>
    decreases txs.len(),
{
    if txs.len() == 0 {
        Seq::empty()
    } else {
        let rest = matching_txs(txs.drop_last(), f);
        if tx_passes(txs.last(), f) {
            rest.push(txs.last())
        } else {
            rest
        }
    }
}

/// The history presentation order: `a` comes at or before `b` when `a`'s
/// payment date is the later one, with the later write timestamp breaking
/// ties.
pub open spec fn history_ge(a: PaymentTransactionV, b: PaymentTransactionV) -> bool {
    if a.payment_date == b.payment_date {
        lex_le(b.created_at, a.created_at)
    } else {
        lex_le(b.payment_date, a.payment_date)
    }
}

/// Sorted in history presentation order.
pub open spec fn sorted_history(s: Seq<PaymentTransactionV>) -> bool {
    forall|i: int, j: int| 0 <= i <= j < s.len() ==> history_ge(#[trigger] s[i], #[trigger] s[j])
}

/// The presentation order is total.
pub proof fn lemma_history_ge_total(a: PaymentTransactionV, b: PaymentTransactionV)
    ensures
        history_ge(a, b) || history_ge(b, a),
{
    if a.payment_date == b.payment_date {
        lemma_lex_le_total(b.created_at, a.created_at);
    } else {
        lemma_lex_le_total(b.payment_date, a.payment_date);
    }
}

/// The presentation order is transitive.
pub proof fn lemma_history_ge_trans(
    a: PaymentTransactionV,
    b: PaymentTransactionV,
    c: PaymentTransactionV,
)
    requires
        history_ge(a, b),
        history_ge(b, c),
    ensures
        history_ge(a, c),
{
    if a.payment_date == b.payment_date && b.payment_date == c.payment_date {
        lemma_lex_le_trans(c.created_at, b.created_at, a.created_at);
    } else if a.payment_date == b.payment_date {
    } else if b.payment_date == c.payment_date {
    } else {
        lemma_lex_le_trans(c.payment_date, b.payment_date, a.payment_date);
        if a.payment_date == c.payment_date {
            lemma_lex_le_antisym(b.payment_date, a.payment_date);
        }
    }
}

/// Whether one transaction passes an optional filter, decided at run time.
fn passes_filter(t: &PaymentTransaction, f: &Option<PaymentHistoryFilter>) -> (r: bool)
    ensures
        r == tx_passes(t@, *f),
{
    match f {
        None => true,
        Some(ff) => {
            let id_ok: bool = match &ff.student_id {
                Some(id) => str_eq(t.student_id.as_str(), id.as_str()),
                None => true,
            };
            let start_ok: bool = match &ff.start_date {
                Some(sd) => str_lex_le(sd.as_str(), t.payment_date.as_str()),
                None => true,
            };
            let end_ok: bool = match &ff.end_date {
                Some(ed) => str_lex_le(t.payment_date.as_str(), ed.as_str()),
                None => true,
            };
            let method_ok: bool = match ff.payment_method {
                Some(m) => t.payment_method == m,
                None => true,
            };
            let min_ok: bool = match ff.min_amount {
                Some(a) => t.amount >= a,
                None => true,
            };
            let max_ok: bool = match ff.max_amount {
                Some(a) => t.amount <= a,
                None => true,
            };
            id_ok && start_ok && end_ok && method_ok && min_ok && max_ok
        },
    }
}

/// Whether `a` comes at or before `b` in presentation order, decided at
/// run time.
fn history_ge_exec(a: &PaymentTransaction, b: &PaymentTransaction) -> (r: bool)
    ensures
        r == history_ge(a@, b@),
{
    if str_eq(a.payment_date.as_str(), b.payment_date.as_str()) {
        str_lex_le(b.created_at.as_str(), a.created_at.as_str())
    } else {
        str_lex_le(b.payment_date.as_str(), a.payment_date.as_str())
    }
}

impl PaymentService {
    /// The transactions passing the filter, ordered by payment date
    /// descending with the write timestamp as tie-break.
    pub fn get_payment_history(ledger: &Ledger, filter: Option<PaymentHistoryFilter>) -> (r: Vec<
        PaymentTransaction,
    >)
        ensures
            r@.map_values(|t: PaymentTransaction| t@).to_multiset() == matching_txs(
                ledger@.transactions,
                filter,
            ).to_multiset(),
            sorted_history(r@.map_values(|t: PaymentTransaction| t@)),
    {
        broadcast use group_to_multiset_ensures;

        let n: usize = ledger.transactions.len();
        let mut out: Vec<PaymentTransaction> = Vec::new();
        let mut k: usize = 0;
        proof {
            assert(out@.map_values(|t: PaymentTransaction| t@) =~= Seq::<
                PaymentTransactionV,
            >::empty());
            assert(matching_txs(ledger@.transactions.take(0), filter) =~= Seq::<
                PaymentTransactionV,
            >::empty());
        }
        while k < n
            invariant
                n == ledger.transactions.len(),
                ledger@.transactions.len() == n,
                k <= n,
                out@.map_values(|t: PaymentTransaction| t@).to_multiset() == matching_txs(
                    ledger@.transactions.take(k as int),
                    filter,
                ).to_multiset(),
                sorted_history(out@.map_values(|t: PaymentTransaction| t@)),
            decreases n - k,
        {
            proof {
                assert(ledger@.transactions.take(k as int + 1).drop_last() =~= ledger@.transactions.take(
                    k as int,
                ));
                assert(ledger@.transactions.take(k as int + 1).last() == ledger@.transactions[k as int]);
                assert(ledger@.transactions[k as int] == ledger.transactions@[k as int]@);
            }
            let tx = &ledger.transactions[k];
            if passes_filter(tx, &filter) {
                let ghost txv = tx@;
                let ghost rv = out@.map_values(|t: PaymentTransaction| t@);
                let out_len: usize = out.len();
                let mut p: usize = 0;
                while p < out_len && history_ge_exec(&out[p], tx)
                    invariant
                        out_len == out@.len(),
                        p <= out_len,
                        rv == out@.map_values(|t: PaymentTransaction| t@),
                        txv == tx@,
                        rv.len() == out_len,
                        forall|q: int| 0 <= q < p ==> history_ge(#[trigger] rv[q], txv),
                    decreases out_len - p,
                {
                    assert(rv[p as int] == out@[p as int]@);
                    p = p + 1;
                }
                proof {
                    if p < out_len {
                        assert(rv[p as int] == out@[p as int]@);
                        lemma_history_ge_total(rv[p as int], txv);
                        assert(history_ge(txv, rv[p as int]));
                        assert forall|q: int| p <= q < rv.len() implies history_ge(
                            txv,
                            #[trigger] rv[q],
                        ) by {
                            assert(history_ge(rv[p as int], rv[q]));
                            lemma_history_ge_trans(txv, rv[p as int], rv[q]);
                        }
                    }
                }
                out.insert(p, tx.duplicate());
                proof {
                    let rv2 = out@.map_values(|t: PaymentTransaction| t@);
                    assert(rv2 =~= rv.insert(p as int, txv));
                    vstd::seq_lib::to_multiset_insert::<PaymentTransactionV>(rv, p as int, txv);
                    assert(matching_txs(ledger@.transactions.take(k as int + 1), filter)
                        =~= matching_txs(ledger@.transactions.take(k as int), filter).push(txv));
                    vstd::seq_lib::to_multiset_build::<PaymentTransactionV>(
                        matching_txs(ledger@.transactions.take(k as int), filter),
                        txv,
                    );
                    assert forall|q1: int, q2: int| 0 <= q1 <= q2 < rv2.len() implies history_ge(
                        #[trigger] rv2[q1],
                        #[trigger] rv2[q2],
                    ) by {
                        if q1 < p && q2 < p {
                            assert(rv2[q1] == rv[q1] && rv2[q2] == rv[q2]);
                        } else if q1 < p && q2 == p {
                            assert(rv2[q1] == rv[q1] && rv2[q2] == txv);
                        } else if q1 < p && q2 > p {
                            assert(rv2[q1] == rv[q1] && rv2[q2] == rv[q2 - 1]);
                        } else if q1 == p && q2 == p {
                            assert(rv2[q1] == txv && rv2[q2] == txv);
                            lemma_history_ge_total(txv, txv);
                        } else if q1 == p && q2 > p {
                            assert(rv2[q1] == txv && rv2[q2] == rv[q2 - 1]);
                        } else {
                            assert(rv2[q1] == rv[q1 - 1] && rv2[q2] == rv[q2 - 1]);
                        }
                    }
                }
            }
            k = k + 1;
        }
        proof {
            assert(ledger@.transactions.take(n as int) =~= ledger@.transactions);
        }
        out
    }

    /// One student's payment history, newest first.
    pub fn get_student_payment_history(ledger: &Ledger, student_id: &str) -> (r: Vec<
        PaymentTransaction,
    >)
        ensures
            ({
                let rv = r@.map_values(|t: PaymentTransaction| t@);
                &&& sorted_history(rv)
                &&& forall|i: int|
                    0 <= i < rv.len() ==> (#[trigger] rv[i]).student_id == student_id@
                &&& rv.to_multiset() == only_for(ledger@.transactions, student_id@).to_multiset()
            }),
    {
        let filter = PaymentHistoryFilter {
            student_id: Some(student_id.to_owned()),
            start_date: None,
            end_date: None,
            payment_method: None,
            min_amount: None,
            max_amount: None,
        };
        let ghost f = filter;
        let r = Self::get_payment_history(ledger, Some(filter));
        proof {
            broadcast use group_to_multiset_ensures;

            let rv = r@.map_values(|t: PaymentTransaction| t@);
            lemma_matching_is_only_for(ledger@.transactions, f, student_id@);
            assert forall|i: int| 0 <= i < rv.len() implies (#[trigger] rv[i]).student_id
                == student_id@ by {
                assert(rv.to_multiset().contains(rv[i])) by {
                    assert(rv.contains(rv[i]));
                }
                let m = only_for(ledger@.transactions, student_id@);
                assert(m.to_multiset().contains(rv[i]));
                assert(m.contains(rv[i]));
                let w = choose|w: int| 0 <= w < m.len() && m[w] == rv[i];
                lemma_only_for_members(ledger@.transactions, student_id@);
            }
        }
        r
    }
}

/// The subsequence of transactions recorded for one student, in log order.
pub open spec fn only_for(txs: Seq<PaymentTransactionV>, id: Seq<char>) -> Seq<PaymentTransactionV>
    decreases txs.len(),
{
    if txs.len() == 0 {
        Seq::empty()
    } else {
        let rest = only_for(txs.drop_last(), id);
        if txs.last().student_id == id {
            rest.push(txs.last())
        } else {
            rest
        }
    }
}

/// Every member of `only_for` carries the id it was selected by.
pub proof fn lemma_only_for_members(txs: Seq<PaymentTransactionV>, id: Seq<char>)
    ensures
        forall|i: int|
            0 <= i < only_for(txs, id).len() ==> (#[trigger] only_for(txs, id)[i]).student_id
                == id,
    decreases txs.len(),
{
    if txs.len() > 0 {
        lemma_only_for_members(txs.drop_last(), id);
    }
}

/// Filtering by a student id alone selects exactly that student's
/// transactions.
pub proof fn lemma_matching_is_only_for(
    txs: Seq<PaymentTransactionV>,
    f: PaymentHistoryFilter,
    id: Seq<char>,
)
    requires
        f.student_id matches Some(s) && s@ == id,
        f.start_date is None,
        f.end_date is None,
        f.payment_method is None,
        f.min_amount is None,
        f.max_amount is None,
    ensures
        matching_txs(txs, Some(f)) == only_for(txs, id),
    decreases txs.len(),
{
    if txs.len() == 0 {
        assert(matching_txs(txs, Some(f)) =~= only_for(txs, id));
    } else {
        lemma_matching_is_only_for(txs.drop_last(), f, id);
    }
}

} // verus!
