//! A double-entry ledger engine: ordering of directives, completion and
//! checking of transactions, and running balances with their diagnostics.

pub mod book;
pub mod data;
pub mod date;
pub mod decimal;
pub mod entry;
pub mod error;
pub mod ledger;
pub mod loader;
pub mod render;
pub mod table;
pub mod text;
pub mod utils;

use vstd::prelude::*;
use crate::book::{AccBal, balances_wf, booked, booking_errors, run};
use crate::data::{DirectiveView, directives_view};
use crate::entry::Entry;
use crate::error::{BeanError, ErrorView, errors_view};
use crate::ledger::{Ledger, LedgerView};
use crate::loader::{consumed, is_sequenced, law_sequenced, may_precede, sequenced};

verus! {

/// The directives after evaluation: in evaluation order, each transaction
/// completed.
pub open spec fn evaluated(ds: Seq<DirectiveView>) -> Seq<DirectiveView> {
    sequenced(ds).map_values(|d: DirectiveView| booked(d))
}

/// What evaluation reports: what the booking of the directives reports, in
/// evaluation order.
pub open spec fn evaluation_errors(ds: Seq<DirectiveView>) -> Seq<ErrorView> {
    booking_errors(sequenced(ds))
}

/// Evaluated directives stand in evaluation order: completing a transaction
/// changes neither its day nor its rank.
pub proof fn law_evaluated_in_order(ds: Seq<DirectiveView>)
    ensures
        is_sequenced(evaluated(ds)),
        evaluated(ds).len() == ds.len(),
{
    law_sequenced(ds);
    let s = sequenced(ds);
    let e = evaluated(ds);
    assert forall|i: int, j: int| 0 <= i < j < e.len() implies may_precede(
        #[trigger] e[i],
        #[trigger] e[j],
    ) by {
        assert(may_precede(s[i], s[j]));
        assert(e[i] == booked(s[i]) && e[j] == booked(s[j]));
    }
}

/// Puts the directives of the ledger in evaluation order and completes and
/// checks its transactions. The diagnostics of that join those the ledger
/// came with.
pub fn evaluate(ledger: Ledger) -> (r: Ledger)
    ensures
        r@ == (LedgerView {
            dirs: evaluated(ledger@.dirs),
            errs: ledger@.errs + evaluation_errors(ledger@.dirs),
            title: ledger@.title,
            operating_currency: ledger@.operating_currency,
        }),
{
    let Ledger { dirs, errs, opts } = ledger;
    let ghost given = errors_view(errs@);
    let mut dirs = dirs;
    let mut errs = errs;
    loader::sort(&mut dirs);
    let mut more = book::balance_transactions(&mut dirs);
    let ghost raised = errors_view(more@);
    errs.append(&mut more);
    assert(errors_view(errs@) =~= given + raised);
    Ledger { dirs, errs, opts }
}

/// Reads the ledger that the entries hold and evaluates it; nothing where
/// the entries cannot be read.
pub fn load(entries: &Vec<Entry>) -> (r: Option<Ledger>)
    ensures
        match consumed(entries@) {
            Some(v) => r matches Some(l) && l@ == (LedgerView {
                dirs: evaluated(v.dirs),
                errs: v.errs + evaluation_errors(v.dirs),
                title: v.title,
                operating_currency: v.operating_currency,
            }),
            None => r is None,
        },
{
    match loader::consume(entries) {
        Some(ledger) => Some(evaluate(ledger)),
        None => None,
    }
}

/// Reads the ledger that the entries hold, evaluates it and computes what
/// each account holds. Returns the balances and all diagnostics: those of
/// reading, those of the transactions and those of the accounts. Returns
/// nothing where the entries cannot be read.
pub fn balance(entries: &Vec<Entry>) -> (r: Option<(AccBal, Vec<BeanError>)>)
    ensures
        match consumed(entries@) {
            Some(v) => r matches Some(b) && balances_wf(&b.0) && b.0@ == run(
                evaluated(v.dirs),
            ).balances && errors_view(b.1@) == v.errs + evaluation_errors(v.dirs) + run(
                evaluated(v.dirs),
            ).errors,
            None => r is None,
        },
{
    match load(entries) {
        Some(loaded) => {
            let Ledger { dirs, errs, opts: _ } = loaded;
            let mut dirs = dirs;
            let mut errs = errs;
            let ghost first = errors_view(errs@);
            let (bals, mut more) = book::get_balances(&mut dirs);
            let ghost second = errors_view(more@);
            errs.append(&mut more);
            assert(errors_view(errs@) =~= first + second);
            Some((bals, errs))
        },
        None => None,
    }
}

} // verus!
