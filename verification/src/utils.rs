//! The lines in which directives, balances and diagnostics are listed.

use vstd::prelude::*;
use vstd::string::*;
use crate::book::{AccBal, CcyBal, balances_wf};
use crate::data::{Directive, DirectiveView, directives_view, texts};
use crate::decimal::decimal_text;
use crate::error::{BeanError, ErrorView, errors_view};

verus! {

/// The written forms of the directives.
pub open spec fn directive_texts(ds: Seq<DirectiveView>) -> Seq<Seq<char>> {
    ds.map_values(|d: DirectiveView| d.text())
}

/// The written forms of the diagnostics under their heading; no line where
/// there is no diagnostic.
pub open spec fn error_texts(es: Seq<ErrorView>) -> Seq<Seq<char>> {
    if es.len() == 0 {
        Seq::empty()
    } else {
        seq!["-- Errors -- "@] + es.map_values(|e: ErrorView| e.text())
    }
}

/// The line for what an account holds of a currency.
pub open spec fn holding_text(account: Seq<char>, number: (int, nat), ccy: Seq<char>) -> Seq<char> {
    account + " "@ + decimal_text(number.0, number.1) + " "@ + ccy
}

/// The lines for the first `n` currencies that an account holds.
pub open spec fn holding_texts(account: Seq<char>, held: &CcyBal, n: int) -> Seq<Seq<char>>
    decreases n,
{
    if n <= 0 {
        Seq::empty()
    } else {
        holding_texts(account, held, n - 1).push(
            holding_text(account, held@[held.keys()[n - 1]], held.keys()[n - 1]),
        )
    }
}

/// The lines for the first `n` accounts: for each account, in the order in
/// which they first received a posting, one line for each currency, in the
/// order in which the account first received them.
pub open spec fn balance_texts(bals: &AccBal, n: int) -> Seq<Seq<char>>
    decreases n,
{
    if n <= 0 {
        Seq::empty()
    } else {
        let account = bals.keys()[n - 1];
        balance_texts(bals, n - 1) + holding_texts(
            account,
            &bals.item(account),
            bals.item(account).keys().len() as int,
        )
    }
}

/// The lines that list the directives, one for each.
pub fn directive_lines(dirs: &Vec<Directive>) -> (r: Vec<String>)
    ensures
        texts(r@) == directive_texts(directives_view(dirs@)),
{
    let mut lines: Vec<String> = Vec::new();
    let mut i: usize = 0;
    while i < dirs.len()
        invariant
            i <= dirs.len(),
            lines@.len() == i,
            forall|j: int| 0 <= j < i ==> (#[trigger] lines@[j])@ == dirs@[j]@.text(),
        decreases dirs.len() - i,
    {
        lines.push(dirs[i].to_text());
        i += 1;
    }
    assert(texts(lines@) =~= directive_texts(directives_view(dirs@)));
    lines
}

/// The lines that list the diagnostics: a heading and one line for each, or
/// no line where there is none.
pub fn error_lines(errs: &Vec<BeanError>) -> (r: Vec<String>)
    ensures
        texts(r@) == error_texts(errors_view(errs@)),
{
    let mut lines: Vec<String> = Vec::new();
    if errs.len() == 0 {
        assert(texts(lines@) =~= error_texts(errors_view(errs@)));
        return lines;
    }
    lines.push(String::from_str("-- Errors -- "));
    let mut i: usize = 0;
    while i < errs.len()
        invariant
            i <= errs.len(),
            lines@.len() == i + 1,
            lines@[0]@ == "-- Errors -- "@,
            forall|j: int| 0 <= j < i ==> (#[trigger] lines@[j + 1])@ == errs@[j]@.text(),
        decreases errs.len() - i,
    {
        lines.push(errs[i].to_text());
        i += 1;
    }
    proof {
        let want = error_texts(errors_view(errs@));
        assert(texts(lines@).len() == want.len());
        assert forall|k: int| 0 <= k < want.len() implies texts(lines@)[k] == want[k] by {
            if k > 0 {
                assert(lines@[(k - 1) + 1]@ == errs@[k - 1]@.text());
            }
        }
        assert(texts(lines@) =~= want);
    }
    lines
}

/// The lines that list the balances: a heading, then one line for each
/// currency of each account.
pub fn balance_lines(bals: &AccBal) -> (r: Vec<String>)
    requires
        balances_wf(bals),
    ensures
        texts(r@) == seq!["-- Balances --"@] + balance_texts(bals, bals.keys().len() as int),
{
    let mut lines: Vec<String> = Vec::new();
    lines.push(String::from_str("-- Balances --"));
    let ghost head = seq!["-- Balances --"@];
    assert(texts(lines@) =~= head + balance_texts(bals, 0));
    let mut i: usize = 0;
    while i < bals.len()
        invariant
            i <= bals.keys().len(),
            balances_wf(bals),
            head == seq!["-- Balances --"@],
            texts(lines@) == head + balance_texts(bals, i as int),
        decreases bals.keys().len() - i,
    {
        let account = bals.key_at(i);
        let held = bals.value_at(i);
        let ghost before = texts(lines@);
        let mut k: usize = 0;
        assert(texts(lines@) =~= before + holding_texts(account@, held, 0));
        while k < held.len()
            invariant
                k <= held.keys().len(),
                held.wf(),
                texts(lines@) == before + holding_texts(account@, held, k as int),
            decreases held.keys().len() - k,
        {
            let ghost lines_before = texts(lines@);
            let mut line = account.clone();
            line.append(" ");
            line.append(held.value_at(k).to_text().as_str());
            line.append(" ");
            line.append(held.key_at(k).as_str());
            lines.push(line);
            assert(texts(lines@) =~= lines_before.push(
                holding_text(account@, held@[held.keys()[k as int]], held.keys()[k as int]),
            ));
            k += 1;
        }
        assert(texts(lines@) =~= head + balance_texts(bals, i + 1));
        i += 1;
    }
    lines
}

} // verus!
