//! Booking: completing and checking transactions, and the running balances
//! of the accounts with the diagnostics raised on the way.

use vstd::prelude::*;
use vstd::string::*;
use crate::data::{
    Amount, AmountView, BalanceView, Ccy, CloseView, Directive, DirectiveView, OpenView, Pad,
    PadView, Posting, PostingView, Transaction, TransactionView, beyond_tolerance, clone_texts,
    directives_view, exceeds_tolerance, pad_transaction, postings_view, texts,
};
use crate::decimal::{Decimal, decimal_difference, decimal_sum, decimal_text};
use crate::error::{BeanError, ErrorType, ErrorView, diagnostic, errors_view};
use crate::loader::{sequenced, sort};
use crate::table::Table;
use crate::text::concat;

verus! {

/// What is held of each currency.
pub type CcyBal = Table<Decimal>;

/// What each account holds of each currency.
pub type AccBal = Table<CcyBal>;

/// Whether each account is open, and for which currencies.
pub type AccStatuses = Table<AccountStatus>;

/// The latest pad of each account.
pub type Pads = Table<PadState>;

/// Whether an account is open, and the currencies it was opened for; with
/// none listed it takes all.
#[derive(Debug)]
pub struct AccountStatus {
    pub open: bool,
    pub ccys: Vec<Ccy>,
}

impl View for AccountStatus {
    type V = (bool, Seq<Seq<char>>);

    open spec fn view(&self) -> (bool, Seq<Seq<char>>) {
        (self.open, texts(self.ccys@))
    }
}

/// A pad, and whether a balance assertion has drawn on it.
#[derive(Debug)]
pub struct PadState {
    pub used: bool,
    pub pad: Pad,
}

impl View for PadState {
    type V = (bool, PadView);

    open spec fn view(&self) -> (bool, PadView) {
        (self.used, self.pad@)
    }
}

/// The number of postings without an amount.
pub open spec fn elided_count(ps: Seq<PostingView>) -> nat
    decreases ps.len(),
{
    if ps.len() == 0 {
        0
    } else if ps.last().amount is None {
        elided_count(ps.drop_last()) + 1
    } else {
        elided_count(ps.drop_last())
    }
}

/// The postings that have an amount, in their order.
pub open spec fn priced(ps: Seq<PostingView>) -> Seq<PostingView>
    decreases ps.len(),
{
    if ps.len() == 0 {
        Seq::empty()
    } else if ps.last().amount is Some {
        priced(ps.drop_last()).push(ps.last())
    } else {
        priced(ps.drop_last())
    }
}

/// The account of the last posting without an amount; the empty text where
/// every posting has one.
pub open spec fn elided_account(ps: Seq<PostingView>) -> Seq<char>
    decreases ps.len(),
{
    if ps.len() == 0 {
        Seq::empty()
    } else if ps.last().amount is None {
        ps.last().account
    } else {
        elided_account(ps.drop_last())
    }
}

/// The currencies of the postings, each once, in the order in which they
/// first occur.
pub open spec fn currencies(ps: Seq<PostingView>) -> Seq<Seq<char>>
    decreases ps.len(),
{
    if ps.len() == 0 {
        Seq::empty()
    } else {
        let before = currencies(ps.drop_last());
        match ps.last().amount {
            Some(a) => if before.contains(a.ccy) {
                before
            } else {
                before.push(a.ccy)
            },
            None => before,
        }
    }
}

/// The sum of the amounts of one currency: zero, to which the amounts are
/// added one after the other in the order of the postings.
pub open spec fn currency_sum(ps: Seq<PostingView>, ccy: Seq<char>) -> (int, nat)
    decreases ps.len(),
{
    if ps.len() == 0 {
        (0, 0)
    } else {
        let before = currency_sum(ps.drop_last(), ccy);
        match ps.last().amount {
            Some(a) => if a.ccy == ccy {
                decimal_sum(before.0, before.1, a.number.0, a.number.1)
            } else {
                before
            },
            None => before,
        }
    }
}

/// A currency that no posting has sums to zero.
proof fn lemma_absent_currency(ps: Seq<PostingView>, ccy: Seq<char>)
    requires
        !currencies(ps).contains(ccy),
    ensures
        currency_sum(ps, ccy) == (0int, 0nat),
    decreases ps.len(),
{
    if ps.len() > 0 {
        let before = currencies(ps.drop_last());
        match ps.last().amount {
            Some(a) => {
                if before.contains(a.ccy) {
                } else {
                    assert(before.push(a.ccy).last() == a.ccy);
                    assert(a.ccy != ccy);
                    assert forall|i: int| 0 <= i < before.len() implies before[i] != ccy by {
                        assert(before.push(a.ccy)[i] == before[i]);
                    }
                }
            },
            None => {},
        }
        lemma_absent_currency(ps.drop_last(), ccy);
    }
}

/// No currency is listed twice.
pub proof fn law_currencies_once(ps: Seq<PostingView>)
    ensures
        crate::table::distinct(currencies(ps)),
    decreases ps.len(),
{
    if ps.len() > 0 {
        law_currencies_once(ps.drop_last());
    }
}

/// The sums of the amounts of the postings, by currency.
pub fn currency_sums(ps: &Vec<Posting>) -> (sums: CcyBal)
    ensures
        sums.wf(),
        sums.keys() == currencies(postings_view(ps@)),
        forall|c: Seq<char>|
            sums@.dom().contains(c) ==> #[trigger] sums@[c] == currency_sum(postings_view(ps@), c),
{
    let mut sums: CcyBal = Table::new();
    let mut i: usize = 0;
    while i < ps.len()
        invariant
            i <= ps.len(),
            sums.wf(),
            sums.keys() == currencies(postings_view(ps@).take(i as int)),
            forall|c: Seq<char>|
                sums@.dom().contains(c) ==> #[trigger] sums@[c] == currency_sum(
                    postings_view(ps@).take(i as int),
                    c,
                ),
        decreases ps.len() - i,
    {
        let ghost before = postings_view(ps@).take(i as int);
        let ghost now = postings_view(ps@).take(i + 1);
        proof {
            assert(now.drop_last() =~= before);
            assert(now.last() == ps@[i as int]@);
            sums.lemma_keys();
        }
        match &ps[i].amount {
            Some(a) => {
                let so_far = match sums.get(&a.ccy) {
                    Some(n) => *n,
                    None => {
                        proof {
                            lemma_absent_currency(before, a.ccy@);
                        }
                        Decimal::zero()
                    },
                };
                sums.insert(a.ccy.clone(), so_far.add(a.number));
            },
            None => {},
        }
        i += 1;
    }
    assert(postings_view(ps@).take(i as int) =~= postings_view(ps@));
    sums
}

/// The posting that makes up for what a currency sums to.
pub open spec fn plug(account: Seq<char>, ccy: Seq<char>, sum: (int, nat)) -> PostingView {
    PostingView {
        account,
        amount: Some(AmountView { number: (-sum.0, sum.1), ccy }),
        line: None,
    }
}

/// The postings that make up for the sums of `ps`: for each of the
/// currencies, in their order, whose sum is beyond the tolerance, one
/// posting of the opposite sum to the account.
pub open spec fn plugs(account: Seq<char>, ps: Seq<PostingView>, ccys: Seq<Seq<char>>) -> Seq<PostingView>
    decreases ccys.len(),
{
    if ccys.len() == 0 {
        Seq::empty()
    } else {
        let before = plugs(account, ps, ccys.drop_last());
        let sum = currency_sum(ps, ccys.last());
        if exceeds_tolerance(sum) {
            before.push(plug(account, ccys.last(), sum))
        } else {
            before
        }
    }
}

/// The postings of a transaction after completion. With more than one
/// posting without an amount they stay as they are. Otherwise the postings
/// with an amount stay, and where one posting has none, its account takes
/// what makes up for the sums.
pub open spec fn completed(ps: Seq<PostingView>) -> Seq<PostingView> {
    if elided_count(ps) > 1 {
        ps
    } else if elided_count(ps) == 1 {
        priced(ps) + plugs(elided_account(ps), ps, currencies(ps))
    } else {
        priced(ps)
    }
}

/// What completion reports: one diagnostic where more than one posting has
/// no amount.
pub open spec fn completion_errors(t: TransactionView) -> Seq<ErrorView> {
    if elided_count(t.postings) > 1 {
        seq![
            diagnostic(
                ErrorType::MultipleEmptyPostings,
                t.line,
                "Found multiple empty postings for Transaction:"@,
                Some(DirectiveView::Transaction(t)),
            ),
        ]
    } else {
        Seq::empty()
    }
}

/// The transaction with other postings.
pub open spec fn with_postings(t: TransactionView, ps: Seq<PostingView>) -> TransactionView {
    TransactionView {
        date: t.date,
        ty: t.ty,
        payee: t.payee,
        narration: t.narration,
        tag: t.tag,
        link: t.link,
        postings: ps,
        meta: t.meta,
        line: t.line,
    }
}

/// Gives the one posting without an amount, if there is one, the amounts
/// that make the transaction balance: one new posting to its account for
/// each currency whose sum is beyond the tolerance. With more than one such
/// posting the transaction stays as it is and a diagnostic is returned.
pub fn complete_postings(tx: &mut Transaction) -> (errs: Vec<BeanError>)
    ensures
        final(tx)@ == with_postings(old(tx)@, completed(old(tx)@.postings)),
        errors_view(errs@) == completion_errors(old(tx)@),
{
    let ghost ps = postings_view(tx.postings@);
    let mut errs: Vec<BeanError> = Vec::new();
    let mut kept: Vec<Posting> = Vec::new();
    let mut elided: usize = 0;
    let mut last_elided: usize = 0;
    let mut i: usize = 0;
    while i < tx.postings.len()
        invariant
            i <= tx.postings.len(),
            ps == postings_view(tx.postings@),
            elided == elided_count(ps.take(i as int)),
            elided <= i,
            elided > 0 ==> last_elided < i && tx.postings@[last_elided as int].account@
                == elided_account(ps.take(i as int)),
            postings_view(kept@) == priced(ps.take(i as int)),
        decreases tx.postings.len() - i,
    {
        proof {
            assert(ps.take(i + 1).drop_last() =~= ps.take(i as int));
            assert(ps.take(i + 1).last() == tx.postings@[i as int]@);
        }
        let ghost kept_before = postings_view(kept@);
        match &tx.postings[i].amount {
            None => {
                elided += 1;
                last_elided = i;
            },
            Some(_) => {
                let p = tx.postings[i].clone();
                kept.push(p);
                assert(postings_view(kept@) =~= kept_before.push(tx.postings@[i as int]@));
            },
        }
        i += 1;
    }
    proof {
        assert(ps.take(i as int) =~= ps);
    }
    if elided > 1 {
        let dir = Directive::Transaction(tx.clone());
        let err = BeanError::new(
            ErrorType::MultipleEmptyPostings,
            &tx.debug,
            "Found multiple empty postings for Transaction:",
            Some(&dir),
        );
        errs.push(err);
        assert(errors_view(errs@) =~= completion_errors(tx@));
        assert(tx@ == with_postings(tx@, completed(ps)));
        return errs;
    }
    if elided == 1 {
        let sums = currency_sums(&tx.postings);
        let ghost account = elided_account(ps);
        let ghost ccys = currencies(ps);
        let ghost base = postings_view(kept@);
        let mut k: usize = 0;
        while k < sums.len()
            invariant
                k <= ccys.len(),
                sums.wf(),
                sums.keys() == ccys,
                forall|c: Seq<char>|
                    sums@.dom().contains(c) ==> #[trigger] sums@[c] == currency_sum(ps, c),
                last_elided < tx.postings.len(),
                tx.postings@[last_elided as int].account@ == account,
                postings_view(kept@) == base + plugs(account, ps, ccys.take(k as int)),
            decreases ccys.len() - k,
        {
            proof {
                assert(ccys.take(k + 1).drop_last() =~= ccys.take(k as int));
                assert(ccys.take(k + 1).last() == ccys[k as int]);
            }
            let ghost kept_before = postings_view(kept@);
            let sum = *sums.value_at(k);
            if beyond_tolerance(sum) {
                let p = Posting::new(
                    tx.postings[last_elided].account.clone(),
                    sum.neg(),
                    sums.key_at(k).clone(),
                );
                kept.push(p);
                assert(postings_view(kept@) =~= kept_before.push(
                    plug(account, ccys[k as int], sum@),
                ));
                assert(postings_view(kept@) =~= base + plugs(account, ps, ccys.take(k + 1)));
            }
            k += 1;
        }
        proof {
            assert(ccys.take(k as int) =~= ccys);
        }
    } else {
        assert(postings_view(kept@) == completed(ps));
    }
    assert(errors_view(errs@) =~= completion_errors(tx@));
    tx.postings = kept;
    errs
}

/// The diagnostic for a currency that does not sum to zero.
pub open spec fn unbalanced_error(t: TransactionView, ccy: Seq<char>) -> ErrorView {
    diagnostic(
        ErrorType::UnbalancedTransaction,
        t.line,
        "Transaction unbalanced for currency: "@ + ccy,
        Some(DirectiveView::Transaction(t)),
    )
}

/// One diagnostic for each of the currencies, in their order, that the
/// postings of the transaction sum beyond the tolerance in.
pub open spec fn unbalanced_errors(t: TransactionView, ccys: Seq<Seq<char>>) -> Seq<ErrorView>
    decreases ccys.len(),
{
    if ccys.len() == 0 {
        Seq::empty()
    } else {
        let before = unbalanced_errors(t, ccys.drop_last());
        if exceeds_tolerance(currency_sum(t.postings, ccys.last())) {
            before.push(unbalanced_error(t, ccys.last()))
        } else {
            before
        }
    }
}

/// What checking a transaction reports.
pub open spec fn check_errors(t: TransactionView) -> Seq<ErrorView> {
    unbalanced_errors(t, currencies(t.postings))
}

/// Whether the postings sum to zero, within the tolerance, in each of their
/// currencies.
pub open spec fn is_balanced(ps: Seq<PostingView>) -> bool {
    forall|i: int|
        0 <= i < currencies(ps).len() ==> !exceeds_tolerance(
            currency_sum(ps, #[trigger] currencies(ps)[i]),
        )
}

/// Checks that the postings of the transaction sum to zero in each
/// currency, within the tolerance, and returns a diagnostic for each
/// currency in which they do not. Postings without an amount count for
/// nothing.
pub fn check_transaction(tx: &Transaction) -> (errs: Vec<BeanError>)
    ensures
        errors_view(errs@) == check_errors(tx@),
{
    let mut errs: Vec<BeanError> = Vec::new();
    let sums = currency_sums(&tx.postings);
    let ghost ccys = currencies(tx@.postings);
    let mut k: usize = 0;
    while k < sums.len()
        invariant
            k <= ccys.len(),
            sums.wf(),
            sums.keys() == ccys,
            forall|c: Seq<char>|
                sums@.dom().contains(c) ==> #[trigger] sums@[c] == currency_sum(tx@.postings, c),
            errors_view(errs@) == unbalanced_errors(tx@, ccys.take(k as int)),
        decreases ccys.len() - k,
    {
        proof {
            assert(ccys.take(k + 1).drop_last() =~= ccys.take(k as int));
            assert(ccys.take(k + 1).last() == ccys[k as int]);
        }
        let ghost errs_before = errors_view(errs@);
        let sum = *sums.value_at(k);
        if beyond_tolerance(sum) {
            let msg = crate::text::concat("Transaction unbalanced for currency: ", sums.key_at(k).as_str());
            let dir = Directive::Transaction(tx.clone());
            let err = BeanError::new(
                ErrorType::UnbalancedTransaction,
                &tx.debug,
                msg.as_str(),
                Some(&dir),
            );
            errs.push(err);
            assert(errors_view(errs@) =~= errs_before.push(unbalanced_error(tx@, ccys[k as int])));
        }
        k += 1;
    }
    proof {
        assert(ccys.take(k as int) =~= ccys);
    }
    errs
}

/// What the booking of a transaction reports: what its completion reports,
/// then what the check of the completed transaction reports.
pub open spec fn transaction_errors(t: TransactionView) -> Seq<ErrorView> {
    completion_errors(t) + check_errors(with_postings(t, completed(t.postings)))
}

/// Completes the transaction, then checks it.
pub fn complete_and_check(tx: &mut Transaction) -> (errs: Vec<BeanError>)
    ensures
        final(tx)@ == with_postings(old(tx)@, completed(old(tx)@.postings)),
        errors_view(errs@) == transaction_errors(old(tx)@),
{
    let mut errs = complete_postings(tx);
    let mut more = check_transaction(tx);
    let ghost first = errors_view(errs@);
    let ghost second = errors_view(more@);
    errs.append(&mut more);
    assert(errors_view(errs@) =~= first + second);
    errs
}

/// A directive after booking: a transaction is completed, any other
/// directive stays as it is.
pub open spec fn booked(d: DirectiveView) -> DirectiveView {
    match d {
        DirectiveView::Transaction(t) => DirectiveView::Transaction(
            with_postings(t, completed(t.postings)),
        ),
        _ => d,
    }
}

/// What the booking of the directives reports, in their order.
pub open spec fn booking_errors(ds: Seq<DirectiveView>) -> Seq<ErrorView>
    decreases ds.len(),
{
    if ds.len() == 0 {
        Seq::empty()
    } else {
        booking_errors(ds.drop_last()) + match ds.last() {
            DirectiveView::Transaction(t) => transaction_errors(t),
            _ => Seq::empty(),
        }
    }
}

/// The directives in the opposite order.
fn reversed(dirs: &mut Vec<Directive>) -> (r: Vec<Directive>)
    ensures
        final(dirs)@.len() == 0,
        r@ == old(dirs)@.reverse(),
{
    let mut r: Vec<Directive> = Vec::new();
    let ghost all = dirs@;
    while dirs.len() > 0
        invariant
            dirs@.len() + r@.len() == all.len(),
            dirs@ == all.take(dirs@.len() as int),
            forall|j: int| 0 <= j < r@.len() ==> r@[j] == all[all.len() - 1 - j],
        decreases dirs.len(),
    {
        let d = dirs.pop().unwrap();
        r.push(d);
    }
    assert(r@ =~= all.reverse());
    r
}

/// Completes and checks each transaction among the directives, which stay
/// in their order, and returns the diagnostics in that order.
pub fn balance_transactions(dirs: &mut Vec<Directive>) -> (errs: Vec<BeanError>)
    ensures
        directives_view(final(dirs)@) == directives_view(old(dirs)@).map_values(
            |d: DirectiveView| booked(d),
        ),
        errors_view(errs@) == booking_errors(directives_view(old(dirs)@)),
{
    let ghost all = directives_view(dirs@);
    let ghost n = dirs@.len();
    let mut errs: Vec<BeanError> = Vec::new();
    let mut rest = reversed(dirs);
    assert(directives_view(dirs@) =~= all.take(0).map_values(|d: DirectiveView| booked(d)));
    while rest.len() > 0
        invariant
            all.len() == n,
            dirs@.len() + rest@.len() == n,
            forall|j: int| 0 <= j < rest@.len() ==> #[trigger] rest@[j]@ == all[n - 1 - j],
            directives_view(dirs@) == all.take(dirs@.len() as int).map_values(
                |d: DirectiveView| booked(d),
            ),
            errors_view(errs@) == booking_errors(all.take(dirs@.len() as int)),
        decreases rest.len(),
    {
        let ghost done = dirs@.len() as int;
        let ghost views_before = directives_view(dirs@);
        let ghost errs_before = errors_view(errs@);
        proof {
            assert(all.take(done + 1).drop_last() =~= all.take(done));
            assert(all.take(done + 1).last() == all[done]);
        }
        let d = rest.pop().unwrap();
        assert(d@ == all[done]);
        match d {
            Directive::Transaction(mut tx) => {
                let mut more = complete_and_check(&mut tx);
                let ghost second = errors_view(more@);
                errs.append(&mut more);
                assert(errors_view(errs@) =~= errs_before + second);
                dirs.push(Directive::Transaction(tx));
            },
            other => {
                assert(errors_view(errs@) =~= errs_before + Seq::<ErrorView>::empty());
                dirs.push(other);
            },
        }
        assert(directives_view(dirs@) =~= views_before.push(booked(all[done])));
        assert(directives_view(dirs@) =~= all.take(done + 1).map_values(
            |d: DirectiveView| booked(d),
        ));
    }
    proof {
        assert(all.take(n as int) =~= all);
    }
    errs
}

/// Whether the table of balances and each table in it are well formed.
pub open spec fn balances_wf(bals: &AccBal) -> bool {
    &&& bals.wf()
    &&& forall|k: Seq<char>| bals@.dom().contains(k) ==> (#[trigger] bals.item(k)).wf()
}

/// Whether the table of balances and each table in it are well formed.
pub fn balances_wf_holds(bals: &AccBal) -> (r: bool)
    ensures
        r == balances_wf(bals),
{
    if !bals.is_wf() {
        return false;
    }
    proof {
        bals.lemma_keys();
    }
    let mut i: usize = 0;
    while i < bals.len()
        invariant
            bals.wf(),
            i <= bals.keys().len(),
            forall|j: int| 0 <= j < i ==> (#[trigger] bals.item(bals.keys()[j])).wf(),
        decreases bals.keys().len() - i,
    {
        if !bals.value_at(i).is_wf() {
            proof {
                bals.lemma_keys();
            }
            return false;
        }
        i += 1;
    }
    proof {
        bals.lemma_keys();
        assert forall|k: Seq<char>| bals@.dom().contains(k) implies (#[trigger] bals.item(k)).wf() by {
            let j = bals.keys().index_of(k);
            assert(bals.keys().contains(k));
            assert(bals.keys()[j] == k);
        }
    }
    true
}

/// What the account holds of the currency; zero where nothing was posted.
pub open spec fn held(
    bals: Map<Seq<char>, Map<Seq<char>, (int, nat)>>,
    account: Seq<char>,
    ccy: Seq<char>,
) -> (int, nat) {
    if bals.dom().contains(account) && bals[account].dom().contains(ccy) {
        bals[account][ccy]
    } else {
        (0, 0)
    }
}

/// The balances after the amount was added to what the account holds.
pub open spec fn credited(
    bals: Map<Seq<char>, Map<Seq<char>, (int, nat)>>,
    account: Seq<char>,
    amount: AmountView,
) -> Map<Seq<char>, Map<Seq<char>, (int, nat)>> {
    let inner = if bals.dom().contains(account) {
        bals[account]
    } else {
        Map::empty()
    };
    let so_far = held(bals, account, amount.ccy);
    bals.insert(
        account,
        inner.insert(
            amount.ccy,
            decimal_sum(so_far.0, so_far.1, amount.number.0, amount.number.1),
        ),
    )
}

/// Why a posting of an amount cannot be booked, if it cannot: the account
/// was never opened, or it is closed, or it was opened for other
/// currencies.
pub open spec fn posting_error(
    accounts: Map<Seq<char>, (bool, Seq<Seq<char>>)>,
    t: TransactionView,
    account: Seq<char>,
    amount: AmountView,
) -> Option<ErrorView> {
    if !accounts.dom().contains(account) {
        Some(
            diagnostic(
                ErrorType::NoAccount,
                t.line,
                "Transaction referred to non-existent Account: "@ + account,
                Some(DirectiveView::Transaction(t)),
            ),
        )
    } else if !accounts[account].0 {
        Some(
            diagnostic(
                ErrorType::ClosedAccount,
                t.line,
                "Transaction referred to closed Account: "@ + account,
                Some(DirectiveView::Transaction(t)),
            ),
        )
    } else if accounts[account].1.len() > 0 && !accounts[account].1.contains(amount.ccy) {
        Some(
            diagnostic(
                ErrorType::InvalidCcy,
                t.line,
                "Invalid currency "@ + amount.ccy + " for "@ + account,
                Some(DirectiveView::Transaction(t)),
            ),
        )
    } else {
        None
    }
}

/// Balances and diagnostics.
pub struct Booked {
    pub balances: Map<Seq<char>, Map<Seq<char>, (int, nat)>>,
    pub errors: Seq<ErrorView>,
}

/// Balances and diagnostics after one posting of the transaction `t`: a
/// posting without an amount changes nothing, one that cannot be booked
/// adds its diagnostic, any other adds its amount to its account.
pub open spec fn post(
    accounts: Map<Seq<char>, (bool, Seq<Seq<char>>)>,
    t: TransactionView,
    p: PostingView,
    b: Booked,
) -> Booked {
    match p.amount {
        None => b,
        Some(a) => match posting_error(accounts, t, p.account, a) {
            Some(e) => Booked { balances: b.balances, errors: b.errors.push(e) },
            None => Booked { balances: credited(b.balances, p.account, a), errors: b.errors },
        },
    }
}

/// Balances and diagnostics after the postings `ps` of the transaction `t`,
/// one after the other.
pub open spec fn post_all(
    accounts: Map<Seq<char>, (bool, Seq<Seq<char>>)>,
    t: TransactionView,
    ps: Seq<PostingView>,
    b: Booked,
) -> Booked
    decreases ps.len(),
{
    if ps.len() == 0 {
        b
    } else {
        post(accounts, t, ps.last(), post_all(accounts, t, ps.drop_last(), b))
    }
}

/// Whether the list has the text.
fn contains_text(v: &Vec<String>, s: &String) -> (r: bool)
    ensures
        r == texts(v@).contains(s@),
{
    let mut i: usize = 0;
    while i < v.len()
        invariant
            i <= v.len(),
            forall|j: int| 0 <= j < i ==> texts(v@)[j] != s@,
        decreases v.len() - i,
    {
        if v[i] == *s {
            assert(texts(v@)[i as int] == s@);
            return true;
        }
        i += 1;
    }
    false
}

/// Adds the amount to what the account holds.
fn credit(bals: &mut AccBal, account: &String, amount: &Amount)
    requires
        balances_wf(old(bals)),
    ensures
        balances_wf(final(bals)),
        final(bals)@ == credited(old(bals)@, account@, amount@),
{
    let ghost before = bals@;
    let ghost before_table = *bals;
    proof {
        bals.lemma_keys();
    }
    match bals.position(account) {
        Some(i) => {
            let mut inner = bals.replace_at(i, Table::new());
            assert(inner@ == before[account@]);
            let so_far = match inner.get(&amount.ccy) {
                Some(n) => *n,
                None => Decimal::zero(),
            };
            inner.insert(amount.ccy.clone(), so_far.add(amount.number));
            let ghost inner_view = inner@;
            let ghost middle = *bals;
            let _ = bals.replace_at(i, inner);
            proof {
                assert(bals@ =~= credited(before, account@, amount@));
                assert forall|k: Seq<char>| bals@.dom().contains(k) implies (#[trigger] bals.item(
                    k,
                )).wf() by {
                    if k != account@ {
                        assert(middle@.dom().contains(k));
                        assert(bals.item(k) == middle.item(k));
                        assert(middle.item(k) == before_table.item(k));
                    }
                }
            }
        },
        None => {
            let mut inner: CcyBal = Table::new();
            inner.insert(amount.ccy.clone(), Decimal::zero().add(amount.number));
            bals.insert(account.clone(), inner);
            proof {
                assert(bals@ =~= credited(before, account@, amount@));
                assert forall|k: Seq<char>| bals@.dom().contains(k) implies (#[trigger] bals.item(
                    k,
                )).wf() by {
                    if k != account@ {
                        assert(bals.item(k) == before_table.item(k));
                    }
                }
            }
        },
    }
}

/// Books the postings of a transaction: each posting with an amount adds
/// to what its account holds, unless the account was never opened, is
/// closed, or was opened for other currencies, which adds a diagnostic.
pub fn proc_tx(tx: &Transaction, bals: &mut AccBal, accs: &mut AccStatuses, errs: &mut Vec<BeanError>)
    requires
        balances_wf(old(bals)),
        old(accs).wf(),
    ensures
        balances_wf(final(bals)),
        final(accs).wf(),
        final(accs)@ == old(accs)@,
        final(accs).keys() == old(accs).keys(),
        (Booked { balances: final(bals)@, errors: errors_view(final(errs)@) }) == post_all(
            old(accs)@,
            tx@,
            tx@.postings,
            Booked { balances: old(bals)@, errors: errors_view(old(errs)@) },
        ),
{
    let ghost start = Booked { balances: bals@, errors: errors_view(errs@) };
    let ghost ps = tx@.postings;
    let mut i: usize = 0;
    while i < tx.postings.len()
        invariant
            i <= tx.postings.len(),
            ps == postings_view(tx.postings@),
            ps == tx@.postings,
            balances_wf(bals),
            accs.wf(),
            (Booked { balances: bals@, errors: errors_view(errs@) }) == post_all(
                accs@,
                tx@,
                ps.take(i as int),
                start,
            ),
        decreases tx.postings.len() - i,
    {
        proof {
            assert(ps.take(i + 1).drop_last() =~= ps.take(i as int));
            assert(ps.take(i + 1).last() == tx.postings@[i as int]@);
        }
        let ghost errs_before = errors_view(errs@);
        let p = &tx.postings[i];
        match &p.amount {
            Some(amount) => {
                let problem: Option<BeanError> = match accs.get(&p.account) {
                    Some(status) => {
                        if status.open {
                            if status.ccys.len() == 0 || contains_text(&status.ccys, &amount.ccy) {
                                None
                            } else {
                                let mut msg = concat("Invalid currency ", amount.ccy.as_str());
                                msg.append(" for ");
                                msg.append(p.account.as_str());
                                let dir = Directive::Transaction(tx.clone());
                                Some(
                                    BeanError::new(
                                        ErrorType::InvalidCcy,
                                        &tx.debug,
                                        msg.as_str(),
                                        Some(&dir),
                                    ),
                                )
                            }
                        } else {
                            let msg = concat(
                                "Transaction referred to closed Account: ",
                                p.account.as_str(),
                            );
                            let dir = Directive::Transaction(tx.clone());
                            Some(
                                BeanError::new(
                                    ErrorType::ClosedAccount,
                                    &tx.debug,
                                    msg.as_str(),
                                    Some(&dir),
                                ),
                            )
                        }
                    },
                    None => {
                        let msg = concat(
                            "Transaction referred to non-existent Account: ",
                            p.account.as_str(),
                        );
                        let dir = Directive::Transaction(tx.clone());
                        Some(
                            BeanError::new(
                                ErrorType::NoAccount,
                                &tx.debug,
                                msg.as_str(),
                                Some(&dir),
                            ),
                        )
                    },
                };
                match problem {
                    Some(e) => {
                        errs.push(e);
                        assert(errors_view(errs@) =~= errs_before.push(
                            posting_error(accs@, tx@, p.account@, amount@)->0,
                        ));
                    },
                    None => {
                        credit(bals, &p.account, amount);
                    },
                }
            },
            None => {},
        }
        i += 1;
    }
    proof {
        assert(ps.take(i as int) =~= ps);
    }
}

/// The state of the books while the directives are evaluated.
pub struct Books {
    /// Whether each account is open, and for which currencies.
    pub accounts: Map<Seq<char>, (bool, Seq<Seq<char>>)>,
    /// What each account holds of each currency.
    pub balances: Map<Seq<char>, Map<Seq<char>, (int, nat)>>,
    /// The latest pad of each account, and whether it was drawn on.
    pub pads: Map<Seq<char>, (bool, PadView)>,
    /// The transactions made from pads, in the order in which they were made.
    pub synthesized: Seq<TransactionView>,
    /// The diagnostics, in the order in which they were raised.
    pub errors: Seq<ErrorView>,
}

/// The books before any directive.
pub open spec fn opening_books() -> Books {
    Books {
        accounts: Map::empty(),
        balances: Map::empty(),
        pads: Map::empty(),
        synthesized: Seq::empty(),
        errors: Seq::empty(),
    }
}

/// The books after an open: the account is open for the currencies listed.
/// An open of an open account is reported.
pub open spec fn after_open(b: Books, o: OpenView) -> Books {
    Books {
        accounts: b.accounts.insert(o.account, (true, o.ccys)),
        balances: b.balances,
        pads: b.pads,
        synthesized: b.synthesized,
        errors: if b.accounts.dom().contains(o.account) && b.accounts[o.account].0 {
            b.errors.push(
                diagnostic(
                    ErrorType::DuplicateOpen,
                    o.line,
                    "Duplicate open directive for "@ + o.account,
                    Some(DirectiveView::Open(o)),
                ),
            )
        } else {
            b.errors
        },
    }
}

/// The books after a close: the account is closed. A close of a closed
/// account is reported.
pub open spec fn after_close(b: Books, c: CloseView) -> Books {
    Books {
        accounts: b.accounts.insert(c.account, (false, Seq::empty())),
        balances: b.balances,
        pads: b.pads,
        synthesized: b.synthesized,
        errors: if b.accounts.dom().contains(c.account) && !b.accounts[c.account].0 {
            b.errors.push(
                diagnostic(
                    ErrorType::DuplicateClose,
                    c.line,
                    "Duplicate close directive for "@ + c.account,
                    Some(DirectiveView::Close(c)),
                ),
            )
        } else {
            b.errors
        },
    }
}

/// The books after a pad: it is the pad of its account, not drawn on. A pad
/// that it replaces and that was not drawn on is reported.
pub open spec fn after_pad(b: Books, p: PadView) -> Books {
    Books {
        accounts: b.accounts,
        balances: b.balances,
        pads: b.pads.insert(p.account_to, (false, p)),
        synthesized: b.synthesized,
        errors: if b.pads.dom().contains(p.account_to) && !b.pads[p.account_to].0 {
            b.errors.push(
                diagnostic(
                    ErrorType::UnusedPad,
                    b.pads[p.account_to].1.line,
                    "Multiple pads for "@ + p.account_to,
                    Some(DirectiveView::Pad(b.pads[p.account_to].1)),
                ),
            )
        } else {
            b.errors
        },
    }
}

/// The books after a transaction: its postings are booked.
pub open spec fn after_transaction(b: Books, t: TransactionView) -> Books {
    let booked = post_all(
        b.accounts,
        t,
        t.postings,
        Booked { balances: b.balances, errors: b.errors },
    );
    Books {
        accounts: b.accounts,
        balances: booked.balances,
        pads: b.pads,
        synthesized: b.synthesized,
        errors: booked.errors,
    }
}

/// What the assertion is off by: the asserted number less what the account
/// holds.
pub open spec fn shortfall(b: Books, a: BalanceView) -> (int, nat) {
    let accumulated = held(b.balances, a.account, a.amount.ccy);
    decimal_difference(a.amount.number.0, a.amount.number.1, accumulated.0, accumulated.1)
}

/// The diagnostic for an assertion that fails.
pub open spec fn assertion_error(b: Books, a: BalanceView) -> ErrorView {
    let accumulated = held(b.balances, a.account, a.amount.ccy);
    diagnostic(
        ErrorType::BalanceAssertion,
        a.line,
        "Balance assertion failed: asserted "@ + decimal_text(
            a.amount.number.0,
            a.amount.number.1,
        ) + " is not equal to "@ + decimal_text(accumulated.0, accumulated.1),
        Some(DirectiveView::Balance(a)),
    )
}

/// The transaction that makes up for what the assertion is off by, from the
/// pad of its account.
pub open spec fn padding(b: Books, a: BalanceView) -> TransactionView {
    pad_transaction(
        b.pads[a.account].1,
        AmountView { number: shortfall(b, a), ccy: a.amount.ccy },
    )
}

/// The books after a balance assertion. Where the account holds the
/// asserted number, within the tolerance, nothing changes. Otherwise, where
/// the account has a pad, the transaction that makes up for the difference
/// is booked and kept, and the pad counts as drawn on; where it has none,
/// the assertion is reported.
pub open spec fn after_balance(b: Books, a: BalanceView) -> Books {
    if !exceeds_tolerance(shortfall(b, a)) {
        b
    } else if b.pads.dom().contains(a.account) {
        let t = padding(b, a);
        let booked = post_all(
            b.accounts,
            t,
            t.postings,
            Booked { balances: b.balances, errors: b.errors },
        );
        Books {
            accounts: b.accounts,
            balances: booked.balances,
            pads: b.pads.insert(a.account, (true, b.pads[a.account].1)),
            synthesized: b.synthesized.push(t),
            errors: booked.errors,
        }
    } else {
        Books {
            accounts: b.accounts,
            balances: b.balances,
            pads: b.pads,
            synthesized: b.synthesized,
            errors: b.errors.push(assertion_error(b, a)),
        }
    }
}

/// The books after one directive.
pub open spec fn step(b: Books, d: DirectiveView) -> Books {
    match d {
        DirectiveView::Open(o) => after_open(b, o),
        DirectiveView::Close(c) => after_close(b, c),
        DirectiveView::Pad(p) => after_pad(b, p),
        DirectiveView::Balance(a) => after_balance(b, a),
        DirectiveView::Transaction(t) => after_transaction(b, t),
        _ => b,
    }
}

/// The books after the directives, evaluated one after the other.
pub open spec fn run(ds: Seq<DirectiveView>) -> Books
    decreases ds.len(),
{
    if ds.len() == 0 {
        opening_books()
    } else {
        step(run(ds.drop_last()), ds.last())
    }
}

/// The transactions as directives.
pub open spec fn as_directives(ts: Seq<TransactionView>) -> Seq<DirectiveView> {
    ts.map_values(|t: TransactionView| DirectiveView::Transaction(t))
}

/// What the account holds of the currency.
fn holding(bals: &AccBal, account: &String, ccy: &String) -> (r: Decimal)
    requires
        balances_wf(bals),
    ensures
        r@ == held(bals@, account@, ccy@),
{
    match bals.get(account) {
        Some(inner) => match inner.get(ccy) {
            Some(n) => *n,
            None => Decimal::zero(),
        },
        None => Decimal::zero(),
    }
}

/// Evaluates the directives in their order: opens and closes accounts,
/// books transactions, and meets or reports balance assertions. Returns
/// what each account holds and the diagnostics. The transactions made from
/// pads join the directives, which are put in evaluation order again.
pub fn get_balances(dirs: &mut Vec<Directive>) -> (r: (AccBal, Vec<BeanError>))
    ensures
        balances_wf(&r.0),
        r.0@ == run(directives_view(old(dirs)@)).balances,
        errors_view(r.1@) == run(directives_view(old(dirs)@)).errors,
        directives_view(final(dirs)@) == sequenced(
            directives_view(old(dirs)@) + as_directives(
                run(directives_view(old(dirs)@)).synthesized,
            ),
        ),
{
    let ghost all = directives_view(dirs@);
    let mut bals: AccBal = Table::new();
    let mut accs: AccStatuses = Table::new();
    let mut errs: Vec<BeanError> = Vec::new();
    let mut pads: Pads = Table::new();
    let mut ptxs: Vec<Directive> = Vec::new();
    let ghost mut made: Seq<TransactionView> = Seq::empty();
    let mut i: usize = 0;
    proof {
        assert(errors_view(errs@) =~= Seq::<ErrorView>::empty());
        assert(directives_view(ptxs@) =~= as_directives(made));
    }
    while i < dirs.len()
        invariant
            i <= dirs.len(),
            all == directives_view(dirs@),
            balances_wf(&bals),
            accs.wf(),
            pads.wf(),
            directives_view(ptxs@) == as_directives(made),
            run(all.take(i as int)) == (Books {
                accounts: accs@,
                balances: bals@,
                pads: pads@,
                synthesized: made,
                errors: errors_view(errs@),
            }),
        decreases dirs.len() - i,
    {
        proof {
            assert(all.take(i + 1).drop_last() =~= all.take(i as int));
            assert(all.take(i + 1).last() == dirs@[i as int]@);
        }
        let ghost b = run(all.take(i as int));
        let ghost errs_before = errors_view(errs@);
        match &dirs[i] {
            Directive::Open(open) => {
                let reopened = match accs.get(&open.account) {
                    Some(status) => status.open,
                    None => false,
                };
                if reopened {
                    let msg = concat("Duplicate open directive for ", open.account.as_str());
                    let dir = Directive::Open(open.clone());
                    errs.push(
                        BeanError::new(ErrorType::DuplicateOpen, &open.debug, msg.as_str(), Some(&dir)),
                    );
                    assert(errors_view(errs@) =~= after_open(b, open@).errors);
                }
                accs.insert(
                    open.account.clone(),
                    AccountStatus { open: true, ccys: clone_texts(&open.ccys) },
                );
            },
            Directive::Close(close) => {
                let reclosed = match accs.get(&close.account) {
                    Some(status) => !status.open,
                    None => false,
                };
                if reclosed {
                    let msg = concat("Duplicate close directive for ", close.account.as_str());
                    let dir = Directive::Close(close.clone());
                    errs.push(
                        BeanError::new(
                            ErrorType::DuplicateClose,
                            &close.debug,
                            msg.as_str(),
                            Some(&dir),
                        ),
                    );
                    assert(errors_view(errs@) =~= after_close(b, close@).errors);
                }
                let none: Vec<Ccy> = Vec::new();
                assert(texts(none@) =~= Seq::<Seq<char>>::empty());
                accs.insert(close.account.clone(), AccountStatus { open: false, ccys: none });
            },
            Directive::Pad(pad) => {
                match pads.get(&pad.account_to) {
                    Some(state) => {
                        if !state.used {
                            let msg = concat("Multiple pads for ", pad.account_to.as_str());
                            let dir = Directive::Pad(state.pad.clone());
                            errs.push(
                                BeanError::new(
                                    ErrorType::UnusedPad,
                                    &state.pad.debug,
                                    msg.as_str(),
                                    Some(&dir),
                                ),
                            );
                            assert(errors_view(errs@) =~= after_pad(b, pad@).errors);
                        }
                    },
                    None => {},
                }
                pads.insert(pad.account_to.clone(), PadState { used: false, pad: pad.clone() });
            },
            Directive::Balance(bal) => {
                let accumulated = holding(&bals, &bal.account, &bal.amount.ccy);
                let diff = bal.amount.number.sub(accumulated);
                if beyond_tolerance(diff) {
                    let drawn: Option<Pad> = match pads.get(&bal.account) {
                        Some(state) => Some(state.pad.clone()),
                        None => None,
                    };
                    match drawn {
                        Some(pad) => {
                            let amount = Amount::new(diff, bal.amount.ccy.clone());
                            let newtx = Transaction::from_pad(pad.clone(), amount);
                            assert(newtx@ == padding(b, bal@));
                            pads.insert(bal.account.clone(), PadState { used: true, pad });
                            proc_tx(&newtx, &mut bals, &mut accs, &mut errs);
                            let ghost ptxs_before = directives_view(ptxs@);
                            proof {
                                made = made.push(newtx@);
                            }
                            ptxs.push(Directive::Transaction(newtx));
                            assert(directives_view(ptxs@) =~= ptxs_before.push(
                                DirectiveView::Transaction(padding(b, bal@)),
                            ));
                            assert(directives_view(ptxs@) =~= as_directives(made));
                        },
                        None => {
                            let mut msg = concat(
                                "Balance assertion failed: asserted ",
                                bal.amount.number.to_text().as_str(),
                            );
                            msg.append(" is not equal to ");
                            msg.append(accumulated.to_text().as_str());
                            let dir = Directive::Balance(bal.clone());
                            errs.push(
                                BeanError::new(
                                    ErrorType::BalanceAssertion,
                                    &bal.debug,
                                    msg.as_str(),
                                    Some(&dir),
                                ),
                            );
                            assert(errors_view(errs@) =~= errs_before.push(assertion_error(b, bal@)));
                        },
                    }
                }
            },
            Directive::Transaction(tx) => {
                proc_tx(tx, &mut bals, &mut accs, &mut errs);
            },
            _ => {},
        }
        i += 1;
    }
    proof {
        assert(all.take(i as int) =~= all);
    }
    let ghost inp = directives_view(dirs@);
    let ghost added = directives_view(ptxs@);
    dirs.append(&mut ptxs);
    assert(directives_view(dirs@) =~= inp + added);
    sort(dirs);
    (bals, errs)
}

/// Where every posting has an amount, all postings are priced.
proof fn lemma_priced_all(ps: Seq<PostingView>)
    requires
        elided_count(ps) == 0,
    ensures
        priced(ps) == ps,
    decreases ps.len(),
{
    if ps.len() > 0 {
        lemma_priced_all(ps.drop_last());
        assert(ps.drop_last().push(ps.last()) =~= ps);
    } else {
        assert(priced(ps) =~= ps);
    }
}

/// Counting postings without an amount goes through concatenation.
proof fn lemma_elided_count_add(a: Seq<PostingView>, b: Seq<PostingView>)
    ensures
        elided_count(a + b) == elided_count(a) + elided_count(b),
    decreases b.len(),
{
    if b.len() == 0 {
        assert(a + b =~= a);
    } else {
        assert((a + b).drop_last() =~= a + b.drop_last());
        assert((a + b).last() == b.last());
        lemma_elided_count_add(a, b.drop_last());
    }
}

/// The priced postings all have an amount.
proof fn lemma_priced_complete(ps: Seq<PostingView>)
    ensures
        elided_count(priced(ps)) == 0,
    decreases ps.len(),
{
    if ps.len() > 0 {
        lemma_priced_complete(ps.drop_last());
        if ps.last().amount is Some {
            let before = priced(ps.drop_last());
            assert(before.push(ps.last()).drop_last() =~= before);
        }
    }
}

/// The postings that make up for the sums all have an amount.
proof fn lemma_plugs_complete(account: Seq<char>, ps: Seq<PostingView>, ccys: Seq<Seq<char>>)
    ensures
        elided_count(plugs(account, ps, ccys)) == 0,
    decreases ccys.len(),
{
    if ccys.len() > 0 {
        lemma_plugs_complete(account, ps, ccys.drop_last());
        let before = plugs(account, ps, ccys.drop_last());
        let sum = currency_sum(ps, ccys.last());
        if exceeds_tolerance(sum) {
            assert(before.push(plug(account, ccys.last(), sum)).drop_last() =~= before);
        }
    }
}

/// Completing a transaction a second time changes nothing and reports
/// nothing new: the completed postings are their own completion. In
/// particular a transaction whose postings all have an amount keeps its
/// postings as they are.
pub proof fn law_completion_idempotent(ps: Seq<PostingView>)
    ensures
        completed(completed(ps)) == completed(ps),
        elided_count(ps) == 0 ==> completed(ps) == ps,
        elided_count(ps) <= 1 ==> elided_count(completed(ps)) == 0,
{
    if elided_count(ps) <= 1 {
        lemma_priced_complete(ps);
        lemma_plugs_complete(elided_account(ps), ps, currencies(ps));
        lemma_elided_count_add(priced(ps), plugs(elided_account(ps), ps, currencies(ps)));
        lemma_priced_all(completed(ps));
        if elided_count(ps) == 0 {
            lemma_priced_all(ps);
        }
    }
}

/// A transaction that was complete and balanced is reported nothing about
/// and keeps its postings, however often it is booked.
pub proof fn law_booking_settled(t: TransactionView)
    requires
        elided_count(t.postings) == 0,
        is_balanced(t.postings),
    ensures
        with_postings(t, completed(t.postings)) == t,
        transaction_errors(t) == Seq::<ErrorView>::empty(),
{
    law_completion_idempotent(t.postings);
    law_balanced_unreported(t);
    assert(transaction_errors(t) =~= Seq::<ErrorView>::empty());
}

/// The currencies that are reported are those whose sums are beyond the
/// tolerance.
proof fn lemma_unbalanced_errors(t: TransactionView, ccys: Seq<Seq<char>>)
    ensures
        unbalanced_errors(t, ccys).len() == 0 <==> (forall|i: int|
            0 <= i < ccys.len() ==> !exceeds_tolerance(currency_sum(t.postings, #[trigger] ccys[i]))),
        forall|i: int|
            0 <= i < unbalanced_errors(t, ccys).len() ==> (#[trigger] unbalanced_errors(
                t,
                ccys,
            )[i]).ty == ErrorType::UnbalancedTransaction,
    decreases ccys.len(),
{
    if ccys.len() > 0 {
        lemma_unbalanced_errors(t, ccys.drop_last());
        let before = unbalanced_errors(t, ccys.drop_last());
        if unbalanced_errors(t, ccys).len() == 0 {
            assert forall|i: int| 0 <= i < ccys.len() implies !exceeds_tolerance(
                currency_sum(t.postings, #[trigger] ccys[i]),
            ) by {
                if i < ccys.len() - 1 {
                    assert(ccys.drop_last()[i] == ccys[i]);
                }
            }
        }
        if forall|i: int|
            0 <= i < ccys.len() ==> !exceeds_tolerance(currency_sum(t.postings, #[trigger] ccys[i])) {
            assert(ccys.last() == ccys[ccys.len() - 1]);
            assert forall|i: int| 0 <= i < ccys.drop_last().len() implies !exceeds_tolerance(
                currency_sum(t.postings, #[trigger] ccys.drop_last()[i]),
            ) by {
                assert(ccys.drop_last()[i] == ccys[i]);
            }
        }
    }
}

/// A transaction is reported as unbalanced in no currency exactly when, in
/// each currency that it has, its postings sum to zero within the
/// tolerance.
pub proof fn law_balanced_unreported(t: TransactionView)
    ensures
        check_errors(t) == Seq::<ErrorView>::empty() <==> is_balanced(t.postings),
{
    lemma_unbalanced_errors(t, currencies(t.postings));
    if check_errors(t).len() == 0 {
        assert(check_errors(t) =~= Seq::<ErrorView>::empty());
    }
}

/// A transaction with two or more postings without an amount keeps its
/// postings as they are and is reported once as having several such
/// postings: that diagnostic comes first, and all that follow are of
/// unbalanced currencies.
pub proof fn law_several_elided(t: TransactionView)
    requires
        elided_count(t.postings) >= 2,
    ensures
        with_postings(t, completed(t.postings)) == t,
        transaction_errors(t).len() >= 1,
        transaction_errors(t)[0] == diagnostic(
            ErrorType::MultipleEmptyPostings,
            t.line,
            "Found multiple empty postings for Transaction:"@,
            Some(DirectiveView::Transaction(t)),
        ),
        forall|i: int|
            1 <= i < transaction_errors(t).len() ==> (#[trigger] transaction_errors(t)[i]).ty
                == ErrorType::UnbalancedTransaction,
{
    lemma_unbalanced_errors(t, currencies(t.postings));
    assert forall|i: int| 1 <= i < transaction_errors(t).len() implies (#[trigger] transaction_errors(
        t,
    )[i]).ty == ErrorType::UnbalancedTransaction by {
        assert(transaction_errors(t)[i] == check_errors(t)[i - 1]);
    }
}

/// Whether the directive opens or closes the account.
pub open spec fn touches_account(d: DirectiveView, account: Seq<char>) -> bool {
    match d {
        DirectiveView::Open(o) => o.account == account,
        DirectiveView::Close(c) => c.account == account,
        _ => false,
    }
}

/// Booking postings leaves the accounts as they are: only opens and closes
/// change them.
proof fn lemma_accounts_kept(b: Books, d: DirectiveView, account: Seq<char>)
    requires
        !touches_account(d, account),
    ensures
        step(b, d).accounts.dom().contains(account) == b.accounts.dom().contains(account),
        b.accounts.dom().contains(account) ==> step(b, d).accounts[account] == b.accounts[account],
{
}

/// Directives that neither open nor close an account leave its status as
/// it was.
proof fn lemma_status_kept(ds: Seq<DirectiveView>, rest: Seq<DirectiveView>, account: Seq<char>)
    requires
        forall|i: int| 0 <= i < rest.len() ==> !touches_account(#[trigger] rest[i], account),
    ensures
        run(ds + rest).accounts.dom().contains(account) == run(ds).accounts.dom().contains(account),
        run(ds).accounts.dom().contains(account) ==> run(ds + rest).accounts[account] == run(
            ds,
        ).accounts[account],
    decreases rest.len(),
{
    if rest.len() == 0 {
        assert(ds + rest =~= ds);
    } else {
        assert((ds + rest).drop_last() =~= ds + rest.drop_last());
        assert((ds + rest).last() == rest[rest.len() - 1]);
        assert forall|i: int| 0 <= i < rest.drop_last().len() implies !touches_account(
            #[trigger] rest.drop_last()[i],
            account,
        ) by {
            assert(rest.drop_last()[i] == rest[i]);
        }
        lemma_status_kept(ds, rest.drop_last(), account);
        lemma_accounts_kept(run(ds + rest.drop_last()), rest.last(), account);
    }
}

/// A posting to an account that no directive has opened or closed is
/// reported: there is no such account.
pub proof fn law_unopened_account(
    ds: Seq<DirectiveView>,
    t: TransactionView,
    account: Seq<char>,
    amount: AmountView,
)
    requires
        forall|i: int| 0 <= i < ds.len() ==> !touches_account(#[trigger] ds[i], account),
    ensures
        posting_error(run(ds).accounts, t, account, amount) == Some(
            diagnostic(
                ErrorType::NoAccount,
                t.line,
                "Transaction referred to non-existent Account: "@ + account,
                Some(DirectiveView::Transaction(t)),
            ),
        ),
{
    let none = Seq::<DirectiveView>::empty();
    assert(none + ds =~= ds);
    lemma_status_kept(none, ds, account);
}

/// After a close, and until a directive opens the account again, a posting
/// to the account is reported: the account is closed.
pub proof fn law_closed_account(
    ds: Seq<DirectiveView>,
    c: CloseView,
    rest: Seq<DirectiveView>,
    t: TransactionView,
    amount: AmountView,
)
    requires
        forall|i: int| 0 <= i < rest.len() ==> !touches_account(#[trigger] rest[i], c.account),
    ensures
        posting_error(
            run(ds.push(DirectiveView::Close(c)) + rest).accounts,
            t,
            c.account,
            amount,
        ) == Some(
            diagnostic(
                ErrorType::ClosedAccount,
                t.line,
                "Transaction referred to closed Account: "@ + c.account,
                Some(DirectiveView::Transaction(t)),
            ),
        ),
{
    let closed = ds.push(DirectiveView::Close(c));
    assert(closed.drop_last() =~= ds);
    assert(closed.last() == DirectiveView::Close(c));
    lemma_status_kept(closed, rest, c.account);
}

/// A posting in a currency that its open account was not opened for is
/// reported, and one in a currency that it was opened for is booked.
pub proof fn law_currency_restriction(
    b: Books,
    o: OpenView,
    t: TransactionView,
    amount: AmountView,
)
    ensures
        o.ccys.len() > 0 && !o.ccys.contains(amount.ccy) ==> posting_error(
            after_open(b, o).accounts,
            t,
            o.account,
            amount,
        ) == Some(
            diagnostic(
                ErrorType::InvalidCcy,
                t.line,
                "Invalid currency "@ + amount.ccy + " for "@ + o.account,
                Some(DirectiveView::Transaction(t)),
            ),
        ),
        o.ccys.len() == 0 || o.ccys.contains(amount.ccy) ==> posting_error(
            after_open(b, o).accounts,
            t,
            o.account,
            amount,
        ) is None,
{
}

/// A balance assertion that fails and that no pad covers leaves the
/// balances as they were.
pub proof fn law_failed_assertion_keeps_balances(b: Books, a: BalanceView)
    requires
        !b.pads.dom().contains(a.account),
    ensures
        after_balance(b, a).balances == b.balances,
        exceeds_tolerance(shortfall(b, a)) ==> after_balance(b, a).errors == b.errors.push(
            assertion_error(b, a),
        ),
{
}

} // verus!
