//! The order in which the directives of a ledger are evaluated.

use vstd::prelude::*;
use crate::data::{
    Balance, Close, Commodity, ConfigCustom, Directive, DirectiveView, Document, Note, Open,
    Options, Pad, Price, Query, Transaction, directives_view,
};
use crate::date::{Date, date_before};
use crate::entry::{
    Entry, Rule, balance_parsed, close_parsed, commodity_parsed, configcustom_parsed,
    document_parsed, note_parsed, open_parsed, options_updated, pad_parsed, price_parsed,
    query_parsed, transaction_parsed,
};
use crate::error::{BeanError, ErrorType, ErrorView, diagnostic, errors_view};
use crate::ledger::{Ledger, LedgerView};

verus! {

/// Whether `a` may stand before `b`: its day is earlier, or it is the same
/// day and its rank is not higher.
pub open spec fn may_precede(a: DirectiveView, b: DirectiveView) -> bool {
    date_before(a.date(), b.date()) || (a.date() == b.date() && a.order() <= b.order())
}

/// Whether each directive may stand before all that follow it.
pub open spec fn is_sequenced(s: Seq<DirectiveView>) -> bool {
    forall|i: int, j: int| 0 <= i < j < s.len() ==> may_precede(#[trigger] s[i], #[trigger] s[j])
}

/// The directives of `s` with the given day and rank, in the order of `s`.
pub open spec fn with_key(s: Seq<DirectiveView>, date: Date, order: int) -> Seq<DirectiveView>
    decreases s.len(),
{
    if s.len() == 0 {
        Seq::empty()
    } else if s.last().date() == date && s.last().order() == order {
        with_key(s.drop_last(), date, order).push(s.last())
    } else {
        with_key(s.drop_last(), date, order)
    }
}

/// Whether `out` is `inp` in evaluation order: sequenced, and for each day
/// and rank holding the same directives in the same order as `inp`. There is
/// one such `out` for each `inp`: `sequenced(inp)`.
pub open spec fn is_sequencing_of(out: Seq<DirectiveView>, inp: Seq<DirectiveView>) -> bool {
    &&& out.len() == inp.len()
    &&& is_sequenced(out)
    &&& forall|date: Date, order: int| #[trigger]
        with_key(out, date, order) == with_key(inp, date, order)
}

/// The directives in evaluation order: by day, those of one day by rank,
/// and those of one day and rank in the order in which they stand.
pub open spec fn sequenced(inp: Seq<DirectiveView>) -> Seq<DirectiveView> {
    choose|out: Seq<DirectiveView>| is_sequencing_of(out, inp)
}

/// Selecting by day and rank goes through concatenation.
proof fn lemma_with_key_add(a: Seq<DirectiveView>, b: Seq<DirectiveView>, date: Date, order: int)
    ensures
        with_key(a + b, date, order) == with_key(a, date, order) + with_key(b, date, order),
    decreases b.len(),
{
    if b.len() == 0 {
        assert(a + b =~= a);
        assert(with_key(a, date, order) + with_key(b, date, order) =~= with_key(a, date, order));
    } else {
        assert((a + b).drop_last() =~= a + b.drop_last());
        assert((a + b).last() == b.last());
        lemma_with_key_add(a, b.drop_last(), date, order);
        assert(with_key(a + b, date, order) =~= with_key(a, date, order) + with_key(
            b,
            date,
            order,
        ));
    }
}

/// Where no directive has the day and rank, none is selected.
proof fn lemma_with_key_none(s: Seq<DirectiveView>, date: Date, order: int)
    requires
        forall|i: int| 0 <= i < s.len() ==> !(#[trigger] s[i].date() == date && s[i].order() == order),
    ensures
        with_key(s, date, order) == Seq::<DirectiveView>::empty(),
    decreases s.len(),
{
    if s.len() > 0 {
        assert(s.last() == s[s.len() - 1]);
        lemma_with_key_none(s.drop_last(), date, order);
    }
}

/// Selecting from one directive gives it or nothing.
proof fn lemma_with_key_one(x: DirectiveView, date: Date, order: int)
    ensures
        with_key(seq![x], date, order) == if x.date() == date && x.order() == order {
            seq![x]
        } else {
            Seq::<DirectiveView>::empty()
        },
{
    let s = seq![x];
    assert(s.drop_last() =~= Seq::<DirectiveView>::empty());
    assert(s.last() == x);
    assert(with_key(s.drop_last(), date, order) =~= Seq::<DirectiveView>::empty());
    if x.date() == date && x.order() == order {
        assert(with_key(s, date, order) =~= seq![x]);
    }
}

/// Whether `a` has to stand behind `b`.
fn must_follow(a: &Directive, b: &Directive) -> (r: bool)
    ensures
        r == !may_precede(a@, b@),
{
    let da = a.date();
    let db = b.date();
    if da.before(db) {
        false
    } else if db.before(da) {
        true
    } else {
        a.order() > b.order()
    }
}

/// Puts the directives in evaluation order: by day, those of one day by
/// rank, and those of one day and rank as they stood.
pub fn sort(dirs: &mut Vec<Directive>)
    ensures
        directives_view(final(dirs)@) == sequenced(directives_view(old(dirs)@)),
        is_sequencing_of(directives_view(final(dirs)@), directives_view(old(dirs)@)),
{
    let ghost orig = directives_view(dirs@);
    let mut out: Vec<Directive> = Vec::new();
    proof {
        assert(directives_view(out@) =~= Seq::<DirectiveView>::empty());
        assert forall|date: Date, order: int|
            #[trigger] with_key(directives_view(out@), date, order) + with_key(
                directives_view(dirs@),
                date,
                order,
            ) == with_key(orig, date, order) by {
            assert(with_key(directives_view(out@), date, order) + with_key(orig, date, order)
                =~= with_key(orig, date, order));
        }
    }
    while dirs.len() > 0
        invariant
            is_sequenced(directives_view(out@)),
            out@.len() + dirs@.len() == orig.len(),
            forall|date: Date, order: int|
                #[trigger] with_key(directives_view(out@), date, order) + with_key(
                    directives_view(dirs@),
                    date,
                    order,
                ) == with_key(orig, date, order),
        decreases dirs.len(),
    {
        let ghost rest = directives_view(dirs@);
        let ghost placed = directives_view(out@);
        let x = dirs.remove(0);
        let mut j: usize = 0;
        while j < out.len() && !must_follow(&out[j], &x)
            invariant
                j <= out.len(),
                forall|k: int| 0 <= k < j ==> may_precede(#[trigger] out@[k]@, x@),
            decreases out.len() - j,
        {
            j += 1;
        }
        let ghost xv = x@;
        out.insert(j, x);
        proof {
            let now = directives_view(out@);
            let head = placed.subrange(0, j as int);
            let tail = placed.subrange(j as int, placed.len() as int);
            let rest_now = directives_view(dirs@);
            assert(now =~= head + seq![xv] + tail);
            assert(placed =~= head + tail);
            assert(rest =~= seq![xv] + rest_now);
            assert forall|k: int| 0 <= k < tail.len() implies !may_precede(
                #[trigger] tail[k],
                xv,
            ) by {
                assert(tail[k] == placed[j + k]);
                assert(!may_precede(placed[j as int], xv));
                if k > 0 {
                    assert(may_precede(placed[j as int], placed[j + k]));
                }
            }
            assert forall|a: int, b: int| 0 <= a < b < now.len() implies may_precede(
                #[trigger] now[a],
                #[trigger] now[b],
            ) by {
                if a < j && b == j {
                    assert(now[a] == placed[a]);
                } else if a < j && b > j {
                    assert(now[a] == placed[a]);
                    assert(now[b] == placed[b - 1]);
                } else if a == j {
                    assert(now[b] == tail[b - j - 1]);
                } else if a > j {
                    assert(now[a] == placed[a - 1]);
                    assert(now[b] == placed[b - 1]);
                } else {
                    assert(now[a] == placed[a]);
                    assert(now[b] == placed[b]);
                }
            }
            assert forall|date: Date, order: int|
                #[trigger] with_key(now, date, order) + with_key(rest_now, date, order)
                    == with_key(orig, date, order) by {
                lemma_with_key_add(head + seq![xv], tail, date, order);
                lemma_with_key_add(head, seq![xv], date, order);
                lemma_with_key_add(head, tail, date, order);
                lemma_with_key_add(seq![xv], rest_now, date, order);
                lemma_with_key_one(xv, date, order);
                assert(with_key(placed, date, order) + with_key(rest, date, order) == with_key(
                    orig,
                    date,
                    order,
                ));
                if xv.date() == date && xv.order() == order {
                    lemma_with_key_none(tail, date, order);
                }
                assert(with_key(now, date, order) + with_key(rest_now, date, order) =~= with_key(
                    placed,
                    date,
                    order,
                ) + with_key(rest, date, order));
            }
        }
    }
    proof {
        assert(directives_view(dirs@) =~= Seq::<DirectiveView>::empty());
        assert forall|date: Date, order: int| #[trigger]
            with_key(directives_view(out@), date, order) == with_key(orig, date, order) by {
            assert(with_key(directives_view(out@), date, order) + with_key(
                directives_view(dirs@),
                date,
                order,
            ) == with_key(orig, date, order));
            assert(with_key(directives_view(out@), date, order) + Seq::<DirectiveView>::empty()
                =~= with_key(directives_view(out@), date, order));
        }
        assert(is_sequencing_of(directives_view(out@), orig));
        law_sequencing_unique(directives_view(out@), sequenced(orig), orig);
    }
    *dirs = out;
}

/// In evaluation order, of two directives of one day an open stands before
/// a transaction and a transaction before a close, and of two directives of
/// different days the one of the earlier day stands first, whatever order
/// they came in.
pub proof fn law_open_transaction_close(s: Seq<DirectiveView>, i: int, j: int)
    requires
        is_sequenced(s),
        0 <= i < s.len(),
        0 <= j < s.len(),
    ensures
        s[i].date() == s[j].date() && s[i] is Open && s[j] is Transaction ==> i < j,
        s[i].date() == s[j].date() && s[i] is Transaction && s[j] is Close ==> i < j,
        s[i].date() == s[j].date() && s[i] is Open && s[j] is Close ==> i < j,
        date_before(s[i].date(), s[j].date()) ==> i < j,
{
    if j < i {
        assert(may_precede(s[j], s[i]));
    }
}

/// Each directive of the input stands somewhere in the evaluation order.
pub proof fn law_sequencing_keeps(out: Seq<DirectiveView>, inp: Seq<DirectiveView>, i: int)
    requires
        is_sequencing_of(out, inp),
        0 <= i < inp.len(),
    ensures
        out.contains(inp[i]),
{
    let d = inp[i];
    lemma_with_key_holds(inp, i);
    assert(with_key(out, d.date(), d.order()) == with_key(inp, d.date(), d.order()));
    lemma_with_key_within(out, d.date(), d.order(), d);
}

/// A directive is among those selected by its own day and rank.
proof fn lemma_with_key_holds(s: Seq<DirectiveView>, i: int)
    requires
        0 <= i < s.len(),
    ensures
        with_key(s, s[i].date(), s[i].order()).contains(s[i]),
    decreases s.len(),
{
    let date = s[i].date();
    let order = s[i].order();
    if i == s.len() - 1 {
        let sel = with_key(s, date, order);
        assert(sel.last() == s[i]);
        assert(sel[sel.len() - 1] == s[i]);
    } else {
        lemma_with_key_holds(s.drop_last(), i);
        let before = with_key(s.drop_last(), date, order);
        let k = choose|k: int| 0 <= k < before.len() && before[k] == s[i];
        assert(with_key(s, date, order)[k] == s[i]);
    }
}

/// What is selected from a list is in the list.
proof fn lemma_with_key_within(s: Seq<DirectiveView>, date: Date, order: int, d: DirectiveView)
    requires
        with_key(s, date, order).contains(d),
    ensures
        s.contains(d),
    decreases s.len(),
{
    if s.len() > 0 {
        let sel = with_key(s, date, order);
        let k = choose|k: int| 0 <= k < sel.len() && sel[k] == d;
        let before = with_key(s.drop_last(), date, order);
        if k < before.len() {
            assert(before[k] == d);
            lemma_with_key_within(s.drop_last(), date, order, d);
            let m = choose|m: int| 0 <= m < s.drop_last().len() && s.drop_last()[m] == d;
            assert(s[m] == d);
        } else {
            assert(s[s.len() - 1] == d);
        }
    }
}

/// The ledger with one more directive.
pub open spec fn with_directive(l: LedgerView, d: DirectiveView) -> LedgerView {
    LedgerView {
        dirs: l.dirs.push(d),
        errs: l.errs,
        title: l.title,
        operating_currency: l.operating_currency,
    }
}

/// The directive in an entry, if the entry is of a kind that holds one and
/// can be read.
pub open spec fn directive_parsed(e: Entry) -> Option<DirectiveView> {
    match e.rule {
        Rule::Custom => Some(DirectiveView::ConfigCustom(configcustom_parsed(e))),
        Rule::Query => match query_parsed(e) {
            Some(d) => Some(DirectiveView::Query(d)),
            None => None,
        },
        Rule::Commodity => match commodity_parsed(e) {
            Some(d) => Some(DirectiveView::Commodity(d)),
            None => None,
        },
        Rule::Open => match open_parsed(e) {
            Some(d) => Some(DirectiveView::Open(d)),
            None => None,
        },
        Rule::Close => match close_parsed(e) {
            Some(d) => Some(DirectiveView::Close(d)),
            None => None,
        },
        Rule::Balance => match balance_parsed(e) {
            Some(d) => Some(DirectiveView::Balance(d)),
            None => None,
        },
        Rule::Pad => match pad_parsed(e) {
            Some(d) => Some(DirectiveView::Pad(d)),
            None => None,
        },
        Rule::Price => match price_parsed(e) {
            Some(d) => Some(DirectiveView::Price(d)),
            None => None,
        },
        Rule::Document => match document_parsed(e) {
            Some(d) => Some(DirectiveView::Document(d)),
            None => None,
        },
        Rule::Note => match note_parsed(e) {
            Some(d) => Some(DirectiveView::Note(d)),
            None => None,
        },
        Rule::Transaction => match transaction_parsed(e) {
            Some(d) => Some(DirectiveView::Transaction(d)),
            None => None,
        },
        _ => None,
    }
}

/// The ledger after one more entry. An option is set, the end of the input
/// changes nothing, a line that is no directive is reported, and an entry
/// of a directive adds the directive. Nothing where the entry is of another
/// kind or cannot be read.
pub open spec fn absorbed(l: LedgerView, e: Entry) -> Option<LedgerView> {
    match e.rule {
        Rule::Option => match options_updated(l.title, l.operating_currency, e) {
            Some(o) => Some(
                LedgerView { dirs: l.dirs, errs: l.errs, title: o.0, operating_currency: o.1 },
            ),
            None => None,
        },
        Rule::EOI => Some(l),
        Rule::Badline => Some(
            LedgerView {
                dirs: l.dirs,
                errs: l.errs.push(
                    diagnostic(ErrorType::Badline, e.line as nat, "Found unparseable line"@, None),
                ),
                title: l.title,
                operating_currency: l.operating_currency,
            },
        ),
        _ => match directive_parsed(e) {
            Some(d) => Some(with_directive(l, d)),
            None => None,
        },
    }
}

/// The ledger that the entries hold, read one after the other; nothing
/// where one of them cannot be read.
pub open spec fn consumed(s: Seq<Entry>) -> Option<LedgerView>
    decreases s.len(),
{
    if s.len() == 0 {
        Some(
            LedgerView {
                dirs: Seq::empty(),
                errs: Seq::empty(),
                title: Seq::empty(),
                operating_currency: Seq::empty(),
            },
        )
    } else {
        match consumed(s.drop_last()) {
            Some(l) => absorbed(l, s.last()),
            None => None,
        }
    }
}

/// Where the first entries cannot be read, all cannot.
proof fn lemma_unread(s: Seq<Entry>, n: int)
    requires
        0 <= n <= s.len(),
        consumed(s.take(n)) is None,
    ensures
        consumed(s) is None,
    decreases s.len() - n,
{
    if n < s.len() {
        assert(s.take(n + 1).drop_last() =~= s.take(n));
        lemma_unread(s, n + 1);
    } else {
        assert(s.take(n) =~= s);
    }
}

/// The directive in an entry of a kind that holds one.
fn directive_from_entry(entry: &Entry) -> (r: Option<Directive>)
    ensures
        match directive_parsed(*entry) {
            Some(v) => r matches Some(d) && d@ == v,
            None => r is None,
        },
{
    match entry.rule {
        Rule::Custom => Some(Directive::ConfigCustom(ConfigCustom::from_entry(entry))),
        Rule::Query => match Query::from_entry(entry) {
            Some(d) => Some(Directive::Query(d)),
            None => None,
        },
        Rule::Commodity => match Commodity::from_entry(entry) {
            Some(d) => Some(Directive::Commodity(d)),
            None => None,
        },
        Rule::Open => match Open::from_entry(entry) {
            Some(d) => Some(Directive::Open(d)),
            None => None,
        },
        Rule::Close => match Close::from_entry(entry) {
            Some(d) => Some(Directive::Close(d)),
            None => None,
        },
        Rule::Balance => match Balance::from_entry(entry) {
            Some(d) => Some(Directive::Balance(d)),
            None => None,
        },
        Rule::Pad => match Pad::from_entry(entry) {
            Some(d) => Some(Directive::Pad(d)),
            None => None,
        },
        Rule::Price => match Price::from_entry(entry) {
            Some(d) => Some(Directive::Price(d)),
            None => None,
        },
        Rule::Document => match Document::from_entry(entry) {
            Some(d) => Some(Directive::Document(d)),
            None => None,
        },
        Rule::Note => match Note::from_entry(entry) {
            Some(d) => Some(Directive::Note(d)),
            None => None,
        },
        Rule::Transaction => match Transaction::from_entry(entry) {
            Some(d) => Some(Directive::Transaction(d)),
            None => None,
        },
        _ => None,
    }
}

/// Reads the ledger that the entries hold: its directives in the order of
/// the entries, a diagnostic for each line that is no directive, and its
/// options. Returns nothing where an entry is of a kind that holds no
/// record or cannot be read.
pub fn consume(entries: &Vec<Entry>) -> (r: Option<Ledger>)
    ensures
        match consumed(entries@) {
            Some(v) => r matches Some(l) && l@ == v,
            None => r is None,
        },
{
    let mut errs: Vec<BeanError> = Vec::new();
    let mut dirs: Vec<Directive> = Vec::new();
    let mut opts = Options::default();
    let mut i: usize = 0;
    proof {
        assert(directives_view(dirs@) =~= Seq::<DirectiveView>::empty());
        assert(errors_view(errs@) =~= Seq::<ErrorView>::empty());
        assert(entries@.take(0) =~= Seq::<Entry>::empty());
    }
    while i < entries.len()
        invariant
            i <= entries.len(),
            consumed(entries@.take(i as int)) == Some(
                LedgerView {
                    dirs: directives_view(dirs@),
                    errs: errors_view(errs@),
                    title: opts.title@,
                    operating_currency: opts.operating_currency@,
                },
            ),
        decreases entries.len() - i,
    {
        proof {
            assert(entries@.take(i + 1).drop_last() =~= entries@.take(i as int));
            assert(entries@.take(i + 1).last() == entries@[i as int]);
        }
        let ghost dirs_before = directives_view(dirs@);
        let ghost errs_before = errors_view(errs@);
        let entry = &entries[i];
        match entry.rule {
            Rule::Option => {
                if !opts.update_from_entry(entry) {
                    proof {
                        lemma_unread(entries@, i + 1);
                    }
                    return None;
                }
            },
            Rule::EOI => {},
            Rule::Badline => {
                let debug = crate::data::DebugLine::new(entry.line);
                errs.push(BeanError::new(ErrorType::Badline, &debug, "Found unparseable line", None));
                assert(errors_view(errs@) =~= errs_before.push(
                    diagnostic(ErrorType::Badline, entry.line as nat, "Found unparseable line"@, None),
                ));
            },
            _ => {
                match directive_from_entry(entry) {
                    Some(d) => {
                        dirs.push(d);
                        assert(directives_view(dirs@) =~= dirs_before.push(
                            directive_parsed(*entry)->0,
                        ));
                    },
                    None => {
                        proof {
                            lemma_unread(entries@, i + 1);
                        }
                        return None;
                    },
                }
            },
        }
        i += 1;
    }
    proof {
        assert(entries@.take(i as int) =~= entries@);
    }
    Some(Ledger { dirs, errs, opts })
}

/// The evaluation order of a list is unique: two lists that are both the
/// list in evaluation order are the same.
pub proof fn law_sequencing_unique(a: Seq<DirectiveView>, b: Seq<DirectiveView>, inp: Seq<DirectiveView>)
    requires
        is_sequencing_of(a, inp),
        is_sequencing_of(b, inp),
    ensures
        a == b,
{
    assert forall|date: Date, order: int| #[trigger]
        with_key(a, date, order) == with_key(b, date, order) by {
        assert(with_key(a, date, order) == with_key(inp, date, order));
        assert(with_key(b, date, order) == with_key(inp, date, order));
    }
    lemma_same_selections(a, b);
}

/// Two sequenced lists of one length from which each day and rank selects
/// the same are the same.
proof fn lemma_same_selections(a: Seq<DirectiveView>, b: Seq<DirectiveView>)
    requires
        a.len() == b.len(),
        is_sequenced(a),
        is_sequenced(b),
        forall|date: Date, order: int| #[trigger]
            with_key(a, date, order) == with_key(b, date, order),
    ensures
        a == b,
    decreases a.len(),
{
    if a.len() == 0 {
        assert(a =~= b);
    } else {
        let x = a.last();
        let y = b.last();
        let in_a = with_key(a, x.date(), x.order());
        let in_b = with_key(b, y.date(), y.order());
        assert(in_a.last() == x);
        assert(in_b.last() == y);
        // The last of `a` occurs in `b`, and the last of `b` in `a`.
        assert(with_key(b, x.date(), x.order()) == in_a);
        assert(in_a[in_a.len() - 1] == x);
        assert(with_key(b, x.date(), x.order()).contains(x));
        lemma_with_key_within(b, x.date(), x.order(), x);
        let p = choose|p: int| 0 <= p < b.len() && b[p] == x;
        assert(with_key(a, y.date(), y.order()) == in_b);
        assert(in_b[in_b.len() - 1] == y);
        assert(with_key(a, y.date(), y.order()).contains(y));
        lemma_with_key_within(a, y.date(), y.order(), y);
        let q = choose|q: int| 0 <= q < a.len() && a[q] == y;
        // So each may stand before the other: they have one day and rank.
        if p < b.len() - 1 {
            assert(may_precede(b[p], b[b.len() - 1]));
        }
        if q < a.len() - 1 {
            assert(may_precede(a[q], a[a.len() - 1]));
        }
        assert(x.date() == y.date() && x.order() == y.order());
        assert(x == y);
        let a0 = a.drop_last();
        let b0 = b.drop_last();
        assert forall|i: int, j: int| 0 <= i < j < a0.len() implies may_precede(
            #[trigger] a0[i],
            #[trigger] a0[j],
        ) by {
            assert(a0[i] == a[i] && a0[j] == a[j]);
        }
        assert forall|i: int, j: int| 0 <= i < j < b0.len() implies may_precede(
            #[trigger] b0[i],
            #[trigger] b0[j],
        ) by {
            assert(b0[i] == b[i] && b0[j] == b[j]);
        }
        assert forall|date: Date, order: int| #[trigger]
            with_key(a0, date, order) == with_key(b0, date, order) by {
            assert(with_key(a, date, order) == with_key(b, date, order));
            if x.date() == date && x.order() == order {
                assert(with_key(a, date, order).drop_last() =~= with_key(a0, date, order));
                assert(with_key(b, date, order).drop_last() =~= with_key(b0, date, order));
            }
        }
        lemma_same_selections(a0, b0);
        assert(a =~= a0.push(x));
        assert(b =~= b0.push(y));
    }
}

/// The place in a sequenced list behind all that may stand before `x`.
proof fn lemma_place(s: Seq<DirectiveView>, x: DirectiveView) -> (j: int)
    requires
        is_sequenced(s),
    ensures
        0 <= j <= s.len(),
        forall|k: int| 0 <= k < j ==> may_precede(#[trigger] s[k], x),
        forall|k: int| j <= k < s.len() ==> !may_precede(#[trigger] s[k], x),
    decreases s.len(),
{
    if s.len() == 0 {
        0
    } else if may_precede(s.last(), x) {
        assert forall|k: int| 0 <= k < s.len() implies may_precede(#[trigger] s[k], x) by {
            if k < s.len() - 1 {
                assert(may_precede(s[k], s[s.len() - 1]));
            }
        }
        s.len() as int
    } else {
        let s0 = s.drop_last();
        assert forall|a: int, b: int| 0 <= a < b < s0.len() implies may_precede(
            #[trigger] s0[a],
            #[trigger] s0[b],
        ) by {
            assert(s0[a] == s[a] && s0[b] == s[b]);
        }
        let j = lemma_place(s0, x);
        assert forall|k: int| 0 <= k < j implies may_precede(#[trigger] s[k], x) by {
            assert(s0[k] == s[k]);
        }
        assert forall|k: int| j <= k < s.len() implies !may_precede(#[trigger] s[k], x) by {
            if k < s.len() - 1 {
                assert(s0[k] == s[k]);
            }
        }
        j
    }
}

/// Every list has an evaluation order.
proof fn lemma_sequencing_exists(inp: Seq<DirectiveView>) -> (out: Seq<DirectiveView>)
    ensures
        is_sequencing_of(out, inp),
    decreases inp.len(),
{
    if inp.len() == 0 {
        inp
    } else {
        let x = inp.last();
        let placed = lemma_sequencing_exists(inp.drop_last());
        let j = lemma_place(placed, x);
        let out = placed.insert(j, x);
        let head = placed.subrange(0, j);
        let tail = placed.subrange(j, placed.len() as int);
        assert(out =~= head + seq![x] + tail);
        assert(placed =~= head + tail);
        assert forall|a: int, b: int| 0 <= a < b < out.len() implies may_precede(
            #[trigger] out[a],
            #[trigger] out[b],
        ) by {
            if a < j && b == j {
                assert(out[a] == placed[a]);
            } else if a < j && b > j {
                assert(out[a] == placed[a]);
                assert(out[b] == placed[b - 1]);
            } else if a == j {
                assert(out[b] == placed[b - 1]);
            } else if a > j {
                assert(out[a] == placed[a - 1]);
                assert(out[b] == placed[b - 1]);
            } else {
                assert(out[a] == placed[a]);
                assert(out[b] == placed[b]);
            }
        }
        assert forall|date: Date, order: int| #[trigger]
            with_key(out, date, order) == with_key(inp, date, order) by {
            lemma_with_key_add(head + seq![x], tail, date, order);
            lemma_with_key_add(head, seq![x], date, order);
            lemma_with_key_add(head, tail, date, order);
            lemma_with_key_one(x, date, order);
            assert(with_key(placed, date, order) == with_key(inp.drop_last(), date, order));
            if x.date() == date && x.order() == order {
                assert forall|k: int| 0 <= k < tail.len() implies !(#[trigger] tail[k].date() == date
                    && tail[k].order() == order) by {
                    assert(tail[k] == placed[j + k]);
                }
                lemma_with_key_none(tail, date, order);
                assert(with_key(out, date, order) =~= with_key(placed, date, order).push(x));
            } else {
                assert(with_key(out, date, order) =~= with_key(placed, date, order));
            }
        }
        out
    }
}

/// The directives in evaluation order are the given directives, sequenced:
/// for each day and rank the same directives in the same order.
pub proof fn law_sequenced(inp: Seq<DirectiveView>)
    ensures
        is_sequencing_of(sequenced(inp), inp),
{
    let out = lemma_sequencing_exists(inp);
    assert(is_sequencing_of(out, inp));
}

} // verus!
