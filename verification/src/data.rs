//! The directives of a ledger and the values they are made of.
//!
//! Each type has a view: the same record with its texts as `Seq<char>`, its
//! numbers as mantissa and scale and its lists as `Seq`.

use vstd::prelude::*;
use vstd::string::*;
use crate::date::Date;
use crate::decimal::{Decimal, decimal_difference, decimal_parsed, value_gt};
use crate::text::{strip_commas, without_commas};

verus! {

/// The form in which dates are written: year, month and day.
pub const DATE_FMT: &'static str = "%Y-%m-%d";

/// The code of a currency.
pub type Ccy = String;

/// The name of an account.
pub type Account = String;

/// The view of an optional text.
pub open spec fn opt_text(o: Option<String>) -> Option<Seq<char>> {
    match o {
        Some(s) => Some(s@),
        None => None,
    }
}

/// The view of a list of texts.
pub open spec fn texts(v: Seq<String>) -> Seq<Seq<char>> {
    v.map_values(|s: String| s@)
}

/// A copy of an optional text.
pub fn clone_opt_text(o: &Option<String>) -> (r: Option<String>)
    ensures
        opt_text(r) == opt_text(*o),
{
    match o {
        Some(s) => Some(s.clone()),
        None => None,
    }
}

/// A copy of a list of texts.
pub fn clone_texts(v: &Vec<String>) -> (r: Vec<String>)
    ensures
        texts(r@) == texts(v@),
{
    let mut r: Vec<String> = Vec::new();
    let mut i: usize = 0;
    while i < v.len()
        invariant
            i <= v.len(),
            r@.len() == i,
            forall|j: int| 0 <= j < i ==> r@[j]@ == v@[j]@,
        decreases v.len() - i,
    {
        r.push(v[i].clone());
        i += 1;
    }
    assert(texts(r@) =~= texts(v@));
    r
}

/// What the ledger was set up with.
#[derive(Debug)]
pub struct Options {
    pub title: String,
    pub operating_currency: String,
}

impl Clone for Options {
    fn clone(&self) -> (r: Self)
        ensures
            r.title@ == self.title@,
            r.operating_currency@ == self.operating_currency@,
    {
        Options { title: self.title.clone(), operating_currency: self.operating_currency.clone() }
    }
}

impl Default for Options {
    fn default() -> (r: Self)
        ensures
            r.title@ == Seq::<char>::empty(),
            r.operating_currency@ == Seq::<char>::empty(),
    {
        Options { title: String::new(), operating_currency: String::new() }
    }
}

/// The line of the source that a record came from.
#[derive(Clone, Copy, Debug, Default)]
pub struct DebugLine {
    pub line: usize,
}

impl DebugLine {
    /// The line with the given number.
    pub fn new(line: usize) -> (r: Self)
        ensures
            r.line == line,
    {
        DebugLine { line }
    }
}

impl PartialEq for DebugLine {
    /// Two records are the same whatever lines they came from.
    fn eq(&self, other: &Self) -> (r: bool) {
        true
    }
}

impl vstd::std_specs::cmp::PartialEqSpecImpl for DebugLine {
    open spec fn obeys_eq_spec() -> bool {
        true
    }

    open spec fn eq_spec(&self, other: &Self) -> bool {
        true
    }
}

/// The view of an `Amount`.
pub struct AmountView {
    pub number: (int, nat),
    pub ccy: Seq<char>,
}

/// A number of units of a currency.
#[derive(Debug)]
pub struct Amount {
    pub number: Decimal,
    pub ccy: Ccy,
}

impl View for Amount {
    type V = AmountView;

    open spec fn view(&self) -> AmountView {
        AmountView { number: self.number@, ccy: self.ccy@ }
    }
}

impl Clone for Amount {
    fn clone(&self) -> (r: Self)
        ensures
            r@ == self@,
    {
        Amount { number: self.number, ccy: self.ccy.clone() }
    }
}

/// Whether a number is further from zero than the tolerance, 0.001.
pub open spec fn exceeds_tolerance(n: (int, nat)) -> bool {
    value_gt(if n.0 < 0 { -n.0 } else { n.0 }, n.1, 1, 3)
}

/// Whether two amounts are of one currency and no further apart than the
/// tolerance.
pub open spec fn amounts_agree(a: AmountView, b: AmountView) -> bool {
    a.ccy == b.ccy && !exceeds_tolerance(
        decimal_difference(a.number.0, a.number.1, b.number.0, b.number.1),
    )
}

/// Whether the number is further from zero than the tolerance, 0.001.
pub fn beyond_tolerance(n: Decimal) -> (r: bool)
    ensures
        r == exceeds_tolerance(n@),
{
    n.abs().gt(Decimal::new(1, 3))
}

impl Amount {
    /// The amount of the given number and currency.
    pub fn new(number: Decimal, ccy: Ccy) -> (r: Self)
        ensures
            r.number == number,
            r.ccy == ccy,
    {
        Amount { number, ccy }
    }

    /// The amount written as a number, whose digits may be grouped by
    /// commas, and a currency; nothing where the text holds no number.
    pub fn parse(number: &str, ccy: &str) -> (r: Option<Self>)
        ensures
            match decimal_parsed(without_commas(number@)) {
                Some(n) => r matches Some(a) && a@ == (AmountView { number: n, ccy: ccy@ }),
                None => r is None,
            },
    {
        let digits = strip_commas(number);
        match Decimal::parse(digits.as_str()) {
            Some(n) => Some(Amount { number: n, ccy: String::from_str(ccy) }),
            None => None,
        }
    }
}

/// Payee and narration of a transaction that was written with one text or
/// with two: one text is the narration, and of two the first is the payee.
pub fn get_payee_narration(first: String, second: Option<String>) -> (r: (Option<String>, String))
    ensures
        r == match second {
            Some(narration) => (Some(first), narration),
            None => (None::<String>, first),
        },
{
    match second {
        Some(narration) => (Some(first), narration),
        None => (None, first),
    }
}

impl PartialEq for Amount {
    fn eq(&self, other: &Self) -> (r: bool) {
        self.ccy == other.ccy && !beyond_tolerance(self.number.sub(other.number))
    }
}

impl vstd::std_specs::cmp::PartialEqSpecImpl for Amount {
    open spec fn obeys_eq_spec() -> bool {
        true
    }

    open spec fn eq_spec(&self, other: &Self) -> bool {
        amounts_agree(self@, other@)
    }
}

impl Eq for Amount {}

/// The view of a `Metadata`.
pub struct MetadataView {
    pub key: Seq<char>,
    pub val: Seq<char>,
    pub line: nat,
}

/// A key with its value, attached to a directive.
#[derive(Debug, PartialEq)]
pub struct Metadata {
    pub key: String,
    pub val: String,
    pub debug: DebugLine,
}

impl View for Metadata {
    type V = MetadataView;

    open spec fn view(&self) -> MetadataView {
        MetadataView { key: self.key@, val: self.val@, line: self.debug.line as nat }
    }
}

impl Clone for Metadata {
    fn clone(&self) -> (r: Self)
        ensures
            r@ == self@,
    {
        Metadata { key: self.key.clone(), val: self.val.clone(), debug: self.debug }
    }
}

/// The view of a list of metadata.
pub open spec fn meta_view(v: Seq<Metadata>) -> Seq<MetadataView> {
    v.map_values(|m: Metadata| m@)
}

/// A copy of a list of metadata.
pub fn clone_meta(v: &Vec<Metadata>) -> (r: Vec<Metadata>)
    ensures
        meta_view(r@) == meta_view(v@),
{
    let mut r: Vec<Metadata> = Vec::new();
    let mut i: usize = 0;
    while i < v.len()
        invariant
            i <= v.len(),
            r@.len() == i,
            forall|j: int| 0 <= j < i ==> r@[j]@ == v@[j]@,
        decreases v.len() - i,
    {
        r.push(v[i].clone());
        i += 1;
    }
    assert(meta_view(r@) =~= meta_view(v@));
    r
}

/// The view of a `Posting`.
pub struct PostingView {
    pub account: Seq<char>,
    pub amount: Option<AmountView>,
    pub line: Option<nat>,
}

/// One line of a transaction: an account and, unless it is left to be
/// inferred, an amount.
#[derive(Debug, PartialEq)]
pub struct Posting {
    pub account: Account,
    pub amount: Option<Amount>,
    pub debug: Option<DebugLine>,
}

impl View for Posting {
    type V = PostingView;

    open spec fn view(&self) -> PostingView {
        PostingView {
            account: self.account@,
            amount: match self.amount {
                Some(a) => Some(a@),
                None => None,
            },
            line: match self.debug {
                Some(d) => Some(d.line as nat),
                None => None,
            },
        }
    }
}

impl Clone for Posting {
    fn clone(&self) -> (r: Self)
        ensures
            r@ == self@,
    {
        Posting {
            account: self.account.clone(),
            amount: match &self.amount {
                Some(a) => Some(a.clone()),
                None => None,
            },
            debug: self.debug,
        }
    }
}

impl Posting {
    /// A posting of an amount, from no line of the source.
    pub fn new(account: Account, number: Decimal, ccy: Ccy) -> (r: Self)
        ensures
            r@ == (PostingView {
                account: account@,
                amount: Some(AmountView { number: number@, ccy: ccy@ }),
                line: None,
            }),
    {
        Posting { account, amount: Some(Amount { number, ccy }), debug: None }
    }
}

/// The view of a list of postings.
pub open spec fn postings_view(v: Seq<Posting>) -> Seq<PostingView> {
    v.map_values(|p: Posting| p@)
}

/// A copy of a list of postings.
pub fn clone_postings(v: &Vec<Posting>) -> (r: Vec<Posting>)
    ensures
        postings_view(r@) == postings_view(v@),
{
    let mut r: Vec<Posting> = Vec::new();
    let mut i: usize = 0;
    while i < v.len()
        invariant
            i <= v.len(),
            r@.len() == i,
            forall|j: int| 0 <= j < i ==> r@[j]@ == v@[j]@,
        decreases v.len() - i,
    {
        r.push(v[i].clone());
        i += 1;
    }
    assert(postings_view(r@) =~= postings_view(v@));
    r
}

/// The view of a `ConfigCustom`.
pub struct ConfigCustomView {
    pub date: Date,
    pub line: nat,
}

/// A custom directive, carried along without its content.
#[derive(Debug, PartialEq)]
pub struct ConfigCustom {
    pub date: Date,
    pub debug: DebugLine,
}

impl View for ConfigCustom {
    type V = ConfigCustomView;

    open spec fn view(&self) -> ConfigCustomView {
        ConfigCustomView {
            date: self.date,
            line: self.debug.line as nat,
        }
    }
}

impl Clone for ConfigCustom {
    fn clone(&self) -> (r: Self)
        ensures
            r@ == self@,
    {
        ConfigCustom {
            date: self.date,
            debug: self.debug,
        }
    }
}

/// The view of a `ConfigOption`.
pub struct ConfigOptionView {
    pub date: Date,
    pub key: Seq<char>,
    pub val: Seq<char>,
    pub line: nat,
}

/// An option of the ledger, carried along as a directive.
#[derive(Debug, PartialEq)]
pub struct ConfigOption {
    pub date: Date,
    pub key: String,
    pub val: String,
    pub debug: DebugLine,
}

impl View for ConfigOption {
    type V = ConfigOptionView;

    open spec fn view(&self) -> ConfigOptionView {
        ConfigOptionView {
            date: self.date,
            key: self.key@,
            val: self.val@,
            line: self.debug.line as nat,
        }
    }
}

impl Clone for ConfigOption {
    fn clone(&self) -> (r: Self)
        ensures
            r@ == self@,
    {
        ConfigOption {
            date: self.date,
            key: self.key.clone(),
            val: self.val.clone(),
            debug: self.debug,
        }
    }
}

/// The view of a `Commodity`.
pub struct CommodityView {
    pub date: Date,
    pub ccy: Seq<char>,
    pub meta: Seq<MetadataView>,
    pub line: nat,
}

/// Declares a currency or another unit.
#[derive(Debug, PartialEq)]
pub struct Commodity {
    pub date: Date,
    pub ccy: String,
    pub meta: Vec<Metadata>,
    pub debug: DebugLine,
}

impl View for Commodity {
    type V = CommodityView;

    open spec fn view(&self) -> CommodityView {
        CommodityView {
            date: self.date,
            ccy: self.ccy@,
            meta: meta_view(self.meta@),
            line: self.debug.line as nat,
        }
    }
}

impl Clone for Commodity {
    fn clone(&self) -> (r: Self)
        ensures
            r@ == self@,
    {
        Commodity {
            date: self.date,
            ccy: self.ccy.clone(),
            meta: clone_meta(&self.meta),
            debug: self.debug,
        }
    }
}

/// The view of an `Open`.
pub struct OpenView {
    pub date: Date,
    pub account: Seq<char>,
    pub ccys: Seq<Seq<char>>,
    pub meta: Seq<MetadataView>,
    pub line: nat,
}

/// Opens an account, for the currencies listed or, where none is, for all.
#[derive(Debug, PartialEq)]
pub struct Open {
    pub date: Date,
    pub account: String,
    pub ccys: Vec<String>,
    pub meta: Vec<Metadata>,
    pub debug: DebugLine,
}

impl View for Open {
    type V = OpenView;

    open spec fn view(&self) -> OpenView {
        OpenView {
            date: self.date,
            account: self.account@,
            ccys: texts(self.ccys@),
            meta: meta_view(self.meta@),
            line: self.debug.line as nat,
        }
    }
}

impl Clone for Open {
    fn clone(&self) -> (r: Self)
        ensures
            r@ == self@,
    {
        Open {
            date: self.date,
            account: self.account.clone(),
            ccys: clone_texts(&self.ccys),
            meta: clone_meta(&self.meta),
            debug: self.debug,
        }
    }
}

/// The view of a `Close`.
pub struct CloseView {
    pub date: Date,
    pub account: Seq<char>,
    pub line: nat,
}

/// Closes an account.
#[derive(Debug, PartialEq)]
pub struct Close {
    pub date: Date,
    pub account: String,
    pub debug: DebugLine,
}

impl View for Close {
    type V = CloseView;

    open spec fn view(&self) -> CloseView {
        CloseView {
            date: self.date,
            account: self.account@,
            line: self.debug.line as nat,
        }
    }
}

impl Clone for Close {
    fn clone(&self) -> (r: Self)
        ensures
            r@ == self@,
    {
        Close {
            date: self.date,
            account: self.account.clone(),
            debug: self.debug,
        }
    }
}

/// The view of a `Balance`.
pub struct BalanceView {
    pub date: Date,
    pub account: Seq<char>,
    pub amount: AmountView,
    pub line: nat,
}

/// Asserts what an account holds of one currency on a day.
#[derive(Debug, PartialEq)]
pub struct Balance {
    pub date: Date,
    pub account: String,
    pub amount: Amount,
    pub debug: DebugLine,
}

impl View for Balance {
    type V = BalanceView;

    open spec fn view(&self) -> BalanceView {
        BalanceView {
            date: self.date,
            account: self.account@,
            amount: self.amount@,
            line: self.debug.line as nat,
        }
    }
}

impl Clone for Balance {
    fn clone(&self) -> (r: Self)
        ensures
            r@ == self@,
    {
        Balance {
            date: self.date,
            account: self.account.clone(),
            amount: self.amount.clone(),
            debug: self.debug,
        }
    }
}

/// The view of a `Pad`.
pub struct PadView {
    pub date: Date,
    pub account_to: Seq<char>,
    pub account_from: Seq<char>,
    pub line: nat,
}

/// Lets a later balance assertion on `account_to` be met by a transfer from `account_from`.
#[derive(Debug, PartialEq)]
pub struct Pad {
    pub date: Date,
    pub account_to: String,
    pub account_from: String,
    pub debug: DebugLine,
}

impl View for Pad {
    type V = PadView;

    open spec fn view(&self) -> PadView {
        PadView {
            date: self.date,
            account_to: self.account_to@,
            account_from: self.account_from@,
            line: self.debug.line as nat,
        }
    }
}

impl Clone for Pad {
    fn clone(&self) -> (r: Self)
        ensures
            r@ == self@,
    {
        Pad {
            date: self.date,
            account_to: self.account_to.clone(),
            account_from: self.account_from.clone(),
            debug: self.debug,
        }
    }
}

/// The view of a `Price`.
pub struct PriceView {
    pub date: Date,
    pub commodity: Seq<char>,
    pub amount: AmountView,
    pub line: nat,
}

/// The price of a unit on a day.
#[derive(Debug, PartialEq)]
pub struct Price {
    pub date: Date,
    pub commodity: String,
    pub amount: Amount,
    pub debug: DebugLine,
}

impl View for Price {
    type V = PriceView;

    open spec fn view(&self) -> PriceView {
        PriceView {
            date: self.date,
            commodity: self.commodity@,
            amount: self.amount@,
            line: self.debug.line as nat,
        }
    }
}

impl Clone for Price {
    fn clone(&self) -> (r: Self)
        ensures
            r@ == self@,
    {
        Price {
            date: self.date,
            commodity: self.commodity.clone(),
            amount: self.amount.clone(),
            debug: self.debug,
        }
    }
}

/// The view of a `Document`.
pub struct DocumentView {
    pub date: Date,
    pub account: Seq<char>,
    pub path: Seq<char>,
    pub line: nat,
}

/// A document filed under an account.
#[derive(Debug, PartialEq)]
pub struct Document {
    pub date: Date,
    pub account: String,
    pub path: String,
    pub debug: DebugLine,
}

impl View for Document {
    type V = DocumentView;

    open spec fn view(&self) -> DocumentView {
        DocumentView {
            date: self.date,
            account: self.account@,
            path: self.path@,
            line: self.debug.line as nat,
        }
    }
}

impl Clone for Document {
    fn clone(&self) -> (r: Self)
        ensures
            r@ == self@,
    {
        Document {
            date: self.date,
            account: self.account.clone(),
            path: self.path.clone(),
            debug: self.debug,
        }
    }
}

/// The view of a `Note`.
pub struct NoteView {
    pub date: Date,
    pub account: Seq<char>,
    pub note: Seq<char>,
    pub line: nat,
}

/// A note on an account.
#[derive(Debug, PartialEq)]
pub struct Note {
    pub date: Date,
    pub account: String,
    pub note: String,
    pub debug: DebugLine,
}

impl View for Note {
    type V = NoteView;

    open spec fn view(&self) -> NoteView {
        NoteView {
            date: self.date,
            account: self.account@,
            note: self.note@,
            line: self.debug.line as nat,
        }
    }
}

impl Clone for Note {
    fn clone(&self) -> (r: Self)
        ensures
            r@ == self@,
    {
        Note {
            date: self.date,
            account: self.account.clone(),
            note: self.note.clone(),
            debug: self.debug,
        }
    }
}

/// The view of a `Query`.
pub struct QueryView {
    pub date: Date,
    pub name: Seq<char>,
    pub query: Seq<char>,
    pub line: nat,
}

/// A named query.
#[derive(Debug, PartialEq)]
pub struct Query {
    pub date: Date,
    pub name: String,
    pub query: String,
    pub debug: DebugLine,
}

impl View for Query {
    type V = QueryView;

    open spec fn view(&self) -> QueryView {
        QueryView {
            date: self.date,
            name: self.name@,
            query: self.query@,
            line: self.debug.line as nat,
        }
    }
}

impl Clone for Query {
    fn clone(&self) -> (r: Self)
        ensures
            r@ == self@,
    {
        Query {
            date: self.date,
            name: self.name.clone(),
            query: self.query.clone(),
            debug: self.debug,
        }
    }
}

/// The view of a `Transaction`.
pub struct TransactionView {
    pub date: Date,
    pub ty: Seq<char>,
    pub payee: Option<Seq<char>>,
    pub narration: Seq<char>,
    pub tag: Option<Seq<char>>,
    pub link: Option<Seq<char>>,
    pub postings: Seq<PostingView>,
    pub meta: Seq<MetadataView>,
    pub line: nat,
}

/// A transfer between accounts on a day, as a list of postings.
#[derive(Debug, PartialEq)]
pub struct Transaction {
    pub date: Date,
    pub ty: String,
    pub payee: Option<String>,
    pub narration: String,
    pub tag: Option<String>,
    pub link: Option<String>,
    pub postings: Vec<Posting>,
    pub meta: Vec<Metadata>,
    pub debug: DebugLine,
}

impl View for Transaction {
    type V = TransactionView;

    open spec fn view(&self) -> TransactionView {
        TransactionView {
            date: self.date,
            ty: self.ty@,
            payee: opt_text(self.payee),
            narration: self.narration@,
            tag: opt_text(self.tag),
            link: opt_text(self.link),
            postings: postings_view(self.postings@),
            meta: meta_view(self.meta@),
            line: self.debug.line as nat,
        }
    }
}

impl Clone for Transaction {
    fn clone(&self) -> (r: Self)
        ensures
            r@ == self@,
    {
        Transaction {
            date: self.date,
            ty: self.ty.clone(),
            payee: clone_opt_text(&self.payee),
            narration: self.narration.clone(),
            tag: clone_opt_text(&self.tag),
            link: clone_opt_text(&self.link),
            postings: clone_postings(&self.postings),
            meta: clone_meta(&self.meta),
            debug: self.debug,
        }
    }
}

/// The transaction that stands in for a pad: on the pad's day, `amount` to
/// `account_to` and its opposite to `account_from`.
pub open spec fn pad_transaction(pad: PadView, amount: AmountView) -> TransactionView {
    TransactionView {
        date: pad.date,
        ty: "pad"@,
        payee: None,
        narration: Seq::empty(),
        tag: None,
        link: None,
        postings: seq![
            PostingView { account: pad.account_to, amount: Some(amount), line: Some(0nat) },
            PostingView {
                account: pad.account_from,
                amount: Some(AmountView { number: (-amount.number.0, amount.number.1), ccy: amount.ccy }),
                line: Some(0nat),
            },
        ],
        meta: Seq::empty(),
        line: 0,
    }
}

impl Transaction {
    /// The transaction that stands in for a pad.
    pub fn from_pad(pad: Pad, amount: Amount) -> (r: Self)
        ensures
            r@ == pad_transaction(pad@, amount@),
    {
        let debug = DebugLine { line: 0 };
        let opposite = Amount { number: amount.number.neg(), ccy: amount.ccy.clone() };
        let p1 = Posting { account: pad.account_to, amount: Some(amount), debug: Some(debug) };
        let p2 = Posting { account: pad.account_from, amount: Some(opposite), debug: Some(debug) };
        let mut postings: Vec<Posting> = Vec::new();
        postings.push(p1);
        postings.push(p2);
        let r = Transaction {
            date: pad.date,
            ty: String::from_str("pad"),
            payee: None,
            narration: String::new(),
            tag: None,
            link: None,
            postings,
            meta: Vec::new(),
            debug,
        };
        assert(r@.postings =~= pad_transaction(pad@, amount@).postings);
        assert(r@.meta =~= Seq::<MetadataView>::empty());
        r
    }
}

/// The view of a `Directive`.
pub enum DirectiveView {
    ConfigCustom(ConfigCustomView),
    ConfigOption(ConfigOptionView),
    Commodity(CommodityView),
    Open(OpenView),
    Close(CloseView),
    Balance(BalanceView),
    Pad(PadView),
    Price(PriceView),
    Document(DocumentView),
    Note(NoteView),
    Query(QueryView),
    Transaction(TransactionView),
}

/// One dated entry of a ledger.
#[derive(Debug)]
pub enum Directive {
    ConfigCustom(ConfigCustom),
    ConfigOption(ConfigOption),
    Commodity(Commodity),
    Open(Open),
    Close(Close),
    Balance(Balance),
    Pad(Pad),
    Price(Price),
    Document(Document),
    Note(Note),
    Query(Query),
    Transaction(Transaction),
}

impl View for Directive {
    type V = DirectiveView;

    open spec fn view(&self) -> DirectiveView {
        match self {
            Directive::ConfigCustom(d) => DirectiveView::ConfigCustom(d@),
            Directive::ConfigOption(d) => DirectiveView::ConfigOption(d@),
            Directive::Commodity(d) => DirectiveView::Commodity(d@),
            Directive::Open(d) => DirectiveView::Open(d@),
            Directive::Close(d) => DirectiveView::Close(d@),
            Directive::Balance(d) => DirectiveView::Balance(d@),
            Directive::Pad(d) => DirectiveView::Pad(d@),
            Directive::Price(d) => DirectiveView::Price(d@),
            Directive::Document(d) => DirectiveView::Document(d@),
            Directive::Note(d) => DirectiveView::Note(d@),
            Directive::Query(d) => DirectiveView::Query(d@),
            Directive::Transaction(d) => DirectiveView::Transaction(d@),
        }
    }
}

impl Clone for Directive {
    fn clone(&self) -> (r: Self)
        ensures
            r@ == self@,
    {
        match self {
            Directive::ConfigCustom(d) => Directive::ConfigCustom(d.clone()),
            Directive::ConfigOption(d) => Directive::ConfigOption(d.clone()),
            Directive::Commodity(d) => Directive::Commodity(d.clone()),
            Directive::Open(d) => Directive::Open(d.clone()),
            Directive::Close(d) => Directive::Close(d.clone()),
            Directive::Balance(d) => Directive::Balance(d.clone()),
            Directive::Pad(d) => Directive::Pad(d.clone()),
            Directive::Price(d) => Directive::Price(d.clone()),
            Directive::Document(d) => Directive::Document(d.clone()),
            Directive::Note(d) => Directive::Note(d.clone()),
            Directive::Query(d) => Directive::Query(d.clone()),
            Directive::Transaction(d) => Directive::Transaction(d.clone()),
        }
    }
}

impl DirectiveView {
    /// The day of the directive.
    pub open spec fn date(self) -> Date {
        match self {
            DirectiveView::ConfigCustom(d) => d.date,
            DirectiveView::ConfigOption(d) => d.date,
            DirectiveView::Commodity(d) => d.date,
            DirectiveView::Open(d) => d.date,
            DirectiveView::Close(d) => d.date,
            DirectiveView::Balance(d) => d.date,
            DirectiveView::Pad(d) => d.date,
            DirectiveView::Price(d) => d.date,
            DirectiveView::Document(d) => d.date,
            DirectiveView::Note(d) => d.date,
            DirectiveView::Query(d) => d.date,
            DirectiveView::Transaction(d) => d.date,
        }
    }

    /// The rank of the directive among those of its day: opens first, then
    /// balance assertions, then the ordinary directives, then documents,
    /// notes and queries, and closes last.
    pub open spec fn order(self) -> int {
        match self {
            DirectiveView::Open(_) => -2,
            DirectiveView::Balance(_) => -1,
            DirectiveView::ConfigCustom(_) => 0,
            DirectiveView::ConfigOption(_) => 0,
            DirectiveView::Commodity(_) => 0,
            DirectiveView::Pad(_) => 0,
            DirectiveView::Price(_) => 0,
            DirectiveView::Transaction(_) => 0,
            DirectiveView::Document(_) => 1,
            DirectiveView::Note(_) => 1,
            DirectiveView::Query(_) => 1,
            DirectiveView::Close(_) => 2,
        }
    }
}

impl Directive {
    /// The day of the directive.
    pub fn date(&self) -> (r: &Date)
        ensures
            *r == self@.date(),
    {
        match self {
            Directive::ConfigCustom(d) => &d.date,
            Directive::ConfigOption(d) => &d.date,
            Directive::Commodity(d) => &d.date,
            Directive::Open(d) => &d.date,
            Directive::Close(d) => &d.date,
            Directive::Balance(d) => &d.date,
            Directive::Pad(d) => &d.date,
            Directive::Price(d) => &d.date,
            Directive::Document(d) => &d.date,
            Directive::Note(d) => &d.date,
            Directive::Query(d) => &d.date,
            Directive::Transaction(d) => &d.date,
        }
    }

    /// The rank of the directive among those of its day.
    pub fn order(&self) -> (r: i8)
        ensures
            r == self@.order(),
    {
        match self {
            Directive::Open(_) => -2,
            Directive::Balance(_) => -1,
            Directive::ConfigCustom(_) => 0,
            Directive::ConfigOption(_) => 0,
            Directive::Commodity(_) => 0,
            Directive::Pad(_) => 0,
            Directive::Price(_) => 0,
            Directive::Transaction(_) => 0,
            Directive::Document(_) => 1,
            Directive::Note(_) => 1,
            Directive::Query(_) => 1,
            Directive::Close(_) => 2,
        }
    }
}

/// The view of a list of directives.
pub open spec fn directives_view(v: Seq<Directive>) -> Seq<DirectiveView> {
    v.map_values(|d: Directive| d@)
}

} // verus!
