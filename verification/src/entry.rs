//! The parsed form of a ledger's text, as a tree of entries, and the
//! records that are read from it.

use vstd::prelude::*;
use vstd::string::*;
use crate::data::{
    Amount, AmountView, Balance, BalanceView, Close, CloseView, Commodity, CommodityView,
    ConfigCustom, ConfigCustomView, ConfigOption, ConfigOptionView, DebugLine, Document,
    DocumentView, Metadata, MetadataView,
    Note, NoteView, Open, OpenView, Options, Pad, PadView, Posting, PostingView, Price,
    PriceView, Query, QueryView, Transaction, TransactionView, meta_view, postings_view, texts,
};
use crate::date::{Date, date_read};
use crate::decimal::decimal_parsed;
use crate::text::without_commas;

verus! {

/// The kinds of entry that the records are read from.
#[derive(Clone, Copy, Debug, PartialEq, Eq, Structural)]
pub enum Rule {
    Option,
    Custom,
    Query,
    Commodity,
    Open,
    Close,
    Balance,
    Pad,
    Price,
    Document,
    Note,
    Transaction,
    Posting,
    Metadata,
    Ccy,
    Narration,
    Link,
    Tag,
    Badline,
    EOI,
    /// Any other piece of the text.
    Other,
}

/// A piece of the text: its kind, what it reads, the line it starts on and
/// the pieces it is made of.
#[derive(Debug)]
pub struct Entry {
    pub rule: Rule,
    pub text: String,
    pub line: usize,
    pub inner: Vec<Entry>,
}

/// The day written in the text, if the text is a day.
pub open spec fn day_read(text: Seq<char>) -> Option<Date> {
    date_read(text, "%Y-%m-%d"@)
}

/// The metadata in an entry: its first piece is the key, its second the
/// value.
pub open spec fn metadata_parsed(e: Entry) -> Option<MetadataView> {
    if e.inner@.len() >= 2 {
        Some(MetadataView { key: e.inner@[0].text@, val: e.inner@[1].text@, line: e.line as nat })
    } else {
        None
    }
}

/// The amount in an entry: its first piece is the number, whose digits may
/// be grouped by commas, its second the currency.
pub open spec fn amount_parsed(e: Entry) -> Option<AmountView> {
    if e.inner@.len() >= 2 {
        match decimal_parsed(without_commas(e.inner@[0].text@)) {
            Some(n) => Some(AmountView { number: n, ccy: e.inner@[1].text@ }),
            None => None,
        }
    } else {
        None
    }
}

/// The posting in an entry: its first piece is the account, its second, if
/// there is one, the amount.
pub open spec fn posting_parsed(e: Entry) -> Option<PostingView> {
    if e.inner@.len() == 0 {
        None
    } else if e.inner@.len() == 1 {
        Some(PostingView { account: e.inner@[0].text@, amount: None, line: Some(e.line as nat) })
    } else {
        match amount_parsed(e.inner@[1]) {
            Some(a) => Some(
                PostingView { account: e.inner@[0].text@, amount: Some(a), line: Some(e.line as nat) },
            ),
            None => None,
        }
    }
}

/// The metadata among the entries, in their order; nothing where one of
/// them cannot be read.
pub open spec fn metadata_among(s: Seq<Entry>) -> Option<Seq<MetadataView>>
    decreases s.len(),
{
    if s.len() == 0 {
        Some(Seq::empty())
    } else {
        match metadata_among(s.drop_last()) {
            Some(ms) => if s.last().rule == Rule::Metadata {
                match metadata_parsed(s.last()) {
                    Some(m) => Some(ms.push(m)),
                    None => None,
                }
            } else {
                Some(ms)
            },
            None => None,
        }
    }
}

/// The postings among the entries, in their order; nothing where one of
/// them cannot be read.
pub open spec fn postings_among(s: Seq<Entry>) -> Option<Seq<PostingView>>
    decreases s.len(),
{
    if s.len() == 0 {
        Some(Seq::empty())
    } else {
        match postings_among(s.drop_last()) {
            Some(ps) => if s.last().rule == Rule::Posting {
                match posting_parsed(s.last()) {
                    Some(p) => Some(ps.push(p)),
                    None => None,
                }
            } else {
                Some(ps)
            },
            None => None,
        }
    }
}

/// The currencies among the entries, in their order.
pub open spec fn ccys_among(s: Seq<Entry>) -> Seq<Seq<char>>
    decreases s.len(),
{
    if s.len() == 0 {
        Seq::empty()
    } else if s.last().rule == Rule::Ccy {
        ccys_among(s.drop_last()).push(s.last().text@)
    } else {
        ccys_among(s.drop_last())
    }
}

/// Whether an entry of the kind is among the entries.
pub open spec fn has_rule(s: Seq<Entry>, rule: Rule) -> bool {
    exists|i: int| 0 <= i < s.len() && (#[trigger] s[i]).rule == rule
}

/// Whether a transaction can be made of the entries: postings, metadata,
/// links and tags.
pub open spec fn are_parts(s: Seq<Entry>) -> bool {
    forall|i: int|
        0 <= i < s.len() ==> {
            let rule = (#[trigger] s[i]).rule;
            rule == Rule::Posting || rule == Rule::Metadata || rule == Rule::Link || rule
                == Rule::Tag
        }
}

/// The entries behind the first `n`.
pub open spec fn behind(e: Entry, n: int) -> Seq<Entry> {
    e.inner@.subrange(n, e.inner@.len() as int)
}

impl Metadata {
    /// The metadata in an entry, if the entry has key and value.
    pub fn from_entry(entry: &Entry) -> (r: Option<Self>)
        ensures
            match metadata_parsed(*entry) {
                Some(v) => r matches Some(m) && m@ == v,
                None => r is None,
            },
    {
        if entry.inner.len() < 2 {
            return None;
        }
        Some(
            Metadata {
                key: entry.inner[0].text.clone(),
                val: entry.inner[1].text.clone(),
                debug: DebugLine { line: entry.line },
            },
        )
    }
}

impl Amount {
    /// The amount in an entry, if the entry has a number and a currency.
    pub fn from_entry(entry: &Entry) -> (r: Option<Self>)
        ensures
            match amount_parsed(*entry) {
                Some(v) => r matches Some(a) && a@ == v,
                None => r is None,
            },
    {
        if entry.inner.len() < 2 {
            return None;
        }
        Amount::parse(entry.inner[0].text.as_str(), entry.inner[1].text.as_str())
    }
}

impl Posting {
    /// The posting in an entry, if the entry has an account and, where it
    /// has more, an amount.
    pub fn from_entry(entry: &Entry) -> (r: Option<Self>)
        ensures
            match posting_parsed(*entry) {
                Some(v) => r matches Some(p) && p@ == v,
                None => r is None,
            },
    {
        if entry.inner.len() == 0 {
            return None;
        }
        let amount = if entry.inner.len() > 1 {
            match Amount::from_entry(&entry.inner[1]) {
                Some(a) => Some(a),
                None => {
                    return None;
                },
            }
        } else {
            None
        };
        Some(
            Posting {
                account: entry.inner[0].text.clone(),
                amount,
                debug: Some(DebugLine { line: entry.line }),
            },
        )
    }
}

/// The day written in an entry.
fn day_of(entry: &Entry) -> (r: Option<Date>)
    ensures
        r == day_read(entry.text@),
{
    Date::parse_from_str(entry.text.as_str(), "%Y-%m-%d")
}

/// The metadata among the entries from `from` on.
fn metadata_from(entry: &Entry, from: usize) -> (r: Option<Vec<Metadata>>)
    requires
        from <= entry.inner@.len(),
    ensures
        match metadata_among(behind(*entry, from as int)) {
            Some(v) => r matches Some(ms) && meta_view(ms@) == v,
            None => r is None,
        },
{
    let ghost rest = behind(*entry, from as int);
    let mut meta: Vec<Metadata> = Vec::new();
    let mut i: usize = from;
    assert(meta_view(meta@) =~= Seq::<MetadataView>::empty());
    assert(rest.take(0) =~= Seq::<Entry>::empty());
    while i < entry.inner.len()
        invariant
            from <= i <= entry.inner@.len(),
            rest == behind(*entry, from as int),
            metadata_among(rest.take(i - from)) == Some(meta_view(meta@)),
        decreases entry.inner.len() - i,
    {
        proof {
            assert(rest.take(i - from + 1).drop_last() =~= rest.take(i - from));
            assert(rest.take(i - from + 1).last() == entry.inner@[i as int]);
        }
        let ghost before = meta_view(meta@);
        if entry.inner[i].rule == Rule::Metadata {
            match Metadata::from_entry(&entry.inner[i]) {
                Some(m) => {
                    meta.push(m);
                    assert(meta_view(meta@) =~= before.push(metadata_parsed(entry.inner@[i as int])->0));
                },
                None => {
                    proof {
                        lemma_metadata_unread(rest, i - from + 1);
                    }
                    return None;
                },
            }
        }
        i += 1;
    }
    proof {
        assert(rest.take(i - from) =~= rest);
    }
    Some(meta)
}

/// Where the metadata among the first entries cannot be read, that among
/// all cannot.
proof fn lemma_metadata_unread(s: Seq<Entry>, n: int)
    requires
        0 <= n <= s.len(),
        metadata_among(s.take(n)) is None,
    ensures
        metadata_among(s) is None,
    decreases s.len() - n,
{
    if n < s.len() {
        assert(s.take(n + 1).drop_last() =~= s.take(n));
        lemma_metadata_unread(s, n + 1);
    } else {
        assert(s.take(n) =~= s);
    }
}

/// Where the postings among the first entries cannot be read, those among
/// all cannot.
proof fn lemma_postings_unread(s: Seq<Entry>, n: int)
    requires
        0 <= n <= s.len(),
        postings_among(s.take(n)) is None,
    ensures
        postings_among(s) is None,
    decreases s.len() - n,
{
    if n < s.len() {
        assert(s.take(n + 1).drop_last() =~= s.take(n));
        lemma_postings_unread(s, n + 1);
    } else {
        assert(s.take(n) =~= s);
    }
}

/// The currencies among the entries from `from` on.
fn ccys_from(entry: &Entry, from: usize) -> (r: Vec<String>)
    requires
        from <= entry.inner@.len(),
    ensures
        texts(r@) == ccys_among(behind(*entry, from as int)),
{
    let ghost rest = behind(*entry, from as int);
    let mut ccys: Vec<String> = Vec::new();
    let mut i: usize = from;
    assert(texts(ccys@) =~= Seq::<Seq<char>>::empty());
    assert(rest.take(0) =~= Seq::<Entry>::empty());
    while i < entry.inner.len()
        invariant
            from <= i <= entry.inner@.len(),
            rest == behind(*entry, from as int),
            ccys_among(rest.take(i - from)) == texts(ccys@),
        decreases entry.inner.len() - i,
    {
        proof {
            assert(rest.take(i - from + 1).drop_last() =~= rest.take(i - from));
            assert(rest.take(i - from + 1).last() == entry.inner@[i as int]);
        }
        let ghost before = texts(ccys@);
        if entry.inner[i].rule == Rule::Ccy {
            ccys.push(entry.inner[i].text.clone());
            assert(texts(ccys@) =~= before.push(entry.inner@[i as int].text@));
        }
        i += 1;
    }
    proof {
        assert(rest.take(i - from) =~= rest);
    }
    ccys
}

/// The custom directive in an entry: it carries the first day of the year 1
/// and the line of the entry.
pub open spec fn configcustom_parsed(e: Entry) -> ConfigCustomView {
    ConfigCustomView { date: Date { year: 1, month: 1, day: 1 }, line: e.line as nat }
}

impl ConfigCustom {
    /// The custom directive in an entry.
    pub fn from_entry(entry: &Entry) -> (r: Self)
        ensures
            r@ == configcustom_parsed(*entry),
    {
        ConfigCustom { date: Date::base(), debug: DebugLine { line: entry.line } }
    }
}

/// The option in an entry, as a directive: its pieces are key and value,
/// and it carries the first day of the year 1.
pub open spec fn configoption_parsed(e: Entry) -> Option<ConfigOptionView> {
    if e.inner@.len() >= 2 {
        Some(
            ConfigOptionView {
                date: Date { year: 1, month: 1, day: 1 },
                key: e.inner@[0].text@,
                val: e.inner@[1].text@,
                line: e.line as nat,
            },
        )
    } else {
        None
    }
}

impl ConfigOption {
    /// The option in an entry, if the entry has key and value.
    pub fn from_entry(entry: &Entry) -> (r: Option<Self>)
        ensures
            match configoption_parsed(*entry) {
                Some(v) => r matches Some(d) && d@ == v,
                None => r is None,
            },
    {
        if entry.inner.len() < 2 {
            return None;
        }
        Some(
            ConfigOption {
                date: Date::base(),
                key: entry.inner[0].text.clone(),
                val: entry.inner[1].text.clone(),
                debug: DebugLine { line: entry.line },
            },
        )
    }
}

/// The close in an entry: its pieces are the day and the account.
pub open spec fn close_parsed(e: Entry) -> Option<CloseView> {
    if e.inner@.len() >= 2 {
        match day_read(e.inner@[0].text@) {
            Some(date) => Some(CloseView { date, account: e.inner@[1].text@, line: e.line as nat }),
            None => None,
        }
    } else {
        None
    }
}

impl Close {
    /// The close in an entry, if the entry has its pieces and its first
    /// piece is a day.
    pub fn from_entry(entry: &Entry) -> (r: Option<Self>)
        ensures
            match close_parsed(*entry) {
                Some(v) => r matches Some(d) && d@ == v,
                None => r is None,
            },
    {
        if entry.inner.len() < 2 {
            return None;
        }
        match day_of(&entry.inner[0]) {
            Some(date) => Some(
                Close {
                    date,
                    account: entry.inner[1].text.clone(),
                    debug: DebugLine { line: entry.line },
                },
            ),
            None => None,
        }
    }
}

/// The record in an entry: its pieces are the day and two texts.
pub open spec fn pad_parsed(e: Entry) -> Option<PadView> {
    if e.inner@.len() >= 3 {
        match day_read(e.inner@[0].text@) {
            Some(date) => Some(
                PadView {
                    date,
                    account_to: e.inner@[1].text@,
                    account_from: e.inner@[2].text@,
                    line: e.line as nat,
                },
            ),
            None => None,
        }
    } else {
        None
    }
}

impl Pad {
    /// The record in an entry, if the entry has its pieces and its first
    /// piece is a day.
    pub fn from_entry(entry: &Entry) -> (r: Option<Self>)
        ensures
            match pad_parsed(*entry) {
                Some(v) => r matches Some(d) && d@ == v,
                None => r is None,
            },
    {
        if entry.inner.len() < 3 {
            return None;
        }
        match day_of(&entry.inner[0]) {
            Some(date) => Some(
                Pad {
                    date,
                    account_to: entry.inner[1].text.clone(),
                    account_from: entry.inner[2].text.clone(),
                    debug: DebugLine { line: entry.line },
                },
            ),
            None => None,
        }
    }
}

/// The record in an entry: its pieces are the day and two texts.
pub open spec fn document_parsed(e: Entry) -> Option<DocumentView> {
    if e.inner@.len() >= 3 {
        match day_read(e.inner@[0].text@) {
            Some(date) => Some(
                DocumentView {
                    date,
                    account: e.inner@[1].text@,
                    path: e.inner@[2].text@,
                    line: e.line as nat,
                },
            ),
            None => None,
        }
    } else {
        None
    }
}

impl Document {
    /// The record in an entry, if the entry has its pieces and its first
    /// piece is a day.
    pub fn from_entry(entry: &Entry) -> (r: Option<Self>)
        ensures
            match document_parsed(*entry) {
                Some(v) => r matches Some(d) && d@ == v,
                None => r is None,
            },
    {
        if entry.inner.len() < 3 {
            return None;
        }
        match day_of(&entry.inner[0]) {
            Some(date) => Some(
                Document {
                    date,
                    account: entry.inner[1].text.clone(),
                    path: entry.inner[2].text.clone(),
                    debug: DebugLine { line: entry.line },
                },
            ),
            None => None,
        }
    }
}

/// The record in an entry: its pieces are the day and two texts.
pub open spec fn note_parsed(e: Entry) -> Option<NoteView> {
    if e.inner@.len() >= 3 {
        match day_read(e.inner@[0].text@) {
            Some(date) => Some(
                NoteView {
                    date,
                    account: e.inner@[1].text@,
                    note: e.inner@[2].text@,
                    line: e.line as nat,
                },
            ),
            None => None,
        }
    } else {
        None
    }
}

impl Note {
    /// The record in an entry, if the entry has its pieces and its first
    /// piece is a day.
    pub fn from_entry(entry: &Entry) -> (r: Option<Self>)
        ensures
            match note_parsed(*entry) {
                Some(v) => r matches Some(d) && d@ == v,
                None => r is None,
            },
    {
        if entry.inner.len() < 3 {
            return None;
        }
        match day_of(&entry.inner[0]) {
            Some(date) => Some(
                Note {
                    date,
                    account: entry.inner[1].text.clone(),
                    note: entry.inner[2].text.clone(),
                    debug: DebugLine { line: entry.line },
                },
            ),
            None => None,
        }
    }
}

/// The record in an entry: its pieces are the day and two texts.
pub open spec fn query_parsed(e: Entry) -> Option<QueryView> {
    if e.inner@.len() >= 3 {
        match day_read(e.inner@[0].text@) {
            Some(date) => Some(
                QueryView {
                    date,
                    name: e.inner@[1].text@,
                    query: e.inner@[2].text@,
                    line: e.line as nat,
                },
            ),
            None => None,
        }
    } else {
        None
    }
}

impl Query {
    /// The record in an entry, if the entry has its pieces and its first
    /// piece is a day.
    pub fn from_entry(entry: &Entry) -> (r: Option<Self>)
        ensures
            match query_parsed(*entry) {
                Some(v) => r matches Some(d) && d@ == v,
                None => r is None,
            },
    {
        if entry.inner.len() < 3 {
            return None;
        }
        match day_of(&entry.inner[0]) {
            Some(date) => Some(
                Query {
                    date,
                    name: entry.inner[1].text.clone(),
                    query: entry.inner[2].text.clone(),
                    debug: DebugLine { line: entry.line },
                },
            ),
            None => None,
        }
    }
}

/// The record in an entry: its pieces are the day, a text and an amount.
pub open spec fn balance_parsed(e: Entry) -> Option<BalanceView> {
    if e.inner@.len() >= 3 {
        match (day_read(e.inner@[0].text@), amount_parsed(e.inner@[2])) {
            (Some(date), Some(amount)) => Some(
                BalanceView { date, account: e.inner@[1].text@, amount, line: e.line as nat },
            ),
            _ => None,
        }
    } else {
        None
    }
}

impl Balance {
    /// The record in an entry, if the entry has its pieces, its first piece
    /// is a day and its third an amount.
    pub fn from_entry(entry: &Entry) -> (r: Option<Self>)
        ensures
            match balance_parsed(*entry) {
                Some(v) => r matches Some(d) && d@ == v,
                None => r is None,
            },
    {
        if entry.inner.len() < 3 {
            return None;
        }
        match day_of(&entry.inner[0]) {
            Some(date) => match Amount::from_entry(&entry.inner[2]) {
                Some(amount) => Some(
                    Balance {
                        date,
                        account: entry.inner[1].text.clone(),
                        amount,
                        debug: DebugLine { line: entry.line },
                    },
                ),
                None => None,
            },
            None => None,
        }
    }
}

/// The record in an entry: its pieces are the day, a text and an amount.
pub open spec fn price_parsed(e: Entry) -> Option<PriceView> {
    if e.inner@.len() >= 3 {
        match (day_read(e.inner@[0].text@), amount_parsed(e.inner@[2])) {
            (Some(date), Some(amount)) => Some(
                PriceView { date, commodity: e.inner@[1].text@, amount, line: e.line as nat },
            ),
            _ => None,
        }
    } else {
        None
    }
}

impl Price {
    /// The record in an entry, if the entry has its pieces, its first piece
    /// is a day and its third an amount.
    pub fn from_entry(entry: &Entry) -> (r: Option<Self>)
        ensures
            match price_parsed(*entry) {
                Some(v) => r matches Some(d) && d@ == v,
                None => r is None,
            },
    {
        if entry.inner.len() < 3 {
            return None;
        }
        match day_of(&entry.inner[0]) {
            Some(date) => match Amount::from_entry(&entry.inner[2]) {
                Some(amount) => Some(
                    Price {
                        date,
                        commodity: entry.inner[1].text.clone(),
                        amount,
                        debug: DebugLine { line: entry.line },
                    },
                ),
                None => None,
            },
            None => None,
        }
    }
}

/// The commodity in an entry: its pieces are the day, the currency and
/// then metadata.
pub open spec fn commodity_parsed(e: Entry) -> Option<CommodityView> {
    if e.inner@.len() >= 2 {
        match (day_read(e.inner@[0].text@), metadata_among(behind(e, 2))) {
            (Some(date), Some(meta)) => Some(
                CommodityView { date, ccy: e.inner@[1].text@, meta, line: e.line as nat },
            ),
            _ => None,
        }
    } else {
        None
    }
}

impl Commodity {
    /// The commodity in an entry, if the entry has its pieces, its first
    /// piece is a day and its metadata can be read.
    pub fn from_entry(entry: &Entry) -> (r: Option<Self>)
        ensures
            match commodity_parsed(*entry) {
                Some(v) => r matches Some(d) && d@ == v,
                None => r is None,
            },
    {
        if entry.inner.len() < 2 {
            return None;
        }
        match day_of(&entry.inner[0]) {
            Some(date) => match metadata_from(entry, 2) {
                Some(meta) => Some(
                    Commodity {
                        date,
                        ccy: entry.inner[1].text.clone(),
                        meta,
                        debug: DebugLine { line: entry.line },
                    },
                ),
                None => None,
            },
            None => None,
        }
    }
}

/// The open in an entry: its pieces are the day, the account and then
/// currencies and metadata.
pub open spec fn open_parsed(e: Entry) -> Option<OpenView> {
    if e.inner@.len() >= 2 {
        match (day_read(e.inner@[0].text@), metadata_among(behind(e, 2))) {
            (Some(date), Some(meta)) => Some(
                OpenView {
                    date,
                    account: e.inner@[1].text@,
                    ccys: ccys_among(behind(e, 2)),
                    meta,
                    line: e.line as nat,
                },
            ),
            _ => None,
        }
    } else {
        None
    }
}

impl Open {
    /// The open in an entry, if the entry has its pieces, its first piece is
    /// a day and its metadata can be read.
    pub fn from_entry(entry: &Entry) -> (r: Option<Self>)
        ensures
            match open_parsed(*entry) {
                Some(v) => r matches Some(d) && d@ == v,
                None => r is None,
            },
    {
        if entry.inner.len() < 2 {
            return None;
        }
        match day_of(&entry.inner[0]) {
            Some(date) => match metadata_from(entry, 2) {
                Some(meta) => Some(
                    Open {
                        date,
                        account: entry.inner[1].text.clone(),
                        ccys: ccys_from(entry, 2),
                        meta,
                        debug: DebugLine { line: entry.line },
                    },
                ),
                None => None,
            },
            None => None,
        }
    }
}

/// Whether the entry of a transaction names a payee: its fourth piece is a
/// narration, so that its third is the payee.
pub open spec fn names_payee(e: Entry) -> bool {
    e.inner@.len() > 3 && e.inner@[3].rule == Rule::Narration
}

/// The pieces of the entry of a transaction behind day, type, payee and
/// narration.
pub open spec fn parts(e: Entry) -> Seq<Entry> {
    behind(e, if names_payee(e) { 4 } else { 3 })
}

/// The transaction in an entry: its pieces are the day, the type, the payee
/// if one is named, the narration, and then postings, metadata, links and
/// tags. A link or a tag among them makes the text of the whole entry the
/// link or the tag of the transaction.
pub open spec fn transaction_parsed(e: Entry) -> Option<TransactionView> {
    if e.inner@.len() >= 3 && are_parts(parts(e)) {
        match (day_read(e.inner@[0].text@), postings_among(parts(e)), metadata_among(parts(e))) {
            (Some(date), Some(postings), Some(meta)) => Some(
                TransactionView {
                    date,
                    ty: e.inner@[1].text@,
                    payee: if names_payee(e) {
                        Some(e.inner@[2].text@)
                    } else {
                        None
                    },
                    narration: if names_payee(e) {
                        e.inner@[3].text@
                    } else {
                        e.inner@[2].text@
                    },
                    tag: if has_rule(parts(e), Rule::Tag) {
                        Some(e.text@)
                    } else {
                        None
                    },
                    link: if has_rule(parts(e), Rule::Link) {
                        Some(e.text@)
                    } else {
                        None
                    },
                    postings,
                    meta,
                    line: e.line as nat,
                },
            ),
            _ => None,
        }
    } else {
        None
    }
}

impl Transaction {
    /// The transaction in an entry, if the entry has its pieces, its first
    /// piece is a day, and what follows the narration are postings,
    /// metadata, links and tags that can be read.
    pub fn from_entry(entry: &Entry) -> (r: Option<Self>)
        ensures
            match transaction_parsed(*entry) {
                Some(v) => r matches Some(t) && t@ == v,
                None => r is None,
            },
    {
        if entry.inner.len() < 3 {
            return None;
        }
        let date = match day_of(&entry.inner[0]) {
            Some(date) => date,
            None => {
                return None;
            },
        };
        let ty = entry.inner[1].text.clone();
        let with_payee = entry.inner.len() > 3 && entry.inner[3].rule == Rule::Narration;
        let given = if with_payee {
            Some(entry.inner[3].text.clone())
        } else {
            None
        };
        let (payee, narration) = crate::data::get_payee_narration(entry.inner[2].text.clone(), given);
        let from: usize = if with_payee { 4 } else { 3 };
        let ghost rest = parts(*entry);
        let mut postings: Vec<Posting> = Vec::new();
        let mut meta: Vec<Metadata> = Vec::new();
        let mut link: Option<String> = None;
        let mut tag: Option<String> = None;
        let mut i: usize = from;
        assert(postings_view(postings@) =~= Seq::<PostingView>::empty());
        assert(meta_view(meta@) =~= Seq::<MetadataView>::empty());
        assert(rest.take(0) =~= Seq::<Entry>::empty());
        while i < entry.inner.len()
            invariant
                from <= i <= entry.inner@.len(),
                entry.inner@.len() >= 3,
                rest == behind(*entry, from as int),
                rest == parts(*entry),
                are_parts(rest.take(i - from)),
                postings_among(rest.take(i - from)) == Some(postings_view(postings@)),
                metadata_among(rest.take(i - from)) == Some(meta_view(meta@)),
                crate::data::opt_text(link) == if has_rule(rest.take(i - from), Rule::Link) {
                    Some(entry.text@)
                } else {
                    None
                },
                crate::data::opt_text(tag) == if has_rule(rest.take(i - from), Rule::Tag) {
                    Some(entry.text@)
                } else {
                    None
                },
            decreases entry.inner.len() - i,
        {
            let ghost done = rest.take(i - from);
            let ghost next = rest.take(i - from + 1);
            proof {
                assert(next.drop_last() =~= done);
                assert(next.last() == entry.inner@[i as int]);
                assert(next[i - from] == entry.inner@[i as int]);
                assert forall|k: int| 0 <= k < done.len() implies done[k] == #[trigger] next[k] by {}
                assert forall|rule: Rule|
                    has_rule(next, rule) == (has_rule(done, rule) || entry.inner@[i as int].rule
                        == rule) by {
                    if has_rule(done, rule) {
                        let k = choose|k: int| 0 <= k < done.len() && (#[trigger] done[k]).rule == rule;
                        assert(next[k].rule == rule);
                    }
                    if has_rule(next, rule) {
                        let k = choose|k: int| 0 <= k < next.len() && (#[trigger] next[k]).rule == rule;
                        if k < done.len() {
                            assert(done[k].rule == rule);
                        }
                    }
                }
            }
            let ghost postings_before = postings_view(postings@);
            let ghost meta_before = meta_view(meta@);
            let part = &entry.inner[i];
            match part.rule {
                Rule::Posting => {
                    match Posting::from_entry(part) {
                        Some(p) => {
                            postings.push(p);
                            assert(postings_view(postings@) =~= postings_before.push(
                                posting_parsed(*part)->0,
                            ));
                        },
                        None => {
                            proof {
                                lemma_postings_unread(rest, i - from + 1);
                            }
                            return None;
                        },
                    }
                },
                Rule::Metadata => {
                    match Metadata::from_entry(part) {
                        Some(m) => {
                            meta.push(m);
                            assert(meta_view(meta@) =~= meta_before.push(metadata_parsed(*part)->0));
                        },
                        None => {
                            proof {
                                lemma_metadata_unread(rest, i - from + 1);
                            }
                            return None;
                        },
                    }
                },
                Rule::Link => {
                    link = Some(entry.text.clone());
                },
                Rule::Tag => {
                    tag = Some(entry.text.clone());
                },
                _ => {
                    assert(rest[i - from] == entry.inner@[i as int]);
                    return None;
                },
            }
            i += 1;
        }
        proof {
            assert(rest.take(i - from) =~= rest);
        }
        Some(
            Transaction {
                date,
                ty,
                payee,
                narration,
                tag,
                link,
                postings,
                meta,
                debug: DebugLine { line: entry.line },
            },
        )
    }
}

/// The options after an entry: its first piece names the option, `title` or
/// `operating_currency`, and its second is the value. Nothing where the
/// entry names another option or lacks a piece.
pub open spec fn options_updated(title: Seq<char>, currency: Seq<char>, e: Entry) -> Option<
    (Seq<char>, Seq<char>),
> {
    if e.inner@.len() < 2 {
        None
    } else if e.inner@[0].text@ == "title"@ {
        Some((e.inner@[1].text@, currency))
    } else if e.inner@[0].text@ == "operating_currency"@ {
        Some((title, e.inner@[1].text@))
    } else {
        None
    }
}

impl Options {
    /// Sets the option that the entry names and says whether it did: it
    /// knows `title` and `operating_currency`, and leaves the options as
    /// they are for any other.
    pub fn update_from_entry(&mut self, entry: &Entry) -> (r: bool)
        ensures
            match options_updated(old(self).title@, old(self).operating_currency@, *entry) {
                Some(v) => r && final(self).title@ == v.0 && final(self).operating_currency@ == v.1,
                None => !r && *final(self) == *old(self),
            },
    {
        if entry.inner.len() < 2 {
            return false;
        }
        if entry.inner[0].text == String::from_str("title") {
            self.title = entry.inner[1].text.clone();
            true
        } else if entry.inner[0].text == String::from_str("operating_currency") {
            self.operating_currency = entry.inner[1].text.clone();
            true
        } else {
            false
        }
    }
}

} // verus!
