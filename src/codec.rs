//! Rows of text to records: the transaction row
//! `type,client,tx,amount[,disputed]` and the account row
//! `client,available,held,total,locked`, field by field.

use crate::account::{Account, AccountView};
use crate::amount::{parsed_amount, Amount};
use crate::text::{amount_text, digits_of, flag_text, flag_to_text, unsigned_text};
use crate::transaction::{ClientId, Transaction, TransactionType, TxView};
use vstd::prelude::*;
use vstd::string::StrSliceExecFns;

verus! {

/// What `str::trim` leaves of a text.
pub uninterp spec fn trimmed_of(s: Seq<char>) -> Seq<char>;

/// Relies on `str::trim`: the text without leading and trailing whitespace;
/// depends on the text alone.
#[verifier::external_body]
fn trim_text(s: &str) -> (r: String)
    ensures
        r@ == trimmed_of(s@),
{
    s.trim().to_string()
}

/// Whether `c` is an ASCII decimal digit.
pub open spec fn is_digit(c: char) -> bool {
    '0' <= c && c <= '9'
}

/// The value of a string of decimal digits (zero for the empty string).
pub open spec fn digits_value(ds: Seq<char>) -> nat
    decreases ds.len(),
{
    if ds.len() == 0 {
        0
    } else {
        digits_value(ds.drop_last()) * 10 + ((ds.last() as u32 - '0' as u32) as nat)
    }
}

/// The digits of an unsigned decimal text: the text without one leading
/// `+`.
pub open spec fn unsigned_digits(s: Seq<char>) -> Seq<char> {
    if s.len() > 0 && s[0] == '+' {
        s.drop_first()
    } else {
        s
    }
}

/// The unsigned integer a text names, as `FromStr` for the unsigned types
/// reads it: an optional `+`, then one or more ASCII digits, with a value
/// of at most `max`.
pub open spec fn unsigned_of_text(s: Seq<char>, max: nat) -> Option<nat> {
    let ds = unsigned_digits(s);
    if ds.len() > 0 && (forall|i: int| 0 <= i < ds.len() ==> is_digit(#[trigger] ds[i]))
        && digits_value(ds) <= max {
        Some(digits_value(ds))
    } else {
        None
    }
}

/// The client id a text names.
pub open spec fn u16_of_text(s: Seq<char>) -> Option<u16> {
    match unsigned_of_text(s, u16::MAX as nat) {
        Some(v) => Some(v as u16),
        None => None,
    }
}

/// The transaction id a text names.
pub open spec fn u32_of_text(s: Seq<char>) -> Option<u32> {
    match unsigned_of_text(s, u32::MAX as nat) {
        Some(v) => Some(v as u32),
        None => None,
    }
}

/// Adding digits never makes the value smaller.
proof fn lemma_digits_value_grows(ds: Seq<char>, i: int, n: int)
    requires
        0 <= i <= n <= ds.len(),
        forall|k: int| 0 <= k < ds.len() ==> is_digit(#[trigger] ds[k]),
    ensures
        digits_value(ds.take(i)) <= digits_value(ds.take(n)),
    decreases n - i,
{
    if i < n {
        lemma_digits_value_grows(ds, i, n - 1);
        assert(ds.take(n).drop_last() =~= ds.take(n - 1));
    }
}

/// The unsigned integer `s` names, if it is at most `max`.
fn parse_unsigned(s: &str, max: u32) -> (r: Option<u32>)
    ensures
        match unsigned_of_text(s@, max as nat) {
            Some(v) => r == Some(v as u32),
            None => r is None,
        },
{
    let n = s.unicode_len();
    let ghost ds = unsigned_digits(s@);
    let mut i: usize = 0;
    if n > 0 && s.get_char(0) == '+' {
        i = 1;
    }
    let start = i;
    proof {
        assert(ds =~= s@.subrange(start as int, n as int));
        assert(ds.take(0) =~= Seq::<char>::empty());
    }
    if start == n {
        return None;
    }
    let mut acc: u64 = 0;
    while i < n
        invariant
            start <= i <= n,
            n == s@.len(),
            start < n,
            ds == s@.subrange(start as int, n as int),
            ds == unsigned_digits(s@),
            acc <= max,
            acc as nat == digits_value(ds.take(i - start)),
            forall|k: int| 0 <= k < i - start ==> is_digit(#[trigger] ds[k]),
        decreases n - i,
    {
        let c = s.get_char(i);
        proof {
            assert(ds[i - start] == c);
            assert(ds.take(i - start + 1).drop_last() =~= ds.take(i - start));
        }
        if c < '0' || c > '9' {
            proof {
                assert(!is_digit(ds[i - start]));
            }
            return None;
        }
        let d = (c as u32 - '0' as u32) as u64;
        acc = acc * 10 + d;
        proof {
            assert(ds.take(i - start + 1).last() == c);
            assert(acc as nat == digits_value(ds.take(i - start + 1)));
        }
        if acc > max as u64 {
            proof {
                if forall|k: int| 0 <= k < ds.len() ==> is_digit(#[trigger] ds[k]) {
                    lemma_digits_value_grows(ds, i - start + 1, ds.len() as int);
                    assert(ds.take(ds.len() as int) =~= ds);
                }
            }
            return None;
        }
        i = i + 1;
    }
    proof {
        assert(ds.take(n - start) =~= ds);
    }
    Some(acc as u32)
}

/// The client id `s` names, read as `u16::from_str` reads it.
fn parse_u16(s: &str) -> (r: Option<u16>)
    ensures
        r == u16_of_text(s@),
{
    match parse_unsigned(s, 65535) {
        Some(v) => Some(v as u16),
        None => None,
    }
}

/// The transaction id `s` names, read as `u32::from_str` reads it.
fn parse_u32(s: &str) -> (r: Option<u32>)
    ensures
        r == u32_of_text(s@),
{
    parse_unsigned(s, 4294967295)
}

/// Why a row could not be read.
#[derive(Clone, Copy, Debug, PartialEq, Eq, Structural)]
pub enum DecodeError {
    MissingField,
    UnknownTransactionType,
    InvalidClientId,
    InvalidTxId,
    InvalidDecimal,
    InvalidBool,
}

pub open spec fn ascii_lower(c: char) -> char {
    if 'A' <= c && c <= 'Z' {
        (((c as u8) + 32) as u8) as char
    } else {
        c
    }
}

/// A text with its ASCII capitals made small.
pub open spec fn lower_text(s: Seq<char>) -> Seq<char> {
    s.map_values(|c: char| ascii_lower(c))
}

fn lower_char(c: char) -> (r: char)
    ensures
        r == ascii_lower(c),
{
    if 'A' <= c && c <= 'Z' {
        ((c as u8) + 32) as char
    } else {
        c
    }
}

/// Whether two texts are equal once their ASCII capitals are made small.
fn same_ignoring_case(s: &str, t: &str) -> (r: bool)
    ensures
        r == (lower_text(s@) == lower_text(t@)),
{
    let n = s.unicode_len();
    if n != t.unicode_len() {
        proof {
            assert(lower_text(s@).len() != lower_text(t@).len());
        }
        return false;
    }
    let mut i: usize = 0;
    while i < n
        invariant
            n == s@.len() == t@.len(),
            i <= n,
            forall|j: int| 0 <= j < i ==> ascii_lower(s@[j]) == ascii_lower(t@[j]),
        decreases n - i,
    {
        if lower_char(s.get_char(i)) != lower_char(t.get_char(i)) {
            proof {
                assert(lower_text(s@)[i as int] != lower_text(t@)[i as int]);
            }
            return false;
        }
        i = i + 1;
    }
    proof {
        assert(lower_text(s@) =~= lower_text(t@));
    }
    true
}

/// The name of each kind, as rows write it.
pub open spec fn kind_name(k: TransactionType) -> Seq<char> {
    match k {
        TransactionType::Deposit => seq!['d', 'e', 'p', 'o', 's', 'i', 't'],
        TransactionType::Withdrawal => seq!['w', 'i', 't', 'h', 'd', 'r', 'a', 'w', 'a', 'l'],
        TransactionType::Dispute => seq!['d', 'i', 's', 'p', 'u', 't', 'e'],
        TransactionType::Resolve => seq!['r', 'e', 's', 'o', 'l', 'v', 'e'],
        TransactionType::Chargeback => seq!['c', 'h', 'a', 'r', 'g', 'e', 'b', 'a', 'c', 'k'],
    }
}

/// The kind a text names, in any mix of upper and lower case. Kind names
/// are ASCII, so only ASCII capitals are folded: any other character must
/// match exactly (a Kelvin sign does not stand for `k`).
pub open spec fn kind_of_text(s: Seq<char>) -> Option<TransactionType> {
    if lower_text(s) == kind_name(TransactionType::Deposit) {
        Some(TransactionType::Deposit)
    } else if lower_text(s) == kind_name(TransactionType::Withdrawal) {
        Some(TransactionType::Withdrawal)
    } else if lower_text(s) == kind_name(TransactionType::Dispute) {
        Some(TransactionType::Dispute)
    } else if lower_text(s) == kind_name(TransactionType::Resolve) {
        Some(TransactionType::Resolve)
    } else if lower_text(s) == kind_name(TransactionType::Chargeback) {
        Some(TransactionType::Chargeback)
    } else {
        None
    }
}

proof fn lemma_lower_of_name(k: TransactionType)
    ensures
        lower_text(kind_name(k)) == kind_name(k),
{
    assert(lower_text(kind_name(k)) =~= kind_name(k));
}

impl TransactionType {
    /// The kind's name, in lower case.
    pub fn name(&self) -> (r: &'static str)
        ensures
            r@ == kind_name(*self),
    {
        match self {
            TransactionType::Deposit => {
                proof {
                    reveal_strlit("deposit");
                }
                "deposit"
            },
            TransactionType::Withdrawal => {
                proof {
                    reveal_strlit("withdrawal");
                }
                "withdrawal"
            },
            TransactionType::Dispute => {
                proof {
                    reveal_strlit("dispute");
                }
                "dispute"
            },
            TransactionType::Resolve => {
                proof {
                    reveal_strlit("resolve");
                }
                "resolve"
            },
            TransactionType::Chargeback => {
                proof {
                    reveal_strlit("chargeback");
                }
                "chargeback"
            },
        }
    }

    /// The kind `s` names, ignoring ASCII case (only `A`-`Z` are folded to
    /// `a`-`z`; other characters must match exactly); the text is taken as
    /// it is, so callers trim it first.
    pub fn from_name(s: &str) -> (r: Option<TransactionType>)
        ensures
            r == kind_of_text(s@),
    {
        proof {
            lemma_lower_of_name(TransactionType::Deposit);
            lemma_lower_of_name(TransactionType::Withdrawal);
            lemma_lower_of_name(TransactionType::Dispute);
            lemma_lower_of_name(TransactionType::Resolve);
            lemma_lower_of_name(TransactionType::Chargeback);
        }
        if same_ignoring_case(s, TransactionType::Deposit.name()) {
            Some(TransactionType::Deposit)
        } else if same_ignoring_case(s, TransactionType::Withdrawal.name()) {
            Some(TransactionType::Withdrawal)
        } else if same_ignoring_case(s, TransactionType::Dispute.name()) {
            Some(TransactionType::Dispute)
        } else if same_ignoring_case(s, TransactionType::Resolve.name()) {
            Some(TransactionType::Resolve)
        } else if same_ignoring_case(s, TransactionType::Chargeback.name()) {
            Some(TransactionType::Chargeback)
        } else {
            None
        }
    }
}

/// Whether two texts are equal, character by character.
fn same_text(s: &str, t: &str) -> (r: bool)
    ensures
        r == (s@ == t@),
{
    let n = s.unicode_len();
    if n != t.unicode_len() {
        return false;
    }
    let mut i: usize = 0;
    while i < n
        invariant
            n == s@.len() == t@.len(),
            i <= n,
            forall|j: int| 0 <= j < i ==> s@[j] == t@[j],
        decreases n - i,
    {
        if s.get_char(i) != t.get_char(i) {
            return false;
        }
        i = i + 1;
    }
    proof {
        assert(s@ =~= t@);
    }
    true
}

/// The flag a text names: exactly `true` or `false`.
pub open spec fn bool_of_text(s: Seq<char>) -> Option<bool> {
    if s == seq!['t', 'r', 'u', 'e'] {
        Some(true)
    } else if s == seq!['f', 'a', 'l', 's', 'e'] {
        Some(false)
    } else {
        None
    }
}

/// The flag `s` names: exactly `true` or `false`.
pub fn parse_bool(s: &str) -> (r: Option<bool>)
    ensures
        r == bool_of_text(s@),
{
    proof {
        reveal_strlit("true");
        reveal_strlit("false");
        assert("true"@ =~= seq!['t', 'r', 'u', 'e']);
        assert("false"@ =~= seq!['f', 'a', 'l', 's', 'e']);
    }
    if same_text(s, "true") {
        Some(true)
    } else if same_text(s, "false") {
        Some(false)
    } else {
        None
    }
}

/// The texts of a row's fields.
pub open spec fn texts(fields: Seq<String>) -> Seq<Seq<char>> {
    fields.map_values(|f: String| f@)
}

/// The amount in field `i`, if there is such a field and it is not blank.
pub open spec fn optional_amount(f: Seq<Seq<char>>, i: Option<usize>) -> Result<Option<int>, DecodeError> {
    match i {
        Some(i) if i < f.len() => optional_amount_of(f[i as int]),
        _ => Ok(None),
    }
}

/// The flag in field `i`, false if there is no such field or it is blank.
pub open spec fn optional_flag(f: Seq<Seq<char>>, i: Option<usize>) -> Result<bool, DecodeError> {
    match i {
        Some(i) if i < f.len() && trimmed_of(f[i as int]).len() > 0 => match bool_of_text(
            trimmed_of(f[i as int]),
        ) {
            Some(b) => Ok(b),
            None => Err(DecodeError::InvalidBool),
        },
        _ => Ok(false),
    }
}

/// Where the columns of a transaction row stand, as its header names them.
#[derive(Clone, Copy, Debug, PartialEq, Eq, Structural)]
pub struct RecordLayout {
    pub ty: usize,
    pub client: usize,
    pub tx: usize,
    pub amount: Option<usize>,
    pub disputed: Option<usize>,
}

/// The first column of a header whose trimmed name is `name`.
pub open spec fn column_of(h: Seq<Seq<char>>, name: Seq<char>) -> Option<usize>
    decreases h.len(),
{
    if h.len() == 0 {
        None
    } else {
        match column_of(h.drop_last(), name) {
            Some(i) => Some(i),
            None => if trimmed_of(h.last()) == name {
                Some((h.len() - 1) as usize)
            } else {
                None
            },
        }
    }
}

pub open spec fn type_column() -> Seq<char> {
    seq!['t', 'y', 'p', 'e']
}

pub open spec fn client_column() -> Seq<char> {
    seq!['c', 'l', 'i', 'e', 'n', 't']
}

pub open spec fn tx_column() -> Seq<char> {
    seq!['t', 'x']
}

pub open spec fn amount_column() -> Seq<char> {
    seq!['a', 'm', 'o', 'u', 'n', 't']
}

pub open spec fn disputed_column() -> Seq<char> {
    seq!['d', 'i', 's', 'p', 'u', 't', 'e', 'd']
}

/// The layout a header gives: the columns named `type`, `client`, `tx`,
/// `amount` and `disputed`; the first three must be there.
pub open spec fn layout_of_header(h: Seq<Seq<char>>) -> Option<RecordLayout> {
    match (column_of(h, type_column()), column_of(h, client_column()), column_of(h, tx_column())) {
        (Some(ty), Some(client), Some(tx)) => Some(
            RecordLayout {
                ty,
                client,
                tx,
                amount: column_of(h, amount_column()),
                disputed: column_of(h, disputed_column()),
            },
        ),
        _ => None,
    }
}

/// The record a transaction row holds under layout `l`: every field is
/// trimmed, the kind is read in any case, a blank or absent amount is no
/// amount and a blank or absent flag is false.
pub open spec fn transaction_of_row(f: Seq<Seq<char>>, l: RecordLayout) -> Result<TxView, DecodeError> {
    if l.ty >= f.len() || l.client >= f.len() || l.tx >= f.len() {
        Err(DecodeError::MissingField)
    } else {
        match kind_of_text(trimmed_of(f[l.ty as int])) {
            None => Err(DecodeError::UnknownTransactionType),
            Some(ty) => match u16_of_text(trimmed_of(f[l.client as int])) {
                None => Err(DecodeError::InvalidClientId),
                Some(client) => match u32_of_text(trimmed_of(f[l.tx as int])) {
                    None => Err(DecodeError::InvalidTxId),
                    Some(tx) => match optional_amount(f, l.amount) {
                        Err(e) => Err(e),
                        Ok(amount) => match optional_flag(f, l.disputed) {
                            Err(e) => Err(e),
                            Ok(disputed) => Ok(TxView { ty, client, tx, amount, disputed }),
                        },
                    },
                },
            },
        }
    }
}

/// The first column of `header` whose trimmed name is `name`.
fn find_column(header: &Vec<String>, name: &str) -> (r: Option<usize>)
    ensures
        r == column_of(texts(header@), name@),
{
    let ghost h = texts(header@);
    let mut i: usize = 0;
    while i < header.len()
        invariant
            i <= header@.len(),
            h == texts(header@),
            column_of(h.take(i as int), name@) is None,
        decreases header@.len() - i,
    {
        let ghost next = h.take(i + 1);
        proof {
            assert(next.drop_last() =~= h.take(i as int));
            assert(next.last() == header@[i as int]@);
        }
        let t = trim_text(header[i].as_str());
        if same_text(t.as_str(), name) {
            proof {
                lemma_column_of_prefix(h, i + 1, name@);
            }
            return Some(i);
        }
        i = i + 1;
    }
    proof {
        assert(h.take(i as int) =~= h);
    }
    None
}

/// A column found in a prefix of the header is the one found in the whole.
proof fn lemma_column_of_prefix(h: Seq<Seq<char>>, n: int, name: Seq<char>)
    requires
        0 <= n <= h.len(),
        column_of(h.take(n), name) is Some,
    ensures
        column_of(h, name) == column_of(h.take(n), name),
    decreases h.len() - n,
{
    if n < h.len() {
        assert(h.take(n + 1).drop_last() =~= h.take(n));
        lemma_column_of_prefix(h, n + 1, name);
    } else {
        assert(h.take(n) =~= h);
    }
}

impl RecordLayout {
    /// The layout a transaction header gives, or `None` where it lacks the
    /// `type`, `client` or `tx` column.
    pub fn from_header(header: &Vec<String>) -> (r: Option<RecordLayout>)
        ensures
            r == layout_of_header(texts(header@)),
    {
        proof {
            reveal_strlit("type");
            reveal_strlit("client");
            reveal_strlit("tx");
            reveal_strlit("amount");
            reveal_strlit("disputed");
            assert("type"@ =~= type_column());
            assert("client"@ =~= client_column());
            assert("tx"@ =~= tx_column());
            assert("amount"@ =~= amount_column());
            assert("disputed"@ =~= disputed_column());
        }
        let ty = find_column(header, "type");
        let client = find_column(header, "client");
        let tx = find_column(header, "tx");
        let amount = find_column(header, "amount");
        let disputed = find_column(header, "disputed");
        match (ty, client, tx) {
            (Some(ty), Some(client), Some(tx)) => Some(RecordLayout { ty, client, tx, amount, disputed }),
            _ => None,
        }
    }
}

/// The account an account row `client,available,held,total,locked` holds,
/// with every field trimmed.
pub open spec fn account_of_row(f: Seq<Seq<char>>) -> Result<(ClientId, AccountView), DecodeError> {
    if f.len() < 5 {
        Err(DecodeError::MissingField)
    } else {
        match u16_of_text(trimmed_of(f[0])) {
            None => Err(DecodeError::InvalidClientId),
            Some(client) => match (
                parsed_amount(trimmed_of(f[1])),
                parsed_amount(trimmed_of(f[2])),
                parsed_amount(trimmed_of(f[3])),
            ) {
                (Some(available), Some(held), Some(total)) => match bool_of_text(
                    trimmed_of(f[4]),
                ) {
                    Some(locked) => Ok((client, AccountView { available, held, total, locked })),
                    None => Err(DecodeError::InvalidBool),
                },
                _ => Err(DecodeError::InvalidDecimal),
            },
        }
    }
}


/// The amount an optional field holds: none when the trimmed text is
/// empty, else the parsed and rounded amount.
pub open spec fn optional_amount_of(s: Seq<char>) -> Result<Option<int>, DecodeError> {
    if trimmed_of(s).len() == 0 {
        Ok(None)
    } else {
        match parsed_amount(trimmed_of(s)) {
            Some(v) => Ok(Some(v)),
            None => Err(DecodeError::InvalidDecimal),
        }
    }
}

/// Reads the amount of a transaction row: blank means no amount; anything
/// else is trimmed, parsed and rounded to four places.
pub fn deserialize_amount(s: &str) -> (r: Result<Option<Amount>, DecodeError>)
    ensures
        match optional_amount_of(s@) {
            Ok(Some(v)) => r matches Ok(Some(a)) && a@ == v,
            Ok(None) => r == Ok::<Option<Amount>, DecodeError>(None),
            Err(e) => r == Err::<Option<Amount>, DecodeError>(e),
        },
{
    let t = trim_text(s);
    if t.unicode_len() == 0 {
        return Ok(None);
    }
    match Amount::parse(t.as_str()) {
        Some(a) => Ok(Some(a)),
        None => Err(DecodeError::InvalidDecimal),
    }
}

/// Reads the amount of an account row: trimmed, parsed and rounded to four
/// places; a blank field is an error.
pub fn deserialize_account_amount(s: &str) -> (r: Result<Amount, DecodeError>)
    ensures
        match parsed_amount(trimmed_of(s@)) {
            Some(v) => r matches Ok(a) && a@ == v,
            None => r == Err::<Amount, DecodeError>(DecodeError::InvalidDecimal),
        },
{
    let t = trim_text(s);
    match Amount::parse(t.as_str()) {
        Some(a) => Ok(a),
        None => Err(DecodeError::InvalidDecimal),
    }
}

/// Reads a transaction row laid out as `layout` says.
pub fn decode_transaction(fields: &Vec<String>, layout: &RecordLayout) -> (r: Result<
    Transaction,
    DecodeError,
>)
    ensures
        match transaction_of_row(texts(fields@), *layout) {
            Ok(v) => r matches Ok(t) && t@ == v,
            Err(e) => r == Err::<Transaction, DecodeError>(e),
        },
{
    let ghost f = texts(fields@);
    let n = fields.len();
    if layout.ty >= n || layout.client >= n || layout.tx >= n {
        return Err(DecodeError::MissingField);
    }
    let kind_text = trim_text(fields[layout.ty].as_str());
    let ty = match TransactionType::from_name(kind_text.as_str()) {
        Some(k) => k,
        None => return Err(DecodeError::UnknownTransactionType),
    };
    let client_text = trim_text(fields[layout.client].as_str());
    let client = match parse_u16(client_text.as_str()) {
        Some(c) => c,
        None => return Err(DecodeError::InvalidClientId),
    };
    let tx_text = trim_text(fields[layout.tx].as_str());
    let tx = match parse_u32(tx_text.as_str()) {
        Some(t) => t,
        None => return Err(DecodeError::InvalidTxId),
    };
    let mut amount: Option<Amount> = None;
    match layout.amount {
        Some(i) => {
            if i < n {
                amount = match deserialize_amount(fields[i].as_str()) {
                    Ok(a) => a,
                    Err(e) => return Err(e),
                };
            }
        },
        None => {},
    }
    let mut disputed = false;
    match layout.disputed {
        Some(i) => {
            if i < n {
                let flag_text = trim_text(fields[i].as_str());
                if flag_text.unicode_len() > 0 {
                    disputed = match parse_bool(flag_text.as_str()) {
                        Some(b) => b,
                        None => return Err(DecodeError::InvalidBool),
                    };
                }
            }
        },
        None => {},
    }
    Ok(Transaction { ty, client, tx, amount, disputed })
}

/// Reads an account row.
pub fn decode_account(fields: &Vec<String>) -> (r: Result<(ClientId, Account), DecodeError>)
    ensures
        match account_of_row(texts(fields@)) {
            Ok((c, v)) => r matches Ok((c2, a)) && c2 == c && a@ == v,
            Err(e) => r == Err::<(ClientId, Account), DecodeError>(e),
        },
{
    let ghost f = texts(fields@);
    if fields.len() < 5 {
        return Err(DecodeError::MissingField);
    }
    assert(f[0] == fields@[0]@ && f[1] == fields@[1]@ && f[2] == fields@[2]@);
    assert(f[3] == fields@[3]@ && f[4] == fields@[4]@);
    let client_text = trim_text(fields[0].as_str());
    let client = match parse_u16(client_text.as_str()) {
        Some(c) => c,
        None => return Err(DecodeError::InvalidClientId),
    };
    let available = deserialize_account_amount(fields[1].as_str());
    let held = deserialize_account_amount(fields[2].as_str());
    let total = deserialize_account_amount(fields[3].as_str());
    match (available, held, total) {
        (Ok(available), Ok(held), Ok(total)) => {
            let flag_text = trim_text(fields[4].as_str());
            match parse_bool(flag_text.as_str()) {
                Some(locked) => Ok((client, Account { available, held, total, locked })),
                None => Err(DecodeError::InvalidBool),
            }
        },
        _ => Err(DecodeError::InvalidDecimal),
    }
}

/// The fields of an account dump row: client, available, held, total,
/// locked.
pub open spec fn account_row_of(client: ClientId, a: AccountView) -> Seq<Seq<char>> {
    seq![
        digits_of(client as nat),
        amount_text(a.available),
        amount_text(a.held),
        amount_text(a.total),
        flag_text(a.locked),
    ]
}

/// The fields of a transaction log dump row: type, client, tx, amount (blank
/// when there is none), disputed.
pub open spec fn transaction_row_of(t: TxView) -> Seq<Seq<char>> {
    seq![
        kind_name(t.ty),
        digits_of(t.client as nat),
        digits_of(t.tx as nat),
        match t.amount {
            Some(v) => amount_text(v),
            None => Seq::<char>::empty(),
        },
        flag_text(t.disputed),
    ]
}

/// Writes out one account as the fields of a dump row.
pub fn account_row(client: ClientId, account: &Account) -> (r: Vec<String>)
    ensures
        texts(r@) == account_row_of(client, account@),
{
    let mut row: Vec<String> = Vec::new();
    row.push(unsigned_text(client as u128));
    row.push(account.available.to_text());
    row.push(account.held.to_text());
    row.push(account.total.to_text());
    row.push(flag_to_text(account.locked));
    proof {
        assert(texts(row@) =~= account_row_of(client, account@));
    }
    row
}

/// Writes out one logged record as the fields of a dump row.
pub fn transaction_row(t: &Transaction) -> (r: Vec<String>)
    ensures
        texts(r@) == transaction_row_of(t@),
{
    let mut row: Vec<String> = Vec::new();
    row.push(t.ty.name().to_owned());
    row.push(unsigned_text(t.client as u128));
    row.push(unsigned_text(t.tx as u128));
    match t.amount {
        Some(a) => row.push(a.to_text()),
        None => row.push(String::new()),
    }
    row.push(flag_to_text(t.disputed));
    proof {
        assert(texts(row@) =~= transaction_row_of(t@));
    }
    row
}

/// The header of an account dump.
pub fn account_header() -> (r: Vec<String>)
    ensures
        texts(r@) == seq![
            client_column(),
            seq!['a', 'v', 'a', 'i', 'l', 'a', 'b', 'l', 'e'],
            seq!['h', 'e', 'l', 'd'],
            seq!['t', 'o', 't', 'a', 'l'],
            seq!['l', 'o', 'c', 'k', 'e', 'd'],
        ],
{
    proof {
        reveal_strlit("client");
        reveal_strlit("available");
        reveal_strlit("held");
        reveal_strlit("total");
        reveal_strlit("locked");
        assert("client"@ =~= client_column());
        assert("available"@ =~= seq!['a', 'v', 'a', 'i', 'l', 'a', 'b', 'l', 'e']);
        assert("held"@ =~= seq!['h', 'e', 'l', 'd']);
        assert("total"@ =~= seq!['t', 'o', 't', 'a', 'l']);
        assert("locked"@ =~= seq!['l', 'o', 'c', 'k', 'e', 'd']);
    }
    let mut row: Vec<String> = Vec::new();
    row.push("client".to_owned());
    row.push("available".to_owned());
    row.push("held".to_owned());
    row.push("total".to_owned());
    row.push("locked".to_owned());
    proof {
        assert(texts(row@) =~= seq![
            client_column(),
            seq!['a', 'v', 'a', 'i', 'l', 'a', 'b', 'l', 'e'],
            seq!['h', 'e', 'l', 'd'],
            seq!['t', 'o', 't', 'a', 'l'],
            seq!['l', 'o', 'c', 'k', 'e', 'd'],
        ]);
    }
    row
}

/// The header of a transaction log dump.
pub fn transaction_header() -> (r: Vec<String>)
    ensures
        texts(r@) == seq![type_column(), client_column(), tx_column(), amount_column(), disputed_column()],
{
    proof {
        reveal_strlit("type");
        reveal_strlit("client");
        reveal_strlit("tx");
        reveal_strlit("amount");
        reveal_strlit("disputed");
        assert("type"@ =~= type_column());
        assert("client"@ =~= client_column());
        assert("tx"@ =~= tx_column());
        assert("amount"@ =~= amount_column());
        assert("disputed"@ =~= disputed_column());
    }
    let mut row: Vec<String> = Vec::new();
    row.push("type".to_owned());
    row.push("client".to_owned());
    row.push("tx".to_owned());
    row.push("amount".to_owned());
    row.push("disputed".to_owned());
    proof {
        assert(texts(row@) =~= seq![
            type_column(),
            client_column(),
            tx_column(),
            amount_column(),
            disputed_column(),
        ]);
    }
    row
}

} // verus!
