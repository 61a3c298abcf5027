//! Replays a whole input log: reads the rows of a CSV text (through the
//! `csv` crate), parses each row into a transaction, feeds the ledger, and
//! renders the final balances. Everything after the raw row split is
//! verified; `run_of` is the exact specification of the output text.

use vstd::prelude::*;
use vstd::string::StrSliceExecFns;
use vstd::string::StringExecFns;

use crate::amount::{amount_field_of, parse_amount_field};
use crate::ledger::{accounts_of, Ledger};
use crate::model::{step, AccountModel, LedgerModel, TxModel};
use crate::numeric::{digits_of, money4_of, parse_uint, parse_uint_u32, push_digits, push_money4};
use crate::types::{Client, InputRecord, Transaction, TransactionKind};

verus! {

/// The header row that the `csv` crate reads from the input text (fields
/// trimmed), empty where the text has none.
pub uninterp spec fn csv_header_of(s: Seq<char>) -> Seq<Seq<char>>;

/// The data rows that the `csv` crate reads from the input text, in order:
/// each is its trimmed fields, or `None` for a row the reader rejects.
pub uninterp spec fn csv_records_of(s: Seq<char>) -> Seq<Option<Seq<Seq<char>>>>;

/// Relies on csv's `ReaderBuilder`, `Reader::headers` and `Reader::records`
/// (comma delimited, first row as header, all fields trimmed, flexible row
/// lengths): hands back the header fields and every data row's fields, with
/// `None` for a row the reader rejects.
#[verifier::external_body]
fn read_csv(s: &str) -> (r: (Vec<String>, Vec<Option<Vec<String>>>))
    ensures
        r.0.deep_view() == csv_header_of(s@),
        r.1.deep_view() == csv_records_of(s@),
{
    let mut rdr = csv::ReaderBuilder::new().has_headers(true).trim(csv::Trim::All).delimiter(
        b',',
    ).flexible(true).from_reader(s.as_bytes());
    let header: Vec<String> = match rdr.headers() {
        Ok(h) => h.iter().map(|f| f.to_string()).collect(),
        Err(_) => Vec::new(),
    };
    let rows = rdr.records().map(
        |res| res.ok().map(|rec| rec.iter().map(|f| f.to_string()).collect()),
    ).collect();
    (header, rows)
}

/// Whether two strings hold the same characters.
fn str_eq(a: &str, b: &str) -> (r: bool)
    ensures
        r == (a@ == b@),
{
    let na = a.unicode_len();
    let nb = b.unicode_len();
    if na != nb {
        return false;
    }
    let mut i: usize = 0;
    while i < na
        invariant
            i <= na,
            na == a@.len(),
            na == b@.len(),
            forall|j: int| 0 <= j < i ==> a@[j] == b@[j],
        decreases na - i,
    {
        if a.get_char(i) != b.get_char(i) {
            return false;
        }
        i += 1;
    }
    proof {
        assert(a@ =~= b@);
    }
    true
}

/// Index of the first header field with the given name, if any.
pub open spec fn field_idx(hdr: Seq<Seq<char>>, name: Seq<char>) -> Option<int>
    decreases hdr.len(),
{
    if hdr.len() == 0 {
        None
    } else if hdr[0] == name {
        Some(0)
    } else {
        match field_idx(hdr.drop_first(), name) {
            Some(i) => Some(i + 1),
            None => None,
        }
    }
}

proof fn lemma_field_idx_is(hdr: Seq<Seq<char>>, name: Seq<char>, i: int)
    requires
        0 <= i < hdr.len(),
        hdr[i] == name,
        forall|j: int| 0 <= j < i ==> hdr[j] != name,
    ensures
        field_idx(hdr, name) == Some(i),
    decreases hdr.len(),
{
    if i > 0 {
        let rest = hdr.drop_first();
        assert forall|j: int| 0 <= j < i - 1 implies rest[j] != name by {
            assert(rest[j] == hdr[j + 1]);
        }
        assert(rest[i - 1] == hdr[i]);
        lemma_field_idx_is(rest, name, i - 1);
    }
}

proof fn lemma_field_idx_none(hdr: Seq<Seq<char>>, name: Seq<char>)
    requires
        forall|j: int| 0 <= j < hdr.len() ==> hdr[j] != name,
    ensures
        field_idx(hdr, name) is None,
    decreases hdr.len(),
{
    if hdr.len() > 0 {
        let rest = hdr.drop_first();
        assert forall|j: int| 0 <= j < rest.len() implies rest[j] != name by {
            assert(rest[j] == hdr[j + 1]);
        }
        lemma_field_idx_none(rest, name);
    }
}

/// Finds a column by name in the header row, as serde's header matching does.
fn find_field(header: &Vec<String>, name: &str) -> (r: Option<usize>)
    ensures
        match r {
            Some(i) => i < header@.len() && field_idx(header.deep_view(), name@) == Some(i as int),
            None => field_idx(header.deep_view(), name@) is None,
        },
{
    let n = header.len();
    let mut i: usize = 0;
    while i < n
        invariant
            i <= n == header@.len(),
            forall|j: int| 0 <= j < i ==> header.deep_view()[j] != name@,
        decreases n - i,
    {
        proof {
            assert(header.deep_view()[i as int] == header@[i as int]@);
        }
        if str_eq(header[i].as_str(), name) {
            proof {
                lemma_field_idx_is(header.deep_view(), name@, i as int);
            }
            return Some(i);
        }
        i += 1;
    }
    proof {
        lemma_field_idx_none(header.deep_view(), name@);
    }
    None
}

/// The transaction kind a type cell names; the five names are exact, as
/// serde's lowercase variant matching reads them.
pub open spec fn kind_of(s: Seq<char>) -> Option<TransactionKind> {
    if s == "deposit"@ {
        Some(TransactionKind::Deposit)
    } else if s == "withdrawal"@ {
        Some(TransactionKind::Withdrawal)
    } else if s == "dispute"@ {
        Some(TransactionKind::Dispute)
    } else if s == "resolve"@ {
        Some(TransactionKind::Resolve)
    } else if s == "chargeback"@ {
        Some(TransactionKind::Chargeback)
    } else {
        None
    }
}

/// Parses a type cell as `kind_of` says.
fn parse_kind(s: &str) -> (r: Option<TransactionKind>)
    ensures
        r == kind_of(s@),
{
    if str_eq(s, "deposit") {
        Some(TransactionKind::Deposit)
    } else if str_eq(s, "withdrawal") {
        Some(TransactionKind::Withdrawal)
    } else if str_eq(s, "dispute") {
        Some(TransactionKind::Dispute)
    } else if str_eq(s, "resolve") {
        Some(TransactionKind::Resolve)
    } else if str_eq(s, "chargeback") {
        Some(TransactionKind::Chargeback)
    } else {
        None
    }
}

/// The transaction a data row stands for under a header, if the row has all
/// four columns and they parse; `None` for a row the run skips.
pub open spec fn row_tx_of(hdr: Seq<Seq<char>>, row: Option<Seq<Seq<char>>>) -> Option<TxModel> {
    match row {
        None => None,
        Some(fields) => {
            match (field_idx(hdr, "type"@), field_idx(hdr, "client"@), field_idx(hdr, "tx"@),
                field_idx(hdr, "amount"@)) {
                (Some(ti), Some(ci), Some(xi), Some(ai)) => {
                    if ti < fields.len() && ci < fields.len() && xi < fields.len() && ai
                        < fields.len() {
                        match (kind_of(fields[ti]), parse_uint(fields[ci], 65535), parse_uint(
                            fields[xi],
                            4294967295,
                        ), amount_field_of(fields[ai])) {
                            (Some(k), Some(c), Some(x), Some(a)) => Some(
                                TxModel {
                                    id: x,
                                    kind: k,
                                    client_id: c,
                                    amount: match a {
                                        Some(v) => v,
                                        None => 0,
                                    },
                                },
                            ),
                            _ => None,
                        }
                    } else {
                        None
                    }
                },
                _ => None,
            }
        },
    }
}

/// Parses one data row as `row_tx_of` says, given the four column indices.
fn row_to_tx(
    row: &Option<Vec<String>>,
    ti: usize,
    ci: usize,
    xi: usize,
    ai: usize,
    Ghost(hdr): Ghost<Seq<Seq<char>>>,
) -> (r: Option<Transaction>)
    requires
        field_idx(hdr, "type"@) == Some(ti as int),
        field_idx(hdr, "client"@) == Some(ci as int),
        field_idx(hdr, "tx"@) == Some(xi as int),
        field_idx(hdr, "amount"@) == Some(ai as int),
    ensures
        match r {
            Some(t) => row_tx_of(hdr, row.deep_view()) == Some(t@),
            None => row_tx_of(hdr, row.deep_view()) is None,
        },
{
    let fields = match row {
        Some(f) => f,
        None => {
            return None;
        },
    };
    if !(ti < fields.len() && ci < fields.len() && xi < fields.len() && ai < fields.len()) {
        return None;
    }
    proof {
        assert(fields.deep_view()[ti as int] == fields@[ti as int]@);
        assert(fields.deep_view()[ci as int] == fields@[ci as int]@);
        assert(fields.deep_view()[xi as int] == fields@[xi as int]@);
        assert(fields.deep_view()[ai as int] == fields@[ai as int]@);
    }
    let kind = match parse_kind(fields[ti].as_str()) {
        Some(k) => k,
        None => {
            return None;
        },
    };
    let client = match parse_uint_u32(fields[ci].as_str(), 65535) {
        Some(c) => c as u16,
        None => {
            return None;
        },
    };
    let txid = match parse_uint_u32(fields[xi].as_str(), 4294967295) {
        Some(x) => x,
        None => {
            return None;
        },
    };
    let amount = match parse_amount_field(fields[ai].as_str()) {
        Some(a) => a,
        None => {
            return None;
        },
    };
    let record = InputRecord {
        transaction_kind: kind,
        client_id: client,
        transaction_id: txid,
        amount,
    };
    Some(Transaction::from(record))
}

/// The token a lock flag renders as.
pub open spec fn bool_chars(b: bool) -> Seq<char> {
    if b {
        seq!['t', 'r', 'u', 'e']
    } else {
        seq!['f', 'a', 'l', 's', 'e']
    }
}

/// One output row: `client,available,held,total,locked`.
pub open spec fn line_of(a: AccountModel) -> Seq<char> {
    digits_of(a.id) + seq![','] + money4_of(a.available) + seq![','] + money4_of(a.held) + seq![',']
        + money4_of(a.total) + seq![','] + bool_chars(a.locked) + seq!['\n']
}

/// The output rows of the accounts, in order.
pub open spec fn lines_of(accounts: Seq<AccountModel>) -> Seq<char>
    decreases accounts.len(),
{
    if accounts.len() == 0 {
        Seq::empty()
    } else {
        lines_of(accounts.drop_last()) + line_of(accounts.last())
    }
}

/// The whole report: header row, then one row per account in creation order.
pub open spec fn render_of(accounts: Seq<AccountModel>) -> Seq<char> {
    "client,available,held,total,locked\n"@ + lines_of(accounts)
}

/// Appends one account's output row to `out`.
#[verifier::rlimit(50)]
fn push_line(c: &Client, out: &mut String)
    ensures
        final(out)@ == old(out)@ + line_of(c@),
{
    push_digits(c.id as u128, out);
    out.append(",");
    push_money4(c.available, out);
    out.append(",");
    push_money4(c.held, out);
    out.append(",");
    push_money4(c.total, out);
    out.append(",");
    if c.locked {
        out.append("true");
    } else {
        out.append("false");
    }
    out.append("\n");
    proof {
        reveal_strlit(",");
        reveal_strlit("\n");
        reveal_strlit("true");
        reveal_strlit("false");
        assert(final(out)@ =~= old(out)@ + line_of(c@));
    }
}

/// Renders the final balances, one row per account in creation order, every
/// amount with exactly four fractional digits.
fn display_results(clients: &Vec<Client>) -> (out: String)
    ensures
        out@ == render_of(accounts_of(clients@)),
{
    let mut out = String::new();
    out.append("client,available,held,total,locked\n");
    let n = clients.len();
    let mut i: usize = 0;
    while i < n
        invariant
            i <= n == clients@.len(),
            out@ == render_of(accounts_of(clients@).take(i as int)),
        decreases n - i,
    {
        let ghost accs = accounts_of(clients@);
        let c = clients[i];
        push_line(&c, &mut out);
        proof {
            assert(accs.take(i + 1).drop_last() =~= accs.take(i as int));
            assert(accs.take(i + 1).last() == accs[i as int]);
            assert(accs[i as int] == c@);
            assert(lines_of(accs.take(i + 1)) == lines_of(accs.take(i as int)) + line_of(c@));
            assert(out@ =~= render_of(accs.take(i + 1)));
        }
        i += 1;
    }
    proof {
        assert(accounts_of(clients@).take(n as int) =~= accounts_of(clients@));
    }
    out
}

/// The ledger after the first `n` rows, each parsed under the header and
/// applied where it parses; a rejected transaction changes nothing.
pub open spec fn ledger_after(
    hdr: Seq<Seq<char>>,
    rows: Seq<Option<Seq<Seq<char>>>>,
    n: int,
) -> LedgerModel
    decreases n,
{
    if n <= 0 {
        LedgerModel::empty()
    } else {
        let prev = ledger_after(hdr, rows, n - 1);
        match row_tx_of(hdr, rows[n - 1]) {
            Some(t) => step(prev, t).0,
            None => prev,
        }
    }
}

/// The report text a whole input produces.
pub open spec fn run_of(s: Seq<char>) -> Seq<char> {
    render_of(
        ledger_after(
            csv_header_of(s),
            csv_records_of(s),
            csv_records_of(s).len() as int,
        ).accounts,
    )
}

/// Replays a whole CSV input and renders the final balances: exactly
/// `run_of` of the input text.
pub fn try_run(input: &str) -> (out: String)
    ensures
        out@ == run_of(input@),
{
    let (header, rows) = read_csv(input);
    let ghost hdr = csv_header_of(input@);
    let ghost rws = csv_records_of(input@);
    let ti = find_field(&header, "type");
    let ci = find_field(&header, "client");
    let xi = find_field(&header, "tx");
    let ai = find_field(&header, "amount");
    let mut ledger = Ledger::default();
    let n = rows.len();
    match (ti, ci, xi, ai) {
        (Some(ti), Some(ci), Some(xi), Some(ai)) => {
            let mut i: usize = 0;
            while i < n
                invariant
                    i <= n == rows@.len(),
                    rows.deep_view() == rws,
                    field_idx(hdr, "type"@) == Some(ti as int),
                    field_idx(hdr, "client"@) == Some(ci as int),
                    field_idx(hdr, "tx"@) == Some(xi as int),
                    field_idx(hdr, "amount"@) == Some(ai as int),
                    ledger.wf(),
                    ledger@ == ledger_after(hdr, rws, i as int),
                decreases n - i,
            {
                proof {
                    assert(rows.deep_view()[i as int] == rows@[i as int].deep_view());
                }
                match row_to_tx(&rows[i], ti, ci, xi, ai, Ghost(hdr)) {
                    Some(t) => {
                        let _ = ledger.process_tx(t);
                    },
                    None => {},
                }
                i += 1;
            }
        },
        _ => {
            // a needed column is missing: every row is skipped
            let mut i: usize = 0;
            while i < n
                invariant
                    i <= n == rows@.len(),
                    rows.deep_view() == rws,
                    field_idx(hdr, "type"@) is None || field_idx(hdr, "client"@) is None
                        || field_idx(hdr, "tx"@) is None || field_idx(hdr, "amount"@) is None,
                    ledger.wf(),
                    ledger@ == ledger_after(hdr, rws, i as int),
                decreases n - i,
            {
                proof {
                    assert(row_tx_of(hdr, rws[i as int]) is None);
                }
                i += 1;
            }
        },
    }
    display_results(&ledger.clients)
}

} // verus!
