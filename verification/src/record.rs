//! What is kept of a proxy that was checked, and how a record is read from
//! the columns of a stored row.

use vstd::prelude::*;

verus! {

/// A proxy as it is stored.
#[derive(Debug)]
pub struct Proxy {
    /// Whether the record is yet to be stored.
    pub insert: bool,
    /// Whether the stored record is yet to be brought up to date.
    pub update: bool,
    /// Whether the proxy could be reached.
    pub work: bool,
    /// Whether the proxy hides its user.
    pub anon: bool,
    /// How often the proxy was checked.
    pub checks: i32,
    pub hostname: String,
    pub host: String,
    pub port: String,
    pub scheme: String,
    /// When the record was made, in microseconds since the epoch.
    pub create_at: i64,
    /// When the record was last changed, in microseconds since the epoch.
    pub update_at: i64,
    /// How long the proxy took to answer.
    pub response: i64,
}

/// A record as plain values.
pub struct ProxyView {
    pub insert: bool,
    pub update: bool,
    pub work: bool,
    pub anon: bool,
    pub checks: i32,
    pub hostname: Seq<char>,
    pub host: Seq<char>,
    pub port: Seq<char>,
    pub scheme: Seq<char>,
    pub create_at: i64,
    pub update_at: i64,
    pub response: i64,
}

impl View for Proxy {
    type V = ProxyView;

    open spec fn view(&self) -> ProxyView {
        ProxyView {
            insert: self.insert,
            update: self.update,
            work: self.work,
            anon: self.anon,
            checks: self.checks,
            hostname: self.hostname@,
            host: self.host@,
            port: self.port@,
            scheme: self.scheme@,
            create_at: self.create_at,
            update_at: self.update_at,
            response: self.response,
        }
    }
}

/// What reading one column of a row gave.
#[derive(Debug)]
pub enum Column<T> {
    /// The row has no such column.
    Missing,
    /// The column does not hold a value of the type asked for; the text
    /// says why.
    Invalid(String),
    Value(T),
}

/// The columns of a row, in the order in which they are selected.
#[derive(Debug)]
pub struct Columns {
    pub work: Column<bool>,
    pub anon: Column<bool>,
    pub checks: Column<i32>,
    pub hostname: Column<String>,
    pub host: Column<String>,
    pub port: Column<String>,
    pub scheme: Column<String>,
    pub create_at: Column<i64>,
    pub update_at: Column<i64>,
    pub response: Column<i64>,
}

/// Why a column gave no value, in words; nothing where it gave one.
pub open spec fn column_error<T>(column: Column<T>, name: Seq<char>) -> Option<Seq<char>> {
    match column {
        Column::Missing => Some("error get "@ + name),
        Column::Invalid(why) => Some("error unwrap "@ + name + " "@ + why@),
        Column::Value(_) => None,
    }
}

/// The error of the first column in `errors` that gave no value.
pub open spec fn first_error(errors: Seq<Option<Seq<char>>>) -> Option<Seq<char>>
    decreases errors.len(),
{
    if errors.len() == 0 {
        None
    } else if errors[0].is_some() {
        errors[0]
    } else {
        first_error(errors.drop_first())
    }
}

impl Columns {
    /// Why each column gave no value, in the order of the columns.
    pub open spec fn errors(self) -> Seq<Option<Seq<char>>> {
        seq![
            column_error(self.work, "work"@),
            column_error(self.anon, "anon"@),
            column_error(self.checks, "checks"@),
            column_error(self.hostname, "hostname"@),
            column_error(self.host, "host"@),
            column_error(self.port, "port"@),
            column_error(self.scheme, "scheme"@),
            column_error(self.create_at, "create_at"@),
            column_error(self.update_at, "update_at"@),
            column_error(self.response, "response"@),
        ]
    }

    /// The record that the columns hold, where each gave a value: one that
    /// is neither to be stored nor to be brought up to date.
    pub open spec fn record(self) -> ProxyView {
        ProxyView {
            insert: false,
            update: false,
            work: self.work->Value_0,
            anon: self.anon->Value_0,
            checks: self.checks->Value_0,
            hostname: self.hostname->Value_0@,
            host: self.host->Value_0@,
            port: self.port->Value_0@,
            scheme: self.scheme->Value_0@,
            create_at: self.create_at->Value_0,
            update_at: self.update_at->Value_0,
            response: self.response->Value_0,
        }
    }
}

fn value_of<T>(column: Column<T>, name: &str) -> (value: Result<T, String>)
    ensures
        match value {
            Ok(v) => column == Column::Value(v),
            Err(why) => column_error(column, name@) == Some(why@),
        },
{
    match column {
        Column::Value(v) => Ok(v),
        Column::Missing => {
            let mut why = "error get ".to_owned();
            why.append(name);
            Err(why)
        },
        Column::Invalid(text) => {
            let mut why = "error unwrap ".to_owned();
            why.append(name);
            why.append(" ");
            why.append(text.as_str());
            Err(why)
        },
    }
}

/// Reads a record from the columns of a row. Where a column gave no value,
/// the error of the first such column comes back.
pub fn full_from_row(row: Columns) -> (record: Result<Proxy, String>)
    ensures
        match record {
            Ok(proxy) => first_error(row.errors()).is_none() && proxy@ == row.record(),
            Err(why) => first_error(row.errors()) == Some(why@),
        },
{
    proof {
        reveal_with_fuel(first_error, 11);
    }
    let ghost errors = row.errors();
    let work = match value_of(row.work, "work") {
        Ok(v) => v,
        Err(why) => {
            return Err(why);
        },
    };
    let anon = match value_of(row.anon, "anon") {
        Ok(v) => v,
        Err(why) => {
            return Err(why);
        },
    };
    let checks = match value_of(row.checks, "checks") {
        Ok(v) => v,
        Err(why) => {
            return Err(why);
        },
    };
    let hostname = match value_of(row.hostname, "hostname") {
        Ok(v) => v,
        Err(why) => {
            return Err(why);
        },
    };
    let host = match value_of(row.host, "host") {
        Ok(v) => v,
        Err(why) => {
            return Err(why);
        },
    };
    let port = match value_of(row.port, "port") {
        Ok(v) => v,
        Err(why) => {
            return Err(why);
        },
    };
    let scheme = match value_of(row.scheme, "scheme") {
        Ok(v) => v,
        Err(why) => {
            return Err(why);
        },
    };
    let create_at = match value_of(row.create_at, "create_at") {
        Ok(v) => v,
        Err(why) => {
            return Err(why);
        },
    };
    let update_at = match value_of(row.update_at, "update_at") {
        Ok(v) => v,
        Err(why) => {
            return Err(why);
        },
    };
    let response = match value_of(row.response, "response") {
        Ok(v) => v,
        Err(why) => {
            return Err(why);
        },
    };
    Ok(
        Proxy {
            insert: false,
            update: false,
            work,
            anon,
            checks,
            hostname,
            host,
            port,
            scheme,
            create_at,
            update_at,
            response,
        },
    )
}

/// The records of the rows before the first row that holds none, and that
/// row's error if there is such a row.
pub open spec fn records_of(rows: Seq<Columns>) -> Result<Seq<ProxyView>, Seq<char>>
    decreases rows.len(),
{
    if rows.len() == 0 {
        Ok(Seq::empty())
    } else {
        match records_of(rows.drop_last()) {
            Err(why) => Err(why),
            Ok(records) => match first_error(rows.last().errors()) {
                Some(why) => Err(why),
                None => Ok(records.push(rows.last().record())),
            },
        }
    }
}

/// Reads a record from each row, in order. The first row that holds none
/// ends the reading with its error.
pub fn proxies_from_rows(rows: Vec<Columns>) -> (proxies: Result<Vec<Proxy>, String>)
    ensures
        match proxies {
            Ok(list) => records_of(rows@) == Ok::<Seq<ProxyView>, Seq<char>>(
                list@.map_values(|p: Proxy| p@),
            ),
            Err(why) => records_of(rows@) == Err::<Seq<ProxyView>, Seq<char>>(why@),
        },
{
    let mut rest = rows;
    let mut stack: Vec<Columns> = Vec::new();
    // the rows are taken from the end, so they are turned round first
    while rest.len() > 0
        invariant
            stack@.len() + rest@.len() == rows@.len(),
            forall|k: int| 0 <= k < rest@.len() ==> rest@[k] == rows@[k],
            forall|k: int| 0 <= k < stack@.len() ==> stack@[k] == rows@[rows@.len() - 1 - k],
        decreases rest.len(),
    {
        let row = rest.pop().unwrap();
        stack.push(row);
    }
    let mut proxies: Vec<Proxy> = Vec::new();
    assert(rows@.take(0) =~= Seq::<Columns>::empty());
    assert(proxies@.map_values(|p: Proxy| p@) =~= Seq::<ProxyView>::empty());
    while stack.len() > 0
        invariant
            proxies@.len() + stack@.len() == rows@.len(),
            forall|k: int| 0 <= k < stack@.len() ==> stack@[k] == rows@[rows@.len() - 1 - k],
            records_of(rows@.take(proxies@.len() as int)) == Ok::<Seq<ProxyView>, Seq<char>>(
                proxies@.map_values(|p: Proxy| p@),
            ),
        decreases stack.len(),
    {
        let ghost done = proxies@.len() as int;
        let row = stack.pop().unwrap();
        proof {
            assert(row == rows@[done]);
            assert(rows@.take(done + 1).drop_last() =~= rows@.take(done));
            assert(rows@.take(done + 1).last() == rows@[done]);
        }
        match full_from_row(row) {
            Ok(proxy) => {
                let ghost before = proxies@.map_values(|p: Proxy| p@);
                proxies.push(proxy);
                assert(proxies@.map_values(|p: Proxy| p@) =~= before.push(proxy@));
            },
            Err(why) => {
                proof {
                    lemma_error_stays(rows@, done + 1);
                }
                return Err(why);
            },
        }
    }
    assert(rows@.take(proxies@.len() as int) =~= rows@);
    Ok(proxies)
}

/// Once some rows give an error, all the rows give that error.
proof fn lemma_error_stays(rows: Seq<Columns>, k: int)
    requires
        0 <= k <= rows.len(),
        records_of(rows.take(k)).is_err(),
    ensures
        records_of(rows) == records_of(rows.take(k)),
    decreases rows.len() - k,
{
    if k == rows.len() {
        assert(rows.take(k) =~= rows);
    } else {
        assert(rows.take(k + 1).drop_last() =~= rows.take(k));
        lemma_error_stays(rows, k + 1);
    }
}

} // verus!
