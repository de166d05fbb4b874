//! The durable side of the versioned store: one open database connection
//! holding the three append-only tables.
//!
//! Everything the verified code believes about the database is stated here,
//! over three uninterpreted table models, and nowhere else.  Each wrapper
//! names the outside calls it relies on; every query uses bound parameters.

use vstd::prelude::*;
use crate::log::{
    AccountRow, CodeRow, StorageRow, account_key, code_key, last_where, storage_key,
};

verus! {

/// A handle on the backing database file (or an in-memory database).
#[verifier::external_body]
pub struct Db {
    conn: sqlite::Connection,
}

/// The rows of the accounts table visible through this connection, oldest first.
pub uninterp spec fn account_log(db: Db) -> Seq<AccountRow>;

/// The rows of the code table visible through this connection, oldest first.
pub uninterp spec fn code_log(db: Db) -> Seq<CodeRow>;

/// The rows of the storage table visible through this connection, oldest first.
pub uninterp spec fn storage_log(db: Db) -> Seq<StorageRow>;

/// The byte strings a pair of nullable columns holds.
pub open spec fn opt_bytes(o: Option<Vec<u8>>) -> Option<Seq<u8>> {
    match o {
        None => None,
        Some(v) => Some(v@),
    }
}

impl Db {
    /// Relies on `sqlite::open`: opens (creating the file if absent) a
    /// database at `path`.  Nothing is assumed about the tables it holds.
    #[verifier::external_body]
    pub fn open(path: &str) -> (r: Result<Db, String>) {
        match sqlite::open(path) {
            Ok(conn) => Ok(Db { conn }),
            Err(e) => Err(e.message.unwrap_or_default()),
        }
    }

    /// Relies on `sqlite::Connection::execute` running three CREATE TABLE
    /// statements: on success the tables exist and are newly created, hence
    /// empty; it fails if any of them already exists.
    #[verifier::external_body]
    pub fn create_schema(&mut self) -> (r: Result<(), String>)
        ensures
            r is Ok ==> account_log(*final(self)) == Seq::<AccountRow>::empty(),
            r is Ok ==> code_log(*final(self)) == Seq::<CodeRow>::empty(),
            r is Ok ==> storage_log(*final(self)) == Seq::<StorageRow>::empty(),
    {
        self.conn.execute(
            "
            CREATE TABLE code (time INTEGER PRIMARY KEY AUTOINCREMENT, address BLOB, value BLOB);
            CREATE TABLE storage (time INTEGER PRIMARY KEY AUTOINCREMENT, address BLOB, idx BLOB, value BLOB);
            CREATE TABLE accounts (time INTEGER PRIMARY KEY AUTOINCREMENT, address BLOB, balance BLOB, nonce BLOB);
            ",
        ).map_err(|e| e.message.unwrap_or_default())
    }

    /// Relies on `sqlite::Connection::execute` running BEGIN: it opens a
    /// transaction and changes no table.
    #[verifier::external_body]
    pub fn begin_tx(&mut self) -> (r: Result<(), String>)
        ensures
            account_log(*final(self)) == account_log(*old(self)),
            code_log(*final(self)) == code_log(*old(self)),
            storage_log(*final(self)) == storage_log(*old(self)),
    {
        self.conn.execute("BEGIN").map_err(|e| e.message.unwrap_or_default())
    }

    /// Relies on `sqlite::Connection::execute` running COMMIT: on success the
    /// rows visible through this connection are unchanged and now durable.
    #[verifier::external_body]
    pub fn commit_tx(&mut self) -> (r: Result<(), String>)
        ensures
            r is Ok ==> account_log(*final(self)) == account_log(*old(self)),
            r is Ok ==> code_log(*final(self)) == code_log(*old(self)),
            r is Ok ==> storage_log(*final(self)) == storage_log(*old(self)),
    {
        self.conn.execute("COMMIT").map_err(|e| e.message.unwrap_or_default())
    }

    /// Relies on `sqlite::Connection::execute` running ROLLBACK: the open
    /// transaction's writes are discarded, so a failed batch leaves no
    /// partial rows behind.  What the tables then hold is not modelled.
    #[verifier::external_body]
    pub fn rollback_tx(&mut self) -> (r: Result<(), String>) {
        self.conn.execute("ROLLBACK").map_err(|e| e.message.unwrap_or_default())
    }

    /// Relies on `Connection::prepare`, `Statement::bind` and
    /// `Statement::next`: a bound single-row INSERT appends exactly one row
    /// to the accounts table and touches no other table; a failed statement
    /// inserts nothing.
    #[verifier::external_body]
    pub fn insert_account(&mut self, address: &Vec<u8>, balance: &Vec<u8>, nonce: &Vec<u8>) -> (r:
        Result<(), String>)
        ensures
            r is Ok ==> account_log(*final(self)) == account_log(*old(self)).push(
                (address@, Some(balance@), Some(nonce@)),
            ),
            r is Err ==> account_log(*final(self)) == account_log(*old(self)),
            code_log(*final(self)) == code_log(*old(self)),
            storage_log(*final(self)) == storage_log(*old(self)),
    {
        let mut st = self.conn.prepare("INSERT INTO accounts VALUES (NULL, ?, ?, ?)").map_err(|e| e.message.unwrap_or_default())?;
        st.bind((1, &address[..])).map_err(|e| e.message.unwrap_or_default())?;
        st.bind((2, &balance[..])).map_err(|e| e.message.unwrap_or_default())?;
        st.bind((3, &nonce[..])).map_err(|e| e.message.unwrap_or_default())?;
        st.next().map_err(|e| e.message.unwrap_or_default())?;
        Ok(())
    }

    /// Relies on `Connection::prepare`, `Statement::bind` and
    /// `Statement::next`: appends one tombstone row (NULL balance and nonce)
    /// to the accounts table.
    #[verifier::external_body]
    pub fn insert_account_tombstone(&mut self, address: &Vec<u8>) -> (r: Result<(), String>)
        ensures
            r is Ok ==> account_log(*final(self)) == account_log(*old(self)).push(
                (address@, None, None),
            ),
            r is Err ==> account_log(*final(self)) == account_log(*old(self)),
            code_log(*final(self)) == code_log(*old(self)),
            storage_log(*final(self)) == storage_log(*old(self)),
    {
        let mut st = self.conn.prepare("INSERT INTO accounts VALUES (NULL, ?, NULL, NULL)").map_err(|e| e.message.unwrap_or_default())?;
        st.bind((1, &address[..])).map_err(|e| e.message.unwrap_or_default())?;
        st.next().map_err(|e| e.message.unwrap_or_default())?;
        Ok(())
    }

    /// Relies on `Connection::prepare`, `Statement::bind` and
    /// `Statement::next`: appends one row to the code table.
    #[verifier::external_body]
    pub fn insert_code(&mut self, address: &Vec<u8>, code: &Vec<u8>) -> (r: Result<(), String>)
        ensures
            r is Ok ==> code_log(*final(self)) == code_log(*old(self)).push((address@, Some(code@))),
            r is Err ==> code_log(*final(self)) == code_log(*old(self)),
            account_log(*final(self)) == account_log(*old(self)),
            storage_log(*final(self)) == storage_log(*old(self)),
    {
        let mut st = self.conn.prepare("INSERT INTO code VALUES (NULL, ?, ?)").map_err(|e| e.message.unwrap_or_default())?;
        st.bind((1, &address[..])).map_err(|e| e.message.unwrap_or_default())?;
        st.bind((2, &code[..])).map_err(|e| e.message.unwrap_or_default())?;
        st.next().map_err(|e| e.message.unwrap_or_default())?;
        Ok(())
    }

    /// Relies on `Connection::prepare`, `Statement::bind` and
    /// `Statement::next`: appends one tombstone row (NULL bytecode) to the
    /// code table.
    #[verifier::external_body]
    pub fn insert_code_tombstone(&mut self, address: &Vec<u8>) -> (r: Result<(), String>)
        ensures
            r is Ok ==> code_log(*final(self)) == code_log(*old(self)).push((address@, None)),
            r is Err ==> code_log(*final(self)) == code_log(*old(self)),
            account_log(*final(self)) == account_log(*old(self)),
            storage_log(*final(self)) == storage_log(*old(self)),
    {
        let mut st = self.conn.prepare("INSERT INTO code VALUES (NULL, ?, NULL)").map_err(|e| e.message.unwrap_or_default())?;
        st.bind((1, &address[..])).map_err(|e| e.message.unwrap_or_default())?;
        st.next().map_err(|e| e.message.unwrap_or_default())?;
        Ok(())
    }

    /// Relies on `Connection::prepare`, `Statement::bind` and
    /// `Statement::next`: appends one row to the storage table.
    #[verifier::external_body]
    pub fn insert_storage(&mut self, address: &Vec<u8>, slot: &Vec<u8>, value: &Vec<u8>) -> (r:
        Result<(), String>)
        ensures
            r is Ok ==> storage_log(*final(self)) == storage_log(*old(self)).push(
                (address@, slot@, value@),
            ),
            r is Err ==> storage_log(*final(self)) == storage_log(*old(self)),
            account_log(*final(self)) == account_log(*old(self)),
            code_log(*final(self)) == code_log(*old(self)),
    {
        let mut st = self.conn.prepare("INSERT INTO storage VALUES (NULL, ?, ?, ?)").map_err(|e| e.message.unwrap_or_default())?;
        st.bind((1, &address[..])).map_err(|e| e.message.unwrap_or_default())?;
        st.bind((2, &slot[..])).map_err(|e| e.message.unwrap_or_default())?;
        st.bind((3, &value[..])).map_err(|e| e.message.unwrap_or_default())?;
        st.next().map_err(|e| e.message.unwrap_or_default())?;
        Ok(())
    }

    /// Relies on `Connection::prepare`, `Statement::bind`, `Statement::next`
    /// and `Statement::read`: a bound SELECT ordered by descending insertion
    /// time, limited to one row, returns the latest row matching the address,
    /// or no row; the AUTOINCREMENT key orders rows as they were inserted.
    #[verifier::external_body]
    pub fn latest_account(&self, address: &Vec<u8>) -> (r: Result<
        Option<(Option<Vec<u8>>, Option<Vec<u8>>)>,
        String,
    >)
        ensures
            r is Ok ==> ({
                let m = last_where(account_log(*self), account_key(address@));
                match r->Ok_0 {
                    None => m is None,
                    Some(p) => m == Some((address@, opt_bytes(p.0), opt_bytes(p.1))),
                }
            }),
    {
        let mut st = self.conn.prepare(
            "SELECT balance, nonce FROM accounts WHERE address = ? ORDER BY time DESC LIMIT 1",
        ).map_err(|e| e.message.unwrap_or_default())?;
        st.bind((1, &address[..])).map_err(|e| e.message.unwrap_or_default())?;
        match st.next().map_err(|e| e.message.unwrap_or_default())? {
            sqlite::State::Row => Ok(Some((
                st.read(0).map_err(|e| e.message.unwrap_or_default())?,
                st.read(1).map_err(|e| e.message.unwrap_or_default())?,
            ))),
            sqlite::State::Done => Ok(None),
        }
    }

    /// Relies on the same statement calls as `latest_account`, against the
    /// code table.
    #[verifier::external_body]
    pub fn latest_code(&self, address: &Vec<u8>) -> (r: Result<Option<Option<Vec<u8>>>, String>)
        ensures
            r is Ok ==> ({
                let m = last_where(code_log(*self), code_key(address@));
                match r->Ok_0 {
                    None => m is None,
                    Some(p) => m == Some((address@, opt_bytes(p))),
                }
            }),
    {
        let mut st = self.conn.prepare(
            "SELECT value FROM code WHERE address = ? ORDER BY time DESC LIMIT 1",
        ).map_err(|e| e.message.unwrap_or_default())?;
        st.bind((1, &address[..])).map_err(|e| e.message.unwrap_or_default())?;
        match st.next().map_err(|e| e.message.unwrap_or_default())? {
            sqlite::State::Row => Ok(Some(st.read(0).map_err(|e| e.message.unwrap_or_default())?)),
            sqlite::State::Done => Ok(None),
        }
    }

    /// Relies on the same statement calls as `latest_account`, against the
    /// storage table, keyed by address and slot.  A NULL value column, which
    /// this library never writes, reads as empty bytes and is modelled so.
    #[verifier::external_body]
    pub fn latest_storage(&self, address: &Vec<u8>, slot: &Vec<u8>) -> (r: Result<
        Option<Vec<u8>>,
        String,
    >)
        ensures
            r is Ok ==> ({
                let m = last_where(storage_log(*self), storage_key(address@, slot@));
                match r->Ok_0 {
                    None => m is None,
                    Some(v) => m == Some((address@, slot@, v@)),
                }
            }),
    {
        let mut st = self.conn.prepare(
            "SELECT value FROM storage WHERE address = ? AND idx = ? ORDER BY time DESC LIMIT 1",
        ).map_err(|e| e.message.unwrap_or_default())?;
        st.bind((1, &address[..])).map_err(|e| e.message.unwrap_or_default())?;
        st.bind((2, &slot[..])).map_err(|e| e.message.unwrap_or_default())?;
        match st.next().map_err(|e| e.message.unwrap_or_default())? {
            sqlite::State::Row => Ok(Some(st.read(0).map_err(|e| e.message.unwrap_or_default())?)),
            sqlite::State::Done => Ok(None),
        }
    }
}

} // verus!
