//! The store capability the workload runs against: a table of records, each
//! a primary key and a value per column.
use vstd::prelude::*;
use vstd::string::*;

verus! {

/// A failure that the store reports (anything but a timeout).
#[derive(Clone, Debug)]
pub struct StoreError {
    pub message: String,
}

/// The operations a store offers. `insert` of a key already present must
/// not fail; `read` fills `result` with the record's columns.
pub trait DB {
    fn init(&mut self) -> Result<(), StoreError>;

    fn insert(&mut self, table: &str, key: &str, values: &Vec<(String, String)>) -> Result<
        (),
        StoreError,
    >;

    fn update(&mut self, table: &str, key: &str, values: &Vec<(String, String)>) -> Result<
        (),
        StoreError,
    >;

    fn read(&mut self, table: &str, key: &str, result: &mut Vec<(String, String)>) -> Result<
        (),
        StoreError,
    >;
}

/// The directory the embedded store lives in.
pub open spec fn rocksdb_path() -> Seq<char> {
    "rocksdbtemp/"@
}

/// An embedded store that accepts every operation and keeps nothing: each
/// call succeeds at once, and a read leaves its result untouched.
#[derive(Clone, Debug)]
pub struct RocksDB {
    pub path: String,
}

impl RocksDB {
    pub fn new() -> (r: Result<Self, StoreError>)
        ensures
            r matches Ok(db) && db.path@ == rocksdb_path(),
    {
        let path = String::from_str("rocksdbtemp/");
        proof {
            reveal_strlit("rocksdbtemp/");
        }
        Ok(RocksDB { path })
    }
}

impl DB for RocksDB {
    fn init(&mut self) -> Result<(), StoreError> {
        Ok(())
    }

    fn insert(&mut self, _table: &str, _key: &str, _values: &Vec<(String, String)>) -> Result<
        (),
        StoreError,
    > {
        Ok(())
    }

    fn update(&mut self, _table: &str, _key: &str, _values: &Vec<(String, String)>) -> Result<
        (),
        StoreError,
    > {
        Ok(())
    }

    fn read(&mut self, _table: &str, _key: &str, _result: &mut Vec<(String, String)>) -> Result<
        (),
        StoreError,
    > {
        Ok(())
    }
}

} // verus!
