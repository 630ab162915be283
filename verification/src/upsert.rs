//! Wraps a key-value message format into an upsert source: a key
//! accessor and a value accessor answer field lookups, and a present
//! value means an upsert while an absent one means a delete.

use vstd::prelude::*;
use crate::stream_chunk::{DataType, ScalarImpl};

verus! {

/// Why a field access failed.
#[derive(Clone, Debug)]
pub enum AccessError {
    Undefined { name: String, path: String },
    TypeError { message: String },
}

/// The outcome of a field access: a value, absence, or an error.
pub type AccessResult = Result<Option<ScalarImpl>, AccessError>;

/// Answers field lookups over one half of a change message. Accessor
/// implementations are supplied by each message format.
pub trait Access {
    fn access(&self, path: &Vec<String>, type_expected: Option<&DataType>) -> AccessResult;
}

/// Whether a change carries a new row or removes one.
#[derive(Clone, Copy, Debug, PartialEq, Eq, Structural)]
pub enum ChangeEventOperation {
    Upsert,
    Delete,
}

/// A change message whose operation and fields can be read.
pub trait ChangeEvent {
    fn op(&self) -> Result<ChangeEventOperation, AccessError>;

    fn access_field(&self, name: &String, type_expected: &DataType) -> AccessResult;
}

/// An upsert change event over a key accessor and a value accessor.
pub struct UpsertChangeEvent<K, V> {
    key_accessor: Option<K>,
    value_accessor: Option<V>,
    key_as_column_name: Option<String>,
}

impl<K, V> UpsertChangeEvent<K, V> {
    pub closed spec fn spec_has_key(self) -> bool {
        self.key_accessor is Some
    }

    pub closed spec fn spec_has_value(self) -> bool {
        self.value_accessor is Some
    }

    pub closed spec fn spec_key_as_column_name(self) -> Option<String> {
        self.key_as_column_name
    }
}

impl<K, V> Default for UpsertChangeEvent<K, V> {
    /// Starts with no accessors and no key column name.
    fn default() -> (r: UpsertChangeEvent<K, V>)
        ensures
            !r.spec_has_key(),
            !r.spec_has_value(),
            r.spec_key_as_column_name() is None,
    {
        UpsertChangeEvent { key_accessor: None, value_accessor: None, key_as_column_name: None }
    }
}

impl<K, V> UpsertChangeEvent<K, V> {
    /// Supplies the key accessor.
    pub fn with_key(self, key: K) -> (r: UpsertChangeEvent<K, V>) where K: Access
        ensures
            r.spec_has_key(),
            r.spec_has_value() == self.spec_has_value(),
            r.spec_key_as_column_name() == self.spec_key_as_column_name(),
    {
        let UpsertChangeEvent { key_accessor: _, value_accessor, key_as_column_name } = self;
        UpsertChangeEvent { key_accessor: Some(key), value_accessor, key_as_column_name }
    }

    /// Supplies the value accessor.
    pub fn with_value(self, value: V) -> (r: UpsertChangeEvent<K, V>) where V: Access
        ensures
            r.spec_has_value(),
            r.spec_has_key() == self.spec_has_key(),
            r.spec_key_as_column_name() == self.spec_key_as_column_name(),
    {
        let UpsertChangeEvent { key_accessor, value_accessor: _, key_as_column_name } = self;
        UpsertChangeEvent { key_accessor, value_accessor: Some(value), key_as_column_name }
    }

    /// Names the column that carries the whole key.
    pub fn with_key_as_column_name(self, name: String) -> (r: UpsertChangeEvent<K, V>)
        ensures
            r.spec_key_as_column_name() matches Some(n) && n@ == name@,
            r.spec_has_key() == self.spec_has_key(),
            r.spec_has_value() == self.spec_has_value(),
    {
        let UpsertChangeEvent { key_accessor, value_accessor, key_as_column_name: _ } = self;
        UpsertChangeEvent { key_accessor, value_accessor, key_as_column_name: Some(name) }
    }
}

/// The rest of an access path, after its first step.
fn path_rest(path: &Vec<String>) -> (r: Vec<String>)
    requires
        path@.len() >= 1,
    ensures
        r@.len() == path@.len() - 1,
{
    let mut r: Vec<String> = Vec::new();
    let mut i: usize = 1;
    while i < path.len()
        invariant
            1 <= i <= path@.len(),
            r@.len() == i - 1,
        decreases path@.len() - i,
    {
        r.push(path[i].clone());
        i = i + 1;
    }
    r
}

impl<K: Access, V: Access> Access for UpsertChangeEvent<K, V> {
    /// Routes an access through the key or value accessor, by the
    /// first step of the path; an empty path reads nothing.
    fn access(&self, path: &Vec<String>, type_expected: Option<&DataType>) -> (r: AccessResult) {
        if path.len() == 0 {
            return Result::Ok(None);
        }
        let key_word = String::from_str("key");
        let value_word = String::from_str("value");
        if path[0] == key_word {
            match &self.key_accessor {
                Some(ka) => {
                    let rest = path_rest(path);
                    ka.access(&rest, type_expected)
                },
                None => Result::Err(
                    AccessError::Undefined {
                        name: String::from_str("key"),
                        path: String::new(),
                    },
                ),
            }
        } else if path[0] == value_word {
            match &self.value_accessor {
                Some(va) => {
                    let rest = path_rest(path);
                    va.access(&rest, type_expected)
                },
                None => Result::Err(
                    AccessError::Undefined {
                        name: String::from_str("value"),
                        path: String::new(),
                    },
                ),
            }
        } else {
            Result::Err(
                AccessError::Undefined { name: path[0].clone(), path: String::new() },
            )
        }
    }
}

impl<K: Access, V: Access> ChangeEvent for UpsertChangeEvent<K, V> {
    /// A present value means an upsert; an absent one means a delete.
    fn op(&self) -> (r: Result<ChangeEventOperation, AccessError>) {
        let mut path: Vec<String> = Vec::new();
        path.push(String::from_str("value"));
        match self.access(&path, None) {
            Result::Ok(Some(_)) => Result::Ok(ChangeEventOperation::Upsert),
            _ => Result::Ok(ChangeEventOperation::Delete),
        }
    }

    /// Reads a field: the value side first, then the key side, then
    /// the whole key when the field names the key column.
    fn access_field(&self, name: &String, type_expected: &DataType) -> (r: AccessResult) {
        let mut value_path: Vec<String> = Vec::new();
        value_path.push(String::from_str("value"));
        value_path.push(name.clone());
        match self.access(&value_path, Some(type_expected)) {
            Result::Err(AccessError::Undefined { name: _, path: _ }) => {},
            other => {
                return other;
            },
        }
        let mut key_path: Vec<String> = Vec::new();
        key_path.push(String::from_str("key"));
        key_path.push(name.clone());
        match self.access(&key_path, Some(type_expected)) {
            Result::Err(AccessError::Undefined { name: _, path: _ }) => {},
            other => {
                return other;
            },
        }
        let matches_key_column = match &self.key_as_column_name {
            Some(key_col) => *name == *key_col,
            None => false,
        };
        if matches_key_column {
            let mut whole_key: Vec<String> = Vec::new();
            whole_key.push(String::from_str("key"));
            return self.access(&whole_key, Some(type_expected));
        }
        Result::Ok(None)
    }
}

} // verus!
