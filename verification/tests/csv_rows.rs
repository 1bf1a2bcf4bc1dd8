//! Rows of a table, read as sequences and, under a header row, as maps.

use std::convert::Infallible;
use std::marker::PhantomData;

use serde_mobile::{
    AccessAdapter, MapEntryAccess, MapKeyAccess, MapKeyAccessor, MapValueAccess, MapValueAccessor,
    SeqAccess, SeqAccessor,
};

#[derive(Debug, Clone, PartialEq)]
enum Error {
    HeaderLengthMismatch,
}

/// Reads a row without headers.
struct RowSeqAccess {
    row: Vec<String>,
}

impl SeqAccessor for RowSeqAccess {
    type Error = Error;

    fn size_hint(&self) -> Option<usize> {
        Some(self.row.len())
    }
}

impl SeqAccess<PhantomData<String>> for RowSeqAccess {
    fn next_element_seed(
        mut self,
        _seed: PhantomData<String>,
    ) -> Result<Option<(String, Self)>, Error> {
        if self.row.is_empty() {
            return Ok(None);
        }
        let element = self.row.remove(0);
        Ok(Some((element, self)))
    }
}

/// Reads a row under its headers.
struct RowMapKeyAccess {
    row: Vec<String>,
    headers: Vec<String>,
}

struct RowMapValueAccess {
    value: String,
    key_access: RowMapKeyAccess,
}

impl MapKeyAccessor for RowMapKeyAccess {
    type Error = Error;
    type Value = RowMapValueAccess;
}

impl MapValueAccessor for RowMapValueAccess {
    type Error = Error;
    type Key = RowMapKeyAccess;
}

impl MapKeyAccess<PhantomData<String>> for RowMapKeyAccess {
    fn next_key_seed(
        mut self,
        _seed: PhantomData<String>,
    ) -> Result<Option<(String, RowMapValueAccess)>, Error> {
        match (self.headers.is_empty(), self.row.is_empty()) {
            (true, true) => Ok(None),
            (false, false) => {
                let header = self.headers.remove(0);
                let value = self.row.remove(0);
                Ok(Some((header, RowMapValueAccess { value, key_access: self })))
            }
            _ => Err(Error::HeaderLengthMismatch),
        }
    }
}

impl MapValueAccess<PhantomData<String>> for RowMapValueAccess {
    fn next_value_seed(
        self,
        _seed: PhantomData<String>,
    ) -> Result<(String, RowMapKeyAccess), Error> {
        Ok((self.value, self.key_access))
    }
}

impl MapEntryAccess<PhantomData<String>, PhantomData<String>> for RowMapKeyAccess {}

fn cells(line: &str) -> Vec<String> {
    line.trim_end_matches('\n').split(',').map(String::from).collect()
}

const STRING: PhantomData<String> = PhantomData;

fn row(headers: &str, line: &str) -> AccessAdapter<RowMapKeyAccess, RowMapValueAccess> {
    AccessAdapter::new(RowMapKeyAccess {
        row: cells(line),
        headers: cells(headers),
    })
}

#[test]
fn row_without_headers_is_a_sequence() {
    let mut adapter: AccessAdapter<RowSeqAccess, Infallible> = AccessAdapter::new(RowSeqAccess {
        row: cells("one,two\n"),
    });
    assert_eq!(adapter.size_hint(), Some(2));
    assert_eq!(adapter.next_element_seed(STRING), Ok(Some("one".to_string())));
    assert_eq!(adapter.next_element_seed(STRING), Ok(Some("two".to_string())));
    assert_eq!(adapter.next_element_seed(STRING), Ok(None));
}

#[test]
fn row_under_headers_is_a_map() {
    let mut adapter = row("name,description\n", "hat,worn on the head\n");
    assert_eq!(adapter.size_hint(), None);
    assert_eq!(adapter.next_key_seed(STRING), Ok(Some("name".to_string())));
    assert_eq!(adapter.size_hint(), None);
    assert_eq!(adapter.next_value_seed(STRING), Ok("hat".to_string()));
    assert_eq!(
        adapter.next_entry_seed(STRING, STRING),
        Ok(Some(("description".to_string(), "worn on the head".to_string())))
    );
    assert_eq!(adapter.next_key_seed(STRING), Ok(None));
    assert_eq!(adapter.size_hint(), Some(0));
}

#[test]
fn row_of_another_length_than_the_headers_is_an_error() {
    let mut short = row("name,description", "hat");
    assert_eq!(
        short.next_entry_seed(STRING, STRING),
        Ok(Some(("name".to_string(), "hat".to_string())))
    );
    assert_eq!(
        short.next_entry_seed(STRING, STRING),
        Err(Error::HeaderLengthMismatch)
    );
    assert_eq!(short.next_entry_seed(STRING, STRING), Ok(None));

    let mut long = row("name", "hat,worn on the head");
    assert_eq!(long.next_key_seed(STRING), Ok(Some("name".to_string())));
    assert_eq!(long.next_value_seed(STRING), Ok("hat".to_string()));
    assert_eq!(long.next_key_seed(STRING), Err(Error::HeaderLengthMismatch));
    assert_eq!(long.next_key_seed(STRING), Ok(None));
}
