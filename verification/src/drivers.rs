//! The drivers that read a data file: chosen by the file's extension, they
//! read its bytes with Polars into columns of text values, which the rules
//! then check.

use crate::text::{chars_of, push_str};
use crate::validators::{values_of, ColumnView};
use crate::verify::chars_eq;
use polars::prelude::{CsvReader, DataType, ParquetReader, SerReader};
use polars_io::prelude::CsvReadOptions;
use std::io::Cursor;
use vstd::prelude::*;

verus! {

/// Reads CSV data with a header row.
pub struct CsvDriver;

/// Reads Parquet data.
pub struct ParquetDriver;

/// A table as plain values: each column's name, whether its type is a
/// string type, and its values as text (`None` for null).
pub type Columns = Seq<(Seq<char>, bool, Seq<Option<Seq<char>>>)>;

/// A column as plain values.
pub open spec fn column_model(c: ColumnView) -> (Seq<char>, bool, Seq<Option<Seq<char>>>) {
    (c.name@, c.is_string, values_of(c.values@))
}

/// The columns that polars reads from CSV bytes with a header row, each
/// rendered as text by a cast to its string type; `None` where the bytes do
/// not read as CSV or a column does not cast.
pub uninterp spec fn csv_columns(data: Seq<u8>) -> Option<Columns>;

/// The columns that polars reads from Parquet bytes, rendered as for CSV.
pub uninterp spec fn parquet_columns(data: Seq<u8>) -> Option<Columns>;

impl CsvDriver {
    /// Reads CSV bytes with a header row with `polars::io::CsvReader` and
    /// renders each column as text (`Column::cast` to `DataType::String`).
    /// The contract claims that the outcome depends on the bytes alone.
    #[verifier::external_body]
    pub fn load(&self, data: &[u8]) -> (r: Option<Vec<ColumnView>>)
        ensures
            match csv_columns(data@) {
                None => r is None,
                Some(cs) => r matches Some(v) && v@.map_values(|c: ColumnView| column_model(c)) == cs,
            },
    {
        let mut options = CsvReadOptions::default();
        options.has_header = true;
        let df = CsvReader::new(Cursor::new(data)).with_options(options).finish().ok()?;
        let mut out = Vec::new();
        for c in df.get_columns() {
            let text = c.cast(&DataType::String).ok()?;
            let values = text.str().ok()?.into_iter().map(|v| v.map(str::to_string)).collect();
            out.push(ColumnView { name: c.name().to_string(), is_string: c.dtype().is_string(), values });
        }
        Some(out)
    }
}

impl ParquetDriver {
    /// Reads Parquet bytes with `polars::io::ParquetReader` and renders each
    /// column as text as `CsvDriver::load` does. The contract claims that the
    /// outcome depends on the bytes alone.
    #[verifier::external_body]
    pub fn load(&self, data: &[u8]) -> (r: Option<Vec<ColumnView>>)
        ensures
            match parquet_columns(data@) {
                None => r is None,
                Some(cs) => r matches Some(v) && v@.map_values(|c: ColumnView| column_model(c)) == cs,
            },
    {
        let df = ParquetReader::new(Cursor::new(data)).finish().ok()?;
        let mut out = Vec::new();
        for c in df.get_columns() {
            let text = c.cast(&DataType::String).ok()?;
            let values = text.str().ok()?.into_iter().map(|v| v.map(str::to_string)).collect();
            out.push(ColumnView { name: c.name().to_string(), is_string: c.dtype().is_string(), values });
        }
        Some(out)
    }
}

/// The drivers a file extension can select.
pub enum DriverKind {
    Csv(CsvDriver),
    Parquet(ParquetDriver),
}

/// The driver for a file extension: `csv` and `parquet` (exactly, in lower
/// case) have one; any other extension is an error.
pub fn get_driver(extension: &str) -> (r: Result<DriverKind, String>)
    ensures
        extension@ == "csv"@ ==> r matches Ok(DriverKind::Csv(_)),
        extension@ == "parquet"@ ==> r matches Ok(DriverKind::Parquet(_)),
        extension@ != "csv"@ && extension@ != "parquet"@ ==> (r matches Err(m) && m@
            == "Unsupported file extension: "@ + extension@),
{
    let e = chars_of(extension);
    let csv = chars_of("csv");
    let parquet = chars_of("parquet");
    proof {
        reveal_strlit("csv");
        reveal_strlit("parquet");
        assert("csv"@.len() != "parquet"@.len());
    }
    if chars_eq(&e, &csv) {
        Ok(DriverKind::Csv(CsvDriver))
    } else if chars_eq(&e, &parquet) {
        Ok(DriverKind::Parquet(ParquetDriver))
    } else {
        let mut m = String::new();
        push_str(&mut m, "Unsupported file extension: ");
        push_str(&mut m, extension);
        Err(m)
    }
}

impl DriverKind {
    /// Reads a data file's bytes into columns with the chosen driver.
    pub fn load(&self, data: &[u8]) -> (r: Option<Vec<ColumnView>>)
        ensures
            match (match self {
                DriverKind::Csv(_) => csv_columns(data@),
                DriverKind::Parquet(_) => parquet_columns(data@),
            }) {
                None => r is None,
                Some(cs) => r matches Some(v) && v@.map_values(|c: ColumnView| column_model(c)) == cs,
            },
    {
        match self {
            DriverKind::Csv(d) => d.load(data),
            DriverKind::Parquet(d) => d.load(data),
        }
    }
}

} // verus!
