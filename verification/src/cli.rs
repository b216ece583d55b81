//! The choices the command line offers.

use vstd::prelude::*;

verus! {

/// Format of a schema file.
#[derive(Debug, PartialEq, Eq, Structural, Clone, Copy)]
pub enum ParserType {
    /// YAML.
    Yaml,
    /// JSON.
    Json,
}

/// Format of the generated output.
#[derive(Debug, PartialEq, Eq, Structural, Clone, Copy)]
pub enum OutputType {
    /// YAML.
    Yaml,
    /// JSON.
    Json,
    /// Comma-separated values.
    Csv,
    /// Tab-separated values.
    Tsv,
}

impl OutputType {
    /// The character between the fields of a row, for the formats that
    /// write rows of fields.
    pub fn field_separator(&self) -> (r: Option<char>)
        ensures
            r == (match *self {
                OutputType::Csv => Some(','),
                OutputType::Tsv => Some('\t'),
                _ => None,
            }),
    {
        match self {
            OutputType::Csv => Some(','),
            OutputType::Tsv => Some('\t'),
            _ => None,
        }
    }
}

/// The options of one run of the command.
#[derive(Debug)]
pub struct SbrdGenApp {
    /// Path of the schema file.
    pub schema_file_path: String,
    /// Format of the schema file.
    pub parser_type: ParserType,
    /// Format of the output.
    pub output_type: OutputType,
    /// Number of rows to generate.
    pub count: u64,
    /// Whether to leave the keys out of the output.
    pub no_header: bool,
    /// Whether to stop after checking the schema.
    pub dry_run: bool,
}

impl SbrdGenApp {
    /// Whether the output carries the keys.
    pub fn with_key_header(&self) -> (r: bool)
        ensures
            r == !self.no_header,
    {
        !self.no_header
    }
}

} // verus!
