//! The record: one unit of collected variables, with where and when they
//! were collected.

use crate::clock::Timestamp;
use crate::consts::{PROCESS_SOURCE, SCHEMA_FILE_TYPE, TEST_SOURCE, USER_AGENT};
use crate::parser::{parse_content, parse_text};
use crate::variables::{map_of_pairs, Variables};
use vstd::prelude::*;

verus! {

/// One unit of collected data. It is built once, when the data is collected,
/// and handed over once, to one delivery.
#[allow(non_camel_case_types)]
#[derive(Debug, PartialEq, Eq)]
pub struct rustfmtData {
    /// Where the variables come from: the path of a file as it was given, or
    /// a fixed name for the running process.
    pub source_file: String,
    /// The variables.
    pub variables: Variables,
    /// When the variables were collected.
    pub timestamp: Timestamp,
    /// Free annotations, if any.
    pub metadata: Option<Variables>,
}

/// The characters of each key and value of the annotations, if there are
/// any.
pub open spec fn metadata_view(metadata: Option<Variables>) -> Option<Map<Seq<char>, Seq<char>>> {
    match metadata {
        Some(annotations) => Some(annotations@),
        None => None,
    }
}

/// The annotations of a record read from a schema file: the file type and
/// the name of this client.
pub open spec fn schema_file_metadata() -> Map<Seq<char>, Seq<char>> {
    Map::<Seq<char>, Seq<char>>::empty().insert("file_type"@, SCHEMA_FILE_TYPE@).insert(
        "user_agent"@,
        USER_AGENT@,
    )
}

/// The annotations of a record of the running process: its source.
pub open spec fn process_metadata() -> Map<Seq<char>, Seq<char>> {
    Map::<Seq<char>, Seq<char>>::empty().insert("source"@, PROCESS_SOURCE@)
}

impl Clone for rustfmtData {
    fn clone(&self) -> (copy: Self)
        ensures
            copy.source_file@ == self.source_file@,
            copy.variables@ == self.variables@,
            copy.timestamp == self.timestamp,
            metadata_view(copy.metadata) == metadata_view(self.metadata),
    {
        rustfmtData {
            source_file: self.source_file.clone(),
            variables: self.variables.clone(),
            timestamp: self.timestamp,
            metadata: match &self.metadata {
                Some(metadata) => Some(metadata.clone()),
                None => None,
            },
        }
    }
}

impl rustfmtData {
    /// Whether this is the record of the variable file at `path` with the
    /// text `content`, whenever it was collected.
    pub open spec fn is_of_file(&self, path: Seq<char>, content: Seq<char>) -> bool {
        &&& self.source_file@ == path
        &&& self.variables@ == parse_text(content)
        &&& self.metadata is None
    }

    /// Whether this is the record of the schema file at `path` with the text
    /// `content`, whenever it was collected.
    pub open spec fn is_of_schema_file(&self, path: Seq<char>, content: Seq<char>) -> bool {
        &&& self.source_file@ == path
        &&& self.variables@ == parse_text(content)
        &&& metadata_view(self.metadata) == Some(schema_file_metadata())
    }

    /// Whether this is the record of a process with these variables,
    /// whenever it was collected.
    pub open spec fn is_of_process(&self, environment: Seq<(String, String)>) -> bool {
        &&& self.source_file@ == PROCESS_SOURCE@
        &&& self.variables@ == map_of_pairs(environment)
        &&& metadata_view(self.metadata) == Some(process_metadata())
    }

    /// The record of a variable file: the path as its source, the variables
    /// that the text of the file describes, no annotations.
    pub fn from_file(path: &str, content: &str, timestamp: Timestamp) -> (data: Self)
        ensures
            data.is_of_file(path@, content@),
            data.timestamp == timestamp,
    {
        rustfmtData {
            source_file: path.to_owned(),
            variables: parse_content(content),
            timestamp,
            metadata: None,
        }
    }

    /// The record of a schema file: as [`rustfmtData::from_file`], and
    /// annotated with the file type and the name of this client.
    pub fn from_schema_file(path: &str, content: &str, timestamp: Timestamp) -> (data: Self)
        ensures
            data.is_of_schema_file(path@, content@),
            data.timestamp == timestamp,
    {
        let mut metadata = Variables::new();
        metadata.insert("file_type".to_owned(), SCHEMA_FILE_TYPE.to_owned());
        metadata.insert("user_agent".to_owned(), USER_AGENT.to_owned());
        rustfmtData {
            source_file: path.to_owned(),
            variables: parse_content(content),
            timestamp,
            metadata: Some(metadata),
        }
    }

    /// The record of the running process: every variable of its environment,
    /// given as pairs of name and value, annotated with its source.
    pub fn from_process(environment: &Vec<(String, String)>, timestamp: Timestamp) -> (data: Self)
        ensures
            data.is_of_process(environment@),
            data.timestamp == timestamp,
    {
        let mut metadata = Variables::new();
        metadata.insert("source".to_owned(), PROCESS_SOURCE.to_owned());
        rustfmtData {
            source_file: PROCESS_SOURCE.to_owned(),
            variables: Variables::from_pairs(environment),
            timestamp,
            metadata: Some(metadata),
        }
    }

    /// The record that tests the connection: no variables, no annotations.
    pub fn connection_test(timestamp: Timestamp) -> (data: Self)
        ensures
            data.source_file@ == TEST_SOURCE@,
            data.variables@ == Map::<Seq<char>, Seq<char>>::empty(),
            data.timestamp == timestamp,
            data.metadata is None,
    {
        rustfmtData {
            source_file: TEST_SOURCE.to_owned(),
            variables: Variables::new(),
            timestamp,
            metadata: None,
        }
    }
}

/// The record of the running process, collected now. The caller reads the
/// environment and hands it over as pairs of name and value.
pub fn create_rustfmt_data_from_current(environment: &Vec<(String, String)>) -> (data: rustfmtData)
    ensures
        data.source_file@ == PROCESS_SOURCE@,
        data.variables@ == map_of_pairs(environment@),
        data.timestamp.is_reading(),
        data.metadata matches Some(metadata) && metadata@ == process_metadata(),
{
    rustfmtData::from_process(environment, Timestamp::now())
}

} // verus!
