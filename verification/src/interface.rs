//! The declarative contract every collection has with the streaming engine:
//! a name, and the statements that (re)declare or remove its ingestion
//! source and its derived view under that name.

use vstd::prelude::*;
use vstd::string::StringExecFns;
use crate::sql;

verus! {

/// Milliseconds between two advances of the engine's ingestion watermark.
/// This interval is the dominant contributor to read staleness: readers that
/// need to observe a fresh append wait a small multiple of it.
pub const TIME_INTERNAL: u64 = 50;

/// The capability set every collection models once: declare the source,
/// declare the view, drop both. The collection's name alone determines its
/// log file path and its SQL object names `{name}_source` and `{name}_view`,
/// so no two collections may share a name.
pub trait MaterializeOperator {
    /// The collection's name.
    spec fn spec_name(&self) -> Seq<char>;

    /// The view definition the collection registers: its projection,
    /// filtering and deduplication policy over the ingested lines.
    spec fn spec_view_sql(&self) -> Seq<char>;

    fn name(&self) -> (r: String)
        ensures
            r@ == self.spec_name(),
    ;

    fn create_view_sql(&self) -> (r: String)
        ensures
            r@ == self.spec_view_sql(),
    ;

    /// The statement that registers the collection's log file as a tailed
    /// byte-stream source refreshed about every `time_internal` milliseconds.
    fn create_source_sql(&self, file_name: &str, time_internal: u64) -> (r: String)
        ensures
            r@ == sql::spec_source_sql(self.spec_name(), file_name@, time_internal as nat),
    {
        let name = self.name();
        sql::source_sql(name.as_str(), file_name, time_internal)
    }

    /// The two statements that remove the collection's view and source, in
    /// that order; both are harmless when nothing exists, which is what makes
    /// re-initialization idempotent.
    fn clear_sql(&self) -> (r: (String, String))
        ensures
            r.0@ == sql::spec_drop_sql("view"@, self.spec_name()),
            r.1@ == sql::spec_drop_sql("source"@, self.spec_name()),
    {
        let name = self.name();
        let v = sql::drop_sql("view", name.as_str());
        let s = sql::drop_sql("source", name.as_str());
        (v, s)
    }

    /// The path of the collection's log file.
    fn log_file(&self) -> (r: String)
        ensures
            r@ == sql::spec_json_file(self.spec_name()),
    {
        let name = self.name();
        sql::json_file(name.as_str())
    }
}

} // verus!
