//! Builders for the SQL statements sent to the streaming engine.
//!
//! Every builder's contract gives the produced statement exactly, as a
//! concatenation of its pieces, so callers know character for character what
//! is declared for a collection.

use vstd::prelude::*;
use vstd::string::StringExecFns;

verus! {

/// The character standing for the decimal digit `d`.
pub open spec fn digit_char(d: nat) -> char {
    if d == 0 {
        '0'
    } else if d == 1 {
        '1'
    } else if d == 2 {
        '2'
    } else if d == 3 {
        '3'
    } else if d == 4 {
        '4'
    } else if d == 5 {
        '5'
    } else if d == 6 {
        '6'
    } else if d == 7 {
        '7'
    } else if d == 8 {
        '8'
    } else {
        '9'
    }
}

/// The decimal notation of `n`, most significant digit first, no sign and no
/// leading zero (except for `n == 0` itself).
pub open spec fn dec_seq(n: nat) -> Seq<char>
    decreases n,
{
    if n < 10 {
        seq![digit_char(n)]
    } else {
        dec_seq((n / 10) as nat).push(digit_char(n % 10))
    }
}

/// The one-character string for the decimal digit `d`.
fn digit_str(d: u64) -> (r: &'static str)
    requires
        d < 10,
    ensures
        r@ == seq![digit_char(d as nat)],
{
    match d {
        0 => {
            proof {
                reveal_strlit("0");
                assert("0"@ =~= seq![digit_char(0)]);
            }
            "0"
        },
        1 => {
            proof {
                reveal_strlit("1");
                assert("1"@ =~= seq![digit_char(1)]);
            }
            "1"
        },
        2 => {
            proof {
                reveal_strlit("2");
                assert("2"@ =~= seq![digit_char(2)]);
            }
            "2"
        },
        3 => {
            proof {
                reveal_strlit("3");
                assert("3"@ =~= seq![digit_char(3)]);
            }
            "3"
        },
        4 => {
            proof {
                reveal_strlit("4");
                assert("4"@ =~= seq![digit_char(4)]);
            }
            "4"
        },
        5 => {
            proof {
                reveal_strlit("5");
                assert("5"@ =~= seq![digit_char(5)]);
            }
            "5"
        },
        6 => {
            proof {
                reveal_strlit("6");
                assert("6"@ =~= seq![digit_char(6)]);
            }
            "6"
        },
        7 => {
            proof {
                reveal_strlit("7");
                assert("7"@ =~= seq![digit_char(7)]);
            }
            "7"
        },
        8 => {
            proof {
                reveal_strlit("8");
                assert("8"@ =~= seq![digit_char(8)]);
            }
            "8"
        },
        _ => {
            proof {
                reveal_strlit("9");
                assert("9"@ =~= seq![digit_char(9)]);
            }
            "9"
        },
    }
}

/// Renders `n` in decimal, as `dec_seq` describes.
pub fn decimal_string(n: u64) -> (r: String)
    ensures
        r@ == dec_seq(n as nat),
    decreases n,
{
    let d: u64 = n % 10;
    let digit: &'static str = digit_str(d);
    if n < 10 {
        String::from_str(digit)
    } else {
        let mut s = decimal_string(n / 10);
        s.append(digit);
        proof {
            assert(s@ =~= dec_seq(n as nat));
        }
        s
    }
}

/// `DROP {kind} IF EXISTS {name}_{kind};`
pub open spec fn spec_drop_sql(kind: Seq<char>, name: Seq<char>) -> Seq<char> {
    "DROP "@ + kind + " IF EXISTS "@ + name + "_"@ + kind + ";"@
}

/// The statement that removes the object of the given kind (`view` or
/// `source`) declared for the collection `name`; harmless when none exists.
pub fn drop_sql(kind: &str, name: &str) -> (r: String)
    ensures
        r@ == spec_drop_sql(kind@, name@),
{
    let mut s = String::from_str("DROP ");
    s.append(kind);
    s.append(" IF EXISTS ");
    s.append(name);
    s.append("_");
    s.append(kind);
    s.append(";");
    proof {
        assert(s@ =~= spec_drop_sql(kind@, name@));
    }
    s
}

/// `{name}.json`
pub open spec fn spec_json_file(name: Seq<char>) -> Seq<char> {
    name + ".json"@
}

/// The path of the collection's newline-delimited JSON log file, derived
/// from the collection name alone.
pub fn json_file(name: &str) -> (r: String)
    ensures
        r@ == spec_json_file(name@),
{
    let mut s = String::from_str(name);
    s.append(".json");
    proof {
        assert(s@ =~= spec_json_file(name@));
    }
    s
}

/// `CREATE SOURCE IF NOT EXISTS {name}_source (json_data) FROM FILE
/// '{file_name}' WITH (tail = true, timestamp_frequency_ms = {interval})
/// FORMAT BYTES;`
pub open spec fn spec_source_sql(name: Seq<char>, file_name: Seq<char>, interval: nat) -> Seq<
    char,
> {
    "CREATE SOURCE IF NOT EXISTS "@ + name + "_source (json_data) FROM FILE '"@ + file_name
        + "' WITH (tail = true, timestamp_frequency_ms = "@ + dec_seq(interval)
        + ") FORMAT BYTES;"@
}

/// The statement that registers the collection's log file as a byte-stream
/// source which the engine tails, advancing its ingestion watermark about
/// every `interval` milliseconds.
pub fn source_sql(name: &str, file_name: &str, interval: u64) -> (r: String)
    ensures
        r@ == spec_source_sql(name@, file_name@, interval as nat),
{
    let mut s = String::from_str("CREATE SOURCE IF NOT EXISTS ");
    s.append(name);
    s.append("_source (json_data) FROM FILE '");
    s.append(file_name);
    s.append("' WITH (tail = true, timestamp_frequency_ms = ");
    let num = decimal_string(interval);
    s.append(num.as_str());
    s.append(") FORMAT BYTES;");
    proof {
        assert(s@ =~= spec_source_sql(name@, file_name@, interval as nat));
    }
    s
}

/// `CREATE MATERIALIZED VIEW IF NOT EXISTS {name}_view AS SELECT CAST(data AS
/// JSONB) AS data FROM (SELECT CONVERT_FROM(json_data, 'utf8') AS data FROM
/// {name}_source);`
pub open spec fn spec_generic_view_sql(name: Seq<char>) -> Seq<char> {
    "CREATE MATERIALIZED VIEW IF NOT EXISTS "@ + name
        + "_view AS SELECT CAST(data AS JSONB) AS data FROM (SELECT CONVERT_FROM(json_data, 'utf8') AS data FROM "@
        + name + "_source);"@
}

/// The view that exposes every ingested line of the collection `name` as one
/// row with a single JSON-typed column, in ingestion order, with no further
/// projection.
pub fn generic_view_sql(name: &str) -> (r: String)
    ensures
        r@ == spec_generic_view_sql(name@),
{
    let mut s = String::from_str("CREATE MATERIALIZED VIEW IF NOT EXISTS ");
    s.append(name);
    s.append(
        "_view AS SELECT CAST(data AS JSONB) AS data FROM (SELECT CONVERT_FROM(json_data, 'utf8') AS data FROM ",
    );
    s.append(name);
    s.append("_source);");
    proof {
        assert(s@ =~= spec_generic_view_sql(name@));
    }
    s
}

} // verus!
