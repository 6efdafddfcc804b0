use vstd::prelude::*;

use crate::bytes::str_equal;

verus! {

/// The formats a CSV file can be converted to.
#[derive(Debug, Clone, Copy, PartialEq, Eq, Structural)]
pub enum OutputFormat {
    Json,
    Yaml,
}

impl OutputFormat {
    /// The name of the format, also the extension of its default output file.
    pub fn as_str(&self) -> (r: &'static str)
        ensures
            r@ == (match *self {
                OutputFormat::Json => "json"@,
                OutputFormat::Yaml => "yaml"@,
            }),
    {
        match self {
            OutputFormat::Json => "json",
            OutputFormat::Yaml => "yaml",
        }
    }
}

/// Reads an output format from its name.
pub fn parse_format(format: &str) -> (r: Result<OutputFormat, &'static str>)
    ensures
        format@ == "json"@ ==> r == Ok::<OutputFormat, &'static str>(OutputFormat::Json),
        format@ == "yaml"@ ==> r == Ok::<OutputFormat, &'static str>(OutputFormat::Yaml),
        format@ != "json"@ && format@ != "yaml"@ ==> (r matches Err(e) && e@ == "Invalid format"@),
{
    proof {
        reveal_strlit("json");
        reveal_strlit("yaml");
        assert("json"@[0] != "yaml"@[0]);
    }
    if str_equal(format, "json") {
        Ok(OutputFormat::Json)
    } else if str_equal(format, "yaml") {
        Ok(OutputFormat::Yaml)
    } else {
        Err("Invalid format")
    }
}

/// One row of the sample player roster.
pub struct Player {
    pub name: String,
    pub position: String,
    pub dob: String,
    pub nationality: String,
    pub kit: u8,
}

/// Pairs each field of a record with the header of its column; fields past
/// the last header, or headers past the last field, are left out.
pub fn zip_record(headers: &Vec<String>, record: &Vec<String>) -> (r: Vec<(String, String)>)
    ensures
        r@.len() == if headers@.len() < record@.len() {
            headers@.len()
        } else {
            record@.len()
        },
        forall|i: int|
            0 <= i < r@.len() ==> (#[trigger] r@[i]).0@ == headers@[i]@ && r@[i].1@ == record@[i]@,
{
    let n: usize = if headers.len() < record.len() {
        headers.len()
    } else {
        record.len()
    };
    let mut pairs: Vec<(String, String)> = Vec::new();
    let mut i: usize = 0;
    while i < n
        invariant
            i <= n,
            n <= headers@.len(),
            n <= record@.len(),
            pairs@.len() == i,
            forall|j: int|
                0 <= j < i ==> (#[trigger] pairs@[j]).0@ == headers@[j]@ && pairs@[j].1@
                    == record@[j]@,
        decreases n - i,
    {
        pairs.push((headers[i].clone(), record[i].clone()));
        i = i + 1;
    }
    pairs
}

} // verus!
