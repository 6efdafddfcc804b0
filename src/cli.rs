use vstd::prelude::*;

use crate::bytes::str_equal;
use crate::codec::Base64Format;
use crate::csv_convert::OutputFormat;
use crate::text::TextSignFormat;

verus! {

/// The parsed command line.
pub struct Opts {
    pub cmd: SubCommand,
}

/// The tools of the command line.
pub enum SubCommand {
    Csv(CsvOpts),
    GenPass(GenPassOpts),
    Base64(Base64SubCommand),
    Text(TextSubCommand),
    Http(HttpSubCommand),
}

/// Options of CSV conversion.
pub struct CsvOpts {
    pub input: String,
    pub output: Option<String>,
    pub format: OutputFormat,
    pub delimiter: char,
    pub header: bool,
}

/// Options of password generation.
pub struct GenPassOpts {
    pub length: u8,
    pub uppercase: bool,
    pub lowercase: bool,
    pub number: bool,
    pub symbol: bool,
}

/// The base64 tools.
pub enum Base64SubCommand {
    Encode(Base64EncodeOpts),
    Decode(Base64DecodeOpts),
}

/// Options of base64 encoding.
pub struct Base64EncodeOpts {
    pub input: String,
    pub format: Base64Format,
}

/// Options of base64 decoding.
pub struct Base64DecodeOpts {
    pub input: String,
    pub format: Base64Format,
}

/// The signing tools.
pub enum TextSubCommand {
    Sign(TextSignOpts),
    Verify(TextVerifyOpts),
    Generate(TextKeyGenerateOpts),
}

/// Options of signing: the message, the key file and the scheme.
pub struct TextSignOpts {
    pub input: String,
    pub key: String,
    pub format: TextSignFormat,
}

/// Options of verification: the message, the key file, the scheme and the
/// signature text.
pub struct TextVerifyOpts {
    pub input: String,
    pub key: String,
    pub format: TextSignFormat,
    pub sig: String,
}

/// Options of key generation: the scheme and the directory to write to.
pub struct TextKeyGenerateOpts {
    pub format: TextSignFormat,
    pub output_path: String,
}

/// The file-serving tools.
pub enum HttpSubCommand {
    Serve(HttpServeOpts),
}

/// Options of file serving: the directory and the port.
pub struct HttpServeOpts {
    pub dir: String,
    pub port: u16,
}

/// Accepts an input name that is `-` (standard input) or names a file that
/// exists.
pub fn verify_file(filename: &str, found: bool) -> (r: Result<String, &'static str>)
    ensures
        filename@ == "-"@ || found ==> (r matches Ok(name) && name@ == filename@),
        !(filename@ == "-"@ || found) ==> (r matches Err(e) && e@ == "File does not exist"@),
{
    if str_equal(filename, "-") || found {
        Ok(filename.to_owned())
    } else {
        Err("File does not exist")
    }
}

/// Accepts the name of a file that exists.
pub fn verify_input_file(filename: &str, found: bool) -> (r: Result<String, &'static str>)
    ensures
        found ==> (r matches Ok(name) && name@ == filename@),
        !found ==> (r matches Err(e) && e@ == "File does not exist"@),
{
    if found {
        Ok(filename.to_owned())
    } else {
        Err("File does not exist")
    }
}

/// Accepts the name of a directory that exists.
pub fn verify_path(path: &str, found: bool, is_dir: bool) -> (r: Result<String, &'static str>)
    ensures
        found && is_dir ==> (r matches Ok(name) && name@ == path@),
        !(found && is_dir) ==> (r matches Err(e) && e@
            == "Path does not exist or is not a directory"@),
{
    if found && is_dir {
        Ok(path.to_owned())
    } else {
        Err("Path does not exist or is not a directory")
    }
}

/// Reads a base64 format from its name.
pub fn parse_base64_format(format: &str) -> (r: Result<Base64Format, &'static str>)
    ensures
        format@ == "standard"@ ==> r == Ok::<Base64Format, &'static str>(Base64Format::Standard),
        format@ == "urlSafe"@ ==> r == Ok::<Base64Format, &'static str>(Base64Format::UrlSafe),
        format@ != "standard"@ && format@ != "urlSafe"@ ==> (r matches Err(e) && e@
            == "Invalid format"@),
{
    proof {
        reveal_strlit("standard");
        reveal_strlit("urlSafe");
        assert("standard"@.len() != "urlSafe"@.len());
    }
    if str_equal(format, "standard") {
        Ok(Base64Format::Standard)
    } else if str_equal(format, "urlSafe") {
        Ok(Base64Format::UrlSafe)
    } else {
        Err("Invalid format")
    }
}

} // verus!
