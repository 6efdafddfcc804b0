//! Text signing and verification over two schemes (a keyed hash and Ed25519),
//! with key loading and generation, a printable signature codec, and the
//! small pieces of a command-line toolkit around them.

mod bytes;
pub mod cli;
pub mod codec;
pub mod csv_convert;
pub mod ed25519;
mod error;
pub mod gen_pass;
pub mod keyed;
pub mod text;

pub use cli::{
    parse_base64_format, verify_file, verify_input_file, verify_path, Base64DecodeOpts,
    Base64EncodeOpts, Base64SubCommand, CsvOpts, GenPassOpts, HttpServeOpts, HttpSubCommand, Opts,
    SubCommand, TextKeyGenerateOpts, TextSignOpts, TextSubCommand, TextVerifyOpts,
};
pub use codec::{decode, encode, process_decode, process_encode, Base64Format};
pub use csv_convert::{zip_record, OutputFormat, Player};
pub use ed25519::{Ed25519Signer, Ed25519Verifier};
pub use error::TextError;
pub use gen_pass::{generate_password, process_genpass};
pub use keyed::Blake3;
pub use text::{process_text_key_generate, process_text_sign, process_text_verify, TextSignFormat};
