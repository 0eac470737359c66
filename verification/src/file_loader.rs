//! Loading a Markdown file: the choice of read strategy by file size, the
//! size limit, UTF-8 decoding of the bytes read, and the error messages.
//!
//! Files up to `DIRECT_READ_LIMIT` bytes are read directly, larger ones with
//! buffered streaming reads; the reading itself is done by the caller.

use vstd::prelude::*;
use vstd::string::*;
use vstd::utf8::*;
use crate::paths::{DocPath, PathView};
use crate::format::{format_bytes, format_bytes_spec};
use std::io::{Cursor, ErrorKind};
use ropey::Rope;

verus! {

/// Files up to this many bytes are read in one direct read.
pub const DIRECT_READ_LIMIT: u64 = 1024 * 1024;

/// How a file's bytes are read.
#[derive(Debug, Clone, Copy, PartialEq, Eq, Structural)]
pub enum ReadStrategy {
    Direct,
    Buffered,
}

/// The label of a read strategy.
pub open spec fn strategy_label(s: ReadStrategy) -> Seq<char> {
    match s {
        ReadStrategy::Direct => "direct read"@,
        ReadStrategy::Buffered => "buffered streaming read"@,
    }
}

impl ReadStrategy {
    /// A short description of the strategy.
    pub fn label(self) -> (r: &'static str)
        ensures
            r@ == strategy_label(self),
    {
        match self {
            ReadStrategy::Direct => "direct read",
            ReadStrategy::Buffered => "buffered streaming read",
        }
    }
}

/// The strategy for a file of `bytes` bytes.
pub open spec fn strategy_for(bytes: u64) -> ReadStrategy {
    if bytes <= DIRECT_READ_LIMIT {
        ReadStrategy::Direct
    } else {
        ReadStrategy::Buffered
    }
}

/// A loaded Markdown document.
#[derive(Debug, Clone)]
pub struct LoadedMarkdown {
    pub path: DocPath,
    pub text: String,
    /// The file's size as reported by the file system.
    pub bytes: u64,
    pub read_strategy: ReadStrategy,
}

/// Why a Markdown file could not be loaded.
#[derive(Debug)]
pub enum LoadMarkdownError {
    /// The file system reported an error; `message` is its text.
    Io { path: DocPath, message: String },
    /// Reading and decoding the file's text failed; `invalid_data` tells
    /// whether the bytes were not valid UTF-8 (rather than the read failing
    /// partway), and `message` is the error's text.
    Decode { path: DocPath, invalid_data: bool, message: String },
    /// The file is larger than what fits in memory.
    TooLarge { path: DocPath, bytes: u64 },
}

/// The message of a load error.
pub open spec fn load_error_message(e: LoadMarkdownError) -> Seq<char> {
    match e {
        LoadMarkdownError::Io { message, .. } => message@,
        LoadMarkdownError::Decode { invalid_data, message, .. } => if invalid_data {
            "file is not valid UTF-8: "@ + message@
        } else {
            "failed to decode file: "@ + message@
        },
        LoadMarkdownError::TooLarge { bytes, .. } => "file is too large to load into the editor ("@
            + format_bytes_spec(bytes as nat) + ")"@,
    }
}

/// The path of a load error.
pub open spec fn load_error_path(e: LoadMarkdownError) -> PathView {
    match e {
        LoadMarkdownError::Io { path, .. } => path@,
        LoadMarkdownError::Decode { path, .. } => path@,
        LoadMarkdownError::TooLarge { path, .. } => path@,
    }
}

impl LoadMarkdownError {
    /// The path of the file that failed to load.
    pub fn path(&self) -> (p: &DocPath)
        ensures
            p@ == load_error_path(*self),
    {
        match self {
            LoadMarkdownError::Io { path, .. } => path,
            LoadMarkdownError::Decode { path, .. } => path,
            LoadMarkdownError::TooLarge { path, .. } => path,
        }
    }

    /// The error as text.
    pub fn message(&self) -> (m: String)
        ensures
            m@ == load_error_message(*self),
    {
        match self {
            LoadMarkdownError::Io { message, .. } => message.clone(),
            LoadMarkdownError::Decode { invalid_data, message, .. } => {
                let mut m = if *invalid_data {
                    String::from_str("file is not valid UTF-8: ")
                } else {
                    String::from_str("failed to decode file: ")
                };
                m.append(message.as_str());
                m
            },
            LoadMarkdownError::TooLarge { bytes, .. } => {
                let mut m = String::from_str("file is too large to load into the editor (");
                let size = format_bytes(*bytes);
                m.append(size.as_str());
                m.append(")");
                m
            },
        }
    }
}

/// The read strategy for a file of `bytes` bytes, or the error for a file
/// too large to hold in memory.
pub fn read_strategy_for(path: DocPath, bytes: u64) -> (r: Result<ReadStrategy, LoadMarkdownError>)
    ensures
        bytes > usize::MAX ==> r == Err::<ReadStrategy, LoadMarkdownError>(
            LoadMarkdownError::TooLarge { path, bytes },
        ),
        bytes <= usize::MAX ==> r == Ok::<ReadStrategy, LoadMarkdownError>(strategy_for(bytes)),
{
    if bytes as u128 > usize::MAX as u128 {
        Err(LoadMarkdownError::TooLarge { path, bytes })
    } else if bytes <= DIRECT_READ_LIMIT {
        Ok(ReadStrategy::Direct)
    } else {
        Ok(ReadStrategy::Buffered)
    }
}

/// Decodes bytes as UTF-8 text with ropey (`Rope::from_reader` over the
/// bytes, then `to_string`).
///
/// Trusted: ropey's `from_reader` validates the stream with
/// `std::str::from_utf8`, keeps invalid bytes unconsumed and fails with
/// `InvalidData` if any remain, so it succeeds exactly on valid UTF-8 and
/// then holds exactly the decoded text; reading from memory never fails, so
/// its error's kind is always `InvalidData`. The error is returned as whether
/// its kind is `InvalidData` and its message; the message is not stated.
#[verifier::external_body]
fn rope_decode(raw: &[u8]) -> (r: Result<String, (bool, String)>)
    ensures
        r is Ok <==> valid_utf8(raw@),
        r matches Ok(t) ==> t@ == decode_utf8(raw@),
        r matches Err(e) ==> e.0,
{
    match Rope::from_reader(Cursor::new(raw)) {
        Ok(rope) => Ok(rope.to_string()),
        Err(e) => Err((e.kind() == ErrorKind::InvalidData, e.to_string())),
    }
}

/// The document loaded from a file's bytes, or the decoding error.
pub open spec fn load_outcome_ok(
    path: PathView,
    bytes: u64,
    strategy: ReadStrategy,
    raw: Seq<u8>,
    r: Result<LoadedMarkdown, LoadMarkdownError>,
) -> bool {
    match r {
        Ok(l) => valid_utf8(raw) && l.path@ == path && l.text@ == decode_utf8(raw) && l.bytes
            == bytes && l.read_strategy == strategy,
        Err(e) => !valid_utf8(raw) && load_error_path(e) == path && (
        e matches LoadMarkdownError::Decode { invalid_data, .. } && invalid_data),
    }
}

/// Completes a load from the bytes read: decodes them as UTF-8.
pub fn finish_markdown_load(
    path: DocPath,
    bytes: u64,
    read_strategy: ReadStrategy,
    raw: &[u8],
) -> (r: Result<LoadedMarkdown, LoadMarkdownError>)
    ensures
        load_outcome_ok(path@, bytes, read_strategy, raw@, r),
{
    match rope_decode(raw) {
        Ok(text) => Ok(LoadedMarkdown { path, text, bytes, read_strategy }),
        Err((invalid_data, message)) => Err(LoadMarkdownError::Decode { path, invalid_data, message }),
    }
}

/// A file whose bytes are the UTF-8 encoding of a text loads as exactly that
/// text (with the size and strategy it was read with).
pub proof fn lemma_load_round_trip(
    path: PathView,
    bytes: u64,
    strategy: ReadStrategy,
    text: Seq<char>,
    r: Result<LoadedMarkdown, LoadMarkdownError>,
)
    requires
        load_outcome_ok(path, bytes, strategy, encode_utf8(text), r),
    ensures
        r matches Ok(l) && l.text@ == text && l.path@ == path && l.bytes == bytes && l.read_strategy
            == strategy,
{
    encode_utf8_valid_utf8(text);
    encode_utf8_decode_utf8(text);
}

/// The read strategy depends only on the size: direct up to
/// `DIRECT_READ_LIMIT` bytes, buffered above it.
pub proof fn lemma_strategy_threshold(bytes: u64)
    ensures
        strategy_for(bytes) == ReadStrategy::Direct <==> bytes <= 1024 * 1024,
        strategy_for(bytes) == ReadStrategy::Buffered <==> bytes > 1024 * 1024,
{
}

} // verus!
