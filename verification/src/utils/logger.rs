//! The level from which the kernel logs.

use vstd::prelude::*;
use vstd::utf8::{encode_utf8, encode_utf8_decode_utf8, is_ascii_chars, is_ascii_chars_encode_utf8};

verus! {

/// A level of logging: messages of this level and of those before it are
/// logged.
#[derive(Clone, Copy, Debug, PartialEq, Eq, Structural)]
pub enum LevelFilter {
    Error,
    Warn,
    Info,
    Debug,
    Trace,
}

/// Whether `a` and `b` are the same bytes.
pub fn same_bytes(a: &[u8], b: &[u8]) -> (same: bool)
    ensures
        same == (a@ == b@),
{
    if a.len() != b.len() {
        return false;
    }
    let mut i: usize = 0;
    while i < a.len()
        invariant
            0 <= i <= a.len(),
            a@.len() == b@.len(),
            forall|j: int| 0 <= j < i ==> a@[j] == b@[j],
        decreases a.len() - i,
    {
        if a[i] != b[i] {
            return false;
        }
        i = i + 1;
    }
    assert(a@ =~= b@);
    true
}

/// The level that `level` names: `error`, `warn`, `info`, `debug` or
/// `trace`, in lower case; `Info` for anything else.
pub open spec fn spec_log_level(level: Seq<char>) -> LevelFilter {
    if level == "error"@ {
        LevelFilter::Error
    } else if level == "warn"@ {
        LevelFilter::Warn
    } else if level == "info"@ {
        LevelFilter::Info
    } else if level == "debug"@ {
        LevelFilter::Debug
    } else if level == "trace"@ {
        LevelFilter::Trace
    } else {
        LevelFilter::Info
    }
}

/// A text has the bytes of a word of ASCII letters just where it is the
/// word.
proof fn lemma_word_bytes(text: Seq<char>, word: Seq<char>, bytes: Seq<u8>)
    requires
        is_ascii_chars(word),
        bytes == Seq::new(word.len(), |i: int| word[i] as u8),
    ensures
        (encode_utf8(text) == bytes) == (text == word),
{
    is_ascii_chars_encode_utf8(word);
    encode_utf8_decode_utf8(text);
    encode_utf8_decode_utf8(word);
    assert(encode_utf8(word) =~= bytes);
}

/// The level that `level` names: `error`, `warn`, `info`, `debug` or
/// `trace`, in lower case; `Info` for anything else.
pub fn parse_log_level(level: &str) -> (filter: LevelFilter)
    ensures
        filter == spec_log_level(level@),
{
    let bytes = level.as_bytes();
    let error: [u8; 5] = [0x65, 0x72, 0x72, 0x6f, 0x72];
    let warn: [u8; 4] = [0x77, 0x61, 0x72, 0x6e];
    let info: [u8; 4] = [0x69, 0x6e, 0x66, 0x6f];
    let debug: [u8; 5] = [0x64, 0x65, 0x62, 0x75, 0x67];
    let trace: [u8; 5] = [0x74, 0x72, 0x61, 0x63, 0x65];
    proof {
        reveal_strlit("error");
        reveal_strlit("warn");
        reveal_strlit("info");
        reveal_strlit("debug");
        reveal_strlit("trace");
        assert(error@ =~= Seq::new("error"@.len(), |i: int| "error"@[i] as u8));
        assert(warn@ =~= Seq::new("warn"@.len(), |i: int| "warn"@[i] as u8));
        assert(info@ =~= Seq::new("info"@.len(), |i: int| "info"@[i] as u8));
        assert(debug@ =~= Seq::new("debug"@.len(), |i: int| "debug"@[i] as u8));
        assert(trace@ =~= Seq::new("trace"@.len(), |i: int| "trace"@[i] as u8));
        lemma_word_bytes(level@, "error"@, error@);
        lemma_word_bytes(level@, "warn"@, warn@);
        lemma_word_bytes(level@, "info"@, info@);
        lemma_word_bytes(level@, "debug"@, debug@);
        lemma_word_bytes(level@, "trace"@, trace@);
    }
    if same_bytes(bytes, error.as_slice()) {
        LevelFilter::Error
    } else if same_bytes(bytes, warn.as_slice()) {
        LevelFilter::Warn
    } else if same_bytes(bytes, info.as_slice()) {
        LevelFilter::Info
    } else if same_bytes(bytes, debug.as_slice()) {
        LevelFilter::Debug
    } else if same_bytes(bytes, trace.as_slice()) {
        LevelFilter::Trace
    } else {
        LevelFilter::Info
    }
}

} // verus!
