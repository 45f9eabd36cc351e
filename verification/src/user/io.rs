//! Reading lines from the terminal.

use vstd::prelude::*;
use vstd::string::StrSliceExecFns;
use vstd::utf8::{decode_utf8, valid_utf8};
use crate::storage::fat16::direntry::utf8_str;

verus! {

/// The number of columns that `ch` takes on a terminal: none for a
/// control character, two for a wide character, one for any other.
pub open spec fn spec_char_display_width(ch: char) -> usize {
    let code = ch as u32;
    if code <= 0x1F || code == 0x7F {
        0
    } else if (0x1100 <= code <= 0x115F) || (0x2329 <= code <= 0x232A) || (0x2E80 <= code
        <= 0xA4CF) || (0xAC00 <= code <= 0xD7A3) || (0xF900 <= code <= 0xFAFF) || (0xFE10 <= code
        <= 0xFE6F) || (0xFF01 <= code <= 0xFF60) || (0xFFE0 <= code <= 0xFFE6) || (0x1F000 <= code
        <= 0x1FAFF) {
        2
    } else {
        1
    }
}

/// The number of columns that `ch` takes on a terminal.
///
/// Control characters take none. Hangul, the angle brackets at `2329`,
/// the CJK blocks from `2E80` to `A4CF`, the CJK compatibility forms, the
/// full-width forms and the emoji from `1F000` to `1FAFF` take two. Any
/// other character takes one.
pub fn char_display_width(ch: char) -> (width: usize)
    ensures
        width == spec_char_display_width(ch),
{
    let code: u32 = ch as u32;
    if code <= 0x1F || code == 0x7F {
        0
    } else if (0x1100 <= code && code <= 0x115F) || (0x2329 <= code && code <= 0x232A) || (0x2E80
        <= code && code <= 0xA4CF) || (0xAC00 <= code && code <= 0xD7A3) || (0xF900 <= code && code
        <= 0xFAFF) || (0xFE10 <= code && code <= 0xFE6F) || (0xFF01 <= code && code <= 0xFF60) || (
    0xFFE0 <= code && code <= 0xFFE6) || (0x1F000 <= code && code <= 0x1FAFF) {
        2
    } else {
        1
    }
}

/// What the terminal has to show after a byte was read.
#[derive(Clone, Copy, Debug, PartialEq, Eq, Structural)]
pub enum Echo {
    /// Nothing.
    Nothing,
    /// A new line.
    NewLine,
    /// `^C` and a new line.
    Interrupt,
    /// `^D` and a new line.
    EndOfInput,
    /// The last character is wiped out: so many columns.
    Erase(usize),
    /// The character.
    Char(char),
}

/// A line while it is read from the terminal byte by byte.
pub struct LineReader {
    /// The characters of the line.
    pub line: Vec<char>,
    /// The bytes of the character that is being read.
    pub pending: Vec<u8>,
}

/// What came of a byte: what to show, and the line where it is at its
/// end.
pub struct Fed {
    pub echo: Echo,
    pub line: Option<String>,
}

/// `String::from_iter` of std over the characters of `chars`: the string
/// of these characters.
#[verifier::external_body]
fn string_of(chars: &Vec<char>) -> (s: String)
    ensures
        s@ == chars@,
{
    chars.iter().collect()
}

impl LineReader {
    /// Whether the byte `byte` ends the line.
    pub open spec fn spec_ends_line(byte: u8) -> bool {
        byte == 0x0A || byte == 0x0D || byte == 0x03 || byte == 0x04
    }

    /// The characters of the line after `byte` was read.
    pub open spec fn spec_line_after(line: Seq<char>, pending: Seq<u8>, byte: u8) -> Seq<char> {
        if Self::spec_ends_line(byte) {
            Seq::empty()
        } else if byte == 0x08 || byte == 0x7F {
            if line.len() > 0 {
                line.drop_last()
            } else {
                line
            }
        } else if valid_utf8(pending.push(byte)) {
            line.push(decode_utf8(pending.push(byte))[0])
        } else {
            line
        }
    }

    /// The bytes of the character that is being read after `byte` was
    /// read.
    pub open spec fn spec_pending_after(pending: Seq<u8>, byte: u8) -> Seq<u8> {
        if Self::spec_ends_line(byte) || byte == 0x08 || byte == 0x7F {
            pending
        } else if valid_utf8(pending.push(byte)) || pending.len() + 1 >= 4 {
            Seq::empty()
        } else {
            pending.push(byte)
        }
    }

    /// What the terminal has to show after `byte` was read.
    pub open spec fn spec_echo(line: Seq<char>, pending: Seq<u8>, byte: u8) -> Echo {
        if byte == 0x0A || byte == 0x0D {
            Echo::NewLine
        } else if byte == 0x03 {
            Echo::Interrupt
        } else if byte == 0x04 {
            Echo::EndOfInput
        } else if byte == 0x08 || byte == 0x7F {
            if line.len() > 0 {
                Echo::Erase(spec_char_display_width(line.last()))
            } else {
                Echo::Nothing
            }
        } else if valid_utf8(pending.push(byte)) {
            Echo::Char(decode_utf8(pending.push(byte))[0])
        } else {
            Echo::Nothing
        }
    }

    /// The line that is at its end with `byte`: the characters read for
    /// a new line, nothing for `^C` and `^D`; `None` for any other byte.
    pub open spec fn spec_done(line: Seq<char>, byte: u8) -> Option<Seq<char>> {
        if byte == 0x0A || byte == 0x0D {
            Some(line)
        } else if byte == 0x03 || byte == 0x04 {
            Some(Seq::empty())
        } else {
            None
        }
    }

    /// A reader at the start of a line.
    pub fn new() -> (reader: LineReader)
        ensures
            reader.line@ == Seq::<char>::empty(),
            reader.pending@ == Seq::<u8>::empty(),
    {
        LineReader { line: Vec::new(), pending: Vec::new() }
    }

    /// Takes the next byte from the terminal.
    ///
    /// - A new line ends the line: the result holds the characters read.
    /// - `^C` and `^D` end the line and throw it away: the result holds
    ///   an empty line.
    /// - Backspace and delete take the last character away, and the
    ///   terminal wipes out its columns.
    /// - Any other byte joins the bytes of the character that is being
    ///   read. Where they are a character now, it joins the line and is
    ///   shown; where four bytes are none, they are dropped.
    ///
    /// When a line has come to its end the reader starts the next one.
    pub fn feed(&mut self, byte: u8) -> (fed: Fed)
        ensures
            final(self).line@ == Self::spec_line_after(old(self).line@, old(self).pending@, byte),
            final(self).pending@ == Self::spec_pending_after(old(self).pending@, byte),
            fed.echo == Self::spec_echo(old(self).line@, old(self).pending@, byte),
            fed.line is Some == Self::spec_done(old(self).line@, byte) is Some,
            fed.line matches Some(text) ==> Some(text@) == Self::spec_done(old(self).line@, byte),
    {
        if byte == 0x0A || byte == 0x0D {
            let text = string_of(&self.line);
            self.line.clear();
            Fed { echo: Echo::NewLine, line: Some(text) }
        } else if byte == 0x03 {
            self.line.clear();
            Fed { echo: Echo::Interrupt, line: Some(String::new()) }
        } else if byte == 0x04 {
            self.line.clear();
            Fed { echo: Echo::EndOfInput, line: Some(String::new()) }
        } else if byte == 0x08 || byte == 0x7F {
            match self.line.pop() {
                Some(ch) => Fed { echo: Echo::Erase(char_display_width(ch)), line: None },
                None => Fed { echo: Echo::Nothing, line: None },
            }
        } else {
            self.pending.push(byte);
            let found: Option<char> = match utf8_str(self.pending.as_slice()) {
                Some(text) => {
                    assert(text@.len() > 0) by {
                        reveal_with_fuel(decode_utf8, 2);
                    }
                    Some(text.get_char(0))
                },
                None => None,
            };
            match found {
                Some(ch) => {
                    self.line.push(ch);
                    self.pending.clear();
                    Fed { echo: Echo::Char(ch), line: None }
                },
                None => {
                    if self.pending.len() >= 4 {
                        self.pending.clear();
                    }
                    Fed { echo: Echo::Nothing, line: None }
                },
            }
        }
    }
}

} // verus!
