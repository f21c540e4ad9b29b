//! The named ASCII control codes a session can send, and their parsing
//! from characters, caret notation and full names.

use vstd::prelude::*;

verus! {

/// A named ASCII control byte: the caret set `^@` through `^_` plus delete.
#[derive(Debug, Clone, Copy, PartialEq, Eq, Structural)]
pub enum ControlCode {
    /// `^@`, byte 0x00.
    Null,
    /// `^A`, byte 0x01.
    StartOfHeading,
    /// `^B`, byte 0x02.
    StartOfText,
    /// `^C`, byte 0x03.
    EndOfText,
    /// `^D`, byte 0x04.
    EndOfTransmission,
    /// `^E`, byte 0x05.
    Enquiry,
    /// `^F`, byte 0x06.
    Acknowledge,
    /// `^G`, byte 0x07.
    Bell,
    /// `^H`, byte 0x08.
    Backspace,
    /// `^I`, byte 0x09.
    HorizontalTabulation,
    /// `^J`, byte 0x0A.
    LineFeed,
    /// `^K`, byte 0x0B.
    VerticalTabulation,
    /// `^L`, byte 0x0C.
    FormFeed,
    /// `^M`, byte 0x0D.
    CarriageReturn,
    /// `^N`, byte 0x0E.
    ShiftOut,
    /// `^O`, byte 0x0F.
    ShiftIn,
    /// `^P`, byte 0x10.
    DataLinkEscape,
    /// `^Q`, byte 0x11.
    DeviceControl1,
    /// `^R`, byte 0x12.
    DeviceControl2,
    /// `^S`, byte 0x13.
    DeviceControl3,
    /// `^T`, byte 0x14.
    DeviceControl4,
    /// `^U`, byte 0x15.
    NegativeAcknowledge,
    /// `^V`, byte 0x16.
    SynchronousIdle,
    /// `^W`, byte 0x17.
    EndOfTransmissionBlock,
    /// `^X`, byte 0x18.
    Cancel,
    /// `^Y`, byte 0x19.
    EndOfMedium,
    /// `^Z`, byte 0x1A.
    Substitute,
    /// `^[`, byte 0x1B.
    Escape,
    /// `^\`, byte 0x1C.
    FileSeparator,
    /// `^]`, byte 0x1D.
    GroupSeparator,
    /// `^^`, byte 0x1E.
    RecordSeparator,
    /// `^_`, byte 0x1F.
    UnitSeparator,
    /// `^?`, byte 0x7F.
    Delete,
}

/// The control code a single character stands for: the caret-set character
/// itself, or a letter in either case for the code reached with that letter.
pub open spec fn spec_code_of_char(c: char) -> Option<ControlCode> {
    match c {
        '@' => Some(ControlCode::Null),
        'A' | 'a' => Some(ControlCode::StartOfHeading),
        'B' | 'b' => Some(ControlCode::StartOfText),
        'C' | 'c' => Some(ControlCode::EndOfText),
        'D' | 'd' => Some(ControlCode::EndOfTransmission),
        'E' | 'e' => Some(ControlCode::Enquiry),
        'F' | 'f' => Some(ControlCode::Acknowledge),
        'G' | 'g' => Some(ControlCode::Bell),
        'H' | 'h' => Some(ControlCode::Backspace),
        'I' | 'i' => Some(ControlCode::HorizontalTabulation),
        'J' | 'j' => Some(ControlCode::LineFeed),
        'K' | 'k' => Some(ControlCode::VerticalTabulation),
        'L' | 'l' => Some(ControlCode::FormFeed),
        'M' | 'm' => Some(ControlCode::CarriageReturn),
        'N' | 'n' => Some(ControlCode::ShiftOut),
        'O' | 'o' => Some(ControlCode::ShiftIn),
        'P' | 'p' => Some(ControlCode::DataLinkEscape),
        'Q' | 'q' => Some(ControlCode::DeviceControl1),
        'R' | 'r' => Some(ControlCode::DeviceControl2),
        'S' | 's' => Some(ControlCode::DeviceControl3),
        'T' | 't' => Some(ControlCode::DeviceControl4),
        'U' | 'u' => Some(ControlCode::NegativeAcknowledge),
        'V' | 'v' => Some(ControlCode::SynchronousIdle),
        'W' | 'w' => Some(ControlCode::EndOfTransmissionBlock),
        'X' | 'x' => Some(ControlCode::Cancel),
        'Y' | 'y' => Some(ControlCode::EndOfMedium),
        'Z' | 'z' => Some(ControlCode::Substitute),
        '[' => Some(ControlCode::Escape),
        '\\' => Some(ControlCode::FileSeparator),
        ']' => Some(ControlCode::GroupSeparator),
        '^' => Some(ControlCode::RecordSeparator),
        '_' => Some(ControlCode::UnitSeparator),
        '?' => Some(ControlCode::Delete),
        _ => None,
    }
}

impl ControlCode {
    /// The ASCII byte this code stands for.
    pub open spec fn spec_byte(self) -> u8 {
        match self {
            ControlCode::Null => 0x00,
            ControlCode::StartOfHeading => 0x01,
            ControlCode::StartOfText => 0x02,
            ControlCode::EndOfText => 0x03,
            ControlCode::EndOfTransmission => 0x04,
            ControlCode::Enquiry => 0x05,
            ControlCode::Acknowledge => 0x06,
            ControlCode::Bell => 0x07,
            ControlCode::Backspace => 0x08,
            ControlCode::HorizontalTabulation => 0x09,
            ControlCode::LineFeed => 0x0A,
            ControlCode::VerticalTabulation => 0x0B,
            ControlCode::FormFeed => 0x0C,
            ControlCode::CarriageReturn => 0x0D,
            ControlCode::ShiftOut => 0x0E,
            ControlCode::ShiftIn => 0x0F,
            ControlCode::DataLinkEscape => 0x10,
            ControlCode::DeviceControl1 => 0x11,
            ControlCode::DeviceControl2 => 0x12,
            ControlCode::DeviceControl3 => 0x13,
            ControlCode::DeviceControl4 => 0x14,
            ControlCode::NegativeAcknowledge => 0x15,
            ControlCode::SynchronousIdle => 0x16,
            ControlCode::EndOfTransmissionBlock => 0x17,
            ControlCode::Cancel => 0x18,
            ControlCode::EndOfMedium => 0x19,
            ControlCode::Substitute => 0x1A,
            ControlCode::Escape => 0x1B,
            ControlCode::FileSeparator => 0x1C,
            ControlCode::GroupSeparator => 0x1D,
            ControlCode::RecordSeparator => 0x1E,
            ControlCode::UnitSeparator => 0x1F,
            ControlCode::Delete => 0x7F,
        }
    }

    /// The ASCII byte this code stands for.
    pub fn byte(&self) -> (r: u8)
        ensures
            r == self.spec_byte(),
    {
        match self {
            ControlCode::Null => 0x00,
            ControlCode::StartOfHeading => 0x01,
            ControlCode::StartOfText => 0x02,
            ControlCode::EndOfText => 0x03,
            ControlCode::EndOfTransmission => 0x04,
            ControlCode::Enquiry => 0x05,
            ControlCode::Acknowledge => 0x06,
            ControlCode::Bell => 0x07,
            ControlCode::Backspace => 0x08,
            ControlCode::HorizontalTabulation => 0x09,
            ControlCode::LineFeed => 0x0A,
            ControlCode::VerticalTabulation => 0x0B,
            ControlCode::FormFeed => 0x0C,
            ControlCode::CarriageReturn => 0x0D,
            ControlCode::ShiftOut => 0x0E,
            ControlCode::ShiftIn => 0x0F,
            ControlCode::DataLinkEscape => 0x10,
            ControlCode::DeviceControl1 => 0x11,
            ControlCode::DeviceControl2 => 0x12,
            ControlCode::DeviceControl3 => 0x13,
            ControlCode::DeviceControl4 => 0x14,
            ControlCode::NegativeAcknowledge => 0x15,
            ControlCode::SynchronousIdle => 0x16,
            ControlCode::EndOfTransmissionBlock => 0x17,
            ControlCode::Cancel => 0x18,
            ControlCode::EndOfMedium => 0x19,
            ControlCode::Substitute => 0x1A,
            ControlCode::Escape => 0x1B,
            ControlCode::FileSeparator => 0x1C,
            ControlCode::GroupSeparator => 0x1D,
            ControlCode::RecordSeparator => 0x1E,
            ControlCode::UnitSeparator => 0x1F,
            ControlCode::Delete => 0x7F,
        }
    }

    /// Parses a single character, as `spec_code_of_char` says.
    pub fn from_char(c: char) -> (r: Option<ControlCode>)
        ensures
            r == spec_code_of_char(c),
    {
        match c {
            '@' => Some(ControlCode::Null),
            'A' | 'a' => Some(ControlCode::StartOfHeading),
            'B' | 'b' => Some(ControlCode::StartOfText),
            'C' | 'c' => Some(ControlCode::EndOfText),
            'D' | 'd' => Some(ControlCode::EndOfTransmission),
            'E' | 'e' => Some(ControlCode::Enquiry),
            'F' | 'f' => Some(ControlCode::Acknowledge),
            'G' | 'g' => Some(ControlCode::Bell),
            'H' | 'h' => Some(ControlCode::Backspace),
            'I' | 'i' => Some(ControlCode::HorizontalTabulation),
            'J' | 'j' => Some(ControlCode::LineFeed),
            'K' | 'k' => Some(ControlCode::VerticalTabulation),
            'L' | 'l' => Some(ControlCode::FormFeed),
            'M' | 'm' => Some(ControlCode::CarriageReturn),
            'N' | 'n' => Some(ControlCode::ShiftOut),
            'O' | 'o' => Some(ControlCode::ShiftIn),
            'P' | 'p' => Some(ControlCode::DataLinkEscape),
            'Q' | 'q' => Some(ControlCode::DeviceControl1),
            'R' | 'r' => Some(ControlCode::DeviceControl2),
            'S' | 's' => Some(ControlCode::DeviceControl3),
            'T' | 't' => Some(ControlCode::DeviceControl4),
            'U' | 'u' => Some(ControlCode::NegativeAcknowledge),
            'V' | 'v' => Some(ControlCode::SynchronousIdle),
            'W' | 'w' => Some(ControlCode::EndOfTransmissionBlock),
            'X' | 'x' => Some(ControlCode::Cancel),
            'Y' | 'y' => Some(ControlCode::EndOfMedium),
            'Z' | 'z' => Some(ControlCode::Substitute),
            '[' => Some(ControlCode::Escape),
            '\\' => Some(ControlCode::FileSeparator),
            ']' => Some(ControlCode::GroupSeparator),
            '^' => Some(ControlCode::RecordSeparator),
            '_' => Some(ControlCode::UnitSeparator),
            '?' => Some(ControlCode::Delete),
            _ => None,
        }
    }
}

/// Compares two strings character by character.
fn str_equals(a: &str, b: &str) -> (r: bool)
    ensures
        r == (a@ == b@),
{
    let an = a.unicode_len();
    let bn = b.unicode_len();
    if an != bn {
        return false;
    }
    let mut i: usize = 0;
    while i < an
        invariant
            0 <= i <= an,
            an == a@.len(),
            bn == b@.len(),
            an == bn,
            forall|j: int| 0 <= j < i ==> a@[j] == b@[j],
        decreases an - i,
    {
        if a.get_char(i) != b.get_char(i) {
            return false;
        }
        i = i + 1;
    }
    proof {
        assert(a@ =~= b@);
    }
    true
}

/// The control code a full name stands for, or nothing for any other text.
pub open spec fn spec_code_of_name(s: Seq<char>) -> Option<ControlCode> {
    if false {
        None
    } else if s == "Null"@ {
        Some(ControlCode::Null)
    } else if s == "StartOfHeading"@ {
        Some(ControlCode::StartOfHeading)
    } else if s == "StartOfText"@ {
        Some(ControlCode::StartOfText)
    } else if s == "EndOfText"@ {
        Some(ControlCode::EndOfText)
    } else if s == "EndOfTransmission"@ {
        Some(ControlCode::EndOfTransmission)
    } else if s == "Enquiry"@ {
        Some(ControlCode::Enquiry)
    } else if s == "Acknowledge"@ {
        Some(ControlCode::Acknowledge)
    } else if s == "Bell"@ {
        Some(ControlCode::Bell)
    } else if s == "Backspace"@ {
        Some(ControlCode::Backspace)
    } else if s == "HorizontalTabulation"@ {
        Some(ControlCode::HorizontalTabulation)
    } else if s == "LineFeed"@ {
        Some(ControlCode::LineFeed)
    } else if s == "VerticalTabulation"@ {
        Some(ControlCode::VerticalTabulation)
    } else if s == "FormFeed"@ {
        Some(ControlCode::FormFeed)
    } else if s == "CarriageReturn"@ {
        Some(ControlCode::CarriageReturn)
    } else if s == "ShiftOut"@ {
        Some(ControlCode::ShiftOut)
    } else if s == "ShiftIn"@ {
        Some(ControlCode::ShiftIn)
    } else if s == "DataLinkEscape"@ {
        Some(ControlCode::DataLinkEscape)
    } else if s == "DeviceControl1"@ {
        Some(ControlCode::DeviceControl1)
    } else if s == "DeviceControl2"@ {
        Some(ControlCode::DeviceControl2)
    } else if s == "DeviceControl3"@ {
        Some(ControlCode::DeviceControl3)
    } else if s == "DeviceControl4"@ {
        Some(ControlCode::DeviceControl4)
    } else if s == "NegativeAcknowledge"@ {
        Some(ControlCode::NegativeAcknowledge)
    } else if s == "SynchronousIdle"@ {
        Some(ControlCode::SynchronousIdle)
    } else if s == "EndOfTransmissionBlock"@ {
        Some(ControlCode::EndOfTransmissionBlock)
    } else if s == "Cancel"@ {
        Some(ControlCode::Cancel)
    } else if s == "EndOfMedium"@ {
        Some(ControlCode::EndOfMedium)
    } else if s == "Substitute"@ {
        Some(ControlCode::Substitute)
    } else if s == "Escape"@ {
        Some(ControlCode::Escape)
    } else if s == "FileSeparator"@ {
        Some(ControlCode::FileSeparator)
    } else if s == "GroupSeparator"@ {
        Some(ControlCode::GroupSeparator)
    } else if s == "RecordSeparator"@ {
        Some(ControlCode::RecordSeparator)
    } else if s == "UnitSeparator"@ {
        Some(ControlCode::UnitSeparator)
    } else if s == "Delete"@ {
        Some(ControlCode::Delete)
    } else {
        None
    }
}

/// The control code a text stands for: a single character as
/// `spec_code_of_char` reads it, caret notation `^` followed by such a
/// character, or a full code name.
pub open spec fn spec_code_of_str(s: Seq<char>) -> Option<ControlCode> {
    if s.len() == 1 {
        spec_code_of_char(s[0])
    } else if s.len() == 2 && s[0] == '^' {
        spec_code_of_char(s[1])
    } else {
        spec_code_of_name(s)
    }
}

impl ControlCode {
    /// Parses a full code name, as `spec_code_of_name` says.
    fn from_name(s: &str) -> (r: Option<ControlCode>)
        ensures
            r == spec_code_of_name(s@),
    {
        if false {
            None
    } else if str_equals(s, "Null") {
        Some(ControlCode::Null)
    } else if str_equals(s, "StartOfHeading") {
        Some(ControlCode::StartOfHeading)
    } else if str_equals(s, "StartOfText") {
        Some(ControlCode::StartOfText)
    } else if str_equals(s, "EndOfText") {
        Some(ControlCode::EndOfText)
    } else if str_equals(s, "EndOfTransmission") {
        Some(ControlCode::EndOfTransmission)
    } else if str_equals(s, "Enquiry") {
        Some(ControlCode::Enquiry)
    } else if str_equals(s, "Acknowledge") {
        Some(ControlCode::Acknowledge)
    } else if str_equals(s, "Bell") {
        Some(ControlCode::Bell)
    } else if str_equals(s, "Backspace") {
        Some(ControlCode::Backspace)
    } else if str_equals(s, "HorizontalTabulation") {
        Some(ControlCode::HorizontalTabulation)
    } else if str_equals(s, "LineFeed") {
        Some(ControlCode::LineFeed)
    } else if str_equals(s, "VerticalTabulation") {
        Some(ControlCode::VerticalTabulation)
    } else if str_equals(s, "FormFeed") {
        Some(ControlCode::FormFeed)
    } else if str_equals(s, "CarriageReturn") {
        Some(ControlCode::CarriageReturn)
    } else if str_equals(s, "ShiftOut") {
        Some(ControlCode::ShiftOut)
    } else if str_equals(s, "ShiftIn") {
        Some(ControlCode::ShiftIn)
    } else if str_equals(s, "DataLinkEscape") {
        Some(ControlCode::DataLinkEscape)
    } else if str_equals(s, "DeviceControl1") {
        Some(ControlCode::DeviceControl1)
    } else if str_equals(s, "DeviceControl2") {
        Some(ControlCode::DeviceControl2)
    } else if str_equals(s, "DeviceControl3") {
        Some(ControlCode::DeviceControl3)
    } else if str_equals(s, "DeviceControl4") {
        Some(ControlCode::DeviceControl4)
    } else if str_equals(s, "NegativeAcknowledge") {
        Some(ControlCode::NegativeAcknowledge)
    } else if str_equals(s, "SynchronousIdle") {
        Some(ControlCode::SynchronousIdle)
    } else if str_equals(s, "EndOfTransmissionBlock") {
        Some(ControlCode::EndOfTransmissionBlock)
    } else if str_equals(s, "Cancel") {
        Some(ControlCode::Cancel)
    } else if str_equals(s, "EndOfMedium") {
        Some(ControlCode::EndOfMedium)
    } else if str_equals(s, "Substitute") {
        Some(ControlCode::Substitute)
    } else if str_equals(s, "Escape") {
        Some(ControlCode::Escape)
    } else if str_equals(s, "FileSeparator") {
        Some(ControlCode::FileSeparator)
    } else if str_equals(s, "GroupSeparator") {
        Some(ControlCode::GroupSeparator)
    } else if str_equals(s, "RecordSeparator") {
        Some(ControlCode::RecordSeparator)
    } else if str_equals(s, "UnitSeparator") {
        Some(ControlCode::UnitSeparator)
    } else if str_equals(s, "Delete") {
        Some(ControlCode::Delete)
        } else {
            None
        }
    }

    /// Parses a text: a single character, caret notation such as the
    /// two-character text `^` then `C`, or a full code name.
    pub fn from_str_code(s: &str) -> (r: Option<ControlCode>)
        ensures
            r == spec_code_of_str(s@),
    {
        let n = s.unicode_len();
        if n == 1 {
            ControlCode::from_char(s.get_char(0))
        } else if n == 2 {
            let c0 = s.get_char(0);
            if c0 == '^' {
                ControlCode::from_char(s.get_char(1))
            } else {
                ControlCode::from_name(s)
            }
        } else {
            ControlCode::from_name(s)
        }
    }
}


/// Parses control-code input for sending: a text as `spec_code_of_str`
/// reads it, with malformed input mapped to the parse-control error.
pub fn control_code_of(s: &str) -> (r: Result<ControlCode, crate::error::Error>)
    ensures
        r matches Ok(code) ==> spec_code_of_str(s@) == Some(code),
        r is Err <==> spec_code_of_str(s@) is None,
        r matches Err(e) ==> e == crate::error::Error::ParseControl,
{
    match ControlCode::from_str_code(s) {
        Some(code) => Ok(code),
        None => Err(crate::error::Error::ParseControl),
    }
}


} // verus!
