//! What the daemon has to say in its log.

use vstd::prelude::*;

use crate::numeral::{decimal, hex_digits, hexadecimal, numeral};

verus! {

/// Why an attempt to bring the keyboard up failed, where another attempt may
/// well succeed.
#[derive(Clone, Copy, PartialEq, Eq, Debug)]
pub enum Failure {
    /// The device would not open. Usually another process still holds it.
    CannotOpen(i32),
    /// The keyboard did not say where the feature is. It may not be awake yet.
    NoAnswer,
    /// The keyboard never confirmed that the control is diverted.
    NotConfirmed,
}

/// One line of the log.
#[derive(Clone, Copy, PartialEq, Eq, Debug)]
pub enum Message {
    Starting,
    Attached,
    Detached,
    KeyPosted,
    /// The device may not be opened before a person has granted it.
    NotPermitted,
    /// The keyboard answered that it has no such feature.
    NoFeature,
    /// The first failure of a bring-up.
    Retrying(Failure),
    /// The keyboard confirmed the divert, after so many failures.
    Diverted(u32),
    DivertCleared,
}

/// The bits of `code`, as an unsigned number.
pub open spec fn code_bits(code: i32) -> nat {
    if code < 0 {
        (code + 0x1_0000_0000) as nat
    } else {
        code as nat
    }
}

impl Failure {
    /// The failure in words.
    pub open spec fn spec_text(self) -> Seq<char> {
        match self {
            Failure::CannotOpen(code) => "cannot open device: IOReturn 0x"@ + hex_digits(
                code_bits(code),
                8,
            ),
            Failure::NoAnswer => "keyboard did not answer the feature probe"@,
            Failure::NotConfirmed => "divert was not confirmed by the device"@,
        }
    }

    /// The failure in words.
    pub fn text(&self) -> (text: String)
        ensures
            text@ == self.spec_text(),
    {
        match *self {
            Failure::CannotOpen(code) => {
                assert(code < 0 ==> code as u32 == code + 0x1_0000_0000) by (bit_vector);
                let bits: u32 = #[verifier::truncate] (code as u32);
                let mut text: String = "cannot open device: IOReturn 0x".to_string();
                text.append(hexadecimal(bits, 8).as_str());
                text
            },
            Failure::NoAnswer => "keyboard did not answer the feature probe".to_string(),
            Failure::NotConfirmed => "divert was not confirmed by the device".to_string(),
        }
    }
}

impl Message {
    /// The message in words.
    pub open spec fn spec_text(self) -> Seq<char> {
        match self {
            Message::Starting => "starting"@,
            Message::Attached => "keyboard attached"@,
            Message::Detached => "keyboard detached"@,
            Message::KeyPosted => "control pressed -> key posted"@,
            Message::NotPermitted => "cannot open device: grant this binary Input Monitoring"@,
            Message::NoFeature => "device does not expose HID++ feature 0x1B04"@,
            Message::Retrying(why) => why.spec_text() + "; retrying"@,
            Message::Diverted(failures) => "control diverted"@ + delay_text(failures)
                + " — the key is live, and F12 is untouched"@,
            Message::DivertCleared => "divert cleared, exiting"@,
        }
    }

    /// The message in words.
    pub fn text(&self) -> (text: String)
        ensures
            text@ == self.spec_text(),
    {
        match *self {
            Message::Starting => "starting".to_string(),
            Message::Attached => "keyboard attached".to_string(),
            Message::Detached => "keyboard detached".to_string(),
            Message::KeyPosted => "control pressed -> key posted".to_string(),
            Message::NotPermitted => {
                "cannot open device: grant this binary Input Monitoring".to_string()
            },
            Message::NoFeature => "device does not expose HID++ feature 0x1B04".to_string(),
            Message::Retrying(why) => {
                let mut text: String = why.text();
                text.append("; retrying");
                text
            },
            Message::Diverted(failures) => {
                let mut text: String = "control diverted".to_string();
                if failures > 0 {
                    text.append(" after ");
                    text.append(decimal(failures).as_str());
                    text.append(if failures == 1 { " more attempt" } else { " more attempts" });
                }
                text.append(" — the key is live, and F12 is untouched");
                assert(text@ =~= self.spec_text());
                text
            },
            Message::DivertCleared => "divert cleared, exiting".to_string(),
        }
    }
}

/// How much later than at the first attempt the control was diverted, in
/// words.
pub open spec fn delay_text(failures: u32) -> Seq<char> {
    if failures == 0 {
        seq![]
    } else if failures == 1 {
        " after "@ + numeral(1, 10) + " more attempt"@
    } else {
        " after "@ + numeral(failures as nat, 10) + " more attempts"@
    }
}

/// The bits of a code are the one number of 32 bits that differs from it by
/// nothing or by two to the thirty-second.
pub proof fn law_code_keeps_its_bits(code: i32)
    ensures
        0 <= code_bits(code) < 0x1_0000_0000,
        code_bits(code) == code || code_bits(code) == code + 0x1_0000_0000,
{
}

/// The lines that name a number or a reason have these words for every number
/// and every reason.
pub proof fn law_lines_have_these_words(code: i32, why: Failure, failures: u32)
    ensures
        Failure::CannotOpen(code).spec_text() == "cannot open device: IOReturn 0x"@ + hex_digits(
            code_bits(code),
            8,
        ),
        Message::Retrying(why).spec_text() == why.spec_text() + "; retrying"@,
        Message::Diverted(failures).spec_text() == (if failures == 0 {
            "control diverted"@
        } else if failures == 1 {
            "control diverted"@ + (" after "@ + numeral(1, 10) + " more attempt"@)
        } else {
            "control diverted"@ + (" after "@ + numeral(failures as nat, 10) + " more attempts"@)
        }) + " — the key is live, and F12 is untouched"@,
{
    assert("control diverted"@ + seq![] =~= "control diverted"@);
}

} // verus!
