//! Dialog state and the return codes the library reacts to.

use vstd::prelude::*;
use crate::text::str_eq;

verus! {

/// Identifiers and counters of an open (or not yet opened) dialog.
#[derive(Debug, Clone)]
pub struct DialogContext {
    pub dialog_id: Option<String>,
    pub system_id: Option<String>,
    pub message_number: u32,
}

impl DialogContext {
    /// A fresh context: no dialog, no system id, message number 1.
    pub fn default_context() -> (c: Self)
        ensures
            c.dialog_id is None,
            c.system_id is None,
            c.message_number == 1,
    {
        DialogContext { dialog_id: None, system_id: None, message_number: 1 }
    }

    /// A context for a dialog the bank has opened; the next message is number 2.
    pub fn from_dialog_id(dialog_id: &str) -> (c: Self)
        ensures
            c.dialog_id matches Some(d) && d@ == dialog_id@,
            c.system_id is None,
            c.message_number == 2,
    {
        DialogContext { dialog_id: Some(dialog_id.to_owned()), system_id: None, message_number: 2 }
    }

    /// The dialog id, or `"0"` before the dialog is open.
    pub fn current_dialog_id(&self) -> (id: &str)
        ensures
            self.dialog_id matches Some(d) ==> id@ == d@,
            self.dialog_id is None ==> id@ == "0"@,
    {
        match &self.dialog_id {
            Some(d) => d.as_str(),
            None => "0",
        }
    }

    pub fn open_dialog_id(&self) -> (id: Option<&str>)
        ensures
            self.dialog_id matches Some(d) ==> id matches Some(x) && x@ == d@,
            self.dialog_id is None ==> id is None,
    {
        match &self.dialog_id {
            Some(d) => Some(d.as_str()),
            None => None,
        }
    }

    pub fn is_open(&self) -> (b: bool)
        ensures
            b == self.dialog_id is Some,
    {
        self.dialog_id.is_some()
    }

    /// The message number, never below 1.
    pub fn current_message_number(&self) -> (n: u32)
        ensures
            n == if self.message_number >= 1 { self.message_number } else { 1 },
    {
        if self.message_number >= 1 {
            self.message_number
        } else {
            1
        }
    }

    /// Moves on to the next message number (saturating at `u32::MAX`).
    pub fn advance_message_number(&mut self)
        ensures
            final(self).dialog_id == old(self).dialog_id,
            final(self).system_id == old(self).system_id,
            old(self).message_number <= 1 ==> final(self).message_number == 2,
            old(self).message_number == u32::MAX ==> final(self).message_number == u32::MAX,
            1 <= old(self).message_number < u32::MAX ==> final(self).message_number
                == old(self).message_number + 1,
    {
        let current = self.current_message_number();
        self.message_number = if current == u32::MAX { u32::MAX } else { current + 1 };
    }

    /// Back to the state of a fresh context.
    pub fn reset(&mut self)
        ensures
            final(self).dialog_id is None,
            final(self).system_id is None,
            final(self).message_number == 1,
    {
        *self = Self::default_context();
    }
}

/// Return codes that the library handles specially.
#[derive(Debug, Clone, Copy, PartialEq, Eq, Structural)]
pub enum KnownReturncode {
    W3040,
    W3072,
    W3076,
    W3091,
    W3920,
    W3945,
    W3956,
    E9340,
    E9930,
    E9931,
    E9942,
    E9391,
}

impl KnownReturncode {
    /// The codes that mean that authentication failed.
    pub const LIST_AUTH_FAIL: [KnownReturncode; 4] = [
        KnownReturncode::E9340,
        KnownReturncode::E9930,
        KnownReturncode::E9931,
        KnownReturncode::E9942,
    ];

    /// The four-digit code of a known return code.
    pub open spec fn code_text(self) -> Seq<char> {
        match self {
            KnownReturncode::W3040 => "3040"@,
            KnownReturncode::W3072 => "3072"@,
            KnownReturncode::W3076 => "3076"@,
            KnownReturncode::W3091 => "3091"@,
            KnownReturncode::W3920 => "3920"@,
            KnownReturncode::W3945 => "3945"@,
            KnownReturncode::W3956 => "3956"@,
            KnownReturncode::E9340 => "9340"@,
            KnownReturncode::E9930 => "9930"@,
            KnownReturncode::E9931 => "9931"@,
            KnownReturncode::E9942 => "9942"@,
            KnownReturncode::E9391 => "9391"@,
        }
    }

    pub fn code(self) -> (c: &'static str)
        ensures
            c@ == self.code_text(),
    {
        match self {
            KnownReturncode::W3040 => "3040",
            KnownReturncode::W3072 => "3072",
            KnownReturncode::W3076 => "3076",
            KnownReturncode::W3091 => "3091",
            KnownReturncode::W3920 => "3920",
            KnownReturncode::W3945 => "3945",
            KnownReturncode::W3956 => "3956",
            KnownReturncode::E9340 => "9340",
            KnownReturncode::E9930 => "9930",
            KnownReturncode::E9931 => "9931",
            KnownReturncode::E9942 => "9942",
            KnownReturncode::E9391 => "9391",
        }
    }

    /// Whether `code` is this return code.
    pub fn is(self, code: &str) -> (b: bool)
        ensures
            b == (code@ == self.code_text()),
    {
        str_eq(self.code(), code)
    }

    /// Whether `code` is one of `codes`.
    pub fn contains(code: &str, codes: &[KnownReturncode]) -> (b: bool)
        ensures
            b == (code@.len() > 0 && exists|i: int|
                0 <= i < codes@.len() && (#[trigger] codes@[i]).code_text() == code@),
    {
        Self::find(code, codes).is_some()
    }

    /// The first of `codes` that `code` is.
    pub fn find(code: &str, codes: &[KnownReturncode]) -> (r: Option<KnownReturncode>)
        ensures
            r matches Some(k) ==> code@.len() > 0 && k.code_text() == code@ && exists|i: int|
                0 <= i < codes@.len() && codes@[i] == k && forall|j: int|
                    0 <= j < i ==> (#[trigger] codes@[j]).code_text() != code@,
            r is None ==> code@.len() == 0 || forall|i: int|
                0 <= i < codes@.len() ==> (#[trigger] codes@[i]).code_text() != code@,
    {
        if code.is_empty() || codes.len() == 0 {
            return None;
        }
        let mut i: usize = 0;
        while i < codes.len()
            invariant
                i <= codes@.len(),
                code@.len() > 0,
                forall|j: int| 0 <= j < i ==> (#[trigger] codes@[j]).code_text() != code@,
            decreases codes.len() - i,
        {
            if codes[i].is(code) {
                return Some(codes[i]);
            }
            i += 1;
        }
        None
    }
}

} // verus!
