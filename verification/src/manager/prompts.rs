//! What the library asks the user through the callback, and what it makes
//! of the answers: the TAN procedure, the TAN medium, the PIN and the TAN.
//! Asking is the caller's; an absent callback is passed as no response.

use vstd::prelude::*;
use crate::callback::{CallbackDataType, CallbackEvent, CallbackReason, CallbackResponse};
use crate::error::{ErrorView, HbciError, HbciErrorKind, HbciResult};
use crate::manager::handler::{opt_view, text_result, unit_result};
use crate::manager::render::set_message_value;
use crate::protocol::builder::set_value_result;
use crate::passport::pintan::{media_required, secmech_info, PinTanPassport, TanMethodOption};
use crate::passport::user_sig::{sig_decode, UserSigView};
use crate::passport::UserSig;
use crate::protocol::message::{ElementView, HbciMessage};
use crate::strmap::text_view;
use crate::text::{append, char_len, concat, join, owned, push_char, str_eq, trim, trim_str};
use crate::tools::{opt_str_view, Properties};

verus! {

pub open spec fn callback_error(message: Seq<char>) -> ErrorView {
    ErrorView { kind: HbciErrorKind::Callback, message, source: None }
}

/// A value, else `null`.
pub open spec fn or_null(v: Option<Seq<char>>) -> Seq<char> {
    match v {
        Some(x) => x,
        None => "null"@,
    }
}

// ---------------------------------------------------------------------------
// TAN procedure
// ---------------------------------------------------------------------------

pub open spec fn option_text(o: TanMethodOption) -> Seq<char> {
    o.id@ + ":"@ + or_null(opt_view(o.name))
}

/// The offered procedures as the callback shows them: `id:name` joined by `|`.
pub open spec fn options_text(options: Seq<TanMethodOption>) -> Seq<char> {
    join(options.map_values(|o: TanMethodOption| option_text(o)), "|"@)
}

pub fn format_tan_method_options(options: &[TanMethodOption]) -> (r: String)
    ensures
        r@ == options_text(options@),
{
    let mut r = String::new();
    let mut i: usize = 0;
    while i < options.len()
        invariant
            i <= options@.len(),
            r@ == join(options@.take(i as int).map_values(|o: TanMethodOption| option_text(o)), "|"@),
        decreases options.len() - i,
    {
        if i > 0 {
            append(&mut r, "|");
        }
        append(&mut r, options[i].id.as_str());
        append(&mut r, ":");
        match &options[i].name {
            Some(n) => append(&mut r, n.as_str()),
            None => append(&mut r, "null"),
        }
        proof {
            let t = options@.take(i + 1).map_values(|o: TanMethodOption| option_text(o));
            assert(t.drop_last() =~= options@.take(i as int).map_values(|o: TanMethodOption| option_text(o)));
            assert(t.last() == option_text(options@[i as int]));
            if i == 0 {
                assert(t.len() == 1);
            }
        }
        i += 1;
    }
    assert(options@.take(options@.len() as int) =~= options@);
    r
}

/// The question for the TAN procedure.
pub fn tan_method_event(options: &[TanMethodOption]) -> (e: CallbackEvent)
    ensures
        e.reason == CallbackReason::NeedPtSecMech,
        e.message@ == "*** Select a pintan method from the list"@,
        e.data_type == CallbackDataType::Select,
        opt_view(e.current_value) == Some(options_text(options@)),
{
    CallbackEvent {
        reason: CallbackReason::NeedPtSecMech,
        message: "*** Select a pintan method from the list".to_owned(),
        data_type: CallbackDataType::Select,
        current_value: Some(format_tan_method_options(options)),
    }
}

/// The procedure chosen: it must be given and be one of the offered ones.
pub open spec fn selected_method(options: Seq<TanMethodOption>, value: Option<Seq<char>>) -> Result<Seq<char>, ErrorView> {
    match value {
        None => Err(callback_error("callback did not select a pintan method"@)),
        Some(v) => if v.len() == 0 {
            Err(callback_error("callback did not select a pintan method"@))
        } else if exists|i: int| 0 <= i < options.len() && #[trigger] options[i].id@ == v {
            Ok(v)
        } else {
            Err(callback_error("selected pintan method not supported: "@ + v))
        },
    }
}

pub fn selected_tan_method(options: &[TanMethodOption], response: &CallbackResponse) -> (r: HbciResult<String>)
    ensures
        text_result(r) == selected_method(options@, opt_view(response.value)),
{
    let v = match &response.value {
        Some(v) => v,
        None => {
            return Err(HbciError::new(HbciErrorKind::Callback, "callback did not select a pintan method"));
        },
    };
    if char_len(v.as_str()) == 0 {
        return Err(HbciError::new(HbciErrorKind::Callback, "callback did not select a pintan method"));
    }
    let mut i: usize = 0;
    while i < options.len()
        invariant
            i <= options@.len(),
            opt_view(response.value) == Some(v@),
            v@.len() > 0,
            forall|j: int| 0 <= j < i ==> options@[j].id@ != v@,
        decreases options.len() - i,
    {
        if str_eq(options[i].id.as_str(), v.as_str()) {
            assert(options@[i as int].id@ == v@);
            assert(exists|k: int| 0 <= k < options@.len() && #[trigger] options@[k].id@ == v@);
            assert(opt_view(response.value) == Some(v@));
            assert(v@.len() > 0);
            assert(selected_method(options@, opt_view(response.value)) == Ok::<Seq<char>, ErrorView>(v@));
            return Ok(owned(v.as_str()));
        }
        i += 1;
    }
    let m = concat("selected pintan method not supported: ", v.as_str());
    Err(HbciError::new(HbciErrorKind::Callback, m.as_str()))
}

// ---------------------------------------------------------------------------
// TAN medium
// ---------------------------------------------------------------------------

/// Where the TAN medium comes from.
#[derive(Debug)]
pub enum TanMediaStep {
    /// The passport names one.
    Known(String),
    /// The bank does not ask for one.
    NotRequired,
    /// The user is to be asked.
    Ask(CallbackEvent),
}

/// The question for the TAN medium.
pub open spec fn tan_media_question(e: CallbackEvent, names: Seq<char>) -> bool {
    &&& e.reason == CallbackReason::NeedPtTanMedia
    &&& e.message@ == "*** Enter the name of your TAN media"@
    &&& e.data_type == CallbackDataType::Text
    &&& opt_view(e.current_value) == Some(names)
}

/// The TAN medium of the passport, where it names one; else whether the
/// user must be asked.
pub fn tan_media_step(passport: &PinTanPassport) -> (r: TanMediaStep)
    ensures
        match opt_view(passport.data_spec().tan_media) {
            Some(m) => if m.len() > 0 {
                r matches TanMediaStep::Known(x) && x@ == m
            } else if media_required(passport.data_spec()) {
                r matches TanMediaStep::Ask(e) && e.reason == CallbackReason::NeedPtTanMedia
            } else {
                r is NotRequired
            },
            None => if media_required(passport.data_spec()) {
                r matches TanMediaStep::Ask(e) && e.reason == CallbackReason::NeedPtTanMedia
            } else {
                r is NotRequired
            },
        },
        r matches TanMediaStep::Ask(e) ==> e.message@ == "*** Enter the name of your TAN media"@
            && e.data_type == CallbackDataType::Text && e.current_value is Some,
{
    match passport.tan_media() {
        Some(m) => {
            if char_len(m) > 0 {
                return TanMediaStep::Known(owned(m));
            }
        },
        None => {},
    }
    if !passport.tan_media_required() {
        return TanMediaStep::NotRequired;
    }
    TanMediaStep::Ask(CallbackEvent {
        reason: CallbackReason::NeedPtTanMedia,
        message: "*** Enter the name of your TAN media".to_owned(),
        data_type: CallbackDataType::Text,
        current_value: Some(passport.tan_media_names_value()),
    })
}

/// What an answer about the TAN medium gives: a non-blank answer is kept in
/// the passport; without one the medium is `noref`.
pub fn tan_media_from_response(passport: &mut PinTanPassport, response: Option<&CallbackResponse>) -> (r: String)
    ensures
        ({
            let v = match response {
                Some(x) => opt_view(x.value),
                None => None,
            };
            if v matches Some(t) && trim(t).len() > 0 {
                r@ == v->0 && opt_view(final(passport).data_spec().tan_media) == v
                    && final(passport).sca_spec() == old(passport).sca_spec()
            } else {
                r@ == "noref"@ && *final(passport) == *old(passport)
            }
        }),
{
    match response {
        Some(x) => match &x.value {
            Some(v) => {
                let t = trim_str(v.as_str());
                if char_len(t.as_str()) > 0 {
                    passport.set_tan_media(v.as_str());
                    return owned(v.as_str());
                }
            },
            None => {},
        },
        None => {},
    }
    "noref".to_owned()
}

// ---------------------------------------------------------------------------
// PIN and TAN
// ---------------------------------------------------------------------------

/// The question for the PIN.
pub fn pin_event() -> (e: CallbackEvent)
    ensures
        e.reason == CallbackReason::NeedPtPin,
        e.message@ == "Please enter your PIN for PIN/TAN now"@,
        e.data_type == CallbackDataType::Secret,
        e.current_value is None,
{
    CallbackEvent {
        reason: CallbackReason::NeedPtPin,
        message: "Please enter your PIN for PIN/TAN now".to_owned(),
        data_type: CallbackDataType::Secret,
        current_value: None,
    }
}

/// The PIN from the answer: it must be given; it is kept in the passport.
/// No response means there is no callback to ask.
pub fn pin_from_response(passport: &mut PinTanPassport, response: Option<&CallbackResponse>) -> (r: HbciResult<String>)
    ensures
        match response {
            None => text_result(r) == Err::<Seq<char>, ErrorView>(callback_error("callback required for PIN"@))
                && *final(passport) == *old(passport),
            Some(x) => match opt_view(x.value) {
                Some(p) => if p.len() > 0 {
                    text_result(r) == Ok::<Seq<char>, ErrorView>(p) && opt_view(final(passport).pin_spec()) == Some(p)
                        && final(passport).data_spec() == old(passport).data_spec()
                        && final(passport).sca_spec() == old(passport).sca_spec()
                } else {
                    text_result(r) == Err::<Seq<char>, ErrorView>(callback_error("PIN must not be of length zero"@))
                        && *final(passport) == *old(passport)
                },
                None => text_result(r) == Err::<Seq<char>, ErrorView>(callback_error("PIN must not be of length zero"@))
                    && *final(passport) == *old(passport),
            },
        },
{
    let x = match response {
        Some(x) => x,
        None => {
            return Err(HbciError::new(HbciErrorKind::Callback, "callback required for PIN"));
        },
    };
    match &x.value {
        Some(p) => {
            if char_len(p.as_str()) > 0 {
                passport.set_pin(p.as_str());
                return Ok(owned(p.as_str()));
            }
        },
        None => {},
    }
    Err(HbciError::new(HbciErrorKind::Callback, "PIN must not be of length zero"))
}

/// The text shown with a TAN challenge: the procedure's name and input
/// hint (`null` where missing), a blank line, and the challenge.
pub open spec fn challenge_message(secmech: Map<Seq<char>, Seq<char>>, challenge: Seq<char>) -> Seq<char> {
    let name = if secmech.contains_key("name"@) { Some(secmech["name"@]) } else { None };
    let info = if secmech.contains_key("inputinfo"@) { Some(secmech["inputinfo"@]) } else { None };
    or_null(name) + "\n"@ + or_null(info) + "\n\n"@ + challenge
}

pub fn format_sca_challenge_message(secmech: &Properties, challenge: &str) -> (r: String)
    ensures
        r@ == challenge_message(text_view(secmech@), challenge@),
{
    let mut r = match secmech.get("name") {
        Some(n) => owned(n.as_str()),
        None => "null".to_owned(),
    };
    append(&mut r, "\n");
    match secmech.get("inputinfo") {
        Some(n) => append(&mut r, n.as_str()),
        None => append(&mut r, "null"),
    }
    append(&mut r, "\n\n");
    append(&mut r, challenge);
    r
}

/// The question for the TAN of a strong authentication, where the bank sent
/// a challenge and did not exempt the order.
pub fn sca_tan_event(passport: &PinTanPassport) -> (r: Option<CallbackEvent>)
    ensures
        match opt_view(passport.sca_spec().challenge) {
            Some(c) => if c.len() > 0 && !passport.sca_spec().sca_exempted {
                r matches Some(e) && e.reason == CallbackReason::NeedPtTan
                    && e.message@ == challenge_message(secmech_info(passport.data_spec()), c)
                    && e.data_type == CallbackDataType::Text
                    && opt_view(e.current_value) == opt_view(passport.sca_spec().hhd_uc)
            } else {
                r is None
            },
            None => r is None,
        },
{
    let sca = passport.sca_state();
    let challenge = match &sca.challenge {
        Some(c) => c,
        None => {
            return None;
        },
    };
    if char_len(challenge.as_str()) == 0 || sca.sca_exempted {
        return None;
    }
    let secmech = passport.current_secmech_info();
    let hhd_uc = match &sca.hhd_uc {
        Some(h) => Some(owned(h.as_str())),
        None => None,
    };
    Some(CallbackEvent {
        reason: CallbackReason::NeedPtTan,
        message: format_sca_challenge_message(&secmech, challenge.as_str()),
        data_type: CallbackDataType::Text,
        current_value: hhd_uc,
    })
}

/// The TAN from the answer: it must be given and not blank. No response
/// means there is no callback to ask.
pub open spec fn tan_result(response: Option<CallbackResponse>) -> Result<Seq<char>, ErrorView> {
    match response {
        None => Err(callback_error("callback required for TAN challenge"@)),
        Some(x) => match opt_view(x.value) {
            Some(t) => if trim(t).len() > 0 {
                Ok(t)
            } else {
                Err(callback_error("callback did not provide a TAN"@))
            },
            None => Err(callback_error("callback did not provide a TAN"@)),
        },
    }
}

pub fn tan_from_response(response: Option<&CallbackResponse>) -> (r: HbciResult<String>)
    ensures
        text_result(r) == tan_result(match response {
            Some(x) => Some(*x),
            None => None,
        }),
{
    let x = match response {
        Some(x) => x,
        None => {
            return Err(HbciError::new(HbciErrorKind::Callback, "callback required for TAN challenge"));
        },
    };
    match &x.value {
        Some(t) => {
            let tt = trim_str(t.as_str());
            if char_len(tt.as_str()) > 0 {
                return Ok(owned(t.as_str()));
            }
        },
        None => {},
    }
    Err(HbciError::new(HbciErrorKind::Callback, "callback did not provide a TAN"))
}

// ---------------------------------------------------------------------------
// The signature
// ---------------------------------------------------------------------------

/// The PIN and, where there is one, the TAN of a user signature put into
/// the signature tail at `sig_tail_path`.
pub open spec fn pin_tan_applied(e: ElementView, sig_tail_path: Seq<char>, v: UserSigView) -> (ElementView, Result<(), ErrorView>) {
    match set_value_result(e, sig_tail_path + ".UserSig.pin"@, v.pin) {
        Err(x) => (e, Err(x)),
        Ok(e1) => if v.tan.len() > 0 {
            match set_value_result(e1, sig_tail_path + ".UserSig.tan"@, v.tan) {
                Ok(e2) => (e2, Ok(())),
                Err(x) => (e1, Err(x)),
            }
        } else {
            (e1, Ok(()))
        },
    }
}

pub fn apply_pintan_user_sig_to_sig_tail(message: &mut HbciMessage, sig_tail_path: &str, signature: &[u8]) -> (r: HbciResult<()>)
    ensures
        match sig_decode(signature@) {
            None => r matches Err(x) && x@.kind == HbciErrorKind::InvalidArgument && final(message)@ == old(message)@,
            Some(v) => (final(message)@, unit_result(r)) == pin_tan_applied(old(message)@, sig_tail_path@, v),
        },
{
    let user_sig = match UserSig::decode(Some(signature)) {
        Ok(s) => s,
        Err(e) => {
            return Err(e);
        },
    };
    let p = concat(sig_tail_path, ".UserSig.pin");
    match set_message_value(message, p.as_str(), user_sig.pin()) {
        Ok(()) => {},
        Err(e) => {
            return Err(e);
        },
    }
    if char_len(user_sig.tan()) > 0 {
        let t = concat(sig_tail_path, ".UserSig.tan");
        match set_message_value(message, t.as_str(), user_sig.tan()) {
            Ok(()) => {},
            Err(e) => {
                return Err(e);
            },
        }
    }
    Ok(())
}

} // verus!
