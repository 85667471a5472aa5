use std::collections::VecDeque;

use hbci4rust::callback::{CallbackDataType, CallbackEvent, CallbackReason, CallbackResponse};
use hbci4rust::gv::{iban_error_event, next_iban, HbciJob};
use hbci4rust::gv_result::Konto;

/// Drives the account checks of `job` the way a caller does: asks for a
/// correction of an invalid IBAN until the answer passes or repeats, then
/// takes the outcome over. Gives the events that were asked.
fn run_account_checks(job: &mut HbciJob, responses: Vec<CallbackResponse>) -> Vec<CallbackEvent> {
    let mut responses: VecDeque<CallbackResponse> = responses.into();
    let mut events = Vec::new();
    if let Some(original) = job.iban_to_correct() {
        let mut current = original.clone();
        loop {
            events.push(iban_error_event(&current));
            let response = responses.pop_front().unwrap_or_else(CallbackResponse::empty);
            let (next, done) = next_iban(&current, response.value.as_deref());
            current = next;
            if done {
                break;
            }
        }
        job.apply_corrected_iban(&original, &current);
    }
    events
}

fn saldo_req_with_iban(iban: &str) -> HbciJob {
    let mut job = HbciJob::new("SaldoReq");
    let mut account = Konto::default();
    account.country = Some("DE".to_owned());
    account.blz = Some("37040044".to_owned());
    account.number = Some("0532013000".to_owned());
    account.bic = Some("COBADEFFXXX".to_owned());
    account.iban = Some(iban.to_owned());
    job.set_param_account("my", &account);
    job
}

#[test]
fn account_checks_correct_invalid_iban_through_callback_loop() {
    let mut job = saldo_req_with_iban("DE89370400440532013001");

    job.verify_constraints().expect("constraints resolve");
    let events = run_account_checks(
        &mut job,
        vec![
            CallbackResponse::value("DE89370400440532013002"),
            CallbackResponse::value("DE89370400440532013000"),
        ],
    );

    assert_eq!(job.param("my.iban"), Some("DE89370400440532013000"));
    assert_eq!(job.lowlevel_param("Saldo7.KTV.iban"), Some("DE89370400440532013000"));

    assert_eq!(events.len(), 2);
    assert_eq!(events[0].reason, CallbackReason::HaveIbanError);
    assert_eq!(events[0].data_type, CallbackDataType::Text);
    assert_eq!(events[0].current_value.as_deref(), Some("DE89370400440532013001"));
    assert_eq!(events[1].current_value.as_deref(), Some("DE89370400440532013002"));
}

#[test]
fn account_checks_accept_unchanged_invalid_iban_like_original() {
    let mut job = saldo_req_with_iban("DE89370400440532013001");

    job.verify_constraints().expect("constraints resolve");
    let events = run_account_checks(&mut job, Vec::new());

    assert_eq!(job.param("my.iban"), Some("DE89370400440532013001"));
    assert_eq!(job.lowlevel_param("Saldo7.KTV.iban"), Some("DE89370400440532013001"));
    assert_eq!(events.len(), 1);
}

#[test]
fn valid_iban_needs_no_correction() {
    let mut job = saldo_req_with_iban("DE89370400440532013000");
    job.verify_constraints().expect("constraints resolve");
    assert_eq!(job.iban_to_correct(), None);
    let events = run_account_checks(&mut job, Vec::new());
    assert!(events.is_empty());
}

#[test]
fn jobs_on_other_accounts_are_not_checked() {
    let mut job = HbciJob::new("TAN2Step");
    job.set_param("my.iban", "DE89370400440532013001");
    assert_eq!(job.iban_to_correct(), None);
}

#[test]
fn next_iban_stops_on_repeated_or_valid_answer() {
    let (same, done) = next_iban("DE89370400440532013001", None);
    assert_eq!(same, "DE89370400440532013001");
    assert!(done);
    let (other, done) = next_iban("DE89370400440532013001", Some("DE89370400440532013002"));
    assert_eq!(other, "DE89370400440532013002");
    assert!(!done);
    let (valid, done) = next_iban("DE89370400440532013001", Some("DE89370400440532013000"));
    assert_eq!(valid, "DE89370400440532013000");
    assert!(done);
}
