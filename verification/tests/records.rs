//! Tests for the sibling record stores and the identifier utilities.

use clinic_booking::{
    add_calendly, add_data, add_docidentity, add_doctor, add_identity, add_report,
    create_medical_record, delete_calendly, delete_docidentity, delete_doctor, delete_identity,
    delete_medical_record, delete_message, delete_patient, delete_report, does_docidentity_exist,
    does_identity_exist, get_calendly, get_data, get_docidentity, get_doctor, get_identity,
    get_medical_record, get_message, get_patient, get_report, list_docidentities, list_doctors,
    list_identities, list_medical_records, list_messages, list_patients, list_reports,
    register_patient, send_message, send_reminder_to_patient, update_doctor,
    update_medical_record, update_message, update_report, Clinic, Error, MultiMediaContent,
};
use clinic_booking::utils::parse_u64;

fn fresh() -> Clinic {
    Clinic::new()
}

fn with_patient() -> (Clinic, u64) {
    let mut state = fresh();
    let identity = add_identity(&mut state, "p1".to_string()).ok().unwrap();
    let patient = register_patient(&mut state, "alice".to_string(), identity.id).ok().unwrap();
    (state, patient.id)
}

#[test]
fn identifiers_count_up_from_zero() {
    let mut state = fresh();
    let a = add_identity(&mut state, "first".to_string()).ok().unwrap();
    let b = add_identity(&mut state, "second".to_string()).ok().unwrap();
    assert_eq!(a.id, 0);
    assert_eq!(b.id, 1);
}

#[test]
fn identity_store_round_trips() {
    let mut state = fresh();
    let identity = add_identity(&mut state, "principal-a".to_string()).ok().unwrap();
    assert_eq!(get_identity(&state, identity.id).ok().unwrap().principal, "principal-a");
    assert!(does_identity_exist(&state, "principal-a".to_string()));
    assert!(!does_identity_exist(&state, "principal-b".to_string()));
    let dup = add_identity(&mut state, "principal-a".to_string());
    assert!(matches!(dup, Err(Error::AlreadyExists { .. })));
    let empty = add_identity(&mut state, "".to_string());
    assert!(matches!(empty, Err(Error::InvalidInput { .. })));
    assert_eq!(list_identities(&state).len(), 1);
    assert!(delete_identity(&mut state, identity.id).is_ok());
    assert!(matches!(get_identity(&state, identity.id), Err(Error::NotFound { .. })));
}

#[test]
fn docidentity_store_round_trips() {
    let mut state = fresh();
    let identity = add_docidentity(&mut state, "doc-a".to_string()).ok().unwrap();
    assert_eq!(get_docidentity(&state, identity.id).ok().unwrap().principal, "doc-a");
    assert!(does_docidentity_exist(&state, "doc-a".to_string()));
    assert!(!does_docidentity_exist(&state, "doc-b".to_string()));
    assert!(matches!(
        add_docidentity(&mut state, "doc-a".to_string()),
        Err(Error::AlreadyExists { .. })
    ));
    assert_eq!(list_docidentities(&state).len(), 1);
    assert!(delete_docidentity(&mut state, identity.id).is_ok());
    assert!(matches!(
        delete_docidentity(&mut state, identity.id),
        Err(Error::NotFound { .. })
    ));
}

#[test]
fn patient_registration_checks_inputs() {
    let mut state = fresh();
    let identity = add_identity(&mut state, "p1".to_string()).ok().unwrap();
    assert!(matches!(
        register_patient(&mut state, "".to_string(), identity.id),
        Err(Error::InvalidInput { .. })
    ));
    assert!(matches!(
        register_patient(&mut state, "alice".to_string(), 555),
        Err(Error::NotFound { .. })
    ));
    let patient = register_patient(&mut state, "alice".to_string(), identity.id).ok().unwrap();
    assert!(matches!(
        register_patient(&mut state, "alice".to_string(), identity.id),
        Err(Error::AlreadyExists { .. })
    ));
    assert_eq!(get_patient(&state, patient.id).ok().unwrap().username, "alice");
    assert_eq!(list_patients(&state).len(), 1);
    assert!(delete_patient(&mut state, patient.id).is_ok());
    assert!(list_patients(&state).is_empty());
}

fn sample_doctor(state: &mut Clinic, principal: &str) -> Result<clinic_booking::Doctor, Error> {
    add_doctor(
        state,
        principal.to_string(),
        "Ada".to_string(),
        "Lovelace".to_string(),
        "1815-12-10".to_string(),
        "cardiology".to_string(),
        77,
        88,
        "f".to_string(),
        "UK".to_string(),
        "London".to_string(),
    )
}

#[test]
fn doctor_store_validates_and_round_trips() {
    let mut state = fresh();
    let missing_field = add_doctor(
        &mut state,
        "doc".to_string(),
        "".to_string(),
        "Lovelace".to_string(),
        "1815-12-10".to_string(),
        "cardiology".to_string(),
        77,
        88,
        "f".to_string(),
        "UK".to_string(),
        "London".to_string(),
    );
    assert!(matches!(missing_field, Err(Error::InvalidInput { .. })));
    let doctor = sample_doctor(&mut state, "doc").ok().unwrap();
    assert!(matches!(
        sample_doctor(&mut state, "doc"),
        Err(Error::AlreadyExists { .. })
    ));
    assert_eq!(get_doctor(&state, doctor.id).ok().unwrap().fname, "Ada");
    assert_eq!(list_doctors(&state).len(), 1);
    assert!(delete_doctor(&mut state, doctor.id).is_ok());
    assert!(matches!(get_doctor(&state, doctor.id), Err(Error::NotFound { .. })));
}

#[test]
fn update_doctor_parses_the_principal_as_an_identifier() {
    let mut state = fresh();
    let doctor = sample_doctor(&mut state, "doc").ok().unwrap();
    let bad_format = update_doctor(
        &mut state,
        "not-a-number".to_string(),
        "Ada".to_string(),
        "King".to_string(),
        "1815-12-10".to_string(),
        "cardiology".to_string(),
        77,
        88,
        "f".to_string(),
        "UK".to_string(),
        "London".to_string(),
    );
    assert!(matches!(bad_format, Err(Error::InvalidInput { .. })));
    let unknown = update_doctor(
        &mut state,
        "424242".to_string(),
        "Ada".to_string(),
        "King".to_string(),
        "1815-12-10".to_string(),
        "cardiology".to_string(),
        77,
        88,
        "f".to_string(),
        "UK".to_string(),
        "London".to_string(),
    );
    assert!(matches!(unknown, Err(Error::NotFound { .. })));
    let updated = update_doctor(
        &mut state,
        format!("{}", doctor.id),
        "Ada".to_string(),
        "King".to_string(),
        "1815-12-10".to_string(),
        "cardiology".to_string(),
        77,
        88,
        "f".to_string(),
        "UK".to_string(),
        "London".to_string(),
    )
    .ok()
    .unwrap();
    assert_eq!(updated.id, doctor.id);
    assert_eq!(updated.lname, "King");
    assert_eq!(get_doctor(&state, doctor.id).ok().unwrap().lname, "King");
}

#[test]
fn update_doctor_canonicalizes_the_stored_principal() {
    let mut state = fresh();
    let doctor = sample_doctor(&mut state, "doc").ok().unwrap();
    // A plus sign and leading zeros are accepted and normalized away: the
    // stored principal is the canonical decimal rendering of the id.
    let plussed = update_doctor(
        &mut state,
        format!("+0{}", doctor.id),
        "Ada".to_string(),
        "King".to_string(),
        "1815-12-10".to_string(),
        "cardiology".to_string(),
        77,
        88,
        "f".to_string(),
        "UK".to_string(),
        "London".to_string(),
    )
    .ok()
    .unwrap();
    assert_eq!(plussed.id, doctor.id);
    assert_eq!(plussed.principal_str, format!("{}", doctor.id));
    assert_eq!(
        get_doctor(&state, doctor.id).ok().unwrap().principal_str,
        format!("{}", doctor.id)
    );
}

#[test]
fn parse_u64_accepts_decimal_numerals() {
    assert_eq!(parse_u64("0"), Some(0));
    assert_eq!(parse_u64("123"), Some(123));
    assert_eq!(parse_u64("007"), Some(7));
    assert_eq!(parse_u64("+3"), Some(3));
    assert_eq!(parse_u64("+0"), Some(0));
    assert_eq!(parse_u64("18446744073709551615"), Some(u64::MAX));
    assert_eq!(parse_u64("18446744073709551616"), None);
    assert_eq!(parse_u64(""), None);
    assert_eq!(parse_u64("+"), None);
    assert_eq!(parse_u64("++1"), None);
    assert_eq!(parse_u64("12a"), None);
    assert_eq!(parse_u64("-3"), None);
}

#[test]
fn medical_records_reject_blank_text() {
    let mut state = fresh();
    let blank = create_medical_record(
        &mut state,
        7,
        1,
        "   ".to_string(),
        "treated".to_string(),
    );
    assert!(matches!(blank, Err(Error::InvalidInput { .. })));
    let record = create_medical_record(
        &mut state,
        7,
        1,
        "all clear".to_string(),
        "treated".to_string(),
    )
    .ok()
    .unwrap();
    assert_eq!(record.id, 7);
    assert_eq!(get_medical_record(&state, 7).ok().unwrap().lab_results, "all clear");
    // A taken identifier is reported, but only after the write: the new
    // record has already replaced the old one.
    assert!(matches!(
        create_medical_record(&mut state, 7, 1, "x".to_string(), "y".to_string()),
        Err(Error::AlreadyExists { .. })
    ));
    assert_eq!(get_medical_record(&state, 7).ok().unwrap().lab_results, "x");
}

#[test]
fn medical_records_update_and_delete() {
    let mut state = fresh();
    create_medical_record(&mut state, 7, 1, "all clear".to_string(), "treated".to_string())
        .ok()
        .unwrap();
    let updated = update_medical_record(
        &mut state,
        7,
        1,
        "follow up".to_string(),
        "treated twice".to_string(),
    )
    .ok()
    .unwrap();
    assert_eq!(updated.lab_results, "follow up");
    // Updating an absent identifier reports NotFound, but the write has
    // already happened: the record is now stored under that identifier.
    assert!(matches!(
        update_medical_record(&mut state, 9, 1, "a".to_string(), "b".to_string()),
        Err(Error::NotFound { .. })
    ));
    assert_eq!(get_medical_record(&state, 9).ok().unwrap().lab_results, "a");
    assert!(matches!(
        delete_medical_record(&mut state, 0),
        Err(Error::InvalidInput { .. })
    ));
    assert_eq!(list_medical_records(&state).len(), 2);
    assert!(delete_medical_record(&mut state, 7).is_ok());
    assert!(matches!(
        delete_medical_record(&mut state, 7),
        Err(Error::NotFound { .. })
    ));
}

#[test]
fn messages_round_trip_with_multimedia() {
    let mut state = fresh();
    let empty = send_message(&mut state, 1, 2, "".to_string(), None);
    assert!(matches!(empty, Err(Error::InvalidInput { .. })));
    let mm = MultiMediaContent { content_type: "image/png".to_string(), data: vec![1, 2, 3] };
    let message = send_message(&mut state, 1, 2, "hello".to_string(), Some(mm)).ok().unwrap();
    let fetched = get_message(&state, message.id).ok().unwrap();
    assert_eq!(fetched.content, "hello");
    let payload = fetched.multimedia_content.unwrap();
    assert_eq!(payload.content_type, "image/png");
    assert_eq!(payload.data, vec![1, 2, 3]);
    let updated =
        update_message(&mut state, message.id, 1, 2, "edited".to_string(), None).ok().unwrap();
    assert_eq!(updated.content, "edited");
    assert_eq!(list_messages(&state).len(), 1);
    // Updating an absent identifier reports NotFound, but the write has
    // already happened: the message is now stored under that identifier.
    assert!(matches!(
        update_message(&mut state, 999, 1, 2, "x".to_string(), None),
        Err(Error::NotFound { .. })
    ));
    assert_eq!(get_message(&state, 999).ok().unwrap().content, "x");
    assert_eq!(list_messages(&state).len(), 2);
    assert!(delete_message(&mut state, message.id).is_ok());
    assert!(delete_message(&mut state, 999).is_ok());
    assert!(list_messages(&state).is_empty());
}

#[test]
fn reminders_require_a_known_patient() {
    let (mut state, patient_id) = with_patient();
    assert!(matches!(
        send_reminder_to_patient(&mut state, 999, "visit".to_string(), None),
        Err(Error::NotFound { .. })
    ));
    let reminder =
        send_reminder_to_patient(&mut state, patient_id, "visit".to_string(), None).ok().unwrap();
    assert_eq!(reminder.sender_id, 0);
    assert_eq!(reminder.receiver_id, patient_id);
}

#[test]
fn reports_validate_and_round_trip() {
    let (mut state, patient_id) = with_patient();
    let invalid = add_report(
        &mut state,
        patient_id,
        "alice".to_string(),
        "".to_string(),
        "flu".to_string(),
        "rest".to_string(),
        "hydrate".to_string(),
        None,
    );
    assert!(matches!(invalid, Err(Error::InvalidInput { .. })));
    let orphan = add_report(
        &mut state,
        999,
        "alice".to_string(),
        "cough".to_string(),
        "flu".to_string(),
        "rest".to_string(),
        "hydrate".to_string(),
        None,
    );
    assert!(matches!(orphan, Err(Error::NotFound { .. })));
    let report = add_report(
        &mut state,
        patient_id,
        "alice".to_string(),
        "cough".to_string(),
        "flu".to_string(),
        "rest".to_string(),
        "hydrate".to_string(),
        None,
    )
    .ok()
    .unwrap();
    assert_eq!(get_report(&state, report.id).ok().unwrap().diagnostic, "flu");
    let updated = update_report(
        &mut state,
        report.id,
        patient_id,
        "alice".to_string(),
        "cough".to_string(),
        "cold".to_string(),
        "rest".to_string(),
        "hydrate".to_string(),
        None,
    )
    .ok()
    .unwrap();
    assert_eq!(updated.diagnostic, "cold");
    assert_eq!(list_reports(&state).len(), 1);
    // Updating an absent identifier reports NotFound, but the write has
    // already happened: the report is now stored under that identifier.
    let absent = update_report(
        &mut state,
        777,
        patient_id,
        "alice".to_string(),
        "cough".to_string(),
        "flu".to_string(),
        "rest".to_string(),
        "hydrate".to_string(),
        None,
    );
    assert!(matches!(absent, Err(Error::NotFound { .. })));
    assert_eq!(get_report(&state, 777).ok().unwrap().diagnostic, "flu");
    assert_eq!(list_reports(&state).len(), 2);
    assert!(delete_report(&mut state, report.id).is_ok());
    assert!(matches!(get_report(&state, report.id), Err(Error::NotFound { .. })));
}

#[test]
fn calendly_links_store_and_delete() {
    let mut state = fresh();
    let link = add_calendly(&mut state, "principal".to_string(), "cal/alice".to_string())
        .ok()
        .unwrap();
    assert_eq!(get_calendly(&state, link.id).ok().unwrap().calendly, "cal/alice");
    assert!(delete_calendly(&mut state, link.id).is_ok());
    assert!(matches!(get_calendly(&state, link.id), Err(Error::NotFound { .. })));
}

#[test]
fn binary_data_round_trips() {
    let mut state = fresh();
    let stored = add_data(
        &mut state,
        "alice".to_string(),
        "ada".to_string(),
        vec![9, 8, 7],
    )
    .ok()
    .unwrap();
    let fetched = get_data(&state, stored.id).ok().unwrap();
    assert_eq!(fetched.patient_username, "alice");
    assert_eq!(fetched.doctor_username, "ada");
    assert_eq!(fetched.data, vec![9, 8, 7]);
    assert!(matches!(get_data(&state, 999), Err(Error::NotFound { .. })));
}
