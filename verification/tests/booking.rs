//! Scenario tests for the appointment–availability booking subsystem.

use clinic_booking::{
    add_appointment, add_availability, add_doctor, add_identity, cancel_appointment,
    complete_appointment, delete_appointment, filter_appointments_by_doctor_id,
    filter_appointments_by_patient_id, filter_availability_by_doctor_id,
    filter_available_slots_by_doctor_id, get_appointment, get_availability, list_appointments,
    register_patient, update_appointment, update_availability, update_availability_status,
    Appointment, Clinic, Error,
};

/// A clinic with one identity (id 0), one patient (id 1) and one doctor
/// (id 2) already registered.
fn clinic_with_doctor_and_patient() -> (Clinic, u64, u64) {
    let mut state = Clinic::new();
    let identity = add_identity(&mut state, "patient-principal".to_string()).ok().unwrap();
    let patient = match register_patient(&mut state, "alice".to_string(), identity.id) {
        Ok(p) => p,
        Err(_) => panic!("patient registration failed"),
    };
    let doctor = match add_doctor(
        &mut state,
        "doctor-principal".to_string(),
        "Ada".to_string(),
        "Lovelace".to_string(),
        "1815-12-10".to_string(),
        "cardiology".to_string(),
        77,
        88,
        "f".to_string(),
        "UK".to_string(),
        "London".to_string(),
    ) {
        Ok(d) => d,
        Err(_) => panic!("doctor registration failed"),
    };
    (state, doctor.id, patient.id)
}

fn book(state: &mut Clinic, patient_id: u64, doctor_id: u64, slot: &str) -> Result<Appointment, Error> {
    add_appointment(
        state,
        patient_id,
        doctor_id,
        "555".to_string(),
        slot.to_string(),
        "checkup".to_string(),
        "none".to_string(),
        "whatever".to_string(),
        "consultation".to_string(),
    )
}

#[test]
fn booking_a_free_slot_succeeds_and_pends() {
    let (mut state, doctor_id, patient_id) = clinic_with_doctor_and_patient();
    let av =
        add_availability(&mut state, doctor_id, 1, "09:00".to_string(), "09:30".to_string(), true)
            .ok()
            .unwrap();
    assert!(av.is_available);
    let appt = book(&mut state, patient_id, doctor_id, "09:00").ok().unwrap();
    assert_eq!(appt.status, "pending");
    assert_eq!(appt.doctor_id, doctor_id);
    assert_eq!(appt.patient_id, patient_id);
    assert_eq!(appt.slot, "09:00");
    let stored_av = get_availability(&state, av.id).ok().unwrap();
    assert!(!stored_av.is_available);
}

#[test]
fn second_booking_of_the_same_slot_is_rejected() {
    let (mut state, doctor_id, patient_id) = clinic_with_doctor_and_patient();
    add_availability(&mut state, doctor_id, 1, "09:00".to_string(), "09:30".to_string(), true)
        .ok()
        .unwrap();
    assert!(book(&mut state, patient_id, doctor_id, "09:00").is_ok());
    let second = book(&mut state, patient_id, doctor_id, "09:00");
    assert!(matches!(second, Err(Error::InvalidInput { .. })));
    assert_eq!(list_appointments(&state).len(), 1);
}

#[test]
fn cancelling_releases_the_slot() {
    let (mut state, doctor_id, patient_id) = clinic_with_doctor_and_patient();
    add_availability(&mut state, doctor_id, 1, "09:00".to_string(), "09:30".to_string(), true)
        .ok()
        .unwrap();
    let appt = book(&mut state, patient_id, doctor_id, "09:00").ok().unwrap();
    assert!(filter_available_slots_by_doctor_id(&state, doctor_id).is_empty());
    let cancelled = cancel_appointment(&mut state, appt.id).ok().unwrap();
    assert_eq!(cancelled.status, "cancelled");
    let free = filter_available_slots_by_doctor_id(&state, doctor_id);
    assert_eq!(free.len(), 1);
    assert_eq!(free[0].start_time, "09:00");
}

#[test]
fn completing_confirms_and_releases_the_slot() {
    let (mut state, doctor_id, patient_id) = clinic_with_doctor_and_patient();
    add_availability(&mut state, doctor_id, 2, "14:00".to_string(), "14:30".to_string(), true)
        .ok()
        .unwrap();
    let appt = book(&mut state, patient_id, doctor_id, "14:00").ok().unwrap();
    let confirmed = complete_appointment(&mut state, appt.id).ok().unwrap();
    assert_eq!(confirmed.status, "confirmed");
    let free = filter_available_slots_by_doctor_id(&state, doctor_id);
    assert_eq!(free.len(), 1);
    assert_eq!(free[0].start_time, "14:00");
}

#[test]
fn second_cancel_does_not_double_release() {
    let (mut state, doctor_id, patient_id) = clinic_with_doctor_and_patient();
    let av =
        add_availability(&mut state, doctor_id, 1, "09:00".to_string(), "09:30".to_string(), true)
            .ok()
            .unwrap();
    let appt = book(&mut state, patient_id, doctor_id, "09:00").ok().unwrap();
    assert!(cancel_appointment(&mut state, appt.id).is_ok());
    let before = list_availabilities_flags(&state, doctor_id);
    // Status transitions are unguarded: a second cancel is accepted, but it
    // finds the slot already free and leaves the store untouched.
    let again = cancel_appointment(&mut state, appt.id).ok().unwrap();
    assert_eq!(again.status, "cancelled");
    let after = list_availabilities_flags(&state, doctor_id);
    assert_eq!(before, after);
    let stored_av = get_availability(&state, av.id).ok().unwrap();
    assert!(stored_av.is_available);
}

fn list_availabilities_flags(state: &Clinic, doctor_id: u64) -> Vec<(u64, bool)> {
    filter_availability_by_doctor_id(state, doctor_id)
        .into_iter()
        .map(|a| (a.id, a.is_available))
        .collect()
}

#[test]
fn rebooking_a_released_slot_claims_it_again() {
    let (mut state, doctor_id, patient_id) = clinic_with_doctor_and_patient();
    let av =
        add_availability(&mut state, doctor_id, 1, "09:00".to_string(), "09:30".to_string(), true)
            .ok()
            .unwrap();
    let first = book(&mut state, patient_id, doctor_id, "09:00").ok().unwrap();
    assert!(cancel_appointment(&mut state, first.id).is_ok());
    let second = book(&mut state, patient_id, doctor_id, "09:00").ok().unwrap();
    assert_eq!(second.status, "pending");
    // The slot is claimed by the new booking while the first appointment
    // stays cancelled.
    assert!(!get_availability(&state, av.id).ok().unwrap().is_available);
    assert_eq!(get_appointment(&state, first.id).ok().unwrap().status, "cancelled");
}

#[test]
fn pending_appointments_track_claimed_slots_across_a_sequence() {
    let (mut state, doctor_id, patient_id) = clinic_with_doctor_and_patient();
    let morning =
        add_availability(&mut state, doctor_id, 1, "09:00".to_string(), "09:30".to_string(), true)
            .ok()
            .unwrap();
    let noon =
        add_availability(&mut state, doctor_id, 1, "12:00".to_string(), "12:30".to_string(), true)
            .ok()
            .unwrap();
    let a1 = book(&mut state, patient_id, doctor_id, "09:00").ok().unwrap();
    let a2 = book(&mut state, patient_id, doctor_id, "12:00").ok().unwrap();
    assert!(!get_availability(&state, morning.id).ok().unwrap().is_available);
    assert!(!get_availability(&state, noon.id).ok().unwrap().is_available);
    assert!(complete_appointment(&mut state, a1.id).is_ok());
    assert!(get_availability(&state, morning.id).ok().unwrap().is_available);
    assert!(!get_availability(&state, noon.id).ok().unwrap().is_available);
    assert!(cancel_appointment(&mut state, a2.id).is_ok());
    assert!(get_availability(&state, morning.id).ok().unwrap().is_available);
    assert!(get_availability(&state, noon.id).ok().unwrap().is_available);
}

#[test]
fn booking_with_unknown_doctor_leaves_availability_unchanged() {
    let (mut state, doctor_id, patient_id) = clinic_with_doctor_and_patient();
    let av =
        add_availability(&mut state, doctor_id, 1, "09:00".to_string(), "09:30".to_string(), true)
            .ok()
            .unwrap();
    let r = book(&mut state, patient_id, 9999, "09:00");
    assert!(matches!(r, Err(Error::NotFound { .. })));
    let stored_av = get_availability(&state, av.id).ok().unwrap();
    assert!(stored_av.is_available);
    assert!(list_appointments(&state).is_empty());
}

#[test]
fn booking_with_unknown_patient_is_not_found() {
    let (mut state, doctor_id, _patient_id) = clinic_with_doctor_and_patient();
    add_availability(&mut state, doctor_id, 1, "09:00".to_string(), "09:30".to_string(), true)
        .ok()
        .unwrap();
    let r = book(&mut state, 9999, doctor_id, "09:00");
    assert!(matches!(r, Err(Error::NotFound { .. })));
}

#[test]
fn booking_with_empty_phone_is_invalid() {
    let (mut state, doctor_id, patient_id) = clinic_with_doctor_and_patient();
    let r = add_appointment(
        &mut state,
        patient_id,
        doctor_id,
        "".to_string(),
        "09:00".to_string(),
        "checkup".to_string(),
        "none".to_string(),
        "pending".to_string(),
        "consultation".to_string(),
    );
    assert!(matches!(r, Err(Error::InvalidInput { .. })));
}

#[test]
fn caller_supplied_status_is_discarded_at_creation() {
    let (mut state, doctor_id, patient_id) = clinic_with_doctor_and_patient();
    add_availability(&mut state, doctor_id, 1, "09:00".to_string(), "09:30".to_string(), true)
        .ok()
        .unwrap();
    let appt = add_appointment(
        &mut state,
        patient_id,
        doctor_id,
        "555".to_string(),
        "09:00".to_string(),
        "checkup".to_string(),
        "none".to_string(),
        "confirmed".to_string(),
        "consultation".to_string(),
    )
    .ok()
    .unwrap();
    assert_eq!(appt.status, "pending");
}

#[test]
fn reading_back_a_created_appointment_round_trips() {
    let (mut state, doctor_id, patient_id) = clinic_with_doctor_and_patient();
    add_availability(&mut state, doctor_id, 1, "09:00".to_string(), "09:30".to_string(), true)
        .ok()
        .unwrap();
    let created = book(&mut state, patient_id, doctor_id, "09:00").ok().unwrap();
    let fetched = get_appointment(&state, created.id).ok().unwrap();
    assert_eq!(fetched.id, created.id);
    assert_eq!(fetched.patient_id, created.patient_id);
    assert_eq!(fetched.doctor_id, created.doctor_id);
    assert_eq!(fetched.phone_no, created.phone_no);
    assert_eq!(fetched.slot, created.slot);
    assert_eq!(fetched.reason, created.reason);
    assert_eq!(fetched.symtoms, created.symtoms);
    assert_eq!(fetched.status, created.status);
    assert_eq!(fetched.appointment_type, created.appointment_type);
}

#[test]
fn deleting_a_pending_appointment_keeps_the_slot_claimed() {
    let (mut state, doctor_id, patient_id) = clinic_with_doctor_and_patient();
    let av =
        add_availability(&mut state, doctor_id, 1, "09:00".to_string(), "09:30".to_string(), true)
            .ok()
            .unwrap();
    let appt = book(&mut state, patient_id, doctor_id, "09:00").ok().unwrap();
    assert!(delete_appointment(&mut state, appt.id).is_ok());
    assert!(matches!(
        get_appointment(&state, appt.id),
        Err(Error::NotFound { .. })
    ));
    let stored_av = get_availability(&state, av.id).ok().unwrap();
    assert!(!stored_av.is_available);
}

#[test]
fn deleting_an_unknown_appointment_is_not_found() {
    let (mut state, _doctor_id, _patient_id) = clinic_with_doctor_and_patient();
    assert!(matches!(
        delete_appointment(&mut state, 42),
        Err(Error::NotFound { .. })
    ));
}

#[test]
fn generic_update_with_released_status_frees_the_slot() {
    let (mut state, doctor_id, patient_id) = clinic_with_doctor_and_patient();
    add_availability(&mut state, doctor_id, 1, "09:00".to_string(), "09:30".to_string(), true)
        .ok()
        .unwrap();
    let appt = book(&mut state, patient_id, doctor_id, "09:00").ok().unwrap();
    let updated = update_appointment(
        &mut state,
        appt.id,
        patient_id,
        doctor_id,
        "556".to_string(),
        "09:00".to_string(),
        "moved".to_string(),
        "none".to_string(),
        "cancelled".to_string(),
        "consultation".to_string(),
    )
    .ok()
    .unwrap();
    assert_eq!(updated.status, "cancelled");
    assert_eq!(updated.phone_no, "556");
    let free = filter_available_slots_by_doctor_id(&state, doctor_id);
    assert_eq!(free.len(), 1);
}

#[test]
fn generic_update_with_other_status_keeps_the_slot() {
    let (mut state, doctor_id, patient_id) = clinic_with_doctor_and_patient();
    add_availability(&mut state, doctor_id, 1, "09:00".to_string(), "09:30".to_string(), true)
        .ok()
        .unwrap();
    let appt = book(&mut state, patient_id, doctor_id, "09:00").ok().unwrap();
    let updated = update_appointment(
        &mut state,
        appt.id,
        patient_id,
        doctor_id,
        "555".to_string(),
        "09:00".to_string(),
        "checkup".to_string(),
        "cough".to_string(),
        "rescheduled".to_string(),
        "consultation".to_string(),
    )
    .ok()
    .unwrap();
    assert_eq!(updated.status, "rescheduled");
    assert!(filter_available_slots_by_doctor_id(&state, doctor_id).is_empty());
}

#[test]
fn update_of_unknown_appointment_is_not_found() {
    let (mut state, doctor_id, patient_id) = clinic_with_doctor_and_patient();
    let r = update_appointment(
        &mut state,
        77,
        patient_id,
        doctor_id,
        "555".to_string(),
        "09:00".to_string(),
        "checkup".to_string(),
        "none".to_string(),
        "pending".to_string(),
        "consultation".to_string(),
    );
    assert!(matches!(r, Err(Error::NotFound { .. })));
}

#[test]
fn appointment_filters_pick_by_doctor_and_patient() {
    let (mut state, doctor_id, patient_id) = clinic_with_doctor_and_patient();
    add_availability(&mut state, doctor_id, 1, "09:00".to_string(), "09:30".to_string(), true)
        .ok()
        .unwrap();
    add_availability(&mut state, doctor_id, 1, "10:00".to_string(), "10:30".to_string(), true)
        .ok()
        .unwrap();
    let a1 = book(&mut state, patient_id, doctor_id, "09:00").ok().unwrap();
    let a2 = book(&mut state, patient_id, doctor_id, "10:00").ok().unwrap();
    let by_doctor = filter_appointments_by_doctor_id(&state, doctor_id);
    assert_eq!(by_doctor.len(), 2);
    assert_eq!(by_doctor[0].id, a1.id);
    assert_eq!(by_doctor[1].id, a2.id);
    assert_eq!(filter_appointments_by_patient_id(&state, patient_id).len(), 2);
    assert!(filter_appointments_by_doctor_id(&state, 9999).is_empty());
}

#[test]
fn availability_validation_rejects_bad_inputs() {
    let (mut state, doctor_id, _patient_id) = clinic_with_doctor_and_patient();
    let bad_day =
        add_availability(&mut state, doctor_id, 7, "09:00".to_string(), "09:30".to_string(), true);
    assert!(matches!(bad_day, Err(Error::InvalidInput { .. })));
    let empty_time =
        add_availability(&mut state, doctor_id, 1, "".to_string(), "09:30".to_string(), true);
    assert!(matches!(empty_time, Err(Error::InvalidInput { .. })));
    let no_doctor =
        add_availability(&mut state, 9999, 1, "09:00".to_string(), "09:30".to_string(), true);
    assert!(matches!(no_doctor, Err(Error::NotFound { .. })));
}

#[test]
fn update_availability_replaces_or_reports_absence() {
    let (mut state, doctor_id, _patient_id) = clinic_with_doctor_and_patient();
    let av =
        add_availability(&mut state, doctor_id, 1, "09:00".to_string(), "09:30".to_string(), true)
            .ok()
            .unwrap();
    let updated = update_availability(
        &mut state,
        av.id,
        doctor_id,
        2,
        "11:00".to_string(),
        "11:30".to_string(),
        false,
    )
    .ok()
    .unwrap();
    assert_eq!(updated.day_of_week, 2);
    assert_eq!(updated.start_time, "11:00");
    assert!(!updated.is_available);
    let fetched = get_availability(&state, av.id).ok().unwrap();
    assert_eq!(fetched.start_time, "11:00");
    let missing = update_availability(
        &mut state,
        4242,
        doctor_id,
        2,
        "11:00".to_string(),
        "11:30".to_string(),
        false,
    );
    assert!(matches!(missing, Err(Error::NotFound { .. })));
}

#[test]
fn update_availability_status_flips_the_first_match_only() {
    let (mut state, doctor_id, _patient_id) = clinic_with_doctor_and_patient();
    let first =
        add_availability(&mut state, doctor_id, 1, "09:00".to_string(), "09:30".to_string(), true)
            .ok()
            .unwrap();
    let second =
        add_availability(&mut state, doctor_id, 2, "09:00".to_string(), "09:45".to_string(), true)
            .ok()
            .unwrap();
    update_availability_status(&mut state, doctor_id, &"09:00".to_string(), false);
    assert!(!get_availability(&state, first.id).ok().unwrap().is_available);
    assert!(get_availability(&state, second.id).ok().unwrap().is_available);
    // No match: silently a no-op.
    update_availability_status(&mut state, doctor_id, &"23:59".to_string(), false);
    assert!(get_availability(&state, second.id).ok().unwrap().is_available);
}
