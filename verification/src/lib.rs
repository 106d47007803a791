//! Verified core of a medical appointment service.
//!
//! The crate models the service state as owned keyed collections inside
//! [`storage::Clinic`]; every operation is an ordinary function over that
//! state, verified against a contract.  The booking subsystem (appointments
//! claiming and releasing availability slots) carries the cross-entity
//! invariant proved in [`appointment`].

pub mod appointment;
pub mod availability;
pub mod calendly;
pub mod data;
pub mod doctor;
pub mod error;
pub mod identity;
pub mod medical_record;
pub mod message;
pub mod models;
pub mod patient;
pub mod report;
pub mod storage;
pub mod utils;

pub use crate::appointment::{
    add_appointment, cancel_appointment, complete_appointment, delete_appointment,
    filter_appointments_by_doctor_id, filter_appointments_by_patient_id, get_appointment,
    get_appointment_by_id, list_appointments, update_appointment,
};
pub use crate::availability::{
    add_availability, delete_availability, filter_availability_by_doctor_id,
    filter_available_slots_by_doctor_id, get_availability, get_availability_by_id,
    list_availabilities, update_availability, update_availability_status,
};
pub use crate::calendly::{add_calendly, delete_calendly, get_calendly};
pub use crate::data::{add_data, get_data};
pub use crate::doctor::{
    add_doctor, delete_doctor, get_doctor, get_doctor_by_id, list_doctors, update_doctor,
};
pub use crate::error::Error;
pub use crate::identity::{
    add_docidentity, add_identity, delete_docidentity, delete_identity, does_docidentity_exist,
    does_identity_exist, get_docidentity, get_docidentity_by_id, get_identity, get_identity_by_id,
    list_docidentities, list_identities,
};
pub use crate::medical_record::{
    create_medical_record, delete_medical_record, get_medical_record, get_medical_record_by_id,
    list_medical_records, update_medical_record,
};
pub use crate::message::{
    delete_message, get_message, get_message_by_id, list_messages, send_message,
    send_reminder_to_patient, update_message,
};
pub use crate::report::{
    add_report, delete_report, get_report, get_report_by_id, list_reports, update_report,
};
pub use crate::patient::{
    delete_patient, get_patient, get_patient_by_id, list_patients, register_patient,
};
pub use crate::models::{
    Appointment, Availability, Calendly, Data, DocIdentity, Doctor, Identity, Keyed,
    MedicalRecord, Message, MultiMediaContent, Patient, Report,
};
pub use crate::storage::Clinic;
pub use crate::utils::generate_id;
