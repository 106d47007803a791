//! Messages between identities, including system reminders to patients.

use vstd::prelude::*;

use crate::error::Error;
use crate::models::message_like;
use crate::models::Keyed;
use crate::models::Message;
use crate::models::MultiMediaContent;
use crate::storage::has_key;
use crate::storage::key_index;
use crate::storage::record_at;
use crate::storage::store_get;
use crate::storage::store_insert;
use crate::storage::store_remove;
use crate::storage::upserted;
use crate::storage::Clinic;
use crate::utils::generate_id;

verus! {

/// Look a message up, reporting absence as `NotFound`.
pub fn get_message(state: &Clinic, message_id: u64) -> (r: Result<Message, Error>)
    requires
        state.wf(),
    ensures
        (match r {
            Ok(m) => has_key(state.messages@, message_id) && message_like(
                record_at(state.messages@, message_id),
                m,
            ),
            Err(e) => !has_key(state.messages@, message_id) && (e matches Error::NotFound { msg }
                && msg@ == "message not found"@),
        }),
{
    match get_message_by_id(state, &message_id) {
        Option::Some(message) => Result::Ok(message),
        Option::None => Result::Err(Error::NotFound { msg: "message not found".to_owned() }),
    }
}

/// Store a message under a fresh identifier; the text must be non-empty.
pub fn send_message(
    state: &mut Clinic,
    sender_id: u64,
    receiver_id: u64,
    content: String,
    multimedia_content: Option<MultiMediaContent>,
) -> (r: Result<Message, Error>)
    requires
        old(state).wf(),
        old(state).next_id < u64::MAX,
    ensures
        final(state).wf(),
        ({
            let pre = *old(state);
            if content@.len() == 0 {
                *final(state) == pre && (r matches Err(Error::InvalidInput { msg })
                    && msg@ == "Message content cannot be empty"@)
            } else {
                &&& (r matches Ok(m) && {
                    &&& m.id == pre.next_id
                    &&& m.sender_id == sender_id
                    &&& m.receiver_id == receiver_id
                    &&& m.content == content
                    &&& m.multimedia_content == multimedia_content
                    &&& has_key(final(state).messages@, pre.next_id)
                    &&& message_like(m, record_at(final(state).messages@, pre.next_id))
                    &&& upserted(
                        pre.messages@,
                        final(state).messages@,
                        record_at(final(state).messages@, pre.next_id),
                    )
                })
                &&& final(state).next_id == pre.next_id + 1
                &&& final(state).patients == pre.patients
                &&& final(state).doctors == pre.doctors
                &&& final(state).appointments == pre.appointments
                &&& final(state).medical_records == pre.medical_records
                &&& final(state).reports == pre.reports
                &&& final(state).identities == pre.identities
                &&& final(state).docidentities == pre.docidentities
                &&& final(state).calendlies == pre.calendlies
                &&& final(state).availabilities == pre.availabilities
                &&& final(state).datas == pre.datas
            }
        }),
{
    if content.as_str().is_empty() {
        return Result::Err(Error::InvalidInput { msg: "Message content cannot be empty".to_owned() });
    }
    let id = generate_id(state);
    let message = Message { id, sender_id, receiver_id, content, multimedia_content };
    let stored = message.clone();
    store_insert(&mut state.messages, stored);
    Result::Ok(message)
}

/// Replace a stored message wholesale; the text must be non-empty.  The
/// record is written before the identifier is checked, so an unknown
/// identifier is reported as `NotFound` even though the record is now
/// stored under it.
pub fn update_message(
    state: &mut Clinic,
    message_id: u64,
    sender_id: u64,
    receiver_id: u64,
    content: String,
    multimedia_content: Option<MultiMediaContent>,
) -> (r: Result<Message, Error>)
    requires
        old(state).wf(),
    ensures
        final(state).wf(),
        final(state).next_id == old(state).next_id,
        final(state).patients == old(state).patients,
        final(state).doctors == old(state).doctors,
        final(state).appointments == old(state).appointments,
        final(state).medical_records == old(state).medical_records,
        final(state).reports == old(state).reports,
        final(state).identities == old(state).identities,
        final(state).docidentities == old(state).docidentities,
        final(state).calendlies == old(state).calendlies,
        final(state).availabilities == old(state).availabilities,
        final(state).datas == old(state).datas,
        ({
            let pre = *old(state);
            if content@.len() == 0 {
                final(state).messages@ == pre.messages@ && (r matches Err(Error::InvalidInput {
                    msg,
                }) && msg@ == "Message content cannot be empty"@)
            } else {
                let stored = record_at(final(state).messages@, message_id);
                &&& has_key(final(state).messages@, message_id)
                &&& stored.id == message_id
                &&& stored.sender_id == sender_id
                &&& stored.receiver_id == receiver_id
                &&& stored.content == content
                &&& crate::models::mm_opt_like(stored.multimedia_content, multimedia_content)
                &&& upserted(pre.messages@, final(state).messages@, stored)
                &&& (if has_key(pre.messages@, message_id) {
                    r matches Ok(m) && {
                        &&& m.id == message_id
                        &&& m.sender_id == sender_id
                        &&& m.receiver_id == receiver_id
                        &&& m.content == content
                        &&& m.multimedia_content == multimedia_content
                        &&& message_like(m, stored)
                    }
                } else {
                    r matches Err(Error::NotFound { msg }) && msg@ == "message not found"@
                })
            }
        }),
{
    if content.as_str().is_empty() {
        return Result::Err(Error::InvalidInput { msg: "Message content cannot be empty".to_owned() });
    }
    let updated_message = Message { id: message_id, sender_id, receiver_id, content, multimedia_content };
    let stored = updated_message.clone();
    match store_insert(&mut state.messages, stored) {
        Option::Some(_) => Result::Ok(updated_message),
        Option::None => Result::Err(Error::NotFound { msg: "message not found".to_owned() }),
    }
}

/// Remove a message by identifier.
pub fn delete_message(state: &mut Clinic, message_id: u64) -> (r: Result<(), Error>)
    requires
        old(state).wf(),
    ensures
        final(state).wf(),
        final(state).next_id == old(state).next_id,
        final(state).patients == old(state).patients,
        final(state).doctors == old(state).doctors,
        final(state).appointments == old(state).appointments,
        final(state).medical_records == old(state).medical_records,
        final(state).reports == old(state).reports,
        final(state).identities == old(state).identities,
        final(state).docidentities == old(state).docidentities,
        final(state).calendlies == old(state).calendlies,
        final(state).availabilities == old(state).availabilities,
        final(state).datas == old(state).datas,
        (if has_key(old(state).messages@, message_id) {
            r is Ok && final(state).messages@ == old(state).messages@.remove(
                key_index(old(state).messages@, message_id),
            )
        } else {
            final(state).messages@ == old(state).messages@ && (r matches Err(Error::NotFound {
                msg,
            }) && msg@ == "message not found"@)
        }),
{
    match store_remove(&mut state.messages, message_id) {
        Option::Some(_) => Result::Ok(()),
        Option::None => Result::Err(Error::NotFound { msg: "message not found".to_owned() }),
    }
}

/// All messages in ascending identifier order.
pub fn list_messages(state: &Clinic) -> (r: Vec<Message>)
    ensures
        r@.len() == state.messages@.len(),
        forall|i: int| 0 <= i < r@.len() ==> message_like(state.messages@[i], #[trigger] r@[i]),
{
    let r = state.messages.clone();
    proof {
        assert forall|i: int| 0 <= i < r@.len() implies message_like(
            state.messages@[i],
            #[trigger] r@[i],
        ) by {
            assert(vstd::pervasive::cloned::<Message>(state.messages@[i], r@[i]));
        }
    }
    r
}

/// Store a system reminder to a patient: sender zero, the patient as
/// receiver; the text must be non-empty and the patient known.
pub fn send_reminder_to_patient(
    state: &mut Clinic,
    patient_id: u64,
    content: String,
    multimedia_content: Option<MultiMediaContent>,
) -> (r: Result<Message, Error>)
    requires
        old(state).wf(),
        old(state).next_id < u64::MAX,
    ensures
        final(state).wf(),
        ({
            let pre = *old(state);
            if content@.len() == 0 {
                *final(state) == pre && (r matches Err(Error::InvalidInput { msg })
                    && msg@ == "Reminder content cannot be empty"@)
            } else if !has_key(pre.patients@, patient_id) {
                *final(state) == pre && (r matches Err(Error::NotFound { msg })
                    && msg@ == "patient not found"@)
            } else {
                &&& (r matches Ok(m) && {
                    &&& m.id == pre.next_id
                    &&& m.sender_id == 0
                    &&& m.receiver_id == patient_id
                    &&& m.content == content
                    &&& m.multimedia_content == multimedia_content
                    &&& has_key(final(state).messages@, pre.next_id)
                    &&& message_like(m, record_at(final(state).messages@, pre.next_id))
                    &&& upserted(
                        pre.messages@,
                        final(state).messages@,
                        record_at(final(state).messages@, pre.next_id),
                    )
                })
                &&& final(state).next_id == pre.next_id + 1
                &&& final(state).patients == pre.patients
                &&& final(state).doctors == pre.doctors
                &&& final(state).appointments == pre.appointments
                &&& final(state).medical_records == pre.medical_records
                &&& final(state).reports == pre.reports
                &&& final(state).identities == pre.identities
                &&& final(state).docidentities == pre.docidentities
                &&& final(state).calendlies == pre.calendlies
                &&& final(state).availabilities == pre.availabilities
                &&& final(state).datas == pre.datas
            }
        }),
{
    if content.as_str().is_empty() {
        return Result::Err(Error::InvalidInput { msg: "Reminder content cannot be empty".to_owned() });
    }
    if store_get(&state.patients, patient_id).is_none() {
        return Result::Err(Error::NotFound { msg: "patient not found".to_owned() });
    }
    let sender_id: u64 = 0;
    let id = generate_id(state);
    let message = Message { id, sender_id, receiver_id: patient_id, content, multimedia_content };
    let stored = message.clone();
    store_insert(&mut state.messages, stored);
    Result::Ok(message)
}

/// The stored message under this identifier, if any.
pub fn get_message_by_id(state: &Clinic, message_id: &u64) -> (r: Option<Message>)
    requires
        state.wf(),
    ensures
        (match r {
            Option::Some(m) => has_key(state.messages@, *message_id) && message_like(
                record_at(state.messages@, *message_id),
                m,
            ),
            Option::None => !has_key(state.messages@, *message_id),
        }),
{
    match store_get(&state.messages, *message_id) {
        Option::Some(m) => Option::Some(m.clone()),
        Option::None => Option::None,
    }
}

} // verus!
