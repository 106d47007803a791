//! Record types stored by the service, each keyed by a `u64` identifier.

use vstd::prelude::*;

verus! {

/// A record that carries its own store key.
pub trait Keyed: Sized {
    /// The key under which the record is stored.
    spec fn key(&self) -> u64;

    /// Executable access to the key.
    fn get_key(&self) -> (k: u64)
        ensures
            k == self.key(),
    ;
}

pub struct Patient {
    pub id: u64,
    pub username: String,
    pub identity_id: u64,
}

pub struct Doctor {
    pub id: u64,
    pub principal_str: String,
    pub fname: String,
    pub lname: String,
    pub dob: String,
    pub specialism: String,
    pub licence_no: u64,
    pub id_no: u64,
    pub sex: String,
    pub country: String,
    pub city: String,
}

pub struct Appointment {
    pub id: u64,
    pub patient_id: u64,
    pub doctor_id: u64,
    pub phone_no: String,
    pub slot: String,
    pub reason: String,
    pub symtoms: String,
    pub status: String,
    pub appointment_type: String,
}

pub struct Message {
    pub id: u64,
    pub sender_id: u64,
    pub receiver_id: u64,
    pub content: String,
    pub multimedia_content: Option<MultiMediaContent>,
}

pub struct MultiMediaContent {
    pub content_type: String,
    pub data: Vec<u8>,
}

pub struct MedicalRecord {
    pub id: u64,
    pub patient_id: u64,
    pub lab_results: String,
    pub treatment_history: String,
}

pub struct Report {
    pub id: u64,
    pub patient_id: u64,
    pub username: String,
    pub symptoms: String,
    pub diagnostic: String,
    pub prescription: String,
    pub recommendations: String,
    pub multimedia_content: Option<MultiMediaContent>,
}

pub struct Identity {
    pub id: u64,
    pub principal: String,
}

pub struct DocIdentity {
    pub id: u64,
    pub principal: String,
}

pub struct Availability {
    pub id: u64,
    pub doctor_id: u64,
    pub day_of_week: u8,
    pub start_time: String,
    pub end_time: String,
    pub is_available: bool,
}

pub struct Calendly {
    pub id: u64,
    pub principle_id: String,
    pub calendly: String,
}

pub struct Data {
    pub id: u64,
    pub patient_username: String,
    pub doctor_username: String,
    pub data: Vec<u8>,
}

impl Keyed for Patient {
    open spec fn key(&self) -> u64 {
        self.id
    }

    fn get_key(&self) -> u64 {
        self.id
    }
}

impl Keyed for Doctor {
    open spec fn key(&self) -> u64 {
        self.id
    }

    fn get_key(&self) -> u64 {
        self.id
    }
}

impl Keyed for Appointment {
    open spec fn key(&self) -> u64 {
        self.id
    }

    fn get_key(&self) -> u64 {
        self.id
    }
}

impl Keyed for Message {
    open spec fn key(&self) -> u64 {
        self.id
    }

    fn get_key(&self) -> u64 {
        self.id
    }
}

impl Keyed for MedicalRecord {
    open spec fn key(&self) -> u64 {
        self.id
    }

    fn get_key(&self) -> u64 {
        self.id
    }
}

impl Keyed for Report {
    open spec fn key(&self) -> u64 {
        self.id
    }

    fn get_key(&self) -> u64 {
        self.id
    }
}

impl Keyed for Identity {
    open spec fn key(&self) -> u64 {
        self.id
    }

    fn get_key(&self) -> u64 {
        self.id
    }
}

impl Keyed for DocIdentity {
    open spec fn key(&self) -> u64 {
        self.id
    }

    fn get_key(&self) -> u64 {
        self.id
    }
}

impl Keyed for Availability {
    open spec fn key(&self) -> u64 {
        self.id
    }

    fn get_key(&self) -> u64 {
        self.id
    }
}

impl Keyed for Calendly {
    open spec fn key(&self) -> u64 {
        self.id
    }

    fn get_key(&self) -> u64 {
        self.id
    }
}

impl Keyed for Data {
    open spec fn key(&self) -> u64 {
        self.id
    }

    fn get_key(&self) -> u64 {
        self.id
    }
}

/// Content equality for multimedia payloads.  A `Vec<u8>` value is not
/// determined by its view alone, so copies of these records are related at
/// content level rather than by `==`.
pub open spec fn mm_like(a: MultiMediaContent, b: MultiMediaContent) -> bool {
    &&& a.content_type == b.content_type
    &&& a.data@ == b.data@
}

pub open spec fn mm_opt_like(a: Option<MultiMediaContent>, b: Option<MultiMediaContent>) -> bool {
    match (a, b) {
        (Option::None, Option::None) => true,
        (Option::Some(x), Option::Some(y)) => mm_like(x, y),
        _ => false,
    }
}

pub open spec fn message_like(a: Message, b: Message) -> bool {
    &&& a.id == b.id
    &&& a.sender_id == b.sender_id
    &&& a.receiver_id == b.receiver_id
    &&& a.content == b.content
    &&& mm_opt_like(a.multimedia_content, b.multimedia_content)
}

pub open spec fn report_like(a: Report, b: Report) -> bool {
    &&& a.id == b.id
    &&& a.patient_id == b.patient_id
    &&& a.username == b.username
    &&& a.symptoms == b.symptoms
    &&& a.diagnostic == b.diagnostic
    &&& a.prescription == b.prescription
    &&& a.recommendations == b.recommendations
    &&& mm_opt_like(a.multimedia_content, b.multimedia_content)
}

pub open spec fn data_like(a: Data, b: Data) -> bool {
    &&& a.id == b.id
    &&& a.patient_username == b.patient_username
    &&& a.doctor_username == b.doctor_username
    &&& a.data@ == b.data@
}

/// Byte-for-byte copy of a buffer, with the copy known equal to the source.
fn copy_bytes(v: &Vec<u8>) -> (r: Vec<u8>)
    ensures
        r@ == v@,
{
    let mut r: Vec<u8> = Vec::new();
    let mut i: usize = 0;
    while i < v.len()
        invariant
            i <= v.len(),
            r@ == v@.subrange(0, i as int),
        decreases v.len() - i,
    {
        r.push(v[i]);
        i = i + 1;
        proof {
            assert(r@ =~= v@.subrange(0, i as int));
        }
    }
    proof {
        assert(r@ =~= v@);
    }
    r
}

impl Clone for Patient {
    fn clone(&self) -> (r: Self)
        ensures
            r == *self,
    {
        Patient { id: self.id, username: self.username.clone(), identity_id: self.identity_id }
    }
}

impl Clone for Doctor {
    fn clone(&self) -> (r: Self)
        ensures
            r == *self,
    {
        Doctor {
            id: self.id,
            principal_str: self.principal_str.clone(),
            fname: self.fname.clone(),
            lname: self.lname.clone(),
            dob: self.dob.clone(),
            specialism: self.specialism.clone(),
            licence_no: self.licence_no,
            id_no: self.id_no,
            sex: self.sex.clone(),
            country: self.country.clone(),
            city: self.city.clone(),
        }
    }
}

impl Clone for Appointment {
    fn clone(&self) -> (r: Self)
        ensures
            r == *self,
    {
        Appointment {
            id: self.id,
            patient_id: self.patient_id,
            doctor_id: self.doctor_id,
            phone_no: self.phone_no.clone(),
            slot: self.slot.clone(),
            reason: self.reason.clone(),
            symtoms: self.symtoms.clone(),
            status: self.status.clone(),
            appointment_type: self.appointment_type.clone(),
        }
    }
}

impl Clone for MultiMediaContent {
    fn clone(&self) -> (r: Self)
        ensures
            mm_like(*self, r),
    {
        MultiMediaContent { content_type: self.content_type.clone(), data: copy_bytes(&self.data) }
    }
}

impl Clone for Message {
    fn clone(&self) -> (r: Self)
        ensures
            message_like(*self, r),
    {
        let mm: Option<MultiMediaContent> = match &self.multimedia_content {
            Some(m) => Some(m.clone()),
            None => None,
        };
        Message {
            id: self.id,
            sender_id: self.sender_id,
            receiver_id: self.receiver_id,
            content: self.content.clone(),
            multimedia_content: mm,
        }
    }
}

impl Clone for MedicalRecord {
    fn clone(&self) -> (r: Self)
        ensures
            r == *self,
    {
        MedicalRecord {
            id: self.id,
            patient_id: self.patient_id,
            lab_results: self.lab_results.clone(),
            treatment_history: self.treatment_history.clone(),
        }
    }
}

impl Clone for Report {
    fn clone(&self) -> (r: Self)
        ensures
            report_like(*self, r),
    {
        let mm: Option<MultiMediaContent> = match &self.multimedia_content {
            Some(m) => Some(m.clone()),
            None => None,
        };
        Report {
            id: self.id,
            patient_id: self.patient_id,
            username: self.username.clone(),
            symptoms: self.symptoms.clone(),
            diagnostic: self.diagnostic.clone(),
            prescription: self.prescription.clone(),
            recommendations: self.recommendations.clone(),
            multimedia_content: mm,
        }
    }
}

impl Clone for Identity {
    fn clone(&self) -> (r: Self)
        ensures
            r == *self,
    {
        Identity { id: self.id, principal: self.principal.clone() }
    }
}

impl Clone for DocIdentity {
    fn clone(&self) -> (r: Self)
        ensures
            r == *self,
    {
        DocIdentity { id: self.id, principal: self.principal.clone() }
    }
}

impl Clone for Availability {
    fn clone(&self) -> (r: Self)
        ensures
            r == *self,
    {
        Availability {
            id: self.id,
            doctor_id: self.doctor_id,
            day_of_week: self.day_of_week,
            start_time: self.start_time.clone(),
            end_time: self.end_time.clone(),
            is_available: self.is_available,
        }
    }
}

impl Clone for Calendly {
    fn clone(&self) -> (r: Self)
        ensures
            r == *self,
    {
        Calendly {
            id: self.id,
            principle_id: self.principle_id.clone(),
            calendly: self.calendly.clone(),
        }
    }
}

impl Clone for Data {
    fn clone(&self) -> (r: Self)
        ensures
            data_like(*self, r),
    {
        Data {
            id: self.id,
            patient_username: self.patient_username.clone(),
            doctor_username: self.doctor_username.clone(),
            data: copy_bytes(&self.data),
        }
    }
}

} // verus!
