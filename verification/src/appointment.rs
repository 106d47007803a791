//! Booking manager: appointments and their hold on availability slots.
//!
//! Creating an appointment claims the first free availability record that
//! matches the requested doctor and start token; cancelling or completing
//! it releases that slot again.  The module states the cross-entity
//! invariant [`booking_consistent`] and proves that create, cancel and
//! complete preserve it.

use vstd::prelude::*;

use crate::availability::first_slot_match_at;
use crate::availability::first_slot_match_idx;
use crate::availability::free_slot_matches;
use crate::availability::has_free_slot;
use crate::availability::has_slot_match;
use crate::availability::slot_matches;
use crate::availability::update_availability_status;
use crate::availability::with_flag;
use crate::error::Error;
use crate::models::Appointment;
use crate::models::Availability;
use crate::models::Keyed;
use crate::storage::has_key;
use crate::storage::key_index;
use crate::storage::record_at;
use crate::storage::store_get;
use crate::storage::store_insert;
use crate::storage::store_remove;
use crate::storage::Clinic;
use crate::utils::generate_id;

verus! {

/// The appointment currently holds its slot.
pub open spec fn is_pending(a: Appointment) -> bool {
    a.status@ == "pending"@
}

/// A status value that releases the held slot when written.
pub open spec fn is_released_status(status: Seq<char>) -> bool {
    status == "cancelled"@ || status == "confirmed"@
}

/// The appointment's doctor and slot token single out this record.
pub open spec fn occupies(a: Appointment, v: Availability) -> bool {
    slot_matches(v, a.doctor_id, a.slot@)
}

/// Two appointments agree on everything but their status.
pub open spec fn same_except_status(a: Appointment, b: Appointment) -> bool {
    &&& a.id == b.id
    &&& a.patient_id == b.patient_id
    &&& a.doctor_id == b.doctor_id
    &&& a.phone_no == b.phone_no
    &&& a.slot == b.slot
    &&& a.reason == b.reason
    &&& a.symtoms == b.symtoms
    &&& a.appointment_type == b.appointment_type
}

/// The first index matching `(doctor_id, slot)` that is free (meaningful
/// when such an index exists).
pub open spec fn first_free_slot_idx(s: Seq<Availability>, doctor_id: u64, slot: Seq<char>) -> int {
    choose|j: int| crate::availability::first_free_slot_at(s, doctor_id, slot, j)
}

/// `post` is `pre` with the first record matching `(doctor_id, slot)`, if
/// any, released back to available: the effect of one release call.
pub open spec fn released(
    pre: Seq<Availability>,
    post: Seq<Availability>,
    doctor_id: u64,
    slot: Seq<char>,
) -> bool {
    if !has_slot_match(pre, doctor_id, slot) {
        post == pre
    } else {
        ({
            let j = first_slot_match_idx(pre, doctor_id, slot);
            &&& first_slot_match_at(pre, doctor_id, slot, j)
            &&& post == pre.update(j, with_flag(pre[j], true))
        })
    }
}

/// All appointments of one doctor, in store order.
pub open spec fn doctor_appointments_of(s: Seq<Appointment>, doctor_id: u64) -> Seq<Appointment> {
    s.filter(|a: Appointment| a.doctor_id == doctor_id)
}

/// All appointments of one patient, in store order.
pub open spec fn patient_appointments_of(s: Seq<Appointment>, patient_id: u64) -> Seq<Appointment> {
    s.filter(|a: Appointment| a.patient_id == patient_id)
}

/// No two availability records share a doctor and a start token: the
/// setting in which slot matching is unambiguous.
pub open spec fn unique_slots(av: Seq<Availability>) -> bool {
    forall|i: int, j: int|
        #![trigger av[i], av[j]]
        0 <= i < av.len() && 0 <= j < av.len() && av[i].doctor_id == av[j].doctor_id
            && av[i].start_time@ == av[j].start_time@ ==> i == j
}

/// No two pending appointments hold the same doctor and slot token.
pub open spec fn pending_distinct(appts: Seq<Appointment>) -> bool {
    forall|i: int, j: int|
        #![trigger appts[i], appts[j]]
        0 <= i < appts.len() && 0 <= j < appts.len() && is_pending(appts[i]) && is_pending(
            appts[j],
        ) && appts[i].doctor_id == appts[j].doctor_id && appts[i].slot@ == appts[j].slot@ ==> i == j
}

/// Some pending appointment holds this availability record.
pub open spec fn pending_occupies(appts: Seq<Appointment>, v: Availability) -> bool {
    exists|i: int| 0 <= i < appts.len() && is_pending(#[trigger] appts[i]) && occupies(appts[i], v)
}

/// An availability record is claimed exactly when a pending appointment
/// holds it.
pub open spec fn slots_match_bookings(appts: Seq<Appointment>, av: Seq<Availability>) -> bool {
    forall|j: int|
        0 <= j < av.len() ==> (!(#[trigger] av[j]).is_available <==> pending_occupies(
            appts,
            av[j],
        ))
}

/// The booking subsystem's cross-entity invariant.
pub open spec fn booking_consistent(appts: Seq<Appointment>, av: Seq<Availability>) -> bool {
    &&& unique_slots(av)
    &&& pending_distinct(appts)
    &&& slots_match_bookings(appts, av)
}

/// In a consistent state, every availability record matching a pending
/// appointment is claimed, and one matching a cancelled or confirmed
/// appointment is free again — unless some other pending appointment has
/// since claimed the same slot, the one case in which re-booking a released
/// slot leaves a terminal appointment pointing at a claimed record.
pub proof fn lemma_booking_consistent_slots(
    appts: Seq<Appointment>,
    av: Seq<Availability>,
    i: int,
    j: int,
)
    requires
        booking_consistent(appts, av),
        0 <= i < appts.len(),
        0 <= j < av.len(),
        occupies(appts[i], av[j]),
    ensures
        is_pending(appts[i]) ==> !av[j].is_available,
        !pending_occupies(appts, av[j]) ==> av[j].is_available,
{
    if is_pending(appts[i]) {
        assert(pending_occupies(appts, av[j]));
    }
}

/// Claiming a slot preserves the booking invariant: the claimed record is
/// now held by the new pending appointment and no other record changes.
pub proof fn lemma_claim_preserves(
    appts: Seq<Appointment>,
    av: Seq<Availability>,
    post_appts: Seq<Appointment>,
    post_av: Seq<Availability>,
    j: int,
    a: Appointment,
)
    requires
        booking_consistent(appts, av),
        crate::availability::first_free_slot_at(av, a.doctor_id, a.slot@, j),
        is_pending(a),
        post_av == av.update(j, with_flag(av[j], false)),
        post_appts == appts.push(a),
    ensures
        booking_consistent(post_appts, post_av),
{
    let n = appts.len() as int;
    assert(free_slot_matches(av[j], a.doctor_id, a.slot@));
    assert forall|x: int, y: int|
        #![trigger post_av[x], post_av[y]]
        0 <= x < post_av.len() && 0 <= y < post_av.len() && post_av[x].doctor_id
            == post_av[y].doctor_id && post_av[x].start_time@ == post_av[y].start_time@
        implies x == y by {
        assert(post_av[x].doctor_id == av[x].doctor_id && post_av[x].start_time@
            == av[x].start_time@);
        assert(post_av[y].doctor_id == av[y].doctor_id && post_av[y].start_time@
            == av[y].start_time@);
    }
    assert forall|x: int, y: int|
        #![trigger post_appts[x], post_appts[y]]
        0 <= x < post_appts.len() && 0 <= y < post_appts.len() && is_pending(post_appts[x])
            && is_pending(post_appts[y]) && post_appts[x].doctor_id == post_appts[y].doctor_id
            && post_appts[x].slot@ == post_appts[y].slot@ implies x == y by {
        if x < n && y < n {
            assert(post_appts[x] == appts[x] && post_appts[y] == appts[y]);
        } else if x < n && y == n {
            assert(occupies(appts[x], av[j]));
            assert(pending_occupies(appts, av[j]));
            assert(!av[j].is_available);
        } else if x == n && y < n {
            assert(occupies(appts[y], av[j]));
            assert(pending_occupies(appts, av[j]));
            assert(!av[j].is_available);
        }
    }
    assert forall|m: int|
        0 <= m < post_av.len() implies (!(#[trigger] post_av[m]).is_available <==> pending_occupies(
        post_appts,
        post_av[m],
    )) by {
        if m == j {
            assert(occupies(a, post_av[j]));
            assert(is_pending(post_appts[n]) && occupies(post_appts[n], post_av[j]));
            assert(pending_occupies(post_appts, post_av[j]));
        } else {
            assert(post_av[m] == av[m]);
            if !av[m].is_available {
                let w = choose|i: int|
                    0 <= i < appts.len() && is_pending(#[trigger] appts[i]) && occupies(
                        appts[i],
                        av[m],
                    );
                assert(is_pending(post_appts[w]) && occupies(post_appts[w], post_av[m]));
                assert(pending_occupies(post_appts, post_av[m]));
            }
            if pending_occupies(post_appts, post_av[m]) {
                let w = choose|i: int|
                    0 <= i < post_appts.len() && is_pending(#[trigger] post_appts[i]) && occupies(
                        post_appts[i],
                        post_av[m],
                    );
                if w < n {
                    assert(is_pending(appts[w]) && occupies(appts[w], av[m]));
                    assert(pending_occupies(appts, av[m]));
                } else {
                    assert(occupies(a, av[m]));
                    assert(av[m].doctor_id == av[j].doctor_id && av[m].start_time@
                        == av[j].start_time@);
                }
                assert(!av[m].is_available);
            }
        }
    }
}

/// Releasing the slot of a pending appointment while moving that
/// appointment to a non-pending status preserves the booking invariant.
pub proof fn lemma_release_preserves(
    appts: Seq<Appointment>,
    av: Seq<Availability>,
    post_appts: Seq<Appointment>,
    post_av: Seq<Availability>,
    k: int,
    a: Appointment,
)
    requires
        booking_consistent(appts, av),
        0 <= k < appts.len(),
        is_pending(appts[k]),
        same_except_status(a, appts[k]),
        !is_pending(a),
        post_appts == appts.update(k, a),
        released(av, post_av, appts[k].doctor_id, appts[k].slot@),
    ensures
        booking_consistent(post_appts, post_av),
{
    let prior = appts[k];
    let d = prior.doctor_id;
    let s = prior.slot@;
    let n = appts.len() as int;
    assert forall|x: int, y: int|
        #![trigger post_av[x], post_av[y]]
        0 <= x < post_av.len() && 0 <= y < post_av.len() && post_av[x].doctor_id
            == post_av[y].doctor_id && post_av[x].start_time@ == post_av[y].start_time@
        implies x == y by {
        assert(post_av[x].doctor_id == av[x].doctor_id && post_av[x].start_time@
            == av[x].start_time@);
        assert(post_av[y].doctor_id == av[y].doctor_id && post_av[y].start_time@
            == av[y].start_time@);
    }
    assert forall|x: int, y: int|
        #![trigger post_appts[x], post_appts[y]]
        0 <= x < post_appts.len() && 0 <= y < post_appts.len() && is_pending(post_appts[x])
            && is_pending(post_appts[y]) && post_appts[x].doctor_id == post_appts[y].doctor_id
            && post_appts[x].slot@ == post_appts[y].slot@ implies x == y by {
        assert(x != k && y != k);
        assert(post_appts[x] == appts[x] && post_appts[y] == appts[y]);
    }
    if !has_slot_match(av, d, s) {
        assert(post_av == av);
        assert forall|m: int|
            0 <= m < post_av.len() implies (!(#[trigger] post_av[m]).is_available
            <==> pending_occupies(post_appts, post_av[m])) by {
            if !av[m].is_available {
                let w = choose|i: int|
                    0 <= i < appts.len() && is_pending(#[trigger] appts[i]) && occupies(
                        appts[i],
                        av[m],
                    );
                assert(w != k) by {
                    if w == k {
                        assert(slot_matches(av[m], d, s));
                        assert(has_slot_match(av, d, s));
                    }
                }
                assert(is_pending(post_appts[w]) && occupies(post_appts[w], post_av[m]));
                assert(pending_occupies(post_appts, post_av[m]));
            }
            if pending_occupies(post_appts, post_av[m]) {
                let w = choose|i: int|
                    0 <= i < post_appts.len() && is_pending(#[trigger] post_appts[i]) && occupies(
                        post_appts[i],
                        post_av[m],
                    );
                assert(w != k);
                assert(is_pending(appts[w]) && occupies(appts[w], av[m]));
                assert(pending_occupies(appts, av[m]));
                assert(!av[m].is_available);
            }
        }
    } else {
        let j0 = first_slot_match_idx(av, d, s);
        assert(first_slot_match_at(av, d, s, j0));
        assert(post_av == av.update(j0, with_flag(av[j0], true)));
        assert forall|m: int|
            0 <= m < post_av.len() implies (!(#[trigger] post_av[m]).is_available
            <==> pending_occupies(post_appts, post_av[m])) by {
            if m == j0 {
                assert(post_av[j0].is_available);
                assert(!pending_occupies(post_appts, post_av[j0])) by {
                    if pending_occupies(post_appts, post_av[j0]) {
                        let w = choose|i: int|
                            0 <= i < post_appts.len() && is_pending(#[trigger] post_appts[i])
                                && occupies(post_appts[i], post_av[j0]);
                        assert(w != k);
                        assert(post_appts[w] == appts[w]);
                        assert(post_av[j0].doctor_id == d && post_av[j0].start_time@ == s);
                        assert(appts[w].doctor_id == d && appts[w].slot@ == s);
                        assert(is_pending(appts[w]) && is_pending(appts[k]));
                    }
                }
            } else {
                assert(post_av[m] == av[m]);
                if !av[m].is_available {
                    let w = choose|i: int|
                        0 <= i < appts.len() && is_pending(#[trigger] appts[i]) && occupies(
                            appts[i],
                            av[m],
                        );
                    assert(w != k) by {
                        if w == k {
                            assert(slot_matches(av[m], d, s));
                            assert(slot_matches(av[j0], d, s));
                        }
                    }
                    assert(is_pending(post_appts[w]) && occupies(post_appts[w], post_av[m]));
                    assert(pending_occupies(post_appts, post_av[m]));
                }
                if pending_occupies(post_appts, post_av[m]) {
                    let w = choose|i: int|
                        0 <= i < post_appts.len() && is_pending(#[trigger] post_appts[i])
                            && occupies(post_appts[i], post_av[m]);
                    assert(w != k);
                    assert(is_pending(appts[w]) && occupies(appts[w], av[m]));
                    assert(pending_occupies(appts, av[m]));
                    assert(!av[m].is_available);
                }
            }
        }
    }
}

/// A state with no appointments and no availability records is consistent:
/// the base case from which the preservation results carry the invariant
/// through every run of the booking operations.
pub proof fn lemma_empty_consistent()
    ensures
        booking_consistent(Seq::<Appointment>::empty(), Seq::<Availability>::empty()),
{
}

/// Some pending appointment names this doctor and slot token.
pub open spec fn pending_on(appts: Seq<Appointment>, doctor_id: u64, slot: Seq<char>) -> bool {
    exists|i: int|
        0 <= i < appts.len() && is_pending(#[trigger] appts[i]) && appts[i].doctor_id == doctor_id
            && appts[i].slot@ == slot
}

/// Publishing a fresh, free window for a slot nobody matches or holds
/// preserves the booking invariant.
pub proof fn lemma_publish_preserves(
    appts: Seq<Appointment>,
    av: Seq<Availability>,
    a: Availability,
)
    requires
        booking_consistent(appts, av),
        a.is_available,
        !has_slot_match(av, a.doctor_id, a.start_time@),
        !pending_on(appts, a.doctor_id, a.start_time@),
    ensures
        booking_consistent(appts, av.push(a)),
{
    let post_av = av.push(a);
    let n = av.len() as int;
    assert forall|x: int, y: int|
        #![trigger post_av[x], post_av[y]]
        0 <= x < post_av.len() && 0 <= y < post_av.len() && post_av[x].doctor_id
            == post_av[y].doctor_id && post_av[x].start_time@ == post_av[y].start_time@
        implies x == y by {
        if x < n && y == n {
            assert(slot_matches(av[x], a.doctor_id, a.start_time@));
        } else if x == n && y < n {
            assert(slot_matches(av[y], a.doctor_id, a.start_time@));
        }
    }
    assert forall|m: int|
        0 <= m < post_av.len() implies (!(#[trigger] post_av[m]).is_available <==> pending_occupies(
        appts,
        post_av[m],
    )) by {
        if m < n {
            assert(post_av[m] == av[m]);
        } else {
            assert(post_av[m] == a);
            assert(!pending_occupies(appts, a)) by {
                if pending_occupies(appts, a) {
                    let w = choose|i: int|
                        0 <= i < appts.len() && is_pending(#[trigger] appts[i]) && occupies(
                            appts[i],
                            a,
                        );
                    assert(appts[w].doctor_id == a.doctor_id && appts[w].slot@ == a.start_time@);
                    assert(pending_on(appts, a.doctor_id, a.start_time@));
                }
            }
        }
    }
}

/// After a release — as cancel and complete perform with the appointment's
/// stored doctor and slot — every record matching the released pair is
/// free, provided no two availability records share a doctor and start
/// token.
pub proof fn lemma_released_slot_free(
    pre: Seq<Availability>,
    post: Seq<Availability>,
    doctor_id: u64,
    slot: Seq<char>,
    j: int,
)
    requires
        unique_slots(pre),
        released(pre, post, doctor_id, slot),
        0 <= j < post.len(),
        slot_matches(post[j], doctor_id, slot),
    ensures
        post[j].is_available,
{
    if !has_slot_match(pre, doctor_id, slot) {
        assert(slot_matches(pre[j], doctor_id, slot));
    } else {
        let j0 = first_slot_match_idx(pre, doctor_id, slot);
        assert(first_slot_match_at(pre, doctor_id, slot, j0));
        assert(slot_matches(pre[j], doctor_id, slot)) by {
            if j != j0 {
                assert(post[j] == pre[j]);
            }
        }
        assert(pre[j].doctor_id == pre[j0].doctor_id && pre[j].start_time@ == pre[j0].start_time@);
        assert(j == j0);
    }
}

/// Once a slot is claimed, no free record matching it remains: of any
/// number of bookings racing for one (doctor, slot) pair, the first claim
/// succeeds and every later one finds no free match and is turned away.
pub proof fn lemma_claim_exclusive(av: Seq<Availability>, doctor_id: u64, slot: Seq<char>)
    requires
        unique_slots(av),
        has_free_slot(av, doctor_id, slot),
    ensures
        ({
            let j = first_free_slot_idx(av, doctor_id, slot);
            &&& crate::availability::first_free_slot_at(av, doctor_id, slot, j)
            &&& !has_free_slot(av.update(j, with_flag(av[j], false)), doctor_id, slot)
        }),
{
    let w = choose|i: int|
        0 <= i < av.len() && free_slot_matches(#[trigger] av[i], doctor_id, slot);
    lemma_first_free_exists(av, doctor_id, slot, w);
    let j = first_free_slot_idx(av, doctor_id, slot);
    assert(crate::availability::first_free_slot_at(av, doctor_id, slot, j));
    let post = av.update(j, with_flag(av[j], false));
    assert(!has_free_slot(post, doctor_id, slot)) by {
        if has_free_slot(post, doctor_id, slot) {
            let m = choose|i: int|
                0 <= i < post.len() && free_slot_matches(#[trigger] post[i], doctor_id, slot);
            assert(m != j);
            assert(post[m] == av[m]);
            assert(slot_matches(av[m], doctor_id, slot));
            assert(slot_matches(av[j], doctor_id, slot));
        }
    }
}

/// Below any index with a free match there is a first free match.
proof fn lemma_first_free_exists(av: Seq<Availability>, doctor_id: u64, slot: Seq<char>, w: int)
    requires
        0 <= w < av.len(),
        free_slot_matches(av[w], doctor_id, slot),
    ensures
        ({
            let j = first_free_slot_idx(av, doctor_id, slot);
            crate::availability::first_free_slot_at(av, doctor_id, slot, j)
        }),
    decreases w,
{
    if forall|m: int| 0 <= m < w ==> !free_slot_matches(#[trigger] av[m], doctor_id, slot) {
        assert(crate::availability::first_free_slot_at(av, doctor_id, slot, w));
    } else {
        let w2 = choose|m: int|
            0 <= m < w && free_slot_matches(#[trigger] av[m], doctor_id, slot);
        lemma_first_free_exists(av, doctor_id, slot, w2);
    }
}

/// Releasing a slot twice is the same as releasing it once: the second
/// release finds the record already free and rewrites it unchanged.
pub proof fn lemma_release_idempotent(
    av: Seq<Availability>,
    mid: Seq<Availability>,
    post: Seq<Availability>,
    doctor_id: u64,
    slot: Seq<char>,
)
    requires
        released(av, mid, doctor_id, slot),
        released(mid, post, doctor_id, slot),
    ensures
        post == mid,
{
    if has_slot_match(av, doctor_id, slot) {
        let j = first_slot_match_idx(av, doctor_id, slot);
        assert(first_slot_match_at(av, doctor_id, slot, j));
        assert(mid == av.update(j, with_flag(av[j], true)));
        assert(first_slot_match_at(mid, doctor_id, slot, j)) by {
            assert(slot_matches(mid[j], doctor_id, slot));
            assert forall|m: int| 0 <= m < j implies !slot_matches(
                #[trigger] mid[m],
                doctor_id,
                slot,
            ) by {
                assert(mid[m] == av[m]);
            }
        }
        assert(has_slot_match(mid, doctor_id, slot));
        crate::availability::lemma_first_slot_match_unique(
            mid,
            doctor_id,
            slot,
            first_slot_match_idx(mid, doctor_id, slot),
            j,
        );
        assert(mid[j].is_available);
        assert(with_flag(mid[j], true) == mid[j]);
        assert(mid.update(j, mid[j]) =~= mid);
    } else {
        assert(mid == av);
        assert(!has_slot_match(mid, doctor_id, slot));
    }
}

/// A freshly stored record is exactly what a later lookup by its key
/// returns: reading back a created appointment gives the created record.
pub proof fn lemma_created_then_found(
    pre: Seq<Appointment>,
    post: Seq<Appointment>,
    a: Appointment,
)
    requires
        crate::storage::ids_sorted(pre),
        crate::storage::ids_below(pre, a.key()),
        post == pre.push(a),
    ensures
        has_key(post, a.key()),
        record_at(post, a.key()) == a,
{
    let n = pre.len() as int;
    assert(post[n] == a);
    assert(crate::storage::ids_sorted(post)) by {
        assert forall|x: int, y: int|
            #![trigger post[x].key(), post[y].key()]
            0 <= x < y < post.len() implies post[x].key() < post[y].key() by {
            if y < n {
                assert(pre[x].key() < pre[y].key());
            } else {
                assert(pre[x].key() < a.key());
            }
        }
    }
    crate::storage::lemma_key_index(post, a.key(), n);
}

/// Look an appointment up, reporting absence as `NotFound`.
pub fn get_appointment(state: &Clinic, appointment_id: u64) -> (r: Result<Appointment, Error>)
    requires
        state.wf(),
    ensures
        (match r {
            Ok(a) => has_key(state.appointments@, appointment_id) && a == record_at(
                state.appointments@,
                appointment_id,
            ),
            Err(e) => !has_key(state.appointments@, appointment_id) && (e matches Error::NotFound {
                msg,
            } && msg@ == "appointment not found"@),
        }),
{
    match get_appointment_by_id(state, &appointment_id) {
        Option::Some(appointment) => Result::Ok(appointment),
        Option::None => Result::Err(Error::NotFound { msg: "appointment not found".to_owned() }),
    }
}

/// Book an appointment.  The phone number must be filled, doctor and
/// patient must exist, and the doctor must have a free availability record
/// whose start token equals `slot`; the first such record (in store order)
/// is claimed.  Whatever status the caller supplies, the stored appointment
/// starts out pending.
#[verifier::loop_isolation(false)]
pub fn add_appointment(
    state: &mut Clinic,
    patient_id: u64,
    doctor_id: u64,
    phone_no: String,
    slot: String,
    reason: String,
    symtoms: String,
    status: String,
    appointment_type: String,
) -> (r: Result<Appointment, Error>)
    requires
        old(state).wf(),
        old(state).next_id < u64::MAX,
    ensures
        final(state).wf(),
        booking_consistent(old(state).appointments@, old(state).availabilities@)
            ==> booking_consistent(final(state).appointments@, final(state).availabilities@),
        ({
            let pre = *old(state);
            if phone_no@.len() == 0 {
                *final(state) == pre && (r matches Err(Error::InvalidInput { msg })
                    && msg@ == "phone_no cannot be empty"@)
            } else if !has_key(pre.doctors@, doctor_id) {
                *final(state) == pre && (r matches Err(Error::NotFound { msg })
                    && msg@ == "doctor not found"@)
            } else if !has_key(pre.patients@, patient_id) {
                *final(state) == pre && (r matches Err(Error::NotFound { msg })
                    && msg@ == "patient not found"@)
            } else if !has_free_slot(pre.availabilities@, doctor_id, slot@) {
                *final(state) == pre && (r matches Err(Error::InvalidInput { msg })
                    && msg@ == "Selected slot is not available"@)
            } else {
                let j = first_free_slot_idx(pre.availabilities@, doctor_id, slot@);
                &&& crate::availability::first_free_slot_at(pre.availabilities@, doctor_id, slot@, j)
                &&& final(state).availabilities@ == pre.availabilities@.update(
                    j,
                    with_flag(pre.availabilities@[j], false),
                )
                &&& (r matches Ok(a) && {
                    &&& a.id == pre.next_id
                    &&& a.patient_id == patient_id
                    &&& a.doctor_id == doctor_id
                    &&& a.phone_no == phone_no
                    &&& a.slot == slot
                    &&& a.reason == reason
                    &&& a.symtoms == symtoms
                    &&& is_pending(a)
                    &&& a.appointment_type == appointment_type
                    &&& final(state).appointments@ == pre.appointments@.push(a)
                })
                &&& final(state).next_id == pre.next_id + 1
                &&& final(state).patients == pre.patients
                &&& final(state).doctors == pre.doctors
                &&& final(state).messages == pre.messages
                &&& final(state).medical_records == pre.medical_records
                &&& final(state).reports == pre.reports
                &&& final(state).identities == pre.identities
                &&& final(state).docidentities == pre.docidentities
                &&& final(state).calendlies == pre.calendlies
                &&& final(state).datas == pre.datas
            }
        }),
{
    if phone_no.as_str().is_empty() {
        return Result::Err(Error::InvalidInput { msg: "phone_no cannot be empty".to_owned() });
    }
    if store_get(&state.doctors, doctor_id).is_none() {
        return Result::Err(Error::NotFound { msg: "doctor not found".to_owned() });
    }
    if store_get(&state.patients, patient_id).is_none() {
        return Result::Err(Error::NotFound { msg: "patient not found".to_owned() });
    }
    let n = state.availabilities.len();
    let mut i: usize = 0;
    while i < n
        invariant
            i <= n,
            n == state.availabilities@.len(),
            *state == *old(state),
            forall|m: int| 0 <= m < i ==> !free_slot_matches(
                #[trigger] state.availabilities@[m],
                doctor_id,
                slot@,
            ),
        decreases n - i,
    {
        if state.availabilities[i].doctor_id == doctor_id && state.availabilities[i].is_available
            && state.availabilities[i].start_time == slot {
            let ghost pre_av = state.availabilities@;
            let a = &state.availabilities[i];
            let claimed = Availability {
                id: a.id,
                doctor_id: a.doctor_id,
                day_of_week: a.day_of_week,
                start_time: a.start_time.clone(),
                end_time: a.end_time.clone(),
                is_available: false,
            };
            proof {
                assert(free_slot_matches(pre_av[i as int], doctor_id, slot@));
                assert(crate::availability::first_free_slot_at(pre_av, doctor_id, slot@, i as int));
                crate::availability::lemma_first_free_slot_unique(
                    pre_av,
                    doctor_id,
                    slot@,
                    first_free_slot_idx(pre_av, doctor_id, slot@),
                    i as int,
                );
                assert(claimed == with_flag(pre_av[i as int], false));
                crate::storage::lemma_key_index(pre_av, claimed.key(), i as int);
            }
            store_insert(&mut state.availabilities, claimed);
            proof {
                assert forall|m: int|
                    0 <= m < state.availabilities@.len()
                    implies #[trigger] state.availabilities@[m].key() < state.next_id by {
                    assert(pre_av[m].key() < state.next_id);
                    if m != i as int {
                        assert(state.availabilities@[m] == pre_av[m]);
                    }
                }
            }
            let id = generate_id(state);
            let appointment = Appointment {
                id,
                patient_id,
                doctor_id,
                phone_no,
                slot,
                reason,
                symtoms,
                status: "pending".to_owned(),
                appointment_type,
            };
            let stored = appointment.clone();
            store_insert(&mut state.appointments, stored);
            proof {
                let pre = *old(state);
                if booking_consistent(pre.appointments@, pre.availabilities@) {
                    lemma_claim_preserves(
                        pre.appointments@,
                        pre.availabilities@,
                        final(state).appointments@,
                        final(state).availabilities@,
                        i as int,
                        appointment,
                    );
                }
            }
            return Result::Ok(appointment);
        }
        i = i + 1;
    }
    proof {
        assert(!has_free_slot(state.availabilities@, doctor_id, slot@));
    }
    Result::Err(Error::InvalidInput { msg: "Selected slot is not available".to_owned() })
}

/// Replace a stored appointment wholesale.  Writing a cancelled or
/// confirmed status releases the slot named by the *new* doctor and slot
/// fields before the record is persisted; callers that change doctor or
/// slot in the same call therefore release the record those new fields
/// name, not the one the appointment held.
pub fn update_appointment(
    state: &mut Clinic,
    appointment_id: u64,
    patient_id: u64,
    doctor_id: u64,
    phone_no: String,
    slot: String,
    reason: String,
    symtoms: String,
    status: String,
    appointment_type: String,
) -> (r: Result<Appointment, Error>)
    requires
        old(state).wf(),
    ensures
        final(state).wf(),
        final(state).next_id == old(state).next_id,
        final(state).patients == old(state).patients,
        final(state).doctors == old(state).doctors,
        final(state).messages == old(state).messages,
        final(state).medical_records == old(state).medical_records,
        final(state).reports == old(state).reports,
        final(state).identities == old(state).identities,
        final(state).docidentities == old(state).docidentities,
        final(state).calendlies == old(state).calendlies,
        final(state).datas == old(state).datas,
        ({
            let pre = *old(state);
            if phone_no@.len() == 0 {
                &&& final(state).appointments@ == pre.appointments@
                &&& final(state).availabilities@ == pre.availabilities@
                &&& (r matches Err(Error::InvalidInput { msg })
                    && msg@ == "Phone number cannot be empty"@)
            } else if !has_key(pre.appointments@, appointment_id) {
                &&& final(state).appointments@ == pre.appointments@
                &&& final(state).availabilities@ == pre.availabilities@
                &&& (r matches Err(Error::NotFound { msg }) && msg@ == "appointment not found"@)
            } else {
                &&& (if is_released_status(status@) {
                    released(pre.availabilities@, final(state).availabilities@, doctor_id, slot@)
                } else {
                    final(state).availabilities@ == pre.availabilities@
                })
                &&& (r matches Ok(a) && {
                    &&& a.id == appointment_id
                    &&& a.patient_id == patient_id
                    &&& a.doctor_id == doctor_id
                    &&& a.phone_no == phone_no
                    &&& a.slot == slot
                    &&& a.reason == reason
                    &&& a.symtoms == symtoms
                    &&& a.status == status
                    &&& a.appointment_type == appointment_type
                    &&& final(state).appointments@ == pre.appointments@.update(
                        key_index(pre.appointments@, appointment_id),
                        a,
                    )
                })
            }
        }),
{
    if phone_no.as_str().is_empty() {
        return Result::Err(Error::InvalidInput { msg: "Phone number cannot be empty".to_owned() });
    }
    if store_get(&state.appointments, appointment_id).is_none() {
        return Result::Err(Error::NotFound { msg: "appointment not found".to_owned() });
    }
    let cancelled = "cancelled".to_owned();
    let confirmed = "confirmed".to_owned();
    if status == cancelled || status == confirmed {
        update_availability_status(state, doctor_id, &slot, true);
    }
    let updated_appointment = Appointment {
        id: appointment_id,
        patient_id,
        doctor_id,
        phone_no,
        slot,
        reason,
        symtoms,
        status,
        appointment_type,
    };
    let stored = updated_appointment.clone();
    store_insert(&mut state.appointments, stored);
    proof {
        lemma_appointments_update_wf(*old(state), *final(state), appointment_id);
    }
    Result::Ok(updated_appointment)
}

/// The appointment store keeps its bounds when one record is replaced
/// under an existing key.
proof fn lemma_appointments_update_wf(pre: Clinic, post: Clinic, appointment_id: u64)
    requires
        crate::storage::ids_below(pre.appointments@, pre.next_id),
        has_key(pre.appointments@, appointment_id),
        post.next_id == pre.next_id,
        post.appointments@ == pre.appointments@.update(
            key_index(pre.appointments@, appointment_id),
            record_at(post.appointments@, appointment_id),
        ),
        record_at(post.appointments@, appointment_id).key() == appointment_id,
    ensures
        crate::storage::ids_below(post.appointments@, post.next_id),
{
    let k = key_index(pre.appointments@, appointment_id);
    assert forall|m: int|
        0 <= m < post.appointments@.len()
        implies #[trigger] post.appointments@[m].key() < post.next_id by {
        assert(pre.appointments@[m].key() < pre.next_id);
        if m != k {
            assert(post.appointments@[m] == pre.appointments@[m]);
        } else {
            assert(pre.appointments@[k].key() == appointment_id);
        }
    }
}

/// Cancel a stored appointment: its status becomes `"cancelled"` and the
/// slot named by its *stored* doctor and slot fields is released.
pub fn cancel_appointment(state: &mut Clinic, appointment_id: u64) -> (r: Result<Appointment, Error>)
    requires
        old(state).wf(),
    ensures
        final(state).wf(),
        cancel_complete_shape(*old(state), *final(state), r, appointment_id, "cancelled"@),
        (r matches Err(e) && e matches Error::NotFound { msg } && msg@ == "appointment not found"@)
            == !has_key(old(state).appointments@, appointment_id),
        (booking_consistent(old(state).appointments@, old(state).availabilities@) && (has_key(
            old(state).appointments@,
            appointment_id,
        ) ==> is_pending(record_at(old(state).appointments@, appointment_id)))) ==> booking_consistent(
            final(state).appointments@,
            final(state).availabilities@,
        ),
{
    let current_appointment = match get_appointment_by_id(state, &appointment_id) {
        Option::Some(c) => c,
        Option::None => {
            return Result::Err(Error::NotFound { msg: "appointment not found".to_owned() });
        },
    };
    let mut updated_appointment = current_appointment.clone();
    updated_appointment.status = "cancelled".to_owned();
    update_availability_status(state, current_appointment.doctor_id, &current_appointment.slot, true);
    let stored = updated_appointment.clone();
    store_insert(&mut state.appointments, stored);
    proof {
        lemma_appointments_update_wf(*old(state), *final(state), appointment_id);
        let pre = *old(state);
        if booking_consistent(pre.appointments@, pre.availabilities@) && is_pending(
            record_at(pre.appointments@, appointment_id),
        ) {
            assert(!is_pending(updated_appointment)) by {
                reveal_strlit("cancelled");
                reveal_strlit("pending");
                assert("cancelled"@.len() == 9);
                assert("pending"@.len() == 7);
            }
            lemma_release_preserves(
                pre.appointments@,
                pre.availabilities@,
                final(state).appointments@,
                final(state).availabilities@,
                key_index(pre.appointments@, appointment_id),
                updated_appointment,
            );
        }
    }
    Result::Ok(updated_appointment)
}

/// Complete a stored appointment: its status becomes `"confirmed"` and the
/// slot named by its *stored* doctor and slot fields is released.
pub fn complete_appointment(state: &mut Clinic, appointment_id: u64) -> (r: Result<
    Appointment,
    Error,
>)
    requires
        old(state).wf(),
    ensures
        final(state).wf(),
        cancel_complete_shape(*old(state), *final(state), r, appointment_id, "confirmed"@),
        (r matches Err(e) && e matches Error::NotFound { msg } && msg@ == "appointment not found"@)
            == !has_key(old(state).appointments@, appointment_id),
        (booking_consistent(old(state).appointments@, old(state).availabilities@) && (has_key(
            old(state).appointments@,
            appointment_id,
        ) ==> is_pending(record_at(old(state).appointments@, appointment_id)))) ==> booking_consistent(
            final(state).appointments@,
            final(state).availabilities@,
        ),
{
    let current_appointment = match get_appointment_by_id(state, &appointment_id) {
        Option::Some(c) => c,
        Option::None => {
            return Result::Err(Error::NotFound { msg: "appointment not found".to_owned() });
        },
    };
    let mut updated_appointment = current_appointment.clone();
    updated_appointment.status = "confirmed".to_owned();
    update_availability_status(state, current_appointment.doctor_id, &current_appointment.slot, true);
    let stored = updated_appointment.clone();
    store_insert(&mut state.appointments, stored);
    proof {
        lemma_appointments_update_wf(*old(state), *final(state), appointment_id);
        let pre = *old(state);
        if booking_consistent(pre.appointments@, pre.availabilities@) && is_pending(
            record_at(pre.appointments@, appointment_id),
        ) {
            assert(!is_pending(updated_appointment)) by {
                reveal_strlit("confirmed");
                reveal_strlit("pending");
                assert("confirmed"@.len() == 9);
                assert("pending"@.len() == 7);
            }
            lemma_release_preserves(
                pre.appointments@,
                pre.availabilities@,
                final(state).appointments@,
                final(state).availabilities@,
                key_index(pre.appointments@, appointment_id),
                updated_appointment,
            );
        }
    }
    Result::Ok(updated_appointment)
}

/// The common effect of cancel and complete: the target appointment gets
/// `new_status` and the slot named by its stored fields is released; every
/// other part of the state stays as it was.
pub open spec fn cancel_complete_shape(
    pre: Clinic,
    post: Clinic,
    r: Result<Appointment, Error>,
    appointment_id: u64,
    new_status: Seq<char>,
) -> bool {
    &&& post.next_id == pre.next_id
    &&& post.patients == pre.patients
    &&& post.doctors == pre.doctors
    &&& post.messages == pre.messages
    &&& post.medical_records == pre.medical_records
    &&& post.reports == pre.reports
    &&& post.identities == pre.identities
    &&& post.docidentities == pre.docidentities
    &&& post.calendlies == pre.calendlies
    &&& post.datas == pre.datas
    &&& if !has_key(pre.appointments@, appointment_id) {
        &&& post.appointments@ == pre.appointments@
        &&& post.availabilities@ == pre.availabilities@
        &&& r is Err
    } else {
        ({
            let prior = record_at(pre.appointments@, appointment_id);
            &&& (r matches Ok(a) && {
                &&& same_except_status(a, prior)
                &&& a.status@ == new_status
                &&& post.appointments@ == pre.appointments@.update(
                    key_index(pre.appointments@, appointment_id),
                    a,
                )
            })
            &&& released(pre.availabilities@, post.availabilities@, prior.doctor_id, prior.slot@)
        })
    }
}

/// Remove an appointment record.  The slot it may still hold is *not*
/// released: a deliberate scope limit of the service's contract.
pub fn delete_appointment(state: &mut Clinic, appointment_id: u64) -> (r: Result<(), Error>)
    requires
        old(state).wf(),
    ensures
        final(state).wf(),
        final(state).next_id == old(state).next_id,
        final(state).patients == old(state).patients,
        final(state).doctors == old(state).doctors,
        final(state).messages == old(state).messages,
        final(state).medical_records == old(state).medical_records,
        final(state).reports == old(state).reports,
        final(state).identities == old(state).identities,
        final(state).docidentities == old(state).docidentities,
        final(state).calendlies == old(state).calendlies,
        final(state).availabilities == old(state).availabilities,
        final(state).datas == old(state).datas,
        (if has_key(old(state).appointments@, appointment_id) {
            r is Ok && final(state).appointments@ == old(state).appointments@.remove(
                key_index(old(state).appointments@, appointment_id),
            )
        } else {
            final(state).appointments@ == old(state).appointments@ && (r matches Err(
                Error::NotFound { msg },
            ) && msg@ == "appointment not found"@)
        }),
{
    match store_remove(&mut state.appointments, appointment_id) {
        Option::Some(_) => Result::Ok(()),
        Option::None => Result::Err(Error::NotFound { msg: "appointment not found".to_owned() }),
    }
}

/// All appointment records in ascending identifier order.
pub fn list_appointments(state: &Clinic) -> (r: Vec<Appointment>)
    ensures
        r@ == state.appointments@,
{
    let r = state.appointments.clone();
    proof {
        assert forall|i: int| 0 <= i < r@.len() implies r@[i] == state.appointments@[i] by {}
        assert(r@ =~= state.appointments@);
    }
    r
}

/// One doctor's appointments, in store order.
#[verifier::loop_isolation(false)]
pub fn filter_appointments_by_doctor_id(state: &Clinic, doctor_id: u64) -> (r: Vec<Appointment>)
    ensures
        r@ == doctor_appointments_of(state.appointments@, doctor_id),
{
    let mut r: Vec<Appointment> = Vec::new();
    let n = state.appointments.len();
    let mut i: usize = 0;
    proof {
        assert(state.appointments@.take(0) =~= Seq::<Appointment>::empty());
        reveal(Seq::filter);
    }
    while i < n
        invariant
            i <= n,
            n == state.appointments@.len(),
            r@ == doctor_appointments_of(state.appointments@.take(i as int), doctor_id),
        decreases n - i,
    {
        let a = &state.appointments[i];
        if a.doctor_id == doctor_id {
            r.push(a.clone());
        }
        i = i + 1;
        proof {
            reveal(Seq::filter);
            let s = state.appointments@;
            assert(s.take(i as int).drop_last() =~= s.take(i as int - 1));
            assert(s.take(i as int).last() == s[i as int - 1]);
        }
    }
    proof {
        assert(state.appointments@.take(n as int) =~= state.appointments@);
    }
    r
}

/// One patient's appointments, in store order.
#[verifier::loop_isolation(false)]
pub fn filter_appointments_by_patient_id(state: &Clinic, patient_id: u64) -> (r: Vec<Appointment>)
    ensures
        r@ == patient_appointments_of(state.appointments@, patient_id),
{
    let mut r: Vec<Appointment> = Vec::new();
    let n = state.appointments.len();
    let mut i: usize = 0;
    proof {
        assert(state.appointments@.take(0) =~= Seq::<Appointment>::empty());
        reveal(Seq::filter);
    }
    while i < n
        invariant
            i <= n,
            n == state.appointments@.len(),
            r@ == patient_appointments_of(state.appointments@.take(i as int), patient_id),
        decreases n - i,
    {
        let a = &state.appointments[i];
        if a.patient_id == patient_id {
            r.push(a.clone());
        }
        i = i + 1;
        proof {
            reveal(Seq::filter);
            let s = state.appointments@;
            assert(s.take(i as int).drop_last() =~= s.take(i as int - 1));
            assert(s.take(i as int).last() == s[i as int - 1]);
        }
    }
    proof {
        assert(state.appointments@.take(n as int) =~= state.appointments@);
    }
    r
}

/// The stored appointment under this identifier, if any.
pub fn get_appointment_by_id(state: &Clinic, appointment_id: &u64) -> (r: Option<Appointment>)
    requires
        state.wf(),
    ensures
        (match r {
            Option::Some(a) => has_key(state.appointments@, *appointment_id) && a == record_at(
                state.appointments@,
                *appointment_id,
            ),
            Option::None => !has_key(state.appointments@, *appointment_id),
        }),
{
    match store_get(&state.appointments, *appointment_id) {
        Option::Some(a) => Option::Some(a.clone()),
        Option::None => Option::None,
    }
}

} // verus!
