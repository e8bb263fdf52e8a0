//! The Attendee entity and its repository: create one row, list all rows
//! of one event.
use vstd::prelude::*;

use crate::errors::AppError;
use crate::ids::{encode_id, id_of_text, id_text_of, lemma_text_injective, lemma_text_round_trip,
    parse_id};
use crate::store::{AttendeeRow, AttendeeRowView, Store};

verus! {

/// A person associated with exactly one event, by RSVP or at the event's
/// creation.
pub struct Attendee {
    pub id: u128,
    pub event_id: u128,
    pub first_name: String,
    pub last_name: String,
}

pub ghost struct AttendeeView {
    pub id: u128,
    pub event_id: u128,
    pub first_name: Seq<char>,
    pub last_name: Seq<char>,
}

impl View for Attendee {
    type V = AttendeeView;

    open spec fn view(&self) -> AttendeeView {
        AttendeeView {
            id: self.id,
            event_id: self.event_id,
            first_name: self.first_name@,
            last_name: self.last_name@,
        }
    }
}

/// The row an attendee is stored as: both identifiers in text form, the
/// names unchanged.
pub open spec fn attendee_row_view_of(a: AttendeeView) -> AttendeeRowView {
    AttendeeRowView {
        id: id_text_of(a.id),
        event_id: id_text_of(a.event_id),
        first_name: a.first_name,
        last_name: a.last_name,
    }
}

/// Whether some row of the attendee table already carries the text form
/// of identifier `id`.
pub open spec fn attendee_id_taken(rows: Seq<AttendeeRowView>, id: u128) -> bool {
    exists|i: int| 0 <= i < rows.len() && rows[i].id == id_text_of(id)
}

/// The outcome of listing, from position `k` on, every row whose
/// `event_id` text matches, each parsed back into an attendee; the first
/// row whose stored identifier fails to parse aborts the read.
pub open spec fn spec_list_from(rows: Seq<AttendeeRowView>, eid: u128, k: int) -> Result<
    Seq<AttendeeView>,
    AppError,
>
    decreases rows.len() - k,
{
    if k < 0 || k >= rows.len() {
        Ok(Seq::empty())
    } else if rows[k].event_id == id_text_of(eid) {
        match (id_of_text(rows[k].id), id_of_text(rows[k].event_id)) {
            (Some(v), Some(ev)) => match spec_list_from(rows, eid, k + 1) {
                Ok(tail) => Ok(
                    seq![
                        AttendeeView {
                            id: v,
                            event_id: ev,
                            first_name: rows[k].first_name,
                            last_name: rows[k].last_name,
                        },
                    ] + tail,
                ),
                Err(er) => Err(er),
            },
            _ => Err(AppError::CorruptIdentifier),
        }
    } else {
        spec_list_from(rows, eid, k + 1)
    }
}

/// The outcome of listing the attendees of event `eid` over the whole
/// attendee table, in row order.
pub open spec fn spec_list_attendees(rows: Seq<AttendeeRowView>, eid: u128) -> Result<
    Seq<AttendeeView>,
    AppError,
> {
    spec_list_from(rows, eid, 0)
}

/// Inserts one attendee row keyed by `attendee.id`. Fails with a storage
/// error exactly where the key is already taken, and then leaves the
/// store unchanged. Whether `attendee.event_id` denotes an existing event
/// is not checked here: the handlers enforce that ordering.
pub fn create_attendee(store: &mut Store, attendee: &Attendee) -> (r: Result<(), AppError>)
    ensures
        r is Ok <==> !attendee_id_taken(old(store)@.attendees, attendee.id),
        r is Ok ==> final(store)@.attendees == old(store)@.attendees.push(
            attendee_row_view_of(attendee@),
        ),
        r is Ok ==> final(store)@.events == old(store)@.events,
        r is Err ==> *final(store) == *old(store) && r == Err::<(), AppError>(AppError::Storage),
{
    let key = encode_id(attendee.id);
    let n = store.attendees.len();
    let mut i: usize = 0;
    while i < n
        invariant
            n == store.attendees.len(),
            key@ == id_text_of(attendee.id),
            *store == *old(store),
            forall|t: int| 0 <= t < i ==> old(store)@.attendees[t].id != id_text_of(attendee.id),
        decreases n - i,
    {
        if store.attendees[i].id == key {
            proof {
                assert(old(store)@.attendees[i as int].id == id_text_of(attendee.id));
            }
            return Err(AppError::Storage);
        }
        i = i + 1;
    }
    let row = AttendeeRow {
        id: key,
        event_id: encode_id(attendee.event_id),
        first_name: attendee.first_name.clone(),
        last_name: attendee.last_name.clone(),
    };
    proof {
        assert(row@ == attendee_row_view_of(attendee@));
    }
    store.attendees.push(row);
    proof {
        assert(store@.attendees =~= old(store)@.attendees.push(attendee_row_view_of(attendee@)));
        assert(store@.events =~= old(store)@.events);
    }
    Ok(())
}

/// Lists every attendee of event `event_id`, in row order; an event with
/// no attendees yields the empty list, not an error. A stored identifier
/// that no longer parses aborts the read with `CorruptIdentifier`.
pub fn get_attendees_by_event_id(store: &Store, event_id: u128) -> (r: Result<
    Vec<Attendee>,
    AppError,
>)
    ensures
        (r matches Ok(l) ==> spec_list_attendees(store@.attendees, event_id) == Ok::<
            Seq<AttendeeView>,
            AppError,
        >(l@.map_values(|a: Attendee| a@))),
        (r matches Err(er) ==> spec_list_attendees(store@.attendees, event_id) == Err::<
            Seq<AttendeeView>,
            AppError,
        >(er)),
{
    let key = encode_id(event_id);
    let n = store.attendees.len();
    let ghost rows = store@.attendees;
    let mut out: Vec<Attendee> = Vec::new();
    let mut i: usize = 0;
    proof {
        assert(out@.map_values(|a: Attendee| a@) =~= Seq::<AttendeeView>::empty());
    }
    while i < n
        invariant
            n == store.attendees.len(),
            rows == store@.attendees,
            key@ == id_text_of(event_id),
            0 <= i <= n,
            (spec_list_from(rows, event_id, i as int) matches Ok(tail) ==> spec_list_from(
                rows,
                event_id,
                0,
            ) == Ok::<Seq<AttendeeView>, AppError>(out@.map_values(|a: Attendee| a@) + tail)),
            (spec_list_from(rows, event_id, i as int) matches Err(er) ==> spec_list_from(
                rows,
                event_id,
                0,
            ) == Err::<Seq<AttendeeView>, AppError>(er)),
        decreases n - i,
    {
        let ghost prefix = out@.map_values(|a: Attendee| a@);
        if store.attendees[i].event_id == key {
            let row = &store.attendees[i];
            match parse_id(row.id.as_str()) {
                Some(v) => {
                    proof {
                        lemma_text_round_trip(event_id);
                        assert(id_of_text(rows[i as int].event_id) == Some(event_id));
                    }
                    let a = Attendee {
                        id: v,
                        event_id,
                        first_name: row.first_name.clone(),
                        last_name: row.last_name.clone(),
                    };
                    out.push(a);
                    proof {
                        assert(out@.map_values(|x: Attendee| x@) =~= prefix + seq![a@]);
                        match spec_list_from(rows, event_id, i + 1) {
                            Ok(tail) => {
                                assert(spec_list_from(rows, event_id, i as int) == Ok::<
                                    Seq<AttendeeView>,
                                    AppError,
                                >(seq![a@] + tail));
                                assert((prefix + seq![a@]) + tail =~= prefix + (seq![a@] + tail));
                            },
                            Err(_) => {},
                        }
                    }
                },
                None => {
                    proof {
                        assert(spec_list_from(rows, event_id, i as int) == Err::<
                            Seq<AttendeeView>,
                            AppError,
                        >(AppError::CorruptIdentifier));
                    }
                    return Err(AppError::CorruptIdentifier);
                },
            }
        }
        i = i + 1;
    }
    proof {
        assert(spec_list_from(rows, event_id, n as int) == Ok::<Seq<AttendeeView>, AppError>(
            Seq::empty(),
        ));
        assert(out@.map_values(|a: Attendee| a@) + Seq::<AttendeeView>::empty() =~= out@.map_values(
            |a: Attendee| a@,
        ));
    }
    Ok(out)
}

/// The attendee table after a sequence of successful creates: each
/// attendee's row appended in turn.
pub open spec fn rows_after_creates(
    rows: Seq<AttendeeRowView>,
    hist: Seq<AttendeeView>,
) -> Seq<AttendeeRowView>
    decreases hist.len(),
{
    if hist.len() == 0 {
        rows
    } else {
        rows_after_creates(rows.push(attendee_row_view_of(hist[0])), hist.drop_first())
    }
}

/// The members of a creation history that belong to event `eid`, in
/// creation order.
pub open spec fn history_for_event(hist: Seq<AttendeeView>, eid: u128) -> Seq<AttendeeView>
    decreases hist.len(),
{
    if hist.len() == 0 {
        Seq::empty()
    } else if hist[0].event_id == eid {
        seq![hist[0]] + history_for_event(hist.drop_first(), eid)
    } else {
        history_for_event(hist.drop_first(), eid)
    }
}

/// The referential listing law over an arbitrary history: from a table
/// whose listing for `eid` is `Ok(l)`, creating any sequence of attendees
/// leaves the listing for `eid` at `Ok` of `l` extended by exactly the
/// history's members for `eid`, in creation order — every attendee
/// created for the event appears exactly once, and no attendee of any
/// other event appears.
pub proof fn lemma_list_over_history(
    rows: Seq<AttendeeRowView>,
    hist: Seq<AttendeeView>,
    eid: u128,
    l: Seq<AttendeeView>,
)
    requires
        spec_list_attendees(rows, eid) == Ok::<Seq<AttendeeView>, AppError>(l),
    ensures
        spec_list_attendees(rows_after_creates(rows, hist), eid) == Ok::<
            Seq<AttendeeView>,
            AppError,
        >(l + history_for_event(hist, eid)),
    decreases hist.len(),
{
    if hist.len() == 0 {
        assert(l + history_for_event(hist, eid) =~= l);
    } else {
        let a = hist[0];
        let rows2 = rows.push(attendee_row_view_of(a));
        if a.event_id == eid {
            lemma_list_after_create_matching(rows, a, l);
            lemma_list_over_history(rows2, hist.drop_first(), eid, l.push(a));
            assert(l.push(a) + history_for_event(hist.drop_first(), eid) =~= l + (seq![a]
                + history_for_event(hist.drop_first(), eid)));
        } else {
            lemma_list_after_create_other(rows, a, eid);
            lemma_list_over_history(rows2, hist.drop_first(), eid, l);
        }
    }
}

/// A listing never returns attendees of other events: every attendee of a
/// successful listing for `eid` carries `event_id == eid`.
pub proof fn lemma_list_members(rows: Seq<AttendeeRowView>, eid: u128)
    ensures
        (spec_list_attendees(rows, eid) matches Ok(l) ==> forall|t: int|
            0 <= t < l.len() ==> (#[trigger] l[t]).event_id == eid),
{
    lemma_list_members_from(rows, eid, 0);
}

proof fn lemma_list_members_from(rows: Seq<AttendeeRowView>, eid: u128, k: int)
    ensures
        (spec_list_from(rows, eid, k) matches Ok(l) ==> forall|t: int|
            0 <= t < l.len() ==> (#[trigger] l[t]).event_id == eid),
    decreases rows.len() - k,
{
    if 0 <= k < rows.len() {
        lemma_list_members_from(rows, eid, k + 1);
        if rows[k].event_id == id_text_of(eid) {
            lemma_text_round_trip(eid);
            match spec_list_from(rows, eid, k) {
                Ok(l) => {
                    match spec_list_from(rows, eid, k + 1) {
                        Ok(tail) => {
                            assert(l[0].event_id == eid);
                            assert(forall|t: int| 1 <= t < l.len() ==> l[t] == tail[t - 1]);
                        },
                        Err(_) => {},
                    }
                },
                Err(_) => {},
            }
        }
    }
}

/// All attendee rows carry pairwise distinct identifier texts.
pub open spec fn unique_attendee_ids(rows: Seq<AttendeeRowView>) -> bool {
    forall|i: int, j: int| 0 <= i < j < rows.len() ==> rows[i].id != rows[j].id
}

/// The uniqueness law for attendees: a successful create keeps the
/// table's keys pairwise distinct.
pub proof fn lemma_attendee_create_preserves_unique(rows: Seq<AttendeeRowView>, a: AttendeeView)
    requires
        unique_attendee_ids(rows),
        !attendee_id_taken(rows, a.id),
    ensures
        unique_attendee_ids(rows.push(attendee_row_view_of(a))),
{
    let rows2 = rows.push(attendee_row_view_of(a));
    assert forall|i: int, j: int| 0 <= i < j < rows2.len() implies rows2[i].id != rows2[j].id by {
        if j == rows.len() {
            assert(rows2[i] == rows[i]);
            assert(!(rows[i].id == id_text_of(a.id)));
        } else {
            assert(rows2[i] == rows[i] && rows2[j] == rows[j]);
        }
    }
}

proof fn lemma_list_push(rows: Seq<AttendeeRowView>, a: AttendeeView, eid: u128, k: int)
    requires
        0 <= k <= rows.len(),
    ensures
        (spec_list_from(rows, eid, k) matches Ok(t) ==> spec_list_from(
            rows.push(attendee_row_view_of(a)),
            eid,
            k,
        ) == Ok::<Seq<AttendeeView>, AppError>(
            if a.event_id == eid {
                t.push(a)
            } else {
                t
            },
        )),
        (spec_list_from(rows, eid, k) matches Err(er) ==> spec_list_from(
            rows.push(attendee_row_view_of(a)),
            eid,
            k,
        ) == Err::<Seq<AttendeeView>, AppError>(er)),
    decreases rows.len() - k,
{
    let ra = attendee_row_view_of(a);
    let rows2 = rows.push(ra);
    if k == rows.len() {
        // rows2[k] is the pushed row
        lemma_text_round_trip(a.id);
        lemma_text_round_trip(a.event_id);
        if a.event_id == eid {
            assert(rows2[k].event_id == id_text_of(eid));
            assert(spec_list_from(rows2, eid, k + 1) == Ok::<Seq<AttendeeView>, AppError>(
                Seq::empty(),
            ));
            assert(seq![a] + Seq::<AttendeeView>::empty() =~= Seq::<AttendeeView>::empty().push(a));
        } else {
            if rows2[k].event_id == id_text_of(eid) {
                lemma_text_injective(a.event_id, eid);
                assert(false);
            }
        }
    } else {
        assert(rows2[k] == rows[k]);
        lemma_list_push(rows, a, eid, k + 1);
        if rows[k].event_id == id_text_of(eid) && id_of_text(rows[k].id) is Some && id_of_text(
            rows[k].event_id,
        ) is Some {
            match spec_list_from(rows, eid, k + 1) {
                Ok(tail) => {
                    if a.event_id == eid {
                        let h = AttendeeView {
                            id: id_of_text(rows[k].id)->Some_0,
                            event_id: id_of_text(rows[k].event_id)->Some_0,
                            first_name: rows[k].first_name,
                            last_name: rows[k].last_name,
                        };
                        assert(seq![h] + tail.push(a) =~= (seq![h] + tail).push(a));
                    }
                },
                Err(_) => {},
            }
        }
    }
}

/// The referential listing law, matching case: adding an attendee of
/// event `eid` extends that event's listing by exactly that attendee, at
/// the end.
pub proof fn lemma_list_after_create_matching(
    rows: Seq<AttendeeRowView>,
    a: AttendeeView,
    l: Seq<AttendeeView>,
)
    requires
        spec_list_attendees(rows, a.event_id) == Ok::<Seq<AttendeeView>, AppError>(l),
    ensures
        spec_list_attendees(rows.push(attendee_row_view_of(a)), a.event_id) == Ok::<
            Seq<AttendeeView>,
            AppError,
        >(l.push(a)),
{
    lemma_list_push(rows, a, a.event_id, 0);
}

/// The referential listing law, non-matching case: adding an attendee of
/// another event leaves this event's listing outcome unchanged, so a
/// listing never returns attendees of other events.
pub proof fn lemma_list_after_create_other(
    rows: Seq<AttendeeRowView>,
    a: AttendeeView,
    eid: u128,
)
    requires
        a.event_id != eid,
    ensures
        spec_list_attendees(rows.push(attendee_row_view_of(a)), eid) == spec_list_attendees(
            rows,
            eid,
        ),
{
    lemma_list_push(rows, a, eid, 0);
}

/// The empty listing law: where no row of the attendee table carries the
/// event's identifier text, the listing succeeds with the empty sequence;
/// it is never an error.
pub proof fn lemma_list_empty(rows: Seq<AttendeeRowView>, eid: u128)
    requires
        forall|i: int| 0 <= i < rows.len() ==> (#[trigger] rows[i].event_id) != id_text_of(eid),
    ensures
        spec_list_attendees(rows, eid) == Ok::<Seq<AttendeeView>, AppError>(Seq::empty()),
{
    lemma_list_empty_from(rows, eid, 0);
}

proof fn lemma_list_empty_from(rows: Seq<AttendeeRowView>, eid: u128, k: int)
    requires
        0 <= k <= rows.len(),
        forall|i: int| 0 <= i < rows.len() ==> (#[trigger] rows[i].event_id) != id_text_of(eid),
    ensures
        spec_list_from(rows, eid, k) == Ok::<Seq<AttendeeView>, AppError>(Seq::empty()),
    decreases rows.len() - k,
{
    if k < rows.len() {
        lemma_list_empty_from(rows, eid, k + 1);
    }
}

} // verus!
