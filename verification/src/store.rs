//! Message and call history: the rows the SQL store persists, the call
//! state machine that produces them, and the statistics read from them.
//!
//! Rows live here as plain values with their invariants; the embedded
//! SQL store mirrors them on disk.  Every row ever produced satisfies:
//! an unanswered row has duration 0, and a missed row is unanswered.

use vstd::prelude::*;

verus! {

/// One SMS row.
pub struct SmsMessage {
    pub id: i64,
    pub direction: String,
    pub phone_number: String,
    pub content: String,
    pub timestamp: String,
    pub status: String,
    pub pdu: Option<String>,
}

/// The mathematical image of an SMS row.
pub ghost struct SmsMessageV {
    pub id: int,
    pub direction: Seq<char>,
    pub phone_number: Seq<char>,
    pub content: Seq<char>,
    pub timestamp: Seq<char>,
    pub status: Seq<char>,
    pub pdu: Option<Seq<char>>,
}

impl View for SmsMessage {
    type V = SmsMessageV;

    open spec fn view(&self) -> SmsMessageV {
        SmsMessageV {
            id: self.id as int,
            direction: self.direction@,
            phone_number: self.phone_number@,
            content: self.content@,
            timestamp: self.timestamp@,
            status: self.status@,
            pdu: match self.pdu {
                Some(p) => Some(p@),
                None => None,
            },
        }
    }
}

/// One call-history row.
pub struct CallRecord {
    pub id: i64,
    pub direction: String,
    pub phone_number: String,
    pub duration: i64,
    pub start_time: String,
    pub end_time: Option<String>,
    pub answered: bool,
}

/// The mathematical image of a call row.
pub ghost struct CallRecordV {
    pub id: int,
    pub direction: Seq<char>,
    pub phone_number: Seq<char>,
    pub duration: int,
    pub start_time: Seq<char>,
    pub end_time: Option<Seq<char>>,
    pub answered: bool,
}

impl View for CallRecord {
    type V = CallRecordV;

    open spec fn view(&self) -> CallRecordV {
        CallRecordV {
            id: self.id as int,
            direction: self.direction@,
            phone_number: self.phone_number@,
            duration: self.duration as int,
            start_time: self.start_time@,
            end_time: match self.end_time {
                Some(p) => Some(p@),
                None => None,
            },
            answered: self.answered,
        }
    }
}

/// SMS counters.
pub struct SmsStats {
    pub total: i64,
    pub incoming: i64,
    pub outgoing: i64,
}

/// Call counters; only answered rows contribute to the total duration.
pub struct CallStats {
    pub total: i64,
    pub incoming: i64,
    pub outgoing: i64,
    pub missed: i64,
    pub total_duration: i64,
}

/// A well-formed call row: unanswered rows carry no duration, missed
/// rows are unanswered, and the duration is never negative.
pub open spec fn call_row_wf(r: CallRecordV) -> bool {
    &&& (!r.answered ==> r.duration == 0)
    &&& (r.direction == "missed"@ ==> !r.answered)
    &&& r.duration >= 0
}

/// Rows an SMS store may hold; ids grow strictly.
pub open spec fn sms_rows_wf(rows: Seq<SmsMessageV>, next_id: int) -> bool {
    &&& forall|i: int, j: int| 0 <= i < j < rows.len() ==> rows[i].id < rows[j].id
    &&& forall|i: int| 0 <= i < rows.len() ==> #[trigger] rows[i].id < next_id
}

/// Rows a call store may hold: each row well formed, ids growing.
pub open spec fn call_rows_wf(rows: Seq<CallRecordV>, next_id: int) -> bool {
    &&& forall|i: int| 0 <= i < rows.len() ==> call_row_wf(#[trigger] rows[i])
    &&& forall|i: int, j: int| 0 <= i < j < rows.len() ==> rows[i].id < rows[j].id
    &&& forall|i: int| 0 <= i < rows.len() ==> #[trigger] rows[i].id < next_id
}

/// Count of rows with the given direction.
pub open spec fn count_call_dir(rows: Seq<CallRecordV>, d: Seq<char>) -> int
    decreases rows.len(),
{
    if rows.len() == 0 {
        0
    } else {
        count_call_dir(rows.drop_last(), d) + (if rows[rows.len() - 1].direction == d {
            1int
        } else {
            0int
        })
    }
}

/// Count of SMS rows with the given direction.
pub open spec fn count_sms_dir(rows: Seq<SmsMessageV>, d: Seq<char>) -> int
    decreases rows.len(),
{
    if rows.len() == 0 {
        0
    } else {
        count_sms_dir(rows.drop_last(), d) + (if rows[rows.len() - 1].direction == d {
            1int
        } else {
            0int
        })
    }
}

/// Summed duration of the answered rows.
pub open spec fn sum_answered_duration(rows: Seq<CallRecordV>) -> int
    decreases rows.len(),
{
    if rows.len() == 0 {
        0
    } else {
        sum_answered_duration(rows.drop_last()) + (if rows[rows.len() - 1].answered {
            rows[rows.len() - 1].duration
        } else {
            0int
        })
    }
}

proof fn lemma_count_call_dir_bound(rows: Seq<CallRecordV>, d: Seq<char>)
    ensures
        0 <= count_call_dir(rows, d) <= rows.len(),
    decreases rows.len(),
{
    if rows.len() > 0 {
        lemma_count_call_dir_bound(rows.drop_last(), d);
    }
}

proof fn lemma_count_sms_dir_bound(rows: Seq<SmsMessageV>, d: Seq<char>)
    ensures
        0 <= count_sms_dir(rows, d) <= rows.len(),
    decreases rows.len(),
{
    if rows.len() > 0 {
        lemma_count_sms_dir_bound(rows.drop_last(), d);
    }
}

proof fn lemma_sum_answered_nonneg(rows: Seq<CallRecordV>)
    requires
        forall|i: int| 0 <= i < rows.len() ==> call_row_wf(#[trigger] rows[i]),
    ensures
        sum_answered_duration(rows) >= 0,
    decreases rows.len(),
{
    if rows.len() > 0 {
        assert(forall|i: int|
            0 <= i < rows.drop_last().len() ==> call_row_wf(#[trigger] rows.drop_last()[i]));
        lemma_sum_answered_nonneg(rows.drop_last());
        assert(call_row_wf(rows[rows.len() - 1]));
    }
}

/// Relies on `chrono::Utc::now` and `DateTime::to_rfc3339`: the current
/// UTC time in RFC 3339 form.  Nothing is promised of a clock reading.
#[verifier::external_body]
fn now_rfc3339() -> (r: String) {
    chrono::Utc::now().to_rfc3339()
}

/// The in-memory image of the SMS table.
pub struct SmsStore {
    rows: Vec<SmsMessage>,
    next_id: i64,
}

impl View for SmsStore {
    type V = Seq<SmsMessageV>;

    closed spec fn view(&self) -> Seq<SmsMessageV> {
        self.rows@.map_values(|r: SmsMessage| r@)
    }
}

impl SmsStore {
    pub closed spec fn next_id_spec(&self) -> int {
        self.next_id as int
    }

    /// Well-formed: ids grow strictly and stay below the next id.
    pub closed spec fn wf(&self) -> bool {
        sms_rows_wf(self@, self.next_id as int)
    }

    /// An empty store.
    pub fn new() -> (r: SmsStore)
        ensures
            r.wf(),
            r@.len() == 0,
            r.next_id_spec() == 1,
    {
        let r = SmsStore { rows: Vec::new(), next_id: 1 };
        proof {
            assert(r@ =~= Seq::<SmsMessageV>::empty());
        }
        r
    }

    /// Append a message, stamped with the current time.  Returns its id.
    ///
    /// The timestamp is a clock reading; nothing is promised of it.
    pub fn insert_sms(&mut self, direction: &str, phone_number: &str, content: &str,
        status: &str, pdu: Option<String>) -> (id: i64)
        requires
            old(self).wf(),
            old(self).next_id_spec() < i64::MAX,
        ensures
            final(self).wf(),
            final(self)@.len() == old(self)@.len() + 1,
            forall|i: int| 0 <= i < old(self)@.len() ==> final(self)@[i] == old(self)@[i],
            final(self)@.last().id == old(self).next_id_spec(),
            final(self)@.last().direction == direction@,
            final(self)@.last().phone_number == phone_number@,
            final(self)@.last().content == content@,
            final(self)@.last().status == status@,
            final(self)@.last().pdu == (match pdu {
                Some(p) => Some(p@),
                None => None::<Seq<char>>,
            }),
            final(self).next_id_spec() == old(self).next_id_spec() + 1,
            id == old(self).next_id_spec(),
    {
        let timestamp = now_rfc3339();
        let id = self.next_id;
        let row = SmsMessage {
            id,
            direction: String::from_str(direction),
            phone_number: String::from_str(phone_number),
            content: String::from_str(content),
            timestamp,
            status: String::from_str(status),
            pdu,
        };
        let ghost prev = self@;
        self.rows.push(row);
        self.next_id = self.next_id + 1;
        proof {
            assert(self@ =~= prev.push(row@));
        }
        id
    }

    /// Set the status of the row with the given id; other rows keep.
    pub fn update_sms_status(&mut self, id: i64, status: &str)
        requires
            old(self).wf(),
        ensures
            final(self).wf(),
            final(self)@.len() == old(self)@.len(),
            final(self).next_id_spec() == old(self).next_id_spec(),
            forall|i: int|
                0 <= i < old(self)@.len() && old(self)@[i].id != id ==> final(self)@[i]
                    == old(self)@[i],
            forall|i: int|
                0 <= i < old(self)@.len() && old(self)@[i].id == id ==> final(self)@[i]
                    == (SmsMessageV { status: status@, ..old(self)@[i] }),
    {
        let ghost prev = self@;
        let mut i: usize = 0;
        while i < self.rows.len()
            invariant
                0 <= i <= self.rows@.len(),
                self.rows@.len() == prev.len(),
                self.next_id == old(self).next_id_spec(),
                sms_rows_wf(prev, old(self).next_id_spec()),
                forall|j: int| 0 <= j < prev.len() && prev[j].id != id ==> self@[j] == prev[j],
                forall|j: int|
                    0 <= j < i && prev[j].id == id ==> self@[j] == (SmsMessageV {
                        status: status@,
                        ..prev[j]
                    }),
                forall|j: int| i <= j < prev.len() ==> self@[j] == prev[j],
            decreases self.rows@.len() - i,
        {
            if self.rows[i].id == id {
                let new_status = String::from_str(status);
                let old_row = &self.rows[i];
                let updated = SmsMessage {
                    id: old_row.id,
                    direction: old_row.direction.clone(),
                    phone_number: old_row.phone_number.clone(),
                    content: old_row.content.clone(),
                    timestamp: old_row.timestamp.clone(),
                    status: new_status,
                    pdu: match &old_row.pdu {
                        Some(p) => Some(p.clone()),
                        None => None,
                    },
                };
                self.rows.set(i, updated);
                proof {
                    assert(self.rows@[i as int]@ == (SmsMessageV {
                        status: status@,
                        ..prev[i as int]
                    }));
                    assert forall|j: int| 0 <= j < prev.len() implies self@[j]
                        == self.rows@[j]@ by {}
                }
            }
            i = i + 1;
        }
        proof {
            assert(self.wf());
        }
    }

    /// Drop every row.
    pub fn clear_all_sms(&mut self)
        requires
            old(self).wf(),
        ensures
            final(self).wf(),
            final(self)@.len() == 0,
            final(self).next_id_spec() == old(self).next_id_spec(),
    {
        self.rows = Vec::new();
        proof {
            assert(self@ =~= Seq::<SmsMessageV>::empty());
        }
    }

    /// A copy of every row, oldest first.
    pub fn rows_snapshot(&self) -> (r: Vec<SmsMessage>)
        ensures
            r@.map_values(|m: SmsMessage| m@) == self@,
    {
        let mut r: Vec<SmsMessage> = Vec::new();
        let mut i: usize = 0;
        while i < self.rows.len()
            invariant
                0 <= i <= self.rows@.len(),
                r@.len() == i,
                forall|j: int| 0 <= j < i ==> #[trigger] r@[j]@ == self.rows@[j]@,
            decreases self.rows@.len() - i,
        {
            r.push(clone_sms(&self.rows[i]));
            i = i + 1;
        }
        proof {
            assert(r@.map_values(|m: SmsMessage| m@) =~= self@);
        }
        r
    }

    /// Counters over the rows: totals and per-direction counts.
    pub fn sms_stats(&self) -> (r: SmsStats)
        requires
            self@.len() <= i64::MAX,
        ensures
            r.total == self@.len(),
            r.incoming == count_sms_dir(self@, "incoming"@),
            r.outgoing == count_sms_dir(self@, "outgoing"@),
    {
        let mut incoming: i64 = 0;
        let mut outgoing: i64 = 0;
        let mut i: usize = 0;
        proof {
            lemma_count_sms_dir_bound(self@, "incoming"@);
            lemma_count_sms_dir_bound(self@, "outgoing"@);
        }
        while i < self.rows.len()
            invariant
                0 <= i <= self.rows@.len(),
                self.rows@.len() == self@.len() <= i64::MAX,
                forall|j: int| 0 <= j < self@.len() ==> self@[j] == self.rows@[j]@,
                incoming == count_sms_dir(self@.take(i as int), "incoming"@),
                outgoing == count_sms_dir(self@.take(i as int), "outgoing"@),
            decreases self.rows@.len() - i,
        {
            proof {
                lemma_count_sms_dir_bound(self@.take(i as int), "incoming"@);
                lemma_count_sms_dir_bound(self@.take(i as int), "outgoing"@);
                assert(self@.take(i + 1).drop_last() =~= self@.take(i as int));
                assert(self@.take(i + 1)[i as int] == self@[i as int]);
            }
            if crate::text::str_eq(self.rows[i].direction.as_str(), "incoming") {
                incoming = incoming + 1;
            }
            if crate::text::str_eq(self.rows[i].direction.as_str(), "outgoing") {
                outgoing = outgoing + 1;
            }
            i = i + 1;
        }
        proof {
            assert(self@.take(self@.len() as int) =~= self@);
        }
        SmsStats { total: self.rows.len() as i64, incoming, outgoing }
    }
}

/// What ends a call, as decided when the call object disappears.
pub enum CallEndAction {
    /// The call had been answered; it ran for the given seconds.
    Complete { duration: i64 },
    /// An incoming call that was never answered.
    Missed,
    /// An outgoing call that was never answered.
    Cancelled,
}

/// The decision for a disappearing call: answered calls complete with
/// their elapsed time, unanswered incoming calls are missed, unanswered
/// outgoing calls are cancelled with duration 0.
pub fn call_removed_action(answered: bool, incoming: bool, answer_time: i64, now: i64) -> (r:
    CallEndAction)
    requires
        answered ==> 0 <= answer_time <= now,
    ensures
        answered ==> r == (CallEndAction::Complete { duration: (now - answer_time) as i64 }),
        !answered && incoming ==> r == CallEndAction::Missed,
        !answered && !incoming ==> r == CallEndAction::Cancelled,
{
    if answered {
        CallEndAction::Complete { duration: now - answer_time }
    } else if incoming {
        CallEndAction::Missed
    } else {
        CallEndAction::Cancelled
    }
}

/// The in-memory image of the call-history table.
pub struct CallStore {
    rows: Vec<CallRecord>,
    next_id: i64,
}

impl View for CallStore {
    type V = Seq<CallRecordV>;

    closed spec fn view(&self) -> Seq<CallRecordV> {
        self.rows@.map_values(|r: CallRecord| r@)
    }
}

impl CallStore {
    pub closed spec fn next_id_spec(&self) -> int {
        self.next_id as int
    }

    /// Well-formed: every row satisfies the terminal-row invariant and
    /// ids grow strictly.
    pub closed spec fn wf(&self) -> bool {
        call_rows_wf(self@, self.next_id as int)
    }

    /// An empty store.
    pub fn new() -> (r: CallStore)
        ensures
            r.wf(),
            r@.len() == 0,
            r.next_id_spec() == 1,
    {
        let r = CallStore { rows: Vec::new(), next_id: 1 };
        proof {
            assert(r@ =~= Seq::<CallRecordV>::empty());
        }
        r
    }

    /// Open a row for a new call, stamped with the current time, with
    /// duration 0 and no end time.  Returns the row id.
    ///
    /// The start time is a clock reading; nothing is promised of it.
    pub fn insert_call(&mut self, direction: &str, phone_number: &str, answered: bool) -> (id:
        i64)
        requires
            old(self).wf(),
            old(self).next_id_spec() < i64::MAX,
            direction@ == "missed"@ ==> !answered,
        ensures
            final(self).wf(),
            final(self)@.len() == old(self)@.len() + 1,
            forall|i: int| 0 <= i < old(self)@.len() ==> final(self)@[i] == old(self)@[i],
            final(self)@.last().id == old(self).next_id_spec(),
            final(self)@.last().direction == direction@,
            final(self)@.last().phone_number == phone_number@,
            final(self)@.last().duration == 0,
            final(self)@.last().end_time is None,
            final(self)@.last().answered == answered,
            final(self).next_id_spec() == old(self).next_id_spec() + 1,
            id == old(self).next_id_spec(),
    {
        let start_time = now_rfc3339();
        let id = self.next_id;
        let row = CallRecord {
            id,
            direction: String::from_str(direction),
            phone_number: String::from_str(phone_number),
            duration: 0,
            start_time,
            end_time: None,
            answered,
        };
        let ghost prev = self@;
        self.rows.push(row);
        self.next_id = self.next_id + 1;
        proof {
            assert(self@ =~= prev.push(row@));
        }
        id
    }

    /// Open a row from a `CallAdded` signal: an `incoming` state opens an
    /// incoming row, any other state an outgoing one; the row starts
    /// unanswered with duration 0.
    pub fn on_call_added(&mut self, state: &str, phone_number: &str) -> (id: i64)
        requires
            old(self).wf(),
            old(self).next_id_spec() < i64::MAX,
        ensures
            final(self).wf(),
            final(self)@.len() == old(self)@.len() + 1,
            forall|i: int| 0 <= i < old(self)@.len() ==> final(self)@[i] == old(self)@[i],
            final(self)@.last().direction == (if state@ == "incoming"@ {
                "incoming"@
            } else {
                "outgoing"@
            }),
            final(self)@.last().phone_number == phone_number@,
            final(self)@.last().duration == 0,
            !final(self)@.last().answered,
            id == old(self).next_id_spec(),
    {
        proof {
            reveal_strlit("incoming");
            reveal_strlit("outgoing");
            reveal_strlit("missed");
            assert("incoming"@.len() == 8);
            assert("outgoing"@.len() == 8);
            assert("missed"@.len() == 6);
            assert("incoming"@ != "missed"@);
            assert("outgoing"@ != "missed"@);
        }
        if crate::text::str_eq(state, "incoming") {
            self.insert_call("incoming", phone_number, false)
        } else {
            self.insert_call("outgoing", phone_number, false)
        }
    }

    /// Close the row with the given id: set its duration, answered flag
    /// and end time (a clock reading).  An unanswered close carries
    /// duration 0, keeping the terminal-row invariant.
    pub fn update_call_end(&mut self, id: i64, duration: i64, answered: bool)
        requires
            old(self).wf(),
            duration >= 0,
            !answered ==> duration == 0,
            forall|i: int|
                0 <= i < old(self)@.len() && old(self)@[i].id == id
                    ==> #[trigger] old(self)@[i].direction != "missed"@ || !answered,
        ensures
            final(self).wf(),
            final(self)@.len() == old(self)@.len(),
            final(self).next_id_spec() == old(self).next_id_spec(),
            forall|i: int|
                0 <= i < old(self)@.len() && old(self)@[i].id != id ==> final(self)@[i]
                    == old(self)@[i],
            forall|i: int|
                0 <= i < old(self)@.len() && old(self)@[i].id == id ==> {
                    let n = final(self)@[i];
                    n.duration == duration && n.answered == answered && n.end_time is Some
                        && n.id == old(self)@[i].id && n.direction == old(self)@[i].direction
                        && n.phone_number == old(self)@[i].phone_number && n.start_time == old(
                        self,
                    )@[i].start_time
                },
    {
        let end_time = now_rfc3339();
        let ghost prev = self@;
        let mut i: usize = 0;
        while i < self.rows.len()
            invariant
                0 <= i <= self.rows@.len(),
                self.rows@.len() == prev.len(),
                self.next_id == old(self).next_id_spec(),
                call_rows_wf(prev, old(self).next_id_spec()),
                duration >= 0,
                !answered ==> duration == 0,
                forall|j: int|
                    0 <= j < prev.len() && prev[j].id == id ==> #[trigger] prev[j].direction
                        != "missed"@ || !answered,
                forall|j: int| 0 <= j < prev.len() && prev[j].id != id ==> self@[j] == prev[j],
                forall|j: int|
                    0 <= j < i && prev[j].id == id ==> {
                        let n = self@[j];
                        n.duration == duration && n.answered == answered && n.end_time is Some
                            && n.id == prev[j].id && n.direction == prev[j].direction
                            && n.phone_number == prev[j].phone_number && n.start_time
                            == prev[j].start_time
                    },
                forall|j: int| i <= j < prev.len() ==> self@[j] == prev[j],
            decreases self.rows@.len() - i,
        {
            if self.rows[i].id == id {
                proof {
                    assert(self@[i as int] == prev[i as int]);
                    assert(prev[i as int].id == id);
                    assert(prev[i as int].direction != "missed"@ || !answered);
                }
                let old_row = &self.rows[i];
                let updated = CallRecord {
                    id: old_row.id,
                    direction: old_row.direction.clone(),
                    phone_number: old_row.phone_number.clone(),
                    duration,
                    start_time: old_row.start_time.clone(),
                    end_time: Some(end_time.clone()),
                    answered,
                };
                proof {
                    assert(updated@.direction == prev[i as int].direction);
                    assert(call_row_wf(updated@));
                }
                self.rows.set(i, updated);
                proof {
                    assert(self.rows@[i as int] == updated);
                    assert forall|j: int| 0 <= j < prev.len() implies self@[j]
                        == self.rows@[j]@ by {}
                }
            }
            i = i + 1;
        }
        proof {
            assert forall|j: int| 0 <= j < prev.len() implies call_row_wf(#[trigger] self@[j])
                && self@[j].id == prev[j].id by {
                if prev[j].id != id {
                    assert(self@[j] == prev[j]);
                    assert(call_row_wf(prev[j]));
                } else {
                    assert(call_row_wf(prev[j]));
                }
            }
            assert(self.wf());
        }
    }

    /// Mark the row with the given id as a missed call: direction
    /// becomes `missed`, answered stays false, the end time is stamped.
    /// The row must still carry duration 0, as ring-time rows do.
    pub fn mark_call_missed(&mut self, id: i64)
        requires
            old(self).wf(),
            forall|i: int|
                0 <= i < old(self)@.len() && old(self)@[i].id == id
                    ==> #[trigger] old(self)@[i].duration == 0,
        ensures
            final(self).wf(),
            final(self)@.len() == old(self)@.len(),
            final(self).next_id_spec() == old(self).next_id_spec(),
            forall|i: int|
                0 <= i < old(self)@.len() && old(self)@[i].id != id ==> final(self)@[i]
                    == old(self)@[i],
            forall|i: int|
                0 <= i < old(self)@.len() && old(self)@[i].id == id ==> {
                    let n = final(self)@[i];
                    n.direction == "missed"@ && !n.answered && n.duration == 0
                        && n.end_time is Some && n.id == old(self)@[i].id && n.phone_number
                        == old(self)@[i].phone_number && n.start_time == old(
                        self,
                    )@[i].start_time
                },
    {
        let end_time = now_rfc3339();
        let ghost prev = self@;
        let mut i: usize = 0;
        while i < self.rows.len()
            invariant
                0 <= i <= self.rows@.len(),
                self.rows@.len() == prev.len(),
                self.next_id == old(self).next_id_spec(),
                call_rows_wf(prev, old(self).next_id_spec()),
                forall|j: int|
                    0 <= j < prev.len() && prev[j].id == id ==> #[trigger] prev[j].duration
                        == 0,
                forall|j: int| 0 <= j < prev.len() && prev[j].id != id ==> self@[j] == prev[j],
                forall|j: int|
                    0 <= j < i && prev[j].id == id ==> {
                        let n = self@[j];
                        n.direction == "missed"@ && !n.answered && n.duration == 0
                            && n.end_time is Some && n.id == prev[j].id && n.phone_number
                            == prev[j].phone_number && n.start_time == prev[j].start_time
                    },
                forall|j: int| i <= j < prev.len() ==> self@[j] == prev[j],
            decreases self.rows@.len() - i,
        {
            if self.rows[i].id == id {
                proof {
                    assert(self@[i as int] == prev[i as int]);
                    assert(prev[i as int].id == id);
                    assert(prev[i as int].duration == 0);
                }
                let old_row = &self.rows[i];
                let updated = CallRecord {
                    id: old_row.id,
                    direction: String::from_str("missed"),
                    phone_number: old_row.phone_number.clone(),
                    duration: old_row.duration,
                    start_time: old_row.start_time.clone(),
                    end_time: Some(end_time.clone()),
                    answered: false,
                };
                proof {
                    assert(updated@.duration == 0);
                    assert(call_row_wf(updated@));
                }
                self.rows.set(i, updated);
                proof {
                    assert(self.rows@[i as int] == updated);
                    assert forall|j: int| 0 <= j < prev.len() implies self@[j]
                        == self.rows@[j]@ by {}
                }
            }
            i = i + 1;
        }
        proof {
            assert forall|j: int| 0 <= j < prev.len() implies call_row_wf(#[trigger] self@[j])
                && self@[j].id == prev[j].id by {
                if prev[j].id != id {
                    assert(self@[j] == prev[j]);
                    assert(call_row_wf(prev[j]));
                } else {
                    assert(call_row_wf(prev[j]));
                }
            }
            assert(self.wf());
        }
    }

    /// Close the row for a disappearing call, per the decided action.
    pub fn on_call_removed(&mut self, id: i64, action: CallEndAction)
        requires
            old(self).wf(),
            action matches CallEndAction::Complete { duration } ==> duration >= 0,
            action is Missed ==> forall|i: int|
                0 <= i < old(self)@.len() && old(self)@[i].id == id
                    ==> #[trigger] old(self)@[i].duration == 0,
            action matches CallEndAction::Complete { .. } ==> forall|i: int|
                0 <= i < old(self)@.len() && old(self)@[i].id == id
                    ==> #[trigger] old(self)@[i].direction != "missed"@,
        ensures
            final(self).wf(),
            final(self)@.len() == old(self)@.len(),
            forall|i: int|
                0 <= i < old(self)@.len() && old(self)@[i].id != id ==> final(self)@[i]
                    == old(self)@[i],
            forall|i: int|
                0 <= i < old(self)@.len() && old(self)@[i].id == id ==> {
                    let n = final(self)@[i];
                    &&& (action matches CallEndAction::Complete { duration } ==> n.answered
                        && n.duration == duration)
                    &&& (action is Missed ==> n.direction == "missed"@ && !n.answered
                        && n.duration == 0)
                    &&& (action is Cancelled ==> !n.answered && n.duration == 0)
                    &&& n.end_time is Some
                },
    {
        match action {
            CallEndAction::Complete { duration } => {
                self.update_call_end(id, duration, true);
            },
            CallEndAction::Missed => {
                self.mark_call_missed(id);
            },
            CallEndAction::Cancelled => {
                self.update_call_end(id, 0, false);
            },
        }
    }

    /// Drop every row.
    pub fn clear_all_calls(&mut self)
        requires
            old(self).wf(),
        ensures
            final(self).wf(),
            final(self)@.len() == 0,
            final(self).next_id_spec() == old(self).next_id_spec(),
    {
        self.rows = Vec::new();
        proof {
            assert(self@ =~= Seq::<CallRecordV>::empty());
        }
    }

    /// Drop the row with the given id.
    pub fn delete_call(&mut self, id: i64)
        requires
            old(self).wf(),
        ensures
            final(self).wf(),
            final(self)@.len() <= old(self)@.len(),
            forall|i: int|
                0 <= i < final(self)@.len() ==> #[trigger] final(self)@[i].id != id
                    && old(self)@.contains(final(self)@[i]),
    {
        let ghost prev = self@;
        let mut kept: Vec<CallRecord> = Vec::new();
        let mut i: usize = 0;
        while i < self.rows.len()
            invariant
                0 <= i <= self.rows@.len(),
                self@ == prev,
                call_rows_wf(prev, self.next_id as int),
                kept@.len() <= i,
                forall|j: int|
                    0 <= j < kept@.len() ==> #[trigger] kept@[j]@.id != id && prev.contains(
                        kept@[j]@,
                    ),
                forall|j: int, l: int| 0 <= j < l < kept@.len() ==> kept@[j]@.id < kept@[l]@.id,
                forall|j: int|
                    0 <= j < kept@.len() ==> #[trigger] kept@[j]@.id < self.next_id as int,
                forall|j: int|
                    0 <= j < kept@.len() ==> exists|l: int|
                        0 <= l < i && prev[l] == #[trigger] kept@[j]@,
                i > 0 && kept@.len() > 0 ==> exists|l: int|
                    0 <= l < i && prev[l] == kept@[kept@.len() - 1]@,
            decreases self.rows@.len() - i,
        {
            if self.rows[i].id != id {
                let row = clone_call(&self.rows[i]);
                proof {
                    assert(prev[i as int] == row@);
                    assert(prev.contains(row@));
                    assert forall|j: int| 0 <= j < kept@.len() implies kept@[j]@.id
                        < row@.id by {
                        let l = choose|l: int| 0 <= l < i && prev[l] == kept@[j]@;
                        assert(prev[l].id < prev[i as int].id);
                    }
                }
                kept.push(row);
            }
            i = i + 1;
        }
        self.rows = kept;
        proof {
            assert(self.wf());
        }
    }

    /// A copy of the row with the given id, if present.
    pub fn row_by_id(&self, id: i64) -> (r: Option<CallRecord>)
        ensures
            r is Some ==> self@.contains(r->0@) && r->0@.id == id,
            r is None ==> forall|i: int| 0 <= i < self@.len() ==> #[trigger] self@[i].id != id,
    {
        let mut i: usize = 0;
        while i < self.rows.len()
            invariant
                0 <= i <= self.rows@.len(),
                self.rows@.len() == self@.len(),
                forall|j: int| 0 <= j < self@.len() ==> self@[j] == self.rows@[j]@,
                forall|j: int| 0 <= j < i ==> #[trigger] self@[j].id != id,
            decreases self.rows@.len() - i,
        {
            if self.rows[i].id == id {
                let row = clone_call(&self.rows[i]);
                proof {
                    assert(self@[i as int] == row@);
                }
                return Some(row);
            }
            i = i + 1;
        }
        None
    }

    /// A copy of every row, oldest first.
    pub fn rows_snapshot(&self) -> (r: Vec<CallRecord>)
        ensures
            r@.map_values(|m: CallRecord| m@) == self@,
    {
        let mut r: Vec<CallRecord> = Vec::new();
        let mut i: usize = 0;
        while i < self.rows.len()
            invariant
                0 <= i <= self.rows@.len(),
                r@.len() == i,
                forall|j: int| 0 <= j < i ==> #[trigger] r@[j]@ == self.rows@[j]@,
            decreases self.rows@.len() - i,
        {
            r.push(clone_call(&self.rows[i]));
            i = i + 1;
        }
        proof {
            assert(r@.map_values(|m: CallRecord| m@) =~= self@);
        }
        r
    }

    /// Counters over the rows.  Only answered rows contribute to the
    /// total duration.
    pub fn call_stats(&self) -> (r: CallStats)
        requires
            self.wf(),
            self@.len() <= i64::MAX,
            sum_answered_duration(self@) <= i64::MAX,
        ensures
            r.total == self@.len(),
            r.incoming == count_call_dir(self@, "incoming"@),
            r.outgoing == count_call_dir(self@, "outgoing"@),
            r.missed == count_call_dir(self@, "missed"@),
            r.total_duration == sum_answered_duration(self@),
    {
        let mut incoming: i64 = 0;
        let mut outgoing: i64 = 0;
        let mut missed: i64 = 0;
        let mut total_duration: i64 = 0;
        let mut i: usize = 0;
        proof {
            lemma_count_call_dir_bound(self@, "incoming"@);
            lemma_count_call_dir_bound(self@, "outgoing"@);
            lemma_count_call_dir_bound(self@, "missed"@);
            lemma_sum_answered_nonneg(self@);
        }
        while i < self.rows.len()
            invariant
                0 <= i <= self.rows@.len(),
                self.rows@.len() == self@.len() <= i64::MAX,
                forall|j: int| 0 <= j < self@.len() ==> self@[j] == self.rows@[j]@,
                forall|j: int| 0 <= j < self@.len() ==> call_row_wf(#[trigger] self@[j]),
                sum_answered_duration(self@) <= i64::MAX,
                incoming == count_call_dir(self@.take(i as int), "incoming"@),
                outgoing == count_call_dir(self@.take(i as int), "outgoing"@),
                missed == count_call_dir(self@.take(i as int), "missed"@),
                total_duration == sum_answered_duration(self@.take(i as int)),
            decreases self.rows@.len() - i,
        {
            proof {
                lemma_count_call_dir_bound(self@.take(i as int), "incoming"@);
                lemma_count_call_dir_bound(self@.take(i as int), "outgoing"@);
                lemma_count_call_dir_bound(self@.take(i as int), "missed"@);
                assert(self@.take(i + 1).drop_last() =~= self@.take(i as int));
                assert(self@.take(i + 1)[i as int] == self@[i as int]);
                lemma_sum_answered_prefix(self@, i as int);
            }
            if crate::text::str_eq(self.rows[i].direction.as_str(), "incoming") {
                incoming = incoming + 1;
            }
            if crate::text::str_eq(self.rows[i].direction.as_str(), "outgoing") {
                outgoing = outgoing + 1;
            }
            if crate::text::str_eq(self.rows[i].direction.as_str(), "missed") {
                missed = missed + 1;
            }
            if self.rows[i].answered {
                total_duration = total_duration + self.rows[i].duration;
            }
            i = i + 1;
        }
        proof {
            assert(self@.take(self@.len() as int) =~= self@);
        }
        CallStats { total: self.rows.len() as i64, incoming, outgoing, missed, total_duration }
    }
}

/// Partial sums of answered durations never pass the whole sum when
/// every row is well formed.
proof fn lemma_sum_answered_prefix(rows: Seq<CallRecordV>, i: int)
    requires
        0 <= i < rows.len(),
        forall|j: int| 0 <= j < rows.len() ==> call_row_wf(#[trigger] rows[j]),
    ensures
        sum_answered_duration(rows.take(i + 1)) <= sum_answered_duration(rows),
    decreases rows.len() - i,
{
    if i + 1 == rows.len() {
        assert(rows.take(i + 1) =~= rows);
    } else {
        lemma_sum_answered_prefix(rows, i + 1);
        assert(rows.take(i + 2).drop_last() =~= rows.take(i + 1));
        assert(call_row_wf(rows[i + 1]));
        assert(rows.take(i + 2)[i + 1] == rows[i + 1]);
    }
}

/// Law: every row a call store can hold satisfies the terminal
/// invariants — an unanswered row has duration 0, and a missed row is
/// unanswered.
pub proof fn lemma_call_rows_terminal(s: &CallStore)
    requires
        s.wf(),
    ensures
        forall|i: int|
            0 <= i < s@.len() ==> (!#[trigger] s@[i].answered ==> s@[i].duration == 0),
        forall|i: int|
            0 <= i < s@.len() ==> (#[trigger] s@[i].direction == "missed"@ ==> !s@[i].answered),
{
    assert forall|i: int| 0 <= i < s@.len() implies (!#[trigger] s@[i].answered ==> s@[
        i
    ].duration == 0) && (s@[i].direction == "missed"@ ==> !s@[i].answered) by {
        assert(call_row_wf(s@[i]));
    }
}

/// A field-by-field copy of an SMS row.
pub fn clone_sms(m: &SmsMessage) -> (r: SmsMessage)
    ensures
        r@ == m@,
{
    SmsMessage {
        id: m.id,
        direction: m.direction.clone(),
        phone_number: m.phone_number.clone(),
        content: m.content.clone(),
        timestamp: m.timestamp.clone(),
        status: m.status.clone(),
        pdu: match &m.pdu {
            Some(p) => Some(p.clone()),
            None => None,
        },
    }
}

/// A field-by-field copy of a call row.
pub fn clone_call(c: &CallRecord) -> (r: CallRecord)
    ensures
        r@ == c@,
{
    CallRecord {
        id: c.id,
        direction: c.direction.clone(),
        phone_number: c.phone_number.clone(),
        duration: c.duration,
        start_time: c.start_time.clone(),
        end_time: match &c.end_time {
            Some(p) => Some(p.clone()),
            None => None,
        },
        answered: c.answered,
    }
}

} // verus!
