//! Flattening a workout into one storage row per set.
use vstd::prelude::*;
use crate::cells::ExerciseSet;
use crate::data_transformer::{Exercise, Workout};

verus! {

/// The instant that an RFC 3339 timestamp denotes, in nanoseconds since the Unix epoch.
pub uninterp spec fn rfc3339_instant(text: Seq<char>) -> Option<i128>;

/// The 128-bit value of a UUID in one of its text forms.
pub uninterp spec fn uuid_value(text: Seq<char>) -> Option<u128>;

/// Relies on time::OffsetDateTime::parse with the RFC 3339 description, and on
/// OffsetDateTime::unix_timestamp_nanos for the instant of the parsed value.
#[verifier::external_body]
fn parse_rfc3339(text: &str) -> (r: Option<i128>)
    ensures
        r == rfc3339_instant(text@),
{
    match time::OffsetDateTime::parse(text, &time::format_description::well_known::Rfc3339) {
        Ok(instant) => Some(instant.unix_timestamp_nanos()),
        Err(_) => None,
    }
}

/// Relies on uuid::Uuid::parse_str, and on Uuid::as_u128 for the value of the parsed UUID.
#[verifier::external_body]
fn parse_uuid(text: &str) -> (r: Option<u128>)
    ensures
        r == uuid_value(text@),
{
    match uuid::Uuid::parse_str(text) {
        Ok(id) => Some(id.as_u128()),
        Err(_) => None,
    }
}

/// The time zone of a row whose workout names none.
pub open spec fn default_timezone() -> Seq<char> {
    "Europe/Berlin"@
}

/// What a row holds for a weight or an exertion score that was not recorded.
pub open spec fn absent_measure() -> Seq<char> {
    "0.0"@
}

/// One set with its workout and exercise context, as stored. Instants are in
/// nanoseconds since the Unix epoch; `weight` and `rpe` are in decimal notation.
#[derive(Debug)]
pub struct WorkoutSet {
    pub workout_id: u128,
    pub workout_name: String,
    pub timezone: String,
    pub start_date: i128,
    pub end_date: i128,
    pub exercise_id: u128,
    pub exercise_nr: u32,
    pub exercise_name: String,
    pub set_id: u128,
    pub set_nr: u32,
    pub weight: String,
    pub reps: u32,
    pub rpe: String,
}

/// Why a set could not become a row.
#[derive(Clone, Copy, PartialEq, Eq, Structural, Debug)]
pub enum RowError {
    /// The workout's start is missing or not an RFC 3339 timestamp.
    StartDate,
    /// The workout's end is missing or not an RFC 3339 timestamp.
    EndDate,
    /// The workout's identifier is not a UUID.
    WorkoutId,
    /// The exercise's identifier is not a UUID.
    ExerciseId,
    /// The set's identifier is not a UUID.
    SetId,
}

pub open spec fn instant_of(date: Option<String>) -> Option<i128> {
    match date {
        Some(text) => rfc3339_instant(text@),
        None => None,
    }
}

/// The first reason, if any, why set `s` of exercise `e` of `w` cannot become a row.
pub open spec fn row_error(w: Workout, e: Exercise, s: ExerciseSet) -> Option<RowError> {
    if instant_of(w.start_date) is None {
        Some(RowError::StartDate)
    } else if instant_of(w.end_date) is None {
        Some(RowError::EndDate)
    } else if uuid_value(w.id@) is None {
        Some(RowError::WorkoutId)
    } else if uuid_value(e.id@) is None {
        Some(RowError::ExerciseId)
    } else if uuid_value(s.id@) is None {
        Some(RowError::SetId)
    } else {
        None
    }
}

pub open spec fn measure_text(m: Option<String>) -> Seq<char> {
    match m {
        Some(text) => text@,
        None => absent_measure(),
    }
}

/// `row` is the row of set `si` of exercise `ei` of `w`.
pub open spec fn is_row_of(row: WorkoutSet, w: Workout, ei: int, si: int) -> bool {
    let e = w.exercises@[ei];
    let s = e.sets@[si];
    &&& Some(row.workout_id) == uuid_value(w.id@)
    &&& row.workout_name == w.name
    &&& row.timezone@ == match w.timezone {
        Some(tz) => tz@,
        None => default_timezone(),
    }
    &&& Some(row.start_date) == instant_of(w.start_date)
    &&& Some(row.end_date) == instant_of(w.end_date)
    &&& Some(row.exercise_id) == uuid_value(e.id@)
    &&& row.exercise_nr == ei
    &&& row.exercise_name == e.name
    &&& Some(row.set_id) == uuid_value(s.id@)
    &&& row.set_nr == si
    &&& row.weight@ == measure_text(s.weight)
    &&& row.reps == s.reps
    &&& row.rpe@ == measure_text(s.rpe)
}

/// `outcome` is what set `si` of exercise `ei` of `w` becomes: its row, or the
/// first reason why it cannot be one.
pub open spec fn is_outcome_of(outcome: Result<WorkoutSet, RowError>, w: Workout, ei: int, si: int) -> bool {
    match row_error(w, w.exercises@[ei], w.exercises@[ei].sets@[si]) {
        Some(err) => outcome == Err::<WorkoutSet, RowError>(err),
        None => outcome matches Ok(row) && is_row_of(row, w, ei, si),
    }
}

/// The positions (exercise ordinal, set ordinal) of all sets, exercise by
/// exercise and set by set.
pub open spec fn slots(exercises: Seq<Exercise>) -> Seq<(int, int)>
    decreases exercises.len(),
{
    if exercises.len() == 0 {
        Seq::empty()
    } else {
        let n = exercises.len() - 1;
        slots(exercises.drop_last()) + Seq::new(exercises.last().sets@.len(), |j: int| (n, j))
    }
}

/// Ordinals fit in the row's 32-bit fields.
pub open spec fn fits_rows(w: Workout) -> bool {
    &&& w.exercises@.len() <= u32::MAX
    &&& forall|i: int| 0 <= i < w.exercises@.len() ==> (#[trigger] w.exercises@[i]).sets@.len() <= u32::MAX
}

fn measure_or_zero(m: &Option<String>) -> (r: String)
    ensures
        r@ == measure_text(*m),
{
    match m {
        Some(text) => text.clone(),
        None => "0.0".to_owned(),
    }
}

fn instant(date: &Option<String>) -> (r: Option<i128>)
    ensures
        r == instant_of(*date),
{
    match date {
        Some(text) => parse_rfc3339(text.as_str()),
        None => None,
    }
}

/// One outcome per set of `workout`, in the order of exercises and of sets
/// within them: the set's row, with zero-based ordinals for its exercise and
/// for itself, or the reason why it cannot be a row. Missing weights and
/// exertion scores become `0.0`; a missing time zone becomes `Europe/Berlin`.
pub fn flatten_workout(workout: &Workout) -> (r: Vec<Result<WorkoutSet, RowError>>)
    requires
        fits_rows(*workout),
    ensures
        r@.len() == slots(workout.exercises@).len(),
        forall|k: int|
            0 <= k < r@.len() ==> is_outcome_of(
                #[trigger] r@[k],
                *workout,
                slots(workout.exercises@)[k].0,
                slots(workout.exercises@)[k].1,
            ),
{
    let start = instant(&workout.start_date);
    let end = instant(&workout.end_date);
    let workout_id = parse_uuid(workout.id.as_str());
    let ghost exs = workout.exercises@;
    let mut rows: Vec<Result<WorkoutSet, RowError>> = Vec::new();
    let mut i: usize = 0;
    while i < workout.exercises.len()
        invariant
            i <= exs.len(),
            exs == workout.exercises@,
            fits_rows(*workout),
            start == instant_of(workout.start_date),
            end == instant_of(workout.end_date),
            workout_id == uuid_value(workout.id@),
            rows@.len() == slots(exs.take(i as int)).len(),
            forall|k: int|
                0 <= k < rows@.len() ==> is_outcome_of(
                    #[trigger] rows@[k],
                    *workout,
                    slots(exs.take(i as int))[k].0,
                    slots(exs.take(i as int))[k].1,
                ),
        decreases exs.len() - i,
    {
        let exercise = &workout.exercises[i];
        let exercise_id = parse_uuid(exercise.id.as_str());
        let ghost done = slots(exs.take(i as int));
        let ghost rows_before = rows@;
        assert(exs.take(i + 1).drop_last() =~= exs.take(i as int));
        assert(exs.take(i + 1).last() == exs[i as int]);
        let ghost next = slots(exs.take(i + 1));
        assert(next == done + Seq::new(exs[i as int].sets@.len(), |j: int| (i as int, j)));
        assert(exercise.sets@.len() <= u32::MAX);
        let mut j: usize = 0;
        while j < exercise.sets.len()
            invariant
                i < exs.len(),
                exs == workout.exercises@,
                *exercise == exs[i as int],
                exercise.sets@.len() <= u32::MAX,
                i <= u32::MAX,
                start == instant_of(workout.start_date),
                end == instant_of(workout.end_date),
                workout_id == uuid_value(workout.id@),
                exercise_id == uuid_value(exercise.id@),
                j <= exercise.sets@.len(),
                next == done + Seq::new(exs[i as int].sets@.len(), |j: int| (i as int, j)),
                rows@.len() == done.len() + j,
                rows_before.len() == done.len(),
                forall|k: int| 0 <= k < done.len() ==> rows@[k] == rows_before[k],
                forall|k: int|
                    0 <= k < done.len() ==> is_outcome_of(
                        #[trigger] rows_before[k],
                        *workout,
                        done[k].0,
                        done[k].1,
                    ),
                forall|m: int|
                    0 <= m < j ==> is_outcome_of(
                        #[trigger] rows@[done.len() + m],
                        *workout,
                        i as int,
                        m,
                    ),
            decreases exercise.sets@.len() - j,
        {
            let set: &ExerciseSet = &exercise.sets[j];
            let set_id = parse_uuid(set.id.as_str());
            let outcome: Result<WorkoutSet, RowError> = match (start, end, workout_id, exercise_id, set_id) {
                (None, _, _, _, _) => Err(RowError::StartDate),
                (_, None, _, _, _) => Err(RowError::EndDate),
                (_, _, None, _, _) => Err(RowError::WorkoutId),
                (_, _, _, None, _) => Err(RowError::ExerciseId),
                (_, _, _, _, None) => Err(RowError::SetId),
                (Some(start_date), Some(end_date), Some(wid), Some(eid), Some(sid)) => Ok(
                    WorkoutSet {
                        workout_id: wid,
                        workout_name: workout.name.clone(),
                        timezone: match &workout.timezone {
                            Some(tz) => tz.clone(),
                            None => "Europe/Berlin".to_owned(),
                        },
                        start_date,
                        end_date,
                        exercise_id: eid,
                        exercise_nr: i as u32,
                        exercise_name: exercise.name.clone(),
                        set_id: sid,
                        set_nr: j as u32,
                        weight: measure_or_zero(&set.weight),
                        reps: set.reps,
                        rpe: measure_or_zero(&set.rpe),
                    },
                ),
            };
            assert(is_outcome_of(outcome, *workout, i as int, j as int));
            rows.push(outcome);
            assert(rows@[done.len() + j] == outcome);
            j = j + 1;
        }
        i = i + 1;
        assert forall|k: int| 0 <= k < rows@.len() implies is_outcome_of(
            #[trigger] rows@[k],
            *workout,
            next[k].0,
            next[k].1,
        ) by {
            if k < done.len() {
                assert(rows@[k] == rows_before[k]);
            } else {
                let m = k - done.len();
                assert(rows@[done.len() + m] == rows@[k]);
            }
        }
    }
    assert(exs.take(i as int) =~= exs);
    rows
}

/// Set `j` of exercise `i` exists.
pub open spec fn is_set_position(exercises: Seq<Exercise>, i: int, j: int) -> bool {
    0 <= i < exercises.len() && 0 <= j < exercises[i].sets@.len()
}

/// Position `a` comes before position `b`: an earlier exercise, or an earlier
/// set of the same exercise.
pub open spec fn precedes(a: (int, int), b: (int, int)) -> bool {
    a.0 < b.0 || (a.0 == b.0 && a.1 < b.1)
}

/// The ordinals of flattened rows are fixed by the workout alone: row `k`
/// always carries `slots(..)[k]`, each slot names a set that exists, every set
/// has a slot, and rows come in the order of exercise ordinal, then set ordinal.
pub proof fn lemma_row_ordinals(exercises: Seq<Exercise>)
    ensures
        forall|k: int|
            0 <= k < slots(exercises).len() ==> {
                let (i, j) = #[trigger] slots(exercises)[k];
                0 <= i < exercises.len() && 0 <= j < exercises[i].sets@.len()
            },
        forall|k1: int, k2: int|
            0 <= k1 < k2 < slots(exercises).len() ==> precedes(
                #[trigger] slots(exercises)[k1],
                #[trigger] slots(exercises)[k2],
            ),
        forall|i: int, j: int|
            #[trigger] is_set_position(exercises, i, j) ==> exists|k: int|
                0 <= k < slots(exercises).len() && #[trigger] slots(exercises)[k] == (i, j),
    decreases exercises.len(),
{
    if exercises.len() > 0 {
        let rest = exercises.drop_last();
        let n = exercises.len() - 1;
        let tail = Seq::new(exercises.last().sets@.len(), |j: int| (n, j));
        lemma_row_ordinals(rest);
        let s = slots(exercises);
        let p = slots(rest);
        assert(s == p + tail);
        assert forall|k: int| 0 <= k < s.len() implies {
            let (i, j) = #[trigger] s[k];
            0 <= i < exercises.len() && 0 <= j < exercises[i].sets@.len()
        } by {
            if k < p.len() {
                assert(s[k] == p[k]);
                assert(rest[p[k].0] == exercises[p[k].0]);
            }
        }
        assert forall|k1: int, k2: int| 0 <= k1 < k2 < s.len() implies precedes(
            #[trigger] s[k1],
            #[trigger] s[k2],
        ) by {
            if k2 < p.len() {
                assert(s[k1] == p[k1] && s[k2] == p[k2]);
            } else if k1 < p.len() {
                assert(s[k1] == p[k1]);
                assert(p[k1].0 < rest.len());
            }
        }
        assert forall|i: int, j: int| #[trigger] is_set_position(exercises, i, j) implies exists|k: int|
            0 <= k < s.len() && #[trigger] s[k] == (i, j) by {
            if i < n {
                assert(rest[i] == exercises[i]);
                assert(is_set_position(rest, i, j));
                let k = choose|k: int| 0 <= k < p.len() && #[trigger] p[k] == (i, j);
                assert(s[k] == p[k]);
            } else {
                assert(s[p.len() + j] == tail[j]);
            }
        }
    }
}

} // verus!
