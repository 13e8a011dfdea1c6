//! Turning training logs into workouts, exercises and sets.
use vstd::prelude::*;
use crate::catalog::{MeasurementLookup, catalog_name, measurement_key, measurement_key_of};
use crate::cells::{ExerciseSet, clone_text, extract_set, set_of};
use crate::records::{CellSet, CellSetGroup, Log, Measurement, MeasurementsResponse};

verus! {

/// One exercise of a workout, with the sets performed, never empty.
#[derive(Debug)]
pub struct Exercise {
    pub id: String,
    pub name: String,
    pub sets: Vec<ExerciseSet>,
}

/// One workout: the data of its log and its exercises.
#[derive(Debug)]
pub struct Workout {
    pub id: String,
    pub name: String,
    pub timezone: Option<String>,
    pub start_date: Option<String>,
    pub end_date: Option<String>,
    pub exercises: Vec<Exercise>,
}

/// The sets that `cell_sets` yield, in their order.
pub open spec fn sets_of(cell_sets: Seq<CellSet>) -> Seq<ExerciseSet>
    decreases cell_sets.len(),
{
    if cell_sets.len() == 0 {
        Seq::empty()
    } else {
        let before = sets_of(cell_sets.drop_last());
        match set_of(cell_sets.last()) {
            Some(s) => before.push(s),
            None => before,
        }
    }
}

/// The name of a group's exercise: the catalog's display name for the key of
/// its link; empty where the group has no usable link or the catalog has no
/// entry for the key.
pub open spec fn exercise_name(group: CellSetGroup, catalog: Seq<Measurement>) -> Seq<char> {
    match measurement_key(group.links) {
        Some(key) => match catalog_name(catalog, key) {
            Some(name) => name,
            None => Seq::empty(),
        },
        None => Seq::empty(),
    }
}

/// A group yields an exercise where at least one of its cell sets yields a set.
pub open spec fn yields_exercise(group: CellSetGroup) -> bool {
    sets_of(group.cell_sets@).len() > 0
}

/// `e` is the exercise that `group` yields against `catalog`.
pub open spec fn is_exercise_of(e: Exercise, group: CellSetGroup, catalog: Seq<Measurement>) -> bool {
    &&& e.id == group.id
    &&& e.name@ == exercise_name(group, catalog)
    &&& e.sets@ == sets_of(group.cell_sets@)
}

/// The groups of `groups` that yield an exercise, in their order.
pub open spec fn yielding_groups(groups: Seq<CellSetGroup>) -> Seq<CellSetGroup>
    decreases groups.len(),
{
    if groups.len() == 0 {
        Seq::empty()
    } else {
        let before = yielding_groups(groups.drop_last());
        if yields_exercise(groups.last()) {
            before.push(groups.last())
        } else {
            before
        }
    }
}

/// `exercises` are those that `groups` yield, one for each yielding group, in order.
pub open spec fn are_exercises_of(
    exercises: Seq<Exercise>,
    groups: Seq<CellSetGroup>,
    catalog: Seq<Measurement>,
) -> bool {
    &&& exercises.len() == yielding_groups(groups).len()
    &&& forall|i: int|
        0 <= i < exercises.len() ==> is_exercise_of(
            #[trigger] exercises[i],
            yielding_groups(groups)[i],
            catalog,
        )
}

/// The name of a log's workout: the text its name shows, empty where it has none.
pub open spec fn workout_name(log: Log) -> Seq<char> {
    match log.name {
        Some(name) => name.shown(),
        None => Seq::empty(),
    }
}

/// `w` is the workout that `log` yields against `catalog`.
pub open spec fn is_workout_of(w: Workout, log: Log, catalog: Seq<Measurement>) -> bool {
    &&& w.id == log.id
    &&& w.name@ == workout_name(log)
    &&& w.timezone == log.timezone_id
    &&& w.start_date == log.start_date
    &&& w.end_date == log.end_date
    &&& are_exercises_of(w.exercises@, log.embedded.cell_set_group@, catalog)
}

/// The catalog entries of a response; none where there is no response.
pub open spec fn catalog_of(response: Option<MeasurementsResponse>) -> Seq<Measurement> {
    match response {
        Some(page) => page.embedded.measurements@,
        None => Seq::empty(),
    }
}

/// The sets that `cell_sets` yield, in their order.
pub fn extract_sets(cell_sets: &Vec<CellSet>) -> (r: Vec<ExerciseSet>)
    ensures
        r@ == sets_of(cell_sets@),
{
    let mut sets: Vec<ExerciseSet> = Vec::new();
    let mut i: usize = 0;
    while i < cell_sets.len()
        invariant
            i <= cell_sets@.len(),
            sets@ == sets_of(cell_sets@.take(i as int)),
        decreases cell_sets@.len() - i,
    {
        assert(cell_sets@.take(i + 1).drop_last() =~= cell_sets@.take(i as int));
        assert(cell_sets@.take(i + 1).last() == cell_sets@[i as int]);
        match extract_set(&cell_sets[i]) {
            Some(s) => sets.push(s),
            None => {},
        }
        i = i + 1;
    }
    assert(cell_sets@.take(i as int) =~= cell_sets@);
    sets
}

/// The exercise that `group` yields: none where no cell set yields a set;
/// otherwise the group's identifier, the catalog name of its link's key
/// (empty where the link is missing or ends in `/`, or the catalog has no
/// entry for it) and its sets.
pub fn resolve_exercise(group: &CellSetGroup, lookup: &MeasurementLookup) -> (r: Option<Exercise>)
    requires
        lookup.wf(),
    ensures
        r is None <==> !yields_exercise(*group),
        r matches Some(e) ==> is_exercise_of(e, *group, lookup.catalog()),
{
    let sets = extract_sets(&group.cell_sets);
    if sets.len() == 0 {
        return None;
    }
    let name = match measurement_key_of(&group.links) {
        Some(key) => match lookup.get(&key) {
            Some(name) => name,
            None => String::new(),
        },
        None => String::new(),
    };
    Some(Exercise { id: group.id.clone(), name, sets })
}

/// The workout that `log` yields: its identifier, name, time zone and dates
/// as they stand, and the exercises of its groups that yield one, in order.
pub fn assemble_workout(log: &Log, lookup: &MeasurementLookup) -> (r: Workout)
    requires
        lookup.wf(),
    ensures
        is_workout_of(r, *log, lookup.catalog()),
{
    let groups = &log.embedded.cell_set_group;
    let mut exercises: Vec<Exercise> = Vec::new();
    let mut i: usize = 0;
    while i < groups.len()
        invariant
            i <= groups@.len(),
            lookup.wf(),
            are_exercises_of(exercises@, groups@.take(i as int), lookup.catalog()),
        decreases groups@.len() - i,
    {
        let ghost before = exercises@;
        assert(groups@.take(i + 1).drop_last() =~= groups@.take(i as int));
        assert(groups@.take(i + 1).last() == groups@[i as int]);
        match resolve_exercise(&groups[i], lookup) {
            Some(e) => exercises.push(e),
            None => {},
        }
        i = i + 1;
        assert forall|k: int| 0 <= k < exercises@.len() implies is_exercise_of(
            #[trigger] exercises@[k],
            yielding_groups(groups@.take(i as int))[k],
            lookup.catalog(),
        ) by {
            if k < before.len() {
                assert(exercises@[k] == before[k]);
            }
        }
    }
    assert(groups@.take(i as int) =~= groups@);
    let name = match &log.name {
        Some(name) => name.display_name(),
        None => String::new(),
    };
    Workout {
        id: log.id.clone(),
        name,
        timezone: clone_text(&log.timezone_id),
        start_date: clone_text(&log.start_date),
        end_date: clone_text(&log.end_date),
        exercises,
    }
}

/// Turns training logs into workouts, using a measurement catalog for the
/// names of exercises.
#[derive(Debug)]
pub struct DataTransformer;

impl DataTransformer {
    /// One workout for each log, in order; none where there are no logs.
    pub fn get_measurements_from_logs(
        &self,
        logs_option: &Option<Vec<Log>>,
        measurements_response: &Option<MeasurementsResponse>,
    ) -> (r: Vec<Workout>)
        ensures
            logs_option is None ==> r@.len() == 0,
            logs_option matches Some(logs) ==> r@.len() == logs@.len() && forall|i: int|
                0 <= i < logs@.len() ==> is_workout_of(
                    #[trigger] r@[i],
                    logs@[i],
                    catalog_of(*measurements_response),
                ),
    {
        let logs = match logs_option {
            Some(logs) => logs,
            None => return Vec::new(),
        };
        let lookup = MeasurementLookup::from_response(measurements_response);
        let mut workouts: Vec<Workout> = Vec::new();
        let mut i: usize = 0;
        while i < logs.len()
            invariant
                i <= logs@.len(),
                lookup.holds(catalog_of(*measurements_response)),
                workouts@.len() == i,
                forall|k: int|
                    0 <= k < i ==> is_workout_of(
                        #[trigger] workouts@[k],
                        logs@[k],
                        catalog_of(*measurements_response),
                    ),
            decreases logs@.len() - i,
        {
            let w = assemble_workout(&logs[i], &lookup);
            workouts.push(w);
            i = i + 1;
        }
        workouts
    }
}

/// A group none of whose cell sets yields a set yields no exercise.
pub proof fn lemma_no_sets_no_exercise(group: CellSetGroup)
    requires
        forall|i: int| 0 <= i < group.cell_sets@.len() ==> set_of(#[trigger] group.cell_sets@[i]) is None,
    ensures
        !yields_exercise(group),
{
    lemma_sets_of_none(group.cell_sets@);
}

proof fn lemma_sets_of_none(cell_sets: Seq<CellSet>)
    requires
        forall|i: int| 0 <= i < cell_sets.len() ==> set_of(#[trigger] cell_sets[i]) is None,
    ensures
        sets_of(cell_sets).len() == 0,
    decreases cell_sets.len(),
{
    if cell_sets.len() > 0 {
        let rest = cell_sets.drop_last();
        assert forall|i: int| 0 <= i < rest.len() implies set_of(#[trigger] rest[i]) is None by {
            assert(rest[i] == cell_sets[i]);
        }
        lemma_sets_of_none(rest);
        assert(set_of(cell_sets[cell_sets.len() - 1]) is None);
    }
}

/// Extraction keeps order: the sets of consecutive runs of cell sets are the
/// sets of the first run followed by those of the second.
pub proof fn lemma_sets_of_concat(a: Seq<CellSet>, b: Seq<CellSet>)
    ensures
        sets_of(a + b) == sets_of(a) + sets_of(b),
    decreases b.len(),
{
    if b.len() == 0 {
        assert(a + b =~= a);
        assert(sets_of(a) + sets_of(b) =~= sets_of(a));
    } else {
        assert((a + b).drop_last() =~= a + b.drop_last());
        assert((a + b).last() == b.last());
        lemma_sets_of_concat(a, b.drop_last());
        match set_of(b.last()) {
            Some(s) => {
                assert(sets_of(a) + sets_of(b.drop_last()).push(s) =~= (sets_of(a) + sets_of(
                    b.drop_last(),
                )).push(s));
            },
            None => {},
        }
    }
}

/// Resolution keeps order: the exercise-yielding groups of consecutive runs of
/// groups are those of the first run followed by those of the second.
pub proof fn lemma_yielding_groups_concat(a: Seq<CellSetGroup>, b: Seq<CellSetGroup>)
    ensures
        yielding_groups(a + b) == yielding_groups(a) + yielding_groups(b),
    decreases b.len(),
{
    if b.len() == 0 {
        assert(a + b =~= a);
        assert(yielding_groups(a) + yielding_groups(b) =~= yielding_groups(a));
    } else {
        assert((a + b).drop_last() =~= a + b.drop_last());
        assert((a + b).last() == b.last());
        lemma_yielding_groups_concat(a, b.drop_last());
        if yields_exercise(b.last()) {
            assert(yielding_groups(a) + yielding_groups(b.drop_last()).push(b.last()) =~= (
            yielding_groups(a) + yielding_groups(b.drop_last())).push(b.last()));
        }
    }
}

/// A group that has no measurement link, whose link ends in `/`, or whose
/// link key has no catalog entry gets an exercise with an empty name, whatever
/// the catalog holds.
pub proof fn lemma_lookup_miss_gives_empty_name(
    group: CellSetGroup,
    catalog: Seq<Measurement>,
    e: Exercise,
)
    requires
        match measurement_key(group.links) {
            Some(key) => catalog_name(catalog, key) is None,
            None => true,
        },
        is_exercise_of(e, group, catalog),
    ensures
        e.name@ == Seq::<char>::empty(),
{
}

} // verus!
