use strong_api_lib::catalog::{get_workout_id_from_link, last_path_segment, measurement_key_of, MeasurementLookup};
use strong_api_lib::cells::{classify, extract_set, find_role_value, CellKind, Role};
use strong_api_lib::data_transformer::{
    assemble_workout, extract_sets, resolve_exercise, DataTransformer, Exercise, Workout,
};
use strong_api_lib::numbers::{is_decimal, parse_u32};
use strong_api_lib::records::{
    Cell, CellSet, CellSetGroup, CellSetGroupEmbedded, CellSetGroupLinks, EmbeddedMeasurements,
    Includes, Link, Links, Log, LogEmbedded, Measurement, MeasurementLinks, MeasurementsResponse,
    Name,
};
use strong_api_lib::cells::ExerciseSet;
use strong_api_lib::rows::{flatten_workout, RowError, WorkoutSet};

fn cell(kind: &str, value: Option<&str>) -> Cell {
    Cell {
        id: format!("cell-{}", kind),
        cell_type: kind.to_string(),
        value: value.map(|v| v.to_string()),
    }
}

fn cell_set(id: &str, cells: Vec<Cell>) -> CellSet {
    CellSet { id: id.to_string(), cells, is_completed: Some(true) }
}

fn group(id: &str, href: Option<&str>, cell_sets: Vec<CellSet>) -> CellSetGroup {
    CellSetGroup {
        links: CellSetGroupLinks { measurement: href.map(|h| Link { href: h.to_string() }) },
        embedded: CellSetGroupEmbedded {},
        id: id.to_string(),
        cell_sets,
    }
}

fn log(id: &str, name: Option<Name>, groups: Vec<CellSetGroup>) -> Log {
    Log {
        embedded: LogEmbedded { cell_set_group: groups },
        timezone_id: Some("Europe/Vienna".to_string()),
        id: id.to_string(),
        created: "2024-01-01T00:00:00Z".to_string(),
        last_changed: "2024-01-01T00:00:00Z".to_string(),
        name,
        access: "private".to_string(),
        start_date: Some("2024-01-01T10:00:00Z".to_string()),
        end_date: Some("2024-01-01T11:00:00Z".to_string()),
        log_type: "WORKOUT".to_string(),
    }
}

fn measurement(id: &str, en: &str) -> Measurement {
    Measurement {
        links: MeasurementLinks { self_link: Link { href: format!("/api/measurements/{}", id) }, tag: None },
        id: id.to_string(),
        created: String::new(),
        last_changed: String::new(),
        name: Name { en: Some(en.to_string()), custom: None },
        instructions: None,
        media: Vec::new(),
        cell_type_configs: Vec::new(),
        is_global: true,
        measurement_type: "EXERCISE".to_string(),
    }
}

fn page(total: u32, ms: Vec<Measurement>) -> MeasurementsResponse {
    MeasurementsResponse {
        links: Links { self_link: Link { href: format!("/page/{}", total) }, next: None },
        total,
        embedded: EmbeddedMeasurements { measurements: ms },
    }
}

fn set(id: &str, weight: Option<&str>, reps: u32, rpe: Option<&str>) -> ExerciseSet {
    ExerciseSet {
        id: id.to_string(),
        weight: weight.map(|w| w.to_string()),
        reps,
        rpe: rpe.map(|r| r.to_string()),
    }
}

const WORKOUT_ID: &str = "67e55044-10b1-426f-9247-bb680e5fe0c8";
const EXERCISE_ID: &str = "a1a2a3a4-b1b2-c1c2-d1d2-d3d4d5d6d7d8";
const SET_ID_A: &str = "00000000-0000-0000-0000-000000000001";
const SET_ID_B: &str = "00000000-0000-0000-0000-000000000002";

fn workout(start: Option<&str>, end: Option<&str>, exercises: Vec<Exercise>) -> Workout {
    Workout {
        id: WORKOUT_ID.to_string(),
        name: "Push".to_string(),
        timezone: None,
        start_date: start.map(|s| s.to_string()),
        end_date: end.map(|s| s.to_string()),
        exercises,
    }
}

#[test]
fn rest_timer_or_note_excludes_cell_set() {
    let with_timer = cell_set("s1", vec![cell("REPS", Some("5")), cell("REST_TIMER", Some("90"))]);
    assert!(extract_set(&with_timer).is_none());
    let with_note = cell_set("s2", vec![cell("NOTE", Some("felt good")), cell("BARBELL_WEIGHT", Some("80"))]);
    assert!(extract_set(&with_note).is_none());
}

#[test]
fn missing_or_unreadable_reps_default_to_zero() {
    let none = extract_set(&cell_set("s1", vec![cell("BARBELL_WEIGHT", Some("80"))])).unwrap();
    assert_eq!(none.reps, 0);
    let text = extract_set(&cell_set("s2", vec![cell("REPS", Some("five"))])).unwrap();
    assert_eq!(text.reps, 0);
    let negative = extract_set(&cell_set("s3", vec![cell("REPS", Some("-1"))])).unwrap();
    assert_eq!(negative.reps, 0);
    let empty = extract_set(&cell_set("s4", vec![cell("REPS", None)])).unwrap();
    assert_eq!(empty.reps, 0);
    let plus = extract_set(&cell_set("s5", vec![cell("REPS", Some("+7"))])).unwrap();
    assert_eq!(plus.reps, 7);
}

#[test]
fn weight_and_rpe_absent_when_unreadable() {
    let s = extract_set(&cell_set(
        "s1",
        vec![cell("DUMBBELL_WEIGHT", Some("heavy")), cell("RPE", None), cell("REPS", Some("3"))],
    ))
    .unwrap();
    assert_eq!(s.weight, None);
    assert_eq!(s.rpe, None);
    assert_eq!(s.reps, 3);
    assert_eq!(s.id, "s1");
}

#[test]
fn first_weight_cell_wins() {
    let s = extract_set(&cell_set(
        "s1",
        vec![cell("DUMBBELL_WEIGHT", Some("50")), cell("BARBELL_WEIGHT", Some("60"))],
    ))
    .unwrap();
    assert_eq!(s.weight.as_deref(), Some("50"));
    assert_eq!(s.weight.unwrap().parse::<f32>().unwrap(), 50.0f32);
}

#[test]
fn first_reps_cell_wins() {
    let cells = vec![cell("REPS", Some("4")), cell("REPS", Some("9"))];
    assert_eq!(find_role_value(&cells, Role::Reps).as_deref(), Some("4"));
    assert_eq!(extract_set(&cell_set("s", cells)).unwrap().reps, 4);
}

#[test]
fn tags_compare_exactly() {
    assert_eq!(classify(&"REPS".to_string()), CellKind::Reps);
    assert_eq!(classify(&"reps".to_string()), CellKind::Unrecognized);
    assert_eq!(classify(&"WEIGHTED_BODYWEIGHT".to_string()), CellKind::WeightedBodyweight);
    assert_eq!(classify(&"OTHER_WEIGHT".to_string()), CellKind::OtherWeight);
    assert_eq!(classify(&"NOTE".to_string()), CellKind::Note);
    assert_eq!(classify(&"DISTANCE".to_string()), CellKind::Unrecognized);
}

#[test]
fn unsigned_integers_read_strictly() {
    assert_eq!(parse_u32("0"), Some(0));
    assert_eq!(parse_u32("007"), Some(7));
    assert_eq!(parse_u32("4294967295"), Some(4294967295));
    assert_eq!(parse_u32("4294967296"), None);
    assert_eq!(parse_u32("99999999999999999999"), None);
    assert_eq!(parse_u32(""), None);
    assert_eq!(parse_u32("+"), None);
    assert_eq!(parse_u32(" 5"), None);
    assert_eq!(parse_u32("5.0"), None);
    assert_eq!(parse_u32("５"), None);
}

#[test]
fn decimal_notation_is_strict() {
    for ok in ["100", "1.5", ".5", "1.", "-2e3", "+7.25E-2", "0"] {
        assert!(is_decimal(ok), "{}", ok);
        assert!(ok.parse::<f32>().is_ok(), "{}", ok);
    }
    for bad in ["", "abc", "inf", "NaN", "1e", ".", "-", "1..2", "1,5", " 1", "e5", "１"] {
        assert!(!is_decimal(bad), "{}", bad);
    }
}

#[test]
fn all_cell_sets_excluded_yields_no_exercise() {
    let g = group(
        "g1",
        Some("/api/measurements/m1"),
        vec![
            cell_set("s1", vec![cell("REST_TIMER", Some("60"))]),
            cell_set("s2", vec![cell("NOTE", Some("x"))]),
        ],
    );
    let lookup = MeasurementLookup::from_measurements(&vec![measurement("m1", "Squat")]);
    assert!(resolve_exercise(&g, &lookup).is_none());
    assert!(extract_sets(&g.cell_sets).is_empty());
}

#[test]
fn lookup_miss_gives_empty_name() {
    let lookup = MeasurementLookup::from_measurements(&vec![measurement("m1", "Squat")]);
    let miss = group("g1", Some("https://host/api/measurements/unknown"), vec![cell_set("s1", vec![cell("REPS", Some("5"))])]);
    let e = resolve_exercise(&miss, &lookup).unwrap();
    assert_eq!(e.name, "");
    assert_eq!(e.id, "g1");
    assert_eq!(e.sets.len(), 1);
    let no_link = group("g2", None, vec![cell_set("s1", vec![cell("REPS", Some("5"))])]);
    assert_eq!(resolve_exercise(&no_link, &lookup).unwrap().name, "");
    let hit = group("g3", Some("https://host/api/measurements/m1"), vec![cell_set("s1", vec![])]);
    assert_eq!(resolve_exercise(&hit, &lookup).unwrap().name, "Squat");
}

#[test]
fn missing_link_never_names_exercise() {
    let lookup = MeasurementLookup::from_measurements(&vec![measurement("", "X"), measurement("m1", "Squat")]);
    let no_link = group("g1", None, vec![cell_set("s1", vec![cell("REPS", Some("5"))])]);
    assert_eq!(resolve_exercise(&no_link, &lookup).unwrap().name, "");
    let slash = group("g2", Some("https://host/api/measurements/"), vec![cell_set("s1", vec![])]);
    assert_eq!(resolve_exercise(&slash, &lookup).unwrap().name, "");
    let catalog = Some(page(1, vec![measurement("", "X")]));
    let logs = Some(vec![log("w1", None, vec![group("g3", None, vec![cell_set("s1", vec![cell("REPS", Some("5"))])])])]);
    let workouts = DataTransformer.get_measurements_from_logs(&logs, &catalog);
    assert_eq!(workouts[0].exercises.len(), 1);
    assert_eq!(workouts[0].exercises[0].name, "");
    assert_eq!(workouts[0].exercises[0].sets[0].reps, 5);
}

#[test]
fn measurement_key_is_a_non_empty_segment() {
    assert_eq!(measurement_key_of(&CellSetGroupLinks { measurement: None }), None);
    let trailing = CellSetGroupLinks { measurement: Some(Link { href: "/api/m/".to_string() }) };
    assert_eq!(measurement_key_of(&trailing), None);
    let plain = CellSetGroupLinks { measurement: Some(Link { href: "/api/m/77".to_string() }) };
    assert_eq!(measurement_key_of(&plain).as_deref(), Some("77"));
}

#[test]
fn link_key_is_last_path_segment() {
    assert_eq!(last_path_segment(&"https://host/api/measurements/abc".to_string()), "abc");
    assert_eq!(last_path_segment(&"abc".to_string()), "abc");
    assert_eq!(last_path_segment(&"a/b/".to_string()), "");
    assert_eq!(last_path_segment(&"/ü/ß".to_string()), "ß");
    assert_eq!(last_path_segment(&"".to_string()), "");
    assert_eq!(last_path_segment(&"/".to_string()), "");
    assert_eq!(last_path_segment(&"ä/öü".to_string()), "öü");
    let links = CellSetGroupLinks { measurement: None };
    assert_eq!(get_workout_id_from_link(&links), "");
    let links = CellSetGroupLinks { measurement: Some(Link { href: "/m/42".to_string() }) };
    assert_eq!(get_workout_id_from_link(&links), "42");
}

#[test]
fn merge_keeps_first_total_and_appends_entries() {
    let a = page(10, vec![measurement("a1", "A1"), measurement("a2", "A2")]);
    let b = page(3, vec![measurement("b1", "B1"), measurement("b2", "B2"), measurement("b3", "B3")]);
    let merged = a.merge(b);
    assert_eq!(merged.total, 10);
    assert_eq!(merged.links.self_link.href, "/page/10");
    let ids: Vec<&str> = merged.embedded.measurements.iter().map(|m| m.id.as_str()).collect();
    assert_eq!(ids, vec!["a1", "a2", "b1", "b2", "b3"]);
    let lookup = MeasurementLookup::from_response(&Some(merged));
    assert_eq!(lookup.len(), 5);
    assert_eq!(lookup.get(&"b3".to_string()).as_deref(), Some("B3"));
}

#[test]
fn later_catalog_entry_wins_on_equal_ids() {
    let lookup = MeasurementLookup::from_measurements(&vec![
        measurement("x", "First"),
        measurement("y", "Other"),
        measurement("x", "Second"),
    ]);
    assert_eq!(lookup.get(&"x".to_string()).as_deref(), Some("Second"));
    assert_eq!(lookup.get(&"z".to_string()), None);
    assert_eq!(MeasurementLookup::from_response(&None).len(), 0);
}

#[test]
fn names_show_english_then_custom_then_unknown() {
    let both = Name { en: Some("Bench".to_string()), custom: Some("Mine".to_string()) };
    assert_eq!(both.display_name(), "Bench");
    let custom = Name { en: None, custom: Some("Mine".to_string()) };
    assert_eq!(custom.display_name(), "Mine");
    assert_eq!(Name::empty().display_name(), "Unknown");
    let from: Name = Name::from("Row".to_string());
    assert_eq!(from.en.as_deref(), Some("Row"));
    assert_eq!(from.custom, None);
    let lookup = MeasurementLookup::from_measurements(&vec![Measurement {
        name: Name::empty(),
        ..measurement("m", "unused")
    }]);
    assert_eq!(lookup.get(&"m".to_string()).as_deref(), Some("Unknown"));
}

#[test]
fn includes_query_names() {
    assert_eq!(Includes::Log.as_str(), "log");
    assert_eq!(Includes::MeasuredValue.as_str(), "measuredValue");
    assert_eq!(Includes::Measurement.as_str(), "measurement");
}

#[test]
fn workouts_keep_source_order() {
    let logs = vec![
        log("w1", None, vec![
            group("g1", None, vec![cell_set("a", vec![cell("REPS", Some("1"))]), cell_set("b", vec![cell("REPS", Some("2"))])]),
            group("g2", None, vec![cell_set("c", vec![cell("NOTE", None)])]),
            group("g3", None, vec![cell_set("d", vec![]), cell_set("e", vec![cell("REST_TIMER", None)]), cell_set("f", vec![])]),
        ]),
        log("w2", Some(Name { en: None, custom: Some("Legs".to_string()) }), vec![]),
    ];
    let workouts = DataTransformer.get_measurements_from_logs(&Some(logs), &None);
    assert_eq!(workouts.len(), 2);
    assert_eq!(workouts[0].id, "w1");
    assert_eq!(workouts[0].name, "");
    assert_eq!(workouts[1].id, "w2");
    assert_eq!(workouts[1].name, "Legs");
    let ex: Vec<&str> = workouts[0].exercises.iter().map(|e| e.id.as_str()).collect();
    assert_eq!(ex, vec!["g1", "g3"]);
    let sets: Vec<&str> = workouts[0].exercises[0].sets.iter().map(|s| s.id.as_str()).collect();
    assert_eq!(sets, vec!["a", "b"]);
    let sets: Vec<&str> = workouts[0].exercises[1].sets.iter().map(|s| s.id.as_str()).collect();
    assert_eq!(sets, vec!["d", "f"]);
    assert_eq!(workouts[0].timezone.as_deref(), Some("Europe/Vienna"));
    assert_eq!(workouts[0].start_date.as_deref(), Some("2024-01-01T10:00:00Z"));
    assert_eq!(workouts[0].end_date.as_deref(), Some("2024-01-01T11:00:00Z"));
}

#[test]
fn absent_logs_give_no_workouts() {
    assert!(DataTransformer.get_measurements_from_logs(&None, &None).is_empty());
    assert!(DataTransformer.get_measurements_from_logs(&Some(vec![]), &None).is_empty());
}

#[test]
fn end_to_end_one_set_survives() {
    let g = group(
        "g1",
        Some("https://host/api/measurements/m-bench"),
        vec![
            cell_set("s1", vec![cell("BARBELL_WEIGHT", Some("100")), cell("REPS", Some("5")), cell("RPE", Some("8"))]),
            cell_set("s2", vec![cell("REST_TIMER", Some("90"))]),
        ],
    );
    let catalog = Some(page(1, vec![measurement("m-bench", "Bench Press")]));
    let workouts = DataTransformer.get_measurements_from_logs(&Some(vec![log("w1", None, vec![g])]), &catalog);
    assert_eq!(workouts.len(), 1);
    assert_eq!(workouts[0].exercises.len(), 1);
    let e = &workouts[0].exercises[0];
    assert_eq!(e.name, "Bench Press");
    assert_eq!(e.sets.len(), 1);
    let s = &e.sets[0];
    assert_eq!(s.id, "s1");
    assert_eq!(s.weight.as_deref().map(|w| w.parse::<f32>().unwrap()), Some(100.0f32));
    assert_eq!(s.reps, 5);
    assert_eq!(s.rpe.as_deref().map(|r| r.parse::<f32>().unwrap()), Some(8.0f32));
    let lookup = MeasurementLookup::from_response(&catalog);
    let again = assemble_workout(&log("w1", None, vec![]), &lookup);
    assert!(again.exercises.is_empty());
}

fn two_exercises() -> Vec<Exercise> {
    vec![
        Exercise {
            id: EXERCISE_ID.to_string(),
            name: "Bench".to_string(),
            sets: vec![set(SET_ID_A, Some("100"), 5, None), set(SET_ID_B, None, 8, Some("7.5"))],
        },
        Exercise {
            id: SET_ID_B.to_string(),
            name: "Row".to_string(),
            sets: vec![set(SET_ID_A, Some("60"), 10, Some("9"))],
        },
    ]
}

fn failure(r: &Result<WorkoutSet, RowError>) -> Option<RowError> {
    r.as_ref().err().copied()
}

fn ordinals(rows: &[Result<WorkoutSet, RowError>]) -> Vec<(u32, u32)> {
    rows.iter().map(|r| {
        let r = r.as_ref().unwrap();
        (r.exercise_nr, r.set_nr)
    }).collect()
}

#[test]
fn flattening_is_deterministic() {
    let w = workout(Some("2024-01-01T10:00:00Z"), Some("2024-01-01T11:00:00Z"), two_exercises());
    let first = flatten_workout(&w);
    let second = flatten_workout(&w);
    assert_eq!(ordinals(&first), vec![(0, 0), (0, 1), (1, 0)]);
    assert_eq!(ordinals(&first), ordinals(&second));
    let names: Vec<String> = first.iter().map(|r| r.as_ref().unwrap().exercise_name.clone()).collect();
    assert_eq!(names, vec!["Bench", "Bench", "Row"]);
}

#[test]
fn rows_carry_context_and_defaults() {
    let w = workout(Some("2024-01-01T00:00:00Z"), Some("2024-01-01T01:00:00.5+01:00"), two_exercises());
    let rows = flatten_workout(&w);
    assert_eq!(rows.len(), 3);
    let r0 = rows[0].as_ref().unwrap();
    assert_eq!(r0.workout_id, 0x67e55044_10b1_426f_9247_bb680e5fe0c8u128);
    assert_eq!(r0.workout_name, "Push");
    assert_eq!(r0.timezone, "Europe/Berlin");
    assert_eq!(r0.start_date, 1_704_067_200_000_000_000i128);
    assert_eq!(r0.end_date, 1_704_067_200_500_000_000i128);
    assert_eq!(r0.exercise_id, 0xa1a2a3a4_b1b2_c1c2_d1d2_d3d4d5d6d7d8u128);
    assert_eq!(r0.set_id, 1);
    assert_eq!(r0.weight, "100");
    assert_eq!(r0.rpe, "0.0");
    assert_eq!(r0.reps, 5);
    let r1 = rows[1].as_ref().unwrap();
    assert_eq!(r1.weight, "0.0");
    assert_eq!(r1.rpe, "7.5");
    assert_eq!(r1.set_id, 2);
    let mut zoned = workout(Some("2024-01-01T00:00:00Z"), Some("2024-01-01T00:00:00Z"), two_exercises());
    zoned.timezone = Some("UTC".to_string());
    assert_eq!(flatten_workout(&zoned)[2].as_ref().unwrap().timezone, "UTC");
}

#[test]
fn row_errors_name_the_first_failure() {
    let ok = Some("2024-01-01T00:00:00Z");
    assert_eq!(failure(&flatten_workout(&workout(None, ok, two_exercises()))[0]), Some(RowError::StartDate));
    assert_eq!(failure(&flatten_workout(&workout(Some("2024-01-01 00:00:00"), ok, two_exercises()))[0]), Some(RowError::StartDate));
    assert_eq!(failure(&flatten_workout(&workout(ok, Some("yesterday"), two_exercises()))[1]), Some(RowError::EndDate));
    assert_eq!(failure(&flatten_workout(&workout(ok, None, two_exercises()))[2]), Some(RowError::EndDate));
    let mut bad_id = workout(ok, ok, two_exercises());
    bad_id.id = "w1".to_string();
    assert_eq!(failure(&flatten_workout(&bad_id)[0]), Some(RowError::WorkoutId));
    let mut exercises = two_exercises();
    exercises[1].id = "not-a-uuid".to_string();
    exercises[0].sets[1].id = "bad".to_string();
    let rows = flatten_workout(&workout(ok, ok, exercises));
    assert!(rows[0].is_ok());
    assert_eq!(failure(&rows[1]), Some(RowError::SetId));
    assert_eq!(failure(&rows[2]), Some(RowError::ExerciseId));
    assert!(flatten_workout(&workout(ok, ok, vec![])).is_empty());
}
