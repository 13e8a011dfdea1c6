//! Classification of cells and extraction of one set from a cell set.
use vstd::prelude::*;
use crate::numbers::{is_decimal, is_decimal_text, parse_u32, u32_of_text};
use crate::records::{Cell, CellSet};

verus! {

/// The tags of cells that the pipeline reads, decoded once.
#[derive(Clone, Copy, PartialEq, Eq, Structural, Debug)]
pub enum CellKind {
    OtherWeight,
    DumbbellWeight,
    BarbellWeight,
    WeightedBodyweight,
    Reps,
    Rpe,
    RestTimer,
    Note,
    Unrecognized,
}

/// The kind that a tag names, by exact comparison.
pub open spec fn kind_of(tag: Seq<char>) -> CellKind {
    if tag == "OTHER_WEIGHT"@ {
        CellKind::OtherWeight
    } else if tag == "DUMBBELL_WEIGHT"@ {
        CellKind::DumbbellWeight
    } else if tag == "BARBELL_WEIGHT"@ {
        CellKind::BarbellWeight
    } else if tag == "WEIGHTED_BODYWEIGHT"@ {
        CellKind::WeightedBodyweight
    } else if tag == "REPS"@ {
        CellKind::Reps
    } else if tag == "RPE"@ {
        CellKind::Rpe
    } else if tag == "REST_TIMER"@ {
        CellKind::RestTimer
    } else if tag == "NOTE"@ {
        CellKind::Note
    } else {
        CellKind::Unrecognized
    }
}

/// What a cell contributes to a set.
#[derive(Clone, Copy, PartialEq, Eq, Structural, Debug)]
pub enum Role {
    Weight,
    Reps,
    Rpe,
}

impl CellKind {
    /// A cell of this kind keeps its whole cell set from being a set.
    pub open spec fn excludes(self) -> bool {
        self == CellKind::RestTimer || self == CellKind::Note
    }

    pub open spec fn plays(self, role: Role) -> bool {
        match role {
            Role::Weight => self == CellKind::OtherWeight || self == CellKind::DumbbellWeight
                || self == CellKind::BarbellWeight || self == CellKind::WeightedBodyweight,
            Role::Reps => self == CellKind::Reps,
            Role::Rpe => self == CellKind::Rpe,
        }
    }

    pub fn is_excluding(&self) -> (r: bool)
        ensures
            r == self.excludes(),
    {
        *self == CellKind::RestTimer || *self == CellKind::Note
    }

    pub fn has_role(&self, role: Role) -> (r: bool)
        ensures
            r == self.plays(role),
    {
        match role {
            Role::Weight => *self == CellKind::OtherWeight || *self == CellKind::DumbbellWeight
                || *self == CellKind::BarbellWeight || *self == CellKind::WeightedBodyweight,
            Role::Reps => *self == CellKind::Reps,
            Role::Rpe => *self == CellKind::Rpe,
        }
    }
}

fn same_text(s: &String, lit: &str) -> (r: bool)
    ensures
        r == (s@ == lit@),
{
    *s == lit.to_owned()
}

/// Decodes a tag into the kind it names.
pub fn classify(tag: &String) -> (r: CellKind)
    ensures
        r == kind_of(tag@),
{
    if same_text(tag, "OTHER_WEIGHT") {
        CellKind::OtherWeight
    } else if same_text(tag, "DUMBBELL_WEIGHT") {
        CellKind::DumbbellWeight
    } else if same_text(tag, "BARBELL_WEIGHT") {
        CellKind::BarbellWeight
    } else if same_text(tag, "WEIGHTED_BODYWEIGHT") {
        CellKind::WeightedBodyweight
    } else if same_text(tag, "REPS") {
        CellKind::Reps
    } else if same_text(tag, "RPE") {
        CellKind::Rpe
    } else if same_text(tag, "REST_TIMER") {
        CellKind::RestTimer
    } else if same_text(tag, "NOTE") {
        CellKind::Note
    } else {
        CellKind::Unrecognized
    }
}

pub open spec fn cell_kind(c: Cell) -> CellKind {
    kind_of(c.cell_type@)
}

/// Some cell of `cells` is a rest timer or a note.
pub open spec fn has_excluding_cell(cells: Seq<Cell>) -> bool {
    exists|i: int| 0 <= i < cells.len() && cell_kind(#[trigger] cells[i]).excludes()
}

/// The first cell of `cells`, in their order, that plays `role`.
pub open spec fn first_with_role(cells: Seq<Cell>, role: Role) -> Option<Cell>
    decreases cells.len(),
{
    if cells.len() == 0 {
        None
    } else if cell_kind(cells[0]).plays(role) {
        Some(cells[0])
    } else {
        first_with_role(cells.skip(1), role)
    }
}

/// The raw value of the first cell that plays `role`, where it has one.
pub open spec fn role_value(cells: Seq<Cell>, role: Role) -> Option<String> {
    match first_with_role(cells, role) {
        Some(c) => c.value,
        None => None,
    }
}

/// The value of the first cell that plays `role` where it is a decimal number;
/// otherwise none.
pub open spec fn decimal_of(cells: Seq<Cell>, role: Role) -> Option<String> {
    match role_value(cells, role) {
        Some(v) => if is_decimal_text(v@) {
            Some(v)
        } else {
            None
        },
        None => None,
    }
}

/// The repetition count: the first `REPS` cell's value read as an integer,
/// 0 where there is none or it does not read.
pub open spec fn reps_of(cells: Seq<Cell>) -> u32 {
    match role_value(cells, Role::Reps) {
        Some(v) => match u32_of_text(v@) {
            Some(n) => n,
            None => 0,
        },
        None => 0,
    }
}

/// One performed set. `weight` and `rpe` hold the recorded number in decimal
/// notation, as it was written.
#[derive(Debug)]
pub struct ExerciseSet {
    pub id: String,
    pub weight: Option<String>,
    pub reps: u32,
    pub rpe: Option<String>,
}

/// The set that a cell set yields, if any.
pub open spec fn set_of(cs: CellSet) -> Option<ExerciseSet> {
    if has_excluding_cell(cs.cells@) {
        None
    } else {
        Some(
            ExerciseSet {
                id: cs.id,
                weight: decimal_of(cs.cells@, Role::Weight),
                reps: reps_of(cs.cells@),
                rpe: decimal_of(cs.cells@, Role::Rpe),
            },
        )
    }
}

pub(crate) fn clone_text(o: &Option<String>) -> (r: Option<String>)
    ensures
        r == *o,
{
    match o {
        Some(s) => Some(s.clone()),
        None => None,
    }
}

/// Finds the first cell that plays `role` and returns a copy of its value.
pub fn find_role_value(cells: &Vec<Cell>, role: Role) -> (r: Option<String>)
    ensures
        r == role_value(cells@, role),
{
    let mut i: usize = 0;
    assert(cells@.skip(0) =~= cells@);
    while i < cells.len()
        invariant
            i <= cells@.len(),
            first_with_role(cells@, role) == first_with_role(cells@.skip(i as int), role),
        decreases cells@.len() - i,
    {
        let kind = classify(&cells[i].cell_type);
        assert(cells@.skip(i as int)[0] == cells@[i as int]);
        if kind.has_role(role) {
            return clone_text(&cells[i].value);
        }
        assert(cells@.skip(i as int).skip(1) =~= cells@.skip(i + 1));
        i = i + 1;
    }
    assert(cells@.skip(i as int).len() == 0);
    None
}

/// Whether some cell is a rest timer or a note.
pub fn has_excluding(cells: &Vec<Cell>) -> (r: bool)
    ensures
        r == has_excluding_cell(cells@),
{
    let mut i: usize = 0;
    while i < cells.len()
        invariant
            i <= cells@.len(),
            forall|k: int| 0 <= k < i ==> !cell_kind(#[trigger] cells@[k]).excludes(),
        decreases cells@.len() - i,
    {
        if classify(&cells[i].cell_type).is_excluding() {
            return true;
        }
        i = i + 1;
    }
    false
}

fn decimal_value(cells: &Vec<Cell>, role: Role) -> (r: Option<String>)
    ensures
        r == decimal_of(cells@, role),
{
    match find_role_value(cells, role) {
        Some(v) => if is_decimal(v.as_str()) {
            Some(v)
        } else {
            None
        },
        None => None,
    }
}

/// The set that `cell_set` yields: none where it holds a rest timer or a note;
/// otherwise its weight, repetitions (0 by default) and exertion score.
pub fn extract_set(cell_set: &CellSet) -> (r: Option<ExerciseSet>)
    ensures
        r == set_of(*cell_set),
{
    if has_excluding(&cell_set.cells) {
        return None;
    }
    let weight = decimal_value(&cell_set.cells, Role::Weight);
    let reps = match find_role_value(&cell_set.cells, Role::Reps) {
        Some(v) => match parse_u32(v.as_str()) {
            Some(n) => n,
            None => 0,
        },
        None => 0,
    };
    let rpe = decimal_value(&cell_set.cells, Role::Rpe);
    Some(ExerciseSet { id: cell_set.id.clone(), weight, reps, rpe })
}

/// The first cell of a role is the one at the lowest position that plays it.
pub proof fn lemma_first_with_role(cells: Seq<Cell>, role: Role, i: int)
    requires
        0 <= i <= cells.len(),
        forall|k: int| 0 <= k < i ==> !cell_kind(#[trigger] cells[k]).plays(role),
        i < cells.len() ==> cell_kind(cells[i]).plays(role),
    ensures
        first_with_role(cells, role) == if i < cells.len() {
            Some(cells[i])
        } else {
            None::<Cell>
        },
    decreases cells.len(),
{
    if cells.len() > 0 && i > 0 {
        let rest = cells.skip(1);
        assert forall|k: int| 0 <= k < i - 1 implies !cell_kind(#[trigger] rest[k]).plays(role) by {
            assert(rest[k] == cells[k + 1]);
        }
        lemma_first_with_role(rest, role, i - 1);
    }
}

/// A cell set that holds a rest timer or a note yields no set, whatever else it holds.
pub proof fn lemma_excluding_cell_yields_no_set(cs: CellSet, i: int)
    requires
        0 <= i < cs.cells@.len(),
        cell_kind(cs.cells@[i]).excludes(),
    ensures
        set_of(cs) is None,
{
}

/// A set whose cell set has no `REPS` cell, or whose first `REPS` cell holds
/// no integer, counts 0 repetitions.
pub proof fn lemma_reps_default_zero(cs: CellSet)
    requires
        !has_excluding_cell(cs.cells@),
        (forall|k: int| 0 <= k < cs.cells@.len() ==> !cell_kind(#[trigger] cs.cells@[k]).plays(Role::Reps))
            || (role_value(cs.cells@, Role::Reps) matches Some(v) && u32_of_text(v@) is None),
    ensures
        set_of(cs) matches Some(s) && s.reps == 0,
{
    if forall|k: int| 0 <= k < cs.cells@.len() ==> !cell_kind(#[trigger] cs.cells@[k]).plays(Role::Reps) {
        lemma_first_with_role(cs.cells@, Role::Reps, cs.cells@.len() as int);
    }
}

/// Among weight cells of different tags, the first in the cell set decides
/// the weight: where it holds a decimal number, that number is the weight.
pub proof fn lemma_first_weight_cell_wins(cs: CellSet, i: int)
    requires
        !has_excluding_cell(cs.cells@),
        0 <= i < cs.cells@.len(),
        cell_kind(cs.cells@[i]).plays(Role::Weight),
        forall|k: int| 0 <= k < i ==> !cell_kind(#[trigger] cs.cells@[k]).plays(Role::Weight),
        cs.cells@[i].value matches Some(v) && is_decimal_text(v@),
    ensures
        set_of(cs) matches Some(s) && s.weight == cs.cells@[i].value,
{
    lemma_first_with_role(cs.cells@, Role::Weight, i);
}

} // verus!
