//! Plans: what is to be done to files and programs, step by step, and how far
//! it has been done.
use vstd::prelude::*;

use crate::text::{opt_text, texts};

verus! {

// ── Data ──────────────────────────────────────────────────────────────────────

/// A directory that is known to the system.
#[derive(Debug)]
pub enum Folder {
    /// The root of the drive.
    UsbRoot,
    /// Where the user's applications keep their data.
    LocalData,
    /// The same, where it follows the user from machine to machine.
    RoamingData,
    /// The user's desktop.
    Desktop,
    /// The directory of the executable.
    ExeDir,
    /// The directory with that path.
    At(String),
}

/// A path below a folder: its parts, joined one after the other.
#[derive(Debug)]
pub struct Place {
    pub folder: Folder,
    pub path: Vec<String>,
}

/// Something to be done.
#[derive(Debug)]
pub enum Op {
    /// Let everybody run the file, and its owner change it (mode 755);
    /// `if_present`: do nothing where there is no such file.
    MarkExecutable { place: Place, if_present: bool },
    /// Create the directory and those above it.
    CreateDir { place: Place },
    Write { place: Place, content: String },
    Copy { from: Place, to: Place },
    /// Remove the file, where there is one.
    Remove { place: Place },
    /// Have the system look at the shortcuts in the directory again.
    RefreshDatabase { place: Place },
    /// Create a link of the Windows start menu to the program `target`, which
    /// is to run in the directory `dir`.
    Link { link: Place, target: Place, dir: Place, description: String },
    /// Run the program.
    Launch { place: Place },
}

/// A step of a plan. Where a step that is required fails, the plan has failed;
/// that any other fails does not matter.
#[derive(Debug)]
pub struct Step {
    pub op: Op,
    pub required: bool,
}

/// A plan, and the file that it leaves, if it leaves one.
#[derive(Debug)]
pub struct Plan {
    pub steps: Vec<Step>,
    pub product: Option<Place>,
}

// ── Models ────────────────────────────────────────────────────────────────────

#[verifier::ext_equal]
pub enum FolderModel {
    UsbRoot,
    LocalData,
    RoamingData,
    Desktop,
    ExeDir,
    At(Seq<char>),
}

#[verifier::ext_equal]
pub struct PlaceModel {
    pub folder: FolderModel,
    pub path: Seq<Seq<char>>,
}

#[verifier::ext_equal]
pub enum OpModel {
    MarkExecutable { place: PlaceModel, if_present: bool },
    CreateDir { place: PlaceModel },
    Write { place: PlaceModel, content: Seq<char> },
    Copy { from: PlaceModel, to: PlaceModel },
    Remove { place: PlaceModel },
    RefreshDatabase { place: PlaceModel },
    Link { link: PlaceModel, target: PlaceModel, dir: PlaceModel, description: Seq<char> },
    Launch { place: PlaceModel },
}

#[verifier::ext_equal]
pub struct StepModel {
    pub op: OpModel,
    pub required: bool,
}

#[verifier::ext_equal]
pub struct PlanModel {
    pub steps: Seq<StepModel>,
    pub product: Option<PlaceModel>,
}

impl View for Folder {
    type V = FolderModel;

    open spec fn view(&self) -> FolderModel {
        match *self {
            Folder::UsbRoot => FolderModel::UsbRoot,
            Folder::LocalData => FolderModel::LocalData,
            Folder::RoamingData => FolderModel::RoamingData,
            Folder::Desktop => FolderModel::Desktop,
            Folder::ExeDir => FolderModel::ExeDir,
            Folder::At(path) => FolderModel::At(path@),
        }
    }
}

impl View for Place {
    type V = PlaceModel;

    open spec fn view(&self) -> PlaceModel {
        PlaceModel { folder: self.folder@, path: texts(self.path@) }
    }
}

impl View for Op {
    type V = OpModel;

    open spec fn view(&self) -> OpModel {
        match *self {
            Op::MarkExecutable { place, if_present } => OpModel::MarkExecutable {
                place: place@,
                if_present,
            },
            Op::CreateDir { place } => OpModel::CreateDir { place: place@ },
            Op::Write { place, content } => OpModel::Write { place: place@, content: content@ },
            Op::Copy { from, to } => OpModel::Copy { from: from@, to: to@ },
            Op::Remove { place } => OpModel::Remove { place: place@ },
            Op::RefreshDatabase { place } => OpModel::RefreshDatabase { place: place@ },
            Op::Link { link, target, dir, description } => OpModel::Link {
                link: link@,
                target: target@,
                dir: dir@,
                description: description@,
            },
            Op::Launch { place } => OpModel::Launch { place: place@ },
        }
    }
}

impl View for Step {
    type V = StepModel;

    open spec fn view(&self) -> StepModel {
        StepModel { op: self.op@, required: self.required }
    }
}

/// The models of a list of steps.
pub open spec fn step_models(steps: Seq<Step>) -> Seq<StepModel> {
    steps.map_values(|s: Step| s@)
}

/// The place that there is, if there is one.
pub open spec fn opt_place(p: Option<Place>) -> Option<PlaceModel> {
    match p {
        Some(p) => Some(p@),
        None => None,
    }
}

impl View for Plan {
    type V = PlanModel;

    open spec fn view(&self) -> PlanModel {
        PlanModel { steps: step_models(self.steps@), product: opt_place(self.product) }
    }
}

/// A step that has to succeed.
pub open spec fn must(op: OpModel) -> StepModel {
    StepModel { op, required: true }
}

/// A step that may fail.
pub open spec fn may(op: OpModel) -> StepModel {
    StepModel { op, required: false }
}

/// The path `parts` below a folder.
pub open spec fn below(folder: FolderModel, parts: Seq<Seq<char>>) -> PlaceModel {
    PlaceModel { folder, path: parts }
}

// ── Building ──────────────────────────────────────────────────────────────────

/// A folder itself.
pub fn place_itself(folder: Folder) -> (r: Place)
    ensures
        r@ == below(folder@, Seq::empty()),
{
    let r = Place { folder, path: Vec::new() };
    assert(r@.path =~= Seq::empty());
    r
}

/// The path of one part below a folder.
pub fn place_of(folder: Folder, part: &str) -> (r: Place)
    ensures
        r@ == below(folder@, seq![part@]),
{
    let mut path: Vec<String> = Vec::new();
    path.push(part.to_owned());
    let r = Place { folder, path };
    assert(r@.path =~= seq![part@]);
    r
}

/// The path of two parts below a folder.
pub fn place_of_two(folder: Folder, first: &str, second: &str) -> (r: Place)
    ensures
        r@ == below(folder@, seq![first@, second@]),
{
    let mut path: Vec<String> = Vec::new();
    path.push(first.to_owned());
    path.push(second.to_owned());
    let r = Place { folder, path };
    assert(r@.path =~= seq![first@, second@]);
    r
}

/// Adds a step that has to succeed.
pub fn push_must(steps: &mut Vec<Step>, op: Op)
    ensures
        step_models(final(steps)@) == step_models(old(steps)@).push(must(op@)),
{
    let ghost before = step_models(steps@);
    steps.push(Step { op, required: true });
    assert(step_models(steps@) =~= before.push(must(op@)));
}

/// Adds a step that may fail.
pub fn push_may(steps: &mut Vec<Step>, op: Op)
    ensures
        step_models(final(steps)@) == step_models(old(steps)@).push(may(op@)),
{
    let ghost before = step_models(steps@);
    steps.push(Step { op, required: false });
    assert(step_models(steps@) =~= before.push(may(op@)));
}

// ── Carrying out ──────────────────────────────────────────────────────────────

/// A plan that is being carried out: the step to be done next, and the reason
/// why the plan has failed, if it has.
#[derive(Debug)]
pub struct Run {
    pub plan: Plan,
    pub next: usize,
    pub failure: Option<String>,
}

#[verifier::ext_equal]
pub struct RunModel {
    pub plan: PlanModel,
    pub next: int,
    pub failure: Option<Seq<char>>,
}

impl View for Run {
    type V = RunModel;

    open spec fn view(&self) -> RunModel {
        RunModel {
            plan: self.plan@,
            next: self.next as int,
            failure: opt_text(self.failure),
        }
    }
}

/// The text of a failure, if there is one.
pub open spec fn failure_of(result: Result<(), String>) -> Option<Seq<char>> {
    match result {
        Ok(_) => None,
        Err(e) => Some(e@),
    }
}

/// A step is still to be done.
pub open spec fn is_running(r: RunModel) -> bool {
    r.failure is None && 0 <= r.next < r.plan.steps.len()
}

/// After a step: a required step that failed ends the run, with its reason.
pub open spec fn after_step(r: RunModel, failure: Option<Seq<char>>) -> RunModel {
    if failure is Some && r.plan.steps[r.next].required {
        RunModel { failure, ..r }
    } else {
        RunModel { next: r.next + 1, ..r }
    }
}

impl Run {
    /// A plan of which nothing is done yet.
    pub fn new(plan: Plan) -> (r: Run)
        ensures
            r@ == (RunModel { plan: plan@, next: 0, failure: None }),
    {
        Run { plan, next: 0, failure: None }
    }

    /// The step to be done, or none once the plan is done or has failed.
    pub fn current(&self) -> (r: Option<&Step>)
        ensures
            is_running(self@) ==> r is Some && r->0@ == self@.plan.steps[self@.next],
            !is_running(self@) ==> r is None,
    {
        if self.failure.is_none() && self.next < self.plan.steps.len() {
            assert(self@.plan.steps[self@.next] == self.plan.steps@[self.next as int]@);
            Some(&self.plan.steps[self.next])
        } else {
            None
        }
    }

    /// Takes the result of the step.
    pub fn report(&mut self, result: Result<(), String>)
        requires
            is_running(old(self)@),
        ensures
            final(self)@ == after_step(old(self)@, failure_of(result)),
    {
        let count: usize = self.plan.steps.len();
        assert(self.next < count);
        assert(self@.plan.steps[self@.next] == self.plan.steps@[self.next as int]@);
        let required: bool = self.plan.steps[self.next].required;
        match result {
            Err(e) => {
                if required {
                    self.failure = Some(e);
                } else {
                    self.next += 1;
                }
            },
            Ok(_) => {
                self.next += 1;
            },
        }
    }

    /// Whether the plan has failed, and why.
    pub fn outcome(&self) -> (r: Result<(), String>)
        ensures
            failure_of(r) == self@.failure,
    {
        match &self.failure {
            Some(e) => Err(e.clone()),
            None => Ok(()),
        }
    }
}

/// A run carried to its end, where the steps would end as `results` tells, one
/// result for each step.
pub open spec fn carried_out(r: RunModel, results: Seq<Option<Seq<char>>>) -> RunModel
    decreases r.plan.steps.len() - r.next,
{
    if is_running(r) {
        if results[r.next] is Some && r.plan.steps[r.next].required {
            after_step(r, results[r.next])
        } else {
            carried_out(after_step(r, results[r.next]), results)
        }
    } else {
        r
    }
}

/// A plan fails exactly where one of its required steps does, with the reason
/// of the first that does, and no step behind that one is done. Otherwise all
/// steps are done.
pub proof fn law_run_outcome(r: RunModel, results: Seq<Option<Seq<char>>>)
    requires
        r.failure is None,
        0 <= r.next <= r.plan.steps.len(),
        results.len() == r.plan.steps.len(),
        forall|i: int|
            0 <= i < r.next && r.plan.steps[i].required ==> #[trigger] results[i] is None,
    ensures
        ({
            let end = carried_out(r, results);
            &&& end.plan == r.plan
            &&& forall|i: int|
                0 <= i < end.next && r.plan.steps[i].required ==> #[trigger] results[i] is None
            &&& match end.failure {
                Some(e) => {
                    &&& 0 <= end.next < r.plan.steps.len()
                    &&& r.plan.steps[end.next].required
                    &&& results[end.next] == Some(e)
                },
                None => end.next == r.plan.steps.len(),
            }
        }),
    decreases r.plan.steps.len() - r.next,
{
    if is_running(r) {
        if !(results[r.next] is Some && r.plan.steps[r.next].required) {
            law_run_outcome(after_step(r, results[r.next]), results);
        }
    }
}

} // verus!
