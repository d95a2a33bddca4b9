//! OBS scenes: the actions and their steps, and the layout plan of a scene.

use vstd::prelude::*;
use crate::error::{Error, ErrorOf, Failure};
use crate::number::{decimal, law_decimal_reads_back, parse_number, read_number};
use crate::text::{blank, is_blank, is_listed, same, text_of, texts};

verus! {

/// What the user wants done with OBS.
#[derive(Clone, Debug, PartialEq, Eq)]
pub enum Action {
    /// Compute the layout of a scene from the specification file.
    Plan { spec: String },
    /// Put the scene of the specification file into OBS.
    Apply { spec: String },
    /// Have a vision model judge a scene.
    Evaluate { scene: String },
    /// Apply a specification file and evaluate the scene.
    Compose { spec: String },
}

impl Action {
    /// Reads an action: a verb and its one operand.
    pub fn parse(arguments: &[String]) -> (res: Result<Action, Error>)
        ensures
            ({
                let args = texts(arguments@);
                match res {
                    Ok(Action::Plan { spec }) => args == seq!["plan"@, spec@],
                    Ok(Action::Apply { spec }) => args == seq!["apply"@, spec@],
                    Ok(Action::Evaluate { scene }) => args == seq!["evaluate"@, scene@],
                    Ok(Action::Compose { spec }) => args == seq!["compose"@, spec@],
                    Err(error) => error@ == Failure::ObsUsage && !(args.len() == 2 && (args[0]
                        == "plan"@ || args[0] == "apply"@ || args[0] == "evaluate"@ || args[0]
                        == "compose"@)),
                }
            }),
    {
        if arguments.len() != 2 {
            return Err(ErrorOf::ObsUsage);
        }
        let verb = arguments[0].as_str();
        let operand = arguments[1].clone();
        let ghost args = texts(arguments@);
        assert(args =~= seq![verb@, operand@]);
        if same(verb, "plan") {
            Ok(Action::Plan { spec: operand })
        } else if same(verb, "apply") {
            Ok(Action::Apply { spec: operand })
        } else if same(verb, "evaluate") {
            Ok(Action::Evaluate { scene: operand })
        } else if same(verb, "compose") {
            Ok(Action::Compose { spec: operand })
        } else {
            Err(ErrorOf::ObsUsage)
        }
    }
}

/// One step of an action. A step that fails ends the action.
#[derive(Clone, Copy, Debug, PartialEq, Eq, Structural)]
pub enum Step {
    /// Read the specification file.
    ReadSpec,
    /// Compute the layout and print it.
    PrintPlan,
    Connect,
    /// Put the scene into OBS.
    ApplyScene,
    PrintApplied,
    /// Have the vision model judge the scene.
    EvaluateScene,
    PrintEvaluation,
    /// Print what was put into OBS together with the judgement.
    PrintComposition,
    Disconnect,
}

/// The steps of an action, in order.
pub open spec fn steps_of(action: Action) -> Seq<Step> {
    match action {
        Action::Plan { spec } => seq![Step::ReadSpec, Step::PrintPlan],
        Action::Apply { spec } => seq![
            Step::Connect,
            Step::ReadSpec,
            Step::ApplyScene,
            Step::PrintApplied,
            Step::Disconnect,
        ],
        Action::Evaluate { scene } => seq![
            Step::Connect,
            Step::EvaluateScene,
            Step::PrintEvaluation,
            Step::Disconnect,
        ],
        Action::Compose { spec } => seq![
            Step::Connect,
            Step::ReadSpec,
            Step::ApplyScene,
            Step::EvaluateScene,
            Step::PrintComposition,
            Step::Disconnect,
        ],
    }
}

/// The steps of an action, in order.
pub fn steps(action: &Action) -> (res: Vec<Step>)
    ensures
        res@ == steps_of(*action),
{
    let mut res: Vec<Step> = Vec::new();
    match action {
        Action::Plan { spec } => {
            res.push(Step::ReadSpec);
            res.push(Step::PrintPlan);
        },
        Action::Apply { spec } => {
            res.push(Step::Connect);
            res.push(Step::ReadSpec);
            res.push(Step::ApplyScene);
            res.push(Step::PrintApplied);
            res.push(Step::Disconnect);
        },
        Action::Evaluate { scene } => {
            res.push(Step::Connect);
            res.push(Step::EvaluateScene);
            res.push(Step::PrintEvaluation);
            res.push(Step::Disconnect);
        },
        Action::Compose { spec } => {
            res.push(Step::Connect);
            res.push(Step::ReadSpec);
            res.push(Step::ApplyScene);
            res.push(Step::EvaluateScene);
            res.push(Step::PrintComposition);
            res.push(Step::Disconnect);
        },
    }
    assert(res@ =~= steps_of(*action));
    res
}

/// Planning stays offline, and every other action connects first and disconnects
/// last.
pub proof fn law_planning_stays_offline(action: Action)
    ensures
        steps_of(action).contains(Step::Connect) <==> !(action is Plan),
        !(action is Plan) ==> steps_of(action)[0] == Step::Connect && steps_of(action).last()
            == Step::Disconnect,
{
    if !(action is Plan) {
        assert(steps_of(action)[0] == Step::Connect);
    }
}

/// Scenes are changed by applying and composing alone: judging a scene changes
/// nothing in it.
pub proof fn law_judging_changes_nothing(action: Action)
    ensures
        steps_of(action).contains(Step::ApplyScene) <==> action is Apply || action is Compose,
        steps_of(action).contains(Step::EvaluateScene) <==> action is Evaluate || action is Compose,
{
    let steps = steps_of(action);
    match action {
        Action::Apply { .. } => {
            assert(steps[2] == Step::ApplyScene);
        },
        Action::Compose { .. } => {
            assert(steps[2] == Step::ApplyScene && steps[3] == Step::EvaluateScene);
        },
        Action::Evaluate { .. } => {
            assert(steps[1] == Step::EvaluateScene);
        },
        _ => {},
    }
}

/// What an action prints, it prints once the work is done: the plan of a
/// specification, what was applied, the judgement, or the last two together. The
/// specification is read first, by every action that has one.
pub proof fn law_actions_print_their_result(action: Action)
    ensures
        steps_of(action).contains(Step::PrintPlan) <==> action is Plan,
        steps_of(action).contains(Step::PrintApplied) <==> action is Apply,
        steps_of(action).contains(Step::PrintEvaluation) <==> action is Evaluate,
        steps_of(action).contains(Step::PrintComposition) <==> action is Compose,
        steps_of(action).contains(Step::ReadSpec) <==> !(action is Evaluate),
        action is Plan ==> steps_of(action).last() == Step::PrintPlan && steps_of(action)[0]
            == Step::ReadSpec,
        forall|i: int, j: int|
            0 <= i < steps_of(action).len() && 0 <= j < steps_of(action).len() ==> {
                let a = #[trigger] steps_of(action)[i];
                let b = #[trigger] steps_of(action)[j];
                &&& a is ReadSpec && (b is ApplyScene || b is PrintPlan) ==> i < j
                &&& a is ApplyScene && (b is EvaluateScene || b is PrintApplied) ==> i < j
                &&& a is EvaluateScene && (b is PrintEvaluation || b is PrintComposition) ==> i < j
                &&& (a is PrintApplied || a is PrintEvaluation || a is PrintComposition)
                    && b is Disconnect ==> i < j
            },
        steps_of(action).no_duplicates(),
{
    let steps = steps_of(action);
    match action {
        Action::Plan { .. } => {
            assert(steps[0] == Step::ReadSpec && steps[1] == Step::PrintPlan);
        },
        Action::Apply { .. } => {
            assert(steps[1] == Step::ReadSpec && steps[3] == Step::PrintApplied);
        },
        Action::Evaluate { .. } => {
            assert(steps[2] == Step::PrintEvaluation);
        },
        Action::Compose { .. } => {
            assert(steps[1] == Step::ReadSpec && steps[4] == Step::PrintComposition);
        },
    }
}

/// A scene that the vision model is to judge.
pub struct Judged<'a> {
    pub scene: &'a str,
    /// The metrics of the layout are told to the model.
    pub with_metrics: bool,
}

/// The scene that an action has judged: the operand of `evaluate`, without
/// metrics, and the scene of the specification that `compose` has applied, with
/// the metrics of its layout.
pub fn scene_to_judge<'a>(action: &'a Action, spec: Option<&'a SceneSpec>) -> (res: Option<
    Judged<'a>,
>)
    ensures
        match (action, spec) {
            (Action::Evaluate { scene }, _) => {
                res matches Some(judged) && judged.scene@ == scene@ && !judged.with_metrics
            },
            (Action::Compose { spec: path }, Some(applied)) => {
                res matches Some(judged) && judged.scene@ == applied.scene@ && judged.with_metrics
            },
            _ => res is None,
        },
{
    match action {
        Action::Evaluate { scene } => Some(Judged { scene: scene.as_str(), with_metrics: false }),
        Action::Compose { spec: path } => match spec {
            Some(applied) => Some(Judged { scene: applied.scene.as_str(), with_metrics: true }),
            None => None,
        },
        _ => None,
    }
}

/// Where OBS listens by default.
pub const DEFAULT_HOST: &'static str = "127.0.0.1";

/// The port that OBS listens on by default.
pub const DEFAULT_PORT: u16 = 4455;

/// The port that a setting names; the default one without a setting.
pub open spec fn port_of(setting: Option<Seq<char>>) -> Result<nat, Failure> {
    match setting {
        None => Ok(DEFAULT_PORT as nat),
        Some(text) => match read_number(text, u16::MAX as nat) {
            Ok(port) => Ok(port),
            Err(cause) => Err(Failure::ObsPort { cause }),
        },
    }
}

/// The host and port to connect to.
pub fn endpoint(host: Option<String>, port: Option<String>) -> (res: Result<(String, u16), Error>)
    ensures
        match (res, port_of(text_of(port))) {
            (Ok((at, number)), Ok(expected)) => number == expected && at@ == match host {
                Some(name) => name@,
                None => DEFAULT_HOST@,
            },
            (Err(error), Err(failure)) => error@ == failure,
            _ => false,
        },
{
    let number: u16 = match port {
        None => DEFAULT_PORT,
        Some(text) => match parse_number(text.as_str(), 65535) {
            Ok(value) => value as u16,
            Err(cause) => {
                return Err(ErrorOf::ObsPort { cause });
            },
        },
    };
    let at = match host {
        Some(name) => name,
        None => DEFAULT_HOST.to_owned(),
    };
    Ok((at, number))
}

/// How a source's picture is fitted into its rectangle.
#[derive(Clone, Copy, Debug, PartialEq, Eq, Structural)]
pub enum Fit {
    /// The whole picture is visible.
    Contain,
    /// The whole rectangle is covered.
    Cover,
    /// The picture is distorted to the rectangle.
    Stretch,
}

impl Default for Fit {
    fn default() -> (res: Fit)
        ensures
            res == Fit::Contain,
    {
        Fit::Contain
    }
}

/// How OBS scales a source to its bounds.
#[derive(Clone, Copy, Debug, PartialEq, Eq, Structural)]
pub enum BoundsKind {
    ScaleInner,
    ScaleOuter,
    Stretch,
}

impl Fit {
    /// The scaling that fits the picture so.
    pub open spec fn bounds_kind(self) -> BoundsKind {
        match self {
            Fit::Contain => BoundsKind::ScaleInner,
            Fit::Cover => BoundsKind::ScaleOuter,
            Fit::Stretch => BoundsKind::Stretch,
        }
    }

    /// The scaling that fits the picture so.
    pub fn bounds(self) -> (res: BoundsKind)
        ensures
            res == self.bounds_kind(),
    {
        match self {
            Fit::Contain => BoundsKind::ScaleInner,
            Fit::Cover => BoundsKind::ScaleOuter,
            Fit::Stretch => BoundsKind::Stretch,
        }
    }
}

/// The drawing area of a scene.
#[derive(Clone, Copy, Debug, PartialEq, Eq, Structural)]
pub struct Canvas {
    pub width: u32,
    pub height: u32,
    /// The safe margin is finite, not negative, and leaves room on the canvas.
    pub margin_fits: bool,
}

/// One source of a scene, as the user specifies it.
#[derive(Clone, Debug, PartialEq, Eq)]
pub struct SourceSpec {
    pub name: String,
    pub kind: String,
    /// The rectangle is finite, not empty, and lies within the canvas.
    pub rect_fits: bool,
    pub fit: Fit,
    pub enabled: bool,
    pub locked: bool,
    pub allow_overlap: bool,
}

/// A scene, as the user specifies it.
#[derive(Clone, Debug, PartialEq, Eq)]
pub struct SceneSpec {
    pub scene: String,
    pub activate: bool,
    pub sources: Vec<SourceSpec>,
}

/// One source of a planned scene.
#[derive(Clone, Debug, PartialEq, Eq)]
pub struct PlannedSource {
    pub name: String,
    pub kind: String,
    pub fit: Fit,
    pub enabled: bool,
    pub locked: bool,
}

/// A planned scene.
#[derive(Clone, Debug, PartialEq, Eq)]
pub struct LayoutPlan {
    pub scene: String,
    pub canvas: Canvas,
    pub sources: Vec<PlannedSource>,
    /// The pairs of sources whose overlap counts against the layout.
    pub measured_pairs: Vec<(usize, usize)>,
}

/// The names of the sources.
pub open spec fn source_names(sources: Seq<SourceSpec>) -> Seq<Seq<char>> {
    sources.map_values(|source: SourceSpec| source.name@)
}

/// What is wrong with the source at index `i`, seen on its own and beside the
/// sources before it.
pub open spec fn source_flaw(sources: Seq<SourceSpec>, i: int) -> Option<Failure> {
    let source = sources[i];
    if is_blank(source.name@) || is_blank(source.kind@) {
        Some(Failure::SourceFieldsEmpty)
    } else if source_names(sources.take(i)).contains(source.name@) {
        Some(Failure::SourceDuplicate { name: source.name@ })
    } else if !source.rect_fits {
        Some(Failure::SourceRect { name: source.name@ })
    } else {
        None
    }
}

/// What is wrong with the first source that has a flaw, among those before `n`.
pub open spec fn first_flaw(sources: Seq<SourceSpec>, n: int) -> Option<Failure>
    decreases n,
{
    if n <= 0 {
        None
    } else {
        match first_flaw(sources, n - 1) {
            Some(flaw) => Some(flaw),
            None => source_flaw(sources, n - 1),
        }
    }
}

/// What is wrong with a scene on a canvas.
pub open spec fn scene_flaw(spec: SceneSpec, canvas: Canvas) -> Option<Failure> {
    if is_blank(spec.scene@) {
        Some(Failure::SceneNameEmpty)
    } else if canvas.width < 8 || canvas.height < 8 {
        Some(Failure::CanvasTooSmall)
    } else if !canvas.margin_fits {
        Some(Failure::SafeMargin)
    } else {
        first_flaw(spec.sources@, spec.sources@.len() as int)
    }
}

/// Checks a scene against a canvas: the first flaw is the error.
pub fn validate(spec: &SceneSpec, canvas: Canvas) -> (res: Result<(), Error>)
    ensures
        match res {
            Ok(_) => scene_flaw(*spec, canvas) is None,
            Err(error) => scene_flaw(*spec, canvas) == Some(error@),
        },
{
    if blank(spec.scene.as_str()) {
        return Err(ErrorOf::SceneNameEmpty);
    }
    if canvas.width < 8 || canvas.height < 8 {
        return Err(ErrorOf::CanvasTooSmall);
    }
    if !canvas.margin_fits {
        return Err(ErrorOf::SafeMargin);
    }
    let ghost all = spec.sources@;
    let mut names: Vec<String> = Vec::new();
    let mut i: usize = 0;
    while i < spec.sources.len()
        invariant
            i <= spec.sources.len(),
            all == spec.sources@,
            texts(names@) =~= source_names(all.take(i as int)),
            first_flaw(all, i as int) is None,
            !is_blank(spec.scene@),
            canvas.width >= 8,
            canvas.height >= 8,
            canvas.margin_fits,
        decreases spec.sources.len() - i,
    {
        let source = &spec.sources[i];
        let flaw: Option<Error> = if blank(source.name.as_str()) || blank(source.kind.as_str()) {
            Some(ErrorOf::SourceFieldsEmpty)
        } else if is_listed(&names, source.name.as_str()) {
            Some(ErrorOf::SourceDuplicate { name: source.name.clone() })
        } else if !source.rect_fits {
            Some(ErrorOf::SourceRect { name: source.name.clone() })
        } else {
            None
        };
        assert(match flaw {
            Some(error) => source_flaw(all, i as int) == Some(error@),
            None => source_flaw(all, i as int) is None,
        });
        match flaw {
            Some(error) => {
                proof {
                    lemma_first_flaw_stays(all, i + 1, all.len() as int);
                }
                return Err(error);
            },
            None => {},
        }
        let ghost before = names@;
        names.push(source.name.clone());
        proof {
            assert(texts(names@) =~= texts(before).push(source.name@));
            assert(source_names(all.take(i + 1)) =~= source_names(all.take(i as int)).push(
                source.name@,
            ));
        }
        i = i + 1;
    }
    Ok(())
}

proof fn lemma_first_flaw_stays(sources: Seq<SourceSpec>, n: int, m: int)
    requires
        0 <= n <= m,
        first_flaw(sources, n) is Some,
    ensures
        first_flaw(sources, m) == first_flaw(sources, n),
    decreases m,
{
    if n < m {
        lemma_first_flaw_stays(sources, n, m - 1);
    }
}

/// A scene passes exactly when it is named, its canvas is large enough for it
/// and the margin, and its sources are named, of some kind, inside the canvas,
/// and all of different names.
pub proof fn law_accepted_scenes(spec: SceneSpec, canvas: Canvas)
    ensures
        scene_flaw(spec, canvas) is None <==> {
            &&& !is_blank(spec.scene@)
            &&& canvas.width >= 8
            &&& canvas.height >= 8
            &&& canvas.margin_fits
            &&& forall|i: int|
                0 <= i < spec.sources@.len() ==> {
                    let source = #[trigger] spec.sources@[i];
                    !is_blank(source.name@) && !is_blank(source.kind@) && source.rect_fits
                }
            &&& forall|i: int, j: int|
                0 <= i < j < spec.sources@.len() ==> (#[trigger] spec.sources@[i]).name@ != (
                #[trigger] spec.sources@[j]).name@
        },
{
    let all = spec.sources@;
    let n = all.len() as int;
    lemma_first_flaw_none(all, n);
    if forall|i: int| 0 <= i < n ==> source_flaw(all, i) is None {
        assert forall|i: int, j: int| 0 <= i < j < n implies (#[trigger] all[i]).name@ != (
        #[trigger] all[j]).name@ by {
            assert(source_flaw(all, j) is None);
            let earlier = source_names(all.take(j));
            assert(earlier[i] == all[i].name@);
        }
        assert forall|i: int| 0 <= i < n implies {
            let source = #[trigger] all[i];
            !is_blank(source.name@) && !is_blank(source.kind@) && source.rect_fits
        } by {
            assert(source_flaw(all, i) is None);
        }
    } else {
        let i = choose|i: int| 0 <= i < n && !(source_flaw(all, i) is None);
        let earlier = source_names(all.take(i));
        if earlier.contains(all[i].name@) {
            let k = choose|k: int| 0 <= k < earlier.len() && earlier[k] == all[i].name@;
            assert(all[k].name@ == all[i].name@);
        }
    }
}

proof fn lemma_first_flaw_none(sources: Seq<SourceSpec>, n: int)
    requires
        0 <= n <= sources.len(),
    ensures
        first_flaw(sources, n) is None <==> forall|i: int|
            0 <= i < n ==> #[trigger] source_flaw(sources, i) is None,
    decreases n,
{
    if n > 0 {
        lemma_first_flaw_none(sources, n - 1);
        if forall|i: int| 0 <= i < n ==> #[trigger] source_flaw(sources, i) is None {
            assert(source_flaw(sources, n - 1) is None);
        }
    }
}

/// The overlap of two sources counts against the layout: neither of them may
/// overlap others.
pub open spec fn is_measured(sources: Seq<SourceSpec>, left: int, right: int) -> bool {
    &&& 0 <= left < right < sources.len()
    &&& !sources[left].allow_overlap
    &&& !sources[right].allow_overlap
}

/// One pair of indices stands before another: its left index is smaller, or its
/// right one is and the left ones are the same.
pub open spec fn pair_before(a: (usize, usize), b: (usize, usize)) -> bool {
    a.0 < b.0 || (a.0 == b.0 && a.1 < b.1)
}

/// The list holds exactly the measured pairs, each once and in order.
pub open spec fn are_measured_pairs(sources: Seq<SourceSpec>, pairs: Seq<(usize, usize)>) -> bool {
    &&& forall|k: int|
        0 <= k < pairs.len() ==> is_measured(
            sources,
            (#[trigger] pairs[k]).0 as int,
            pairs[k].1 as int,
        )
    &&& forall|left: usize, right: usize|
        is_measured(sources, left as int, right as int) ==> #[trigger] pairs.contains((left, right))
    &&& forall|j: int, k: int|
        0 <= j < k < pairs.len() ==> pair_before(#[trigger] pairs[j], #[trigger] pairs[k])
}

/// The pairs of sources whose overlap counts against the layout.
pub fn measured_pairs(sources: &Vec<SourceSpec>) -> (res: Vec<(usize, usize)>)
    ensures
        are_measured_pairs(sources@, res@),
{
    let mut res: Vec<(usize, usize)> = Vec::new();
    let mut left: usize = 0;
    while left < sources.len()
        invariant
            left <= sources.len(),
            forall|k: int|
                0 <= k < res@.len() ==> is_measured(
                    sources@,
                    (#[trigger] res@[k]).0 as int,
                    res@[k].1 as int,
                ) && res@[k].0 < left,
            forall|l: usize, r: usize|
                is_measured(sources@, l as int, r as int) && l < left
                    ==> #[trigger] res@.contains((l, r)),
            forall|j: int, k: int|
                0 <= j < k < res@.len() ==> pair_before(#[trigger] res@[j], #[trigger] res@[k]),
        decreases sources.len() - left,
    {
        let mut right: usize = left + 1;
        while right < sources.len()
            invariant
                left < right <= sources.len(),
                forall|k: int|
                    0 <= k < res@.len() ==> is_measured(
                        sources@,
                        (#[trigger] res@[k]).0 as int,
                        res@[k].1 as int,
                    ) && pair_before(res@[k], (left, right)),
                forall|l: usize, r: usize|
                    is_measured(sources@, l as int, r as int) && pair_before((l, r), (left, right))
                        ==> #[trigger] res@.contains((l, r)),
                forall|j: int, k: int|
                    0 <= j < k < res@.len() ==> pair_before(#[trigger] res@[j], #[trigger] res@[k]),
            decreases sources.len() - right,
        {
            let ghost before = res@;
            if !sources[left].allow_overlap && !sources[right].allow_overlap {
                res.push((left, right));
                assert(res@[before.len() as int] == (left, right));
            }
            proof {
                assert forall|l: usize, r: usize|
                    is_measured(sources@, l as int, r as int) && pair_before(
                        (l, r),
                        (left, (right + 1) as usize),
                    ) implies #[trigger] res@.contains((l, r)) by {
                    if (l, r) != (left, right) {
                        assert(before.contains((l, r)));
                        let k = choose|k: int| 0 <= k < before.len() && before[k] == (l, r);
                        assert(res@[k] == (l, r));
                    }
                }
            }
            right = right + 1;
        }
        left = left + 1;
    }
    res
}

/// The planned sources are the specified ones, in the same order.
pub open spec fn plans_sources(sources: Seq<SourceSpec>, planned: Seq<PlannedSource>) -> bool {
    &&& planned.len() == sources.len()
    &&& forall|i: int|
        0 <= i < sources.len() ==> {
            &&& (#[trigger] planned[i]).name@ == sources[i].name@
            &&& planned[i].kind@ == sources[i].kind@
            &&& planned[i].fit == sources[i].fit
            &&& planned[i].enabled == sources[i].enabled
            &&& planned[i].locked == sources[i].locked
        }
}

/// The layout is the plan of the scene on the canvas.
pub open spec fn is_plan_of(layout: LayoutPlan, spec: SceneSpec, canvas: Canvas) -> bool {
    &&& layout.scene@ == spec.scene@
    &&& layout.canvas == canvas
    &&& plans_sources(spec.sources@, layout.sources@)
    &&& are_measured_pairs(spec.sources@, layout.measured_pairs@)
}

/// Plans a scene on a canvas, if the scene passes the checks.
pub fn plan(spec: &SceneSpec, canvas: Canvas) -> (res: Result<LayoutPlan, Error>)
    ensures
        match res {
            Ok(layout) => scene_flaw(*spec, canvas) is None && is_plan_of(layout, *spec, canvas),
            Err(error) => scene_flaw(*spec, canvas) == Some(error@),
        },
{
    match validate(spec, canvas) {
        Ok(_) => {},
        Err(error) => {
            return Err(error);
        },
    }
    let mut sources: Vec<PlannedSource> = Vec::new();
    let mut i: usize = 0;
    while i < spec.sources.len()
        invariant
            i <= spec.sources.len(),
            plans_sources(spec.sources@.take(i as int), sources@),
        decreases spec.sources.len() - i,
    {
        let source = &spec.sources[i];
        sources.push(
            PlannedSource {
                name: source.name.clone(),
                kind: source.kind.clone(),
                fit: source.fit,
                enabled: source.enabled,
                locked: source.locked,
            },
        );
        i = i + 1;
    }
    assert(spec.sources@.take(i as int) =~= spec.sources@);
    Ok(
        LayoutPlan {
            scene: spec.scene.clone(),
            canvas,
            sources,
            measured_pairs: measured_pairs(&spec.sources),
        },
    )
}

/// A port in decimal is the port that is used. Without one it is the default, and
/// what is no port number is a failure.
pub proof fn law_ports(setting: Option<Seq<char>>, port: nat)
    ensures
        port_of(None) == Ok::<nat, Failure>(4455),
        port <= 65535 ==> port_of(Some(decimal(port))) == Ok::<nat, Failure>(port),
        setting matches Some(text) ==> match read_number(text, 65535) {
            Ok(number) => port_of(setting) == Ok::<nat, Failure>(number),
            Err(cause) => port_of(setting) == Err::<nat, Failure>(Failure::ObsPort { cause }),
        },
{
    if port <= 65535 {
        law_decimal_reads_back(port, 65535);
    }
}

proof fn lemma_first_flaw_at(sources: Seq<SourceSpec>, n: int) -> (at: int)
    requires
        0 <= n <= sources.len(),
        first_flaw(sources, n) is Some,
    ensures
        0 <= at < n,
        first_flaw(sources, n) == source_flaw(sources, at),
        forall|i: int| 0 <= i < at ==> #[trigger] source_flaw(sources, i) is None,
    decreases n,
{
    match first_flaw(sources, n - 1) {
        Some(_) => lemma_first_flaw_at(sources, n - 1),
        None => {
            lemma_first_flaw_none(sources, n - 1);
            n - 1
        },
    }
}

/// The sources before the given one are all named, of some kind, inside the canvas
/// and of different names.
pub open spec fn is_sound_before(sources: Seq<SourceSpec>, at: int) -> bool {
    &&& forall|i: int|
        0 <= i < at ==> {
            let source = #[trigger] sources[i];
            !is_blank(source.name@) && !is_blank(source.kind@) && source.rect_fits
        }
    &&& forall|i: int, j: int|
        0 <= i < j < at ==> (#[trigger] sources[i]).name@ != (#[trigger] sources[j]).name@
}

/// The flaw is that of the given source, the first one that has any: a field of it
/// is empty, or else its name was there before, or else its rectangle does not fit.
pub open spec fn is_flaw_at(sources: Seq<SourceSpec>, at: int, flaw: Failure) -> bool {
    let source = sources[at];
    let again = exists|i: int| 0 <= i < at && (#[trigger] sources[i]).name@ == source.name@;
    &&& 0 <= at < sources.len()
    &&& is_sound_before(sources, at)
    &&& if is_blank(source.name@) || is_blank(source.kind@) {
        flaw == Failure::SourceFieldsEmpty
    } else if again {
        flaw == (Failure::SourceDuplicate { name: source.name@ })
    } else {
        !source.rect_fits && flaw == (Failure::SourceRect { name: source.name@ })
    }
}

proof fn lemma_flaw_at(sources: Seq<SourceSpec>, at: int)
    requires
        0 <= at < sources.len(),
        source_flaw(sources, at) is Some,
        is_sound_before(sources, at),
    ensures
        is_flaw_at(sources, at, source_flaw(sources, at)->0),
{
    let earlier = source_names(sources.take(at));
    if earlier.contains(sources[at].name@) {
        let k = choose|k: int| 0 <= k < earlier.len() && earlier[k] == sources[at].name@;
        assert(sources[k].name@ == sources[at].name@);
    } else {
        assert forall|i: int| 0 <= i < at implies (#[trigger] sources[i]).name@
            != sources[at].name@ by {
            assert(earlier[i] == sources[i].name@);
        }
    }
}

/// The failure tells the first thing that is wrong: the name of the scene, then the
/// canvas, then the margin, then the first source that has a flaw.
pub proof fn law_first_flaw_is_told(spec: SceneSpec, canvas: Canvas)
    ensures
        scene_flaw(spec, canvas) == Some(Failure::SceneNameEmpty) <==> is_blank(spec.scene@),
        scene_flaw(spec, canvas) == Some(Failure::CanvasTooSmall) <==> !is_blank(spec.scene@) && (
        canvas.width < 8 || canvas.height < 8),
        scene_flaw(spec, canvas) == Some(Failure::SafeMargin) <==> !is_blank(spec.scene@)
            && canvas.width >= 8 && canvas.height >= 8 && !canvas.margin_fits,
        !is_blank(spec.scene@) && canvas.width >= 8 && canvas.height >= 8 && canvas.margin_fits ==> (
        scene_flaw(spec, canvas) matches Some(flaw) ==> exists|at: int|
            is_flaw_at(spec.sources@, at, flaw)),
{
    let all = spec.sources@;
    let n = all.len() as int;
    if first_flaw(all, n) is Some {
        let at = lemma_first_flaw_at(all, n);
        lemma_sound_before(all, at);
        lemma_flaw_at(all, at);
        assert(is_flaw_at(all, at, first_flaw(all, n)->0));
    }
}

proof fn lemma_sound_before(sources: Seq<SourceSpec>, at: int)
    requires
        0 <= at <= sources.len(),
        forall|i: int| 0 <= i < at ==> #[trigger] source_flaw(sources, i) is None,
    ensures
        is_sound_before(sources, at),
{
    assert forall|i: int| 0 <= i < at implies {
        let source = #[trigger] sources[i];
        !is_blank(source.name@) && !is_blank(source.kind@) && source.rect_fits
    } by {
        assert(source_flaw(sources, i) is None);
    }
    assert forall|i: int, j: int| 0 <= i < j < at implies (#[trigger] sources[i]).name@ != (
    #[trigger] sources[j]).name@ by {
        assert(source_flaw(sources, j) is None);
        assert(source_names(sources.take(j))[i] == sources[i].name@);
    }
}

/// A plan keeps the scene, the canvas, and every source with what was said of it,
/// in order. The overlap of two sources counts exactly if neither of them may
/// overlap others, and each such pair is counted once, by the left source and then
/// by the right one.
pub proof fn law_plans_keep_the_specification(layout: LayoutPlan, spec: SceneSpec, canvas: Canvas)
    requires
        is_plan_of(layout, spec, canvas),
    ensures
        layout.scene@ == spec.scene@,
        layout.canvas == canvas,
        layout.sources@.len() == spec.sources@.len(),
        forall|i: int|
            0 <= i < spec.sources@.len() ==> {
                let source = spec.sources@[i];
                let planned = #[trigger] layout.sources@[i];
                &&& planned.name@ == source.name@
                &&& planned.kind@ == source.kind@
                &&& planned.fit == source.fit
                &&& planned.enabled == source.enabled
                &&& planned.locked == source.locked
            },
        forall|left: usize, right: usize| #[trigger]
            layout.measured_pairs@.contains((left, right)) <==> left < right && right
                < spec.sources@.len() && !spec.sources@[left as int].allow_overlap
                && !spec.sources@[right as int].allow_overlap,
        layout.measured_pairs@.no_duplicates(),
        forall|j: int, k: int|
            0 <= j < k < layout.measured_pairs@.len() ==> {
                let (a, b) = (#[trigger] layout.measured_pairs@[j], #[trigger] layout.measured_pairs@[k]);
                a.0 < b.0 || (a.0 == b.0 && a.1 < b.1)
            },
{
    let pairs = layout.measured_pairs@;
    assert forall|left: usize, right: usize| #[trigger] pairs.contains((left, right)) implies
        is_measured(spec.sources@, left as int, right as int) by {
        let k = choose|k: int| 0 <= k < pairs.len() && pairs[k] == (left, right);
        assert(is_measured(spec.sources@, pairs[k].0 as int, pairs[k].1 as int));
    }
    assert forall|j: int, k: int| 0 <= j < k < pairs.len() implies {
        let (a, b) = (#[trigger] pairs[j], #[trigger] pairs[k]);
        a.0 < b.0 || (a.0 == b.0 && a.1 < b.1)
    } by {
        assert(pair_before(pairs[j], pairs[k]));
    }
    assert forall|i: int, j: int|
        0 <= i < pairs.len() && 0 <= j < pairs.len() && i != j implies pairs[i] != pairs[j] by {
        if i < j {
            assert(pair_before(pairs[i], pairs[j]));
        } else {
            assert(pair_before(pairs[j], pairs[i]));
        }
    }
}

} // verus!
