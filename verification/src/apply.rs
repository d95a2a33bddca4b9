//! Putting a scene into OBS, as a conversation: the state says what OBS is to be
//! asked next, and the answer leads to the next state.

use vstd::prelude::*;
use crate::error::{Error, ErrorOf, Failure};
use crate::obs::{
    is_plan_of, plan, scene_flaw, BoundsKind, Canvas, Fit, LayoutPlan, SceneSpec, SourceSpec,
};
use crate::text::{is_listed, lemma_position, lemma_position_is, position, same, texts};

verus! {

/// An input that OBS already has.
#[derive(Clone, Debug, PartialEq, Eq)]
pub struct InputInfo {
    pub name: String,
    pub kind: String,
    pub unversioned_kind: String,
}

/// An item of the scene in OBS.
#[derive(Clone, Debug, PartialEq, Eq)]
pub struct ItemInfo {
    pub id: i64,
    pub source_name: String,
}

/// What OBS is asked next.
#[derive(Clone, Copy, Debug, PartialEq, Eq, Structural)]
pub enum Phase {
    /// How large is the canvas?
    Canvas,
    /// Which scenes are there?
    Scenes,
    /// Create the scene.
    CreateScene,
    /// Which inputs are there?
    Inputs,
    /// Overlay the settings of the source's input.
    Configure { source: usize },
    /// Which items are in the scene?
    Items { source: usize },
    /// Add the source's input to the scene.
    AddItem { source: usize },
    /// Create the source's input in the scene.
    CreateInput { source: usize },
    /// Move the item to its rectangle.
    Place { source: usize, item: i64 },
    /// Lock or unlock the item.
    Lock { source: usize, item: i64 },
    /// Move the item to its place in the stack.
    Order { source: usize, item: i64 },
    /// Make the scene the current one.
    Activate,
    /// Nothing: the scene is in place.
    Finished,
}

/// What OBS answers.
#[derive(Clone, Debug, PartialEq, Eq)]
pub enum Reply {
    Canvas(Canvas),
    Scenes(Vec<String>),
    Inputs(Vec<InputInfo>),
    Items(Vec<ItemInfo>),
    /// The item that was added.
    Item(i64),
    /// It was done.
    Done,
}

impl Reply {
    /// The reply is one to what was asked.
    pub open spec fn answers(self, phase: Phase) -> bool {
        match phase {
            Phase::Canvas => self is Canvas,
            Phase::Scenes => self is Scenes,
            Phase::Inputs => self is Inputs,
            Phase::Items { source } => self is Items,
            Phase::AddItem { source } => self is Item,
            Phase::CreateInput { source } => self is Item,
            Phase::Finished => false,
            _ => self is Done,
        }
    }
}

/// The names of the inputs.
pub open spec fn input_names(inputs: Seq<InputInfo>) -> Seq<Seq<char>> {
    inputs.map_values(|input: InputInfo| input.name@)
}

/// The names of the sources that the items show.
pub open spec fn item_names(items: Seq<ItemInfo>) -> Seq<Seq<char>> {
    items.map_values(|item: ItemInfo| item.source_name@)
}

/// The source's input exists.
pub open spec fn has_input(inputs: Seq<InputInfo>, source: SourceSpec) -> bool {
    position(input_names(inputs), source.name@) < inputs.len()
}

/// The first input of the source's name.
pub open spec fn input_of(inputs: Seq<InputInfo>, source: SourceSpec) -> InputInfo {
    inputs[position(input_names(inputs), source.name@)]
}

/// The input is of the wanted kind, with or without its version.
pub open spec fn is_of_kind(input: InputInfo, kind: Seq<char>) -> bool {
    input.unversioned_kind@ == kind || input.kind@ == kind
}

/// What comes when the source at index `i` has its turn. Past the last source
/// the scene is activated, if that is wanted.
pub open spec fn source_turn(spec: SceneSpec, inputs: Seq<InputInfo>, i: int) -> Result<
    Phase,
    Failure,
> {
    if i >= spec.sources@.len() {
        Ok(
            if spec.activate {
                Phase::Activate
            } else {
                Phase::Finished
            },
        )
    } else {
        let source = spec.sources@[i];
        if !has_input(inputs, source) {
            Ok(Phase::Items { source: i as usize })
        } else if is_of_kind(input_of(inputs, source), source.kind@) {
            Ok(Phase::Configure { source: i as usize })
        } else {
            Err(
                Failure::InputKind {
                    name: source.name@,
                    existing: input_of(inputs, source).kind@,
                    wanted: source.kind@,
                },
            )
        }
    }
}

/// What comes after a reply. `inputs` are the inputs that OBS has.
pub open spec fn next_phase(
    spec: SceneSpec,
    inputs: Seq<InputInfo>,
    phase: Phase,
    reply: Reply,
) -> Result<Phase, Failure> {
    match phase {
        Phase::Canvas => match scene_flaw(spec, reply->Canvas_0) {
            Some(flaw) => Err(flaw),
            None => Ok(Phase::Scenes),
        },
        Phase::Scenes => Ok(
            if texts(reply->Scenes_0@).contains(spec.scene@) {
                Phase::Inputs
            } else {
                Phase::CreateScene
            },
        ),
        Phase::CreateScene => Ok(Phase::Inputs),
        Phase::Inputs => source_turn(spec, inputs, 0),
        Phase::Configure { source } => Ok(Phase::Items { source }),
        Phase::Items { source } => {
            let items = reply->Items_0@;
            let found = position(item_names(items), spec.sources@[source as int].name@);
            Ok(
                if found < items.len() {
                    Phase::Place { source, item: items[found].id }
                } else if has_input(inputs, spec.sources@[source as int]) {
                    Phase::AddItem { source }
                } else {
                    Phase::CreateInput { source }
                },
            )
        },
        Phase::AddItem { source } => Ok(Phase::Place { source, item: reply->Item_0 }),
        Phase::CreateInput { source } => Ok(Phase::Place { source, item: reply->Item_0 }),
        Phase::Place { source, item } => Ok(Phase::Lock { source, item }),
        Phase::Lock { source, item } => Ok(Phase::Order { source, item }),
        Phase::Order { source, item } => source_turn(spec, inputs, source + 1),
        Phase::Activate => Ok(Phase::Finished),
        Phase::Finished => Ok(Phase::Finished),
    }
}

/// The phase speaks of a source of the scene, if it speaks of one.
pub open spec fn phase_fits(spec: SceneSpec, phase: Phase) -> bool {
    match phase {
        Phase::Configure { source } => source < spec.sources@.len(),
        Phase::Items { source } => source < spec.sources@.len(),
        Phase::AddItem { source } => source < spec.sources@.len(),
        Phase::CreateInput { source } => source < spec.sources@.len(),
        Phase::Place { source, item } => source < spec.sources@.len(),
        Phase::Lock { source, item } => source < spec.sources@.len(),
        Phase::Order { source, item } => source < spec.sources@.len(),
        _ => true,
    }
}

/// A scene on its way into OBS.
pub struct Apply {
    pub spec: SceneSpec,
    pub phase: Phase,
    /// The layout, once the canvas is known.
    pub plan: Option<LayoutPlan>,
    /// The scene was not there before.
    pub created_scene: bool,
    /// The inputs that OBS had, once they are known.
    pub inputs: Vec<InputInfo>,
}

/// The inputs that are known once a reply has come.
pub open spec fn known_inputs(before: Seq<InputInfo>, reply: Reply) -> Seq<InputInfo> {
    match reply {
        Reply::Inputs(list) => list@,
        _ => before,
    }
}

impl Apply {
    /// The conversation is in a state that it can be in.
    pub open spec fn wf(self) -> bool {
        phase_fits(self.spec, self.phase)
    }

    /// The start of the conversation.
    pub fn new(spec: SceneSpec) -> (res: Apply)
        ensures
            res.wf(),
            res.spec == spec,
            res.phase == Phase::Canvas,
            res.plan is None,
            !res.created_scene,
            res.inputs@.len() == 0,
    {
        Apply {
            spec,
            phase: Phase::Canvas,
            plan: None,
            created_scene: false,
            inputs: Vec::new(),
        }
    }

    fn turn_of(spec: &SceneSpec, inputs: &Vec<InputInfo>, i: usize) -> (res: Result<Phase, Error>)
        requires
            i <= spec.sources@.len(),
        ensures
            match (res, source_turn(*spec, inputs@, i as int)) {
                (Ok(phase), Ok(next)) => phase == next && phase_fits(*spec, phase),
                (Err(error), Err(failure)) => error@ == failure,
                _ => false,
            },
    {
        if i >= spec.sources.len() {
            if spec.activate {
                return Ok(Phase::Activate);
            }
            return Ok(Phase::Finished);
        }
        let source = &spec.sources[i];
        match find_input(inputs, source.name.as_str()) {
            None => Ok(Phase::Items { source: i }),
            Some(k) => {
                let input = &inputs[k];
                if same(input.unversioned_kind.as_str(), source.kind.as_str()) || same(
                    input.kind.as_str(),
                    source.kind.as_str(),
                ) {
                    Ok(Phase::Configure { source: i })
                } else {
                    Err(
                        ErrorOf::InputKind {
                            name: source.name.clone(),
                            existing: input.kind.clone(),
                            wanted: source.kind.clone(),
                        },
                    )
                }
            },
        }
    }

    /// Takes a reply and goes on to what is to be asked next. A reply that shows
    /// that the scene cannot be put into OBS is answered with the reason, and
    /// changes nothing.
    pub fn receive(&mut self, reply: Reply) -> (res: Result<(), Error>)
        requires
            old(self).wf(),
            reply.answers(old(self).phase),
        ensures
            match (
                res,
                next_phase(
                    old(self).spec,
                    known_inputs(old(self).inputs@, reply),
                    old(self).phase,
                    reply,
                ),
            ) {
                (Ok(_), Ok(next)) => {
                    &&& final(self).wf()
                    &&& final(self).phase == next
                    &&& final(self).spec == old(self).spec
                    &&& final(self).inputs@ == known_inputs(old(self).inputs@, reply)
                    &&& final(self).created_scene == if old(self).phase is Scenes {
                        next is CreateScene
                    } else {
                        old(self).created_scene
                    }
                    &&& old(self).phase is Canvas ==> (final(self).plan matches Some(layout)
                        && is_plan_of(layout, old(self).spec, reply->Canvas_0))
                    &&& !(old(self).phase is Canvas) ==> final(self).plan == old(self).plan
                },
                (Err(error), Err(failure)) => error@ == failure && *final(self) == *old(self),
                _ => false,
            },
    {
        match self.phase {
            Phase::Canvas => {
                if let Reply::Canvas(canvas) = reply {
                    match plan(&self.spec, canvas) {
                        Ok(layout) => {
                            self.plan = Some(layout);
                            self.phase = Phase::Scenes;
                        },
                        Err(error) => {
                            return Err(error);
                        },
                    }
                }
            },
            Phase::Scenes => {
                if let Reply::Scenes(list) = reply {
                    if is_listed(&list, self.spec.scene.as_str()) {
                        self.created_scene = false;
                        self.phase = Phase::Inputs;
                    } else {
                        self.created_scene = true;
                        self.phase = Phase::CreateScene;
                    }
                }
            },
            Phase::CreateScene => {
                self.phase = Phase::Inputs;
            },
            Phase::Inputs => {
                if let Reply::Inputs(list) = reply {
                    match Apply::turn_of(&self.spec, &list, 0) {
                        Ok(next) => {
                            self.inputs = list;
                            self.phase = next;
                        },
                        Err(error) => {
                            return Err(error);
                        },
                    }
                }
            },
            Phase::Configure { source } => {
                self.phase = Phase::Items { source };
            },
            Phase::Items { source } => {
                if let Reply::Items(items) = reply {
                    let name = self.spec.sources[source].name.as_str();
                    self.phase =
                    match find_item(&items, name) {
                        Some(k) => Phase::Place { source, item: items[k].id },
                        None => match find_input(&self.inputs, name) {
                            Some(k) => Phase::AddItem { source },
                            None => Phase::CreateInput { source },
                        },
                    };
                }
            },
            Phase::AddItem { source } => {
                if let Reply::Item(item) = reply {
                    self.phase = Phase::Place { source, item };
                }
            },
            Phase::CreateInput { source } => {
                if let Reply::Item(item) = reply {
                    self.phase = Phase::Place { source, item };
                }
            },
            Phase::Place { source, item } => {
                self.phase = Phase::Lock { source, item };
            },
            Phase::Lock { source, item } => {
                self.phase = Phase::Order { source, item };
            },
            Phase::Order { source, item } => {
                let count: usize = self.spec.sources.len();
                assert(source < count);
                match Apply::turn_of(&self.spec, &self.inputs, source + 1) {
                    Ok(next) => {
                        self.phase = next;
                    },
                    Err(error) => {
                        return Err(error);
                    },
                }
            },
            Phase::Activate => {
                self.phase = Phase::Finished;
            },
            Phase::Finished => {},
        }
        Ok(())
    }

    /// The number of sources that the finished scene has.
    pub fn configured_sources(&self) -> (res: usize)
        ensures
            res == self.spec.sources@.len(),
    {
        self.spec.sources.len()
    }
}

/// The point of a rectangle that something is aligned to.
#[derive(Clone, Copy, Debug, PartialEq, Eq, Structural)]
pub enum Anchor {
    TopLeft,
    Center,
}

/// A request to OBS, with the values that go into it, and the input that it is
/// about. What a source is given beside them, its settings and its rectangle, is
/// found by its index.
pub enum Request<'a> {
    VideoSettings,
    ListScenes,
    CreateScene { scene: &'a str },
    ListInputs,
    /// Give the input the settings of the source: over those that it has, or in
    /// their place.
    SetSettings { input: &'a str, overlay: bool, source: usize },
    ListItems { scene: &'a str },
    CreateItem { scene: &'a str, input: &'a str, enabled: bool },
    /// Create the input with the settings of the source.
    CreateInput { scene: &'a str, input: &'a str, kind: &'a str, enabled: bool, source: usize },
    /// Move the item to the rectangle of the source.
    SetTransform {
        scene: &'a str,
        input: &'a str,
        item: i64,
        /// The point of the item that its position is that of.
        anchor: Anchor,
        bounds: BoundsKind,
        /// Where the picture stands in its bounds.
        bounds_anchor: Anchor,
        source: usize,
    },
    SetLocked { scene: &'a str, input: &'a str, item: i64, locked: bool },
    SetIndex { scene: &'a str, input: &'a str, item: i64, index: u32 },
    SetProgramScene { scene: &'a str },
}

/// The request is what OBS is asked in a phase about a scene.
pub open spec fn asks(request: Request, spec: SceneSpec, phase: Phase) -> bool {
    match (phase, request) {
        (Phase::Canvas, Request::VideoSettings) => true,
        (Phase::Scenes, Request::ListScenes) => true,
        (Phase::CreateScene, Request::CreateScene { scene }) => scene@ == spec.scene@,
        (Phase::Inputs, Request::ListInputs) => true,
        (Phase::Configure { source }, Request::SetSettings { input, overlay, source: index }) => {
            &&& input@ == spec.sources@[source as int].name@
            &&& overlay
            &&& index == source
        },
        (Phase::Items { source }, Request::ListItems { scene }) => scene@ == spec.scene@,
        (Phase::AddItem { source }, Request::CreateItem { scene, input, enabled }) => {
            &&& scene@ == spec.scene@
            &&& input@ == spec.sources@[source as int].name@
            &&& enabled == spec.sources@[source as int].enabled
        },
        (
            Phase::CreateInput { source },
            Request::CreateInput { scene, input, kind, enabled, source: index },
        ) => {
            &&& scene@ == spec.scene@
            &&& input@ == spec.sources@[source as int].name@
            &&& kind@ == spec.sources@[source as int].kind@
            &&& enabled == spec.sources@[source as int].enabled
            &&& index == source
        },
        (
            Phase::Place { source, item },
            Request::SetTransform {
                scene,
                input,
                item: moved,
                anchor,
                bounds,
                bounds_anchor,
                source: index,
            },
        ) => {
            &&& scene@ == spec.scene@
            &&& input@ == spec.sources@[source as int].name@
            &&& moved == item
            &&& anchor == Anchor::TopLeft
            &&& bounds == spec.sources@[source as int].fit.bounds_kind()
            &&& bounds_anchor == Anchor::Center
            &&& index == source
        },
        (Phase::Lock { source, item }, Request::SetLocked { scene, input, item: moved, locked }) => {
            &&& scene@ == spec.scene@
            &&& input@ == spec.sources@[source as int].name@
            &&& moved == item
            &&& locked == spec.sources@[source as int].locked
        },
        (Phase::Order { source, item }, Request::SetIndex { scene, input, item: moved, index }) => {
            &&& scene@ == spec.scene@
            &&& input@ == spec.sources@[source as int].name@
            &&& moved == item
            &&& index == source as int % 0x1_0000_0000
        },
        (Phase::Activate, Request::SetProgramScene { scene }) => scene@ == spec.scene@,
        _ => false,
    }
}

impl Apply {
    /// The request that the conversation goes on with. There is none once the
    /// scene is in place.
    pub fn request(&self) -> (res: Option<Request<'_>>)
        requires
            self.wf(),
        ensures
            match res {
                Some(request) => asks(request, self.spec, self.phase),
                None => self.phase is Finished,
            },
    {
        let scene = self.spec.scene.as_str();
        Some(
            match self.phase {
                Phase::Canvas => Request::VideoSettings,
                Phase::Scenes => Request::ListScenes,
                Phase::CreateScene => Request::CreateScene { scene },
                Phase::Inputs => Request::ListInputs,
                Phase::Configure { source } => Request::SetSettings {
                    input: self.spec.sources[source].name.as_str(),
                    overlay: true,
                    source,
                },
                Phase::Items { source } => Request::ListItems { scene },
                Phase::AddItem { source } => Request::CreateItem {
                    scene,
                    input: self.spec.sources[source].name.as_str(),
                    enabled: self.spec.sources[source].enabled,
                },
                Phase::CreateInput { source } => Request::CreateInput {
                    scene,
                    input: self.spec.sources[source].name.as_str(),
                    kind: self.spec.sources[source].kind.as_str(),
                    enabled: self.spec.sources[source].enabled,
                    source,
                },
                Phase::Place { source, item } => Request::SetTransform {
                    scene,
                    input: self.spec.sources[source].name.as_str(),
                    item,
                    anchor: Anchor::TopLeft,
                    bounds: self.spec.sources[source].fit.bounds(),
                    bounds_anchor: Anchor::Center,
                    source,
                },
                Phase::Lock { source, item } => Request::SetLocked {
                    scene,
                    input: self.spec.sources[source].name.as_str(),
                    item,
                    locked: self.spec.sources[source].locked,
                },
                Phase::Order { source, item } => Request::SetIndex {
                    scene,
                    input: self.spec.sources[source].name.as_str(),
                    item,
                    index: stacking_index(source),
                },
                Phase::Activate => Request::SetProgramScene { scene },
                Phase::Finished => {
                    return None;
                },
            },
        )
    }
}

/// The place in the stack of the source at an index.
pub fn stacking_index(source: usize) -> (res: u32)
    ensures
        res == source as int % 0x1_0000_0000,
{
    let wide: u64 = source as u64;
    let low: u64 = wide % 0x1_0000_0000;
    low as u32
}

/// The first input of a name.
fn find_input(inputs: &Vec<InputInfo>, name: &str) -> (res: Option<usize>)
    ensures
        match res {
            Some(k) => k < inputs@.len() && k == position(input_names(inputs@), name@),
            None => position(input_names(inputs@), name@) == inputs@.len(),
        },
{
    let ghost names = input_names(inputs@);
    let mut k: usize = 0;
    while k < inputs.len()
        invariant
            k <= inputs.len(),
            names == input_names(inputs@),
            forall|j: int| 0 <= j < k ==> #[trigger] names[j] != name@,
        decreases inputs.len() - k,
    {
        if same(inputs[k].name.as_str(), name) {
            proof {
                lemma_position_is(names, name@, k as int);
            }
            return Some(k);
        }
        k = k + 1;
    }
    proof {
        lemma_position_is(names, name@, k as int);
    }
    None
}

/// The first item that shows a source of a name.
fn find_item(items: &Vec<ItemInfo>, name: &str) -> (res: Option<usize>)
    ensures
        match res {
            Some(k) => k < items@.len() && k == position(item_names(items@), name@),
            None => position(item_names(items@), name@) == items@.len(),
        },
{
    let ghost names = item_names(items@);
    let mut k: usize = 0;
    while k < items.len()
        invariant
            k <= items.len(),
            names == item_names(items@),
            forall|j: int| 0 <= j < k ==> #[trigger] names[j] != name@,
        decreases items.len() - k,
    {
        if same(items[k].source_name.as_str(), name) {
            proof {
                lemma_position_is(names, name@, k as int);
            }
            return Some(k);
        }
        k = k + 1;
    }
    proof {
        lemma_position_is(names, name@, k as int);
    }
    None
}

// ---------------------------------------------------------------------------
// Whole conversations
// ---------------------------------------------------------------------------

/// A conversation from its start: what was asked, and what was answered. OBS has
/// the given inputs.
pub open spec fn is_conversation(
    spec: SceneSpec,
    inputs: Seq<InputInfo>,
    phases: Seq<Phase>,
    replies: Seq<Reply>,
) -> bool {
    &&& phases.len() == replies.len() + 1
    &&& phases[0] == Phase::Canvas
    &&& forall|k: int|
        0 <= k < replies.len() ==> {
            &&& (#[trigger] replies[k]).answers(phases[k])
            &&& replies[k] matches Reply::Inputs(list) ==> list@ == inputs
            &&& next_phase(spec, inputs, phases[k], replies[k]) == Ok::<Phase, Failure>(
                phases[k + 1],
            )
        }
}

/// How far a conversation about a scene of `count` sources has come.
pub open spec fn progress(phase: Phase, count: nat) -> nat {
    match phase {
        Phase::Canvas => 0,
        Phase::Scenes => 1,
        Phase::CreateScene => 2,
        Phase::Inputs => 3,
        Phase::Configure { source } => 4 + 6 * (source as nat),
        Phase::Items { source } => 5 + 6 * (source as nat),
        Phase::AddItem { source } => 6 + 6 * (source as nat),
        Phase::CreateInput { source } => 6 + 6 * (source as nat),
        Phase::Place { source, item } => 7 + 6 * (source as nat),
        Phase::Lock { source, item } => 8 + 6 * (source as nat),
        Phase::Order { source, item } => 9 + 6 * (source as nat),
        Phase::Activate => 10 + 6 * count,
        Phase::Finished => 11 + 6 * count,
    }
}

/// Every reply takes the conversation further.
pub proof fn law_reply_makes_progress(
    spec: SceneSpec,
    inputs: Seq<InputInfo>,
    phase: Phase,
    reply: Reply,
)
    requires
        phase_fits(spec, phase),
        reply.answers(phase),
    ensures
        next_phase(spec, inputs, phase, reply) matches Ok(next) ==> phase_fits(spec, next)
            && progress(phase, spec.sources@.len()) < progress(next, spec.sources@.len())
            <= 11 + 6 * spec.sources@.len(),
{
    assert(spec.sources.len() == spec.sources@.len());
}

/// A conversation ends: it has at most eleven replies and six more for each
/// source.
pub proof fn law_conversation_is_bounded(
    spec: SceneSpec,
    inputs: Seq<InputInfo>,
    phases: Seq<Phase>,
    replies: Seq<Reply>,
)
    requires
        is_conversation(spec, inputs, phases, replies),
    ensures
        replies.len() <= 11 + 6 * spec.sources@.len(),
        phase_fits(spec, phases.last()),
        progress(phases.last(), spec.sources@.len()) >= replies.len(),
    decreases replies.len(),
{
    if replies.len() > 0 {
        lemma_shorter_conversation(spec, inputs, phases, replies);
        law_conversation_is_bounded(spec, inputs, phases.drop_last(), replies.drop_last());
        let k = replies.len() - 1;
        assert(phases.drop_last().last() == phases[k]);
        assert(replies[k].answers(phases[k]));
        law_reply_makes_progress(spec, inputs, phases[k], replies[k]);
    }
}

proof fn lemma_shorter_conversation(
    spec: SceneSpec,
    inputs: Seq<InputInfo>,
    phases: Seq<Phase>,
    replies: Seq<Reply>,
)
    requires
        is_conversation(spec, inputs, phases, replies),
        replies.len() > 0,
    ensures
        is_conversation(spec, inputs, phases.drop_last(), replies.drop_last()),
{
    let earlier = replies.drop_last();
    assert forall|k: int| 0 <= k < earlier.len() implies {
        &&& (#[trigger] earlier[k]).answers(phases.drop_last()[k])
        &&& earlier[k] matches Reply::Inputs(list) ==> list@ == inputs
        &&& next_phase(spec, inputs, phases.drop_last()[k], earlier[k]) == Ok::<Phase, Failure>(
            phases.drop_last()[k + 1],
        )
    } by {
        assert(earlier[k] == replies[k]);
    }
}

/// The source was placed, locked and ordered, in this order, at step `k`.
pub open spec fn is_settled_at(phases: Seq<Phase>, source: int, k: int) -> bool {
    &&& 0 <= k
    &&& k + 2 < phases.len()
    &&& phases[k] is Place
    &&& phases[k]->Place_source == source
    &&& phases[k + 1] == (Phase::Lock { source: source as usize, item: phases[k]->Place_item })
    &&& phases[k + 2] == (Phase::Order { source: source as usize, item: phases[k]->Place_item })
}

/// The source was placed, locked and ordered at some step.
pub open spec fn is_settled(phases: Seq<Phase>, source: int) -> bool {
    exists|k: int| is_settled_at(phases, source, k)
}

/// The number of sources that have had their turn.
pub open spec fn settled_sources(phase: Phase, count: nat) -> int {
    match phase {
        Phase::Configure { source } => source as int,
        Phase::Items { source } => source as int,
        Phase::AddItem { source } => source as int,
        Phase::CreateInput { source } => source as int,
        Phase::Place { source, item } => source as int,
        Phase::Lock { source, item } => source as int,
        Phase::Order { source, item } => source as int,
        Phase::Activate => count as int,
        Phase::Finished => count as int,
        _ => 0,
    }
}

/// Where the conversation about a source stands: it is about to be placed, it
/// was placed, or it was placed and locked, always the same item.
spec fn is_midway(phases: Seq<Phase>) -> bool {
    let last = phases.len() - 1;
    match phases[last] {
        Phase::Lock { source, item } => last >= 1 && phases[last - 1] == (Phase::Place {
            source,
            item,
        }),
        Phase::Order { source, item } => last >= 2 && phases[last - 1] == (Phase::Lock {
            source,
            item,
        }) && phases[last - 2] == (Phase::Place { source, item }),
        _ => true,
    }
}

proof fn lemma_settled(
    spec: SceneSpec,
    inputs: Seq<InputInfo>,
    phases: Seq<Phase>,
    replies: Seq<Reply>,
)
    requires
        is_conversation(spec, inputs, phases, replies),
    ensures
        phase_fits(spec, phases.last()),
        is_midway(phases),
        forall|i: int|
            0 <= i < settled_sources(phases.last(), spec.sources@.len()) ==> #[trigger] is_settled(
                phases,
                i,
            ),
    decreases replies.len(),
{
    let count = spec.sources@.len();
    if replies.len() > 0 {
        let before = phases.drop_last();
        lemma_shorter_conversation(spec, inputs, phases, replies);
        lemma_settled(spec, inputs, before, replies.drop_last());
        let n = replies.len() - 1;
        assert(before.last() == phases[n]);
        assert(replies[n].answers(phases[n]));
        law_reply_makes_progress(spec, inputs, phases[n], replies[n]);
        assert forall|i: int| 0 <= i < settled_sources(phases.last(), count) implies #[trigger] is_settled(
            phases,
            i,
        ) by {
            if i < settled_sources(before.last(), count) {
                assert(is_settled(before, i));
                let k = choose|k: int| is_settled_at(before, i, k);
                assert(is_settled_at(phases, i, k));
            } else {
                assert(phases[n] is Order);
                assert(i == phases[n]->Order_source);
                assert(before[n - 1] == phases[n - 1]);
                assert(before[n - 2] == phases[n - 2]);
                assert(is_settled_at(phases, i, n - 2));
            }
        }
    }
}

/// When the conversation is over, every source of the scene has been placed,
/// locked or unlocked, and put at its place in the stack, all on one item.
pub proof fn law_every_source_is_settled(
    spec: SceneSpec,
    inputs: Seq<InputInfo>,
    phases: Seq<Phase>,
    replies: Seq<Reply>,
)
    requires
        is_conversation(spec, inputs, phases, replies),
        phases.last() == Phase::Finished,
    ensures
        forall|i: int|
            0 <= i < spec.sources@.len() ==> #[trigger] is_settled(phases, i),
{
    lemma_settled(spec, inputs, phases, replies);
}

/// The phase changes or adds an input that OBS had before.
pub open spec fn touches_input(phase: Phase, source: int) -> bool {
    match phase {
        Phase::Configure { source: s } => s == source,
        Phase::AddItem { source: s } => s == source,
        _ => false,
    }
}

spec fn current_source(phase: Phase) -> Option<int> {
    match phase {
        Phase::Configure { source } => Some(source as int),
        Phase::Items { source } => Some(source as int),
        Phase::AddItem { source } => Some(source as int),
        Phase::CreateInput { source } => Some(source as int),
        Phase::Place { source, item } => Some(source as int),
        Phase::Lock { source, item } => Some(source as int),
        Phase::Order { source, item } => Some(source as int),
        _ => None,
    }
}

proof fn lemma_kind_checked(
    spec: SceneSpec,
    inputs: Seq<InputInfo>,
    phases: Seq<Phase>,
    replies: Seq<Reply>,
    k: int,
)
    requires
        is_conversation(spec, inputs, phases, replies),
        0 <= k < phases.len(),
    ensures
        phase_fits(spec, phases[k]),
        current_source(phases[k]) matches Some(i) ==> source_turn(spec, inputs, i) is Ok,
        phases[k] is Configure ==> has_input(
            inputs,
            spec.sources@[phases[k]->Configure_source as int],
        ),
        phases[k] is AddItem ==> has_input(
            inputs,
            spec.sources@[phases[k]->AddItem_source as int],
        ),
    decreases k,
{
    if k > 0 {
        lemma_kind_checked(spec, inputs, phases, replies, k - 1);
        assert(replies[k - 1].answers(phases[k - 1]));
        law_reply_makes_progress(spec, inputs, phases[k - 1], replies[k - 1]);
    }
}

/// An input that was there before is changed or shown only where it is of the
/// kind that the source asks for.
pub proof fn law_inputs_of_other_kinds_stay_untouched(
    spec: SceneSpec,
    inputs: Seq<InputInfo>,
    phases: Seq<Phase>,
    replies: Seq<Reply>,
    k: int,
    source: int,
)
    requires
        is_conversation(spec, inputs, phases, replies),
        0 <= k < phases.len(),
        touches_input(phases[k], source),
    ensures
        0 <= source < spec.sources@.len(),
        has_input(inputs, spec.sources@[source]),
        is_of_kind(input_of(inputs, spec.sources@[source]), spec.sources@[source].kind@),
{
    lemma_kind_checked(spec, inputs, phases, replies, k);
}

/// A conversation activates the scene exactly if the specification asks for it:
/// what is asked last before the end is the activation then, and never
/// otherwise.
pub proof fn law_activation_follows_the_specification(
    spec: SceneSpec,
    inputs: Seq<InputInfo>,
    phases: Seq<Phase>,
    replies: Seq<Reply>,
)
    requires
        is_conversation(spec, inputs, phases, replies),
        phases.last() == Phase::Finished,
    ensures
        phases.len() >= 2,
        spec.activate ==> phases[phases.len() - 2] == Phase::Activate,
        !spec.activate ==> !phases.contains(Phase::Activate),
{
    let n = replies.len() - 1;
    assert(replies[n].answers(phases[n]));
    if !spec.activate && phases.contains(Phase::Activate) {
        let k = choose|k: int| 0 <= k < phases.len() && phases[k] == Phase::Activate;
        assert(replies[k - 1].answers(phases[k - 1]));
    }
}

proof fn lemma_has_input(inputs: Seq<InputInfo>, source: SourceSpec)
    ensures
        has_input(inputs, source) <==> exists|i: int|
            0 <= i < inputs.len() && (#[trigger] inputs[i]).name@ == source.name@,
        forall|i: int|
            0 <= i < inputs.len() && (#[trigger] inputs[i]).name@ == source.name@ && (forall|j: int|
                0 <= j < i ==> (#[trigger] inputs[j]).name@ != source.name@) ==> input_of(
                inputs,
                source,
            ) == inputs[i],
{
    let names = input_names(inputs);
    lemma_position(names, source.name@);
    let found = position(names, source.name@);
    if found < inputs.len() {
        assert(inputs[found].name@ == names[found]);
    }
    assert forall|i: int|
        0 <= i < inputs.len() && (#[trigger] inputs[i]).name@ == source.name@ implies found
        <= i by {
        assert(names[i] == inputs[i].name@);
    }
    assert forall|i: int|
        0 <= i < inputs.len() && (#[trigger] inputs[i]).name@ == source.name@ && (forall|j: int|
            0 <= j < i ==> (#[trigger] inputs[j]).name@ != source.name@) implies input_of(
        inputs,
        source,
    ) == inputs[i] by {
        if found < i {
            assert(inputs[found].name@ == source.name@);
        }
    }
}

/// The scene shows the source: one of its items is of the source's name.
pub open spec fn shows(items: Seq<ItemInfo>, name: Seq<char>) -> bool {
    exists|k: int| 0 <= k < items.len() && (#[trigger] items[k]).source_name@ == name
}

/// What the scene already shows is used again, whatever inputs there are: the
/// conversation goes on to place the first item of the source's name. Only where
/// there is no such item, one is added, if there is an input of that name, or the
/// input is created, if there is none.
pub proof fn law_shown_sources_are_used_again(
    spec: SceneSpec,
    inputs: Seq<InputInfo>,
    source: usize,
    items: Vec<ItemInfo>,
)
    requires
        source < spec.sources@.len(),
    ensures
        ({
            let name = spec.sources@[source as int].name@;
            let next = next_phase(spec, inputs, Phase::Items { source }, Reply::Items(items));
            &&& forall|k: int|
                0 <= k < items@.len() && (#[trigger] items@[k]).source_name@ == name && (forall|
                    j: int,
                |
                    0 <= j < k ==> (#[trigger] items@[j]).source_name@ != name) ==> next == Ok::<
                    Phase,
                    Failure,
                >(Phase::Place { source, item: items@[k].id })
            &&& shows(items@, name) ==> (next matches Ok(phase) && phase is Place)
            &&& !shows(items@, name) ==> next == Ok::<Phase, Failure>(
                if exists|i: int| 0 <= i < inputs.len() && (#[trigger] inputs[i]).name@ == name {
                    Phase::AddItem { source }
                } else {
                    Phase::CreateInput { source }
                },
            )
        }),
{
    let wanted = spec.sources@[source as int];
    let name = wanted.name@;
    let names = item_names(items@);
    lemma_has_input(inputs, wanted);
    lemma_position(names, name);
    let found = position(names, name);
    if found < items@.len() {
        assert(items@[found].source_name@ == names[found]);
    }
    assert forall|k: int|
        0 <= k < items@.len() && (#[trigger] items@[k]).source_name@ == name implies found <= k by {
        assert(names[k] == items@[k].source_name@);
    }
    assert forall|k: int|
        0 <= k < items@.len() && (#[trigger] items@[k]).source_name@ == name && (forall|j: int|
            0 <= j < k ==> (#[trigger] items@[j]).source_name@ != name) implies found == k by {
        if found < k {
            assert(items@[found].source_name@ == name);
        }
    }
}

/// Nothing is put into a scene twice: an item is added, or an input created, only
/// right after a listing of the scene that shows no item of the source's name. It
/// is added where there is an input of that name, and created where there is none.
pub proof fn law_nothing_is_added_twice(
    spec: SceneSpec,
    inputs: Seq<InputInfo>,
    phases: Seq<Phase>,
    replies: Seq<Reply>,
    k: int,
    source: usize,
)
    requires
        is_conversation(spec, inputs, phases, replies),
        0 <= k < phases.len(),
        phases[k] == (Phase::AddItem { source }) || phases[k] == (Phase::CreateInput { source }),
    ensures
        k > 0,
        phases[k - 1] == (Phase::Items { source }),
        source < spec.sources@.len(),
        replies[k - 1] matches Reply::Items(items) && !shows(
            items@,
            spec.sources@[source as int].name@,
        ),
        phases[k] is AddItem <==> exists|i: int|
            0 <= i < inputs.len() && (#[trigger] inputs[i]).name@
                == spec.sources@[source as int].name@,
{
    lemma_kind_checked(spec, inputs, phases, replies, k);
    assert(replies[k - 1].answers(phases[k - 1]));
    match replies[k - 1] {
        Reply::Items(items) => {
            law_shown_sources_are_used_again(spec, inputs, source, items);
        },
        _ => {},
    }
}

/// What is placed is the item that the scene already shows, the first of the
/// source's name, or the one that was just added.
pub proof fn law_placed_items(
    spec: SceneSpec,
    inputs: Seq<InputInfo>,
    phases: Seq<Phase>,
    replies: Seq<Reply>,
    k: int,
    source: usize,
    item: i64,
)
    requires
        is_conversation(spec, inputs, phases, replies),
        0 <= k < phases.len(),
        phases[k] == (Phase::Place { source, item }),
    ensures
        k > 0,
        match replies[k - 1] {
            Reply::Items(items) => exists|j: int|
                0 <= j < items@.len() && (#[trigger] items@[j]).source_name@
                    == spec.sources@[source as int].name@ && items@[j].id == item && forall|m: int|
                    0 <= m < j ==> (#[trigger] items@[m]).source_name@
                        != spec.sources@[source as int].name@,
            Reply::Item(added) => added == item && (phases[k - 1] == (Phase::AddItem { source })
                || phases[k - 1] == (Phase::CreateInput { source })),
            _ => false,
        },
{
    lemma_kind_checked(spec, inputs, phases, replies, k);
    assert(replies[k - 1].answers(phases[k - 1]));
    match replies[k - 1] {
        Reply::Items(items) => {
            let name = spec.sources@[source as int].name@;
            let names = item_names(items@);
            lemma_position(names, name);
            let found = position(names, name);
            assert(items@[found].source_name@ == names[found]);
            assert forall|m: int| 0 <= m < found implies (
            #[trigger] items@[m]).source_name@ != name by {
                assert(names[m] == items@[m].source_name@);
            }
        },
        _ => {},
    }
}

/// An input that was there before gets the settings of its source before the
/// source's items are listed, and no other input does.
pub proof fn law_known_inputs_are_configured(
    spec: SceneSpec,
    inputs: Seq<InputInfo>,
    phases: Seq<Phase>,
    replies: Seq<Reply>,
    k: int,
    source: usize,
)
    requires
        is_conversation(spec, inputs, phases, replies),
        0 <= k < phases.len(),
        phases[k] == (Phase::Items { source }),
    ensures
        k > 0,
        phases[k - 1] == (Phase::Configure { source }) <==> exists|i: int|
            0 <= i < inputs.len() && (#[trigger] inputs[i]).name@
                == spec.sources@[source as int].name@,
{
    lemma_kind_checked(spec, inputs, phases, replies, k);
    lemma_kind_checked(spec, inputs, phases, replies, k - 1);
    assert(replies[k - 1].answers(phases[k - 1]));
    assert(spec.sources.len() == spec.sources@.len());
    lemma_has_input(inputs, spec.sources@[source as int]);
}

/// The scene is created exactly if it is not among those that OBS lists, before
/// anything is done in it.
pub proof fn law_missing_scenes_are_created(
    spec: SceneSpec,
    inputs: Seq<InputInfo>,
    phases: Seq<Phase>,
    replies: Seq<Reply>,
)
    requires
        is_conversation(spec, inputs, phases, replies),
        phases.len() > 2,
    ensures
        phases[1] is Scenes,
        replies[1] matches Reply::Scenes(list) && phases[2] == if exists|i: int|
            0 <= i < list@.len() && (#[trigger] list@[i])@ == spec.scene@ {
            Phase::Inputs
        } else {
            Phase::CreateScene
        },
        forall|k: int| 2 < k < phases.len() ==> !((#[trigger] phases[k]) is CreateScene),
{
    assert(replies[0].answers(phases[0]));
    assert(replies[1].answers(phases[1]));
    match replies[1] {
        Reply::Scenes(list) => {
            let names = texts(list@);
            if names.contains(spec.scene@) {
                let i = choose|i: int| 0 <= i < names.len() && names[i] == spec.scene@;
                assert(list@[i]@ == spec.scene@);
            }
            if exists|i: int| 0 <= i < list@.len() && (#[trigger] list@[i])@ == spec.scene@ {
                let i = choose|i: int| 0 <= i < list@.len() && (#[trigger] list@[i])@ == spec.scene@;
                assert(names[i] == spec.scene@);
            }
        },
        _ => {},
    }
    assert forall|k: int| 2 < k < phases.len() implies !((#[trigger] phases[k]) is CreateScene) by {
        lemma_past_the_scene(spec, inputs, phases, replies, k);
    }
}

proof fn lemma_past_the_scene(
    spec: SceneSpec,
    inputs: Seq<InputInfo>,
    phases: Seq<Phase>,
    replies: Seq<Reply>,
    k: int,
)
    requires
        is_conversation(spec, inputs, phases, replies),
        2 <= k < phases.len(),
    ensures
        !(phases[k] is Canvas),
        !(phases[k] is Scenes),
        k > 2 ==> !(phases[k] is CreateScene),
    decreases k,
{
    assert(replies[k - 1].answers(phases[k - 1]));
    if k > 2 {
        lemma_past_the_scene(spec, inputs, phases, replies, k - 1);
    } else {
        assert(replies[0].answers(phases[0]));
    }
}

/// The sources have their turns in order: the first one once the inputs are known,
/// and each other one right after the one before it. After the last one nothing is
/// left but the activation.
pub proof fn law_sources_take_turns(
    spec: SceneSpec,
    inputs: Seq<InputInfo>,
    phases: Seq<Phase>,
    replies: Seq<Reply>,
    k: int,
)
    requires
        is_conversation(spec, inputs, phases, replies),
        0 <= k < replies.len(),
        phases[k] is Inputs || phases[k] is Order,
    ensures
        ({
            let due: int = match phases[k] {
                Phase::Order { source, item } => source + 1,
                _ => 0,
            };
            if due < spec.sources@.len() {
                ||| phases[k + 1] == (Phase::Configure { source: due as usize })
                ||| phases[k + 1] == (Phase::Items { source: due as usize })
            } else {
                phases[k + 1] == if spec.activate {
                    Phase::Activate
                } else {
                    Phase::Finished
                }
            }
        }),
{
    assert(replies[k].answers(phases[k]));
}

/// A conversation stops short for one of two reasons only: the scene does not fit
/// the canvas, or the first input of a source's name is of another kind, with and
/// without its version.
pub proof fn law_reasons_to_stop(
    spec: SceneSpec,
    inputs: Seq<InputInfo>,
    phase: Phase,
    reply: Reply,
)
    requires
        phase_fits(spec, phase),
        reply.answers(phase),
    ensures
        next_phase(spec, inputs, phase, reply) matches Err(failure) ==> match phase {
            Phase::Canvas => scene_flaw(spec, reply->Canvas_0) == Some(failure),
            _ => {
                let due: int = match phase {
                    Phase::Order { source, item } => source + 1,
                    _ => 0,
                };
                &&& phase is Inputs || phase is Order
                &&& due < spec.sources@.len()
                &&& exists|i: int|
                    0 <= i < inputs.len() && (#[trigger] inputs[i]).name@ == spec.sources@[due].name@
                        && inputs[i].kind@ != spec.sources@[due].kind@ && inputs[i].unversioned_kind@
                        != spec.sources@[due].kind@ && failure == (Failure::InputKind {
                        name: spec.sources@[due].name@,
                        existing: inputs[i].kind@,
                        wanted: spec.sources@[due].kind@,
                    })
            },
        },
{
    let due: int = match phase {
        Phase::Order { source, item } => source + 1,
        _ => 0,
    };
    if due < spec.sources@.len() {
        let wanted = spec.sources@[due];
        let names = input_names(inputs);
        lemma_position(names, wanted.name@);
        let found = position(names, wanted.name@);
        if found < inputs.len() {
            assert(inputs[found].name@ == names[found]);
        }
    }
}

/// The requests carry what the specification says of the scene and of the source:
/// the names, the kind, whether it is enabled and locked, how its picture is
/// fitted, its place in the stack, and the item that is meant.
pub proof fn law_requests_carry_the_specification(request: Request, spec: SceneSpec, phase: Phase)
    requires
        asks(request, spec, phase),
        phase_fits(spec, phase),
    ensures
        match request {
            Request::VideoSettings => phase is Canvas,
            Request::ListScenes => phase is Scenes,
            Request::ListInputs => phase is Inputs,
            Request::CreateScene { scene } => phase is CreateScene && scene@ == spec.scene@,
            Request::ListItems { scene } => phase is Items && scene@ == spec.scene@,
            Request::SetProgramScene { scene } => phase is Activate && scene@ == spec.scene@,
            Request::SetSettings { input, overlay, source } => {
                &&& phase == (Phase::Configure { source })
                &&& input@ == spec.sources@[source as int].name@
                &&& overlay
            },
            Request::CreateItem { scene, input, enabled } => {
                phase matches Phase::AddItem { source } && scene@ == spec.scene@ && input@
                    == spec.sources@[source as int].name@ && enabled
                    == spec.sources@[source as int].enabled
            },
            Request::CreateInput { scene, input, kind, enabled, source } => {
                &&& phase == (Phase::CreateInput { source })
                &&& scene@ == spec.scene@
                &&& input@ == spec.sources@[source as int].name@
                &&& kind@ == spec.sources@[source as int].kind@
                &&& enabled == spec.sources@[source as int].enabled
            },
            Request::SetTransform { scene, input, item, anchor, bounds, bounds_anchor, source } => {
                &&& phase == (Phase::Place { source, item })
                &&& scene@ == spec.scene@
                &&& input@ == spec.sources@[source as int].name@
                &&& anchor is TopLeft
                &&& bounds_anchor is Center
                &&& match spec.sources@[source as int].fit {
                    Fit::Contain => bounds is ScaleInner,
                    Fit::Cover => bounds is ScaleOuter,
                    Fit::Stretch => bounds is Stretch,
                }
            },
            Request::SetLocked { scene, input, item, locked } => {
                phase matches Phase::Lock { source, item: meant } && item == meant && scene@
                    == spec.scene@ && input@ == spec.sources@[source as int].name@ && locked
                    == spec.sources@[source as int].locked
            },
            Request::SetIndex { scene, input, item, index } => {
                phase matches Phase::Order { source, item: meant } && item == meant && scene@
                    == spec.scene@ && input@ == spec.sources@[source as int].name@ && (source
                    <= u32::MAX ==> index == source)
            },
        },
{
}

/// The inputs that OBS lists are the ones that count from then on. No other reply
/// changes them.
pub proof fn law_listed_inputs_count(before: Seq<InputInfo>, reply: Reply)
    ensures
        match reply {
            Reply::Inputs(list) => known_inputs(before, reply) == list@,
            _ => known_inputs(before, reply) == before,
        },
{
}

} // verus!
