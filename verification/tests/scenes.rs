use buddy::apply::{stacking_index, Apply, InputInfo, ItemInfo, Phase, Reply, Request};
use buddy::error::ErrorOf;
use buddy::number::IntError;
use buddy::obs::{
    endpoint, measured_pairs, plan, scene_to_judge, steps, validate, Action, BoundsKind, Canvas,
    Fit, SceneSpec, SourceSpec, Step,
};

const CANVAS: Canvas = Canvas { width: 1000, height: 600, margin_fits: true };

fn rect_fits(x: f32, y: f32, width: f32, height: f32) -> bool {
    [x, y, width, height].iter().all(|value| value.is_finite())
        && x >= 0.0
        && y >= 0.0
        && width > 0.0
        && height > 0.0
        && x + width <= 1.0 + f32::EPSILON
        && y + height <= 1.0 + f32::EPSILON
}

fn spec() -> SceneSpec {
    SceneSpec {
        scene: "Buddy Demo".to_owned(),
        activate: false,
        sources: vec![
            SourceSpec {
                name: "camera".to_owned(),
                kind: "v4l2_input".to_owned(),
                rect_fits: rect_fits(0.0, 0.0, 0.7, 1.0),
                fit: Fit::Cover,
                enabled: true,
                locked: true,
                allow_overlap: false,
            },
            SourceSpec {
                name: "chat".to_owned(),
                kind: "browser_source".to_owned(),
                rect_fits: rect_fits(0.7, 0.0, 0.3, 1.0),
                fit: Fit::Contain,
                enabled: true,
                locked: true,
                allow_overlap: false,
            },
        ],
    }
}

fn strings(values: &[&str]) -> Vec<String> {
    values.iter().map(|value| (*value).to_owned()).collect()
}

#[test]
fn rejects_out_of_bounds_and_duplicate_sources() {
    let mut invalid = spec();
    invalid.sources[0].rect_fits = rect_fits(0.0, 0.0, 1.1, 1.0);
    assert!(plan(&invalid, CANVAS).is_err());

    let mut duplicate = spec();
    duplicate.sources[1].name = "camera".to_owned();
    assert!(plan(&duplicate, CANVAS).is_err());
}

#[test]
fn a_plan_keeps_the_sources() {
    let layout = plan(&spec(), CANVAS).unwrap();
    assert_eq!(layout.scene, "Buddy Demo");
    assert_eq!(layout.canvas, CANVAS);
    assert_eq!(layout.sources.len(), 2);
    assert_eq!(layout.sources[0].name, "camera");
    assert_eq!(layout.sources[0].kind, "v4l2_input");
    assert_eq!(layout.sources[0].fit, Fit::Cover);
    assert_eq!(layout.sources[1].fit, Fit::Contain);
    assert!(layout.sources[1].enabled && layout.sources[1].locked);
    assert_eq!(layout.measured_pairs, [(0, 1)]);
}

#[test]
fn overlap_is_measured_where_it_is_not_allowed() {
    let mut sources = Vec::new();
    for i in 0..4 {
        let mut source = spec().sources[0].clone();
        source.name = format!("source {}", i);
        sources.push(source);
    }
    assert_eq!(measured_pairs(&sources), [(0, 1), (0, 2), (0, 3), (1, 2), (1, 3), (2, 3)]);
    sources[1].allow_overlap = true;
    assert_eq!(measured_pairs(&sources), [(0, 2), (0, 3), (2, 3)]);
    assert_eq!(measured_pairs(&Vec::new()), []);
}

#[test]
fn every_flaw_of_a_scene_is_told() {
    assert_eq!(validate(&spec(), CANVAS), Ok(()));
    let mut scene = spec();
    scene.scene = " \n".to_owned();
    assert_eq!(validate(&scene, CANVAS), Err(ErrorOf::SceneNameEmpty));
    let small = Canvas { width: 8, height: 7, margin_fits: true };
    assert_eq!(validate(&spec(), small), Err(ErrorOf::CanvasTooSmall));
    let wide = Canvas { width: 8, height: 8, margin_fits: false };
    assert_eq!(validate(&spec(), wide), Err(ErrorOf::SafeMargin));
    let mut scene = spec();
    scene.sources[1].kind = "".to_owned();
    assert_eq!(
        validate(&scene, CANVAS).unwrap_err().to_string(),
        "OBS source names and kinds cannot be empty"
    );
    let mut scene = spec();
    scene.sources[1].name = "camera".to_owned();
    scene.sources[1].rect_fits = false;
    assert_eq!(
        validate(&scene, CANVAS).unwrap_err().to_string(),
        "duplicate OBS source name 'camera'"
    );
    scene.sources[0].rect_fits = false;
    assert_eq!(
        validate(&scene, CANVAS).unwrap_err().to_string(),
        "source 'camera' rect must be finite, positive, and contained in normalized canvas coordinates"
    );
}

#[test]
fn actions_are_a_verb_and_an_operand() {
    let parse = |values: &[&str]| Action::parse(&strings(values));
    assert_eq!(parse(&["plan", "a.json"]), Ok(Action::Plan { spec: "a.json".to_owned() }));
    assert_eq!(parse(&["apply", "a.json"]), Ok(Action::Apply { spec: "a.json".to_owned() }));
    assert_eq!(parse(&["evaluate", "Demo"]), Ok(Action::Evaluate { scene: "Demo".to_owned() }));
    assert_eq!(parse(&["compose", "a.json"]), Ok(Action::Compose { spec: "a.json".to_owned() }));
    for values in [&[][..], &["plan"], &["draw", "a"], &["plan", "a", "b"]] {
        assert_eq!(parse(values), Err(ErrorOf::ObsUsage));
    }
}

#[test]
fn only_planning_stays_offline() {
    let path = "a.json".to_owned();
    assert_eq!(steps(&Action::Plan { spec: path.clone() }), [Step::ReadSpec, Step::PrintPlan]);
    assert_eq!(
        steps(&Action::Apply { spec: path.clone() }),
        [Step::Connect, Step::ReadSpec, Step::ApplyScene, Step::PrintApplied, Step::Disconnect]
    );
    assert_eq!(
        steps(&Action::Evaluate { scene: path.clone() }),
        [Step::Connect, Step::EvaluateScene, Step::PrintEvaluation, Step::Disconnect]
    );
    assert_eq!(
        steps(&Action::Compose { spec: path }),
        [
            Step::Connect,
            Step::ReadSpec,
            Step::ApplyScene,
            Step::EvaluateScene,
            Step::PrintComposition,
            Step::Disconnect,
        ]
    );
}

#[test]
fn the_endpoint_has_defaults() {
    assert_eq!(endpoint(None, None), Ok(("127.0.0.1".to_owned(), 4455)));
    assert_eq!(
        endpoint(Some("studio".to_owned()), Some("65535".to_owned())),
        Ok(("studio".to_owned(), 65535))
    );
    assert_eq!(
        endpoint(None, Some("65536".to_owned())),
        Err(ErrorOf::ObsPort { cause: IntError::TooLarge })
    );
    assert_eq!(
        endpoint(None, Some("".to_owned())).unwrap_err().report(),
        "BUDDY_OBS_PORT must be a valid port: cannot parse integer from empty string"
    );
}

#[test]
fn fits_have_their_bounds() {
    assert_eq!(Fit::default(), Fit::Contain);
    assert_eq!(Fit::Contain.bounds(), BoundsKind::ScaleInner);
    assert_eq!(Fit::Cover.bounds(), BoundsKind::ScaleOuter);
    assert_eq!(Fit::Stretch.bounds(), BoundsKind::Stretch);
}

fn input(name: &str, kind: &str, unversioned: &str) -> InputInfo {
    InputInfo {
        name: name.to_owned(),
        kind: kind.to_owned(),
        unversioned_kind: unversioned.to_owned(),
    }
}

#[test]
fn a_new_scene_is_put_into_obs() {
    let mut scene = spec();
    scene.activate = true;
    let mut apply = Apply::new(scene);
    let mut phases = vec![apply.phase];
    let mut next_item = 100;
    while apply.phase != Phase::Finished {
        let reply = match apply.phase {
            Phase::Canvas => Reply::Canvas(CANVAS),
            Phase::Scenes => Reply::Scenes(strings(&["Other"])),
            Phase::Inputs => Reply::Inputs(vec![input("camera", "v4l2_input_v2", "v4l2_input")]),
            Phase::Items { .. } => Reply::Items(vec![]),
            Phase::AddItem { .. } | Phase::CreateInput { .. } => {
                next_item += 1;
                Reply::Item(next_item)
            }
            _ => Reply::Done,
        };
        apply.receive(reply).unwrap();
        phases.push(apply.phase);
    }
    assert_eq!(
        phases,
        [
            Phase::Canvas,
            Phase::Scenes,
            Phase::CreateScene,
            Phase::Inputs,
            Phase::Configure { source: 0 },
            Phase::Items { source: 0 },
            Phase::AddItem { source: 0 },
            Phase::Place { source: 0, item: 101 },
            Phase::Lock { source: 0, item: 101 },
            Phase::Order { source: 0, item: 101 },
            Phase::Items { source: 1 },
            Phase::CreateInput { source: 1 },
            Phase::Place { source: 1, item: 102 },
            Phase::Lock { source: 1, item: 102 },
            Phase::Order { source: 1, item: 102 },
            Phase::Activate,
            Phase::Finished,
        ]
    );
    assert!(apply.created_scene);
    assert_eq!(apply.configured_sources(), 2);
    assert_eq!(apply.plan.unwrap().scene, "Buddy Demo");
    assert_eq!(stacking_index(1), 1);
}

#[test]
fn a_known_scene_is_not_created_again() {
    let mut apply = Apply::new(spec());
    apply.receive(Reply::Canvas(CANVAS)).unwrap();
    apply.receive(Reply::Scenes(strings(&["Buddy Demo"]))).unwrap();
    assert_eq!(apply.phase, Phase::Inputs);
    assert!(!apply.created_scene);
    apply.receive(Reply::Inputs(vec![])).unwrap();
    assert_eq!(apply.phase, Phase::Items { source: 0 });
    let items = vec![
        ItemInfo { id: 3, source_name: "chat".to_owned() },
        ItemInfo { id: 4, source_name: "camera".to_owned() },
        ItemInfo { id: 5, source_name: "camera".to_owned() },
    ];
    apply.receive(Reply::Items(items)).unwrap();
    assert_eq!(apply.phase, Phase::Place { source: 0, item: 4 });
}

#[test]
fn an_input_of_another_kind_stops_the_scene() {
    let mut apply = Apply::new(spec());
    apply.receive(Reply::Canvas(CANVAS)).unwrap();
    apply.receive(Reply::Scenes(vec![])).unwrap();
    apply.receive(Reply::Done).unwrap();
    let error = apply
        .receive(Reply::Inputs(vec![input("camera", "image_source_v3", "image_source")]))
        .unwrap_err();
    assert_eq!(
        error.to_string(),
        "OBS input 'camera' already exists with kind 'image_source_v3', not 'v4l2_input'"
    );
}

fn request_text(request: Option<Request<'_>>) -> String {
    match request {
        None => "none".to_owned(),
        Some(Request::VideoSettings) => "video settings".to_owned(),
        Some(Request::ListScenes) => "list scenes".to_owned(),
        Some(Request::CreateScene { scene }) => format!("create scene {}", scene),
        Some(Request::ListInputs) => "list inputs".to_owned(),
        Some(Request::SetSettings { input, overlay, source }) => {
            format!("settings {} {} {}", input, overlay, source)
        }
        Some(Request::ListItems { scene }) => format!("items {}", scene),
        Some(Request::CreateItem { scene, input, enabled }) => {
            format!("item {} {} {}", scene, input, enabled)
        }
        Some(Request::CreateInput { scene, input, kind, enabled, source }) => {
            format!("input {} {} {} {} {}", scene, input, kind, enabled, source)
        }
        Some(Request::SetTransform {
            scene,
            input,
            item,
            anchor,
            bounds,
            bounds_anchor,
            source,
        }) => {
            format!(
                "transform {} {} {} {:?} {:?} {:?} {}",
                scene, input, item, anchor, bounds, bounds_anchor, source
            )
        }
        Some(Request::SetLocked { scene, input, item, locked }) => {
            format!("lock {} {} {} {}", scene, input, item, locked)
        }
        Some(Request::SetIndex { scene, input, item, index }) => {
            format!("index {} {} {} {}", scene, input, item, index)
        }
        Some(Request::SetProgramScene { scene }) => format!("program {}", scene),
    }
}

#[test]
fn requests_carry_the_values_of_the_specification() {
    let mut scene = spec();
    scene.scene = "Demo".to_owned();
    scene.activate = true;
    scene.sources[0].enabled = false;
    scene.sources[1].locked = false;
    let mut apply = Apply::new(scene);
    let mut requests = vec![request_text(apply.request())];
    let replies = vec![
        Reply::Canvas(CANVAS),
        Reply::Scenes(vec![]),
        Reply::Done,
        Reply::Inputs(vec![input("camera", "v4l2_input", "v4l2_input")]),
        Reply::Done,
        Reply::Items(vec![]),
        Reply::Item(7),
        Reply::Done,
        Reply::Done,
        Reply::Done,
        Reply::Items(vec![]),
        Reply::Item(8),
        Reply::Done,
        Reply::Done,
        Reply::Done,
        Reply::Done,
    ];
    for reply in replies {
        apply.receive(reply).unwrap();
        requests.push(request_text(apply.request()));
    }
    assert_eq!(
        requests,
        [
            "video settings",
            "list scenes",
            "create scene Demo",
            "list inputs",
            "settings camera true 0",
            "items Demo",
            "item Demo camera false",
            "transform Demo camera 7 TopLeft ScaleOuter Center 0",
            "lock Demo camera 7 true",
            "index Demo camera 7 0",
            "items Demo",
            "input Demo chat browser_source true 1",
            "transform Demo chat 8 TopLeft ScaleInner Center 1",
            "lock Demo chat 8 false",
            "index Demo chat 8 1",
            "program Demo",
            "none",
        ]
    );
}

#[test]
fn the_judged_scene_follows_the_action() {
    let scene = spec();
    let evaluate = Action::Evaluate { scene: "Other".to_owned() };
    let judged = scene_to_judge(&evaluate, Some(&scene)).unwrap();
    assert_eq!((judged.scene, judged.with_metrics), ("Other", false));
    let judged = scene_to_judge(&evaluate, None).unwrap();
    assert_eq!((judged.scene, judged.with_metrics), ("Other", false));
    let compose = Action::Compose { spec: "a.json".to_owned() };
    let judged = scene_to_judge(&compose, Some(&scene)).unwrap();
    assert_eq!((judged.scene, judged.with_metrics), ("Buddy Demo", true));
    assert!(scene_to_judge(&compose, None).is_none());
    assert!(scene_to_judge(&Action::Plan { spec: "a".to_owned() }, Some(&scene)).is_none());
    assert!(scene_to_judge(&Action::Apply { spec: "a".to_owned() }, Some(&scene)).is_none());
}

#[test]
fn a_flawed_scene_changes_nothing_in_obs() {
    let mut apply = Apply::new(spec());
    let small = Canvas { width: 4, height: 4, margin_fits: false };
    assert_eq!(apply.receive(Reply::Canvas(small)), Err(ErrorOf::CanvasTooSmall));
    assert_eq!(apply.phase, Phase::Canvas);
}
