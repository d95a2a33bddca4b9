//! What Buddy does for a command, step by step.

use vstd::prelude::*;
use crate::cli::{
    command_of, law_context_screen_is_opt_in, law_options_are_opt_in, CliCommand, Command,
    CommandOf,
};
use crate::error::{Error, Failure};
use crate::scan::scan_directory;
use crate::settings::SettingOf;
use crate::text::concat3;

verus! {

/// One step of what is done for a command. A step that fails ends it.
#[derive(Clone, Copy, Debug, PartialEq, Eq, Structural)]
pub enum Step {
    PrintHelp,
    PrintVersion,
    /// Open the store, and make it if it is not there.
    OpenStore,
    /// Replace the stored processes by those that run now.
    CaptureProcesses,
    /// Find out whether the store holds any filesystem entries.
    CountEntries,
    /// Replace the stored filesystem entries by those of a directory.
    ScanFiles,
    /// Tell what was scanned, and how many processes run.
    PrintScan,
    /// Tell what was scanned, beside the answer.
    ReportScan,
    PrintStatus,
    /// Look for a newer release.
    CheckForUpdate,
    /// Show the animated avatar while the next steps are taken.
    StartAvatar,
    /// Take the avatar away again.
    FinishAvatar,
    /// Show the avatar for its own sake.
    ShowAvatar,
    CaptureScreen,
    /// Make the bounded view of the snapshot.
    ReadContext,
    PrintContext,
    /// Send the question, the view and the screen image, if there is one, to the
    /// model.
    AskModel,
    PrintAnswer,
    /// Have the answer spoken.
    Speak,
}

/// The steps if the condition holds, and none otherwise.
pub open spec fn steps_if(condition: bool, steps: Seq<Step>) -> Seq<Step> {
    if condition {
        steps
    } else {
        Seq::empty()
    }
}

/// The steps for a command, in order. `unscanned` says that the store holds no
/// filesystem entries.
pub open spec fn steps_of(command: Command, unscanned: bool) -> Seq<Step> {
    match command {
        CommandOf::Help => seq![Step::PrintHelp],
        CommandOf::Version => seq![Step::PrintVersion],
        CommandOf::Scan { root } => seq![
            Step::OpenStore,
            Step::CaptureProcesses,
            Step::ScanFiles,
            Step::PrintScan,
        ],
        CommandOf::Status => seq![Step::OpenStore, Step::PrintStatus],
        CommandOf::Update { force } => seq![Step::OpenStore, Step::CheckForUpdate],
        CommandOf::Avatar => seq![Step::OpenStore, Step::ShowAvatar],
        CommandOf::Context { limit, screen } => seq![
            Step::OpenStore,
            Step::CaptureProcesses,
            Step::ReadContext,
        ] + steps_if(screen, seq![Step::StartAvatar, Step::CaptureScreen, Step::FinishAvatar])
            + seq![Step::PrintContext],
        CommandOf::Ask { question, refresh, speak, screen, avatar, limit } => seq![
            Step::OpenStore,
            Step::StartAvatar,
            Step::CaptureProcesses,
        ] + steps_if(!refresh, seq![Step::CountEntries]) + steps_if(
            refresh || unscanned,
            seq![Step::ScanFiles, Step::ReportScan],
        ) + steps_if(screen, seq![Step::CaptureScreen]) + seq![
            Step::ReadContext,
            Step::AskModel,
            Step::FinishAvatar,
            Step::PrintAnswer,
        ] + steps_if(speak, seq![Step::Speak]),
    }
}

/// The step to take after the first `taken` ones. What `unscanned` is matters
/// from the step on that finds it out.
pub fn next_step(command: &CliCommand, taken: usize, unscanned: bool) -> (res: Option<Step>)
    ensures
        res == if taken < steps_of(command@, unscanned).len() {
            Some(steps_of(command@, unscanned)[taken as int])
        } else {
            None
        },
{
    let steps = steps(command, unscanned);
    if taken < steps.len() {
        Some(steps[taken])
    } else {
        None
    }
}

/// The steps for a command, in order.
fn steps(command: &CliCommand, unscanned: bool) -> (res: Vec<Step>)
    ensures
        res@ == steps_of(command@, unscanned),
{
    let mut res: Vec<Step> = Vec::new();
    match command {
        CommandOf::Help => {
            res.push(Step::PrintHelp);
        },
        CommandOf::Version => {
            res.push(Step::PrintVersion);
        },
        CommandOf::Scan { root } => {
            res.push(Step::OpenStore);
            res.push(Step::CaptureProcesses);
            res.push(Step::ScanFiles);
            res.push(Step::PrintScan);
        },
        CommandOf::Status => {
            res.push(Step::OpenStore);
            res.push(Step::PrintStatus);
        },
        CommandOf::Update { force } => {
            res.push(Step::OpenStore);
            res.push(Step::CheckForUpdate);
        },
        CommandOf::Avatar => {
            res.push(Step::OpenStore);
            res.push(Step::ShowAvatar);
        },
        CommandOf::Context { limit, screen } => {
            res.push(Step::OpenStore);
            res.push(Step::CaptureProcesses);
            res.push(Step::ReadContext);
            if *screen {
                res.push(Step::StartAvatar);
                res.push(Step::CaptureScreen);
                res.push(Step::FinishAvatar);
            }
            res.push(Step::PrintContext);
        },
        CommandOf::Ask { question, refresh, speak, screen, avatar, limit } => {
            res.push(Step::OpenStore);
            res.push(Step::StartAvatar);
            res.push(Step::CaptureProcesses);
            if !*refresh {
                res.push(Step::CountEntries);
            }
            if *refresh || unscanned {
                res.push(Step::ScanFiles);
                res.push(Step::ReportScan);
            }
            if *screen {
                res.push(Step::CaptureScreen);
            }
            res.push(Step::ReadContext);
            res.push(Step::AskModel);
            res.push(Step::FinishAvatar);
            res.push(Step::PrintAnswer);
            if *speak {
                res.push(Step::Speak);
            }
        },
    }
    assert(res@ =~= steps_of(command@, unscanned));
    res
}

/// The steps include the given one.
pub open spec fn takes(command: Command, unscanned: bool, step: Step) -> bool {
    steps_of(command, unscanned).contains(step)
}

/// Wherever both steps stand, the first stands before the second.
pub open spec fn keeps_order(steps: Seq<Step>, first: Step, second: Step) -> bool {
    forall|i: int, j: int|
        0 <= i < steps.len() && 0 <= j < steps.len() && #[trigger] steps[i] == first
            && #[trigger] steps[j] == second ==> i < j
}

/// Nothing is spoken unless the question asks for it, and then the answer is
/// spoken last.
pub proof fn law_speech_is_opt_in(command: Command, unscanned: bool)
    ensures
        takes(command, unscanned, Step::Speak) <==> (command matches CommandOf::Ask {
            speak,
            ..
        } && speak),
        takes(command, unscanned, Step::Speak) ==> steps_of(command, unscanned).last()
            == Step::Speak,
{
    let steps = steps_of(command, unscanned);
    if command matches CommandOf::Ask { speak, .. } && speak {
        assert(steps[steps.len() - 1] == Step::Speak);
    }
}

/// Speech needs its flag: a line of arguments leads to speech exactly if it is a
/// question with `--speak` among its arguments.
pub proof fn law_speech_needs_its_flag(
    args: Seq<Seq<char>>,
    setting: SettingOf<Seq<char>>,
    unscanned: bool,
)
    ensures
        command_of(args, setting) matches Ok(command) ==> (takes(command, unscanned, Step::Speak)
            <==> args.len() > 0 && args[0] == "ask"@ && args.drop_first().contains("--speak"@)),
{
    match command_of(args, setting) {
        Ok(command) => {
            law_speech_is_opt_in(command, unscanned);
            law_options_are_opt_in(args.drop_first(), setting);
        },
        Err(_) => {},
    }
}

/// The model is asked for questions alone: no other command reaches it, and in
/// particular neither `context` nor `status` does.
pub proof fn law_only_questions_reach_the_model(command: Command, unscanned: bool)
    ensures
        takes(command, unscanned, Step::AskModel) <==> command is Ask,
{
    let steps = steps_of(command, unscanned);
    match command {
        CommandOf::Ask { speak, .. } => {
            let last = steps.len() - if speak {
                1int
            } else {
                0int
            };
            assert(steps[last - 3] == Step::AskModel);
        },
        _ => {},
    }
}

/// Releases are looked for by `update` alone.
pub proof fn law_only_update_looks_for_releases(command: Command, unscanned: bool)
    ensures
        takes(command, unscanned, Step::CheckForUpdate) <==> command is Update,
{
    if command is Update {
        assert(steps_of(command, unscanned)[1] == Step::CheckForUpdate);
    }
}

/// The screen is captured only on request, and before anything is sent or shown.
pub proof fn law_screen_is_opt_in(command: Command, unscanned: bool)
    ensures
        takes(command, unscanned, Step::CaptureScreen) <==> {
            ||| (command matches CommandOf::Ask { screen, .. } && screen)
            ||| (command matches CommandOf::Context { screen, .. } && screen)
        },
        keeps_order(steps_of(command, unscanned), Step::CaptureScreen, Step::AskModel),
        keeps_order(steps_of(command, unscanned), Step::CaptureScreen, Step::PrintContext),
{
    let steps = steps_of(command, unscanned);
    match command {
        CommandOf::Ask { refresh, screen, .. } => {
            let k = 3 + if refresh {
                2int
            } else if unscanned {
                3int
            } else {
                1int
            };
            if screen {
                assert(steps[k] == Step::CaptureScreen);
            }
        },
        CommandOf::Context { screen, .. } => {
            if screen {
                assert(steps[4] == Step::CaptureScreen);
            }
        },
        _ => {},
    }
}

/// Screen images need their flag: a line of arguments leads to one exactly if it
/// is a question or a request for the view with `--screen` among its arguments.
pub proof fn law_screen_needs_its_flag(
    args: Seq<Seq<char>>,
    setting: SettingOf<Seq<char>>,
    unscanned: bool,
)
    ensures
        command_of(args, setting) matches Ok(command) ==> (takes(
            command,
            unscanned,
            Step::CaptureScreen,
        ) <==> args.len() > 0 && (args[0] == "ask"@ || args[0] == "context"@)
            && args.drop_first().contains("--screen"@)),
{
    match command_of(args, setting) {
        Ok(command) => {
            reveal_strlit("ask");
            reveal_strlit("scan");
            reveal_strlit("context");
            assert("ask"@.len() == 3 && "scan"@.len() == 4 && "context"@.len() == 7);
            law_screen_is_opt_in(command, unscanned);
            law_options_are_opt_in(args.drop_first(), setting);
            law_context_screen_is_opt_in(args.drop_first(), setting);
        },
        Err(_) => {},
    }
}

/// The processes are captured anew for every question and for every view that is
/// shown, before the view is made.
pub proof fn law_processes_are_current(command: Command, unscanned: bool)
    ensures
        command is Ask || command is Context || command is Scan <==> takes(
            command,
            unscanned,
            Step::CaptureProcesses,
        ),
        keeps_order(steps_of(command, unscanned), Step::CaptureProcesses, Step::ReadContext),
        keeps_order(steps_of(command, unscanned), Step::ReadContext, Step::AskModel),
        keeps_order(steps_of(command, unscanned), Step::ReadContext, Step::PrintContext),
{
    let steps = steps_of(command, unscanned);
    if command is Ask {
        assert(steps[2] == Step::CaptureProcesses);
    } else if command is Context || command is Scan {
        assert(steps[1] == Step::CaptureProcesses);
    }
}

/// A question scans the filesystem exactly when it asks for that or nothing has
/// been scanned yet, and then before the view is made. No command but a question
/// and `scan` scans at all.
pub proof fn law_questions_scan_when_needed(command: Command, unscanned: bool)
    ensures
        takes(command, unscanned, Step::ScanFiles) <==> {
            ||| command is Scan
            ||| (command matches CommandOf::Ask { refresh, .. } && (refresh || unscanned))
        },
        keeps_order(steps_of(command, unscanned), Step::ScanFiles, Step::ReadContext),
{
    let steps = steps_of(command, unscanned);
    match command {
        CommandOf::Scan { .. } => {
            assert(steps[2] == Step::ScanFiles);
        },
        CommandOf::Ask { refresh, .. } => {
            if refresh {
                assert(steps[3] == Step::ScanFiles);
            } else if unscanned {
                assert(steps[4] == Step::ScanFiles);
            }
        },
        _ => {},
    }
}

/// Whether anything has been scanned is found out before it matters: up to the
/// step that finds it out, and throughout if no step does, the steps are the
/// same either way.
pub proof fn law_scan_state_is_known_in_time(command: Command, taken: int)
    requires
        0 <= taken < steps_of(command, true).len(),
        forall|k: int|
            0 <= k < taken ==> #[trigger] steps_of(command, true)[k] != Step::CountEntries,
    ensures
        taken < steps_of(command, false).len(),
        steps_of(command, false)[taken] == steps_of(command, true)[taken],
{
    let steps = steps_of(command, true);
    match command {
        CommandOf::Ask { refresh, .. } => {
            if !refresh && taken > 3 {
                assert(steps[3] == Step::CountEntries);
            }
        },
        _ => {},
    }
}

/// Help and version touch nothing: they open no store. Every other command opens
/// the store first.
pub proof fn law_help_and_version_touch_nothing(command: Command, unscanned: bool)
    ensures
        command is Help ==> steps_of(command, unscanned) == seq![Step::PrintHelp],
        command is Version ==> steps_of(command, unscanned) == seq![Step::PrintVersion],
        !(command is Help) && !(command is Version) ==> steps_of(command, unscanned)[0]
            == Step::OpenStore,
{
}

// What follows rests on two tables: when a step is taken, and which comes first.

spec fn is_among(command: Command, unscanned: bool, step: Step) -> bool {
    match command {
        CommandOf::Help => step is PrintHelp,
        CommandOf::Version => step is PrintVersion,
        CommandOf::Scan { root } => step is OpenStore || step is CaptureProcesses
            || step is ScanFiles || step is PrintScan,
        CommandOf::Status => step is OpenStore || step is PrintStatus,
        CommandOf::Update { force } => step is OpenStore || step is CheckForUpdate,
        CommandOf::Avatar => step is OpenStore || step is ShowAvatar,
        CommandOf::Context { limit, screen } => {
            ||| step is OpenStore
            ||| step is CaptureProcesses
            ||| step is ReadContext
            ||| step is PrintContext
            ||| screen && (step is StartAvatar || step is CaptureScreen || step is FinishAvatar)
        },
        CommandOf::Ask { question, refresh, speak, screen, avatar, limit } => {
            ||| step is OpenStore
            ||| step is StartAvatar
            ||| step is CaptureProcesses
            ||| !refresh && step is CountEntries
            ||| (refresh || unscanned) && (step is ScanFiles || step is ReportScan)
            ||| screen && step is CaptureScreen
            ||| step is ReadContext
            ||| step is AskModel
            ||| step is FinishAvatar
            ||| step is PrintAnswer
            ||| speak && step is Speak
        },
    }
}

spec fn rank(command: Command, step: Step) -> int {
    match step {
        Step::OpenStore => 0,
        Step::CaptureProcesses => if command is Ask {
            2
        } else {
            1
        },
        Step::StartAvatar => if command is Ask {
            1
        } else {
            8
        },
        Step::CountEntries => 3,
        Step::ScanFiles => 4,
        Step::ReportScan => 5,
        Step::CaptureScreen => if command is Ask {
            6
        } else {
            9
        },
        Step::ReadContext => 7,
        Step::AskModel => 9,
        Step::FinishAvatar => 10,
        Step::PrintAnswer => 11,
        Step::Speak => 12,
        _ => 13,
    }
}

/// The ranks of the steps rise, from `low` on and below `high`.
spec fn rises(command: Command, steps: Seq<Step>, low: int, high: int) -> bool {
    &&& forall|i: int| 0 <= i < steps.len() ==> low <= rank(command, #[trigger] steps[i]) < high
    &&& forall|i: int, j: int|
        0 <= i < j < steps.len() ==> rank(command, #[trigger] steps[i]) < rank(
            command,
            #[trigger] steps[j],
        )
}

proof fn lemma_rises(
    command: Command,
    left: Seq<Step>,
    right: Seq<Step>,
    low: int,
    middle: int,
    high: int,
)
    requires
        low <= middle <= high,
        rises(command, left, low, middle),
        rises(command, right, middle, high),
    ensures
        rises(command, left + right, low, high),
{
    let all = left + right;
    assert forall|i: int| 0 <= i < all.len() implies low <= rank(command, #[trigger] all[i])
        < high by {
        if i < left.len() {
            assert(all[i] == left[i]);
        } else {
            assert(all[i] == right[i - left.len()]);
        }
    }
    assert forall|i: int, j: int| 0 <= i < j < all.len() implies rank(command, #[trigger] all[i])
        < rank(command, #[trigger] all[j]) by {
        if i < left.len() {
            assert(all[i] == left[i]);
        } else {
            assert(all[i] == right[i - left.len()]);
        }
        if j < left.len() {
            assert(all[j] == left[j]);
        } else {
            assert(all[j] == right[j - left.len()]);
        }
    }
}

proof fn lemma_ranked(command: Command, unscanned: bool)
    ensures
        rises(command, steps_of(command, unscanned), 0, 14),
        steps_of(command, unscanned).no_duplicates(),
{
    match command {
        CommandOf::Context { limit, screen } => {
            let a = seq![Step::OpenStore, Step::CaptureProcesses, Step::ReadContext];
            let b = steps_if(
                screen,
                seq![Step::StartAvatar, Step::CaptureScreen, Step::FinishAvatar],
            );
            let c = seq![Step::PrintContext];
            lemma_rises(command, a, b, 0, 8, 13);
            lemma_rises(command, a + b, c, 0, 13, 14);
            assert(steps_of(command, unscanned) == a + b + c);
        },
        CommandOf::Ask { question, refresh, speak, screen, avatar, limit } => {
            let a = seq![Step::OpenStore, Step::StartAvatar, Step::CaptureProcesses];
            let b = steps_if(!refresh, seq![Step::CountEntries]);
            let c = steps_if(refresh || unscanned, seq![Step::ScanFiles, Step::ReportScan]);
            let d = steps_if(screen, seq![Step::CaptureScreen]);
            let e = seq![
                Step::ReadContext,
                Step::AskModel,
                Step::FinishAvatar,
                Step::PrintAnswer,
            ];
            let f = steps_if(speak, seq![Step::Speak]);
            lemma_rises(command, a, b, 0, 3, 4);
            lemma_rises(command, a + b, c, 0, 4, 6);
            lemma_rises(command, a + b + c, d, 0, 6, 7);
            lemma_rises(command, a + b + c + d, e, 0, 7, 12);
            lemma_rises(command, a + b + c + d + e, f, 0, 12, 14);
            assert(steps_of(command, unscanned) == a + b + c + d + e + f);
        },
        _ => {},
    }
    lemma_rising_is_distinct(command, steps_of(command, unscanned));
}

proof fn lemma_rising_is_distinct(command: Command, steps: Seq<Step>)
    requires
        rises(command, steps, 0, 14),
    ensures
        steps.no_duplicates(),
{
    assert forall|i: int, j: int|
        0 <= i < steps.len() && 0 <= j < steps.len() && i != j implies steps[i] != steps[j] by {
        if i < j {
            assert(rank(command, steps[i]) < rank(command, steps[j]));
        } else {
            assert(rank(command, steps[j]) < rank(command, steps[i]));
        }
    }
}

proof fn lemma_order(command: Command, unscanned: bool, first: Step, second: Step)
    requires
        rank(command, first) < rank(command, second),
    ensures
        keeps_order(steps_of(command, unscanned), first, second),
{
    lemma_ranked(command, unscanned);
    lemma_rising_keeps_order(command, steps_of(command, unscanned), first, second);
}

proof fn lemma_rising_keeps_order(command: Command, steps: Seq<Step>, first: Step, second: Step)
    requires
        rises(command, steps, 0, 14),
        rank(command, first) < rank(command, second),
    ensures
        keeps_order(steps, first, second),
{
    assert forall|i: int, j: int|
        0 <= i < steps.len() && 0 <= j < steps.len() && #[trigger] steps[i] == first
            && #[trigger] steps[j] == second implies i < j by {
        if j < i {
            assert(rank(command, steps[j]) < rank(command, steps[i]));
        }
    }
}

proof fn lemma_either(left: Seq<Step>, right: Seq<Step>, step: Step)
    ensures
        (left + right).contains(step) <==> left.contains(step) || right.contains(step),
{
    let all = left + right;
    if left.contains(step) {
        let i = choose|i: int| 0 <= i < left.len() && left[i] == step;
        assert(all[i] == step);
    }
    if right.contains(step) {
        let i = choose|i: int| 0 <= i < right.len() && right[i] == step;
        assert(all[left.len() + i] == step);
    }
    if all.contains(step) {
        let i = choose|i: int| 0 <= i < all.len() && all[i] == step;
        if i < left.len() {
            assert(left[i] == step);
        } else {
            assert(right[i - left.len()] == step);
        }
    }
}

proof fn lemma_one(a: Step, step: Step)
    ensures
        seq![a].contains(step) <==> step == a,
{
    assert(seq![a][0] == a);
}

proof fn lemma_two(a: Step, b: Step, step: Step)
    ensures
        seq![a, b].contains(step) <==> step == a || step == b,
{
    assert(seq![a, b][0] == a && seq![a, b][1] == b);
}

proof fn lemma_three(a: Step, b: Step, c: Step, step: Step)
    ensures
        seq![a, b, c].contains(step) <==> step == a || step == b || step == c,
{
    let all = seq![a, b, c];
    assert(all[0] == a && all[1] == b && all[2] == c);
}

proof fn lemma_four(a: Step, b: Step, c: Step, d: Step, step: Step)
    ensures
        seq![a, b, c, d].contains(step) <==> step == a || step == b || step == c || step == d,
{
    let all = seq![a, b, c, d];
    assert(all[0] == a && all[1] == b && all[2] == c && all[3] == d);
}

proof fn lemma_takes(command: Command, unscanned: bool, step: Step)
    ensures
        takes(command, unscanned, step) <==> is_among(command, unscanned, step),
{
    match command {
        CommandOf::Help => lemma_one(Step::PrintHelp, step),
        CommandOf::Version => lemma_one(Step::PrintVersion, step),
        CommandOf::Scan { root } => lemma_four(
            Step::OpenStore,
            Step::CaptureProcesses,
            Step::ScanFiles,
            Step::PrintScan,
            step,
        ),
        CommandOf::Status => lemma_two(Step::OpenStore, Step::PrintStatus, step),
        CommandOf::Update { force } => lemma_two(Step::OpenStore, Step::CheckForUpdate, step),
        CommandOf::Avatar => lemma_two(Step::OpenStore, Step::ShowAvatar, step),
        CommandOf::Context { limit, screen } => {
            let a = seq![Step::OpenStore, Step::CaptureProcesses, Step::ReadContext];
            let b = steps_if(
                screen,
                seq![Step::StartAvatar, Step::CaptureScreen, Step::FinishAvatar],
            );
            lemma_three(Step::OpenStore, Step::CaptureProcesses, Step::ReadContext, step);
            lemma_three(Step::StartAvatar, Step::CaptureScreen, Step::FinishAvatar, step);
            lemma_one(Step::PrintContext, step);
            lemma_either(a, b, step);
            lemma_either(a + b, seq![Step::PrintContext], step);
        },
        CommandOf::Ask { question, refresh, speak, screen, avatar, limit } => {
            let a = seq![Step::OpenStore, Step::StartAvatar, Step::CaptureProcesses];
            let b = steps_if(!refresh, seq![Step::CountEntries]);
            let c = steps_if(refresh || unscanned, seq![Step::ScanFiles, Step::ReportScan]);
            let d = steps_if(screen, seq![Step::CaptureScreen]);
            let e = seq![
                Step::ReadContext,
                Step::AskModel,
                Step::FinishAvatar,
                Step::PrintAnswer,
            ];
            let f = steps_if(speak, seq![Step::Speak]);
            lemma_three(Step::OpenStore, Step::StartAvatar, Step::CaptureProcesses, step);
            lemma_one(Step::CountEntries, step);
            lemma_two(Step::ScanFiles, Step::ReportScan, step);
            lemma_one(Step::CaptureScreen, step);
            lemma_four(
                Step::ReadContext,
                Step::AskModel,
                Step::FinishAvatar,
                Step::PrintAnswer,
                step,
            );
            lemma_one(Step::Speak, step);
            lemma_either(a, b, step);
            lemma_either(a + b, c, step);
            lemma_either(a + b + c, d, step);
            lemma_either(a + b + c + d, e, step);
            lemma_either(a + b + c + d + e, f, step);
        },
    }
}

/// The view is printed by `context` alone, with or without a screen image, as the
/// last step, and it has been made by then.
pub proof fn law_context_prints_the_view(command: Command, unscanned: bool)
    ensures
        takes(command, unscanned, Step::PrintContext) <==> command is Context,
        command is Context ==> steps_of(command, unscanned).last() == Step::PrintContext,
        takes(command, unscanned, Step::ReadContext) <==> command is Context || command is Ask,
{
    lemma_takes(command, unscanned, Step::PrintContext);
    lemma_takes(command, unscanned, Step::ReadContext);
}

/// Every question has its answer printed, once the model has been asked and the
/// avatar is gone, and before anything is spoken.
pub proof fn law_answers_are_printed(command: Command, unscanned: bool)
    ensures
        takes(command, unscanned, Step::PrintAnswer) <==> command is Ask,
        keeps_order(steps_of(command, unscanned), Step::AskModel, Step::PrintAnswer),
        keeps_order(steps_of(command, unscanned), Step::FinishAvatar, Step::PrintAnswer),
        keeps_order(steps_of(command, unscanned), Step::PrintAnswer, Step::Speak),
{
    lemma_takes(command, unscanned, Step::PrintAnswer);
    lemma_order(command, unscanned, Step::AskModel, Step::PrintAnswer);
    lemma_order(command, unscanned, Step::FinishAvatar, Step::PrintAnswer);
    lemma_order(command, unscanned, Step::PrintAnswer, Step::Speak);
}

/// Each of the plain commands does what it is for, as its last step, and no other
/// command does that.
pub proof fn law_commands_do_their_work(command: Command, unscanned: bool)
    ensures
        takes(command, unscanned, Step::PrintHelp) <==> command is Help,
        takes(command, unscanned, Step::PrintVersion) <==> command is Version,
        takes(command, unscanned, Step::PrintStatus) <==> command is Status,
        takes(command, unscanned, Step::PrintScan) <==> command is Scan,
        takes(command, unscanned, Step::ShowAvatar) <==> command is Avatar,
        command is Status ==> steps_of(command, unscanned).last() == Step::PrintStatus,
        command is Scan ==> steps_of(command, unscanned).last() == Step::PrintScan,
        command is Avatar ==> steps_of(command, unscanned).last() == Step::ShowAvatar,
        command is Update ==> steps_of(command, unscanned).last() == Step::CheckForUpdate,
        keeps_order(steps_of(command, unscanned), Step::CaptureProcesses, Step::ScanFiles),
        keeps_order(steps_of(command, unscanned), Step::ScanFiles, Step::PrintScan),
{
    lemma_takes(command, unscanned, Step::PrintHelp);
    lemma_takes(command, unscanned, Step::PrintVersion);
    lemma_takes(command, unscanned, Step::PrintStatus);
    lemma_takes(command, unscanned, Step::PrintScan);
    lemma_takes(command, unscanned, Step::ShowAvatar);
    lemma_order(command, unscanned, Step::CaptureProcesses, Step::ScanFiles);
    lemma_order(command, unscanned, Step::ScanFiles, Step::PrintScan);
}

/// What is stored is looked at before a question scans, unless the scan is asked
/// for, and a scan for a question is told before the view is made.
pub proof fn law_scans_for_questions_are_told(command: Command, unscanned: bool)
    ensures
        takes(command, unscanned, Step::CountEntries) <==> (command matches CommandOf::Ask {
            refresh,
            ..
        } && !refresh),
        takes(command, unscanned, Step::ReportScan) <==> command is Ask && takes(
            command,
            unscanned,
            Step::ScanFiles,
        ),
        keeps_order(steps_of(command, unscanned), Step::CaptureProcesses, Step::CountEntries),
        keeps_order(steps_of(command, unscanned), Step::CountEntries, Step::ScanFiles),
        keeps_order(steps_of(command, unscanned), Step::ScanFiles, Step::ReportScan),
        keeps_order(steps_of(command, unscanned), Step::ReportScan, Step::ReadContext),
        keeps_order(steps_of(command, unscanned), Step::ReportScan, Step::CaptureScreen),
        command is Ask ==> keeps_order(
            steps_of(command, unscanned),
            Step::CaptureScreen,
            Step::ReadContext,
        ),
{
    lemma_takes(command, unscanned, Step::CountEntries);
    lemma_takes(command, unscanned, Step::ReportScan);
    lemma_takes(command, unscanned, Step::ScanFiles);
    lemma_order(command, unscanned, Step::CaptureProcesses, Step::CountEntries);
    lemma_order(command, unscanned, Step::CountEntries, Step::ScanFiles);
    lemma_order(command, unscanned, Step::ScanFiles, Step::ReportScan);
    lemma_order(command, unscanned, Step::ReportScan, Step::ReadContext);
    lemma_order(command, unscanned, Step::ReportScan, Step::CaptureScreen);
    if command is Ask {
        lemma_order(command, unscanned, Step::CaptureScreen, Step::ReadContext);
    }
}

/// The avatar comes and goes: it is there for every question, from before the
/// first capture until the model has answered, and for every screen image of
/// `context`.
pub proof fn law_avatar_comes_and_goes(command: Command, unscanned: bool)
    ensures
        takes(command, unscanned, Step::StartAvatar) <==> {
            ||| command is Ask
            ||| (command matches CommandOf::Context { screen, .. } && screen)
        },
        takes(command, unscanned, Step::FinishAvatar) <==> takes(
            command,
            unscanned,
            Step::StartAvatar,
        ),
        keeps_order(steps_of(command, unscanned), Step::StartAvatar, Step::FinishAvatar),
        keeps_order(steps_of(command, unscanned), Step::StartAvatar, Step::CaptureScreen),
        keeps_order(steps_of(command, unscanned), Step::CaptureScreen, Step::FinishAvatar),
        keeps_order(steps_of(command, unscanned), Step::AskModel, Step::FinishAvatar),
        command is Ask ==> keeps_order(
            steps_of(command, unscanned),
            Step::StartAvatar,
            Step::CaptureProcesses,
        ),
        command is Context ==> keeps_order(
            steps_of(command, unscanned),
            Step::ReadContext,
            Step::StartAvatar,
        ),
{
    lemma_takes(command, unscanned, Step::StartAvatar);
    lemma_takes(command, unscanned, Step::FinishAvatar);
    lemma_order(command, unscanned, Step::StartAvatar, Step::FinishAvatar);
    lemma_order(command, unscanned, Step::StartAvatar, Step::CaptureScreen);
    lemma_order(command, unscanned, Step::CaptureScreen, Step::FinishAvatar);
    lemma_order(command, unscanned, Step::AskModel, Step::FinishAvatar);
    if command is Ask {
        lemma_order(command, unscanned, Step::StartAvatar, Step::CaptureProcesses);
    }
    if command is Context {
        lemma_order(command, unscanned, Step::ReadContext, Step::StartAvatar);
    }
}

/// No step is taken twice.
pub proof fn law_no_step_is_taken_twice(command: Command, unscanned: bool)
    ensures
        steps_of(command, unscanned).no_duplicates(),
{
    lemma_ranked(command, unscanned);
}

// ---------------------------------------------------------------------------
// The directory that is scanned
// ---------------------------------------------------------------------------

/// A directory to scan. `P` is the type of the home directory's path.
#[derive(Clone, Debug, PartialEq, Eq)]
pub enum ScanTarget<'a, P> {
    /// The one that the user names.
    Named(&'a str),
    /// The home directory.
    Home(P),
}

/// The directory that the user names for a command, if there is one.
pub open spec fn named_directory(command: Command) -> Option<Seq<char>> {
    match command {
        CommandOf::Scan { root } => root,
        _ => None,
    }
}

/// The directory that a command scans, if it scans: the operand of `scan`, and
/// the home directory otherwise.
pub fn scan_target<'a, P>(command: &'a CliCommand, home: Option<P>) -> (res: Result<
    ScanTarget<'a, P>,
    Error,
>)
    ensures
        match res {
            Ok(ScanTarget::Named(path)) => named_directory(command@) == Some(path@),
            Ok(ScanTarget::Home(path)) => named_directory(command@) is None && home == Some(path),
            Err(error) => {
                &&& named_directory(command@) is None
                &&& home is None
                &&& error@ == Failure::HomeMissing
            },
        },
{
    let named = match command {
        CommandOf::Scan { root: Some(path) } => Some(ScanTarget::Named(path.as_str())),
        _ => None,
    };
    let fallback = match home {
        Some(path) => Some(ScanTarget::Home(path)),
        None => None,
    };
    scan_directory(named, fallback)
}

// ---------------------------------------------------------------------------
// The avatar
// ---------------------------------------------------------------------------

/// What the avatar says while a command is carried out.
pub open spec fn label_text(command: Command) -> Seq<char> {
    match command {
        CommandOf::Ask { screen, .. } => if screen {
            "looking at the current screen…"@
        } else {
            "thinking…"@
        },
        CommandOf::Context { .. } => "capturing screen state…"@,
        _ => "ready to help…"@,
    }
}

/// What the avatar says while a command is carried out.
pub fn avatar_label(command: &CliCommand) -> (res: &'static str)
    ensures
        res@ == label_text(command@),
{
    match command {
        CommandOf::Ask { question, refresh, speak, screen, avatar, limit } => if *screen {
            "looking at the current screen…"
        } else {
            "thinking…"
        },
        CommandOf::Context { limit, screen } => "capturing screen state…",
        _ => "ready to help…",
    }
}

/// Whether a command wants the avatar. Only a question can do without it.
pub fn wants_avatar(command: &CliCommand) -> (res: bool)
    ensures
        res == match command@ {
            CommandOf::Ask { avatar, .. } => avatar,
            _ => true,
        },
{
    match command {
        CommandOf::Ask { question, refresh, speak, screen, avatar, limit } => *avatar,
        _ => true,
    }
}

/// Whether the avatar is shown: if it is wanted, there is a terminal to show it
/// on, and the user has not disabled it.
pub fn avatar_is_shown(wanted: bool, terminal: bool, disabled: bool) -> (res: bool)
    ensures
        res == (wanted && terminal && !disabled),
{
    wanted && terminal && !disabled
}

/// How many pictures the animation has.
pub const FRAME_COUNT: usize = 4;

/// The picture that the animation shows at a moment.
pub open spec fn frame_text(frame: int) -> Seq<char> {
    let k = frame % FRAME_COUNT as int;
    if k == 0 {
        "(•ᴗ•)っ"@
    } else if k == 1 {
        "(•‿•)っ"@
    } else if k == 2 {
        "(•ᴗ•)ﾉ"@
    } else {
        "(─ᴗ─)"@
    }
}

/// What clears the avatar's line on the terminal.
pub const CLEAR_LINE: &'static str = "\r\x1b[2K";

/// What draws the avatar on the terminal at a moment.
pub fn avatar_line(frame: usize, label: &str) -> (res: String)
    ensures
        res@ == CLEAR_LINE@ + "  🐧 "@ + frame_text(frame as int) + " "@ + label@,
{
    let k: usize = frame % FRAME_COUNT;
    let picture = if k == 0 {
        "(•ᴗ•)っ"
    } else if k == 1 {
        "(•‿•)っ"
    } else if k == 2 {
        "(•ᴗ•)ﾉ"
    } else {
        "(─ᴗ─)"
    };
    let mut res = concat3(CLEAR_LINE, "  🐧 ", picture);
    res.append(" ");
    res.append(label);
    res
}

/// What the avatar says for its own sake.
pub const READY: &'static str = "🐧 Buddy is ready.";

/// Only `scan` takes a directory from the user, and it takes the one that is
/// named. The other commands have none.
pub proof fn law_named_directories(command: Command, path: Seq<char>)
    ensures
        named_directory(command) == Some(path) <==> command == (CommandOf::Scan {
            root: Some(path),
        }),
{
}

/// The avatar tells what is going on: a question that looks at the screen, one
/// that does not, the capture for `context`, and nothing in particular are told
/// apart.
pub proof fn law_labels_tell_what_is_done(command: Command)
    ensures
        match command {
            CommandOf::Ask { screen, .. } => label_text(command) == if screen {
                "looking at the current screen…"@
            } else {
                "thinking…"@
            },
            CommandOf::Context { .. } => label_text(command) == "capturing screen state…"@,
            _ => label_text(command) == "ready to help…"@,
        },
{
}

/// The animation repeats itself.
pub proof fn law_animation_repeats(frame: int)
    ensures
        frame_text(frame + 4) == frame_text(frame),
{
}

} // verus!
