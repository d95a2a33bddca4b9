//! Handing bounded actions to the Skillastic backend.

use vstd::prelude::*;
use crate::error::{Error, ErrorOf, Failure};
use crate::text::{same, texts};

verus! {

/// The program that carries out the actions by default.
pub const DEFAULT_BINARY: &'static str = "skillastic";

/// What the backend is asked to do.
#[derive(Clone, Copy, Debug, PartialEq, Eq, Structural)]
pub enum Action {
    Status,
    List,
    Capture,
}

/// The action that the arguments name. Without any it is the status.
pub open spec fn action_of(args: Seq<Seq<char>>) -> Option<Action> {
    if args.len() == 0 {
        Some(Action::Status)
    } else if args.len() > 1 {
        None
    } else if args[0] == "status"@ {
        Some(Action::Status)
    } else if args[0] == "list"@ {
        Some(Action::List)
    } else if args[0] == "capture"@ {
        Some(Action::Capture)
    } else {
        None
    }
}

impl Action {
    /// Reads an action.
    pub fn parse(arguments: &[String]) -> (res: Result<Action, Error>)
        ensures
            match res {
                Ok(action) => action_of(texts(arguments@)) == Some(action),
                Err(error) => {
                    &&& action_of(texts(arguments@)) is None
                    &&& error@ == Failure::SkillasticUsage
                },
            },
    {
        if arguments.len() == 0 {
            return Ok(Action::Status);
        }
        if arguments.len() > 1 {
            return Err(ErrorOf::SkillasticUsage);
        }
        let word = arguments[0].as_str();
        assert(texts(arguments@)[0] == word@);
        if same(word, "status") {
            Ok(Action::Status)
        } else if same(word, "list") {
            Ok(Action::List)
        } else if same(word, "capture") {
            Ok(Action::Capture)
        } else {
            Err(ErrorOf::SkillasticUsage)
        }
    }

    /// The word for the action.
    pub open spec fn word(self) -> Seq<char> {
        match self {
            Action::Status => "status"@,
            Action::List => "list"@,
            Action::Capture => "capture"@,
        }
    }

    /// The word for the action.
    pub fn argument(self) -> (res: &'static str)
        ensures
            res@ == self.word(),
    {
        match self {
            Action::Status => "status",
            Action::List => "list",
            Action::Capture => "capture",
        }
    }

    /// The arguments with which the backend is started.
    pub fn backend_arguments(self) -> (res: Vec<String>)
        ensures
            texts(res@) == seq!["--json"@, self.word()],
    {
        let mut res: Vec<String> = Vec::new();
        res.push("--json".to_owned());
        res.push(self.argument().to_owned());
        assert(texts(res@) =~= seq!["--json"@, self.word()]);
        res
    }
}

/// The word for an action names that action.
pub proof fn law_word_names_its_action(action: Action)
    ensures
        action_of(seq![action.word()]) == Some(action),
{
    reveal_strlit("status");
    reveal_strlit("list");
    reveal_strlit("capture");
    assert("status"@.len() == 6 && "list"@.len() == 4 && "capture"@.len() == 7);
}

/// The arguments name an action exactly if they are the one word for it. Without
/// any they ask for the status.
pub proof fn law_actions_are_single_words(args: Seq<Seq<char>>)
    ensures
        match action_of(args) {
            Some(Action::Status) => args.len() == 0 || args == seq!["status"@],
            Some(Action::List) => args == seq!["list"@],
            Some(Action::Capture) => args == seq!["capture"@],
            None => args.len() > 0 && args != seq!["status"@] && args != seq!["list"@] && args
                != seq!["capture"@],
        },
{
    if args.len() == 1 {
        assert(args =~= seq![args[0]]);
    }
}

} // verus!
