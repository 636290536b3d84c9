//! The command line.
use crate::text::{copy, opt_str, opt_text, same, texts};
use vstd::prelude::*;

verus! {

/// What the command line asks for.
#[derive(Debug, PartialEq)]
pub enum Command {
    Version,
    Help,
    /// An argument that is not known.
    Unknown(String),
    Run { config_path: Option<String>, bind_addr: Option<String> },
}

/// What the command line asks for, as a mathematical value.
pub enum CommandView {
    Version,
    Help,
    Unknown(Seq<char>),
    Run { config_path: Option<Seq<char>>, bind_addr: Option<Seq<char>> },
}

impl Command {
    pub open spec fn view(self) -> CommandView {
        match self {
            Command::Version => CommandView::Version,
            Command::Help => CommandView::Help,
            Command::Unknown(s) => CommandView::Unknown(s@),
            Command::Run { config_path, bind_addr } => CommandView::Run {
                config_path: opt_text(config_path),
                bind_addr: opt_text(bind_addr),
            },
        }
    }
}

/// What the arguments from place `i` on ask for, with what has been found before.
pub open spec fn command_from(
    args: Seq<Seq<char>>,
    i: int,
    config_path: Option<Seq<char>>,
    bind_addr: Option<Seq<char>>,
) -> CommandView
    decreases args.len() - i,
{
    if i < 0 || i >= args.len() {
        CommandView::Run { config_path, bind_addr }
    } else if args[i] == "-v"@ || args[i] == "--version"@ {
        CommandView::Version
    } else if args[i] == "-h"@ || args[i] == "--help"@ {
        CommandView::Help
    } else if args[i] == "-c"@ || args[i] == "--config"@ {
        if i + 1 < args.len() {
            command_from(args, i + 2, Some(args[i + 1]), bind_addr)
        } else {
            CommandView::Run { config_path, bind_addr }
        }
    } else if args[i] == "-a"@ || args[i] == "--addr"@ {
        if i + 1 < args.len() {
            command_from(args, i + 2, config_path, Some(args[i + 1]))
        } else {
            CommandView::Run { config_path, bind_addr }
        }
    } else {
        CommandView::Unknown(args[i])
    }
}

/// Reads the command line, the first argument being the name of the program.
pub fn parse_args(args: &Vec<String>) -> (r: Command)
    ensures
        r@ == command_from(texts(args@), 1, None, None),
{
    let ghost all = texts(args@);
    let mut config_path: Option<String> = None;
    let mut bind_addr: Option<String> = None;
    let mut i: usize = 1;
    while i < args.len()
        invariant
            1 <= i,
            all == texts(args@),
            command_from(all, 1, None, None) == command_from(
                all,
                i as int,
                opt_text(config_path),
                opt_text(bind_addr),
            ),
        decreases args@.len() - i,
    {
        let arg = &args[i];
        assert(all[i as int] == arg@);
        if same(arg, "-v") || same(arg, "--version") {
            return Command::Version;
        } else if same(arg, "-h") || same(arg, "--help") {
            return Command::Help;
        } else if same(arg, "-c") || same(arg, "--config") {
            if i + 1 < args.len() {
                config_path = Some(args[i + 1].clone());
                assert(all[i + 1] == args@[i + 1]@);
            } else {
                return Command::Run { config_path, bind_addr };
            }
        } else if same(arg, "-a") || same(arg, "--addr") {
            if i + 1 < args.len() {
                bind_addr = Some(args[i + 1].clone());
                assert(all[i + 1] == args@[i + 1]@);
            } else {
                return Command::Run { config_path, bind_addr };
            }
        } else {
            return Command::Unknown(arg.clone());
        }
        assert(command_from(all, 1, None, None) == command_from(
            all,
            i + 2,
            opt_text(config_path),
            opt_text(bind_addr),
        ));
        if i + 1 >= args.len() - 1 {
            return Command::Run { config_path, bind_addr };
        }
        i += 2;
    }
    Command::Run { config_path, bind_addr }
}

/// A setting: from the command line, else from the environment, else as given.
pub fn choose_setting(argument: Option<&str>, variable: Option<&str>, otherwise: &str) -> (r: String)
    ensures
        r@ == match (opt_str(argument), opt_str(variable)) {
            (Some(a), _) => a,
            (None, Some(v)) => v,
            (None, None) => otherwise@,
        },
{
    match argument {
        Some(a) => copy(a),
        None => match variable {
            Some(v) => copy(v),
            None => copy(otherwise),
        },
    }
}

} // verus!
