//! The command surface: what each command does to the store, what it
//! prints, and the exit code it ends with. Reading the file, writing it back
//! and printing are left to the caller.

use crate::error::StoreError;
use crate::model::{mapping_of, names_distinct, Mapping, Pair};
use crate::store::{listed, matching, stored_mapping, Store};
use vstd::prelude::*;
use vstd::string::*;

verus! {

/// The commands a user can give.
#[derive(Debug)]
pub enum Commands {
    /// Remember a thing and its description.
    Remember {
        /// The name of the thing.
        name: String,
        /// The description of the thing.
        description: String,
    },
    /// Find things by a description.
    Find {
        /// Expected description of the thing.
        description: String,
    },
    /// Forget a thing.
    Forget {
        /// The name of the thing.
        name: String,
    },
}

/// A parsed command line.
#[derive(Debug)]
pub struct Cli {
    /// Custom path to the store file; overrides the default one.
    pub store_path: Option<String>,
    /// The command to carry out.
    pub command: Commands,
}

impl Cli {
    /// The path of the store file: the custom one if it was given, else
    /// `default_path`.
    pub fn store_path_or(&self, default_path: &str) -> (path: String)
        ensures
            path@ == match self.store_path {
                Some(custom) => custom@,
                None => default_path@,
            },
    {
        match &self.store_path {
            Some(custom) => custom.clone(),
            None => String::from_str(default_path),
        }
    }
}

/// What carrying out a command leaves for the caller to do.
#[derive(Debug)]
pub struct Outcome {
    /// The lines to print to standard output, in order.
    pub stdout: Vec<String>,
    /// The line to print to standard error, if any.
    pub stderr: Option<String>,
    /// The exit code of the process.
    pub exit_code: i32,
    /// The new content of the store file, if it is to be written.
    pub persist: Option<String>,
}

/// The line that shows one match.
pub open spec fn match_line(pair: Pair) -> Seq<char> {
    pair.0 + " -> "@ + pair.1
}

/// The lines that show `found`, one per pair and in the same order.
pub open spec fn match_lines(found: Seq<Pair>) -> Seq<Seq<char>> {
    Seq::new(found.len(), |i: int| match_line(found[i]))
}

/// The mapping a command leaves behind when given on `before`.
pub open spec fn mapping_after(command: Commands, before: Mapping) -> Mapping {
    match command {
        Commands::Remember { name, description } => before.insert(name@, description@),
        Commands::Find { description } => before,
        Commands::Forget { name } => before.remove(name@),
    }
}

/// `outcome` is a correct answer to `command` given on the mapping `before`.
pub open spec fn answers(command: Commands, before: Mapping, outcome: Outcome) -> bool {
    match command {
        Commands::Remember { name, description } => {
            &&& outcome.exit_code == 0
            &&& outcome.stdout@.len() == 0
            &&& outcome.stderr is None
            &&& outcome.persist matches Some(text)
            &&& stored_mapping(text@) == Some(before.insert(name@, description@))
        },
        Commands::Find { description } => {
            &&& outcome.persist is None
            &&& exists|found: Seq<Pair>|
                {
                    &&& names_distinct(found)
                    &&& mapping_of(found) == matching(before, description@)
                    &&& #[trigger] match_lines(found) == outcome.stdout.deep_view()
                }
            &&& if outcome.stdout@.len() == 0 {
                &&& outcome.exit_code == 1
                &&& outcome.stderr matches Some(text)
                &&& text@ == "No matches found."@
            } else {
                &&& outcome.exit_code == 0
                &&& outcome.stderr is None
            }
        },
        Commands::Forget { name } => if before.dom().contains(name@) {
            &&& outcome.exit_code == 0
            &&& outcome.stdout@.len() == 0
            &&& outcome.stderr is None
            &&& outcome.persist matches Some(text)
            &&& stored_mapping(text@) == Some(before.remove(name@))
        } else {
            &&& outcome.exit_code == 1
            &&& outcome.stdout@.len() == 0
            &&& outcome.stderr matches Some(text)
            &&& text@ == "Application error: "@ + "Key not found: "@ + name@
            &&& outcome.persist is None
        },
    }
}

/// The outcome of a command that succeeded in silence.
fn succeeded(persist: Option<String>) -> (outcome: Outcome)
    ensures
        outcome.exit_code == 0,
        outcome.stdout@.len() == 0,
        outcome.stderr is None,
        outcome.persist == persist,
{
    Outcome { stdout: Vec::new(), stderr: None, exit_code: 0, persist }
}

/// The outcome of a command that failed with `error`.
fn failed(error: &StoreError) -> (outcome: Outcome)
    ensures
        outcome.exit_code == 1,
        outcome.stdout@.len() == 0,
        outcome.persist is None,
        outcome.stderr matches Some(text) && error.message_head().is_prefix_of(text@),
        outcome.stderr matches Some(text) && (!(error is Json) ==> text@ == error.message_head()),
{
    Outcome { stdout: Vec::new(), stderr: Some(error.to_string()), exit_code: 1, persist: None }
}

/// One line per match, in the order of `matches`: the name, an arrow, the
/// description.
pub fn render_matches(matches: &Vec<[String; 2]>) -> (lines: Vec<String>)
    ensures
        lines.deep_view() == match_lines(listed(matches@)),
{
    let mut lines: Vec<String> = Vec::new();
    let mut i: usize = 0;
    while i < matches.len()
        invariant
            i <= matches.len(),
            lines.len() == i,
            forall|k: int| 0 <= k < i ==> lines@[k]@ == match_line(listed(matches@)[k]),
        decreases matches.len() - i,
    {
        let mut line = matches[i][0].clone();
        line.append(" -> ");
        line.append(matches[i][1].as_str());
        lines.push(line);
        i += 1;
    }
    proof {
        assert(lines.deep_view() =~= match_lines(listed(matches@)));
    }
    lines
}

/// Carries out `command` on `store`.
pub fn execute(store: &mut Store, command: &Commands) -> (outcome: Outcome)
    ensures
        final(store)@ == mapping_after(*command, old(store)@),
        answers(*command, old(store)@, outcome),
{
    match command {
        Commands::Remember { name, description } => {
            match store.set(name.as_str(), description.as_str()) {
                Ok(text) => succeeded(Some(text)),
                Err(error) => failed(&error),
            }
        },
        Commands::Find { description } => {
            let matches = store.find(description.as_str());
            let lines = render_matches(&matches);
            proof {
                let found = listed(matches@);
                assert(match_lines(found) == lines.deep_view());
            }
            if lines.len() == 0 {
                Outcome {
                    stdout: lines,
                    stderr: Some(String::from_str("No matches found.")),
                    exit_code: 1,
                    persist: None,
                }
            } else {
                Outcome { stdout: lines, stderr: None, exit_code: 0, persist: None }
            }
        },
        Commands::Forget { name } => {
            match store.delete(name.as_str()) {
                Ok(text) => succeeded(Some(text)),
                Err(error) => {
                    proof {
                        assert(error.message_head() =~= "Application error: "@
                            + "Key not found: "@ + name@);
                    }
                    failed(&error)
                },
            }
        },
    }
}

/// Carries out `command` on the store that the file content `content`
/// stands for. Content that does not decode ends the run with the decoder's
/// error and exit code 1, whatever the command.
pub fn run(content: &str, command: &Commands) -> (outcome: Outcome)
    ensures
        match stored_mapping(content@) {
            Some(before) => answers(*command, before, outcome),
            None => {
                &&& outcome.exit_code == 1
                &&& outcome.stdout@.len() == 0
                &&& outcome.persist is None
                &&& outcome.stderr matches Some(text)
                &&& "JSON error: "@.is_prefix_of(text@)
            },
        },
{
    match Store::new(content) {
        Ok(store) => {
            let mut store = store;
            execute(&mut store, command)
        },
        Err(error) => failed(&error),
    }
}

} // verus!
