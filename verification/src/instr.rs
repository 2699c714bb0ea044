//! An ordered list of commands, made from one line of input.

use crate::cmd::{Command, CommandView};
use vstd::prelude::*;

verus! {

/// The commands to run for one line of input, in order, and whether the
/// host is to stop reading input once they have run.
#[derive(Debug)]
pub struct Instruction {
    pub commands: Vec<Command>,
    pub should_terminate: bool,
}

/// An instruction as the views of its commands and its flag.
#[verifier::ext_equal]
pub struct InstructionView {
    pub commands: Seq<CommandView>,
    pub should_terminate: bool,
}

impl InstructionView {
    /// The instruction that runs `commands` and lets the host go on.
    pub open spec fn basic(commands: Seq<CommandView>) -> InstructionView {
        InstructionView { commands, should_terminate: false }
    }

    /// The instruction that runs nothing.
    pub open spec fn skip() -> InstructionView {
        InstructionView::basic(Seq::empty())
    }

    /// The instruction that runs one command.
    pub open spec fn one(command: CommandView) -> InstructionView {
        InstructionView::basic(seq![command])
    }

    /// The instruction that prints `message`.
    pub open spec fn echo(message: Seq<char>) -> InstructionView {
        InstructionView::one(CommandView::echo(message))
    }

    /// The instruction that says goodbye and stops the host.
    pub open spec fn terminate() -> InstructionView {
        InstructionView { commands: seq![CommandView::echo("goodbye!"@)], should_terminate: true }
    }
}

/// The views of a list of commands.
pub open spec fn command_views(commands: Seq<Command>) -> Seq<CommandView> {
    commands.map_values(|c: Command| c@)
}

impl View for Instruction {
    type V = InstructionView;

    open spec fn view(&self) -> InstructionView {
        InstructionView {
            commands: command_views(self.commands@),
            should_terminate: self.should_terminate,
        }
    }
}

impl Instruction {
    /// An instruction with the given fields.
    pub fn new(commands: Vec<Command>, should_terminate: bool) -> (instruction: Self)
        ensures
            instruction.commands == commands,
            instruction.should_terminate == should_terminate,
    {
        Instruction { commands, should_terminate }
    }

    /// An instruction that runs `commands` and lets the host go on.
    pub fn basic(commands: Vec<Command>) -> (instruction: Self)
        ensures
            instruction.commands == commands,
            !instruction.should_terminate,
    {
        Self::new(commands, false)
    }

    /// An instruction that runs nothing.
    pub fn skip() -> (instruction: Self)
        ensures
            instruction@ == InstructionView::skip(),
    {
        Self::basic(Vec::new())
    }

    /// An instruction that runs one command.
    pub fn one(command: Command) -> (instruction: Self)
        ensures
            instruction@ == InstructionView::one(command@),
    {
        let mut commands: Vec<Command> = Vec::new();
        commands.push(command);
        Self::basic(commands)
    }

    /// The instruction that says goodbye and stops the host.
    pub fn terminate() -> (instruction: Self)
        ensures
            instruction@ == InstructionView::terminate(),
    {
        let command = Command::echo("goodbye!");
        let mut commands: Vec<Command> = Vec::new();
        commands.push(command);
        Self::new(commands, true)
    }

    /// The instruction that prints `message`.
    pub fn echo(message: &str) -> (instruction: Self)
        ensures
            instruction@ == InstructionView::echo(message@),
    {
        Self::one(Command::echo(message))
    }

    /// Whether two instructions agree in the flag and, position by position,
    /// in their commands.
    pub open spec fn same_as(&self, other: &Self) -> bool {
        &&& self.should_terminate == other.should_terminate
        &&& self.commands@.len() == other.commands@.len()
        &&& forall|i: int|
            0 <= i < self.commands@.len() ==> (#[trigger] self.commands@[i]).same_as(
                &other.commands@[i],
            )
    }
}

impl PartialEq for Instruction {
    fn eq(&self, other: &Self) -> (r: bool) {
        if self.should_terminate != other.should_terminate {
            return false;
        }
        if self.commands.len() != other.commands.len() {
            return false;
        }
        let mut i: usize = 0;
        while i < self.commands.len()
            invariant
                i <= self.commands.len(),
                self.commands.len() == other.commands.len(),
                forall|k: int|
                    0 <= k < i ==> (#[trigger] self.commands@[k]).same_as(&other.commands@[k]),
            decreases self.commands.len() - i,
        {
            if !(self.commands[i] == other.commands[i]) {
                return false;
            }
            i += 1;
        }
        true
    }
}

impl vstd::std_specs::cmp::PartialEqSpecImpl for Instruction {
    open spec fn obeys_eq_spec() -> bool {
        true
    }

    open spec fn eq_spec(&self, other: &Self) -> bool {
        self.same_as(other)
    }
}

} // verus!
