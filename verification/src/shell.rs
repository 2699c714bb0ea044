//! The running of commands and instructions.
//!
//! The library does not touch the outside world itself. It decides, step
//! by step, what a host has to do next: change the directory, print a line,
//! start a process. The host does so and reports what came of it.

use crate::cmd::{Command, CommandView, Continuation};
use crate::decr::{coloured, green, magenta, red, yellow};
use crate::docker::{
    export_rows, export_text, exports, exports_of, exports_view, status_table, status_table_of,
    Export, Marks,
};
use crate::git::{current_branch, marked_branch, marked_line};
use crate::instr::{command_views, Instruction};
use crate::text::lines_of;
use vstd::prelude::*;
use vstd::string::StringExecFns;

verus! {

impl Continuation {
    /// Whether `result` is what the continuation makes of the captured
    /// output `stdout`.
    ///
    /// The current branch is the line that git marks with a star. The
    /// exports are the assignments that the output holds, one on each line.
    /// The status table has a green check mark before a running container,
    /// a yellow dash before a paused one and a red cross before any other;
    /// it fails on a line that does not have four fields.
    pub open spec fn applied(&self, stdout: Seq<char>, result: (bool, Seq<char>)) -> bool {
        match self {
            Continuation::CurrentBranch => result == (true, marked_line(lines_of(stdout))),
            Continuation::Exports => result == (true, export_rows(exports_of(lines_of(stdout)))),
            Continuation::StatusTable => exists|marks: Marks|
                coloured(marks.running@, "✓"@, 2) && coloured(marks.paused@, "-"@, 3) && coloured(
                    marks.other@,
                    "𐄂"@,
                    1,
                ) && result == status_table_of(stdout, marks),
        }
    }

    /// What the continuation makes of the captured output `stdout`: whether
    /// it counts as a success, and the output that takes its place.
    pub fn apply(&self, stdout: &str) -> (result: (bool, String))
        ensures
            self.applied(stdout@, (result.0, result.1@)),
    {
        match self {
            Continuation::CurrentBranch => (true, marked_branch(stdout)),
            Continuation::Exports => {
                let found = exports(stdout);
                (true, export_text(&found))
            },
            Continuation::StatusTable => {
                let marks = Marks { running: green("✓"), paused: yellow("-"), other: red("𐄂") };
                let result = status_table(stdout, &marks);
                result
            },
        }
    }
}

/// Something the host does on the way, without an answer.
pub enum Effect {
    /// Show a command that is about to run.
    Echo(String),
    /// Show a failure.
    Report(String),
    /// Show output.
    Print(String),
    /// Set a variable in the environment of the host.
    Export { key: String, value: String },
}

impl Effect {
    /// Whether `line` is the line that shows the effect on this terminal:
    /// a command in magenta, a failure in red, output as it is. Setting a
    /// variable shows nothing.
    pub open spec fn shown_as(&self, line: Option<Seq<char>>) -> bool {
        match self {
            Effect::Echo(text) => line is Some && coloured(line->0, text@, 5),
            Effect::Report(text) => line is Some && coloured(line->0, text@, 1),
            Effect::Print(text) => line == Some(text@),
            Effect::Export { key, value } => line is None,
        }
    }

    /// The line that shows the effect, if it shows anything.
    pub fn line(&self) -> (line: Option<String>)
        ensures
            self.shown_as(
                match line {
                    Some(text) => Some(text@),
                    None => None,
                },
            ),
    {
        match self {
            Effect::Echo(text) => Some(magenta(text.as_str())),
            Effect::Report(text) => Some(red(text.as_str())),
            Effect::Print(text) => Some(text.clone()),
            Effect::Export { key, value } => None,
        }
    }
}

/// What the host is asked to do next. It answers each request but `Finish`
/// with a `Reply`.
pub enum Request {
    /// Change the working directory to `dir`.
    Enter { dir: String },
    /// Run `raw` in a shell and wait for it. With `capture` the standard
    /// output is captured, else it is streamed.
    Spawn { raw: String, capture: bool },
    /// Change the working directory back to `dir`.
    Restore { dir: String },
    /// Nothing more: the instruction has run, with this outcome.
    Finish { success: bool, output: String },
}

/// The effects to carry out, in order, and then the request.
pub struct Step {
    pub effects: Vec<Effect>,
    pub request: Request,
}

/// What came of a request.
pub enum Reply {
    /// The working directory was changed; the host is in `now`.
    Changed { now: String },
    /// The working directory could not be changed.
    Refused { error: String },
    /// The process ended well. `stdout` is what was captured.
    Succeeded { stdout: String },
    /// The process ended with the failure `status`. `stderr` is what was
    /// captured of its errors.
    Failed { status: String, stderr: String },
    /// The process could not be started or waited for.
    Broken { error: String },
}

/// Where a run stands.
#[derive(Clone, Copy, PartialEq, Eq, Structural, Debug)]
pub enum Phase {
    /// The host was asked to enter the directory of the current command.
    Entering,
    /// The host was asked to run the current command.
    Running,
    /// The host was asked to go back to where the current command began.
    Leaving,
    /// The run is over.
    Done,
}

/// An effect as its texts.
pub enum EffectView {
    Echo(Seq<char>),
    Report(Seq<char>),
    Print(Seq<char>),
    Export { key: Seq<char>, value: Seq<char> },
}

/// A request as its texts.
pub enum RequestView {
    Enter { dir: Seq<char> },
    Spawn { raw: Seq<char>, capture: bool },
    Restore { dir: Seq<char> },
    Finish { success: bool, output: Seq<char> },
}

/// A step as its texts.
#[verifier::ext_equal]
pub struct StepView {
    pub effects: Seq<EffectView>,
    pub request: RequestView,
}

/// A reply as its texts.
pub enum ReplyView {
    Changed { now: Seq<char> },
    Refused { error: Seq<char> },
    Succeeded { stdout: Seq<char> },
    Failed { status: Seq<char>, stderr: Seq<char> },
    Broken { error: Seq<char> },
}

impl View for Effect {
    type V = EffectView;

    open spec fn view(&self) -> EffectView {
        match self {
            Effect::Echo(text) => EffectView::Echo(text@),
            Effect::Report(text) => EffectView::Report(text@),
            Effect::Print(text) => EffectView::Print(text@),
            Effect::Export { key, value } => EffectView::Export { key: key@, value: value@ },
        }
    }
}

impl View for Request {
    type V = RequestView;

    open spec fn view(&self) -> RequestView {
        match self {
            Request::Enter { dir } => RequestView::Enter { dir: dir@ },
            Request::Spawn { raw, capture } => RequestView::Spawn { raw: raw@, capture: *capture },
            Request::Restore { dir } => RequestView::Restore { dir: dir@ },
            Request::Finish { success, output } => RequestView::Finish {
                success: *success,
                output: output@,
            },
        }
    }
}

/// The views of a list of effects.
pub open spec fn effect_views(effects: Seq<Effect>) -> Seq<EffectView> {
    effects.map_values(|e: Effect| e@)
}

impl View for Step {
    type V = StepView;

    open spec fn view(&self) -> StepView {
        StepView { effects: effect_views(self.effects@), request: self.request@ }
    }
}

impl View for Reply {
    type V = ReplyView;

    open spec fn view(&self) -> ReplyView {
        match self {
            Reply::Changed { now } => ReplyView::Changed { now: now@ },
            Reply::Refused { error } => ReplyView::Refused { error: error@ },
            Reply::Succeeded { stdout } => ReplyView::Succeeded { stdout: stdout@ },
            Reply::Failed { status, stderr } => ReplyView::Failed {
                status: status@,
                stderr: stderr@,
            },
            Reply::Broken { error } => ReplyView::Broken { error: error@ },
        }
    }
}

/// The run of an instruction, as far as it has come.
///
/// `index` is the command that is being run, `cwd` the directory that the
/// host is in, `origin` the directory that it was in when the current
/// command began, and `entered` whether the current command has changed
/// the directory. `success` and `output` are the outcome of the last
/// command that has run.
pub struct Execution {
    pub commands: Vec<Command>,
    pub should_terminate: bool,
    pub index: usize,
    pub phase: Phase,
    pub cwd: String,
    pub origin: String,
    pub entered: bool,
    pub success: bool,
    pub output: String,
}

/// A run as its texts.
#[verifier::ext_equal]
pub struct RunView {
    pub commands: Seq<CommandView>,
    pub index: int,
    pub phase: Phase,
    pub cwd: Seq<char>,
    pub origin: Seq<char>,
    pub entered: bool,
    pub success: bool,
    pub output: Seq<char>,
}

impl View for Execution {
    type V = RunView;

    open spec fn view(&self) -> RunView {
        RunView {
            commands: command_views(self.commands@),
            index: self.index as int,
            phase: self.phase,
            cwd: self.cwd@,
            origin: self.origin@,
            entered: self.entered,
            success: self.success,
            output: self.output@,
        }
    }
}

/// The effects that show the variables `exports`: for each its line, and
/// the variable to set.
pub open spec fn export_effects(exports: Seq<(Seq<char>, Seq<char>, Seq<char>)>) -> Seq<EffectView>
    decreases exports.len(),
{
    if exports.len() == 0 {
        Seq::empty()
    } else {
        export_effects(exports.drop_last()) + seq![
            EffectView::Print(exports.last().0),
            EffectView::Export { key: exports.last().1, value: exports.last().2 },
        ]
    }
}

/// What a continuation has the host do besides: the exports are shown and
/// set, the status table is shown if it could be made.
pub open spec fn continuation_effects(
    continuation: Continuation,
    stdout: Seq<char>,
    made: (bool, Seq<char>),
) -> Seq<EffectView> {
    match continuation {
        Continuation::CurrentBranch => Seq::empty(),
        Continuation::Exports => export_effects(exports_of(lines_of(stdout))),
        Continuation::StatusTable => if made.0 {
            seq![EffectView::Print(made.1)]
        } else {
            Seq::empty()
        },
    }
}

impl RunView {
    /// Whether the run is in order: the current command exists as long as
    /// the run is not over, and a run that is over has succeeded only if
    /// no command is left.
    pub open spec fn wf(self) -> bool {
        &&& 0 <= self.index <= self.commands.len()
        &&& self.phase != Phase::Done ==> self.index < self.commands.len()
        &&& self.phase == Phase::Done && self.success ==> self.index == self.commands.len()
    }

    /// The command that is being run.
    pub open spec fn current(self) -> CommandView {
        self.commands[self.index]
    }

    /// The step that ends the run.
    pub open spec fn finish(self, effects: Seq<EffectView>) -> (RunView, StepView) {
        (
            RunView { phase: Phase::Done, ..self },
            StepView {
                effects,
                request: RequestView::Finish { success: self.success, output: self.output },
            },
        )
    }

    /// Begins the command at `index`, or ends the run if there is none. A
    /// command with a directory has the host enter it first, echoed if the
    /// command is shown.
    pub open spec fn begin(self, effects: Seq<EffectView>) -> (RunView, StepView)
        decreases self.commands.len() - self.index, 3int,
    {
        if self.index < 0 || self.index >= self.commands.len() {
            self.finish(effects)
        } else {
            let run = RunView { origin: self.cwd, entered: false, ..self };
            let command = run.current();
            if command.dir.len() > 0 {
                (
                    RunView { phase: Phase::Entering, ..run },
                    StepView {
                        effects: if command.show {
                            effects.push(EffectView::Echo("$ cd "@ + command.dir))
                        } else {
                            effects
                        },
                        request: RequestView::Enter { dir: command.dir },
                    },
                )
            } else {
                run.launch(effects)
            }
        }
    }

    /// Runs the raw text of the current command, echoed if the command is
    /// shown. A command without raw text has succeeded already.
    pub open spec fn launch(self, effects: Seq<EffectView>) -> (RunView, StepView)
        decreases self.commands.len() - self.index, 2int,
    {
        if self.index < 0 || self.index >= self.commands.len() {
            self.finish(effects)
        } else {
            let command = self.current();
            if command.raw.len() == 0 {
                (RunView { success: true, output: Seq::empty(), ..self }).conclude(effects)
            } else {
                (
                    RunView { phase: Phase::Running, ..self },
                    StepView {
                        effects: if command.show {
                            effects.push(EffectView::Echo("$ "@ + command.raw))
                        } else {
                            effects
                        },
                        request: RequestView::Spawn { raw: command.raw, capture: command.pipe },
                    },
                )
            }
        }
    }

    /// Ends the current command, whose outcome is known: if it has changed
    /// the directory and is to go back, the host is asked to.
    pub open spec fn conclude(self, effects: Seq<EffectView>) -> (RunView, StepView)
        decreases self.commands.len() - self.index, 1int,
    {
        if self.index < 0 || self.index >= self.commands.len() {
            self.finish(effects)
        } else if self.current().back && self.entered {
            (
                RunView { phase: Phase::Leaving, ..self },
                StepView { effects, request: RequestView::Restore { dir: self.origin } },
            )
        } else {
            self.settle(effects)
        }
    }

    /// Goes on after the current command: to the next one if it has
    /// succeeded, and to the end of the run if it has failed.
    pub open spec fn settle(self, effects: Seq<EffectView>) -> (RunView, StepView)
        decreases self.commands.len() - self.index, 0int,
    {
        if !self.success || self.index < 0 || self.index >= self.commands.len() {
            self.finish(effects)
        } else {
            (RunView { index: self.index + 1, ..self }).begin(effects)
        }
    }

    /// The report of a failure, unless the current command is silent.
    pub open spec fn report(self, text: Seq<char>) -> Seq<EffectView> {
        if self.current().silent {
            Seq::empty()
        } else {
            seq![EffectView::Report(text)]
        }
    }

    /// The run with the current command failed.
    pub open spec fn failed(self) -> RunView {
        RunView { success: false, output: Seq::empty(), ..self }
    }

    /// The run and the step after the reply `reply`. Where the current
    /// command has a continuation, `made` is what it made of the output.
    pub open spec fn react(self, reply: ReplyView, made: (bool, Seq<char>)) -> (RunView, StepView) {
        match self.phase {
            Phase::Done => self.finish(Seq::empty()),
            Phase::Entering => match reply {
                ReplyView::Changed { now } => (RunView { cwd: now, entered: true, ..self }).launch(
                    Seq::empty(),
                ),
                ReplyView::Refused { error } => self.failed().conclude(
                    self.report(
                        "--> cannot change directory to [ "@ + self.current().dir + " ]: "@
                            + error,
                    ),
                ),
                _ => self.failed().conclude(Seq::empty()),
            },
            Phase::Running => match reply {
                ReplyView::Succeeded { stdout } => {
                    let captured = if self.current().pipe {
                        stdout
                    } else {
                        Seq::empty()
                    };
                    match self.current().continuation {
                        Some(continuation) => (RunView {
                            success: made.0,
                            output: made.1,
                            ..self
                        }).conclude(continuation_effects(continuation, captured, made)),
                        None => (RunView { success: true, output: captured, ..self }).conclude(
                            Seq::empty(),
                        ),
                    }
                },
                ReplyView::Failed { status, stderr } => self.failed().conclude(
                    if self.current().silent {
                        Seq::empty()
                    } else if self.current().pipe {
                        seq![
                            EffectView::Print(stderr),
                            EffectView::Report("--> failed with exit status = "@ + status),
                        ]
                    } else {
                        seq![EffectView::Report("--> failed with exit status = "@ + status)]
                    },
                ),
                ReplyView::Broken { error } => self.failed().conclude(
                    self.report("--> execute error: "@ + error),
                ),
                _ => self.failed().conclude(Seq::empty()),
            },
            Phase::Leaving => match reply {
                ReplyView::Changed { now } => (RunView { cwd: now, ..self }).settle(Seq::empty()),
                ReplyView::Refused { error } => self.settle(
                    self.report(
                        "--> cannot change directory to [ "@ + self.origin + " ]: "@ + error,
                    ),
                ),
                _ => self.settle(Seq::empty()),
            },
        }
    }

    /// Whether `made` is what the continuation of the current command makes
    /// of the reply, if the reply calls for it.
    pub open spec fn makes(self, reply: ReplyView, made: (bool, Seq<char>)) -> bool {
        match (self.phase, reply) {
            (Phase::Running, ReplyView::Succeeded { stdout }) => match self.current().continuation {
                Some(continuation) => continuation.applied(
                    if self.current().pipe {
                        stdout
                    } else {
                        Seq::empty()
                    },
                    made,
                ),
                None => true,
            },
            _ => true,
        }
    }
}

/// The run that has all of `commands` before it, with the host in `cwd`.
pub open spec fn initial(commands: Seq<CommandView>, cwd: Seq<char>) -> RunView {
    RunView {
        commands,
        index: 0,
        phase: Phase::Done,
        cwd,
        origin: cwd,
        entered: false,
        success: true,
        output: Seq::empty(),
    }
}

/// Appends an effect.
fn push_effect(effects: &mut Vec<Effect>, effect: Effect)
    ensures
        effect_views(final(effects)@) == effect_views(old(effects)@).push(effect@),
{
    effects.push(effect);
}

/// The effect that reports `prefix` and `text`.
fn report_of(prefix: &str, text: &str) -> (effect: Effect)
    ensures
        effect@ == EffectView::Report(prefix@ + text@),
{
    let mut message = String::from_str(prefix);
    message.append(text);
    Effect::Report(message)
}

/// The effect that reports that `dir` could not be entered.
fn refusal_of(dir: &str, error: &str) -> (effect: Effect)
    ensures
        effect@ == EffectView::Report(
            "--> cannot change directory to [ "@ + dir@ + " ]: "@ + error@,
        ),
{
    let mut message = String::from_str("--> cannot change directory to [ ");
    message.append(dir);
    message.append(" ]: ");
    message.append(error);
    Effect::Report(message)
}

/// The effects that show and set the variables `found`.
fn effects_of_exports(found: &Vec<Export>) -> (effects: Vec<Effect>)
    ensures
        effect_views(effects@) == export_effects(exports_view(found@)),
{
    let ghost all = exports_view(found@);
    let mut effects: Vec<Effect> = Vec::new();
    let mut i: usize = 0;
    while i < found.len()
        invariant
            i <= found.len(),
            all == exports_view(found@),
            effect_views(effects@) == export_effects(all.take(i as int)),
        decreases found.len() - i,
    {
        proof {
            assert(all.take(i + 1).drop_last() =~= all.take(i as int));
        }
        push_effect(&mut effects, Effect::Print(found[i].line.clone()));
        push_effect(
            &mut effects,
            Effect::Export { key: found[i].key.clone(), value: found[i].value.clone() },
        );
        i += 1;
    }
    assert(all.take(i as int) =~= all);
    effects
}

impl Execution {
    /// Begins the run of an instruction with the host in the directory
    /// `cwd`, and says what the host has to do first.
    pub fn start(instruction: Instruction, cwd: &str) -> (result: (Execution, Step))
        ensures
            result.0@.wf(),
            result.0.should_terminate == instruction.should_terminate,
            (result.0@, result.1@) == initial(instruction@.commands, cwd@).begin(Seq::empty()),
    {
        let mut run = Execution {
            commands: instruction.commands,
            should_terminate: instruction.should_terminate,
            index: 0,
            phase: Phase::Done,
            cwd: String::from_str(cwd),
            origin: String::from_str(cwd),
            entered: false,
            success: true,
            output: String::new(),
        };
        let effects: Vec<Effect> = Vec::new();
        assert(effect_views(effects@) =~= Seq::<EffectView>::empty());
        let step = run.begin(effects);
        (run, step)
    }

    fn finish(&mut self, effects: Vec<Effect>) -> (step: Step)
        requires
            old(self).index <= old(self).commands.len(),
            old(self).success ==> old(self).index == old(self).commands.len(),
        ensures
            final(self)@.wf(),
            final(self).should_terminate == old(self).should_terminate,
            (final(self)@, step@) == old(self)@.finish(effect_views(effects@)),
    {
        self.phase = Phase::Done;
        let step = Step {
            effects,
            request: Request::Finish { success: self.success, output: self.output.clone() },
        };
        step
    }

    fn begin(&mut self, effects: Vec<Effect>) -> (step: Step)
        requires
            old(self).index <= old(self).commands.len(),
            old(self).success,
        ensures
            final(self)@.wf(),
            final(self).should_terminate == old(self).should_terminate,
            (final(self)@, step@) == old(self)@.begin(effect_views(effects@)),
        decreases old(self).commands.len() - old(self).index, 3int,
    {
        if self.index >= self.commands.len() {
            return self.finish(effects);
        }
        self.origin = self.cwd.clone();
        self.entered = false;
        if !self.commands[self.index].dir.as_str().is_empty() {
            let mut effects = effects;
            if self.commands[self.index].show {
                let mut text = String::from_str("$ cd ");
                text.append(self.commands[self.index].dir.as_str());
                push_effect(&mut effects, Effect::Echo(text));
            }
            self.phase = Phase::Entering;
            let step = Step {
                effects,
                request: Request::Enter { dir: self.commands[self.index].dir.clone() },
            };
            step
        } else {
            self.launch(effects)
        }
    }

    fn launch(&mut self, effects: Vec<Effect>) -> (step: Step)
        requires
            old(self).index < old(self).commands.len(),
        ensures
            final(self)@.wf(),
            final(self).should_terminate == old(self).should_terminate,
            (final(self)@, step@) == old(self)@.launch(effect_views(effects@)),
        decreases old(self).commands.len() - old(self).index, 2int,
    {
        if self.commands[self.index].raw.as_str().is_empty() {
            self.success = true;
            self.output = String::new();
            self.conclude(effects)
        } else {
            let mut effects = effects;
            if self.commands[self.index].show {
                let mut text = String::from_str("$ ");
                text.append(self.commands[self.index].raw.as_str());
                push_effect(&mut effects, Effect::Echo(text));
            }
            self.phase = Phase::Running;
            let step = Step {
                effects,
                request: Request::Spawn {
                    raw: self.commands[self.index].raw.clone(),
                    capture: self.commands[self.index].pipe,
                },
            };
            step
        }
    }

    fn conclude(&mut self, effects: Vec<Effect>) -> (step: Step)
        requires
            old(self).index < old(self).commands.len(),
        ensures
            final(self)@.wf(),
            final(self).should_terminate == old(self).should_terminate,
            (final(self)@, step@) == old(self)@.conclude(effect_views(effects@)),
        decreases old(self).commands.len() - old(self).index, 1int,
    {
        if self.commands[self.index].back && self.entered {
            self.phase = Phase::Leaving;
            let step = Step { effects, request: Request::Restore { dir: self.origin.clone() } };
            step
        } else {
            self.settle(effects)
        }
    }

    fn settle(&mut self, effects: Vec<Effect>) -> (step: Step)
        requires
            old(self).index < old(self).commands.len(),
        ensures
            final(self)@.wf(),
            final(self).should_terminate == old(self).should_terminate,
            (final(self)@, step@) == old(self)@.settle(effect_views(effects@)),
        decreases old(self).commands.len() - old(self).index, 0int,
    {
        if !self.success {
            self.finish(effects)
        } else {
            self.index += 1;
            self.begin(effects)
        }
    }

    fn fail(&mut self)
        ensures
            final(self)@ == old(self)@.failed(),
            final(self).commands == old(self).commands,
            final(self).index == old(self).index,
            final(self).should_terminate == old(self).should_terminate,
    {
        self.success = false;
        self.output = String::new();
    }

    /// Takes the answer of the host to the last request and says what the
    /// host has to do next.
    ///
    /// A command that fails ends the run: no later command is begun. A
    /// command that has changed the directory and is to go back has the
    /// host restore the directory first, whatever came of the command.
    pub fn react(&mut self, reply: Reply) -> (step: Step)
        requires
            old(self)@.wf(),
        ensures
            final(self)@.wf(),
            final(self).should_terminate == old(self).should_terminate,
            exists|made: (bool, Seq<char>)|
                old(self)@.makes(reply@, made) && (final(self)@, step@) == old(self)@.react(
                    reply@,
                    made,
                ),
    {
        let ghost before = self@;
        let ghost unused = (true, Seq::<char>::empty());
        let nothing: Vec<Effect> = Vec::new();
        assert(effect_views(nothing@) =~= Seq::<EffectView>::empty());
        match self.phase {
            Phase::Done => {
                let step = self.finish(nothing);
                assert(before.makes(reply@, unused));
                step
            },
            Phase::Entering => {
                assert(before.current() == self.commands[self.index as int]@);
                match reply {
                    Reply::Changed { now } => {
                        self.cwd = now;
                        self.entered = true;
                        assert(self@ =~= (RunView { cwd: now@, entered: true, ..before }));
                        let step = self.launch(nothing);
                        assert(before.makes(reply@, unused));
                        step
                    },
                    Reply::Refused { error } => {
                        let mut effects = nothing;
                        if !self.commands[self.index].silent {
                            push_effect(
                                &mut effects,
                                refusal_of(
                                    self.commands[self.index].dir.as_str(),
                                    error.as_str(),
                                ),
                            );
                        }
                        self.fail();
                        let step = self.conclude(effects);
                        assert(before.makes(reply@, unused));
                        step
                    },
                    _ => {
                        self.fail();
                        let step = self.conclude(nothing);
                        assert(before.makes(reply@, unused));
                        step
                    },
                }
            },
            Phase::Running => {
                match reply {
                    Reply::Succeeded { stdout } => {
                        let captured = if self.commands[self.index].pipe {
                            stdout
                        } else {
                            String::new()
                        };
                        match self.commands[self.index].continuation {
                            Some(continuation) => {
                                let result = continuation.apply(captured.as_str());
                                let ghost made = (result.0, result.1@);
                                let effects = match continuation {
                                    Continuation::CurrentBranch => nothing,
                                    Continuation::Exports => effects_of_exports(
                                        &exports(captured.as_str()),
                                    ),
                                    Continuation::StatusTable => {
                                        let mut effects = nothing;
                                        if result.0 {
                                            push_effect(
                                                &mut effects,
                                                Effect::Print(result.1.clone()),
                                            );
                                        }
                                        effects
                                    },
                                };
                                self.success = result.0;
                                self.output = result.1;
                                let step = self.conclude(effects);
                                assert((self@, step@) == before.react(reply@, made));
                                step
                            },
                            None => {
                                self.success = true;
                                self.output = captured;
                                let step = self.conclude(nothing);
                                step
                            },
                        }
                    },
                    Reply::Failed { status, stderr } => {
                        let mut effects = nothing;
                        if !self.commands[self.index].silent {
                            if self.commands[self.index].pipe {
                                push_effect(&mut effects, Effect::Print(stderr));
                            }
                            push_effect(
                                &mut effects,
                                report_of("--> failed with exit status = ", status.as_str()),
                            );
                        }
                        self.fail();
                        let step = self.conclude(effects);
                        assert(before.makes(reply@, unused));
                        step
                    },
                    Reply::Broken { error } => {
                        let mut effects = nothing;
                        if !self.commands[self.index].silent {
                            push_effect(
                                &mut effects,
                                report_of("--> execute error: ", error.as_str()),
                            );
                        }
                        self.fail();
                        let step = self.conclude(effects);
                        assert(before.makes(reply@, unused));
                        step
                    },
                    _ => {
                        self.fail();
                        let step = self.conclude(nothing);
                        assert(before.makes(reply@, unused));
                        step
                    },
                }
            },
            Phase::Leaving => {
                match reply {
                    Reply::Changed { now } => {
                        self.cwd = now;
                        assert(self@ =~= (RunView { cwd: now@, ..before }));
                        let step = self.settle(nothing);
                        assert(before.makes(reply@, unused));
                        step
                    },
                    Reply::Refused { error } => {
                        let mut effects = nothing;
                        if !self.commands[self.index].silent {
                            push_effect(
                                &mut effects,
                                refusal_of(self.origin.as_str(), error.as_str()),
                            );
                        }
                        let step = self.settle(effects);
                        assert(before.makes(reply@, unused));
                        step
                    },
                    _ => {
                        let step = self.settle(nothing);
                        step
                    },
                }
            },
        }
    }
}

/// One answer of the host, with what a continuation made of it.
pub struct Turn {
    pub reply: ReplyView,
    pub made: (bool, Seq<char>),
}

impl RunView {
    /// The run after the answers `turns`.
    pub open spec fn after(self, turns: Seq<Turn>) -> RunView
        decreases turns.len(),
    {
        if turns.len() == 0 {
            self
        } else {
            self.after(turns.drop_last()).react(turns.last().reply, turns.last().made).0
        }
    }

    /// What the host is asked after the `i`-th of the answers `turns`.
    pub open spec fn asked(self, turns: Seq<Turn>, i: int) -> RequestView {
        self.after(turns.take(i)).react(turns[i].reply, turns[i].made).1.request
    }

    /// Whether the reply is the failure of the current command: the
    /// directory is not entered, the process does not end well, or the
    /// continuation makes a failure of its output.
    pub open spec fn fails(self, reply: ReplyView, made: (bool, Seq<char>)) -> bool {
        match self.phase {
            Phase::Entering => !(reply is Changed),
            Phase::Running => match reply {
                ReplyView::Succeeded { stdout } => self.current().continuation is Some && !made.0,
                _ => true,
            },
            _ => false,
        }
    }

    /// Whether the run has failed: the current command has, and what is
    /// left is at most to restore the directory.
    pub open spec fn has_failed(self) -> bool {
        !self.success && (self.phase == Phase::Done || self.phase == Phase::Leaving)
    }

    /// Whether every command of the run is to go back to where it began.
    pub open spec fn all_back(self) -> bool {
        forall|i: int| 0 <= i < self.commands.len() ==> (#[trigger] self.commands[i]).back
    }

    /// Whether the host does what it is asked when it is asked to restore
    /// the directory: it answers each such request with the directory
    /// asked for.
    pub open spec fn honoured(self, turns: Seq<Turn>) -> bool {
        forall|i: int|
            0 <= i < turns.len() && (#[trigger] self.after(turns.take(i))).phase == Phase::Leaving
                ==> turns[i].reply == (ReplyView::Changed {
                now: self.after(turns.take(i)).origin,
            })
    }

    /// Whether the directory of the host is, or will be made, `home`: the
    /// host is there unless the current command has entered its own
    /// directory, and the current command began there.
    pub open spec fn anchored(self, home: Seq<char>) -> bool {
        &&& self.wf()
        &&& self.all_back()
        &&& match self.phase {
            Phase::Done => self.cwd == home,
            Phase::Entering => self.cwd == home && self.origin == home && !self.entered,
            Phase::Running => self.origin == home && (self.entered || self.cwd == home),
            Phase::Leaving => self.origin == home,
        }
    }
}

/// The failure of a command ends the run: the command stays the current
/// one, the run has failed, and the host is asked to restore the
/// directory or told that the run is over, and nothing else.
pub proof fn lemma_failure_ends_run(run: RunView, reply: ReplyView, made: (bool, Seq<char>))
    requires
        run.wf(),
        run.fails(reply, made),
    ensures
        run.react(reply, made).0.has_failed(),
        run.react(reply, made).0.index == run.index,
        run.react(reply, made).0.commands == run.commands,
        run.react(reply, made).1.request is Restore || run.react(reply, made).1.request
            == (RequestView::Finish { success: false, output: run.react(reply, made).0.output }),
{
}

/// A run that has failed stays so: whatever the host answers, it is told
/// that the run is over and has failed.
pub proof fn lemma_failed_run_is_over(run: RunView, reply: ReplyView, made: (bool, Seq<char>))
    requires
        run.wf(),
        run.has_failed(),
    ensures
        run.react(reply, made).0.has_failed(),
        run.react(reply, made).0.wf(),
        run.react(reply, made).0.phase == Phase::Done,
        run.react(reply, made).0.index == run.index,
        run.react(reply, made).0.commands == run.commands,
        run.react(reply, made).1.request == (RequestView::Finish {
            success: false,
            output: run.output,
        }),
{
}

/// Once a command has failed, no later command is ever begun: however the
/// host goes on answering, the failed command stays the current one and
/// every request is the one that says that the run is over and failed.
pub proof fn lemma_fail_fast(run: RunView, turns: Seq<Turn>)
    requires
        run.wf(),
        run.has_failed(),
    ensures
        run.after(turns).has_failed(),
        run.after(turns).wf(),
        run.after(turns).index == run.index,
        run.after(turns).commands == run.commands,
        run.after(turns).output == run.output,
        forall|i: int|
            0 <= i < turns.len() ==> run.asked(turns, i) == (RequestView::Finish {
                success: false,
                output: run.output,
            }),
    decreases turns.len(),
{
    if turns.len() > 0 {
        let before = turns.drop_last();
        lemma_fail_fast(run, before);
        lemma_failed_run_is_over(run.after(before), turns.last().reply, turns.last().made);
        assert forall|i: int| 0 <= i < turns.len() implies run.asked(turns, i) == (
        RequestView::Finish { success: false, output: run.output }) by {
            if i < turns.len() - 1 {
                assert(before.take(i) =~= turns.take(i));
                assert(run.asked(before, i) == run.asked(turns, i));
            }
        }
    }
}

/// Beginning a command in the directory `home` keeps the run anchored
/// there.
pub proof fn lemma_begin_anchored(run: RunView, effects: Seq<EffectView>, home: Seq<char>)
    requires
        0 <= run.index <= run.commands.len(),
        run.all_back(),
        run.cwd == home,
    ensures
        run.begin(effects).0.anchored(home),
        run.begin(effects).0.commands == run.commands,
    decreases run.commands.len() - run.index,
{
    if run.index < run.commands.len() {
        let at = RunView { origin: run.cwd, entered: false, ..run };
        let command = at.current();
        if command.dir.len() == 0 && command.raw.len() == 0 {
            let next = RunView { success: true, output: Seq::empty(), ..at };
            let then = RunView { index: next.index + 1, ..next };
            lemma_begin_anchored(then, effects, home);
        }
    }
}

/// Each answer keeps a run anchored, as long as the host honours the
/// request to restore the directory.
pub proof fn lemma_react_anchored(
    run: RunView,
    reply: ReplyView,
    made: (bool, Seq<char>),
    home: Seq<char>,
)
    requires
        run.anchored(home),
        run.phase == Phase::Leaving ==> reply == (ReplyView::Changed { now: run.origin }),
    ensures
        run.react(reply, made).0.anchored(home),
        run.react(reply, made).0.commands == run.commands,
{
    match run.phase {
        Phase::Done => {},
        Phase::Entering => {
            match reply {
                ReplyView::Changed { now } => {},
                _ => {},
            }
        },
        Phase::Running => {
            let concluded = match reply {
                ReplyView::Succeeded { stdout } => match run.current().continuation {
                    Some(continuation) => RunView { success: made.0, output: made.1, ..run },
                    None => RunView {
                        success: true,
                        output: if run.current().pipe {
                            stdout
                        } else {
                            Seq::empty()
                        },
                        ..run
                    },
                },
                _ => run.failed(),
            };
            if !run.entered && concluded.success {
                let then = RunView { index: concluded.index + 1, ..concluded };
                lemma_begin_anchored(then, Seq::empty(), home);
                match reply {
                    ReplyView::Succeeded { stdout } => match run.current().continuation {
                        Some(continuation) => {
                            lemma_begin_anchored(
                                then,
                                continuation_effects(
                                    continuation,
                                    if run.current().pipe {
                                        stdout
                                    } else {
                                        Seq::empty()
                                    },
                                    made,
                                ),
                                home,
                            );
                        },
                        None => {},
                    },
                    _ => {},
                }
            }
        },
        Phase::Leaving => {
            let back = RunView { cwd: run.origin, ..run };
            if back.success {
                let then = RunView { index: back.index + 1, ..back };
                lemma_begin_anchored(then, Seq::empty(), home);
            }
        },
    }
}

/// Where every command is to go back and the host honours the requests to
/// restore the directory, a run that is over has left the host in the
/// directory in which the run began, whatever came of the commands.
pub proof fn lemma_directory_restored(commands: Seq<CommandView>, cwd: Seq<char>, turns: Seq<Turn>)
    requires
        initial(commands, cwd).all_back(),
        initial(commands, cwd).begin(Seq::empty()).0.honoured(turns),
    ensures
        initial(commands, cwd).begin(Seq::empty()).0.after(turns).anchored(cwd),
        initial(commands, cwd).begin(Seq::empty()).0.after(turns).phase == Phase::Done
            ==> initial(commands, cwd).begin(Seq::empty()).0.after(turns).cwd == cwd,
    decreases turns.len(),
{
    let first = initial(commands, cwd).begin(Seq::empty()).0;
    lemma_begin_anchored(initial(commands, cwd), Seq::empty(), cwd);
    if turns.len() > 0 {
        let before = turns.drop_last();
        assert forall|i: int|
            0 <= i < before.len() && (#[trigger] first.after(before.take(i))).phase
                == Phase::Leaving implies before[i].reply == (ReplyView::Changed {
            now: first.after(before.take(i)).origin,
        }) by {
            assert(before.take(i) =~= turns.take(i));
        }
        lemma_directory_restored(commands, cwd, before);
        lemma_react_anchored(first.after(before), turns.last().reply, turns.last().made, cwd);
    }
}

/// Beginning a command after the success of all before it leaves the run
/// in order.
pub proof fn lemma_begin_in_order(run: RunView, effects: Seq<EffectView>)
    requires
        0 <= run.index <= run.commands.len(),
        run.success,
    ensures
        run.begin(effects).0.wf(),
        run.begin(effects).0.commands == run.commands,
    decreases run.commands.len() - run.index,
{
    if run.index < run.commands.len() {
        let at = RunView { origin: run.cwd, entered: false, ..run };
        let command = at.current();
        if command.dir.len() == 0 && command.raw.len() == 0 {
            let next = RunView { success: true, output: Seq::empty(), ..at };
            let then = RunView { index: next.index + 1, ..next };
            lemma_begin_in_order(then, effects);
        }
    }
}

/// Each answer leaves a run in order.
pub proof fn lemma_react_in_order(run: RunView, reply: ReplyView, made: (bool, Seq<char>))
    requires
        run.wf(),
    ensures
        run.react(reply, made).0.wf(),
        run.react(reply, made).0.commands == run.commands,
{
    match run.phase {
        Phase::Done => {},
        Phase::Entering => {
            match reply {
                ReplyView::Changed { now } => {
                    let entered = RunView { cwd: now, entered: true, ..run };
                    if entered.current().raw.len() == 0 && !entered.current().back {
                        let next = RunView { success: true, output: Seq::empty(), ..entered };
                        let then = RunView { index: next.index + 1, ..next };
                        lemma_begin_in_order(then, Seq::empty());
                    }
                },
                _ => {},
            }
        },
        Phase::Running => {
            match reply {
                ReplyView::Succeeded { stdout } => {
                    let captured = if run.current().pipe {
                        stdout
                    } else {
                        Seq::empty()
                    };
                    match run.current().continuation {
                        Some(continuation) => {
                            let next = RunView { success: made.0, output: made.1, ..run };
                            if next.success {
                                lemma_begin_in_order(
                                    RunView { index: next.index + 1, ..next },
                                    continuation_effects(continuation, captured, made),
                                );
                            }
                        },
                        None => {
                            let next = RunView { success: true, output: captured, ..run };
                            lemma_begin_in_order(
                                RunView { index: next.index + 1, ..next },
                                Seq::empty(),
                            );
                        },
                    }
                },
                _ => {},
            }
        },
        Phase::Leaving => {
            match reply {
                ReplyView::Changed { now } => {
                    let next = RunView { cwd: now, ..run };
                    if next.success {
                        lemma_begin_in_order(
                            RunView { index: next.index + 1, ..next },
                            Seq::empty(),
                        );
                    }
                },
                ReplyView::Refused { error } => {
                    if run.success {
                        lemma_begin_in_order(
                            RunView { index: run.index + 1, ..run },
                            run.report(
                                "--> cannot change directory to [ "@ + run.origin + " ]: "@
                                    + error,
                            ),
                        );
                    }
                },
                _ => {
                    if run.success {
                        lemma_begin_in_order(
                            RunView { index: run.index + 1, ..run },
                            Seq::empty(),
                        );
                    }
                },
            }
        },
    }
}

/// The success of an instruction is the success of all its commands: a
/// run that is over has succeeded only if every command has run, and each
/// command is begun only after the success of the one before.
pub proof fn lemma_success_runs_all(commands: Seq<CommandView>, cwd: Seq<char>, turns: Seq<Turn>)
    ensures
        initial(commands, cwd).begin(Seq::empty()).0.after(turns).wf(),
        initial(commands, cwd).begin(Seq::empty()).0.after(turns).commands == commands,
        ({
            let end = initial(commands, cwd).begin(Seq::empty()).0.after(turns);
            end.phase == Phase::Done && end.success ==> end.index == commands.len()
        }),
    decreases turns.len(),
{
    let first = initial(commands, cwd).begin(Seq::empty()).0;
    lemma_begin_in_order(initial(commands, cwd), Seq::empty());
    if turns.len() > 0 {
        lemma_success_runs_all(commands, cwd, turns.drop_last());
        lemma_react_in_order(
            first.after(turns.drop_last()),
            turns.last().reply,
            turns.last().made,
        );
    }
}

impl RunView {
    /// How many answers the run can still take, at most: three for each
    /// command that is left, less what the current command has had.
    pub open spec fn left(self) -> int {
        match self.phase {
            Phase::Done => 0,
            Phase::Entering => 3 * (self.commands.len() - self.index),
            Phase::Running => 3 * (self.commands.len() - self.index) - 1,
            Phase::Leaving => 3 * (self.commands.len() - self.index) - 2,
        }
    }

    /// Whether each of the answers `turns` comes with what the continuation
    /// of the command made of it.
    pub open spec fn answered(self, turns: Seq<Turn>) -> bool
        decreases turns.len(),
    {
        turns.len() > 0 ==> self.answered(turns.drop_last()) && self.after(
            turns.drop_last(),
        ).makes(turns.last().reply, turns.last().made)
    }

    /// Whether `result` is the outcome of this run after some answers of
    /// the host.
    pub open spec fn ends_with(self, result: (bool, Seq<char>)) -> bool {
        exists|turns: Seq<Turn>|
            self.answered(turns) && (#[trigger] self.after(turns)).phase == Phase::Done
                && self.after(turns).success == result.0 && self.after(turns).output == result.1
    }
}

/// Beginning a command leaves at most three answers for each command that
/// is left, and the run is over exactly if the host is told so.
pub proof fn lemma_begin_progress(run: RunView, effects: Seq<EffectView>)
    requires
        0 <= run.index <= run.commands.len(),
    ensures
        run.begin(effects).0.left() <= 3 * (run.commands.len() - run.index),
        run.begin(effects).1.request is Finish <==> run.begin(effects).0.phase == Phase::Done,
        run.begin(effects).1.request is Finish ==> run.begin(effects).1.request == (
        RequestView::Finish {
            success: run.begin(effects).0.success,
            output: run.begin(effects).0.output,
        }),
    decreases run.commands.len() - run.index,
{
    if run.index < run.commands.len() {
        let at = RunView { origin: run.cwd, entered: false, ..run };
        let command = at.current();
        if command.dir.len() == 0 && command.raw.len() == 0 {
            let next = RunView { success: true, output: Seq::empty(), ..at };
            let then = RunView { index: next.index + 1, ..next };
            lemma_begin_progress(then, effects);
        }
    }
}

/// Each answer brings a run that is not over nearer to its end, and the
/// run is over exactly if the host is told so.
pub proof fn lemma_react_progress(run: RunView, reply: ReplyView, made: (bool, Seq<char>))
    requires
        run.wf(),
        run.phase != Phase::Done,
    ensures
        run.react(reply, made).0.left() < run.left(),
        run.react(reply, made).1.request is Finish <==> run.react(reply, made).0.phase
            == Phase::Done,
        run.react(reply, made).1.request is Finish ==> run.react(reply, made).1.request == (
        RequestView::Finish {
            success: run.react(reply, made).0.success,
            output: run.react(reply, made).0.output,
        }),
{
    match run.phase {
        Phase::Done => {},
        Phase::Entering => {
            match reply {
                ReplyView::Changed { now } => {
                    let entered = RunView { cwd: now, entered: true, ..run };
                    if entered.current().raw.len() == 0 && !entered.current().back {
                        let next = RunView { success: true, output: Seq::empty(), ..entered };
                        lemma_begin_progress(
                            RunView { index: next.index + 1, ..next },
                            Seq::empty(),
                        );
                    }
                },
                _ => {},
            }
        },
        Phase::Running => {
            match reply {
                ReplyView::Succeeded { stdout } => {
                    let captured = if run.current().pipe {
                        stdout
                    } else {
                        Seq::empty()
                    };
                    match run.current().continuation {
                        Some(continuation) => {
                            let next = RunView { success: made.0, output: made.1, ..run };
                            lemma_begin_progress(
                                RunView { index: next.index + 1, ..next },
                                continuation_effects(continuation, captured, made),
                            );
                        },
                        None => {
                            let next = RunView { success: true, output: captured, ..run };
                            lemma_begin_progress(
                                RunView { index: next.index + 1, ..next },
                                Seq::empty(),
                            );
                        },
                    }
                },
                _ => {},
            }
        },
        Phase::Leaving => {
            match reply {
                ReplyView::Changed { now } => {
                    let next = RunView { cwd: now, ..run };
                    lemma_begin_progress(RunView { index: next.index + 1, ..next }, Seq::empty());
                },
                ReplyView::Refused { error } => {
                    lemma_begin_progress(
                        RunView { index: run.index + 1, ..run },
                        run.report(
                            "--> cannot change directory to [ "@ + run.origin + " ]: "@ + error,
                        ),
                    );
                },
                _ => {
                    lemma_begin_progress(RunView { index: run.index + 1, ..run }, Seq::empty());
                },
            }
        },
    }
}

/// What carries out the requests of a run: the process that the library
/// is part of, or a stand-in for it.
pub trait Host {
    /// The directory that the host is in.
    fn directory(&mut self) -> String;

    /// Carries out an effect.
    fn perform(&mut self, effect: &Effect);

    /// Does what is asked and tells what came of it. It is not asked to
    /// finish.
    fn answer(&mut self, request: &Request) -> Reply;
}

/// Runs an instruction on a host, to its end: the commands one after
/// another, as long as they succeed. Returns the outcome of the last
/// command that ran, which is a success only if all commands have run.
pub fn run<H: Host>(host: &mut H, instruction: Instruction) -> (result: (bool, String))
    ensures
        exists|cwd: Seq<char>|
            initial(instruction@.commands, cwd).begin(Seq::empty()).0.ends_with(
                (result.0, result.1@),
            ),
{
    let cwd = host.directory();
    let (mut run, mut step) = Execution::start(instruction, cwd.as_str());
    let ghost first = run@;
    let ghost mut turns: Seq<Turn> = Seq::empty();
    proof {
        lemma_begin_progress(initial(instruction@.commands, cwd@), Seq::empty());
    }
    loop
        invariant
            run@.wf(),
            first.answered(turns),
            run@ == first.after(turns),
            step@.request is Finish <==> run@.phase == Phase::Done,
            step@.request is Finish ==> step@.request == (RequestView::Finish {
                success: run@.success,
                output: run@.output,
            }),
            first == initial(instruction@.commands, cwd@).begin(Seq::empty()).0,
        decreases run@.left(),
    {
        let mut i: usize = 0;
        while i < step.effects.len()
            invariant
                i <= step.effects.len(),
            decreases step.effects.len() - i,
        {
            host.perform(&step.effects[i]);
            i += 1;
        }
        match &step.request {
            Request::Finish { success, output } => {
                return (*success, output.clone());
            },
            _ => {},
        }
        let reply = host.answer(&step.request);
        let ghost before = run@;
        let ghost given = reply@;
        step = run.react(reply);
        proof {
            let made = choose|made: (bool, Seq<char>)|
                before.makes(given, made) && (run@, step@) == before.react(given, made);
            let longer = turns.push(Turn { reply: given, made });
            assert(longer.drop_last() =~= turns);
            lemma_react_progress(before, given, made);
            turns = longer;
        }
    }
}

/// Runs a command on a host. Returns whether it succeeded, and its
/// output.
pub fn run_command<H: Host>(host: &mut H, command: Command) -> (result: (bool, String))
    ensures
        exists|cwd: Seq<char>|
            initial(seq![command@], cwd).begin(Seq::empty()).0.ends_with((result.0, result.1@)),
{
    let instruction = Instruction::one(command);
    run(host, instruction)
}

/// Runs an instruction on a host. Returns whether all its commands
/// succeeded.
pub fn run_instruction<H: Host>(host: &mut H, instruction: Instruction) -> (success: bool)
    ensures
        exists|cwd: Seq<char>, output: Seq<char>|
            initial(instruction@.commands, cwd).begin(Seq::empty()).0.ends_with((success, output)),
{
    let result = run(host, instruction);
    result.0
}

/// The line that git marks as the current branch of the directory that
/// the host is in; empty if git finds no repository there.
pub fn current_git_branch<H: Host>(host: &mut H) -> (branch: String)
    ensures
        exists|cwd: Seq<char>, result: (bool, Seq<char>)|
            initial(
                seq![CommandView::captured("git branch"@, Continuation::CurrentBranch)],
                cwd,
            ).begin(Seq::empty()).0.ends_with(result) && branch@ == (if result.0 {
                result.1
            } else {
                Seq::empty()
            }),
{
    let result = run_command(host, current_branch());
    if result.0 {
        result.1
    } else {
        String::new()
    }
}

} // verus!
