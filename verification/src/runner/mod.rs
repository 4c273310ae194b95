//! Running parsed commands: what goes to the history, which commands run
//! in the shell itself, and how a pipeline of processes is wired.
//!
//! The processes, pipes and files are made by the caller; the functions
//! here decide what to make and how to connect it.

pub mod process;

use crate::command::registry::{
    lemma_registry_builtin_named, lemma_registry_name_round_trip, registry_builtin_of, registry_name, Builtin,
};
use crate::error::ShellError;
use crate::fmt::NewLine;
use crate::history::{fresh_cursor, Log};
use crate::text::{join, join_seq, strings_view};
use vstd::prelude::*;

verus! {

/// Where a command's output is redirected.
pub struct Redirect {
    pub path: String,
    pub append: bool,
    /// The redirected stream is standard error (else standard output).
    pub stderr: bool,
}

impl Redirect {
    /// The file to write to.
    pub fn path(&self) -> (res: &str)
        ensures
            res@ == self.path@,
    {
        self.path.as_str()
    }

    /// Whether the file is appended to.
    pub fn is_append(&self) -> (res: bool)
        ensures
            res == self.append,
    {
        self.append
    }

    /// Whether standard error is redirected.
    pub fn is_stderr(&self) -> (res: bool)
        ensures
            res == self.stderr,
    {
        self.stderr
    }

    /// Whether standard output is redirected.
    pub fn is_stdout(&self) -> (res: bool)
        ensures
            res == !self.stderr,
    {
        !self.stderr
    }
}

/// One command of a parsed command line.
pub struct Parsed {
    pub command: String,
    pub args: Option<Vec<String>>,
    pub redirect: Option<Redirect>,
    /// The command's output goes on to the next command.
    pub pipeline: bool,
}

/// The view of a redirect: path, append, standard error.
pub type RedirectView = (Seq<char>, bool, bool);

/// The view of a parsed command: command, arguments, redirect, pipeline.
pub type ParsedView = (Seq<char>, Option<Seq<Seq<char>>>, Option<RedirectView>, bool);

impl View for Parsed {
    type V = ParsedView;

    open spec fn view(&self) -> ParsedView {
        (
            self.command@,
            match self.args {
                Some(a) => Some(strings_view(a@)),
                None => None,
            },
            match self.redirect {
                Some(r) => Some((r.path@, r.append, r.stderr)),
                None => None,
            },
            self.pipeline,
        )
    }
}

/// The views of parsed commands.
pub open spec fn parseds_view(v: Seq<Parsed>) -> Seq<ParsedView> {
    v.map_values(|p: Parsed| p@)
}

/// The history record of a command: the command and its arguments,
/// separated by spaces.
pub open spec fn log_record(p: ParsedView) -> Seq<char> {
    p.0 + match p.1 {
        Some(a) => " "@ + join_seq(a, " "@),
        None => Seq::empty(),
    }
}

/// Adds the commands of a command line to the history.
pub fn to_log(parseds: &Vec<Parsed>, log: &mut Log)
    requires
        old(log).wf(),
        old(log).records().len() + parseds.len() > 0,
    ensures
        final(log).wf(),
        final(log).records() == old(log).records() + parseds_view(parseds@).map_values(
            |p: ParsedView| log_record(p),
        ),
        final(log).uploads() == old(log).uploads(),
        final(log).cursor() == fresh_cursor(final(log).records().len()),
{
    let ghost want = parseds_view(parseds@).map_values(|p: ParsedView| log_record(p));
    let mut records: Vec<String> = Vec::new();
    let mut i: usize = 0;
    while i < parseds.len()
        invariant
            i <= parseds.len(),
            want == parseds_view(parseds@).map_values(|p: ParsedView| log_record(p)),
            strings_view(records@) == want.take(i as int),
        decreases parseds.len() - i,
    {
        let parsed = &parseds[i];
        let mut record = parsed.command.clone();
        if let Some(args) = &parsed.args {
            let strs = crate::complete::structure::as_strs(args);
            record.append(" ");
            record.append(join(&strs, " ").as_str());
        }
        assert(record@ == want[i as int]);
        records.push(record);
        assert(strings_view(records@) =~= strings_view(records@.drop_last()).push(record@));
        assert(want.take(i + 1) =~= want.take(i as int).push(record@));
        i = i + 1;
    }
    assert(want.take(parseds.len() as int) =~= want);
    log.add(records);
}

/// A command whose output goes on through `tee` into a file: it pipes
/// and redirects standard output.
pub open spec fn tees(p: ParsedView) -> bool {
    p.3 && (p.2 matches Some(r) && !r.2)
}

/// The number of pipes a command line needs from the command at index
/// `i` on: one per command, and one more for each command teed into a file.
pub open spec fn pipes_from(ps: Seq<ParsedView>, i: int) -> nat
    decreases ps.len() - i,
{
    if i < 0 || i >= ps.len() {
        0
    } else {
        (if tees(ps[i]) {
            2nat
        } else {
            1nat
        }) + pipes_from(ps, i + 1)
    }
}

/// The number of pipes for the command line.
pub fn count_pipes(parseds: &Vec<Parsed>) -> (res: usize)
    requires
        parseds.len() <= usize::MAX / 2,
    ensures
        res == pipes_from(parseds_view(parseds@), 0),
{
    let ghost ps = parseds_view(parseds@);
    let mut count: usize = parseds.len();
    let mut i: usize = 0;
    while i < parseds.len()
        invariant
            ps == parseds_view(parseds@),
            parseds.len() <= usize::MAX / 2,
            i <= parseds.len(),
            count <= parseds.len() + i,
            count + i + pipes_from(ps, i as int) == parseds.len() + pipes_from(ps, 0),
        decreases parseds.len() - i,
    {
        let parsed = &parseds[i];
        assert(ps[i as int] == parsed@);
        if parsed.pipeline && parsed.redirect.is_some() {
            let redirect = parsed.redirect.as_ref().unwrap();
            if !redirect.stderr {
                count = count + 1;
            }
        }
        i = i + 1;
    }
    count
}

/// How a command line is run.
#[derive(Clone, Copy, Debug, PartialEq, Eq, Structural)]
pub enum RunPlan {
    /// The shell exits.
    Exit,
    /// A single builtin runs in the shell itself.
    Native(Builtin),
    /// The commands run as processes connected by pipes.
    Forks,
}

/// How a command line of the given commands is run: `exit` alone ends the
/// shell, another single builtin that does not block runs in the shell,
/// anything else runs as processes.
pub open spec fn run_plan_spec(ps: Seq<ParsedView>) -> RunPlan {
    if ps.len() == 1 && registry_builtin_of(ps[0].0) is Some {
        let b = registry_builtin_of(ps[0].0)->0;
        if b == Builtin::Exit {
            RunPlan::Exit
        } else if b != Builtin::Yes {
            RunPlan::Native(b)
        } else {
            RunPlan::Forks
        }
    } else {
        RunPlan::Forks
    }
}

/// A single command that names a builtin runs in the shell itself, but
/// `exit` ends the shell and `yes` (which never stops) runs as a process.
pub proof fn lemma_single_builtin_plan(ps: Seq<ParsedView>, b: Builtin)
    requires
        ps.len() == 1,
        ps[0].0 == registry_name(b),
    ensures
        run_plan_spec(ps) == if b == Builtin::Exit {
            RunPlan::Exit
        } else if b == Builtin::Yes {
            RunPlan::Forks
        } else {
            RunPlan::Native(b)
        },
{
    lemma_registry_name_round_trip(b);
}

/// Only a single command runs in the shell or exits it: a plan to run a
/// builtin natively names the one command's builtin, which is neither
/// `exit` nor `yes`, and a plan to exit is for the single command `exit`;
/// anything else (several commands, or a command that is no builtin) runs
/// as processes.
pub proof fn lemma_plan_names_the_command(ps: Seq<ParsedView>)
    ensures
        run_plan_spec(ps) matches RunPlan::Native(b) ==> ps.len() == 1 && ps[0].0 == registry_name(b)
            && b != Builtin::Exit && b != Builtin::Yes,
        run_plan_spec(ps) is Exit ==> ps.len() == 1 && ps[0].0 == registry_name(Builtin::Exit),
        (ps.len() != 1 || forall|b: Builtin| ps[0].0 != #[trigger] registry_name(b)) ==> run_plan_spec(ps)
            is Forks,
{
    if ps.len() == 1 {
        lemma_registry_builtin_named(ps[0].0);
        if let Some(b) = registry_builtin_of(ps[0].0) {
            assert(ps[0].0 == registry_name(b));
        }
    }
}

/// Adds a command line to the history and decides how it runs; fails on
/// an empty command line.
pub fn plan_run(parseds: &Vec<Parsed>, log: &mut Log) -> (res: Result<RunPlan, ShellError>)
    requires
        old(log).wf(),
    ensures
        final(log).wf(),
        final(log).uploads() == old(log).uploads(),
        parseds.len() == 0 ==> (res matches Err(e) && e is EmptyParseds) && final(log).records()
            == old(log).records() && final(log).cursor() == old(log).cursor(),
        parseds.len() > 0 ==> final(log).cursor() == fresh_cursor(final(log).records().len()),
        parseds.len() > 0 ==> res == Ok::<RunPlan, ShellError>(run_plan_spec(parseds_view(parseds@)))
            && final(log).records() == old(log).records() + parseds_view(parseds@).map_values(
            |p: ParsedView| log_record(p),
        ),
{
    let len = parseds.len();
    if len == 0 {
        return Err(ShellError::EmptyParseds);
    }
    to_log(parseds, log);
    if len == 1 {
        assert(parseds_view(parseds@)[0] == parseds@[0]@);
        if let Some(builtin) = Builtin::to_builtin(parseds[0].command.as_str()) {
            if builtin.is_exit() {
                return Ok(RunPlan::Exit);
            }
            if !builtin.is_blocking() {
                return Ok(RunPlan::Native(builtin));
            }
        }
    }
    Ok(RunPlan::Forks)
}

/// The line breaks of a builtin run in the shell: with a redirect, the
/// redirected stream ends with a break and the other starts with one;
/// without, both streams start with a break when the output starts on a
/// new line.
pub open spec fn native_newline_spec(redirect: Option<RedirectView>, output_starts_newline: bool) -> (bool, bool, bool, bool) {
    match redirect {
        Some(r) => if r.2 {
            (true, false, false, true)
        } else {
            (false, true, true, false)
        },
        None => (output_starts_newline, false, output_starts_newline, false),
    }
}

/// The line breaks of a builtin run in the shell.
pub fn native_newline(redirect: Option<&Redirect>, output_starts_newline: bool) -> (res: NewLine)
    ensures
        res@ == native_newline_spec(
            match redirect {
                Some(r) => Some((r.path@, r.append, r.stderr)),
                None => None,
            },
            output_starts_newline,
        ),
{
    let mut newline = NewLine::new();
    if let Some(redirect) = redirect {
        if redirect.is_stderr() {
            newline.set_stderr_end(true);
            newline.set_stdout_start(true);
        } else {
            newline.set_stdout_end(true);
            newline.set_stderr_start(true);
        }
    } else {
        newline.set_stdout_start(output_starts_newline);
        newline.set_stderr_start(output_starts_newline);
    }
    newline
}


/// What a process runs.
pub enum Program {
    /// A builtin of the shell, run in the process with its arguments.
    Builtin { builtin: Builtin, args: Option<Vec<String>> },
    /// An executable, found by name, with its arguments.
    External { bin: String, args: Option<Vec<String>> },
}

/// Where a stream of a process goes.
pub enum Target {
    /// The write end of the pipe with this index.
    Pipe(usize),
    /// The write end of the shared pipe for standard error.
    ErrorPipe,
    /// A file, appended to or truncated.
    File { path: String, append: bool },
}

/// A process to start: the pipe it reads from (none for the first), where
/// its output and errors go, and what it runs.
pub struct ForkSpec {
    pub stdin_pipe: Option<usize>,
    pub stdout: Target,
    pub stderr: Target,
    pub program: Program,
}

/// One step of running a pipeline.
pub enum PlanStep {
    /// Start a process.
    Fork(ForkSpec),
    /// Report to standard error that a command is not found.
    NotFound(String),
}

/// The view of a program.
pub enum ProgramView {
    Builtin(Builtin, Option<Seq<Seq<char>>>),
    External(Seq<char>, Option<Seq<Seq<char>>>),
}

/// The view of a stream's target.
pub enum TargetView {
    Pipe(nat),
    ErrorPipe,
    File(Seq<char>, bool),
}

/// The view of a step.
pub enum StepView {
    Fork(Option<nat>, TargetView, TargetView, ProgramView),
    NotFound(Seq<char>),
}

/// The view of a program.
pub open spec fn program_view(p: Program) -> ProgramView {
    match p {
        Program::Builtin { builtin, args } => ProgramView::Builtin(
            builtin,
            match args {
                Some(a) => Some(strings_view(a@)),
                None => None,
            },
        ),
        Program::External { bin, args } => ProgramView::External(
            bin@,
            match args {
                Some(a) => Some(strings_view(a@)),
                None => None,
            },
        ),
    }
}

/// The view of a target.
pub open spec fn target_view(t: Target) -> TargetView {
    match t {
        Target::Pipe(k) => TargetView::Pipe(k as nat),
        Target::ErrorPipe => TargetView::ErrorPipe,
        Target::File { path, append } => TargetView::File(path@, append),
    }
}

/// The view of a step.
pub open spec fn step_view(s: PlanStep) -> StepView {
    match s {
        PlanStep::Fork(f) => StepView::Fork(
            match f.stdin_pipe {
                Some(k) => Some(k as nat),
                None => None,
            },
            target_view(f.stdout),
            target_view(f.stderr),
            program_view(f.program),
        ),
        PlanStep::NotFound(m) => StepView::NotFound(m@),
    }
}

/// The views of steps.
pub open spec fn steps_view(v: Seq<PlanStep>) -> Seq<StepView> {
    v.map_values(|s: PlanStep| step_view(s))
}

/// The arguments of the `tee` that writes a piped output into `path`.
pub open spec fn tee_args(path: Seq<char>, append: bool) -> Seq<Seq<char>> {
    if append {
        seq!["-a"@, path]
    } else {
        seq![path]
    }
}

/// The file of the command's redirect.
pub open spec fn redirect_path(p: ParsedView) -> Seq<char> {
    match p.2 {
        Some(r) => r.0,
        None => Seq::empty(),
    }
}

/// Whether the command's redirect appends.
pub open spec fn redirect_append(p: ParsedView) -> bool {
    match p.2 {
        Some(r) => r.1,
        None => false,
    }
}

/// Whether the command's redirect is of standard error.
pub open spec fn redirect_stderr(p: ParsedView) -> bool {
    match p.2 {
        Some(r) => r.2,
        None => false,
    }
}

/// The process of the command `p`, with `number` the index of its pipe:
/// it reads the previous pipe, writes its own pipe and the error pipe,
/// except for a stream redirected into a file (standard output only when
/// the command does not pipe on).
pub open spec fn command_fork(p: ParsedView, number: nat) -> StepView {
    let to_file = p.2 matches Some(r) && (r.2 || !p.3);
    StepView::Fork(
        if number == 0 {
            None
        } else {
            Some((number - 1) as nat)
        },
        if to_file && !redirect_stderr(p) {
            TargetView::File(redirect_path(p), redirect_append(p))
        } else {
            TargetView::Pipe(number)
        },
        if to_file && redirect_stderr(p) {
            TargetView::File(redirect_path(p), redirect_append(p))
        } else {
            TargetView::ErrorPipe
        },
        match registry_builtin_of(p.0) {
            Some(b) => ProgramView::Builtin(b, p.1),
            None => ProgramView::External(p.0, p.1),
        },
    )
}

/// The steps for the commands from index `i` on, `number` being the index
/// of the next pipe: a found command (a builtin, or an executable as
/// `found` says) gets its process, and a `tee` after it when it pipes its
/// redirected output; a command not found gets its message. Each command
/// takes one pipe, and each `tee` one more.
pub open spec fn plan_from(ps: Seq<ParsedView>, found: Seq<bool>, output_starts_newline: bool, i: int, number: nat) -> Seq<StepView>
    decreases ps.len() - i,
{
    if i < 0 || i >= ps.len() {
        Seq::empty()
    } else {
        let p = ps[i];
        if registry_builtin_of(p.0) is Some || found[i] {
            if tees(p) {
                seq![
                    command_fork(p, number),
                    StepView::Fork(
                        Some(number),
                        TargetView::Pipe(number + 1),
                        TargetView::ErrorPipe,
                        ProgramView::External("tee"@, Some(tee_args(redirect_path(p), redirect_append(p)))),
                    ),
                ] + plan_from(ps, found, output_starts_newline, i + 1, number + 2)
            } else {
                seq![command_fork(p, number)] + plan_from(ps, found, output_starts_newline, i + 1, number + 1)
            }
        } else {
            seq![
                StepView::NotFound(
                    (if output_starts_newline {
                        seq!['\r', '\n']
                    } else {
                        Seq::empty()
                    }) + p.0 + ": command not found"@,
                ),
            ] + plan_from(ps, found, output_starts_newline, i + 1, number + 1)
        }
    }
}

/// The pipes that a step uses all have an index below `n`.
pub open spec fn pipes_below(s: StepView, n: nat) -> bool {
    match s {
        StepView::Fork(stdin, stdout, _, _) => (stdin matches Some(k) ==> k < n) && (
        stdout matches TargetView::Pipe(k) ==> k < n),
        StepView::NotFound(_) => true,
    }
}

proof fn lemma_plan_pipes_below(ps: Seq<ParsedView>, found: Seq<bool>, nl: bool, i: int, number: nat)
    requires
        0 <= i,
        found.len() == ps.len(),
    ensures
        forall|j: int|
            0 <= j < plan_from(ps, found, nl, i, number).len() ==> pipes_below(
                #[trigger] plan_from(ps, found, nl, i, number)[j],
                number + pipes_from(ps, i),
            ),
    decreases ps.len() - i,
{
    if i < ps.len() {
        let p = ps[i];
        let step: nat = if (registry_builtin_of(p.0) is Some || found[i]) && tees(p) {
            2
        } else {
            1
        };
        lemma_plan_pipes_below(ps, found, nl, i + 1, number + step);
        let head: Seq<StepView> = if registry_builtin_of(p.0) is Some || found[i] {
            if tees(p) {
                seq![
                    command_fork(p, number),
                    StepView::Fork(
                        Some(number),
                        TargetView::Pipe(number + 1),
                        TargetView::ErrorPipe,
                        ProgramView::External("tee"@, Some(tee_args(redirect_path(p), redirect_append(p)))),
                    ),
                ]
            } else {
                seq![command_fork(p, number)]
            }
        } else {
            seq![
                StepView::NotFound(
                    (if nl {
                        seq!['\r', '\n']
                    } else {
                        Seq::empty()
                    }) + p.0 + ": command not found"@,
                ),
            ]
        };
        let rest = plan_from(ps, found, nl, i + 1, number + step);
        assert(plan_from(ps, found, nl, i, number) == head + rest);
        assert forall|j: int| 0 <= j < plan_from(ps, found, nl, i, number).len() implies pipes_below(
            #[trigger] plan_from(ps, found, nl, i, number)[j],
            number + pipes_from(ps, i),
        ) by {
            if j >= head.len() {
                assert(plan_from(ps, found, nl, i, number)[j] == rest[j - head.len()]);
            }
        }
    }
}

/// Every pipe that the plan of a command line reads or writes is one of
/// the pipes that `count_pipes` counts for it.
pub proof fn lemma_plan_uses_counted_pipes(ps: Seq<ParsedView>, found: Seq<bool>, output_starts_newline: bool)
    requires
        found.len() == ps.len(),
    ensures
        forall|j: int|
            0 <= j < plan_from(ps, found, output_starts_newline, 0, 0).len() ==> pipes_below(
                #[trigger] plan_from(ps, found, output_starts_newline, 0, 0)[j],
                pipes_from(ps, 0),
            ),
{
    lemma_plan_pipes_below(ps, found, output_starts_newline, 0, 0);
}

/// Where a planned process's streams go: a redirect of standard error
/// sends it to the redirect's file and standard output to the process's
/// pipe; a redirect of standard output sends it to the file unless the
/// command pipes on (then `tee` writes the file); without a redirect both
/// go to the pipes. The process reads the previous pipe, if any.
pub proof fn lemma_command_fork_targets(p: ParsedView, number: nat)
    ensures
        command_fork(p, number) is Fork,
        command_fork(p, number)->Fork_0 == if number == 0 { None } else { Some((number - 1) as nat) },
        p.2 is None ==> command_fork(p, number)->Fork_1 == TargetView::Pipe(number) && command_fork(p, number)->Fork_2
            == TargetView::ErrorPipe,
        p.2 is Some && redirect_stderr(p) ==> command_fork(p, number)->Fork_1 == TargetView::Pipe(number)
            && command_fork(p, number)->Fork_2 == TargetView::File(redirect_path(p), redirect_append(p)),
        p.2 is Some && !redirect_stderr(p) && !p.3 ==> command_fork(p, number)->Fork_1 == TargetView::File(
            redirect_path(p),
            redirect_append(p),
        ) && command_fork(p, number)->Fork_2 == TargetView::ErrorPipe,
        p.2 is Some && !redirect_stderr(p) && p.3 ==> command_fork(p, number)->Fork_1 == TargetView::Pipe(number)
            && command_fork(p, number)->Fork_2 == TargetView::ErrorPipe,
{
}

/// A target for a stream redirected into a file.
fn file_target(redirect: &Redirect) -> (res: Target)
    ensures
        target_view(res) == TargetView::File(redirect.path@, redirect.append),
{
    Target::File { path: redirect.path.clone(), append: redirect.append }
}

/// The process of one command, its pipe having index `number`.
fn command_step(parsed: &Parsed, number: usize) -> (res: PlanStep)
    ensures
        step_view(res) == command_fork(parsed@, number as nat),
{
    let to_file = match &parsed.redirect {
        Some(r) => r.stderr || !parsed.pipeline,
        None => false,
    };
    let stdin_pipe = if number == 0 {
        None
    } else {
        Some(number - 1)
    };
    let stdout = match &parsed.redirect {
        Some(r) => if to_file && !r.stderr {
            file_target(r)
        } else {
            Target::Pipe(number)
        },
        None => Target::Pipe(number),
    };
    let stderr = match &parsed.redirect {
        Some(r) => if to_file && r.stderr {
            file_target(r)
        } else {
            Target::ErrorPipe
        },
        None => Target::ErrorPipe,
    };
    let program = match Builtin::to_builtin(parsed.command.as_str()) {
        Some(b) => Program::Builtin { builtin: b, args: clone_args(&parsed.args) },
        None => Program::External { bin: parsed.command.clone(), args: clone_args(&parsed.args) },
    };
    PlanStep::Fork(ForkSpec { stdin_pipe, stdout, stderr, program })
}

/// A copy of optional arguments.
fn clone_args(args: &Option<Vec<String>>) -> (res: Option<Vec<String>>)
    ensures
        match (args, res) {
            (Some(a), Some(b)) => strings_view(a@) == strings_view(b@),
            (None, None) => true,
            _ => false,
        },
{
    match args {
        Some(a) => {
            let strs = crate::complete::structure::as_strs(a);
            Some(crate::complete::to_strings(&strs))
        },
        None => None,
    }
}

/// The steps that run a command line as processes, given for each command
/// whether an executable of its name was found in the search paths.
pub fn plan_forks(parseds: &Vec<Parsed>, found: &Vec<bool>, output_starts_newline: bool) -> (res: Vec<PlanStep>)
    requires
        found.len() == parseds.len(),
        parseds.len() <= usize::MAX / 2,
    ensures
        steps_view(res@) == plan_from(parseds_view(parseds@), found@, output_starts_newline, 0, 0),
{
    let ghost ps = parseds_view(parseds@);
    let ghost whole = plan_from(ps, found@, output_starts_newline, 0, 0);
    let mut steps: Vec<PlanStep> = Vec::new();
    let mut number: usize = 0;
    let mut i: usize = 0;
    assert(steps_view(steps@) + whole =~= whole);
    while i < parseds.len()
        invariant
            ps == parseds_view(parseds@),
            whole == plan_from(ps, found@, output_starts_newline, 0, 0),
            found.len() == parseds.len(),
            parseds.len() <= usize::MAX / 2,
            i <= parseds.len(),
            number <= 2 * i,
            whole == steps_view(steps@) + plan_from(ps, found@, output_starts_newline, i as int, number as nat),
        decreases parseds.len() - i,
    {
        let parsed = &parseds[i];
        assert(ps[i as int] == parsed@);
        let ghost before = steps_view(steps@);
        let ghost rest = plan_from(ps, found@, output_starts_newline, i + 1, (number + 1) as nat);
        let is_builtin = Builtin::to_builtin(parsed.command.as_str()).is_some();
        if is_builtin || found[i] {
            let step = command_step(parsed, number);
            steps.push(step);
            assert(steps_view(steps@) =~= before.push(step_view(step)));
            let tee = match &parsed.redirect {
                Some(r) => parsed.pipeline && !r.stderr,
                None => false,
            };
            if tee {
                let r = parsed.redirect.as_ref().unwrap();
                let mut args: Vec<String> = Vec::new();
                if r.append {
                    args.push("-a".to_owned());
                }
                args.push(r.path.clone());
                assert(strings_view(args@) =~= tee_args(r.path@, r.append));
                let tee_step = PlanStep::Fork(ForkSpec {
                    stdin_pipe: Some(number),
                    stdout: Target::Pipe(number + 1),
                    stderr: Target::ErrorPipe,
                    program: Program::External { bin: "tee".to_owned(), args: Some(args) },
                });
                steps.push(tee_step);
                proof {
                    let two = plan_from(ps, found@, output_starts_newline, i + 1, (number + 2) as nat);
                    assert(steps_view(steps@) =~= before.push(step_view(step)).push(step_view(tee_step)));
                    assert(before + plan_from(ps, found@, output_starts_newline, i as int, number as nat)
                        =~= steps_view(steps@) + two);
                }
                number = number + 2;
            } else {
                proof {
                    assert(before + plan_from(ps, found@, output_starts_newline, i as int, number as nat)
                        =~= steps_view(steps@) + rest);
                }
                number = number + 1;
            }
        } else {
            let mut msg = if output_starts_newline {
                crate::fmt::new_line_raw()
            } else {
                String::new()
            };
            msg.append(parsed.command.as_str());
            msg.append(": command not found");
            let step = PlanStep::NotFound(msg);
            steps.push(step);
            proof {
                assert(steps_view(steps@) =~= before.push(step_view(step)));
                assert(before + plan_from(ps, found@, output_starts_newline, i as int, number as nat)
                    =~= steps_view(steps@) + rest);
            }
            number = number + 1;
        }
        i = i + 1;
    }
    assert(whole =~= steps_view(steps@));
    steps
}

} // verus!
