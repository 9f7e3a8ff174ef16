//! Running a worker in a job that ends with it: its command line, and what follows from
//! what the system answers.
use vstd::prelude::*;

verus! {

/// The exit code of a worker that was stopped because its time was up.
pub const TIMEOUT_EXIT_CODE: u32 = 124;

/// Milliseconds for which the end of a stopped worker is awaited.
pub const TERMINATION_WAIT_MS: u64 = 5_000;

/// A space.
pub const SPACE: u16 = 32;

/// A tabulator.
pub const TAB: u16 = 9;

/// A double quote.
pub const QUOTE: u16 = 34;

/// A backslash.
pub const BACKSLASH: u16 = 92;

// ---------------------------------------------------------------------------
// Command lines
// ---------------------------------------------------------------------------

/// The character parts arguments.
pub open spec fn parts_arguments(c: u16) -> bool {
    c == SPACE || c == TAB
}

/// The argument can stand as it is: it is not empty, and holds nothing that parts
/// arguments and no quote.
pub open spec fn is_plain(argument: Seq<u16>) -> bool {
    argument.len() > 0 && forall|i: int|
        0 <= i < argument.len() ==> !parts_arguments(#[trigger] argument[i]) && argument[i] != QUOTE
}

/// So many backslashes.
pub open spec fn backslashes(count: nat) -> Seq<u16> {
    Seq::new(count, |i: int| BACKSLASH)
}

/// An argument from `from` on as it stands between quotes, with `run` backslashes before
/// it that are still to be written: they are doubled before a quote and at the end, and
/// a quote gets one of its own.
pub open spec fn escaped(argument: Seq<u16>, from: int, run: nat) -> Seq<u16>
    decreases argument.len() - from,
{
    if from < 0 || from >= argument.len() {
        backslashes(2 * run)
    } else if argument[from] == BACKSLASH {
        escaped(argument, from + 1, run + 1)
    } else if argument[from] == QUOTE {
        backslashes(2 * run + 1) + seq![QUOTE] + escaped(argument, from + 1, 0)
    } else {
        backslashes(run) + seq![argument[from]] + escaped(argument, from + 1, 0)
    }
}

/// An argument as it stands in a command line.
pub open spec fn quoted(argument: Seq<u16>) -> Seq<u16> {
    if is_plain(argument) {
        argument
    } else {
        seq![QUOTE] + escaped(argument, 0, 0) + seq![QUOTE]
    }
}

/// The program and the first `count` arguments, parted by spaces.
pub open spec fn joined(program: Seq<u16>, arguments: Seq<Seq<u16>>, count: nat) -> Seq<u16>
    decreases count,
{
    if count == 0 {
        quoted(program)
    } else {
        joined(program, arguments, (count - 1) as nat) + seq![SPACE] + quoted(
            arguments[count - 1],
        )
    }
}

/// The views of the arguments.
pub open spec fn words(arguments: Seq<Vec<u16>>) -> Seq<Seq<u16>> {
    arguments.map_values(|argument: Vec<u16>| argument@)
}

fn push_backslashes(target: &mut Vec<u16>, count: usize)
    ensures
        final(target)@ == old(target)@ + backslashes(count as nat),
{
    let ghost before = target@;
    let mut i: usize = 0;
    assert(before + backslashes(0) =~= before);
    while i < count
        invariant
            i <= count,
            target@ == before + backslashes(i as nat),
        decreases count - i,
    {
        target.push(BACKSLASH);
        i = i + 1;
        assert(target@ =~= before + backslashes(i as nat));
    }
}

/// Whether the argument can stand as it is.
fn stands_as_it_is(argument: &Vec<u16>) -> (plain: bool)
    ensures
        plain == is_plain(argument@),
{
    let mut i: usize = 0;
    while i < argument.len()
        invariant
            i <= argument.len(),
            forall|k: int|
                0 <= k < i ==> !parts_arguments(#[trigger] argument@[k]) && argument@[k] != QUOTE,
        decreases argument.len() - i,
    {
        if argument[i] == SPACE || argument[i] == TAB || argument[i] == QUOTE {
            assert(!is_plain(argument@));
            return false;
        }
        i = i + 1;
    }
    argument.len() > 0
}

/// Appends an argument as it stands in a command line.
pub fn append_quoted_argument(target: &mut Vec<u16>, argument: &Vec<u16>)
    ensures
        final(target)@ == old(target)@ + quoted(argument@),
{
    let ghost start = target@;
    let plain: bool = stands_as_it_is(argument);
    if plain {
        let mut k: usize = 0;
        assert(start + argument@.take(0) =~= start);
        while k < argument.len()
            invariant
                k <= argument.len(),
                target@ == start + argument@.take(k as int),
            decreases argument.len() - k,
        {
            target.push(argument[k]);
            assert(target@ =~= start + argument@.take(k + 1));
            k = k + 1;
        }
        assert(argument@.take(k as int) =~= argument@);
        return;
    }
    target.push(QUOTE);
    let mut run: usize = 0;
    let mut i: usize = 0;
    assert(target@ + escaped(argument@, 0, 0) =~= start + (seq![QUOTE] + escaped(
        argument@,
        0,
        0,
    )));
    while i < argument.len()
        invariant
            i <= argument.len(),
            run <= i,
            target@ + escaped(argument@, i as int, run as nat) == start + (seq![QUOTE] + escaped(
                argument@,
                0,
                0,
            )),
        decreases argument.len() - i,
    {
        let ghost before = target@;
        let c: u16 = argument[i];
        let ghost later = escaped(argument@, i + 1, 0);
        if c == BACKSLASH {
            run = run + 1;
        } else if c == QUOTE {
            push_backslashes(target, run);
            push_backslashes(target, run);
            target.push(BACKSLASH);
            target.push(c);
            assert(target@ + later =~= before + (backslashes((2 * run + 1) as nat) + seq![QUOTE]
                + later));
            run = 0;
        } else {
            push_backslashes(target, run);
            target.push(c);
            assert(target@ + later =~= before + (backslashes(run as nat) + seq![c] + later));
            run = 0;
        }
        i = i + 1;
    }
    let ghost before = target@;
    push_backslashes(target, run);
    push_backslashes(target, run);
    assert(target@ =~= before + backslashes(2 * run as nat));
    target.push(QUOTE);
    assert(target@ =~= start + quoted(argument@));
}

/// Builds a command line: the program and its arguments, with a zero at the end.
pub fn build_command_line(program: &Vec<u16>, arguments: &Vec<Vec<u16>>) -> (command: Vec<u16>)
    ensures
        command@ == joined(program@, words(arguments@), arguments@.len()) + seq![0u16],
{
    let ghost all = words(arguments@);
    let mut command: Vec<u16> = Vec::new();
    append_quoted_argument(&mut command, program);
    assert(command@ =~= quoted(program@));
    let mut i: usize = 0;
    while i < arguments.len()
        invariant
            i <= arguments.len(),
            all == words(arguments@),
            command@ == joined(program@, all, i as nat),
        decreases arguments.len() - i,
    {
        assert(all[i as int] == arguments@[i as int]@);
        command.push(SPACE);
        append_quoted_argument(&mut command, &arguments[i]);
        i = i + 1;
    }
    command.push(0);
    assert(command@ =~= joined(program@, all, arguments@.len()) + seq![0u16]);
    command
}

// ---------------------------------------------------------------------------
// Reading command lines
// ---------------------------------------------------------------------------

/// Reads one argument, and what stands behind it. Backslashes before a quote stand for
/// half as many, and where their number is odd the quote stands for itself; elsewhere
/// they stand for themselves. Between quotes nothing parts arguments. `run` backslashes
/// were read and are still to be counted; `read` is the argument so far.
pub open spec fn read_argument(
    text: Seq<u16>,
    in_quotes: bool,
    run: nat,
    read: Seq<u16>,
) -> (Seq<u16>, Seq<u16>)
    decreases text.len(),
{
    if text.len() == 0 {
        (read + backslashes(run), text)
    } else {
        let rest = text.skip(1);
        if text[0] == BACKSLASH {
            read_argument(rest, in_quotes, run + 1, read)
        } else if text[0] == QUOTE {
            if run % 2 == 0 {
                read_argument(rest, !in_quotes, 0, read + backslashes(run / 2))
            } else {
                read_argument(rest, in_quotes, 0, read + backslashes(run / 2) + seq![QUOTE])
            }
        } else if parts_arguments(text[0]) && !in_quotes {
            (read + backslashes(run), text)
        } else {
            read_argument(rest, in_quotes, 0, read + backslashes(run) + seq![text[0]])
        }
    }
}

/// Reads the arguments of a command line that are parted by single spaces.
pub open spec fn read_arguments(text: Seq<u16>) -> Seq<Seq<u16>>
    decreases text.len(),
{
    let (first, rest) = read_argument(text, false, 0, Seq::empty());
    if rest.len() == 0 || rest.len() > text.len() {
        seq![first]
    } else {
        seq![first] + read_arguments(rest.skip(1))
    }
}

proof fn lemma_read_backslashes(
    count: nat,
    text: Seq<u16>,
    in_quotes: bool,
    run: nat,
    read: Seq<u16>,
)
    ensures
        read_argument(backslashes(count) + text, in_quotes, run, read) == read_argument(
            text,
            in_quotes,
            run + count,
            read,
        ),
    decreases count,
{
    let whole = backslashes(count) + text;
    if count == 0 {
        assert(whole =~= text);
    } else {
        assert(whole[0] == BACKSLASH);
        assert(whole.skip(1) =~= backslashes((count - 1) as nat) + text);
        lemma_read_backslashes((count - 1) as nat, text, in_quotes, run + 1, read);
    }
}

proof fn lemma_read_escaped(
    argument: Seq<u16>,
    from: int,
    run: nat,
    rest: Seq<u16>,
    read: Seq<u16>,
)
    requires
        0 <= from <= argument.len(),
    ensures
        read_argument(escaped(argument, from, run) + seq![QUOTE] + rest, true, 0, read)
            == read_argument(rest, false, 0, read + backslashes(run) + argument.skip(from)),
    decreases argument.len() - from,
{
    let whole = escaped(argument, from, run) + seq![QUOTE] + rest;
    if from == argument.len() {
        let tail = seq![QUOTE] + rest;
        assert(whole =~= backslashes(2 * run) + tail);
        lemma_read_backslashes(2 * run, tail, true, 0, read);
        assert(tail.skip(1) =~= rest);
        assert((2 * run) / 2 == run);
        assert((2 * run) % 2 == 0);
        assert(read + backslashes(run) + argument.skip(from) =~= read + backslashes(run));
    } else if argument[from] == BACKSLASH {
        lemma_read_escaped(argument, from + 1, run + 1, rest, read);
        assert(read + backslashes(run + 1) + argument.skip(from + 1) =~= read + backslashes(run)
            + argument.skip(from));
    } else {
        let later = escaped(argument, from + 1, 0) + seq![QUOTE] + rest;
        let c = argument[from];
        if c == QUOTE {
            let tail = seq![QUOTE] + later;
            assert(whole =~= backslashes(2 * run + 1) + tail);
            lemma_read_backslashes(2 * run + 1, tail, true, 0, read);
            assert(tail.skip(1) =~= later);
            assert((2 * run + 1) / 2 == run);
            assert((2 * run + 1) % 2 == 1);
            let now = read + backslashes(run) + seq![QUOTE];
            lemma_read_escaped(argument, from + 1, 0, rest, now);
            assert(now + backslashes(0) + argument.skip(from + 1) =~= read + backslashes(run)
                + argument.skip(from));
        } else {
            let tail = seq![c] + later;
            assert(whole =~= backslashes(run) + tail);
            lemma_read_backslashes(run, tail, true, 0, read);
            assert(tail.skip(1) =~= later);
            let now = read + backslashes(run) + seq![c];
            lemma_read_escaped(argument, from + 1, 0, rest, now);
            assert(now + backslashes(0) + argument.skip(from + 1) =~= read + backslashes(run)
                + argument.skip(from));
        }
    }
}

proof fn lemma_read_plain(
    argument: Seq<u16>,
    from: int,
    run: nat,
    rest: Seq<u16>,
    read: Seq<u16>,
)
    requires
        0 <= from <= argument.len(),
        is_plain(argument),
        rest.len() == 0 || parts_arguments(rest[0]),
    ensures
        read_argument(argument.skip(from) + rest, false, run, read) == (
            read + backslashes(run) + argument.skip(from),
            rest,
        ),
    decreases argument.len() - from,
{
    let whole = argument.skip(from) + rest;
    if from == argument.len() {
        assert(whole =~= rest);
        assert(read + backslashes(run) + argument.skip(from) =~= read + backslashes(run));
    } else {
        let c = argument[from];
        assert(whole[0] == c);
        assert(whole.skip(1) =~= argument.skip(from + 1) + rest);
        if c == BACKSLASH {
            lemma_read_plain(argument, from + 1, run + 1, rest, read);
            assert(read + backslashes(run + 1) + argument.skip(from + 1) =~= read + backslashes(
                run,
            ) + argument.skip(from));
        } else {
            let now = read + backslashes(run) + seq![c];
            lemma_read_plain(argument, from + 1, 0, rest, now);
            assert(now + backslashes(0) + argument.skip(from + 1) =~= read + backslashes(run)
                + argument.skip(from));
        }
    }
}

/// An argument is read back from a command line as it was written, whatever it holds,
/// where the command line ends behind it or goes on with what parts arguments.
pub proof fn law_quoted_arguments_are_read_back(argument: Seq<u16>, rest: Seq<u16>)
    requires
        rest.len() == 0 || parts_arguments(rest[0]),
    ensures
        read_argument(quoted(argument) + rest, false, 0, Seq::empty()) == (argument, rest),
{
    let none = Seq::<u16>::empty();
    if is_plain(argument) {
        lemma_read_plain(argument, 0, 0, rest, none);
        assert(argument.skip(0) =~= argument);
        assert(none + backslashes(0) + argument =~= argument);
    } else {
        let whole = quoted(argument) + rest;
        let inner = escaped(argument, 0, 0) + seq![QUOTE] + rest;
        assert(whole =~= seq![QUOTE] + inner);
        assert(whole[0] == QUOTE);
        assert(whole.skip(1) =~= inner);
        assert(none + backslashes(0) =~= none);
        lemma_read_escaped(argument, 0, 0, rest, none);
        assert(argument.skip(0) =~= argument);
        assert(none + backslashes(0) + argument =~= argument);
        assert(argument + backslashes(0) =~= argument);
    }
}

proof fn lemma_joined_splits(
    program: Seq<u16>,
    arguments: Seq<Seq<u16>>,
    count: nat,
)
    requires
        0 < count <= arguments.len(),
    ensures
        joined(program, arguments, count) == quoted(program) + seq![SPACE] + joined(
            arguments[0],
            arguments.skip(1),
            (count - 1) as nat,
        ),
    decreases count,
{
    let tail = arguments.skip(1);
    if count == 1 {
        assert(joined(program, arguments, 0) == quoted(program));
    } else {
        lemma_joined_splits(program, arguments, (count - 1) as nat);
        assert(tail[count - 2] == arguments[count - 1]);
        assert(joined(program, arguments, count) =~= quoted(program) + seq![SPACE] + joined(
            arguments[0],
            tail,
            (count - 1) as nat,
        ));
    }
}

/// The whole command line is read back: first the program, then the arguments.
pub proof fn law_command_lines_are_read_back(program: Seq<u16>, arguments: Seq<Seq<u16>>)
    ensures
        read_arguments(joined(program, arguments, arguments.len())) == seq![program] + arguments,
    decreases arguments.len(),
{
    let line = joined(program, arguments, arguments.len());
    if arguments.len() == 0 {
        let none = Seq::<u16>::empty();
        law_quoted_arguments_are_read_back(program, none);
        assert(quoted(program) + none =~= line);
        assert(seq![program] + arguments =~= seq![program]);
    } else {
        let tail = arguments.skip(1);
        lemma_joined_splits(program, arguments, arguments.len());
        let later = joined(arguments[0], tail, tail.len());
        let rest = seq![SPACE] + later;
        assert(line =~= quoted(program) + rest);
        law_quoted_arguments_are_read_back(program, rest);
        assert(rest.skip(1) =~= later);
        law_command_lines_are_read_back(arguments[0], tail);
        assert(seq![program] + (seq![arguments[0]] + tail) =~= seq![program] + arguments);
    }
}

// ---------------------------------------------------------------------------
// Waiting
// ---------------------------------------------------------------------------

/// Milliseconds to wait: at least one, and less than what stands for without end.
pub fn duration_to_wait_ms(millis: u128) -> (wait: u32)
    ensures
        wait == if millis < 1 {
            1int
        } else if millis > u32::MAX - 1 {
            u32::MAX - 1
        } else {
            millis as int
        },
{
    if millis < 1 {
        1
    } else if millis > 4_294_967_294 {
        4_294_967_294
    } else {
        millis as u32
    }
}

/// How a wait ended.
#[derive(Clone, Copy, Debug, PartialEq, Eq, Structural)]
pub enum WaitResult {
    Signaled,
    TimedOut,
    Failed,
}

/// Why a worker gave no output.
#[derive(Clone, Copy, Debug, PartialEq, Eq, Structural)]
pub enum ProcessError {
    StartFailed,
    ContainmentFailed,
    IoFailed,
    TimedOut,
}

/// Why a worker gave no output, and whether it had started.
#[derive(Clone, Copy, Debug, PartialEq, Eq, Structural)]
pub struct ProcessFailure {
    pub error: ProcessError,
    pub started: bool,
}

impl ProcessFailure {
    /// A failure of a worker that did not start.
    pub fn before_start(error: ProcessError) -> (failure: Self)
        ensures
            failure == (ProcessFailure { error, started: false }),
    {
        ProcessFailure { error, started: false }
    }

    /// A failure of a worker that had started.
    pub fn after_start(error: ProcessError) -> (failure: Self)
        ensures
            failure == (ProcessFailure { error, started: true }),
    {
        ProcessFailure { error, started: true }
    }
}

// ---------------------------------------------------------------------------
// Running
// ---------------------------------------------------------------------------

/// What is known so far of a worker that is run. Each part is there once the step that
/// finds it out has been made.
#[derive(Clone, Copy, Debug, PartialEq, Eq)]
pub struct ProcessFacts {
    pub job_ready: Option<bool>,
    pub pipes_ready: Option<bool>,
    pub handles_listed: Option<bool>,
    pub created: Option<bool>,
    pub process_handle: Option<bool>,
    pub thread_handle: Option<bool>,
    pub assigned: Option<bool>,
    pub resumed: Option<bool>,
    pub waited: Option<WaitResult>,
    pub exit_code_read: Option<bool>,
    /// How many processes are left in the job, where that can be told.
    pub active: Option<Option<u32>>,
    pub cleared: Option<bool>,
    /// Whether the worker, with all that it started, was seen to end when it was stopped.
    pub stopped: Option<bool>,
    pub written: Option<bool>,
    pub read: Option<bool>,
}

impl ProcessFacts {
    /// Nothing is known yet.
    pub fn new() -> (facts: Self)
        ensures
            facts == nothing_known(),
    {
        ProcessFacts {
            job_ready: None,
            pipes_ready: None,
            handles_listed: None,
            created: None,
            process_handle: None,
            thread_handle: None,
            assigned: None,
            resumed: None,
            waited: None,
            exit_code_read: None,
            active: None,
            cleared: None,
            stopped: None,
            written: None,
            read: None,
        }
    }
}

/// Nothing is known.
pub open spec fn nothing_known() -> ProcessFacts {
    ProcessFacts {
        job_ready: None,
        pipes_ready: None,
        handles_listed: None,
        created: None,
        process_handle: None,
        thread_handle: None,
        assigned: None,
        resumed: None,
        waited: None,
        exit_code_read: None,
        active: None,
        cleared: None,
        stopped: None,
        written: None,
        read: None,
    }
}

/// What is to be done next.
#[derive(Clone, Copy, Debug, PartialEq, Eq, Structural)]
pub enum ProcessStep {
    CreateJob,
    CreatePipes,
    ListHandles,
    CreateProcess,
    TakeProcess,
    TakeThread,
    Assign,
    Resume,
    Wait,
    ReadExitCode,
    CountActive,
    ClearJob,
    /// Stops the worker alone: it is not in the job.
    StopProcess,
    /// Stops the worker with all that it started.
    StopJob,
    FinishWriting,
    FinishReading,
    Fail(ProcessFailure),
    Succeed,
}

/// A failure of a worker that did not start.
pub open spec fn not_started(error: ProcessError) -> ProcessStep {
    ProcessStep::Fail(ProcessFailure { error, started: false })
}

/// A failure of a worker that had started.
pub open spec fn had_started(error: ProcessError) -> ProcessStep {
    ProcessStep::Fail(ProcessFailure { error, started: true })
}

/// The failure of a worker that was stopped; where it was not seen to end, that weighs
/// more.
pub open spec fn after_stop(step: ProcessStep, stopped: Option<bool>, error: ProcessError) -> ProcessStep {
    match stopped {
        None => step,
        Some(false) => had_started(ProcessError::ContainmentFailed),
        Some(true) => had_started(error),
    }
}

impl ProcessFacts {
    /// The step that follows from what is known.
    pub open spec fn next(self) -> ProcessStep {
        match self.job_ready {
            None => ProcessStep::CreateJob,
            Some(false) => not_started(ProcessError::ContainmentFailed),
            Some(true) => match self.pipes_ready {
                None => ProcessStep::CreatePipes,
                Some(false) => not_started(ProcessError::IoFailed),
                Some(true) => match self.handles_listed {
                    None => ProcessStep::ListHandles,
                    Some(false) => not_started(ProcessError::StartFailed),
                    Some(true) => match self.created {
                        None => ProcessStep::CreateProcess,
                        Some(false) => not_started(ProcessError::StartFailed),
                        Some(true) => self.next_started(),
                    },
                },
            },
        }
    }

    /// The step that follows once the worker was created.
    pub open spec fn next_started(self) -> ProcessStep {
        match self.process_handle {
            None => ProcessStep::TakeProcess,
            Some(false) => had_started(ProcessError::StartFailed),
            Some(true) => match self.thread_handle {
                None => ProcessStep::TakeThread,
                Some(false) => after_stop(
                    ProcessStep::StopProcess,
                    self.stopped,
                    ProcessError::StartFailed,
                ),
                Some(true) => match self.assigned {
                    None => ProcessStep::Assign,
                    Some(false) => after_stop(
                        ProcessStep::StopProcess,
                        self.stopped,
                        ProcessError::ContainmentFailed,
                    ),
                    Some(true) => match self.resumed {
                        None => ProcessStep::Resume,
                        Some(false) => after_stop(
                            ProcessStep::StopJob,
                            self.stopped,
                            ProcessError::ContainmentFailed,
                        ),
                        Some(true) => self.next_running(),
                    },
                },
            },
        }
    }

    /// The step that follows once the worker runs.
    pub open spec fn next_running(self) -> ProcessStep {
        match self.waited {
            None => ProcessStep::Wait,
            Some(WaitResult::TimedOut) => after_stop(
                ProcessStep::StopJob,
                self.stopped,
                ProcessError::TimedOut,
            ),
            Some(WaitResult::Failed) => after_stop(
                ProcessStep::StopJob,
                self.stopped,
                ProcessError::IoFailed,
            ),
            Some(WaitResult::Signaled) => match self.exit_code_read {
                None => ProcessStep::ReadExitCode,
                Some(false) => after_stop(
                    ProcessStep::StopJob,
                    self.stopped,
                    ProcessError::IoFailed,
                ),
                Some(true) => match self.active {
                    None => ProcessStep::CountActive,
                    Some(None) => had_started(ProcessError::ContainmentFailed),
                    Some(Some(count)) => if count > 0 && self.cleared is None {
                        ProcessStep::ClearJob
                    } else if count > 0 && self.cleared == Some(false) {
                        had_started(ProcessError::ContainmentFailed)
                    } else {
                        match self.written {
                            None => ProcessStep::FinishWriting,
                            Some(false) => had_started(ProcessError::IoFailed),
                            Some(true) => match self.read {
                                None => ProcessStep::FinishReading,
                                Some(false) => had_started(ProcessError::IoFailed),
                                Some(true) => ProcessStep::Succeed,
                            },
                        }
                    },
                },
            },
        }
    }

    fn stop_first(&self, step: ProcessStep, error: ProcessError) -> (next: ProcessStep)
        ensures
            next == after_stop(step, self.stopped, error),
    {
        match self.stopped {
            None => step,
            Some(stopped) => {
                if stopped {
                    ProcessStep::Fail(ProcessFailure::after_start(error))
                } else {
                    ProcessStep::Fail(ProcessFailure::after_start(ProcessError::ContainmentFailed))
                }
            },
        }
    }

    /// Decides what is to be done next, from what is known.
    pub fn next_step(&self) -> (step: ProcessStep)
        ensures
            step == self.next(),
    {
        match self.job_ready {
            None => {
                return ProcessStep::CreateJob;
            },
            Some(ready) => {
                if !ready {
                    return ProcessStep::Fail(
                        ProcessFailure::before_start(ProcessError::ContainmentFailed),
                    );
                }
            },
        }
        match self.pipes_ready {
            None => {
                return ProcessStep::CreatePipes;
            },
            Some(ready) => {
                if !ready {
                    return ProcessStep::Fail(ProcessFailure::before_start(ProcessError::IoFailed));
                }
            },
        }
        match self.handles_listed {
            None => {
                return ProcessStep::ListHandles;
            },
            Some(listed) => {
                if !listed {
                    return ProcessStep::Fail(
                        ProcessFailure::before_start(ProcessError::StartFailed),
                    );
                }
            },
        }
        match self.created {
            None => ProcessStep::CreateProcess,
            Some(created) => {
                if created {
                    self.started_step()
                } else {
                    ProcessStep::Fail(ProcessFailure::before_start(ProcessError::StartFailed))
                }
            },
        }
    }

    fn started_step(&self) -> (step: ProcessStep)
        ensures
            step == self.next_started(),
    {
        match self.process_handle {
            None => {
                return ProcessStep::TakeProcess;
            },
            Some(taken) => {
                if !taken {
                    return ProcessStep::Fail(
                        ProcessFailure::after_start(ProcessError::StartFailed),
                    );
                }
            },
        }
        match self.thread_handle {
            None => {
                return ProcessStep::TakeThread;
            },
            Some(taken) => {
                if !taken {
                    return self.stop_first(ProcessStep::StopProcess, ProcessError::StartFailed);
                }
            },
        }
        match self.assigned {
            None => {
                return ProcessStep::Assign;
            },
            Some(assigned) => {
                if !assigned {
                    return self.stop_first(
                        ProcessStep::StopProcess,
                        ProcessError::ContainmentFailed,
                    );
                }
            },
        }
        match self.resumed {
            None => ProcessStep::Resume,
            Some(resumed) => {
                if resumed {
                    self.running_step()
                } else {
                    self.stop_first(ProcessStep::StopJob, ProcessError::ContainmentFailed)
                }
            },
        }
    }

    fn running_step(&self) -> (step: ProcessStep)
        ensures
            step == self.next_running(),
    {
        match self.waited {
            None => {
                return ProcessStep::Wait;
            },
            Some(WaitResult::TimedOut) => {
                return self.stop_first(ProcessStep::StopJob, ProcessError::TimedOut);
            },
            Some(WaitResult::Failed) => {
                return self.stop_first(ProcessStep::StopJob, ProcessError::IoFailed);
            },
            Some(WaitResult::Signaled) => {},
        }
        match self.exit_code_read {
            None => {
                return ProcessStep::ReadExitCode;
            },
            Some(known) => {
                if !known {
                    return self.stop_first(ProcessStep::StopJob, ProcessError::IoFailed);
                }
            },
        }
        match self.active {
            None => {
                return ProcessStep::CountActive;
            },
            Some(None) => {
                return ProcessStep::Fail(
                    ProcessFailure::after_start(ProcessError::ContainmentFailed),
                );
            },
            Some(Some(count)) => {
                if count > 0 {
                    match self.cleared {
                        None => {
                            return ProcessStep::ClearJob;
                        },
                        Some(cleared) => {
                            if !cleared {
                                return ProcessStep::Fail(
                                    ProcessFailure::after_start(ProcessError::ContainmentFailed),
                                );
                            }
                        },
                    }
                }
            },
        }
        match self.written {
            None => {
                return ProcessStep::FinishWriting;
            },
            Some(written) => {
                if !written {
                    return ProcessStep::Fail(ProcessFailure::after_start(ProcessError::IoFailed));
                }
            },
        }
        match self.read {
            None => ProcessStep::FinishReading,
            Some(read) => {
                if read {
                    ProcessStep::Succeed
                } else {
                    ProcessStep::Fail(ProcessFailure::after_start(ProcessError::IoFailed))
                }
            },
        }
    }
}

/// A worker succeeds only where it ran in its job, ended by itself, and left nothing
/// running.
pub proof fn law_successes_are_contained(facts: ProcessFacts)
    requires
        facts.next() == ProcessStep::Succeed,
    ensures
        facts.assigned == Some(true),
        facts.waited == Some(WaitResult::Signaled),
        facts.active matches Some(Some(count)) && (count == 0 || facts.cleared == Some(true)),
{
}

/// A worker never runs outside its job: it is let run only after it was put into it.
pub proof fn law_workers_run_only_contained(facts: ProcessFacts)
    requires
        facts.next() == ProcessStep::Resume || facts.next() == ProcessStep::Wait,
    ensures
        facts.job_ready == Some(true),
        facts.assigned == Some(true),
{
}

/// That the time was up is reported only of a worker that was seen to end.
pub proof fn law_timeouts_are_stopped(facts: ProcessFacts)
    requires
        facts.next() == had_started(ProcessError::TimedOut),
    ensures
        facts.stopped == Some(true),
{
}

/// A failure says that the worker started exactly where it was created.
pub proof fn law_failures_tell_whether_it_started(facts: ProcessFacts)
    requires
        facts.next() is Fail,
        facts.created is Some ==> facts.job_ready == Some(true) && facts.pipes_ready == Some(true)
            && facts.handles_listed == Some(true),
    ensures
        (facts.next()->Fail_0).started == (facts.created == Some(true)),
{
}

// ---------------------------------------------------------------------------
// Memory
// ---------------------------------------------------------------------------

/// What is told of the memory of a worker: nothing where it did not start, and nothing
/// certain where it was not in its job.
pub fn observed_peak(started: bool, contained: bool, peak: Option<u64>) -> (told: Option<
    Option<u64>,
>)
    ensures
        told == if !started {
            None::<Option<u64>>
        } else if contained {
            Some(peak)
        } else {
            Some(None::<u64>)
        },
{
    if !started {
        None
    } else if contained {
        Some(peak)
    } else {
        Some(None)
    }
}

/// An argument with nothing to quote stands as it is; any other stands between quotes, and
/// unchanged there where it has neither a quote nor a backslash.
pub proof fn law_arguments_are_quoted_where_they_must_be(argument: Seq<u16>)
    ensures
        (argument.len() > 0 && forall|i: int|
            0 <= i < argument.len() ==> #[trigger] argument[i] != 32 && argument[i] != 9
                && argument[i] != 34) ==> quoted(argument) == argument,
        (argument.len() == 0 || argument.contains(32) || argument.contains(9)
            || argument.contains(34)) ==> quoted(argument).len() >= 2 && quoted(argument)[0] == 34
            && quoted(argument).last() == 34,
        argument.len() == 0 ==> quoted(argument) == seq![34u16, 34u16],
        (argument.contains(32) || argument.contains(9)) && !argument.contains(34)
            && !argument.contains(92) ==> quoted(argument) == seq![34u16] + argument + seq![34u16],
{
    let c = if argument.contains(32) {
        32u16
    } else if argument.contains(9) {
        9u16
    } else {
        34u16
    };
    if argument.contains(c) {
        let at = choose|i: int| 0 <= i < argument.len() && argument[i] == c;
        assert(argument[at] == c);
    }
    if !argument.contains(34) && !argument.contains(92) {
        lemma_nothing_to_escape(argument, 0);
        assert(argument.skip(0) =~= argument);
    }
    if argument.len() == 0 {
        assert(backslashes(0) =~= Seq::<u16>::empty());
        assert(quoted(argument) =~= seq![34u16, 34u16]);
    }
}

proof fn lemma_nothing_to_escape(argument: Seq<u16>, from: int)
    requires
        0 <= from <= argument.len(),
        !argument.contains(34),
        !argument.contains(92),
    ensures
        escaped(argument, from, 0) == argument.skip(from),
    decreases argument.len() - from,
{
    assert(backslashes(0) =~= Seq::<u16>::empty());
    if from < argument.len() {
        assert(argument.contains(argument[from]));
        lemma_nothing_to_escape(argument, from + 1);
        assert(backslashes(0) + seq![argument[from]] + argument.skip(from + 1) =~= argument.skip(
            from,
        ));
    } else {
        assert(escaped(argument, from, 0) =~= argument.skip(from));
    }
}

proof fn lemma_run_of_backslashes(argument: Seq<u16>, from: int, count: nat, run: nat)
    requires
        0 <= from,
        from + count <= argument.len(),
        forall|i: int| from <= i < from + count ==> #[trigger] argument[i] == 92,
    ensures
        escaped(argument, from, run) == escaped(argument, from + count, run + count),
    decreases count,
{
    if count > 0 {
        assert(argument[from] == 92);
        lemma_run_of_backslashes(argument, from + 1, (count - 1) as nat, run + 1);
    }
}

/// Backslashes are doubled where a quote follows, with one more for the quote itself, and
/// where the argument ends; before any other character they stand as they are.
pub proof fn law_backslashes_are_doubled_before_quotes(count: nat, c: u16)
    requires
        c != 92,
    ensures
        ({
            let run = Seq::new(count, |i: int| 92u16);
            let doubled = Seq::new(2 * count, |i: int| 92u16);
            &&& escaped(run, 0, 0) == doubled
            &&& escaped(run.push(34), 0, 0) == doubled.push(92).push(34)
            &&& c != 34 ==> escaped(run.push(c), 0, 0) == run.push(c)
        }),
{
    let run = Seq::new(count, |i: int| 92u16);
    let doubled = Seq::new(2 * count, |i: int| 92u16);
    lemma_run_of_backslashes(run, 0, count, 0);
    assert(escaped(run, 0, 0) =~= doubled);
    lemma_run_of_backslashes(run.push(34), 0, count, 0);
    assert(run.push(34)[count as int] == 34);
    assert(escaped(run.push(34), count as int + 1, 0) =~= Seq::<u16>::empty());
    assert(escaped(run.push(34), 0, 0) =~= doubled.push(92).push(34));
    if c != 34 {
        lemma_run_of_backslashes(run.push(c), 0, count, 0);
        assert(run.push(c)[count as int] == c);
        assert(escaped(run.push(c), count as int + 1, 0) =~= Seq::<u16>::empty());
        assert(escaped(run.push(c), 0, 0) =~= run.push(c));
    }
}

/// The program comes first, and each argument stands behind a space.
pub proof fn law_arguments_are_parted_by_spaces(
    program: Seq<u16>,
    arguments: Seq<Seq<u16>>,
    count: nat,
)
    ensures
        joined(program, arguments, 0) == quoted(program),
        joined(program, arguments, count + 1) == joined(program, arguments, count) + seq![32u16]
            + quoted(arguments[count as int]),
{
}

/// Each step of a process is taken once, after those that it rests on went well.
pub proof fn law_process_steps_come_in_order(facts: ProcessFacts)
    ensures
        ({
            let step = facts.next();
            let prepared = facts.job_ready == Some(true) && facts.pipes_ready == Some(true)
                && facts.handles_listed == Some(true);
            let created = prepared && facts.created == Some(true);
            let taken = created && facts.process_handle == Some(true) && facts.thread_handle
                == Some(true);
            let running = taken && facts.assigned == Some(true) && facts.resumed == Some(true);
            let ended = running && facts.waited == Some(WaitResult::Signaled)
                && facts.exit_code_read == Some(true);
            &&& step is CreateJob <==> facts.job_ready is None
            &&& step is CreatePipes ==> facts.job_ready == Some(true) && facts.pipes_ready is None
            &&& step is ListHandles ==> facts.pipes_ready == Some(true)
                && facts.handles_listed is None
            &&& step is CreateProcess ==> prepared && facts.created is None
            &&& step is TakeProcess ==> created && facts.process_handle is None
            &&& step is TakeThread ==> created && facts.process_handle == Some(true)
                && facts.thread_handle is None
            &&& step is Assign ==> taken && facts.assigned is None
            &&& step is Resume ==> taken && facts.assigned == Some(true) && facts.resumed is None
            &&& step is Wait ==> running && facts.waited is None
            &&& step is ReadExitCode ==> running && facts.waited == Some(WaitResult::Signaled)
                && facts.exit_code_read is None
            &&& step is CountActive ==> ended && facts.active is None
            &&& step is ClearJob ==> ended && facts.cleared is None && facts.active is Some
                && facts.active->0 is Some && facts.active->0->0 > 0
            &&& step is StopProcess ==> created && facts.stopped is None && (facts.thread_handle
                == Some(false) || facts.assigned == Some(false))
            &&& step is StopJob ==> taken && facts.assigned == Some(true) && facts.stopped is None
            &&& step is FinishWriting ==> ended && facts.written is None
            &&& step is FinishReading ==> ended && facts.written == Some(true)
                && facts.read is None
            &&& step is Succeed ==> ended && facts.written == Some(true) && facts.read == Some(
                true,
            )
        }),
{
}

/// A process that failed is told by what failed: what holds it, its pipes, its start, its
/// time or its output.
pub proof fn law_process_failures_are_told_apart(facts: ProcessFacts, failure: ProcessFailure)
    requires
        facts.next() == ProcessStep::Fail(failure),
    ensures
        facts.job_ready == Some(false) ==> failure.error == ProcessError::ContainmentFailed,
        facts.job_ready == Some(true) && facts.pipes_ready == Some(false) ==> failure.error
            == ProcessError::IoFailed,
        facts.job_ready == Some(true) && facts.pipes_ready == Some(true) && (facts.handles_listed
            == Some(false) || facts.created == Some(false)) ==> failure.error
            == ProcessError::StartFailed,
        failure.error == ProcessError::TimedOut ==> facts.waited == Some(WaitResult::TimedOut)
            && failure.started,
        facts.created == Some(true) && facts.process_handle == Some(true) && facts.thread_handle
            == Some(true) && facts.assigned == Some(true) && facts.resumed == Some(true)
            && facts.job_ready == Some(true) && facts.pipes_ready == Some(true)
            && facts.handles_listed == Some(true) ==> {
            &&& facts.waited == Some(WaitResult::TimedOut) ==> failure.error == (
            if facts.stopped == Some(true) {
                ProcessError::TimedOut
            } else {
                ProcessError::ContainmentFailed
            })
            &&& facts.waited == Some(WaitResult::Failed) && facts.stopped == Some(true)
                ==> failure.error == ProcessError::IoFailed
            &&& facts.waited == Some(WaitResult::Signaled) && facts.exit_code_read == Some(true)
                && (facts.written == Some(false) && facts.active == Some(Some(0u32)))
                ==> failure.error == ProcessError::IoFailed
        },
{
}

/// A process whose every step went well has succeeded.
pub proof fn law_processes_that_went_well_succeed(facts: ProcessFacts)
    requires
        facts.job_ready == Some(true),
        facts.pipes_ready == Some(true),
        facts.handles_listed == Some(true),
        facts.created == Some(true),
        facts.process_handle == Some(true),
        facts.thread_handle == Some(true),
        facts.assigned == Some(true),
        facts.resumed == Some(true),
        facts.waited == Some(WaitResult::Signaled),
        facts.exit_code_read == Some(true),
        facts.active is Some && facts.active->0 is Some,
        facts.active->0->0 > 0 ==> facts.cleared == Some(true),
        facts.written == Some(true),
        facts.read == Some(true),
    ensures
        facts.next() is Succeed,
{
}

/// A wait is as long as it was asked for, but neither none nor without end.
pub proof fn law_waits_are_as_long_as_asked(millis: u128, wait: u32)
    requires
        call_ensures(duration_to_wait_ms, (millis,), wait),
    ensures
        1 <= wait < u32::MAX,
        1 <= millis < u32::MAX ==> wait == millis,
        millis >= u32::MAX ==> wait == u32::MAX - 1,
{
}

/// The memory of a worker is told exactly where it started, and is certain only where it was
/// in its job.
pub proof fn law_memory_is_told_of_started_workers(
    started: bool,
    contained: bool,
    peak: Option<u64>,
    told: Option<Option<u64>>,
)
    requires
        call_ensures(observed_peak, (started, contained, peak), told),
    ensures
        told is Some <==> started,
        started && contained ==> told == Some(peak),
        started && !contained ==> told == Some(None::<u64>),
{
}

} // verus!
