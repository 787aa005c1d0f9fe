use vstd::prelude::*;
use crate::config::{copy_texts, texts, TypeExec};
use crate::text::text_eq;

verus! {

/// The builtin collectors that run in-process.
#[derive(Debug, Clone, Copy, PartialEq, Eq, Structural)]
pub enum Collector {
    ProcInfo,
    ProcDetailsInfo,
    PortsInfo,
}

impl Collector {
    pub open spec fn spec_from_name(s: Seq<char>) -> Option<Collector> {
        if s == "ProcInfo"@ {
            Some(Collector::ProcInfo)
        } else if s == "ProcDetailsInfo"@ {
            Some(Collector::ProcDetailsInfo)
        } else if s == "PortsInfo"@ {
            Some(Collector::PortsInfo)
        } else {
            None
        }
    }

    /// The collector registered under `s`, if any.
    pub fn from_name(s: &str) -> (r: Option<Collector>)
        ensures
            r == Self::spec_from_name(s@),
    {
        if text_eq(s, "ProcInfo") {
            Some(Collector::ProcInfo)
        } else if text_eq(s, "ProcDetailsInfo") {
            Some(Collector::ProcDetailsInfo)
        } else if text_eq(s, "PortsInfo") {
            Some(Collector::PortsInfo)
        } else {
            None
        }
    }
}

/// Why an entry did not fully succeed.
#[derive(Debug, Clone, Copy, PartialEq, Eq, Structural)]
pub enum ExecError {
    PayloadNotFound,
    StagingPathMissing,
    StagingFailed,
    SpawnFailed,
    ProcessWaitFailed,
    OutputWriteFailed,
    CollectorNotFound,
}

/// Picks the builtin collector for an internal entry; `output_filename` is
/// where it is to write.
pub fn run_internal(tool_name: &str, output_filename: &str) -> (r: Result<(Collector, String), ExecError>)
    ensures
        match Collector::spec_from_name(tool_name@) {
            Some(c) => r is Ok && r->Ok_0.0 == c && r->Ok_0.1@ == output_filename@,
            None => r == Err::<(Collector, String), ExecError>(ExecError::CollectorNotFound),
        },
{
    match Collector::from_name(tool_name) {
        Some(c) => Ok((c, String::from_str(output_filename))),
        None => Err(ExecError::CollectorNotFound),
    }
}

/// The payload filed under `name` in `table`; the first match wins.
pub open spec fn find_payload(table: Seq<(Seq<char>, Seq<u8>)>, name: Seq<char>) -> Option<Seq<u8>>
    decreases table.len(),
{
    if table.len() == 0 {
        None
    } else {
        match find_payload(table.drop_last(), name) {
            Some(b) => Some(b),
            None => if table.last().0 == name {
                Some(table.last().1)
            } else {
                None
            },
        }
    }
}

pub open spec fn payload_table_view(t: Seq<(String, Vec<u8>)>) -> Seq<(Seq<char>, Seq<u8>)> {
    t.map_values(|e: (String, Vec<u8>)| (e.0@, e.1@))
}

/// Looks `name` up in the table of compiled-in payloads.
pub fn get_bin(name: &String, table: &Vec<(String, Vec<u8>)>) -> (r: Result<Vec<u8>, ExecError>)
    ensures
        match find_payload(payload_table_view(table@), name@) {
            Some(b) => r is Ok && r->Ok_0@ == b,
            None => r == Err::<Vec<u8>, ExecError>(ExecError::PayloadNotFound),
        },
{
    let ghost t = payload_table_view(table@);
    let mut i: usize = 0;
    while i < table.len()
        invariant
            i <= table.len(),
            t == payload_table_view(table@),
            t.len() == table@.len(),
            find_payload(t.take(i as int), name@) is None,
        decreases table.len() - i,
    {
        assert(t.take(i + 1).drop_last() == t.take(i as int));
        assert(t.take(i + 1).last() == t[i as int]);
        if table[i].0 == *name {
            let bytes = table[i].1.clone();
            assert(bytes@ == table[i as int].1@);
            proof {
                lemma_find_payload_extend(t, name@, i + 1);
            }
            return Ok(bytes);
        }
        i = i + 1;
    }
    assert(t.take(table.len() as int) == t);
    Err(ExecError::PayloadNotFound)
}

/// The payload for an external entry: the compiled-in table first, then the
/// payload read from the running executable's resources.
pub fn resolve_payload(
    name: &String,
    table: &Vec<(String, Vec<u8>)>,
    resource: Option<Vec<u8>>,
) -> (r: Result<Vec<u8>, ExecError>)
    ensures
        match find_payload(payload_table_view(table@), name@) {
            Some(b) => r is Ok && r->Ok_0@ == b,
            None => match resource {
                Some(b) => r is Ok && r->Ok_0@ == b@,
                None => r == Err::<Vec<u8>, ExecError>(ExecError::PayloadNotFound),
            },
        },
{
    match get_bin(name, table) {
        Ok(bytes) => Ok(bytes),
        Err(e) => match resource {
            Some(bytes) => Ok(bytes),
            None => Err(e),
        },
    }
}

proof fn lemma_find_payload_extend(t: Seq<(Seq<char>, Seq<u8>)>, name: Seq<char>, i: int)
    requires
        0 < i <= t.len(),
        find_payload(t.take(i), name) is Some,
    ensures
        find_payload(t, name) == find_payload(t.take(i), name),
    decreases t.len() - i,
{
    if i < t.len() {
        assert(t.take(i + 1).drop_last() == t.take(i));
        lemma_find_payload_extend(t, name, i + 1);
    } else {
        assert(t.take(i) == t);
    }
}


/// Where an entry's run stands.
#[derive(Debug, Clone, Copy, PartialEq, Eq, Structural)]
pub enum Phase {
    Staging,
    Running,
    Saving,
    CleaningUp,
    Collecting,
    Finished,
}

/// What the host is asked to do next for an entry.
#[derive(Debug, PartialEq, Eq)]
pub enum Action {
    /// Create or truncate the file at `path` and write `bytes` to it.
    Stage { path: String, bytes: Vec<u8> },
    /// Start `program` with `args`, capture its output and wait for it.
    Spawn { program: String, args: Vec<String> },
    /// Create or truncate the file at `path`, write `bytes` and flush.
    Save { path: String, bytes: Vec<u8> },
    /// Delete the file at `path` if it exists.
    Remove { path: String },
    /// Run a builtin collector that writes to `path`.
    Collect { collector: Collector, path: String },
    /// The entry is over; `cleanup_failed` reports a temp file left behind.
    Finish { result: Result<(), ExecError>, cleanup_failed: bool },
}

/// What the host reports back after performing an action.
#[derive(Debug, PartialEq, Eq)]
pub enum Event {
    Staged { created: bool, written: bool },
    SpawnFailed,
    WaitFailed,
    Exited { code: Option<i32>, stdout: Vec<u8> },
    Saved { ok: bool },
    Removed { ok: bool },
    Collected,
}

/// The state of one entry's run.
#[derive(Debug)]
pub struct EntryRun {
    pub exec_type: TypeExec,
    pub program: String,
    pub args: Vec<String>,
    pub output_file: String,
    pub temp_path: Option<String>,
    pub phase: Phase,
    pub error: Option<ExecError>,
}

pub ghost enum ActionView {
    Stage { path: Seq<char>, bytes: Seq<u8> },
    Spawn { program: Seq<char>, args: Seq<Seq<char>> },
    Save { path: Seq<char>, bytes: Seq<u8> },
    Remove { path: Seq<char> },
    Collect { collector: Collector, path: Seq<char> },
    Finish { result: Result<(), ExecError>, cleanup_failed: bool },
}

pub ghost enum EventView {
    Staged { created: bool, written: bool },
    SpawnFailed,
    WaitFailed,
    Exited { code: Option<i32>, stdout: Seq<u8> },
    Saved { ok: bool },
    Removed { ok: bool },
    Collected,
}

pub ghost struct RunView {
    pub exec_type: TypeExec,
    pub program: Seq<char>,
    pub args: Seq<Seq<char>>,
    pub output_file: Seq<char>,
    pub temp_path: Option<Seq<char>>,
    pub phase: Phase,
    pub error: Option<ExecError>,
}

impl View for Action {
    type V = ActionView;

    open spec fn view(&self) -> ActionView {
        match self {
            Action::Stage { path, bytes } => ActionView::Stage { path: path@, bytes: bytes@ },
            Action::Spawn { program, args } => ActionView::Spawn { program: program@, args: texts(args@) },
            Action::Save { path, bytes } => ActionView::Save { path: path@, bytes: bytes@ },
            Action::Remove { path } => ActionView::Remove { path: path@ },
            Action::Collect { collector, path } => ActionView::Collect { collector: *collector, path: path@ },
            Action::Finish { result, cleanup_failed } => ActionView::Finish {
                result: *result,
                cleanup_failed: *cleanup_failed,
            },
        }
    }
}

impl View for Event {
    type V = EventView;

    open spec fn view(&self) -> EventView {
        match self {
            Event::Staged { created, written } => EventView::Staged { created: *created, written: *written },
            Event::SpawnFailed => EventView::SpawnFailed,
            Event::WaitFailed => EventView::WaitFailed,
            Event::Exited { code, stdout } => EventView::Exited { code: *code, stdout: stdout@ },
            Event::Saved { ok } => EventView::Saved { ok: *ok },
            Event::Removed { ok } => EventView::Removed { ok: *ok },
            Event::Collected => EventView::Collected,
        }
    }
}

impl View for EntryRun {
    type V = RunView;

    open spec fn view(&self) -> RunView {
        RunView {
            exec_type: self.exec_type,
            program: self.program@,
            args: texts(self.args@),
            output_file: self.output_file@,
            temp_path: match self.temp_path {
                Some(p) => Some(p@),
                None => None,
            },
            phase: self.phase,
            error: self.error,
        }
    }
}

/// `<dir>/<name>`, with no second separator where `dir` already ends in one.
pub open spec fn staged_path(dir: Seq<char>, name: Seq<char>) -> Seq<char> {
    if dir.len() == 0 || dir.last() == '/' || dir.last() == '\\' {
        dir + name
    } else {
        dir + seq!['/'] + name
    }
}

pub open spec fn outcome(error: Option<ExecError>) -> Result<(), ExecError> {
    match error {
        Some(e) => Err(e),
        None => Ok(()),
    }
}

pub open spec fn finished(s: RunView, error: Option<ExecError>, cleanup_failed: bool) -> (RunView, ActionView) {
    (
        RunView { phase: Phase::Finished, error, ..s },
        ActionView::Finish { result: outcome(error), cleanup_failed },
    )
}

/// After the process part of an entry: remove the staged file if there is
/// one, else finish.
pub open spec fn wind_up(s: RunView, error: Option<ExecError>) -> (RunView, ActionView) {
    match s.temp_path {
        Some(p) => (RunView { phase: Phase::CleaningUp, error, ..s }, ActionView::Remove { path: p }),
        None => finished(s, error, false),
    }
}

/// The first state and action of an entry.
pub open spec fn spec_start(
    name: Seq<char>,
    args: Seq<Seq<char>>,
    exec_type: TypeExec,
    payload: Option<Seq<u8>>,
    staging: Option<Seq<char>>,
    output_file: Seq<char>,
) -> (RunView, ActionView) {
    let s = RunView {
        exec_type,
        program: name,
        args,
        output_file,
        temp_path: None,
        phase: Phase::Running,
        error: None,
    };
    match exec_type {
        TypeExec::External => match payload {
            None => finished(s, Some(ExecError::PayloadNotFound), false),
            Some(bytes) => match staging {
                None => finished(s, Some(ExecError::StagingPathMissing), false),
                Some(dir) => {
                    let p = staged_path(dir, name);
                    (
                        RunView { program: p, temp_path: Some(p), phase: Phase::Staging, ..s },
                        ActionView::Stage { path: p, bytes },
                    )
                },
            },
        },
        TypeExec::System => (s, ActionView::Spawn { program: name, args }),
        TypeExec::Internal => match Collector::spec_from_name(name) {
            Some(c) => (
                RunView { phase: Phase::Collecting, ..s },
                ActionView::Collect { collector: c, path: output_file },
            ),
            None => finished(s, Some(ExecError::CollectorNotFound), false),
        },
    }
}

/// Whether `e` is a report that the state `s` waits for.
pub open spec fn spec_accepts(s: RunView, e: EventView) -> bool {
    match s.phase {
        Phase::Staging => e is Staged,
        Phase::Running => e is SpawnFailed || e is WaitFailed || e is Exited,
        Phase::Saving => e is Saved,
        Phase::CleaningUp => e is Removed,
        Phase::Collecting => e is Collected,
        Phase::Finished => false,
    }
}

/// The next state and action once the host reports `e`.
pub open spec fn spec_next(s: RunView, e: EventView) -> (RunView, ActionView) {
    match e {
        EventView::Staged { created, written } => if created && written {
            (RunView { phase: Phase::Running, ..s }, ActionView::Spawn { program: s.program, args: s.args })
        } else if created {
            wind_up(s, Some(ExecError::StagingFailed))
        } else {
            finished(s, Some(ExecError::StagingFailed), false)
        },
        EventView::SpawnFailed => wind_up(s, Some(ExecError::SpawnFailed)),
        EventView::WaitFailed => wind_up(s, Some(ExecError::ProcessWaitFailed)),
        EventView::Exited { code, stdout } => (
            RunView { phase: Phase::Saving, ..s },
            ActionView::Save { path: s.output_file, bytes: stdout },
        ),
        EventView::Saved { ok } => wind_up(
            s,
            if ok {
                None
            } else {
                Some(ExecError::OutputWriteFailed)
            },
        ),
        EventView::Removed { ok } => finished(s, s.error, !ok),
        EventView::Collected => finished(s, None, false),
    }
}

fn join_staged(dir: &String, name: &String) -> (r: String)
    ensures
        r@ == staged_path(dir@, name@),
{
    let mut p = dir.clone();
    let n = dir.as_str().unicode_len();
    if n > 0 {
        let c = dir.as_str().get_char(n - 1);
        if c != '/' && c != '\\' {
            proof {
                reveal_strlit("/");
            }
            p.append("/");
        }
    }
    p.append(name.as_str());
    p
}

/// Starts one entry: decides the first action from its strategy, the payload
/// that was resolved for it and the staging directory.
pub fn run(
    name: String,
    args: Vec<String>,
    exec_type: TypeExec,
    exe_bytes: Option<Vec<u8>>,
    output_path: Option<String>,
    output_file: String,
) -> (r: (EntryRun, Action))
    ensures
        (r.0@, r.1@) == spec_start(
            name@,
            texts(args@),
            exec_type,
            match exe_bytes {
                Some(b) => Some(b@),
                None => None,
            },
            match output_path {
                Some(p) => Some(p@),
                None => None,
            },
            output_file@,
        ),
{
    let ghost a = texts(args@);
    match exec_type {
        TypeExec::External => {
            match exe_bytes {
                None => {
                    let st = EntryRun {
                        exec_type,
                        program: name,
                        args,
                        output_file,
                        temp_path: None,
                        phase: Phase::Finished,
                        error: Some(ExecError::PayloadNotFound),
                    };
                    (st, Action::Finish { result: Err(ExecError::PayloadNotFound), cleanup_failed: false })
                },
                Some(bytes) => match output_path {
                    None => {
                        let st = EntryRun {
                            exec_type,
                            program: name,
                            args,
                            output_file,
                            temp_path: None,
                            phase: Phase::Finished,
                            error: Some(ExecError::StagingPathMissing),
                        };
                        (st, Action::Finish { result: Err(ExecError::StagingPathMissing), cleanup_failed: false })
                    },
                    Some(dir) => {
                        let p = join_staged(&dir, &name);
                        let st = EntryRun {
                            exec_type,
                            program: p.clone(),
                            args,
                            output_file,
                            temp_path: Some(p.clone()),
                            phase: Phase::Staging,
                            error: None,
                        };
                        (st, Action::Stage { path: p, bytes })
                    },
                },
            }
        },
        TypeExec::System => {
            let act = Action::Spawn { program: name.clone(), args: copy_texts(&args) };
            let st = EntryRun {
                exec_type,
                program: name,
                args,
                output_file,
                temp_path: None,
                phase: Phase::Running,
                error: None,
            };
            (st, act)
        },
        TypeExec::Internal => {
            let picked = run_internal(name.as_str(), output_file.as_str());
            match picked {
                Ok((c, path)) => {
                    let st = EntryRun {
                        exec_type,
                        program: name,
                        args,
                        output_file,
                        temp_path: None,
                        phase: Phase::Collecting,
                        error: None,
                    };
                    (st, Action::Collect { collector: c, path })
                },
                Err(e) => {
                    let st = EntryRun {
                        exec_type,
                        program: name,
                        args,
                        output_file,
                        temp_path: None,
                        phase: Phase::Finished,
                        error: Some(e),
                    };
                    (st, Action::Finish { result: Err(e), cleanup_failed: false })
                },
            }
        },
    }
}


impl EntryRun {
    /// Whether `e` is a report that this run waits for.
    pub fn accepts(&self, e: &Event) -> (r: bool)
        ensures
            r == spec_accepts(self@, e@),
    {
        match self.phase {
            Phase::Staging => matches!(e, Event::Staged { .. }),
            Phase::Running => matches!(e, Event::SpawnFailed | Event::WaitFailed | Event::Exited { .. }),
            Phase::Saving => matches!(e, Event::Saved { .. }),
            Phase::CleaningUp => matches!(e, Event::Removed { .. }),
            Phase::Collecting => matches!(e, Event::Collected),
            Phase::Finished => false,
        }
    }

    fn finish(&mut self, error: Option<ExecError>, cleanup_failed: bool) -> (r: Action)
        ensures
            (final(self)@, r@) == finished(old(self)@, error, cleanup_failed),
    {
        self.phase = Phase::Finished;
        self.error = error;
        let result = match error {
            Some(e) => Err(e),
            None => Ok(()),
        };
        Action::Finish { result, cleanup_failed }
    }

    fn wind_up(&mut self, error: Option<ExecError>) -> (r: Action)
        ensures
            (final(self)@, r@) == wind_up(old(self)@, error),
    {
        match &self.temp_path {
            Some(p) => {
                let path = p.clone();
                self.phase = Phase::CleaningUp;
                self.error = error;
                Action::Remove { path }
            },
            None => self.finish(error, false),
        }
    }

    /// Advances the run by the host's report on the last action.
    pub fn step(&mut self, e: Event) -> (r: Action)
        requires
            spec_accepts(old(self)@, e@),
        ensures
            (final(self)@, r@) == spec_next(old(self)@, e@),
    {
        match e {
            Event::Staged { created, written } => {
                if created && written {
                    self.phase = Phase::Running;
                    Action::Spawn { program: self.program.clone(), args: copy_texts(&self.args) }
                } else if created {
                    self.wind_up(Some(ExecError::StagingFailed))
                } else {
                    self.finish(Some(ExecError::StagingFailed), false)
                }
            },
            Event::SpawnFailed => self.wind_up(Some(ExecError::SpawnFailed)),
            Event::WaitFailed => self.wind_up(Some(ExecError::ProcessWaitFailed)),
            Event::Exited { code, stdout } => {
                self.phase = Phase::Saving;
                Action::Save { path: self.output_file.clone(), bytes: stdout }
            },
            Event::Saved { ok } => {
                if ok {
                    self.wind_up(None)
                } else {
                    self.wind_up(Some(ExecError::OutputWriteFailed))
                }
            },
            Event::Removed { ok } => {
                let error = self.error;
                self.finish(error, !ok)
            },
            Event::Collected => self.finish(None, false),
        }
    }
}


/// How a spawned process ends, as the host observes it.
pub ghost enum ProcessOutcome {
    SpawnFails,
    WaitFails,
    Exits { code: Option<i32>, stdout: Seq<u8> },
}

/// How the host's operations turn out during one entry's run.
pub ghost struct Outcomes {
    pub created: bool,
    pub written: bool,
    pub process: ProcessOutcome,
    pub saved: bool,
    pub removed: bool,
}

/// The host's report on performing `a` when its operations turn out as `o`.
pub open spec fn respond(a: ActionView, o: Outcomes) -> EventView {
    match a {
        ActionView::Stage { .. } => EventView::Staged { created: o.created, written: o.written },
        ActionView::Spawn { .. } => match o.process {
            ProcessOutcome::SpawnFails => EventView::SpawnFailed,
            ProcessOutcome::WaitFails => EventView::WaitFailed,
            ProcessOutcome::Exits { code, stdout } => EventView::Exited { code, stdout },
        },
        ActionView::Save { .. } => EventView::Saved { ok: o.saved },
        ActionView::Remove { .. } => EventView::Removed { ok: o.removed },
        ActionView::Collect { .. } => EventView::Collected,
        ActionView::Finish { .. } => EventView::Collected,
    }
}

/// The actions asked of the host from state `s` and action `a` on, up to
/// and including the finishing one.
pub open spec fn drive(s: RunView, a: ActionView, o: Outcomes, fuel: nat) -> Seq<ActionView>
    decreases fuel,
{
    if fuel == 0 || a is Finish {
        seq![a]
    } else {
        let (s2, a2) = spec_next(s, respond(a, o));
        seq![a] + drive(s2, a2, o, (fuel - 1) as nat)
    }
}

/// The actions of one entry's whole run.
pub open spec fn trace(
    name: Seq<char>,
    args: Seq<Seq<char>>,
    exec_type: TypeExec,
    payload: Option<Seq<u8>>,
    staging: Option<Seq<char>>,
    output_file: Seq<char>,
    o: Outcomes,
) -> Seq<ActionView> {
    let (s, a) = spec_start(name, args, exec_type, payload, staging, output_file);
    drive(s, a, o, 6)
}

/// An external entry with a payload and a staging directory first stages the
/// payload at `<dir>/<name>`; once that file exists it is removed as the last
/// step before the run finishes, whatever the process did; when the process
/// ran, the staged file is what was spawned and its standard output is
/// exactly what is saved to the output file.
pub proof fn lemma_external_entry_stages_runs_and_removes(
    name: Seq<char>,
    args: Seq<Seq<char>>,
    bytes: Seq<u8>,
    dir: Seq<char>,
    output_file: Seq<char>,
    o: Outcomes,
)
    ensures
        ({
            let t = trace(name, args, TypeExec::External, Some(bytes), Some(dir), output_file, o);
            let p = staged_path(dir, name);
            &&& t[0] == ActionView::Stage { path: p, bytes }
            &&& t.last() is Finish
            &&& o.created ==> t.len() >= 3 && t[t.len() - 2] == ActionView::Remove { path: p }
            &&& o.created && o.written ==> t[1] == ActionView::Spawn { program: p, args }
            &&& o.created && o.written && o.process is Exits ==> t[2] == ActionView::Save {
                path: output_file,
                bytes: o.process->stdout,
            }
            &&& !o.created ==> t.len() == 2
        }),
{
    reveal_with_fuel(drive, 7);
}

/// An external entry without a payload asks for nothing but to finish with
/// `PayloadNotFound`: no file is written or removed and nothing is spawned.
pub proof fn lemma_missing_payload_does_nothing(
    name: Seq<char>,
    args: Seq<Seq<char>>,
    staging: Option<Seq<char>>,
    output_file: Seq<char>,
    o: Outcomes,
)
    ensures
        trace(name, args, TypeExec::External, None, staging, output_file, o) == seq![
            ActionView::Finish { result: Err(ExecError::PayloadNotFound), cleanup_failed: false },
        ],
{
    reveal_with_fuel(drive, 2);
}

/// A system entry never stages or removes a file, spawns `name` itself, and
/// saves exactly the standard output of the process when it ran.
pub proof fn lemma_system_entry_stages_nothing(
    name: Seq<char>,
    args: Seq<Seq<char>>,
    payload: Option<Seq<u8>>,
    staging: Option<Seq<char>>,
    output_file: Seq<char>,
    o: Outcomes,
)
    ensures
        ({
            let t = trace(name, args, TypeExec::System, payload, staging, output_file, o);
            &&& forall|i: int| 0 <= i < t.len() ==> !(#[trigger] t[i] is Stage) && !(t[i] is Remove)
            &&& t[0] == ActionView::Spawn { program: name, args }
            &&& o.process is Exits ==> t[1] == ActionView::Save {
                path: output_file,
                bytes: o.process->stdout,
            }
        }),
{
    reveal_with_fuel(drive, 7);
}

/// An internal entry whose collector name is unknown finishes at once with
/// `CollectorNotFound`, writing nothing.
pub proof fn lemma_unknown_collector_does_nothing(
    name: Seq<char>,
    args: Seq<Seq<char>>,
    payload: Option<Seq<u8>>,
    staging: Option<Seq<char>>,
    output_file: Seq<char>,
    o: Outcomes,
)
    requires
        Collector::spec_from_name(name) is None,
    ensures
        trace(name, args, TypeExec::Internal, payload, staging, output_file, o) == seq![
            ActionView::Finish { result: Err(ExecError::CollectorNotFound), cleanup_failed: false },
        ],
{
    reveal_with_fuel(drive, 2);
}

/// What a run leaves behind depends on the process's output alone: every
/// file saved holds exactly the standard output of the process, so a second
/// run whose process prints the same bytes saves the same content; and every
/// staged file that was created is removed later in the same run.
pub proof fn lemma_rerun_same_and_leaves_no_temp(
    name: Seq<char>,
    args: Seq<Seq<char>>,
    exec_type: TypeExec,
    payload: Option<Seq<u8>>,
    staging: Option<Seq<char>>,
    output_file: Seq<char>,
    o: Outcomes,
)
    ensures
        ({
            let t = trace(name, args, exec_type, payload, staging, output_file, o);
            &&& forall|i: int|
                0 <= i < t.len() && #[trigger] t[i] is Save ==> o.process is Exits && t[i]
                    == ActionView::Save { path: output_file, bytes: o.process->stdout }
            &&& forall|i: int|
                0 <= i < t.len() && #[trigger] t[i] is Stage && o.created ==> exists|j: int|
                    i < j < t.len() && t[j] == ActionView::Remove { path: t[i]->Stage_path }
        }),
{
    reveal_with_fuel(drive, 7);
    let t = trace(name, args, exec_type, payload, staging, output_file, o);
    assert forall|i: int|
        0 <= i < t.len() && #[trigger] t[i] is Stage && o.created implies exists|j: int|
            i < j < t.len() && t[j] == ActionView::Remove { path: t[i]->Stage_path } by {
        if exec_type == TypeExec::External && payload is Some && staging is Some {
            lemma_external_entry_stages_runs_and_removes(
                name,
                args,
                payload->0,
                staging->0,
                output_file,
                o,
            );
            assert(i == 0);
            assert(t[t.len() - 2] == ActionView::Remove { path: t[i]->Stage_path });
        }
    }
}

} // verus!
