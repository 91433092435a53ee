use vstd::prelude::*;
use crate::id_map::IdMap;
use crate::types::{AppConfigId, AppError, AppExitResult, AppStateInfo, AppStateInfoView};

verus! {

/// Registry contents: the observable state of each tracked application.
pub type RegistryView = Map<Seq<char>, AppStateInfoView>;

/// Whether `c` has the Unicode `White_Space` property, which is what
/// `char::is_whitespace` tests.
pub open spec fn is_white_space(c: char) -> bool {
    let u = c as u32;
    ||| 0x9 <= u <= 0xd
    ||| u == 0x20
    ||| u == 0x85
    ||| u == 0xa0
    ||| u == 0x1680
    ||| 0x2000 <= u <= 0x200a
    ||| u == 0x2028
    ||| u == 0x2029
    ||| u == 0x202f
    ||| u == 0x205f
    ||| u == 0x3000
}

/// The words of `s` after the partial word `cur`: the maximal runs of
/// characters that are not white space, in order.
pub open spec fn words_from(s: Seq<char>, cur: Seq<char>) -> Seq<Seq<char>>
    decreases s.len(),
{
    if s.len() == 0 {
        if cur.len() == 0 {
            Seq::empty()
        } else {
            seq![cur]
        }
    } else if is_white_space(s[0]) {
        let rest = words_from(s.drop_first(), Seq::empty());
        if cur.len() == 0 {
            rest
        } else {
            seq![cur] + rest
        }
    } else {
        words_from(s.drop_first(), cur.push(s[0]))
    }
}

/// The words of a command line.
pub open spec fn words_of(s: Seq<char>) -> Seq<Seq<char>> {
    words_from(s, Seq::empty())
}

/// Text made of white space alone holds no word.
pub proof fn lemma_blank_has_no_words(s: Seq<char>)
    requires
        forall|i: int| 0 <= i < s.len() ==> is_white_space(#[trigger] s[i]),
    ensures
        words_of(s).len() == 0,
    decreases s.len(),
{
    if s.len() > 0 {
        let t = s.drop_first();
        assert forall|i: int| 0 <= i < t.len() implies is_white_space(#[trigger] t[i]) by {
            assert(t[i] == s[i + 1]);
        }
        lemma_blank_has_no_words(t);
    }
}

/// Relies on `str::split_whitespace`: the maximal runs of characters that
/// are not white space, in order.
#[verifier::external_body]
fn split_words(s: &str) -> (r: Vec<String>)
    ensures
        r@.map_values(|w: String| w@) == words_of(s@),
{
    s.split_whitespace().map(|w| w.to_owned()).collect()
}

/// One tracked application: its observable state and its process handle.
pub struct AppState<P> {
    pub info: AppStateInfo,
    pub process: P,
}

impl<P> AppState<P> {
    pub fn is_running(&self) -> (r: bool)
        ensures
            r == self.info.running(),
    {
        self.info.exit_result.is_none()
    }
}

/// A program to start and its arguments.
#[derive(Debug, PartialEq, Eq)]
pub struct LaunchRequest {
    pub program: String,
    pub args: Vec<String>,
}

impl View for LaunchRequest {
    type V = (Seq<char>, Seq<Seq<char>>);

    open spec fn view(&self) -> (Seq<char>, Seq<Seq<char>>) {
        (self.program@, self.args@.map_values(|w: String| w@))
    }
}

/// What starting a process produced: its id, if the system gave one, and
/// its handle.
pub struct Spawned<P> {
    pub pid: Option<u32>,
    pub process: P,
}

/// A launch decision: the program and arguments to spawn, or the refusal.
pub type PlanView = Result<(Seq<char>, Seq<Seq<char>>), AppError>;

pub open spec fn plan_view(r: Result<LaunchRequest, AppError>) -> PlanView {
    match r {
        Ok(req) => Ok(req@),
        Err(e) => Err(e),
    }
}

pub open spec fn running_in(m: RegistryView, id: Seq<char>) -> bool {
    m.contains_key(id) && m[id].running()
}

pub open spec fn query_info(m: RegistryView, id: Seq<char>) -> Option<AppStateInfoView> {
    if m.contains_key(id) {
        Some(m[id])
    } else {
        None
    }
}

/// Decision of a launch before anything is spawned: a running application
/// is refused, then an empty command; otherwise the first word is the
/// program and the others its arguments.
pub open spec fn launch_plan(m: RegistryView, id: Seq<char>, words: Seq<Seq<char>>) -> PlanView {
    if running_in(m, id) {
        Err(AppError::AlreadyRunning)
    } else if words.len() == 0 {
        Err(AppError::EmptyCommand)
    } else {
        Ok((words[0], words.drop_first()))
    }
}

pub open spec fn launched_info(id: Seq<char>, pid: u32) -> AppStateInfoView {
    AppStateInfoView { config_id: id, pid, exit_result: None }
}

/// The registry after a successful launch of `id` as process `pid`.
pub open spec fn after_launch(m: RegistryView, id: Seq<char>, pid: u32) -> RegistryView {
    m.insert(id, launched_info(id, pid))
}

/// Whether the exit of process `pid` is recorded for `id`: only while the
/// entry of that very process is still running.
pub open spec fn exit_applies(m: RegistryView, id: Seq<char>, pid: u32) -> bool {
    running_in(m, id) && m[id].pid == pid
}

pub open spec fn exited_info(info: AppStateInfoView, result: AppExitResult) -> AppStateInfoView {
    AppStateInfoView { exit_result: Some(result), ..info }
}

/// The registry after the watcher of process `pid` reports `result`.
pub open spec fn after_exit(m: RegistryView, id: Seq<char>, pid: u32, result: AppExitResult) -> RegistryView {
    if exit_applies(m, id, pid) {
        m.insert(id, exited_info(m[id], result))
    } else {
        m
    }
}

/// The notification that recording an exit publishes, if any.
pub open spec fn exit_notice(m: RegistryView, id: Seq<char>, pid: u32, result: AppExitResult) -> Option<
    AppStateInfoView,
> {
    if exit_applies(m, id, pid) {
        Some(exited_info(m[id], result))
    } else {
        None
    }
}

pub open spec fn kill_plan(m: RegistryView, id: Seq<char>) -> bool {
    m.contains_key(id)
}

/// The supervised applications, keyed by their configuration id.
pub struct LaunchedApps<P> {
    apps: IdMap<AppState<P>>,
}

impl<P> View for LaunchedApps<P> {
    type V = RegistryView;

    closed spec fn view(&self) -> RegistryView {
        self.apps@.map_values(|s: AppState<P>| s.info@)
    }
}

impl<P> LaunchedApps<P> {
    /// The process handle held for each tracked application.
    pub closed spec fn handles(&self) -> Map<Seq<char>, P> {
        self.apps@.map_values(|s: AppState<P>| s.process)
    }

    pub closed spec fn wf(&self) -> bool {
        &&& self.apps.wf()
        &&& forall|k: Seq<char>| #[trigger] self.apps@.contains_key(k) ==> self.apps@[k].info.config_id@ == k
    }

    pub fn new() -> (r: Self)
        ensures
            r.wf(),
            r@ == RegistryView::empty(),
            r.handles() == Map::<Seq<char>, P>::empty(),
    {
        let r = LaunchedApps { apps: IdMap::new() };
        assert(r@ =~= RegistryView::empty());
        assert(r.handles() =~= Map::<Seq<char>, P>::empty());
        r
    }

    /// Whether `config_id` has an entry without exit result.
    pub fn is_running(&self, config_id: &AppConfigId) -> (r: bool)
        requires
            self.wf(),
        ensures
            r == running_in(self@, config_id@),
    {
        match self.apps.get(&config_id.0) {
            Some(state) => state.is_running(),
            None => false,
        }
    }

    /// The handle of the process of `config_id`, if it is tracked.
    pub fn process_of(&self, config_id: &AppConfigId) -> (r: Option<&P>)
        requires
            self.wf(),
        ensures
            match r {
                Some(p) => self.handles().contains_key(config_id@) && *p == self.handles()[config_id@],
                None => !self.handles().contains_key(config_id@),
            },
            self.handles().dom() == self@.dom(),
    {
        match self.apps.get(&config_id.0) {
            Some(state) => Some(&state.process),
            None => None,
        }
    }

    /// The process that a kill of `config_id` is aimed at: `NotFound` when
    /// the id is not tracked. The registry itself is left as it is.
    pub fn kill_target(&self, config_id: &AppConfigId) -> (r: Result<&P, AppError>)
        requires
            self.wf(),
        ensures
            r is Ok <==> kill_plan(self@, config_id@),
            match r {
                Ok(p) => *p == self.handles()[config_id@],
                Err(e) => e == AppError::NotFound,
            },
    {
        match self.process_of(config_id) {
            Some(p) => Ok(p),
            None => Err(AppError::NotFound),
        }
    }

    /// Decides a launch of `words` for `config_id`: refused while the
    /// application runs, refused for an empty command, otherwise the program
    /// and arguments to spawn.
    pub fn plan_launch(&self, config_id: &AppConfigId, words: Vec<String>) -> (r: Result<
        LaunchRequest,
        AppError,
    >)
        requires
            self.wf(),
        ensures
            plan_view(r) == launch_plan(self@, config_id@, words@.map_values(|w: String| w@)),
    {
        if self.is_running(config_id) {
            return Err(AppError::AlreadyRunning);
        }
        if words.len() == 0 {
            return Err(AppError::EmptyCommand);
        }
        let ghost ws = words@;
        let mut args = words;
        let program = args.remove(0);
        assert(args@.map_values(|w: String| w@) =~= ws.map_values(|w: String| w@).drop_first());
        Ok(LaunchRequest { program, args })
    }

    /// Decides a launch of the command line `command` for `config_id`; the
    /// command is cut into words at whitespace, without any shell rules.
    pub fn prepare_launch(&self, config_id: &AppConfigId, command: &str) -> (r: Result<
        LaunchRequest,
        AppError,
    >)
        requires
            self.wf(),
        ensures
            plan_view(r) == launch_plan(self@, config_id@, words_of(command@)),
            !running_in(self@, config_id@) && (forall|i: int|
                0 <= i < command@.len() ==> is_white_space(#[trigger] command@[i])) ==> r
                == Err::<LaunchRequest, AppError>(AppError::EmptyCommand),
    {
        proof {
            if forall|i: int| 0 <= i < command@.len() ==> is_white_space(#[trigger] command@[i]) {
                lemma_blank_has_no_words(command@);
            }
        }
        let words = split_words(command);
        self.plan_launch(config_id, words)
    }

    /// Installs the outcome of spawning the process of `config_id`: a spawn
    /// failure is a `LaunchError`, a process without id an `ImmediateExit`;
    /// otherwise the application is recorded as running with that id and
    /// handle, replacing any earlier entry.
    pub fn complete_launch(&mut self, config_id: &AppConfigId, spawned: Result<Spawned<P>, String>) -> (r:
        Result<AppStateInfo, AppError>)
        requires
            old(self).wf(),
        ensures
            final(self).wf(),
            match spawned {
                Err(msg) => r == Err::<AppStateInfo, AppError>(AppError::LaunchError(msg))
                    && final(self)@ == old(self)@ && final(self).handles() == old(self).handles(),
                Ok(s) => match s.pid {
                    None => r == Err::<AppStateInfo, AppError>(AppError::ImmediateExit)
                        && final(self)@ == old(self)@ && final(self).handles() == old(self).handles(),
                    Some(pid) => r is Ok && r->Ok_0@ == launched_info(config_id@, pid)
                        && final(self)@ == after_launch(old(self)@, config_id@, pid)
                        && final(self).handles() == old(self).handles().insert(config_id@, s.process),
                },
            },
    {
        match spawned {
            Err(msg) => Err(AppError::LaunchError(msg)),
            Ok(s) => match s.pid {
                None => Err(AppError::ImmediateExit),
                Some(pid) => {
                    let info = AppStateInfo { config_id: config_id.clone(), pid, exit_result: None };
                    let shown = info.clone();
                    let ghost old_apps = self.apps@;
                    let ghost proc = s.process;
                    self.apps.insert(config_id.0.clone(), AppState { info, process: s.process });
                    assert(self@ =~= after_launch(old(self)@, config_id@, pid));
                    assert(self.handles() =~= old(self).handles().insert(config_id@, proc));
                    Ok(shown)
                },
            },
        }
    }

    /// The watcher of process `pid` reports that it ended with `result`. If
    /// `config_id` still tracks that running process, its exit result is set
    /// and the new state is returned for publication; otherwise (the entry
    /// is gone, was replaced or already finished) nothing changes.
    pub fn record_exit(&mut self, config_id: &AppConfigId, pid: u32, result: AppExitResult) -> (r: Option<
        AppStateInfo,
    >)
        requires
            old(self).wf(),
        ensures
            final(self).wf(),
            final(self)@ == after_exit(old(self)@, config_id@, pid, result),
            final(self).handles() == old(self).handles(),
            match r {
                Some(info) => exit_notice(old(self)@, config_id@, pid, result) == Some(info@),
                None => exit_notice(old(self)@, config_id@, pid, result) is None,
            },
            r is Some ==> r->Some_0@.config_id == config_id@ && r->Some_0.pid == pid,
    {
        let applies = match self.apps.get(&config_id.0) {
            Some(state) => state.is_running() && state.info.pid == pid,
            None => false,
        };
        if !applies {
            return None;
        }
        let ghost old_apps = self.apps@;
        let removed = self.apps.remove(&config_id.0);
        match removed {
            Some(state) => {
                let AppState { info, process } = state;
                let AppStateInfo { config_id: id, pid: p, exit_result: _ } = info;
                let updated = AppStateInfo { config_id: id, pid: p, exit_result: Some(result) };
                let shown = updated.clone();
                let ghost proc = process;
                self.apps.insert(config_id.0.clone(), AppState { info: updated, process });
                assert(self.apps@ =~= old_apps.insert(config_id@, AppState { info: self.apps@[config_id@].info, process: proc }));
                assert(self@ =~= after_exit(old(self)@, config_id@, pid, result));
                assert(self.handles() =~= old(self).handles());
                Some(shown)
            },
            None => None,
        }
    }
}

/// A snapshot of the state of `config_id`, or nothing if it was never
/// launched.
pub fn get_app_state<P>(config_id: &AppConfigId, apps_state: &LaunchedApps<P>) -> (r: Option<AppStateInfo>)
    requires
        apps_state.wf(),
    ensures
        match r {
            Some(info) => query_info(apps_state@, config_id@) == Some(info@),
            None => query_info(apps_state@, config_id@) is None,
        },
        r is Some ==> r->Some_0@.config_id == config_id@,
{
    match apps_state.apps.get(&config_id.0) {
        Some(state) => Some(state.info.clone()),
        None => None,
    }
}

impl<P> Default for LaunchedApps<P> {
    fn default() -> (r: Self)
        ensures
            r.wf(),
            r@ == RegistryView::empty(),
    {
        LaunchedApps::new()
    }
}

/// A query right after a successful launch shows the application running,
/// as the process that was spawned.
pub proof fn lemma_launch_then_query(m: RegistryView, id: Seq<char>, pid: u32)
    ensures
        query_info(after_launch(m, id, pid), id) == Some(
            AppStateInfoView { config_id: id, pid, exit_result: None },
        ),
{
}

/// A launch for an application that is running is refused with
/// `AlreadyRunning`, whatever the command line, so nothing is spawned.
pub proof fn lemma_running_refuses_launch(m: RegistryView, id: Seq<char>, words: Seq<Seq<char>>)
    requires
        running_in(m, id),
    ensures
        launch_plan(m, id, words) == Err::<(Seq<char>, Seq<Seq<char>>), AppError>(AppError::AlreadyRunning),
{
}

/// Once the watcher of a running process reports its exit, a query shows
/// that exit result and exactly one notification carries it: a later report
/// for the same process changes nothing and publishes nothing.
pub proof fn lemma_exit_recorded_once(
    m: RegistryView,
    id: Seq<char>,
    pid: u32,
    first: AppExitResult,
    second: AppExitResult,
)
    requires
        running_in(m, id),
        m[id].pid == pid,
    ensures
        query_info(after_exit(m, id, pid, first), id) == Some(exited_info(m[id], first)),
        exit_notice(m, id, pid, first) == Some(exited_info(m[id], first)),
        exit_notice(after_exit(m, id, pid, first), id, pid, second) is None,
        after_exit(after_exit(m, id, pid, first), id, pid, second) == after_exit(m, id, pid, first),
{
}

/// What a request to terminate a process came to.
#[derive(Debug, PartialEq, Eq)]
pub enum KillOutcome {
    /// Termination was requested.
    Sent,
    /// The process had already ended.
    AlreadyExited,
    /// Termination could not be requested, for this reason.
    Failed(String),
}

/// The answer to a kill request, once termination was asked of the
/// process: a process that had already ended counts as killed.
pub fn kill_result(outcome: KillOutcome) -> (r: Result<(), AppError>)
    ensures
        match outcome {
            KillOutcome::Failed(msg) => r == Err::<(), AppError>(AppError::KillError(msg)),
            _ => r == Ok::<(), AppError>(()),
        },
{
    match outcome {
        KillOutcome::Failed(msg) => Err(AppError::KillError(msg)),
        _ => Ok(()),
    }
}

} // verus!
