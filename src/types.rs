use vstd::prelude::*;

verus! {

/// Identifier naming one launchable application.
#[derive(Debug, PartialEq, Eq, Hash)]
pub struct AppConfigId(pub String);

impl View for AppConfigId {
    type V = Seq<char>;

    open spec fn view(&self) -> Seq<char> {
        self.0@
    }
}

impl Clone for AppConfigId {
    fn clone(&self) -> (r: Self)
        ensures
            r@ == self@,
    {
        AppConfigId(self.0.clone())
    }
}

/// How a supervised process ended.
#[derive(Debug, Copy, Clone, PartialEq, Eq, Structural)]
pub enum AppExitResult {
    Success,
    ExitCode(i32),
    Signal(i32),
    Unknown,
}

/// The observable state of one launched application.
#[derive(Debug, PartialEq)]
pub struct AppStateInfo {
    pub config_id: AppConfigId,
    pub pid: u32,
    pub exit_result: Option<AppExitResult>,
}

/// Mathematical value of an [`AppStateInfo`].
pub struct AppStateInfoView {
    pub config_id: Seq<char>,
    pub pid: u32,
    pub exit_result: Option<AppExitResult>,
}

impl View for AppStateInfo {
    type V = AppStateInfoView;

    open spec fn view(&self) -> AppStateInfoView {
        AppStateInfoView { config_id: self.config_id@, pid: self.pid, exit_result: self.exit_result }
    }
}

impl Clone for AppStateInfo {
    fn clone(&self) -> (r: Self)
        ensures
            r@ == self@,
    {
        AppStateInfo { config_id: self.config_id.clone(), pid: self.pid, exit_result: self.exit_result }
    }
}

impl AppStateInfo {
    /// An application is running as long as no exit result was recorded.
    pub open spec fn running(self) -> bool {
        self.exit_result is None
    }
}

impl AppStateInfoView {
    pub open spec fn running(self) -> bool {
        self.exit_result is None
    }
}

/// A persisted launch definition.
#[derive(Debug, PartialEq)]
pub struct AppConfig {
    pub id: AppConfigId,
    pub name: String,
    pub icon: Option<String>,
    pub launch_command: String,
}

/// Mathematical value of an [`AppConfig`].
pub struct AppConfigView {
    pub id: Seq<char>,
    pub name: Seq<char>,
    pub icon: Option<Seq<char>>,
    pub launch_command: Seq<char>,
}

pub open spec fn opt_str_view(s: Option<String>) -> Option<Seq<char>> {
    match s {
        Some(t) => Some(t@),
        None => None,
    }
}

impl View for AppConfig {
    type V = AppConfigView;

    open spec fn view(&self) -> AppConfigView {
        AppConfigView {
            id: self.id@,
            name: self.name@,
            icon: opt_str_view(self.icon),
            launch_command: self.launch_command@,
        }
    }
}

impl Clone for AppConfig {
    fn clone(&self) -> (r: Self)
        ensures
            r@ == self@,
    {
        let icon = match &self.icon {
            Some(s) => Some(s.clone()),
            None => None,
        };
        AppConfig {
            id: self.id.clone(),
            name: self.name.clone(),
            icon,
            launch_command: self.launch_command.clone(),
        }
    }
}

/// Failures of the supervision commands and of the configuration store.
#[derive(Debug, PartialEq, Eq)]
pub enum AppError {
    /// A launch was asked for an application that is still running.
    AlreadyRunning,
    /// The command line holds no program to start.
    EmptyCommand,
    /// The process could not be spawned.
    LaunchError(String),
    /// The process gave no process id.
    ImmediateExit,
    /// No application or configuration with the given id is known.
    NotFound,
    /// Termination could not be requested.
    KillError(String),
    /// The stored configurations are malformed.
    ParseError(String),
    /// The stored configurations could not be read.
    ReadError(String),
    /// The configuration of a running application cannot be removed.
    AppRunning,
}

} // verus!
