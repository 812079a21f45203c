//! The running proxy and its configuration: what runs, what is saved, and how a reload gets from
//! one to the other.
//!
//! The manager decides; whoever runs it reads and writes the configuration file and starts and
//! stops the proxy.
use crate::cli::HttpMode;
use crate::config::{saying_the_same_is_symmetric, AppConfigFile, RuntimeConfig};
use crate::text::{joined, opt_text};
use crate::writer::ParquetWriterHandle;
use vstd::prelude::*;

verus! {

/// What runs, in short.
#[derive(Debug, Clone)]
pub struct RuntimeSummary {
    pub listen_addr: String,
    pub frontend_domain: String,
    pub backend_url: String,
    pub sqlite_path: String,
    pub transform_count: usize,
    pub http_mode: String,
    pub dropped_events: u64,
    pub write_failures: u64,
}

/// What the manager shows: the saved configuration, what runs, whether a reload would change it,
/// and why the last one failed.
#[derive(Debug, Clone)]
pub struct RuntimeManagerState {
    pub config_path: String,
    pub saved_config: AppConfigFile,
    pub active_runtime: RuntimeSummary,
    pub pending_reload: bool,
    pub last_reload_error: Option<String>,
}

/// The manager: the configuration that the running proxy has, where one runs, and what is shown.
#[derive(Debug)]
pub struct RuntimeManager {
    pub active: Option<AppConfigFile>,
    pub snapshot: RuntimeManagerState,
}

/// How an HTTP mode is shown.
pub open spec fn mode_name(mode: HttpMode) -> Seq<char> {
    match mode {
        HttpMode::Auto => "auto"@,
        HttpMode::Http1 => "http1"@,
        HttpMode::Http2 => "http2"@,
    }
}

/// How an HTTP mode is shown.
pub fn show_mode(mode: HttpMode) -> (text: String)
    ensures
        text@ == mode_name(mode),
{
    match mode {
        HttpMode::Auto => "auto".to_owned(),
        HttpMode::Http1 => "http1".to_owned(),
        HttpMode::Http2 => "http2".to_owned(),
    }
}

/// How a path is shown.
pub fn display_path(path: &str) -> (text: String)
    ensures
        text@ == path@,
{
    path.to_owned()
}

impl RuntimeSummary {
    /// Whether a summary is that of a running proxy.
    pub open spec fn is_of(
        self,
        app_config: AppConfigFile,
        runtime: RuntimeConfig,
        writer: ParquetWriterHandle,
    ) -> bool {
        &&& self.listen_addr@ == runtime.listen_addr.text@
        &&& self.frontend_domain@ == runtime.frontend_domain@
        &&& self.backend_url@ == runtime.backend_url@
        &&& self.sqlite_path@ == runtime.sqlite_path@
        &&& self.transform_count == app_config.transforms@.len()
        &&& self.http_mode@ == mode_name(runtime.http_mode)
        &&& self.dropped_events == writer.dropped_count()
        &&& self.write_failures == writer.failure_count()
    }
}

/// The summary of a running proxy.
pub fn runtime_summary(
    app_config: &AppConfigFile,
    runtime: &RuntimeConfig,
    writer: &ParquetWriterHandle,
) -> (summary: RuntimeSummary)
    ensures
        summary.is_of(*app_config, *runtime, *writer),
{
    RuntimeSummary {
        listen_addr: runtime.listen_addr.text.clone(),
        frontend_domain: runtime.frontend_domain.clone(),
        backend_url: runtime.backend_url.clone(),
        sqlite_path: display_path(runtime.sqlite_path.as_str()),
        transform_count: app_config.transforms.len(),
        http_mode: show_mode(runtime.http_mode),
        dropped_events: writer.dropped_events(),
        write_failures: writer.write_failures(),
    }
}

/// Where a reload stands: the configuration file is being read, the previous proxy is being
/// stopped, the new one started, or the previous one started again.
#[derive(Debug, Clone, Copy, PartialEq, Eq, Structural)]
pub enum ReloadStage {
    Loading,
    Stopping,
    Starting,
    Restarting,
    Over,
}

/// A reload under way: where it stands, the configuration that ran before it, the one that was
/// read, and why the new proxy did not start.
#[derive(Debug)]
pub struct Reload {
    pub stage: ReloadStage,
    pub previous: AppConfigFile,
    pub loaded: Option<AppConfigFile>,
    pub failure: String,
}

/// What happens during a reload.
#[derive(Debug)]
pub enum ReloadEvent {
    Loaded(AppConfigFile),
    LoadFailed(String),
    Released,
    NotReleased(String),
    Started(RuntimeSummary),
    StartFailed(String),
    Restarted,
    RestartFailed(String),
}

/// What is to be done next during a reload.
#[derive(Debug)]
pub enum ReloadAction {
    StopPrevious,
    StartNew,
    RestartPrevious,
    Succeed,
    Fail(String),
}

impl ReloadEvent {
    /// Whether this can happen at a stage.
    pub open spec fn can_happen(self, stage: ReloadStage) -> bool {
        match self {
            ReloadEvent::Loaded(_) => stage == ReloadStage::Loading,
            ReloadEvent::LoadFailed(_) => stage == ReloadStage::Loading,
            ReloadEvent::Released => stage == ReloadStage::Stopping,
            ReloadEvent::NotReleased(_) => stage == ReloadStage::Stopping,
            ReloadEvent::Started(_) => stage == ReloadStage::Starting,
            ReloadEvent::StartFailed(_) => stage == ReloadStage::Starting,
            ReloadEvent::Restarted => stage == ReloadStage::Restarting,
            ReloadEvent::RestartFailed(_) => stage == ReloadStage::Restarting,
        }
    }
}

impl Reload {
    /// A configuration was read from the reading on.
    pub open spec fn wf(self) -> bool {
        self.stage == ReloadStage::Starting || self.stage == ReloadStage::Stopping
            ==> self.loaded is Some
    }
}

/// The message of a reload after which nothing runs.
pub open spec fn fallback_failure_text(failure: Seq<char>, restart: Seq<char>) -> Seq<char> {
    "reload failed: "@ + failure + "; fallback restart failed: "@ + restart
}

impl RuntimeManager {
    /// The manager of a proxy that was just started with a configuration.
    pub fn start(config_path: &str, app_config: AppConfigFile, summary: RuntimeSummary) -> (manager:
        RuntimeManager)
        ensures
            manager.active matches Some(active) && active.is_written_like(app_config),
            manager.snapshot.config_path@ == config_path@,
            manager.snapshot.saved_config == app_config,
            manager.snapshot.active_runtime == summary,
            !manager.snapshot.pending_reload,
            manager.snapshot.last_reload_error is None,
            manager.consistent(),
    {
        RuntimeManager {
            active: Some(app_config.copy()),
            snapshot: RuntimeManagerState {
                config_path: config_path.to_owned(),
                saved_config: app_config,
                active_runtime: summary,
                pending_reload: false,
                last_reload_error: None,
            },
        }
    }

    /// What the manager shows.
    pub fn state(&self) -> (state: &RuntimeManagerState)
        ensures
            *state == self.snapshot,
    {
        &self.snapshot
    }

    /// Whether what the manager shows is true of what runs: where a proxy runs and no reload is
    /// pending, it has the saved configuration.
    pub open spec fn consistent(self) -> bool {
        self.active is Some && !self.snapshot.pending_reload ==> self.runs(
            self.snapshot.saved_config,
        )
    }

    /// Whether a configuration is the one that the running proxy has.
    pub open spec fn runs(self, app_config: AppConfigFile) -> bool {
        match self.active {
            Some(active) => active.says_same(app_config),
            None => false,
        }
    }

    /// Takes note of a configuration that was to be saved. Where it was refused or could not be
    /// written, nothing changes. Else it is the saved one, and a reload is pending unless the
    /// running proxy has it.
    pub fn save_config(&mut self, app_config: AppConfigFile, outcome: Result<(), String>) -> (result:
        Result<(), String>)
        ensures
            final(self).active == old(self).active,
            old(self).consistent() ==> final(self).consistent(),
            match outcome {
                Ok(_) => result is Ok && final(self).snapshot == (RuntimeManagerState {
                    saved_config: app_config,
                    pending_reload: !old(self).runs(app_config),
                    last_reload_error: None,
                    ..old(self).snapshot
                }),
                Err(text) => result == Err::<(), String>(text) && *final(self) == *old(self),
            },
    {
        match outcome {
            Ok(_) => {
                let matches = match &self.active {
                    Some(active) => active.same_config(&app_config),
                    None => false,
                };
                self.snapshot.saved_config = app_config;
                self.snapshot.pending_reload = !matches;
                self.snapshot.last_reload_error = None;
                Ok(())
            },
            Err(text) => Err(text),
        }
    }

    /// Begins a reload: the running proxy is taken out of the manager. Where none runs, there is
    /// nothing to reload.
    pub fn begin_reload(&mut self) -> (result: Result<Reload, String>)
        ensures
            final(self).snapshot == old(self).snapshot,
            final(self).active is None,
            final(self).consistent(),
            match old(self).active {
                Some(active) => result matches Ok(reload) && reload.previous == active
                    && reload.stage == ReloadStage::Loading && reload.loaded is None && reload.wf(),
                None => result matches Err(text) && text@
                    == "runtime manager missing active runtime during reload"@,
            },
    {
        match self.active.take() {
            Some(previous) => Ok(
                Reload {
                    stage: ReloadStage::Loading,
                    previous,
                    loaded: None,
                    failure: String::new(),
                },
            ),
            None => Err("runtime manager missing active runtime during reload".to_owned()),
        }
    }

    /// Takes note of what happened during a reload and decides what is to be done next. A
    /// configuration that was read is started once the previous proxy has let go of its address.
    /// Once it runs, it is the saved one and the one that runs, and nothing is pending. Where it
    /// does not start, the previous proxy is started again; the reload is then pending and its
    /// failure shown. Where that fails too, or the file cannot be read or the address does not
    /// come free, nothing runs.
    pub fn reload_inner(&mut self, reload: &mut Reload, event: ReloadEvent) -> (action: ReloadAction)
        requires
            old(reload).wf(),
            event.can_happen(old(reload).stage),
        ensures
            final(reload).wf(),
            old(self).consistent() ==> final(self).consistent(),
            match event {
                ReloadEvent::Loaded(config) => {
                    &&& action is StopPrevious
                    &&& *final(self) == *old(self)
                    &&& *final(reload) == (Reload {
                        stage: ReloadStage::Stopping,
                        loaded: Some(config),
                        ..*old(reload)
                    })
                },
                ReloadEvent::LoadFailed(text) => {
                    &&& action == ReloadAction::Fail(text)
                    &&& *final(self) == *old(self)
                    &&& *final(reload) == (Reload { stage: ReloadStage::Over, ..*old(reload) })
                },
                ReloadEvent::Released => {
                    &&& action is StartNew
                    &&& *final(self) == *old(self)
                    &&& *final(reload) == (Reload { stage: ReloadStage::Starting, ..*old(reload) })
                },
                ReloadEvent::NotReleased(text) => {
                    &&& action == ReloadAction::Fail(text)
                    &&& *final(self) == *old(self)
                    &&& *final(reload) == (Reload { stage: ReloadStage::Over, ..*old(reload) })
                },
                ReloadEvent::Started(summary) => {
                    &&& action is Succeed
                    &&& final(reload).stage == ReloadStage::Over
                    &&& final(self).active == old(reload).loaded
                    &&& final(self).snapshot == (RuntimeManagerState {
                        saved_config: final(self).snapshot.saved_config,
                        active_runtime: summary,
                        pending_reload: false,
                        last_reload_error: None,
                        ..old(self).snapshot
                    })
                    &&& final(self).snapshot.saved_config.is_written_like(
                        old(reload).loaded->0,
                    )
                },
                ReloadEvent::StartFailed(text) => {
                    &&& action is RestartPrevious
                    &&& *final(self) == *old(self)
                    &&& *final(reload) == (Reload {
                        stage: ReloadStage::Restarting,
                        failure: text,
                        ..*old(reload)
                    })
                },
                ReloadEvent::Restarted => {
                    &&& action matches ReloadAction::Fail(text) && text@ == old(reload).failure@
                    &&& final(reload).stage == ReloadStage::Over
                    &&& final(self).active matches Some(active) && active.is_written_like(
                        old(reload).previous,
                    )
                    &&& opt_text(final(self).snapshot.last_reload_error) == Some(
                        old(reload).failure@,
                    )
                    &&& final(self).snapshot == (RuntimeManagerState {
                        pending_reload: true,
                        last_reload_error: final(self).snapshot.last_reload_error,
                        ..old(self).snapshot
                    })
                },
                ReloadEvent::RestartFailed(restart) => {
                    let message = fallback_failure_text(old(reload).failure@, restart@);
                    &&& action matches ReloadAction::Fail(text) && text@ == message
                    &&& final(reload).stage == ReloadStage::Over
                    &&& final(self).active == old(self).active
                    &&& opt_text(final(self).snapshot.last_reload_error) == Some(message)
                    &&& final(self).snapshot == (RuntimeManagerState {
                        last_reload_error: final(self).snapshot.last_reload_error,
                        ..old(self).snapshot
                    })
                },
            },
    {
        match event {
            ReloadEvent::Loaded(config) => {
                reload.loaded = Some(config);
                reload.stage = ReloadStage::Stopping;
                ReloadAction::StopPrevious
            },
            ReloadEvent::LoadFailed(text) => {
                reload.stage = ReloadStage::Over;
                ReloadAction::Fail(text)
            },
            ReloadEvent::Released => {
                reload.stage = ReloadStage::Starting;
                ReloadAction::StartNew
            },
            ReloadEvent::NotReleased(text) => {
                reload.stage = ReloadStage::Over;
                ReloadAction::Fail(text)
            },
            ReloadEvent::Started(summary) => {
                reload.stage = ReloadStage::Over;
                if let Some(loaded) = reload.loaded.take() {
                    self.snapshot.saved_config = loaded.copy();
                    self.active = Some(loaded);
                    proof {
                        saying_the_same_is_symmetric(self.snapshot.saved_config, loaded);
                    }
                }
                self.snapshot.active_runtime = summary;
                self.snapshot.pending_reload = false;
                self.snapshot.last_reload_error = None;
                ReloadAction::Succeed
            },
            ReloadEvent::StartFailed(text) => {
                reload.failure = text;
                reload.stage = ReloadStage::Restarting;
                ReloadAction::RestartPrevious
            },
            ReloadEvent::Restarted => {
                reload.stage = ReloadStage::Over;
                self.active = Some(reload.previous.copy());
                self.snapshot.last_reload_error = Some(reload.failure.clone());
                self.snapshot.pending_reload = true;
                ReloadAction::Fail(reload.failure.clone())
            },
            ReloadEvent::RestartFailed(restart) => {
                reload.stage = ReloadStage::Over;
                let message = joined("reload failed: ", reload.failure.as_str());
                let message = joined(message.as_str(), "; fallback restart failed: ");
                let message = joined(message.as_str(), restart.as_str());
                self.snapshot.last_reload_error = Some(message.clone());
                ReloadAction::Fail(message)
            },
        }
    }

    /// Refuses to go on where no proxy runs, so that there is no database to ask.
    pub fn active_database(&self) -> (result: Result<(), String>)
        ensures
            match self.active {
                Some(_) => result is Ok,
                None => result matches Err(text) && text@
                    == "runtime manager missing active runtime"@,
            },
    {
        match &self.active {
            Some(_) => Ok(()),
            None => Err("runtime manager missing active runtime".to_owned()),
        }
    }

    /// Takes the running proxy out of the manager to stop it for good.
    pub fn shutdown(&mut self) -> (result: Result<AppConfigFile, String>)
        ensures
            final(self).snapshot == old(self).snapshot,
            final(self).active is None,
            match old(self).active {
                Some(active) => result == Ok::<AppConfigFile, String>(active),
                None => result matches Err(text) && text@
                    == "runtime manager missing active runtime during shutdown"@,
            },
    {
        match self.active.take() {
            Some(active) => Ok(active),
            None => Err("runtime manager missing active runtime during shutdown".to_owned()),
        }
    }
}

/// What to do about an address that the previous proxy may still hold.
#[derive(Debug)]
pub enum ReleaseStep {
    Released,
    Retry,
    GiveUp(String),
}

/// Decides what to do after an attempt to bind an address: it is free, it is tried again, or, after
/// the deadline, it is given up.
pub fn wait_for_listener_release(
    addr: &str,
    attempt: Result<(), String>,
    deadline_passed: bool,
) -> (step: ReleaseStep)
    ensures
        match attempt {
            Ok(_) => step is Released,
            Err(error) => if deadline_passed {
                step matches ReleaseStep::GiveUp(text) && text@ == "listener "@ + addr@
                    + " did not shut down cleanly: "@ + error@
            } else {
                step is Retry
            },
        },
{
    match attempt {
        Ok(_) => ReleaseStep::Released,
        Err(error) => {
            if deadline_passed {
                let text = joined("listener ", addr);
                let text = joined(text.as_str(), " did not shut down cleanly: ");
                ReleaseStep::GiveUp(joined(text.as_str(), error.as_str()))
            } else {
                ReleaseStep::Retry
            }
        },
    }
}

/// Where a proxy runs and no reload is pending, it runs with the saved configuration: the same
/// backend, domain, address, mode, limits and flags, and as many rules.
pub proof fn without_a_pending_reload_the_saved_settings_run(manager: RuntimeManager)
    requires
        manager.consistent(),
        manager.active is Some,
        !manager.snapshot.pending_reload,
    ensures
        ({
            let active = manager.active->0.runtime;
            let saved = manager.snapshot.saved_config.runtime;
            &&& active.backend_url@ == saved.backend_url@
            &&& active.frontend_domain@ == saved.frontend_domain@
            &&& active.listen_addr@ == saved.listen_addr@
            &&& opt_text(active.upstream_sni_override) == opt_text(saved.upstream_sni_override)
            &&& active.http_mode == saved.http_mode
            &&& active.flush_rows == saved.flush_rows
            &&& active.flush_interval_ms == saved.flush_interval_ms
            &&& active.max_inflight_events == saved.max_inflight_events
            &&& active.body_max_bytes == saved.body_max_bytes
            &&& active.connect_timeout_ms == saved.connect_timeout_ms
            &&& active.request_timeout_ms == saved.request_timeout_ms
            &&& active.idle_pool_timeout_ms == saved.idle_pool_timeout_ms
            &&& active.graceful_shutdown_timeout_ms == saved.graceful_shutdown_timeout_ms
            &&& active.trust_proxy_headers == saved.trust_proxy_headers
            &&& active.emit_keylog == saved.emit_keylog
            &&& manager.active->0.transforms@.len()
                == manager.snapshot.saved_config.transforms@.len()
        }),
        manager.runs(manager.snapshot.saved_config),
        manager.active->0.says_same(manager.snapshot.saved_config),
{
}

/// A configuration with another backend, another domain or another number of rules than that of
/// the running proxy is not the one that runs.
pub proof fn other_configurations_do_not_run(manager: RuntimeManager, other: AppConfigFile)
    requires
        manager.active matches Some(active) ==> active.runtime.backend_url@
            != other.runtime.backend_url@ || active.runtime.frontend_domain@
            != other.runtime.frontend_domain@ || active.transforms@.len() != other.transforms@.len(),
    ensures
        !manager.runs(other),
{
}

/// A summary says what runs: where it listens, for which domain, with which backend and database,
/// with how many rules, and what the writer counted.
pub proof fn summaries_say_what_runs(
    summary: RuntimeSummary,
    app_config: AppConfigFile,
    runtime: RuntimeConfig,
    writer: ParquetWriterHandle,
)
    requires
        summary.is_of(app_config, runtime, writer),
    ensures
        summary.listen_addr@ == runtime.listen_addr.text@,
        summary.frontend_domain@ == runtime.frontend_domain@,
        summary.backend_url@ == runtime.backend_url@,
        summary.sqlite_path@ == runtime.sqlite_path@,
        summary.transform_count == app_config.transforms@.len(),
        runtime.http_mode == HttpMode::Auto ==> summary.http_mode@ == "auto"@,
        runtime.http_mode == HttpMode::Http1 ==> summary.http_mode@ == "http1"@,
        runtime.http_mode == HttpMode::Http2 ==> summary.http_mode@ == "http2"@,
        summary.dropped_events == writer.dropped_count(),
        summary.write_failures == writer.failure_count(),
{
}

/// A reload after which nothing runs is shown with both of its failures.
pub proof fn both_failures_are_shown(failure: Seq<char>, restart: Seq<char>)
    ensures
        fallback_failure_text(failure, restart) == "reload failed: "@ + failure
            + "; fallback restart failed: "@ + restart,
{
}

/// What happens during a reload happens at its stage: reading, stopping, starting, and starting
/// again.
pub proof fn reloads_go_stage_by_stage(event: ReloadEvent, stage: ReloadStage)
    ensures
        event is Loaded || event is LoadFailed ==> (event.can_happen(stage) <==> stage
            == ReloadStage::Loading),
        event is Released || event is NotReleased ==> (event.can_happen(stage) <==> stage
            == ReloadStage::Stopping),
        event is Started || event is StartFailed ==> (event.can_happen(stage) <==> stage
            == ReloadStage::Starting),
        event is Restarted || event is RestartFailed ==> (event.can_happen(stage) <==> stage
            == ReloadStage::Restarting),
{
}

} // verus!
