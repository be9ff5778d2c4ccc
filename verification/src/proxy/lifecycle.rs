//! The lifecycle controller of the listener, as a state machine: it is told
//! what happened and answers what to do next. Whoever owns the socket and
//! the command mailbox performs the actions and reports back.

use vstd::prelude::*;
use vstd::string::*;

use crate::config::opt_view;
use crate::proxy::proxy_config::{
    validation_of, ProxyConfig, ProxyConfigView, ProxyServerStatus, ProxyServerStatusView,
};

verus! {

/// Where the controller stands.
#[derive(Debug, Clone, Copy, PartialEq, Eq, Structural)]
pub enum Phase {
    /// A configuration waits to be validated.
    Starting,
    /// The configuration is valid and the socket is being bound.
    Binding,
    /// Nothing is served; the controller waits for a new configuration.
    Idle,
    /// The listener serves.
    Serving,
    /// The controller has ended.
    Stopped,
}

/// What the owner of the socket is to do next.
#[derive(Debug, Clone, Copy, PartialEq, Eq, Structural)]
pub enum Action {
    /// Find out whether the current host is an IP address and report it.
    Validate,
    /// Stop the serving task, wait for it, then do as for `Validate`.
    StopThenValidate,
    /// Bind the current configuration and report the outcome.
    Bind,
    /// Start serving on the bound socket, publish the status, then wait for
    /// a command.
    Serve,
    /// Publish the status and wait for a command.
    Park,
    /// Stop the serving task, wait for it, and end.
    StopThenExit,
    /// End.
    Exit,
}

/// A message of the command mailbox.
#[derive(Debug)]
pub enum Command {
    /// Serve the given configuration instead of the current one.
    Restart(ProxyConfig),
    /// End.
    Shutdown,
}

/// The mathematical content of a [`Command`].
pub enum CommandView {
    Restart(ProxyConfigView),
    Shutdown,
}

impl View for Command {
    type V = CommandView;

    open spec fn view(&self) -> CommandView {
        match self {
            Command::Restart(config) => CommandView::Restart(config@),
            Command::Shutdown => CommandView::Shutdown,
        }
    }
}

/// The view of what the mailbox gives: a message, or nothing when it is
/// closed.
pub open spec fn message_view(message: Option<Command>) -> Option<CommandView> {
    match message {
        Some(command) => Some(command@),
        None => None,
    }
}

/// The status of a listener that does not serve, for the given reason.
pub open spec fn parked_status(
    previous: ProxyServerStatusView,
    reason: Option<Seq<char>>,
) -> ProxyServerStatusView {
    ProxyServerStatusView {
        is_running: false,
        addr: None,
        started_at: None,
        total_requests: previous.total_requests,
        last_error: reason,
    }
}

/// The status of a listener that serves on `addr` since `now`.
pub open spec fn serving_status(
    previous: ProxyServerStatusView,
    addr: Seq<char>,
    now: i64,
) -> ProxyServerStatusView {
    ProxyServerStatusView {
        is_running: true,
        addr: Some(addr),
        started_at: Some(now),
        total_requests: previous.total_requests,
        last_error: None,
    }
}

/// The status as it is taken over from an earlier run: whatever it said, the
/// listener is not running.
pub open spec fn reset_status(previous: ProxyServerStatusView) -> ProxyServerStatusView {
    ProxyServerStatusView { is_running: false, ..previous }
}

/// The mathematical content of a [`Controller`].
pub struct ControllerView {
    pub phase: Phase,
    pub current: ProxyConfigView,
    pub status: ProxyServerStatusView,
}

impl ControllerView {
    /// The status says that the listener runs exactly while it serves.
    pub open spec fn consistent(self) -> bool {
        self.status.is_running <==> self.phase == Phase::Serving
    }

    /// The controller after it is told whether the current host is an IP
    /// address, and what is to be done then. A valid configuration is bound
    /// next; an invalid one parks the controller with the reason as the last
    /// error. Out of turn the report changes nothing.
    pub open spec fn started(self, host_is_ip: bool) -> (ControllerView, Action) {
        if self.phase != Phase::Starting {
            (self, Action::Park)
        } else {
            match validation_of(self.current, host_is_ip) {
                Ok(_) => (ControllerView { phase: Phase::Binding, ..self }, Action::Bind),
                Err(reason) => (
                    ControllerView {
                        phase: Phase::Idle,
                        status: parked_status(self.status, Some(reason)),
                        ..self
                    },
                    Action::Park,
                ),
            }
        }
    }

    /// The controller after the socket is bound to `addr` at time `now`: it
    /// serves from here on, without a last error. Out of turn the report
    /// changes nothing.
    pub open spec fn bound_to(self, addr: Seq<char>, now: i64) -> (ControllerView, Action) {
        if self.phase != Phase::Binding {
            (self, Action::Park)
        } else {
            (
                ControllerView {
                    phase: Phase::Serving,
                    status: serving_status(self.status, addr, now),
                    ..self
                },
                Action::Serve,
            )
        }
    }

    /// The controller after the socket could not be bound: it parks with the
    /// reason as the last error. Out of turn the report changes nothing.
    pub open spec fn bind_refused(self, reason: Seq<char>) -> (ControllerView, Action) {
        if self.phase != Phase::Binding {
            (self, Action::Park)
        } else {
            (
                ControllerView {
                    phase: Phase::Idle,
                    status: parked_status(self.status, Some(reason)),
                    ..self
                },
                Action::Park,
            )
        }
    }

    /// The controller after the next message of the mailbox, `None` when
    /// the mailbox is closed. A restart makes the given configuration the
    /// current one and validates it, after the serving task is stopped if
    /// there is one. A shutdown and a closed mailbox end the controller.
    /// Messages that arrive while a configuration is being validated or
    /// bound change nothing.
    pub open spec fn commanded(self, message: Option<CommandView>) -> (ControllerView, Action) {
        match self.phase {
            Phase::Serving => match message {
                Some(CommandView::Restart(config)) => (
                    ControllerView {
                        phase: Phase::Starting,
                        current: config,
                        status: parked_status(self.status, None),
                    },
                    Action::StopThenValidate,
                ),
                _ => (
                    ControllerView {
                        phase: Phase::Stopped,
                        status: parked_status(self.status, None),
                        ..self
                    },
                    Action::StopThenExit,
                ),
            },
            Phase::Idle => match message {
                Some(CommandView::Restart(config)) => (
                    ControllerView { phase: Phase::Starting, current: config, ..self },
                    Action::Validate,
                ),
                _ => (ControllerView { phase: Phase::Stopped, ..self }, Action::Exit),
            },
            Phase::Stopped => (self, Action::Exit),
            _ => (self, Action::Park),
        }
    }
}

/// The lifecycle controller.
#[derive(Debug)]
pub struct Controller {
    pub phase: Phase,
    /// The configuration that is served, or is to be.
    pub current: ProxyConfig,
    /// What is published about the listener.
    pub status: ProxyServerStatus,
}

impl View for Controller {
    type V = ControllerView;

    open spec fn view(&self) -> ControllerView {
        ControllerView { phase: self.phase, current: self.current@, status: self.status@ }
    }
}

impl Controller {
    /// A controller that is about to validate `config`. The status of an
    /// earlier run is taken over, except that the listener is not running.
    pub fn new(config: ProxyConfig, previous: ProxyServerStatus) -> (r: Self)
        ensures
            r@ == (ControllerView {
                phase: Phase::Starting,
                current: config@,
                status: reset_status(previous@),
            }),
            r@.consistent(),
    {
        let mut status = previous;
        status.is_running = false;
        Controller { phase: Phase::Starting, current: config, status }
    }

    /// Reports whether the host of the current configuration is an IP
    /// address.
    pub fn start(&mut self, host_is_ip: bool) -> (action: Action)
        ensures
            (final(self)@, action) == old(self)@.started(host_is_ip),
    {
        match self.phase {
            Phase::Starting => {},
            _ => {
                return Action::Park;
            },
        }
        match self.current.validate(host_is_ip) {
            Ok(_) => {
                self.phase = Phase::Binding;
                Action::Bind
            },
            Err(reason) => {
                self.phase = Phase::Idle;
                self.park(Some(reason));
                Action::Park
            },
        }
    }

    fn park(&mut self, reason: Option<String>)
        ensures
            final(self)@ == (ControllerView {
                status: parked_status(old(self)@.status, opt_view(reason)),
                ..old(self)@
            }),
    {
        self.status.is_running = false;
        self.status.addr = None;
        self.status.started_at = None;
        self.status.last_error = reason;
    }

    /// Reports that the socket is bound to `addr` at time `now`.
    pub fn bound(&mut self, addr: String, now: i64) -> (action: Action)
        ensures
            (final(self)@, action) == old(self)@.bound_to(addr@, now),
    {
        match self.phase {
            Phase::Binding => {
                self.phase = Phase::Serving;
                self.status.is_running = true;
                self.status.addr = Some(addr);
                self.status.started_at = Some(now);
                self.status.last_error = None;
                Action::Serve
            },
            _ => Action::Park,
        }
    }

    /// Reports that the socket could not be bound.
    pub fn bind_failed(&mut self, reason: String) -> (action: Action)
        ensures
            (final(self)@, action) == old(self)@.bind_refused(reason@),
    {
        match self.phase {
            Phase::Binding => {
                self.phase = Phase::Idle;
                self.park(Some(reason));
                Action::Park
            },
            _ => Action::Park,
        }
    }

    /// Takes the next message of the mailbox, `None` when the mailbox is
    /// closed.
    pub fn command(&mut self, message: Option<Command>) -> (action: Action)
        ensures
            (final(self)@, action) == old(self)@.commanded(message_view(message)),
    {
        let serving = match self.phase {
            Phase::Serving => true,
            Phase::Idle => false,
            Phase::Stopped => {
                return Action::Exit;
            },
            _ => {
                return Action::Park;
            },
        };
        if serving {
            self.park(None);
        }
        match message {
            Some(Command::Restart(config)) => {
                self.current = config;
                self.phase = Phase::Starting;
                if serving {
                    Action::StopThenValidate
                } else {
                    Action::Validate
                }
            },
            _ => {
                self.phase = Phase::Stopped;
                if serving {
                    Action::StopThenExit
                } else {
                    Action::Exit
                }
            },
        }
    }
}

/// Whatever the controller is told, its status says that the listener runs
/// exactly while it serves.
pub proof fn lemma_status_follows_phase(
    state: ControllerView,
    host_is_ip: bool,
    addr: Seq<char>,
    now: i64,
    reason: Seq<char>,
    message: Option<CommandView>,
)
    requires
        state.consistent(),
    ensures
        state.started(host_is_ip).0.consistent(),
        state.bound_to(addr, now).0.consistent(),
        state.bind_refused(reason).0.consistent(),
        state.commanded(message).0.consistent(),
{
}

/// A bind failure ends nothing: the controller parks with the reason as its
/// last error, and a restart with a configuration that is valid and can be
/// bound brings the listener back, serving that configuration without a
/// last error.
pub proof fn lemma_bind_failure_is_recovered(
    state: ControllerView,
    reason: Seq<char>,
    config: ProxyConfigView,
    addr: Seq<char>,
    now: i64,
)
    requires
        state.phase == Phase::Binding,
        config.port != 0,
    ensures
        ({
            let parked = state.bind_refused(reason);
            let restarted = parked.0.commanded(Some(CommandView::Restart(config)));
            let checked = restarted.0.started(true);
            let served = checked.0.bound_to(addr, now);
            &&& parked.0.phase == Phase::Idle
            &&& parked.0.status.last_error == Some(reason)
            &&& !parked.0.status.is_running
            &&& restarted.1 == Action::Validate
            &&& checked.1 == Action::Bind
            &&& served.1 == Action::Serve
            &&& served.0.phase == Phase::Serving
            &&& served.0.current == config
            &&& served.0.status == serving_status(state.status, addr, now)
        }),
{
}

/// A restart of a serving listener stops it and serves the new
/// configuration: the old task is stopped before the new configuration is
/// validated, and once the socket is bound the status names the new address
/// and start time, without a last error.
pub proof fn lemma_restart_rebinds(
    state: ControllerView,
    config: ProxyConfigView,
    addr: Seq<char>,
    now: i64,
)
    requires
        state.phase == Phase::Serving,
        config.port != 0,
    ensures
        ({
            let restarted = state.commanded(Some(CommandView::Restart(config)));
            let checked = restarted.0.started(true);
            let served = checked.0.bound_to(addr, now);
            &&& restarted.1 == Action::StopThenValidate
            &&& !restarted.0.status.is_running
            &&& checked.1 == Action::Bind
            &&& served.1 == Action::Serve
            &&& served.0.phase == Phase::Serving
            &&& served.0.current == config
            &&& served.0.status.addr == Some(addr)
            &&& served.0.status.started_at == Some(now)
            &&& served.0.status.last_error == None::<Seq<char>>
        }),
{
}

/// Once the controller has ended, nothing starts it again.
pub proof fn lemma_stopped_stays_stopped(
    state: ControllerView,
    host_is_ip: bool,
    addr: Seq<char>,
    now: i64,
    reason: Seq<char>,
    message: Option<CommandView>,
)
    requires
        state.phase == Phase::Stopped,
    ensures
        state.started(host_is_ip).0 == state,
        state.bound_to(addr, now).0 == state,
        state.bind_refused(reason).0 == state,
        state.commanded(message) == (state, Action::Exit),
{
}

} // verus!
