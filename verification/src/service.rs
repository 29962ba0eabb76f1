use vstd::prelude::*;

verus! {

/// The service-management commands the background daemon accepts.
#[derive(Clone, Debug)]
pub enum ServiceOpts {
    Install,
    Uninstall,
    Stop,
    Run,
    SelfUpdate { service_executable: String },
}

/// What the runner must perform next. The runner carries out each action
/// against the platform's service manager and reports back whether it
/// succeeded; only the decisions live here.
#[derive(Clone, Copy, Debug, PartialEq, Eq, Structural)]
pub enum ServiceAction {
    StopService,
    UninstallService,
    InstallService,
    StartService,
    RunService,
    SelfUpdateService,
    Sleep,
    Finish,
    Fail,
}

/// Where a service command stands.
#[derive(Clone, Copy, Debug, PartialEq, Eq, Structural)]
pub enum ServicePhase {
    Stopping,
    Uninstalling,
    WaitingToInstall,
    Installing,
    Starting,
    Running,
    Updating,
    Done,
    Failed,
}

/// How many times a failed service installation is retried before giving
/// up: installing right after an uninstall fails at times while the service
/// is still locked.
pub const INSTALL_RETRIES: u32 = 5;

/// The exact transition table of the service command runner: given the
/// command, the current phase, the retries left and the outcome of the last
/// action, the next phase, the retries left and the next action.
pub open spec fn spec_service_next(
    opts: ServiceOpts,
    phase: ServicePhase,
    retries: u32,
    ok: bool,
) -> (ServicePhase, u32, ServiceAction) {
    match phase {
        ServicePhase::Stopping => {
            if !ok {
                (ServicePhase::Failed, retries, ServiceAction::Fail)
            } else {
                match opts {
                    ServiceOpts::Install => (
                        ServicePhase::Uninstalling,
                        retries,
                        ServiceAction::UninstallService,
                    ),
                    ServiceOpts::Uninstall => (
                        ServicePhase::Uninstalling,
                        retries,
                        ServiceAction::UninstallService,
                    ),
                    ServiceOpts::Stop => (ServicePhase::Done, retries, ServiceAction::Finish),
                    _ => (ServicePhase::Failed, retries, ServiceAction::Fail),
                }
            }
        },
        ServicePhase::Uninstalling => {
            if !ok {
                (ServicePhase::Failed, retries, ServiceAction::Fail)
            } else {
                match opts {
                    ServiceOpts::Install => (
                        ServicePhase::WaitingToInstall,
                        INSTALL_RETRIES,
                        ServiceAction::Sleep,
                    ),
                    ServiceOpts::Uninstall => (ServicePhase::Done, retries, ServiceAction::Finish),
                    _ => (ServicePhase::Failed, retries, ServiceAction::Fail),
                }
            }
        },
        ServicePhase::WaitingToInstall => {
            if !ok {
                (ServicePhase::Failed, retries, ServiceAction::Fail)
            } else {
                (ServicePhase::Installing, retries, ServiceAction::InstallService)
            }
        },
        ServicePhase::Installing => {
            if ok {
                (ServicePhase::Starting, retries, ServiceAction::StartService)
            } else if retries == 0 {
                (ServicePhase::Failed, retries, ServiceAction::Fail)
            } else {
                (ServicePhase::WaitingToInstall, (retries - 1) as u32, ServiceAction::Sleep)
            }
        },
        ServicePhase::Starting => {
            if ok {
                (ServicePhase::Done, retries, ServiceAction::Finish)
            } else {
                (ServicePhase::Failed, retries, ServiceAction::Fail)
            }
        },
        ServicePhase::Running => {
            if ok {
                (ServicePhase::Done, retries, ServiceAction::Finish)
            } else {
                (ServicePhase::Failed, retries, ServiceAction::Fail)
            }
        },
        ServicePhase::Updating => {
            if ok {
                (ServicePhase::Done, retries, ServiceAction::Finish)
            } else {
                (ServicePhase::Failed, retries, ServiceAction::Fail)
            }
        },
        ServicePhase::Done => (ServicePhase::Done, retries, ServiceAction::Finish),
        ServicePhase::Failed => (ServicePhase::Failed, retries, ServiceAction::Fail),
    }
}

/// The decision half of the service command runner. The outside work — the
/// waits and the calls into the platform's service manager — happens in the
/// runner, one action at a time; the machine only decides what follows from
/// each reported outcome. An install stops and uninstalls any old service
/// first, then retries the installation a bounded number of times with a
/// pause before each attempt, then starts the service.
#[derive(Clone, Debug)]
pub struct ServiceCommandMachine {
    pub opts: ServiceOpts,
    pub phase: ServicePhase,
    pub retries: u32,
}

impl ServiceCommandMachine {
    /// Begin a command: the machine, and the first action to perform.
    pub fn start(opts: ServiceOpts) -> (r: (ServiceCommandMachine, ServiceAction))
        ensures
            r.0.opts == opts,
            r.0.retries == INSTALL_RETRIES,
            opts is Install ==> r.0.phase is Stopping && r.1 is StopService,
            opts is Uninstall ==> r.0.phase is Stopping && r.1 is StopService,
            opts is Stop ==> r.0.phase is Stopping && r.1 is StopService,
            opts is Run ==> r.0.phase is Running && r.1 is RunService,
            opts is SelfUpdate ==> r.0.phase is Updating && r.1 is SelfUpdateService,
    {
        let (phase, action) = match &opts {
            ServiceOpts::Install => (ServicePhase::Stopping, ServiceAction::StopService),
            ServiceOpts::Uninstall => (ServicePhase::Stopping, ServiceAction::StopService),
            ServiceOpts::Stop => (ServicePhase::Stopping, ServiceAction::StopService),
            ServiceOpts::Run => (ServicePhase::Running, ServiceAction::RunService),
            ServiceOpts::SelfUpdate { .. } => (
                ServicePhase::Updating,
                ServiceAction::SelfUpdateService,
            ),
        };
        (ServiceCommandMachine { opts, phase, retries: INSTALL_RETRIES }, action)
    }

    /// Advance on the runner's report of the last action's outcome, and
    /// answer the next action, exactly as the transition table says.
    pub fn on_result(&mut self, ok: bool) -> (a: ServiceAction)
        ensures
            final(self).opts == old(self).opts,
            (final(self).phase, final(self).retries, a) == spec_service_next(
                old(self).opts,
                old(self).phase,
                old(self).retries,
                ok,
            ),
    {
        let (phase, retries, action) = match self.phase {
            ServicePhase::Stopping => {
                if !ok {
                    (ServicePhase::Failed, self.retries, ServiceAction::Fail)
                } else {
                    match &self.opts {
                        ServiceOpts::Install => (
                            ServicePhase::Uninstalling,
                            self.retries,
                            ServiceAction::UninstallService,
                        ),
                        ServiceOpts::Uninstall => (
                            ServicePhase::Uninstalling,
                            self.retries,
                            ServiceAction::UninstallService,
                        ),
                        ServiceOpts::Stop => (
                            ServicePhase::Done,
                            self.retries,
                            ServiceAction::Finish,
                        ),
                        _ => (ServicePhase::Failed, self.retries, ServiceAction::Fail),
                    }
                }
            },
            ServicePhase::Uninstalling => {
                if !ok {
                    (ServicePhase::Failed, self.retries, ServiceAction::Fail)
                } else {
                    match &self.opts {
                        ServiceOpts::Install => (
                            ServicePhase::WaitingToInstall,
                            INSTALL_RETRIES,
                            ServiceAction::Sleep,
                        ),
                        ServiceOpts::Uninstall => (
                            ServicePhase::Done,
                            self.retries,
                            ServiceAction::Finish,
                        ),
                        _ => (ServicePhase::Failed, self.retries, ServiceAction::Fail),
                    }
                }
            },
            ServicePhase::WaitingToInstall => {
                if !ok {
                    (ServicePhase::Failed, self.retries, ServiceAction::Fail)
                } else {
                    (ServicePhase::Installing, self.retries, ServiceAction::InstallService)
                }
            },
            ServicePhase::Installing => {
                if ok {
                    (ServicePhase::Starting, self.retries, ServiceAction::StartService)
                } else if self.retries == 0 {
                    (ServicePhase::Failed, self.retries, ServiceAction::Fail)
                } else {
                    (ServicePhase::WaitingToInstall, self.retries - 1, ServiceAction::Sleep)
                }
            },
            ServicePhase::Starting => {
                if ok {
                    (ServicePhase::Done, self.retries, ServiceAction::Finish)
                } else {
                    (ServicePhase::Failed, self.retries, ServiceAction::Fail)
                }
            },
            ServicePhase::Running => {
                if ok {
                    (ServicePhase::Done, self.retries, ServiceAction::Finish)
                } else {
                    (ServicePhase::Failed, self.retries, ServiceAction::Fail)
                }
            },
            ServicePhase::Updating => {
                if ok {
                    (ServicePhase::Done, self.retries, ServiceAction::Finish)
                } else {
                    (ServicePhase::Failed, self.retries, ServiceAction::Fail)
                }
            },
            ServicePhase::Done => (ServicePhase::Done, self.retries, ServiceAction::Finish),
            ServicePhase::Failed => (ServicePhase::Failed, self.retries, ServiceAction::Fail),
        };
        self.phase = phase;
        self.retries = retries;
        action
    }
}

} // verus!
