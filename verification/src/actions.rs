//! The action executor: consumes the first trigger event and runs the
//! protective sequence — broadcast, grace delay, protective dismount,
//! forced power-off — in that order, exactly once.
//!
//! Every step is best effort except the last: a failed broadcast or a
//! failed dismount is logged and the sequence continues regardless. That
//! policy is visible in the contracts here: advancing past a step does not
//! depend on whether the step succeeded, so no simulated failure can keep
//! the power-off step from being reached. The external programs themselves
//! are invoked outside; this state machine decides what runs next.

use vstd::prelude::*;

verus! {

use crate::config::Config;

/// One step of the protective sequence.
#[derive(Clone, Copy, Debug, PartialEq, Eq, Structural)]
pub enum ActionStep {
    /// Best effort: tell peer instances on the local subnet.
    Broadcast,
    /// Wait a short fixed interval before the irreversible part.
    GraceDelay,
    /// Best effort: force-dismount the encrypted volumes.
    Dismount,
    /// Terminal: force the platform to power off.
    PowerOff,
}

/// The platform the external tools are resolved for.
#[derive(Clone, Copy, Debug, PartialEq, Eq, Structural)]
pub enum Platform {
    Windows,
    MacOs,
    Linux,
}

pub struct ActionExecutor {
    config: Config,
    next_index: u8,
}

/// The step standing at position `i` of the sequence.
pub open spec fn step_at(i: int) -> Option<ActionStep> {
    if i == 0 {
        Some(ActionStep::Broadcast)
    } else if i == 1 {
        Some(ActionStep::GraceDelay)
    } else if i == 2 {
        Some(ActionStep::Dismount)
    } else if i == 3 {
        Some(ActionStep::PowerOff)
    } else {
        None
    }
}

impl ActionExecutor {
    /// How many steps have been taken.
    pub closed spec fn next_index(&self) -> u8 {
        self.next_index
    }

    /// The configuration the sequence runs with.
    pub closed spec fn spec_config(&self) -> Config {
        self.config
    }

    /// The post-state of taking one step: the position advances and
    /// nothing else changes. Deliberately not a function of the step's
    /// outcome — see `advance`.
    pub closed spec fn spec_advance(pre: ActionExecutor) -> ActionExecutor {
        ActionExecutor {
            next_index: if pre.next_index < 4 {
                (pre.next_index + 1) as u8
            } else {
                pre.next_index
            },
            ..pre
        }
    }

    /// What `spec_advance` does to the position, stated for callers.
    pub open spec fn advance_rel(pre: ActionExecutor, post: ActionExecutor) -> bool {
        &&& post.next_index() == if pre.next_index() < 4 {
            pre.next_index() + 1
        } else {
            pre.next_index() as int
        }
        &&& post.spec_config() == pre.spec_config()
    }

    pub fn new(config: Config) -> (r: ActionExecutor)
        ensures
            r.next_index() == 0,
            r.spec_config() == config,
    {
        ActionExecutor { config, next_index: 0 }
    }

    /// The step to perform next, or nothing once the sequence is spent.
    pub fn next_action(&self) -> (r: Option<ActionStep>)
        ensures
            r == step_at(self.next_index() as int),
    {
        match self.next_index {
            0 => Some(ActionStep::Broadcast),
            1 => Some(ActionStep::GraceDelay),
            2 => Some(ActionStep::Dismount),
            3 => Some(ActionStep::PowerOff),
            _ => None,
        }
    }

    /// One step was performed, successfully or not: move to the next. The
    /// post-state is `spec_advance` of the old state alone — it does not
    /// depend on `step_succeeded` — so a failed broadcast or dismount
    /// cannot keep the sequence from reaching power-off.
    pub fn advance(&mut self, step_succeeded: bool)
        ensures
            *final(self) == ActionExecutor::spec_advance(*old(self)),
            ActionExecutor::advance_rel(*old(self), *final(self)),
    {
        if self.next_index < 4 {
            self.next_index = self.next_index + 1;
        }
    }

    /// The whole sequence, in order: what a fresh executor performs.
    pub fn plan() -> (r: Vec<ActionStep>)
        ensures
            r@ =~= seq![
                ActionStep::Broadcast,
                ActionStep::GraceDelay,
                ActionStep::Dismount,
                ActionStep::PowerOff,
            ],
    {
        let mut r: Vec<ActionStep> = Vec::new();
        r.push(ActionStep::Broadcast);
        r.push(ActionStep::GraceDelay);
        r.push(ActionStep::Dismount);
        r.push(ActionStep::PowerOff);
        r
    }

    /// The full path of the external disk-encryption tool on `platform`.
    pub fn veracrypt_path(platform: Platform) -> (r: &'static str)
        ensures
            platform is Windows ==> r@ == "C:\\Program Files\\VeraCrypt\\VeraCrypt.exe"@,
            platform is MacOs ==> r@ == "/Applications/VeraCrypt.app/Contents/MacOS/VeraCrypt"@,
            platform is Linux ==> r@ == "veracrypt"@,
    {
        match platform {
            Platform::Windows => "C:\\Program Files\\VeraCrypt\\VeraCrypt.exe",
            Platform::MacOs => "/Applications/VeraCrypt.app/Contents/MacOS/VeraCrypt",
            Platform::Linux => "veracrypt",
        }
    }

    /// The arguments of the forced dismount on `platform`.
    pub fn dismount_args(platform: Platform) -> (r: Vec<&'static str>)
        ensures
            platform is Windows ==> (r@.len() == 5 && r@[0]@ == "/d"@ && r@[1]@ == "/f"@ && r@[2]@
                == "/w"@ && r@[3]@ == "/q"@ && r@[4]@ == "/s"@),
            !(platform is Windows) ==> (r@.len() == 2 && r@[0]@ == "-d"@ && r@[1]@ == "-f"@),
    {
        let mut r: Vec<&'static str> = Vec::new();
        match platform {
            Platform::Windows => {
                r.push("/d");
                r.push("/f");
                r.push("/w");
                r.push("/q");
                r.push("/s");
            },
            _ => {
                r.push("-d");
                r.push("-f");
            },
        }
        r
    }

    /// The forced power-off command and its arguments on `platform`.
    pub fn shutdown_invocation(platform: Platform) -> (r: (&'static str, Vec<&'static str>))
        ensures
            platform is Windows ==> (r.0@ == "shutdown"@ && r.1@.len() == 2 && r.1@[0]@ == "/p"@
                && r.1@[1]@ == "/f"@),
            platform is MacOs ==> (r.0@ == "halt"@ && r.1@.len() == 1 && r.1@[0]@ == "-q"@),
            platform is Linux ==> (r.0@ == "systemctl"@ && r.1@.len() == 2 && r.1@[0]@
                == "poweroff"@ && r.1@[1]@ == "-f"@),
    {
        let mut args: Vec<&'static str> = Vec::new();
        match platform {
            Platform::Windows => {
                args.push("/p");
                args.push("/f");
                ("shutdown", args)
            },
            Platform::MacOs => {
                args.push("-q");
                ("halt", args)
            },
            Platform::Linux => {
                args.push("poweroff");
                args.push("-f");
                ("systemctl", args)
            },
        }
    }
}

/// The protective sequence runs in its fixed order whatever each step's
/// outcome was: from a fresh executor, the four successive states perform
/// broadcast, grace delay, dismount and power-off in that order, and the
/// sequence is then spent. Because `advance` relates its post-state to its
/// pre-state alone — never to the step's outcome — a simulated failure of
/// the broadcast or the dismount cannot prevent power-off from being
/// reached.
pub proof fn lemma_sequence_order(e0: ActionExecutor)
    requires
        e0.next_index() == 0,
    ensures
        step_at(e0.next_index() as int) == Some(ActionStep::Broadcast),
        step_at(ActionExecutor::spec_advance(e0).next_index() as int) == Some(
            ActionStep::GraceDelay,
        ),
        step_at(ActionExecutor::spec_advance(ActionExecutor::spec_advance(e0)).next_index() as int)
            == Some(ActionStep::Dismount),
        step_at(
            ActionExecutor::spec_advance(
                ActionExecutor::spec_advance(ActionExecutor::spec_advance(e0)),
            ).next_index() as int,
        ) == Some(ActionStep::PowerOff),
        step_at(
            ActionExecutor::spec_advance(
                ActionExecutor::spec_advance(
                    ActionExecutor::spec_advance(ActionExecutor::spec_advance(e0)),
                ),
            ).next_index() as int,
        ) is None,
{
}

} // verus!
