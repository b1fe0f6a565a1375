use vstd::prelude::*;
use crate::config::{config_valid, diff_spec, DiffAction, ServerConfig};

verus! {

/// A running server bound to one config, with its lifecycle state.
#[derive(Debug)]
pub struct ServerInstance {
    pub config: ServerConfig,
    /// False once the instance stopped accepting new work.
    pub accepting: bool,
    /// In-flight units of work (open connections).
    pub alive_count: u64,
    /// Cumulative count of accepted units of work.
    pub total_accepted: u64,
    /// The quit policy: graceful while false, forced once set.
    pub force_quit: bool,
    /// How many times dependency-bound parts were refreshed in place.
    pub dependency_reloads: u64,
}

pub open spec fn bump(n: u64) -> u64 {
    if n < u64::MAX { (n + 1) as u64 } else { n }
}

/// What `prepare_initial` makes of a valid config: an online instance with
/// zeroed counters.
pub open spec fn fresh(c: ServerConfig) -> ServerInstance {
    ServerInstance {
        config: c,
        accepting: true,
        alive_count: 0,
        total_accepted: 0,
        force_quit: false,
        dependency_reloads: 0,
    }
}

/// The instance `p` stopped from accepting new work; in-flight work goes on.
pub open spec fn aborted(p: ServerInstance) -> ServerInstance {
    ServerInstance { accepting: false, ..p }
}

/// `p` with its dependency-bound parts refreshed.
pub open spec fn refreshed(p: ServerInstance) -> ServerInstance {
    ServerInstance { dependency_reloads: bump(p.dependency_reloads), ..p }
}

/// The online instance that serves `c` after reconciling the running `p`.
pub open spec fn transition(p: ServerInstance, c: ServerConfig) -> ServerInstance {
    match diff_spec(p.config, c) {
        DiffAction::NoAction => p,
        DiffAction::SpawnNew => fresh(c),
        DiffAction::ReloadOnlyConfig => ServerInstance { config: c, ..p },
        DiffAction::ReloadAndRespawn => ServerInstance { total_accepted: p.total_accepted, ..fresh(c) },
        DiffAction::UpdateInPlace(_) => ServerInstance { config: c, ..refreshed(p) },
    }
}

/// Whether reconciling `p` to `c` replaces the instance by a new one.
pub open spec fn supersedes(p: ServerInstance, c: ServerConfig) -> bool {
    diff_spec(p.config, c) == DiffAction::SpawnNew || diff_spec(p.config, c) == DiffAction::ReloadAndRespawn
}

impl ServerInstance {
    /// Builds a new online instance from `config`, or rejects the config.
    pub fn prepare_initial(config: ServerConfig) -> (r: Option<ServerInstance>)
        ensures
            config_valid(config) ==> r == Some(fresh(config)),
            !config_valid(config) ==> r is None,
    {
        if !config.is_valid() {
            return None;
        }
        Some(ServerInstance {
            config,
            accepting: true,
            alive_count: 0,
            total_accepted: 0,
            force_quit: false,
            dependency_reloads: 0,
        })
    }

    /// An exact copy of this instance.
    pub fn duplicate(&self) -> (r: ServerInstance)
        ensures
            r == *self,
    {
        ServerInstance {
            config: self.config.duplicate(),
            accepting: self.accepting,
            alive_count: self.alive_count,
            total_accepted: self.total_accepted,
            force_quit: self.force_quit,
            dependency_reloads: self.dependency_reloads,
        }
    }

    /// Stops accepting new work; in-flight work is left running.
    pub fn abort_runtime(&mut self)
        ensures
            *final(self) == aborted(*old(self)),
    {
        self.accepting = false;
    }

    /// Switches the quit policy to forced; it never goes back.
    pub fn set_force_quit(&mut self)
        ensures
            *final(self) == (ServerInstance { force_quit: true, ..*old(self) }),
    {
        self.force_quit = true;
    }

    /// Refreshes the dependency-bound parts of the instance.
    pub fn refresh_dependencies(&mut self)
        ensures
            *final(self) == refreshed(*old(self)),
    {
        if self.dependency_reloads < u64::MAX {
            self.dependency_reloads = self.dependency_reloads + 1;
        }
    }

    /// A new instance for `config` that carries over this one's counters.
    pub fn respawn(&self, config: ServerConfig) -> (r: Option<ServerInstance>)
        ensures
            config_valid(config) ==> r == Some(ServerInstance { total_accepted: self.total_accepted, ..fresh(config) }),
            !config_valid(config) ==> r is None,
    {
        match ServerInstance::prepare_initial(config) {
            Some(mut s) => {
                s.total_accepted = self.total_accepted;
                Some(s)
            },
            None => None,
        }
    }
}

} // verus!
