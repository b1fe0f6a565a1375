use vstd::prelude::*;
use crate::config::{config_valid, diff_spec, lemma_diff_no_action_same, lemma_diff_same, dependency_of, kind_binds, Dependency, DiffAction, ServerConfig};
use crate::instance::{aborted, fresh, refreshed, supersedes, transition, ServerInstance};

verus! {

/// Why a registry operation could not be applied.
#[derive(PartialEq, Eq, Structural, Clone, Copy, Debug)]
pub enum ServeError {
    /// No online server has the requested name.
    NotFound,
    /// A loaded config carries another name than the one asked for.
    ConfigMismatch,
    /// The server has no recorded config position to reload from.
    NoPosition,
    /// The config source failed to produce a config.
    LoadError,
    /// The server kind rejected the config.
    ConfigError,
    /// The instance cannot apply the requested change.
    ReconcileError,
    /// An online instance with that name already exists.
    AlreadyOnline,
}

pub open spec fn names_unique(s: Seq<ServerInstance>) -> bool {
    forall|i: int, j: int|
        0 <= i < s.len() && 0 <= j < s.len() && i != j ==> s[i].config.name@ != s[j].config.name@
}

pub open spec fn has_name(s: Seq<ServerInstance>, n: Seq<char>) -> bool {
    exists|i: int| 0 <= i < s.len() && s[i].config.name@ == n
}

pub open spec fn index_of(s: Seq<ServerInstance>, n: Seq<char>) -> int {
    choose|i: int| 0 <= i < s.len() && s[i].config.name@ == n
}

/// The desired configs name each server at most once.
pub open spec fn desired_distinct(cs: Seq<ServerConfig>) -> bool {
    forall|i: int, j: int| 0 <= i < cs.len() && 0 <= j < cs.len() && i != j ==> cs[i].name@ != cs[j].name@
}

pub open spec fn desires(cs: Seq<ServerConfig>, n: Seq<char>) -> bool {
    exists|j: int| 0 <= j < cs.len() && cs[j].name@ == n
}

/// The online instance that serves `c` once the online set `s` is reconciled.
pub open spec fn next_instance(s: Seq<ServerInstance>, c: ServerConfig) -> ServerInstance {
    if has_name(s, c.name@) {
        transition(s[index_of(s, c.name@)], c)
    } else {
        fresh(c)
    }
}

/// Whether reconciling `c` against the online set `s` prepares a new instance.
pub open spec fn needs_prepare(s: Seq<ServerInstance>, c: ServerConfig) -> bool {
    !has_name(s, c.name@) || supersedes(s[index_of(s, c.name@)], c)
}

/// Reconciling the online set `s` to `cs` fails: some config that must be
/// prepared is rejected.
pub open spec fn reconcile_fails(s: Seq<ServerInstance>, cs: Seq<ServerConfig>) -> bool {
    exists|j: int| 0 <= j < cs.len() && needs_prepare(s, cs[j]) && !config_valid(cs[j])
}

/// `t` is the online set that reconciling `s` to `cs` yields: one instance
/// per desired config, in the desired order.
pub open spec fn reconciled(s: Seq<ServerInstance>, cs: Seq<ServerConfig>, t: Seq<ServerInstance>) -> bool {
    &&& t.len() == cs.len()
    &&& forall|j: int| 0 <= j < cs.len() ==> t[j] == next_instance(s, cs[j])
}

/// `t` keeps `s` as a prefix and holds only instances that stopped accepting
/// after it.
pub open spec fn offline_extends(s: Seq<ServerInstance>, t: Seq<ServerInstance>) -> bool {
    &&& s.len() <= t.len()
    &&& forall|k: int| 0 <= k < s.len() ==> t[k] == s[k]
    &&& forall|k: int| s.len() <= k < t.len() ==> !t[k].accepting
}

/// The instances of `s` that still have work in flight, in order.
pub open spec fn live(s: Seq<ServerInstance>) -> Seq<ServerInstance>
    decreases s.len(),
{
    if s.len() == 0 {
        Seq::empty()
    } else if s.last().alive_count > 0 {
        live(s.drop_last()).push(s.last())
    } else {
        live(s.drop_last())
    }
}

/// Result of a dependency-triggered reload of instance `p`.
pub open spec fn after_dependency_change(p: ServerInstance, d: Dependency, dep: Seq<char>) -> ServerInstance {
    if dependency_of(p.config, d) == dep && kind_binds(p.config.kind, d) {
        refreshed(p)
    } else {
        p
    }
}

/// Names of the instances of `s` that reference `dep` but cannot refresh it.
pub open spec fn dependency_failures(s: Seq<ServerInstance>, d: Dependency, dep: Seq<char>) -> Seq<Seq<char>>
    decreases s.len(),
{
    if s.len() == 0 {
        Seq::empty()
    } else if dependency_of(s.last().config, d) == dep && !kind_binds(s.last().config.kind, d) {
        dependency_failures(s.drop_last(), d, dep).push(s.last().config.name@)
    } else {
        dependency_failures(s.drop_last(), d, dep)
    }
}

pub proof fn lemma_index_of(s: Seq<ServerInstance>, n: Seq<char>, i: int)
    requires
        names_unique(s),
        0 <= i < s.len(),
        s[i].config.name@ == n,
    ensures
        has_name(s, n),
        index_of(s, n) == i,
{
}

/// An offline instance that still has work in flight, and how much.
#[derive(Debug)]
pub struct Pending {
    pub name: String,
    pub alive_count: u64,
}

/// The inventory of server instances, split into online and offline
/// (draining) partitions.
#[derive(Debug)]
pub struct Registry {
    pub online: Vec<ServerInstance>,
    pub offline: Vec<ServerInstance>,
}

impl Registry {
    /// At most one online instance per name.
    pub open spec fn wf(&self) -> bool {
        names_unique(self.online@)
    }

    pub fn new() -> (r: Registry)
        ensures
            r.wf(),
            r.online@.len() == 0,
            r.offline@.len() == 0,
    {
        Registry { online: Vec::new(), offline: Vec::new() }
    }

    fn find_online(&self, name: &String) -> (r: Option<usize>)
        requires
            self.wf(),
        ensures
            match r {
                Some(i) => i < self.online@.len() && self.online@[i as int].config.name@ == name@
                    && index_of(self.online@, name@) == i && has_name(self.online@, name@),
                None => !has_name(self.online@, name@),
            },
    {
        let mut i: usize = 0;
        while i < self.online.len()
            invariant
                self.wf(),
                i <= self.online@.len(),
                forall|k: int| 0 <= k < i ==> self.online@[k].config.name@ != name@,
            decreases self.online@.len() - i,
        {
            if self.online[i].config.name == *name {
                proof {
                    lemma_index_of(self.online@, name@, i as int);
                }
                return Some(i);
            }
            i = i + 1;
        }
        None
    }

    /// Current config of the online server `name`.
    pub fn get_config(&self, name: &String) -> (r: Option<ServerConfig>)
        requires
            self.wf(),
        ensures
            has_name(self.online@, name@) ==> r == Some(self.online@[index_of(self.online@, name@)].config),
            !has_name(self.online@, name@) ==> r is None,
    {
        match self.find_online(name) {
            Some(i) => Some(self.online[i].config.duplicate()),
            None => None,
        }
    }

    /// The online instance named `name`; offline instances are never returned.
    pub fn get_server(&self, name: &String) -> (r: Option<ServerInstance>)
        requires
            self.wf(),
        ensures
            has_name(self.online@, name@) ==> r == Some(self.online@[index_of(self.online@, name@)]),
            !has_name(self.online@, name@) ==> r is None,
    {
        match self.find_online(name) {
            Some(i) => Some(self.online[i].duplicate()),
            None => None,
        }
    }

    /// Names of all online servers.
    pub fn get_names(&self) -> (r: Vec<String>)
        ensures
            r@.len() == self.online@.len(),
            forall|i: int| 0 <= i < r@.len() ==> r@[i]@ == self.online@[i].config.name@,
    {
        let mut r: Vec<String> = Vec::new();
        let mut i: usize = 0;
        while i < self.online.len()
            invariant
                i <= self.online@.len(),
                r@.len() == i,
                forall|k: int| 0 <= k < i ==> r@[k]@ == self.online@[k].config.name@,
            decreases self.online@.len() - i,
        {
            r.push(self.online[i].config.name.clone());
            i = i + 1;
        }
        r
    }

    /// Registers a new online instance; refused where the name is online.
    pub fn add(&mut self, server: ServerInstance) -> (r: Result<(), ServeError>)
        requires
            old(self).wf(),
        ensures
            final(self).wf(),
            has_name(old(self).online@, server.config.name@) ==> r == Err::<(), ServeError>(ServeError::AlreadyOnline)
                && *final(self) == *old(self),
            !has_name(old(self).online@, server.config.name@) ==> r is Ok
                && final(self).online@ == old(self).online@.push(server)
                && final(self).offline@ == old(self).offline@,
    {
        match self.find_online(&server.config.name) {
            Some(_) => Err(ServeError::AlreadyOnline),
            None => {
                self.online.push(server);
                Ok(())
            },
        }
    }

    /// Moves an instance into the offline partition for drain tracking.
    pub fn add_offline(&mut self, server: ServerInstance)
        ensures
            final(self).online@ == old(self).online@,
            final(self).offline@ == old(self).offline@.push(server),
    {
        self.offline.push(server);
    }

    /// Takes the online server `name` out of service: it stops accepting
    /// and drains in the offline partition.
    pub fn del(&mut self, name: &String) -> (r: bool)
        requires
            old(self).wf(),
        ensures
            final(self).wf(),
            r == has_name(old(self).online@, name@),
            r ==> final(self).online@ == old(self).online@.remove(index_of(old(self).online@, name@))
                && final(self).offline@ == old(self).offline@.push(
                    aborted(old(self).online@[index_of(old(self).online@, name@)])),
            !r ==> *final(self) == *old(self),
    {
        match self.find_online(name) {
            Some(i) => {
                let mut server = self.online.remove(i);
                server.abort_runtime();
                self.offline.push(server);
                true
            },
            None => false,
        }
    }

    /// Purges offline instances with no work in flight.
    pub fn retain_offline(&mut self)
        ensures
            final(self).online@ == old(self).online@,
            final(self).offline@ == live(old(self).offline@),
    {
        let ghost off = self.offline@;
        let mut kept: Vec<ServerInstance> = Vec::new();
        let mut i: usize = 0;
        while i < self.offline.len()
            invariant
                i <= off.len(),
                self.offline@ == off,
                kept@ == live(off.subrange(0, i as int)),
            decreases off.len() - i,
        {
            proof {
                assert(off.subrange(0, i + 1).drop_last() =~= off.subrange(0, i as int));
            }
            if self.offline[i].alive_count > 0 {
                kept.push(self.offline[i].duplicate());
            }
            i = i + 1;
        }
        proof {
            assert(off.subrange(0, off.len() as int) =~= off);
        }
        self.offline = kept;
    }
}


impl Registry {
    /// The instance that takes the place of online instance `i` under config
    /// `c`; a superseded instance is moved offline.
    fn reconciled_instance(&mut self, i: usize, c: ServerConfig) -> (r: Result<ServerInstance, ServeError>)
        requires
            i < old(self).online@.len(),
            old(self).online@[i as int].config.name@ == c.name@,
        ensures
            final(self).online@ == old(self).online@,
            (supersedes(old(self).online@[i as int], c) && !config_valid(c)) ==> r == Err::<ServerInstance, ServeError>(ServeError::ConfigError)
                && *final(self) == *old(self),
            !(supersedes(old(self).online@[i as int], c) && !config_valid(c)) ==> r == Ok::<ServerInstance, ServeError>(transition(old(self).online@[i as int], c))
                && final(self).offline@ == if supersedes(old(self).online@[i as int], c) {
                    old(self).offline@.push(aborted(old(self).online@[i as int]))
                } else {
                    old(self).offline@
                },
    {
        let action = self.online[i].config.diff_action(&c);
        match action {
            DiffAction::NoAction => Ok(self.online[i].duplicate()),
            DiffAction::SpawnNew => match ServerInstance::prepare_initial(c) {
                Some(server) => {
                    let mut superseded = self.online[i].duplicate();
                    superseded.abort_runtime();
                    self.offline.push(superseded);
                    Ok(server)
                },
                None => Err(ServeError::ConfigError),
            },
            DiffAction::ReloadOnlyConfig => {
                let mut server = self.online[i].duplicate();
                server.config = c;
                Ok(server)
            },
            DiffAction::ReloadAndRespawn => match self.online[i].respawn(c) {
                Some(server) => {
                    let mut superseded = self.online[i].duplicate();
                    superseded.abort_runtime();
                    self.offline.push(superseded);
                    Ok(server)
                },
                None => Err(ServeError::ConfigError),
            },
            DiffAction::UpdateInPlace(_) => {
                let mut server = self.online[i].duplicate();
                server.refresh_dependencies();
                server.config = c;
                Ok(server)
            },
        }
    }

    /// Prepares a new instance from `config` and registers it online; an
    /// online instance of that name is superseded and drains offline.
    pub fn spawn_new_unlocked(&mut self, config: ServerConfig) -> (r: Result<(), ServeError>)
        requires
            old(self).wf(),
        ensures
            final(self).wf(),
            !config_valid(config) ==> r == Err::<(), ServeError>(ServeError::ConfigError) && *final(self) == *old(self),
            config_valid(config) && has_name(old(self).online@, config.name@) ==> r is Ok
                && final(self).online@ == old(self).online@.update(index_of(old(self).online@, config.name@), fresh(config))
                && final(self).offline@ == old(self).offline@.push(aborted(old(self).online@[index_of(old(self).online@, config.name@)])),
            config_valid(config) && !has_name(old(self).online@, config.name@) ==> r is Ok
                && final(self).online@ == old(self).online@.push(fresh(config))
                && final(self).offline@ == old(self).offline@,
    {
        let found = self.find_online(&config.name);
        let server = match ServerInstance::prepare_initial(config) {
            Some(server) => server,
            None => return Err(ServeError::ConfigError),
        };
        match found {
            Some(i) => {
                let mut superseded = self.online[i].duplicate();
                superseded.abort_runtime();
                self.offline.push(superseded);
                self.online[i] = server;
                Ok(())
            },
            None => self.add(server),
        }
    }

    /// Swaps the stored config of the online server named like `config`;
    /// the running instance is left as it is.
    pub fn reload_only_config(&mut self, config: ServerConfig) -> (r: Result<(), ServeError>)
        requires
            old(self).wf(),
        ensures
            final(self).wf(),
            !has_name(old(self).online@, config.name@) ==> r == Err::<(), ServeError>(ServeError::NotFound) && *final(self) == *old(self),
            has_name(old(self).online@, config.name@) ==> r is Ok
                && final(self).online@ == old(self).online@.update(index_of(old(self).online@, config.name@),
                    ServerInstance { config: config, ..old(self).online@[index_of(old(self).online@, config.name@)] })
                && final(self).offline@ == old(self).offline@,
    {
        match self.find_online(&config.name) {
            Some(i) => {
                self.online[i].config = config;
                Ok(())
            },
            None => Err(ServeError::NotFound),
        }
    }

    /// Replaces the online server named like `config` by a new instance that
    /// carries over its cumulative counters; the old one drains offline.
    pub fn reload_and_respawn(&mut self, config: ServerConfig) -> (r: Result<(), ServeError>)
        requires
            old(self).wf(),
        ensures
            final(self).wf(),
            !has_name(old(self).online@, config.name@) ==> r == Err::<(), ServeError>(ServeError::NotFound) && *final(self) == *old(self),
            has_name(old(self).online@, config.name@) && !config_valid(config) ==> r == Err::<(), ServeError>(ServeError::ConfigError)
                && *final(self) == *old(self),
            has_name(old(self).online@, config.name@) && config_valid(config) ==> r is Ok
                && final(self).online@ == old(self).online@.update(index_of(old(self).online@, config.name@),
                    ServerInstance {
                        total_accepted: old(self).online@[index_of(old(self).online@, config.name@)].total_accepted,
                        ..fresh(config)
                    })
                && final(self).offline@ == old(self).offline@.push(aborted(old(self).online@[index_of(old(self).online@, config.name@)])),
    {
        match self.find_online(&config.name) {
            Some(i) => match self.online[i].respawn(config) {
                Some(server) => {
                    let mut superseded = self.online[i].duplicate();
                    superseded.abort_runtime();
                    self.offline.push(superseded);
                    self.online[i] = server;
                    Ok(())
                },
                None => Err(ServeError::ConfigError),
            },
            None => Err(ServeError::NotFound),
        }
    }

    /// Patches the online server named like `config` in place: its config is
    /// swapped and its dependency-bound parts are refreshed.
    pub fn update_config_in_place(&mut self, flags: u8, config: ServerConfig) -> (r: Result<(), ServeError>)
        requires
            old(self).wf(),
        ensures
            final(self).wf(),
            !has_name(old(self).online@, config.name@) ==> r == Err::<(), ServeError>(ServeError::NotFound) && *final(self) == *old(self),
            has_name(old(self).online@, config.name@) ==> r is Ok
                && final(self).online@ == old(self).online@.update(index_of(old(self).online@, config.name@),
                    ServerInstance { config: config, ..refreshed(old(self).online@[index_of(old(self).online@, config.name@)]) })
                && final(self).offline@ == old(self).offline@,
    {
        match self.find_online(&config.name) {
            Some(i) => {
                self.online[i].refresh_dependencies();
                self.online[i].config = config;
                Ok(())
            },
            None => Err(ServeError::NotFound),
        }
    }

    /// Reconciles the online server whose stored config is `current` to the
    /// desired config `new`, by the strategy that their diff selects.
    pub fn reload_old_unlocked(&mut self, current: &ServerConfig, new: ServerConfig) -> (r: Result<(), ServeError>)
        requires
            old(self).wf(),
            has_name(old(self).online@, current.name@),
            old(self).online@[index_of(old(self).online@, current.name@)].config == *current,
            new.name@ == current.name@,
        ensures
            final(self).wf(),
            ({
                let i = index_of(old(self).online@, current.name@);
                let p = old(self).online@[i];
                &&& (supersedes(p, new) && !config_valid(new)) ==> r == Err::<(), ServeError>(ServeError::ConfigError)
                    && *final(self) == *old(self)
                &&& !(supersedes(p, new) && !config_valid(new)) ==> r is Ok
                    && final(self).online@ == old(self).online@.update(i, transition(p, new))
                    && final(self).offline@ == if supersedes(p, new) {
                        old(self).offline@.push(aborted(p))
                    } else {
                        old(self).offline@
                    }
            }),
    {
        let ghost s0 = self.online@;
        let ghost i0 = index_of(s0, current.name@);
        let i = match self.find_online(&current.name) {
            Some(i) => i,
            None => return Err(ServeError::NotFound),
        };
        let server = match self.reconciled_instance(i, new) {
            Ok(server) => server,
            Err(e) => return Err(e),
        };
        self.online[i] = server;
        proof {
            assert(self.online@ =~= s0.update(i0, transition(s0[i0], new)));
            assert(names_unique(self.online@)) by {
                assert forall|a: int, b: int|
                    0 <= a < self.online@.len() && 0 <= b < self.online@.len() && a != b implies
                    self.online@[a].config.name@ != self.online@[b].config.name@ by {
                    assert(transition(s0[i0], new).config.name@ == s0[i0].config.name@);
                }
            }
        }
        Ok(())
    }
}


/// Reconciling keeps the name of the desired config.
pub proof fn lemma_next_name(s: Seq<ServerInstance>, c: ServerConfig)
    ensures
        next_instance(s, c).config.name@ == c.name@,
{
}

/// A reconciled online set holds one instance per desired name.
pub proof fn lemma_reconciled_unique(s: Seq<ServerInstance>, cs: Seq<ServerConfig>, t: Seq<ServerInstance>)
    requires
        desired_distinct(cs),
        reconciled(s, cs, t),
    ensures
        names_unique(t),
        forall|j: int| 0 <= j < t.len() ==> t[j].config.name@ == cs[j].name@,
{
    assert forall|j: int| 0 <= j < t.len() implies t[j].config.name@ == cs[j].name@ by {
        lemma_next_name(s, cs[j]);
    }
}

impl Registry {
    /// Whether the desired configs name each server at most once, as
    /// `spawn_all` asks.
    pub fn desired_names_distinct(configs: &Vec<ServerConfig>) -> (r: bool)
        ensures
            r == desired_distinct(configs@),
    {
        let mut i: usize = 0;
        while i < configs.len()
            invariant
                i <= configs@.len(),
                forall|a: int, b: int| 0 <= a < i && 0 <= b < configs@.len() && a != b
                    ==> configs@[a].name@ != configs@[b].name@,
            decreases configs@.len() - i,
        {
            let mut j: usize = 0;
            while j < configs.len()
                invariant
                    i < configs@.len(),
                    j <= configs@.len(),
                    forall|a: int, b: int| 0 <= a < i && 0 <= b < configs@.len() && a != b
                        ==> configs@[a].name@ != configs@[b].name@,
                    forall|b: int| 0 <= b < j && b != i ==> configs@[i as int].name@ != configs@[b].name@,
                decreases configs@.len() - j,
            {
                if j != i && configs[i].name == configs[j].name {
                    return false;
                }
                j = j + 1;
            }
            i = i + 1;
        }
        true
    }

    fn desired(configs: &Vec<ServerConfig>, name: &String) -> (r: bool)
        ensures
            r == desires(configs@, name@),
    {
        let mut j: usize = 0;
        while j < configs.len()
            invariant
                j <= configs@.len(),
                forall|k: int| 0 <= k < j ==> configs@[k].name@ != name@,
            decreases configs@.len() - j,
        {
            if configs[j].name == *name {
                return true;
            }
            j = j + 1;
        }
        false
    }

    /// Converges the online partition to the desired configs, in their
    /// order: each desired server is created or reconciled by its diff, and
    /// each online server that is no longer desired is taken out of service
    /// to drain offline. Nothing changes where a config that must be prepared
    /// is rejected.
    pub fn spawn_all(&mut self, configs: &Vec<ServerConfig>) -> (r: Result<(), ServeError>)
        requires
            old(self).wf(),
            desired_distinct(configs@),
        ensures
            final(self).wf(),
            reconcile_fails(old(self).online@, configs@) ==> r == Err::<(), ServeError>(ServeError::ConfigError)
                && *final(self) == *old(self),
            !reconcile_fails(old(self).online@, configs@) ==> r is Ok
                && reconciled(old(self).online@, configs@, final(self).online@)
                && offline_extends(old(self).offline@, final(self).offline@)
                && forall|i: int| 0 <= i < old(self).online@.len()
                    && !desires(configs@, #[trigger] old(self).online@[i].config.name@)
                    ==> final(self).offline@.contains(aborted(old(self).online@[i])),
    {
        let mut j: usize = 0;
        while j < configs.len()
            invariant
                self.wf(),
                j <= configs@.len(),
                forall|k: int| 0 <= k < j ==> !(needs_prepare(self.online@, #[trigger] configs@[k]) && !config_valid(configs@[k])),
            decreases configs@.len() - j,
        {
            let c = &configs[j];
            if !c.is_valid() {
                match self.find_online(&c.name) {
                    None => {
                        assert(needs_prepare(self.online@, configs@[j as int]));
                        return Err(ServeError::ConfigError);
                    },
                    Some(i) => {
                        let action = self.online[i].config.diff_action(c);
                        match action {
                            DiffAction::SpawnNew | DiffAction::ReloadAndRespawn => {
                                assert(needs_prepare(self.online@, configs@[j as int]));
                                return Err(ServeError::ConfigError);
                            },
                            _ => {},
                        }
                    },
                }
            }
            j = j + 1;
        }
        let ghost s0 = self.online@;
        let ghost off0 = self.offline@;
        let mut next: Vec<ServerInstance> = Vec::new();
        let mut j: usize = 0;
        while j < configs.len()
            invariant
                self.wf(),
                self.online@ == s0,
                j <= configs@.len(),
                next@.len() == j,
                forall|k: int| 0 <= k < j ==> next@[k] == next_instance(s0, configs@[k]),
                forall|k: int| 0 <= k < configs@.len() ==> !(needs_prepare(s0, #[trigger] configs@[k]) && !config_valid(configs@[k])),
                offline_extends(off0, self.offline@),
            decreases configs@.len() - j,
        {
            let c = configs[j].duplicate();
            assert(!(needs_prepare(s0, configs@[j as int]) && !config_valid(configs@[j as int])));
            match self.find_online(&c.name) {
                Some(i) => match self.reconciled_instance(i, c) {
                    Ok(server) => next.push(server),
                    Err(e) => return Err(e),
                },
                None => match ServerInstance::prepare_initial(c) {
                    Some(server) => next.push(server),
                    None => return Err(ServeError::ConfigError),
                },
            }
            j = j + 1;
        }
        let mut i: usize = 0;
        while i < self.online.len()
            invariant
                self.online@ == s0,
                i <= s0.len(),
                reconciled(s0, configs@, next@),
                offline_extends(off0, self.offline@),
                forall|k: int| 0 <= k < i && !desires(configs@, #[trigger] s0[k].config.name@)
                    ==> self.offline@.contains(aborted(s0[k])),
            decreases s0.len() - i,
        {
            if !Self::desired(configs, &self.online[i].config.name) {
                let mut gone = self.online[i].duplicate();
                gone.abort_runtime();
                let ghost before = self.offline@;
                self.offline.push(gone);
                proof {
                    assert(self.offline@[before.len() as int] == aborted(s0[i as int]));
                    assert forall|k: int| 0 <= k < i && !desires(configs@, #[trigger] s0[k].config.name@)
                        implies self.offline@.contains(aborted(s0[k])) by {
                        let w = choose|w: int| 0 <= w < before.len() && before[w] == aborted(s0[k]);
                        assert(self.offline@[w] == aborted(s0[k]));
                    }
                }
            }
            i = i + 1;
        }
        proof {
            lemma_reconciled_unique(s0, configs@, next@);
        }
        self.online = next;
        Ok(())
    }
}


/// After reconciling to `cs`, exactly the names of `cs` are online.
pub proof fn law_reconcile_converges(s: Seq<ServerInstance>, cs: Seq<ServerConfig>, t: Seq<ServerInstance>)
    requires
        desired_distinct(cs),
        reconciled(s, cs, t),
    ensures
        names_unique(t),
        forall|n: Seq<char>| has_name(t, n) <==> desires(cs, n),
{
    lemma_reconciled_unique(s, cs, t);
    assert forall|n: Seq<char>| has_name(t, n) <==> desires(cs, n) by {
        if has_name(t, n) {
            let i = choose|i: int| 0 <= i < t.len() && t[i].config.name@ == n;
            assert(cs[i].name@ == n);
        }
        if desires(cs, n) {
            let j = choose|j: int| 0 <= j < cs.len() && cs[j].name@ == n;
            assert(t[j].config.name@ == n);
        }
    }
}

/// Reconciling twice to the same desired configs finds nothing to do the
/// second time: every diff is `NoAction` and the online set stays as it is.
pub proof fn law_reconcile_idempotent(
    s: Seq<ServerInstance>,
    cs: Seq<ServerConfig>,
    t: Seq<ServerInstance>,
    u: Seq<ServerInstance>,
)
    requires
        desired_distinct(cs),
        reconciled(s, cs, t),
        reconciled(t, cs, u),
    ensures
        forall|j: int| 0 <= j < cs.len() ==> diff_spec(t[j].config, #[trigger] cs[j]) == DiffAction::NoAction,
        u == t,
{
    lemma_reconciled_unique(s, cs, t);
    assert forall|j: int| 0 <= j < cs.len() implies diff_spec(t[j].config, #[trigger] cs[j]) == DiffAction::NoAction
        && u[j] == t[j] by {
        lemma_next_name(s, cs[j]);
        if has_name(s, cs[j].name@) {
            let p = s[index_of(s, cs[j].name@)];
            if diff_spec(p.config, cs[j]) == DiffAction::NoAction {
                lemma_diff_no_action_same(p.config, cs[j]);
                lemma_diff_same(t[j].config, cs[j]);
            } else {
                lemma_diff_same(cs[j], cs[j]);
            }
        } else {
            lemma_diff_same(cs[j], cs[j]);
        }
        lemma_index_of(t, cs[j].name@, j);
    }
    assert(u =~= t);
}

/// A respawn carries the cumulative counters of the old instance over,
/// while a new spawn starts from zero.
pub proof fn law_respawn_keeps_counters(p: ServerInstance, c: ServerConfig)
    ensures
        diff_spec(p.config, c) == DiffAction::ReloadAndRespawn ==> transition(p, c).total_accepted == p.total_accepted,
        diff_spec(p.config, c) == DiffAction::SpawnNew ==> transition(p, c).total_accepted == 0,
        !supersedes(p, c) ==> transition(p, c).total_accepted == p.total_accepted,
{
}


impl Registry {
    /// The locator to reload the online server `name` from: `position` where
    /// given, else the one recorded with its config.
    pub fn reload_position(&self, name: &String, position: Option<String>) -> (r: Result<String, ServeError>)
        requires
            self.wf(),
        ensures
            !has_name(self.online@, name@) ==> r == Err::<String, ServeError>(ServeError::NotFound),
            has_name(self.online@, name@) ==> match position {
                Some(p) => r == Ok::<String, ServeError>(p),
                None => match self.online@[index_of(self.online@, name@)].config.position {
                    Some(p) => r == Ok::<String, ServeError>(p),
                    None => r == Err::<String, ServeError>(ServeError::NoPosition),
                },
            },
    {
        let i = match self.find_online(name) {
            Some(i) => i,
            None => return Err(ServeError::NotFound),
        };
        match position {
            Some(p) => Ok(p),
            None => match &self.online[i].config.position {
                Some(p) => Ok(p.clone()),
                None => Err(ServeError::NoPosition),
            },
        }
    }

    /// Reconciles the online server `name` to `config`, freshly loaded for
    /// it; a config of another name is refused.
    pub fn reload(&mut self, name: &String, config: ServerConfig) -> (r: Result<(), ServeError>)
        requires
            old(self).wf(),
        ensures
            final(self).wf(),
            !has_name(old(self).online@, name@) ==> r == Err::<(), ServeError>(ServeError::NotFound) && *final(self) == *old(self),
            has_name(old(self).online@, name@) && config.name@ != name@ ==> r == Err::<(), ServeError>(ServeError::ConfigMismatch)
                && *final(self) == *old(self),
            has_name(old(self).online@, name@) && config.name@ == name@ ==> ({
                let i = index_of(old(self).online@, name@);
                let p = old(self).online@[i];
                &&& (supersedes(p, config) && !config_valid(config)) ==> r == Err::<(), ServeError>(ServeError::ConfigError)
                    && *final(self) == *old(self)
                &&& !(supersedes(p, config) && !config_valid(config)) ==> r is Ok
                    && final(self).online@ == old(self).online@.update(i, transition(p, config))
                    && final(self).offline@ == if supersedes(p, config) {
                        old(self).offline@.push(aborted(p))
                    } else {
                        old(self).offline@
                    }
            }),
    {
        let current = match self.get_config(name) {
            Some(c) => c,
            None => return Err(ServeError::NotFound),
        };
        if config.name != *name {
            return Err(ServeError::ConfigMismatch);
        }
        self.reload_old_unlocked(&current, config)
    }

    /// Takes every online instance out of service: each stops accepting new
    /// work and drains in the offline partition.
    pub fn stop_all(&mut self)
        ensures
            final(self).online@.len() == 0,
            final(self).offline@.len() == old(self).offline@.len() + old(self).online@.len(),
            forall|k: int| 0 <= k < old(self).offline@.len() ==> final(self).offline@[k] == old(self).offline@[k],
            forall|k: int| 0 <= k < old(self).online@.len()
                ==> final(self).offline@[old(self).offline@.len() + k] == aborted(#[trigger] old(self).online@[k]),
    {
        let ghost on0 = self.online@;
        let ghost off0 = self.offline@;
        let mut i: usize = 0;
        while i < self.online.len()
            invariant
                self.online@ == on0,
                i <= on0.len(),
                self.offline@.len() == off0.len() + i,
                forall|k: int| 0 <= k < off0.len() ==> self.offline@[k] == off0[k],
                forall|k: int| 0 <= k < i ==> self.offline@[off0.len() + k] == aborted(#[trigger] on0[k]),
            decreases on0.len() - i,
        {
            let mut server = self.online[i].duplicate();
            server.abort_runtime();
            self.offline.push(server);
            i = i + 1;
        }
        self.online = Vec::new();
    }

    /// Switches the quit policy of every offline instance to forced.
    pub fn force_quit_offline_servers(&mut self)
        ensures
            final(self).online@ == old(self).online@,
            final(self).offline@.len() == old(self).offline@.len(),
            forall|k: int| 0 <= k < old(self).offline@.len()
                ==> final(self).offline@[k] == (ServerInstance { force_quit: true, ..#[trigger] old(self).offline@[k] }),
    {
        let ghost off0 = self.offline@;
        let mut i: usize = 0;
        while i < self.offline.len()
            invariant
                self.online@ == old(self).online@,
                self.offline@.len() == off0.len(),
                i <= off0.len(),
                forall|k: int| 0 <= k < i ==> self.offline@[k] == (ServerInstance { force_quit: true, ..#[trigger] off0[k] }),
                forall|k: int| i <= k < off0.len() ==> self.offline@[k] == off0[k],
            decreases off0.len() - i,
        {
            self.offline[i].set_force_quit();
            i = i + 1;
        }
    }

    /// Switches the quit policy of the offline instances named `name` to forced.
    pub fn force_quit_offline_server(&mut self, name: &String)
        ensures
            final(self).online@ == old(self).online@,
            final(self).offline@.len() == old(self).offline@.len(),
            forall|k: int| 0 <= k < old(self).offline@.len() ==> final(self).offline@[k] == if (#[trigger] old(self).offline@[k]).config.name@ == name@ {
                ServerInstance { force_quit: true, ..old(self).offline@[k] }
            } else {
                old(self).offline@[k]
            },
    {
        let ghost off0 = self.offline@;
        let mut i: usize = 0;
        while i < self.offline.len()
            invariant
                self.online@ == old(self).online@,
                self.offline@.len() == off0.len(),
                i <= off0.len(),
                forall|k: int| 0 <= k < i ==> self.offline@[k] == if (#[trigger] off0[k]).config.name@ == name@ {
                    ServerInstance { force_quit: true, ..off0[k] }
                } else {
                    off0[k]
                },
                forall|k: int| i <= k < off0.len() ==> self.offline@[k] == off0[k],
            decreases off0.len() - i,
        {
            if self.offline[i].config.name == *name {
                self.offline[i].set_force_quit();
            }
            i = i + 1;
        }
    }

    /// Whether some offline instance still has work in flight.
    pub fn has_pending_offline(&self) -> (r: bool)
        ensures
            r == (live(self.offline@).len() > 0),
    {
        let ghost off = self.offline@;
        let mut i: usize = 0;
        while i < self.offline.len()
            invariant
                i <= off.len(),
                self.offline@ == off,
                live(off.subrange(0, i as int)).len() == 0,
            decreases off.len() - i,
        {
            proof {
                assert(off.subrange(0, i + 1).drop_last() =~= off.subrange(0, i as int));
            }
            if self.offline[i].alive_count > 0 {
                proof {
                    assert(live(off.subrange(0, i + 1)).len() > 0);
                    lemma_live_grows(off, i as int + 1, off.len() as int);
                    assert(off.subrange(0, off.len() as int) =~= off);
                }
                return true;
            }
            i = i + 1;
        }
        proof {
            assert(off.subrange(0, off.len() as int) =~= off);
        }
        false
    }

    /// Name and in-flight count of each offline instance that has work in
    /// flight, in offline order.
    pub fn pending_offline(&self) -> (r: Vec<Pending>)
        ensures
            r@.len() == live(self.offline@).len(),
            forall|k: int| 0 <= k < r@.len() ==> r@[k].name@ == live(self.offline@)[k].config.name@
                && r@[k].alive_count == live(self.offline@)[k].alive_count,
    {
        let ghost off = self.offline@;
        let mut r: Vec<Pending> = Vec::new();
        let mut i: usize = 0;
        while i < self.offline.len()
            invariant
                i <= off.len(),
                self.offline@ == off,
                r@.len() == live(off.subrange(0, i as int)).len(),
                forall|k: int| 0 <= k < r@.len() ==> r@[k].name@ == live(off.subrange(0, i as int))[k].config.name@
                    && r@[k].alive_count == live(off.subrange(0, i as int))[k].alive_count,
            decreases off.len() - i,
        {
            proof {
                assert(off.subrange(0, i + 1).drop_last() =~= off.subrange(0, i as int));
            }
            if self.offline[i].alive_count > 0 {
                r.push(Pending { name: self.offline[i].config.name.clone(), alive_count: self.offline[i].alive_count });
            }
            i = i + 1;
        }
        proof {
            assert(off.subrange(0, off.len() as int) =~= off);
        }
        r
    }
}

/// Work in flight in a prefix of `s` is work in flight in a longer prefix.
pub proof fn lemma_live_grows(s: Seq<ServerInstance>, a: int, b: int)
    requires
        0 <= a <= b <= s.len(),
    ensures
        live(s.subrange(0, a)).len() <= live(s.subrange(0, b)).len(),
    decreases b - a,
{
    if a < b {
        lemma_live_grows(s, a, b - 1);
        assert(s.subrange(0, b).drop_last() =~= s.subrange(0, b - 1));
    }
}


impl Registry {
    /// Refreshes the binding of the online server `name` to its dependency
    /// of kind `d`; refused where its kind binds no such dependency.
    pub fn reload_only_dependency(&mut self, name: &String, d: Dependency) -> (r: Result<(), ServeError>)
        requires
            old(self).wf(),
        ensures
            final(self).wf(),
            !has_name(old(self).online@, name@) ==> r == Err::<(), ServeError>(ServeError::NotFound) && *final(self) == *old(self),
            has_name(old(self).online@, name@) && !kind_binds(old(self).online@[index_of(old(self).online@, name@)].config.kind, d)
                ==> r == Err::<(), ServeError>(ServeError::ReconcileError) && *final(self) == *old(self),
            has_name(old(self).online@, name@) && kind_binds(old(self).online@[index_of(old(self).online@, name@)].config.kind, d)
                ==> r is Ok && final(self).offline@ == old(self).offline@
                && final(self).online@ == old(self).online@.update(index_of(old(self).online@, name@),
                    refreshed(old(self).online@[index_of(old(self).online@, name@)])),
    {
        match self.find_online(name) {
            Some(i) => {
                if !self.online[i].config.kind.binds(d) {
                    return Err(ServeError::ReconcileError);
                }
                self.online[i].refresh_dependencies();
                Ok(())
            },
            None => Err(ServeError::NotFound),
        }
    }

    /// `reload_only_dependency` for the escaper.
    pub fn reload_only_escaper(&mut self, name: &String) -> (r: Result<(), ServeError>)
        requires
            old(self).wf(),
        ensures
            final(self).wf(),
            !has_name(old(self).online@, name@) ==> r == Err::<(), ServeError>(ServeError::NotFound) && *final(self) == *old(self),
            has_name(old(self).online@, name@) && !kind_binds(old(self).online@[index_of(old(self).online@, name@)].config.kind, Dependency::Escaper)
                ==> r == Err::<(), ServeError>(ServeError::ReconcileError) && *final(self) == *old(self),
            has_name(old(self).online@, name@) && kind_binds(old(self).online@[index_of(old(self).online@, name@)].config.kind, Dependency::Escaper)
                ==> r is Ok && final(self).offline@ == old(self).offline@
                && final(self).online@ == old(self).online@.update(index_of(old(self).online@, name@),
                    refreshed(old(self).online@[index_of(old(self).online@, name@)])),
    {
        self.reload_only_dependency(name, Dependency::Escaper)
    }

    /// `reload_only_dependency` for the user group.
    pub fn reload_only_user_group(&mut self, name: &String) -> (r: Result<(), ServeError>)
        requires
            old(self).wf(),
        ensures
            final(self).wf(),
            !has_name(old(self).online@, name@) ==> r == Err::<(), ServeError>(ServeError::NotFound) && *final(self) == *old(self),
            has_name(old(self).online@, name@) && !kind_binds(old(self).online@[index_of(old(self).online@, name@)].config.kind, Dependency::UserGroup)
                ==> r == Err::<(), ServeError>(ServeError::ReconcileError) && *final(self) == *old(self),
            has_name(old(self).online@, name@) && kind_binds(old(self).online@[index_of(old(self).online@, name@)].config.kind, Dependency::UserGroup)
                ==> r is Ok && final(self).offline@ == old(self).offline@
                && final(self).online@ == old(self).online@.update(index_of(old(self).online@, name@),
                    refreshed(old(self).online@[index_of(old(self).online@, name@)])),
    {
        self.reload_only_dependency(name, Dependency::UserGroup)
    }

    /// `reload_only_dependency` for the auditor.
    pub fn reload_only_auditor(&mut self, name: &String) -> (r: Result<(), ServeError>)
        requires
            old(self).wf(),
        ensures
            final(self).wf(),
            !has_name(old(self).online@, name@) ==> r == Err::<(), ServeError>(ServeError::NotFound) && *final(self) == *old(self),
            has_name(old(self).online@, name@) && !kind_binds(old(self).online@[index_of(old(self).online@, name@)].config.kind, Dependency::Auditor)
                ==> r == Err::<(), ServeError>(ServeError::ReconcileError) && *final(self) == *old(self),
            has_name(old(self).online@, name@) && kind_binds(old(self).online@[index_of(old(self).online@, name@)].config.kind, Dependency::Auditor)
                ==> r is Ok && final(self).offline@ == old(self).offline@
                && final(self).online@ == old(self).online@.update(index_of(old(self).online@, name@),
                    refreshed(old(self).online@[index_of(old(self).online@, name@)])),
    {
        self.reload_only_dependency(name, Dependency::Auditor)
    }

    /// Refreshes every online server that references `dep` as its dependency
    /// of kind `d`, best effort: a server that cannot refresh is skipped and
    /// named in the result, and the others are refreshed all the same.
    pub fn update_dependency(&mut self, d: Dependency, dep: &String) -> (r: Vec<String>)
        requires
            old(self).wf(),
        ensures
            final(self).wf(),
            final(self).offline@ == old(self).offline@,
            final(self).online@.len() == old(self).online@.len(),
            forall|i: int| 0 <= i < old(self).online@.len()
                ==> final(self).online@[i] == after_dependency_change(#[trigger] old(self).online@[i], d, dep@),
            r@.len() == dependency_failures(old(self).online@, d, dep@).len(),
            forall|k: int| 0 <= k < r@.len() ==> r@[k]@ == dependency_failures(old(self).online@, d, dep@)[k],
    {
        let ghost on0 = self.online@;
        let mut failed: Vec<String> = Vec::new();
        let mut i: usize = 0;
        while i < self.online.len()
            invariant
                self.offline@ == old(self).offline@,
                self.online@.len() == on0.len(),
                i <= on0.len(),
                forall|k: int| 0 <= k < i ==> self.online@[k] == after_dependency_change(#[trigger] on0[k], d, dep@),
                forall|k: int| i <= k < on0.len() ==> self.online@[k] == on0[k],
                failed@.len() == dependency_failures(on0.subrange(0, i as int), d, dep@).len(),
                forall|k: int| 0 <= k < failed@.len() ==> failed@[k]@ == dependency_failures(on0.subrange(0, i as int), d, dep@)[k],
            decreases on0.len() - i,
        {
            proof {
                assert(on0.subrange(0, i + 1).drop_last() =~= on0.subrange(0, i as int));
            }
            if *self.online[i].config.dependency(d) == *dep {
                if self.online[i].config.kind.binds(d) {
                    self.online[i].refresh_dependencies();
                } else {
                    failed.push(self.online[i].config.name.clone());
                }
            }
            i = i + 1;
        }
        proof {
            assert(on0.subrange(0, on0.len() as int) =~= on0);
            assert forall|a: int, b: int|
                0 <= a < self.online@.len() && 0 <= b < self.online@.len() && a != b implies
                self.online@[a].config.name@ != self.online@[b].config.name@ by {
                assert(self.online@[a] == after_dependency_change(on0[a], d, dep@));
                assert(self.online@[b] == after_dependency_change(on0[b], d, dep@));
            }
        }
        failed
    }

    /// The escaper `escaper` changed: servers using it refresh their escaper
    /// binding.
    pub fn update_dependency_to_escaper(&mut self, escaper: &String) -> (r: Vec<String>)
        requires
            old(self).wf(),
        ensures
            final(self).wf(),
            final(self).offline@ == old(self).offline@,
            final(self).online@.len() == old(self).online@.len(),
            forall|i: int| 0 <= i < old(self).online@.len()
                ==> final(self).online@[i] == after_dependency_change(#[trigger] old(self).online@[i], Dependency::Escaper, escaper@),
            r@.len() == dependency_failures(old(self).online@, Dependency::Escaper, escaper@).len(),
            forall|k: int| 0 <= k < r@.len() ==> r@[k]@ == dependency_failures(old(self).online@, Dependency::Escaper, escaper@)[k],
    {
        self.update_dependency(Dependency::Escaper, escaper)
    }

    /// The user group `user_group` changed: servers using it refresh their
    /// user group binding.
    pub fn update_dependency_to_user_group(&mut self, user_group: &String) -> (r: Vec<String>)
        requires
            old(self).wf(),
        ensures
            final(self).wf(),
            final(self).offline@ == old(self).offline@,
            final(self).online@.len() == old(self).online@.len(),
            forall|i: int| 0 <= i < old(self).online@.len()
                ==> final(self).online@[i] == after_dependency_change(#[trigger] old(self).online@[i], Dependency::UserGroup, user_group@),
            r@.len() == dependency_failures(old(self).online@, Dependency::UserGroup, user_group@).len(),
            forall|k: int| 0 <= k < r@.len() ==> r@[k]@ == dependency_failures(old(self).online@, Dependency::UserGroup, user_group@)[k],
    {
        self.update_dependency(Dependency::UserGroup, user_group)
    }

    /// The auditor `auditor` changed: servers using it refresh their auditor
    /// binding.
    pub fn update_dependency_to_auditor(&mut self, auditor: &String) -> (r: Vec<String>)
        requires
            old(self).wf(),
        ensures
            final(self).wf(),
            final(self).offline@ == old(self).offline@,
            final(self).online@.len() == old(self).online@.len(),
            forall|i: int| 0 <= i < old(self).online@.len()
                ==> final(self).online@[i] == after_dependency_change(#[trigger] old(self).online@[i], Dependency::Auditor, auditor@),
            r@.len() == dependency_failures(old(self).online@, Dependency::Auditor, auditor@).len(),
            forall|k: int| 0 <= k < r@.len() ==> r@[k]@ == dependency_failures(old(self).online@, Dependency::Auditor, auditor@)[k],
    {
        self.update_dependency(Dependency::Auditor, auditor)
    }

    /// The online server `name` accepted a unit of work.
    pub fn record_accept(&mut self, name: &String) -> (r: bool)
        requires
            old(self).wf(),
        ensures
            final(self).wf(),
            final(self).offline@ == old(self).offline@,
            r == (has_name(old(self).online@, name@)
                && old(self).online@[index_of(old(self).online@, name@)].alive_count < u64::MAX
                && old(self).online@[index_of(old(self).online@, name@)].total_accepted < u64::MAX),
            r ==> final(self).online@ == old(self).online@.update(index_of(old(self).online@, name@), ({
                let p = old(self).online@[index_of(old(self).online@, name@)];
                ServerInstance { alive_count: (p.alive_count + 1) as u64, total_accepted: (p.total_accepted + 1) as u64, ..p }
            })),
            !r ==> final(self).online@ == old(self).online@,
    {
        match self.find_online(name) {
            Some(i) => {
                if self.online[i].alive_count < u64::MAX && self.online[i].total_accepted < u64::MAX {
                    self.online[i].alive_count = self.online[i].alive_count + 1;
                    self.online[i].total_accepted = self.online[i].total_accepted + 1;
                    true
                } else {
                    false
                }
            },
            None => false,
        }
    }

    /// A unit of work of offline instance `k` finished.
    pub fn record_offline_close(&mut self, k: usize) -> (r: bool)
        ensures
            final(self).online@ == old(self).online@,
            r == (k < old(self).offline@.len() && old(self).offline@[k as int].alive_count > 0),
            r ==> final(self).offline@ == old(self).offline@.update(k as int, ({
                let p = old(self).offline@[k as int];
                ServerInstance { alive_count: (p.alive_count - 1) as u64, ..p }
            })),
            !r ==> final(self).offline@ == old(self).offline@,
    {
        if k < self.offline.len() && self.offline[k].alive_count > 0 {
            self.offline[k].alive_count = self.offline[k].alive_count - 1;
            true
        } else {
            false
        }
    }
}

} // verus!
