use vstd::prelude::*;

verus! {

/// The protocol family a server instance implements.
#[derive(PartialEq, Eq, Structural, Clone, Copy, Debug)]
pub enum ServerKind {
    DummyClose,
    PlainTcpPort,
    PlainTlsPort,
    NativeTlsPort,
    IntelliProxy,
    TcpStream,
    TlsStream,
    SniProxy,
    SocksProxy,
    HttpProxy,
    HttpRProxy,
}

/// One of the named collaborators a server may reference.
#[derive(PartialEq, Eq, Structural, Clone, Copy, Debug)]
pub enum Dependency {
    Escaper,
    UserGroup,
    Auditor,
}

/// Whether servers of kind `k` hold a binding to a dependency of kind `d`.
/// Port-style front ends hand accepted connections to another server and
/// bind no escaper, user group or auditor of their own.
pub open spec fn kind_binds(k: ServerKind, d: Dependency) -> bool {
    match d {
        Dependency::Escaper => match k {
            ServerKind::TcpStream | ServerKind::TlsStream | ServerKind::SniProxy
            | ServerKind::SocksProxy | ServerKind::HttpProxy | ServerKind::HttpRProxy => true,
            _ => false,
        },
        Dependency::UserGroup => match k {
            ServerKind::SocksProxy | ServerKind::HttpProxy | ServerKind::HttpRProxy => true,
            _ => false,
        },
        Dependency::Auditor => match k {
            ServerKind::TcpStream | ServerKind::TlsStream | ServerKind::SniProxy
            | ServerKind::SocksProxy | ServerKind::HttpProxy | ServerKind::HttpRProxy => true,
            _ => false,
        },
    }
}

impl ServerKind {
    pub fn binds(self, d: Dependency) -> (r: bool)
        ensures
            r == kind_binds(self, d),
    {
        match d {
            Dependency::Escaper | Dependency::Auditor => match self {
                ServerKind::TcpStream | ServerKind::TlsStream | ServerKind::SniProxy
                | ServerKind::SocksProxy | ServerKind::HttpProxy | ServerKind::HttpRProxy => true,
                _ => false,
            },
            Dependency::UserGroup => match self {
                ServerKind::SocksProxy | ServerKind::HttpProxy | ServerKind::HttpRProxy => true,
                _ => false,
            },
        }
    }
}

/// Bit of `DiffAction::UpdateInPlace` flags: the escaper reference changed.
pub const UPDATE_ESCAPER: u8 = 1;
/// Bit of `DiffAction::UpdateInPlace` flags: the user group reference changed.
pub const UPDATE_USER_GROUP: u8 = 2;
/// Bit of `DiffAction::UpdateInPlace` flags: the auditor reference changed.
pub const UPDATE_AUDITOR: u8 = 4;

/// The transition needed to move one server from an old config to a new one.
#[derive(PartialEq, Eq, Structural, Clone, Copy, Debug)]
pub enum DiffAction {
    NoAction,
    SpawnNew,
    ReloadOnlyConfig,
    ReloadAndRespawn,
    UpdateInPlace(u8),
}

/// Declarative description of one server's desired state.
#[derive(Debug)]
pub struct ServerConfig {
    pub name: String,
    pub kind: ServerKind,
    pub listen_port: u16,
    pub escaper: String,
    pub user_group: String,
    pub auditor: String,
    /// Version of the remaining settings, which need no new listener.
    pub revision: u64,
    /// Where the config was loaded from, if it can be loaded again.
    pub position: Option<String>,
}

pub open spec fn opt_view(o: Option<String>) -> Option<Seq<char>> {
    match o {
        Some(s) => Some(s@),
        None => None,
    }
}

pub open spec fn dependency_of(c: ServerConfig, d: Dependency) -> Seq<char> {
    match d {
        Dependency::Escaper => c.escaper@,
        Dependency::UserGroup => c.user_group@,
        Dependency::Auditor => c.auditor@,
    }
}

/// A config can be prepared into an instance only with a port to listen on.
pub open spec fn config_valid(c: ServerConfig) -> bool {
    c.listen_port != 0
}

pub open spec fn update_flags(old: ServerConfig, new: ServerConfig) -> u8 {
    ((if old.escaper@ != new.escaper@ { UPDATE_ESCAPER } else { 0u8 })
        + (if old.user_group@ != new.user_group@ { UPDATE_USER_GROUP } else { 0u8 })
        + (if old.auditor@ != new.auditor@ { UPDATE_AUDITOR } else { 0u8 })) as u8
}

/// The diff policy: a new kind needs a new server, a new listener needs a
/// respawn that keeps the counters, new references are patched in place, and
/// any other change only swaps the stored config.
pub open spec fn diff_spec(old: ServerConfig, new: ServerConfig) -> DiffAction {
    if old.kind != new.kind {
        DiffAction::SpawnNew
    } else if old.listen_port != new.listen_port {
        DiffAction::ReloadAndRespawn
    } else if update_flags(old, new) != 0 {
        DiffAction::UpdateInPlace(update_flags(old, new))
    } else if old.revision != new.revision || opt_view(old.position) != opt_view(new.position) {
        DiffAction::ReloadOnlyConfig
    } else {
        DiffAction::NoAction
    }
}

/// Two configs that agree on every field view.
pub open spec fn same_config(a: ServerConfig, b: ServerConfig) -> bool {
    &&& a.name@ == b.name@
    &&& a.kind == b.kind
    &&& a.listen_port == b.listen_port
    &&& a.escaper@ == b.escaper@
    &&& a.user_group@ == b.user_group@
    &&& a.auditor@ == b.auditor@
    &&& a.revision == b.revision
    &&& opt_view(a.position) == opt_view(b.position)
}

/// Comparing a config with an equal one asks for nothing.
pub proof fn lemma_diff_same(a: ServerConfig, b: ServerConfig)
    requires
        same_config(a, b),
    ensures
        diff_spec(a, b) == DiffAction::NoAction,
{
}

/// Configs of one name between which the diff finds nothing agree on every
/// field view.
pub proof fn lemma_diff_no_action_same(a: ServerConfig, b: ServerConfig)
    requires
        a.name@ == b.name@,
        diff_spec(a, b) == DiffAction::NoAction,
    ensures
        same_config(a, b),
{
}

fn same_position(a: &Option<String>, b: &Option<String>) -> (r: bool)
    ensures
        r == (opt_view(*a) == opt_view(*b)),
{
    match (a, b) {
        (Some(x), Some(y)) => *x == *y,
        (None, None) => true,
        _ => false,
    }
}

impl ServerConfig {
    /// An exact copy of this config.
    pub fn duplicate(&self) -> (r: ServerConfig)
        ensures
            r == *self,
    {
        let position = match &self.position {
            Some(p) => Some(p.clone()),
            None => None,
        };
        ServerConfig {
            name: self.name.clone(),
            kind: self.kind,
            listen_port: self.listen_port,
            escaper: self.escaper.clone(),
            user_group: self.user_group.clone(),
            auditor: self.auditor.clone(),
            revision: self.revision,
            position,
        }
    }

    pub fn is_valid(&self) -> (r: bool)
        ensures
            r == config_valid(*self),
    {
        self.listen_port != 0
    }

    /// The name this config references for dependency `d`.
    pub fn dependency(&self, d: Dependency) -> (r: &String)
        ensures
            r@ == dependency_of(*self, d),
    {
        match d {
            Dependency::Escaper => &self.escaper,
            Dependency::UserGroup => &self.user_group,
            Dependency::Auditor => &self.auditor,
        }
    }

    /// Classifies the transition from `self` (running) to `new` (desired).
    pub fn diff_action(&self, new: &ServerConfig) -> (r: DiffAction)
        ensures
            r == diff_spec(*self, *new),
    {
        if self.kind != new.kind {
            return DiffAction::SpawnNew;
        }
        if self.listen_port != new.listen_port {
            return DiffAction::ReloadAndRespawn;
        }
        let mut flags: u8 = 0;
        if self.escaper != new.escaper {
            flags = flags + UPDATE_ESCAPER;
        }
        if self.user_group != new.user_group {
            flags = flags + UPDATE_USER_GROUP;
        }
        if self.auditor != new.auditor {
            flags = flags + UPDATE_AUDITOR;
        }
        if flags != 0 {
            DiffAction::UpdateInPlace(flags)
        } else if self.revision != new.revision || !same_position(&self.position, &new.position) {
            DiffAction::ReloadOnlyConfig
        } else {
            DiffAction::NoAction
        }
    }
}

} // verus!
