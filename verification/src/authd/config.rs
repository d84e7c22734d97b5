//! Daemon configuration and validation.

use crate::bytes::copy_octets;
use crate::pae::config::PaeConfig;
use crate::text::{prefixed, quoted, quoted_text, wrapped};
use vstd::prelude::*;

verus! {

/// How to reach the authentication server over RadSec.
#[derive(Debug)]
pub struct RadiusConfig {
    /// `host:port` of the RadSec endpoint.
    pub server_addr: String,
    /// DNS name to validate the server certificate against.
    pub server_name: String,
    /// PEM trust anchor(s) for the server certificate.
    pub ca_pem: Vec<u8>,
    /// PEM NAS client certificate chain.
    pub client_cert_pem: Vec<u8>,
    /// PEM NAS client private key.
    pub client_key_pem: Vec<u8>,
}

impl Clone for RadiusConfig {
    fn clone(&self) -> (r: Self)
        ensures
            r.server_addr@ == self.server_addr@,
            r.server_name@ == self.server_name@,
            r.ca_pem@ == self.ca_pem@,
            r.client_cert_pem@ == self.client_cert_pem@,
            r.client_key_pem@ == self.client_key_pem@,
    {
        RadiusConfig {
            server_addr: self.server_addr.clone(),
            server_name: self.server_name.clone(),
            ca_pem: copy_octets(&self.ca_pem),
            client_cert_pem: copy_octets(&self.client_cert_pem),
            client_key_pem: copy_octets(&self.client_key_pem),
        }
    }
}

/// Per-port configuration: the interface name and its policy.
#[derive(Debug)]
pub struct PortConfig {
    /// Front-panel interface name.
    pub name: String,
    /// Policy (host mode, timers, MAB, fallback VLANs).
    pub pae: PaeConfig,
}

impl Clone for PortConfig {
    fn clone(&self) -> (r: Self)
        ensures
            r.name@ == self.name@,
            r.pae@ == self.pae@,
    {
        PortConfig { name: self.name.clone(), pae: self.pae.clone() }
    }
}

/// Top-level daemon configuration.
#[derive(Debug)]
pub struct AuthdConfig {
    /// Authentication-server connection.
    pub radius: RadiusConfig,
    /// Ports to bring into 802.1X service.
    pub ports: Vec<PortConfig>,
    /// Bound on every RadSec connect/read (seconds).
    pub io_timeout_secs: u64,
}

/// The names of the configured ports, in order.
pub open spec fn port_names(ports: Seq<PortConfig>) -> Seq<Seq<char>> {
    Seq::new(ports.len(), |i: int| ports[i].name@)
}

impl Clone for AuthdConfig {
    fn clone(&self) -> (r: Self)
        ensures
            r.radius.server_addr@ == self.radius.server_addr@,
            r.radius.server_name@ == self.radius.server_name@,
            r.radius.ca_pem@ == self.radius.ca_pem@,
            r.radius.client_cert_pem@ == self.radius.client_cert_pem@,
            r.radius.client_key_pem@ == self.radius.client_key_pem@,
            r.ports@.len() == self.ports@.len(),
            forall|k: int|
                0 <= k < self.ports@.len() ==> (#[trigger] r.ports@[k]).name@ == self.ports@[k].name@
                    && r.ports@[k].pae@ == self.ports@[k].pae@,
            r.io_timeout_secs == self.io_timeout_secs,
            r.problem() == self.problem(),
    {
        let mut ports: Vec<PortConfig> = Vec::new();
        let mut i: usize = 0;
        while i < self.ports.len()
            invariant
                i <= self.ports.len(),
                ports@.len() == i,
                forall|k: int|
                    0 <= k < i ==> (#[trigger] ports@[k]).name@ == self.ports@[k].name@
                        && ports@[k].pae@ == self.ports@[k].pae@,
            decreases self.ports.len() - i,
        {
            ports.push(self.ports[i].clone());
            i += 1;
        }
        assert(port_names(ports@) =~= port_names(self.ports@));
        AuthdConfig {
            radius: self.radius.clone(),
            ports,
            io_timeout_secs: self.io_timeout_secs,
        }
    }
}

/// A configuration validation failure.
#[derive(Debug, PartialEq, Eq)]
pub enum ConfigError {
    /// No ports were configured.
    NoPorts,
    /// Two ports share the same interface name.
    DuplicatePort(String),
    /// A required field was empty.
    EmptyField(&'static str),
    /// `io_timeout_secs` was zero.
    ZeroTimeout,
}

/// What a validation failure says.
#[verifier::ext_equal]
pub enum Problem {
    NoPorts,
    DuplicatePort(Seq<char>),
    EmptyField(Seq<char>),
    ZeroTimeout,
}

impl View for ConfigError {
    type V = Problem;

    open spec fn view(&self) -> Problem {
        match *self {
            ConfigError::NoPorts => Problem::NoPorts,
            ConfigError::DuplicatePort(p) => Problem::DuplicatePort(p@),
            ConfigError::EmptyField(f) => Problem::EmptyField(f@),
            ConfigError::ZeroTimeout => Problem::ZeroTimeout,
        }
    }
}

impl Clone for ConfigError {
    fn clone(&self) -> (r: Self)
        ensures
            r@ == self@,
    {
        match self {
            ConfigError::NoPorts => ConfigError::NoPorts,
            ConfigError::DuplicatePort(p) => ConfigError::DuplicatePort(p.clone()),
            ConfigError::EmptyField(field) => ConfigError::EmptyField(field),
            ConfigError::ZeroTimeout => ConfigError::ZeroTimeout,
        }
    }
}

impl ConfigError {
    /// What the error says.
    pub open spec fn text(self) -> Seq<char> {
        match self {
            ConfigError::NoPorts => "no ports configured"@,
            ConfigError::DuplicatePort(p) => "duplicate port "@ + quoted_text(p@),
            ConfigError::EmptyField(f) => "required field "@ + f@ + " is empty"@,
            ConfigError::ZeroTimeout => "io_timeout_secs must be non-zero"@,
        }
    }

    /// What the error says, for a log.
    pub fn message(&self) -> (r: String)
        ensures
            r@ == self.text(),
    {
        match self {
            ConfigError::NoPorts => "no ports configured".to_owned(),
            ConfigError::DuplicatePort(p) => {
                let port = quoted(p.as_str());
                prefixed("duplicate port ", port.as_str())
            },
            ConfigError::EmptyField(field) => wrapped("required field ", field, " is empty"),
            ConfigError::ZeroTimeout => "io_timeout_secs must be non-zero".to_owned(),
        }
    }
}

/// The first problem with the port names from the one at `i` on: an empty name, or
/// one that an earlier port has.
pub open spec fn ports_problem(names: Seq<Seq<char>>, i: int) -> Option<Problem>
    decreases names.len() - i,
{
    if i < 0 || i >= names.len() {
        None
    } else if names[i].len() == 0 {
        Some(Problem::EmptyField("port.name"@))
    } else if names.take(i).contains(names[i]) {
        Some(Problem::DuplicatePort(names[i]))
    } else {
        ports_problem(names, i + 1)
    }
}

impl AuthdConfig {
    /// The first problem with the configuration, if it has any.
    pub open spec fn problem(self) -> Option<Problem> {
        if self.io_timeout_secs == 0 {
            Some(Problem::ZeroTimeout)
        } else if self.radius.server_addr@.len() == 0 {
            Some(Problem::EmptyField("radius.server_addr"@))
        } else if self.radius.server_name@.len() == 0 {
            Some(Problem::EmptyField("radius.server_name"@))
        } else if self.radius.ca_pem@.len() == 0 {
            Some(Problem::EmptyField("radius.ca_pem"@))
        } else if self.radius.client_cert_pem@.len() == 0 {
            Some(Problem::EmptyField("radius.client_cert_pem"@))
        } else if self.radius.client_key_pem@.len() == 0 {
            Some(Problem::EmptyField("radius.client_key_pem"@))
        } else if self.ports@.len() == 0 {
            Some(Problem::NoPorts)
        } else {
            ports_problem(port_names(self.ports@), 0)
        }
    }

    /// Validate the configuration, failing closed on anything that would leave a
    /// port unserviceable or the daemon misconfigured. The first problem found is
    /// reported.
    pub fn validate(&self) -> (r: Result<(), ConfigError>)
        ensures
            self.problem() == (match r {
                Ok(()) => None,
                Err(e) => Some(e@),
            }),
    {
        if self.io_timeout_secs == 0 {
            return Err(ConfigError::ZeroTimeout);
        }
        if self.radius.server_addr.as_str().is_empty() {
            return Err(ConfigError::EmptyField("radius.server_addr"));
        }
        if self.radius.server_name.as_str().is_empty() {
            return Err(ConfigError::EmptyField("radius.server_name"));
        }
        if self.radius.ca_pem.is_empty() {
            return Err(ConfigError::EmptyField("radius.ca_pem"));
        }
        if self.radius.client_cert_pem.is_empty() {
            return Err(ConfigError::EmptyField("radius.client_cert_pem"));
        }
        if self.radius.client_key_pem.is_empty() {
            return Err(ConfigError::EmptyField("radius.client_key_pem"));
        }
        if self.ports.is_empty() {
            return Err(ConfigError::NoPorts);
        }
        let ghost names = port_names(self.ports@);
        let mut i: usize = 0;
        while i < self.ports.len()
            invariant
                i <= self.ports.len(),
                names == port_names(self.ports@),
                ports_problem(names, 0) == ports_problem(names, i as int),
                self.problem() == ports_problem(names, 0),
            decreases self.ports.len() - i,
        {
            assert(names[i as int] == self.ports@[i as int].name@);
            if self.ports[i].name.as_str().is_empty() {
                return Err(ConfigError::EmptyField("port.name"));
            }
            if self.named_before(i) {
                return Err(ConfigError::DuplicatePort(self.ports[i].name.clone()));
            }
            i += 1;
        }
        Ok(())
    }

    /// Whether a port before the one at `i` has its name.
    fn named_before(&self, i: usize) -> (r: bool)
        requires
            i < self.ports@.len(),
        ensures
            r == port_names(self.ports@).take(i as int).contains(port_names(self.ports@)[i as int]),
    {
        let ghost names = port_names(self.ports@);
        let mut j: usize = 0;
        while j < i
            invariant
                j <= i < self.ports@.len(),
                names == port_names(self.ports@),
                forall|k: int| 0 <= k < j ==> #[trigger] names[k] != names[i as int],
            decreases i - j,
        {
            assert(names[j as int] == self.ports@[j as int].name@);
            assert(names[i as int] == self.ports@[i as int].name@);
            if self.ports[j].name == self.ports[i].name {
                assert(names.take(i as int)[j as int] == names[i as int]);
                return true;
            }
            j += 1;
        }
        assert forall|k: int| 0 <= k < i implies names.take(i as int)[k] != names[i as int] by {
            assert(names.take(i as int)[k] == names[k]);
        }
        false
    }
}

proof fn lemma_ports_fine(names: Seq<Seq<char>>, i: int)
    requires
        0 <= i <= names.len(),
        ports_problem(names, i) is None,
    ensures
        forall|k: int| i <= k < names.len() ==> (#[trigger] names[k]).len() > 0,
        forall|j: int, k: int|
            0 <= j < k < names.len() && i <= k ==> #[trigger] names[j] != #[trigger] names[k],
    decreases names.len() - i,
{
    if i < names.len() {
        lemma_ports_fine(names, i + 1);
        assert forall|j: int, k: int| 0 <= j < k < names.len() && i <= k implies #[trigger] names[j]
            != #[trigger] names[k] by {
            if k == i {
                assert(names.take(i)[j] == names[j]);
            }
        }
    }
}

/// A configuration that validates names every port, names no two alike, and leaves
/// nothing empty that the daemon needs.
pub proof fn law_valid_config_is_serviceable(c: AuthdConfig)
    requires
        c.problem() is None,
    ensures
        c.io_timeout_secs > 0,
        c.ports@.len() > 0,
        c.radius.server_addr@.len() > 0 && c.radius.server_name@.len() > 0,
        c.radius.ca_pem@.len() > 0 && c.radius.client_cert_pem@.len() > 0
            && c.radius.client_key_pem@.len() > 0,
        forall|k: int| 0 <= k < c.ports@.len() ==> (#[trigger] c.ports@[k]).name@.len() > 0,
        forall|j: int, k: int|
            0 <= j < k < c.ports@.len() ==> (#[trigger] c.ports@[j]).name@ != (
            #[trigger] c.ports@[k]).name@,
{
    let names = port_names(c.ports@);
    lemma_ports_fine(names, 0);
    assert forall|k: int| 0 <= k < c.ports@.len() implies (#[trigger] c.ports@[k]).name@.len() > 0 by {
        assert(names[k] == c.ports@[k].name@);
    }
    assert forall|j: int, k: int| 0 <= j < k < c.ports@.len() implies (#[trigger] c.ports@[j]).name@
        != (#[trigger] c.ports@[k]).name@ by {
        assert(names[j] != names[k]);
    }
}

proof fn lemma_ports_problem(names: Seq<Seq<char>>, i: int)
    requires
        0 <= i <= names.len(),
    ensures
        (forall|k: int| i <= k < names.len() ==> (#[trigger] names[k]).len() > 0) && (forall|
            j: int,
            k: int,
        |
            0 <= j < k < names.len() && i <= k ==> #[trigger] names[j] != #[trigger] names[k])
            ==> ports_problem(names, i) is None,
        ports_problem(names, i) matches Some(p) ==> match p {
            Problem::EmptyField(field) => field == "port.name"@ && exists|k: int|
                0 <= k < names.len() && (#[trigger] names[k]).len() == 0,
            Problem::DuplicatePort(name) => exists|j: int, k: int|
                0 <= j < k < names.len() && #[trigger] names[j] == name && #[trigger] names[k] == name,
            _ => false,
        },
    decreases names.len() - i,
{
    if i < names.len() {
        lemma_ports_problem(names, i + 1);
        if names[i].len() > 0 && names.take(i).contains(names[i]) {
            let j = choose|j: int| 0 <= j < i && names.take(i)[j] == names[i];
            assert(names[j] == names[i]);
        }
    }
}

/// A configuration is faulted only for what is wrong with it: with a timeout, a server
/// address and name, an authority, a certificate and a key, and at least one port, each
/// with a name of its own, it is valid. A problem that is reported is there: the timeout
/// is zero, the field is empty, there is no port, or two ports have the name.
pub proof fn law_problems_are_real(c: AuthdConfig)
    ensures
        c.io_timeout_secs > 0 && c.radius.server_addr@.len() > 0 && c.radius.server_name@.len() > 0
            && c.radius.ca_pem@.len() > 0 && c.radius.client_cert_pem@.len() > 0
            && c.radius.client_key_pem@.len() > 0 && c.ports@.len() > 0 && (forall|k: int|
            0 <= k < c.ports@.len() ==> (#[trigger] c.ports@[k]).name@.len() > 0) && (forall|
            j: int,
            k: int,
        |
            0 <= j < k < c.ports@.len() ==> (#[trigger] c.ports@[j]).name@ != (
            #[trigger] c.ports@[k]).name@) ==> c.problem() is None,
        c.problem() == Some(Problem::ZeroTimeout) <==> c.io_timeout_secs == 0,
        c.problem() == Some(Problem::NoPorts) ==> c.ports@.len() == 0,
        c.problem() matches Some(Problem::EmptyField(field)) ==> {
            ||| field == "radius.server_addr"@ && c.radius.server_addr@.len() == 0
            ||| field == "radius.server_name"@ && c.radius.server_name@.len() == 0
            ||| field == "radius.ca_pem"@ && c.radius.ca_pem@.len() == 0
            ||| field == "radius.client_cert_pem"@ && c.radius.client_cert_pem@.len() == 0
            ||| field == "radius.client_key_pem"@ && c.radius.client_key_pem@.len() == 0
            ||| field == "port.name"@ && exists|k: int|
                0 <= k < c.ports@.len() && (#[trigger] c.ports@[k]).name@.len() == 0
        },
        c.problem() matches Some(Problem::DuplicatePort(name)) ==> exists|j: int, k: int|
            0 <= j < k < c.ports@.len() && (#[trigger] c.ports@[j]).name@ == name && (
            #[trigger] c.ports@[k]).name@ == name,
{
    let names = port_names(c.ports@);
    lemma_ports_problem(names, 0);
    assert forall|k: int| 0 <= k < names.len() implies #[trigger] names[k] == c.ports@[k].name@ by {}
    if (forall|k: int| 0 <= k < c.ports@.len() ==> (#[trigger] c.ports@[k]).name@.len() > 0) && (forall|
        j: int,
        k: int,
    |
        0 <= j < k < c.ports@.len() ==> (#[trigger] c.ports@[j]).name@ != (#[trigger] c.ports@[k]).name@) {
        assert forall|k: int| 0 <= k < names.len() implies (#[trigger] names[k]).len() > 0 by {
            assert(c.ports@[k].name@.len() > 0);
        }
        assert forall|j: int, k: int| 0 <= j < k < names.len() implies #[trigger] names[j]
            != #[trigger] names[k] by {
            assert(c.ports@[j].name@ != c.ports@[k].name@);
        }
    }
    if let Some(Problem::EmptyField(field)) = c.problem() {
        if exists|k: int| 0 <= k < names.len() && (#[trigger] names[k]).len() == 0 {
            let k = choose|k: int| 0 <= k < names.len() && (#[trigger] names[k]).len() == 0;
            assert(c.ports@[k].name@.len() == 0);
        }
    }
    if let Some(Problem::DuplicatePort(name)) = c.problem() {
        let (j, k) = choose|j: int, k: int|
            0 <= j < k < names.len() && #[trigger] names[j] == name && #[trigger] names[k] == name;
        assert(c.ports@[j].name@ == name && c.ports@[k].name@ == name);
    }
}

} // verus!
