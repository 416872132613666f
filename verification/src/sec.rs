//! Capability model: the closed capability and syscall enumerations, the
//! deny-by-default capability set, and the denial error surface.

use vstd::prelude::*;
use vstd::string::StringExecFns;

use crate::strutil::str_eq;

verus! {

/// A stable identifier for a side-effect capability.
///
/// These identifiers are part of the dotDSL surface area via `allow <capability>`.
#[derive(Clone, Copy, Debug, PartialEq, Eq, Structural, PartialOrd, Ord, Hash)]
pub enum Capability {
    /// Allows emitting logs through the host/runtime.
    Log,
    /// Allows binding an HTTP listener (e.g. `server listen 8080`).
    NetHttpListen,
}

/// The stable string identifier of a capability.
pub open spec fn cap_name(c: Capability) -> Seq<char> {
    match c {
        Capability::Log => "log"@,
        Capability::NetHttpListen => "net.http.listen"@,
    }
}

/// Whether a string is one of the known capability identifiers.
pub open spec fn is_known_capability(s: Seq<char>) -> bool {
    s == cap_name(Capability::Log) || s == cap_name(Capability::NetHttpListen)
}

impl Capability {
    /// Returns the stable string identifier for this capability.
    pub fn as_str(self) -> (r: &'static str)
        ensures
            r@ == cap_name(self),
    {
        match self {
            Capability::Log => "log",
            Capability::NetHttpListen => "net.http.listen",
        }
    }

    /// Returns all supported capabilities for the current runtime version.
    pub fn all() -> (r: Vec<Capability>)
        ensures
            r@ == seq![Capability::Log, Capability::NetHttpListen],
    {
        let mut v: Vec<Capability> = Vec::new();
        v.push(Capability::Log);
        v.push(Capability::NetHttpListen);
        proof {
            assert(v@ =~= seq![Capability::Log, Capability::NetHttpListen]);
        }
        v
    }

    /// Parses a capability from its stable identifier.
    pub fn from_str(value: &str) -> (r: Result<Capability, UnknownCapabilityError>)
        ensures
            is_known_capability(value@) ==> (r matches Ok(c) && cap_name(c) == value@),
            !is_known_capability(value@) ==> (r matches Err(e) && e.spec_input() == value@),
    {
        if str_eq(value, "log") {
            Ok(Capability::Log)
        } else if str_eq(value, "net.http.listen") {
            Ok(Capability::NetHttpListen)
        } else {
            Err(UnknownCapabilityError::new(value))
        }
    }
}

/// A runtime/host syscall that produces side effects and must be capability-gated.
#[derive(Clone, Copy, Debug, PartialEq, Eq, Structural)]
pub enum Syscall {
    /// Emitting a log line to the host.
    LogEmit,
    /// Binding an HTTP listener.
    NetHttpListen,
}

/// The stable syscall name used in denial errors.
pub open spec fn syscall_name(s: Syscall) -> Seq<char> {
    match s {
        Syscall::LogEmit => "log.emit"@,
        Syscall::NetHttpListen => "net.http.listen"@,
    }
}

/// The capability a syscall requires.
pub open spec fn syscall_required_capability(s: Syscall) -> Capability {
    match s {
        Syscall::LogEmit => Capability::Log,
        Syscall::NetHttpListen => Capability::NetHttpListen,
    }
}

/// The dotDSL `allow` statement that would grant the required capability.
pub open spec fn syscall_allow_statement(s: Syscall) -> Seq<char> {
    match s {
        Syscall::LogEmit => "allow log"@,
        Syscall::NetHttpListen => "allow net.http.listen"@,
    }
}

impl Syscall {
    /// Returns the stable syscall name used in denial errors.
    pub fn name(self) -> (r: &'static str)
        ensures
            r@ == syscall_name(self),
    {
        match self {
            Syscall::LogEmit => "log.emit",
            Syscall::NetHttpListen => "net.http.listen",
        }
    }

    /// Returns the capability required to perform this syscall.
    pub fn required_capability(self) -> (r: Capability)
        ensures
            r == syscall_required_capability(self),
    {
        match self {
            Syscall::LogEmit => Capability::Log,
            Syscall::NetHttpListen => Capability::NetHttpListen,
        }
    }

    /// Returns the dotDSL `allow` statement that grants the required capability.
    pub fn allow_statement(self) -> (r: &'static str)
        ensures
            r@ == syscall_allow_statement(self),
    {
        match self {
            Syscall::LogEmit => "allow log",
            Syscall::NetHttpListen => "allow net.http.listen",
        }
    }
}

/// A deny-by-default set of granted capabilities.
#[derive(Clone, Copy, Debug, PartialEq, Eq, Structural)]
pub struct CapabilitySet {
    granted_log: bool,
    granted_net_http_listen: bool,
}

impl CapabilitySet {
    /// Whether the set grants the given capability.
    pub closed spec fn spec_contains(self, c: Capability) -> bool {
        match c {
            Capability::Log => self.granted_log,
            Capability::NetHttpListen => self.granted_net_http_listen,
        }
    }

    /// Creates an empty set (deny-by-default).
    pub fn empty() -> (r: CapabilitySet)
        ensures
            forall|c: Capability| !r.spec_contains(c),
    {
        CapabilitySet { granted_log: false, granted_net_http_listen: false }
    }

    /// Returns true if the set contains the given capability.
    pub fn contains(&self, capability: Capability) -> (r: bool)
        ensures
            r == self.spec_contains(capability),
    {
        match capability {
            Capability::Log => self.granted_log,
            Capability::NetHttpListen => self.granted_net_http_listen,
        }
    }

    /// Inserts a capability.
    pub fn insert(&mut self, capability: Capability)
        ensures
            forall|c: Capability|
                final(self).spec_contains(c) == (c == capability || old(self).spec_contains(c)),
    {
        match capability {
            Capability::Log => {
                self.granted_log = true;
            },
            Capability::NetHttpListen => {
                self.granted_net_http_listen = true;
            },
        }
    }

    /// Enforces the capability required for the given syscall.
    ///
    /// Deny-by-default: an empty set denies all side-effect syscalls.
    pub fn enforce(&self, syscall: Syscall) -> (r: Result<(), SyscallDeniedError>)
        ensures
            r is Ok <==> self.spec_contains(syscall_required_capability(syscall)),
            r matches Err(e) ==> e.spec_syscall() == syscall,
    {
        let required = syscall.required_capability();
        if self.contains(required) {
            Ok(())
        } else {
            Err(SyscallDeniedError::new(syscall))
        }
    }

    /// Builds a capability set from string identifiers.
    ///
    /// Unknown identifiers fail clearly at runtime setup, on the first one.
    pub fn try_from_iter(capabilities: &Vec<String>) -> (r: Result<
        CapabilitySet,
        UnknownCapabilityError,
    >)
        ensures
            r is Ok <==> (forall|i: int|
                0 <= i < capabilities@.len() ==> is_known_capability(#[trigger] capabilities@[i]@)),
            r matches Ok(set) ==> (forall|c: Capability|
                #[trigger] set.spec_contains(c) <==> exists|i: int|
                    0 <= i < capabilities@.len() && capabilities@[i]@ == cap_name(c)),
            r matches Err(e) ==> exists|k: int|
                {
                    &&& 0 <= k < capabilities@.len()
                    &&& !is_known_capability(#[trigger] capabilities@[k]@)
                    &&& e.spec_input() == capabilities@[k]@
                    &&& forall|j: int| 0 <= j < k ==> is_known_capability(#[trigger] capabilities@[j]@)
                },
    {
        let mut set = CapabilitySet::empty();
        let mut i: usize = 0;
        while i < capabilities.len()
            invariant
                i <= capabilities@.len(),
                forall|j: int| 0 <= j < i ==> is_known_capability(#[trigger] capabilities@[j]@),
                forall|c: Capability|
                    #[trigger] set.spec_contains(c) <==> exists|j: int|
                        0 <= j < i && capabilities@[j]@ == cap_name(c),
            decreases capabilities@.len() - i,
        {
            let cap = match Capability::from_str(capabilities[i].as_str()) {
                Ok(cap) => cap,
                Err(e) => {
                    return Err(e);
                },
            };
            set.insert(cap);
            proof {
                reveal_strlit("log");
                reveal_strlit("net.http.listen");
                assert forall|c: Capability| #[trigger] set.spec_contains(c) implies (exists|j: int|
                    0 <= j < i + 1 && capabilities@[j]@ == cap_name(c)) by {
                    if c == cap {
                        assert(capabilities@[i as int]@ == cap_name(c));
                    }
                }
                assert forall|c: Capability|
                    (exists|j: int|
                        0 <= j < i + 1 && capabilities@[j]@ == cap_name(
                            c,
                        )) implies #[trigger] set.spec_contains(c) by {
                    let j = choose|j: int| 0 <= j < i + 1 && capabilities@[j]@ == cap_name(c);
                    if j == i {
                        assert(cap_name(c) == cap_name(cap));
                        if c != cap {
                            assert(cap_name(Capability::Log).len() == 3);
                            assert(cap_name(Capability::NetHttpListen).len() == 15);
                        }
                    }
                }
            }
            i = i + 1;
        }
        Ok(set)
    }
}

impl Default for CapabilitySet {
    /// The default set is empty: deny-by-default.
    fn default() -> (r: CapabilitySet)
        ensures
            forall|c: Capability| !r.spec_contains(c),
    {
        CapabilitySet::empty()
    }
}

/// The exact denial text for a syscall without its required capability.
pub open spec fn denial_message(s: Syscall) -> Seq<char> {
    "capability denied: syscall `"@ + syscall_name(s) + "` requires capability `"@ + cap_name(
        syscall_required_capability(s),
    ) + "`. Hint: add `"@ + syscall_allow_statement(s)
        + "`. Declare it in your `.dot` file with an `allow ...` statement."@
}

/// Returned when a syscall is denied due to a missing capability.
#[derive(Clone, Copy, Debug, PartialEq, Eq, Structural)]
pub struct SyscallDeniedError {
    syscall: Syscall,
}

impl SyscallDeniedError {
    /// The denied syscall, as a specification value.
    pub closed spec fn spec_syscall(&self) -> Syscall {
        self.syscall
    }

    fn new(syscall: Syscall) -> (r: SyscallDeniedError)
        ensures
            r.syscall == syscall,
    {
        SyscallDeniedError { syscall }
    }

    /// The denied syscall.
    pub fn syscall(&self) -> (r: Syscall)
        ensures
            r == self.spec_syscall(),
    {
        self.syscall
    }

    /// The capability required for the denied syscall.
    pub fn required_capability(&self) -> (r: Capability)
        ensures
            r == syscall_required_capability(self.spec_syscall()),
    {
        self.syscall.required_capability()
    }

    /// A user-facing hint describing how to grant the required capability.
    pub fn fix_hint(&self) -> (r: &'static str)
        ensures
            r@ == "Declare it in your `.dot` file with an `allow ...` statement."@,
    {
        "Declare it in your `.dot` file with an `allow ...` statement."
    }

    /// The full, actionable denial message.
    pub fn display_string(&self) -> (r: String)
        ensures
            r@ == denial_message(self.spec_syscall()),
    {
        let mut s = String::from_str("capability denied: syscall `");
        s.append(self.syscall.name());
        s.append("` requires capability `");
        s.append(self.syscall.required_capability().as_str());
        s.append("`. Hint: add `");
        s.append(self.syscall.allow_statement());
        s.append("`. Declare it in your `.dot` file with an `allow ...` statement.");
        proof {
            assert(s@ =~= denial_message(self.syscall));
        }
        s
    }
}

/// Returned when attempting to parse an unknown capability identifier.
#[derive(Clone, Debug)]
pub struct UnknownCapabilityError {
    input: String,
}

impl UnknownCapabilityError {
    /// The offending identifier, as a specification value.
    pub closed spec fn spec_input(&self) -> Seq<char> {
        self.input@
    }

    fn new(input: &str) -> (r: UnknownCapabilityError)
        ensures
            r.input@ == input@,
    {
        UnknownCapabilityError { input: String::from_str(input) }
    }

    /// The unknown capability identifier string.
    pub fn input(&self) -> (r: &String)
        ensures
            r@ == self.spec_input(),
    {
        &self.input
    }

    /// The full message naming the unknown identifier.
    pub fn display_string(&self) -> (r: String)
        ensures
            r@ == "unknown capability `"@ + self.spec_input() + "`"@,
    {
        let mut s = String::from_str("unknown capability `");
        s.append(self.input.as_str());
        s.append("`");
        proof {
            assert(s@ =~= "unknown capability `"@ + self.input@ + "`"@);
        }
        s
    }
}

/// Deny-by-default, stated once for the whole syscall enumeration: the empty
/// capability set denies every syscall.
pub proof fn lemma_empty_set_denies_every_syscall(set: CapabilitySet, s: Syscall)
    requires
        forall|c: Capability| !set.spec_contains(c),
    ensures
        !set.spec_contains(syscall_required_capability(s)),
{
}

} // verus!
