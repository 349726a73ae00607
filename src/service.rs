//! The supervised services: how each is launched, where its health is
//! probed, and how long it is waited for.

use vstd::prelude::*;
use crate::sequencer::ProbePolicy;

verus! {

/// Operating systems that the model service's binaries are built for.
#[derive(Clone, Copy, PartialEq, Eq, Debug, Structural)]
pub enum Os {
    MacOs,
    Linux,
    Windows,
    Other,
}

#[derive(Clone, Copy, PartialEq, Eq, Debug, Structural)]
pub enum Arch {
    Aarch64,
    X86_64,
    Other,
}

/// One variable laid over the inherited environment of a child process.
pub struct EnvVar {
    pub key: String,
    pub value: String,
}

/// How a child process is started.
pub struct LaunchSpec {
    pub command: String,
    pub args: Vec<String>,
    pub env: Vec<EnvVar>,
    /// Working directory; the caller's own when absent.
    pub cwd: Option<String>,
}

/// A supervised service.
pub struct ManagedService {
    pub name: String,
    pub launch: LaunchSpec,
    /// Address that answers a plain GET once the service accepts connections.
    pub health_url: String,
    pub probe: ProbePolicy,
}

/// Probes per service before the sequence moves on regardless.
pub const MAX_PROBE_ATTEMPTS: u32 = 30;

/// Wait before each probe, in milliseconds.
pub const PROBE_INTERVAL_MS: u64 = 1000;

/// Path of the model service's executable for a platform, if it has one.
pub open spec fn model_binary_path(os: Os, arch: Arch) -> Option<Seq<char>> {
    match (os, arch) {
        (Os::MacOs, Arch::Aarch64) => Some("binaries/ollama-aarch64-apple-darwin"@),
        (Os::MacOs, Arch::X86_64) => Some("binaries/ollama-x86_64-apple-darwin"@),
        (Os::Linux, Arch::Aarch64) => Some("binaries/ollama-aarch64-unknown-linux"@),
        (Os::Linux, Arch::X86_64) => Some("binaries/ollama-x86_64-unknown-linux"@),
        (Os::Windows, _) => Some("binaries/ollama.exe"@),
        _ => None,
    }
}

/// Looks up the model service's executable for a platform; `None` where the
/// platform is not supported.
pub fn model_binary(os: Os, arch: Arch) -> (r: Option<String>)
    ensures
        r is Some <==> model_binary_path(os, arch) is Some,
        r matches Some(p) ==> p@ == model_binary_path(os, arch)->0,
{
    match (os, arch) {
        (Os::MacOs, Arch::Aarch64) => Some("binaries/ollama-aarch64-apple-darwin".to_owned()),
        (Os::MacOs, Arch::X86_64) => Some("binaries/ollama-x86_64-apple-darwin".to_owned()),
        (Os::Linux, Arch::Aarch64) => Some("binaries/ollama-aarch64-unknown-linux".to_owned()),
        (Os::Linux, Arch::X86_64) => Some("binaries/ollama-x86_64-unknown-linux".to_owned()),
        (Os::Windows, _) => Some("binaries/ollama.exe".to_owned()),
        _ => None,
    }
}

/// The model-serving daemon, launched from the binary for the platform,
/// with no arguments, in the caller's environment and directory.
pub fn model_service(os: Os, arch: Arch) -> (r: Option<ManagedService>)
    ensures
        r is Some <==> model_binary_path(os, arch) is Some,
        r matches Some(s) ==> {
            &&& s.name@ == "ollama"@
            &&& s.launch.command@ == model_binary_path(os, arch)->0
            &&& s.launch.args@.len() == 0
            &&& s.launch.env@.len() == 0
            &&& s.launch.cwd is None
            &&& s.health_url@ == "http://localhost:11434/api/version"@
            &&& s.probe == (ProbePolicy { max_attempts: MAX_PROBE_ATTEMPTS, interval_ms: PROBE_INTERVAL_MS })
        },
{
    match model_binary(os, arch) {
        Some(command) => Some(ManagedService {
            name: "ollama".to_owned(),
            launch: LaunchSpec { command, args: Vec::new(), env: Vec::new(), cwd: None },
            health_url: "http://localhost:11434/api/version".to_owned(),
            probe: ProbePolicy { max_attempts: MAX_PROBE_ATTEMPTS, interval_ms: PROBE_INTERVAL_MS },
        }),
        None => None,
    }
}

/// The application backend: a Python module run from the parent directory,
/// told the model service's base address through `OLLAMA_BASE_URL`.
pub fn backend_service() -> (s: ManagedService)
    ensures
        s.name@ == "backend"@,
        s.launch.command@ == "python3"@,
        s.launch.args@.len() == 2,
        s.launch.args@[0]@ == "-m"@,
        s.launch.args@[1]@ == "backend.app"@,
        s.launch.env@.len() == 1,
        s.launch.env@[0].key@ == "OLLAMA_BASE_URL"@,
        s.launch.env@[0].value@ == "http://localhost:11434"@,
        s.launch.cwd matches Some(d) && d@ == "../"@,
        s.health_url@ == "http://localhost:8080/api/health"@,
        s.probe == (ProbePolicy { max_attempts: MAX_PROBE_ATTEMPTS, interval_ms: PROBE_INTERVAL_MS }),
{
    let mut args: Vec<String> = Vec::new();
    args.push("-m".to_owned());
    args.push("backend.app".to_owned());
    let mut env: Vec<EnvVar> = Vec::new();
    env.push(EnvVar { key: "OLLAMA_BASE_URL".to_owned(), value: "http://localhost:11434".to_owned() });
    ManagedService {
        name: "backend".to_owned(),
        launch: LaunchSpec { command: "python3".to_owned(), args, env, cwd: Some("../".to_owned()) },
        health_url: "http://localhost:8080/api/health".to_owned(),
        probe: ProbePolicy { max_attempts: MAX_PROBE_ATTEMPTS, interval_ms: PROBE_INTERVAL_MS },
    }
}

/// The verdict of one health probe. A service is alive as soon as it
/// answers at all, whatever the HTTP status: the probe tests that the
/// process accepts connections, not that it works. `status` is the status
/// of the answer, or `None` where no answer came (refused, timed out,
/// unresolved).
pub fn probe_verdict(status: Option<u16>) -> (alive: bool)
    ensures
        alive == status is Some,
{
    status.is_some()
}

} // verus!
