use supervisor::sequencer::ProbePolicy;
use supervisor::service::{backend_service, model_binary, model_service, probe_verdict, Arch, Os};

#[test]
fn binary_table() {
    assert_eq!(model_binary(Os::MacOs, Arch::Aarch64).as_deref(), Some("binaries/ollama-aarch64-apple-darwin"));
    assert_eq!(model_binary(Os::MacOs, Arch::X86_64).as_deref(), Some("binaries/ollama-x86_64-apple-darwin"));
    assert_eq!(model_binary(Os::Linux, Arch::Aarch64).as_deref(), Some("binaries/ollama-aarch64-unknown-linux"));
    assert_eq!(model_binary(Os::Linux, Arch::X86_64).as_deref(), Some("binaries/ollama-x86_64-unknown-linux"));
    assert_eq!(model_binary(Os::Windows, Arch::Other).as_deref(), Some("binaries/ollama.exe"));
    assert_eq!(model_binary(Os::Linux, Arch::Other), None);
    assert_eq!(model_binary(Os::Other, Arch::X86_64), None);
}

#[test]
fn model_service_definition() {
    let s = model_service(Os::Linux, Arch::X86_64).unwrap();
    assert_eq!(s.launch.command, "binaries/ollama-x86_64-unknown-linux");
    assert!(s.launch.args.is_empty());
    assert_eq!(s.health_url, "http://localhost:11434/api/version");
    assert_eq!(s.probe, ProbePolicy { max_attempts: 30, interval_ms: 1000 });
    assert!(model_service(Os::Other, Arch::Other).is_none());
}

#[test]
fn backend_service_definition() {
    let s = backend_service();
    assert_eq!(s.launch.command, "python3");
    assert_eq!(s.launch.args, vec!["-m".to_string(), "backend.app".to_string()]);
    assert_eq!(s.launch.env[0].key, "OLLAMA_BASE_URL");
    assert_eq!(s.launch.env[0].value, "http://localhost:11434");
    assert_eq!(s.launch.cwd.as_deref(), Some("../"));
    assert_eq!(s.health_url, "http://localhost:8080/api/health");
}

#[test]
fn any_answer_counts_as_alive() {
    assert!(probe_verdict(Some(200)));
    assert!(probe_verdict(Some(503)));
    assert!(probe_verdict(Some(404)));
    assert!(!probe_verdict(None));
}
