use devtidy::setup::{validate_target, TargetError};
use devtidy::assistant::{
    gpu_from_nvidia_output, gpu_from_rocm_output, health_report, is_exit_command, lspci_shows_intel_graphics,
    profiler_shows_apple_silicon, wants_install,
    estimate_gpu_memory, model_available, model_timeout_secs, model_token_limit, select_model, should_retry,
    spinner_message, take_line, GpuType, HardwareInfo, GIB,
};

fn hw(gpu_type: GpuType, gpu_memory_gb: u64, cpu_cores: usize, total_gib: u64, available_gib: u64) -> HardwareInfo {
    HardwareInfo { gpu_type, gpu_memory_gb, cpu_cores, total_memory: total_gib * GIB, available_memory: available_gib * GIB }
}

#[test]
fn gpu_memory_estimates() {
    assert_eq!(estimate_gpu_memory(&GpuType::NvidiaGpu("NVIDIA GeForce RTX 4090".into())), 24);
    assert_eq!(estimate_gpu_memory(&GpuType::NvidiaGpu("NVIDIA GeForce RTX 3080 Ti".into())), 10);
    assert_eq!(estimate_gpu_memory(&GpuType::NvidiaGpu("GeForce GTX 1050".into())), 4);
    assert_eq!(estimate_gpu_memory(&GpuType::NvidiaGpu("Tesla T4".into())), 8);
    assert_eq!(estimate_gpu_memory(&GpuType::AmdGpu("Radeon".into())), 8);
    assert_eq!(estimate_gpu_memory(&GpuType::AppleSilicon), 16);
    assert_eq!(estimate_gpu_memory(&GpuType::IntelGpu), 2);
    assert_eq!(estimate_gpu_memory(&GpuType::CpuOnly), 0);
}

#[test]
fn model_follows_hardware() {
    assert_eq!(select_model(&hw(GpuType::NvidiaGpu("x".into()), 24, 8, 32, 16)), "mistral:instruct");
    assert_eq!(select_model(&hw(GpuType::NvidiaGpu("x".into()), 8, 8, 32, 16)), "gemma:7b");
    assert_eq!(select_model(&hw(GpuType::NvidiaGpu("x".into()), 4, 8, 32, 16)), "gemma:2b");
    assert_eq!(select_model(&hw(GpuType::NvidiaGpu("x".into()), 2, 8, 32, 16)), "phi");
    assert_eq!(select_model(&hw(GpuType::AmdGpu("x".into()), 12, 8, 32, 8)), "gemma:7b");
    assert_eq!(select_model(&hw(GpuType::AmdGpu("x".into()), 12, 8, 32, 7)), "gemma:2b");
    assert_eq!(select_model(&hw(GpuType::AmdGpu("x".into()), 4, 8, 32, 16)), "phi");
    assert_eq!(select_model(&hw(GpuType::AppleSilicon, 16, 8, 16, 4)), "mistral:instruct");
    assert_eq!(select_model(&hw(GpuType::AppleSilicon, 16, 8, 8, 4)), "gemma:7b");
    assert_eq!(select_model(&hw(GpuType::AppleSilicon, 16, 8, 4, 4)), "gemma:2b");
    assert_eq!(select_model(&hw(GpuType::CpuOnly, 0, 8, 32, 16)), "gemma:2b");
    assert_eq!(select_model(&hw(GpuType::IntelGpu, 2, 4, 32, 16)), "phi");
    assert_eq!(select_model(&hw(GpuType::CpuOnly, 0, 16, 4, 2)), "tinyllama");
    let mut just_below = hw(GpuType::CpuOnly, 0, 4, 8, 0);
    just_below.available_memory = 4 * GIB - 1;
    assert_eq!(select_model(&just_below), "tinyllama");
}

#[test]
fn model_limits() {
    assert_eq!(model_token_limit("tinyllama"), 1000);
    assert_eq!(model_token_limit("gemma:7b"), 2500);
    assert_eq!(model_token_limit("llama3"), 1500);
    assert_eq!(model_timeout_secs("phi"), 45);
    assert_eq!(model_timeout_secs("mistral:instruct"), 120);
    assert_eq!(model_timeout_secs("gemma:7b"), 60);
}

#[test]
fn only_timeouts_are_retried_once() {
    assert!(should_retry(1, "error sending request: operation timeout"));
    assert!(!should_retry(2, "operation timeout"));
    assert!(!should_retry(1, "connection refused"));
}

#[test]
fn installed_models_match_by_prefix() {
    let models = vec!["gemma:2b-instruct".to_string(), "phi:latest".to_string()];
    assert!(model_available(&models, "phi"));
    assert!(model_available(&models, "gemma:2b"));
    assert!(!model_available(&models, "mistral:instruct"));
    assert!(!model_available(&vec![], "phi"));
}

#[test]
fn stream_lines_are_cut_at_newlines() {
    let mut buffer = b"{\"response\":\"hi\"}\n{\"done\"".to_vec();
    assert_eq!(take_line(&mut buffer), Some(b"{\"response\":\"hi\"}".to_vec()));
    assert_eq!(buffer, b"{\"done\"".to_vec());
    assert_eq!(take_line(&mut buffer), None);
    assert_eq!(buffer, b"{\"done\"".to_vec());
    let mut blank = b"\nx".to_vec();
    assert_eq!(take_line(&mut blank), Some(vec![]));
    assert_eq!(blank, b"x".to_vec());
}

#[test]
fn spinner_messages() {
    assert_eq!(spinner_message("Done", Some("success"), Some("green")), "\u{1b}[32m\u{2714} Done\u{1b}[0m");
    assert_eq!(spinner_message("Careful", Some("warning"), None), "\u{26a0} Careful");
    assert_eq!(spinner_message("x", Some("bogus"), None), "x");
    assert_eq!(spinner_message("x", None, Some("pink")), "\u{1b}[0mx\u{1b}[0m");
}

#[test]
fn target_validation() {
    assert_eq!(validate_target(false, false, false, false), Err(TargetError::Missing));
    assert_eq!(validate_target(true, false, false, false), Err(TargetError::NotADirectory));
    assert_eq!(validate_target(true, true, true, false), Err(TargetError::NoGitignore));
    assert_eq!(validate_target(true, true, true, true), Ok(()));
    assert_eq!(validate_target(true, true, false, false), Ok(()));
}

#[test]
fn gpu_names_from_tool_output() {
    match gpu_from_nvidia_output("  NVIDIA GeForce RTX 4070\n") {
        Some(GpuType::NvidiaGpu(name)) => assert_eq!(name, "NVIDIA GeForce RTX 4070"),
        other => panic!("unexpected {:?}", other),
    }
    assert!(gpu_from_nvidia_output(" \n").is_none());
    let rocm = "====\nGPU[0]\t\t: Card series:\t\tNavi 21 [Radeon RX 6800]\nGPU[0]\t\t: Card model:\t\t0x73bf\n";
    match gpu_from_rocm_output(rocm) {
        Some(GpuType::AmdGpu(name)) => assert_eq!(name, "Card series"),
        other => panic!("unexpected {:?}", other),
    }
    match gpu_from_rocm_output("Card model: Radeon Pro\r\n") {
        Some(GpuType::AmdGpu(name)) => assert_eq!(name, "Radeon Pro"),
        other => panic!("unexpected {:?}", other),
    }
    assert!(gpu_from_rocm_output("no cards here\n").is_none());
    assert!(lspci_shows_intel_graphics("00:02.0 VGA compatible controller: Intel Corporation"));
    assert!(!lspci_shows_intel_graphics("00:02.0 VGA compatible controller: NVIDIA"));
    assert!(profiler_shows_apple_silicon("Chip: Apple M2 Pro"));
    assert!(!profiler_shows_apple_silicon("Processor Name: Intel Core i7"));
}

#[test]
fn health_reports_list_models() {
    assert_eq!(health_report(&vec![]), "Ollama is running but no models are installed.");
    assert_eq!(
        health_report(&vec!["phi:latest".to_string(), "gemma:2b".to_string()]),
        "Ollama is running with 2 models: phi:latest, gemma:2b"
    );
}

#[test]
fn chat_answers() {
    assert!(is_exit_command("EXIT"));
    assert!(is_exit_command("Quit"));
    assert!(!is_exit_command("exits"));
    assert!(wants_install(""));
    assert!(wants_install("yes"));
    assert!(!wants_install("n"));
}
