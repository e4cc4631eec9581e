use print_agent::fallback::{
    exit_detail, Argument, Candidate, ChainAction, FallbackChain, NoBackendAvailable,
};

fn sumatra() -> Candidate {
    Candidate {
        path: "C:\\App\\SumatraPDF.exe".to_string(),
        arguments: vec![
            Argument::Literal("-print-to".to_string()),
            Argument::PrinterName,
            Argument::Literal("-silent".to_string()),
            Argument::DocumentPath,
        ],
        wait_millis: 0,
    }
}

fn reader() -> Candidate {
    Candidate {
        path: "C:\\Program Files\\Adobe\\AcroRd32.exe".to_string(),
        arguments: vec![
            Argument::Literal("/t".to_string()),
            Argument::DocumentPath,
            Argument::PrinterName,
        ],
        wait_millis: 5000,
    }
}

fn edge() -> Candidate {
    Candidate { path: "msedge.exe".to_string(), arguments: Vec::new(), wait_millis: 3000 }
}

#[test]
fn no_candidate_present_is_no_backend_available() {
    let mut chain = FallbackChain::new(vec![sumatra(), reader(), edge()]);
    for candidate in 0..3 {
        assert_eq!(chain.next_action(), ChainAction::Probe { candidate });
        assert_eq!(chain.error(), None);
        chain.report_failure(String::new());
    }
    assert_eq!(chain.next_action(), ChainAction::Fail);
    let error = chain.error().unwrap();
    assert_eq!(
        error.attempts,
        vec![
            "C:\\App\\SumatraPDF.exe: not found",
            "C:\\Program Files\\Adobe\\AcroRd32.exe: not found",
            "msedge.exe: not found",
        ]
    );
    assert_eq!(
        error.message(),
        "No print backend available. Tried: C:\\App\\SumatraPDF.exe: not found; \
         C:\\Program Files\\Adobe\\AcroRd32.exe: not found; msedge.exe: not found"
    );
}

#[test]
fn chain_without_candidates_fails_at_once() {
    let chain = FallbackChain::new(Vec::new());
    assert_eq!(chain.next_action(), ChainAction::Fail);
    let error = chain.error().unwrap();
    assert_eq!(error, NoBackendAvailable { attempts: Vec::new() });
    assert_eq!(error.message(), "No print backend available. Tried: ");
}

#[test]
fn first_candidate_that_prints_wins() {
    let mut chain = FallbackChain::new(vec![sumatra(), reader()]);
    assert_eq!(chain.next_action(), ChainAction::Probe { candidate: 0 });
    chain.report_success();
    assert_eq!(chain.next_action(), ChainAction::Launch { candidate: 0 });
    chain.report_success();
    assert_eq!(chain.next_action(), ChainAction::Succeed { candidate: 0 });
    assert_eq!(chain.error(), None);
    assert!(chain.attempts().is_empty());
}

#[test]
fn absent_candidate_is_skipped() {
    let mut chain = FallbackChain::new(vec![sumatra(), reader()]);
    chain.report_failure(String::new());
    assert_eq!(chain.next_action(), ChainAction::Probe { candidate: 1 });
    chain.report_success();
    assert_eq!(chain.next_action(), ChainAction::Launch { candidate: 1 });
    assert_eq!(chain.attempts(), &vec!["C:\\App\\SumatraPDF.exe: not found".to_string()]);
}

#[test]
fn viewer_that_returns_early_is_waited_for() {
    let mut chain = FallbackChain::new(vec![reader()]);
    chain.report_success();
    chain.report_success();
    assert_eq!(chain.next_action(), ChainAction::Wait { candidate: 0, millis: 5000 });
    chain.report_success();
    assert_eq!(chain.next_action(), ChainAction::Succeed { candidate: 0 });
}

#[test]
fn failed_candidate_hands_over_to_the_next() {
    let mut chain = FallbackChain::new(vec![sumatra(), reader()]);
    chain.report_success();
    assert_eq!(chain.next_action(), ChainAction::Launch { candidate: 0 });
    chain.report_failure("exit code 1".to_string());
    assert_eq!(chain.next_action(), ChainAction::Probe { candidate: 1 });
    chain.report_success();
    chain.report_success();
    chain.report_success();
    assert_eq!(chain.next_action(), ChainAction::Succeed { candidate: 1 });
    assert_eq!(chain.attempts(), &vec!["C:\\App\\SumatraPDF.exe: exit code 1".to_string()]);
}

#[test]
fn all_candidates_failing_is_no_backend_available() {
    let mut chain = FallbackChain::new(vec![sumatra(), reader()]);
    chain.report_success();
    chain.report_failure("exit code 1".to_string());
    chain.report_failure(String::new());
    assert_eq!(chain.next_action(), ChainAction::Fail);
    let error = chain.error().unwrap();
    assert_eq!(
        error.attempts,
        vec![
            "C:\\App\\SumatraPDF.exe: exit code 1",
            "C:\\Program Files\\Adobe\\AcroRd32.exe: not found",
        ]
    );
}

#[test]
fn reports_after_the_end_of_a_chain_change_nothing() {
    let mut chain = FallbackChain::new(vec![sumatra()]);
    chain.report_success();
    chain.report_success();
    assert_eq!(chain.next_action(), ChainAction::Succeed { candidate: 0 });
    chain.report_failure("late".to_string());
    chain.report_success();
    assert_eq!(chain.next_action(), ChainAction::Succeed { candidate: 0 });
    assert!(chain.attempts().is_empty());

    let mut chain = FallbackChain::new(vec![sumatra()]);
    chain.report_failure(String::new());
    assert_eq!(chain.next_action(), ChainAction::Fail);
    chain.report_success();
    chain.report_failure("late".to_string());
    assert_eq!(chain.next_action(), ChainAction::Fail);
    assert_eq!(chain.attempts().len(), 1);
}

#[test]
fn wait_counts_as_over_whatever_is_reported() {
    let mut chain = FallbackChain::new(vec![edge()]);
    chain.report_success();
    chain.report_success();
    assert_eq!(chain.next_action(), ChainAction::Wait { candidate: 0, millis: 3000 });
    chain.report_failure("interrupted".to_string());
    assert_eq!(chain.next_action(), ChainAction::Succeed { candidate: 0 });
}

#[test]
fn chain_keeps_its_candidates() {
    let chain = FallbackChain::new(vec![sumatra(), reader()]);
    assert_eq!(chain.candidates(), &vec![sumatra(), reader()]);
}

#[test]
fn command_line_names_printer_and_document() {
    let line = sumatra().command_line("GLS Label", "C:\\Temp\\label.pdf");
    assert_eq!(line, vec!["-print-to", "GLS Label", "-silent", "C:\\Temp\\label.pdf"]);
    let line = reader().command_line("GLS Label", "C:\\Temp\\label.pdf");
    assert_eq!(line, vec!["/t", "C:\\Temp\\label.pdf", "GLS Label"]);
    assert!(edge().command_line("p", "d").is_empty());
}

#[test]
fn exit_detail_tells_code_and_output() {
    assert_eq!(
        exit_detail(Some(1), "", "cannot open printer"),
        "print failed (exit code Some(1)). stdout:  stderr: cannot open printer"
    );
    assert_eq!(
        exit_detail(Some(-1073741819), "out", "err"),
        "print failed (exit code Some(-1073741819)). stdout: out stderr: err"
    );
    assert_eq!(exit_detail(None, "", ""), "print failed (exit code None). stdout:  stderr: ");
    assert_eq!(
        exit_detail(Some(i32::MIN), "", ""),
        format!("print failed (exit code {:?}). stdout:  stderr: ", Some(i32::MIN))
    );
}
