use rustfmt_sender::batch::{BatchPolicy, BatchReport, BatchRun, BatchStep};
use rustfmt_sender::config::BackendConfig;
use rustfmt_sender::consts::COMMON_FILE;
use rustfmt_sender::delivery::{DeliveryOutcome, ResponseStep};
use rustfmt_sender::error::SenderError;
use rustfmt_sender::sender::FileRead;
use rustfmt_sender::rustfmtSender;

type Attempt = Result<DeliveryOutcome, SenderError>;

fn delivered() -> Attempt {
    Ok(DeliveryOutcome::Delivered { status: 200 })
}

fn rejected() -> Attempt {
    Ok(DeliveryOutcome::Rejected { status: 500, body: "server error".to_string() })
}

fn missing(path: &str) -> Attempt {
    Err(SenderError::FileMissing { path: path.to_string() })
}

fn transport() -> Attempt {
    Err(SenderError::Transport { reason: "timed out".to_string() })
}

fn paths(names: &[&str]) -> Vec<String> {
    names.iter().map(|name| name.to_string()).collect()
}

/// Goes through a run with the outcomes given, one for each attempt that the
/// run asks for, and hands back the paths it asked for and its report.
fn drive(mut run: BatchRun, outcomes: &[Attempt]) -> (Vec<String>, BatchReport) {
    let mut tried = Vec::new();
    loop {
        match run.next() {
            BatchStep::Done(report) => return (tried, report),
            BatchStep::Attempt(attempt) => {
                tried.push(attempt.path().clone());
                run = attempt.record(&outcomes[tried.len() - 1]);
            }
        }
    }
}

fn sender() -> rustfmtSender {
    rustfmtSender::new(BackendConfig {
        url: "http://collector.example/in".to_string(),
        auth_token: None,
        timeout_seconds: Some(1),
    })
    .unwrap()
}

#[test]
fn multi_file_flow_goes_on_after_a_missing_file() {
    let run = sender().read_and_send_multiple(paths(&["valid.cfg", "missing.cfg", "valid2.cfg"]));
    let outcomes = [delivered(), missing("missing.cfg"), delivered()];
    let (tried, report) = drive(run, &outcomes);
    assert_eq!(tried, paths(&["valid.cfg", "missing.cfg", "valid2.cfg"]));
    assert_eq!(
        report,
        BatchReport { attempted: 3, delivered: 2, rejected: 0, read_errors: 1, other_errors: 0 }
    );
}

#[test]
fn multi_file_flow_with_real_reads_and_answers() {
    let sender = sender();
    let names = paths(&["valid.cfg", "missing.cfg", "valid2.cfg"]);
    let reads = [
        FileRead::Content("A=1".to_string()),
        FileRead::Missing,
        FileRead::Content("B=2".to_string()),
    ];
    let mut run = sender.read_and_send_multiple(names.clone());
    let mut results: Vec<Attempt> = Vec::new();
    let mut reads = reads.into_iter();
    let report = loop {
        match run.next() {
            BatchStep::Done(report) => break report,
            BatchStep::Attempt(attempt) => {
                let path = attempt.path().clone();
                assert_eq!(path, names[results.len()]);
                let result = match sender.read_and_send(&path, reads.next().unwrap()) {
                    Err(error) => Err(error),
                    Ok(request) => match request.on_response(200) {
                        ResponseStep::Finished(outcome) => Ok(outcome),
                        ResponseStep::ReadBody(answer) => Ok(answer.on_body(None)),
                    },
                };
                run = attempt.record(&result);
                results.push(result);
            }
        }
    };
    assert_eq!(results.len(), 3);
    assert_eq!(results[0], delivered());
    assert_eq!(results[1], missing("missing.cfg"));
    assert_eq!(results[2], delivered());
    assert_eq!(report.attempted, 3);
    assert_eq!(report.delivered, 2);
    assert_eq!(report.read_errors, 1);
    assert_eq!(report.rejected + report.other_errors, 0);
}

#[test]
fn multi_file_flow_tries_every_path_whatever_happens() {
    let names = ["a", "b", "c", "d", "e"];
    let outcomes = [transport(), rejected(), missing("c"), delivered(), transport()];
    let (tried, report) = drive(BatchRun::new(paths(&names), BatchPolicy::KeepGoing), &outcomes);
    assert_eq!(tried, paths(&names));
    assert_eq!(
        report,
        BatchReport { attempted: 5, delivered: 1, rejected: 1, read_errors: 1, other_errors: 2 }
    );
}

#[test]
fn multi_file_flow_over_no_paths_is_over_at_once() {
    let (tried, report) = drive(sender().read_and_send_multiple(Vec::new()), &[]);
    assert!(tried.is_empty());
    assert_eq!(
        report,
        BatchReport { attempted: 0, delivered: 0, rejected: 0, read_errors: 0, other_errors: 0 }
    );
}

#[test]
fn well_known_file_flow_tries_the_conventional_name() {
    let (tried, report) = drive(sender().read_and_send_common_rustfmt(), &[delivered()]);
    assert_eq!(tried, paths(&[".env"]));
    assert_eq!(COMMON_FILE, ".env");
    assert_eq!(report.attempted, 1);
    assert_eq!(report.delivered, 1);
}

#[test]
fn well_known_file_flow_ends_without_error_where_no_file_is_there() {
    let (tried, report) = drive(sender().read_and_send_common_rustfmt(), &[missing(".env")]);
    assert_eq!(tried, paths(&[".env"]));
    assert_eq!(
        report,
        BatchReport { attempted: 1, delivered: 0, rejected: 0, read_errors: 1, other_errors: 0 }
    );
}

#[test]
fn first_success_ends_the_run() {
    let names = ["a", "b", "c", "d"];
    let outcomes = [missing("a"), transport(), delivered(), delivered()];
    let run = BatchRun::new(paths(&names), BatchPolicy::UntilFirstSuccess);
    let (tried, report) = drive(run, &outcomes);
    assert_eq!(tried, paths(&["a", "b", "c"]));
    assert_eq!(
        report,
        BatchReport { attempted: 3, delivered: 1, rejected: 0, read_errors: 1, other_errors: 1 }
    );
}

#[test]
fn rejection_counts_as_success_of_the_attempt() {
    let names = ["a", "b"];
    let outcomes = [rejected(), delivered()];
    let run = BatchRun::new(paths(&names), BatchPolicy::UntilFirstSuccess);
    let (tried, report) = drive(run, &outcomes);
    assert_eq!(tried, paths(&["a"]));
    assert_eq!(
        report,
        BatchReport { attempted: 1, delivered: 0, rejected: 1, read_errors: 0, other_errors: 0 }
    );
}

#[test]
fn run_without_success_tries_every_path() {
    let names = ["a", "b", "c"];
    let outcomes = [missing("a"), missing("b"), transport()];
    let run = BatchRun::new(paths(&names), BatchPolicy::UntilFirstSuccess);
    let (tried, report) = drive(run, &outcomes);
    assert_eq!(tried, paths(&names));
    assert_eq!(
        report,
        BatchReport { attempted: 3, delivered: 0, rejected: 0, read_errors: 2, other_errors: 1 }
    );
}
