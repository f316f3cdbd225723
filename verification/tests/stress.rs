//! The settings of a stress run.

use ursula_runtime::duration::Duration;
use ursula_runtime::stress::{
    count_active, invalid_value, next_stream_index, setup_group_end, Args, ArgsRead, ArgsReader,
    StressMode, USAGE,
};

fn read(words: &[&str]) -> ArgsRead {
    let raw = words.iter().map(|word| (*word).to_owned()).collect();
    ArgsReader::new(2, raw).read()
}

fn refusal(words: &[&str]) -> String {
    match read(words) {
        ArgsRead::Finished(Err(message)) => message,
        other => panic!("unexpected settings: {other:?}"),
    }
}

#[test]
fn nothing_given_means_the_defaults() {
    match read(&[]) {
        ArgsRead::Finished(Ok(args)) => {
            assert_eq!(args, Args::for_cores(2));
            assert_eq!(args.raft_group_count, 32);
            assert_eq!(args.producer_count, 128);
            assert_eq!(args.mode.as_str(), "batch");
        }
        other => panic!("unexpected settings: {other:?}"),
    }
}

#[test]
fn settings_are_taken_in_turn() {
    let raw = ["--mode", "append", "--duration-secs", "2.5", "--core-count", "+3"]
        .iter()
        .map(|word| (*word).to_owned())
        .collect();
    let mut reader = ArgsReader::new(2, raw);
    match reader.read() {
        ArgsRead::Duration { value } => assert_eq!(value, "2.5"),
        other => panic!("unexpected step: {other:?}"),
    }
    reader.set_duration(Duration {
        secs: 2,
        nanos: 500_000_000,
    });
    match reader.read() {
        ArgsRead::Finished(Ok(args)) => {
            assert_eq!(args.mode, StressMode::Append);
            assert_eq!(args.core_count, 3);
            assert_eq!(args.duration.as_millis(), 2500);
        }
        other => panic!("unexpected settings: {other:?}"),
    }
}

#[test]
fn every_fault_has_its_words() {
    assert_eq!(refusal(&["--help"]), USAGE);
    assert_eq!(
        refusal(&["--speed", "1"]),
        format!("unknown argument '--speed'\n\n{USAGE}")
    );
    assert_eq!(refusal(&["--batch-size"]), "--batch-size requires a value");
    assert_eq!(
        refusal(&["--batch-size", "x"]),
        "invalid --batch-size 'x': invalid digit found in string"
    );
    assert_eq!(
        refusal(&["--mode", "fast"]),
        "invalid --mode 'fast': expected append or batch"
    );
    assert_eq!(
        refusal(&["--core-count", "0"]),
        "--core-count must be greater than zero"
    );
    assert_eq!(invalid_value("a", "b", "c"), "invalid a 'b': c");
}

#[test]
fn producers_go_round_the_streams() {
    assert_eq!(next_stream_index(2, 3, 4), 1);
    assert_eq!(next_stream_index(0, 3, 4), 3);
    assert_eq!(setup_group_end(0, 3, 10), 3);
    assert_eq!(setup_group_end(9, 3, 10), 10);
    assert_eq!(setup_group_end(9, 0, 10), 10);
    assert_eq!(setup_group_end(4, 0, 10), 5);
    assert_eq!(count_active(&vec![0, 1, 0, 7]), 2);
}
