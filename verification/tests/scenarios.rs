use minimizer::data_trait::{DataTraits, MinimizationBytes, MinimizationChars, MinimizationLines, Mode};
use minimizer::driver::MinimizationRun;
use minimizer::settings::Settings;
use minimizer::strategy::common::{
    check_if_exceeded_iterations, check_if_stopping_minimization, ProcessStatus, Strategies,
};
use minimizer::strategy::engine::{PassAction, PassEngine};
use minimizer::strategy::general::GeneralStrategy;
use minimizer::strategy::general_multi::GeneralMultiStrategy;
use minimizer::strategy::pedantic::PedanticStrategy;
use minimizer::Stats;

fn settings_for(attempts: u32, strategy: Strategies) -> Settings {
    Settings {
        input_file: String::from("in.txt"),
        output_file: String::from("out.txt"),
        attempts,
        reset_attempts: false,
        command: String::from("grep -q BROKEN {}"),
        file_symbol: String::from("{}"),
        disable_file_name_escaping: false,
        broken_info: vec![String::from("====== Status Some(0)")],
        ignored_info: None,
        quiet: true,
        verbose: false,
        print_command_output: false,
        max_time: None,
        additional_command: None,
        strategy,
    }
}

/// Drives a whole run against a synthetic oracle; returns the bytes most
/// recently handed out for persisting.
fn drive(run: &mut MinimizationRun, oracle: impl Fn(&[u8]) -> bool) -> Option<Vec<u8>> {
    let mut last_persisted: Option<Vec<u8>> = None;
    loop {
        match run.advance(0) {
            PassAction::Evaluate { candidate } => {
                let verdict = oracle(&candidate);
                if let Some(bytes) = run.report_verdict(verdict) {
                    last_persisted = Some(bytes);
                }
            }
            PassAction::EvaluateBatch { candidates } => {
                let verdicts: Vec<bool> = candidates.iter().map(|c| oracle(c)).collect();
                if let Some(bytes) = run.report_batch_verdicts(&verdicts) {
                    last_persisted = Some(bytes);
                }
            }
            PassAction::Finished => break,
        }
    }
    last_persisted
}

fn contains_marker(candidate: &[u8], marker: &[u8]) -> bool {
    candidate.windows(marker.len()).any(|w| w == marker)
}

#[test]
fn byte_trim_finds_the_marker() {
    let input = b"AAAAABROKENAAAAA".to_vec();
    let settings = settings_for(30000, Strategies::General);
    let mut run = MinimizationRun::new(&settings, input, 1);
    let last = drive(&mut run, |c| contains_marker(c, b"BROKEN"));
    assert!(!run.is_failed());
    assert_eq!(run.result().as_slice(), b"BROKEN");
    // every accepted improvement was persisted; the last one is the result
    assert_eq!(last.unwrap(), *run.result());
}

#[test]
fn pedantic_one_by_one_reaches_the_minimum() {
    let input = b"AAAAABROKENAAAAA".to_vec();
    let settings = settings_for(5000, Strategies::Pedantic);
    let mut run = MinimizationRun::new(&settings, input, 1);
    drive(&mut run, |c| contains_marker(c, b"BROKEN"));
    assert!(!run.is_failed());
    assert_eq!(run.result().as_slice(), b"BROKEN");
}

#[test]
fn concurrent_batches_find_the_marker() {
    let input = b"AAAAABROKENAAAAA".to_vec();
    let settings = settings_for(30000, Strategies::GeneralMulti);
    let mut run = MinimizationRun::new(&settings, input, 4);
    drive(&mut run, |c| contains_marker(c, b"BROKEN"));
    assert!(!run.is_failed());
    assert_eq!(run.result().as_slice(), b"BROKEN");
}

#[test]
fn line_removal_keeps_one_line() {
    let input = b"x\nBAD\ny\nz\nw".to_vec();
    let settings = settings_for(2000, Strategies::General);
    let mut run = MinimizationRun::new(&settings, input, 1);
    drive(&mut run, |c| contains_marker(c, b"BAD"));
    assert!(!run.is_failed());
    // exactly one line, no trailing line feed
    assert_eq!(run.result().as_slice(), b"BAD");
}

#[test]
fn rejected_validation_fails_the_run() {
    let input = b"AAAAABROKENAAAAA".to_vec();
    let settings = settings_for(100, Strategies::General);
    let mut run = MinimizationRun::new(&settings, input, 1);
    // the oracle never reports the input as interesting
    drive(&mut run, |_| false);
    assert!(run.is_failed());
    assert_eq!(run.iterations(), 0);
}

#[test]
fn flaky_oracle_still_terminates() {
    let input = b"AAAAABROKENAAAAA".to_vec();
    let settings = settings_for(2000, Strategies::General);
    let mut run = MinimizationRun::new(&settings, input.clone(), 1);
    drive(&mut run, |c| {
        contains_marker(c, b"BROKEN") && rand::Rng::gen_bool(&mut rand::thread_rng(), 0.7)
    });
    if !run.is_failed() {
        assert!(run.result().len() <= input.len());
        // is_stable may report the unstable oracle; either answer is fine
        let _ = run.is_stable();
    }
}

#[test]
fn utf8_pipeline_collapses_to_the_marked_line() {
    let input = b"line1\nKEEPME\nline3\nline4\nline5".to_vec();
    let settings = settings_for(3000, Strategies::General);
    let mut run = MinimizationRun::new(&settings, input, 1);
    drive(&mut run, |c| match std::str::from_utf8(c) {
        Ok(text) => text.contains("KEEPME"),
        Err(_) => false,
    });
    assert!(!run.is_failed());
    assert_eq!(run.result().as_slice(), b"KEEPME");
}

#[test]
fn exhausted_budget_leaves_the_input() {
    let input = b"ABCDEF".to_vec();
    let settings = settings_for(3, Strategies::General);
    let mut run = MinimizationRun::new(&settings, input.clone(), 1);
    // only the unmodified input reproduces the behaviour
    drive(&mut run, |c| c == input.as_slice());
    assert!(!run.is_failed());
    assert_eq!(*run.result(), input);
    // the oracle ran exactly as often as the budget allowed
    assert_eq!(run.iterations(), 3);
}

#[test]
fn stats_accounting() {
    let mut stats = Stats::new();
    stats.max_attempts = 10;
    assert_eq!(stats.available(), 10);
    stats.increase(3);
    assert_eq!(stats.available(), 7);
    assert_eq!(stats.all_iterations, 3);
    assert_eq!(check_if_exceeded_iterations(&stats), ProcessStatus::Continue);
    stats.increase(7);
    assert_eq!(check_if_exceeded_iterations(&stats), ProcessStatus::Stop);
    stats.reset();
    assert_eq!(stats.available(), 10);
    assert_eq!(stats.all_iterations, 10);
}

#[test]
fn sequence_views_expose_their_elements() {
    let mut mb = MinimizationBytes { mode: Mode::Bytes, bytes: vec![1, 2, 3] };
    assert_eq!(mb.len(), 3);
    assert_eq!(mb.get_mode(), Mode::Bytes);
    assert_eq!(*mb.get_vec(), vec![1, 2, 3]);
    mb.replace_vec(vec![9]);
    assert_eq!(mb.len(), 1);

    let mut ml = MinimizationLines {
        mode: Mode::Lines,
        lines: vec![String::from("a"), String::from("b")],
    };
    assert_eq!(ml.len(), 2);
    assert_eq!(ml.get_mode(), Mode::Lines);
    ml.replace_vec(vec![String::from("a")]);
    assert_eq!(*ml.get_vec(), vec![String::from("a")]);

    let mc = MinimizationChars { mode: Mode::Chars, chars: vec!['x', 'y'] };
    assert_eq!(mc.len(), 2);
    assert_eq!(mc.get_mode(), Mode::Chars);
}

#[test]
fn strategy_markers_name_their_kind() {
    assert_eq!(GeneralStrategy::new().kind(), Strategies::General);
    assert_eq!(PedanticStrategy::new().kind(), Strategies::Pedantic);
    assert_eq!(GeneralMultiStrategy::new().kind(), Strategies::GeneralMulti);
}

#[test]
fn rejected_candidates_leave_the_pass_sequence_alone() {
    let data: Vec<u8> = b"ABCDEFGH".to_vec();
    let mut stats = Stats::new();
    stats.max_attempts = 50;
    let mut engine = PassEngine::new(Strategies::General, data.clone(), 1);
    let mut attempts = 0u32;
    loop {
        match engine.advance(&stats, None, 0) {
            PassAction::Evaluate { candidate } => {
                // every candidate is a strict shrink of the snapshot
                assert!(candidate.len() < engine.data().len());
                assert!(!candidate.is_empty());
                // the oracle rejects everything: nothing may change
                engine.report_verdict(false, &mut stats, false);
                attempts += 1;
                assert_eq!(*engine.data(), data);
            }
            PassAction::EvaluateBatch { .. } => unreachable!(),
            PassAction::Finished => break,
        }
    }
    // the budget bounds the attempts of the pass
    assert_eq!(attempts, 50);
    assert_eq!(stats.all_iterations, 50);
    assert_eq!(*engine.data(), data);
}

#[test]
fn time_limit_stops_before_any_attempt() {
    let input = b"AAAAABROKENAAAAA".to_vec();
    let mut settings = settings_for(10000, Strategies::General);
    settings.max_time = Some(0);
    let mut run = MinimizationRun::new(&settings, input.clone(), 1);
    // the drive helper reports an elapsed time of zero seconds, which
    // already reaches a zero-second limit
    drive(&mut run, |c| contains_marker(c, b"BROKEN"));
    assert!(!run.is_failed());
    assert_eq!(*run.result(), input);
    assert_eq!(run.iterations(), 0);
}

#[test]
fn stop_conditions_fire_one_by_one() {
    let mut stats = Stats::new();
    stats.max_attempts = 5;
    // nothing fires
    assert_eq!(check_if_stopping_minimization(&stats, None, 100, 50, true), ProcessStatus::Continue);
    // the wall clock fires
    assert_eq!(check_if_stopping_minimization(&stats, Some(30), 30, 50, true), ProcessStatus::Stop);
    assert_eq!(check_if_stopping_minimization(&stats, Some(31), 30, 50, true), ProcessStatus::Continue);
    // the budget fires
    stats.increase(5);
    assert_eq!(check_if_stopping_minimization(&stats, None, 0, 50, true), ProcessStatus::Stop);
    stats.reset();
    // the length fires, but only for length-sensitive checks
    assert_eq!(check_if_stopping_minimization(&stats, None, 0, 4, true), ProcessStatus::Stop);
    assert_eq!(check_if_stopping_minimization(&stats, None, 0, 4, false), ProcessStatus::Continue);
    assert_eq!(check_if_stopping_minimization(&stats, None, 0, 5, true), ProcessStatus::Continue);
}
