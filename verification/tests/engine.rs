use tapevm::BracketIndex;
use tapevm::Engine;
use tapevm::FatalError;
use tapevm::HaltReason;
use tapevm::OpList;

fn engine_for(source: &str, input: &[u8], max_steps: Option<u64>) -> Engine {
    let program = OpList::new(source);
    let index = BracketIndex::build(&program).expect("program must be well-bracketed");
    Engine::new(program, index, input.to_vec(), max_steps)
}

fn run_to_completion(source: &str, input: &[u8]) -> (Vec<u8>, u64) {
    let mut e = engine_for(source, input, None);
    assert_eq!(e.run(), HaltReason::Completed);
    let out = e.output_bytes().clone();
    (out, e.steps_done())
}

#[test]
fn empty_program_completes_in_zero_steps() {
    let (out, steps) = run_to_completion("", &[]);
    assert!(out.is_empty());
    assert_eq!(steps, 0);
}

#[test]
fn output_reads_the_current_cell() {
    let (out, steps) = run_to_completion("+++.", &[]);
    assert_eq!(out, vec![3]);
    assert_eq!(steps, 4);
}

#[test]
fn simple_loop_runs_body_once() {
    // increment cell 0 to 1, then loop until it is 0 again:
    // the body runs exactly once and the run completes with the cell at 0
    let mut e = engine_for("+[-]", &[], None);
    assert_eq!(e.run(), HaltReason::Completed);
    assert_eq!(e.memory_ref().get_cell(0), 0);
    assert!(e.output_bytes().is_empty());
    // +, [ falls through, -, ] falls through
    assert_eq!(e.steps_done(), 4);
}

#[test]
fn open_with_zero_cell_skips_the_body() {
    // the body would underflow; it must be skipped entirely
    let (out, steps) = run_to_completion("[<<<].", &[]);
    assert_eq!(out, vec![0]);
    // [ jumps to ], the advance skips past it, then .
    assert_eq!(steps, 2);
}

#[test]
fn nested_loops_complete() {
    // 3 * 4 by repeated addition
    let (out, _) = run_to_completion("+++[>++++[>+<-]<-].>>.", &[]);
    assert_eq!(out, vec![0, 12]);
}

#[test]
fn hello_world_prints_exactly() {
    let source = "++++++++[>++++[>++>+++>+++>+<<<<-]>+>+>->>+[<]<-]>>.>---.+++++++..+++.>>.<-.<.+++.------.--------.>>+.>++.";
    let (out, _) = run_to_completion(source, &[]);
    assert_eq!(out, b"Hello World!\n".to_vec());
}

#[test]
fn unmatched_open_never_starts_executing() {
    let program = OpList::new("[+");
    assert!(BracketIndex::build(&program).is_err());
    // no index, no engine: execution cannot begin for a malformed program
}

#[test]
fn step_limit_halts_after_exactly_that_many_steps() {
    // `+[]` never terminates on its own
    let mut e = engine_for("+[]", &[], Some(7));
    assert_eq!(e.run(), HaltReason::StepLimitReached);
    assert_eq!(e.steps_done(), 7);
    // the tape matches seven manual single steps: cell 0 was set to 1
    // by the first step and never touched again
    assert_eq!(e.memory_ref().get_cell(0), 1);
    assert_eq!(e.memory_ref().pointer_index(), 0);
}

#[test]
fn step_limit_matches_manual_single_stepping() {
    let mut limited = engine_for("+++[-].", &[], Some(5));
    assert_eq!(limited.run(), HaltReason::StepLimitReached);
    let mut stepped = engine_for("+++[-].", &[], None);
    for _ in 0..5 {
        assert!(stepped.live());
        stepped.step().expect("no fatal error in the first five steps");
    }
    assert_eq!(limited.steps_done(), stepped.steps_done());
    assert_eq!(
        limited.memory_ref().get_cell(0),
        stepped.memory_ref().get_cell(0)
    );
    assert_eq!(
        limited.program_ref().position(),
        stepped.program_ref().position()
    );
}

#[test]
fn a_terminating_program_is_not_cut_short_by_a_large_limit() {
    let mut e = engine_for("+[-]", &[], Some(1000));
    assert_eq!(e.run(), HaltReason::Completed);
    assert_eq!(e.steps_done(), 4);
}

#[test]
fn left_at_cell_zero_halts_fatally() {
    let mut e = engine_for("<", &[], None);
    assert_eq!(e.run(), HaltReason::Fatal(FatalError::PointerUnderflow));
    assert_eq!(e.steps_done(), 0);
    assert_eq!(e.memory_ref().pointer_index(), 0);
}

#[test]
fn underflow_after_some_work_keeps_earlier_state() {
    let mut e = engine_for("++<", &[], None);
    assert_eq!(e.run(), HaltReason::Fatal(FatalError::PointerUnderflow));
    assert_eq!(e.steps_done(), 2);
    assert_eq!(e.memory_ref().get_cell(0), 2);
}

#[test]
fn input_bytes_are_consumed_first_in_first_out() {
    let (out, _) = run_to_completion(",.>,.", b"AB");
    assert_eq!(out, b"AB".to_vec());
}

#[test]
fn exhausted_input_leaves_the_cell_unchanged() {
    // the first read stores 7; the second finds no input left and must
    // leave the cell as it is, without halting or failing
    let (out, steps) = run_to_completion(",.,.", &[7]);
    assert_eq!(out, vec![7, 7]);
    assert_eq!(steps, 4);
}

#[test]
fn input_with_no_bytes_at_all_is_a_no_op() {
    let (out, _) = run_to_completion("+,.", &[]);
    assert_eq!(out, vec![1]);
}

#[test]
fn stepping_manually_matches_run() {
    let mut manual = engine_for("+[-]", &[], None);
    let mut steps: u64 = 0;
    while manual.live() {
        manual.step().expect("this program has no fatal step");
        steps += 1;
    }
    let (_, run_steps) = run_to_completion("+[-]", &[]);
    assert_eq!(steps, run_steps);
    assert_eq!(manual.memory_ref().get_cell(0), 0);
}
