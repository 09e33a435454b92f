use novel_processor::jobs::{plan_chunks, plan_review_slices, JobAction, JobKind, JobRun};

fn group_sizes(n: usize, batch_size: usize, parallelism: usize) -> Vec<(u64, u64, u64)> {
    let slices = plan_review_slices(n, batch_size, parallelism);
    plan_chunks(slices.len(), parallelism)
        .into_iter()
        .map(|(gs, ge)| {
            let chapters: usize = slices[gs..ge].iter().map(|(s, e)| e - s).sum();
            (gs as u64, ge as u64, chapters as u64)
        })
        .collect()
}

#[test]
fn review_run_reaches_total_and_completes() {
    let groups = group_sizes(23, 10, 3);
    let slices = plan_review_slices(23, 10, 3);
    let mut run = JobRun::new(JobKind::Review, 23, slices.len() as u64);
    let mut last = 0;
    for (gs, ge, chapters) in groups {
        assert!(matches!(run.next_action(gs, ge, false, false), JobAction::Dispatch(_)));
        run.finish_group(chapters, gs, ge);
        assert!(run.processed >= last && run.processed <= 23);
        last = run.processed;
    }
    assert_eq!(run.processed, 23);
    assert_eq!(run.final_message(), "审查完成，共 23 章");
}

#[test]
fn cancelled_review_stops_at_group_boundary() {
    let groups = group_sizes(23, 10, 3);
    let slices = plan_review_slices(23, 10, 3);
    let mut run = JobRun::new(JobKind::Review, 23, slices.len() as u64);
    let (gs, ge, chapters) = groups[0];
    run.finish_group(chapters, gs, ge);
    let (gs, ge, _) = groups[1];
    assert!(matches!(run.next_action(gs, ge, false, true), JobAction::Wait(_)));
    match run.next_action(gs, ge, true, true) {
        JobAction::Stop(m) => assert_eq!(m, format!("审查已终止，已完成 {} / 23 章", chapters)),
        _ => panic!("a cancel must stop the run"),
    }
    assert_eq!(run.processed, chapters);
}

#[test]
fn validation_run_with_a_failure_reports_it() {
    let batches = plan_chunks(7, 3);
    let groups = plan_chunks(batches.len(), 2);
    let mut run = JobRun::new(JobKind::Validation, 7, batches.len() as u64);
    for (gs, ge) in groups {
        let chapters: usize = batches[gs..ge].iter().map(|(s, e)| e - s).sum();
        if gs == 0 {
            run.record_failure("boom".to_string());
        }
        run.finish_group(chapters as u64, gs as u64, ge as u64);
    }
    assert_eq!(run.processed, 7);
    assert_eq!(run.final_message(), "验证完成（部分失败），共 7 章。错误：boom");
}
