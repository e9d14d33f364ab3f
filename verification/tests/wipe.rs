use xpmanager::errors::ErrorKind;
use xpmanager::filelib::wipe::{RandomFill, WipePass, WipePattern, WIPE_BUFFER_SIZE};
use xpmanager::filelib;
use xpmanager::filelib::{Wipe, WipeAction, WipeEvent, WipePlan, WipeStage};

/// Runs an erasure on a file kept in memory. Returns the writes of every
/// pass, as offset and bytes written, and whether the file was removed.
fn erase(wipe: &mut Wipe, file: &mut Vec<u8>) -> (Vec<Vec<(u64, Vec<u8>)>>, bool) {
    let mut passes: Vec<Vec<(u64, Vec<u8>)>> = Vec::new();
    let mut removed = false;
    let mut action = filelib::wipe_delete(wipe, WipeEvent::Start).unwrap();
    loop {
        let event = match action {
            WipeAction::Open => {
                passes.push(Vec::new());
                WipeEvent::Opened { len: file.len() as u64 }
            }
            WipeAction::Write { offset, count } => {
                let bytes = wipe.buffer()[..count].to_vec();
                let at = offset as usize;
                file[at..at + count].copy_from_slice(&bytes);
                passes.last_mut().unwrap().push((offset, bytes));
                WipeEvent::Written
            }
            WipeAction::Flush => WipeEvent::Flushed,
            WipeAction::Remove => {
                removed = true;
                WipeEvent::Removed
            }
            WipeAction::Done => break,
            WipeAction::Fail { kind } => panic!("erasure failed: {:?}", kind),
        };
        action = filelib::wipe_delete(wipe, event).unwrap();
    }
    (passes, removed)
}

fn shape(pass: &[(u64, Vec<u8>)]) -> Vec<(u64, usize)> {
    pass.iter().map(|(offset, bytes)| (*offset, bytes.len())).collect()
}

fn pass(pattern: WipePattern, buffer_size: usize, random_fill: RandomFill) -> WipePass {
    WipePass { pattern, buffer_size, random_fill }
}

#[test]
fn wipe_delete() {
    let mut file = b"this is test message!".to_vec();
    let mut wipe = Wipe::new("./temp/wipe_delete/test.txt".to_string());
    assert_eq!(wipe.path(), "./temp/wipe_delete/test.txt");
    let (passes, removed) = erase(&mut wipe, &mut file);
    assert_eq!(removed, true, "File NOT wiped and deleted!!");
    assert_eq!(wipe.stage(), WipeStage::Deleted);
    assert_eq!(passes.len(), 4);
    for pass in &passes {
        assert_eq!(shape(pass), vec![(0, 21)]);
    }
    assert_eq!(file, vec![0u8; 21]);
}

#[test]
fn seventy_thousand_bytes_are_written_in_two_steps_per_pass() {
    let mut file = vec![7u8; 70_000];
    let mut wipe = Wipe::new("big".to_string());
    let (passes, removed) = erase(&mut wipe, &mut file);
    assert!(removed);
    assert_eq!(wipe.stage(), WipeStage::Deleted);
    assert_eq!(passes.len(), 4);
    for pass in &passes {
        assert_eq!(shape(pass), vec![(0, 65_536), (65_536, 4_464)]);
    }
    assert!(passes[0].iter().all(|(_, bytes)| bytes.iter().all(|b| *b == 1)));
    assert!(passes[3].iter().all(|(_, bytes)| bytes.iter().all(|b| *b == 0)));
    for random in [&passes[1], &passes[2]] {
        assert_eq!(random[1].1[..], random[0].1[..4_464]);
        assert!(random[0].1.iter().any(|b| *b != random[0].1[0]));
    }
    assert_ne!(passes[1][0].1, passes[2][0].1);
    assert_eq!(file, vec![0u8; 70_000]);
}

#[test]
fn empty_file_is_removed_without_a_write() {
    let mut file = Vec::new();
    let mut wipe = Wipe::new("empty".to_string());
    let mut actions = Vec::new();
    let mut action = filelib::wipe_delete(&mut wipe, WipeEvent::Start).unwrap();
    loop {
        actions.push(action);
        let event = match action {
            WipeAction::Open => WipeEvent::Opened { len: file.len() as u64 },
            WipeAction::Remove => WipeEvent::Removed,
            WipeAction::Done => break,
            other => panic!("not expected on an empty file: {:?}", other),
        };
        action = filelib::wipe_delete(&mut wipe, event).unwrap();
    }
    assert_eq!(
        actions,
        vec![
            WipeAction::Open,
            WipeAction::Open,
            WipeAction::Open,
            WipeAction::Open,
            WipeAction::Remove,
            WipeAction::Done,
        ]
    );
    assert_eq!(wipe.stage(), WipeStage::Deleted);
    let (passes, removed) = erase(&mut Wipe::new("empty".to_string()), &mut file);
    assert!(removed);
    assert!(passes.iter().all(|pass| pass.is_empty()));
}

#[test]
fn writes_tile_the_file() {
    for len in [1usize, 2, 65_535, 65_536, 65_537, 131_072, 131_073, 200_000] {
        let mut file = vec![9u8; len];
        let (passes, removed) = erase(&mut Wipe::new("f".to_string()), &mut file);
        assert!(removed);
        for pass in &passes {
            let mut at = 0u64;
            for (offset, bytes) in pass {
                assert_eq!(*offset, at);
                assert!(!bytes.is_empty() && bytes.len() <= WIPE_BUFFER_SIZE);
                at += bytes.len() as u64;
            }
            assert_eq!(at, len as u64);
            assert_eq!(pass.len(), (len + WIPE_BUFFER_SIZE - 1) / WIPE_BUFFER_SIZE);
        }
        assert_eq!(file, vec![0u8; len]);
    }
}

#[test]
fn standard_plan_is_ones_random_random_zeros() {
    let plan = WipePlan::standard();
    assert_eq!(plan.len(), 4);
    let patterns: Vec<WipePattern> = (0..4).map(|i| plan.pass(i).pattern).collect();
    assert_eq!(
        patterns,
        vec![
            WipePattern::AllOnes,
            WipePattern::Random,
            WipePattern::Random,
            WipePattern::AllZeros,
        ]
    );
    for i in 0..4 {
        assert_eq!(plan.pass(i).buffer_size, 65_536);
        assert_eq!(plan.pass(i).random_fill, RandomFill::OncePerPass);
    }
}

#[test]
fn plan_with_an_empty_buffer_is_refused() {
    assert!(WipePlan::new(vec![pass(WipePattern::AllOnes, 0, RandomFill::OncePerPass)]).is_none());
    assert!(WipePlan::new(vec![
        pass(WipePattern::AllOnes, 4, RandomFill::OncePerPass),
        pass(WipePattern::Random, 0, RandomFill::OncePerPass),
    ])
    .is_none());
    assert!(WipePlan::new(Vec::new()).is_some());
    assert!(WipePlan::new(vec![pass(WipePattern::AllOnes, 1, RandomFill::OncePerPass)]).is_some());
}

#[test]
fn other_plans_run_as_given() {
    let plan = WipePlan::new(vec![
        pass(WipePattern::AllZeros, 4, RandomFill::OncePerPass),
        pass(WipePattern::AllOnes, 100, RandomFill::OncePerPass),
    ])
    .unwrap();
    let mut file = vec![5u8; 10];
    let mut wipe = Wipe::with_plan("f".to_string(), plan);
    let (passes, removed) = erase(&mut wipe, &mut file);
    assert!(removed);
    assert_eq!(passes.len(), 2);
    assert_eq!(shape(&passes[0]), vec![(0, 4), (4, 4), (8, 2)]);
    assert_eq!(shape(&passes[1]), vec![(0, 10)]);
    assert!(passes[0].iter().all(|(_, bytes)| bytes.iter().all(|b| *b == 0)));
    assert_eq!(file, vec![1u8; 10]);
}

#[test]
fn plan_without_passes_only_removes() {
    let mut wipe = Wipe::with_plan("f".to_string(), WipePlan::new(Vec::new()).unwrap());
    assert_eq!(filelib::wipe_delete(&mut wipe, WipeEvent::Start), Some(WipeAction::Remove));
    assert_eq!(filelib::wipe_delete(&mut wipe, WipeEvent::Removed), Some(WipeAction::Done));
    assert_eq!(wipe.stage(), WipeStage::Deleted);
}

#[test]
fn random_bytes_are_drawn_once_per_pass_unless_asked_otherwise() {
    let once = WipePlan::new(vec![pass(WipePattern::Random, 64, RandomFill::OncePerPass)]).unwrap();
    let mut file = vec![0u8; 256];
    let (passes, _) = erase(&mut Wipe::with_plan("f".to_string(), once), &mut file);
    assert_eq!(passes[0].len(), 4);
    assert!(passes[0].iter().all(|(_, bytes)| *bytes == passes[0][0].1));

    let fresh =
        WipePlan::new(vec![pass(WipePattern::Random, 64, RandomFill::FreshPerWrite)]).unwrap();
    let mut file = vec![0u8; 256];
    let (passes, _) = erase(&mut Wipe::with_plan("f".to_string(), fresh), &mut file);
    assert_eq!(passes[0].len(), 4);
    assert!(passes[0].iter().all(|(_, bytes)| bytes.len() == 64));
    assert_ne!(passes[0][0].1, passes[0][1].1);
    assert_ne!(passes[0][1].1, passes[0][2].1);
}

#[test]
fn missing_file_fails_with_file_not_found() {
    let mut wipe = Wipe::new("gone".to_string());
    assert_eq!(filelib::wipe_delete(&mut wipe, WipeEvent::Start), Some(WipeAction::Open));
    assert_eq!(
        filelib::wipe_delete(&mut wipe, WipeEvent::NotFound),
        Some(WipeAction::Fail { kind: ErrorKind::FileNotFound })
    );
    assert_eq!(wipe.stage(), WipeStage::Failed { kind: ErrorKind::FileNotFound });
}

#[test]
fn every_failure_ends_the_erasure_with_its_kind() {
    let until_write = [WipeEvent::Start, WipeEvent::Opened { len: 10 }];
    let until_flush = [WipeEvent::Start, WipeEvent::Opened { len: 10 }, WipeEvent::Written];
    let until_remove = [
        WipeEvent::Start,
        WipeEvent::Opened { len: 0 },
        WipeEvent::Opened { len: 0 },
        WipeEvent::Opened { len: 0 },
        WipeEvent::Opened { len: 0 },
    ];
    let cases: Vec<(&[WipeEvent], WipeEvent, ErrorKind)> = vec![
        (&until_write[..1], WipeEvent::NotFound, ErrorKind::FileNotFound),
        (&until_write[..1], WipeEvent::OpenFailed, ErrorKind::FileOpen),
        (&until_write, WipeEvent::SeekFailed, ErrorKind::FileSeek),
        (&until_write, WipeEvent::WriteFailed, ErrorKind::FileWrite),
        (&until_flush, WipeEvent::FlushFailed, ErrorKind::FileFlush),
        (&until_remove, WipeEvent::RemoveFailed, ErrorKind::FileDelete),
    ];
    for (before, failure, kind) in cases {
        let mut wipe = Wipe::new("f".to_string());
        for event in before {
            let action = filelib::wipe_delete(&mut wipe, *event).unwrap();
            assert!(!matches!(action, WipeAction::Fail { .. } | WipeAction::Done));
        }
        assert_eq!(filelib::wipe_delete(&mut wipe, failure), Some(WipeAction::Fail { kind }));
        assert_eq!(wipe.stage(), WipeStage::Failed { kind });
        for later in [WipeEvent::Start, WipeEvent::Written, WipeEvent::Flushed, WipeEvent::Removed]
        {
            assert_eq!(filelib::wipe_delete(&mut wipe, later), None);
            assert_eq!(wipe.stage(), WipeStage::Failed { kind });
        }
    }
}

#[test]
fn failure_in_a_later_pass_stops_before_the_removal() {
    let mut wipe = Wipe::new("f".to_string());
    let events = [
        WipeEvent::Start,
        WipeEvent::Opened { len: 5 },
        WipeEvent::Written,
        WipeEvent::Flushed,
        WipeEvent::Opened { len: 5 },
    ];
    for event in events {
        filelib::wipe_delete(&mut wipe, event).unwrap();
    }
    assert_eq!(wipe.stage(), WipeStage::Writing { pass: 1, len: 5, position: 0 });
    assert_eq!(
        filelib::wipe_delete(&mut wipe, WipeEvent::WriteFailed),
        Some(WipeAction::Fail { kind: ErrorKind::FileWrite })
    );
    assert_eq!(filelib::wipe_delete(&mut wipe, WipeEvent::Removed), None);
    assert_ne!(wipe.stage(), WipeStage::Deleted);
}

#[test]
fn unexpected_event_changes_nothing() {
    let mut wipe = Wipe::new("f".to_string());
    assert_eq!(wipe.stage(), WipeStage::Idle);
    assert_eq!(filelib::wipe_delete(&mut wipe, WipeEvent::Written), None);
    assert_eq!(filelib::wipe_delete(&mut wipe, WipeEvent::Opened { len: 3 }), None);
    assert_eq!(wipe.stage(), WipeStage::Idle);
    assert_eq!(filelib::wipe_delete(&mut wipe, WipeEvent::Start), Some(WipeAction::Open));
    assert_eq!(filelib::wipe_delete(&mut wipe, WipeEvent::Start), None);
    assert_eq!(wipe.stage(), WipeStage::Opening { pass: 0 });
    assert_eq!(
        filelib::wipe_delete(&mut wipe, WipeEvent::Opened { len: 3 }),
        Some(WipeAction::Write { offset: 0, count: 3 })
    );
    assert_eq!(filelib::wipe_delete(&mut wipe, WipeEvent::Flushed), None);
    assert_eq!(wipe.stage(), WipeStage::Writing { pass: 0, len: 3, position: 0 });
    assert_eq!(wipe.buffer(), &vec![1u8, 1, 1]);
}

#[test]
fn stages_follow_one_another() {
    let mut wipe = Wipe::with_plan(
        "f".to_string(),
        WipePlan::new(vec![pass(WipePattern::AllOnes, 2, RandomFill::OncePerPass)]).unwrap(),
    );
    let steps = [
        (WipeEvent::Start, WipeAction::Open, WipeStage::Opening { pass: 0 }),
        (
            WipeEvent::Opened { len: 3 },
            WipeAction::Write { offset: 0, count: 2 },
            WipeStage::Writing { pass: 0, len: 3, position: 0 },
        ),
        (
            WipeEvent::Written,
            WipeAction::Write { offset: 2, count: 1 },
            WipeStage::Writing { pass: 0, len: 3, position: 2 },
        ),
        (WipeEvent::Written, WipeAction::Flush, WipeStage::Flushing { pass: 0 }),
        (WipeEvent::Flushed, WipeAction::Remove, WipeStage::Deleting),
        (WipeEvent::Removed, WipeAction::Done, WipeStage::Deleted),
    ];
    for (event, action, stage) in steps {
        assert_eq!(filelib::wipe_delete(&mut wipe, event), Some(action));
        assert_eq!(wipe.stage(), stage);
    }
    assert_eq!(filelib::wipe_delete(&mut wipe, WipeEvent::Removed), None);
}
