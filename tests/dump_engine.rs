use chunk_io::{ChunkIoAbort, ChunkStep, DumpEngine};

/// Drives a dump against a scripted chunked sink: each reply is either a
/// batch of writable chunks, given by their lengths, or an error. Returns the
/// outcome, the requests that were issued, and every writable chunk as the
/// dump left it (chunks start out filled with `blank`).
fn run_dump<T: Copy, E>(
    source: Vec<T>,
    blank: T,
    replies: Vec<Result<Vec<usize>, E>>,
) -> (Result<usize, ChunkIoAbort<E>>, Vec<usize>, Vec<Vec<T>>) {
    let mut engine = DumpEngine::new(source);
    let mut replies = replies.into_iter();
    let mut requests = Vec::new();
    let mut sinks = Vec::new();
    let outcome = loop {
        match engine.next_step() {
            ChunkStep::Finished(n) => break Ok(n),
            ChunkStep::Request(n) => {
                requests.push(n);
                match replies.next().expect("the sink ran out of replies") {
                    Ok(lens) => {
                        for len in lens {
                            let mut sink = vec![blank; len];
                            engine.give_chunk(&mut sink);
                            sinks.push(sink);
                        }
                    }
                    Err(e) => break Err(engine.abort(e)),
                }
            }
        }
    };
    (outcome, requests, sinks)
}

#[test]
fn dump_seven_into_three_then_ten() {
    let source: Vec<u8> = vec![1, 2, 3, 4, 5, 6, 7];
    let replies: Vec<Result<Vec<usize>, &str>> = vec![Ok(vec![3, 10])];
    let (outcome, requests, sinks) = run_dump(source, 0, replies);
    assert_eq!(outcome.unwrap(), 7);
    assert_eq!(requests, vec![7]);
    assert_eq!(sinks[0], vec![1, 2, 3]);
    assert_eq!(sinks[1], vec![4, 5, 6, 7, 0, 0, 0, 0, 0, 0]);
}

#[test]
fn dump_give_chunk_counts() {
    let mut engine = DumpEngine::new(vec![1u8, 2, 3, 4, 5, 6, 7]);
    let mut first = [0u8; 3];
    let mut second = [0u8; 10];
    assert_eq!(engine.give_chunk(&mut first), 3);
    assert_eq!(engine.next_step(), ChunkStep::Request(4));
    assert_eq!(engine.give_chunk(&mut second), 4);
    assert_eq!(engine.performed(), 7);
    assert_eq!(engine.next_step(), ChunkStep::Finished(7));
    assert_eq!(engine.source_len(), 7);
    assert_eq!(engine.into_source(), vec![1, 2, 3, 4, 5, 6, 7]);
}

#[test]
fn dump_sink_observes_source_in_order() {
    let source: Vec<u32> = (100..120).collect();
    let replies: Vec<Result<Vec<usize>, ()>> =
        vec![Ok(vec![4, 0, 3]), Ok(vec![]), Ok(vec![6, 1]), Ok(vec![2, 9])];
    let (outcome, requests, sinks) = run_dump(source.clone(), 0, replies);
    assert_eq!(outcome.unwrap(), 20);
    assert_eq!(requests, vec![20, 13, 13, 6]);
    let mut observed = Vec::new();
    let mut left = 20;
    for sink in sinks.iter() {
        let n = sink.len().min(left);
        observed.extend_from_slice(&sink[..n]);
        assert!(sink[n..].iter().all(|x| *x == 0));
        left -= n;
    }
    assert_eq!(observed, source);
}

#[test]
fn dump_aborts_with_items_moved() {
    let source: Vec<u8> = (0..10).collect();
    let replies: Vec<Result<Vec<usize>, &str>> = vec![Ok(vec![2, 2]), Err("E2")];
    let (outcome, requests, sinks) = run_dump(source, 0xff, replies);
    let report = outcome.unwrap_err();
    assert_eq!(report.item_count(), 4);
    assert_eq!(*report.last_error(), "E2");
    assert_eq!(requests, vec![10, 6]);
    assert_eq!(sinks, vec![vec![0, 1], vec![2, 3]]);
}

#[test]
fn dump_zero_length_issues_no_request() {
    let replies: Vec<Result<Vec<usize>, &str>> = vec![];
    let (outcome, requests, sinks) = run_dump(Vec::<u8>::new(), 0, replies);
    assert_eq!(outcome.unwrap(), 0);
    assert!(requests.is_empty());
    assert!(sinks.is_empty());
}

#[test]
fn dump_progress_never_decreases() {
    let mut engine = DumpEngine::new(vec![5u8; 5]);
    let mut last = engine.performed();
    for len in [2usize, 0, 1, 4, 3] {
        let mut sink = vec![0u8; len];
        engine.give_chunk(&mut sink);
        let now = engine.performed();
        assert!(now >= last);
        assert!(now <= engine.source_len());
        last = now;
    }
    assert_eq!(last, 5);
}

#[test]
fn dump_cloned_copies_strings() {
    let mut engine = DumpEngine::new(vec![String::from("x"), String::from("y"), String::from("z")]);
    let mut first = vec![String::from("-"); 2];
    let mut second = vec![String::from("-"); 3];
    assert_eq!(engine.give_chunk_cloned(&mut first), 2);
    assert_eq!(engine.give_chunk_cloned(&mut second), 1);
    assert_eq!(first, vec!["x", "y"]);
    assert_eq!(second, vec!["z", "-", "-"]);
    assert_eq!(engine.next_step(), ChunkStep::Finished(3));
}
