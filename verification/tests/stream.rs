use leptos_spin::response::SpinBody;
use leptos_spin::route_table::SsrMode;
use leptos_spin::stream::{
    append_bytes, PageStream, Phase, RpcStream, StreamAction, StreamEvent,
};

/// What a run of a page's stream did: the work it asked for, in order, with
/// the chunks it handed to the sink.
struct Run {
    log: Vec<String>,
    chunks: Vec<Vec<u8>>,
    releases: usize,
    failed: bool,
    done: bool,
}

/// Drives the stream of a page as a faithful host would: the producer gives
/// `fragments`, and the sink refuses the chunk with the number `reject`.
fn drive(mode: SsrMode, fragments: &[&str], reject: Option<usize>) -> Run {
    let (mut stream, mut action) = PageStream::start(mode);
    let mut run = Run {
        log: Vec::new(),
        chunks: Vec::new(),
        releases: 0,
        failed: false,
        done: false,
    };
    let mut next = 0;
    for _ in 0..1000 {
        let event = match action {
            StreamAction::NextFragment => {
                run.log.push("next".to_string());
                if next < fragments.len() {
                    next += 1;
                    StreamEvent::Fragment(fragments[next - 1].as_bytes().to_vec())
                } else {
                    StreamEvent::Exhausted
                }
            }
            StreamAction::BuildFrame => {
                run.log.push("frame".to_string());
                StreamEvent::Frame(b"<head>".to_vec(), b"<tail>".to_vec())
            }
            StreamAction::Commit => {
                run.log.push("commit".to_string());
                StreamEvent::Committed
            }
            StreamAction::Send(chunk) => {
                run.log.push("send".to_string());
                run.chunks.push(chunk);
                if reject == Some(run.chunks.len()) {
                    StreamEvent::Rejected
                } else {
                    StreamEvent::Accepted
                }
            }
            StreamAction::Release => {
                run.log.push("release".to_string());
                run.releases += 1;
                StreamEvent::Released
            }
            StreamAction::Finish => {
                run.log.push("finish".to_string());
                run.done = stream.is_done();
                run.failed = stream.has_failed();
                assert!(stream.is_released());
                return run;
            }
        };
        let (s, a) = stream.step(event);
        stream = s;
        action = a;
    }
    panic!("the stream did not finish");
}

fn texts(chunks: &[Vec<u8>]) -> Vec<String> {
    chunks
        .iter()
        .map(|c| String::from_utf8(c.clone()).unwrap())
        .collect()
}

#[test]
fn in_order_page_is_framed_by_head_and_tail() {
    let run = drive(SsrMode::InOrder, &["<div>", "1", "</div>"], None);
    assert_eq!(
        vec!["<head>", "<div>", "1", "</div>", "<tail>"],
        texts(&run.chunks)
    );
    assert_eq!(
        vec![
            "frame", "next", "commit", "send", "send", "next", "send", "next", "send", "next",
            "release", "send", "finish"
        ],
        run.log
    );
    assert_eq!(1, run.releases);
    assert!(run.done);
    assert!(!run.failed);
}

#[test]
fn out_of_order_page_computes_its_head_after_the_first_fragment() {
    for mode in [SsrMode::OutOfOrder, SsrMode::PartiallyBlocked] {
        let run = drive(mode, &["<div>", "1", "</div>"], None);
        assert_eq!(
            vec!["<head>", "<div>", "1", "</div>", "<tail>"],
            texts(&run.chunks)
        );
        assert_eq!(
            vec![
                "next", "frame", "commit", "send", "send", "next", "send", "next", "send",
                "next", "release", "send", "finish"
            ],
            run.log
        );
        assert_eq!(1, run.releases);
        assert!(run.done && !run.failed);
    }
}

#[test]
fn async_page_goes_out_in_one_piece() {
    let run = drive(SsrMode::Async, &["<div>", "1", "</div>"], None);
    assert_eq!(vec!["<head><div>1</div><tail>"], texts(&run.chunks));
    assert_eq!(
        vec![
            "next", "next", "next", "next", "frame", "release", "commit", "send", "finish"
        ],
        run.log
    );
    assert_eq!(1, run.releases);
    assert!(run.done && !run.failed);
}

#[test]
fn page_without_fragments_is_head_and_tail() {
    for mode in [SsrMode::OutOfOrder, SsrMode::InOrder, SsrMode::PartiallyBlocked] {
        let run = drive(mode, &[], None);
        assert_eq!(vec!["<head>", "<tail>"], texts(&run.chunks));
        assert_eq!(1, run.releases);
        assert!(run.done && !run.failed);
    }
    let run = drive(SsrMode::Async, &[], None);
    assert_eq!(vec!["<head><tail>"], texts(&run.chunks));
    assert_eq!(1, run.releases);
}

#[test]
fn page_with_one_fragment_is_framed() {
    for mode in [SsrMode::OutOfOrder, SsrMode::InOrder, SsrMode::PartiallyBlocked] {
        let run = drive(mode, &["only"], None);
        assert_eq!(vec!["<head>", "only", "<tail>"], texts(&run.chunks));
        assert_eq!(1, run.releases);
    }
}

#[test]
fn rejected_chunk_ends_the_response() {
    for mode in [SsrMode::OutOfOrder, SsrMode::InOrder, SsrMode::PartiallyBlocked] {
        for n in 1..=5 {
            let run = drive(mode, &["<div>", "1", "</div>"], Some(n));
            assert_eq!(n, run.chunks.len());
            assert_eq!(1, run.releases);
            assert!(run.done);
            assert!(run.failed);
            assert_eq!(Some(&"finish".to_string()), run.log.last());
            let sends = run.log.iter().filter(|a| *a == "send").count();
            assert_eq!(n, sends);
        }
    }
    let run = drive(SsrMode::Async, &["<div>", "1", "</div>"], Some(1));
    assert_eq!(1, run.chunks.len());
    assert_eq!(1, run.releases);
    assert!(run.done && run.failed);
}

#[test]
fn rejected_body_chunk_stops_the_producer() {
    let run = drive(SsrMode::InOrder, &["a", "b", "c"], Some(2));
    assert_eq!(vec!["<head>", "a"], texts(&run.chunks));
    assert_eq!(
        vec!["frame", "next", "commit", "send", "send", "release", "finish"],
        run.log
    );
}

#[test]
fn rejected_tail_does_not_release_twice() {
    let run = drive(SsrMode::OutOfOrder, &["a"], Some(3));
    assert_eq!(vec!["<head>", "a", "<tail>"], texts(&run.chunks));
    assert_eq!(1, run.releases);
    assert_eq!(
        vec!["next", "frame", "commit", "send", "send", "next", "release", "send", "finish"],
        run.log
    );
    assert!(run.failed);
}

#[test]
fn outcome_that_was_not_asked_for_is_a_failure() {
    let (stream, action) = PageStream::start(SsrMode::OutOfOrder);
    assert!(matches!(action, StreamAction::NextFragment));
    assert_eq!(Phase::First, stream.phase());
    let (stream, action) = stream.step(StreamEvent::Accepted);
    assert!(matches!(action, StreamAction::Release));
    assert!(stream.has_failed());
    assert!(stream.is_released());
    assert!(!stream.is_done());
    assert_eq!(Phase::Abort, stream.phase());
    let (stream, action) = stream.step(StreamEvent::Released);
    assert!(matches!(action, StreamAction::Finish));
    assert!(stream.is_done());
    let (stream, action) = stream.step(StreamEvent::Fragment(vec![1]));
    assert!(matches!(action, StreamAction::Finish));
    assert!(stream.is_done());
    assert!(stream.has_failed());
}

#[test]
fn broken_producer_is_a_failure() {
    let (stream, _) = PageStream::start(SsrMode::InOrder);
    let (stream, action) = stream.step(StreamEvent::Frame(b"h".to_vec(), b"t".to_vec()));
    assert!(matches!(action, StreamAction::NextFragment));
    let (stream, action) = stream.step(StreamEvent::Broken);
    assert!(matches!(action, StreamAction::Release));
    let (stream, action) = stream.step(StreamEvent::Released);
    assert!(matches!(action, StreamAction::Finish));
    assert!(stream.has_failed());
}

#[test]
fn append_bytes_adds_at_the_end() {
    let mut v = vec![1u8, 2];
    append_bytes(&mut v, &vec![3, 4]);
    assert_eq!(vec![1u8, 2, 3, 4], v);
    append_bytes(&mut v, &Vec::new());
    assert_eq!(vec![1u8, 2, 3, 4], v);
}

/// Drives the stream of a call's response: `chunks` are what the body's
/// stream gives; it breaks after them if `breaks`, and the sink refuses the
/// chunk with the number `reject`.
fn drive_rpc(
    body: SpinBody,
    chunks: &[&str],
    breaks: bool,
    reject: Option<usize>,
) -> (Vec<String>, Vec<Vec<u8>>, bool) {
    let (mut stream, mut action) = RpcStream::start(body);
    let mut log = Vec::new();
    let mut sent = Vec::new();
    let mut next = 0;
    for _ in 0..1000 {
        let event = match action {
            StreamAction::Commit => {
                log.push("commit".to_string());
                StreamEvent::Committed
            }
            StreamAction::NextFragment => {
                log.push("next".to_string());
                if next < chunks.len() {
                    next += 1;
                    StreamEvent::Fragment(chunks[next - 1].as_bytes().to_vec())
                } else if breaks {
                    StreamEvent::Broken
                } else {
                    StreamEvent::Exhausted
                }
            }
            StreamAction::Send(chunk) => {
                log.push("send".to_string());
                sent.push(chunk);
                if reject == Some(sent.len()) {
                    StreamEvent::Rejected
                } else {
                    StreamEvent::Accepted
                }
            }
            StreamAction::Finish => {
                log.push("finish".to_string());
                assert!(stream.is_done());
                return (log, sent, stream.has_failed());
            }
            other => panic!("a call's response does not ask for {other:?}"),
        };
        let (s, a) = stream.step(event);
        stream = s;
        action = a;
    }
    panic!("the stream did not finish");
}

#[test]
fn plain_body_goes_out_as_one_chunk() {
    let (log, sent, failed) = drive_rpc(SpinBody::Plain(b"{\"a\":1}".to_vec()), &[], false, None);
    assert_eq!(vec!["commit", "send", "finish"], log);
    assert_eq!(vec![b"{\"a\":1}".to_vec()], sent);
    assert!(!failed);
    let (log, sent, failed) = drive_rpc(SpinBody::Plain(Vec::new()), &[], false, None);
    assert_eq!(vec!["commit", "send", "finish"], log);
    assert_eq!(vec![Vec::<u8>::new()], sent);
    assert!(!failed);
}

#[test]
fn streamed_body_is_forwarded_chunk_by_chunk() {
    let (log, sent, failed) = drive_rpc(SpinBody::Streaming, &["a", "bc", "d"], false, None);
    assert_eq!(
        vec!["commit", "next", "send", "next", "send", "next", "send", "next", "finish"],
        log
    );
    assert_eq!(vec![b"a".to_vec(), b"bc".to_vec(), b"d".to_vec()], sent);
    assert!(!failed);
    let (log, sent, _) = drive_rpc(SpinBody::Streaming, &[], false, None);
    assert_eq!(vec!["commit", "next", "finish"], log);
    assert!(sent.is_empty());
}

#[test]
fn broken_stream_truncates_the_response() {
    let (log, sent, failed) = drive_rpc(SpinBody::Streaming, &["a", "b"], true, None);
    assert_eq!(
        vec!["commit", "next", "send", "next", "send", "next", "finish"],
        log
    );
    assert_eq!(vec![b"a".to_vec(), b"b".to_vec()], sent);
    assert!(failed);
}

#[test]
fn rejected_chunk_ends_the_response_of_a_call() {
    let (log, sent, failed) = drive_rpc(SpinBody::Streaming, &["a", "b", "c"], false, Some(2));
    assert_eq!(vec!["commit", "next", "send", "next", "send", "finish"], log);
    assert_eq!(vec![b"a".to_vec(), b"b".to_vec()], sent);
    assert!(failed);
    let (log, sent, failed) = drive_rpc(SpinBody::Plain(b"x".to_vec()), &[], false, Some(1));
    assert_eq!(vec!["commit", "send", "finish"], log);
    assert_eq!(vec![b"x".to_vec()], sent);
    assert!(failed);
}
