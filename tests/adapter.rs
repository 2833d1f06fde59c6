use deepcli::{StreamAdapter, StreamStep};

fn texts(adapter: &mut StreamAdapter) -> Vec<String> {
    let mut out = Vec::new();
    while let StreamStep::Yield(e) = adapter.next_step() {
        out.push(e.text);
    }
    out
}

#[test]
fn adapter_drains_all_lines_of_a_chunk() {
    let mut a = StreamAdapter::new();
    assert!(matches!(a.next_step(), StreamStep::NeedChunk));
    a.push_chunk(
        b"data: {\"choices\":[{\"delta\":{\"content\":\"a\"}}]}\ndata: {\"choices\":[{\"delta\":{\"content\":\"b\"}}]}\n",
    );
    assert_eq!(texts(&mut a), vec!["a", "b"]);
    assert!(matches!(a.next_step(), StreamStep::NeedChunk));
}

#[test]
fn adapter_ends_after_done() {
    let mut a = StreamAdapter::new();
    a.push_chunk(b"data: [DONE]\ndata: {\"choices\":[{\"delta\":{\"content\":\"x\"}}]}\n");
    match a.next_step() {
        StreamStep::Yield(e) => assert_eq!(e.finish_reason, Some("length".to_string())),
        _ => panic!("expected the terminal event"),
    }
    assert!(matches!(a.next_step(), StreamStep::End));
}

#[test]
fn adapter_ends_with_upstream() {
    let mut a = StreamAdapter::new();
    a.push_chunk(b"data: {\"choices\":[{\"delta\":{\"content\":\"a\"}}]}\ndata: {\"cho");
    a.end_of_input();
    assert_eq!(texts(&mut a), vec!["a"]);
    assert!(matches!(a.next_step(), StreamStep::End));
    a.push_chunk(b"ices\":[{\"delta\":{\"content\":\"b\"}}]}\n");
    assert!(matches!(a.next_step(), StreamStep::End));
}

#[test]
fn adapter_failure_ends_at_once() {
    let mut a = StreamAdapter::new();
    a.push_chunk(b"data: {\"choices\":[{\"delta\":{\"content\":\"a\"}}]}\n");
    a.fail();
    assert!(matches!(a.next_step(), StreamStep::End));
}
