use remyx::subscription::{Active, Source, Subscription};

type Builder = Box<dyn FnOnce(&mut Vec<u64>) -> String>;

/// A subscription whose source records, in `log`, that it was started.
fn sub(id: u64, name: &'static str) -> Subscription<Builder> {
    Subscription::from_id(
        id,
        Box::new(move |log: &mut Vec<u64>| {
            log.push(id);
            name.to_string()
        }),
    )
}

/// The running sources' streams, oldest first.
fn streams(active: &mut Active<String>) -> Vec<String> {
    let mut out = Vec::new();
    for i in 0..active.len() {
        let stream = active.swap_stream(i, String::new());
        out.push(stream.clone());
        active.swap_stream(i, stream);
    }
    out
}

#[test]
fn diff_starts_each_wanted_identity_once() {
    let mut active = Active::new();
    let mut log = Vec::new();
    active.diff(&mut log, vec![sub(1, "a"), sub(2, "b"), sub(1, "a again")]);
    assert_eq!(log, vec![1, 2]);
    assert_eq!(active.len(), 2);
    let names = streams(&mut active);
    assert_eq!(names, vec!["a", "b"]);
}

#[test]
fn diff_keeps_running_sources_and_stops_unwanted() {
    let mut active = Active::new();
    let mut log = Vec::new();
    active.diff(&mut log, vec![sub(1, "a"), sub(2, "b")]);
    active.diff(&mut log, vec![sub(3, "c"), sub(2, "b restarted")]);
    // 2 was not restarted, 1 stopped, 3 started
    assert_eq!(log, vec![1, 2, 3]);
    let names = streams(&mut active);
    assert_eq!(names, vec!["b", "c"]);
    active.diff(&mut log, Vec::<Subscription<Builder>>::new());
    assert!(active.is_empty());
}

#[test]
fn ended_source_can_be_removed_and_restarted() {
    let mut active = Active::new();
    let mut log = Vec::new();
    active.diff(&mut log, vec![sub(7, "x")]);
    let gone = active.remove(0);
    assert_eq!(gone.id(), 7);
    assert!(active.is_empty());
    active.diff(&mut log, vec![sub(7, "x")]);
    assert_eq!(log, vec![7, 7]);
}

#[test]
fn sources_and_subscriptions_keep_identity() {
    let mut source = Source::new(9, 1u8);
    *source.stream_mut() += 1;
    assert_eq!(source.id(), 9);
    assert_eq!(*source.stream_mut(), 2);
    let s = sub(4, "d");
    assert_eq!(s.id(), 4);
    let mut log = Vec::new();
    let built = s.build(&mut log);
    assert_eq!(built.id(), 4);
    assert_eq!(log, vec![4]);
}
