use cardinal_search::nodes::SlabIndex;
use cardinal_search::search_iterator::{cancelled_batch, IteratorState, PrefetchBuffer, PrefetchMessage};

fn ids(v: &[usize]) -> Vec<SlabIndex> {
    v.iter().map(|&i| SlabIndex::new(i)).collect()
}

#[test]
fn batches_are_cut_at_max_count() {
    let mut buf = PrefetchBuffer::new();
    let mut state = IteratorState::default();
    assert!(buf.has_more());
    assert!(!buf.on_message(&mut state, PrefetchMessage::Batch(Vec::new())));
    assert!(buf.on_message(&mut state, PrefetchMessage::Batch(ids(&[1, 2, 3]))));
    let mut out = Vec::new();
    buf.take_buffered(&mut state, &mut out, 2);
    assert_eq!(out, ids(&[1, 2]));
    assert_eq!(state.yielded_count, 2);
    assert!(buf.has_prefetched_data());
    let batch = buf.finish_batch(&state, out);
    assert!(batch.has_more);
    assert!(!batch.search_completed);

    let mut out = Vec::new();
    buf.take_buffered(&mut state, &mut out, 2);
    assert_eq!(out, ids(&[3]));
    assert!(buf.on_message(&mut state, PrefetchMessage::Done));
    let batch = buf.finish_batch(&state, out);
    assert!(!batch.has_more);
    assert!(batch.search_completed);
    assert_eq!(state.yielded_count, 3);
}

#[test]
fn cancelled_iterator_returns_final_empty_batch() {
    let mut buf = PrefetchBuffer::new();
    let mut state = IteratorState::default();
    assert!(cancelled_batch(&state).is_none());
    assert!(buf.on_message(&mut state, PrefetchMessage::Cancelled));
    assert!(state.cancelled && state.search_completed);
    let b = cancelled_batch(&state).unwrap();
    assert!(b.indices.is_empty() && !b.has_more && b.search_completed);
}

fn next_batch_from(
    buf: &mut PrefetchBuffer,
    state: &mut IteratorState,
    msgs: &mut Vec<PrefetchMessage>,
    max_count: usize,
) -> (Vec<usize>, bool) {
    let mut out = Vec::new();
    buf.take_buffered(state, &mut out, max_count);
    while out.len() < max_count && !buf.prefetch_done {
        let msg = msgs.remove(0);
        if buf.on_message(state, msg) {
            break;
        }
    }
    buf.take_buffered(state, &mut out, max_count);
    let batch = buf.finish_batch(state, out);
    (batch.indices.iter().map(|i| i.get()).collect(), batch.has_more)
}

#[test]
fn successive_batches_follow_the_stream() {
    let mut buf = PrefetchBuffer::new();
    let mut state = IteratorState::default();
    let mut msgs = vec![
        PrefetchMessage::Batch(vec![SlabIndex::new(1), SlabIndex::new(2), SlabIndex::new(3)]),
        PrefetchMessage::Batch(vec![SlabIndex::new(4)]),
        PrefetchMessage::Done,
    ];
    assert_eq!(next_batch_from(&mut buf, &mut state, &mut msgs, 2), (vec![1, 2], true));
    assert_eq!(next_batch_from(&mut buf, &mut state, &mut msgs, 2), (vec![3, 4], true));
    assert_eq!(next_batch_from(&mut buf, &mut state, &mut msgs, 2), (vec![], false));
    assert_eq!(next_batch_from(&mut buf, &mut state, &mut msgs, 2), (vec![], false));
    assert_eq!(state.yielded_count, 4);
}
