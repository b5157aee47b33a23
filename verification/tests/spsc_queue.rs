use ai_hft_architecture::critical_path::spsc_queue::{
    QueueError, RiskConstraintMessage, SpscRingBuffer,
};

fn message(
    seq: u64,
    var: f64,
    conc: f64,
    loss: f64,
    leverage: f64,
    timestamp_ns: u64,
) -> RiskConstraintMessage {
    RiskConstraintMessage {
        constraint_seq_id: seq,
        max_var_limit: var.to_bits(),
        max_position_concentration: conc.to_bits(),
        max_intraday_loss: loss.to_bits(),
        max_leverage: leverage.to_bits(),
        delta_hedge_target: 0.0f64.to_bits(),
        vega_hedge_target: 0.0f64.to_bits(),
        message_timestamp_ns: timestamp_ns,
        reserved: [0; 24],
    }
}

#[test]
fn test_spsc_push_pop() {
    let mut queue: SpscRingBuffer<64> = SpscRingBuffer::new();
    let msg = message(42, 1_000_000.0, 0.25, 500_000.0, 3.5, 1_000_000_000);

    assert_eq!(queue.push(&msg), Ok(()));
    assert!(!queue.is_empty());

    let popped = queue.pop().expect("pop failed");
    assert_eq!(popped.constraint_seq_id, msg.constraint_seq_id);
    assert_eq!(f64::from_bits(popped.max_var_limit), f64::from_bits(msg.max_var_limit));

    assert!(queue.is_empty());
}

#[test]
fn test_spsc_queue_full() {
    let mut queue: SpscRingBuffer<4> = SpscRingBuffer::new();
    let msg = message(1, 100_000.0, 0.1, 50_000.0, 2.0, 1_000_000);

    for _ in 0..4 {
        assert_eq!(queue.push(&msg), Ok(()));
    }

    assert!(queue.is_full());
    assert_eq!(queue.push(&msg), Err(QueueError::QueueFull));
}

#[test]
fn test_spsc_peek() {
    let mut queue: SpscRingBuffer<32> = SpscRingBuffer::new();
    let msg = message(99, 750_000.0, 0.2, 400_000.0, 3.0, 2_000_000_000);

    queue.push(&msg).expect("push failed");

    let peeked = queue.peek().expect("peek failed");
    assert_eq!(peeked.constraint_seq_id, msg.constraint_seq_id);

    assert_eq!(queue.is_current_depth(), 1);

    let popped = queue.pop().expect("pop failed");
    assert_eq!(popped.constraint_seq_id, msg.constraint_seq_id);

    assert!(queue.is_empty());
}

#[test]
fn spsc_empty_queue_refuses_pop_and_peek() {
    let mut queue: SpscRingBuffer<8> = SpscRingBuffer::new();
    assert!(queue.is_empty());
    assert!(!queue.is_full());
    assert_eq!(queue.is_current_depth(), 0);
    assert_eq!(queue.pop(), Err(QueueError::QueueEmpty));
    assert_eq!(queue.peek(), Err(QueueError::QueueEmpty));
    assert_eq!(queue.has_capacity(), 8);
}

#[test]
fn spsc_fifo_order_across_wraparound() {
    // Cycle many more messages than slots through a small queue, so that the positions
    // wrap around the slot array many times; order must be kept throughout.
    let mut queue: SpscRingBuffer<4> = SpscRingBuffer::new();
    let mut next_in: u64 = 0;
    let mut next_out: u64 = 0;
    for round in 0..50u64 {
        let burst = 1 + (round % 4);
        for _ in 0..burst {
            let msg = message(next_in, 1.0, 0.5, 1.0, 1.0, next_in);
            assert_eq!(queue.push(&msg), Ok(()));
            next_in += 1;
        }
        assert_eq!(queue.is_current_depth() as u64, next_in - next_out);
        assert_eq!(queue.is_full(), next_in - next_out == 4);
        for _ in 0..burst {
            assert_eq!(queue.peek().unwrap().constraint_seq_id, next_out);
            let popped = queue.pop().unwrap();
            assert_eq!(popped.constraint_seq_id, next_out);
            assert_eq!(popped.message_timestamp_ns, next_out);
            next_out += 1;
        }
        assert!(queue.is_empty());
    }
}

#[test]
fn spsc_full_queue_is_unchanged_by_refused_push() {
    let mut queue: SpscRingBuffer<2> = SpscRingBuffer::new();
    let a = message(10, 1.0, 0.1, 1.0, 1.0, 0);
    let b = message(11, 2.0, 0.2, 2.0, 2.0, 0);
    let c = message(12, 3.0, 0.3, 3.0, 3.0, 0);
    assert_eq!(queue.push(&a), Ok(()));
    assert_eq!(queue.push(&b), Ok(()));
    assert_eq!(queue.push(&c), Err(QueueError::QueueFull));
    assert_eq!(queue.is_current_depth(), 2);
    assert_eq!(queue.pop().unwrap(), a);
    assert_eq!(queue.pop().unwrap(), b);
    assert_eq!(queue.pop(), Err(QueueError::QueueEmpty));
}

#[test]
fn spsc_push_then_pop_on_empty_queue_returns_the_message() {
    let mut queue: SpscRingBuffer<1> = SpscRingBuffer::new();
    let m = message(7, 5.0, 0.5, 5.0, 5.0, 7);
    assert_eq!(queue.push(&m), Ok(()));
    assert!(queue.is_full());
    assert_eq!(queue.peek(), Ok(m));
    assert_eq!(queue.pop(), Ok(m));
    assert!(queue.is_empty());
}

#[test]
fn spsc_drains_to_empty_after_as_many_pops_as_pushes() {
    let mut queue: SpscRingBuffer<8> = SpscRingBuffer::new();
    for k in 0..8u64 {
        assert_eq!(queue.push(&message(k, 1.0, 0.1, 1.0, 1.0, k)), Ok(()));
    }
    for k in 0..8u64 {
        assert_eq!(queue.pop().unwrap().constraint_seq_id, k);
    }
    assert!(queue.is_empty());
    assert_eq!(queue.pop(), Err(QueueError::QueueEmpty));
}
