use sim_core::outbox::{Delivery, Offer, Outbox, OverflowPolicy};

fn filled(policy: OverflowPolicy) -> Outbox<u32> {
    let mut outbox = Outbox::new(3, policy).unwrap();
    assert_eq!(outbox.offer(1), Offer::Accepted);
    assert_eq!(outbox.offer(2), Offer::Accepted);
    assert_eq!(outbox.offer(3), Offer::Accepted);
    assert!(outbox.is_full());
    outbox
}

fn drain(outbox: &mut Outbox<u32>) -> Vec<(u64, u32)> {
    let mut out = Vec::new();
    while let Some(delivery) = outbox.take() {
        out.push((delivery.skipped, delivery.item));
    }
    out
}

#[test]
fn an_outbox_without_room_is_not_made() {
    assert!(Outbox::<u32>::new(0, OverflowPolicy::Block).is_none());
    assert!(Outbox::<u32>::new(0, OverflowPolicy::DropOldest).is_none());
    assert!(Outbox::<u32>::new(1, OverflowPolicy::DropNewest).is_some());
}

#[test]
fn a_new_outbox_is_empty() {
    let mut outbox = Outbox::<u32>::new(4, OverflowPolicy::DropOldest).unwrap();
    assert_eq!(outbox.len(), 0);
    assert_eq!(outbox.capacity(), 4);
    assert_eq!(outbox.policy(), OverflowPolicy::DropOldest);
    assert!(!outbox.is_full());
    assert_eq!(outbox.take(), None);
}

#[test]
fn messages_leave_in_the_order_they_came() {
    let mut outbox = Outbox::new(5, OverflowPolicy::Block).unwrap();
    for item in [10u32, 20, 30] {
        assert_eq!(outbox.offer(item), Offer::Accepted);
    }
    assert_eq!(outbox.len(), 3);
    assert_eq!(outbox.take(), Some(Delivery { skipped: 0, item: 10 }));
    assert_eq!(outbox.offer(40), Offer::Accepted);
    assert_eq!(drain(&mut outbox), vec![(0, 20), (0, 30), (0, 40)]);
    assert_eq!(outbox.len(), 0);
}

#[test]
fn block_hands_the_message_back_and_keeps_the_queue() {
    let mut outbox = filled(OverflowPolicy::Block);
    for item in 4..50u32 {
        assert_eq!(outbox.offer(item), Offer::Refused(item));
        assert_eq!(outbox.len(), 3);
    }
    assert_eq!(outbox.take(), Some(Delivery { skipped: 0, item: 1 }));
    assert_eq!(outbox.offer(50), Offer::Accepted);
    assert_eq!(drain(&mut outbox), vec![(0, 2), (0, 3), (0, 50)]);
}

#[test]
fn drop_newest_keeps_the_queue_and_counts_what_it_drops() {
    let mut outbox = filled(OverflowPolicy::DropNewest);
    for item in 4..9u32 {
        assert_eq!(outbox.offer(item), Offer::Dropped(item));
        assert_eq!(outbox.len(), 3);
    }
    assert_eq!(outbox.take(), Some(Delivery { skipped: 0, item: 1 }));
    assert_eq!(outbox.offer(9), Offer::Accepted);
    assert_eq!(outbox.offer(10), Offer::Dropped(10));
    assert_eq!(drain(&mut outbox), vec![(0, 2), (0, 3), (5, 9)]);
    assert_eq!(outbox.offer(11), Offer::Accepted);
    assert_eq!(drain(&mut outbox), vec![(1, 11)]);
}

#[test]
fn drop_oldest_keeps_the_newest_and_counts_what_it_drops() {
    let mut outbox = filled(OverflowPolicy::DropOldest);
    assert_eq!(outbox.offer(4), Offer::Evicted(1));
    assert_eq!(outbox.offer(5), Offer::Evicted(2));
    assert_eq!(outbox.len(), 3);
    assert_eq!(outbox.take(), Some(Delivery { skipped: 2, item: 3 }));
    assert_eq!(outbox.take(), Some(Delivery { skipped: 0, item: 4 }));
    assert_eq!(outbox.offer(6), Offer::Accepted);
    assert_eq!(outbox.offer(7), Offer::Accepted);
    assert_eq!(outbox.offer(8), Offer::Evicted(5));
    assert_eq!(drain(&mut outbox), vec![(1, 6), (0, 7), (0, 8)]);
}

#[test]
fn drop_oldest_under_sustained_overflow_holds_the_last_messages() {
    let mut outbox = filled(OverflowPolicy::DropOldest);
    for item in 4..=100u32 {
        assert_eq!(outbox.offer(item), Offer::Evicted(item - 3));
        assert_eq!(outbox.len(), 3);
    }
    assert_eq!(drain(&mut outbox), vec![(97, 98), (0, 99), (0, 100)]);
}

#[test]
fn drop_oldest_with_room_for_one() {
    let mut outbox = Outbox::new(1, OverflowPolicy::DropOldest).unwrap();
    assert_eq!(outbox.offer(1u32), Offer::Accepted);
    assert_eq!(outbox.offer(2), Offer::Evicted(1));
    assert_eq!(outbox.offer(3), Offer::Evicted(2));
    assert_eq!(outbox.take(), Some(Delivery { skipped: 2, item: 3 }));
    assert_eq!(outbox.take(), None);
    assert_eq!(outbox.offer(4), Offer::Accepted);
    assert_eq!(outbox.take(), Some(Delivery { skipped: 0, item: 4 }));
}

#[test]
fn every_offered_message_is_taken_or_counted() {
    for policy in [OverflowPolicy::DropOldest, OverflowPolicy::DropNewest] {
        let mut outbox = Outbox::new(4, policy).unwrap();
        let mut offered = 0u64;
        let mut learned = 0u64;
        for round in 0..40u32 {
            for k in 0..(round % 7) {
                match outbox.offer(round * 10 + k) {
                    Offer::Refused(_) => panic!("nothing is handed back"),
                    _ => offered += 1,
                }
            }
            if round % 3 == 0 {
                if let Some(delivery) = outbox.take() {
                    learned += delivery.skipped + 1;
                }
            }
        }
        let mut tail = 0u64;
        while let Some(delivery) = outbox.take() {
            learned += delivery.skipped + 1;
            tail += 1;
        }
        assert!(tail <= 4);
        // What was dropped behind the last queued message is told with the next one.
        assert_eq!(outbox.offer(0), Offer::Accepted);
        let last = outbox.take().unwrap();
        assert_eq!(learned + last.skipped + 1, offered + 1);
    }
}

#[test]
fn offer_for_good_never_drops_the_message_itself() {
    let mut outbox = filled(OverflowPolicy::DropNewest);
    assert_eq!(outbox.offer_for_good(9), Offer::Refused(9));
    assert_eq!(outbox.len(), 3);
    assert_eq!(outbox.take(), Some(Delivery { skipped: 0, item: 1 }));
    assert_eq!(outbox.offer_for_good(9), Offer::Accepted);
    assert_eq!(drain(&mut outbox), vec![(0, 2), (0, 3), (0, 9)]);

    let mut outbox = filled(OverflowPolicy::DropOldest);
    assert_eq!(outbox.offer_for_good(9), Offer::Evicted(1));
    assert_eq!(drain(&mut outbox), vec![(1, 2), (0, 3), (0, 9)]);

    let mut outbox = filled(OverflowPolicy::Block);
    assert_eq!(outbox.offer_for_good(9), Offer::Refused(9));
    assert_eq!(drain(&mut outbox), vec![(0, 1), (0, 2), (0, 3)]);
}

#[test]
fn queued_tells_whether_the_message_is_in_the_queue() {
    assert!(Offer::<u32>::Accepted.queued());
    assert!(Offer::Evicted(1u32).queued());
    assert!(!Offer::Dropped(1u32).queued());
    assert!(!Offer::Refused(1u32).queued());
}

#[test]
fn under_block_every_message_arrives_in_order_and_none_is_skipped() {
    let mut outbox = Outbox::new(2, OverflowPolicy::Block).unwrap();
    let mut pending: Vec<u32> = (0..20).rev().collect();
    let mut taken = Vec::new();
    while taken.len() < 20 {
        while let Some(next) = pending.pop() {
            match outbox.offer(next) {
                Offer::Accepted => {}
                Offer::Refused(back) => {
                    assert_eq!(back, next);
                    pending.push(back);
                    break;
                }
                other => panic!("unexpected {:?}", other),
            }
        }
        let delivery = outbox.take().unwrap();
        assert_eq!(delivery.skipped, 0);
        taken.push(delivery.item);
    }
    let expected: Vec<u32> = (0..20).collect();
    assert_eq!(taken, expected);
}
