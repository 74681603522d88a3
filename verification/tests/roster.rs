use sim_core::frame::{BodyState, Pose, Vector};
use sim_core::ids::BodyId;
use sim_core::roster::{ascending_order, find_miscount, order_snapshot, sort_by_id, Identified};

fn id(slot: usize) -> BodyId {
    BodyId::new(slot, 0)
}

fn state(slot: usize, x: f32) -> BodyState<f32> {
    BodyState::new(id(slot), Pose { x, y: 0.0, angle: 0.0 }, Vector { x: 0.0, y: 0.0 }, 0.0)
}

#[test]
fn body_state_new_keeps_every_field() {
    let s = BodyState::new(
        BodyId::new(3, 1),
        Pose { x: 1.0f32, y: 2.0, angle: 0.5 },
        Vector { x: -1.0, y: 4.0 },
        0.25,
    );
    assert_eq!(s.id, BodyId::new(3, 1));
    assert_eq!(s.position, Pose { x: 1.0, y: 2.0, angle: 0.5 });
    assert_eq!(s.linear_velocity, Vector { x: -1.0, y: 4.0 });
    assert_eq!(s.angular_velocity, 0.25);
    assert_eq!(s.id(), BodyId::new(3, 1));
    assert_eq!(BodyId::new(3, 1).id(), BodyId::new(3, 1));
}

#[test]
fn sort_by_id_sorts_ids() {
    assert_eq!(sort_by_id(vec![id(3), id(1), id(2)]), vec![id(1), id(2), id(3)]);
    assert_eq!(sort_by_id(Vec::<BodyId>::new()), Vec::new());
    assert_eq!(sort_by_id(vec![id(7)]), vec![id(7)]);
    assert_eq!(sort_by_id(vec![id(2), id(1), id(2), id(1)]), vec![id(1), id(1), id(2), id(2)]);
}

#[test]
fn sort_by_id_orders_generations_within_a_slot() {
    let sorted = sort_by_id(vec![
        BodyId::new(2, 0),
        BodyId::new(1, 9),
        BodyId::new(1, 3),
        BodyId::new(0, u64::MAX),
    ]);
    assert_eq!(
        sorted,
        vec![BodyId::new(0, u64::MAX), BodyId::new(1, 3), BodyId::new(1, 9), BodyId::new(2, 0)]
    );
}

#[test]
fn sort_by_id_carries_the_states_along() {
    let sorted = sort_by_id(vec![state(5, 50.0), state(2, 20.0), state(9, 90.0), state(1, 10.0)]);
    assert_eq!(sorted, vec![state(1, 10.0), state(2, 20.0), state(5, 50.0), state(9, 90.0)]);
}

#[test]
fn ascending_order_sorts_and_leaves_the_input_alone() {
    let ids = vec![id(4), id(0), id(2)];
    assert_eq!(ascending_order(&ids), vec![id(0), id(2), id(4)]);
    assert_eq!(ids, vec![id(4), id(0), id(2)]);
}

#[test]
fn find_miscount_accepts_the_roster_itself() {
    let roster = vec![id(1), id(2), id(3)];
    assert_eq!(find_miscount(&roster, &vec![id(1), id(2), id(3)]), None);
    assert_eq!(find_miscount(&Vec::new(), &Vec::<BodyId>::new()), None);
}

#[test]
fn find_miscount_names_the_least_identifier_at_fault() {
    let roster = vec![id(1), id(3), id(5)];
    // missing
    assert_eq!(find_miscount(&roster, &vec![id(1), id(5)]), Some(id(3)));
    assert_eq!(find_miscount(&roster, &vec![id(1), id(3)]), Some(id(5)));
    assert_eq!(find_miscount(&roster, &Vec::<BodyId>::new()), Some(id(1)));
    // surplus
    assert_eq!(find_miscount(&roster, &vec![id(0), id(1), id(3), id(5)]), Some(id(0)));
    assert_eq!(find_miscount(&roster, &vec![id(1), id(3), id(5), id(6)]), Some(id(6)));
    assert_eq!(find_miscount(&roster, &vec![id(1), id(3), id(4), id(5)]), Some(id(4)));
    // twice
    assert_eq!(find_miscount(&roster, &vec![id(1), id(3), id(3), id(5)]), Some(id(3)));
    // one missing and a later one surplus: the earlier is named
    assert_eq!(find_miscount(&roster, &vec![id(3), id(5), id(9)]), Some(id(1)));
    // one surplus and a later one missing
    assert_eq!(find_miscount(&roster, &vec![id(1), id(2), id(3)]), Some(id(2)));
}

#[test]
fn order_snapshot_puts_the_states_in_roster_order() {
    let roster = vec![id(1), id(2), id(3)];
    let ordered = order_snapshot(&roster, vec![state(3, 3.0), state(1, 1.0), state(2, 2.0)]);
    assert_eq!(ordered, Ok(vec![state(1, 1.0), state(2, 2.0), state(3, 3.0)]));
}

#[test]
fn order_snapshot_of_an_empty_roster_takes_only_an_empty_snapshot() {
    let roster: Vec<BodyId> = Vec::new();
    assert_eq!(order_snapshot(&roster, Vec::<BodyState<f32>>::new()), Ok(Vec::new()));
    assert_eq!(order_snapshot(&roster, vec![state(4, 0.0)]), Err(id(4)));
}

#[test]
fn order_snapshot_refuses_a_missing_a_surplus_and_a_repeated_state() {
    let roster = vec![id(1), id(2), id(3)];
    assert_eq!(order_snapshot(&roster, vec![state(3, 0.0), state(1, 0.0)]), Err(id(2)));
    assert_eq!(
        order_snapshot(&roster, vec![state(3, 0.0), state(1, 0.0), state(2, 0.0), state(7, 0.0)]),
        Err(id(7))
    );
    assert_eq!(
        order_snapshot(&roster, vec![state(3, 0.0), state(1, 0.0), state(2, 0.0), state(1, 5.0)]),
        Err(id(1))
    );
    assert_eq!(
        order_snapshot(&roster, vec![state(2, 0.0), state(1, 0.0), state(2, 1.0)]),
        Err(id(2))
    );
}
