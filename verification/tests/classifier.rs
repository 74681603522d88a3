use sim_core::contact::{
    categorize, classify, classify_contact, find_unregistered, Category, ClassifiedContact,
    ContactKind, RawContact,
};
use sim_core::ids::{BodyId, EntityRole};
use sim_core::registry::EntityRegistry;

fn sample_registry() -> EntityRegistry {
    let mut registry = EntityRegistry::new();
    registry.register(BodyId::new(0, 0), EntityRole::Ground).unwrap();
    registry.register(BodyId::new(1, 0), EntityRole::Ground).unwrap();
    registry.register(BodyId::new(10, 0), EntityRole::Ball).unwrap();
    registry.register(BodyId::new(11, 0), EntityRole::Ball).unwrap();
    registry
}

fn raw(kind: ContactKind, a: usize, b: usize) -> RawContact {
    RawContact { kind, a: BodyId::new(a, 0), b: BodyId::new(b, 0) }
}

#[test]
fn categorize_covers_every_pair_of_roles() {
    let ball = Some(EntityRole::Ball);
    let ground = Some(EntityRole::Ground);
    assert_eq!(categorize(ball, ball), Category::BallVsBall);
    assert_eq!(categorize(ball, ground), Category::BallVsGround);
    assert_eq!(categorize(ground, ball), Category::BallVsGround);
    assert_eq!(categorize(ground, ground), Category::Other);
    assert_eq!(categorize(ball, None), Category::Other);
    assert_eq!(categorize(None, ball), Category::Other);
    assert_eq!(categorize(ground, None), Category::Other);
    assert_eq!(categorize(None, ground), Category::Other);
    assert_eq!(categorize(None, None), Category::Other);
}

#[test]
fn two_tracked_balls_are_ball_vs_ball() {
    let registry = sample_registry();
    let event = classify_contact(&registry, raw(ContactKind::Started, 10, 11));
    assert_eq!(
        event,
        ClassifiedContact {
            kind: ContactKind::Started,
            a: BodyId::new(10, 0),
            b: BodyId::new(11, 0),
            category: Category::BallVsBall,
        }
    );
}

#[test]
fn a_ball_with_itself_is_ball_vs_ball() {
    let registry = sample_registry();
    let event = classify_contact(&registry, raw(ContactKind::Stopped, 10, 10));
    assert_eq!(event.category, Category::BallVsBall);
}

#[test]
fn ball_and_ground_in_either_order_are_ball_vs_ground() {
    let registry = sample_registry();
    assert_eq!(
        classify_contact(&registry, raw(ContactKind::Started, 10, 0)).category,
        Category::BallVsGround
    );
    assert_eq!(
        classify_contact(&registry, raw(ContactKind::Started, 1, 11)).category,
        Category::BallVsGround
    );
}

#[test]
fn ground_with_ground_is_other() {
    let registry = sample_registry();
    assert_eq!(
        classify_contact(&registry, raw(ContactKind::Started, 0, 1)).category,
        Category::Other
    );
}

#[test]
fn an_unregistered_body_makes_the_pair_other_and_does_not_crash() {
    let registry = sample_registry();
    assert_eq!(
        classify_contact(&registry, raw(ContactKind::Started, 10, 99)).category,
        Category::Other
    );
    assert_eq!(
        classify_contact(&registry, raw(ContactKind::Started, 99, 0)).category,
        Category::Other
    );
    assert_eq!(
        classify_contact(&registry, raw(ContactKind::Stopped, 98, 99)).category,
        Category::Other
    );
}

#[test]
fn a_ball_of_another_generation_is_not_the_ball() {
    let registry = sample_registry();
    let stale = RawContact {
        kind: ContactKind::Started,
        a: BodyId::new(10, 1),
        b: BodyId::new(11, 0),
    };
    assert_eq!(classify_contact(&registry, stale).category, Category::Other);
}

#[test]
fn category_does_not_depend_on_the_kind() {
    let registry = sample_registry();
    for (a, b) in [(10, 11), (10, 0), (0, 10), (0, 1), (10, 99), (99, 98)] {
        let started = classify_contact(&registry, raw(ContactKind::Started, a, b));
        let stopped = classify_contact(&registry, raw(ContactKind::Stopped, a, b));
        assert_eq!(started.category, stopped.category);
        assert_eq!(started.kind, ContactKind::Started);
        assert_eq!(stopped.kind, ContactKind::Stopped);
    }
}

#[test]
fn classify_keeps_order_kind_and_bodies() {
    let registry = sample_registry();
    let raws = vec![
        raw(ContactKind::Started, 10, 11),
        raw(ContactKind::Started, 0, 11),
        raw(ContactKind::Stopped, 10, 11),
        raw(ContactKind::Started, 0, 1),
    ];
    let events = classify(&registry, &raws);
    assert_eq!(
        events,
        vec![
            ClassifiedContact {
                kind: ContactKind::Started,
                a: BodyId::new(10, 0),
                b: BodyId::new(11, 0),
                category: Category::BallVsBall,
            },
            ClassifiedContact {
                kind: ContactKind::Started,
                a: BodyId::new(0, 0),
                b: BodyId::new(11, 0),
                category: Category::BallVsGround,
            },
            ClassifiedContact {
                kind: ContactKind::Stopped,
                a: BodyId::new(10, 0),
                b: BodyId::new(11, 0),
                category: Category::BallVsBall,
            },
            ClassifiedContact {
                kind: ContactKind::Started,
                a: BodyId::new(0, 0),
                b: BodyId::new(1, 0),
                category: Category::Other,
            },
        ]
    );
}

#[test]
fn classify_does_not_merge_repeated_events() {
    let registry = sample_registry();
    let raws = vec![raw(ContactKind::Started, 10, 11), raw(ContactKind::Started, 10, 11)];
    let events = classify(&registry, &raws);
    assert_eq!(events.len(), 2);
    assert_eq!(events[0], events[1]);
}

#[test]
fn classify_of_nothing_is_nothing() {
    let registry = sample_registry();
    assert_eq!(classify(&registry, &Vec::new()), Vec::new());
}

#[test]
fn classifying_twice_gives_the_same_events() {
    let registry = sample_registry();
    let raws = vec![
        raw(ContactKind::Started, 10, 11),
        raw(ContactKind::Stopped, 11, 0),
        raw(ContactKind::Started, 77, 10),
    ];
    let first = classify(&registry, &raws);
    let second = classify(&registry, &raws);
    assert_eq!(first, second);
}

#[test]
fn find_unregistered_reports_the_first_unknown_body() {
    let registry = sample_registry();
    assert_eq!(find_unregistered(&registry, &Vec::new()), None);
    assert_eq!(
        find_unregistered(
            &registry,
            &vec![raw(ContactKind::Started, 10, 11), raw(ContactKind::Stopped, 0, 1)]
        ),
        None
    );
    assert_eq!(
        find_unregistered(
            &registry,
            &vec![
                raw(ContactKind::Started, 10, 11),
                raw(ContactKind::Stopped, 0, 42),
                raw(ContactKind::Stopped, 41, 1),
            ]
        ),
        Some(BodyId::new(42, 0))
    );
    assert_eq!(
        find_unregistered(&registry, &vec![raw(ContactKind::Started, 50, 51)]),
        Some(BodyId::new(50, 0))
    );
}
