use abz::status::{Indicator, Status, Tone};
use std::cmp::Ordering;

fn processing(ratio: f32) -> Status {
    Status::Processing(ratio.to_bits())
}

fn samples() -> Vec<f32> {
    vec![
        0.0,
        -0.0,
        0.25,
        0.5,
        1.0,
        1e-40,
        3.5,
        f32::INFINITY,
        f32::NEG_INFINITY,
        -0.75,
        f32::NAN,
        -f32::NAN,
        f32::MIN_POSITIVE,
        f32::MAX,
        f32::MIN,
    ]
}

#[test]
fn processing_orders_as_floats() {
    for a in samples() {
        for b in samples() {
            let expected = a.partial_cmp(&b).unwrap_or(Ordering::Equal);
            assert_eq!(processing(a).cmp(&processing(b)), expected, "{} {}", a, b);
        }
    }
}

#[test]
fn variants_order_by_rank() {
    let list = vec![
        Status::Pending,
        processing(0.3),
        Status::Success,
        Status::Failed("e".to_string()),
    ];
    for i in 0..list.len() {
        for j in 0..list.len() {
            assert_eq!(list[i].cmp(&list[j]), i.cmp(&j));
        }
    }
}

#[test]
fn failures_are_level() {
    let a = Status::Failed("one".to_string());
    let b = Status::Failed("two".to_string());
    assert_eq!(a.cmp(&b), Ordering::Equal);
}

#[test]
fn nan_is_level_with_every_ratio() {
    let nan = processing(f32::NAN);
    assert_eq!(nan.cmp(&processing(0.1)), Ordering::Equal);
    assert_eq!(nan.cmp(&processing(0.9)), Ordering::Equal);
    assert_eq!(processing(0.1).cmp(&processing(0.9)), Ordering::Less);
    assert_eq!(nan.cmp(&Status::Success), Ordering::Less);
}

#[test]
fn after_means_greater() {
    assert!(Status::Success.is_after(&Status::Pending));
    assert!(!Status::Pending.is_after(&Status::Success));
    assert!(!Status::Pending.is_after(&Status::Pending));
}

#[test]
fn text_of_each_status() {
    assert_eq!(Status::Pending.to_string(), "等待处理");
    assert_eq!(processing(0.5).to_string(), "处理中");
    assert_eq!(Status::Success.to_string(), "处理成功");
    assert_eq!(Status::Failed("磁盘已满".to_string()).to_string(), "处理失败: 磁盘已满");
    assert_eq!(Status::Failed(String::new()).to_string(), "处理失败: ");
}

#[test]
fn color_of_each_status() {
    assert_eq!(Status::Pending.color(), Tone::Gray);
    assert_eq!(processing(0.5).color(), Tone::Blue);
    assert_eq!(Status::Success.color(), Tone::Green);
    assert_eq!(Status::Failed("x".to_string()).color(), Tone::Red);
}

#[test]
fn indicator_and_removal() {
    assert_eq!(processing(0.5).indicator(), Indicator::Partial(0.5f32.to_bits()));
    assert_eq!(Status::Success.indicator(), Indicator::Complete);
    assert_eq!(Status::Pending.indicator(), Indicator::Blank);
    assert_eq!(Status::Failed("x".to_string()).indicator(), Indicator::Blank);
    assert!(!processing(0.5).is_removable());
    assert!(Status::Pending.is_removable());
    assert!(Status::Success.is_removable());
    assert!(Status::Failed("x".to_string()).is_removable());
}

#[test]
fn default_and_clone() {
    assert!(matches!(Status::default(), Status::Pending));
    match Status::Failed("why".to_string()).clone() {
        Status::Failed(e) => assert_eq!(e, "why"),
        _ => panic!("clone changed the variant"),
    }
    match processing(0.75).clone() {
        Status::Processing(bits) => assert_eq!(f32::from_bits(bits), 0.75),
        _ => panic!("clone changed the variant"),
    }
}

#[test]
fn order_is_antisymmetric_and_transitive_without_nan() {
    let list = vec![
        Status::Pending,
        processing(0.0),
        processing(-0.0),
        processing(0.2),
        processing(0.7),
        Status::Success,
        Status::Failed("a".to_string()),
    ];
    for a in &list {
        assert_eq!(a.cmp(a), Ordering::Equal);
        for b in &list {
            assert_eq!(a.cmp(b), b.cmp(a).reverse());
            for c in &list {
                if a.cmp(b) != Ordering::Greater && b.cmp(c) != Ordering::Greater {
                    assert_ne!(a.cmp(c), Ordering::Greater);
                }
            }
        }
    }
}
