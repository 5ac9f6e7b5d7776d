use multicol::colbreak::Behaviour;
use multicol::colbreak::ColbreakNode;
use multicol::geom::Abs;
use multicol::geom::Rel;

#[test]
fn weak_break_carries_priority_one() {
    let node = ColbreakNode::construct(Some(true));
    assert!(node.weak);
    assert_eq!(node.behaviour(), Behaviour::Weak(1));
}

#[test]
fn explicit_strong_break_is_destructive() {
    let node = ColbreakNode::construct(Some(false));
    assert!(!node.weak);
    assert_eq!(node.behaviour(), Behaviour::Destructive);
}

#[test]
fn omitted_flag_means_destructive() {
    let node = ColbreakNode::construct(None);
    assert!(!node.weak);
    assert_eq!(node.behaviour(), Behaviour::Destructive);
}

#[test]
fn ratio_resolves_against_the_base() {
    // A ratio of 400 permyriad of a 300-wide base is 12, plus the absolute
    // part.
    let rel = Rel { abs: 0, ratio: 400 };
    assert_eq!(rel.resolve(Abs::Fin(300)), Abs::Fin(12));
    let mixed = Rel { abs: 5, ratio: 400 };
    assert_eq!(mixed.resolve(Abs::Fin(300)), Abs::Fin(17));
}

#[test]
fn default_gutter_is_four_percent() {
    let gutter = multicol::columns::default_gutter();
    assert_eq!(gutter, Rel { abs: 0, ratio: 400 });
    assert_eq!(gutter.resolve(Abs::Fin(500)), Abs::Fin(20));
}

#[test]
fn pure_absolute_ignores_an_infinite_base() {
    let rel = Rel::from_abs(10);
    assert_eq!(rel.resolve(Abs::Inf), Abs::Fin(10));
    let ratio = Rel { abs: 10, ratio: 100 };
    assert_eq!(ratio.resolve(Abs::Inf), Abs::Inf);
}

#[test]
fn saturating_length_arithmetic_never_wraps() {
    assert_eq!(Abs::Fin(i64::MAX).plus(Abs::Fin(1)), Abs::Fin(i64::MAX));
    assert_eq!(Abs::Fin(i64::MIN).minus(Abs::Fin(1)), Abs::Fin(i64::MIN));
    assert_eq!(Abs::Inf.plus(Abs::Fin(7)), Abs::Inf);
    assert_eq!(Abs::Fin(3).max_with(Abs::Fin(9)), Abs::Fin(9));
    assert_eq!(Abs::Fin(3).max_with(Abs::Inf), Abs::Inf);
}
