use poloto::dual::DualSeq;
use poloto::point::Point;

fn pts() -> Vec<Point> {
    vec![Point::new(0, 0), Point::new(1000, 1000), Point::new(2000, 4000)]
}

#[test]
fn two_passes_agree_rederive() {
    let mut d = DualSeq::rederive(pts());
    let a = d.first_pass();
    let b = d.second_pass();
    assert_eq!(a.len(), b.len());
    assert_eq!(a, b);
    assert_eq!(a, pts());
}

#[test]
fn two_passes_agree_capture() {
    let mut d = DualSeq::capture(pts());
    let a = d.first_pass();
    let b = d.second_pass();
    assert_eq!(a.len(), b.len());
    assert_eq!(a, b);
    assert_eq!(a, pts());
}

#[test]
fn two_passes_agree_materialized() {
    let mut d = DualSeq::materialized(pts());
    let a = d.first_pass();
    let b = d.second_pass();
    assert_eq!(a.len(), b.len());
    assert_eq!(a, b);
    assert_eq!(a, pts());
}

#[test]
fn two_passes_agree_empty() {
    let mut d = DualSeq::capture(Vec::new());
    let a = d.first_pass();
    let b = d.second_pass();
    assert!(a.is_empty());
    assert!(b.is_empty());
}
