use memocache::kleisli::{comp_partial, comp_writer, id_partial, id_writer};

fn safe_root(x: f64) -> Option<f64> {
    if x >= 0f64 {
        Some(x.sqrt())
    } else {
        None
    }
}

fn safe_reciprocal(x: f64) -> Option<f64> {
    if x.abs() - 1e-3 >= 0f64 {
        Some(1f64 / x)
    } else {
        None
    }
}

fn safe_root_reciprocal(x: f64) -> Option<f64> {
    comp_partial(safe_root, safe_reciprocal)(x)
}

#[test]
fn test_partial_functions() {
    assert_eq!(10f64, safe_root_reciprocal(0.01).unwrap());
    assert_eq!(None, safe_root_reciprocal(1e-9));
}

#[test]
fn test_partial_identity() {
    assert_eq!(id_partial(5), Some(5));
    let g = comp_partial(id_partial, safe_root);
    assert_eq!(g(4.0), Some(2.0));
    assert_eq!(g(-1.0), None);
}

#[test]
fn test_writer_logs_concatenate() {
    let step1 = |x: i32| -> (i32, String) { (x + 1, String::from("inc;")) };
    let step2 = |x: i32| -> (i32, String) { (x * 2, String::from("dbl;")) };
    let h = comp_writer(step1, step2);

    let (v, log) = h(3);
    assert_eq!(v, 8);
    assert_eq!(log, "inc;dbl;");
}

#[test]
fn test_writer_identity() {
    let w = id_writer(7);
    assert_eq!(w.0, 7);
    assert_eq!(w.1, "");

    let step = |x: i32| -> (i32, String) { (x - 1, String::from("dec;")) };
    let h = comp_writer(id_writer, step);
    let (v, log) = h(10);
    assert_eq!(v, 9);
    assert_eq!(log, "dec;");
}
