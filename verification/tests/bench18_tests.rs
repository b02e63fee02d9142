use sat_bench::bench18::{scb, BENCHMARK};

#[test]
fn sc18_problems() {
    let v = scb();
    assert_eq!(v.len(), 400);
    assert_eq!(v[0], (1, "10-3-13.cnf"));
    assert_eq!(v[386], (387, "terminator_03_true-unreach-call_true-termination.i.cnf"));
    assert_eq!(v[399], (400, "uniqinv47prop.cnf"));
    assert_eq!(BENCHMARK, "SR18main");
}
