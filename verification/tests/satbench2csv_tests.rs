use sat_bench::satbench2csv::Config;

fn config(from: &str, solver: &str) -> Config {
    Config { from: from.to_string(), solver: solver.to_string(), timeout: 3000, target: "SC18main/".to_string() }
}

#[test]
fn tag_from_directory_or_solver() {
    assert_eq!(config("splr-run/", "").tag(), "splr-run");
    assert_eq!(config("splr-run", "").tag(), "splr-run");
    assert_eq!(config("a//", "").tag(), "a/");
    assert_eq!(config(".", "glucose").tag(), "glucose");
    assert_eq!(config("", "").tag(), "");
}
