use matcalc::text::{eigenvalues_line, eigenvectors_text, render_grid, scalar_line, split_words};

fn strings(v: &[&str]) -> Vec<String> {
    v.iter().map(|s| s.to_string()).collect()
}

#[test]
fn split_on_runs_of_white_space() {
    assert_eq!(split_words("  a  1 2\t3 \n"), strings(&["a", "1", "2", "3"]));
    assert_eq!(split_words("c = a * b"), strings(&["c", "=", "a", "*", "b"]));
}

#[test]
fn split_blank_lines() {
    assert!(split_words("").is_empty());
    assert!(split_words(" \t  ").is_empty());
}

#[test]
fn grid_rows_end_with_tab_and_line_feed() {
    let cells = vec![strings(&["1.000", "2.000"]), strings(&["3.000", "4.000"])];
    assert_eq!(render_grid(&cells), "1.000\t2.000\t\n3.000\t4.000\t\n");
}

#[test]
fn scalar_results() {
    assert_eq!(scalar_line("det", "a", "-2.000000"), "det(a) = -2.000000");
    assert_eq!(scalar_line("tr", "a", "5.000000"), "tr(a) = 5.000000");
}

#[test]
fn eigenvalue_list() {
    assert_eq!(
        eigenvalues_line("m", &strings(&["1.000000", "3.000000"])),
        "eigenvalues of m: [1.000000, 3.000000]"
    );
    assert_eq!(eigenvalues_line("m", &strings(&["2.000000"])), "eigenvalues of m: [2.000000]");
    assert_eq!(eigenvalues_line("m", &Vec::new()), "eigenvalues of m: []");
}

#[test]
fn eigenvector_header() {
    assert_eq!(
        eigenvectors_text("m", "1.000\t0.000\t\n0.000\t1.000\t\n"),
        "eigenvectors of m:\n1.000\t0.000\t\n0.000\t1.000\t\n"
    );
}
