use matcalc::err::MatrixError;
use matcalc::eval::{Evaluator, Step};
use matcalc::matrix::Matrix;
use matcalc::text::{render_grid, scalar_line};
use nalgebra::DMatrix;

fn shown(m: &Matrix<f64>) -> String {
    let mut cells = Vec::new();
    for i in 0..m.nrows() {
        let mut row = Vec::new();
        for j in 0..m.ncols() {
            row.push(format!("{:.3}", m.get(i, j)));
        }
        cells.push(row);
    }
    render_grid(&cells)
}

fn dense(m: &Matrix<f64>) -> DMatrix<f64> {
    DMatrix::from_fn(m.nrows(), m.ncols(), |i, j| m.get(i, j))
}

fn define_a(ev: &mut Evaluator<f64>) -> Matrix<f64> {
    match ev.eval_line("a 1 2 3 4") {
        Ok(Step::Define(name, vals)) => {
            assert_eq!(name, "a");
            assert_eq!(vals, vec!["1", "2", "3", "4"]);
            let values: Vec<f64> = vals.iter().map(|v| v.parse().unwrap()).collect();
            ev.define(&name, values).ok().unwrap()
        }
        _ => panic!("expected a definition"),
    }
}

#[test]
fn definition_shows_the_matrix() {
    let mut ev = Evaluator::new();
    let m = define_a(&mut ev);
    assert_eq!(shown(&m), "1.000\t2.000\t\n3.000\t4.000\t\n");
    assert_eq!(ev.get("a").ok().unwrap().get(1, 0), 3.0);
}

#[test]
fn determinant_of_defined_matrix() {
    let mut ev = Evaluator::new();
    define_a(&mut ev);
    match ev.eval_line("det a") {
        Ok(Step::Determinant(name, m)) => {
            let value = format!("{:.6}", dense(&m).determinant());
            assert_eq!(scalar_line("det", &name, &value), "det(a) = -2.000000");
        }
        _ => panic!("expected a determinant"),
    }
}

#[test]
fn copy_then_determinant() {
    let mut ev = Evaluator::new();
    define_a(&mut ev);
    assert!(matches!(ev.eval_line("b = a"), Ok(Step::Silent)));
    match ev.eval_line("det b") {
        Ok(Step::Determinant(name, m)) => {
            let value = format!("{:.6}", dense(&m).determinant());
            assert_eq!(scalar_line("det", &name, &value), "det(b) = -2.000000");
        }
        _ => panic!("expected a determinant"),
    }
    assert!(matches!(ev.eval_line("a 5 6 7 8"), Ok(Step::Define(_, _))));
    ev.define("a", vec![5.0, 6.0, 7.0, 8.0]).ok().unwrap();
    assert_eq!(ev.get("b").ok().unwrap().get(0, 0), 1.0);
    assert_eq!(ev.get("a").ok().unwrap().get(0, 0), 5.0);
}

#[test]
fn product_is_handed_back_and_bound() {
    let mut ev = Evaluator::new();
    define_a(&mut ev);
    match ev.eval_line("c = a * a") {
        Ok(Step::Product(name, a, b)) => {
            assert_eq!(name, "c");
            let p = dense(&a) * dense(&b);
            let rows: Vec<Vec<f64>> =
                (0..p.nrows()).map(|i| (0..p.ncols()).map(|j| p[(i, j)]).collect()).collect();
            let m = Matrix::from_rows(rows).ok().unwrap();
            assert_eq!(shown(&m), "7.000\t10.000\t\n15.000\t22.000\t\n");
            ev.store(&name, m);
        }
        _ => panic!("expected a product"),
    }
    assert_eq!(ev.get("c").ok().unwrap().get(1, 1), 22.0);
}

#[test]
fn trace_of_defined_matrix() {
    let mut ev = Evaluator::new();
    define_a(&mut ev);
    match ev.eval_line("tr a") {
        Ok(Step::Trace(name, m)) => {
            let value = format!("{:.6}", dense(&m).trace());
            assert_eq!(scalar_line("tr", &name, &value), "tr(a) = 5.000000");
        }
        _ => panic!("expected a trace"),
    }
}

#[test]
fn bare_word_is_a_parse_error() {
    let mut ev: Evaluator<f64> = Evaluator::new();
    assert!(matches!(ev.eval_line("xyz"), Err(MatrixError::ParseError)));
    assert!(matches!(ev.get("xyz"), Err(MatrixError::UndefinedVariable)));
}

#[test]
fn blank_line_is_silent() {
    let mut ev: Evaluator<f64> = Evaluator::new();
    assert!(matches!(ev.eval_line(""), Ok(Step::Silent)));
    assert!(matches!(ev.eval_line("   \t "), Ok(Step::Silent)));
}

#[test]
fn unbound_names_fail_and_bind_nothing() {
    let mut ev = Evaluator::new();
    define_a(&mut ev);
    for line in ["det q", "inv q", "q'", "tr q", "eig q", "eigvec q", "b = q", "c = a * q", "c = q * a"] {
        assert!(matches!(ev.eval_line(line), Err(MatrixError::UndefinedVariable)), "{}", line);
    }
    assert!(matches!(ev.get("b"), Err(MatrixError::UndefinedVariable)));
    assert!(matches!(ev.get("c"), Err(MatrixError::UndefinedVariable)));
    assert!(matches!(ev.get("q"), Err(MatrixError::UndefinedVariable)));
}

#[test]
fn transpose_command() {
    let mut ev = Evaluator::new();
    define_a(&mut ev);
    match ev.eval_line("a'") {
        Ok(Step::Show(m)) => assert_eq!(shown(&m), "1.000\t3.000\t\n2.000\t4.000\t\n"),
        _ => panic!("expected a transpose"),
    }
}

#[test]
fn square_operations_reject_rectangles() {
    let mut ev = Evaluator::new();
    let r = Matrix::from_rows(vec![vec![1.0, 2.0, 3.0], vec![4.0, 5.0, 6.0]]).ok().unwrap();
    ev.store("r", r);
    for line in ["det r", "inv r", "tr r", "eig r", "eigvec r"] {
        assert!(matches!(ev.eval_line(line), Err(MatrixError::NotSquare)), "{}", line);
    }
    assert!(matches!(ev.eval_line("r'"), Ok(Step::Show(_))));
}

#[test]
fn product_shape_mismatch_from_a_line() {
    let mut ev = Evaluator::new();
    let r = Matrix::from_rows(vec![vec![1.0, 2.0, 3.0], vec![4.0, 5.0, 6.0]]).ok().unwrap();
    ev.store("r", r);
    define_a(&mut ev);
    assert!(matches!(ev.eval_line("c = r * a"), Err(MatrixError::ShapeMismatch)));
    assert!(matches!(ev.get("c"), Err(MatrixError::UndefinedVariable)));
    assert!(matches!(ev.eval_line("c = a * r"), Ok(Step::Product(_, _, _))));
}

#[test]
fn unary_forms_are_recognised() {
    let mut ev = Evaluator::new();
    define_a(&mut ev);
    assert!(matches!(ev.eval_line("inv a"), Ok(Step::Inverse(_))));
    assert!(matches!(ev.eval_line("eig a"), Ok(Step::Eigenvalues(_, _))));
    assert!(matches!(ev.eval_line("eigvec a"), Ok(Step::Eigenvectors(_, _))));
}

#[test]
fn define_with_eight_values_binds_nothing() {
    let mut ev = Evaluator::new();
    assert!(matches!(ev.define("z", vec![1.0; 8]), Err(MatrixError::NotPerfectSquare)));
    assert!(matches!(ev.get("z"), Err(MatrixError::UndefinedVariable)));
}

#[test]
fn words_evaluate_like_the_line() {
    let mut ev = Evaluator::new();
    define_a(&mut ev);
    let ws = vec!["det".to_string(), "a".to_string()];
    assert!(matches!(ev.eval_words(ws), Ok(Step::Determinant(n, _)) if n == "a"));
    assert!(matches!(ev.eval_words(Vec::new()), Ok(Step::Silent)));
    assert!(matches!(ev.eval_words(vec!["a".to_string()]), Err(MatrixError::ParseError)));
    let copy = vec!["d".to_string(), "=".to_string(), "a".to_string()];
    assert!(matches!(ev.eval_words(copy), Ok(Step::Silent)));
    assert_eq!(ev.get("d").ok().unwrap().get(1, 1), 4.0);
}

#[test]
fn keyword_with_extra_words_is_a_definition() {
    let mut ev: Evaluator<f64> = Evaluator::new();
    match ev.eval_line("det 1 2 3 4") {
        Ok(Step::Define(name, vals)) => {
            assert_eq!(name, "det");
            assert_eq!(vals.len(), 4);
        }
        _ => panic!("expected a definition"),
    }
}
