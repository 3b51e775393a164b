use dslc::compile;

#[test]
fn test_case_missing_arm() {
    let src = "
(defenum e-type (a) (b))

(defn test-missing [e:e-type]
  (case e
    (a 1)))
";
    let err = compile(src).expect_err("expected error");
    assert!(err.message.contains("non-exhaustive case"), "{}", err.message);
}

#[test]
fn rejects_non_exhaustive_match() {
    let src = "(defenum opt (some (v i32)) (none)) (defn f [o:opt] (case o (some (v v) v)))";
    let err = compile(src).expect_err("expected non-exhaustive match");
    assert!(err.message.contains("non-exhaustive"), "{}", err.message);
}
