use dslc::compile;

#[test]
fn type_mismatch_vec_element_rejected() {
    let src = "(defn main [] [1 \"two\" 3])";
    let err = compile(src).expect_err("should reject mixed types");
    assert!(
        err.message.contains("numeric")
            || err.message.contains("mismatch")
            || err.message.contains("unify"),
        "Should report type error: {}",
        err.message
    );
}
