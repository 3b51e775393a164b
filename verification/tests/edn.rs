use dslc::edn::{parse_edn_structure, EdnNode};

fn nums(node: &EdnNode) -> Vec<String> {
    match node {
        EdnNode::Vec(items) => items
            .iter()
            .map(|n| match n {
                EdnNode::Num(t) => t.clone(),
                EdnNode::Vec(_) => panic!("expected a number"),
            })
            .collect(),
        EdnNode::Num(_) => panic!("expected a vector"),
    }
}

#[test]
fn nested_vectors_keep_number_text() {
    let tree = parse_edn_structure(b"[[1.0 2.0], [3e-1 -4]]").expect("structure ok");
    match &tree {
        EdnNode::Vec(rows) => {
            assert_eq!(rows.len(), 2);
            assert_eq!(nums(&rows[0]), vec!["1.0".to_string(), "2.0".to_string()]);
            assert_eq!(nums(&rows[1]), vec!["3e-1".to_string(), "-4".to_string()]);
        }
        EdnNode::Num(_) => panic!("expected a vector"),
    }
}

#[test]
fn several_top_level_forms_are_wrapped() {
    let tree = parse_edn_structure(b"[1] [2]").expect("structure ok");
    match &tree {
        EdnNode::Vec(items) => assert_eq!(items.len(), 2),
        EdnNode::Num(_) => panic!("expected a vector"),
    }
}

#[test]
fn structure_errors_are_named() {
    assert_eq!(parse_edn_structure(b"]").unwrap_err(), "unbalanced ']'");
    assert_eq!(parse_edn_structure(b" ,\n").unwrap_err(), "empty input");
    assert_eq!(parse_edn_structure(b"").unwrap_err(), "empty input");
    assert_eq!(parse_edn_structure(b"[1 x]").unwrap_err(), "unexpected char 'x' at 3");
    assert_eq!(parse_edn_structure(b"1").unwrap_err(), "number outside of vector");
    assert_eq!(parse_edn_structure(b"[1").unwrap_err(), "unclosed vector");
}
