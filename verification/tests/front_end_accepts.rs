use dslc::compile;

#[test]
fn front_end_accepts_if_without_else() {
    let src = "(defn main [b:bool] (if b 1))";
    if let Err(e) = compile(src) {
        panic!("{}: {}", src, e.message);
    }
}

#[test]
fn front_end_accepts_loop_break_value() {
    let src = "(defn main [] (loop (break 1)))";
    if let Err(e) = compile(src) {
        panic!("{}: {}", src, e.message);
    }
}

#[test]
fn front_end_accepts_while_break_value() {
    let src = "(defn main [b:bool] (while b (break 1)))";
    if let Err(e) = compile(src) {
        panic!("{}: {}", src, e.message);
    }
}

#[test]
fn front_end_accepts_for_range() {
    let src = "(defn main [] (for i (range 0 3) (darcy.io/dbg i)))";
    if let Err(e) = compile(src) {
        panic!("{}: {}", src, e.message);
    }
}

#[test]
fn front_end_accepts_for_range_incl() {
    let src = "(defn main [] (for i (range-incl 0 3) (darcy.io/dbg i)))";
    if let Err(e) = compile(src) {
        panic!("{}: {}", src, e.message);
    }
}

#[test]
fn front_end_accepts_for_for_x_y() {
    let src = "(defn main [] (for i (vec<i32> 1 2 3) (darcy.io/dbg i)))";
    if let Err(e) = compile(src) {
        panic!("{}: {}", src, e.message);
    }
}

#[test]
fn front_end_accepts_set_assignment() {
    let src = "(defn main [] (do (let [x 1] (do (let! x 2) x))))";
    if let Err(e) = compile(src) {
        panic!("{}: {}", src, e.message);
    }
}

#[test]
fn front_end_accepts_for_float_range() {
    let src = "(defn main [] (for i (range 0.0 1.0) (darcy.io/dbg i)))";
    if let Err(e) = compile(src) {
        panic!("{}: {}", src, e.message);
    }
}

#[test]
fn front_end_accepts_do_sequence() {
    let src = "(defn main [] (do (darcy.io/dbg 1) (darcy.io/dbg 2)))";
    if let Err(e) = compile(src) {
        panic!("{}: {}", src, e.message);
    }
}

#[test]
fn front_end_accepts_and_or_short_circuit() {
    let src = "(defn main [a:bool b:bool] (and a (or b a)))";
    if let Err(e) = compile(src) {
        panic!("{}: {}", src, e.message);
    }
}

#[test]
fn front_end_accepts_when_form() {
    let src = "(defn main [b:bool] (when b (darcy.io/dbg 1)))";
    if let Err(e) = compile(src) {
        panic!("{}: {}", src, e.message);
    }
}

#[test]
fn front_end_accepts_core_clone() {
    let src = "(defn main [v:vec<i32>] (darcy.core/clone v))";
    if let Err(e) = compile(src) {
        panic!("{}: {}", src, e.message);
    }
}

#[test]
fn front_end_accepts_predicate_function_call() {
    let src = "(defn empty? [x] true) (defn main [] (empty? 1))";
    if let Err(e) = compile(src) {
        panic!("{}: {}", src, e.message);
    }
}

#[test]
fn front_end_accepts_infers_param_from_literal() {
    let src = "(defn add1 [x] (+ x 1))";
    if let Err(e) = compile(src) {
        panic!("{}: {}", src, e.message);
    }
}

#[test]
fn front_end_accepts_infers_param_from_call() {
    let src = "(defn inc [x:i32] (+ x 1)) (defn apply-one [y] (inc y))";
    if let Err(e) = compile(src) {
        panic!("{}: {}", src, e.message);
    }
}

#[test]
fn front_end_accepts_defaults_ambiguous_numeric_op() {
    let src = "(defn add [x y] (+ x y))";
    if let Err(e) = compile(src) {
        panic!("{}: {}", src, e.message);
    }
}

#[test]
fn front_end_accepts_generic_identity() {
    let src = "(defn id [x] x) (defn main [] (id 1))";
    if let Err(e) = compile(src) {
        panic!("{}: {}", src, e.message);
    }
}

#[test]
fn front_end_accepts_type_ascription_constrains_literal() {
    let src = "(defn main [] (type 1 i32))";
    if let Err(e) = compile(src) {
        panic!("{}: {}", src, e.message);
    }
}

#[test]
fn front_end_accepts_generic_clone_adds_bound() {
    let src = "(defn dup [x] (darcy.core/clone x))";
    if let Err(e) = compile(src) {
        panic!("{}: {}", src, e.message);
    }
}

#[test]
fn front_end_accepts_generic_len_adds_bound() {
    let src = "(defn size [x] (. x len))";
    if let Err(e) = compile(src) {
        panic!("{}: {}", src, e.message);
    }
}

#[test]
fn front_end_accepts_inline_expands_in_place() {
    let src = "(defin inc [x] (+ x 1)) (defn main [y:i32] (inc y))";
    if let Err(e) = compile(src) {
        panic!("{}: {}", src, e.message);
    }
}

#[test]
fn front_end_accepts_inline_can_capture_caller_vars() {
    let src = "(defin add-x [y] (+ x y)) (defn main [x:i32 y:i32] (add-x y))";
    if let Err(e) = compile(src) {
        panic!("{}: {}", src, e.message);
    }
}

#[test]
fn front_end_accepts_method_call_dot_form() {
    let src = "(defn main [v:vec<i32>] (let [n:usize (. v len)] n))";
    if let Err(e) = compile(src) {
        panic!("{}: {}", src, e.message);
    }
}

#[test]
fn front_end_accepts_method_call_prefix_form() {
    let src = "(defn main [v:vec<i32>] (let [n:usize (.len v)] n))";
    if let Err(e) = compile(src) {
        panic!("{}: {}", src, e.message);
    }
}

#[test]
fn front_end_accepts_dot_field_access() {
    let src = "(defrecord box [value:i32]) (defn main [b:box] b.value)";
    if let Err(e) = compile(src) {
        panic!("{}: {}", src, e.message);
    }
}

#[test]
fn front_end_accepts_let_and_lambda_call() {
    let src = "(defn main [] (let [x 1 y 2] (call (fn [z] (+ z x)) y)))";
    if let Err(e) = compile(src) {
        panic!("{}: {}", src, e.message);
    }
}

#[test]
fn front_end_accepts_def_values() {
    let src = "(def counter 1) (defn main [] (+ counter 1))";
    if let Err(e) = compile(src) {
        panic!("{}: {}", src, e.message);
    }
}

#[test]
fn front_end_accepts_numeric_binop() {
    let src = "(defrecord order (qty u32) (price f64)) (defn total [o:order] (* o.qty o.price))";
    if let Err(e) = compile(src) {
        panic!("{}: {}", src, e.message);
    }
}

#[test]
fn front_end_accepts_abs_with_typed_negative_literal() {
    let src = "(defn main [] (darcy.math/abs -42))";
    if let Err(e) = compile(src) {
        panic!("{}: {}", src, e.message);
    }
}

#[test]
fn front_end_accepts_defmacro_expands_list() {
    let src = "(defmacro twice [x] (list '+ x x)) (defn main [] (twice 2))";
    if let Err(e) = compile(src) {
        panic!("{}: {}", src, e.message);
    }
}

#[test]
fn front_end_accepts_defmacro_expands_quote_reader() {
    let src = "(defmacro lit [] '(+ 1 2)) (defn main [] (lit))";
    if let Err(e) = compile(src) {
        panic!("{}: {}", src, e.message);
    }
}

#[test]
fn front_end_accepts_defmacro_expands_syntax_quote_unquote() {
    let src = "(defmacro wrap [x] `(let [v# ~x] v#)) (defn main [] (wrap 3))";
    if let Err(e) = compile(src) {
        panic!("{}: {}", src, e.message);
    }
}

#[test]
fn front_end_accepts_defmacro_unquote_splicing() {
    let src = "(defmacro mk [xs] `(list ~@xs)) (defn main [] (mk [1 2 3]))";
    if let Err(e) = compile(src) {
        panic!("{}: {}", src, e.message);
    }
}

#[test]
fn front_end_accepts_metadata_is_ignored() {
    let src = "^:test (defn main [] 1)";
    if let Err(e) = compile(src) {
        panic!("{}: {}", src, e.message);
    }
}

#[test]
fn front_end_accepts_main_is_public_without_defpub() {
    let src = "(defn main [] 42)";
    if let Err(e) = compile(src) {
        panic!("{}: {}", src, e.message);
    }
}

#[test]
fn front_end_accepts_hashmap_literal() {
    let src = "(defn main [] (darcy.hash-map/new [:a 1] [:b 2]))";
    if let Err(e) = compile(src) {
        panic!("{}: {}", src, e.message);
    }
}

#[test]
fn front_end_accepts_hashmap_brace_literal() {
    let src = "(defn main [] {:a 1 :b 2})";
    if let Err(e) = compile(src) {
        panic!("{}: {}", src, e.message);
    }
}

#[test]
fn front_end_accepts_set_literals_lower() {
    let src = "(defn main [] (do (hashset 1 2) #{3 4}))";
    if let Err(e) = compile(src) {
        panic!("{}: {}", src, e.message);
    }
}

#[test]
fn front_end_accepts_set_empty_with_annotation() {
    let src = "(defn main [] (set<i32>))";
    if let Err(e) = compile(src) {
        panic!("{}: {}", src, e.message);
    }
}

#[test]
fn front_end_accepts_btreemap_literal() {
    let src = "(defn main [] (darcy.btree-map/new [:a 1]))";
    if let Err(e) = compile(src) {
        panic!("{}: {}", src, e.message);
    }
}

#[test]
fn front_end_accepts_hashmap_get_contains() {
    let src = "(defn main [m:hash-map<string,i32>] (darcy.hash-map/contains m :a))";
    if let Err(e) = compile(src) {
        panic!("{}: {}", src, e.message);
    }
}

#[test]
fn front_end_accepts_hashmap_empty_with_annotation() {
    let src = "(defn main [] (darcy.hash-map/new<string,i32>))";
    if let Err(e) = compile(src) {
        panic!("{}: {}", src, e.message);
    }
}

#[test]
fn front_end_accepts_math_exp() {
    let src = "(defn main [] (darcy.math/exp 1.0))";
    if let Err(e) = compile(src) {
        panic!("{}: {}", src, e.message);
    }
}

#[test]
fn front_end_accepts_borrows_params_for_read_only_use() {
    let src = "(defn total-len [v:vec<i32>] (do (darcy.vec/len v) (darcy.vec/len v)))";
    if let Err(e) = compile(src) {
        panic!("{}: {}", src, e.message);
    }
}

#[test]
fn front_end_accepts_comparisons() {
    let src = "(defn main [] (do (= 1 2) (< 1 2) (<= 1 2) (> 2 1) (>= 2 1)))";
    if let Err(e) = compile(src) {
        panic!("{}: {}", src, e.message);
    }
}

#[test]
fn front_end_accepts_bitwise_ops() {
    let src = "(defn main [] (do (& 6 3) (| 6 3)))";
    if let Err(e) = compile(src) {
        panic!("{}: {}", src, e.message);
    }
}

#[test]
fn front_end_accepts_mod() {
    let src = "(defn main [] (mod 5 2))";
    if let Err(e) = compile(src) {
        panic!("{}: {}", src, e.message);
    }
}

#[test]
fn front_end_accepts_and_or() {
    let src = "(defn main [] (do (and true false) (or false true)))";
    if let Err(e) = compile(src) {
        panic!("{}: {}", src, e.message);
    }
}

#[test]
fn front_end_accepts_option_some_none() {
    let src = "(defn main [] (darcy.option/is-some (darcy.option/some 1)))";
    if let Err(e) = compile(src) {
        panic!("{}: {}", src, e.message);
    }
}

#[test]
fn front_end_accepts_option_none_is_none_is_typed() {
    let src = "(defn main [] (darcy.option/is-none (darcy.option/none)))";
    if let Err(e) = compile(src) {
        panic!("{}: {}", src, e.message);
    }
}

#[test]
fn front_end_accepts_result_ok_err() {
    let src = "(defn main [] (darcy.result/is-err (darcy.result/err 1)))";
    if let Err(e) = compile(src) {
        panic!("{}: {}", src, e.message);
    }
}

#[test]
fn front_end_accepts_result_ok_is_ok_is_typed() {
    let src = "(defn main [] (darcy.result/is-ok (darcy.result/ok 1)))";
    if let Err(e) = compile(src) {
        panic!("{}: {}", src, e.message);
    }
}

#[test]
fn front_end_accepts_option_unwrap() {
    let src = "(defn main [] (darcy.option/unwrap (darcy.option/some 42)))";
    if let Err(e) = compile(src) {
        panic!("{}: {}", src, e.message);
    }
}

#[test]
fn front_end_accepts_option_unwrap_or() {
    let src = "(defn main [] (darcy.option/unwrap-or (darcy.option/none) 0))";
    if let Err(e) = compile(src) {
        panic!("{}: {}", src, e.message);
    }
}

#[test]
fn front_end_accepts_result_unwrap() {
    let src = "(defn main [] (darcy.result/unwrap (darcy.result/ok 42)))";
    if let Err(e) = compile(src) {
        panic!("{}: {}", src, e.message);
    }
}

#[test]
fn front_end_accepts_result_unwrap_or() {
    let src = "(defn main [] (darcy.result/unwrap-or (darcy.result/err 1) 0))";
    if let Err(e) = compile(src) {
        panic!("{}: {}", src, e.message);
    }
}

#[test]
fn front_end_accepts_print_and_main() {
    let src = "(defn main [] (darcy.io/dbg 1))";
    if let Err(e) = compile(src) {
        panic!("{}: {}", src, e.message);
    }
}

#[test]
fn front_end_accepts_print_string() {
    let src = "(defn main [] (darcy.io/dbg \"hello\"))";
    if let Err(e) = compile(src) {
        panic!("{}: {}", src, e.message);
    }
}

#[test]
fn front_end_accepts_fmt_format_and_pretty() {
    let src = "(defn main [] (darcy.fmt/format 1)) (defn other [] (darcy.fmt/pretty 1))";
    if let Err(e) = compile(src) {
        panic!("{}: {}", src, e.message);
    }
}

#[test]
fn front_end_accepts_fmt_print() {
    let src = "(defn main [] (darcy.fmt/print (darcy.fmt/format 1)))";
    if let Err(e) = compile(src) {
        panic!("{}: {}", src, e.message);
    }
}

#[test]
fn front_end_accepts_fmt_println() {
    let src = "(defn main [] (darcy.fmt/println (darcy.fmt/format 1)))";
    if let Err(e) = compile(src) {
        panic!("{}: {}", src, e.message);
    }
}

#[test]
fn front_end_accepts_string_interpolation_in_println() {
    let src = "(defn main [name:string] (darcy.fmt/println \"hi ${name}\"))";
    if let Err(e) = compile(src) {
        panic!("{}: {}", src, e.message);
    }
}

#[test]
fn front_end_accepts_println_accepts_record_directly_via_display() {
    let src = "(defrecord user [name:string]) (defn main [u:user] (darcy.fmt/println u))";
    if let Err(e) = compile(src) {
        panic!("{}: {}", src, e.message);
    }
}

#[test]
fn front_end_accepts_core_str_len_is_empty() {
    let src = "(defn main [s:string] (darcy.string/is-empty s))";
    if let Err(e) = compile(src) {
        panic!("{}: {}", src, e.message);
    }
}

#[test]
fn front_end_accepts_core_str_trim() {
    let src = "(defn main [s:string] (darcy.string/trim s))";
    if let Err(e) = compile(src) {
        panic!("{}: {}", src, e.message);
    }
}

#[test]
fn front_end_accepts_self_tail_recursion_to_loop() {
    let src = "(defn sum-down [n:i64 acc:i64] (if (= n 0) acc (sum-down (- n 1) (+ acc n))))";
    if let Err(e) = compile(src) {
        panic!("{}: {}", src, e.message);
    }
}

#[test]
fn front_end_accepts_non_tail_recursion_is_not_rewritten() {
    let src = "(defn fact [n:i64] (if (= n 0) 1 (* n (fact (- n 1)))))";
    if let Err(e) = compile(src) {
        panic!("{}: {}", src, e.message);
    }
}

#[test]
fn front_end_accepts_option_some_infers_inner_type() {
    let src = "(defn main [] (darcy.option/unwrap (darcy.option/some 42)))";
    if let Err(e) = compile(src) {
        panic!("{}: {}", src, e.message);
    }
}

#[test]
fn front_end_accepts_option_none_requires_type_context() {
    let src = "(defn main [] (darcy.option/none))";
    if let Err(e) = compile(src) {
        panic!("{}: {}", src, e.message);
    }
}

#[test]
fn front_end_accepts_option_unwrap_or_unifies_types() {
    let src = "(defn main [] (darcy.option/unwrap-or (darcy.option/some 42) 0))";
    if let Err(e) = compile(src) {
        panic!("{}: {}", src, e.message);
    }
}

#[test]
fn front_end_accepts_result_ok_infers_ok_type() {
    let src = "(defn main [] (darcy.result/unwrap (darcy.result/ok 42)))";
    if let Err(e) = compile(src) {
        panic!("{}: {}", src, e.message);
    }
}

#[test]
fn front_end_accepts_result_err_infers_err_type() {
    let src = "(defn main [] (darcy.result/is-err (darcy.result/err \"error\")))";
    if let Err(e) = compile(src) {
        panic!("{}: {}", src, e.message);
    }
}

#[test]
fn front_end_accepts_vec_literal_infers_element_type() {
    let src = "(defn main [] [1 2 3])";
    if let Err(e) = compile(src) {
        panic!("{}: {}", src, e.message);
    }
}

#[test]
fn front_end_accepts_vec_map_propagates_types() {
    let src = "(defn main [v:vec<i32>] (darcy.vec/map (fn [x] (+ x 1)) v))";
    if let Err(e) = compile(src) {
        panic!("{}: {}", src, e.message);
    }
}

#[test]
fn front_end_accepts_vec_fold_infers_accumulator_type() {
    let src = "(defn main [v:vec<i64>] (darcy.vec/fold (fn [acc x] (+ acc x)) 0 v))";
    if let Err(e) = compile(src) {
        panic!("{}: {}", src, e.message);
    }
}

#[test]
fn front_end_accepts_string_split_returns_vec_string() {
    let src = "(defn main [s:string] (darcy.vec/len (darcy.string/split s \",\")))";
    if let Err(e) = compile(src) {
        panic!("{}: {}", src, e.message);
    }
}

#[test]
fn front_end_accepts_string_join_takes_vec_string() {
    let src = "(defn main [parts:vec<string>] (darcy.string/join parts \",\"))";
    if let Err(e) = compile(src) {
        panic!("{}: {}", src, e.message);
    }
}

#[test]
fn front_end_accepts_math_ops_preserve_numeric_type() {
    let src = "(defn main [x:f64 y:f64] (darcy.math/max x y))";
    if let Err(e) = compile(src) {
        panic!("{}: {}", src, e.message);
    }
}

#[test]
fn front_end_accepts_math_clamp_requires_same_types() {
    let src = "(defn main [x:i32 lo:i32 hi:i32] (darcy.math/clamp x lo hi))";
    if let Err(e) = compile(src) {
        panic!("{}: {}", src, e.message);
    }
}

#[test]
fn front_end_accepts_struct_fields_use_lowercase_u8() {
    let src = "(defrecord pixel (x i32) (y i32) (r u8) (g u8) (b u8))";
    if let Err(e) = compile(src) {
        panic!("{}: {}", src, e.message);
    }
}

#[test]
fn front_end_accepts_enum_generates_display_impl() {
    let src = "(defenum state (on) (off)) (defn main [s:state] (darcy.fmt/println s))";
    if let Err(e) = compile(src) {
        panic!("{}: {}", src, e.message);
    }
}
