use cljrust::codegen::CodeGen;
use cljrust::lexer::{Lexer, Token};
use cljrust::parser::Parser;

/// Source text to Rust text, with float literals written as `f64` displays them.
fn compile(src: &str) -> Result<String, String> {
    let mut lexer = Lexer::new(src);
    let tokens = lexer.tokenize()?;
    let tokens = tokens
        .into_iter()
        .map(|mut t| {
            if let Token::Float(f) = &t.token {
                t.token = Token::Float(f.parse::<f64>().unwrap().to_string());
            }
            t
        })
        .collect();
    let mut parser = Parser::new(tokens);
    let program = parser.parse_program()?;
    let mut cg = CodeGen::new();
    Ok(cg.generate(&program))
}

/// The Rust text of a single top-level expression, without `;` and line breaks.
fn expr(src: &str) -> String {
    let out = compile(src).unwrap();
    out.strip_suffix(";\n\n").unwrap().to_string()
}

#[test]
fn defn_with_types() {
    assert_eq!(
        compile("(defn add [a : i32 b : i32] -> i32 (+ a b))").unwrap(),
        "pub fn add(a: i32, b: i32) -> i32 {\n    (a + b)\n}\n\n"
    );
}

#[test]
fn private_defn() {
    assert_eq!(
        compile("(defn- private-helper [x : i32] -> i32 (* x 2))").unwrap(),
        "fn private_helper(x: i32) -> i32 {\n    (x * 2)\n}\n\n"
    );
}

#[test]
fn async_defn_and_generics() {
    assert_eq!(
        compile("(defn-async fetch < T > [url : &str] -> T (go url))").unwrap(),
        "pub async fn fetch<T>(url: &str) -> T {\n    go(url)\n}\n\n"
    );
}

#[test]
fn defn_body_statements() {
    assert_eq!(
        compile("(defn main [] (println! \"a\") (let [x 1] x) 42)").unwrap(),
        "pub fn main() {\n    println!(\"a\");\n    {\n        let x = 1;\n        x\n    }\n    42\n}\n\n"
    );
}

#[test]
fn hello_world() {
    assert_eq!(
        compile("; hello.cljr\n(defn main []\n  (println! \"Hello from cljrust!\"))").unwrap(),
        "pub fn main() {\n    println!(\"Hello from cljrust!\")\n}\n\n"
    );
}

#[test]
fn variadic_operators_fold_left() {
    assert_eq!(expr("(+ 1 2 3)"), "((1 + 2) + 3)");
    assert_eq!(expr("(* 2 3 4)"), "((2 * 3) * 4)");
    assert_eq!(expr("(- 10 3)"), "(10 - 3)");
    assert_eq!(expr("(/ 10 2)"), "(10 / 2)");
    assert_eq!(expr("(% 10 3)"), "(10 % 3)");
}

#[test]
fn comparison_logical_bitwise_operators() {
    assert_eq!(expr("(= a b)"), "(a == b)");
    assert_eq!(expr("(!= a b)"), "(a != b)");
    assert_eq!(expr("(<= a b)"), "(a <= b)");
    assert_eq!(expr("(>= a b)"), "(a >= b)");
    assert_eq!(expr("(and a b)"), "(a && b)");
    assert_eq!(expr("(or a b)"), "(a || b)");
    assert_eq!(expr("(not x)"), "!x");
    assert_eq!(expr("(bit-and a b)"), "(a & b)");
    assert_eq!(expr("(bit-or a b)"), "(a | b)");
    assert_eq!(expr("(bit-xor a b)"), "(a ^ b)");
    assert_eq!(expr("(shl a b)"), "(a << b)");
    assert_eq!(expr("(shr a b)"), "(a >> b)");
}

#[test]
fn single_operand_forms() {
    assert_eq!(expr("(- x)"), "-x");
    assert_eq!(expr("(neg x)"), "-x");
    assert_eq!(expr("(+ x)"), "x");
}

#[test]
fn operator_without_operands_is_an_error() {
    assert_eq!(compile("(+)").unwrap_err(), "Operator + requires at least one operand");
}

#[test]
fn rust_interop_calls() {
    assert_eq!(expr("(.push &mut vec 42)"), "vec.push(42)");
    assert_eq!(expr("(.len &string)"), "string.len()");
    assert_eq!(expr("(.to_uppercase &s)"), "s.to_uppercase()");
    assert_eq!(expr("(String::from \"hello\")"), "String::from(\"hello\")");
    assert_eq!(expr("(Vec::new)"), "Vec::new()");
    assert_eq!(expr("(std::collections::HashMap::new)"), "std::collections::HashMap::new()");
    assert_eq!(expr("(println! \"x = {}\" x)"), "println!(\"x = {}\", x)");
    assert_eq!(expr("(vec! [1 2 3])"), "vec![1, 2, 3]");
    assert_eq!(expr("(format! \"{:?}\" x)"), "format!(\"{:?}\", x)");
}

#[test]
fn struct_instantiation() {
    assert_eq!(expr("(new Point :x 3.0 :y 4.0)"), "Point { x: 3.0, y: 4.0 }");
}

#[test]
fn struct_init_needs_field_keywords() {
    assert_eq!(compile("(new Point 1)").unwrap_err(), "Expected :field in struct init, got Some(Integer(1))");
}

#[test]
fn references_casts_and_misc() {
    assert_eq!(expr("&x"), "&x");
    assert_eq!(expr("&mut x"), "&mut x");
    assert_eq!(expr("@x"), "*x");
    assert_eq!(expr("(as 42 f64)"), "(42 as f64)");
    assert_eq!(expr("(? (some-fallible-call))"), "some_fallible_call()?");
    assert_eq!(expr("(try! (some-call))"), "some_call()?");
    assert_eq!(expr("(await (fetch url))"), "fetch(url).await");
    assert_eq!(expr("(.. 0 10)"), "0..10");
    assert_eq!(expr("(..= 0 10)"), "0..=10");
    assert_eq!(expr("(get vec 0)"), "vec[0]");
    assert_eq!(expr("~\"unsafe { *ptr }\""), "unsafe { *ptr }");
}

#[test]
fn literals_and_collections() {
    assert_eq!(expr("42"), "42");
    assert_eq!(expr("3.14"), "3.14");
    assert_eq!(expr("2.0"), "2.0");
    assert_eq!(expr("\"hi\\n\""), "\"hi\\n\"");
    assert_eq!(expr("\\a"), "'a'");
    assert_eq!(expr("\\'"), "'\\''");
    assert_eq!(expr("true"), "true");
    assert_eq!(expr("nil"), "()");
    assert_eq!(expr(":keyword"), "\"keyword\"");
    assert_eq!(expr("[1 2 3 4 5]"), "vec![1, 2, 3, 4, 5]");
    assert_eq!(expr("{:a 1 :b 2}"), "std::collections::HashMap::from([(\"a\", 1), (\"b\", 2)])");
    assert_eq!(expr("(tuple 1 \"hello\" true)"), "(1, \"hello\", true)");
    assert_eq!(expr("(tuple 1)"), "(1,)");
    assert_eq!(expr("()"), "()");
}

#[test]
fn naming_conventions() {
    assert_eq!(expr("my-function"), "my_function");
    assert_eq!(expr("get-value"), "get_value");
    assert_eq!(expr("is-valid?"), "is_valid?");
    assert_eq!(expr("(set! x 1)"), "x = 1");
}

#[test]
fn if_expression() {
    assert_eq!(
        expr("(if (> x 0) \"positive\" \"non-positive\")"),
        "if (x > 0) {\n    \"positive\"\n} else {\n    \"non-positive\"\n}"
    );
    assert_eq!(expr("(if c a)"), "if c {\n    a\n}");
}

#[test]
fn let_bindings() {
    assert_eq!(
        expr("(let [x 10 y : i32 20] (+ x y))"),
        "{\n    let x = 10;\n    let y: i32 = 20;\n    (x + y)\n}"
    );
    assert_eq!(expr("(let-mut [count 0] (set! count 10))"), "{\n    let mut count = 0;\n    count = 10\n}");
    assert_eq!(expr("(let [mut x 0] (set! x 42))"), "{\n    let mut x = 0;\n    x = 42\n}");
}

#[test]
fn do_block() {
    assert_eq!(
        expr("(do (println! \"step 1\") (println! \"step 2\") 42)"),
        "{\n    println!(\"step 1\");\n    println!(\"step 2\");\n    42\n}"
    );
}

#[test]
fn match_expressions() {
    assert_eq!(
        expr("(match value 1 \"one\" 2 \"two\" _ \"other\")"),
        "match value {\n    1 => \"one\",\n    2 => \"two\",\n    _ => \"other\",\n}"
    );
    assert_eq!(
        expr("(match option (Some x) (println! \"Got {}\" x) None (println! \"Nothing\"))"),
        "match option {\n    Some(x) => println!(\"Got {}\", x),\n    None => println!(\"Nothing\"),\n}"
    );
    assert_eq!(
        expr("(match shape (Shape::Rect w h) (* w h) [a b] (do a b))"),
        "match shape {\n    Shape::Rect(w, h) => (w * h),\n    (a, b) => {\n        a;\n        b\n    },\n}"
    );
}

#[test]
fn bad_pattern_is_an_error() {
    assert_eq!(
        compile("(match x :k 1)").unwrap_err(),
        "Unexpected token in pattern: Some(Keyword(\"k\"))"
    );
}

#[test]
fn loops() {
    assert_eq!(expr("(for [i (.. 0 10)] (println! \"{}\" i))"), "for i in 0..10 {\n    println!(\"{}\", i)\n}");
    assert_eq!(expr("(while (> n 0) (set! n (- n 1)))"), "while (n > 0) {\n    n = (n - 1)\n}");
    assert_eq!(expr("(loop (break 1))"), "loop {\n    break 1\n}");
}

#[test]
fn loop_recur_becomes_assignments_and_continue() {
    assert_eq!(
        expr("(loop [n 10 acc 0] (if (= n 0) acc (recur (- n 1) (+ acc n))))"),
        "{\n    let mut n = 10;\n    let mut acc = 0;\n    loop {\n        if (n == 0) {\n            break acc;\n        } else {\n            let __recur_0 = (n - 1);\n            let __recur_1 = (acc + n);\n            n = __recur_0;\n            acc = __recur_1;\n            continue;\n        }\n    }\n}"
    );
}

#[test]
fn closures() {
    assert_eq!(expr("(fn [x] (* x x))"), "|x| (x * x)");
    assert_eq!(expr("(fn [x : i32 y : i32] -> i32 (+ x y))"), "|x: i32, y: i32| -> i32 (x + y)");
    assert_eq!(expr("(fn [mut x] (set! x 1) x)"), "|mut x| {\n    x = 1;\n    x\n}");
}

#[test]
fn control_jumps() {
    assert_eq!(expr("(return)"), "return");
    assert_eq!(expr("(return x)"), "return x");
    assert_eq!(expr("(break)"), "break");
    assert_eq!(expr("(continue)"), "continue");
    assert_eq!(expr("(recur 1)"), "/* recur */ continue");
}

#[test]
fn use_and_extern_crate() {
    assert_eq!(compile("(use std::collections::HashMap)").unwrap(), "use std::collections::HashMap;\n\n");
    assert_eq!(compile("(use std::io::{self Read Write})").unwrap(), "use std::io::{self, Read, Write};\n\n");
    assert_eq!(compile("(extern-crate my-crate)").unwrap(), "extern crate my_crate;\n\n");
}

#[test]
fn constants_and_statics() {
    assert_eq!(compile("(const MAX -> i32 100)").unwrap(), "const MAX: i32 = 100;\n\n");
    assert_eq!(compile("(def NAME -> &str \"cljrust\")").unwrap(), "static NAME: &str = \"cljrust\";\n\n");
    assert_eq!(compile("(def-mut counter 0)").unwrap(), "static mut COUNTER = 0;\n\n");
}

#[test]
fn struct_definition() {
    assert_eq!(
        compile("(defstruct Point #[Debug Clone PartialEq] [pub x : f64 pub y : f64])").unwrap(),
        "#[derive(Debug, Clone, PartialEq)]\npub struct Point {\n    pub x: f64,\n    pub y: f64,\n}\n\n"
    );
    assert_eq!(
        compile("(defstruct Config [pub values : HashMap < String i32 > tags : [String]])").unwrap(),
        "pub struct Config {\n    pub values: HashMap<String, i32>,\n    tags: Vec<String>,\n}\n\n"
    );
}

#[test]
fn enum_definition() {
    assert_eq!(
        compile("(defenum Color #[Debug] Red Green Blue (Custom u8 u8 u8))").unwrap(),
        "#[derive(Debug)]\npub enum Color {\n    Red,\n    Green,\n    Blue,\n    Custom(u8, u8, u8),\n}\n\n"
    );
}

#[test]
fn trait_definition() {
    assert_eq!(
        compile("(deftrait Drawable (defn draw [&self]) (defn area [&self] -> f64))").unwrap(),
        "pub trait Drawable {\n    fn draw(&self);\n    fn area(&self) -> f64;\n}\n\n"
    );
}

#[test]
fn trait_implementation_names_trait_and_type() {
    assert_eq!(
        compile("(defimpl Drawable for Circle (defn draw [&self] (println! \"Drawing circle\")))").unwrap(),
        "impl Drawable for Circle {\n    pub fn draw(&self) {\n        println!(\"Drawing circle\")\n    }\n\n}\n\n"
    );
}

#[test]
fn impl_block() {
    assert_eq!(
        compile("(defimpl Point (defn new [x : f64 y : f64] -> Point (new Point :x x :y y)))").unwrap(),
        "impl Point {\n    pub fn new(x: f64, y: f64) -> Point {\n        Point { x: x, y: y }\n    }\n\n}\n\n"
    );
}

#[test]
fn method_with_mut_self() {
    assert_eq!(
        compile("(defimpl Config (defn set [&mut self key : String] (.insert &mut self.values key 1)))").unwrap(),
        "impl Config {\n    pub fn set(&mut self, key: String) {\n        self.values.insert(key, 1)\n    }\n\n}\n\n"
    );
}

#[test]
fn module_and_attribute() {
    assert_eq!(
        compile("(defmod util (defn- f [] 1))").unwrap(),
        "pub mod util {\n    fn f() {\n        1\n    }\n\n}\n\n"
    );
    assert_eq!(compile("(#! allow (dead-code) (defn f [] 1))").unwrap_err(), "Unexpected token Some(Hash) at line 1");
}

#[test]
fn function_pointer_and_tuple_types() {
    assert_eq!(
        compile("(defn apply [f : (Fn [i32] -> i32) p : (i32 bool) a : [u8 N]] (f 1))").unwrap(),
        "pub fn apply(f: fn(i32) -> i32, p: (i32, bool), a: [u8; N]) {\n    f(1)\n}\n\n"
    );
}

#[test]
fn parse_errors() {
    assert_eq!(compile("(defn f").unwrap_err(), "Unexpected end of input");
    assert_eq!(compile(")").unwrap_err(), "Unexpected token Some(RParen) at line 1");
    assert_eq!(compile("\n\n]").unwrap_err(), "Unexpected token Some(RBracket) at line 3");
    assert_eq!(compile("~5").unwrap_err(), "Expected string after ~ for raw Rust code");
    assert_eq!(compile("(use 5)").unwrap_err(), "Unexpected token in use path");
    assert_eq!(compile("(defstruct 5)").unwrap_err(), "Expected symbol, got Integer(5)");
    assert_eq!(compile("(defn f (x))").unwrap_err(), "Expected LBracket, got LParen");
    assert_eq!(compile("(defstruct P [x i32])").unwrap_err(), "Expected symbol ':', got Symbol(\"i32\")");
    assert_eq!(compile("(as x 5)").unwrap_err(), "Expected type, got Some(Integer(5))");
}

#[test]
fn factorial_program() {
    let src = "(defn factorial [n : u64] -> u64\n  (loop [i n acc 1]\n    (if (= i 0)\n      acc\n      (recur (- i 1) (* acc i)))))";
    assert_eq!(
        compile(src).unwrap(),
        "pub fn factorial(n: u64) -> u64 {\n    {\n        let mut i = n;\n        let mut acc = 1;\n        loop {\n            if (i == 0) {\n                break acc;\n            } else {\n                let __recur_0 = (i - 1);\n                let __recur_1 = (acc * i);\n                i = __recur_0;\n                acc = __recur_1;\n                continue;\n            }\n        }\n    }\n}\n\n"
    );
}

#[test]
fn generate_appends_to_earlier_output() {
    let mut cg = CodeGen::new();
    let first = {
        let mut lexer = Lexer::new("(use a)");
        let toks = lexer.tokenize().unwrap();
        Parser::new(toks).parse_program().unwrap()
    };
    let second = {
        let mut lexer = Lexer::new("(use b)");
        let toks = lexer.tokenize().unwrap();
        Parser::new(toks).parse_program().unwrap()
    };
    assert_eq!(cg.generate(&first), "use a;\n\n");
    assert_eq!(cg.generate(&second), "use a;\n\nuse b;\n\n");
}


#[test]
fn floats_in_messages_are_written_as_debug_writes_them() {
    assert_eq!(compile("(defn 1e20 [] 1)").unwrap_err(), "Expected symbol, got Float(1e20)");
    assert_eq!(compile("(defn 1.5e17 [] 1)").unwrap_err(), "Expected symbol, got Float(1.5e17)");
    assert_eq!(compile("(defn 0.00001 [] 1)").unwrap_err(), "Expected symbol, got Float(1e-5)");
    assert_eq!(compile("(defn -0.000012 [] 1)").unwrap_err(), "Expected symbol, got Float(-1.2e-5)");
    assert_eq!(compile("(defn 2.0 [] 1)").unwrap_err(), "Expected symbol, got Float(2.0)");
    assert_eq!(compile("(defn 0.0001 [] 1)").unwrap_err(), "Expected symbol, got Float(0.0001)");
    assert_eq!(compile("(defn 1e15 [] 1)").unwrap_err(), "Expected symbol, got Float(1000000000000000.0)");
}

#[test]
fn escaped_literals_read_back_as_written() {
    assert_eq!(expr(r#""a\"b\\c\nd\te""#), r#""a\"b\\c\nd\te""#);
    assert_eq!(expr("\"plain 'quotes'\""), "\"plain 'quotes'\"");
}
