use cpp_class::usage::Usage;

#[test]
fn usage_constructors_agree() {
    let a: Usage<str> = Usage::new();
    let b: Usage<str> = Default::default();
    let c = a.clone();
    let _ = (a, b, c);
}
