use compiler::frontend::{optimize, parse};

#[test]
fn test_parse_keeps_source() {
    let mut program = parse("int main() { return 0; }").unwrap();
    assert_eq!(program.content.as_str(), "int main() { return 0; }");
    optimize(&mut program);
    assert_eq!(program.content.as_str(), "int main() { return 0; }");
}

#[test]
fn test_textfmt() {
    assert_eq!(compiler::textfmt::dec_string(0).as_str(), "0");
    assert_eq!(compiler::textfmt::dec_string(90710).as_str(), "90710");
    assert_eq!(compiler::textfmt::hex_string(0xdeadbeef).as_str(), "deadbeef");
    assert_eq!(compiler::textfmt::hex_string(15).as_str(), "f");
}
