use textbuilder::{StringBuilder, TextBuilder};

#[test]
pub fn complex_test_a() {
    let string = StringBuilder::build_string(|tb| {
        tb.append("pub struct TestStruct {")?
            .indented("    ", |tb| {
                tb.newline()?
                    .append("pub name: &'static str,")?
                    .newline()?
                    .append("pub value: usize,")
            })?
            .newline()?
            .append('}')?
            .newline()
    })
    .unwrap();

    let check = r#"pub struct TestStruct {
    pub name: &'static str,
    pub value: usize,
}
"#;

    assert_eq!(string, check);
}

#[test]
fn test_empty_build() {
    let text: String = StringBuilder::build_string(|tb| Ok(tb)).unwrap();
    assert_eq!(text.len(), 0);
    assert_eq!(text, String::from(""));
}
