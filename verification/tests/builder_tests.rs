use std::cell::Cell;
use std::fmt::{Display, Formatter};
use textbuilder::{NotAppendable, StringBuilder, TextBuilder, TextError};

struct Point {
    x: isize,
    y: isize,
}

struct Broken;

impl Display for Broken {
    fn fmt(&self, _: &mut Formatter<'_>) -> std::fmt::Result {
        Err(std::fmt::Error)
    }
}

#[test]
fn new_builder_is_empty() {
    let builder = StringBuilder::new();
    assert_eq!(builder.string, "");
    assert_eq!(builder.config.newline, "\n");
    assert!(builder.config.indents.is_empty());

    let builder = StringBuilder::default();
    assert_eq!(builder.string, "");
    assert_eq!(builder.config.newline, "\n");
    assert!(builder.config.indents.is_empty());
}

#[test]
fn newline_twice_without_indents() {
    let text = StringBuilder::build_string(|tb| tb.newline()?.newline()).unwrap();
    assert_eq!(text, "\n\n");

    let text = StringBuilder::build_string(|tb| {
        tb.set_newline("\r\n")?.str("a")?.newline()?.newline()?.str("b")
    })
    .unwrap();
    assert_eq!(text, "a\r\n\r\nb");
}

#[test]
fn newline_writes_every_indent_outermost_first() {
    let text = StringBuilder::build_string(|tb| {
        tb.indented("ab", |tb| tb.indented("cd", |tb| tb.indented('e', |tb| tb.newline())))
    })
    .unwrap();
    assert_eq!(text, "\nabcde");
}

#[test]
fn nested_blocks_add_their_indents_and_take_them_back() {
    let text = StringBuilder::build_string(|tb| {
        tb.str("0")?
            .indented("    ", |tb| {
                tb.newline()?
                    .str("1")?
                    .indented("  ", |tb| tb.newline()?.str("2")?.newline()?.str("3"))?
                    .newline()?
                    .str("4")
            })?
            .newline()?
            .str("5")
    })
    .unwrap();
    assert_eq!(text, "0\n    1\n      2\n      3\n    4\n5");
}

#[test]
fn block_leaves_the_indents_as_they_were() {
    let builder = StringBuilder::new()
        .indented("    ", |tb| {
            assert_eq!(tb.config.indents, vec![String::from("    ")]);
            tb.indented("  ", |tb| {
                assert_eq!(tb.config.indents, vec![String::from("    "), String::from("  ")]);
                tb.newline()
            })
        })
        .unwrap();
    assert!(builder.config.indents.is_empty());
    assert_eq!(builder.string, "\n      ");
}

#[test]
fn failed_block_fails_the_chain() {
    let result = StringBuilder::build_string(|tb| {
        tb.str("a")?
            .indented("    ", |tb| tb.newline()?.utf8_bytes(&[0xFF]))?
            .newline()?
            .str("never")
    });
    assert!(matches!(result, Err(TextError::Utf8Error(_))));
}

#[test]
fn block_pops_one_indent_whatever_the_body_left() {
    let builder = StringBuilder::new()
        .indented("    ", |mut tb| {
            tb.config.indents.clear();
            Ok(tb)
        })
        .unwrap();
    assert!(builder.config.indents.is_empty());

    let builder = StringBuilder::new()
        .indented("a", |mut tb| {
            tb.config.indents.push(String::from("b"));
            tb.config.indents.push(String::from("c"));
            Ok(tb)
        })
        .unwrap();
    assert_eq!(builder.config.indents, vec![String::from("a"), String::from("b")]);
}

#[test]
fn struct_scenario() {
    let text = StringBuilder::build_string(|tb| {
        tb.append("pub struct Test {")?
            .indented("    ", |b| b.newline()?.append("field: usize,"))?
            .newline()?
            .append("}")
    })
    .unwrap();
    assert_eq!(text, "pub struct Test {\n    field: usize,\n}");
}

#[test]
fn delimit_scenario() {
    let numbers = [0, 1, 2, 3, 4];
    let text = StringBuilder::build_string(|tb| {
        tb.delimit(|b| b.append(","), numbers.iter(), |b, _, item| b.display(item))
    })
    .unwrap();
    assert_eq!(text, "0,1,2,3,4");
}

#[test]
fn line_break_change_leaves_what_is_written() {
    let text = StringBuilder::build_string(|tb| {
        tb.str("a")?
            .newline()?
            .str("b")?
            .set_newline("\r\n")?
            .newline()?
            .str("c")?
            .set_newline(';')?
            .newline()?
            .set_newline(NotAppendable)?
            .newline()?
            .str("d")
    })
    .unwrap();
    assert_eq!(text, "a\nb\r\nc;d");
}

#[test]
fn line_break_change_inside_a_block_keeps_the_indents() {
    let text = StringBuilder::build_string(|tb| {
        tb.indented("  ", |tb| tb.newline()?.str("a")?.set_newline("|")?.newline()?.str("b"))
    })
    .unwrap();
    assert_eq!(text, "\n  a|  b");
}

#[test]
fn enumerate_over_nothing_changes_nothing() {
    let calls = Cell::new(0usize);
    let nothing: [u8; 0] = [];
    let builder = StringBuilder::new().str("kept").unwrap();
    let builder = builder
        .enumerate(nothing.iter(), |tb, _, _| {
            calls.set(calls.get() + 1);
            tb.str("x")
        })
        .unwrap();
    assert_eq!(builder.string, "kept");
    assert_eq!(builder.config.newline, "\n");
    assert!(builder.config.indents.is_empty());
    assert_eq!(calls.get(), 0);
}

#[test]
fn enumerate_hands_on_positions_and_items_in_order() {
    let words = ["a", "b", "c"];
    let text = StringBuilder::build_string(|tb| {
        tb.enumerate(words.iter(), |tb, i, word| tb.display(&i)?.char(':')?.str(word)?.char(' '))
    })
    .unwrap();
    assert_eq!(text, "0:a 1:b 2:c ");
}

#[test]
fn enumerate_stops_at_the_first_failure() {
    let calls = Cell::new(0usize);
    let numbers = [0, 1, 2, 3, 4];
    let result = StringBuilder::new().enumerate(numbers.iter(), |tb, i, _| {
        calls.set(calls.get() + 1);
        if i == 2 {
            Err(TextError::IndexOutOfRange(i))
        } else {
            tb.str("x")
        }
    });
    assert!(matches!(result, Err(TextError::IndexOutOfRange(2))));
    assert_eq!(calls.get(), 3);
}

fn delimiter_calls(n: usize) -> (usize, usize, String) {
    let delimiters = Cell::new(0usize);
    let items = Cell::new(0usize);
    let numbers: Vec<usize> = (0..n).collect();
    let text = StringBuilder::build_string(|tb| {
        tb.delimit(
            |tb| {
                delimiters.set(delimiters.get() + 1);
                tb.char(',')
            },
            numbers.iter(),
            |tb, i, item| {
                assert_eq!(i, *item);
                items.set(items.get() + 1);
                tb.display(item)
            },
        )
    })
    .unwrap();
    (delimiters.get(), items.get(), text)
}

#[test]
fn delimit_calls_the_delimiter_between_items_only() {
    assert_eq!(delimiter_calls(0), (0, 0, String::from("")));
    assert_eq!(delimiter_calls(1), (0, 1, String::from("0")));
    assert_eq!(delimiter_calls(2), (1, 2, String::from("0,1")));
    assert_eq!(delimiter_calls(3), (2, 3, String::from("0,1,2")));
    assert_eq!(delimiter_calls(7), (6, 7, String::from("0,1,2,3,4,5,6")));
}

#[test]
fn delimit_stops_when_the_delimiter_fails() {
    let items = Cell::new(0usize);
    let numbers = [0, 1, 2];
    let result = StringBuilder::new().delimit(
        |_| Err(TextError::IndexOutOfRange(9)),
        numbers.iter(),
        |tb, _, item| {
            items.set(items.get() + 1);
            tb.display(item)
        },
    );
    assert!(matches!(result, Err(TextError::IndexOutOfRange(9))));
    assert_eq!(items.get(), 1);
}

#[test]
fn delimit_stops_when_an_item_fails() {
    let delimiters = Cell::new(0usize);
    let numbers = [0, 1, 2, 3];
    let result = StringBuilder::new().delimit(
        |tb| {
            delimiters.set(delimiters.get() + 1);
            tb.char(',')
        },
        numbers.iter(),
        |tb, i, item| {
            if i == 2 {
                Err(TextError::IndexOutOfRange(i))
            } else {
                tb.display(item)
            }
        },
    );
    assert!(matches!(result, Err(TextError::IndexOutOfRange(2))));
    assert_eq!(delimiters.get(), 2);
}

#[test]
fn append_delimit_on_a_string() {
    let numbers = [0, 1, 2, 3, 4];
    let text = StringBuilder::build_string(|tb| {
        tb.append_delimit(", ", numbers.iter(), |tb, i, item| {
            tb.display(&i)?.char(':')?.display(item)
        })
    })
    .unwrap();
    assert_eq!(text, "0:0, 1:1, 2:2, 3:3, 4:4");

    let text = StringBuilder::build_string(|tb| {
        tb.append_delimit(NotAppendable, numbers.iter(), |tb, _, item| tb.display(item))
    })
    .unwrap();
    assert_eq!(text, "01234");

    let none: [u8; 0] = [];
    let text = StringBuilder::build_string(|tb| {
        tb.append_delimit(';', none.iter(), |tb, _, item| tb.display(item))
    })
    .unwrap();
    assert_eq!(text, "");

    let one = [7];
    let text = StringBuilder::build_string(|tb| {
        tb.append_delimit(';', one.iter(), |tb, _, item| tb.display(item))
    })
    .unwrap();
    assert_eq!(text, "7");
}

#[test]
fn append_delimit_stops_at_the_first_failure() {
    let numbers = [0, 1, 2];
    let result = StringBuilder::new().append_delimit(',', numbers.iter(), |tb, i, item| {
        if i == 1 {
            Err(TextError::IndexOutOfRange(i))
        } else {
            tb.display(item)
        }
    });
    assert!(matches!(result, Err(TextError::IndexOutOfRange(1))));
}

#[test]
fn utf8_bytes_writes_the_decoded_text() {
    let text = "häßlich → 💙";
    let built = StringBuilder::build_string(|tb| tb.str("[")?.utf8_bytes(text.as_bytes())?.str("]"))
        .unwrap();
    assert_eq!(built, "[häßlich → 💙]");

    let built = StringBuilder::build_string(|tb| tb.utf8_bytes(&[])).unwrap();
    assert_eq!(built, "");

    let built = StringBuilder::build_string(|tb| tb.utf8_bytes(b"0123456789")).unwrap();
    assert_eq!(built, "0123456789");
}

#[test]
fn utf8_bytes_refuses_what_is_no_utf8() {
    let overlong: [u8; 6] = [0xFC, 0x80, 0x80, 0x80, 0x80, 0xAF];
    let result = StringBuilder::new().str("a").unwrap().utf8_bytes(&overlong);
    assert!(matches!(result, Err(TextError::Utf8Error(_))));

    let cut_short = [b'a', 0xE2, 0x86];
    match StringBuilder::new().utf8_bytes(&cut_short) {
        Err(TextError::Utf8Error(err)) => assert_eq!(err.valid_up_to(), 1),
        _ => panic!("bytes that end inside a character are no text"),
    }

    let surrogate = [0xED, 0xA0, 0x80];
    assert!(matches!(
        StringBuilder::build_string(|tb| tb.utf8_bytes(&surrogate)),
        Err(TextError::Utf8Error(_))
    ));
}

#[test]
fn value_writes_what_the_transform_makes() {
    let point = Point { x: 3, y: -4 };
    let text = StringBuilder::build_string(|tb| {
        tb.value(&point, |pt: &Point| format!("({},{})", pt.x, pt.y))
    })
    .unwrap();
    assert_eq!(text, "(3,-4)");

    let text =
        StringBuilder::build_string(|tb| tb.value(&point, |pt: &Point| if pt.y < 0 { '-' } else { '+' }))
            .unwrap();
    assert_eq!(text, "-");
}

#[test]
fn display_and_debug_differ() {
    let text = StringBuilder::build_string(|tb| tb.display(&"a\"b")?.char(' ')?.debug(&"a\"b"))
        .unwrap();
    assert_eq!(text, "a\"b \"a\\\"b\"");
}

#[test]
fn failed_formatting_is_a_formatting_error() {
    let result = StringBuilder::new().str("a").unwrap().display(&Broken);
    assert!(matches!(result, Err(TextError::Formatting(_))));

    let result = StringBuilder::build_string(|tb| tb.str("a")?.display(&Broken)?.str("b"));
    assert!(matches!(result, Err(TextError::Formatting(_))));
}

#[test]
fn formatted_text_hands_on_text_and_failure() {
    let builder = StringBuilder::new().str("a").unwrap();
    let builder = builder.formatted_text(Ok(String::from("bc"))).unwrap();
    assert_eq!(builder.string, "abc");
    assert!(matches!(
        builder.formatted_text(Err(std::fmt::Error)),
        Err(TextError::Formatting(_))
    ));
}

#[test]
fn failed_build_returns_no_text() {
    let result = StringBuilder::build_string(|tb| {
        tb.str("written before the failure")?;
        Err(TextError::IndexOutOfRange(3))
    });
    assert!(matches!(result, Err(TextError::IndexOutOfRange(3))));
}

#[test]
fn not_appendable_writes_nothing() {
    let text = StringBuilder::build_string(|tb| {
        tb.append(NotAppendable)?
            .str("a")?
            .append(NotAppendable::default())?
            .indented(NotAppendable, |tb| tb.newline()?.str("b"))
    })
    .unwrap();
    assert_eq!(text, "a\nb");
}
