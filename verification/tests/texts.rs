use gremlin_types::extended::{MonthDay, Year, YearMonth};
use gremlin_types::id::ElementId;
use gremlin_types::structure::{ByteBuffer, Lambda};
use gremlin_types::value::MapKeys;

#[test]
fn year_text() {
    assert_eq!(Year(2024).to_string(), "2024");
    assert_eq!(Year(-5).to_string(), "-5");
    assert_eq!(Year(0).to_string(), "0");
}

#[test]
fn year_month_text() {
    assert_eq!(YearMonth { year: 2024, month: 3 }.to_string(), "2024-3");
    assert_eq!(YearMonth { year: -44, month: 12 }.to_string(), "-44-12");
}

#[test]
fn month_day_text() {
    assert_eq!(MonthDay { month: 3, day: 7 }.to_string(), "--3-7");
    assert_eq!(MonthDay { month: 12, day: 31 }.to_string(), "--12-31");
}

#[test]
fn element_id_and_key_text() {
    let u: u128 = 0x123e4567e89b12d3a456426614174000;
    assert_eq!(ElementId::Uuid(u).to_string(), "123e4567-e89b-12d3-a456-426614174000");
    assert_eq!(ElementId::Int(-7).to_string(), "-7");
    assert_eq!(ElementId::Long(i64::MIN).to_string(), "-9223372036854775808");
    assert_eq!(ElementId::String("v1".to_string()).to_string(), "v1");
    assert_eq!(MapKeys::Uuid(u).to_string(), "123e4567-e89b-12d3-a456-426614174000");
    assert_eq!(MapKeys::Long(42).to_string(), "42");
    assert_eq!(MapKeys::Int(0).to_string(), "0");
    assert_eq!(MapKeys::String("name".to_string()).to_string(), "name");
}

#[test]
fn byte_buffer_and_lambda_text() {
    assert_eq!(ByteBuffer::new(&[1, 255, 0]).to_string(), "[1,255,0,]");
    assert_eq!(ByteBuffer::new(&[]).to_string(), "[]");
    let l = Lambda {
        language: "gremlin-groovy".to_string(),
        script: "it.get()".to_string(),
        arguments_length: 1,
    };
    assert_eq!(l.to_string(), "(gremlin-groovy),(it.get()),args_len:1");
    let l = Lambda { language: "é".to_string(), script: "x → y".to_string(), arguments_length: -2 };
    assert_eq!(l.to_string(), "(é),(x → y),args_len:-2");
}
