use gremlin_types::enums::{Direction, T};
use gremlin_types::error::DecodeError;
use gremlin_types::value::MapKeys;

#[test]
fn map_keys_as_text() {
    assert_eq!(MapKeys::String("name".to_string()).try_into_string(), Ok("name".to_string()));
    assert_eq!(
        MapKeys::Uuid(0x550e8400e29b41d4a716446655440000).try_into_string(),
        Ok("550e8400-e29b-41d4-a716-446655440000".to_string())
    );
    assert_eq!(MapKeys::T(T::Id).try_into_string(), Ok("id".to_string()));
    assert_eq!(
        MapKeys::Direction(Direction::Out).try_into_string(),
        Ok(Direction::Out.as_str().to_string())
    );
    assert_eq!(MapKeys::Int(1).try_into_string(), Err(DecodeError::NotConvertible));
    assert_eq!(MapKeys::Long(1).try_into_string(), Err(DecodeError::NotConvertible));
}
