use vstd::prelude::*;
use crate::error::DecodeError;

verus! {

/// The type codes of the GraphBinary format: the first byte of every fully qualified value.
#[derive(Debug, Clone, Copy, PartialEq, Eq, Structural)]
pub enum CoreType {
    Custom,
    Int32,
    Long,
    String,
    Date,
    Timestamp,
    Class,
    Double,
    Float,
    List,
    MapType,
    SetType,
    Uuid,
    Edge,
    Path,
    Property,
    Graph,
    Vertex,
    VertexProperty,
    Barrier,
    Binding,
    ByteCode,
    Cardinality,
    Column,
    Direction,
    Operator,
    Order,
    Pick,
    Pop,
    Lambda,
    P,
    Scope,
    T,
    Traverser,
    BigDecimal,
    BigInteger,
    Byte,
    ByteBuffer,
    Short,
    Boolean,
    TextP,
    TraversalStrategy,
    BulkSet,
    Tree,
    Metrics,
    TraversalMetrics,
    Merge,
    Char,
    Duration,
    InetAddress,
    Instant,
    LocalDate,
    LocalDateTime,
    LocalTime,
    MonthDay,
    OffsetDateTime,
    OffsetTime,
    Period,
    Year,
    YearMonth,
    ZonedDateTime,
    ZoneOffset,
    UnspecifiedNullObject,
}

impl CoreType {
    /// The byte that stands for this type.
    pub open spec fn spec_code(self) -> u8 {
        match self {
            CoreType::Custom => 0x00,
            CoreType::Int32 => 0x01,
            CoreType::Long => 0x02,
            CoreType::String => 0x03,
            CoreType::Date => 0x04,
            CoreType::Timestamp => 0x05,
            CoreType::Class => 0x06,
            CoreType::Double => 0x07,
            CoreType::Float => 0x08,
            CoreType::List => 0x09,
            CoreType::MapType => 0x0a,
            CoreType::SetType => 0x0b,
            CoreType::Uuid => 0x0c,
            CoreType::Edge => 0x0d,
            CoreType::Path => 0x0e,
            CoreType::Property => 0x0f,
            CoreType::Graph => 0x10,
            CoreType::Vertex => 0x11,
            CoreType::VertexProperty => 0x12,
            CoreType::Barrier => 0x13,
            CoreType::Binding => 0x14,
            CoreType::ByteCode => 0x15,
            CoreType::Cardinality => 0x16,
            CoreType::Column => 0x17,
            CoreType::Direction => 0x18,
            CoreType::Operator => 0x19,
            CoreType::Order => 0x1a,
            CoreType::Pick => 0x1b,
            CoreType::Pop => 0x1c,
            CoreType::Lambda => 0x1d,
            CoreType::P => 0x1e,
            CoreType::Scope => 0x1f,
            CoreType::T => 0x20,
            CoreType::Traverser => 0x21,
            CoreType::BigDecimal => 0x22,
            CoreType::BigInteger => 0x23,
            CoreType::Byte => 0x24,
            CoreType::ByteBuffer => 0x25,
            CoreType::Short => 0x26,
            CoreType::Boolean => 0x27,
            CoreType::TextP => 0x28,
            CoreType::TraversalStrategy => 0x29,
            CoreType::BulkSet => 0x2a,
            CoreType::Tree => 0x2b,
            CoreType::Metrics => 0x2c,
            CoreType::TraversalMetrics => 0x2d,
            CoreType::Merge => 0x2e,
            CoreType::Char => 0x80,
            CoreType::Duration => 0x81,
            CoreType::InetAddress => 0x82,
            CoreType::Instant => 0x83,
            CoreType::LocalDate => 0x84,
            CoreType::LocalDateTime => 0x85,
            CoreType::LocalTime => 0x86,
            CoreType::MonthDay => 0x87,
            CoreType::OffsetDateTime => 0x88,
            CoreType::OffsetTime => 0x89,
            CoreType::Period => 0x8a,
            CoreType::Year => 0x8b,
            CoreType::YearMonth => 0x8c,
            CoreType::ZonedDateTime => 0x8d,
            CoreType::ZoneOffset => 0x8e,
            CoreType::UnspecifiedNullObject => 0xfe,
        }
    }

    /// The type named by a byte, if any.
    #[verifier::opaque]
    pub open spec fn spec_from_code(b: u8) -> Option<CoreType> {
        if b == 0x00 { Some(CoreType::Custom) }
        else if b == 0x01 { Some(CoreType::Int32) }
        else if b == 0x02 { Some(CoreType::Long) }
        else if b == 0x03 { Some(CoreType::String) }
        else if b == 0x04 { Some(CoreType::Date) }
        else if b == 0x05 { Some(CoreType::Timestamp) }
        else if b == 0x06 { Some(CoreType::Class) }
        else if b == 0x07 { Some(CoreType::Double) }
        else if b == 0x08 { Some(CoreType::Float) }
        else if b == 0x09 { Some(CoreType::List) }
        else if b == 0x0a { Some(CoreType::MapType) }
        else if b == 0x0b { Some(CoreType::SetType) }
        else if b == 0x0c { Some(CoreType::Uuid) }
        else if b == 0x0d { Some(CoreType::Edge) }
        else if b == 0x0e { Some(CoreType::Path) }
        else if b == 0x0f { Some(CoreType::Property) }
        else if b == 0x10 { Some(CoreType::Graph) }
        else if b == 0x11 { Some(CoreType::Vertex) }
        else if b == 0x12 { Some(CoreType::VertexProperty) }
        else if b == 0x13 { Some(CoreType::Barrier) }
        else if b == 0x14 { Some(CoreType::Binding) }
        else if b == 0x15 { Some(CoreType::ByteCode) }
        else if b == 0x16 { Some(CoreType::Cardinality) }
        else if b == 0x17 { Some(CoreType::Column) }
        else if b == 0x18 { Some(CoreType::Direction) }
        else if b == 0x19 { Some(CoreType::Operator) }
        else if b == 0x1a { Some(CoreType::Order) }
        else if b == 0x1b { Some(CoreType::Pick) }
        else if b == 0x1c { Some(CoreType::Pop) }
        else if b == 0x1d { Some(CoreType::Lambda) }
        else if b == 0x1e { Some(CoreType::P) }
        else if b == 0x1f { Some(CoreType::Scope) }
        else if b == 0x20 { Some(CoreType::T) }
        else if b == 0x21 { Some(CoreType::Traverser) }
        else if b == 0x22 { Some(CoreType::BigDecimal) }
        else if b == 0x23 { Some(CoreType::BigInteger) }
        else if b == 0x24 { Some(CoreType::Byte) }
        else if b == 0x25 { Some(CoreType::ByteBuffer) }
        else if b == 0x26 { Some(CoreType::Short) }
        else if b == 0x27 { Some(CoreType::Boolean) }
        else if b == 0x28 { Some(CoreType::TextP) }
        else if b == 0x29 { Some(CoreType::TraversalStrategy) }
        else if b == 0x2a { Some(CoreType::BulkSet) }
        else if b == 0x2b { Some(CoreType::Tree) }
        else if b == 0x2c { Some(CoreType::Metrics) }
        else if b == 0x2d { Some(CoreType::TraversalMetrics) }
        else if b == 0x2e { Some(CoreType::Merge) }
        else if b == 0x80 { Some(CoreType::Char) }
        else if b == 0x81 { Some(CoreType::Duration) }
        else if b == 0x82 { Some(CoreType::InetAddress) }
        else if b == 0x83 { Some(CoreType::Instant) }
        else if b == 0x84 { Some(CoreType::LocalDate) }
        else if b == 0x85 { Some(CoreType::LocalDateTime) }
        else if b == 0x86 { Some(CoreType::LocalTime) }
        else if b == 0x87 { Some(CoreType::MonthDay) }
        else if b == 0x88 { Some(CoreType::OffsetDateTime) }
        else if b == 0x89 { Some(CoreType::OffsetTime) }
        else if b == 0x8a { Some(CoreType::Period) }
        else if b == 0x8b { Some(CoreType::Year) }
        else if b == 0x8c { Some(CoreType::YearMonth) }
        else if b == 0x8d { Some(CoreType::ZonedDateTime) }
        else if b == 0x8e { Some(CoreType::ZoneOffset) }
        else if b == 0xfe { Some(CoreType::UnspecifiedNullObject) }
        else { None }
    }

    /// The byte that stands for this type.
    pub fn code(&self) -> (b: u8)
        ensures
            b == self.spec_code(),
    {
        match self {
            CoreType::Custom => 0x00,
            CoreType::Int32 => 0x01,
            CoreType::Long => 0x02,
            CoreType::String => 0x03,
            CoreType::Date => 0x04,
            CoreType::Timestamp => 0x05,
            CoreType::Class => 0x06,
            CoreType::Double => 0x07,
            CoreType::Float => 0x08,
            CoreType::List => 0x09,
            CoreType::MapType => 0x0a,
            CoreType::SetType => 0x0b,
            CoreType::Uuid => 0x0c,
            CoreType::Edge => 0x0d,
            CoreType::Path => 0x0e,
            CoreType::Property => 0x0f,
            CoreType::Graph => 0x10,
            CoreType::Vertex => 0x11,
            CoreType::VertexProperty => 0x12,
            CoreType::Barrier => 0x13,
            CoreType::Binding => 0x14,
            CoreType::ByteCode => 0x15,
            CoreType::Cardinality => 0x16,
            CoreType::Column => 0x17,
            CoreType::Direction => 0x18,
            CoreType::Operator => 0x19,
            CoreType::Order => 0x1a,
            CoreType::Pick => 0x1b,
            CoreType::Pop => 0x1c,
            CoreType::Lambda => 0x1d,
            CoreType::P => 0x1e,
            CoreType::Scope => 0x1f,
            CoreType::T => 0x20,
            CoreType::Traverser => 0x21,
            CoreType::BigDecimal => 0x22,
            CoreType::BigInteger => 0x23,
            CoreType::Byte => 0x24,
            CoreType::ByteBuffer => 0x25,
            CoreType::Short => 0x26,
            CoreType::Boolean => 0x27,
            CoreType::TextP => 0x28,
            CoreType::TraversalStrategy => 0x29,
            CoreType::BulkSet => 0x2a,
            CoreType::Tree => 0x2b,
            CoreType::Metrics => 0x2c,
            CoreType::TraversalMetrics => 0x2d,
            CoreType::Merge => 0x2e,
            CoreType::Char => 0x80,
            CoreType::Duration => 0x81,
            CoreType::InetAddress => 0x82,
            CoreType::Instant => 0x83,
            CoreType::LocalDate => 0x84,
            CoreType::LocalDateTime => 0x85,
            CoreType::LocalTime => 0x86,
            CoreType::MonthDay => 0x87,
            CoreType::OffsetDateTime => 0x88,
            CoreType::OffsetTime => 0x89,
            CoreType::Period => 0x8a,
            CoreType::Year => 0x8b,
            CoreType::YearMonth => 0x8c,
            CoreType::ZonedDateTime => 0x8d,
            CoreType::ZoneOffset => 0x8e,
            CoreType::UnspecifiedNullObject => 0xfe,
        }
    }

    /// The type named by a byte; fails with `InvalidTypeCode` where the byte names none.
    pub fn try_from_code(b: u8) -> (r: Result<CoreType, DecodeError>)
        ensures
            r == match CoreType::spec_from_code(b) {
                Some(t) => Ok::<CoreType, DecodeError>(t),
                None => Err(DecodeError::InvalidTypeCode),
            },
    {
        proof {
            reveal(CoreType::spec_from_code);
        }
        match b {
            0x00 => Ok(CoreType::Custom),
            0x01 => Ok(CoreType::Int32),
            0x02 => Ok(CoreType::Long),
            0x03 => Ok(CoreType::String),
            0x04 => Ok(CoreType::Date),
            0x05 => Ok(CoreType::Timestamp),
            0x06 => Ok(CoreType::Class),
            0x07 => Ok(CoreType::Double),
            0x08 => Ok(CoreType::Float),
            0x09 => Ok(CoreType::List),
            0x0a => Ok(CoreType::MapType),
            0x0b => Ok(CoreType::SetType),
            0x0c => Ok(CoreType::Uuid),
            0x0d => Ok(CoreType::Edge),
            0x0e => Ok(CoreType::Path),
            0x0f => Ok(CoreType::Property),
            0x10 => Ok(CoreType::Graph),
            0x11 => Ok(CoreType::Vertex),
            0x12 => Ok(CoreType::VertexProperty),
            0x13 => Ok(CoreType::Barrier),
            0x14 => Ok(CoreType::Binding),
            0x15 => Ok(CoreType::ByteCode),
            0x16 => Ok(CoreType::Cardinality),
            0x17 => Ok(CoreType::Column),
            0x18 => Ok(CoreType::Direction),
            0x19 => Ok(CoreType::Operator),
            0x1a => Ok(CoreType::Order),
            0x1b => Ok(CoreType::Pick),
            0x1c => Ok(CoreType::Pop),
            0x1d => Ok(CoreType::Lambda),
            0x1e => Ok(CoreType::P),
            0x1f => Ok(CoreType::Scope),
            0x20 => Ok(CoreType::T),
            0x21 => Ok(CoreType::Traverser),
            0x22 => Ok(CoreType::BigDecimal),
            0x23 => Ok(CoreType::BigInteger),
            0x24 => Ok(CoreType::Byte),
            0x25 => Ok(CoreType::ByteBuffer),
            0x26 => Ok(CoreType::Short),
            0x27 => Ok(CoreType::Boolean),
            0x28 => Ok(CoreType::TextP),
            0x29 => Ok(CoreType::TraversalStrategy),
            0x2a => Ok(CoreType::BulkSet),
            0x2b => Ok(CoreType::Tree),
            0x2c => Ok(CoreType::Metrics),
            0x2d => Ok(CoreType::TraversalMetrics),
            0x2e => Ok(CoreType::Merge),
            0x80 => Ok(CoreType::Char),
            0x81 => Ok(CoreType::Duration),
            0x82 => Ok(CoreType::InetAddress),
            0x83 => Ok(CoreType::Instant),
            0x84 => Ok(CoreType::LocalDate),
            0x85 => Ok(CoreType::LocalDateTime),
            0x86 => Ok(CoreType::LocalTime),
            0x87 => Ok(CoreType::MonthDay),
            0x88 => Ok(CoreType::OffsetDateTime),
            0x89 => Ok(CoreType::OffsetTime),
            0x8a => Ok(CoreType::Period),
            0x8b => Ok(CoreType::Year),
            0x8c => Ok(CoreType::YearMonth),
            0x8d => Ok(CoreType::ZonedDateTime),
            0x8e => Ok(CoreType::ZoneOffset),
            0xfe => Ok(CoreType::UnspecifiedNullObject),
            _ => Err(DecodeError::InvalidTypeCode),
        }
    }
}

/// Every type code names back its type.
pub proof fn lemma_code_from_code(t: CoreType)
    ensures
        CoreType::spec_from_code(t.spec_code()) == Some(t),
{
    reveal(CoreType::spec_from_code);
}

/// A byte that names a type is that type's code: no two types share a code.
pub proof fn lemma_from_code_code(b: u8)
    ensures
        CoreType::spec_from_code(b) matches Some(t) ==> t.spec_code() == b,
{
    reveal(CoreType::spec_from_code);
}

/// The second byte of every fully qualified value: whether a value follows.
#[derive(Debug, Clone, Copy, PartialEq, Eq, Structural)]
pub enum ValueFlag {
    /// A value follows.
    Present,
    /// No value follows.
    Null,
}

impl ValueFlag {
    pub open spec fn spec_byte(self) -> u8 {
        match self {
            ValueFlag::Present => 0x00,
            ValueFlag::Null => 0x01,
        }
    }

    pub open spec fn spec_from_byte(b: u8) -> Option<ValueFlag> {
        if b == 0x00 {
            Some(ValueFlag::Present)
        } else if b == 0x01 {
            Some(ValueFlag::Null)
        } else {
            None
        }
    }

    /// The byte of this flag.
    pub fn to_byte(&self) -> (b: u8)
        ensures
            b == self.spec_byte(),
    {
        match self {
            ValueFlag::Present => 0x00,
            ValueFlag::Null => 0x01,
        }
    }

    /// The flag named by a byte; fails with `InvalidValueFlag` for any byte but 0x00 and 0x01.
    pub fn try_from_byte(b: u8) -> (r: Result<ValueFlag, DecodeError>)
        ensures
            r == match ValueFlag::spec_from_byte(b) {
                Some(f) => Ok::<ValueFlag, DecodeError>(f),
                None => Err(DecodeError::InvalidValueFlag),
            },
    {
        match b {
            0x00 => Ok(ValueFlag::Present),
            0x01 => Ok(ValueFlag::Null),
            _ => Err(DecodeError::InvalidValueFlag),
        }
    }
}

/// A flag read back from its byte is the same flag.
pub proof fn lemma_value_flag_roundtrip(f: ValueFlag)
    ensures
        ValueFlag::spec_from_byte(f.spec_byte()) == Some(f),
{
}

} // verus!
