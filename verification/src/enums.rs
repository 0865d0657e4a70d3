use vstd::prelude::*;
use crate::codec::{decode_fq, encode_fq, fq_bytes, lemma_fq_roundtrip, parse_fq, Codec, Decode, Encode, Parsed, PartialDecode, PartialEncode};
use crate::core_type::CoreType;
use crate::error::DecodeError;
use crate::primitives::{lemma_fq_string_roundtrip, lemma_utf8_len_bound, partial_encode_str, str_eq, string_partial_bytes, string_wf};

verus! {

/// Barrier tokens of the Gremlin language.
#[derive(Debug, Clone, Copy, PartialEq, Eq, Hash, PartialOrd, Ord, Structural)]
pub enum Barrier {
    NormSack,
}

impl DeepView for Barrier {
    type V = Barrier;

    open spec fn deep_view(&self) -> Barrier {
        *self
    }
}

impl Barrier {
    /// The name of the element in the Gremlin language.
    pub open spec fn spec_name(self) -> Seq<char> {
        match self {
            Barrier::NormSack => "normSack"@,
        }
    }

    /// The element with a given name, if any.
    pub open spec fn spec_from_name(s: Seq<char>) -> Option<Barrier> {
        if s == "normSack"@ {
            Some(Barrier::NormSack)
        } else {
            None
        }
    }

    /// The name of the element in the Gremlin language.
    pub fn as_str(&self) -> (r: &'static str)
        ensures
            r@ == self.spec_name(),
    {
        match self {
            Barrier::NormSack => "normSack",
        }
    }

    /// The element named by a text; `UnknownEnumValue` for any other text.
    pub fn try_from_str(s: &str) -> (r: Result<Barrier, DecodeError>)
        ensures
            r == match Barrier::spec_from_name(s@) {
                Some(x) => Ok::<Barrier, DecodeError>(x),
                None => Err(DecodeError::UnknownEnumValue),
            },
    {
        if str_eq(s, "normSack") {
            return Ok(Barrier::NormSack);
        }
        Err(DecodeError::UnknownEnumValue)
    }
}

/// Every element is named back by its name, and its name fits a length prefix.
pub proof fn lemma_barrier_names(x: Barrier)
    ensures
        Barrier::spec_from_name(x.spec_name()) == Some(x),
        string_wf(x.spec_name()),
{
    reveal_strlit("normSack");
    lemma_utf8_len_bound(x.spec_name());
}

/// Reads an element as the fully qualified text of its name.
pub open spec fn parse_barrier(s: Seq<u8>) -> Parsed<Barrier> {
    match parse_fq::<String>(s) {
        Parsed::Done(cs, n) => match Barrier::spec_from_name(cs) {
            Some(x) => Parsed::Done(x, n),
            None => Parsed::Fail(DecodeError::UnknownEnumValue),
        },
        Parsed::Fail(e) => Parsed::Fail(e),
        Parsed::Abort => Parsed::Abort,
    }
}


impl Encode for Barrier {
    open spec fn spec_bytes(&self) -> Seq<u8> {
        fq_bytes(0x13u8, fq_bytes(0x03u8, string_partial_bytes(self.spec_name())))
    }

    fn encode(&self, out: &mut Vec<u8>) {
        encode_fq(self, out);
    }
}

impl PartialEncode for Barrier {
    open spec fn spec_type_code() -> u8 {
        0x13u8
    }

    open spec fn spec_partial_bytes(&self) -> Seq<u8> {
        fq_bytes(0x03u8, string_partial_bytes(self.spec_name()))
    }

    fn type_code() -> (code: u8) {
        CoreType::Barrier.code()
    }

    fn partial_encode(&self, out: &mut Vec<u8>) {
        let name = self.as_str();
        out.push(0x03u8);
        out.push(0x00u8);
        partial_encode_str(name, out);
        assert(out@ =~= old(out)@ + fq_bytes(0x03u8, string_partial_bytes(self.spec_name())));
    }
}

impl Decode for Barrier {
    open spec fn spec_parse(s: Seq<u8>) -> Parsed<Barrier> {
        parse_fq::<Barrier>(s)
    }

    fn decode(buf: &[u8], pos: usize) -> (r: Result<(Barrier, usize), DecodeError>) {
        decode_fq(buf, pos)
    }
}

impl PartialDecode for Barrier {
    open spec fn spec_expected_type_code() -> u8 {
        0x13u8
    }

    open spec fn spec_parse_partial(s: Seq<u8>) -> Parsed<Barrier> {
        parse_barrier(s)
    }

    fn expected_type_code() -> (code: u8) {
        CoreType::Barrier.code()
    }

    fn partial_decode(buf: &[u8], pos: usize) -> (r: Result<(Barrier, usize), DecodeError>) {
        match decode_fq::<String>(buf, pos) {
            Ok((name, p)) => match Barrier::try_from_str(name.as_str()) {
                Ok(x) => Ok((x, p)),
                Err(e) => Err(e),
            },
            Err(e) => Err(e),
        }
    }
}

impl Codec for Barrier {
    open spec fn spec_wf(&self) -> bool {
        true
    }

    proof fn lemma_roundtrip(&self, rest: Seq<u8>) {
        lemma_barrier_names(*self);
        lemma_fq_string_roundtrip(self.spec_name(), rest);
        lemma_fq_roundtrip(self, rest);
    }
}

/// How many values a vertex property key holds.
#[derive(Debug, Clone, Copy, PartialEq, Eq, Hash, PartialOrd, Ord, Structural)]
pub enum Cardinality {
    List,
    UniqueSet,
    Single,
}

impl DeepView for Cardinality {
    type V = Cardinality;

    open spec fn deep_view(&self) -> Cardinality {
        *self
    }
}

impl Cardinality {
    /// The name of the element in the Gremlin language.
    pub open spec fn spec_name(self) -> Seq<char> {
        match self {
            Cardinality::List => "list"@,
            Cardinality::UniqueSet => "set"@,
            Cardinality::Single => "single"@,
        }
    }

    /// The element with a given name, if any.
    pub open spec fn spec_from_name(s: Seq<char>) -> Option<Cardinality> {
        if s == "list"@ {
            Some(Cardinality::List)
        } else if s == "set"@ {
            Some(Cardinality::UniqueSet)
        } else if s == "single"@ {
            Some(Cardinality::Single)
        } else {
            None
        }
    }

    /// The name of the element in the Gremlin language.
    pub fn as_str(&self) -> (r: &'static str)
        ensures
            r@ == self.spec_name(),
    {
        match self {
            Cardinality::List => "list",
            Cardinality::UniqueSet => "set",
            Cardinality::Single => "single",
        }
    }

    /// The element named by a text; `UnknownEnumValue` for any other text.
    pub fn try_from_str(s: &str) -> (r: Result<Cardinality, DecodeError>)
        ensures
            r == match Cardinality::spec_from_name(s@) {
                Some(x) => Ok::<Cardinality, DecodeError>(x),
                None => Err(DecodeError::UnknownEnumValue),
            },
    {
        if str_eq(s, "list") {
            return Ok(Cardinality::List);
        }
        if str_eq(s, "set") {
            return Ok(Cardinality::UniqueSet);
        }
        if str_eq(s, "single") {
            return Ok(Cardinality::Single);
        }
        Err(DecodeError::UnknownEnumValue)
    }
}

/// Every element is named back by its name, and its name fits a length prefix.
pub proof fn lemma_cardinality_names(x: Cardinality)
    ensures
        Cardinality::spec_from_name(x.spec_name()) == Some(x),
        string_wf(x.spec_name()),
{
    reveal_strlit("list");
    reveal_strlit("set");
    reveal_strlit("single");
    lemma_utf8_len_bound(x.spec_name());
}

/// Reads an element as the fully qualified text of its name.
pub open spec fn parse_cardinality(s: Seq<u8>) -> Parsed<Cardinality> {
    match parse_fq::<String>(s) {
        Parsed::Done(cs, n) => match Cardinality::spec_from_name(cs) {
            Some(x) => Parsed::Done(x, n),
            None => Parsed::Fail(DecodeError::UnknownEnumValue),
        },
        Parsed::Fail(e) => Parsed::Fail(e),
        Parsed::Abort => Parsed::Abort,
    }
}


impl Encode for Cardinality {
    open spec fn spec_bytes(&self) -> Seq<u8> {
        fq_bytes(0x16u8, fq_bytes(0x03u8, string_partial_bytes(self.spec_name())))
    }

    fn encode(&self, out: &mut Vec<u8>) {
        encode_fq(self, out);
    }
}

impl PartialEncode for Cardinality {
    open spec fn spec_type_code() -> u8 {
        0x16u8
    }

    open spec fn spec_partial_bytes(&self) -> Seq<u8> {
        fq_bytes(0x03u8, string_partial_bytes(self.spec_name()))
    }

    fn type_code() -> (code: u8) {
        CoreType::Cardinality.code()
    }

    fn partial_encode(&self, out: &mut Vec<u8>) {
        let name = self.as_str();
        out.push(0x03u8);
        out.push(0x00u8);
        partial_encode_str(name, out);
        assert(out@ =~= old(out)@ + fq_bytes(0x03u8, string_partial_bytes(self.spec_name())));
    }
}

impl Decode for Cardinality {
    open spec fn spec_parse(s: Seq<u8>) -> Parsed<Cardinality> {
        parse_fq::<Cardinality>(s)
    }

    fn decode(buf: &[u8], pos: usize) -> (r: Result<(Cardinality, usize), DecodeError>) {
        decode_fq(buf, pos)
    }
}

impl PartialDecode for Cardinality {
    open spec fn spec_expected_type_code() -> u8 {
        0x16u8
    }

    open spec fn spec_parse_partial(s: Seq<u8>) -> Parsed<Cardinality> {
        parse_cardinality(s)
    }

    fn expected_type_code() -> (code: u8) {
        CoreType::Cardinality.code()
    }

    fn partial_decode(buf: &[u8], pos: usize) -> (r: Result<(Cardinality, usize), DecodeError>) {
        match decode_fq::<String>(buf, pos) {
            Ok((name, p)) => match Cardinality::try_from_str(name.as_str()) {
                Ok(x) => Ok((x, p)),
                Err(e) => Err(e),
            },
            Err(e) => Err(e),
        }
    }
}

impl Codec for Cardinality {
    open spec fn spec_wf(&self) -> bool {
        true
    }

    proof fn lemma_roundtrip(&self, rest: Seq<u8>) {
        lemma_cardinality_names(*self);
        lemma_fq_string_roundtrip(self.spec_name(), rest);
        lemma_fq_roundtrip(self, rest);
    }
}

/// The keys or the values of a map entry.
#[derive(Debug, Clone, Copy, PartialEq, Eq, Hash, PartialOrd, Ord, Structural)]
pub enum Column {
    Keys,
    Values,
}

impl DeepView for Column {
    type V = Column;

    open spec fn deep_view(&self) -> Column {
        *self
    }
}

impl Column {
    /// The name of the element in the Gremlin language.
    pub open spec fn spec_name(self) -> Seq<char> {
        match self {
            Column::Keys => "keys"@,
            Column::Values => "values"@,
        }
    }

    /// The element with a given name, if any.
    pub open spec fn spec_from_name(s: Seq<char>) -> Option<Column> {
        if s == "keys"@ {
            Some(Column::Keys)
        } else if s == "values"@ {
            Some(Column::Values)
        } else {
            None
        }
    }

    /// The name of the element in the Gremlin language.
    pub fn as_str(&self) -> (r: &'static str)
        ensures
            r@ == self.spec_name(),
    {
        match self {
            Column::Keys => "keys",
            Column::Values => "values",
        }
    }

    /// The element named by a text; `UnknownEnumValue` for any other text.
    pub fn try_from_str(s: &str) -> (r: Result<Column, DecodeError>)
        ensures
            r == match Column::spec_from_name(s@) {
                Some(x) => Ok::<Column, DecodeError>(x),
                None => Err(DecodeError::UnknownEnumValue),
            },
    {
        if str_eq(s, "keys") {
            return Ok(Column::Keys);
        }
        if str_eq(s, "values") {
            return Ok(Column::Values);
        }
        Err(DecodeError::UnknownEnumValue)
    }
}

/// Every element is named back by its name, and its name fits a length prefix.
pub proof fn lemma_column_names(x: Column)
    ensures
        Column::spec_from_name(x.spec_name()) == Some(x),
        string_wf(x.spec_name()),
{
    reveal_strlit("keys");
    reveal_strlit("values");
    lemma_utf8_len_bound(x.spec_name());
}

/// Reads an element as the fully qualified text of its name.
pub open spec fn parse_column(s: Seq<u8>) -> Parsed<Column> {
    match parse_fq::<String>(s) {
        Parsed::Done(cs, n) => match Column::spec_from_name(cs) {
            Some(x) => Parsed::Done(x, n),
            None => Parsed::Fail(DecodeError::UnknownEnumValue),
        },
        Parsed::Fail(e) => Parsed::Fail(e),
        Parsed::Abort => Parsed::Abort,
    }
}


impl Encode for Column {
    open spec fn spec_bytes(&self) -> Seq<u8> {
        fq_bytes(0x17u8, fq_bytes(0x03u8, string_partial_bytes(self.spec_name())))
    }

    fn encode(&self, out: &mut Vec<u8>) {
        encode_fq(self, out);
    }
}

impl PartialEncode for Column {
    open spec fn spec_type_code() -> u8 {
        0x17u8
    }

    open spec fn spec_partial_bytes(&self) -> Seq<u8> {
        fq_bytes(0x03u8, string_partial_bytes(self.spec_name()))
    }

    fn type_code() -> (code: u8) {
        CoreType::Column.code()
    }

    fn partial_encode(&self, out: &mut Vec<u8>) {
        let name = self.as_str();
        out.push(0x03u8);
        out.push(0x00u8);
        partial_encode_str(name, out);
        assert(out@ =~= old(out)@ + fq_bytes(0x03u8, string_partial_bytes(self.spec_name())));
    }
}

impl Decode for Column {
    open spec fn spec_parse(s: Seq<u8>) -> Parsed<Column> {
        parse_fq::<Column>(s)
    }

    fn decode(buf: &[u8], pos: usize) -> (r: Result<(Column, usize), DecodeError>) {
        decode_fq(buf, pos)
    }
}

impl PartialDecode for Column {
    open spec fn spec_expected_type_code() -> u8 {
        0x17u8
    }

    open spec fn spec_parse_partial(s: Seq<u8>) -> Parsed<Column> {
        parse_column(s)
    }

    fn expected_type_code() -> (code: u8) {
        CoreType::Column.code()
    }

    fn partial_decode(buf: &[u8], pos: usize) -> (r: Result<(Column, usize), DecodeError>) {
        match decode_fq::<String>(buf, pos) {
            Ok((name, p)) => match Column::try_from_str(name.as_str()) {
                Ok(x) => Ok((x, p)),
                Err(e) => Err(e),
            },
            Err(e) => Err(e),
        }
    }
}

impl Codec for Column {
    open spec fn spec_wf(&self) -> bool {
        true
    }

    proof fn lemma_roundtrip(&self, rest: Seq<u8>) {
        lemma_column_names(*self);
        lemma_fq_string_roundtrip(self.spec_name(), rest);
        lemma_fq_roundtrip(self, rest);
    }
}

/// The direction of an edge relative to a vertex.
#[derive(Debug, Clone, Copy, PartialEq, Eq, Hash, PartialOrd, Ord, Structural)]
pub enum Direction {
    Both,
    In,
    Out,
}

impl DeepView for Direction {
    type V = Direction;

    open spec fn deep_view(&self) -> Direction {
        *self
    }
}

impl Direction {
    /// The name of the element in the Gremlin language.
    pub open spec fn spec_name(self) -> Seq<char> {
        match self {
            Direction::Both => "BOTH"@,
            Direction::In => "IN"@,
            Direction::Out => "OUT"@,
        }
    }

    /// The element with a given name, if any.
    pub open spec fn spec_from_name(s: Seq<char>) -> Option<Direction> {
        if s == "BOTH"@ {
            Some(Direction::Both)
        } else if s == "IN"@ {
            Some(Direction::In)
        } else if s == "OUT"@ {
            Some(Direction::Out)
        } else {
            None
        }
    }

    /// The name of the element in the Gremlin language.
    pub fn as_str(&self) -> (r: &'static str)
        ensures
            r@ == self.spec_name(),
    {
        match self {
            Direction::Both => "BOTH",
            Direction::In => "IN",
            Direction::Out => "OUT",
        }
    }

    /// The element named by a text; `UnknownEnumValue` for any other text.
    pub fn try_from_str(s: &str) -> (r: Result<Direction, DecodeError>)
        ensures
            r == match Direction::spec_from_name(s@) {
                Some(x) => Ok::<Direction, DecodeError>(x),
                None => Err(DecodeError::UnknownEnumValue),
            },
    {
        if str_eq(s, "BOTH") {
            return Ok(Direction::Both);
        }
        if str_eq(s, "IN") {
            return Ok(Direction::In);
        }
        if str_eq(s, "OUT") {
            return Ok(Direction::Out);
        }
        Err(DecodeError::UnknownEnumValue)
    }
}

/// Every element is named back by its name, and its name fits a length prefix.
pub proof fn lemma_direction_names(x: Direction)
    ensures
        Direction::spec_from_name(x.spec_name()) == Some(x),
        string_wf(x.spec_name()),
{
    reveal_strlit("BOTH");
    reveal_strlit("IN");
    reveal_strlit("OUT");
    lemma_utf8_len_bound(x.spec_name());
}

/// Reads an element as the fully qualified text of its name.
pub open spec fn parse_direction(s: Seq<u8>) -> Parsed<Direction> {
    match parse_fq::<String>(s) {
        Parsed::Done(cs, n) => match Direction::spec_from_name(cs) {
            Some(x) => Parsed::Done(x, n),
            None => Parsed::Fail(DecodeError::UnknownEnumValue),
        },
        Parsed::Fail(e) => Parsed::Fail(e),
        Parsed::Abort => Parsed::Abort,
    }
}


impl Encode for Direction {
    open spec fn spec_bytes(&self) -> Seq<u8> {
        fq_bytes(0x18u8, fq_bytes(0x03u8, string_partial_bytes(self.spec_name())))
    }

    fn encode(&self, out: &mut Vec<u8>) {
        encode_fq(self, out);
    }
}

impl PartialEncode for Direction {
    open spec fn spec_type_code() -> u8 {
        0x18u8
    }

    open spec fn spec_partial_bytes(&self) -> Seq<u8> {
        fq_bytes(0x03u8, string_partial_bytes(self.spec_name()))
    }

    fn type_code() -> (code: u8) {
        CoreType::Direction.code()
    }

    fn partial_encode(&self, out: &mut Vec<u8>) {
        let name = self.as_str();
        out.push(0x03u8);
        out.push(0x00u8);
        partial_encode_str(name, out);
        assert(out@ =~= old(out)@ + fq_bytes(0x03u8, string_partial_bytes(self.spec_name())));
    }
}

impl Decode for Direction {
    open spec fn spec_parse(s: Seq<u8>) -> Parsed<Direction> {
        parse_fq::<Direction>(s)
    }

    fn decode(buf: &[u8], pos: usize) -> (r: Result<(Direction, usize), DecodeError>) {
        decode_fq(buf, pos)
    }
}

impl PartialDecode for Direction {
    open spec fn spec_expected_type_code() -> u8 {
        0x18u8
    }

    open spec fn spec_parse_partial(s: Seq<u8>) -> Parsed<Direction> {
        parse_direction(s)
    }

    fn expected_type_code() -> (code: u8) {
        CoreType::Direction.code()
    }

    fn partial_decode(buf: &[u8], pos: usize) -> (r: Result<(Direction, usize), DecodeError>) {
        match decode_fq::<String>(buf, pos) {
            Ok((name, p)) => match Direction::try_from_str(name.as_str()) {
                Ok(x) => Ok((x, p)),
                Err(e) => Err(e),
            },
            Err(e) => Err(e),
        }
    }
}

impl Codec for Direction {
    open spec fn spec_wf(&self) -> bool {
        true
    }

    proof fn lemma_roundtrip(&self, rest: Seq<u8>) {
        lemma_direction_names(*self);
        lemma_fq_string_roundtrip(self.spec_name(), rest);
        lemma_fq_roundtrip(self, rest);
    }
}

/// Reduction operators of the `sack` and `fold` steps.
#[derive(Debug, Clone, Copy, PartialEq, Eq, Hash, PartialOrd, Ord, Structural)]
pub enum Operator {
    AddAll,
    And,
    Assign,
    Div,
    Max,
    Min,
    Minus,
    Mult,
    Or,
    Sum,
    SumLong,
}

impl DeepView for Operator {
    type V = Operator;

    open spec fn deep_view(&self) -> Operator {
        *self
    }
}

impl Operator {
    /// The name of the element in the Gremlin language.
    pub open spec fn spec_name(self) -> Seq<char> {
        match self {
            Operator::AddAll => "addAll"@,
            Operator::And => "and"@,
            Operator::Assign => "assign"@,
            Operator::Div => "div"@,
            Operator::Max => "max"@,
            Operator::Min => "min"@,
            Operator::Minus => "minus"@,
            Operator::Mult => "mult"@,
            Operator::Or => "or"@,
            Operator::Sum => "sum"@,
            Operator::SumLong => "sumLong"@,
        }
    }

    /// The element with a given name, if any.
    pub open spec fn spec_from_name(s: Seq<char>) -> Option<Operator> {
        if s == "addAll"@ {
            Some(Operator::AddAll)
        } else if s == "and"@ {
            Some(Operator::And)
        } else if s == "assign"@ {
            Some(Operator::Assign)
        } else if s == "div"@ {
            Some(Operator::Div)
        } else if s == "max"@ {
            Some(Operator::Max)
        } else if s == "min"@ {
            Some(Operator::Min)
        } else if s == "minus"@ {
            Some(Operator::Minus)
        } else if s == "mult"@ {
            Some(Operator::Mult)
        } else if s == "or"@ {
            Some(Operator::Or)
        } else if s == "sum"@ {
            Some(Operator::Sum)
        } else if s == "sumLong"@ {
            Some(Operator::SumLong)
        } else {
            None
        }
    }

    /// The name of the element in the Gremlin language.
    pub fn as_str(&self) -> (r: &'static str)
        ensures
            r@ == self.spec_name(),
    {
        match self {
            Operator::AddAll => "addAll",
            Operator::And => "and",
            Operator::Assign => "assign",
            Operator::Div => "div",
            Operator::Max => "max",
            Operator::Min => "min",
            Operator::Minus => "minus",
            Operator::Mult => "mult",
            Operator::Or => "or",
            Operator::Sum => "sum",
            Operator::SumLong => "sumLong",
        }
    }

    /// The element named by a text; `UnknownEnumValue` for any other text.
    pub fn try_from_str(s: &str) -> (r: Result<Operator, DecodeError>)
        ensures
            r == match Operator::spec_from_name(s@) {
                Some(x) => Ok::<Operator, DecodeError>(x),
                None => Err(DecodeError::UnknownEnumValue),
            },
    {
        if str_eq(s, "addAll") {
            return Ok(Operator::AddAll);
        }
        if str_eq(s, "and") {
            return Ok(Operator::And);
        }
        if str_eq(s, "assign") {
            return Ok(Operator::Assign);
        }
        if str_eq(s, "div") {
            return Ok(Operator::Div);
        }
        if str_eq(s, "max") {
            return Ok(Operator::Max);
        }
        if str_eq(s, "min") {
            return Ok(Operator::Min);
        }
        if str_eq(s, "minus") {
            return Ok(Operator::Minus);
        }
        if str_eq(s, "mult") {
            return Ok(Operator::Mult);
        }
        if str_eq(s, "or") {
            return Ok(Operator::Or);
        }
        if str_eq(s, "sum") {
            return Ok(Operator::Sum);
        }
        if str_eq(s, "sumLong") {
            return Ok(Operator::SumLong);
        }
        Err(DecodeError::UnknownEnumValue)
    }
}

/// Every element is named back by its name, and its name fits a length prefix.
pub proof fn lemma_operator_names(x: Operator)
    ensures
        Operator::spec_from_name(x.spec_name()) == Some(x),
        string_wf(x.spec_name()),
{
    reveal_strlit("addAll");
    reveal_strlit("and");
    reveal_strlit("assign");
    reveal_strlit("div");
    reveal_strlit("max");
    reveal_strlit("min");
    reveal_strlit("minus");
    reveal_strlit("mult");
    reveal_strlit("or");
    reveal_strlit("sum");
    reveal_strlit("sumLong");
    match x {
        Operator::AddAll => {},
        Operator::And => {
            assert("and"@[1] != "addAll"@[1]);
        },
        Operator::Assign => {
            assert("assign"@[1] != "addAll"@[1]);
            assert("assign"@[1] != "and"@[1]);
        },
        Operator::Div => {
            assert("div"@[0] != "addAll"@[0]);
            assert("div"@[0] != "and"@[0]);
            assert("div"@[0] != "assign"@[0]);
        },
        Operator::Max => {
            assert("max"@[0] != "addAll"@[0]);
            assert("max"@[0] != "and"@[0]);
            assert("max"@[0] != "assign"@[0]);
            assert("max"@[0] != "div"@[0]);
        },
        Operator::Min => {
            assert("min"@[0] != "addAll"@[0]);
            assert("min"@[0] != "and"@[0]);
            assert("min"@[0] != "assign"@[0]);
            assert("min"@[0] != "div"@[0]);
            assert("min"@[1] != "max"@[1]);
        },
        Operator::Minus => {
            assert("minus"@[0] != "addAll"@[0]);
            assert("minus"@[0] != "and"@[0]);
            assert("minus"@[0] != "assign"@[0]);
            assert("minus"@[0] != "div"@[0]);
            assert("minus"@[1] != "max"@[1]);
            assert("minus"@.len() != "min"@.len());
        },
        Operator::Mult => {
            assert("mult"@[0] != "addAll"@[0]);
            assert("mult"@[0] != "and"@[0]);
            assert("mult"@[0] != "assign"@[0]);
            assert("mult"@[0] != "div"@[0]);
            assert("mult"@[1] != "max"@[1]);
            assert("mult"@[1] != "min"@[1]);
            assert("mult"@[1] != "minus"@[1]);
        },
        Operator::Or => {
            assert("or"@[0] != "addAll"@[0]);
            assert("or"@[0] != "and"@[0]);
            assert("or"@[0] != "assign"@[0]);
            assert("or"@[0] != "div"@[0]);
            assert("or"@[0] != "max"@[0]);
            assert("or"@[0] != "min"@[0]);
            assert("or"@[0] != "minus"@[0]);
            assert("or"@[0] != "mult"@[0]);
        },
        Operator::Sum => {
            assert("sum"@[0] != "addAll"@[0]);
            assert("sum"@[0] != "and"@[0]);
            assert("sum"@[0] != "assign"@[0]);
            assert("sum"@[0] != "div"@[0]);
            assert("sum"@[0] != "max"@[0]);
            assert("sum"@[0] != "min"@[0]);
            assert("sum"@[0] != "minus"@[0]);
            assert("sum"@[0] != "mult"@[0]);
            assert("sum"@[0] != "or"@[0]);
        },
        Operator::SumLong => {
            assert("sumLong"@[0] != "addAll"@[0]);
            assert("sumLong"@[0] != "and"@[0]);
            assert("sumLong"@[0] != "assign"@[0]);
            assert("sumLong"@[0] != "div"@[0]);
            assert("sumLong"@[0] != "max"@[0]);
            assert("sumLong"@[0] != "min"@[0]);
            assert("sumLong"@[0] != "minus"@[0]);
            assert("sumLong"@[0] != "mult"@[0]);
            assert("sumLong"@[0] != "or"@[0]);
            assert("sumLong"@.len() != "sum"@.len());
        },
    }
    lemma_utf8_len_bound(x.spec_name());
}

/// Reads an element as the fully qualified text of its name.
pub open spec fn parse_operator(s: Seq<u8>) -> Parsed<Operator> {
    match parse_fq::<String>(s) {
        Parsed::Done(cs, n) => match Operator::spec_from_name(cs) {
            Some(x) => Parsed::Done(x, n),
            None => Parsed::Fail(DecodeError::UnknownEnumValue),
        },
        Parsed::Fail(e) => Parsed::Fail(e),
        Parsed::Abort => Parsed::Abort,
    }
}


impl Encode for Operator {
    open spec fn spec_bytes(&self) -> Seq<u8> {
        fq_bytes(0x19u8, fq_bytes(0x03u8, string_partial_bytes(self.spec_name())))
    }

    fn encode(&self, out: &mut Vec<u8>) {
        encode_fq(self, out);
    }
}

impl PartialEncode for Operator {
    open spec fn spec_type_code() -> u8 {
        0x19u8
    }

    open spec fn spec_partial_bytes(&self) -> Seq<u8> {
        fq_bytes(0x03u8, string_partial_bytes(self.spec_name()))
    }

    fn type_code() -> (code: u8) {
        CoreType::Operator.code()
    }

    fn partial_encode(&self, out: &mut Vec<u8>) {
        let name = self.as_str();
        out.push(0x03u8);
        out.push(0x00u8);
        partial_encode_str(name, out);
        assert(out@ =~= old(out)@ + fq_bytes(0x03u8, string_partial_bytes(self.spec_name())));
    }
}

impl Decode for Operator {
    open spec fn spec_parse(s: Seq<u8>) -> Parsed<Operator> {
        parse_fq::<Operator>(s)
    }

    fn decode(buf: &[u8], pos: usize) -> (r: Result<(Operator, usize), DecodeError>) {
        decode_fq(buf, pos)
    }
}

impl PartialDecode for Operator {
    open spec fn spec_expected_type_code() -> u8 {
        0x19u8
    }

    open spec fn spec_parse_partial(s: Seq<u8>) -> Parsed<Operator> {
        parse_operator(s)
    }

    fn expected_type_code() -> (code: u8) {
        CoreType::Operator.code()
    }

    fn partial_decode(buf: &[u8], pos: usize) -> (r: Result<(Operator, usize), DecodeError>) {
        match decode_fq::<String>(buf, pos) {
            Ok((name, p)) => match Operator::try_from_str(name.as_str()) {
                Ok(x) => Ok((x, p)),
                Err(e) => Err(e),
            },
            Err(e) => Err(e),
        }
    }
}

impl Codec for Operator {
    open spec fn spec_wf(&self) -> bool {
        true
    }

    proof fn lemma_roundtrip(&self, rest: Seq<u8>) {
        lemma_operator_names(*self);
        lemma_fq_string_roundtrip(self.spec_name(), rest);
        lemma_fq_roundtrip(self, rest);
    }
}

/// Sort orders.
#[derive(Debug, Clone, Copy, PartialEq, Eq, Hash, PartialOrd, Ord, Structural)]
pub enum Order {
    Shuffle,
    Asc,
    Desc,
}

impl DeepView for Order {
    type V = Order;

    open spec fn deep_view(&self) -> Order {
        *self
    }
}

impl Order {
    /// The name of the element in the Gremlin language.
    pub open spec fn spec_name(self) -> Seq<char> {
        match self {
            Order::Shuffle => "shuffle"@,
            Order::Asc => "asc"@,
            Order::Desc => "desc"@,
        }
    }

    /// The element with a given name, if any.
    pub open spec fn spec_from_name(s: Seq<char>) -> Option<Order> {
        if s == "shuffle"@ {
            Some(Order::Shuffle)
        } else if s == "asc"@ {
            Some(Order::Asc)
        } else if s == "desc"@ {
            Some(Order::Desc)
        } else {
            None
        }
    }

    /// The name of the element in the Gremlin language.
    pub fn as_str(&self) -> (r: &'static str)
        ensures
            r@ == self.spec_name(),
    {
        match self {
            Order::Shuffle => "shuffle",
            Order::Asc => "asc",
            Order::Desc => "desc",
        }
    }

    /// The element named by a text; `UnknownEnumValue` for any other text.
    pub fn try_from_str(s: &str) -> (r: Result<Order, DecodeError>)
        ensures
            r == match Order::spec_from_name(s@) {
                Some(x) => Ok::<Order, DecodeError>(x),
                None => Err(DecodeError::UnknownEnumValue),
            },
    {
        if str_eq(s, "shuffle") {
            return Ok(Order::Shuffle);
        }
        if str_eq(s, "asc") {
            return Ok(Order::Asc);
        }
        if str_eq(s, "desc") {
            return Ok(Order::Desc);
        }
        Err(DecodeError::UnknownEnumValue)
    }
}

/// Every element is named back by its name, and its name fits a length prefix.
pub proof fn lemma_order_names(x: Order)
    ensures
        Order::spec_from_name(x.spec_name()) == Some(x),
        string_wf(x.spec_name()),
{
    reveal_strlit("shuffle");
    reveal_strlit("asc");
    reveal_strlit("desc");
    lemma_utf8_len_bound(x.spec_name());
}

/// Reads an element as the fully qualified text of its name.
pub open spec fn parse_order(s: Seq<u8>) -> Parsed<Order> {
    match parse_fq::<String>(s) {
        Parsed::Done(cs, n) => match Order::spec_from_name(cs) {
            Some(x) => Parsed::Done(x, n),
            None => Parsed::Fail(DecodeError::UnknownEnumValue),
        },
        Parsed::Fail(e) => Parsed::Fail(e),
        Parsed::Abort => Parsed::Abort,
    }
}


impl Encode for Order {
    open spec fn spec_bytes(&self) -> Seq<u8> {
        fq_bytes(0x1au8, fq_bytes(0x03u8, string_partial_bytes(self.spec_name())))
    }

    fn encode(&self, out: &mut Vec<u8>) {
        encode_fq(self, out);
    }
}

impl PartialEncode for Order {
    open spec fn spec_type_code() -> u8 {
        0x1au8
    }

    open spec fn spec_partial_bytes(&self) -> Seq<u8> {
        fq_bytes(0x03u8, string_partial_bytes(self.spec_name()))
    }

    fn type_code() -> (code: u8) {
        CoreType::Order.code()
    }

    fn partial_encode(&self, out: &mut Vec<u8>) {
        let name = self.as_str();
        out.push(0x03u8);
        out.push(0x00u8);
        partial_encode_str(name, out);
        assert(out@ =~= old(out)@ + fq_bytes(0x03u8, string_partial_bytes(self.spec_name())));
    }
}

impl Decode for Order {
    open spec fn spec_parse(s: Seq<u8>) -> Parsed<Order> {
        parse_fq::<Order>(s)
    }

    fn decode(buf: &[u8], pos: usize) -> (r: Result<(Order, usize), DecodeError>) {
        decode_fq(buf, pos)
    }
}

impl PartialDecode for Order {
    open spec fn spec_expected_type_code() -> u8 {
        0x1au8
    }

    open spec fn spec_parse_partial(s: Seq<u8>) -> Parsed<Order> {
        parse_order(s)
    }

    fn expected_type_code() -> (code: u8) {
        CoreType::Order.code()
    }

    fn partial_decode(buf: &[u8], pos: usize) -> (r: Result<(Order, usize), DecodeError>) {
        match decode_fq::<String>(buf, pos) {
            Ok((name, p)) => match Order::try_from_str(name.as_str()) {
                Ok(x) => Ok((x, p)),
                Err(e) => Err(e),
            },
            Err(e) => Err(e),
        }
    }
}

impl Codec for Order {
    open spec fn spec_wf(&self) -> bool {
        true
    }

    proof fn lemma_roundtrip(&self, rest: Seq<u8>) {
        lemma_order_names(*self);
        lemma_fq_string_roundtrip(self.spec_name(), rest);
        lemma_fq_roundtrip(self, rest);
    }
}

/// Tokens of the `option` step.
#[derive(Debug, Clone, Copy, PartialEq, Eq, Hash, PartialOrd, Ord, Structural)]
pub enum Pick {
    Any,
    NoPick,
}

impl DeepView for Pick {
    type V = Pick;

    open spec fn deep_view(&self) -> Pick {
        *self
    }
}

impl Pick {
    /// The name of the element in the Gremlin language.
    pub open spec fn spec_name(self) -> Seq<char> {
        match self {
            Pick::Any => "any"@,
            Pick::NoPick => "none"@,
        }
    }

    /// The element with a given name, if any.
    pub open spec fn spec_from_name(s: Seq<char>) -> Option<Pick> {
        if s == "any"@ {
            Some(Pick::Any)
        } else if s == "none"@ {
            Some(Pick::NoPick)
        } else {
            None
        }
    }

    /// The name of the element in the Gremlin language.
    pub fn as_str(&self) -> (r: &'static str)
        ensures
            r@ == self.spec_name(),
    {
        match self {
            Pick::Any => "any",
            Pick::NoPick => "none",
        }
    }

    /// The element named by a text; `UnknownEnumValue` for any other text.
    pub fn try_from_str(s: &str) -> (r: Result<Pick, DecodeError>)
        ensures
            r == match Pick::spec_from_name(s@) {
                Some(x) => Ok::<Pick, DecodeError>(x),
                None => Err(DecodeError::UnknownEnumValue),
            },
    {
        if str_eq(s, "any") {
            return Ok(Pick::Any);
        }
        if str_eq(s, "none") {
            return Ok(Pick::NoPick);
        }
        Err(DecodeError::UnknownEnumValue)
    }
}

/// Every element is named back by its name, and its name fits a length prefix.
pub proof fn lemma_pick_names(x: Pick)
    ensures
        Pick::spec_from_name(x.spec_name()) == Some(x),
        string_wf(x.spec_name()),
{
    reveal_strlit("any");
    reveal_strlit("none");
    lemma_utf8_len_bound(x.spec_name());
}

/// Reads an element as the fully qualified text of its name.
pub open spec fn parse_pick(s: Seq<u8>) -> Parsed<Pick> {
    match parse_fq::<String>(s) {
        Parsed::Done(cs, n) => match Pick::spec_from_name(cs) {
            Some(x) => Parsed::Done(x, n),
            None => Parsed::Fail(DecodeError::UnknownEnumValue),
        },
        Parsed::Fail(e) => Parsed::Fail(e),
        Parsed::Abort => Parsed::Abort,
    }
}


impl Encode for Pick {
    open spec fn spec_bytes(&self) -> Seq<u8> {
        fq_bytes(0x1bu8, fq_bytes(0x03u8, string_partial_bytes(self.spec_name())))
    }

    fn encode(&self, out: &mut Vec<u8>) {
        encode_fq(self, out);
    }
}

impl PartialEncode for Pick {
    open spec fn spec_type_code() -> u8 {
        0x1bu8
    }

    open spec fn spec_partial_bytes(&self) -> Seq<u8> {
        fq_bytes(0x03u8, string_partial_bytes(self.spec_name()))
    }

    fn type_code() -> (code: u8) {
        CoreType::Pick.code()
    }

    fn partial_encode(&self, out: &mut Vec<u8>) {
        let name = self.as_str();
        out.push(0x03u8);
        out.push(0x00u8);
        partial_encode_str(name, out);
        assert(out@ =~= old(out)@ + fq_bytes(0x03u8, string_partial_bytes(self.spec_name())));
    }
}

impl Decode for Pick {
    open spec fn spec_parse(s: Seq<u8>) -> Parsed<Pick> {
        parse_fq::<Pick>(s)
    }

    fn decode(buf: &[u8], pos: usize) -> (r: Result<(Pick, usize), DecodeError>) {
        decode_fq(buf, pos)
    }
}

impl PartialDecode for Pick {
    open spec fn spec_expected_type_code() -> u8 {
        0x1bu8
    }

    open spec fn spec_parse_partial(s: Seq<u8>) -> Parsed<Pick> {
        parse_pick(s)
    }

    fn expected_type_code() -> (code: u8) {
        CoreType::Pick.code()
    }

    fn partial_decode(buf: &[u8], pos: usize) -> (r: Result<(Pick, usize), DecodeError>) {
        match decode_fq::<String>(buf, pos) {
            Ok((name, p)) => match Pick::try_from_str(name.as_str()) {
                Ok(x) => Ok((x, p)),
                Err(e) => Err(e),
            },
            Err(e) => Err(e),
        }
    }
}

impl Codec for Pick {
    open spec fn spec_wf(&self) -> bool {
        true
    }

    proof fn lemma_roundtrip(&self, rest: Seq<u8>) {
        lemma_pick_names(*self);
        lemma_fq_string_roundtrip(self.spec_name(), rest);
        lemma_fq_roundtrip(self, rest);
    }
}

/// Which of several labelled objects a step selects.
#[derive(Debug, Clone, Copy, PartialEq, Eq, Hash, PartialOrd, Ord, Structural)]
pub enum Pop {
    All,
    First,
    Last,
    Mixed,
}

impl DeepView for Pop {
    type V = Pop;

    open spec fn deep_view(&self) -> Pop {
        *self
    }
}

impl Pop {
    /// The name of the element in the Gremlin language.
    pub open spec fn spec_name(self) -> Seq<char> {
        match self {
            Pop::All => "all"@,
            Pop::First => "first"@,
            Pop::Last => "last"@,
            Pop::Mixed => "mixed"@,
        }
    }

    /// The element with a given name, if any.
    pub open spec fn spec_from_name(s: Seq<char>) -> Option<Pop> {
        if s == "all"@ {
            Some(Pop::All)
        } else if s == "first"@ {
            Some(Pop::First)
        } else if s == "last"@ {
            Some(Pop::Last)
        } else if s == "mixed"@ {
            Some(Pop::Mixed)
        } else {
            None
        }
    }

    /// The name of the element in the Gremlin language.
    pub fn as_str(&self) -> (r: &'static str)
        ensures
            r@ == self.spec_name(),
    {
        match self {
            Pop::All => "all",
            Pop::First => "first",
            Pop::Last => "last",
            Pop::Mixed => "mixed",
        }
    }

    /// The element named by a text; `UnknownEnumValue` for any other text.
    pub fn try_from_str(s: &str) -> (r: Result<Pop, DecodeError>)
        ensures
            r == match Pop::spec_from_name(s@) {
                Some(x) => Ok::<Pop, DecodeError>(x),
                None => Err(DecodeError::UnknownEnumValue),
            },
    {
        if str_eq(s, "all") {
            return Ok(Pop::All);
        }
        if str_eq(s, "first") {
            return Ok(Pop::First);
        }
        if str_eq(s, "last") {
            return Ok(Pop::Last);
        }
        if str_eq(s, "mixed") {
            return Ok(Pop::Mixed);
        }
        Err(DecodeError::UnknownEnumValue)
    }
}

/// Every element is named back by its name, and its name fits a length prefix.
pub proof fn lemma_pop_names(x: Pop)
    ensures
        Pop::spec_from_name(x.spec_name()) == Some(x),
        string_wf(x.spec_name()),
{
    reveal_strlit("all");
    reveal_strlit("first");
    reveal_strlit("last");
    reveal_strlit("mixed");
    lemma_utf8_len_bound(x.spec_name());
}

/// Reads an element as the fully qualified text of its name.
pub open spec fn parse_pop(s: Seq<u8>) -> Parsed<Pop> {
    match parse_fq::<String>(s) {
        Parsed::Done(cs, n) => match Pop::spec_from_name(cs) {
            Some(x) => Parsed::Done(x, n),
            None => Parsed::Fail(DecodeError::UnknownEnumValue),
        },
        Parsed::Fail(e) => Parsed::Fail(e),
        Parsed::Abort => Parsed::Abort,
    }
}


impl Encode for Pop {
    open spec fn spec_bytes(&self) -> Seq<u8> {
        fq_bytes(0x1cu8, fq_bytes(0x03u8, string_partial_bytes(self.spec_name())))
    }

    fn encode(&self, out: &mut Vec<u8>) {
        encode_fq(self, out);
    }
}

impl PartialEncode for Pop {
    open spec fn spec_type_code() -> u8 {
        0x1cu8
    }

    open spec fn spec_partial_bytes(&self) -> Seq<u8> {
        fq_bytes(0x03u8, string_partial_bytes(self.spec_name()))
    }

    fn type_code() -> (code: u8) {
        CoreType::Pop.code()
    }

    fn partial_encode(&self, out: &mut Vec<u8>) {
        let name = self.as_str();
        out.push(0x03u8);
        out.push(0x00u8);
        partial_encode_str(name, out);
        assert(out@ =~= old(out)@ + fq_bytes(0x03u8, string_partial_bytes(self.spec_name())));
    }
}

impl Decode for Pop {
    open spec fn spec_parse(s: Seq<u8>) -> Parsed<Pop> {
        parse_fq::<Pop>(s)
    }

    fn decode(buf: &[u8], pos: usize) -> (r: Result<(Pop, usize), DecodeError>) {
        decode_fq(buf, pos)
    }
}

impl PartialDecode for Pop {
    open spec fn spec_expected_type_code() -> u8 {
        0x1cu8
    }

    open spec fn spec_parse_partial(s: Seq<u8>) -> Parsed<Pop> {
        parse_pop(s)
    }

    fn expected_type_code() -> (code: u8) {
        CoreType::Pop.code()
    }

    fn partial_decode(buf: &[u8], pos: usize) -> (r: Result<(Pop, usize), DecodeError>) {
        match decode_fq::<String>(buf, pos) {
            Ok((name, p)) => match Pop::try_from_str(name.as_str()) {
                Ok(x) => Ok((x, p)),
                Err(e) => Err(e),
            },
            Err(e) => Err(e),
        }
    }
}

impl Codec for Pop {
    open spec fn spec_wf(&self) -> bool {
        true
    }

    proof fn lemma_roundtrip(&self, rest: Seq<u8>) {
        lemma_pop_names(*self);
        lemma_fq_string_roundtrip(self.spec_name(), rest);
        lemma_fq_roundtrip(self, rest);
    }
}

/// Whether a step works on one object or on all of them.
#[derive(Debug, Clone, Copy, PartialEq, Eq, Hash, PartialOrd, Ord, Structural)]
pub enum Scope {
    Local,
    Global,
}

impl DeepView for Scope {
    type V = Scope;

    open spec fn deep_view(&self) -> Scope {
        *self
    }
}

impl Scope {
    /// The name of the element in the Gremlin language.
    pub open spec fn spec_name(self) -> Seq<char> {
        match self {
            Scope::Local => "local"@,
            Scope::Global => "global"@,
        }
    }

    /// The element with a given name, if any.
    pub open spec fn spec_from_name(s: Seq<char>) -> Option<Scope> {
        if s == "local"@ {
            Some(Scope::Local)
        } else if s == "global"@ {
            Some(Scope::Global)
        } else {
            None
        }
    }

    /// The name of the element in the Gremlin language.
    pub fn as_str(&self) -> (r: &'static str)
        ensures
            r@ == self.spec_name(),
    {
        match self {
            Scope::Local => "local",
            Scope::Global => "global",
        }
    }

    /// The element named by a text; `UnknownEnumValue` for any other text.
    pub fn try_from_str(s: &str) -> (r: Result<Scope, DecodeError>)
        ensures
            r == match Scope::spec_from_name(s@) {
                Some(x) => Ok::<Scope, DecodeError>(x),
                None => Err(DecodeError::UnknownEnumValue),
            },
    {
        if str_eq(s, "local") {
            return Ok(Scope::Local);
        }
        if str_eq(s, "global") {
            return Ok(Scope::Global);
        }
        Err(DecodeError::UnknownEnumValue)
    }
}

/// Every element is named back by its name, and its name fits a length prefix.
pub proof fn lemma_scope_names(x: Scope)
    ensures
        Scope::spec_from_name(x.spec_name()) == Some(x),
        string_wf(x.spec_name()),
{
    reveal_strlit("local");
    reveal_strlit("global");
    lemma_utf8_len_bound(x.spec_name());
}

/// Reads an element as the fully qualified text of its name.
pub open spec fn parse_scope(s: Seq<u8>) -> Parsed<Scope> {
    match parse_fq::<String>(s) {
        Parsed::Done(cs, n) => match Scope::spec_from_name(cs) {
            Some(x) => Parsed::Done(x, n),
            None => Parsed::Fail(DecodeError::UnknownEnumValue),
        },
        Parsed::Fail(e) => Parsed::Fail(e),
        Parsed::Abort => Parsed::Abort,
    }
}


impl Encode for Scope {
    open spec fn spec_bytes(&self) -> Seq<u8> {
        fq_bytes(0x1fu8, fq_bytes(0x03u8, string_partial_bytes(self.spec_name())))
    }

    fn encode(&self, out: &mut Vec<u8>) {
        encode_fq(self, out);
    }
}

impl PartialEncode for Scope {
    open spec fn spec_type_code() -> u8 {
        0x1fu8
    }

    open spec fn spec_partial_bytes(&self) -> Seq<u8> {
        fq_bytes(0x03u8, string_partial_bytes(self.spec_name()))
    }

    fn type_code() -> (code: u8) {
        CoreType::Scope.code()
    }

    fn partial_encode(&self, out: &mut Vec<u8>) {
        let name = self.as_str();
        out.push(0x03u8);
        out.push(0x00u8);
        partial_encode_str(name, out);
        assert(out@ =~= old(out)@ + fq_bytes(0x03u8, string_partial_bytes(self.spec_name())));
    }
}

impl Decode for Scope {
    open spec fn spec_parse(s: Seq<u8>) -> Parsed<Scope> {
        parse_fq::<Scope>(s)
    }

    fn decode(buf: &[u8], pos: usize) -> (r: Result<(Scope, usize), DecodeError>) {
        decode_fq(buf, pos)
    }
}

impl PartialDecode for Scope {
    open spec fn spec_expected_type_code() -> u8 {
        0x1fu8
    }

    open spec fn spec_parse_partial(s: Seq<u8>) -> Parsed<Scope> {
        parse_scope(s)
    }

    fn expected_type_code() -> (code: u8) {
        CoreType::Scope.code()
    }

    fn partial_decode(buf: &[u8], pos: usize) -> (r: Result<(Scope, usize), DecodeError>) {
        match decode_fq::<String>(buf, pos) {
            Ok((name, p)) => match Scope::try_from_str(name.as_str()) {
                Ok(x) => Ok((x, p)),
                Err(e) => Err(e),
            },
            Err(e) => Err(e),
        }
    }
}

impl Codec for Scope {
    open spec fn spec_wf(&self) -> bool {
        true
    }

    proof fn lemma_roundtrip(&self, rest: Seq<u8>) {
        lemma_scope_names(*self);
        lemma_fq_string_roundtrip(self.spec_name(), rest);
        lemma_fq_roundtrip(self, rest);
    }
}

/// Tokens naming the parts of a graph element.
#[derive(Debug, Clone, Copy, PartialEq, Eq, Hash, PartialOrd, Ord, Structural)]
pub enum T {
    Id,
    Key,
    Label,
    Value,
}

impl DeepView for T {
    type V = T;

    open spec fn deep_view(&self) -> T {
        *self
    }
}

impl T {
    /// The name of the element in the Gremlin language.
    pub open spec fn spec_name(self) -> Seq<char> {
        match self {
            T::Id => "id"@,
            T::Key => "key"@,
            T::Label => "label"@,
            T::Value => "value"@,
        }
    }

    /// The element with a given name, if any.
    pub open spec fn spec_from_name(s: Seq<char>) -> Option<T> {
        if s == "id"@ {
            Some(T::Id)
        } else if s == "key"@ {
            Some(T::Key)
        } else if s == "label"@ {
            Some(T::Label)
        } else if s == "value"@ {
            Some(T::Value)
        } else {
            None
        }
    }

    /// The name of the element in the Gremlin language.
    pub fn as_str(&self) -> (r: &'static str)
        ensures
            r@ == self.spec_name(),
    {
        match self {
            T::Id => "id",
            T::Key => "key",
            T::Label => "label",
            T::Value => "value",
        }
    }

    /// The element named by a text; `UnknownEnumValue` for any other text.
    pub fn try_from_str(s: &str) -> (r: Result<T, DecodeError>)
        ensures
            r == match T::spec_from_name(s@) {
                Some(x) => Ok::<T, DecodeError>(x),
                None => Err(DecodeError::UnknownEnumValue),
            },
    {
        if str_eq(s, "id") {
            return Ok(T::Id);
        }
        if str_eq(s, "key") {
            return Ok(T::Key);
        }
        if str_eq(s, "label") {
            return Ok(T::Label);
        }
        if str_eq(s, "value") {
            return Ok(T::Value);
        }
        Err(DecodeError::UnknownEnumValue)
    }
}

/// Every element is named back by its name, and its name fits a length prefix.
pub proof fn lemma_t_names(x: T)
    ensures
        T::spec_from_name(x.spec_name()) == Some(x),
        string_wf(x.spec_name()),
{
    reveal_strlit("id");
    reveal_strlit("key");
    reveal_strlit("label");
    reveal_strlit("value");
    lemma_utf8_len_bound(x.spec_name());
}

/// Reads an element as the fully qualified text of its name.
pub open spec fn parse_t(s: Seq<u8>) -> Parsed<T> {
    match parse_fq::<String>(s) {
        Parsed::Done(cs, n) => match T::spec_from_name(cs) {
            Some(x) => Parsed::Done(x, n),
            None => Parsed::Fail(DecodeError::UnknownEnumValue),
        },
        Parsed::Fail(e) => Parsed::Fail(e),
        Parsed::Abort => Parsed::Abort,
    }
}


impl Encode for T {
    open spec fn spec_bytes(&self) -> Seq<u8> {
        fq_bytes(0x20u8, fq_bytes(0x03u8, string_partial_bytes(self.spec_name())))
    }

    fn encode(&self, out: &mut Vec<u8>) {
        encode_fq(self, out);
    }
}

impl PartialEncode for T {
    open spec fn spec_type_code() -> u8 {
        0x20u8
    }

    open spec fn spec_partial_bytes(&self) -> Seq<u8> {
        fq_bytes(0x03u8, string_partial_bytes(self.spec_name()))
    }

    fn type_code() -> (code: u8) {
        CoreType::T.code()
    }

    fn partial_encode(&self, out: &mut Vec<u8>) {
        let name = self.as_str();
        out.push(0x03u8);
        out.push(0x00u8);
        partial_encode_str(name, out);
        assert(out@ =~= old(out)@ + fq_bytes(0x03u8, string_partial_bytes(self.spec_name())));
    }
}

impl Decode for T {
    open spec fn spec_parse(s: Seq<u8>) -> Parsed<T> {
        parse_fq::<T>(s)
    }

    fn decode(buf: &[u8], pos: usize) -> (r: Result<(T, usize), DecodeError>) {
        decode_fq(buf, pos)
    }
}

impl PartialDecode for T {
    open spec fn spec_expected_type_code() -> u8 {
        0x20u8
    }

    open spec fn spec_parse_partial(s: Seq<u8>) -> Parsed<T> {
        parse_t(s)
    }

    fn expected_type_code() -> (code: u8) {
        CoreType::T.code()
    }

    fn partial_decode(buf: &[u8], pos: usize) -> (r: Result<(T, usize), DecodeError>) {
        match decode_fq::<String>(buf, pos) {
            Ok((name, p)) => match T::try_from_str(name.as_str()) {
                Ok(x) => Ok((x, p)),
                Err(e) => Err(e),
            },
            Err(e) => Err(e),
        }
    }
}

impl Codec for T {
    open spec fn spec_wf(&self) -> bool {
        true
    }

    proof fn lemma_roundtrip(&self, rest: Seq<u8>) {
        lemma_t_names(*self);
        lemma_fq_string_roundtrip(self.spec_name(), rest);
        lemma_fq_roundtrip(self, rest);
    }
}

/// Tokens of the `mergeV` and `mergeE` steps.
#[derive(Debug, Clone, Copy, PartialEq, Eq, Hash, PartialOrd, Ord, Structural)]
pub enum Merge {
    OnCreate,
    OnMatch,
}

impl DeepView for Merge {
    type V = Merge;

    open spec fn deep_view(&self) -> Merge {
        *self
    }
}

impl Merge {
    /// The name of the element in the Gremlin language.
    pub open spec fn spec_name(self) -> Seq<char> {
        match self {
            Merge::OnCreate => "onCreate"@,
            Merge::OnMatch => "onMatch"@,
        }
    }

    /// The element with a given name, if any.
    pub open spec fn spec_from_name(s: Seq<char>) -> Option<Merge> {
        if s == "onCreate"@ {
            Some(Merge::OnCreate)
        } else if s == "onMatch"@ {
            Some(Merge::OnMatch)
        } else {
            None
        }
    }

    /// The name of the element in the Gremlin language.
    pub fn as_str(&self) -> (r: &'static str)
        ensures
            r@ == self.spec_name(),
    {
        match self {
            Merge::OnCreate => "onCreate",
            Merge::OnMatch => "onMatch",
        }
    }

    /// The element named by a text; `UnknownEnumValue` for any other text.
    pub fn try_from_str(s: &str) -> (r: Result<Merge, DecodeError>)
        ensures
            r == match Merge::spec_from_name(s@) {
                Some(x) => Ok::<Merge, DecodeError>(x),
                None => Err(DecodeError::UnknownEnumValue),
            },
    {
        if str_eq(s, "onCreate") {
            return Ok(Merge::OnCreate);
        }
        if str_eq(s, "onMatch") {
            return Ok(Merge::OnMatch);
        }
        Err(DecodeError::UnknownEnumValue)
    }
}

/// Every element is named back by its name, and its name fits a length prefix.
pub proof fn lemma_merge_names(x: Merge)
    ensures
        Merge::spec_from_name(x.spec_name()) == Some(x),
        string_wf(x.spec_name()),
{
    reveal_strlit("onCreate");
    reveal_strlit("onMatch");
    lemma_utf8_len_bound(x.spec_name());
}

/// Reads an element as the fully qualified text of its name.
pub open spec fn parse_merge(s: Seq<u8>) -> Parsed<Merge> {
    match parse_fq::<String>(s) {
        Parsed::Done(cs, n) => match Merge::spec_from_name(cs) {
            Some(x) => Parsed::Done(x, n),
            None => Parsed::Fail(DecodeError::UnknownEnumValue),
        },
        Parsed::Fail(e) => Parsed::Fail(e),
        Parsed::Abort => Parsed::Abort,
    }
}


impl Encode for Merge {
    open spec fn spec_bytes(&self) -> Seq<u8> {
        fq_bytes(0x2eu8, fq_bytes(0x03u8, string_partial_bytes(self.spec_name())))
    }

    fn encode(&self, out: &mut Vec<u8>) {
        encode_fq(self, out);
    }
}

impl PartialEncode for Merge {
    open spec fn spec_type_code() -> u8 {
        0x2eu8
    }

    open spec fn spec_partial_bytes(&self) -> Seq<u8> {
        fq_bytes(0x03u8, string_partial_bytes(self.spec_name()))
    }

    fn type_code() -> (code: u8) {
        CoreType::Merge.code()
    }

    fn partial_encode(&self, out: &mut Vec<u8>) {
        let name = self.as_str();
        out.push(0x03u8);
        out.push(0x00u8);
        partial_encode_str(name, out);
        assert(out@ =~= old(out)@ + fq_bytes(0x03u8, string_partial_bytes(self.spec_name())));
    }
}

impl Decode for Merge {
    open spec fn spec_parse(s: Seq<u8>) -> Parsed<Merge> {
        parse_fq::<Merge>(s)
    }

    fn decode(buf: &[u8], pos: usize) -> (r: Result<(Merge, usize), DecodeError>) {
        decode_fq(buf, pos)
    }
}

impl PartialDecode for Merge {
    open spec fn spec_expected_type_code() -> u8 {
        0x2eu8
    }

    open spec fn spec_parse_partial(s: Seq<u8>) -> Parsed<Merge> {
        parse_merge(s)
    }

    fn expected_type_code() -> (code: u8) {
        CoreType::Merge.code()
    }

    fn partial_decode(buf: &[u8], pos: usize) -> (r: Result<(Merge, usize), DecodeError>) {
        match decode_fq::<String>(buf, pos) {
            Ok((name, p)) => match Merge::try_from_str(name.as_str()) {
                Ok(x) => Ok((x, p)),
                Err(e) => Err(e),
            },
            Err(e) => Err(e),
        }
    }
}

impl Codec for Merge {
    open spec fn spec_wf(&self) -> bool {
        true
    }

    proof fn lemma_roundtrip(&self, rest: Seq<u8>) {
        lemma_merge_names(*self);
        lemma_fq_string_roundtrip(self.spec_name(), rest);
        lemma_fq_roundtrip(self, rest);
    }
}

} // verus!
