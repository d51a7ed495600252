use vstd::prelude::*;

use vstd::std_specs::convert::FromSpec;

use crate::error::{DecodeError, Error, Expected};

verus! {

/// A scalar as exchanged with the server, for bound parameters and result cells.
#[derive(Debug, Clone, PartialEq, Eq)]
pub enum WireValue {
    Null,
    Integer(i64),
    /// A 64-bit float, carried as its IEEE-754 bit pattern.
    Float(u64),
    Boolean(bool),
    Utf8String(String),
    ByteString(Vec<u8>),
    /// Microseconds since the Unix epoch, UTC.
    Timestamp(i64),
}

/// The variant of a [`WireValue`], without its payload.
#[derive(Debug, Clone, Copy, PartialEq, Eq)]
pub enum WireKind {
    Null,
    Integer,
    Float,
    Boolean,
    Utf8String,
    ByteString,
    Timestamp,
}

impl WireValue {
    pub open spec fn kind_spec(&self) -> WireKind {
        match self {
            WireValue::Null => WireKind::Null,
            WireValue::Integer(_) => WireKind::Integer,
            WireValue::Float(_) => WireKind::Float,
            WireValue::Boolean(_) => WireKind::Boolean,
            WireValue::Utf8String(_) => WireKind::Utf8String,
            WireValue::ByteString(_) => WireKind::ByteString,
            WireValue::Timestamp(_) => WireKind::Timestamp,
        }
    }

    /// The variant of this value.
    pub fn kind(&self) -> (r: WireKind)
        ensures
            r == self.kind_spec(),
    {
        match self {
            WireValue::Null => WireKind::Null,
            WireValue::Integer(_) => WireKind::Integer,
            WireValue::Float(_) => WireKind::Float,
            WireValue::Boolean(_) => WireKind::Boolean,
            WireValue::Utf8String(_) => WireKind::Utf8String,
            WireValue::ByteString(_) => WireKind::ByteString,
            WireValue::Timestamp(_) => WireKind::Timestamp,
        }
    }
}


/// An application-level argument, before it is bound to a statement.
#[derive(Debug, Clone, PartialEq, Eq)]
pub enum SqlArg {
    Null,
    I64(i64),
    /// A 64-bit float, carried as its IEEE-754 bit pattern.
    F64(u64),
    Bool(bool),
    Str(String),
    Bytes(Vec<u8>),
    /// Microseconds since the Unix epoch, UTC.
    Ts(i64),
}

/// The wire value that an argument is sent as.
pub open spec fn wire_of(a: SqlArg) -> WireValue {
    match a {
        SqlArg::Null => WireValue::Null,
        SqlArg::I64(n) => WireValue::Integer(n),
        SqlArg::F64(f) => WireValue::Float(f),
        SqlArg::Bool(b) => WireValue::Boolean(b),
        SqlArg::Str(s) => WireValue::Utf8String(s),
        SqlArg::Bytes(b) => WireValue::ByteString(b),
        SqlArg::Ts(t) => WireValue::Timestamp(t),
    }
}

/// Turns an argument into the wire value that carries it.
pub fn arg_to_sql_value(a: SqlArg) -> (r: WireValue)
    ensures
        r == wire_of(a),
{
    match a {
        SqlArg::Null => WireValue::Null,
        SqlArg::I64(n) => WireValue::Integer(n),
        SqlArg::F64(f) => WireValue::Float(f),
        SqlArg::Bool(b) => WireValue::Boolean(b),
        SqlArg::Str(s) => WireValue::Utf8String(s),
        SqlArg::Bytes(b) => WireValue::ByteString(b),
        SqlArg::Ts(t) => WireValue::Timestamp(t),
    }
}

impl From<i64> for SqlArg {
    fn from(n: i64) -> Self {
        SqlArg::I64(n)
    }
}

impl vstd::std_specs::convert::FromSpecImpl<i64> for SqlArg {
    open spec fn obeys_from_spec() -> bool {
        true
    }

    open spec fn from_spec(n: i64) -> Self {
        SqlArg::I64(n)
    }
}

impl From<i32> for SqlArg {
    fn from(n: i32) -> Self {
        SqlArg::I64(n as i64)
    }
}

impl vstd::std_specs::convert::FromSpecImpl<i32> for SqlArg {
    open spec fn obeys_from_spec() -> bool {
        true
    }

    open spec fn from_spec(n: i32) -> Self {
        SqlArg::I64(n as i64)
    }
}

/// Values above `i64::MAX` keep their bits and so read back negative.
impl From<u64> for SqlArg {
    fn from(n: u64) -> Self {
        SqlArg::I64(n as i64)
    }
}

impl vstd::std_specs::convert::FromSpecImpl<u64> for SqlArg {
    open spec fn obeys_from_spec() -> bool {
        true
    }

    open spec fn from_spec(n: u64) -> Self {
        SqlArg::I64(n as i64)
    }
}

impl From<String> for SqlArg {
    fn from(s: String) -> Self {
        SqlArg::Str(s)
    }
}

impl vstd::std_specs::convert::FromSpecImpl<String> for SqlArg {
    open spec fn obeys_from_spec() -> bool {
        true
    }

    open spec fn from_spec(s: String) -> Self {
        SqlArg::Str(s)
    }
}

impl From<Vec<u8>> for SqlArg {
    fn from(b: Vec<u8>) -> Self {
        SqlArg::Bytes(b)
    }
}

impl vstd::std_specs::convert::FromSpecImpl<Vec<u8>> for SqlArg {
    open spec fn obeys_from_spec() -> bool {
        true
    }

    open spec fn from_spec(b: Vec<u8>) -> Self {
        SqlArg::Bytes(b)
    }
}

impl From<bool> for SqlArg {
    fn from(b: bool) -> Self {
        SqlArg::Bool(b)
    }
}

impl vstd::std_specs::convert::FromSpecImpl<bool> for SqlArg {
    open spec fn obeys_from_spec() -> bool {
        true
    }

    open spec fn from_spec(b: bool) -> Self {
        SqlArg::Bool(b)
    }
}

impl From<i16> for SqlArg {
    fn from(n: i16) -> Self {
        SqlArg::I64(n as i64)
    }
}

impl vstd::std_specs::convert::FromSpecImpl<i16> for SqlArg {
    open spec fn obeys_from_spec() -> bool {
        true
    }

    open spec fn from_spec(n: i16) -> Self {
        SqlArg::I64(n as i64)
    }
}

impl From<i8> for SqlArg {
    fn from(n: i8) -> Self {
        SqlArg::I64(n as i64)
    }
}

impl vstd::std_specs::convert::FromSpecImpl<i8> for SqlArg {
    open spec fn obeys_from_spec() -> bool {
        true
    }

    open spec fn from_spec(n: i8) -> Self {
        SqlArg::I64(n as i64)
    }
}

impl From<u8> for SqlArg {
    fn from(n: u8) -> Self {
        SqlArg::I64(n as i64)
    }
}

impl vstd::std_specs::convert::FromSpecImpl<u8> for SqlArg {
    open spec fn obeys_from_spec() -> bool {
        true
    }

    open spec fn from_spec(n: u8) -> Self {
        SqlArg::I64(n as i64)
    }
}

impl From<u16> for SqlArg {
    fn from(n: u16) -> Self {
        SqlArg::I64(n as i64)
    }
}

impl vstd::std_specs::convert::FromSpecImpl<u16> for SqlArg {
    open spec fn obeys_from_spec() -> bool {
        true
    }

    open spec fn from_spec(n: u16) -> Self {
        SqlArg::I64(n as i64)
    }
}

impl From<u32> for SqlArg {
    fn from(n: u32) -> Self {
        SqlArg::I64(n as i64)
    }
}

impl vstd::std_specs::convert::FromSpecImpl<u32> for SqlArg {
    open spec fn obeys_from_spec() -> bool {
        true
    }

    open spec fn from_spec(n: u32) -> Self {
        SqlArg::I64(n as i64)
    }
}

/// Earliest whole second that a timestamp may fall in (start of year -9999, UTC).
pub const MIN_UNIX_SECONDS: i128 = -377_705_116_800;

/// Latest whole second that a timestamp may fall in (end of year 9999, UTC).
pub const MAX_UNIX_SECONDS: i128 = 253_402_300_799;

/// Whether `ns` nanoseconds since the epoch lie in the representable calendar range.
pub open spec fn nanos_in_range(ns: int) -> bool {
    MIN_UNIX_SECONDS * 1_000_000_000 <= ns <= MAX_UNIX_SECONDS * 1_000_000_000 + 999_999_999
}

/// Whole microseconds in `ns` nanoseconds, rounded toward zero.
pub open spec fn micros_of(ns: int) -> int {
    if ns >= 0 {
        ns / 1000
    } else {
        -((-ns) / 1000)
    }
}

/// An instant in time, as nanoseconds since the Unix epoch (UTC).
#[derive(Debug, Clone, Copy, PartialEq, Eq)]
pub struct Instant {
    pub unix_nanos: i128,
}

impl Instant {
    /// An instant lies in years -9999 through 9999.
    pub open spec fn wf(&self) -> bool {
        nanos_in_range(self.unix_nanos as int)
    }

    /// The instant `ns` nanoseconds after the epoch, if it is in range.
    pub fn from_unix_nanos(ns: i128) -> (r: Option<Instant>)
        ensures
            r is Some <==> nanos_in_range(ns as int),
            r is Some ==> r->0.unix_nanos == ns && r->0.wf(),
    {
        match datetime_nanos(ns) {
            Some(n) => Some(Instant { unix_nanos: n }),
            None => None,
        }
    }
}

/// Relies on time's `OffsetDateTime::from_unix_timestamp_nanos`: it succeeds exactly when the
/// whole seconds (rounded down) lie in years -9999 through 9999, and
/// `unix_timestamp_nanos` then gives the same count back.
#[verifier::external_body]
fn datetime_nanos(ns: i128) -> (r: Option<i128>)
    ensures
        r is Some <==> nanos_in_range(ns as int),
        r is Some ==> r->0 == ns,
{
    match time::OffsetDateTime::from_unix_timestamp_nanos(ns) {
        Ok(dt) => Some(dt.unix_timestamp_nanos()),
        Err(_) => None,
    }
}

/// An instant travels as whole microseconds, rounded toward zero.
impl From<Instant> for SqlArg {
    fn from(t: Instant) -> Self {
        let ns = t.unix_nanos;
        let magnitude: u128 = if ns >= 0 {
            ns as u128
        } else {
            (-(ns + 1)) as u128 + 1
        };
        let q = (magnitude / 1000) as i128;
        let micros: i128 = if ns >= 0 {
            q
        } else {
            -q
        };
        SqlArg::Ts(#[verifier::truncate] (micros as i64))
    }
}

impl vstd::std_specs::convert::FromSpecImpl<Instant> for SqlArg {
    open spec fn obeys_from_spec() -> bool {
        true
    }

    open spec fn from_spec(t: Instant) -> Self {
        SqlArg::Ts(micros_of(t.unix_nanos as int) as i64)
    }
}

pub open spec fn mismatch<T>(expected: Expected, v: WireValue) -> Result<T, Error> {
    Err(Error::Decode(DecodeError::TypeMismatch { expected, actual: v.kind_spec() }))
}

/// A unique identifier, as its 16 bytes in big-endian order.
#[derive(Debug, Clone, Copy, PartialEq, Eq)]
pub struct Uuid {
    pub bytes: [u8; 16],
}

impl SqlArg {
    /// The argument that carries a unique identifier: its 16 bytes.
    pub fn from_uuid(u: Uuid) -> (r: SqlArg)
        ensures
            r matches SqlArg::Bytes(b) && b@ == u.bytes@,
    {
        SqlArg::Bytes(vstd::slice::slice_to_vec(u.bytes.as_slice()))
    }
}

pub uninterp spec fn base64_of(b: Seq<u8>) -> Seq<char>;

/// Relies on base64's standard engine `encode`: padded standard-alphabet text that depends on
/// the bytes alone, empty for no bytes. It panics only where the encoded length overflows.
#[verifier::external_body]
pub(crate) fn base64_text(b: &[u8]) -> (r: String)
    requires
        b@.len() <= isize::MAX,
    ensures
        r@ == base64_of(b@),
        b@.len() == 0 ==> r@.len() == 0,
{
    base64::Engine::encode(&base64::engine::general_purpose::STANDARD, b)
}

/// Relies on uuid's `Uuid::from_slice`: it accepts exactly 16 bytes and keeps them in order.
#[verifier::external_body]
fn uuid_from_slice(b: &[u8]) -> (r: Option<[u8; 16]>)
    ensures
        r is Some <==> b@.len() == 16,
        r is Some ==> r->0@ == b@,
{
    match uuid::Uuid::from_slice(b) {
        Ok(u) => Some(u.into_bytes()),
        Err(_) => None,
    }
}

pub uninterp spec fn uuid_text_bytes(s: Seq<char>) -> Option<Seq<u8>>;

/// Relies on uuid's `Uuid::parse_str`: whether the text is accepted, and the bytes it stands
/// for, depend on the text alone.
#[verifier::external_body]
fn uuid_parse(s: &str) -> (r: Option<[u8; 16]>)
    ensures
        r is Some <==> uuid_text_bytes(s@) is Some,
        r is Some ==> uuid_text_bytes(s@) == Some(r->0@),
{
    match uuid::Uuid::parse_str(s) {
        Ok(u) => Some(u.into_bytes()),
        Err(_) => None,
    }
}

impl WireValue {
    /// A byte string is no longer than any allocation can be.
    pub open spec fn fits(&self) -> bool {
        match self {
            WireValue::ByteString(b) => b@.len() <= isize::MAX,
            _ => true,
        }
    }
}

fn type_mismatch(expected: Expected, v: &WireValue) -> (r: Error)
    ensures
        r == Error::Decode(DecodeError::TypeMismatch { expected, actual: v.kind_spec() }),
{
    let actual = v.kind();
    Error::Decode(DecodeError::TypeMismatch { expected, actual })
}

/// An application type that a wire value can be decoded into.
pub trait FromWire: Sized {
    /// Whether `r` is the outcome of decoding `v` into this type.
    spec fn decodes_to(v: WireValue, r: Result<Self, Error>) -> bool;

    fn from_wire(v: &WireValue) -> (r: Result<Self, Error>)
        requires
            v.fits(),
        ensures
            Self::decodes_to(*v, r),
    ;
}

impl FromWire for i64 {
    open spec fn decodes_to(v: WireValue, r: Result<i64, Error>) -> bool {
        match v {
            WireValue::Integer(n) => r == Ok::<i64, Error>(n),
            _ => r == mismatch::<i64>(Expected::I64, v),
        }
    }

    fn from_wire(v: &WireValue) -> (r: Result<i64, Error>) {
        match v {
            WireValue::Integer(n) => Ok(*n),
            _ => Err(type_mismatch(Expected::I64, v)),
        }
    }
}

impl FromWire for bool {
    open spec fn decodes_to(v: WireValue, r: Result<bool, Error>) -> bool {
        match v {
            WireValue::Boolean(b) => r == Ok::<bool, Error>(b),
            _ => r == mismatch::<bool>(Expected::Bool, v),
        }
    }

    fn from_wire(v: &WireValue) -> (r: Result<bool, Error>) {
        match v {
            WireValue::Boolean(b) => Ok(*b),
            _ => Err(type_mismatch(Expected::Bool, v)),
        }
    }
}

impl FromWire for String {
    /// Text comes as it is; a byte string comes as its base64 text.
    open spec fn decodes_to(v: WireValue, r: Result<String, Error>) -> bool {
        match v {
            WireValue::Utf8String(s) => r == Ok::<String, Error>(s),
            WireValue::ByteString(b) => r is Ok && r->Ok_0@ == base64_of(b@),
            _ => r == mismatch::<String>(Expected::StringOrBase64, v),
        }
    }

    fn from_wire(v: &WireValue) -> (r: Result<String, Error>) {
        match v {
            WireValue::Utf8String(s) => Ok(s.clone()),
            WireValue::ByteString(b) => Ok(base64_text(b.as_slice())),
            _ => Err(type_mismatch(Expected::StringOrBase64, v)),
        }
    }
}

impl FromWire for Vec<u8> {
    open spec fn decodes_to(v: WireValue, r: Result<Vec<u8>, Error>) -> bool {
        match v {
            WireValue::ByteString(b) => r is Ok && r->Ok_0@ == b@,
            _ => r == mismatch::<Vec<u8>>(Expected::Bytes, v),
        }
    }

    fn from_wire(v: &WireValue) -> (r: Result<Vec<u8>, Error>) {
        match v {
            WireValue::ByteString(b) => Ok(vstd::slice::slice_to_vec(b.as_slice())),
            _ => Err(type_mismatch(Expected::Bytes, v)),
        }
    }
}

impl FromWire for Instant {
    /// A timestamp of `us` microseconds is the instant `us * 1000` nanoseconds after the
    /// epoch, when that lies in the calendar range.
    open spec fn decodes_to(v: WireValue, r: Result<Instant, Error>) -> bool {
        match v {
            WireValue::Timestamp(us) => if nanos_in_range(us * 1000) {
                r == Ok::<Instant, Error>(Instant { unix_nanos: (us * 1000) as i128 })
            } else {
                r == Err::<Instant, Error>(Error::Decode(DecodeError::TimestampOutOfRange))
            },
            _ => r == mismatch::<Instant>(Expected::Timestamp, v),
        }
    }

    fn from_wire(v: &WireValue) -> (r: Result<Instant, Error>) {
        match v {
            WireValue::Timestamp(us) => {
                let ns = (*us as i128) * 1000;
                match Instant::from_unix_nanos(ns) {
                    Some(t) => Ok(t),
                    None => Err(Error::Decode(DecodeError::TimestampOutOfRange)),
                }
            },
            _ => Err(type_mismatch(Expected::Timestamp, v)),
        }
    }
}

impl FromWire for Uuid {
    /// Sixteen bytes, or text in one of the accepted identifier forms.
    open spec fn decodes_to(v: WireValue, r: Result<Uuid, Error>) -> bool {
        match v {
            WireValue::ByteString(b) => if b@.len() == 16 {
                r is Ok && r->Ok_0.bytes@ == b@
            } else {
                r == Err::<Uuid, Error>(Error::Decode(DecodeError::InvalidUuid))
            },
            WireValue::Utf8String(s) => match uuid_text_bytes(s@) {
                Some(b) => r is Ok && r->Ok_0.bytes@ == b,
                None => r == Err::<Uuid, Error>(Error::Decode(DecodeError::InvalidUuid)),
            },
            _ => r == mismatch::<Uuid>(Expected::Uuid, v),
        }
    }

    fn from_wire(v: &WireValue) -> (r: Result<Uuid, Error>) {
        match v {
            WireValue::ByteString(b) => match uuid_from_slice(b.as_slice()) {
                Some(bytes) => Ok(Uuid { bytes }),
                None => Err(Error::Decode(DecodeError::InvalidUuid)),
            },
            WireValue::Utf8String(s) => match uuid_parse(s.as_str()) {
                Some(bytes) => Ok(Uuid { bytes }),
                None => Err(Error::Decode(DecodeError::InvalidUuid)),
            },
            _ => Err(type_mismatch(Expected::Uuid, v)),
        }
    }
}

/// Decoding the wire value that an integer is bound as gives the integer back.
pub proof fn lemma_round_trip_i64(x: i64)
    ensures
        forall|r: Result<i64, Error>|
            i64::decodes_to(wire_of(<SqlArg as FromSpec<i64>>::from_spec(x)), r) <==> r == Ok::<
                i64,
                Error,
            >(x),
{
}

/// Decoding the wire value that a boolean is bound as gives the boolean back.
pub proof fn lemma_round_trip_bool(x: bool)
    ensures
        forall|r: Result<bool, Error>|
            bool::decodes_to(wire_of(<SqlArg as FromSpec<bool>>::from_spec(x)), r) <==> r == Ok::<
                bool,
                Error,
            >(x),
{
}

/// Decoding the wire value that a string is bound as gives the string back.
pub proof fn lemma_round_trip_string(x: String)
    ensures
        forall|r: Result<String, Error>|
            String::decodes_to(wire_of(<SqlArg as FromSpec<String>>::from_spec(x)), r) <==> r
                == Ok::<String, Error>(x),
{
}

/// Decoding the wire value that a byte string is bound as gives the same bytes back.
pub proof fn lemma_round_trip_bytes(x: Vec<u8>)
    ensures
        forall|r: Result<Vec<u8>, Error>|
            Vec::<u8>::decodes_to(wire_of(<SqlArg as FromSpec<Vec<u8>>>::from_spec(x)), r) <==> (
            r is Ok && r->Ok_0@ == x@),
{
}

/// Decoding the wire value that an identifier is bound as gives the same 16 bytes back.
pub proof fn lemma_round_trip_uuid(x: Uuid, a: SqlArg)
    requires
        a matches SqlArg::Bytes(b) && b@ == x.bytes@,
    ensures
        forall|r: Result<Uuid, Error>|
            Uuid::decodes_to(wire_of(a), r) <==> (r is Ok && r->Ok_0.bytes@ == x.bytes@),
{
}

/// Decoding the wire value that an instant is bound as gives the instant truncated toward
/// zero to whole microseconds.
pub proof fn lemma_round_trip_instant(x: Instant)
    requires
        x.wf(),
    ensures
        forall|r: Result<Instant, Error>|
            Instant::decodes_to(wire_of(<SqlArg as FromSpec<Instant>>::from_spec(x)), r) <==> r
                == Ok::<Instant, Error>(
                Instant { unix_nanos: (micros_of(x.unix_nanos as int) * 1000) as i128 },
            ),
{
    let ns = x.unix_nanos as int;
    let m = micros_of(ns);
    if ns >= 0 {
        assert(0 <= m * 1000 <= ns) by (nonlinear_arith)
            requires
                m == ns / 1000,
                ns >= 0,
        ;
    } else {
        assert(ns <= m * 1000 <= 0) by (nonlinear_arith)
            requires
                m == -((-ns) / 1000),
                ns < 0,
        ;
    }
    assert(i64::MIN <= m <= i64::MAX);
}

} // verus!
