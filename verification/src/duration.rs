//! A duration of time with nanosecond precision, in the range of a signed 64-bit number of
//! milliseconds, written as whole seconds and nanoseconds.

use vstd::prelude::*;
use crate::binary::{
    be_i32, be_i64, decode_i32_at, decode_i64_at, lemma_parse_i32_prefix, lemma_parse_i64_prefix,
    parse_i32, parse_i64, push_i32, push_i64,
};
use crate::codec::{decoded, fq_bytes, shift, Parsed};
use crate::error::{DecodeError, EncodeError};

verus! {

/// A duration: whole seconds, rounded down, and the nanoseconds past them. It is valid when
/// `wf` holds: the nanoseconds are under a second and the whole lies within `i64::MAX`
/// milliseconds either way.
#[derive(Debug, Clone, Copy, PartialEq, Eq, Structural)]
pub struct Duration {
    pub secs: i64,
    pub nanos: i32,
}

impl DeepView for Duration {
    type V = Duration;

    open spec fn deep_view(&self) -> Duration {
        *self
    }
}

/// The number of nanoseconds in a second.
pub open spec fn nanos_per_sec() -> int {
    1_000_000_000
}

/// The largest number of whole seconds that a duration can start from: `i64::MAX`
/// milliseconds in seconds.
pub open spec fn max_duration_secs() -> int {
    i64::MAX / 1000
}

/// The largest duration in nanoseconds: `i64::MAX` milliseconds.
pub open spec fn max_duration_nanos() -> int {
    i64::MAX * 1_000_000
}

/// The number of nanoseconds that a duration stands for.
pub open spec fn duration_nanos(d: Duration) -> int {
    d.secs * nanos_per_sec() + d.nanos
}

impl Duration {
    /// Whether the duration is valid.
    pub open spec fn wf(&self) -> bool {
        &&& 0 <= self.nanos < nanos_per_sec()
        &&& -max_duration_nanos() <= duration_nanos(*self) <= max_duration_nanos()
    }
}

/// The duration of `t` nanoseconds: whole seconds rounded down, and the rest.
pub open spec fn duration_of_nanos(t: int) -> Duration {
    Duration { secs: (t / nanos_per_sec()) as i64, nanos: (t % nanos_per_sec()) as i32 }
}

/// The partial form of a duration: its whole seconds as a 64-bit integer, then its
/// nanoseconds as a 32-bit integer.
pub open spec fn duration_partial_bytes(d: Duration) -> Seq<u8> {
    be_i64(d.secs) + be_i32(d.nanos)
}

/// Reads the partial form of a duration: seconds, then nanoseconds, added together. Seconds
/// beyond `max_duration_secs` either way, or a sum beyond `max_duration_nanos` either way,
/// are not read (the reader gives up).
pub open spec fn parse_duration_partial(s: Seq<u8>) -> Parsed<Duration> {
    match parse_i64(s) {
        Parsed::Done(secs, _) => match parse_i32(s.skip(8)) {
            Parsed::Done(nanos, _) => if secs < -max_duration_secs() || secs > max_duration_secs() {
                Parsed::Abort
            } else {
                let t = secs * nanos_per_sec() + nanos;
                if t < -max_duration_nanos() || t > max_duration_nanos() {
                    Parsed::Abort
                } else {
                    Parsed::Done(duration_of_nanos(t), 12)
                }
            },
            Parsed::Fail(e) => Parsed::Fail(e),
            Parsed::Abort => Parsed::Abort,
        },
        Parsed::Fail(e) => Parsed::Fail(e),
        Parsed::Abort => Parsed::Abort,
    }
}

/// Reads a fully qualified duration: the type code 0x81 and the set flag, else a
/// `TypeMismatch`, then the partial form.
pub open spec fn parse_duration(s: Seq<u8>) -> Parsed<Duration> {
    if s.len() < 2 {
        Parsed::Fail(DecodeError::UnexpectedEof)
    } else if s[0] == 0x81u8 && s[1] == 0x00u8 {
        shift(parse_duration_partial(s.skip(2)), 2)
    } else {
        Parsed::Fail(DecodeError::TypeMismatch)
    }
}

impl Duration {
    /// Appends the partial form of the duration; a negative duration has none.
    pub fn partial_encode(&self, out: &mut Vec<u8>) -> (r: Result<(), EncodeError>)
        requires
            self.wf(),
        ensures
            self.secs < 0 ==> r == Err::<(), EncodeError>(EncodeError::OutOfRange) && final(out)@
                == old(out)@,
            self.secs >= 0 ==> r is Ok && final(out)@ == old(out)@ + duration_partial_bytes(*self),
    {
        if self.secs < 0 {
            return Err(EncodeError::OutOfRange);
        }
        push_i64(out, self.secs);
        push_i32(out, self.nanos);
        assert(out@ =~= old(out)@ + duration_partial_bytes(*self));
        Ok(())
    }

    /// Appends the fully qualified bytes of the duration: the type code 0x81, the set flag
    /// and the partial form; a negative duration has none, and nothing is appended.
    pub fn encode(&self, out: &mut Vec<u8>) -> (r: Result<(), EncodeError>)
        requires
            self.wf(),
        ensures
            self.secs < 0 ==> r == Err::<(), EncodeError>(EncodeError::OutOfRange) && final(out)@
                == old(out)@,
            self.secs >= 0 ==> r is Ok && final(out)@ == old(out)@ + fq_bytes(
                0x81u8,
                duration_partial_bytes(*self),
            ),
    {
        if self.secs < 0 {
            return Err(EncodeError::OutOfRange);
        }
        out.push(0x81u8);
        out.push(0x00u8);
        let r = self.partial_encode(out);
        assert(out@ =~= old(out)@ + fq_bytes(0x81u8, duration_partial_bytes(*self)));
        r
    }

    /// Reads the partial form of a duration at `pos`.
    pub fn partial_decode(buf: &[u8], pos: usize) -> (r: Result<(Duration, usize), DecodeError>)
        requires
            pos <= buf@.len(),
            !(parse_duration_partial(buf@.skip(pos as int)) is Abort),
        ensures
            decoded(parse_duration_partial(buf@.skip(pos as int)), r, pos as int, buf@.len() as int),
            r matches Ok((d, _)) ==> d.wf(),
    {
        let (secs, p8) = match decode_i64_at(buf, pos) {
            Ok(x) => x,
            Err(e) => return Err(e),
        };
        proof {
            assert(buf@.skip(pos as int).skip(8) =~= buf@.skip(p8 as int));
        }
        let (nanos, p12) = match decode_i32_at(buf, p8) {
            Ok(x) => x,
            Err(e) => return Err(e),
        };
        let ghost t = secs * nanos_per_sec() + nanos;
        let mut s: i64 = secs;
        let mut n: i64 = nanos as i64;
        if n >= 1_000_000_000 {
            n = n - 1_000_000_000;
            s = s + 1;
        }
        if n >= 1_000_000_000 {
            n = n - 1_000_000_000;
            s = s + 1;
        }
        if n < 0 {
            n = n + 1_000_000_000;
            s = s - 1;
        }
        if n < 0 {
            n = n + 1_000_000_000;
            s = s - 1;
        }
        if n < 0 {
            n = n + 1_000_000_000;
            s = s - 1;
        }
        proof {
            assert(0 <= n < 1_000_000_000);
            assert(t == s * nanos_per_sec() + n);
            vstd::arithmetic::div_mod::lemma_fundamental_div_mod_converse(t, nanos_per_sec(), s as int, n as int);
        }
        let d = Duration { secs: s, nanos: n as i32 };
        Ok((d, p12))
    }

    /// Reads a fully qualified duration at `pos`.
    pub fn decode(buf: &[u8], pos: usize) -> (r: Result<(Duration, usize), DecodeError>)
        requires
            pos <= buf@.len(),
            !(parse_duration(buf@.skip(pos as int)) is Abort),
        ensures
            decoded(parse_duration(buf@.skip(pos as int)), r, pos as int, buf@.len() as int),
            r matches Ok((d, _)) ==> d.wf(),
    {
        if buf.len() - pos < 2 {
            return Err(DecodeError::UnexpectedEof);
        }
        if buf[pos] == 0x81u8 && buf[pos + 1] == 0x00u8 {
            proof {
                assert(buf@.skip(pos as int).skip(2) =~= buf@.skip(pos + 2));
            }
            Self::partial_decode(buf, pos + 2)
        } else {
            Err(DecodeError::TypeMismatch)
        }
    }
}

/// Reading the bytes of a valid duration that is not negative, whatever bytes follow them,
/// gives the duration back and takes exactly its bytes.
pub proof fn lemma_duration_roundtrip(d: Duration, rest: Seq<u8>)
    requires
        d.wf(),
        d.secs >= 0,
    ensures
        parse_duration(fq_bytes(0x81u8, duration_partial_bytes(d)) + rest) == Parsed::Done(
            d,
            fq_bytes(0x81u8, duration_partial_bytes(d)).len() as int,
        ),
{
    let s = fq_bytes(0x81u8, duration_partial_bytes(d)) + rest;
    let t = s.skip(2);
    assert(t =~= be_i64(d.secs) + (be_i32(d.nanos) + rest));
    lemma_parse_i64_prefix(d.secs, be_i32(d.nanos) + rest);
    assert(t.skip(8) =~= be_i32(d.nanos) + rest);
    lemma_parse_i32_prefix(d.nanos, rest);
    assert(d.secs * nanos_per_sec() <= duration_nanos(d));
    assert(d.secs <= max_duration_secs()) by (nonlinear_arith)
        requires
            d.secs * 1_000_000_000 <= i64::MAX * 1_000_000,
            d.secs >= 0,
    ;
    vstd::arithmetic::div_mod::lemma_fundamental_div_mod_converse(
        duration_nanos(d),
        nanos_per_sec(),
        d.secs as int,
        d.nanos as int,
    );
}

} // verus!
