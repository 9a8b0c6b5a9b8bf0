//! The wire codec: an encoded message is `<stuffed payload><delimiter>`,
//! where stuffing rewrites every payload byte so that the delimiter value
//! never occurs inside the frame body. The payload itself is a tag byte
//! followed by the message's fields, each preceded by its two-byte big-endian
//! length.

use vstd::prelude::*;
use crate::msg::{Message, MessageView};

verus! {

/// Capacity of the codec's working buffer: no encoded frame may exceed this.
/// It equals the bound a deployment puts on its receive buffer.
pub const FRAME_CAPACITY: usize = 1024;

/// The reserved frame delimiter. It terminates every frame and never occurs
/// inside a stuffed frame body.
pub const DELIMITER: u8 = 0;

/// The escape byte used by the stuffing transform.
pub const ESCAPE: u8 = 1;

/// Reasons a well-delimited frame can fail to parse as a message. All of
/// them are non-fatal to the connection: the caller reports the error and
/// waits for the next frame.
#[derive(Clone, Copy, Debug, PartialEq, Eq, Structural)]
pub enum DecodeError {
    /// The bytes do not end with the delimiter.
    MissingDelimiter,
    /// The frame is a bare delimiter with an empty body.
    EmptyFrame,
    /// The body holds an interior delimiter, a dangling escape, or an escape
    /// pair that the stuffing transform never emits.
    Stuffing,
    /// The payload's leading tag byte names no message variant.
    UnknownTag,
    /// A field length prefix disagrees with the bytes that follow it.
    FieldLength,
}

/// Raised only when a message's encoding would not fit the working buffer:
/// a configuration bug, not a runtime condition to recover from.
#[derive(Clone, Copy, Debug, PartialEq, Eq, Structural)]
pub enum EncodeError {
    Oversize,
}

/// How one payload byte appears on the wire: the delimiter and the escape
/// byte are sent as two-byte escape pairs, every other byte as itself.
pub open spec fn stuff_byte(b: u8) -> Seq<u8> {
    if b == DELIMITER {
        seq![ESCAPE, 2u8]
    } else if b == ESCAPE {
        seq![ESCAPE, 3u8]
    } else {
        seq![b]
    }
}

/// The stuffing transform over a whole payload.
pub open spec fn stuff(s: Seq<u8>) -> Seq<u8>
    decreases s.len(),
{
    if s.len() == 0 {
        Seq::empty()
    } else {
        stuff_byte(s[0]) + stuff(s.skip(1))
    }
}

/// The inverse transform. `None` when the bytes are not the image of any
/// payload: an interior delimiter, a dangling escape, or an unknown pair.
pub open spec fn unstuff(s: Seq<u8>) -> Option<Seq<u8>>
    decreases s.len(),
{
    if s.len() == 0 {
        Some(Seq::empty())
    } else if s[0] == ESCAPE {
        if s.len() == 1 {
            None
        } else if s[1] == 2u8 {
            match unstuff(s.skip(2)) {
                Some(t) => Some(seq![DELIMITER] + t),
                None => None,
            }
        } else if s[1] == 3u8 {
            match unstuff(s.skip(2)) {
                Some(t) => Some(seq![ESCAPE] + t),
                None => None,
            }
        } else {
            None
        }
    } else if s[0] == DELIMITER {
        None
    } else {
        match unstuff(s.skip(1)) {
            Some(t) => Some(seq![s[0]] + t),
            None => None,
        }
    }
}

/// The two-byte big-endian length prefix of a field.
pub open spec fn len16(n: nat) -> Seq<u8> {
    seq![(((n / 256) % 256) as u8), ((n % 256) as u8)]
}

/// A field as it stands in the payload: length prefix, then the bytes.
pub open spec fn field(f: Seq<u8>) -> Seq<u8> {
    len16(f.len()) + f
}

/// Whether every field of the message fits a two-byte length prefix.
pub open spec fn fields_fit(m: MessageView) -> bool {
    match m {
        MessageView::Registration { username, salt, params, verifier } => {
            username.len() <= 0xFFFF && salt.len() <= 0xFFFF && params.len() <= 0xFFFF
                && verifier.len() <= 0xFFFF
        },
        MessageView::StrongRegistration { username, secret_exponent, params, verifier } => {
            username.len() <= 0xFFFF && secret_exponent.len() <= 0xFFFF && params.len() <= 0xFFFF
                && verifier.len() <= 0xFFFF
        },
        MessageView::Nonce(b) => b.len() <= 0xFFFF,
        MessageView::Username(b) => b.len() <= 0xFFFF,
        MessageView::StrongUsername { username, blinded } => {
            username.len() <= 0xFFFF && blinded.len() <= 0xFFFF
        },
        MessageView::AugmentationInfo(b) => b.len() <= 0xFFFF,
        MessageView::PublicKey(b) => b.len() <= 0xFFFF,
        MessageView::Authenticator(b) => b.len() <= 0xFFFF,
    }
}

/// The discriminant byte of each variant. Never the delimiter.
pub open spec fn tag_of(m: MessageView) -> u8 {
    match m {
        MessageView::Registration { .. } => 1u8,
        MessageView::StrongRegistration { .. } => 2u8,
        MessageView::Nonce(_) => 3u8,
        MessageView::Username(_) => 4u8,
        MessageView::StrongUsername { .. } => 5u8,
        MessageView::AugmentationInfo(_) => 6u8,
        MessageView::PublicKey(_) => 7u8,
        MessageView::Authenticator(_) => 8u8,
    }
}

/// The unstuffed payload of a message: tag byte, then the fields.
pub open spec fn payload(m: MessageView) -> Seq<u8> {
    seq![tag_of(m)] + match m {
        MessageView::Registration { username, salt, params, verifier } => {
            field(username) + field(salt) + field(params) + field(verifier)
        },
        MessageView::StrongRegistration { username, secret_exponent, params, verifier } => {
            field(username) + field(secret_exponent) + field(params) + field(verifier)
        },
        MessageView::Nonce(b) => field(b),
        MessageView::Username(b) => field(b),
        MessageView::StrongUsername { username, blinded } => field(username) + field(blinded),
        MessageView::AugmentationInfo(b) => field(b),
        MessageView::PublicKey(b) => field(b),
        MessageView::Authenticator(b) => field(b),
    }
}

/// The full wire frame of a message: stuffed payload, then the delimiter.
pub open spec fn frame(m: MessageView) -> Seq<u8> {
    stuff(payload(m)) + seq![DELIMITER]
}

/// Reading one length-prefixed field off the front of a payload remainder:
/// the field and what follows it, or `None` when the prefix overruns.
pub open spec fn take_field(p: Seq<u8>) -> Option<(Seq<u8>, Seq<u8>)> {
    if p.len() < 2 {
        None
    } else {
        let n = (p[0] as int) * 256 + (p[1] as int);
        if p.len() < n + 2 {
            None
        } else {
            Some((p.subrange(2, n + 2), p.skip(n + 2)))
        }
    }
}

/// A one-field body: the single field must cover the remainder exactly.
pub open spec fn parse1(p: Seq<u8>) -> Result<Seq<u8>, DecodeError> {
    match take_field(p) {
        Some((f, rest)) => if rest.len() == 0 {
            Ok(f)
        } else {
            Err(DecodeError::FieldLength)
        },
        None => Err(DecodeError::FieldLength),
    }
}

/// A two-field body.
pub open spec fn parse2(p: Seq<u8>) -> Result<(Seq<u8>, Seq<u8>), DecodeError> {
    match take_field(p) {
        Some((f1, r1)) => match parse1(r1) {
            Ok(f2) => Ok((f1, f2)),
            Err(e) => Err(e),
        },
        None => Err(DecodeError::FieldLength),
    }
}

/// A four-field body.
pub open spec fn parse4(p: Seq<u8>) -> Result<(Seq<u8>, Seq<u8>, Seq<u8>, Seq<u8>), DecodeError> {
    match take_field(p) {
        Some((f1, r1)) => match take_field(r1) {
            Some((f2, r2)) => match parse2(r2) {
                Ok((f3, f4)) => Ok((f1, f2, f3, f4)),
                Err(e) => Err(e),
            },
            None => Err(DecodeError::FieldLength),
        },
        None => Err(DecodeError::FieldLength),
    }
}

/// Parsing an unstuffed payload into a message.
pub open spec fn parse_payload(p: Seq<u8>) -> Result<MessageView, DecodeError> {
    if p.len() == 0 {
        Err(DecodeError::UnknownTag)
    } else {
        let rest = p.skip(1);
        if p[0] == 1u8 {
            match parse4(rest) {
                Ok((username, salt, params, verifier)) => Ok(
                    MessageView::Registration { username, salt, params, verifier },
                ),
                Err(e) => Err(e),
            }
        } else if p[0] == 2u8 {
            match parse4(rest) {
                Ok((username, secret_exponent, params, verifier)) => Ok(
                    MessageView::StrongRegistration { username, secret_exponent, params, verifier },
                ),
                Err(e) => Err(e),
            }
        } else if p[0] == 3u8 {
            match parse1(rest) {
                Ok(b) => Ok(MessageView::Nonce(b)),
                Err(e) => Err(e),
            }
        } else if p[0] == 4u8 {
            match parse1(rest) {
                Ok(b) => Ok(MessageView::Username(b)),
                Err(e) => Err(e),
            }
        } else if p[0] == 5u8 {
            match parse2(rest) {
                Ok((username, blinded)) => Ok(MessageView::StrongUsername { username, blinded }),
                Err(e) => Err(e),
            }
        } else if p[0] == 6u8 {
            match parse1(rest) {
                Ok(b) => Ok(MessageView::AugmentationInfo(b)),
                Err(e) => Err(e),
            }
        } else if p[0] == 7u8 {
            match parse1(rest) {
                Ok(b) => Ok(MessageView::PublicKey(b)),
                Err(e) => Err(e),
            }
        } else if p[0] == 8u8 {
            match parse1(rest) {
                Ok(b) => Ok(MessageView::Authenticator(b)),
                Err(e) => Err(e),
            }
        } else {
            Err(DecodeError::UnknownTag)
        }
    }
}

/// Stuffing distributes over concatenation.
pub proof fn lemma_stuff_add(a: Seq<u8>, b: Seq<u8>)
    ensures
        stuff(a + b) == stuff(a) + stuff(b),
    decreases a.len(),
{
    if a.len() == 0 {
        assert(a + b =~= b);
        assert(stuff(a) + stuff(b) =~= stuff(b));
    } else {
        assert((a + b).skip(1) =~= a.skip(1) + b);
        lemma_stuff_add(a.skip(1), b);
        assert(stuff(a + b) =~= stuff_byte(a[0]) + (stuff(a.skip(1)) + stuff(b)));
        assert(stuff(a) + stuff(b) =~= stuff_byte(a[0]) + (stuff(a.skip(1)) + stuff(b)));
    }
}

/// Stuffing a single byte is its byte image.
pub proof fn lemma_stuff_singleton(b: u8)
    ensures
        stuff(seq![b]) == stuff_byte(b),
{
    let s = seq![b];
    assert(s.skip(1) =~= Seq::<u8>::empty());
    assert(stuff(s.skip(1)) =~= Seq::<u8>::empty());
    assert(stuff(s) =~= stuff_byte(b));
}

/// The delimiter never occurs in a stuffed payload.
pub proof fn lemma_stuff_no_delimiter(s: Seq<u8>)
    ensures
        forall|i: int| 0 <= i < stuff(s).len() ==> stuff(s)[i] != DELIMITER,
    decreases s.len(),
{
    if s.len() > 0 {
        lemma_stuff_no_delimiter(s.skip(1));
        assert forall|i: int| 0 <= i < stuff(s).len() implies stuff(s)[i] != DELIMITER by {
            if i < stuff_byte(s[0]).len() {
                assert(stuff(s)[i] == stuff_byte(s[0])[i]);
            } else {
                assert(stuff(s)[i] == stuff(s.skip(1))[i - stuff_byte(s[0]).len()]);
            }
        }
    }
}

/// A stuffed payload is at least as long as the payload and at most twice
/// as long.
pub proof fn lemma_stuff_len(s: Seq<u8>)
    ensures
        s.len() <= stuff(s).len() <= 2 * s.len(),
    decreases s.len(),
{
    if s.len() > 0 {
        lemma_stuff_len(s.skip(1));
    }
}

/// Unstuffing inverts stuffing.
pub proof fn lemma_unstuff_stuff(s: Seq<u8>)
    ensures
        unstuff(stuff(s)) == Some(s),
    decreases s.len(),
{
    if s.len() == 0 {
        assert(stuff(s).len() == 0);
    } else {
        lemma_unstuff_stuff(s.skip(1));
        let t = stuff(s);
        assert(t =~= stuff_byte(s[0]) + stuff(s.skip(1)));
        if s[0] == DELIMITER {
            assert(t[0] == ESCAPE && t[1] == 2u8);
            assert(t.skip(2) =~= stuff(s.skip(1)));
            assert(seq![DELIMITER] + s.skip(1) =~= s);
        } else if s[0] == ESCAPE {
            assert(t[0] == ESCAPE && t[1] == 3u8);
            assert(t.skip(2) =~= stuff(s.skip(1)));
            assert(seq![ESCAPE] + s.skip(1) =~= s);
        } else {
            assert(t[0] == s[0]);
            assert(t.skip(1) =~= stuff(s.skip(1)));
            assert(seq![s[0]] + s.skip(1) =~= s);
        }
    }
}

/// What decoding a delimited frame yields: a message, or the exact reason
/// the bytes are malformed.
pub open spec fn spec_decode(s: Seq<u8>) -> Result<MessageView, DecodeError> {
    if s.len() == 0 || s.last() != DELIMITER {
        Err(DecodeError::MissingDelimiter)
    } else if s.len() == 1 {
        Err(DecodeError::EmptyFrame)
    } else {
        match unstuff(s.drop_last()) {
            None => Err(DecodeError::Stuffing),
            Some(p) => parse_payload(p),
        }
    }
}

/// A length prefix followed by that many bytes reads back as the field it
/// was written from, leaving the remainder untouched.
pub proof fn lemma_take_field(f: Seq<u8>, rest: Seq<u8>)
    requires
        f.len() <= 0xFFFF,
    ensures
        take_field(field(f) + rest) == Some((f, rest)),
{
    let p = field(f) + rest;
    let n = f.len() as int;
    vstd::arithmetic::div_mod::lemma_fundamental_div_mod(n, 256);
    assert((p[0] as int) * 256 + (p[1] as int) == n);
    assert(p.subrange(2, n + 2) =~= f);
    assert(p.skip(n + 2) =~= rest);
}

/// A one-field body parses back to its field.
pub proof fn lemma_parse1(b: Seq<u8>)
    requires
        b.len() <= 0xFFFF,
    ensures
        parse1(field(b)) == Ok::<Seq<u8>, DecodeError>(b),
{
    lemma_take_field(b, Seq::empty());
    assert(field(b) + Seq::<u8>::empty() =~= field(b));
}

/// A two-field body parses back to its fields.
pub proof fn lemma_parse2(a: Seq<u8>, b: Seq<u8>)
    requires
        a.len() <= 0xFFFF,
        b.len() <= 0xFFFF,
    ensures
        parse2(field(a) + field(b)) == Ok::<(Seq<u8>, Seq<u8>), DecodeError>((a, b)),
{
    lemma_take_field(a, field(b));
    lemma_parse1(b);
}

/// A four-field body parses back to its fields.
pub proof fn lemma_parse4(a: Seq<u8>, b: Seq<u8>, c: Seq<u8>, d: Seq<u8>)
    requires
        a.len() <= 0xFFFF,
        b.len() <= 0xFFFF,
        c.len() <= 0xFFFF,
        d.len() <= 0xFFFF,
    ensures
        parse4(field(a) + field(b) + field(c) + field(d)) == Ok::<
            (Seq<u8>, Seq<u8>, Seq<u8>, Seq<u8>),
            DecodeError,
        >((a, b, c, d)),
{
    let p = field(a) + field(b) + field(c) + field(d);
    lemma_take_field(a, field(b) + field(c) + field(d));
    assert(p =~= field(a) + (field(b) + field(c) + field(d)));
    lemma_take_field(b, field(c) + field(d));
    assert(field(b) + field(c) + field(d) =~= field(b) + (field(c) + field(d)));
    lemma_parse2(c, d);
}

/// The frame of a message is well delimited and its body unstuffs to the
/// payload again.
proof fn lemma_frame_shape(m: MessageView)
    ensures
        frame(m).len() == stuff(payload(m)).len() + 1,
        payload(m).len() >= 2,
        frame(m).len() >= 2,
        frame(m).last() == DELIMITER,
        frame(m).drop_last() == stuff(payload(m)),
        unstuff(frame(m).drop_last()) == Some(payload(m)),
        payload(m)[0] == tag_of(m),
{
    let p = payload(m);
    lemma_stuff_len(p);
    lemma_unstuff_stuff(p);
    assert(frame(m).last() == DELIMITER);
    assert(frame(m).drop_last() =~= stuff(p));
}

/// Round trip of the wire codec: decoding the frame of any message yields
/// that message again, whatever bytes its fields hold — the delimiter value
/// Round trip for the one-field variants.
proof fn lemma_round_trip_single(m: MessageView, b: Seq<u8>)
    requires
        fields_fit(m),
        (m matches MessageView::Nonce(x) && x == b) || (m matches MessageView::Username(x) && x
            == b) || (m matches MessageView::AugmentationInfo(x) && x == b) || (m
            matches MessageView::PublicKey(x) && x == b) || (m
            matches MessageView::Authenticator(x) && x == b),
    ensures
        spec_decode(frame(m)) == Ok::<MessageView, DecodeError>(m),
{
    lemma_frame_shape(m);
    lemma_parse1(b);
    assert(payload(m).skip(1) =~= field(b));
}

/// Round trip for the two-field variant.
proof fn lemma_round_trip_pair(m: MessageView, a: Seq<u8>, b: Seq<u8>)
    requires
        fields_fit(m),
        m matches MessageView::StrongUsername { username, blinded } && username == a && blinded
            == b,
    ensures
        spec_decode(frame(m)) == Ok::<MessageView, DecodeError>(m),
{
    lemma_frame_shape(m);
    lemma_parse2(a, b);
    assert(payload(m).skip(1) =~= field(a) + field(b));
}

/// Round trip for the four-field registration variants.
proof fn lemma_round_trip_quad(m: MessageView, a: Seq<u8>, b: Seq<u8>, c: Seq<u8>, d: Seq<u8>)
    requires
        fields_fit(m),
        (m matches MessageView::Registration { username, salt, params, verifier } && username == a
            && salt == b && params == c && verifier == d) || (m
            matches MessageView::StrongRegistration { username, secret_exponent, params, verifier }
            && username == a && secret_exponent == b && params == c && verifier == d),
    ensures
        spec_decode(frame(m)) == Ok::<MessageView, DecodeError>(m),
{
    lemma_frame_shape(m);
    lemma_parse4(a, b, c, d);
    assert(payload(m).skip(1) =~= field(a) + field(b) + field(c) + field(d));
}

/// Round trip of the wire codec: decoding the frame of any message yields
/// that message again, whatever bytes its fields hold — the delimiter value
/// included. Holds for every message whose fields fit their length prefixes.
pub proof fn lemma_round_trip(m: MessageView)
    requires
        fields_fit(m),
    ensures
        spec_decode(frame(m)) == Ok::<MessageView, DecodeError>(m),
{
    match m {
        MessageView::Registration { username, salt, params, verifier } => {
            lemma_round_trip_quad(m, username, salt, params, verifier);
        },
        MessageView::StrongRegistration { username, secret_exponent, params, verifier } => {
            lemma_round_trip_quad(m, username, secret_exponent, params, verifier);
        },
        MessageView::Nonce(b) => lemma_round_trip_single(m, b),
        MessageView::Username(b) => lemma_round_trip_single(m, b),
        MessageView::StrongUsername { username, blinded } => {
            lemma_round_trip_pair(m, username, blinded);
        },
        MessageView::AugmentationInfo(b) => lemma_round_trip_single(m, b),
        MessageView::PublicKey(b) => lemma_round_trip_single(m, b),
        MessageView::Authenticator(b) => lemma_round_trip_single(m, b),
    }
}

/// Appends a byte slice to a buffer.
fn push_all(out: &mut Vec<u8>, f: &[u8])
    ensures
        final(out)@ == old(out)@ + f@,
{
    let mut i: usize = 0;
    while i < f.len()
        invariant
            i <= f.len(),
            out@ == old(out)@ + f@.take(i as int),
        decreases f.len() - i,
    {
        out.push(f[i]);
        proof {
            assert(f@.take(i + 1) =~= f@.take(i as int).push(f@[i as int]));
            assert(old(out)@ + f@.take(i + 1) =~= (old(out)@ + f@.take(i as int)).push(
                f@[i as int],
            ));
        }
        i += 1;
    }
    proof {
        assert(f@.take(f@.len() as int) =~= f@);
    }
}

/// Appends one length-prefixed field to a payload under construction.
fn push_field(out: &mut Vec<u8>, f: &Vec<u8>)
    requires
        f@.len() <= 0xFFFF,
    ensures
        final(out)@ == old(out)@ + field(f@),
{
    let n = f.len();
    out.push((n / 256) as u8);
    out.push((n % 256) as u8);
    push_all(out, f.as_slice());
    proof {
        assert(old(out)@ + field(f@) =~= old(out)@.push((((n / 256) % 256) as u8)).push(
            ((n % 256) as u8),
        ) + f@);
    }
}

/// Whether every field of the message fits a two-byte length prefix.
fn msg_fits(m: &Message) -> (r: bool)
    ensures
        r == fields_fit(m@),
{
    match m {
        Message::Registration { username, salt, params, verifier } => {
            username.len() <= 0xFFFF && salt.len() <= 0xFFFF && params.len() <= 0xFFFF
                && verifier.len() <= 0xFFFF
        },
        Message::StrongRegistration { username, secret_exponent, params, verifier } => {
            username.len() <= 0xFFFF && secret_exponent.len() <= 0xFFFF && params.len() <= 0xFFFF
                && verifier.len() <= 0xFFFF
        },
        Message::Nonce(b) => b.len() <= 0xFFFF,
        Message::Username(b) => b.len() <= 0xFFFF,
        Message::StrongUsername { username, blinded } => {
            username.len() <= 0xFFFF && blinded.len() <= 0xFFFF
        },
        Message::AugmentationInfo(b) => b.len() <= 0xFFFF,
        Message::PublicKey(b) => b.len() <= 0xFFFF,
        Message::Authenticator(b) => b.len() <= 0xFFFF,
    }
}

/// A message with an oversized field has a payload longer than any length
/// prefix can say.
proof fn lemma_unfit_payload_long(m: MessageView)
    requires
        !fields_fit(m),
    ensures
        payload(m).len() > 0xFFFF,
{
}

/// The stuffing transform, executed over a whole payload.
fn stuff_bytes(p: &Vec<u8>) -> (r: Vec<u8>)
    ensures
        r@ == stuff(p@),
{
    let mut out: Vec<u8> = Vec::new();
    let mut i: usize = 0;
    while i < p.len()
        invariant
            i <= p.len(),
            out@ == stuff(p@.take(i as int)),
        decreases p.len() - i,
    {
        let b = p[i];
        if b == DELIMITER {
            out.push(ESCAPE);
            out.push(2u8);
        } else if b == ESCAPE {
            out.push(ESCAPE);
            out.push(3u8);
        } else {
            out.push(b);
        }
        proof {
            lemma_stuff_add(p@.take(i as int), seq![p@[i as int]]);
            assert(p@.take(i as int) + seq![p@[i as int]] =~= p@.take(i + 1));
            lemma_stuff_singleton(p@[i as int]);
            assert(out@ =~= stuff(p@.take(i as int)) + stuff_byte(p@[i as int]));
        }
        i += 1;
    }
    proof {
        assert(p@.take(p@.len() as int) =~= p@);
    }
    out
}

/// Serializes a message into one delimited wire frame.
///
/// Fails exactly when the encoding would exceed the working buffer's
/// capacity; that is a configuration bug of the deployment, not a runtime
/// condition the protocol recovers from.
pub fn encode(m: &Message) -> (r: Result<Vec<u8>, EncodeError>)
    ensures
        match r {
            Ok(v) => frame(m@).len() <= FRAME_CAPACITY && v@ == frame(m@),
            Err(_) => frame(m@).len() > FRAME_CAPACITY,
        },
{
    if !msg_fits(m) {
        proof {
            lemma_unfit_payload_long(m@);
            lemma_stuff_len(payload(m@));
        }
        return Err(EncodeError::Oversize);
    }
    let mut p: Vec<u8> = Vec::new();
    match m {
        Message::Registration { username, salt, params, verifier } => {
            p.push(1u8);
            push_field(&mut p, username);
            push_field(&mut p, salt);
            push_field(&mut p, params);
            push_field(&mut p, verifier);
            proof {
                assert(p@ =~= payload(m@));
            }
        },
        Message::StrongRegistration { username, secret_exponent, params, verifier } => {
            p.push(2u8);
            push_field(&mut p, username);
            push_field(&mut p, secret_exponent);
            push_field(&mut p, params);
            push_field(&mut p, verifier);
            proof {
                assert(p@ =~= payload(m@));
            }
        },
        Message::Nonce(b) => {
            p.push(3u8);
            push_field(&mut p, b);
            proof {
                assert(p@ =~= payload(m@));
            }
        },
        Message::Username(b) => {
            p.push(4u8);
            push_field(&mut p, b);
            proof {
                assert(p@ =~= payload(m@));
            }
        },
        Message::StrongUsername { username, blinded } => {
            p.push(5u8);
            push_field(&mut p, username);
            push_field(&mut p, blinded);
            proof {
                assert(p@ =~= payload(m@));
            }
        },
        Message::AugmentationInfo(b) => {
            p.push(6u8);
            push_field(&mut p, b);
            proof {
                assert(p@ =~= payload(m@));
            }
        },
        Message::PublicKey(b) => {
            p.push(7u8);
            push_field(&mut p, b);
            proof {
                assert(p@ =~= payload(m@));
            }
        },
        Message::Authenticator(b) => {
            p.push(8u8);
            push_field(&mut p, b);
            proof {
                assert(p@ =~= payload(m@));
            }
        },
    }
    let mut w = stuff_bytes(&p);
    w.push(DELIMITER);
    proof {
        assert(w@ =~= frame(m@));
    }
    if w.len() <= FRAME_CAPACITY {
        Ok(w)
    } else {
        Err(EncodeError::Oversize)
    }
}

/// The inverse stuffing transform, executed over a frame body.
fn unstuff_bytes(s: &[u8]) -> (r: Option<Vec<u8>>)
    ensures
        match r {
            Some(v) => unstuff(s@) == Some(v@),
            None => unstuff(s@) is None,
        },
{
    let n = s.len();
    let mut out: Vec<u8> = Vec::new();
    let mut i: usize = 0;
    proof {
        assert(s@.skip(0) =~= s@);
    }
    while i < n
        invariant
            i <= n,
            n == s@.len(),
            unstuff(s@) == match unstuff(s@.skip(i as int)) {
                Some(t) => Some(out@ + t),
                None => None::<Seq<u8>>,
            },
        decreases n - i,
    {
        let b = s[i];
        if b == ESCAPE {
            if i + 1 == n {
                return None;
            }
            let c = s[i + 1];
            proof {
                assert(s@.skip(i as int).skip(2) =~= s@.skip(i + 2));
            }
            let ghost prev = out@;
            if c == 2u8 {
                out.push(DELIMITER);
                proof {
                    if unstuff(s@.skip(i + 2)) is Some {
                        let t = unstuff(s@.skip(i + 2)).unwrap();
                        assert(out@ + t =~= prev + (seq![DELIMITER] + t));
                    }
                }
            } else if c == 3u8 {
                out.push(ESCAPE);
                proof {
                    if unstuff(s@.skip(i + 2)) is Some {
                        let t = unstuff(s@.skip(i + 2)).unwrap();
                        assert(out@ + t =~= prev + (seq![ESCAPE] + t));
                    }
                }
            } else {
                return None;
            }
            i += 2;
        } else if b == DELIMITER {
            return None;
        } else {
            let ghost prev = out@;
            out.push(b);
            proof {
                assert(s@.skip(i as int).skip(1) =~= s@.skip(i + 1));
                if unstuff(s@.skip(i + 1)) is Some {
                    let t = unstuff(s@.skip(i + 1)).unwrap();
                    assert(out@ + t =~= prev + (seq![b] + t));
                }
            }
            i += 1;
        }
    }
    proof {
        assert(s@.skip(n as int) =~= Seq::<u8>::empty());
        assert(out@ + Seq::<u8>::empty() =~= out@);
    }
    Some(out)
}

/// Reads one length-prefixed field out of a payload, from `pos` on.
fn read_field(p: &Vec<u8>, pos: usize) -> (r: Option<(Vec<u8>, usize)>)
    requires
        pos <= p@.len(),
    ensures
        match r {
            Some(t) => {
                &&& take_field(p@.skip(pos as int)) == Some((t.0@, p@.skip(t.1 as int)))
                &&& pos + 2 <= t.1 <= p@.len()
            },
            None => take_field(p@.skip(pos as int)) is None,
        },
{
    if p.len() - pos < 2 {
        return None;
    }
    let n: usize = (p[pos] as usize) * 256 + (p[pos + 1] as usize);
    if p.len() - pos - 2 < n {
        return None;
    }
    let stop = pos + 2 + n;
    let mut f: Vec<u8> = Vec::new();
    let mut j: usize = pos + 2;
    while j < stop
        invariant
            pos + 2 <= j <= stop,
            stop <= p@.len(),
            f@ == p@.subrange(pos + 2, j as int),
        decreases stop - j,
    {
        f.push(p[j]);
        proof {
            assert(p@.subrange(pos + 2, j + 1) =~= p@.subrange(pos + 2, j as int).push(
                p@[j as int],
            ));
        }
        j += 1;
    }
    proof {
        let q = p@.skip(pos as int);
        assert(q.subrange(2, n + 2) =~= p@.subrange(pos + 2, stop as int));
        assert(q.skip(n + 2) =~= p@.skip(stop as int));
    }
    Some((f, stop))
}

/// Parses a one-field body after the tag.
fn parse_one(p: &Vec<u8>) -> (r: Result<Vec<u8>, DecodeError>)
    requires
        p@.len() >= 1,
    ensures
        match r {
            Ok(f) => parse1(p@.skip(1)) == Ok::<Seq<u8>, DecodeError>(f@),
            Err(e) => parse1(p@.skip(1)) == Err::<Seq<u8>, DecodeError>(e),
        },
{
    match read_field(p, 1) {
        Some((f, pos)) => {
            if pos == p.len() {
                proof {
                    assert(p@.skip(pos as int) =~= Seq::<u8>::empty());
                }
                Ok(f)
            } else {
                Err(DecodeError::FieldLength)
            }
        },
        None => Err(DecodeError::FieldLength),
    }
}

/// Parses a two-field body after the tag.
fn parse_two(p: &Vec<u8>) -> (r: Result<(Vec<u8>, Vec<u8>), DecodeError>)
    requires
        p@.len() >= 1,
    ensures
        match r {
            Ok(t) => parse2(p@.skip(1)) == Ok::<(Seq<u8>, Seq<u8>), DecodeError>((t.0@, t.1@)),
            Err(e) => parse2(p@.skip(1)) == Err::<(Seq<u8>, Seq<u8>), DecodeError>(e),
        },
{
    match read_field(p, 1) {
        Some((f1, pos1)) => {
            match read_field(p, pos1) {
                Some((f2, pos2)) => {
                    if pos2 == p.len() {
                        proof {
                            assert(p@.skip(pos2 as int) =~= Seq::<u8>::empty());
                        }
                        Ok((f1, f2))
                    } else {
                        Err(DecodeError::FieldLength)
                    }
                },
                None => Err(DecodeError::FieldLength),
            }
        },
        None => Err(DecodeError::FieldLength),
    }
}

/// Parses a four-field body after the tag.
fn parse_four(p: &Vec<u8>) -> (r: Result<(Vec<u8>, Vec<u8>, Vec<u8>, Vec<u8>), DecodeError>)
    requires
        p@.len() >= 1,
    ensures
        match r {
            Ok(t) => parse4(p@.skip(1)) == Ok::<(Seq<u8>, Seq<u8>, Seq<u8>, Seq<u8>), DecodeError>(
                (t.0@, t.1@, t.2@, t.3@),
            ),
            Err(e) => parse4(p@.skip(1)) == Err::<
                (Seq<u8>, Seq<u8>, Seq<u8>, Seq<u8>),
                DecodeError,
            >(e),
        },
{
    match read_field(p, 1) {
        Some((f1, pos1)) => {
            match read_field(p, pos1) {
                Some((f2, pos2)) => {
                    match read_field(p, pos2) {
                        Some((f3, pos3)) => {
                            match read_field(p, pos3) {
                                Some((f4, pos4)) => {
                                    if pos4 == p.len() {
                                        proof {
                                            assert(p@.skip(pos4 as int) =~= Seq::<u8>::empty());
                                        }
                                        Ok((f1, f2, f3, f4))
                                    } else {
                                        Err(DecodeError::FieldLength)
                                    }
                                },
                                None => Err(DecodeError::FieldLength),
                            }
                        },
                        None => Err(DecodeError::FieldLength),
                    }
                },
                None => Err(DecodeError::FieldLength),
            }
        },
        None => Err(DecodeError::FieldLength),
    }
}

/// Parses one delimited frame into a message, or says exactly why the bytes
/// are malformed. Decode failures are non-fatal: the caller reports them and
/// waits for the next frame.
pub fn decode(bytes: &[u8]) -> (r: Result<Message, DecodeError>)
    ensures
        match r {
            Ok(msg) => spec_decode(bytes@) == Ok::<MessageView, DecodeError>(msg@),
            Err(e) => spec_decode(bytes@) == Err::<MessageView, DecodeError>(e),
        },
{
    let n = bytes.len();
    if n == 0 || bytes[n - 1] != DELIMITER {
        return Err(DecodeError::MissingDelimiter);
    }
    if n == 1 {
        return Err(DecodeError::EmptyFrame);
    }
    let body = &bytes[0..n - 1];
    proof {
        assert(body@ =~= bytes@.drop_last());
    }
    let p = match unstuff_bytes(body) {
        Some(p) => p,
        None => {
            return Err(DecodeError::Stuffing);
        },
    };
    if p.len() == 0 {
        return Err(DecodeError::UnknownTag);
    }
    let tag = p[0];
    if tag == 1u8 {
        match parse_four(&p) {
            Ok((username, salt, params, verifier)) => Ok(
                Message::Registration { username, salt, params, verifier },
            ),
            Err(e) => Err(e),
        }
    } else if tag == 2u8 {
        match parse_four(&p) {
            Ok((username, secret_exponent, params, verifier)) => Ok(
                Message::StrongRegistration { username, secret_exponent, params, verifier },
            ),
            Err(e) => Err(e),
        }
    } else if tag == 3u8 {
        match parse_one(&p) {
            Ok(b) => Ok(Message::Nonce(b)),
            Err(e) => Err(e),
        }
    } else if tag == 4u8 {
        match parse_one(&p) {
            Ok(b) => Ok(Message::Username(b)),
            Err(e) => Err(e),
        }
    } else if tag == 5u8 {
        match parse_two(&p) {
            Ok((username, blinded)) => Ok(Message::StrongUsername { username, blinded }),
            Err(e) => Err(e),
        }
    } else if tag == 6u8 {
        match parse_one(&p) {
            Ok(b) => Ok(Message::AugmentationInfo(b)),
            Err(e) => Err(e),
        }
    } else if tag == 7u8 {
        match parse_one(&p) {
            Ok(b) => Ok(Message::PublicKey(b)),
            Err(e) => Err(e),
        }
    } else if tag == 8u8 {
        match parse_one(&p) {
            Ok(b) => Ok(Message::Authenticator(b)),
            Err(e) => Err(e),
        }
    } else {
        Err(DecodeError::UnknownTag)
    }
}

} // verus!
