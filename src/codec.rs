use crate::command::{Command, LedCommand, MotorCommand};
use vstd::prelude::*;
use vstd::slice::slice_subrange;

verus! {

/// Why a byte sequence is not the frame of a command.
#[derive(Debug, Clone, Copy, PartialEq, Eq, Structural)]
pub enum DecodeError {
    /// The stuffing is inconsistent: no terminator, a delimiter before the
    /// end, a block that runs past the end, or a payload of the wrong shape.
    Malformed,
    /// The first payload byte names no command.
    UnknownVariant,
}

/// The byte that ends every frame and occurs nowhere else in it.
pub const DELIMITER: u8 = 0;

/// The unstuffed wire layout: the variant's number, then its fields in order,
/// one byte each.
pub open spec fn payload_of(c: Command) -> Seq<u8> {
    match c {
        Command::ResetToUsbBoot => seq![0u8],
        Command::MotorCommand(m) => seq![1u8, m.a as u8, m.b as u8, m.c as u8, m.d as u8],
        Command::LedCommand(l) => seq![2u8, if l.status { 1u8 } else { 0u8 }],
    }
}

/// Index of the first zero byte of `s`, or its length when it has none.
pub open spec fn first_zero(s: Seq<u8>) -> nat
    decreases s.len(),
{
    if s.len() == 0 || s[0] == 0 {
        0
    } else {
        1 + first_zero(s.drop_first())
    }
}

/// Consistent overhead byte stuffing of a sequence shorter than 254 bytes:
/// each run of non-zero bytes up to the next zero (or the end) becomes its
/// length plus one, followed by the run; the zero itself is left out.
pub open spec fn cobs_stuffed(s: Seq<u8>) -> Seq<u8>
    decreases s.len(),
{
    let k = first_zero(s) as int;
    if k >= s.len() {
        seq![(k + 1) as u8] + s
    } else {
        seq![(k + 1) as u8] + s.subrange(0, k as int) + cobs_stuffed(
            s.subrange(k + 1 as int, s.len() as int),
        )
    }
}

/// The frame of a command: its stuffed payload and the delimiter.
pub open spec fn frame_of(c: Command) -> Seq<u8> {
    cobs_stuffed(payload_of(c)).push(DELIMITER)
}

/// Undoes the stuffing of a block sequence: `None` where a code byte is zero
/// or its block runs past the end. A block with code 255 is followed by no
/// implied zero; the last block is followed by none either.
pub open spec fn unstuff(b: Seq<u8>) -> Option<Seq<u8>>
    decreases b.len(),
{
    if b.len() == 0 {
        None
    } else {
        let code = b[0] as int;
        if code == 0 || code > b.len() {
            None
        } else {
            let group = b.subrange(1, code);
            let rest = b.subrange(code, b.len() as int);
            if rest.len() == 0 {
                Some(group)
            } else {
                match unstuff(rest) {
                    None => None,
                    Some(r) => Some(
                        if code == 255 {
                            group + r
                        } else {
                            group + seq![0u8] + r
                        },
                    ),
                }
            }
        }
    }
}

/// Ends in the delimiter and holds it nowhere else.
pub open spec fn delimited(f: Seq<u8>) -> bool {
    &&& f.len() > 0
    &&& f.last() == DELIMITER
    &&& forall|i: int| 0 <= i < f.len() - 1 ==> f[i] != DELIMITER
}

/// Reads a command back from an unstuffed payload.
pub open spec fn parse_payload(p: Seq<u8>) -> Result<Command, DecodeError> {
    if p.len() == 0 {
        Err(DecodeError::Malformed)
    } else if p[0] == 0 {
        if p.len() == 1 {
            Ok(Command::ResetToUsbBoot)
        } else {
            Err(DecodeError::Malformed)
        }
    } else if p[0] == 1 {
        if p.len() == 5 {
            Ok(
                Command::MotorCommand(
                    MotorCommand { a: p[1] as i8, b: p[2] as i8, c: p[3] as i8, d: p[4] as i8 },
                ),
            )
        } else {
            Err(DecodeError::Malformed)
        }
    } else if p[0] == 2 {
        if p.len() == 2 && p[1] <= 1 {
            Ok(Command::LedCommand(LedCommand { status: p[1] == 1 }))
        } else {
            Err(DecodeError::Malformed)
        }
    } else {
        Err(DecodeError::UnknownVariant)
    }
}

/// What decoding a byte sequence as one frame gives.
pub open spec fn decode_spec(f: Seq<u8>) -> Result<Command, DecodeError> {
    if !delimited(f) {
        Err(DecodeError::Malformed)
    } else {
        match unstuff(f.drop_last()) {
            None => Err(DecodeError::Malformed),
            Some(p) => parse_payload(p),
        }
    }
}

/// Relies on cobs::encode_vec: for a source shorter than 254 bytes it writes
/// one code byte per zero-free run followed by the run, without a terminator.
#[verifier::external_body]
fn cobs_encode(source: &[u8]) -> (r: Vec<u8>)
    requires
        source@.len() < 254,
    ensures
        r@ == cobs_stuffed(source@),
{
    cobs::encode_vec(source)
}

/// The unstuffed payload of a command.
pub fn to_payload(cmd: &Command) -> (r: Vec<u8>)
    ensures
        r@ == payload_of(*cmd),
{
    let r = match cmd {
        Command::ResetToUsbBoot => vec![0u8],
        Command::MotorCommand(m) => vec![1u8, m.a as u8, m.b as u8, m.c as u8, m.d as u8],
        Command::LedCommand(l) => vec![2u8, if l.status { 1u8 } else { 0u8 }],
    };
    assert(r@ =~= payload_of(*cmd));
    r
}

/// The frame of a command, ready to be written to the link.
pub fn encode(cmd: &Command) -> (r: Vec<u8>)
    ensures
        r@ == frame_of(*cmd),
{
    let payload = to_payload(cmd);
    let mut r = cobs_encode(payload.as_slice());
    r.push(DELIMITER);
    r
}

/// Unstuffs `b` from `start` on, as `unstuff` says.
fn unstuff_from(b: &[u8], start: usize) -> (r: Option<Vec<u8>>)
    requires
        start <= b@.len(),
    ensures
        match r {
            Some(v) => unstuff(b@.subrange(start as int, b@.len() as int)) == Some(v@),
            None => unstuff(b@.subrange(start as int, b@.len() as int)) is None,
        },
    decreases b@.len() - start,
{
    let ghost s = b@.subrange(start as int, b@.len() as int);
    if start == b.len() {
        return None;
    }
    let code = b[start] as usize;
    if code == 0 || code > b.len() - start {
        return None;
    }
    let mut group: Vec<u8> = Vec::new();
    let end = start + code;
    let mut i: usize = start + 1;
    while i < end
        invariant
            end == start + code,
            start + 1 <= i <= end <= b@.len(),
            group@ == b@.subrange(start + 1, i as int),
        decreases end - i,
    {
        group.push(b[i]);
        i = i + 1;
        assert(group@ =~= b@.subrange(start + 1, i as int));
    }
    assert(group@ =~= s.subrange(1, code as int));
    assert(b@.subrange((start + code) as int, b@.len() as int) =~= s.subrange(
        code as int,
        s.len() as int,
    ));
    if start + code == b.len() {
        return Some(group);
    }
    match unstuff_from(b, start + code) {
        None => None,
        Some(mut rest) => {
            if code != 255 {
                group.push(0);
            }
            group.append(&mut rest);
            Some(group)
        },
    }
}

/// Reads a command back from an unstuffed payload.
pub fn parse(p: &[u8]) -> (r: Result<Command, DecodeError>)
    ensures
        r == parse_payload(p@),
{
    if p.len() == 0 {
        Err(DecodeError::Malformed)
    } else if p[0] == 0 {
        if p.len() == 1 {
            Ok(Command::ResetToUsbBoot)
        } else {
            Err(DecodeError::Malformed)
        }
    } else if p[0] == 1 {
        if p.len() == 5 {
            Ok(
                Command::MotorCommand(
                    MotorCommand { a: p[1] as i8, b: p[2] as i8, c: p[3] as i8, d: p[4] as i8 },
                ),
            )
        } else {
            Err(DecodeError::Malformed)
        }
    } else if p[0] == 2 {
        if p.len() == 2 && p[1] <= 1 {
            Ok(Command::LedCommand(LedCommand { status: p[1] == 1 }))
        } else {
            Err(DecodeError::Malformed)
        }
    } else {
        Err(DecodeError::UnknownVariant)
    }
}

/// Reads one frame: the bytes up to and including its delimiter.
pub fn decode(frame: &[u8]) -> (r: Result<Command, DecodeError>)
    ensures
        r == decode_spec(frame@),
{
    let n = frame.len();
    if n == 0 || frame[n - 1] != DELIMITER {
        return Err(DecodeError::Malformed);
    }
    let mut i: usize = 0;
    while i < n - 1
        invariant
            n == frame@.len(),
            n > 0,
            i <= n - 1,
            forall|j: int| 0 <= j < i ==> frame@[j] != DELIMITER,
        decreases n - 1 - i,
    {
        if frame[i] == DELIMITER {
            return Err(DecodeError::Malformed);
        }
        i = i + 1;
    }
    let body = slice_subrange(frame, 0, n - 1);
    assert(body@ =~= frame@.drop_last());
    assert(body@.subrange(0, body@.len() as int) =~= body@);
    match unstuff_from(body, 0) {
        None => Err(DecodeError::Malformed),
        Some(p) => parse(p.as_slice()),
    }
}

proof fn lemma_first_zero(s: Seq<u8>)
    ensures
        first_zero(s) <= s.len(),
        forall|i: int| 0 <= i < first_zero(s) ==> s[i] != 0,
        first_zero(s) < s.len() ==> s[first_zero(s) as int] == 0,
    decreases s.len(),
{
    if s.len() > 0 && s[0] != 0 {
        lemma_first_zero(s.drop_first());
        assert forall|i: int| 0 <= i < first_zero(s) implies s[i] != 0 by {
            if i > 0 {
                assert(s[i] == s.drop_first()[i - 1]);
            }
        }
    }
}

/// Stuffing a short sequence leaves no zero byte, and unstuffing gives the
/// sequence back.
proof fn lemma_stuffed(s: Seq<u8>)
    requires
        s.len() < 254,
    ensures
        cobs_stuffed(s).len() > 0,
        forall|i: int| 0 <= i < cobs_stuffed(s).len() ==> cobs_stuffed(s)[i] != 0,
        unstuff(cobs_stuffed(s)) == Some(s),
    decreases s.len(),
{
    lemma_first_zero(s);
    let k = first_zero(s) as int;
    let st = cobs_stuffed(s);
    let code = (k + 1) as u8;
    assert(code as int == k + 1);
    if k >= s.len() {
        assert(st == seq![code] + s);
        assert(st.subrange(1, k + 1) =~= s);
        assert(st.subrange(k + 1, st.len() as int).len() == 0);
        assert forall|i: int| 0 <= i < st.len() implies st[i] != 0 by {
            if i > 0 {
                assert(st[i] == s[i - 1]);
            }
        }
    } else {
        let t = s.subrange(k + 1, s.len() as int);
        let g = s.subrange(0, k);
        lemma_stuffed(t);
        let tt = cobs_stuffed(t);
        assert(st == seq![code] + g + tt);
        assert(st.subrange(1, k + 1) =~= g);
        assert(st.subrange(k + 1, st.len() as int) =~= tt);
        assert(g + seq![0u8] + t =~= s);
        assert forall|i: int| 0 <= i < st.len() implies st[i] != 0 by {
            if 0 < i <= k {
                assert(st[i] == s[i - 1]);
            } else if i > k {
                assert(st[i] == tt[i - k - 1]);
            }
        }
    }
}

proof fn lemma_byte_cast(x: i8)
    ensures
        x as u8 as i8 == x,
{
    assert(x as u8 as i8 == x) by (bit_vector);
}

/// Every frame ends in the delimiter and holds it nowhere else.
pub proof fn lemma_frame_delimited(c: Command)
    ensures
        delimited(frame_of(c)),
{
    let p = payload_of(c);
    lemma_stuffed(p);
    let st = cobs_stuffed(p);
    let f = frame_of(c);
    assert forall|i: int| 0 <= i < f.len() - 1 implies f[i] != DELIMITER by {
        assert(f[i] == st[i]);
    }
}

/// Decoding the frame of a command gives the command back.
pub proof fn lemma_round_trip(c: Command)
    ensures
        decode_spec(frame_of(c)) == Ok::<Command, DecodeError>(c),
{
    let p = payload_of(c);
    lemma_frame_delimited(c);
    lemma_stuffed(p);
    assert(frame_of(c).drop_last() =~= cobs_stuffed(p));
    match c {
        Command::ResetToUsbBoot => {},
        Command::MotorCommand(m) => {
            lemma_byte_cast(m.a);
            lemma_byte_cast(m.b);
            lemma_byte_cast(m.c);
            lemma_byte_cast(m.d);
        },
        Command::LedCommand(l) => {},
    }
}

/// Equal commands have the same frame: encoding depends on the command alone.
pub proof fn lemma_encode_deterministic(c1: Command, c2: Command)
    requires
        c1 == c2,
    ensures
        frame_of(c1) == frame_of(c2),
{
}

} // verus!
