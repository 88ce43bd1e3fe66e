//! The binary message layer: the fixed 20-byte header, outbound body
//! truncation, response-header classification, the resolved schedule
//! bitmaps, and the application of remote triggers from a heartbeat
//! response.
//!
//! Opening the TLS connection and moving bytes over it is I/O and stays
//! outside the library; everything decided about those bytes is here.

use vstd::prelude::*;
use vstd::string::StringSliceAdditionalSpecFns;

use crate::cron::Cron;
use crate::text::{bytes_eq, is_ws, ws};

verus! {

/// Largest body sent in one message; longer outbound bodies are truncated.
pub const MAX_OUT: usize = 512;

/// Largest body accepted in a response; a longer declared length is a
/// protocol violation.
pub const MAX_IN: usize = 512;

/// Bytes in the fixed header: length (2), version, type, device id (16).
pub const HDR_LEN: usize = 20;

/// Response id byte reserved for application-level errors.
pub const ERRCODE: u8 = 0x52;

/// Protocol version carried in every header.
pub const VER: u8 = 0x01;

pub const TYPE_LOGIN: u8 = 0xa0;

pub const TYPE_SCHED: u8 = 0xa1;

pub const TYPE_STDOUT: u8 = 0xa2;

pub const TYPE_HBEAT: u8 = 0xa3;

pub const TYPE_CFG: u8 = 0xa4;

/// The message-layer error taxonomy: a failure before any request byte was
/// sent (recoverable), a violation of the framing rules mid-exchange (the
/// transport can no longer be trusted; the caller terminates), and an error
/// the server reported with the reserved id byte, carrying its message.
#[derive(Clone, Debug, PartialEq, Eq)]
pub enum ProtoError {
    Transport,
    Violation,
    Application { text: Vec<u8> },
}

/// The declared body length of a header: 16-bit little-endian in the first
/// two bytes.
pub open spec fn declared_of(h: Seq<u8>) -> int {
    h[0] + 256 * h[1]
}

/// One outbound message: header, body length after truncation, and the
/// (truncated) body itself.
pub struct Msg {
    pub hdr: [u8; 20],
    pub len: usize,
    pub body: Option<Vec<u8>>,
}

impl Msg {
    /// The header is consistent: the declared length is `len`, `len` is
    /// within bounds and is the stored body's length.
    pub open spec fn wf(self) -> bool {
        &&& self.len <= 512
        &&& self.hdr@[0] == self.len % 256
        &&& self.hdr@[1] == self.len / 256
        &&& self.hdr@[2] == VER
        &&& match self.body {
            Option::Some(b) => b@.len() == self.len,
            Option::None => self.len == 0,
        }
    }

    /// The bytes this message puts on the wire: header, then body.
    pub open spec fn spec_wire(self) -> Seq<u8> {
        self.hdr@ + match self.body {
            Option::Some(b) => b@,
            Option::None => Seq::<u8>::empty(),
        }
    }

    /// Builds a message around an optional body, truncating the body to
    /// [`MAX_OUT`] bytes and recording the resulting length in the
    /// header's little-endian length field.
    pub fn new(txbuf: Option<&[u8]>) -> (m: Msg)
        ensures
            m.wf(),
            match txbuf {
                Option::Some(b) => {
                    &&& m.len == if b@.len() > 512 {
                        512int
                    } else {
                        b@.len() as int
                    }
                    &&& m.body matches Option::Some(mb) && mb@ == b@.take(m.len as int)
                },
                Option::None => m.len == 0 && m.body is None,
            },
            m.hdr@[2] == VER,
            m.hdr@[3] == 0,
            forall|i: int| 4 <= i < 20 ==> m.hdr@[i] == 0,
    {
        let mut hdr = [0u8; 20];
        let mut len: usize = 0;
        let body = match txbuf {
            Option::Some(tb) => {
                len = tb.len();
                if len > MAX_OUT {
                    len = MAX_OUT;
                }
                hdr[0] = (len % 256) as u8;
                hdr[1] = (len / 256) as u8;
                Option::Some(vstd::slice::slice_to_vec(&tb[0..len]))
            },
            Option::None => Option::None,
        };
        hdr[2] = VER;
        Msg { hdr, len, body }
    }

    /// Records the message type in the header.
    pub fn set_type(&mut self, t: u8)
        ensures
            final(self).hdr@ == old(self).hdr@.update(3, t),
            final(self).len == old(self).len,
            final(self).body == old(self).body,
            old(self).wf() ==> final(self).wf(),
    {
        self.hdr[3] = t;
    }

    /// Records the 16-byte device id in the header.
    pub fn set_id(&mut self, id: &[u8])
        requires
            id@.len() == 16,
        ensures
            final(self).hdr@.len() == 20,
            forall|i: int| 0 <= i < 4 ==> final(self).hdr@[i] == old(self).hdr@[i],
            forall|i: int| 4 <= i < 20 ==> final(self).hdr@[i] == id@[i - 4],
            final(self).len == old(self).len,
            final(self).body == old(self).body,
            old(self).wf() ==> final(self).wf(),
    {
        let mut i: usize = 0;
        while i < 16
            invariant
                i <= 16,
                id@.len() == 16,
                self.hdr@.len() == 20,
                forall|j: int| 0 <= j < 4 ==> self.hdr@[j] == old(self).hdr@[j],
                forall|j: int| 4 <= j < 4 + i ==> self.hdr@[j] == id@[j - 4],
                forall|j: int| 4 + i <= j < 20 ==> self.hdr@[j] == old(self).hdr@[j],
                self.len == old(self).len,
                self.body == old(self).body,
            decreases 16 - i,
        {
            self.hdr[4 + i] = id[i];
            i += 1;
        }
    }

    /// The full frame to transmit.  Its length field matches the bytes
    /// that follow the header exactly.
    pub fn wire_bytes(&self) -> (w: Vec<u8>)
        requires
            self.wf(),
        ensures
            w@ == self.spec_wire(),
            w@.len() == 20 + self.len,
            declared_of(w@) == self.len,
    {
        let mut w = vstd::slice::slice_to_vec(self.hdr.as_slice());
        match &self.body {
            Option::Some(b) => {
                w.extend_from_slice(b.as_slice());
            },
            Option::None => {},
        }
        proof {
            assert(w@ =~= self.spec_wire());
        }
        w
    }
}

/// The header's declared length always equals the number of body bytes a
/// well-formed message actually transmits.
pub proof fn lemma_header_matches_wire(m: Msg)
    requires
        m.wf(),
    ensures
        declared_of(m.spec_wire()) == m.spec_wire().len() - 20,
{
}

/// How a response header is to be treated.
#[derive(Clone, Copy, Debug, PartialEq, Eq, Structural)]
pub enum Response {
    /// Declared length over [`MAX_IN`]: the framing can no longer be
    /// trusted and the process must terminate.
    Violation,
    /// The reserved error id byte: an application error whose body of
    /// `len` bytes is its UTF-8 message.
    Application { len: usize },
    /// An ordinary response with a body of `len` bytes.
    Accepted { len: usize },
}

/// Reads the 16-bit little-endian declared body length of a header.
pub fn declared_len(hdr: &[u8]) -> (n: usize)
    requires
        hdr@.len() >= 2,
    ensures
        n == declared_of(hdr@),
        n <= 65535,
{
    (hdr[0] as usize) + 256 * (hdr[1] as usize)
}

/// Classifies a 20-byte response header: an oversize declared length is a
/// protocol violation, the reserved id byte an application error, anything
/// else an accepted response of the declared length.
pub fn classify_response(hdr: &[u8]) -> (r: Response)
    requires
        hdr@.len() == 20,
    ensures
        (r == Response::Violation) <==> declared_of(hdr@) > 512,
        (r == (Response::Application { len: declared_of(hdr@) as usize })) <==> (declared_of(hdr@)
            <= 512 && hdr@[4] == ERRCODE),
        (r == (Response::Accepted { len: declared_of(hdr@) as usize })) <==> (declared_of(hdr@)
            <= 512 && hdr@[4] != ERRCODE),
        r matches Response::Application { len } ==> len == declared_of(hdr@) && len <= 512,
        r matches Response::Accepted { len } ==> len == declared_of(hdr@) && len <= 512,
{
    let dlen = declared_len(hdr);
    if dlen > MAX_IN {
        Response::Violation
    } else if hdr[4] == ERRCODE {
        Response::Application { len: dlen }
    } else {
        Response::Accepted { len: dlen }
    }
}

/// The body of a job-output report: the alias, the report delimiter byte,
/// then the output text.
pub fn report_body(alias: &str, out: &str) -> (r: Vec<u8>)
    ensures
        r@ == alias.spec_bytes() + seq![TYPE_STDOUT] + out.spec_bytes(),
{
    let mut r = vstd::slice::slice_to_vec(alias.as_bytes());
    r.push(TYPE_STDOUT);
    r.extend_from_slice(out.as_bytes());
    proof {
        assert(r@ =~= alias.spec_bytes() + seq![TYPE_STDOUT] + out.spec_bytes());
    }
    r
}

/// A byte that is flagged in a resolved bitmap: any nonzero response byte
/// marks its coordinate as present.
pub open spec fn bit(b: u8) -> u8 {
    if b == 0 {
        0
    } else {
        1
    }
}

/// The five presence bitmaps a schedule resolves to, one cell per
/// coordinate value.  `dom` is 1-indexed to match calendar days and `mon`
/// 1-indexed to match calendar months; cell 0 of each is unused.
pub struct Sched {
    pub min: [u8; 60],
    pub hour: [u8; 24],
    pub dom: [u8; 32],
    pub mon: [u8; 13],
    pub dow: [u8; 7],
}

/// All cells hold 0 or 1.
pub open spec fn sched_wf(s: Sched) -> bool {
    &&& forall|i: int| 0 <= i < 60 ==> s.min@[i] <= 1
    &&& forall|i: int| 0 <= i < 24 ==> s.hour@[i] <= 1
    &&& forall|i: int| 0 <= i < 32 ==> s.dom@[i] <= 1
    &&& forall|i: int| 0 <= i < 13 ==> s.mon@[i] <= 1
    &&& forall|i: int| 0 <= i < 7 ==> s.dow@[i] <= 1
}

/// `s` holds exactly the bitmaps of a 136-byte resolver response `body`:
/// 60 minute cells, 24 hour cells, 32 day cells, 13 month cells and 7
/// weekday cells, in that order.
pub open spec fn resolved_from(s: Sched, body: Seq<u8>) -> bool {
    &&& body.len() == 136
    &&& forall|i: int| 0 <= i < 60 ==> s.min@[i] == bit(body[i])
    &&& forall|i: int| 0 <= i < 24 ==> s.hour@[i] == bit(body[60 + i])
    &&& forall|i: int| 0 <= i < 32 ==> s.dom@[i] == bit(body[84 + i])
    &&& forall|i: int| 0 <= i < 13 ==> s.mon@[i] == bit(body[116 + i])
    &&& forall|i: int| 0 <= i < 7 ==> s.dow@[i] == bit(body[129 + i])
}

impl Sched {
    /// Empty bitmaps: no coordinate flagged.
    pub fn new() -> (s: Sched)
        ensures
            sched_wf(s),
            forall|i: int| 0 <= i < 60 ==> s.min@[i] == 0,
            forall|i: int| 0 <= i < 24 ==> s.hour@[i] == 0,
            forall|i: int| 0 <= i < 32 ==> s.dom@[i] == 0,
            forall|i: int| 0 <= i < 13 ==> s.mon@[i] == 0,
            forall|i: int| 0 <= i < 7 ==> s.dow@[i] == 0,
    {
        Sched { min: [0u8; 60], hour: [0u8; 24], dom: [0u8; 32], mon: [0u8; 13], dow: [0u8; 7] }
    }

    /// Fills the bitmaps from a resolver response body.  A body that is
    /// not exactly the five bitmaps' 136 bytes is a framing violation and
    /// leaves the bitmaps untouched.
    pub fn parse(&mut self, body: &[u8]) -> (r: Result<usize, ProtoError>)
        ensures
            (r is Ok) <==> body@.len() == 136,
            r matches Ok(n) ==> n == 0,
            r is Ok ==> resolved_from(*final(self), body@) && sched_wf(*final(self)),
            r is Err ==> *final(self) == *old(self) && r == Err::<usize, ProtoError>(
                ProtoError::Violation,
            ),
    {
        if body.len() != 136 {
            return Err(ProtoError::Violation);
        }
        let mut i: usize = 0;
        while i < 60
            invariant
                i <= 60,
                body@.len() == 136,
                forall|j: int| 0 <= j < i ==> self.min@[j] == bit(body@[j]),
                self.hour == old(self).hour,
                self.dom == old(self).dom,
                self.mon == old(self).mon,
                self.dow == old(self).dow,
            decreases 60 - i,
        {
            self.min[i] = if body[i] == 0 {
                0
            } else {
                1
            };
            i += 1;
        }
        let mut i: usize = 0;
        while i < 24
            invariant
                i <= 24,
                body@.len() == 136,
                forall|j: int| 0 <= j < 60 ==> self.min@[j] == bit(body@[j]),
                forall|j: int| 0 <= j < i ==> self.hour@[j] == bit(body@[60 + j]),
                self.dom == old(self).dom,
                self.mon == old(self).mon,
                self.dow == old(self).dow,
            decreases 24 - i,
        {
            self.hour[i] = if body[60 + i] == 0 {
                0
            } else {
                1
            };
            i += 1;
        }
        let mut i: usize = 0;
        while i < 32
            invariant
                i <= 32,
                body@.len() == 136,
                forall|j: int| 0 <= j < 60 ==> self.min@[j] == bit(body@[j]),
                forall|j: int| 0 <= j < 24 ==> self.hour@[j] == bit(body@[60 + j]),
                forall|j: int| 0 <= j < i ==> self.dom@[j] == bit(body@[84 + j]),
                self.mon == old(self).mon,
                self.dow == old(self).dow,
            decreases 32 - i,
        {
            self.dom[i] = if body[84 + i] == 0 {
                0
            } else {
                1
            };
            i += 1;
        }
        let mut i: usize = 0;
        while i < 13
            invariant
                i <= 13,
                body@.len() == 136,
                forall|j: int| 0 <= j < 60 ==> self.min@[j] == bit(body@[j]),
                forall|j: int| 0 <= j < 24 ==> self.hour@[j] == bit(body@[60 + j]),
                forall|j: int| 0 <= j < 32 ==> self.dom@[j] == bit(body@[84 + j]),
                forall|j: int| 0 <= j < i ==> self.mon@[j] == bit(body@[116 + j]),
                self.dow == old(self).dow,
            decreases 13 - i,
        {
            self.mon[i] = if body[116 + i] == 0 {
                0
            } else {
                1
            };
            i += 1;
        }
        let mut i: usize = 0;
        while i < 7
            invariant
                i <= 7,
                body@.len() == 136,
                forall|j: int| 0 <= j < 60 ==> self.min@[j] == bit(body@[j]),
                forall|j: int| 0 <= j < 24 ==> self.hour@[j] == bit(body@[60 + j]),
                forall|j: int| 0 <= j < 32 ==> self.dom@[j] == bit(body@[84 + j]),
                forall|j: int| 0 <= j < 13 ==> self.mon@[j] == bit(body@[116 + j]),
                forall|j: int| 0 <= j < i ==> self.dow@[j] == bit(body@[129 + j]),
            decreases 7 - i,
        {
            self.dow[i] = if body[129 + i] == 0 {
                0
            } else {
                1
            };
            i += 1;
        }
        Ok(0)
    }
}

/// Resolution is a function of the response body alone: two bitmap sets
/// filled from the same body are the same bitmaps.
pub proof fn lemma_resolution_deterministic(body: Seq<u8>, s1: Sched, s2: Sched)
    requires
        resolved_from(s1, body),
        resolved_from(s2, body),
    ensures
        s1.min == s2.min,
        s1.hour == s2.hour,
        s1.dom == s2.dom,
        s1.mon == s2.mon,
        s1.dow == s2.dow,
{
    assert(s1.min@ =~= s2.min@);
    assert(s1.hour@ =~= s2.hour@);
    assert(s1.dom@ =~= s2.dom@);
    assert(s1.mon@ =~= s2.mon@);
    assert(s1.dow@ =~= s2.dow@);
    assert(s1.min =~= s2.min);
    assert(s1.hour =~= s2.hour);
    assert(s1.dom =~= s2.dom);
    assert(s1.mon =~= s2.mon);
    assert(s1.dow =~= s2.dow);
}

/// `w` occurs in `s` as a whole whitespace-delimited token from `i` to
/// (excluding) `j`.
pub open spec fn token_at(s: Seq<u8>, i: int, j: int) -> bool {
    &&& 0 <= i < j <= s.len()
    &&& (i == 0 || is_ws(s[i - 1]))
    &&& (j == s.len() || is_ws(s[j]))
    &&& forall|k: int| i <= k < j ==> !is_ws(s[k])
}

/// `w` is one of the whitespace-separated tokens of `s`.
pub open spec fn has_token(s: Seq<u8>, w: Seq<u8>) -> bool {
    exists|i: int, j: int| token_at(s, i, j) && s.subrange(i, j) == w
}

/// Whether `w` occurs in `s` as a whole whitespace-delimited token.
pub fn contains_token(s: &[u8], w: &[u8]) -> (r: bool)
    ensures
        r == has_token(s@, w@),
{
    let n = s.len();
    let mut p: usize = 0;
    while p < n
        invariant
            p <= n,
            n == s@.len(),
            forall|i: int, j: int| token_at(s@, i, j) && i < p ==> s@.subrange(i, j) != w@,
            p == 0 || p == n || is_ws(s@[p - 1]) || (p < n && is_ws(s@[p as int])),
        decreases n - p,
    {
        if ws(s[p]) {
            p += 1;
        } else {
            let st = p;
            let mut en = p + 1;
            while en < n && !ws(s[en])
                invariant
                    st < en <= n,
                    n == s@.len(),
                    forall|k: int| st <= k < en ==> !is_ws(s@[k]),
                decreases n - en,
            {
                en += 1;
            }
            proof {
                assert(token_at(s@, st as int, en as int));
            }
            if bytes_eq(&s[st..en], w) {
                proof {
                    assert(s@.subrange(st as int, en as int) == w@);
                    assert(has_token(s@, w@));
                }
                return true;
            }
            proof {
                assert forall|i: int, j: int|
                    token_at(s@, i, j) && i < en as int implies s@.subrange(i, j) != w@ by {
                    if i < st {
                        assert(s@.subrange(i, j) != w@);
                    } else if i == st {
                        if j < en {
                            assert(j < n ==> is_ws(s@[j]) || j == n);
                            assert(!is_ws(s@[j]));
                            assert(false);
                        } else if j > en {
                            assert(en < j <= n);
                            assert(is_ws(s@[en as int]));
                            assert(!is_ws(s@[en as int]));
                            assert(false);
                        } else {
                            assert(s@.subrange(i, j) != w@);
                        }
                    } else {
                        assert(!is_ws(s@[i - 1]));
                        assert(false);
                    }
                }
            }
            p = en;
        }
    }
    proof {
        assert forall|i: int, j: int| token_at(s@, i, j) implies s@.subrange(i, j) != w@ by {
            assert(i < p);
        }
    }
    false
}

/// Flags for immediate execution every loaded job whose alias occurs as a
/// token of the heartbeat response body; jobs with other aliases, and every
/// other field of every job, are untouched.
pub fn apply_triggers(crons: &mut Vec<Cron>, body: &[u8])
    ensures
        final(crons)@.len() == old(crons)@.len(),
        forall|k: int|
            #![trigger final(crons)@[k]]
            0 <= k < old(crons)@.len() ==> {
                let oc = old(crons)@[k];
                let nc = final(crons)@[k];
                {
                    &&& nc.alias == oc.alias
                    &&& nc.min == oc.min
                    &&& nc.hour == oc.hour
                    &&& nc.dom == oc.dom
                    &&& nc.mon == oc.mon
                    &&& nc.dow == oc.dow
                    &&& nc.cmd == oc.cmd
                    &&& nc.trigger == (oc.trigger || has_token(
                        body@,
                        vstd::utf8::encode_utf8(oc.alias@),
                    ))
                }
            },
{
    let mut k: usize = 0;
    while k < crons.len()
        invariant
            k <= crons@.len(),
            crons@.len() == old(crons)@.len(),
            forall|i: int|
                k <= i < crons@.len() ==> crons@[i] == old(crons)@[i],
            forall|i: int|
                #![trigger crons@[i]]
                0 <= i < k ==> {
                    let oc = old(crons)@[i];
                    let nc = crons@[i];
                    {
                        &&& nc.alias == oc.alias
                        &&& nc.min == oc.min
                        &&& nc.hour == oc.hour
                        &&& nc.dom == oc.dom
                        &&& nc.mon == oc.mon
                        &&& nc.dow == oc.dow
                        &&& nc.cmd == oc.cmd
                        &&& nc.trigger == (oc.trigger || has_token(
                            body@,
                            vstd::utf8::encode_utf8(oc.alias@),
                        ))
                    }
                },
        decreases crons@.len() - k,
    {
        let hit = contains_token(body, crons[k].alias.as_str().as_bytes());
        if hit {
            crons[k].trigger = true;
        }
        k += 1;
    }
}

} // verus!
