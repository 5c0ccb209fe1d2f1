//! The RFC 6455 WebSocket framing codec: variable-length header decoding and
//! encoding, payload masking, and the Sec-WebSocket-Accept derivation.

use vstd::prelude::*;
use vstd::string::StringSliceAdditionalSpecFns;

use base64ct::Encoding;
use sha1::Digest;

verus! {

/// Failures of the framing layer.
#[derive(Debug)]
pub enum WebsocketError {
    /// The header needs exactly this many more bytes before it can be
    /// decoded; read them and retry.
    InsufficientData(usize),
    /// A valid frame this codec does not handle: fragmentation, or a payload
    /// beyond the addressable size.
    Unsupported(&'static str),
    /// The transport failed.
    NetworkError,
}

/// A decoded frame header.
#[derive(Debug)]
pub struct WebsocketFrame {
    pub opcode: u8,
    pub len: usize,
    pub fin: bool,
    pub masked: bool,
    pub mask: Option<[u8; 4]>,
}

/// The mathematical shape of a frame header.
#[verifier::ext_equal]
pub ghost struct FrameModel {
    pub opcode: u8,
    pub len: usize,
    pub fin: bool,
    pub masked: bool,
    pub mask: Option<Seq<u8>>,
}

impl View for WebsocketFrame {
    type V = FrameModel;

    open spec fn view(&self) -> FrameModel {
        FrameModel {
            opcode: self.opcode,
            len: self.len,
            fin: self.fin,
            masked: self.masked,
            mask: match self.mask {
                Some(m) => Some(m@),
                None => None,
            },
        }
    }
}

/// A frame header this codec can emit: no fragmentation, a four-bit opcode,
/// and a mask exactly when the mask flag is set.
pub open spec fn frame_wf(f: FrameModel) -> bool {
    f.fin && f.opcode != 0 && f.opcode < 16 && (f.masked <==> f.mask is Some) && (match f.mask {
        Some(m) => m.len() == 4,
        None => true,
    })
}

/// What decoding a header buffer yields.
#[verifier::ext_equal]
pub ghost enum SpecDecoded {
    /// This many more bytes are needed.
    NeedMore(int),
    /// Fragmentation, or a payload too large for this platform.
    Unsupported,
    /// A complete header.
    Frame(FrameModel),
}

/// The big-endian value of a byte sequence.
pub open spec fn be_val(s: Seq<u8>) -> int
    decreases s.len(),
{
    if s.len() == 0 {
        0
    } else {
        be_val(s.drop_last()) * 256 + s.last()
    }
}

/// The `k` big-endian bytes of `n`.
pub open spec fn be_bytes(n: int, k: nat) -> Seq<u8>
    decreases k,
{
    if k == 0 {
        Seq::empty()
    } else {
        be_bytes(n / 256, (k - 1) as nat).push((n % 256) as u8)
    }
}

pub proof fn lemma_be_roundtrip(n: int, k: nat)
    requires
        0 <= n < pow256(k),
    ensures
        be_bytes(n, k).len() == k,
        be_val(be_bytes(n, k)) == n,
    decreases k,
{
    if k > 0 {
        lemma_pow256_pos((k - 1) as nat);
        assert(n / 256 < pow256((k - 1) as nat)) by (nonlinear_arith)
            requires
                n < pow256(k),
                pow256(k) == 256 * pow256((k - 1) as nat),
                n >= 0,
                pow256((k - 1) as nat) > 0,
        ;
        lemma_be_roundtrip(n / 256, (k - 1) as nat);
        assert(be_bytes(n, k).drop_last() =~= be_bytes(n / 256, (k - 1) as nat));
    }
}

pub open spec fn pow256(k: nat) -> int
    decreases k,
{
    if k == 0 {
        1
    } else {
        256 * pow256((k - 1) as nat)
    }
}

pub proof fn lemma_pow256_pos(k: nat)
    ensures
        pow256(k) >= 1,
    decreases k,
{
    if k > 0 {
        lemma_pow256_pos((k - 1) as nat);
    }
}

/// The header a buffer decodes to, the exact count of missing bytes, or the
/// refusal of a fragmented or oversized frame. The 7-bit length field selects
/// the 16-bit form at 126 and the 64-bit form at 127.
pub open spec fn spec_decode(v: Seq<u8>) -> SpecDecoded {
    if v.len() < 2 {
        SpecDecoded::NeedMore(2 - v.len())
    } else {
        let fin = (v[0] & 0x80u8) == 0x80u8;
        let opcode = v[0] & 0x0fu8;
        if !fin || opcode == 0 {
            SpecDecoded::Unsupported
        } else {
            let masked = (v[1] & 0x80u8) == 0x80u8;
            let len7 = v[1] & 0x7fu8;
            if len7 == 126 {
                if v.len() < 4 {
                    SpecDecoded::NeedMore(4 - v.len())
                } else {
                    spec_decode_tail(v, be_val(v.subrange(2, 4)), 4, opcode, masked)
                }
            } else if len7 == 127 {
                if v.len() < 10 {
                    SpecDecoded::NeedMore(10 - v.len())
                } else {
                    spec_decode_tail(v, be_val(v.subrange(2, 10)), 10, opcode, masked)
                }
            } else {
                spec_decode_tail(v, len7 as int, 2, opcode, masked)
            }
        }
    }
}

/// The rest of the decoding, once the payload length and the mask offset are
/// known.
pub open spec fn spec_decode_tail(
    v: Seq<u8>,
    plen: int,
    off: int,
    opcode: u8,
    masked: bool,
) -> SpecDecoded {
    if plen > usize::MAX {
        SpecDecoded::Unsupported
    } else if masked && v.len() < off + 4 {
        SpecDecoded::NeedMore(off + 4 - v.len())
    } else {
        SpecDecoded::Frame(
            FrameModel {
                opcode,
                len: plen as usize,
                fin: true,
                masked,
                mask: if masked {
                    Some(v.subrange(off, off + 4))
                } else {
                    None
                },
            },
        )
    }
}

/// The wire bytes of a frame header: the length is carried in the 7-bit
/// field up to 125, in 16 bits up to 65535, and in 64 bits beyond.
pub open spec fn spec_encode(f: FrameModel) -> Seq<u8> {
    let b0 = (if f.fin {
        0x80u8
    } else {
        0u8
    }) | (f.opcode & 0x0fu8);
    let mbit = if f.masked {
        0x80u8
    } else {
        0u8
    };
    let body = if f.len <= 125 {
        seq![b0, mbit | (f.len as u8)]
    } else if f.len <= 65535 {
        seq![b0, mbit | 126u8] + be_bytes(f.len as int, 2)
    } else {
        seq![b0, mbit | 127u8] + be_bytes(f.len as int, 8)
    };
    body + (match f.mask {
        Some(m) => m,
        None => Seq::empty(),
    })
}

impl WebsocketFrame {
    /// Decodes a frame header from the bytes read so far. When more bytes are
    /// needed, says exactly how many, so the caller reads just those and
    /// retries; fragmented frames (fin clear or opcode 0) are refused.
    pub fn decode(value: &[u8]) -> (r: Result<WebsocketFrame, WebsocketError>)
        ensures
            match r {
                Ok(f) => spec_decode(value@) == SpecDecoded::Frame(f@) && frame_wf(f@),
                Err(WebsocketError::InsufficientData(n)) => spec_decode(value@)
                    == SpecDecoded::NeedMore(n as int) && n > 0,
                Err(WebsocketError::Unsupported(_)) => spec_decode(value@)
                    is Unsupported,
                Err(WebsocketError::NetworkError) => false,
            },
    {
        if value.len() < 2 {
            return Err(WebsocketError::InsufficientData(2 - value.len()));
        }
        let fin: bool = (value[0] & 0x80) == 0x80;
        let opcode: u8 = value[0] & 0x0f;
        proof {
            let b = value@[0];
            assert(b & 0x0fu8 < 16) by (bit_vector);
        }
        if !fin || opcode == 0 {
            return Err(WebsocketError::Unsupported("payload fragmentation not supported"));
        }
        let masked: bool = (value[1] & 0x80) == 0x80;
        let len7: u8 = value[1] & 0x7f;

        let plen: u64;
        let mask_offset: usize;
        if len7 == 126 {
            if value.len() < 4 {
                return Err(WebsocketError::InsufficientData(4 - value.len()));
            }
            plen = (value[2] as u64) * 256 + (value[3] as u64);
            mask_offset = 4;
            proof {
                let s = value@.subrange(2, 4);
                assert(s.drop_last() =~= seq![value@[2]]);
                assert(s.drop_last().drop_last() =~= Seq::<u8>::empty());
                assert(be_val(s.drop_last().drop_last()) == 0);
                assert(be_val(s.drop_last()) == value@[2]);
                assert(be_val(s) == value@[2] * 256 + value@[3]);
            }
        } else if len7 == 127 {
            if value.len() < 10 {
                return Err(WebsocketError::InsufficientData(10 - value.len()));
            }
            let mut acc: u64 = 0;
            let mut k: usize = 2;
            while k < 10
                invariant
                    2 <= k <= 10,
                    value@.len() >= 10,
                    acc == be_val(value@.subrange(2, k as int)),
                    acc < pow256((k - 2) as nat),
                decreases 10 - k,
            {
                proof {
                    lemma_pow256_pos((k - 2) as nat);
                    assert(value@.subrange(2, k + 1).drop_last() =~= value@.subrange(2, k as int));
                    assert(acc * 256 + value@[k as int] < pow256((k - 1) as nat))
                        by (nonlinear_arith)
                        requires
                            acc < pow256((k - 2) as nat),
                            pow256((k - 1) as nat) == 256 * pow256((k - 2) as nat),
                            value@[k as int] < 256,
                            acc >= 0,
                    ;
                    lemma_pow256_unfold();
                    lemma_pow256_le((k - 1) as nat, 8);
                }
                acc = acc * 256 + (value[k] as u64);
                k += 1;
            }
            plen = acc;
            mask_offset = 10;
        } else {
            plen = len7 as u64;
            mask_offset = 2;
        }

        if plen > (usize::MAX as u64) {
            return Err(WebsocketError::Unsupported(
                "payload length exceeds max platform architecture usize",
            ));
        }
        let len: usize = plen as usize;

        let mask: Option<[u8; 4]>;
        if masked {
            if value.len() < mask_offset + 4 {
                return Err(WebsocketError::InsufficientData(mask_offset + 4 - value.len()));
            }
            let m: [u8; 4] = [value[mask_offset], value[mask_offset + 1], value[mask_offset + 2],
                value[mask_offset + 3]];
            proof {
                assert(m@ =~= value@.subrange(mask_offset as int, mask_offset as int + 4));
            }
            mask = Some(m);
        } else {
            mask = None;
        }

        let f = WebsocketFrame { fin, opcode, masked, len, mask };
        proof {
            assert(spec_decode(value@) =~= SpecDecoded::Frame(f@));
        }
        Ok(f)
    }

    /// Encodes this frame's header: two, four or ten bytes by the magnitude
    /// of the payload length, then the mask when one is set.
    pub fn encode(&self) -> (r: Vec<u8>)
        requires
            frame_wf(self@),
        ensures
            r@ == spec_encode(self@),
    {
        let mut out: Vec<u8> = Vec::new();
        let b0: u8 = (if self.fin {
            0x80u8
        } else {
            0u8
        }) | (self.opcode & 0x0f);
        let mbit: u8 = if self.masked {
            0x80u8
        } else {
            0u8
        };
        out.push(b0);
        if self.len <= 125 {
            proof {
                assert(mbit | (self.len as u8) == mbit | ((self@.len) as u8));
            }
            out.push(mbit | (self.len as u8));
        } else if self.len <= 65535 {
            out.push(mbit | 126u8);
            out.push((self.len / 256) as u8);
            out.push((self.len % 256) as u8);
            proof {
                let n = self.len as int;
                assert(be_bytes(n / 65536, 0) =~= Seq::<u8>::empty());
                assert(be_bytes(n / 256, 1) =~= seq![((n / 256) % 256) as u8]);
                assert(be_bytes(n, 2) =~= seq![((n / 256) % 256) as u8, (n % 256) as u8]);
                assert((n / 256) % 256 == n / 256);
            }
        } else {
            out.push(mbit | 127u8);
            let mut tail: Vec<u8> = Vec::new();
            let mut n: u64 = self.len as u64;
            let mut j: usize = 0;
            while j < 8
                invariant
                    0 <= j <= 8,
                    be_bytes(self.len as int, 8) == be_bytes(n as int, (8 - j) as nat) + tail@,
                decreases 8 - j,
            {
                let ghost pre = tail@;
                tail.insert(0, (n % 256) as u8);
                proof {
                    assert(tail@ =~= seq![(n % 256) as u8] + pre);
                    assert(be_bytes(n as int, (8 - j) as nat) == be_bytes(
                        n as int / 256,
                        (7 - j) as nat,
                    ).push((n as int % 256) as u8));
                    assert(be_bytes(n as int / 256, (7 - j) as nat) + tail@ =~= be_bytes(
                        n as int,
                        (8 - j) as nat,
                    ) + pre);
                }
                n = n / 256;
                j += 1;
            }
            proof {
                assert(be_bytes(n as int, 0) =~= Seq::<u8>::empty());
                assert(be_bytes(self.len as int, 8) =~= tail@);
            }
            let mut i: usize = 0;
            while i < tail.len()
                invariant
                    0 <= i <= tail@.len(),
                    out@ == seq![spec_encode(self@)[0], spec_encode(self@)[1]] + tail@.subrange(
                        0,
                        i as int,
                    ),
                    spec_encode(self@) == seq![spec_encode(self@)[0], spec_encode(self@)[1]]
                        + tail@ + (match self@.mask {
                        Some(m) => m,
                        None => Seq::<u8>::empty(),
                    }),
                decreases tail@.len() - i,
            {
                proof {
                    assert(tail@.subrange(0, i + 1) =~= tail@.subrange(0, i as int).push(
                        tail@[i as int],
                    ));
                }
                out.push(tail[i]);
                i += 1;
            }
            proof {
                assert(tail@.subrange(0, tail@.len() as int) =~= tail@);
            }
        }
        if let Some(m) = self.mask {
            out.push(m[0]);
            out.push(m[1]);
            out.push(m[2]);
            out.push(m[3]);
            proof {
                assert(seq![m@[0], m@[1], m@[2], m@[3]] =~= m@);
            }
        }
        proof {
            assert(out@ =~= spec_encode(self@));
        }
        out
    }

    /// The first `n` bytes of `d` XORed with the mask cycled over them; the
    /// rest unchanged.
    pub open spec fn mask_xor(d: Seq<u8>, m: Seq<u8>, n: int) -> Seq<u8> {
        Seq::new(d.len(), |i: int| if i < n {
            d[i] ^ m[i % 4]
        } else {
            d[i]
        })
    }

    /// Applies (or removes) this frame's mask over the first `len` payload
    /// bytes; a frame without a mask leaves the buffer unchanged.
    pub fn apply_mask(&self, data: &mut Vec<u8>)
        requires
            self.len <= old(data)@.len(),
        ensures
            final(data)@ == (match self@.mask {
                Some(m) => Self::mask_xor(old(data)@, m, self.len as int),
                None => old(data)@,
            }),
    {
        if let Some(mask) = self.mask {
            let mut i: usize = 0;
            while i < self.len
                invariant
                    0 <= i <= self.len <= data@.len(),
                    data@.len() == old(data)@.len(),
                    mask@.len() == 4,
                    forall|j: int| 0 <= j < i ==> data@[j] == #[trigger] old(data)@[j]
                        ^ mask@[j % 4],
                    forall|j: int| i <= j < data@.len() ==> data@[j] == #[trigger] old(data)@[j],
                decreases self.len - i,
            {
                let b = data[i] ^ mask[i % 4];
                data.set(i, b);
                i += 1;
            }
            proof {
                assert(data@ =~= Self::mask_xor(old(data)@, mask@, self.len as int));
            }
        } else {
            proof {
                assert(data@ =~= old(data)@);
            }
        }
    }
}

pub proof fn lemma_pow256_unfold()
    ensures
        pow256(2) == 65536,
        pow256(8) == 0x10000000000000000,
{
    assert(pow256(0) == 1);
    assert(pow256(1) == 256);
    assert(pow256(2) == 65536);
    assert(pow256(3) == 0x1000000);
    assert(pow256(4) == 0x100000000);
    assert(pow256(5) == 0x10000000000);
    assert(pow256(6) == 0x1000000000000);
    assert(pow256(7) == 0x100000000000000);
    assert(pow256(8) == 0x10000000000000000);
}

pub proof fn lemma_pow256_le(a: nat, b: nat)
    requires
        a <= b,
    ensures
        pow256(a) <= pow256(b),
    decreases b,
{
    if a < b {
        lemma_pow256_le(a, (b - 1) as nat);
        lemma_pow256_pos((b - 1) as nat);
    }
}

/// Law: a frame header survives the round trip. Encoding any well-formed
/// frame header and decoding the bytes yields the same opcode, fin flag,
/// length, mask flag and mask.
pub proof fn lemma_ws_header_roundtrip(f: FrameModel)
    requires
        frame_wf(f),
    ensures
        spec_decode(spec_encode(f)) == SpecDecoded::Frame(f),
{
    let v = spec_encode(f);
    let b0 = (if f.fin {
        0x80u8
    } else {
        0u8
    }) | (f.opcode & 0x0fu8);
    let mbit = if f.masked {
        0x80u8
    } else {
        0u8
    };
    let op = f.opcode;
    assert((0x80u8 | (op & 0x0fu8)) & 0x80u8 == 0x80u8) by (bit_vector);
    assert(op < 16 ==> (0x80u8 | (op & 0x0fu8)) & 0x0fu8 == op) by (bit_vector);
    if f.len <= 125 {
        let l = f.len as u8;
        assert(v =~= seq![b0, mbit | l] + (match f.mask {
            Some(m) => m,
            None => Seq::<u8>::empty(),
        }));
        assert(l < 126 ==> ((0x80u8 | l) & 0x7fu8 == l && (0u8 | l) & 0x7fu8 == l && (0x80u8 | l)
            & 0x80u8 == 0x80u8 && (0u8 | l) & 0x80u8 == 0u8)) by (bit_vector);
        match f.mask {
            Some(m) => {
                assert(v.subrange(2, 6) =~= m);
                assert(spec_decode(v) =~= SpecDecoded::Frame(f));
            },
            None => {
                assert(spec_decode(v) =~= SpecDecoded::Frame(f));
            },
        }
    } else if f.len <= 65535 {
        assert(v =~= seq![b0, mbit | 126u8] + be_bytes(f.len as int, 2) + (match f.mask {
            Some(m) => m,
            None => Seq::<u8>::empty(),
        }));
        assert(((0x80u8 | 126u8) & 0x7fu8 == 126u8 && (0u8 | 126u8) & 0x7fu8 == 126u8 && (0x80u8
            | 126u8) & 0x80u8 == 0x80u8 && (0u8 | 126u8) & 0x80u8 == 0u8)) by (bit_vector);
        lemma_pow256_unfold();
        lemma_be_roundtrip(f.len as int, 2);
        assert(v.subrange(2, 4) =~= be_bytes(f.len as int, 2));
        match f.mask {
            Some(m) => {
                assert(v.subrange(4, 8) =~= m);
                assert(spec_decode(v) =~= SpecDecoded::Frame(f));
            },
            None => {
                assert(spec_decode(v) =~= SpecDecoded::Frame(f));
            },
        }
    } else {
        assert(v =~= seq![b0, mbit | 127u8] + be_bytes(f.len as int, 8) + (match f.mask {
            Some(m) => m,
            None => Seq::<u8>::empty(),
        }));
        assert(((0x80u8 | 127u8) & 0x7fu8 == 127u8 && (0u8 | 127u8) & 0x7fu8 == 127u8 && (0x80u8
            | 127u8) & 0x80u8 == 0x80u8 && (0u8 | 127u8) & 0x80u8 == 0u8)) by (bit_vector);
        lemma_pow256_unfold();
        lemma_be_roundtrip(f.len as int, 8);
        assert(v.subrange(2, 10) =~= be_bytes(f.len as int, 8));
        match f.mask {
            Some(m) => {
                assert(v.subrange(10, 14) =~= m);
                assert(spec_decode(v) =~= SpecDecoded::Frame(f));
            },
            None => {
                assert(spec_decode(v) =~= SpecDecoded::Frame(f));
            },
        }
    }
}

/// Law: masking is an involution. Applying the same mask twice over the same
/// prefix gives the bytes back.
pub proof fn lemma_mask_involution(d: Seq<u8>, m: Seq<u8>, n: int)
    requires
        m.len() == 4,
    ensures
        WebsocketFrame::mask_xor(WebsocketFrame::mask_xor(d, m, n), m, n) =~= d,
{
    assert forall|i: int| 0 <= i < d.len() implies WebsocketFrame::mask_xor(
        WebsocketFrame::mask_xor(d, m, n),
        m,
        n,
    )[i] == d[i] by {
        if i < n {
            let x = d[i];
            let y = m[i % 4];
            assert((x ^ y) ^ y == x) by (bit_vector);
        }
    }
}

// ---------------------------------------------------------------------------
// Sec-WebSocket-Accept
// ---------------------------------------------------------------------------

/// The SHA-1 digest of a byte sequence.
pub uninterp spec fn sha1_of(data: Seq<u8>) -> Seq<u8>;

/// Relies on the sha1 crate's `Sha1` through the `Digest` trait: the digest
/// is 20 bytes and depends on the input bytes alone.
#[verifier::external_body]
fn sha1_digest(data: &[u8]) -> (r: Vec<u8>)
    ensures
        r@ == sha1_of(data@),
        r@.len() == 20,
{
    sha1::Sha1::digest(data).to_vec()
}

/// The standard padded Base64 encoding of a byte sequence.
pub uninterp spec fn b64_of(data: Seq<u8>) -> Seq<u8>;

/// Relies on base64ct's `Base64::encode` (standard alphabet, padded): the
/// encoding depends on the input bytes alone, four output bytes for every
/// three input bytes begun.
#[verifier::external_body]
fn base64_encode(data: &[u8]) -> (r: Vec<u8>)
    requires
        data@.len() <= 4096,
    ensures
        r@ == b64_of(data@),
        r@.len() == 4 * ((data@.len() + 2) / 3),
{
    let mut buf = vec![0u8; base64ct::Base64::encoded_len(data)];
    let _ = base64ct::Base64::encode(data, &mut buf);
    buf
}

/// The GUID every server appends to the client key, per RFC 6455.
pub open spec fn accept_guid() -> Seq<u8> {
    "258EAFA5-E914-47DA-95CA-C5AB0DC85B11".spec_bytes()
}

/// The Sec-WebSocket-Accept value for a client key: the Base64 encoding of
/// the SHA-1 digest of the key followed by the RFC 6455 GUID.
pub open spec fn spec_accept_val(key: Seq<u8>) -> Seq<u8> {
    b64_of(sha1_of(key + accept_guid()))
}

/// Computes the Sec-WebSocket-Accept header value for a client key given as
/// bytes.
pub fn accept_val_bytes(key: &[u8]) -> (r: Vec<u8>)
    ensures
        r@ == spec_accept_val(key@),
        r@.len() == 28,
{
    let mut data: Vec<u8> = Vec::new();
    data.extend_from_slice(key);
    data.extend_from_slice("258EAFA5-E914-47DA-95CA-C5AB0DC85B11".as_bytes());
    proof {
        assert(data@ =~= key@ + accept_guid());
    }
    let digest = sha1_digest(data.as_slice());
    base64_encode(digest.as_slice())
}

/// Computes the Sec-WebSocket-Accept header value for a client key.
pub fn sec_websocket_accept_val(key: &str) -> (r: Vec<u8>)
    ensures
        r@ == spec_accept_val(key.spec_bytes()),
        r@.len() == 28,
{
    accept_val_bytes(key.as_bytes())
}

} // verus!
