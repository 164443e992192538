//! Versioned binary persistence of `EncryptionParams`: one version-prefix
//! byte `0x01`, then the record with a stable field order (method, algo,
//! certs) and little-endian length-prefixed byte arrays.

use vstd::prelude::*;

use crate::types::Algorithm;
use crate::types::CryptoError;
use crate::types::EncryptionMethod;
use crate::types::EncryptionParams;

verus! {


/// Concrete powers of 256 used by the 4- and 8-digit fields.
proof fn lemma_pow256_vals()
    ensures
        vstd::arithmetic::power::pow(256, 4) == 0x100000000,
        vstd::arithmetic::power::pow(256, 8) == 0x10000000000000000,
{
    reveal(vstd::arithmetic::power::pow);
    vstd::arithmetic::power::lemma_pow0(256);
    assert(vstd::arithmetic::power::pow(256, 1) == 256 * vstd::arithmetic::power::pow(256, 0));
    assert(vstd::arithmetic::power::pow(256, 2) == 256 * vstd::arithmetic::power::pow(256, 1));
    assert(vstd::arithmetic::power::pow(256, 3) == 256 * vstd::arithmetic::power::pow(256, 2));
    assert(vstd::arithmetic::power::pow(256, 4) == 256 * vstd::arithmetic::power::pow(256, 3));
    assert(vstd::arithmetic::power::pow(256, 5) == 256 * vstd::arithmetic::power::pow(256, 4));
    assert(vstd::arithmetic::power::pow(256, 6) == 256 * vstd::arithmetic::power::pow(256, 5));
    assert(vstd::arithmetic::power::pow(256, 7) == 256 * vstd::arithmetic::power::pow(256, 6));
    assert(vstd::arithmetic::power::pow(256, 8) == 256 * vstd::arithmetic::power::pow(256, 7));
}

/// `n` in base 256, little endian, over `k` digits (the low `k` digits).
pub open spec fn le_bytes(n: nat, k: nat) -> Seq<u8>
    decreases k,
{
    if k == 0 {
        Seq::empty()
    } else {
        seq![(n % 256) as u8] + le_bytes(n / 256, (k - 1) as nat)
    }
}

/// Value of a little-endian base-256 digit sequence.
pub open spec fn le_val(s: Seq<u8>) -> nat
    decreases s.len(),
{
    if s.len() == 0 {
        0
    } else {
        (s[0] + 256 * le_val(s.drop_first())) as nat
    }
}

/// Little-endian encoding over `k` digits decodes back to `n` whenever
/// `n` fits in `k` digits.
pub proof fn lemma_le_roundtrip(n: nat, k: nat)
    requires
        n < vstd::arithmetic::power::pow(256, k),
    ensures
        le_val(le_bytes(n, k)) == n,
        le_bytes(n, k).len() == k,
    decreases k,
{
    reveal(vstd::arithmetic::power::pow);
    if k == 0 {
        assert(vstd::arithmetic::power::pow(256, 0) == 1) by {
            vstd::arithmetic::power::lemma_pow0(256);
        }
    } else {
        let d: nat = n % 256;
        let m: nat = n / 256;
        assert(vstd::arithmetic::power::pow(256, k) == 256 * vstd::arithmetic::power::pow(
            256,
            (k - 1) as nat,
        ));
        assert(m < vstd::arithmetic::power::pow(256, (k - 1) as nat)) by (nonlinear_arith)
            requires
                n < 256 * vstd::arithmetic::power::pow(256, (k - 1) as nat),
                m == n / 256,
        ;
        lemma_le_roundtrip(m, (k - 1) as nat);
        let s = le_bytes(n, k);
        assert(s.drop_first() =~= le_bytes(m, (k - 1) as nat));
        assert(n == d + 256 * m) by (nonlinear_arith)
            requires
                d == n % 256,
                m == n / 256,
        ;
    }
}

pub proof fn lemma_le_bytes_len(n: nat, k: nat)
    ensures
        le_bytes(n, k).len() == k,
    decreases k,
{
    if k > 0 {
        lemma_le_bytes_len(n / 256, (k - 1) as nat);
    }
}

/// Version-tag discriminant of the method, as persisted.
pub open spec fn spec_method_tag(m: EncryptionMethod) -> nat {
    match m {
        EncryptionMethod::PGP => 0,
        EncryptionMethod::SMIME => 1,
    }
}

/// Version-tag discriminant of the algorithm, as persisted.
pub open spec fn spec_algo_tag(a: Algorithm) -> nat {
    match a {
        Algorithm::Aes128 => 0,
        Algorithm::Aes256 => 1,
    }
}

/// Serialized form of the recipient-key list: each key length-prefixed
/// with a little-endian 8-byte length.
pub open spec fn spec_ser_certs(certs: Seq<Seq<u8>>) -> Seq<u8>
    decreases certs.len(),
{
    if certs.len() == 0 {
        Seq::empty()
    } else {
        le_bytes(certs[0].len(), 8) + certs[0] + spec_ser_certs(certs.drop_first())
    }
}

/// The whole persisted envelope: version byte `0x01`, method tag, algo
/// tag, key count, then the keys.
pub open spec fn spec_serialize(m: EncryptionMethod, a: Algorithm, certs: Seq<Seq<u8>>) -> Seq<u8> {
    seq![1u8] + le_bytes(spec_method_tag(m), 4) + le_bytes(spec_algo_tag(a), 4) + le_bytes(
        certs.len(),
        8,
    ) + spec_ser_certs(certs)
}

/// Parses `count` length-prefixed keys from the front of `bytes`,
/// returning them and the unread remainder.
pub open spec fn spec_deser_certs(bytes: Seq<u8>, count: nat) -> Option<(Seq<Seq<u8>>, Seq<u8>)>
    decreases count,
{
    if count == 0 {
        Some((Seq::empty(), bytes))
    } else if bytes.len() < 8 {
        None
    } else {
        let n = le_val(bytes.subrange(0, 8));
        if bytes.len() < 8 + n {
            None
        } else {
            let cert = bytes.subrange(8, 8 + n as int);
            match spec_deser_certs(bytes.skip(8 + n as int), (count - 1) as nat) {
                None => None,
                Some((cs, rest)) => Some((seq![cert] + cs, rest)),
            }
        }
    }
}

/// Meaning of a persisted byte sequence: the record it decodes to, or the
/// error. An unknown leading byte (or a bare version byte) is
/// `UnknownVersion`; a truncated or malformed payload is `InvalidParams`.
pub open spec fn spec_deserialize(bytes: Seq<u8>) -> Result<
    (EncryptionMethod, Algorithm, Seq<Seq<u8>>),
    CryptoError,
> {
    if bytes.len() == 0 {
        Err(CryptoError::InvalidParams)
    } else if bytes[0] != 1 || bytes.len() == 1 {
        Err(CryptoError::UnknownVersion)
    } else {
        let body = bytes.drop_first();
        if body.len() < 16 {
            Err(CryptoError::InvalidParams)
        } else {
            let mt = le_val(body.subrange(0, 4));
            let at = le_val(body.subrange(4, 8));
            let cnt = le_val(body.subrange(8, 16));
            if mt > 1 || at > 1 {
                Err(CryptoError::InvalidParams)
            } else {
                let m = if mt == 0 {
                    EncryptionMethod::PGP
                } else {
                    EncryptionMethod::SMIME
                };
                let a = if at == 0 {
                    Algorithm::Aes128
                } else {
                    Algorithm::Aes256
                };
                match spec_deser_certs(body.skip(16), cnt) {
                    None => Err(CryptoError::InvalidParams),
                    Some((certs, rest)) => if rest.len() != 0 || certs.len() == 0 {
                        Err(CryptoError::InvalidParams)
                    } else {
                        Ok((m, a, certs))
                    },
                }
            }
        }
    }
}

/// Appends the `k` low little-endian digits of `n` to `out`.
fn push_le(out: &mut Vec<u8>, n: u64, k: usize)
    ensures
        final(out)@ == old(out)@ + le_bytes(n as nat, k as nat),
{
    let mut m: u64 = n;
    let mut i: usize = 0;
    while i < k
        invariant
            i <= k,
            out@ + le_bytes(m as nat, (k - i) as nat) == old(out)@ + le_bytes(n as nat, k as nat),
        decreases k - i,
    {
        let ghost pre = out@;
        let ghost mpre = m as nat;
        out.push((m % 256) as u8);
        m = m / 256;
        i += 1;
        proof {
            assert(le_bytes(mpre, (k - i + 1) as nat) == seq![(mpre % 256) as u8] + le_bytes(
                mpre / 256,
                (k - i) as nat,
            ));
            assert(out@ + le_bytes(m as nat, (k - i) as nat) =~= pre + le_bytes(
                mpre,
                (k - i + 1) as nat,
            ));
        }
    }
    proof {
        assert(le_bytes(m as nat, 0) =~= Seq::<u8>::empty());
        assert(out@ + le_bytes(m as nat, 0) =~= out@);
    }
}

/// Reads `k` little-endian digits at `pos`; `k <= 8` so the value fits.
fn read_le(bytes: &[u8], pos: usize, k: usize) -> (r: u64)
    requires
        pos + k <= bytes@.len(),
        k <= 8,
    ensures
        r as nat == le_val(bytes@.subrange(pos as int, pos + k as int)),
{
    let bl: usize = bytes.len();
    let mut val: u64 = 0;
    let mut j: usize = k;
    proof {
        assert(bytes@.subrange(pos + k as int, pos + k as int) =~= Seq::<u8>::empty());
        vstd::arithmetic::power::lemma_pow0(256);
    }
    while j > 0
        invariant
            j <= k <= 8,
            pos + k <= bl,
            bl == bytes@.len(),
            val as nat == le_val(bytes@.subrange(pos + j as int, pos + k as int)),
            (val as nat) < vstd::arithmetic::power::pow(256, (k - j) as nat),
        decreases j,
    {
        j = j - 1;
        let ghost e = (k - j - 1) as nat;
        let ghost pe = vstd::arithmetic::power::pow(256, e);
        let ghost tail = bytes@.subrange(pos + j + 1, pos + k as int);
        let ghost v0 = val as nat;
        proof {
            reveal(vstd::arithmetic::power::pow);
            assert(vstd::arithmetic::power::pow(256, e + 1) == 256 * pe);
            lemma_pow256_vals();
            vstd::arithmetic::power::lemma_pow_increases(256, e + 1, 8);
            vstd::arithmetic::power::lemma_pow_positive(256, e);
            assert(256 * v0 + 255 < 256 * pe) by (nonlinear_arith)
                requires
                    v0 < pe,
            ;
            assert(256 * pe <= 0x10000000000000000);
        }
        let d = bytes[pos + j];
        val = val * 256 + (d as u64);
        proof {
            let s = bytes@.subrange(pos + j as int, pos + k as int);
            assert(s.drop_first() =~= tail);
            assert(le_val(s) == s[0] + 256 * le_val(tail));
            assert(s[0] == bytes@[pos + j]);
            assert(val as nat == le_val(s));
            assert((val as nat) < 256 * pe);
            assert((k - j) as nat == e + 1);
        }
    }
    proof {
        assert(bytes@.subrange(pos as int, pos + k as int) == bytes@.subrange(
            pos + 0,
            pos + k as int,
        ));
    }
    val
}

impl EncryptionParams {
    /// Serializes the record under version prefix `0x01`.
    pub fn serialize(&self) -> (r: Vec<u8>)
        ensures
            r@ == spec_serialize(self.spec_method(), self.spec_algo(), self.spec_certs()),
            r@.len() > 0 && r@[0] == 1u8,
    {
        let mut out: Vec<u8> = Vec::new();
        out.push(1u8);
        let mt: u64 = match self.method() {
            EncryptionMethod::PGP => 0,
            EncryptionMethod::SMIME => 1,
        };
        let at: u64 = match self.algo() {
            Algorithm::Aes128 => 0,
            Algorithm::Aes256 => 1,
        };
        push_le(&mut out, mt, 4);
        push_le(&mut out, at, 4);
        let certs = self.certs();
        push_le(&mut out, certs.len() as u64, 8);
        let ghost header = out@;
        proof {
            assert(certs.deep_view().skip(0) =~= certs.deep_view());
        }
        let mut i: usize = 0;
        while i < certs.len()
            invariant
                i <= certs@.len(),
                certs.deep_view() == self.spec_certs(),
                out@ + spec_ser_certs(certs.deep_view().skip(i as int)) == header + spec_ser_certs(
                    certs.deep_view(),
                ),
            decreases certs@.len() - i,
        {
            let ghost pre = out@;
            let ghost rest = certs.deep_view().skip(i as int);
            push_le(&mut out, certs[i].len() as u64, 8);
            crate::bytes_util::push_bytes(&mut out, certs[i].as_slice());
            i += 1;
            proof {
                assert(rest[0] =~= certs.deep_view()[i - 1]);
                assert(rest.drop_first() =~= certs.deep_view().skip(i as int));
                assert(spec_ser_certs(rest) == le_bytes(rest[0].len(), 8) + rest[0]
                    + spec_ser_certs(rest.drop_first()));
                assert(certs@[i - 1]@ == certs.deep_view()[i - 1]);
                assert(out@ + spec_ser_certs(certs.deep_view().skip(i as int)) =~= pre
                    + spec_ser_certs(rest));
            }
        }
        proof {
            assert(certs.deep_view().skip(certs.deep_view().len() as int)
                =~= Seq::<Seq<u8>>::empty());
            assert(out@ + spec_ser_certs(Seq::<Seq<u8>>::empty()) =~= out@);
            assert(header =~= seq![1u8] + le_bytes(spec_method_tag(self.spec_method()), 4)
                + le_bytes(spec_algo_tag(self.spec_algo()), 4) + le_bytes(
                self.spec_certs().len(),
                8,
            ));
            assert(out@ =~= spec_serialize(self.spec_method(), self.spec_algo(), self.spec_certs()));
        }
        out
    }

    /// Decodes a persisted record. Returns exactly what
    /// `spec_deserialize` assigns to the bytes.
    pub fn deserialize(bytes: &[u8]) -> (r: Result<EncryptionParams, CryptoError>)
        ensures
            match r {
                Ok(p) => spec_deserialize(bytes@) == Ok::<_, CryptoError>(
                    (p.spec_method(), p.spec_algo(), p.spec_certs()),
                ) && p.wf(),
                Err(e) => spec_deserialize(bytes@) == Err::<
                    (EncryptionMethod, Algorithm, Seq<Seq<u8>>),
                    _,
                >(e),
            },
    {
        if bytes.len() == 0 {
            return Err(CryptoError::InvalidParams);
        }
        if bytes[0] != 1 || bytes.len() == 1 {
            return Err(CryptoError::UnknownVersion);
        }
        let ghost body = bytes@.drop_first();
        proof {
            assert(body.len() == bytes@.len() - 1);
        }
        if bytes.len() < 17 {
            return Err(CryptoError::InvalidParams);
        }
        proof {
            assert(body.subrange(0, 4) =~= bytes@.subrange(1, 5));
            assert(body.subrange(4, 8) =~= bytes@.subrange(5, 9));
            assert(body.subrange(8, 16) =~= bytes@.subrange(9, 17));
        }
        let mt = read_le(bytes, 1, 4);
        let at = read_le(bytes, 5, 4);
        let cnt = read_le(bytes, 9, 8);
        if mt > 1 || at > 1 {
            return Err(CryptoError::InvalidParams);
        }
        let m = if mt == 0 {
            EncryptionMethod::PGP
        } else {
            EncryptionMethod::SMIME
        };
        let a = if at == 0 {
            Algorithm::Aes128
        } else {
            Algorithm::Aes256
        };
        let mut certs: Vec<Vec<u8>> = Vec::new();
        let mut pos: usize = 17;
        let mut k: u64 = 0;
        proof {
            assert(body.skip(16) =~= bytes@.skip(17));
        }
        let ghost whole = spec_deser_certs(body.skip(16), cnt as nat);
        proof {
            assert(spec_deserialize(bytes@) == (match whole {
                None => Err::<(EncryptionMethod, Algorithm, Seq<Seq<u8>>), _>(
                    CryptoError::InvalidParams,
                ),
                Some((cs, rest)) => if rest.len() != 0 || cs.len() == 0 {
                    Err(CryptoError::InvalidParams)
                } else {
                    Ok((m, a, cs))
                },
            }));
        }
        while k < cnt
            invariant
                17 <= pos <= bytes@.len(),
                spec_deserialize(bytes@) == (match whole {
                    None => Err::<(EncryptionMethod, Algorithm, Seq<Seq<u8>>), _>(
                        CryptoError::InvalidParams,
                    ),
                    Some((cs, rest)) => if rest.len() != 0 || cs.len() == 0 {
                        Err(CryptoError::InvalidParams)
                    } else {
                        Ok((m, a, cs))
                    },
                }),
                k <= cnt,
                certs@.len() == k,
                certs.deep_view().len() == k,
                whole == match spec_deser_certs(bytes@.skip(pos as int), (cnt - k) as nat) {
                    None => None::<(Seq<Seq<u8>>, Seq<u8>)>,
                    Some((cs, rest)) => Some((certs.deep_view() + cs, rest)),
                },
            decreases cnt - k,
        {
            let ghost tail = bytes@.skip(pos as int);
            if bytes.len() - pos < 8 {
                proof {
                    assert(tail.len() < 8);
                    assert(spec_deser_certs(tail, (cnt - k) as nat) is None);
                }
                return Err(CryptoError::InvalidParams);
            }
            proof {
                assert(tail.subrange(0, 8) =~= bytes@.subrange(pos as int, pos + 8));
            }
            let n = read_le(bytes, pos, 8);
            if n > (bytes.len() - pos - 8) as u64 {
                proof {
                    assert(tail.len() < 8 + n as nat);
                    assert(spec_deser_certs(tail, (cnt - k) as nat) is None);
                }
                return Err(CryptoError::InvalidParams);
            }
            let nn = n as usize;
            let mut cert: Vec<u8> = Vec::new();
            crate::bytes_util::push_range(&mut cert, bytes, pos + 8, pos + 8 + nn);
            proof {
                assert(cert@ =~= tail.subrange(8, 8 + n as int));
            }
            let ghost certs_pre = certs.deep_view();
            certs.push(cert);
            pos = pos + 8 + nn;
            k = k + 1;
            proof {
                assert(bytes@.skip(pos as int) =~= tail.skip(8 + n as int));
                assert(certs.deep_view() =~~= certs_pre.push(tail.subrange(8, 8 + n as int)));
                assert(spec_deser_certs(tail, (cnt - k + 1) as nat) == (match spec_deser_certs(
                    tail.skip(8 + n as int),
                    (cnt - k) as nat,
                ) {
                    None => None::<(Seq<Seq<u8>>, Seq<u8>)>,
                    Some((cs, rest)) => Some((seq![tail.subrange(8, 8 + n as int)] + cs, rest)),
                }));
                match spec_deser_certs(bytes@.skip(pos as int), (cnt - k) as nat) {
                    Some(p) => {
                        assert(certs_pre + (seq![tail.subrange(8, 8 + n as int)] + p.0)
                            =~= certs.deep_view() + p.0);
                    },
                    None => {},
                }
            }
        }
        proof {
            assert(spec_deser_certs(bytes@.skip(pos as int), 0) == Some(
                (Seq::<Seq<u8>>::empty(), bytes@.skip(pos as int)),
            ));
            assert(certs.deep_view() + Seq::<Seq<u8>>::empty() =~= certs.deep_view());
            assert(whole == Some((certs.deep_view(), bytes@.skip(pos as int))));
        }
        if pos != bytes.len() {
            return Err(CryptoError::InvalidParams);
        }
        if certs.len() == 0 {
            return Err(CryptoError::InvalidParams);
        }
        proof {
            assert(bytes@.skip(pos as int).len() == 0);
        }
        Ok(EncryptionParams::new(m, a, certs))
    }
}

/// Serializing a record and deserializing the result yields the record
/// back, for every well-formed record whose sizes fit the wire format.
pub proof fn lemma_roundtrip(m: EncryptionMethod, a: Algorithm, certs: Seq<Seq<u8>>)
    requires
        0 < certs.len() < 0x10000000000000000,
        forall|i: int| 0 <= i < certs.len() ==> #[trigger] certs[i].len() < 0x10000000000000000,
    ensures
        spec_deserialize(spec_serialize(m, a, certs)) == Ok::<_, CryptoError>((m, a, certs)),
{
    let bytes = spec_serialize(m, a, certs);
    lemma_pow256_vals();
    lemma_le_roundtrip(spec_method_tag(m), 4);
    lemma_le_roundtrip(spec_algo_tag(a), 4);
    lemma_le_roundtrip(certs.len(), 8);
    let body = bytes.drop_first();
    assert(body =~= le_bytes(spec_method_tag(m), 4) + le_bytes(spec_algo_tag(a), 4) + le_bytes(
        certs.len(),
        8,
    ) + spec_ser_certs(certs));
    lemma_ser_certs_len(certs);
    assert(bytes[0] == 1);
    assert(body.subrange(0, 4) =~= le_bytes(spec_method_tag(m), 4));
    assert(body.subrange(4, 8) =~= le_bytes(spec_algo_tag(a), 4));
    assert(body.subrange(8, 16) =~= le_bytes(certs.len(), 8));
    assert(body.skip(16) =~= spec_ser_certs(certs));
    lemma_deser_ser_certs(certs, Seq::empty());
    assert(spec_ser_certs(certs) + Seq::<u8>::empty() =~= spec_ser_certs(certs));
    assert(le_val(body.subrange(0, 4)) == spec_method_tag(m));
    assert(le_val(body.subrange(4, 8)) == spec_algo_tag(a));
    assert(le_val(body.subrange(8, 16)) == certs.len());
    assert(spec_deser_certs(body.skip(16), certs.len()) == Some(
        (certs, Seq::<u8>::empty()),
    ));
}

/// The serialized key list is non-empty when there are keys (so the
/// version byte is never the whole record).
proof fn lemma_ser_certs_len(certs: Seq<Seq<u8>>)
    ensures
        certs.len() > 0 ==> spec_ser_certs(certs).len() >= 8,
        spec_ser_certs(certs).len() >= 0,
{
    if certs.len() > 0 {
        lemma_le_bytes_len(certs[0].len(), 8);
    }
}

/// Parsing the serialization of `certs` (with anything appended) returns
/// `certs` and the appended remainder.
proof fn lemma_deser_ser_certs(certs: Seq<Seq<u8>>, tail: Seq<u8>)
    requires
        forall|i: int| 0 <= i < certs.len() ==> #[trigger] certs[i].len() < 0x10000000000000000,
    ensures
        spec_deser_certs(spec_ser_certs(certs) + tail, certs.len()) == Some((certs, tail)),
    decreases certs.len(),
{
    lemma_pow256_vals();
    if certs.len() == 0 {
        assert(spec_ser_certs(certs) + tail =~= tail);
    } else {
        let c0 = certs[0];
        let rest = certs.drop_first();
        let s = spec_ser_certs(certs) + tail;
        lemma_le_roundtrip(c0.len(), 8);
        assert(spec_ser_certs(certs) == le_bytes(c0.len(), 8) + c0 + spec_ser_certs(rest));
        assert(s.subrange(0, 8) =~= le_bytes(c0.len(), 8));
        assert(le_val(s.subrange(0, 8)) == c0.len());
        assert(s.len() >= 8 + c0.len());
        assert(s.subrange(8, 8 + c0.len() as int) =~= c0);
        assert(s.skip(8 + c0.len() as int) =~= spec_ser_certs(rest) + tail);
        assert(forall|i: int|
            0 <= i < rest.len() ==> #[trigger] rest[i].len() < 0x10000000000000000) by {
            assert(forall|i: int| 0 <= i < rest.len() ==> rest[i] == certs[i + 1]);
        }
        lemma_deser_ser_certs(rest, tail);
        assert(seq![c0] + rest =~= certs);
    }
}

} // verus!
