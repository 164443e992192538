//! Certificate bundle ingestion: parses a heterogeneous PEM/DER/armored
//! blob into a homogeneous recipient-key set, classifying it as PGP or
//! S/MIME, skipping unknown PEM blocks and rejecting mixed bundles.

use vstd::prelude::*;

use crate::bytes_util::contains_sub;
use crate::bytes_util::find_sub;
use crate::cms_ops::decode_x509;
use crate::cms_ops::is_x509_cert;
use crate::mime_ops::base64_decode;
use crate::mime_ops::base64_decode_of;
use crate::pgp_ops::is_pgp_public_key;
use crate::pgp_ops::parse_pgp_key;
use crate::types::CryptoError;
use crate::types::EncryptionMethod;

verus! {

use vstd::string::StringSliceAdditionalSpecFns;

pub const DASH: u8 = 45;
pub const NL: u8 = 10;

/// ASCII whitespace, as the scanner skips it.
pub open spec fn is_ws(c: u8) -> bool {
    c == 32 || c == 9 || c == 10 || c == 12 || c == 13
}

/// ASCII upper-casing of one byte.
pub open spec fn ascii_upper(c: u8) -> u8 {
    if 97 <= c && c <= 122 {
        (c - 32) as u8
    } else {
        c
    }
}

/// Index of the first non-whitespace byte at or after `i`, or the length.
pub open spec fn first_non_ws(s: Seq<u8>, i: int) -> int
    decreases s.len() - i,
{
    if i < 0 || i >= s.len() {
        s.len() as int
    } else if is_ws(s[i]) {
        first_non_ws(s, i + 1)
    } else {
        i
    }
}

pub proof fn lemma_first_non_ws_range(s: Seq<u8>, i: int)
    requires
        0 <= i <= s.len(),
    ensures
        i <= first_non_ws(s, i) <= s.len(),
    decreases s.len() - i,
{
    if i < s.len() && is_ws(s[i]) {
        lemma_first_non_ws_range(s, i + 1);
    }
}

/// Result of scanning a `BEGIN` tag: the upper-cased tag bytes, the
/// index after the terminating newline, and whether every byte was
/// ASCII (a non-ASCII byte makes the blob not-PEM).
pub struct TagScan {
    pub tag: Seq<u8>,
    pub next: int,
    pub ok: bool,
}

/// Scans a PEM tag from `i`: dashes are skipped, a newline ends the tag,
/// other ASCII bytes are upper-cased and kept.
pub open spec fn scan_tag(s: Seq<u8>, i: int) -> TagScan
    decreases s.len() - i,
{
    if i < 0 || i >= s.len() {
        TagScan { tag: Seq::empty(), next: s.len() as int, ok: true }
    } else if s[i] == DASH {
        scan_tag(s, i + 1)
    } else if s[i] == NL {
        TagScan { tag: Seq::empty(), next: i + 1, ok: true }
    } else if s[i] >= 128 {
        TagScan { tag: Seq::empty(), next: i, ok: false }
    } else {
        let t = scan_tag(s, i + 1);
        TagScan { tag: seq![ascii_upper(s[i])] + t.tag, next: t.next, ok: t.ok }
    }
}

pub proof fn lemma_scan_tag_range(s: Seq<u8>, i: int)
    requires
        0 <= i <= s.len(),
    ensures
        i <= scan_tag(s, i).next <= s.len(),
    decreases s.len() - i,
{
    if 0 <= i < s.len() && (s[i] == DASH || (s[i] != NL && s[i] < 128)) {
        lemma_scan_tag_range(s, i + 1);
    }
}

/// Index just after an unknown block: consumed up to a newline that
/// follows some dash, or the end of input.
pub open spec fn skip_block(s: Seq<u8>, i: int, found: bool) -> int
    decreases s.len() - i,
{
    if i < 0 || i >= s.len() {
        s.len() as int
    } else if s[i] == DASH {
        skip_block(s, i + 1, true)
    } else if s[i] == NL && found {
        i + 1
    } else {
        skip_block(s, i + 1, found)
    }
}

pub proof fn lemma_skip_block_range(s: Seq<u8>, i: int, found: bool)
    requires
        0 <= i <= s.len(),
    ensures
        i <= skip_block(s, i, found) <= s.len(),
    decreases s.len() - i,
{
    if 0 <= i < s.len() {
        if s[i] == DASH {
            lemma_skip_block_range(s, i + 1, true);
        } else if !(s[i] == NL && found) {
            lemma_skip_block_range(s, i + 1, found);
        }
    }
}

/// Result of collecting a base64 body: the collected bytes and the index
/// after the block's end marker.
pub struct B64Scan {
    pub buf: Seq<u8>,
    pub next: int,
}

/// Collects the base64 body from `i` until the block's end marker: a
/// dash ends the body, whitespace is skipped, and the block is consumed
/// up to the newline that follows the dash.
pub open spec fn collect_b64(s: Seq<u8>, i: int, found: bool) -> B64Scan
    decreases s.len() - i,
{
    if i < 0 || i >= s.len() {
        B64Scan { buf: Seq::empty(), next: s.len() as int }
    } else if s[i] == DASH {
        collect_b64(s, i + 1, true)
    } else if s[i] == NL {
        if found {
            B64Scan { buf: Seq::empty(), next: i + 1 }
        } else {
            collect_b64(s, i + 1, found)
        }
    } else if found || is_ws(s[i]) {
        collect_b64(s, i + 1, found)
    } else {
        let b = collect_b64(s, i + 1, found);
        B64Scan { buf: seq![s[i]] + b.buf, next: b.next }
    }
}

pub proof fn lemma_collect_b64_range(s: Seq<u8>, i: int, found: bool)
    requires
        0 <= i <= s.len(),
    ensures
        i <= collect_b64(s, i, found).next <= s.len(),
    decreases s.len() - i,
{
    if 0 <= i < s.len() {
        if s[i] == DASH {
            lemma_collect_b64_range(s, i + 1, true);
        } else if s[i] == NL && found {
        } else {
            lemma_collect_b64_range(s, i + 1, found);
        }
    }
}

/// Whether a key validates under the method: DER X.509 for S/MIME, an
/// OpenPGP transferable public key for PGP.
pub open spec fn valid_under(m: EncryptionMethod, cert: Seq<u8>) -> bool {
    match m {
        EncryptionMethod::SMIME => is_x509_cert(cert),
        EncryptionMethod::PGP => is_pgp_public_key(cert),
    }
}

/// Outcome of the PEM scan.
pub enum PemSpec {
    /// The blob is not PEM at all: fall through to the raw parses.
    NotPem,
    /// The bundle mixed PGP and S/MIME markers.
    Mixed,
    /// A block's base64 body did not decode.
    BadBase64,
    /// A block's decoded key did not validate under its method.
    BadKey(EncryptionMethod),
    /// The scan ended: the classified method and keys, or nothing if no
    /// block classified.
    Done(Option<(EncryptionMethod, Seq<Seq<u8>>)>),
}

/// The scan's final value for a finished scan.
pub open spec fn pem_pack(m: Option<EncryptionMethod>, certs: Seq<Seq<u8>>) -> PemSpec {
    match m {
        None => PemSpec::Done(None),
        Some(mm) => PemSpec::Done(Some((mm, certs))),
    }
}

/// The PEM scanner: one step finds the next block start, reads and
/// classifies its tag, and either stops, skips the block, rejects a
/// mixed bundle, or reads and validates the block's key.
pub open spec fn pem_scan(
    s: Seq<u8>,
    i: int,
    method: Option<EncryptionMethod>,
    certs: Seq<Seq<u8>>,
) -> PemSpec
    decreases s.len() - i, 0int,
    when 0 <= i <= s.len()
    via pem_scan_dec
{
    let j = first_non_ws(s, i);
    if j >= s.len() {
        pem_pack(method, certs)
    } else if s[j] != DASH {
        PemSpec::NotPem
    } else {
        let t = scan_tag(s, j + 1);
        if !t.ok {
            PemSpec::NotPem
        } else if t.tag.len() == 0 {
            pem_pack(method, certs)
        } else if contains_sub(t.tag, "CERTIFICATE".spec_bytes()) {
            if method == Some(EncryptionMethod::PGP) {
                PemSpec::Mixed
            } else {
                pem_block(s, t.next, EncryptionMethod::SMIME, certs)
            }
        } else if contains_sub(t.tag, "PGP".spec_bytes()) {
            if method == Some(EncryptionMethod::SMIME) {
                PemSpec::Mixed
            } else {
                pem_block(s, t.next, EncryptionMethod::PGP, certs)
            }
        } else {
            pem_scan(s, skip_block(s, t.next, false), method, certs)
        }
    }
}

/// Reads one classified block's base64 body, decodes and validates it,
/// and continues the scan with the key appended.
pub open spec fn pem_block(s: Seq<u8>, i: int, m: EncryptionMethod, certs: Seq<Seq<u8>>) -> PemSpec
    decreases s.len() - i, 1int,
    when 0 <= i <= s.len()
    via pem_block_dec
{
    let b = collect_b64(s, i, false);
    match base64_decode_of(b.buf) {
        None => PemSpec::BadBase64,
        Some(cert) => if valid_under(m, cert) {
            pem_scan(s, b.next, Some(m), certs.push(cert))
        } else {
            PemSpec::BadKey(m)
        },
    }
}

#[via_fn]
proof fn pem_scan_dec(s: Seq<u8>, i: int, method: Option<EncryptionMethod>, certs: Seq<Seq<u8>>) {
    lemma_first_non_ws_range(s, i);
    let j = first_non_ws(s, i);
    if j < s.len() {
        lemma_scan_tag_range(s, j + 1);
        let t = scan_tag(s, j + 1);
        lemma_skip_block_range(s, t.next, false);
    }
}

#[via_fn]
proof fn pem_block_dec(s: Seq<u8>, i: int, m: EncryptionMethod, certs: Seq<Seq<u8>>) {
    lemma_collect_b64_range(s, i, false);
}

/// Once a method is classified the key list is non-empty and every key
/// validates under it; a finished scan hands back such a list.
pub proof fn lemma_pem_scan_valid(
    s: Seq<u8>,
    i: int,
    method: Option<EncryptionMethod>,
    certs: Seq<Seq<u8>>,
)
    requires
        0 <= i <= s.len(),
        method is None ==> certs.len() == 0,
        method matches Some(m) ==> certs.len() > 0 && forall|k: int|
            0 <= k < certs.len() ==> valid_under(m, #[trigger] certs[k]),
    ensures
        pem_scan(s, i, method, certs) matches PemSpec::Done(Some((m2, cs))) ==> cs.len() > 0
            && forall|k: int| 0 <= k < cs.len() ==> valid_under(m2, #[trigger] cs[k]),
    decreases s.len() - i, 2int,
{
    lemma_first_non_ws_range(s, i);
    let j = first_non_ws(s, i);
    if j < s.len() && s[j] == DASH {
        lemma_scan_tag_range(s, j + 1);
        let t = scan_tag(s, j + 1);
        if t.ok && t.tag.len() > 0 {
            if contains_sub(t.tag, "CERTIFICATE".spec_bytes()) {
                if method != Some(EncryptionMethod::PGP) {
                    lemma_pem_block_valid(s, t.next, EncryptionMethod::SMIME, certs, method);
                }
            } else if contains_sub(t.tag, "PGP".spec_bytes()) {
                if method != Some(EncryptionMethod::SMIME) {
                    lemma_pem_block_valid(s, t.next, EncryptionMethod::PGP, certs, method);
                }
            } else {
                lemma_skip_block_range(s, t.next, false);
                lemma_pem_scan_valid(s, skip_block(s, t.next, false), method, certs);
            }
        }
    }
}

fn find_start(bytes: &[u8], i: usize) -> (r: usize)
    requires
        i <= bytes@.len(),
    ensures
        r == first_non_ws(bytes@, i as int),
        i <= r <= bytes@.len(),
{
    let n = bytes.len();
    let mut j = i;
    while j < n
        invariant
            i <= j <= n,
            n == bytes@.len(),
            first_non_ws(bytes@, i as int) == first_non_ws(bytes@, j as int),
        decreases n - j,
    {
        let c = bytes[j];
        if !(c == 32 || c == 9 || c == 10 || c == 12 || c == 13) {
            return j;
        }
        j += 1;
    }
    j
}

fn scan_tag_exec(bytes: &[u8], i: usize) -> (r: (Vec<u8>, usize, bool))
    requires
        i <= bytes@.len(),
    ensures
        ({
            let t = scan_tag(bytes@, i as int);
            r.2 == t.ok && (t.ok ==> (r.0@ == t.tag && r.1 == t.next)) && i <= r.1 <= bytes@.len()
        }),
{
    let n = bytes.len();
    let mut buf: Vec<u8> = Vec::new();
    let mut j = i;
    while j < n
        invariant
            i <= j <= n,
            n == bytes@.len(),
            scan_tag(bytes@, i as int).ok == scan_tag(bytes@, j as int).ok,
            scan_tag(bytes@, j as int).ok ==> scan_tag(bytes@, i as int).tag == buf@ + scan_tag(
                bytes@,
                j as int,
            ).tag,
            scan_tag(bytes@, j as int).ok ==> scan_tag(bytes@, i as int).next == scan_tag(
                bytes@,
                j as int,
            ).next,
        decreases n - j,
    {
        let c = bytes[j];
        if c == DASH {
            j += 1;
        } else if c == NL {
            proof {
                assert(scan_tag(bytes@, i as int).tag =~= buf@);
            }
            return (buf, j + 1, true);
        } else if c >= 128 {
            return (buf, j, false);
        } else {
            let uc = if 97 <= c && c <= 122 {
                c - 32
            } else {
                c
            };
            let ghost pre = buf@;
            buf.push(uc);
            j += 1;
            proof {
                assert(scan_tag(bytes@, j - 1).tag == seq![ascii_upper(bytes@[j - 1])] + scan_tag(
                    bytes@,
                    j as int,
                ).tag);
                if scan_tag(bytes@, j as int).ok {
                    assert(pre + scan_tag(bytes@, j - 1).tag =~= buf@ + scan_tag(
                        bytes@,
                        j as int,
                    ).tag);
                }
            }
        }
    }
    proof {
        assert(scan_tag(bytes@, i as int).tag =~= buf@);
    }
    (buf, n, true)
}

fn skip_block_exec(bytes: &[u8], i: usize) -> (r: usize)
    requires
        i <= bytes@.len(),
    ensures
        r == skip_block(bytes@, i as int, false),
        i <= r <= bytes@.len(),
{
    let n = bytes.len();
    let mut j = i;
    let mut found = false;
    while j < n
        invariant
            i <= j <= n,
            n == bytes@.len(),
            skip_block(bytes@, i as int, false) == skip_block(bytes@, j as int, found),
        decreases n - j,
    {
        let c = bytes[j];
        if c == DASH {
            found = true;
            j += 1;
        } else if c == NL && found {
            return j + 1;
        } else {
            j += 1;
        }
    }
    n
}

fn collect_b64_exec(bytes: &[u8], i: usize) -> (r: (Vec<u8>, usize))
    requires
        i <= bytes@.len(),
    ensures
        r.0@ == collect_b64(bytes@, i as int, false).buf,
        r.1 == collect_b64(bytes@, i as int, false).next,
        i <= r.1 <= bytes@.len(),
{
    let n = bytes.len();
    let mut buf: Vec<u8> = Vec::new();
    let mut j = i;
    let mut found = false;
    while j < n
        invariant
            i <= j <= n,
            n == bytes@.len(),
            collect_b64(bytes@, i as int, false).buf == buf@ + collect_b64(
                bytes@,
                j as int,
                found,
            ).buf,
            collect_b64(bytes@, i as int, false).next == collect_b64(bytes@, j as int, found).next,
        decreases n - j,
    {
        let c = bytes[j];
        if c == DASH {
            found = true;
            j += 1;
        } else if c == NL {
            if found {
                proof {
                    assert(collect_b64(bytes@, i as int, false).buf =~= buf@);
                }
                return (buf, j + 1);
            }
            j += 1;
        } else if found || c == 32 || c == 9 || c == 12 || c == 13 {
            j += 1;
        } else {
            let ghost pre = buf@;
            buf.push(c);
            j += 1;
            proof {
                assert(collect_b64(bytes@, j - 1, found).buf == seq![bytes@[j - 1]] + collect_b64(
                    bytes@,
                    j as int,
                    found,
                ).buf);
                assert(pre + collect_b64(bytes@, j - 1, found).buf =~= buf@ + collect_b64(
                    bytes@,
                    j as int,
                    found,
                ).buf);
            }
        }
    }
    proof {
        assert(collect_b64(bytes@, i as int, false).buf =~= buf@);
    }
    (buf, n)
}

/// Scans a PEM bundle. `Ok(Some(..))` is the classified method with the
/// decoded, validated keys; `Ok(None)` means the blob is not PEM (or held
/// no block): the caller falls through to the raw parses. Mixing PGP and
/// S/MIME markers, an undecodable base64 body, and a key that does not
/// validate under its block's method are errors.
pub fn try_parse_pem(bytes: &[u8]) -> (r: Result<
    Option<(EncryptionMethod, Vec<Vec<u8>>)>,
    CryptoError,
>)
    ensures
        ({
            let o = pem_scan(bytes@, 0, None::<EncryptionMethod>, Seq::empty());
            match r {
                Ok(Some((m, certs))) => o == PemSpec::Done(Some((m, certs.deep_view()))),
                Ok(None) => o is NotPem || o == PemSpec::Done(
                    None::<(EncryptionMethod, Seq<Seq<u8>>)>,
                ),
                Err(e) => match e {
                    CryptoError::MixedMethods => o is Mixed,
                    CryptoError::InvalidCertificate(_) => o is BadBase64 || o is BadKey,
                    _ => false,
                },
            }
        }),
{
    let n = bytes.len();
    let mut method: Option<EncryptionMethod> = None;
    let mut certs: Vec<Vec<u8>> = Vec::new();
    let mut i: usize = 0;
    proof {
        assert(certs.deep_view() =~= Seq::<Seq<u8>>::empty());
    }
    loop
        invariant
            i <= bytes@.len(),
            n == bytes@.len(),
            pem_scan(bytes@, 0, None::<EncryptionMethod>, Seq::empty()) == pem_scan(
                bytes@,
                i as int,
                method,
                certs.deep_view(),
            ),
        decreases bytes@.len() - i,
    {
        let j = find_start(bytes, i);
        if j == n {
            return match method {
                None => Ok(None),
                Some(m) => Ok(Some((m, certs))),
            };
        }
        if bytes[j] != DASH {
            return Ok(None);
        }
        let (tag, tnext, ok) = scan_tag_exec(bytes, j + 1);
        if !ok {
            return Ok(None);
        }
        if tag.len() == 0 {
            return match method {
                None => Ok(None),
                Some(m) => Ok(Some((m, certs))),
            };
        }
        let m: EncryptionMethod;
        if find_sub(tag.as_slice(), "CERTIFICATE".as_bytes()) {
            if matches!(method, Some(EncryptionMethod::PGP)) {
                return Err(CryptoError::MixedMethods);
            }
            m = EncryptionMethod::SMIME;
        } else if find_sub(tag.as_slice(), "PGP".as_bytes()) {
            if matches!(method, Some(EncryptionMethod::SMIME)) {
                return Err(CryptoError::MixedMethods);
            }
            m = EncryptionMethod::PGP;
        } else {
            i = skip_block_exec(bytes, tnext);
            continue ;
        }
        proof {
            assert(first_non_ws(bytes@, i as int) == j as int);
            assert(pem_scan(bytes@, i as int, method, certs.deep_view()) == pem_block(
                bytes@,
                tnext as int,
                m,
                certs.deep_view(),
            ));
        }
        let (b64, bnext) = collect_b64_exec(bytes, tnext);
        let cert = match base64_decode(b64.as_slice()) {
            Some(c) => c,
            None => {
                return Err(
                    CryptoError::InvalidCertificate(
                        "Failed to decode base64 certificate.".to_owned(),
                    ),
                );
            },
        };
        match m {
            EncryptionMethod::PGP => {
                match parse_pgp_key(cert.as_slice(), "Failed to decode PGP public key") {
                    Ok(_) => {},
                    Err(e) => {
                        return Err(CryptoError::InvalidCertificate(e));
                    },
                }
            },
            EncryptionMethod::SMIME => {
                match decode_x509(cert.as_slice(), "Failed to decode X509 certificate") {
                    Ok(_) => {},
                    Err(e) => {
                        return Err(CryptoError::InvalidCertificate(e));
                    },
                }
            },
        }
        let ghost certs_pre = certs.deep_view();
        let ghost cert_view = cert@;
        certs.push(cert);
        method = Some(m);
        i = bnext;
        proof {
            assert(certs.deep_view() =~~= certs_pre.push(cert_view));
        }
    }
}

/// Abstract outcome of ingesting a certificate blob: the classified
/// method with the decoded keys, a mixed bundle, an invalid block, or
/// nothing usable at all.
pub enum BundleOutcome {
    Keys(EncryptionMethod, Seq<Seq<u8>>),
    Mixed,
    Invalid,
    Nothing,
}

/// What a certificate blob parses to: the PEM scan's outcome, falling
/// through to the raw DER X.509 and raw OpenPGP parses when the blob is
/// not PEM or held no block.
pub open spec fn spec_parse_certs(bytes: Seq<u8>) -> BundleOutcome {
    match pem_scan(bytes, 0, None::<EncryptionMethod>, Seq::empty()) {
        PemSpec::Done(Some((m, cs))) => BundleOutcome::Keys(m, cs),
        PemSpec::Mixed => BundleOutcome::Mixed,
        PemSpec::BadBase64 => BundleOutcome::Invalid,
        PemSpec::BadKey(_) => BundleOutcome::Invalid,
        _ => if is_x509_cert(bytes) {
            BundleOutcome::Keys(EncryptionMethod::SMIME, seq![bytes])
        } else if is_pgp_public_key(bytes) {
            BundleOutcome::Keys(EncryptionMethod::PGP, seq![bytes])
        } else {
            BundleOutcome::Nothing
        },
    }
}

/// Ingests a raw certificate blob: a PEM scan first, then a raw DER
/// X.509 parse, then a raw OpenPGP parse. The result is exactly what
/// `spec_parse_certs` assigns to the bytes; on success the key list is
/// non-empty and every key validates under the method.
pub fn try_parse_certs(bytes: Vec<u8>) -> (r: Result<
    (EncryptionMethod, Vec<Vec<u8>>),
    CryptoError,
>)
    ensures
        match r {
            Ok((m, certs)) => {
                &&& spec_parse_certs(bytes@) == BundleOutcome::Keys(m, certs.deep_view())
                &&& certs.deep_view().len() > 0
                &&& forall|k: int|
                    0 <= k < certs.deep_view().len() ==> valid_under(
                        m,
                        #[trigger] certs.deep_view()[k],
                    )
            },
            Err(e) => match e {
                CryptoError::MixedMethods => spec_parse_certs(bytes@) is Mixed,
                CryptoError::InvalidCertificate(_) => spec_parse_certs(bytes@) is Invalid,
                CryptoError::NoCertificates => spec_parse_certs(bytes@) is Nothing,
                _ => false,
            },
        },
{
    proof {
        lemma_pem_scan_valid(bytes@, 0, None::<EncryptionMethod>, Seq::empty());
    }
    match try_parse_pem(bytes.as_slice()) {
        Ok(Some(result)) => Ok(result),
        Ok(None) => {
            if decode_x509(bytes.as_slice(), "Failed to decode X509 certificate").is_ok() {
                let certs = vec![bytes];
                proof {
                    assert(certs.deep_view() =~~= seq![certs@[0]@]);
                }
                Ok((EncryptionMethod::SMIME, certs))
            } else if parse_pgp_key(
                bytes.as_slice(),
                "Failed to decode PGP public key",
            ).is_ok() {
                let certs = vec![bytes];
                proof {
                    assert(certs.deep_view() =~~= seq![certs@[0]@]);
                }
                Ok((EncryptionMethod::PGP, certs))
            } else {
                Err(CryptoError::NoCertificates)
            }
        },
        Err(e) => Err(e),
    }
}

proof fn lemma_pem_block_valid(
    s: Seq<u8>,
    i: int,
    m: EncryptionMethod,
    certs: Seq<Seq<u8>>,
    method: Option<EncryptionMethod>,
)
    requires
        0 <= i <= s.len(),
        method is None ==> certs.len() == 0,
        method matches Some(m0) ==> m0 == m && certs.len() > 0 && forall|k: int|
            0 <= k < certs.len() ==> valid_under(m0, #[trigger] certs[k]),
    ensures
        pem_block(s, i, m, certs) matches PemSpec::Done(Some((m2, cs))) ==> cs.len() > 0
            && forall|k: int| 0 <= k < cs.len() ==> valid_under(m2, #[trigger] cs[k]),
    decreases s.len() - i, 3int,
{
    lemma_collect_b64_range(s, i, false);
    let b = collect_b64(s, i, false);
    match base64_decode_of(b.buf) {
        None => {},
        Some(cert) => {
            if valid_under(m, cert) {
                lemma_pem_scan_valid(s, b.next, Some(m), certs.push(cert));
            }
        },
    }
}

} // verus!
