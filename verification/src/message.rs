//! The parsed-message interface the core consumes, the already-encrypted
//! detector, and the splitter that parts the visible outer headers from
//! the MIME payload to be encrypted.

use vstd::prelude::*;

use crate::bytes_util::last_index_of;
use crate::bytes_util::lower;
use crate::bytes_util::matches_lower;
use crate::bytes_util::matches_lower_from;
use crate::bytes_util::push_range;
use crate::bytes_util::push_str;

verus! {

use vstd::multiset::Multiset;
use vstd::string::StringSliceAdditionalSpecFns;

/// One header of the root part: its name and the byte span of the full
/// `name: value\r\n` line in the raw message.
#[derive(Debug)]
pub struct RawHeader {
    pub name: Vec<u8>,
    pub offset_field: usize,
    pub offset_end: usize,
}

/// Top-level Content-Type of a parsed message: type and optional subtype.
#[derive(Debug)]
pub struct TopContentType {
    pub main_type: Vec<u8>,
    pub sub_type: Option<Vec<u8>>,
}

/// What the core needs of a parsed message: the raw bytes, the root
/// part's header list with original byte offsets, the offset of the raw
/// body, the top-level Content-Type, and the attachment filename if any.
#[derive(Debug)]
pub struct ParsedMessage {
    pub raw: Vec<u8>,
    pub headers: Vec<RawHeader>,
    pub raw_body_offset: usize,
    pub content_type: Option<TopContentType>,
    pub attachment_name: Option<Vec<u8>>,
}

impl ParsedMessage {
    /// Well-formedness: every header span and the body offset lie inside
    /// the raw bytes.
    pub open spec fn wf(self) -> bool {
        &&& forall|i: int|
            0 <= i < self.headers@.len() ==> (#[trigger] self.headers@[i]).offset_field
                <= self.headers@[i].offset_end <= self.raw@.len()
        &&& self.raw_body_offset <= self.raw@.len()
    }
}

/// Whether a header name is a MIME header (moved into the encrypted
/// part): Content-Type, Content-Transfer-Encoding, Content-Disposition,
/// Content-ID, Content-Description or MIME-Version.
pub open spec fn spec_is_mime_name(n: Seq<u8>) -> bool {
    ||| lower(n) == "content-type".spec_bytes()
    ||| lower(n) == "content-transfer-encoding".spec_bytes()
    ||| lower(n) == "content-disposition".spec_bytes()
    ||| lower(n) == "content-id".spec_bytes()
    ||| lower(n) == "content-description".spec_bytes()
    ||| lower(n) == "mime-version".spec_bytes()
}

pub fn is_mime_header_name(n: &[u8]) -> (r: bool)
    ensures
        r == spec_is_mime_name(n@),
{
    matches_lower(n, "content-type".as_bytes()) || matches_lower(
        n,
        "content-transfer-encoding".as_bytes(),
    ) || matches_lower(n, "content-disposition".as_bytes()) || matches_lower(
        n,
        "content-id".as_bytes(),
    ) || matches_lower(n, "content-description".as_bytes()) || matches_lower(
        n,
        "mime-version".as_bytes(),
    )
}

/// The bytes of one header line in the raw message.
pub open spec fn spec_header_span(raw: Seq<u8>, h: RawHeader) -> Seq<u8> {
    raw.subrange(h.offset_field as int, h.offset_end as int)
}

/// The concatenation of the spans of the headers whose MIME-ness equals
/// `mime`, in original order.
pub open spec fn spec_cat(raw: Seq<u8>, hs: Seq<RawHeader>, mime: bool) -> Seq<u8>
    decreases hs.len(),
{
    if hs.len() == 0 {
        Seq::empty()
    } else {
        (if spec_is_mime_name(hs[0].name@) == mime {
            spec_header_span(raw, hs[0])
        } else {
            Seq::empty()
        }) + spec_cat(raw, hs.drop_first(), mime)
    }
}

/// The header block that stays visible in the outer envelope.
pub open spec fn spec_outer(msg: ParsedMessage) -> Seq<u8> {
    spec_cat(msg.raw@, msg.headers@, false)
}

/// The plaintext to be encrypted: the MIME headers, a blank line, then
/// the raw body of the root part.
pub open spec fn spec_inner(msg: ParsedMessage) -> Seq<u8> {
    spec_cat(msg.raw@, msg.headers@, true) + "\r\n".spec_bytes() + msg.raw@.skip(
        msg.raw_body_offset as int,
    )
}

/// Splits a message into the outer header block and the inner MIME
/// payload. Every header line goes to exactly one side, in original
/// order; the inner side further carries the end-of-header marker and
/// the raw body.
pub fn split_message(msg: &ParsedMessage) -> (r: (Vec<u8>, Vec<u8>))
    requires
        msg.wf(),
    ensures
        r.0@ == spec_outer(*msg),
        r.1@ == spec_inner(*msg),
{
    let mut outer: Vec<u8> = Vec::new();
    let mut inner: Vec<u8> = Vec::new();
    let n = msg.headers.len();
    let mut i: usize = 0;
    proof {
        assert(msg.headers@.skip(0) =~= msg.headers@);
    }
    while i < n
        invariant
            i <= n,
            n == msg.headers@.len(),
            msg.wf(),
            outer@ + spec_cat(msg.raw@, msg.headers@.skip(i as int), false) == spec_cat(
                msg.raw@,
                msg.headers@,
                false,
            ),
            inner@ + spec_cat(msg.raw@, msg.headers@.skip(i as int), true) == spec_cat(
                msg.raw@,
                msg.headers@,
                true,
            ),
        decreases n - i,
    {
        let ghost rest = msg.headers@.skip(i as int);
        let ghost outer_pre = outer@;
        let ghost inner_pre = inner@;
        let h = &msg.headers[i];
        proof {
            assert(rest[0] == msg.headers@[i as int]);
            assert(rest.drop_first() =~= msg.headers@.skip(i + 1));
        }
        if is_mime_header_name(h.name.as_slice()) {
            push_range(&mut inner, msg.raw.as_slice(), h.offset_field, h.offset_end);
        } else {
            push_range(&mut outer, msg.raw.as_slice(), h.offset_field, h.offset_end);
        }
        i += 1;
        proof {
            assert(outer@ + spec_cat(msg.raw@, msg.headers@.skip(i as int), false) =~= outer_pre
                + spec_cat(msg.raw@, rest, false));
            assert(inner@ + spec_cat(msg.raw@, msg.headers@.skip(i as int), true) =~= inner_pre
                + spec_cat(msg.raw@, rest, true));
        }
    }
    proof {
        assert(msg.headers@.skip(n as int) =~= Seq::<RawHeader>::empty());
        assert(outer@ + spec_cat(msg.raw@, Seq::<RawHeader>::empty(), false) =~= outer@);
        assert(inner@ + spec_cat(msg.raw@, Seq::<RawHeader>::empty(), true) =~= inner@);
    }
    push_str(&mut inner, "\r\n");
    push_range(&mut inner, msg.raw.as_slice(), msg.raw_body_offset, msg.raw.len());
    proof {
        assert(msg.raw@.subrange(msg.raw_body_offset as int, msg.raw@.len() as int)
            =~= msg.raw@.skip(msg.raw_body_offset as int));
    }
    (outer, inner)
}

/// The header lines whose MIME-ness equals `mime`, in original order.
pub open spec fn spec_sel_spans(raw: Seq<u8>, hs: Seq<RawHeader>, mime: bool) -> Seq<Seq<u8>>
    decreases hs.len(),
{
    if hs.len() == 0 {
        Seq::empty()
    } else {
        (if spec_is_mime_name(hs[0].name@) == mime {
            seq![spec_header_span(raw, hs[0])]
        } else {
            Seq::empty()
        }) + spec_sel_spans(raw, hs.drop_first(), mime)
    }
}

/// All header lines, in original order.
pub open spec fn spec_spans(raw: Seq<u8>, hs: Seq<RawHeader>) -> Seq<Seq<u8>>
    decreases hs.len(),
{
    if hs.len() == 0 {
        Seq::empty()
    } else {
        seq![spec_header_span(raw, hs[0])] + spec_spans(raw, hs.drop_first(), )
    }
}

/// Concatenation of a sequence of byte runs.
pub open spec fn concat_all(ss: Seq<Seq<u8>>) -> Seq<u8>
    decreases ss.len(),
{
    if ss.len() == 0 {
        Seq::empty()
    } else {
        ss[0] + concat_all(ss.drop_first())
    }
}

/// The splitter's buffers partition the original header lines: the lines
/// written to the inner buffer and those written to the outer buffer,
/// taken together as multisets, are exactly the message's header lines;
/// and each buffer's header block is the concatenation of its side's
/// lines in original order.
pub proof fn lemma_split_partition(raw: Seq<u8>, hs: Seq<RawHeader>)
    ensures
        spec_sel_spans(raw, hs, true).to_multiset().add(
            spec_sel_spans(raw, hs, false).to_multiset(),
        ) == spec_spans(raw, hs).to_multiset(),
        spec_cat(raw, hs, true) == concat_all(spec_sel_spans(raw, hs, true)),
        spec_cat(raw, hs, false) == concat_all(spec_sel_spans(raw, hs, false)),
    decreases hs.len(),
{
    broadcast use vstd::seq_lib::group_to_multiset_ensures;

    if hs.len() == 0 {
        assert(spec_sel_spans(raw, hs, true).to_multiset() =~= Multiset::<Seq<u8>>::empty());
        assert(spec_sel_spans(raw, hs, false).to_multiset() =~= Multiset::<Seq<u8>>::empty());
        assert(spec_spans(raw, hs).to_multiset() =~= Multiset::<Seq<u8>>::empty());
    } else {
        let rest = hs.drop_first();
        lemma_split_partition(raw, rest);
        let span0 = spec_header_span(raw, hs[0]);
        let m = spec_is_mime_name(hs[0].name@);
        assert(spec_spans(raw, hs) == seq![span0] + spec_spans(raw, rest));
        vstd::seq_lib::lemma_multiset_commutative(seq![span0], spec_spans(raw, rest));
        assert(seq![span0].to_multiset() =~= Multiset::<Seq<u8>>::empty().insert(span0));
        if m {
            vstd::seq_lib::lemma_multiset_commutative(seq![span0], spec_sel_spans(raw, rest, true));
            assert(spec_sel_spans(raw, hs, true) == seq![span0] + spec_sel_spans(raw, rest, true));
            assert(spec_sel_spans(raw, hs, false) =~= spec_sel_spans(raw, rest, false));
            assert(spec_sel_spans(raw, hs, true).to_multiset().add(
                spec_sel_spans(raw, hs, false).to_multiset(),
            ) =~= spec_spans(raw, hs).to_multiset());
            assert(spec_sel_spans(raw, hs, true).drop_first() =~= spec_sel_spans(raw, rest, true));
            assert(spec_cat(raw, hs, true) == concat_all(spec_sel_spans(raw, hs, true)));
            assert(spec_cat(raw, hs, false) =~= concat_all(spec_sel_spans(raw, hs, false)));
        } else {
            vstd::seq_lib::lemma_multiset_commutative(
                seq![span0],
                spec_sel_spans(raw, rest, false),
            );
            assert(spec_sel_spans(raw, hs, false) == seq![span0] + spec_sel_spans(
                raw,
                rest,
                false,
            ));
            assert(spec_sel_spans(raw, hs, true) =~= spec_sel_spans(raw, rest, true));
            assert(spec_sel_spans(raw, hs, true).to_multiset().add(
                spec_sel_spans(raw, hs, false).to_multiset(),
            ) =~= spec_spans(raw, hs).to_multiset());
            assert(spec_sel_spans(raw, hs, false).drop_first() =~= spec_sel_spans(
                raw,
                rest,
                false,
            ));
            assert(spec_cat(raw, hs, false) == concat_all(spec_sel_spans(raw, hs, false)));
            assert(spec_cat(raw, hs, true) =~= concat_all(spec_sel_spans(raw, hs, true)));
        }
    }
}

/// Whether an attachment filename ends in `.p7m`, `.p7s`, `.p7c` or
/// `.p7z`, ASCII case-insensitively.
pub open spec fn spec_has_p7_ext(name: Seq<u8>) -> bool {
    let i = last_index_of(name, 46u8);
    &&& i >= 0
    &&& {
        ||| lower(name.skip(i + 1)) == "p7m".spec_bytes()
        ||| lower(name.skip(i + 1)) == "p7s".spec_bytes()
        ||| lower(name.skip(i + 1)) == "p7c".spec_bytes()
        ||| lower(name.skip(i + 1)) == "p7z".spec_bytes()
    }
}

fn has_p7_ext(name: &[u8]) -> (r: bool)
    ensures
        r == spec_has_p7_ext(name@),
{
    let mut i: usize = name.len();
    while i > 0
        invariant
            i <= name@.len(),
            forall|j: int| i <= j < name@.len() ==> name@[j] != 46u8,
        decreases i,
    {
        i -= 1;
        if name[i] == 46u8 {
            proof {
                crate::bytes_util::lemma_last_index_of_at(name@, 46u8, i as int);
            }
            return matches_lower_from(name, i + 1, "p7m".as_bytes()) || matches_lower_from(
                name,
                i + 1,
                "p7s".as_bytes(),
            ) || matches_lower_from(name, i + 1, "p7c".as_bytes()) || matches_lower_from(
                name,
                i + 1,
                "p7z".as_bytes(),
            );
        }
    }
    proof {
        crate::bytes_util::lemma_last_index_of_none(name@, 46u8);
    }
    false
}

/// The already-encrypted predicate on a parsed message: an S/MIME
/// content type, an octet-stream attachment with a PKCS#7 filename
/// extension, or a multipart/encrypted envelope. Comparisons are ASCII
/// case-insensitive; a missing Content-Type is not encrypted.
pub open spec fn spec_is_encrypted(msg: ParsedMessage) -> bool {
    match msg.content_type {
        Some(ct) => {
            let main = lower(ct.main_type@);
            let sub = match ct.sub_type {
                Some(s) => lower(s@),
                None => Seq::<u8>::empty(),
            };
            ||| (main == "application".spec_bytes() && (sub == "pkcs7-mime".spec_bytes() || sub
                == "pkcs7-signature".spec_bytes() || (sub == "octet-stream".spec_bytes()
                && match msg.attachment_name {
                Some(n) => spec_has_p7_ext(n@),
                None => false,
            })))
            ||| (main == "multipart".spec_bytes() && sub == "encrypted".spec_bytes())
        },
        None => false,
    }
}

/// Decides whether the message is already encrypted and must be passed
/// through unchanged.
pub fn is_encrypted(msg: &ParsedMessage) -> (r: bool)
    ensures
        r == spec_is_encrypted(*msg),
{
    proof {
        reveal_strlit("pkcs7-mime");
        reveal_strlit("pkcs7-signature");
        reveal_strlit("octet-stream");
        reveal_strlit("encrypted");
        vstd::string::is_ascii_spec_bytes("pkcs7-mime");
        vstd::string::is_ascii_spec_bytes("pkcs7-signature");
        vstd::string::is_ascii_spec_bytes("octet-stream");
        vstd::string::is_ascii_spec_bytes("encrypted");
    }
    match &msg.content_type {
        Some(ct) => {
            let main_app = matches_lower(ct.main_type.as_slice(), "application".as_bytes());
            let main_multi = matches_lower(ct.main_type.as_slice(), "multipart".as_bytes());
            let (sub_p7m, sub_p7sig, sub_octet, sub_enc) = match &ct.sub_type {
                Some(s) => (
                    matches_lower(s.as_slice(), "pkcs7-mime".as_bytes()),
                    matches_lower(s.as_slice(), "pkcs7-signature".as_bytes()),
                    matches_lower(s.as_slice(), "octet-stream".as_bytes()),
                    matches_lower(s.as_slice(), "encrypted".as_bytes()),
                ),
                None => (false, false, false, false),
            };
            let octet_p7 = sub_octet && match &msg.attachment_name {
                Some(n) => has_p7_ext(n.as_slice()),
                None => false,
            };
            (main_app && (sub_p7m || sub_p7sig || octet_p7)) || (main_multi && sub_enc)
        },
        None => false,
    }
}

} // verus!
