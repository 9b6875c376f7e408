//! The `multipart/form-data` encoder: named string and binary parts are
//! accumulated in a byte buffer, framed by a randomly generated boundary, and
//! serialized once with the closing boundary appended lazily.

use crate::encode::{all_ascii, B_DASH, B_LOWER_A, B_LOWER_Z, B_NINE, B_UNDERSCORE, B_UPPER_A,
    B_UPPER_Z, B_ZERO};
use rand::seq::SliceRandom;
use vstd::prelude::*;
use vstd::utf8::encode_utf8;

verus! {

broadcast use vstd::seq_lib::group_seq_lib_default;

// ---------------------------------------------------------------------------
// Trusted boundary: the byte buffer, the cursor, and the randomness source.
// ---------------------------------------------------------------------------

#[verifier::external_type_specification]
#[verifier::external_body]
pub struct ExByteBuffer(bytebuffer::ByteBuffer);

/// The bytes a buffer holds.
pub uninterp spec fn buffer_bytes(b: bytebuffer::ByteBuffer) -> Seq<u8>;

/// The buffer's write cursor stands at the end of its data and no partial bit
/// write is pending, so that the next write appends.
pub uninterp spec fn buffer_ready(b: bytebuffer::ByteBuffer) -> bool;

/// Relies on ByteBuffer::new: a fresh buffer is empty, with its cursors at
/// zero.
#[verifier::external_body]
fn buffer_new() -> (b: bytebuffer::ByteBuffer)
    ensures
        buffer_bytes(b) == Seq::<u8>::empty(),
        buffer_ready(b),
{
    bytebuffer::ByteBuffer::new()
}

/// Relies on ByteBuffer::write_bytes: with the write cursor at the end of the
/// data it appends the given bytes and leaves the cursor at the new end.
#[verifier::external_body]
fn buffer_write(b: &mut bytebuffer::ByteBuffer, bytes: &[u8])
    requires
        buffer_ready(*old(b)),
    ensures
        buffer_ready(*final(b)),
        buffer_bytes(*final(b)) == buffer_bytes(*old(b)) + bytes@,
{
    b.write_bytes(bytes);
}

/// Relies on ByteBuffer::as_bytes: it returns the buffer's whole data, which
/// is copied out.
#[verifier::external_body]
fn buffer_to_vec(b: &bytebuffer::ByteBuffer) -> (r: Vec<u8>)
    ensures
        r@ == buffer_bytes(*b),
{
    b.as_bytes().to_vec()
}

#[verifier::external_type_specification]
#[verifier::external_body]
#[verifier::reject_recursive_types(T)]
pub struct ExCursor<T>(std::io::Cursor<T>);

/// The bytes a cursor wraps.
pub uninterp spec fn cursor_bytes(c: std::io::Cursor<Vec<u8>>) -> Seq<u8>;

/// Relies on Cursor::get_ref: it returns a reference to the wrapped value,
/// which is copied out.
#[verifier::external_body]
fn cursor_to_vec(c: &std::io::Cursor<Vec<u8>>) -> (r: Vec<u8>)
    ensures
        r@ == cursor_bytes(*c),
{
    c.get_ref().clone()
}

/// Relies on rand's thread_rng and SliceRandom::choose_multiple: when `amount` is at most
/// the slice's length it returns exactly `amount` elements of the slice,
/// whatever the randomness source does.
#[verifier::external_body]
fn choose_random(alphabet: &[u8], amount: usize) -> (r: Vec<u8>)
    requires
        amount <= alphabet@.len(),
    ensures
        r@.len() == amount,
        forall|i: int| 0 <= i < r@.len() ==> alphabet@.contains(#[trigger] r@[i]),
{
    let mut rng = rand::thread_rng();
    alphabet.choose_multiple(&mut rng, amount).cloned().collect()
}

// ---------------------------------------------------------------------------
// The shape of a serialized multipart body.
// ---------------------------------------------------------------------------

/// One part of a multipart body: a field name and a payload, both as bytes.
pub ghost struct Part {
    pub name: Seq<u8>,
    pub data: Seq<u8>,
}

/// `--`
pub open spec fn dash_dash() -> Seq<u8> {
    encode_utf8("--"@)
}

/// `\r\n`
pub open spec fn crlf() -> Seq<u8> {
    encode_utf8("\r\n"@)
}

/// The header written before a part's payload, up to the field name.
pub open spec fn disposition_prefix() -> Seq<u8> {
    encode_utf8("Content-Disposition: form-data; name=\""@)
}

/// The closing quote of the header and the blank line before the payload.
pub open spec fn disposition_suffix() -> Seq<u8> {
    encode_utf8("\"\r\n\r\n"@)
}

/// The bytes one part contributes: a boundary line, the disposition header,
/// a blank line, then the payload and `\r\n`.
pub open spec fn part_frame(boundary: Seq<u8>, p: Part) -> Seq<u8> {
    dash_dash() + boundary + crlf() + disposition_prefix() + p.name + disposition_suffix()
        + p.data + crlf()
}

/// The bytes of all parts, in the order they were added.
pub open spec fn parts_bytes(boundary: Seq<u8>, parts: Seq<Part>) -> Seq<u8>
    decreases parts.len(),
{
    if parts.len() == 0 {
        Seq::empty()
    } else {
        part_frame(boundary, parts[0]) + parts_bytes(boundary, parts.drop_first())
    }
}

/// The terminal boundary line: `--<boundary>--`, no trailing CRLF.
pub open spec fn closing(boundary: Seq<u8>) -> Seq<u8> {
    dash_dash() + boundary + dash_dash()
}

/// The whole serialized body: every part's frame, then the terminator.
pub open spec fn finalized_bytes(boundary: Seq<u8>, parts: Seq<Part>) -> Seq<u8> {
    parts_bytes(boundary, parts) + closing(boundary)
}

/// A byte the random boundary suffix may contain: `[A-Za-z0-9_-]`.
pub open spec fn is_boundary_byte(b: u8) -> bool {
    b == B_DASH || b == B_UNDERSCORE || (B_ZERO <= b && b <= B_NINE) || (B_UPPER_A <= b && b
        <= B_UPPER_Z) || (B_LOWER_A <= b && b <= B_LOWER_Z)
}

/// The shape of a generated boundary: 27 dashes, then 30 bytes drawn from
/// `[A-Za-z0-9_-]`.
pub open spec fn boundary_ok(bb: Seq<u8>) -> bool {
    &&& bb.len() == 57
    &&& forall|i: int| 0 <= i < 27 ==> bb[i] == B_DASH
    &&& forall|i: int| 27 <= i < 57 ==> is_boundary_byte(#[trigger] bb[i])
}

// ---------------------------------------------------------------------------
// The encoder.
// ---------------------------------------------------------------------------

/// The error an operation on a finished multipart body reports.
#[derive(Debug, Clone, Copy, PartialEq, Eq, Structural)]
pub enum FormError {
    /// A part was added after the body had been serialized.
    AlreadyFinalized,
}

/// An in-progress `multipart/form-data` body.
pub struct MultiPart {
    /// The boundary, exposed so the transport can echo it in `Content-Type`.
    pub boundary: String,
    buffer: bytebuffer::ByteBuffer,
    finalized: bool,
    parts: Ghost<Seq<Part>>,
}

impl MultiPart {
    /// The characters of the boundary string.
    pub closed spec fn boundary_chars(&self) -> Seq<char> {
        self.boundary@
    }

    /// The byte form of the boundary (the boundary is ASCII).
    pub open spec fn boundary_bytes(&self) -> Seq<u8> {
        encode_utf8(self.boundary_chars())
    }

    /// Whether the closing boundary has been written.
    pub closed spec fn is_finalized(&self) -> bool {
        self.finalized
    }

    /// The parts added so far, in order.
    pub closed spec fn parts_seq(&self) -> Seq<Part> {
        self.parts@
    }

    /// The encoder's invariant: the boundary has its generated shape and the
    /// buffer holds exactly the frames of the parts added so far, with the
    /// terminator appended exactly when the body has been finalized.
    pub closed spec fn wf(&self) -> bool {
        &&& boundary_ok(self.boundary_bytes())
        &&& vstd::utf8::is_ascii_chars(self.boundary_chars())
        &&& buffer_ready(self.buffer)
        &&& if self.finalized {
            buffer_bytes(self.buffer) == finalized_bytes(self.boundary_bytes(), self.parts@)
        } else {
            buffer_bytes(self.buffer) == parts_bytes(self.boundary_bytes(), self.parts@)
        }
    }

    /// The boundary as a string slice, for the `Content-Type` header.
    pub fn boundary_str(&self) -> (r: &str)
        ensures
            r@ == self.boundary_chars(),
    {
        self.boundary.as_str()
    }

    /// A fresh encoder: no parts, not finalized, and a boundary of 27 dashes
    /// followed by 30 bytes drawn at random from `[A-Za-z0-9_-]`.
    pub fn new() -> (r: Self)
        ensures
            r.wf(),
            !r.is_finalized(),
            r.parts_seq() == Seq::<Part>::empty(),
    {
        let mut bytes: Vec<u8> = Vec::new();
        let mut i: usize = 0;
        while i < 27
            invariant
                i <= 27,
                bytes@.len() == i,
                forall|j: int| 0 <= j < bytes@.len() ==> bytes@[j] == B_DASH,
            decreases 27 - i,
        {
            bytes.push(B_DASH);
            i += 1;
        }
        let mut alpha: Vec<u8> = Vec::new();
        alpha.push(B_DASH);
        alpha.push(B_UNDERSCORE);
        let mut c: u8 = B_UPPER_A;
        while c <= B_UPPER_Z
            invariant
                B_UPPER_A <= c <= B_UPPER_Z + 1,
                alpha@.len() == 2 + c - B_UPPER_A,
                forall|j: int| 0 <= j < alpha@.len() ==> is_boundary_byte(#[trigger] alpha@[j]),
            decreases B_UPPER_Z + 1 - c,
        {
            alpha.push(c);
            c = c + 1;
        }
        let mut c: u8 = B_LOWER_A;
        while c <= B_LOWER_Z
            invariant
                B_LOWER_A <= c <= B_LOWER_Z + 1,
                alpha@.len() == 28 + c - B_LOWER_A,
                forall|j: int| 0 <= j < alpha@.len() ==> is_boundary_byte(#[trigger] alpha@[j]),
            decreases B_LOWER_Z + 1 - c,
        {
            alpha.push(c);
            c = c + 1;
        }
        let mut c: u8 = B_ZERO;
        while c <= B_NINE
            invariant
                B_ZERO <= c <= B_NINE + 1,
                alpha@.len() == 54 + c - B_ZERO,
                forall|j: int| 0 <= j < alpha@.len() ==> is_boundary_byte(#[trigger] alpha@[j]),
            decreases B_NINE + 1 - c,
        {
            alpha.push(c);
            c = c + 1;
        }
        let postfix = choose_random(alpha.as_slice(), 30);
        let mut k: usize = 0;
        while k < postfix.len()
            invariant
                k <= postfix@.len(),
                postfix@.len() == 30,
                bytes@.len() == 27 + k,
                forall|j: int| 0 <= j < 27 ==> bytes@[j] == B_DASH,
                forall|j: int| 27 <= j < bytes@.len() ==> is_boundary_byte(#[trigger] bytes@[j]),
                forall|j: int|
                    0 <= j < postfix@.len() ==> alpha@.contains(#[trigger] postfix@[j]),
                forall|j: int| 0 <= j < alpha@.len() ==> is_boundary_byte(#[trigger] alpha@[j]),
            decreases postfix@.len() - k,
        {
            let b = postfix[k];
            proof {
                assert(alpha@.contains(postfix@[k as int]));
            }
            bytes.push(b);
            k += 1;
        }
        proof {
            assert(all_ascii(bytes@));
            crate::encode::lemma_ascii_view_encode(bytes@);
        }
        let boundary = crate::encode::ascii_to_string(bytes);
        Self { boundary, buffer: buffer_new(), finalized: false, parts: Ghost(Seq::empty()) }
    }

    /// Write `--<boundary>` followed by `--` (terminator) or `\r\n` (part line).
    fn write_boundary(&mut self, last_flag: bool)
        requires
            buffer_ready(old(self).buffer),
        ensures
            final(self).boundary_chars() == old(self).boundary_chars(),
            final(self).finalized == old(self).finalized,
            final(self).parts@ == old(self).parts@,
            buffer_ready(final(self).buffer),
            last_flag ==> buffer_bytes(final(self).buffer) == buffer_bytes(old(self).buffer)
                + dash_dash() + old(self).boundary_bytes() + dash_dash(),
            !last_flag ==> buffer_bytes(final(self).buffer) == buffer_bytes(old(self).buffer)
                + dash_dash() + old(self).boundary_bytes() + crlf(),
    {
        buffer_write(&mut self.buffer, "--".as_bytes());
        let b = self.boundary.as_str().as_bytes();
        buffer_write(&mut self.buffer, b);
        if last_flag {
            buffer_write(&mut self.buffer, "--".as_bytes());
        } else {
            buffer_write(&mut self.buffer, "\r\n".as_bytes());
        }
    }

    /// Write the `Content-Disposition` header and the blank line for a part.
    fn write_header(&mut self, name: &str)
        requires
            buffer_ready(old(self).buffer),
        ensures
            final(self).boundary_chars() == old(self).boundary_chars(),
            final(self).finalized == old(self).finalized,
            final(self).parts@ == old(self).parts@,
            buffer_ready(final(self).buffer),
            buffer_bytes(final(self).buffer) == buffer_bytes(old(self).buffer)
                + disposition_prefix() + encode_utf8(name@) + disposition_suffix(),
    {
        buffer_write(&mut self.buffer, "Content-Disposition: form-data; name=\"".as_bytes());
        buffer_write(&mut self.buffer, name.as_bytes());
        buffer_write(&mut self.buffer, "\"\r\n\r\n".as_bytes());
    }

    /// Append one text part. The name is inserted into the header unescaped:
    /// a name holding `"` or control characters corrupts the framing, as it
    /// would in any encoder of this format. Fails without touching the body
    /// when the body has already been serialized.
    pub fn add_string(&mut self, name: &str, data: &str) -> (r: Result<(), FormError>)
        requires
            old(self).wf(),
        ensures
            final(self).wf(),
            old(self).is_finalized() ==> r is Err && *final(self) == *old(self),
            !old(self).is_finalized() ==> r is Ok && final(self).boundary_chars() == old(self).boundary_chars()
                && !final(self).is_finalized() && final(self).parts_seq() == old(
                self,
            ).parts_seq().push(Part { name: encode_utf8(name@), data: encode_utf8(data@) }),
    {
        if self.finalized {
            return Err(FormError::AlreadyFinalized);
        }
        self.write_boundary(false);
        self.write_header(name);
        buffer_write(&mut self.buffer, data.as_bytes());
        buffer_write(&mut self.buffer, "\r\n".as_bytes());
        let ghost p = Part { name: encode_utf8(name@), data: encode_utf8(data@) };
        proof {
            lemma_parts_bytes_push(self.boundary_bytes(), old(self).parts@, p);
            assert(buffer_bytes(self.buffer) =~= parts_bytes(
                self.boundary_bytes(),
                old(self).parts@,
            ) + part_frame(self.boundary_bytes(), p));
        }
        self.parts = Ghost(self.parts@.push(p));
        Ok(())
    }

    /// Append one binary part: the cursor's bytes are written raw, with no
    /// inspection, so payloads that contain the boundary's own bytes pass
    /// through unchanged. Fails without touching the body when the body has
    /// already been serialized.
    pub fn add_cursor(&mut self, name: &str, cursor: std::io::Cursor<Vec<u8>>) -> (r: Result<
        (),
        FormError,
    >)
        requires
            old(self).wf(),
        ensures
            final(self).wf(),
            old(self).is_finalized() ==> r is Err && *final(self) == *old(self),
            !old(self).is_finalized() ==> r is Ok && final(self).boundary_chars() == old(self).boundary_chars()
                && !final(self).is_finalized() && final(self).parts_seq() == old(
                self,
            ).parts_seq().push(Part { name: encode_utf8(name@), data: cursor_bytes(cursor) }),
    {
        if self.finalized {
            return Err(FormError::AlreadyFinalized);
        }
        self.write_boundary(false);
        self.write_header(name);
        let data = cursor_to_vec(&cursor);
        buffer_write(&mut self.buffer, data.as_slice());
        buffer_write(&mut self.buffer, "\r\n".as_bytes());
        let ghost p = Part { name: encode_utf8(name@), data: cursor_bytes(cursor) };
        proof {
            lemma_parts_bytes_push(self.boundary_bytes(), old(self).parts@, p);
            assert(buffer_bytes(self.buffer) =~= parts_bytes(
                self.boundary_bytes(),
                old(self).parts@,
            ) + part_frame(self.boundary_bytes(), p));
        }
        self.parts = Ghost(self.parts@.push(p));
        Ok(())
    }

    /// Serialize the body. The first call appends the terminal boundary;
    /// every later call returns the same bytes without appending another.
    pub fn to_bytes(&mut self) -> (r: Vec<u8>)
        requires
            old(self).wf(),
        ensures
            final(self).wf(),
            final(self).boundary_chars() == old(self).boundary_chars(),
            final(self).parts_seq() == old(self).parts_seq(),
            final(self).is_finalized(),
            r@ == finalized_bytes(old(self).boundary_bytes(), old(self).parts_seq()),
    {
        if !self.finalized {
            self.write_boundary(true);
            self.finalized = true;
            proof {
                assert(buffer_bytes(self.buffer) =~= finalized_bytes(
                    self.boundary_bytes(),
                    self.parts@,
                ));
            }
        }
        buffer_to_vec(&self.buffer)
    }
}

/// Appending a part extends the serialized parts with that part's frame.
// ---------------------------------------------------------------------------
// Laws of the serialized body.
// ---------------------------------------------------------------------------

/// A body with zero parts serializes to exactly `--<boundary>--`: no part
/// frame, no trailing CRLF.
pub proof fn lemma_empty_body(boundary: Seq<u8>)
    ensures
        finalized_bytes(boundary, Seq::<Part>::empty()) == closing(boundary),
{
    assert(finalized_bytes(boundary, Seq::<Part>::empty()) =~= closing(boundary));
}

/// Where part `i`'s frame begins in the serialized body.
pub open spec fn frame_offset(boundary: Seq<u8>, parts: Seq<Part>, i: int) -> int {
    parts_bytes(boundary, parts.take(i)).len() as int
}

/// The serialized parts split at any index into the frames before it and the
/// frames from it on.
proof fn lemma_parts_bytes_split(boundary: Seq<u8>, parts: Seq<Part>, i: int)
    requires
        0 <= i <= parts.len(),
    ensures
        parts_bytes(boundary, parts) == parts_bytes(boundary, parts.take(i)) + parts_bytes(
            boundary,
            parts.skip(i),
        ),
    decreases i,
{
    if i == 0 {
        assert(parts.take(0) =~= Seq::<Part>::empty());
        assert(parts.skip(0) =~= parts);
        assert(parts_bytes(boundary, parts.take(0)) =~= Seq::<u8>::empty());
        assert(parts_bytes(boundary, parts) =~= parts_bytes(boundary, parts.take(0))
            + parts_bytes(boundary, parts.skip(0)));
    } else {
        assert(parts.take(i)[0] == parts[0]);
        assert(parts.take(i).drop_first() =~= parts.drop_first().take(i - 1));
        assert(parts.skip(i) =~= parts.drop_first().skip(i - 1));
        lemma_parts_bytes_split(boundary, parts.drop_first(), i - 1);
        assert(parts_bytes(boundary, parts) =~= parts_bytes(boundary, parts.take(i))
            + parts_bytes(boundary, parts.skip(i)));
    }
}

/// Every part appears in the serialized body exactly as its frame, at its
/// own offset: the body is the frames of the parts in the order they were
/// added, then the terminator, and each part's name and payload stand in its
/// frame once, between the boundary lines.
pub proof fn lemma_part_framed(boundary: Seq<u8>, parts: Seq<Part>, i: int)
    requires
        0 <= i < parts.len(),
    ensures
        0 <= frame_offset(boundary, parts, i),
        frame_offset(boundary, parts, i) + part_frame(boundary, parts[i]).len()
            <= finalized_bytes(boundary, parts).len(),
        finalized_bytes(boundary, parts).subrange(
            frame_offset(boundary, parts, i),
            frame_offset(boundary, parts, i) + part_frame(boundary, parts[i]).len(),
        ) == part_frame(boundary, parts[i]),
{
    lemma_parts_bytes_split(boundary, parts, i);
    let rest = parts.skip(i);
    assert(rest[0] == parts[i]);
    assert(rest.drop_first() =~= parts.skip(i + 1));
    assert(parts_bytes(boundary, rest) == part_frame(boundary, parts[i]) + parts_bytes(
        boundary,
        parts.skip(i + 1),
    ));
    let off = frame_offset(boundary, parts, i);
    let frame = part_frame(boundary, parts[i]);
    assert(finalized_bytes(boundary, parts).subrange(off, off + frame.len()) =~= frame);
}

/// The frames tile the serialized parts contiguously, in the order the parts
/// were added: each part's frame ends exactly where the next one begins, so
/// every part stands in the body exactly once.
pub proof fn lemma_frames_tile(boundary: Seq<u8>, parts: Seq<Part>, i: int)
    requires
        0 <= i < parts.len(),
    ensures
        frame_offset(boundary, parts, i + 1) == frame_offset(boundary, parts, i) + part_frame(
            boundary,
            parts[i],
        ).len(),
        frame_offset(boundary, parts, 0) == 0,
        frame_offset(boundary, parts, parts.len() as int) + closing(boundary).len()
            == finalized_bytes(boundary, parts).len(),
{
    assert(parts.take(i + 1) =~= parts.take(i).push(parts[i]));
    lemma_parts_bytes_push(boundary, parts.take(i), parts[i]);
    assert(parts.take(0) =~= Seq::<Part>::empty());
    assert(parts_bytes(boundary, Seq::<Part>::empty()) =~= Seq::<u8>::empty());
    assert(parts.take(parts.len() as int) =~= parts);
}

/// The payload of part `i` stands in the serialized body byte for byte, at
/// its own offset, whatever it contains: in particular a binary payload equal
/// to the boundary's own bytes is neither truncated nor altered.
pub proof fn lemma_payload_intact(boundary: Seq<u8>, parts: Seq<Part>, i: int)
    requires
        0 <= i < parts.len(),
    ensures
        ({
            let poff = frame_offset(boundary, parts, i) + dash_dash().len() + boundary.len()
                + crlf().len() + disposition_prefix().len() + parts[i].name.len()
                + disposition_suffix().len();
            &&& 0 <= poff
            &&& poff + parts[i].data.len() <= finalized_bytes(boundary, parts).len()
            &&& finalized_bytes(boundary, parts).subrange(poff, poff + parts[i].data.len())
                == parts[i].data
        }),
{
    lemma_part_framed(boundary, parts, i);
    let off = frame_offset(boundary, parts, i);
    let frame = part_frame(boundary, parts[i]);
    let hdr = (dash_dash().len() + boundary.len() + crlf().len() + disposition_prefix().len()
        + parts[i].name.len() + disposition_suffix().len()) as int;
    let data = parts[i].data;
    assert(frame.subrange(hdr, hdr + data.len()) =~= data);
    let body = finalized_bytes(boundary, parts);
    assert forall|j: int| 0 <= j < data.len() implies body[off + hdr + j] == data[j] by {
        assert(body.subrange(off, off + frame.len())[hdr + j] == body[off + hdr + j]);
        assert(frame[hdr + j] == data[j]);
    }
    assert(body.subrange(off + hdr, off + hdr + data.len()) =~= data);
}

proof fn lemma_parts_bytes_push(boundary: Seq<u8>, parts: Seq<Part>, p: Part)
    ensures
        parts_bytes(boundary, parts.push(p)) == parts_bytes(boundary, parts) + part_frame(
            boundary,
            p,
        ),
    decreases parts.len(),
{
    if parts.len() == 0 {
        assert(parts.push(p)[0] == p);
        assert(parts.push(p).drop_first() =~= Seq::<Part>::empty());
        assert(parts_bytes(boundary, Seq::<Part>::empty()) =~= Seq::<u8>::empty());
        assert(parts_bytes(boundary, parts.push(p)) =~= parts_bytes(boundary, parts)
            + part_frame(boundary, p));
    } else {
        assert(parts.push(p)[0] == parts[0]);
        assert(parts.push(p).drop_first() =~= parts.drop_first().push(p));
        lemma_parts_bytes_push(boundary, parts.drop_first(), p);
        assert(parts_bytes(boundary, parts.push(p)) =~= parts_bytes(boundary, parts)
            + part_frame(boundary, p));
    }
}

} // verus!