//! Read-only structural audit of the C2PA store embedded in a PNG or JPEG.
use vstd::prelude::*;
use vstd::slice::slice_subrange;
use vstd::string::StringExecFns;

use crate::digest::{crc32_of, crc32_two};
use crate::error::AppError;
use crate::text::{concat3, decimal, decimal_string, hex2, lossy_text, lossy_utf8, push_decimal, push_hex2, push_str, push_text, texts};

verus! {

/// What was found about the embedded credential store of one image file.
#[derive(Debug)]
pub struct ContainerCredentialReport {
    pub format: &'static str,
    pub location: &'static str,
    pub embedded: bool,
    pub store_count: usize,
    pub store_bytes: u64,
    pub before_media_data: Option<bool>,
    pub crc_valid: Option<bool>,
    pub structure_valid: bool,
    pub trailing_bytes: u64,
    pub issues: Vec<String>,
}

/// The mathematical content of a container report.
pub struct ContainerView {
    pub format: Seq<char>,
    pub location: Seq<char>,
    pub embedded: bool,
    pub store_count: nat,
    pub store_bytes: nat,
    pub before_media_data: Option<bool>,
    pub crc_valid: Option<bool>,
    pub structure_valid: bool,
    pub trailing_bytes: nat,
    pub issues: Seq<Seq<char>>,
}

impl View for ContainerCredentialReport {
    type V = ContainerView;

    open spec fn view(&self) -> ContainerView {
        ContainerView {
            format: self.format@,
            location: self.location@,
            embedded: self.embedded,
            store_count: self.store_count as nat,
            store_bytes: self.store_bytes as nat,
            before_media_data: self.before_media_data,
            crc_valid: self.crc_valid,
            structure_valid: self.structure_valid,
            trailing_bytes: self.trailing_bytes as nat,
            issues: texts(self.issues@),
        }
    }
}

/// An embedding is acceptable for output generated by this tool: exactly one
/// store, a sound container, and the store placed before the image data.
pub open spec fn spec_valid_generated_embedding(r: ContainerView) -> bool {
    r.embedded && r.store_count == 1 && r.structure_valid && r.before_media_data != Some(false)
}

impl ContainerCredentialReport {
    /// Whether the container holds exactly one well-placed credential store in a
    /// structurally valid file.
    pub fn valid_generated_embedding(&self) -> (b: bool)
        ensures
            b == spec_valid_generated_embedding(self@),
    {
        self.embedded && self.store_count == 1 && self.structure_valid && match self.before_media_data {
            Some(false) => false,
            _ => true,
        }
    }
}

// ---------------------------------------------------------------------------
// Byte-level helpers

/// The eight-byte PNG file signature.
pub open spec fn png_signature() -> Seq<u8> {
    seq![0x89u8, 0x50u8, 0x4eu8, 0x47u8, 0x0du8, 0x0au8, 0x1au8, 0x0au8]
}

/// The big-endian unsigned 32-bit value of four bytes starting at `p`.
pub open spec fn be32(b: Seq<u8>, p: int) -> int {
    b[p] * 16777216 + b[p + 1] * 65536 + b[p + 2] * 256 + b[p + 3]
}

/// The big-endian unsigned 16-bit value of two bytes starting at `p`.
pub open spec fn be16(b: Seq<u8>, p: int) -> int {
    b[p] * 256 + b[p + 1]
}

fn read_be32(b: &[u8], p: usize) -> (v: usize)
    requires
        p + 4 <= b@.len(),
    ensures
        v == be32(b@, p as int),
{
    (b[p] as usize) * 16777216 + (b[p + 1] as usize) * 65536 + (b[p + 2] as usize) * 256 + (b[p + 3] as usize)
}

/// The four ASCII bytes of a PNG chunk type name.
pub open spec fn png_type(a: u8, b: u8, c: u8, d: u8) -> Seq<u8> {
    seq![a, b, c, d]
}

pub open spec fn ihdr() -> Seq<u8> { png_type(0x49, 0x48, 0x44, 0x52) }
pub open spec fn idat() -> Seq<u8> { png_type(0x49, 0x44, 0x41, 0x54) }
pub open spec fn cabx() -> Seq<u8> { png_type(0x63, 0x61, 0x42, 0x58) }
pub open spec fn iend() -> Seq<u8> { png_type(0x49, 0x45, 0x4e, 0x44) }

/// An ASCII letter.
pub open spec fn is_alpha(x: u8) -> bool {
    (65 <= x <= 90) || (97 <= x <= 122)
}

fn byte_is_alpha(x: u8) -> (r: bool)
    ensures
        r == is_alpha(x),
{
    (65 <= x && x <= 90) || (97 <= x && x <= 122)
}

fn type_is(b: &[u8], p: usize, t0: u8, t1: u8, t2: u8, t3: u8) -> (r: bool)
    requires
        p + 4 <= b@.len(),
    ensures
        r == (b@.subrange(p as int, p + 4) == png_type(t0, t1, t2, t3)),
{
    let r = b[p] == t0 && b[p + 1] == t1 && b[p + 2] == t2 && b[p + 3] == t3;
    proof {
        let s = b@.subrange(p as int, p + 4);
        if r {
            assert(s =~= png_type(t0, t1, t2, t3));
        } else {
            assert(s[0] == b@[p as int] && s[1] == b@[p + 1] && s[2] == b@[p + 2] && s[3] == b@[p + 3]);
            assert(png_type(t0, t1, t2, t3)[0] == t0);
            assert(png_type(t0, t1, t2, t3)[1] == t1);
            assert(png_type(t0, t1, t2, t3)[2] == t2);
            assert(png_type(t0, t1, t2, t3)[3] == t3);
        }
    }
    r
}

/// `u64` addition that stops at the maximum.
pub open spec fn sat_add(a: nat, b: nat) -> nat {
    if a + b > u64::MAX { u64::MAX as nat } else { a + b }
}

// ---------------------------------------------------------------------------
// PNG

/// The messages a PNG audit can report.
pub open spec fn msg_truncated_header() -> Seq<char> { "truncated PNG chunk header"@ }
pub open spec fn msg_length_overflow() -> Seq<char> { "PNG chunk length overflow"@ }
pub open spec fn msg_crc_offset_overflow() -> Seq<char> { "PNG chunk CRC offset overflow"@ }
/// The error of a PNG walk whose next chunk header lies beyond the address space.
pub open spec fn msg_offset_overflow() -> Seq<char> { "PNG chunk header offset overflowed address space"@ }
pub open spec fn msg_truncated_chunk(t: Seq<u8>) -> Seq<char> { "truncated "@ + lossy_utf8(t) + " chunk"@ }
pub open spec fn msg_bad_crc(t: Seq<u8>) -> Seq<char> { ""@ + lossy_utf8(t) + " chunk has an invalid CRC"@ }
pub open spec fn msg_non_alpha() -> Seq<char> { "PNG chunk type contains a non-alphabetic byte"@ }
pub open spec fn msg_two_ihdr() -> Seq<char> { "PNG contains more than one IHDR chunk"@ }
pub open spec fn msg_ihdr_not_first() -> Seq<char> { "IHDR is not the first PNG chunk"@ }
pub open spec fn msg_ihdr_length() -> Seq<char> { "IHDR chunk does not have the required 13-byte length"@ }
pub open spec fn msg_empty_cabx() -> Seq<char> { "caBX chunk is empty"@ }
pub open spec fn msg_iend_not_empty() -> Seq<char> { "IEND chunk is not empty"@ }
pub open spec fn msg_no_ihdr() -> Seq<char> { "PNG contains no IHDR chunk"@ }
pub open spec fn msg_no_idat() -> Seq<char> { "PNG contains no IDAT image data"@ }
pub open spec fn msg_no_iend() -> Seq<char> { "PNG contains no complete IEND chunk"@ }
pub open spec fn msg_trailing(n: nat) -> Seq<char> { ""@ + decimal(n) + " trailing bytes after IEND"@ }
pub open spec fn msg_many_cabx(n: nat) -> Seq<char> { "PNG contains "@ + decimal(n) + " caBX chunks"@ }

/// The state of the chunk-by-chunk PNG walk.
pub struct PngScan {
    pub position: int,
    pub chunks: nat,
    pub store_count: nat,
    pub store_bytes: nat,
    pub store_before_idat: bool,
    pub seen_ihdr: bool,
    pub seen_idat: bool,
    pub seen_iend: bool,
    pub all_crc_valid: bool,
    pub issues: Seq<Seq<char>>,
    pub done: bool,
    pub overflow: bool,
}

/// The walk starts right after the signature.
pub open spec fn png_start() -> PngScan {
    PngScan {
        position: 8,
        chunks: 0,
        store_count: 0,
        store_bytes: 0,
        store_before_idat: true,
        seen_ihdr: false,
        seen_idat: false,
        seen_iend: false,
        all_crc_valid: true,
        issues: seq![],
        done: false,
        overflow: false,
    }
}

/// Whether the walk has stopped.
pub open spec fn png_stopped(b: Seq<u8>, s: PngScan) -> bool {
    s.done || s.overflow || s.position >= b.len()
}

/// Whether the stored CRC of the complete chunk at the walk position matches.
pub open spec fn png_crc_ok(b: Seq<u8>, s: PngScan) -> bool {
    let p = s.position;
    let data_end = p + 8 + be32(b, p);
    crc32_of(b.subrange(p + 4, p + 8) + b.subrange(p + 8, data_end)) as int == be32(b, data_end)
}

/// Issues after the CRC check.
pub open spec fn png_issues_crc(b: Seq<u8>, s: PngScan) -> Seq<Seq<char>> {
    let p = s.position;
    if png_crc_ok(b, s) { s.issues } else { s.issues.push(msg_bad_crc(b.subrange(p + 4, p + 8))) }
}

/// Issues after the type-name check.
pub open spec fn png_issues_alpha(b: Seq<u8>, s: PngScan) -> Seq<Seq<char>> {
    let p = s.position;
    let i1 = png_issues_crc(b, s);
    if is_alpha(b[p + 4]) && is_alpha(b[p + 5]) && is_alpha(b[p + 6]) && is_alpha(b[p + 7]) { i1 } else { i1.push(msg_non_alpha()) }
}

/// Issues after the IHDR placement checks.
pub open spec fn png_issues_ihdr(b: Seq<u8>, s: PngScan) -> Seq<Seq<char>> {
    let p = s.position;
    let i2 = png_issues_alpha(b, s);
    if b.subrange(p + 4, p + 8) == ihdr() {
        let a = if s.seen_ihdr { i2.push(msg_two_ihdr()) } else { i2 };
        let c = if s.chunks != 0 { a.push(msg_ihdr_not_first()) } else { a };
        if be32(b, p) != 13 { c.push(msg_ihdr_length()) } else { c }
    } else if s.chunks == 0 {
        i2.push(msg_ihdr_not_first())
    } else {
        i2
    }
}

/// The checks common to every complete chunk: CRC, type name, IHDR placement.
pub open spec fn png_chunk_checks(b: Seq<u8>, s: PngScan) -> PngScan {
    let p = s.position;
    PngScan {
        all_crc_valid: s.all_crc_valid && png_crc_ok(b, s),
        seen_ihdr: s.seen_ihdr || b.subrange(p + 4, p + 8) == ihdr(),
        issues: png_issues_ihdr(b, s),
        ..s
    }
}

/// One complete chunk, framed and in bounds, is examined; `base` is the state
/// after the common checks.
pub open spec fn png_chunk_kind(b: Seq<u8>, s: PngScan, base: PngScan) -> PngScan {
    let p = s.position;
    let length = be32(b, p);
    let t = b.subrange(p + 4, p + 8);
    let chunk_end = p + 8 + length + 4;
    if t == idat() {
        PngScan { seen_idat: true, chunks: s.chunks + 1, position: chunk_end, ..base }
    } else if t == cabx() {
        PngScan {
            store_count: s.store_count + 1,
            store_bytes: sat_add(s.store_bytes, length as nat),
            store_before_idat: s.store_before_idat && !s.seen_idat,
            issues: if length == 0 { base.issues.push(msg_empty_cabx()) } else { base.issues },
            chunks: s.chunks + 1,
            position: chunk_end,
            ..base
        }
    } else if t == iend() {
        PngScan {
            issues: if length != 0 { base.issues.push(msg_iend_not_empty()) } else { base.issues },
            seen_iend: true,
            position: chunk_end,
            done: true,
            ..base
        }
    } else {
        PngScan { chunks: s.chunks + 1, position: chunk_end, ..base }
    }
}

/// The PNG walk stops only at IEND: every other complete chunk (an ancillary
/// chunk such as tEXt, pHYs, iCCP or sRGB, the image data, a credential
/// store) is counted and the walk moves on to the next chunk. An ancillary
/// chunk after the first, with an alphabetic type and a correct CRC, adds no
/// issue.
pub proof fn law_png_walk_continues_past_non_end_chunks(b: Seq<u8>, s: PngScan)
    requires
        !png_stopped(b, s),
        s.position >= 0,
        b.len() <= usize::MAX,
        s.position + 8 + be32(b, s.position) + 4 <= b.len(),
        b.subrange(s.position + 4, s.position + 8) != iend(),
    ensures
        !png_step(b, s).done,
        !png_step(b, s).overflow,
        png_step(b, s).position == s.position + 8 + be32(b, s.position) + 4,
        png_step(b, s).chunks == s.chunks + 1,
        png_crc_ok(b, s) && s.chunks > 0
            && is_alpha(b[s.position + 4]) && is_alpha(b[s.position + 5])
            && is_alpha(b[s.position + 6]) && is_alpha(b[s.position + 7])
            && b.subrange(s.position + 4, s.position + 8) != ihdr()
            && b.subrange(s.position + 4, s.position + 8) != cabx()
            ==> png_step(b, s).issues == s.issues,
{
}

/// One complete chunk, framed and in bounds, is examined.
pub open spec fn png_chunk(b: Seq<u8>, s: PngScan) -> PngScan {
    png_chunk_kind(b, s, png_chunk_checks(b, s))
}

/// One step of the walk from a position inside the file.
pub open spec fn png_step(b: Seq<u8>, s: PngScan) -> PngScan {
    let p = s.position;
    if p + 8 > usize::MAX {
        PngScan { overflow: true, ..s }
    } else if p + 8 > b.len() {
        PngScan { issues: s.issues.push(msg_truncated_header()), done: true, ..s }
    } else {
        let length = be32(b, p);
        let t = b.subrange(p + 4, p + 8);
        if p + 8 + length > usize::MAX {
            PngScan { issues: s.issues.push(msg_length_overflow()), done: true, ..s }
        } else if p + 8 + length + 4 > usize::MAX {
            PngScan { issues: s.issues.push(msg_crc_offset_overflow()), done: true, ..s }
        } else if p + 8 + length + 4 > b.len() {
            PngScan { issues: s.issues.push(msg_truncated_chunk(t)), done: true, ..s }
        } else {
            png_chunk(b, s)
        }
    }
}

/// The walk, step by step, until it stops.
pub open spec fn png_walk(b: Seq<u8>, s: PngScan) -> PngScan
    decreases (if png_stopped(b, s) { 0 } else { b.len() - s.position + 1 }),
{
    if png_stopped(b, s) {
        s
    } else {
        let n = png_step(b, s);
        if png_stopped(b, n) {
            n
        } else {
            if n.position > s.position {
                png_walk(b, n)
            } else {
                n
            }
        }
    }
}

/// The issues added once the walk has stopped.
pub open spec fn png_final_issues(b: Seq<u8>, s: PngScan) -> Seq<Seq<char>> {
    let trailing = if b.len() > s.position { b.len() - s.position } else { 0 };
    let i1 = if !s.seen_ihdr { s.issues.push(msg_no_ihdr()) } else { s.issues };
    let i2 = if !s.seen_idat { i1.push(msg_no_idat()) } else { i1 };
    let i3 = if !s.seen_iend { i2.push(msg_no_iend()) } else { i2 };
    let i4 = if trailing > 0 { i3.push(msg_trailing(trailing as nat)) } else { i3 };
    if s.store_count > 1 { i4.push(msg_many_cabx(s.store_count)) } else { i4 }
}

/// The report on a PNG file, for a walk that did not overflow the address space.
pub open spec fn png_report(b: Seq<u8>) -> ContainerView {
    let s = png_walk(b, png_start());
    let issues = png_final_issues(b, s);
    ContainerView {
        format: "image/png"@,
        location: "PNG caBX"@,
        embedded: s.store_count == 1,
        store_count: s.store_count,
        store_bytes: s.store_bytes,
        before_media_data: if s.store_count > 0 { Some(s.store_before_idat) } else { None },
        crc_valid: Some(s.all_crc_valid),
        structure_valid: issues.len() == 0,
        trailing_bytes: if b.len() > s.position { (b.len() - s.position) as nat } else { 0 },
        issues,
    }
}

/// The executable state of the PNG walk.
struct PngCursor {
    position: usize,
    chunks: usize,
    store_count: usize,
    store_bytes: u64,
    store_before_idat: bool,
    seen_ihdr: bool,
    seen_idat: bool,
    seen_iend: bool,
    all_crc_valid: bool,
    issues: Vec<String>,
    done: bool,
    overflow: bool,
}

impl PngCursor {
    spec fn scan(&self) -> PngScan {
        PngScan {
            position: self.position as int,
            chunks: self.chunks as nat,
            store_count: self.store_count as nat,
            store_bytes: self.store_bytes as nat,
            store_before_idat: self.store_before_idat,
            seen_ihdr: self.seen_ihdr,
            seen_idat: self.seen_idat,
            seen_iend: self.seen_iend,
            all_crc_valid: self.all_crc_valid,
            issues: texts(self.issues@),
            done: self.done,
            overflow: self.overflow,
        }
    }

    spec fn inv(&self) -> bool {
        &&& self.chunks * 12 + 8 <= self.position
        &&& self.store_count <= self.chunks
    }
}

proof fn lemma_png_walk_unfold(b: Seq<u8>, s: PngScan)
    requires
        !png_stopped(b, s),
        png_stopped(b, png_step(b, s)) || png_step(b, s).position > s.position,
    ensures
        png_walk(b, s) == png_walk(b, png_step(b, s)),
{
    let n = png_step(b, s);
    if png_stopped(b, n) {
        assert(png_walk(b, n) == n);
    }
}

/// Examines the next chunk, or stops the walk.
fn png_advance(b: &[u8], c: &mut PngCursor)
    requires
        !png_stopped(b@, old(c).scan()),
        old(c).inv(),
    ensures
        final(c).scan() == png_step(b@, old(c).scan()),
        final(c).inv(),
        png_stopped(b@, final(c).scan()) || final(c).position > old(c).position,
{
    let ghost s = c.scan();
    let p = c.position;
    if p > usize::MAX - 8 {
        c.overflow = true;
        assert(c.scan() == png_step(b@, s));
        return;
    }
    let header_end = p + 8;
    if header_end > b.len() {
        push_text(&mut c.issues, String::from_str("truncated PNG chunk header"));
        c.done = true;
        assert(c.scan() == png_step(b@, s));
        return;
    }
    let length = read_be32(b, p);
    let chunk_type = slice_subrange(b, p + 4, p + 8);
    if length > usize::MAX - header_end {
        push_text(&mut c.issues, String::from_str("PNG chunk length overflow"));
        c.done = true;
        assert(c.scan() == png_step(b@, s));
        return;
    }
    let data_end = header_end + length;
    if data_end > usize::MAX - 4 {
        push_text(&mut c.issues, String::from_str("PNG chunk CRC offset overflow"));
        c.done = true;
        assert(c.scan() == png_step(b@, s));
        return;
    }
    let chunk_end = data_end + 4;
    if chunk_end > b.len() {
        let name = lossy_text(chunk_type);
        push_text(&mut c.issues, concat3("truncated ", name.as_str(), " chunk"));
        c.done = true;
        assert(c.scan() == png_step(b@, s));
        return;
    }
    assert(complete_chunk(b@, s));
    png_checks(b, c);
    png_kind(b, c, Ghost(s));
    assert(c.scan() == png_step(b@, s));
}


/// The position of a complete, in-bounds chunk.
spec fn complete_chunk(b: Seq<u8>, s: PngScan) -> bool {
    let p = s.position;
    &&& 0 <= p
    &&& p + 8 + be32(b, p) + 4 <= b.len()
}

fn png_crc_step(b: &[u8], p: usize, issues: &mut Vec<String>, Ghost(s): Ghost<PngScan>) -> (ok: bool)
    requires
        complete_chunk(b@, s),
        s.position == p,
        texts(old(issues)@) == s.issues,
    ensures
        ok == png_crc_ok(b@, s),
        texts(final(issues)@) == png_issues_crc(b@, s),
{
    let blen = b.len();
    assert(blen == b@.len());
    let length = read_be32(b, p);
    let header_end = p + 8;
    let data_end = header_end + length;
    let chunk_type = slice_subrange(b, p + 4, p + 8);
    let expected_crc = read_be32(b, data_end);
    let data = slice_subrange(b, header_end, data_end);
    let computed = crc32_two(chunk_type, data);
    let crc_ok = computed as usize == expected_crc;
    if !crc_ok {
        let name = lossy_text(chunk_type);
        push_text(issues, concat3("", name.as_str(), " chunk has an invalid CRC"));
    }
    crc_ok
}

fn png_alpha_step(b: &[u8], p: usize, issues: &mut Vec<String>, Ghost(s): Ghost<PngScan>)
    requires
        complete_chunk(b@, s),
        s.position == p,
        texts(old(issues)@) == png_issues_crc(b@, s),
    ensures
        texts(final(issues)@) == png_issues_alpha(b@, s),
{
    let blen = b.len();
    assert(blen == b@.len());
    if !(byte_is_alpha(b[p + 4]) && byte_is_alpha(b[p + 5]) && byte_is_alpha(b[p + 6]) && byte_is_alpha(b[p + 7])) {
        push_text(issues, String::from_str("PNG chunk type contains a non-alphabetic byte"));
    }
}

fn png_ihdr_step(b: &[u8], p: usize, seen_ihdr: bool, chunks: usize, issues: &mut Vec<String>, Ghost(s): Ghost<PngScan>) -> (is_ihdr: bool)
    requires
        complete_chunk(b@, s),
        s.position == p,
        s.seen_ihdr == seen_ihdr,
        s.chunks == chunks,
        texts(old(issues)@) == png_issues_alpha(b@, s),
    ensures
        is_ihdr == (b@.subrange(p + 4, p + 8) == ihdr()),
        texts(final(issues)@) == png_issues_ihdr(b@, s),
{
    let blen = b.len();
    assert(blen == b@.len());
    let length = read_be32(b, p);
    let is_ihdr = type_is(b, p + 4, 0x49, 0x48, 0x44, 0x52);
    if is_ihdr {
        if seen_ihdr {
            push_text(issues, String::from_str("PNG contains more than one IHDR chunk"));
        }
        if chunks != 0 {
            push_text(issues, String::from_str("IHDR is not the first PNG chunk"));
        }
        if length != 13 {
            push_text(issues, String::from_str("IHDR chunk does not have the required 13-byte length"));
        }
    } else if chunks == 0 {
        push_text(issues, String::from_str("IHDR is not the first PNG chunk"));
    }
    is_ihdr
}

fn png_checks(b: &[u8], c: &mut PngCursor)
    requires
        complete_chunk(b@, old(c).scan()),
        old(c).inv(),
    ensures
        final(c).scan() == png_chunk_checks(b@, old(c).scan()),
        final(c).position == old(c).position,
        final(c).chunks == old(c).chunks,
        final(c).store_count == old(c).store_count,
        final(c).inv(),
{
    let ghost s = c.scan();
    let p = c.position;
    let crc_ok = png_crc_step(b, p, &mut c.issues, Ghost(s));
    if !crc_ok {
        c.all_crc_valid = false;
    }
    png_alpha_step(b, p, &mut c.issues, Ghost(s));
    let is_ihdr = png_ihdr_step(b, p, c.seen_ihdr, c.chunks, &mut c.issues, Ghost(s));
    if is_ihdr {
        c.seen_ihdr = true;
    }
    assert(c.scan() == png_chunk_checks(b@, s));
}

#[verifier::rlimit(40)]
fn png_kind(b: &[u8], c: &mut PngCursor, Ghost(s): Ghost<PngScan>)
    requires
        complete_chunk(b@, s),
        s.position == old(c).position,
        s.chunks == old(c).chunks,
        s.store_count == old(c).store_count,
        s.store_bytes == old(c).store_bytes,
        s.store_before_idat == old(c).store_before_idat,
        s.seen_idat == old(c).seen_idat,
        s.seen_iend == old(c).seen_iend,
        s.done == old(c).done,
        s.overflow == old(c).overflow,
        old(c).scan() == png_chunk_checks(b@, s),
        old(c).inv(),
    ensures
        final(c).scan() == png_chunk(b@, s),
        final(c).inv(),
        png_stopped(b@, final(c).scan()) || final(c).position > s.position,
{
    let p = c.position;
    let blen = b.len();
    assert(blen == b@.len());
    let length = read_be32(b, p);
    let chunk_end = p + 8 + length + 4;
    let chunk_type = slice_subrange(b, p + 4, p + 8);
    let ghost base = c.scan();
    let ghost t = b@.subrange(p + 4, p + 8);
    if type_is(b, p + 4, 0x49, 0x44, 0x41, 0x54) {
        c.seen_idat = true;
        c.chunks = c.chunks + 1;
        c.position = chunk_end;
        assert(c.scan() == png_chunk_kind(b@, s, base));
    } else if type_is(b, p + 4, 0x63, 0x61, 0x42, 0x58) {
        c.store_count = c.store_count + 1;
        c.store_bytes = c.store_bytes.saturating_add(length as u64);
        c.store_before_idat = c.store_before_idat && !c.seen_idat;
        if length == 0 {
            push_text(&mut c.issues, String::from_str("caBX chunk is empty"));
        }
        c.chunks = c.chunks + 1;
        c.position = chunk_end;
        assert(c.scan() == png_chunk_kind(b@, s, base));
    } else if type_is(b, p + 4, 0x49, 0x45, 0x4e, 0x44) {
        if length != 0 {
            push_text(&mut c.issues, String::from_str("IEND chunk is not empty"));
        }
        c.seen_iend = true;
        c.position = chunk_end;
        c.done = true;
        assert(c.scan() == png_chunk_kind(b@, s, base));
    } else {
        c.chunks = c.chunks + 1;
        c.position = chunk_end;
        assert(c.scan() == png_chunk_kind(b@, s, base));
    }
}

/// Audits the chunk structure of a PNG file held in memory: chunk framing, CRCs,
/// IHDR/IDAT/IEND placement, and the number, size, and position of `caBX`
/// credential stores. The walk starts after the eight-byte signature. An error
/// is returned only when a chunk offset would exceed the address space.
pub fn inspect_png(b: &[u8]) -> (r: Result<ContainerCredentialReport, AppError>)
    ensures
        match r {
            Ok(report) => !png_walk(b@, png_start()).overflow && report@ == png_report(b@),
            Err(e) => png_walk(b@, png_start()).overflow && e.exit_code == 3 && e.message@ == msg_offset_overflow(),
        },
{
    let mut c = PngCursor {
        position: 8,
        chunks: 0,
        store_count: 0,
        store_bytes: 0,
        store_before_idat: true,
        seen_ihdr: false,
        seen_idat: false,
        seen_iend: false,
        all_crc_valid: true,
        issues: Vec::new(),
        done: false,
        overflow: false,
    };
    assert(c.scan().issues =~= seq![]);
    assert(c.scan() == png_start());
    while !c.done && !c.overflow && c.position < b.len()
        invariant
            c.inv(),
            png_walk(b@, c.scan()) == png_walk(b@, png_start()),
        decreases b@.len() - c.position + (if c.done || c.overflow { 0int } else { 1int }),
    {
        let ghost before = c.scan();
        png_advance(b, &mut c);
        proof {
            lemma_png_walk_unfold(b@, before);
        }
    }
    assert(png_stopped(b@, c.scan()));
    assert(png_walk(b@, c.scan()) == c.scan());
    if c.overflow {
        return Err(AppError::verification(String::from_str("PNG chunk header offset overflowed address space")));
    }
    let ghost s = c.scan();
    let mut issues = c.issues;
    if !c.seen_ihdr {
        push_text(&mut issues, String::from_str("PNG contains no IHDR chunk"));
    }
    if !c.seen_idat {
        push_text(&mut issues, String::from_str("PNG contains no IDAT image data"));
    }
    if !c.seen_iend {
        push_text(&mut issues, String::from_str("PNG contains no complete IEND chunk"));
    }
    let trailing_bytes: u64 = if b.len() > c.position { (b.len() - c.position) as u64 } else { 0 };
    if trailing_bytes > 0 {
        let n = decimal_string(trailing_bytes);
        push_text(&mut issues, concat3("", n.as_str(), " trailing bytes after IEND"));
    }
    if c.store_count > 1 {
        let n = decimal_string(c.store_count as u64);
        push_text(&mut issues, concat3("PNG contains ", n.as_str(), " caBX chunks"));
    }
    assert(texts(issues@) == png_final_issues(b@, s));
    let structure_valid = issues.len() == 0;
    let report = ContainerCredentialReport {
        format: "image/png",
        location: "PNG caBX",
        embedded: c.store_count == 1,
        store_count: c.store_count,
        store_bytes: c.store_bytes,
        before_media_data: if c.store_count > 0 { Some(c.store_before_idat) } else { None },
        crc_valid: Some(c.all_crc_valid),
        structure_valid,
        trailing_bytes,
        issues,
    };
    assert(report@ == png_report(b@));
    Ok(report)
}

// ---------------------------------------------------------------------------
// JPEG

pub open spec fn msg_expected_marker(p: nat) -> Seq<char> { "expected JPEG marker at byte "@ + decimal(p) }
pub open spec fn msg_truncated_marker() -> Seq<char> { "truncated JPEG marker"@ }
pub open spec fn msg_truncated_length() -> Seq<char> { "truncated JPEG segment length"@ }
pub open spec fn msg_invalid_length(m: u8) -> Seq<char> { "JPEG marker FF"@ + hex2(m, true) + " has an invalid length"@ }
pub open spec fn msg_segment_overflow() -> Seq<char> { "JPEG segment length overflow"@ }
pub open spec fn msg_truncated_segment(m: u8) -> Seq<char> { "truncated JPEG marker FF"@ + hex2(m, true) }
pub open spec fn msg_first_sequence() -> Seq<char> { "first C2PA JPEG XT segment does not have sequence 1"@ }
pub open spec fn msg_discontinuous(n: nat) -> Seq<char> { "C2PA JPEG XT sequence is discontinuous at segment "@ + decimal(n) }
pub open spec fn msg_no_scan() -> Seq<char> { "JPEG contains no start-of-scan marker"@ }
pub open spec fn msg_no_eoi() -> Seq<char> { "JPEG contains no end-of-image marker"@ }
pub open spec fn msg_many_stores(n: nat) -> Seq<char> { "JPEG contains "@ + decimal(n) + " C2PA JUMBF stores"@ }

/// The state of the marker-by-marker JPEG walk.
pub struct JpegScan {
    pub position: int,
    pub reached_scan: bool,
    pub seen_eoi: bool,
    pub store_count: nat,
    pub store_bytes: nat,
    pub jumbf_segments: nat,
    pub active_en: Option<(u8, u8)>,
    pub expected_sequence: nat,
    pub issues: Seq<Seq<char>>,
    pub done: bool,
}

/// The walk starts right after the start-of-image marker.
pub open spec fn jpeg_start() -> JpegScan {
    JpegScan {
        position: 2,
        reached_scan: false,
        seen_eoi: false,
        store_count: 0,
        store_bytes: 0,
        jumbf_segments: 0,
        active_en: None,
        expected_sequence: 1,
        issues: seq![],
        done: false,
    }
}

pub open spec fn jpeg_stopped(b: Seq<u8>, s: JpegScan) -> bool {
    s.done || s.position >= b.len()
}

/// The first index at or after `q` that does not hold a 0xFF fill byte.
pub open spec fn skip_fill(b: Seq<u8>, q: int) -> int
    decreases b.len() - q,
{
    if 0 <= q < b.len() && b[q] == 0xff {
        skip_fill(b, q + 1)
    } else {
        q
    }
}

/// A marker without a length field.
pub open spec fn standalone_marker(m: u8) -> bool {
    m == 0x01 || (0xd0 <= m <= 0xd8)
}

/// `u32` addition that stops at the maximum.
pub open spec fn sat_add32(a: nat, b: nat) -> nat {
    if a + b > u32::MAX { u32::MAX as nat } else { a + b }
}

/// An APP11 payload between `start` and `end` is examined for C2PA JUMBF content.
pub open spec fn jpeg_app11(b: Seq<u8>, s: JpegScan, start: int, end: int) -> JpegScan {
    let payload = b.subrange(start, end);
    if payload.len() >= 8 && payload[0] == 0x4a && payload[1] == 0x50 {
        let en = (payload[2], payload[3]);
        let sequence = be32(payload, 4);
        let starts_store = payload.len() >= 28 && payload.subrange(24, 28) == seq![0x63u8, 0x32u8, 0x70u8, 0x61u8];
        if starts_store {
            JpegScan {
                store_count: s.store_count + 1,
                active_en: Some(en),
                expected_sequence: 2,
                jumbf_segments: s.jumbf_segments + 1,
                store_bytes: sat_add(s.store_bytes, (payload.len() - 8) as nat),
                issues: if sequence != 1 { s.issues.push(msg_first_sequence()) } else { s.issues },
                ..s
            }
        } else if s.active_en == Some(en) {
            JpegScan {
                jumbf_segments: s.jumbf_segments + 1,
                issues: if sequence != s.expected_sequence { s.issues.push(msg_discontinuous(sequence as nat)) } else { s.issues },
                expected_sequence: sat_add32(sequence as nat, 1),
                store_bytes: sat_add(s.store_bytes, if payload.len() > 16 { (payload.len() - 16) as nat } else { 0 }),
                ..s
            }
        } else {
            s
        }
    } else {
        s
    }
}

/// A segment with a length field, for marker `m`, starting at the walk position.
pub open spec fn jpeg_segment(b: Seq<u8>, s: JpegScan, m: u8) -> JpegScan {
    let p = s.position;
    if p + 2 > b.len() {
        JpegScan { issues: s.issues.push(msg_truncated_length()), done: true, ..s }
    } else {
        let length = be16(b, p);
        if length < 2 {
            JpegScan { issues: s.issues.push(msg_invalid_length(m)), done: true, ..s }
        } else if p + length > usize::MAX {
            JpegScan { issues: s.issues.push(msg_segment_overflow()), done: true, ..s }
        } else if p + length > b.len() {
            JpegScan { issues: s.issues.push(msg_truncated_segment(m)), done: true, ..s }
        } else {
            let examined = if m == 0xeb { jpeg_app11(b, s, p + 2, p + length) } else { s };
            JpegScan { position: p + length, ..examined }
        }
    }
}

/// Whether the file ends with the end-of-image marker.
pub open spec fn ends_with_eoi(b: Seq<u8>) -> bool {
    b.len() >= 2 && b[b.len() - 2] == 0xff && b[b.len() - 1] == 0xd9
}

/// One step of the walk from a position inside the file.
pub open spec fn jpeg_step(b: Seq<u8>, s: JpegScan) -> JpegScan {
    let p = s.position;
    if b[p] != 0xff {
        JpegScan { issues: s.issues.push(msg_expected_marker(p as nat)), done: true, ..s }
    } else {
        let q = skip_fill(b, p);
        if q >= b.len() {
            JpegScan { issues: s.issues.push(msg_truncated_marker()), done: true, position: q, ..s }
        } else {
            let m = b[q];
            let s1 = JpegScan { position: q + 1, ..s };
            if m == 0xd9 {
                JpegScan { seen_eoi: true, done: true, ..s1 }
            } else if m == 0xda {
                JpegScan { reached_scan: true, seen_eoi: ends_with_eoi(b), done: true, ..s1 }
            } else if standalone_marker(m) {
                s1
            } else {
                jpeg_segment(b, s1, m)
            }
        }
    }
}

/// The walk, step by step, until it stops.
pub open spec fn jpeg_walk(b: Seq<u8>, s: JpegScan) -> JpegScan
    decreases (if jpeg_stopped(b, s) { 0 } else { b.len() - s.position + 1 }),
{
    if jpeg_stopped(b, s) {
        s
    } else {
        let n = jpeg_step(b, s);
        if jpeg_stopped(b, n) {
            n
        } else if n.position > s.position {
            jpeg_walk(b, n)
        } else {
            n
        }
    }
}

/// The issues added once the walk has stopped.
pub open spec fn jpeg_final_issues(s: JpegScan) -> Seq<Seq<char>> {
    let i1 = if !s.reached_scan { s.issues.push(msg_no_scan()) } else { s.issues };
    let i2 = if !s.seen_eoi { i1.push(msg_no_eoi()) } else { i1 };
    if s.store_count > 1 { i2.push(msg_many_stores(s.store_count)) } else { i2 }
}

/// The report on a JPEG file.
pub open spec fn jpeg_report(b: Seq<u8>) -> ContainerView {
    let s = jpeg_walk(b, jpeg_start());
    let issues = jpeg_final_issues(s);
    ContainerView {
        format: "image/jpeg"@,
        location: "JPEG APP11 JUMBF"@,
        embedded: s.store_count == 1 && s.jumbf_segments > 0,
        store_count: s.store_count,
        store_bytes: s.store_bytes,
        before_media_data: if s.store_count > 0 { Some(true) } else { None },
        crc_valid: None,
        structure_valid: issues.len() == 0,
        trailing_bytes: 0,
        issues,
    }
}

/// The executable state of the JPEG walk.
struct JpegCursor {
    position: usize,
    reached_scan: bool,
    seen_eoi: bool,
    store_count: usize,
    store_bytes: u64,
    jumbf_segments: usize,
    active_en: Option<(u8, u8)>,
    expected_sequence: u32,
    issues: Vec<String>,
    done: bool,
}

impl JpegCursor {
    spec fn scan(&self) -> JpegScan {
        JpegScan {
            position: self.position as int,
            reached_scan: self.reached_scan,
            seen_eoi: self.seen_eoi,
            store_count: self.store_count as nat,
            store_bytes: self.store_bytes as nat,
            jumbf_segments: self.jumbf_segments as nat,
            active_en: self.active_en,
            expected_sequence: self.expected_sequence as nat,
            issues: texts(self.issues@),
            done: self.done,
        }
    }

    spec fn inv(&self) -> bool {
        &&& self.store_count <= self.position
        &&& self.jumbf_segments <= self.position
    }
}

proof fn lemma_jpeg_walk_unfold(b: Seq<u8>, s: JpegScan)
    requires
        !jpeg_stopped(b, s),
        jpeg_stopped(b, jpeg_step(b, s)) || jpeg_step(b, s).position > s.position,
    ensures
        jpeg_walk(b, s) == jpeg_walk(b, jpeg_step(b, s)),
{
}

fn read_be16(b: &[u8], p: usize) -> (v: usize)
    requires
        p + 2 <= b@.len(),
    ensures
        v == be16(b@, p as int),
{
    (b[p] as usize) * 256 + (b[p + 1] as usize)
}

#[verifier::rlimit(40)]
fn jpeg_app11_exec(b: &[u8], start: usize, end: usize, c: &mut JpegCursor)
    requires
        start <= end <= b@.len(),
        old(c).store_count < old(c).position,
        old(c).jumbf_segments < old(c).position,
    ensures
        final(c).scan() == jpeg_app11(b@, old(c).scan(), start as int, end as int),
        final(c).position == old(c).position,
        final(c).store_count <= old(c).store_count + 1,
        final(c).jumbf_segments <= old(c).jumbf_segments + 1,
{
    let ghost s = c.scan();
    let payload = slice_subrange(b, start, end);
    let n = payload.len();
    if n >= 8 && payload[0] == 0x4a && payload[1] == 0x50 {
        let en = (payload[2], payload[3]);
        let sequence: u32 = (read_be32(payload, 4)) as u32;
        let starts_store = n >= 28 && type_is(payload, 24, 0x63, 0x32, 0x70, 0x61);
        assert(starts_store == (payload@.len() >= 28 && payload@.subrange(24, 28) == seq![0x63u8, 0x32u8, 0x70u8, 0x61u8]));
        if starts_store {
            c.store_count = c.store_count + 1;
            c.active_en = Some(en);
            c.expected_sequence = 2;
            c.jumbf_segments = c.jumbf_segments + 1;
            c.store_bytes = c.store_bytes.saturating_add((n - 8) as u64);
            if sequence != 1 {
                push_text(&mut c.issues, String::from_str("first C2PA JPEG XT segment does not have sequence 1"));
            }
            assert(c.scan() == jpeg_app11(b@, s, start as int, end as int));
        } else if c.active_en == Some(en) {
            c.jumbf_segments = c.jumbf_segments + 1;
            if sequence != c.expected_sequence {
                let mut m = String::from_str("C2PA JPEG XT sequence is discontinuous at segment ");
                push_decimal(&mut m, sequence as u64);
                push_text(&mut c.issues, m);
            }
            c.expected_sequence = sequence.saturating_add(1);
            let extra: u64 = if n > 16 { (n - 16) as u64 } else { 0 };
            c.store_bytes = c.store_bytes.saturating_add(extra);
            assert(c.scan() == jpeg_app11(b@, s, start as int, end as int));
        }
    }
}

fn jpeg_segment_exec(b: &[u8], m: u8, c: &mut JpegCursor)
    requires
        old(c).position <= b@.len(),
        old(c).store_count < old(c).position,
        old(c).jumbf_segments < old(c).position,
    ensures
        final(c).scan() == jpeg_segment(b@, old(c).scan(), m),
        final(c).inv(),
        final(c).position <= b@.len(),
        final(c).position >= old(c).position,
        jpeg_stopped(b@, final(c).scan()) || final(c).position > old(c).position,
{
    let ghost s = c.scan();
    let p = c.position;
    let blen = b.len();
    if blen < 2 || p > blen - 2 {
        push_text(&mut c.issues, String::from_str("truncated JPEG segment length"));
        c.done = true;
        return;
    }
    let length = read_be16(b, p);
    if length < 2 {
        let mut msg = String::from_str("JPEG marker FF");
        push_hex2(&mut msg, m, true);
        push_str(&mut msg, " has an invalid length");
        push_text(&mut c.issues, msg);
        c.done = true;
        return;
    }
    if p > usize::MAX - length {
        push_text(&mut c.issues, String::from_str("JPEG segment length overflow"));
        c.done = true;
        return;
    }
    let payload_end = p + length;
    if payload_end > blen {
        let mut msg = String::from_str("truncated JPEG marker FF");
        push_hex2(&mut msg, m, true);
        push_text(&mut c.issues, msg);
        c.done = true;
        return;
    }
    if m == 0xeb {
        jpeg_app11_exec(b, p + 2, payload_end, c);
    }
    c.position = payload_end;
}

#[verifier::rlimit(40)]
fn jpeg_advance(b: &[u8], c: &mut JpegCursor)
    requires
        !jpeg_stopped(b@, old(c).scan()),
        old(c).inv(),
    ensures
        final(c).scan() == jpeg_step(b@, old(c).scan()),
        final(c).inv(),
        final(c).position <= b@.len(),
        final(c).position >= old(c).position,
        jpeg_stopped(b@, final(c).scan()) || final(c).position > old(c).position,
{
    let ghost s = c.scan();
    let blen = b.len();
    let p = c.position;
    if b[p] != 0xff {
        let mut msg = String::from_str("expected JPEG marker at byte ");
        push_decimal(&mut msg, p as u64);
        push_text(&mut c.issues, msg);
        c.done = true;
        return;
    }
    let mut q = p;
    while q < blen && b[q] == 0xff
        invariant
            blen == b@.len(),
            p <= q <= blen,
            skip_fill(b@, q as int) == skip_fill(b@, p as int),
        decreases blen - q,
    {
        q = q + 1;
    }
    assert(skip_fill(b@, q as int) == q);
    if q >= blen {
        push_text(&mut c.issues, String::from_str("truncated JPEG marker"));
        c.done = true;
        c.position = q;
        assert(c.scan() == jpeg_step(b@, s));
        return;
    }
    let marker = b[q];
    c.position = q + 1;
    if marker == 0xd9 {
        c.seen_eoi = true;
        c.done = true;
        assert(c.scan() == jpeg_step(b@, s));
        return;
    }
    if marker == 0xda {
        c.reached_scan = true;
        c.seen_eoi = blen >= 2 && b[blen - 2] == 0xff && b[blen - 1] == 0xd9;
        c.done = true;
        assert(c.scan() == jpeg_step(b@, s));
        return;
    }
    if marker == 0x01 || (0xd0 <= marker && marker <= 0xd8) {
        assert(c.scan() == jpeg_step(b@, s));
        return;
    }
    jpeg_segment_exec(b, marker, c);
    assert(c.scan() == jpeg_step(b@, s));
}

/// Audits the marker structure of a JPEG file held in memory: marker framing,
/// the start-of-scan and end-of-image markers, and the C2PA JUMBF store carried
/// in APP11 JPEG XT segments with its sequence numbering. The walk starts after
/// the two-byte start-of-image marker.
pub fn inspect_jpeg(b: &[u8]) -> (r: Result<ContainerCredentialReport, AppError>)
    ensures
        r matches Ok(report) && report@ == jpeg_report(b@),
{
    let mut c = JpegCursor {
        position: 2,
        reached_scan: false,
        seen_eoi: false,
        store_count: 0,
        store_bytes: 0,
        jumbf_segments: 0,
        active_en: None,
        expected_sequence: 1,
        issues: Vec::new(),
        done: false,
    };
    assert(c.scan().issues =~= seq![]);
    assert(c.scan() == jpeg_start());
    while !c.done && c.position < b.len()
        invariant
            c.inv(),
            jpeg_walk(b@, c.scan()) == jpeg_walk(b@, jpeg_start()),
        decreases b@.len() - c.position + (if c.done { 0int } else { 1int }),
    {
        let ghost before = c.scan();
        jpeg_advance(b, &mut c);
        proof {
            lemma_jpeg_walk_unfold(b@, before);
        }
    }
    assert(jpeg_walk(b@, c.scan()) == c.scan());
    let ghost s = c.scan();
    let mut issues = c.issues;
    if !c.reached_scan {
        push_text(&mut issues, String::from_str("JPEG contains no start-of-scan marker"));
    }
    if !c.seen_eoi {
        push_text(&mut issues, String::from_str("JPEG contains no end-of-image marker"));
    }
    if c.store_count > 1 {
        let n = decimal_string(c.store_count as u64);
        push_text(&mut issues, concat3("JPEG contains ", n.as_str(), " C2PA JUMBF stores"));
    }
    assert(texts(issues@) == jpeg_final_issues(s));
    let structure_valid = issues.len() == 0;
    let report = ContainerCredentialReport {
        format: "image/jpeg",
        location: "JPEG APP11 JUMBF",
        embedded: c.store_count == 1 && c.jumbf_segments > 0,
        store_count: c.store_count,
        store_bytes: c.store_bytes,
        before_media_data: if c.store_count > 0 { Some(true) } else { None },
        crc_valid: None,
        structure_valid,
        trailing_bytes: 0,
        issues,
    };
    assert(report@ == jpeg_report(b@));
    Ok(report)
}

/// Whether a file starts with the PNG signature.
pub open spec fn is_png(b: Seq<u8>) -> bool {
    b.len() >= 8 && b.subrange(0, 8) == png_signature()
}

/// Whether a file starts with the JPEG start-of-image marker.
pub open spec fn is_jpeg(b: Seq<u8>) -> bool {
    b.len() >= 2 && b[0] == 0xff && b[1] == 0xd8
}

fn starts_png(b: &[u8]) -> (r: bool)
    ensures
        r == is_png(b@),
{
    if b.len() < 8 {
        return false;
    }
    let r = b[0] == 0x89 && b[1] == 0x50 && b[2] == 0x4e && b[3] == 0x47 && b[4] == 0x0d && b[5] == 0x0a
        && b[6] == 0x1a && b[7] == 0x0a;
    proof {
        let h = b@.subrange(0, 8);
        if r {
            assert(h =~= png_signature());
        } else {
            assert(h[0] == b@[0] && h[1] == b@[1] && h[2] == b@[2] && h[3] == b@[3]);
            assert(h[4] == b@[4] && h[5] == b@[5] && h[6] == b@[6] && h[7] == b@[7]);
            assert(h != png_signature());
        }
    }
    r
}

/// Audits the credential container of an image file held in memory: a PNG
/// (by its signature) or a JPEG (by its start-of-image marker). Any other file
/// is a verification error naming `path`.
pub fn inspect_container(path: &str, bytes: &[u8]) -> (r: Result<ContainerCredentialReport, AppError>)
    ensures
        is_png(bytes@) ==> match r {
            Ok(report) => !png_walk(bytes@, png_start()).overflow && report@ == png_report(bytes@),
            Err(e) => png_walk(bytes@, png_start()).overflow && e.exit_code == 3 && e.message@ == msg_offset_overflow(),
        },
        !is_png(bytes@) && is_jpeg(bytes@) ==> (r matches Ok(report) && report@ == jpeg_report(bytes@)),
        !is_png(bytes@) && !is_jpeg(bytes@) ==> (r matches Err(e) && e.exit_code == 3
            && e.message@ == "unsupported container format: "@ + path@),
{
    if starts_png(bytes) {
        inspect_png(bytes)
    } else if bytes.len() >= 2 && bytes[0] == 0xff && bytes[1] == 0xd8 {
        inspect_jpeg(bytes)
    } else {
        Err(AppError::verification(crate::text::concat2("unsupported container format: ", path)))
    }
}

/// A failed CRC is always reported as an issue.
pub open spec fn crc_failure_reported(s: PngScan) -> bool {
    !s.all_crc_valid ==> s.issues.len() > 0
}

proof fn lemma_png_step_reports_crc(b: Seq<u8>, s: PngScan)
    requires
        crc_failure_reported(s),
        !png_stopped(b, s),
        0 <= s.position,
    ensures
        crc_failure_reported(png_step(b, s)),
        png_step(b, s).issues.len() >= s.issues.len(),
{
    let p = s.position;
    if p + 8 <= usize::MAX && p + 8 <= b.len() {
        let length = be32(b, p);
        if p + 8 + length + 4 <= usize::MAX && p + 8 + length + 4 <= b.len() {
            let i1 = png_issues_crc(b, s);
            let i2 = png_issues_alpha(b, s);
            let i3 = png_issues_ihdr(b, s);
            assert(i1.len() >= s.issues.len());
            assert(!png_crc_ok(b, s) ==> i1.len() > s.issues.len());
            assert(i2.len() >= i1.len());
            assert(i3.len() >= i2.len());
        }
    }
}

proof fn lemma_png_walk_reports_crc(b: Seq<u8>, s: PngScan)
    requires
        crc_failure_reported(s),
        0 <= s.position,
    ensures
        crc_failure_reported(png_walk(b, s)),
        png_walk(b, s).issues.len() >= s.issues.len(),
    decreases (if png_stopped(b, s) { 0 } else { b.len() - s.position + 1 }),
{
    if !png_stopped(b, s) {
        let n = png_step(b, s);
        lemma_png_step_reports_crc(b, s);
        lemma_png_step_position(b, s);
        if !png_stopped(b, n) && n.position > s.position {
            lemma_png_walk_reports_crc(b, n);
        }
    }
}

proof fn lemma_png_step_position(b: Seq<u8>, s: PngScan)
    requires
        0 <= s.position,
    ensures
        png_step(b, s).position >= s.position,
{
}

/// A PNG whose structure is valid has correct CRCs on every chunk, no bytes
/// after IEND, and at most one credential store.
pub proof fn law_png_valid_structure(b: Seq<u8>)
    ensures
        png_report(b).structure_valid ==> png_report(b).crc_valid == Some(true)
            && png_report(b).trailing_bytes == 0 && png_report(b).store_count <= 1,
{
    let s = png_walk(b, png_start());
    assert(crc_failure_reported(png_start()));
    lemma_png_walk_reports_crc(b, png_start());
    let issues = png_final_issues(b, s);
    let trailing = if b.len() > s.position { b.len() - s.position } else { 0 };
    let i1 = if !s.seen_ihdr { s.issues.push(msg_no_ihdr()) } else { s.issues };
    let i2 = if !s.seen_idat { i1.push(msg_no_idat()) } else { i1 };
    let i3 = if !s.seen_iend { i2.push(msg_no_iend()) } else { i2 };
    let i4 = if trailing > 0 { i3.push(msg_trailing(trailing as nat)) } else { i3 };
    assert(issues.len() >= i4.len() && i4.len() >= i3.len() && i3.len() >= s.issues.len());
    assert(trailing > 0 ==> i4.len() > 0);
    assert(s.store_count > 1 ==> issues.len() > 0);
}

/// The PNG report's flags agree with its walk: valid exactly when no issue
/// was found, embedded exactly when there is one store, and invalid without
/// an IHDR chunk, image data, or a complete IEND chunk.
pub proof fn law_png_report_flags(b: Seq<u8>)
    ensures
        png_report(b).structure_valid == (png_report(b).issues.len() == 0),
        png_report(b).embedded == (png_report(b).store_count == 1),
        png_report(b).format == "image/png"@,
        !png_walk(b, png_start()).seen_ihdr || !png_walk(b, png_start()).seen_idat
            || !png_walk(b, png_start()).seen_iend ==> !png_report(b).structure_valid,
{
    let s = png_walk(b, png_start());
    let trailing = if b.len() > s.position { b.len() - s.position } else { 0 };
    let i1 = if !s.seen_ihdr { s.issues.push(msg_no_ihdr()) } else { s.issues };
    let i2 = if !s.seen_idat { i1.push(msg_no_idat()) } else { i1 };
    let i3 = if !s.seen_iend { i2.push(msg_no_iend()) } else { i2 };
    let i4 = if trailing > 0 { i3.push(msg_trailing(trailing as nat)) } else { i3 };
    assert(png_final_issues(b, s).len() >= i4.len() && i4.len() >= i3.len());
}

/// The JPEG report's flags agree with its walk: valid exactly when no issue
/// was found, never a CRC verdict nor trailing bytes, a store always before
/// the image data, an embedded store is the only one, several stores are
/// invalid, and a file without a scan or without an end marker is invalid.
pub proof fn law_jpeg_report_flags(b: Seq<u8>)
    ensures
        jpeg_report(b).structure_valid == (jpeg_report(b).issues.len() == 0),
        jpeg_report(b).crc_valid.is_none(),
        jpeg_report(b).trailing_bytes == 0,
        jpeg_report(b).before_media_data == (if jpeg_report(b).store_count > 0 { Some(true) } else { None::<bool> }),
        jpeg_report(b).embedded ==> jpeg_report(b).store_count == 1,
        jpeg_report(b).store_count > 1 ==> !jpeg_report(b).structure_valid,
        !jpeg_walk(b, jpeg_start()).reached_scan || !jpeg_walk(b, jpeg_start()).seen_eoi
            ==> !jpeg_report(b).structure_valid,
{
}

/// A credential store that is valid for a generated output is embedded, and
/// exactly one.
pub proof fn law_generated_embedding_is_single(r: ContainerView)
    requires
        spec_valid_generated_embedding(r),
    ensures
        r.embedded,
        r.store_count == 1,
        r.structure_valid,
        r.before_media_data != Some(false),
{
}

} // verus!
