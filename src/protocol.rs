use crate::theme::{strings_view, PromptContent, PromptTheme};
use vstd::prelude::*;
use vstd::slice::slice_subrange;

verus! {

/// Byte `k` (`0 <= k < 8`) of a 64-bit value in little-endian order.
pub open spec fn le_byte(n: u64, k: u64) -> u8 {
    ((n >> (8 * k)) & 0xff) as u8
}

/// The eight bytes of a 64-bit value, least significant first.
pub open spec fn le_bytes(n: u64) -> Seq<u8> {
    seq![
        le_byte(n, 0),
        le_byte(n, 1),
        le_byte(n, 2),
        le_byte(n, 3),
        le_byte(n, 4),
        le_byte(n, 5),
        le_byte(n, 6),
        le_byte(n, 7),
    ]
}

/// The 64-bit value of eight bytes, least significant first.
pub open spec fn le_value(b: Seq<u8>) -> u64 {
    (b[0] as u64) | ((b[1] as u64) << 8) | ((b[2] as u64) << 16) | ((b[3] as u64) << 24) | ((
    b[4] as u64) << 32) | ((b[5] as u64) << 40) | ((b[6] as u64) << 48) | ((b[7] as u64) << 56)
}

/// A frame: the payload length in eight little-endian bytes, then the payload.
pub open spec fn framed(payload: Seq<u8>) -> Seq<u8> {
    le_bytes(payload.len() as u64) + payload
}

/// The payload of a complete frame: present exactly when the buffer holds
/// the eight length bytes and then exactly as many bytes as they announce.
pub open spec fn unframed(buf: Seq<u8>) -> Option<Seq<u8>> {
    if buf.len() >= 8 && le_value(buf.subrange(0, 8)) == buf.len() - 8 {
        Some(buf.subrange(8, buf.len() as int))
    } else {
        None
    }
}

/// The eight length bytes of a payload of `n` bytes.
pub fn length_prefix(n: u64) -> (r: Vec<u8>)
    ensures
        r@ == le_bytes(n),
{
    let mut r: Vec<u8> = Vec::new();
    let mut k: u64 = 0;
    while k < 8
        invariant
            k <= 8,
            r@.len() == k,
            forall|i: int| 0 <= i < k ==> r@[i] == le_byte(n, i as u64),
        decreases 8 - k,
    {
        let b = ((n >> (8 * k)) & 0xff) as u8;
        r.push(b);
        k = k + 1;
    }
    assert(r@ =~= le_bytes(n));
    r
}

/// The length that eight header bytes announce; nothing when the header
/// does not have exactly eight bytes.
pub fn frame_len(header: &[u8]) -> (r: Option<u64>)
    ensures
        header@.len() == 8 ==> r == Some(le_value(header@)),
        header@.len() != 8 ==> r is None,
{
    if header.len() != 8 {
        return None;
    }
    let v = (header[0] as u64) | ((header[1] as u64) << 8) | ((header[2] as u64) << 16) | ((
    header[3] as u64) << 24) | ((header[4] as u64) << 32) | ((header[5] as u64) << 40) | ((
    header[6] as u64) << 48) | ((header[7] as u64) << 56);
    Some(v)
}

/// A payload with its length prefix in front.
pub fn frame(payload: &Vec<u8>) -> (r: Vec<u8>)
    ensures
        r@ == framed(payload@),
{
    let mut r = length_prefix(payload.len() as u64);
    let mut i: usize = 0;
    while i < payload.len()
        invariant
            i <= payload@.len(),
            r@ == le_bytes(payload@.len() as u64) + payload@.take(i as int),
        decreases payload@.len() - i,
    {
        r.push(payload[i]);
        assert(payload@.take(i + 1) =~= payload@.take(i as int).push(payload@[i as int]));
        i = i + 1;
    }
    assert(payload@.take(payload@.len() as int) =~= payload@);
    r
}

/// The payload of a complete frame, or nothing for a buffer that is too
/// short, or longer or shorter than its header announces.
pub fn unframe(buf: &Vec<u8>) -> (r: Option<Vec<u8>>)
    ensures
        match r {
            Some(p) => unframed(buf@) == Some(p@),
            None => unframed(buf@) is None,
        },
{
    if buf.len() < 8 {
        return None;
    }
    let header = slice_subrange(buf.as_slice(), 0, 8);
    assert(header@ =~= buf@.subrange(0, 8));
    let n = frame_len(header);
    let len = n.unwrap();
    if len as u128 != (buf.len() - 8) as u128 {
        return None;
    }
    let mut p: Vec<u8> = Vec::new();
    let mut i: usize = 8;
    while i < buf.len()
        invariant
            8 <= i <= buf@.len(),
            p@ == buf@.subrange(8, i as int),
        decreases buf@.len() - i,
    {
        p.push(buf[i]);
        assert(buf@.subrange(8, i + 1) =~= buf@.subrange(8, i as int).push(buf@[i as int]));
        i = i + 1;
    }
    Some(p)
}

/// The number of characters of all strings of a list together.
pub open spec fn total_chars(v: Seq<Seq<char>>) -> nat
    decreases v.len(),
{
    if v.len() == 0 {
        0
    } else {
        total_chars(v.drop_last()) + v.last().len()
    }
}

/// Whether a list of strings is small enough for rkyv's archived form: the
/// number of strings and of their characters together below 2^26, which
/// keeps every string below rkyv's 2^30-byte string limit and the whole
/// archive within its 32-bit relative offsets.
pub open spec fn archivable(v: Seq<Seq<char>>) -> bool {
    v.len() + total_chars(v) < 0x400_0000
}

/// The archived (rkyv) form of a list of strings.
pub uninterp spec fn archived_strings(v: Seq<Seq<char>>) -> Seq<u8>;

/// The list of strings that rkyv validates and reads back from some bytes,
/// if they hold one.
pub uninterp spec fn decoded_strings(b: Seq<u8>) -> Option<Seq<Seq<char>>>;

/// Relies on `rkyv::to_bytes`: the archived form of the list, which depends
/// on the strings alone; it succeeds for every list within rkyv's size
/// limits.
#[verifier::external_body]
fn archive_strings(v: &Vec<String>) -> (r: Option<Vec<u8>>)
    ensures
        r matches Some(b) ==> b@ == archived_strings(strings_view(v@)),
        archivable(strings_view(v@)) ==> r is Some,
{
    match rkyv::to_bytes::<rkyv::rancor::Error>(v) {
        Ok(bytes) => Some(bytes.to_vec()),
        Err(_) => None,
    }
}

/// The characters of each string of an optional list.
pub open spec fn opt_strings_view(o: Option<Vec<String>>) -> Option<Seq<Seq<char>>> {
    match o {
        Some(v) => Some(strings_view(v@)),
        None => None,
    }
}

/// Whether `r` is the list `v` whenever `b` is the archived form of an
/// archivable list `v`.
pub open spec fn reads_back_archived(b: Seq<u8>, r: Option<Vec<String>>) -> bool {
    forall|v: Seq<Seq<char>>|
        archivable(v) && #[trigger] archived_strings(v) == b ==> opt_strings_view(r) == Some(v)
}

/// Relies on `rkyv::from_bytes`: the list that the bytes hold, after
/// validation, which depends on the bytes alone; the archived form of a list
/// within rkyv's size limits is read back as that list.
#[verifier::external_body]
fn unarchive_strings(b: &[u8]) -> (r: Option<Vec<String>>)
    ensures
        opt_strings_view(r) == decoded_strings(b@),
        reads_back_archived(b@, r),
{
    let mut aligned = rkyv::util::AlignedVec::<16>::with_capacity(b.len());
    aligned.extend_from_slice(b);
    rkyv::from_bytes::<Vec<String>, rkyv::rancor::Error>(&aligned).ok()
}

/// The daemon's reply to a request: the framed archived list of segment
/// texts. It is there for every list within rkyv's size limits.
pub fn encode_response(segments: &Vec<String>) -> (r: Option<Vec<u8>>)
    ensures
        r matches Some(b) ==> b@ == framed(archived_strings(strings_view(segments@))),
        archivable(strings_view(segments@)) ==> r is Some,
{
    match archive_strings(segments) {
        Some(payload) => Some(frame(&payload)),
        None => None,
    }
}

/// What the client learned, given the reply payload it read (nothing when
/// connecting, writing or reading failed): the list of segment texts that
/// the payload holds, or nothing when there is no payload or it does not
/// decode.
pub fn client_reply(reply: Option<Vec<u8>>) -> (r: Option<Vec<String>>)
    ensures
        reply is None ==> r is None,
        reply matches Some(p) ==> opt_strings_view(r) == decoded_strings(p@),
        forall|v: Seq<Seq<char>>|
            (reply matches Some(p) && archivable(v) && p@ == #[trigger] archived_strings(v))
                ==> opt_strings_view(r) == Some(v),
{
    match reply {
        None => None,
        Some(p) => unarchive_strings(p.as_slice()),
    }
}

/// What the client hands back: the list of segment texts that the reply
/// payload holds, and an empty list when there is no payload or it does not
/// decode.
pub fn client_result(reply: Option<Vec<u8>>) -> (r: Vec<String>)
    ensures
        reply is None ==> r@.len() == 0,
        reply matches Some(p) ==> match decoded_strings(p@) {
            Some(v) => strings_view(r@) == v,
            None => r@.len() == 0,
        },
        forall|v: Seq<Seq<char>>|
            (reply matches Some(p) && archivable(v) && p@ == #[trigger] archived_strings(v))
                ==> strings_view(r@) == v,
{
    match client_reply(reply) {
        Some(v) => v,
        None => Vec::new(),
    }
}

/// Which side of a row a request asks for.
#[derive(Clone, Copy, Debug, PartialEq, Eq, Structural)]
pub enum PromptSide {
    Left,
    Right,
}

/// A request to the daemon: evaluate the segments of one side of one row.
#[derive(Clone, Copy, Debug, PartialEq, Eq, Structural)]
pub struct SegmentRequest {
    pub row: u64,
    pub side: PromptSide,
}

/// The segments that a request names: those of the requested side of the
/// requested row; none for a row that the theme does not have.
pub open spec fn requested_segments(theme: PromptTheme, req: SegmentRequest) -> Seq<PromptContent> {
    let list = theme.prompt_contents_list@;
    if req.row < list.len() {
        match req.side {
            PromptSide::Left => list[req.row as int].left@,
            PromptSide::Right => list[req.row as int].right@,
        }
    } else {
        Seq::empty()
    }
}

/// The segment commands that the daemon runs for a request.
pub fn request_commands(theme: &PromptTheme, req: &SegmentRequest) -> (r: Vec<PromptContent>)
    ensures
        r@.len() == requested_segments(*theme, *req).len(),
        forall|i: int|
            0 <= i < r@.len() ==> #[trigger] r@[i].argv() == requested_segments(*theme, *req)[i].argv(),
{
    let list = &theme.prompt_contents_list;
    if req.row as u128 >= list.len() as u128 {
        return Vec::new();
    }
    let row = &list[req.row as usize];
    let src = match req.side {
        PromptSide::Left => &row.left,
        PromptSide::Right => &row.right,
    };
    let mut out: Vec<PromptContent> = Vec::new();
    let mut i: usize = 0;
    while i < src.len()
        invariant
            i <= src@.len(),
            src@ == requested_segments(*theme, *req),
            out@.len() == i,
            forall|k: int| 0 <= k < i ==> #[trigger] out@[k].argv() == src@[k].argv(),
        decreases src@.len() - i,
    {
        let c = PromptContent::new(clone_strings(src[i].shell()));
        out.push(c);
        i = i + 1;
    }
    out
}

fn clone_strings(v: &Vec<String>) -> (r: Vec<String>)
    ensures
        strings_view(r@) == strings_view(v@),
{
    let mut out: Vec<String> = Vec::new();
    let mut i: usize = 0;
    while i < v.len()
        invariant
            i <= v@.len(),
            strings_view(out@) == strings_view(v@).take(i as int),
        decreases v@.len() - i,
    {
        let ghost before = out@;
        out.push(v[i].clone());
        assert(strings_view(out@) =~= strings_view(before).push(v@[i as int]@));
        assert(strings_view(v@).take(i + 1) =~= strings_view(v@).take(i as int).push(v@[i as int]@));
        i = i + 1;
    }
    assert(strings_view(v@).take(v@.len() as int) =~= strings_view(v@));
    out
}

// ---------------------------------------------------------------- laws

/// Reading back the eight length bytes of a value gives the value.
pub proof fn lemma_length_prefix_round_trip(n: u64)
    ensures
        le_value(le_bytes(n)) == n,
{
    let b = le_bytes(n);
    assert(b[0] == le_byte(n, 0));
    assert(b[7] == le_byte(n, 7));
    assert((((n >> 0u64) & 0xff) as u8 as u64) | ((((n >> 8u64) & 0xff) as u8 as u64) << 8) | ((((n
        >> 16u64) & 0xff) as u8 as u64) << 16) | ((((n >> 24u64) & 0xff) as u8 as u64) << 24) | ((((n
        >> 32u64) & 0xff) as u8 as u64) << 32) | ((((n >> 40u64) & 0xff) as u8 as u64) << 40) | ((((n
        >> 48u64) & 0xff) as u8 as u64) << 48) | ((((n >> 56u64) & 0xff) as u8 as u64) << 56) == n)
        by (bit_vector);
}

/// A framed payload is read back as the same payload.
pub proof fn lemma_frame_round_trip(payload: Seq<u8>)
    requires
        payload.len() <= u64::MAX,
    ensures
        unframed(framed(payload)) == Some(payload),
{
    let buf = framed(payload);
    assert(buf.subrange(0, 8) =~= le_bytes(payload.len() as u64));
    lemma_length_prefix_round_trip(payload.len() as u64);
    assert(buf.subrange(8, buf.len() as int) =~= payload);
}

} // verus!
