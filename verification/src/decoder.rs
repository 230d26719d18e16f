//! The decoder of one file: the twelve bytes of the header, then the tagged
//! blocks that follow it, read for a thumbnail and the render engine.

use vstd::prelude::*;
use vstd::slice::*;
use vstd::string::*;
use vstd::utf8::*;
use crate::endian::{i32_at, read_i32, read_u32, u32_at};
use crate::model::{text_of, BlendInfo, BlendInfoView};
use crate::text::{
    base64_standard, base64_text, chars_of, decoded_text, has_infix, lossy_text, occurs_in,
    unicode_uppercase, uppercase,
};

verus! {

/// The length of the file header.
pub const HEADER_LEN: usize = 12;

/// The most blocks that are passed over before the scan gives up.
pub const BLOCK_CAP: usize = 3000;

/// A thumbnail's pixel data must be shorter than this many bytes.
pub const THUMB_LIMIT: usize = 10485760;

/// The flag byte `-`: pointers in the file are 64 bits wide.
pub const FLAG_POINTER_64: u8 = 0x2d;

/// The flag byte `_`: pointers in the file are 32 bits wide.
pub const FLAG_POINTER_32: u8 = 0x5f;

/// The flag byte `v`: integers in the file are little-endian.
pub const FLAG_LITTLE: u8 = 0x76;

/// The flag byte `V`: integers in the file are big-endian.
pub const FLAG_BIG: u8 = 0x56;

/// The seven bytes that every file of the format starts with: `BLENDER`.
pub open spec fn magic() -> Seq<u8> {
    seq![0x42u8, 0x4cu8, 0x45u8, 0x4eu8, 0x44u8, 0x45u8, 0x52u8]
}

/// `data` starts with a whole header that carries the format's magic.
pub open spec fn has_magic(data: Seq<u8>) -> bool {
    data.len() >= HEADER_LEN && data.subrange(0, 7) == magic()
}

/// The pointer width in bits that the flag byte of the header stands for.
pub open spec fn pointer_size_of(flag: u8) -> Option<u8> {
    if flag == FLAG_POINTER_64 {
        Some(64u8)
    } else if flag == FLAG_POINTER_32 {
        Some(32u8)
    } else {
        None
    }
}

/// The name of the byte order that the flag byte of the header stands for.
pub open spec fn endianness_of(flag: u8) -> Seq<char> {
    if flag == FLAG_LITTLE {
        "little"@
    } else if flag == FLAG_BIG {
        "big"@
    } else {
        "unknown"@
    }
}

/// The version string of a raw version code: its three characters joined by
/// dots, and nothing where the code is not three characters long.
pub open spec fn version_text(raw: Seq<char>) -> Option<Seq<char>> {
    if raw.len() == 3 {
        Some(seq![raw[0], '.', raw[1], '.', raw[2]])
    } else {
        None
    }
}

/// A raw version code decodes cleanly: it is three bytes, each of them an
/// ASCII character.
pub open spec fn is_clean_code(code: Seq<u8>) -> bool {
    code.len() == 3 && code[0] < 0x80 && code[1] < 0x80 && code[2] < 0x80
}

/// The version string that the three version bytes of a header give: the
/// three characters joined by dots where the bytes decode cleanly, and
/// nothing otherwise.
pub open spec fn version_of_code(code: Seq<u8>) -> Option<Seq<char>> {
    if is_clean_code(code) {
        Some(seq![code[0] as char, '.', code[1] as char, '.', code[2] as char])
    } else {
        None
    }
}

/// An info that holds nothing but an error.
pub open spec fn failure(message: Seq<char>) -> BlendInfoView {
    BlendInfoView {
        version: None,
        raw: None,
        pointer_size: None,
        endianness: None,
        thumbnail: None,
        thumb_width: None,
        thumb_height: None,
        render_engine: None,
        error: Some(message),
    }
}

/// What the header alone says of a file that has the magic.
pub open spec fn header_info(data: Seq<u8>) -> BlendInfoView
    recommends
        has_magic(data),
{
    let code = data.subrange(9, 12);
    BlendInfoView {
        version: version_of_code(code),
        raw: Some(decoded_text(code)),
        pointer_size: pointer_size_of(data[7]),
        endianness: Some(endianness_of(data[8])),
        thumbnail: None,
        thumb_width: None,
        thumb_height: None,
        render_engine: None,
        error: None,
    }
}

/// What a block holds, as far as the scan tells blocks apart.
#[derive(Debug, Clone, Copy, PartialEq, Eq, Structural)]
pub enum BlockKind {
    /// The embedded preview image: code `TEST`.
    Thumbnail,
    /// A scene: a code that starts with `SC`.
    Scene,
    /// The end of what the scan reads: code `DNA1` or `ENDB`.
    Stop,
    /// Any other block.
    Other,
}

/// The kind of the block whose four-byte code is `code`.
pub open spec fn kind_of(code: Seq<u8>) -> BlockKind
    recommends
        code.len() == 4,
{
    if code == seq![0x54u8, 0x45u8, 0x53u8, 0x54u8] {
        BlockKind::Thumbnail
    } else if code[0] == 0x53u8 && code[1] == 0x43u8 {
        BlockKind::Scene
    } else if code == seq![0x44u8, 0x4eu8, 0x41u8, 0x31u8] || code == seq![
        0x45u8,
        0x4eu8,
        0x44u8,
        0x42u8,
    ] {
        BlockKind::Stop
    } else {
        BlockKind::Other
    }
}

/// The kind of the block whose header starts at `at`.
pub fn block_kind(data: &[u8], at: usize) -> (kind: BlockKind)
    requires
        at + 4 <= data@.len(),
    ensures
        kind == kind_of(data@.subrange(at as int, at + 4)),
{
    let c0: u8 = data[at];
    let c1: u8 = data[at + 1];
    let c2: u8 = data[at + 2];
    let c3: u8 = data[at + 3];
    let ghost code = data@.subrange(at as int, at + 4);
    assert(code[0] == c0 && code[1] == c1 && code[2] == c2 && code[3] == c3);
    if c0 == 0x54 && c1 == 0x45 && c2 == 0x53 && c3 == 0x54 {
        assert(code =~= seq![0x54u8, 0x45u8, 0x53u8, 0x54u8]);
        BlockKind::Thumbnail
    } else if c0 == 0x53 && c1 == 0x43 {
        BlockKind::Scene
    } else if c0 == 0x44 && c1 == 0x4e && c2 == 0x41 && c3 == 0x31 {
        assert(code =~= seq![0x44u8, 0x4eu8, 0x41u8, 0x31u8]);
        BlockKind::Stop
    } else if c0 == 0x45 && c1 == 0x4e && c2 == 0x44 && c3 == 0x42 {
        assert(code =~= seq![0x45u8, 0x4eu8, 0x44u8, 0x42u8]);
        BlockKind::Stop
    } else {
        BlockKind::Other
    }
}

/// The render engine that an upper-case text names: the first of Cycles,
/// Eevee and Workbench whose name occurs in it.
pub open spec fn engine_in(upper: Seq<char>) -> Option<Seq<char>> {
    if has_infix(upper, "CYCLES"@) {
        Some("Cycles"@)
    } else if has_infix(upper, "EEVEE"@) {
        Some("Eevee"@)
    } else if has_infix(upper, "WORKBENCH"@) {
        Some("Workbench"@)
    } else {
        None
    }
}

/// The render engine that the payload of a scene block names, whatever the
/// case of its letters.
pub open spec fn scene_engine(payload: Seq<u8>) -> Option<Seq<char>> {
    engine_in(unicode_uppercase(decoded_text(payload)))
}

/// The render engine named in a text that is already in upper case.
pub fn engine_in_text(upper: &str) -> (engine: Option<String>)
    ensures
        text_of(engine) == engine_in(upper@),
{
    let chars = chars_of(upper);
    if occurs_in(&chars, "CYCLES") {
        Some(String::from_str("Cycles"))
    } else if occurs_in(&chars, "EEVEE") {
        Some(String::from_str("Eevee"))
    } else if occurs_in(&chars, "WORKBENCH") {
        Some(String::from_str("Workbench"))
    } else {
        None
    }
}

/// The render engine named in the payload of a scene block.
pub fn render_engine_of(payload: &[u8]) -> (engine: Option<String>)
    ensures
        text_of(engine) == scene_engine(payload@),
{
    let text = lossy_text(payload);
    let upper = uppercase(text.as_str());
    engine_in_text(upper.as_str())
}

/// The number of bytes of a thumbnail of the given size, four for a pixel.
pub open spec fn thumb_bytes(width: int, height: int) -> int {
    width * height * 4
}

/// A thumbnail of this size is read: it is not empty and stays under the
/// limit.
pub open spec fn thumb_fits(width: int, height: int) -> bool {
    0 < thumb_bytes(width, height) < THUMB_LIMIT
}

/// The info after a thumbnail block whose payload starts at `body` and holds
/// at least the two integers of the image's size. The image replaces an
/// earlier one where its size is accepted and all its bytes are there.
pub open spec fn after_thumbnail(
    info: BlendInfoView,
    data: Seq<u8>,
    body: int,
    little: bool,
) -> BlendInfoView {
    let width = i32_at(data, body, little);
    let height = i32_at(data, body + 4, little);
    let n = thumb_bytes(width, height);
    if thumb_fits(width, height) && body + 8 + n <= data.len() {
        BlendInfoView {
            thumbnail: Some(base64_text(data.subrange(body + 8, body + 8 + n))),
            thumb_width: Some(width as i32),
            thumb_height: Some(height as i32),
            ..info
        }
    } else {
        info
    }
}

/// Where the next block starts after a thumbnail block of the declared
/// length `size`: at the end of the block, or behind what was read of it
/// where that is more.
pub open spec fn thumbnail_end(data: Seq<u8>, body: int, size: int, little: bool) -> int {
    let width = i32_at(data, body, little);
    let height = i32_at(data, body + 4, little);
    let read = if thumb_fits(width, height) {
        8 + thumb_bytes(width, height)
    } else {
        8
    };
    if size > read {
        body + size
    } else {
        body + read
    }
}

/// The info after a scene block: the first scene that names an engine sets
/// it, and a later one leaves it as it is.
pub open spec fn after_scene(info: BlendInfoView, payload: Seq<u8>) -> BlendInfoView {
    if info.render_engine is None {
        BlendInfoView { render_engine: scene_engine(payload), ..info }
    } else {
        info
    }
}

/// The info after the blocks from `pos` on, where `seen` blocks were read
/// before and `info` is what they gave. A block header is a code of four
/// bytes, the payload's length, a pointer of `ptr_bytes` bytes and two
/// integers of four bytes each. The scan ends where no whole header is left,
/// where a payload that is wanted is cut short, at a stop block, and at a
/// block of another kind once more than `BLOCK_CAP` blocks were read.
pub open spec fn scan_from(
    data: Seq<u8>,
    pos: int,
    little: bool,
    ptr_bytes: int,
    seen: int,
    info: BlendInfoView,
) -> BlendInfoView
    decreases data.len() - pos,
{
    let body = pos + 16 + ptr_bytes;
    if pos < 0 || ptr_bytes < 0 || body > data.len() {
        info
    } else {
        let size = u32_at(data, pos + 4, little);
        match kind_of(data.subrange(pos, pos + 4)) {
            BlockKind::Thumbnail => if body + 8 > data.len() {
                info
            } else {
                let found = after_thumbnail(info, data, body, little);
                let next = thumbnail_end(data, body, size, little);
                if next > data.len() {
                    found
                } else {
                    scan_from(data, next, little, ptr_bytes, seen + 1, found)
                }
            },
            BlockKind::Scene => if body + size > data.len() {
                info
            } else {
                scan_from(
                    data,
                    body + size,
                    little,
                    ptr_bytes,
                    seen + 1,
                    after_scene(info, data.subrange(body, body + size)),
                )
            },
            BlockKind::Stop => info,
            BlockKind::Other => if seen + 1 > BLOCK_CAP || body + size > data.len() {
                info
            } else {
                scan_from(data, body + size, little, ptr_bytes, seen + 1, info)
            },
        }
    }
}

/// The width of a block header's pointer in bytes: that of the header's
/// pointer size, and 8 where the header gives none.
pub open spec fn ptr_bytes(pointer_size: Option<u8>) -> int {
    match pointer_size {
        Some(bits) => bits as int / 8,
        None => 8,
    }
}

/// Integers are read least significant byte first unless the info says
/// that the file is big-endian.
pub open spec fn reads_little(info: BlendInfoView) -> bool {
    info.endianness != Some("big"@)
}

/// What decoding makes of the bytes of a file. Too short a file and one
/// without the magic give an error and nothing else; any other gives the
/// fields of its header and what the scan of its blocks adds to them.
pub open spec fn decode(data: Seq<u8>) -> BlendInfoView {
    if data.len() < HEADER_LEN {
        failure("Unable to read header"@)
    } else if data.subrange(0, 7) != magic() {
        failure("Not a blend file"@)
    } else {
        let header = header_info(data);
        scan_from(
            data,
            HEADER_LEN as int,
            reads_little(header),
            ptr_bytes(header.pointer_size),
            0,
            header,
        )
    }
}

impl BlendInfo {
    /// An info that holds nothing but an error: for a file that could not
    /// be opened or read.
    pub fn failed(message: String) -> (info: BlendInfo)
        ensures
            info@ == failure(message@),
    {
        BlendInfo {
            version: None,
            raw: None,
            pointer_size: None,
            endianness: None,
            thumbnail: None,
            thumb_width: None,
            thumb_height: None,
            render_engine: None,
            error: Some(message),
        }
    }

    /// Stores an encoded thumbnail with its size, in place of an earlier one.
    pub fn set_thumbnail(&mut self, encoded: String, width: i32, height: i32)
        ensures
            final(self)@ == (BlendInfoView {
                thumbnail: Some(encoded@),
                thumb_width: Some(width),
                thumb_height: Some(height),
                ..old(self)@
            }),
    {
        self.thumbnail = Some(encoded);
        self.thumb_width = Some(width);
        self.thumb_height = Some(height);
    }

    /// Whether integers of the file are read least significant byte first.
    pub fn reads_little(&self) -> (little: bool)
        ensures
            little == reads_little(self@),
    {
        match &self.endianness {
            Some(name) => {
                let big = String::from_str("big");
                !(*name == big)
            },
            None => true,
        }
    }
}

/// The version string of a raw version code.
pub fn version_of(raw: &str) -> (version: Option<String>)
    ensures
        text_of(version) == version_text(raw@),
{
    if raw.unicode_len() == 3 {
        let mut version = String::from_str(raw.substring_char(0, 1));
        version.append(".");
        version.append(raw.substring_char(1, 2));
        version.append(".");
        version.append(raw.substring_char(2, 3));
        proof {
            reveal_strlit(".");
            assert(version@ =~= seq![raw@[0], '.', raw@[1], '.', raw@[2]]);
        }
        Some(version)
    } else {
        None
    }
}

/// Scans the blocks that follow the header of `data` and stores in `info`
/// the last thumbnail that could be read and the render engine of the first
/// scene that names one. The byte order is the one that `info` holds, the
/// width of the pointers in the block headers comes from `ptr_size`.
pub fn parse_blocks(info: &mut BlendInfo, data: &[u8], ptr_size: Option<u8>)
    ensures
        final(info)@ == scan_from(
            data@,
            HEADER_LEN as int,
            reads_little(old(info)@),
            ptr_bytes(ptr_size),
            0,
            old(info)@,
        ),
{
    let little = info.reads_little();
    let ptr: usize = match ptr_size {
        Some(bits) => (bits / 8) as usize,
        None => 8,
    };
    let header_len: usize = 16 + ptr;
    let ghost goal = scan_from(data@, HEADER_LEN as int, little, ptr as int, 0, info@);
    let mut pos: usize = HEADER_LEN;
    let mut seen: usize = 0;
    loop
        invariant_except_break
            scan_from(data@, pos as int, little, ptr as int, seen as int, info@) == goal,
        invariant
            header_len == 16 + ptr,
            ptr < 32,
            HEADER_LEN <= pos,
            16 * seen <= pos,
        ensures
            info@ == goal,
        decreases data@.len() - pos,
    {
        if pos > data.len() || data.len() - pos < header_len {
            break ;
        }
        let kind = block_kind(data, pos);
        let size: usize = read_u32(data, pos + 4, little) as usize;
        let body: usize = pos + header_len;
        match kind {
            BlockKind::Thumbnail => {
                if data.len() - body < 8 {
                    break ;
                }
                let width: i32 = read_i32(data, body, little);
                let height: i32 = read_i32(data, body + 4, little);
                assert(-0x4000_0000_0000_0000 <= (width as i64) * (height as i64)
                    <= 0x4000_0000_0000_0000) by (nonlinear_arith)
                    requires
                        -0x8000_0000 <= width <= 0x7fff_ffff,
                        -0x8000_0000 <= height <= 0x7fff_ffff,
                ;
                let pixels: i64 = (width as i64) * (height as i64);
                let mut read: usize = 8;
                if 0 < pixels && pixels < (THUMB_LIMIT / 4) as i64 {
                    let n: usize = (pixels * 4) as usize;
                    read = 8 + n;
                    if data.len() - body - 8 >= n {
                        let encoded = base64_standard(slice_subrange(data, body + 8, body + 8 + n));
                        info.set_thumbnail(encoded, width, height);
                    }
                }
                let step: usize = if size > read {
                    size
                } else {
                    read
                };
                if step > data.len() - body {
                    break ;
                }
                pos = body + step;
            },
            BlockKind::Scene => {
                if size > data.len() - body {
                    break ;
                }
                if info.render_engine.is_none() {
                    info.render_engine = render_engine_of(slice_subrange(data, body, body + size));
                }
                pos = body + size;
            },
            BlockKind::Stop => {
                break ;
            },
            BlockKind::Other => {
                if seen + 1 > BLOCK_CAP || size > data.len() - body {
                    break ;
                }
                pos = body + size;
            },
        }
        seen = seen + 1;
    }
}

/// Whether `data`, of at least seven bytes, starts with the magic.
fn starts_with_magic(data: &[u8]) -> (found: bool)
    requires
        data@.len() >= 7,
    ensures
        found == (data@.subrange(0, 7) == magic()),
{
    let ghost head = data@.subrange(0, 7);
    assert(forall|i: int| 0 <= i < 7 ==> head[i] == data@[i]);
    let found = data[0] == 0x42 && data[1] == 0x4c && data[2] == 0x45 && data[3] == 0x4e
        && data[4] == 0x44 && data[5] == 0x45 && data[6] == 0x52;
    proof {
        if found {
            assert(head =~= magic());
        } else {
            assert(magic()[0] == 0x42u8 && magic()[1] == 0x4cu8 && magic()[2] == 0x45u8
                && magic()[3] == 0x4eu8 && magic()[4] == 0x44u8 && magic()[5] == 0x45u8
                && magic()[6] == 0x52u8);
        }
    }
    found
}

/// Decodes the bytes of one file. Nothing makes it fail: what is wrong
/// with the file is said in the info's `error`.
pub fn parse_blend_header(data: &[u8]) -> (info: BlendInfo)
    ensures
        info@ == decode(data@),
{
    if data.len() < HEADER_LEN {
        return BlendInfo::failed(String::from_str("Unable to read header"));
    }
    if !starts_with_magic(data) {
        return BlendInfo::failed(String::from_str("Not a blend file"));
    }
    let pointer_flag: u8 = data[7];
    let pointer_size: Option<u8> = if pointer_flag == FLAG_POINTER_64 {
        Some(64)
    } else if pointer_flag == FLAG_POINTER_32 {
        Some(32)
    } else {
        None
    };
    let order_flag: u8 = data[8];
    let endianness = if order_flag == FLAG_LITTLE {
        String::from_str("little")
    } else if order_flag == FLAG_BIG {
        String::from_str("big")
    } else {
        String::from_str("unknown")
    };
    let raw = lossy_text(slice_subrange(data, 9, 12));
    let version = if data[9] < 0x80 && data[10] < 0x80 && data[11] < 0x80 {
        proof {
            lemma_ascii_text(data@.subrange(9, 12));
        }
        version_of(raw.as_str())
    } else {
        None
    };
    let mut info = BlendInfo {
        version,
        raw: Some(raw),
        pointer_size,
        endianness: Some(endianness),
        thumbnail: None,
        thumb_width: None,
        thumb_height: None,
        render_engine: None,
        error: None,
    };
    assert(info@ == header_info(data@));
    parse_blocks(&mut info, data, pointer_size);
    info
}

/// For every file with the magic, the pointer flag `-` gives a pointer
/// size of 64, the flag `_` one of 32, and any other byte none.
pub proof fn lemma_pointer_flag(data: Seq<u8>)
    requires
        has_magic(data),
    ensures
        data[7] == FLAG_POINTER_64 ==> decode(data).pointer_size == Some(64u8),
        data[7] == FLAG_POINTER_32 ==> decode(data).pointer_size == Some(32u8),
        data[7] != FLAG_POINTER_64 && data[7] != FLAG_POINTER_32 ==> decode(data).pointer_size
            is None,
{
    let header = header_info(data);
    lemma_scan_keeps_header(
        data,
        HEADER_LEN as int,
        reads_little(header),
        ptr_bytes(header.pointer_size),
        0,
        header,
    );
}

/// For every file with the magic, the byte-order flag `v` gives the
/// endianness `little`, the flag `V` gives `big`, and any other byte
/// `unknown`.
pub proof fn lemma_endianness_flag(data: Seq<u8>)
    requires
        has_magic(data),
    ensures
        data[8] == FLAG_LITTLE ==> decode(data).endianness == Some("little"@),
        data[8] == FLAG_BIG ==> decode(data).endianness == Some("big"@),
        data[8] != FLAG_LITTLE && data[8] != FLAG_BIG ==> decode(data).endianness == Some(
            "unknown"@,
        ),
{
    let header = header_info(data);
    lemma_scan_keeps_header(
        data,
        HEADER_LEN as int,
        reads_little(header),
        ptr_bytes(header.pointer_size),
        0,
        header,
    );
}

/// A file that does not start with the magic decodes to an info without a
/// version and with an error that is not empty.
pub proof fn lemma_no_magic_is_an_error(data: Seq<u8>)
    requires
        data.len() < 7 || data.subrange(0, 7) != magic(),
    ensures
        decode(data).version is None,
        decode(data).error is Some,
        decode(data).error->0.len() > 0,
        decode(data) == failure(decode(data).error->0),
{
    reveal_strlit("Unable to read header");
    reveal_strlit("Not a blend file");
}

/// The scan of the blocks changes nothing but the thumbnail, its size and
/// the render engine.
pub proof fn lemma_scan_keeps_header(
    data: Seq<u8>,
    pos: int,
    little: bool,
    ptr_bytes: int,
    seen: int,
    info: BlendInfoView,
)
    ensures
        ({
            let found = scan_from(data, pos, little, ptr_bytes, seen, info);
            &&& found.version == info.version
            &&& found.raw == info.raw
            &&& found.pointer_size == info.pointer_size
            &&& found.endianness == info.endianness
            &&& found.error == info.error
        }),
    decreases data.len() - pos,
{
    let body = pos + 16 + ptr_bytes;
    if pos < 0 || ptr_bytes < 0 || body > data.len() {
    } else {
        let size = u32_at(data, pos + 4, little);
        match kind_of(data.subrange(pos, pos + 4)) {
            BlockKind::Thumbnail => {
                if body + 8 <= data.len() {
                    let found = after_thumbnail(info, data, body, little);
                    let next = thumbnail_end(data, body, size, little);
                    if next <= data.len() {
                        lemma_scan_keeps_header(data, next, little, ptr_bytes, seen + 1, found);
                    }
                }
            },
            BlockKind::Scene => {
                if body + size <= data.len() {
                    lemma_scan_keeps_header(
                        data,
                        body + size,
                        little,
                        ptr_bytes,
                        seen + 1,
                        after_scene(info, data.subrange(body, body + size)),
                    );
                }
            },
            BlockKind::Stop => {},
            BlockKind::Other => {
                if !(seen + 1 > BLOCK_CAP || body + size > data.len()) {
                    lemma_scan_keeps_header(data, body + size, little, ptr_bytes, seen + 1, info);
                }
            },
        }
    }
}

/// Three ASCII bytes read as text are the three characters that they
/// stand for.
pub proof fn lemma_ascii_text(bytes: Seq<u8>)
    requires
        bytes.len() == 3,
        bytes[0] < 128,
        bytes[1] < 128,
        bytes[2] < 128,
    ensures
        decoded_text(bytes) == seq![bytes[0] as char, bytes[1] as char, bytes[2] as char],
{
    let chars = seq![bytes[0] as char, bytes[1] as char, bytes[2] as char];
    assert(is_ascii_chars(chars));
    is_ascii_chars_encode_utf8(chars);
    assert(encode_utf8(chars) =~= bytes);
    encode_utf8_valid_utf8(chars);
    encode_utf8_decode_utf8(chars);
}

/// For every file with the magic whose version bytes are ASCII, the raw
/// version code is the three characters as they stand, and the version
/// string joins them by dots: the characters are not read as numbers.
pub proof fn lemma_ascii_version(data: Seq<u8>)
    requires
        has_magic(data),
        data[9] < 128,
        data[10] < 128,
        data[11] < 128,
    ensures
        decode(data).raw == Some(seq![data[9] as char, data[10] as char, data[11] as char]),
        decode(data).version == Some(
            seq![data[9] as char, '.', data[10] as char, '.', data[11] as char],
        ),
        decode(data).version == version_text(decode(data).raw->0),
{
    let header = header_info(data);
    lemma_ascii_text(data.subrange(9, 12));
    lemma_scan_keeps_header(
        data,
        HEADER_LEN as int,
        reads_little(header),
        ptr_bytes(header.pointer_size),
        0,
        header,
    );
}

/// A file with the magic never decodes to an error: what cannot be read
/// of its blocks is left out, and the fields of the header stand.
pub proof fn lemma_magic_means_no_error(data: Seq<u8>)
    requires
        has_magic(data),
    ensures
        decode(data).error is None,
        decode(data).raw is Some,
        decode(data).endianness is Some,
{
    let header = header_info(data);
    lemma_scan_keeps_header(
        data,
        HEADER_LEN as int,
        reads_little(header),
        ptr_bytes(header.pointer_size),
        0,
        header,
    );
}

/// A thumbnail block whose image would be empty, or would have as many
/// bytes as the limit or more, leaves the info as it was; one whose image
/// is accepted and whole sets the encoded image and its size.
pub proof fn lemma_thumbnail_size(info: BlendInfoView, data: Seq<u8>, body: int, little: bool)
    ensures
        ({
            let width = i32_at(data, body, little);
            let height = i32_at(data, body + 4, little);
            let n = width * height * 4;
            let after = after_thumbnail(info, data, body, little);
            &&& n <= 0 || n >= THUMB_LIMIT ==> after == info
            &&& 0 < n < THUMB_LIMIT && body + 8 + n <= data.len() ==> {
                &&& after.thumbnail == Some(base64_text(data.subrange(body + 8, body + 8 + n)))
                &&& after.thumb_width == Some(width as i32)
                &&& after.thumb_height == Some(height as i32)
            }
        }),
{
}

/// Of the engines that a scene names, Cycles goes before Eevee and Eevee
/// before Workbench; a scene that names none gives none.
pub proof fn lemma_engine_precedence(upper: Seq<char>)
    ensures
        has_infix(upper, "CYCLES"@) ==> engine_in(upper) == Some("Cycles"@),
        !has_infix(upper, "CYCLES"@) && has_infix(upper, "EEVEE"@) ==> engine_in(upper) == Some(
            "Eevee"@,
        ),
        !has_infix(upper, "CYCLES"@) && !has_infix(upper, "EEVEE"@) && has_infix(
            upper,
            "WORKBENCH"@,
        ) ==> engine_in(upper) == Some("Workbench"@),
        !has_infix(upper, "CYCLES"@) && !has_infix(upper, "EEVEE"@) && !has_infix(
            upper,
            "WORKBENCH"@,
        ) ==> engine_in(upper) is None,
{
}

/// For every file with the magic of whose version bytes one is not ASCII,
/// there is no version string; the pointer size and the endianness are
/// those of the flags all the same, and there is no error.
pub proof fn lemma_unclean_version(data: Seq<u8>)
    requires
        has_magic(data),
        data[9] >= 128 || data[10] >= 128 || data[11] >= 128,
    ensures
        decode(data).version is None,
        decode(data).raw is Some,
        decode(data).pointer_size == pointer_size_of(data[7]),
        decode(data).endianness == Some(endianness_of(data[8])),
        decode(data).error is None,
{
    let header = header_info(data);
    lemma_scan_keeps_header(
        data,
        HEADER_LEN as int,
        reads_little(header),
        ptr_bytes(header.pointer_size),
        0,
        header,
    );
}

} // verus!
