//! Bounded inline images carried as private marker characters through
//! ordinary text layout. Each image row becomes one registered OSC 1337
//! escape, named by one private-use marker character; only registered
//! markers resolve to escapes, so clipping, history and reflow stay text
//! operations.

use vstd::prelude::*;
use vstd::hash_map::StringHashMap;
use crate::image_ops::{
    base64_encode, base64_standard, char_from_u32, encode_png, opt_bytes, overlaid, overlay_rgba, png_encode,
    pixel_buffer_fits, push_char, resize_rgba, resized_rgba, rgba_buffer_fits,
};
use crate::text::{bool_text, decimal, lemma_decimal_digits, lemma_decimal_injective, push_bool, push_decimal};

verus! {

/// Code of the first marker character; markers are assigned in order.
pub const FIRST_MARKER: u32 = 0xf0000;
/// The character that fills the rest of an image row after its marker.
pub const PADDING_MARKER: char = '\u{ffffe}';
/// How many markers `row` resolves (the codes below the padding marker).
pub const MARKER_SPAN: u32 = 65534;
/// At most this many renderings are kept.
pub const MAX_ASSETS: usize = 128;
/// At most this many bytes of escapes are kept.
pub const MAX_BYTES: usize = 25_165_824;
/// Rows of a display image, and of a local image, at most.
pub const MAX_ROWS: u32 = 20;
/// Pixel width of one terminal cell.
pub const CELL_W: u32 = 16;
/// Pixel height of one terminal cell.
pub const CELL_H: u32 = 32;
/// Columns of an image row, at most.
pub const MAX_COLUMNS: u32 = 120;
/// Largest image file that is read.
pub const MAX_IMAGE_FILE_BYTES: u64 = 8_388_608;
/// Largest pixel count of an image that is read.
pub const MAX_IMAGE_PIXELS: u64 = 8_000_000;
/// Longest TeX source, in bytes, that is rendered.
pub const MAX_LATEX_SOURCE_BYTES: usize = 32768;

/// Rendered images and the escapes of their rows.
pub struct Cache {
    /// Every rendering asked for, by key: its marker text, or `None` when
    /// it could not be made.
    pub rendered: StringHashMap<Option<String>>,
    /// The escape of each registered row; marker `FIRST_MARKER + i` names
    /// `rows[i]`.
    pub rows: Vec<String>,
    /// Total bytes of the escapes.
    pub bytes: usize,
}

/// What a lookup in the cache leads to.
#[derive(Debug)]
pub enum CacheStep {
    /// The answer is known: the marker text, or `None`.
    Done(Option<String>),
    /// Nothing is known of this key and there is room: render the image,
    /// register it, and remember the result under the key.
    Render(String),
}

/// The text of an optional string.
pub open spec fn opt_text(o: Option<String>) -> Option<Seq<char>> {
    match o {
        Some(s) => Some(s@),
        None => None,
    }
}

/// The views of a sequence of strings.
pub open spec fn row_texts(rows: Seq<String>) -> Seq<Seq<char>> {
    rows.map_values(|s: String| s@)
}

/// What a symbol of laid-out text resolves to: the padding marker alone
/// resolves to nothing, a single registered marker to its escape, and every
/// other symbol to no escape.
pub open spec fn resolve(rows: Seq<Seq<char>>, symbol: Seq<char>) -> Option<Seq<char>> {
    if symbol.len() == 1 && symbol[0] == PADDING_MARKER {
        Some(Seq::empty())
    } else if symbol.len() == 1 && FIRST_MARKER <= symbol[0] as u32 && (symbol[0] as u32) < FIRST_MARKER + MARKER_SPAN
        && (symbol[0] as u32) - FIRST_MARKER < rows.len() {
        Some(rows[(symbol[0] as u32) - FIRST_MARKER])
    } else {
        None
    }
}

/// The number of bytes of the UTF-8 encoding of a text.
pub open spec fn text_bytes(s: Seq<char>) -> nat {
    vstd::utf8::encode_utf8(s).len()
}

/// The marker character of row `index`.
pub open spec fn marker_char(index: int) -> char {
    (FIRST_MARKER + index) as char
}

/// `n` padding markers.
pub open spec fn padding_run(n: nat) -> Seq<char> {
    Seq::new(n, |_i: int| PADDING_MARKER)
}

/// The text of one image row: its marker, then padding up to `columns` cells.
pub open spec fn marker_line(index: int, columns: int) -> Seq<char> {
    seq![marker_char(index)] + padding_run((columns - 1) as nat)
}

/// The text of an image: `rows` marker lines, for rows `base` onwards,
/// separated by newlines.
pub open spec fn marker_text(base: int, rows: nat, columns: int) -> Seq<char>
    decreases rows,
{
    if rows == 0 {
        Seq::empty()
    } else if rows == 1 {
        marker_line(base, columns)
    } else {
        marker_text(base, (rows - 1) as nat, columns) + seq!['\n'] + marker_line(base + rows - 1, columns)
    }
}

/// The start of a row's escape, up to its column count.
pub open spec fn osc_prefix() -> Seq<char> {
    seq!['\x1b', ']', '1', '3', '3', '7', ';', 'F', 'i', 'l', 'e', '=', 'i', 'n', 'l', 'i', 'n', 'e', '=', '1', ';',
         'w', 'i', 'd', 't', 'h', '=']
}

/// What stands between a row's column count and its image data.
pub open spec fn osc_infix() -> Seq<char> {
    seq![';', 'h', 'e', 'i', 'g', 'h', 't', '=', '1', ';', 'p', 'r', 'e', 's', 'e', 'r', 'v', 'e', 'A', 's', 'p', 'e',
         'c', 't', 'R', 'a', 't', 'i', 'o', '=', '0', ':']
}

/// The OSC 1337 escape that shows an inline image `columns` cells wide and
/// one cell high, given its base64 data.
pub open spec fn osc_row(columns: nat, data: Seq<char>) -> Seq<char> {
    osc_prefix() + decimal(columns) + osc_infix() + data + seq!['\x07']
}

/// The escape of a row `columns` cells wide whose image is the PNG `png`.
pub open spec fn row_escape(columns: nat, png: Seq<u8>) -> Seq<char> {
    osc_row(columns, base64_standard(png))
}

/// The bytes of stripe `index` of an RGBA canvas `width` pixels wide: its
/// pixel rows `CELL_H * index` to `CELL_H * (index + 1)`, 4 bytes per pixel.
pub open spec fn stripe_bytes(canvas: Seq<u8>, width: int, index: int) -> Seq<u8> {
    canvas.subrange(4 * width * CELL_H * index, 4 * width * CELL_H * (index + 1))
}

/// The PNG encoding of stripe `index` of the canvas, if it can be encoded.
pub open spec fn stripe_png(canvas: Seq<u8>, width: u32, index: int) -> Option<Seq<u8>> {
    png_encode(width, CELL_H, stripe_bytes(canvas, width as int, index))
}

/// The escape of stripe `index`, `columns` cells wide, if it can be encoded.
pub open spec fn stripe_escape(canvas: Seq<u8>, columns: u32, index: int) -> Option<Seq<char>> {
    match stripe_png(canvas, (columns * CELL_W) as u32, index) {
        Some(png) => Some(row_escape(columns as nat, png)),
        None => None,
    }
}

/// Every one of the first `count` stripes can be encoded.
pub open spec fn all_stripes_encode(canvas: Seq<u8>, columns: u32, count: int) -> bool {
    forall|i: int| 0 <= i < count ==> #[trigger] stripe_escape(canvas, columns, i) is Some
}

/// The escapes of the first `count` stripes.
pub open spec fn stripe_escapes(canvas: Seq<u8>, columns: u32, count: int) -> Seq<Seq<char>> {
    Seq::new(count as nat, |i: int| stripe_escape(canvas, columns, i).unwrap())
}

/// The padded canvas of an image resized to `width` by `height` pixels with
/// pixels `resized`: a transparent RGBA canvas of whole cells (`columns` by
/// `count`) with the image drawn at its top left corner.
pub open spec fn padded_canvas(columns: u32, count: u32, width: u32, height: u32, resized: Seq<u8>) -> Seq<u8> {
    let cw = (columns * CELL_W) as u32;
    let ch = (count * CELL_H) as u32;
    overlaid(cw, ch, Seq::new((4 * cw * ch) as nat, |_i: int| 0u8), width, height, resized)
}

/// What `register` does for an image resized to `width` by `height` pixels
/// with pixels `resized`: it succeeds exactly when the markers do not run
/// out, every stripe of the padded canvas can be encoded and the escapes fit
/// in the byte budget, and then appends the stripes' escapes as rows, adds
/// their bytes and returns their marker text.
pub open spec fn registered(before: Cache, after: Cache, out: Option<String>, width: u32, height: u32, resized: Seq<u8>) -> bool {
    let base = before.rows@.len() as int;
    let columns = cells(width as int, CELL_W as int) as u32;
    let count = cells(height as int, CELL_H as int) as u32;
    let canvas = padded_canvas(columns, count, width, height, resized);
    let escapes = stripe_escapes(canvas, columns, count as int);
    &&& resized.len() == 4 * width * height
    &&& (out is Some <==> (markers_fit(base, count as int)
        && all_stripes_encode(canvas, columns, count as int)
        && before.bytes + total_text_bytes(escapes) <= MAX_BYTES))
    &&& (out matches Some(text) ==> {
        &&& row_texts(after.rows@) == row_texts(before.rows@) + escapes
        &&& after.rows@.subrange(0, base) == before.rows@
        &&& after.bytes == before.bytes + total_text_bytes(escapes)
        &&& text@ == marker_text(base, count as nat, columns as int)
    })
}

/// The total bytes of a sequence of texts.
pub open spec fn total_text_bytes(texts: Seq<Seq<char>>) -> nat
    decreases texts.len(),
{
    if texts.len() == 0 {
        0
    } else {
        total_text_bytes(texts.drop_last()) + text_bytes(texts.last())
    }
}

/// The number of `size`-pixel cells that `pixels` pixels take, rounded up.
pub open spec fn cells(pixels: int, size: int) -> int {
    (pixels + size - 1) / size
}

/// The key of a local image rendering.
pub open spec fn image_key(width: nat, path: Seq<char>, modified: Seq<char>, len: nat) -> Seq<char> {
    seq!['i', 'm', 'a', 'g', 'e', ':'] + decimal(width) + seq![':'] + path + seq![':'] + modified + seq![':']
        + decimal(len)
}

/// How an RGB colour prints with `{:?}`: `(r, g, b)`.
pub open spec fn rgb_text(c: (u8, u8, u8)) -> Seq<char> {
    seq!['('] + decimal(c.0 as nat) + seq![',', ' '] + decimal(c.1 as nat) + seq![',', ' '] + decimal(c.2 as nat)
        + seq![')']
}

/// The key of a TeX rendering.
pub open spec fn latex_key(
    width: nat,
    display: bool,
    foreground: (u8, u8, u8),
    background: (u8, u8, u8),
    source: Seq<char>,
) -> Seq<char> {
    seq!['t', 'e', 'x', ':'] + decimal(width) + seq![':'] + bool_text(display) + seq![':'] + rgb_text(foreground)
        + seq![':'] + rgb_text(background) + seq![':'] + source
}

impl Cache {
    /// The cache is within its budget, and its markers fit in the private
    /// use planes.
    pub open spec fn wf(&self) -> bool {
        &&& self.bytes <= MAX_BYTES
        &&& self.rows@.len() <= 0x20000
        &&& self.rendered@.dom().finite()
        &&& self.rendered@.len() <= MAX_ASSETS
    }

    /// An empty cache.
    pub fn new() -> (c: Cache)
        ensures
            c.wf(),
            c.rendered@ == Map::<Seq<char>, Option<String>>::empty(),
            c.rows@.len() == 0,
            c.bytes == 0,
    {
        let c = Cache { rendered: StringHashMap::new(), rows: Vec::new(), bytes: 0 };
        assert(c.rendered@.dom() =~= Set::<Seq<char>>::empty());
        c
    }

    /// Looks `key` up: a remembered rendering is served; when nothing is
    /// known and the cache is full (by count or by bytes) there is no
    /// image; otherwise the image must be rendered.
    pub fn begin(&self, key: String) -> (step: CacheStep)
        ensures
            self.rendered@.contains_key(key@) ==> (step matches CacheStep::Done(r)
                && opt_text(r) == opt_text(self.rendered@[key@])),
            !self.rendered@.contains_key(key@) && (self.rendered@.len() >= MAX_ASSETS || self.bytes >= MAX_BYTES)
                ==> step matches CacheStep::Done(None),
            !self.rendered@.contains_key(key@) && !(self.rendered@.len() >= MAX_ASSETS || self.bytes >= MAX_BYTES)
                ==> (step matches CacheStep::Render(k) && k@ == key@),
    {
        match self.rendered.get(key.as_str()) {
            Some(result) => {
                let copy = match result {
                    Some(text) => Some(text.clone()),
                    None => None,
                };
                CacheStep::Done(copy)
            },
            None => {
                if self.rendered.len() >= MAX_ASSETS || self.bytes >= MAX_BYTES {
                    CacheStep::Done(None)
                } else {
                    CacheStep::Render(key)
                }
            },
        }
    }

    /// Remembers the rendering of `key`, made or failed. There is room for
    /// it: `begin` asks for a rendering only while fewer than `MAX_ASSETS`
    /// are remembered.
    pub fn remember(&mut self, key: String, result: Option<String>)
        requires
            old(self).wf(),
            old(self).rendered@.len() < MAX_ASSETS || old(self).rendered@.contains_key(key@),
        ensures
            final(self).wf(),
            final(self).rendered@ == old(self).rendered@.insert(key@, result),
            final(self).rows@ == old(self).rows@,
            final(self).bytes == old(self).bytes,
    {
        let ghost before = self.rendered@;
        self.rendered.insert(key, result);
        proof {
            assert(self.rendered@.dom() =~= before.dom().insert(key@));
            vstd::set::axiom_set_insert_len(before.dom(), key@);
        }
    }
}

/// A picture as RGBA pixels: `width` by `height`, 4 bytes per pixel, row by
/// row from the top left.
#[derive(Debug)]
pub struct Picture {
    pub width: u32,
    pub height: u32,
    pub pixels: Vec<u8>,
}

impl Picture {
    /// The pixels fill the picture exactly.
    pub open spec fn wf(&self) -> bool {
        self.pixels@.len() == 4 * self.width * self.height
    }

    /// The picture of the given size with these pixels, when they fill it
    /// exactly.
    pub fn new(width: u32, height: u32, pixels: Vec<u8>) -> (p: Option<Picture>)
        ensures
            p is Some <==> pixels@.len() == 4 * width * height,
            p matches Some(p) ==> p.width == width && p.height == height && p.pixels@ == pixels@,
    {
        let n = pixels.len() as u128;
        let w = width as u128;
        let h = height as u128;
        assert(4 * w * h <= 4 * 0xffff_ffffu128 * 0xffff_ffffu128) by (nonlinear_arith)
            requires
                w <= 0xffff_ffff,
                h <= 0xffff_ffff,
        ;
        if n != 4 * w * h {
            return None;
        }
        Some(Picture { width, height, pixels })
    }
}

/// Whether an image of `width` by `height` pixels, drawn from a picture
/// `src_width` pixels wide, can be registered: it is between one pixel and
/// `MAX_COLUMNS` cells wide, at least one pixel high, its rows can be
/// counted, and every buffer made on the way can be allocated.
pub open spec fn register_size_ok(src_width: u32, width: u32, height: u32) -> bool {
    &&& 1 <= width <= MAX_COLUMNS * CELL_W
    &&& 1 <= height
    &&& height + CELL_H - 1 <= u32::MAX
    &&& rgba_buffer_fits(width as int, height as int)
    &&& pixel_buffer_fits(src_width as int, height as int, 16)
    &&& rgba_buffer_fits(cells(width as int, CELL_W as int) * CELL_W, cells(height as int, CELL_H as int) * CELL_H)
}

/// Whether `register` can be asked to draw a picture `src_width` pixels wide
/// at `width` by `height` pixels.
pub fn register_size_fits(src_width: u32, width: u32, height: u32) -> (ok: bool)
    ensures
        ok == register_size_ok(src_width, width, height),
{
    if width < 1 || width > MAX_COLUMNS * CELL_W || height < 1 || height > u32::MAX - (CELL_H - 1) {
        return false;
    }
    let w = width as u128;
    let h = height as u128;
    let sw = src_width as u128;
    let cw = (((width - 1) / CELL_W + 1) * CELL_W) as u128;
    let ch = (((height - 1) / CELL_H + 1) as u128) * (CELL_H as u128);
    assert(cw == cells(width as int, CELL_W as int) * CELL_W);
    assert(ch == cells(height as int, CELL_H as int) * CELL_H);
    assert(16 * sw * h <= 16 * 0xffff_ffffu128 * 0xffff_ffffu128) by (nonlinear_arith)
        requires
            sw <= 0xffff_ffff,
            h <= 0xffff_ffff,
    ;
    assert(4 * w * h <= 4 * 0xffff_ffffu128 * 0xffff_ffffu128) by (nonlinear_arith)
        requires
            w <= 0xffff_ffff,
            h <= 0xffff_ffff,
    ;
    assert(ch <= 0xffff_ffff + 32);
    assert(cw <= 2000);
    assert(4 * cw * ch <= 4 * 2000 * (0xffff_ffffu128 + 32)) by (nonlinear_arith)
        requires
            cw <= 2000,
            ch <= 0xffff_ffff + 32,
    ;
    let limit = isize::MAX as u128;
    4 * w * h <= limit && 16 * sw * h <= limit && 4 * cw * ch <= limit
}

/// Every size that an image is scaled to for display is accepted: any width
/// from one pixel to `MAX_COLUMNS` cells and any height from one pixel to
/// `MAX_ROWS` cells, drawn from a picture whose rows, resampled to that
/// height in four 32-bit floats per pixel, can be allocated.
pub proof fn law_display_sizes_register(src_width: u32, width: u32, height: u32)
    requires
        1 <= width <= MAX_COLUMNS * CELL_W,
        1 <= height <= MAX_ROWS * CELL_H,
        16 * src_width * height <= isize::MAX,
    ensures
        register_size_ok(src_width, width, height),
{
    let cw = cells(width as int, CELL_W as int) * CELL_W;
    let ch = cells(height as int, CELL_H as int) * CELL_H;
    assert(cw <= 1920);
    assert(ch <= 640);
    assert(4 * cw * ch <= 4 * 1920 * 640) by (nonlinear_arith)
        requires
            0 <= cw <= 1920,
            0 <= ch <= 640,
    ;
    assert(4 * width * height <= 4 * 1920 * 640) by (nonlinear_arith)
        requires
            width <= 1920,
            height <= 640,
    ;
    assert(isize::MAX >= 0x7fff_ffff);
}

/// The escape of a marker symbol: the registered escape of a single marker
/// character, nothing for the padding marker alone, and `None` for every
/// other symbol, escapes and plain text included.
pub fn row(cache: &Cache, symbol: &str) -> (r: Option<String>)
    ensures
        opt_text(r) == resolve(row_texts(cache.rows@), symbol@),
{
    let n = symbol.unicode_len();
    if n == 0 {
        return None;
    }
    let ch = symbol.get_char(0);
    if ch == PADDING_MARKER && n == 1 {
        return Some(String::new());
    }
    let code = ch as u32;
    if n > 1 || code < FIRST_MARKER || code >= FIRST_MARKER + MARKER_SPAN {
        return None;
    }
    let index = (code - FIRST_MARKER) as usize;
    if index < cache.rows.len() {
        Some(cache.rows[index].clone())
    } else {
        None
    }
}

/// The escape of one image row, `columns` cells wide, for base64 data.
fn osc_payload(columns: u32, encoded: &String) -> (payload: String)
    ensures
        payload@ == osc_row(columns as nat, encoded@),
{
    let mut payload = String::new();
    proof {
        reveal_strlit("\x1b]1337;File=inline=1;width=");
        reveal_strlit(";height=1;preserveAspectRatio=0:");
        reveal_strlit("\x07");
    }
    payload.append("\x1b]1337;File=inline=1;width=");
    push_decimal(&mut payload, columns as u64);
    payload.append(";height=1;preserveAspectRatio=0:");
    payload.append(encoded.as_str());
    payload.append("\x07");
    assert(payload@ =~= osc_row(columns as nat, encoded@));
    payload
}

/// Calls `str::len`: the number of bytes of the text's UTF-8 encoding, which
/// a string slice in memory always has room to count.
#[verifier::external_body]
fn byte_len(s: &str) -> (n: usize)
    ensures
        n == text_bytes(s@),
{
    s.len()
}

/// Appends `n` padding markers to `out`.
fn push_padding(out: &mut String, n: u32)
    ensures
        final(out)@ == old(out)@ + padding_run(n as nat),
{
    let mut k: u32 = 0;
    while k < n
        invariant
            k <= n,
            out@ == old(out)@ + padding_run(k as nat),
        decreases n - k,
    {
        push_char(out, PADDING_MARKER);
        k = k + 1;
        assert(out@ =~= old(out)@ + padding_run(k as nat));
    }
}

/// A marker character is the marker of the row its code names.
proof fn lemma_marker_char(c: char, index: int)
    requires
        c as u32 == FIRST_MARKER + index,
    ensures
        c == marker_char(index),
{
    let n = c as u32;
    assert(c == (n as int) as char);
}

/// The bytes of stripe `index` of the canvas.
fn copy_stripe(canvas: &Vec<u8>, width: u32, index: u32, count: u32) -> (stripe: Vec<u8>)
    requires
        width <= MAX_COLUMNS * CELL_W,
        index < count,
        canvas@.len() == 4 * width * CELL_H * count,
    ensures
        stripe@ == stripe_bytes(canvas@, width as int, index as int),
        stripe@.len() == 4 * width * CELL_H,
{
    let row_bytes: usize = 4 * (width as usize) * (CELL_H as usize);
    proof {
        let rb = row_bytes as int;
        assert(rb * (index + 1) <= rb * count) by (nonlinear_arith)
            requires
                index + 1 <= count,
                rb >= 0,
        ;
        assert(rb * count == canvas@.len()) by (nonlinear_arith)
            requires
                rb == 4 * width * CELL_H,
                canvas@.len() == 4 * width * CELL_H * count,
        ;
        assert(rb * (index + 1) == rb * index + rb) by (nonlinear_arith);
        assert(rb * index <= rb * index + rb);
        assert(rb * index + rb <= canvas@.len());
    }
    let n: usize = canvas.len();
    assert(row_bytes * index + row_bytes <= n);
    let start: usize = row_bytes * (index as usize);
    let end: usize = start + row_bytes;
    let mut stripe: Vec<u8> = Vec::new();
    let mut k: usize = start;
    while k < end
        invariant
            start <= k <= end,
            end <= canvas@.len(),
            stripe@ == canvas@.subrange(start as int, k as int),
        decreases end - k,
    {
        stripe.push(canvas[k]);
        k = k + 1;
        assert(stripe@ =~= canvas@.subrange(start as int, k as int));
    }
    assert(start == 4 * width * CELL_H * index) by (nonlinear_arith)
        requires
            start == row_bytes * index,
            row_bytes == 4 * width * CELL_H,
    ;
    assert(end == 4 * width * CELL_H * (index + 1)) by (nonlinear_arith)
        requires
            end == row_bytes * index + row_bytes,
            row_bytes == 4 * width * CELL_H,
    ;
    stripe
}

/// The escape of stripe `index` of the padded canvas, `columns` cells wide
/// and one cell high, or `None` when it cannot be encoded as PNG.
fn stripe_row(canvas: &Vec<u8>, index: u32, count: u32, columns: u32) -> (payload: Option<String>)
    requires
        1 <= columns <= MAX_COLUMNS,
        index < count,
        canvas@.len() == 4 * (columns * CELL_W) * CELL_H * count,
    ensures
        opt_text(payload) == stripe_escape(canvas@, columns, index as int),
{
    let width: u32 = columns * CELL_W;
    let stripe = copy_stripe(canvas, width, index, count);
    let png = match encode_png(width, CELL_H, stripe) {
        Some(png) => png,
        None => return None,
    };
    let encoded = base64_encode(&png);
    let payload = osc_payload(columns, &encoded);
    Some(payload)
}

/// Appends the line of row `base + index` to the marker text of the rows
/// before it.
fn push_marker_line(text: &mut String, marker: char, base: usize, index: usize, columns: u32)
    requires
        old(text)@ == marker_text(base as int, index as nat, columns as int),
        marker == marker_char(base + index),
        1 <= columns,
    ensures
        final(text)@ == marker_text(base as int, (index + 1) as nat, columns as int),
{
    if index > 0 {
        push_char(text, '\n');
    }
    push_char(text, marker);
    push_padding(text, columns - 1);
    assert(text@ =~= marker_text(base as int, (index + 1) as nat, columns as int));
}

/// A nonempty text takes at least one byte.
proof fn lemma_text_bytes_nonempty(s: Seq<char>)
    requires
        s.len() > 0,
    ensures
        text_bytes(s) >= 1,
{
    assert(vstd::utf8::encode_utf8(s) == vstd::utf8::encode_scalar(s[0] as u32) + vstd::utf8::encode_utf8(s.drop_first()));
}

/// Adding one escape adds its bytes to the total.
proof fn lemma_total_bytes_push(rows: Seq<String>, row: String)
    ensures
        total_text_bytes(row_texts(rows.push(row))) == total_text_bytes(row_texts(rows)) + text_bytes(row@),
{
    assert(row_texts(rows.push(row)) =~= row_texts(rows).push(row@));
    assert(row_texts(rows).push(row@).drop_last() =~= row_texts(rows));
}

impl Cache {
    /// Registers an image, resized to `width` by `height` pixels, as rows one
    /// cell high: the image is drawn on a transparent canvas of whole cells,
    /// each cell-high stripe of the canvas is encoded as PNG and base64, and
    /// kept as an OSC 1337 escape under the next marker. The marker text (one
    /// line per row, each line a marker and padding up to the row's columns)
    /// is returned. It succeeds exactly when every stripe can be encoded, the
    /// markers do not run out and the escapes fit in the byte budget;
    /// otherwise nothing is registered.
    pub fn register(&mut self, image: Picture, width: u32, height: u32) -> (out: Option<String>)
        requires
            old(self).wf(),
            image.wf(),
            register_size_ok(image.width, width, height),
        ensures
            final(self).wf(),
            final(self).rendered@ == old(self).rendered@,
            out is None ==> final(self).rows@ == old(self).rows@ && final(self).bytes == old(self).bytes,
            old(self).bytes == MAX_BYTES ==> out is None,
            registered(*old(self), *final(self), out, width, height,
                resized_rgba(image.width, image.height, image.pixels@, width, height)),
    {
        let columns: u32 = (width - 1) / CELL_W + 1;
        let count: u32 = (height - 1) / CELL_H + 1;
        assert(columns == cells(width as int, CELL_W as int));
        assert(count == cells(height as int, CELL_H as int));
        assert(count * 32 <= height + 31) by (nonlinear_arith)
            requires
                count as int == (height as int + 31) / 32,
        ;
        let canvas_width: u32 = columns * CELL_W;
        let canvas_height: u32 = count * CELL_H;
        let resized = resize_rgba(&image.pixels, image.width, image.height, width, height);
        let ghost resized_pixels = resized@;
        let mut canvas: Vec<u8> = vec![0u8; 4 * (canvas_width as usize) * (canvas_height as usize)];
        assert(canvas@ =~= Seq::new((4 * canvas_width * canvas_height) as nat, |_i: int| 0u8));
        overlay_rgba(&mut canvas, canvas_width, canvas_height, &resized, width, height);
        let ghost canvas_pixels = canvas@;
        assert(canvas_pixels == padded_canvas(columns, count, width, height, resized_pixels));
        assert(canvas@.len() == 4 * (columns * CELL_W) * CELL_H * count) by (nonlinear_arith)
            requires
                canvas@.len() == 4 * canvas_width * canvas_height,
                canvas_width == columns * CELL_W,
                canvas_height == count * CELL_H,
        ;
        let ghost escapes = stripe_escapes(canvas_pixels, columns, count as int);
        let mut payloads: Vec<String> = Vec::new();
        let mut index: u32 = 0;
        while index < count
            invariant
                old(self).wf(),
                self.rows@ == old(self).rows@,
                self.bytes == old(self).bytes,
                self.rendered@ == old(self).rendered@,
                index <= count,
                1 <= columns <= MAX_COLUMNS,
                canvas@ == canvas_pixels,
                canvas@.len() == 4 * (columns * CELL_W) * CELL_H * count,
                columns == cells(width as int, CELL_W as int),
                count == cells(height as int, CELL_H as int),
                resized_pixels.len() == 4 * width * height,
                resized_pixels == resized_rgba(image.width, image.height, image.pixels@, width, height),
                canvas_pixels == padded_canvas(columns, count, width, height, resized_pixels),
                escapes == stripe_escapes(canvas_pixels, columns, count as int),
                payloads@.len() == index,
                forall|i: int| 0 <= i < index ==> #[trigger] stripe_escape(canvas_pixels, columns, i) is Some,
                forall|i: int| 0 <= i < index ==> #[trigger] payloads@[i]@ == escapes[i],
            decreases count - index,
        {
            let payload = match stripe_row(&canvas, index, count, columns) {
                Some(p) => p,
                None => {
                    assert(!all_stripes_encode(canvas_pixels, columns, count as int)) by {
                        assert(stripe_escape(canvas_pixels, columns, index as int) is None);
                    }
                    assert(registered(*old(self), *self, None, width, height, resized_pixels));
                    return None;
                },
            };
            payloads.push(payload);
            index = index + 1;
        }
        let ghost added = payloads@;
        assert(row_texts(added) =~= escapes);
        proof {
            let last = added[count - 1];
            lemma_text_bytes_nonempty(last@);
            assert(added.drop_last().push(last) =~= added);
            lemma_total_bytes_push(added.drop_last(), last);
        }
        let out = self.commit_rows(columns, payloads);
        proof {
            if out is Some {
                let base = old(self).rows@.len() as int;
                assert(self.rows@ == old(self).rows@ + added);
                assert(row_texts(self.rows@) =~= row_texts(old(self).rows@) + escapes);
                assert(self.rows@.subrange(0, base) =~= old(self).rows@);
            }
            assert(all_stripes_encode(canvas_pixels, columns, count as int));
            assert(registered(*old(self), *self, out, width, height, resized_pixels));
        }
        out
    }

    /// Registers escapes as the next rows, `columns` cells wide: each gets
    /// the next marker, and the marker text (one line per row) is returned.
    /// This succeeds exactly when the markers do not run out and the escapes
    /// fit in the byte budget; otherwise nothing is registered.
    fn commit_rows(&mut self, columns: u32, payloads: Vec<String>) -> (out: Option<String>)
        requires
            old(self).wf(),
            1 <= columns,
        ensures
            final(self).wf(),
            final(self).rendered@ == old(self).rendered@,
            out is Some <==> (markers_fit(old(self).rows@.len() as int, payloads@.len() as int)
                && old(self).bytes + total_text_bytes(row_texts(payloads@)) <= MAX_BYTES),
            out is None ==> final(self).rows@ == old(self).rows@ && final(self).bytes == old(self).bytes,
            out matches Some(text) ==> {
                &&& final(self).rows@ == old(self).rows@ + payloads@
                &&& final(self).bytes == old(self).bytes + total_text_bytes(row_texts(payloads@))
                &&& text@ == marker_text(old(self).rows@.len() as int, payloads@.len() as nat, columns as int)
            },
    {
        let base: usize = self.rows.len();
        let start_bytes: usize = self.bytes;
        let n: usize = payloads.len();
        if n as u64 > 0x110000 - FIRST_MARKER as u64 - base as u64 {
            return None;
        }
        let mut text = String::new();
        let mut total: usize = 0;
        let mut over = false;
        let mut index: usize = 0;
        while index < n
            invariant
                old(self).wf(),
                self.rows@ == old(self).rows@,
                self.bytes == old(self).bytes,
                self.rendered@ == old(self).rendered@,
                base == self.rows@.len(),
                start_bytes == self.bytes,
                n == payloads@.len(),
                index <= n,
                1 <= columns,
                base <= 0x20000,
                FIRST_MARKER + base + n <= 0x10FFFF + 1,
                start_bytes <= MAX_BYTES,
                text@ == marker_text(base as int, index as nat, columns as int),
                !over ==> total == total_text_bytes(row_texts(payloads@.take(index as int))) && start_bytes + total <= MAX_BYTES,
                over ==> start_bytes + total_text_bytes(row_texts(payloads@.take(index as int))) > MAX_BYTES,
            decreases n - index,
        {
            let code: u64 = FIRST_MARKER as u64 + base as u64 + index as u64;
            let marker = match char_from_u32(code as u32) {
                Some(c) => c,
                None => return None,
            };
            proof {
                lemma_marker_char(marker, base + index);
            }
            push_marker_line(&mut text, marker, base, index, columns);
            let size = byte_len(payloads[index].as_str());
            proof {
                assert(payloads@.take(index + 1) =~= payloads@.take(index as int).push(payloads@[index as int]));
                lemma_total_bytes_push(payloads@.take(index as int), payloads@[index as int]);
            }
            if !over {
                if size > MAX_BYTES - start_bytes - total {
                    over = true;
                } else {
                    total = total + size;
                }
            }
            index = index + 1;
        }
        assert(payloads@.take(n as int) =~= payloads@);
        if over {
            return None;
        }
        self.bytes = start_bytes + total;
        let mut payloads = payloads;
        self.rows.append(&mut payloads);
        Some(text)
    }
}

/// Whether `n` more rows after the first `base` still get marker characters.
pub open spec fn markers_fit(base: int, n: int) -> bool {
    FIRST_MARKER + base + n <= 0x10FFFF + 1
}

/// Every marker that names a registered row resolves to that row's escape:
/// what `register` wrote under a marker, `row` gives back for it.
pub proof fn law_registered_marker_resolves(rows: Seq<String>, k: int)
    requires
        0 <= k < rows.len(),
        k < MARKER_SPAN,
    ensures
        resolve(row_texts(rows), seq![marker_char(k)]) == Some(rows[k]@),
{
    let c = marker_char(k);
    assert((c as u32) == FIRST_MARKER + k);
    assert(seq![c][0] == c);
}

/// A rendering, once remembered (made or failed), is what the cache serves
/// for its key from then on, whatever else it holds.
pub proof fn law_remembered_rendering_is_served(before: Cache, after: Cache, key: Seq<char>, result: Option<String>)
    requires
        after.rendered@ == before.rendered@.insert(key, result),
    ensures
        after.rendered@.contains_key(key),
        opt_text(after.rendered@[key]) == opt_text(result),
{
}

/// Registering or remembering only appends rows, so every symbol that
/// resolved before still resolves to the same escape afterwards: a marker
/// handed out by an earlier registration keeps naming its row.
pub proof fn law_markers_keep_resolving(before: Seq<String>, after: Seq<String>, symbol: Seq<char>)
    requires
        before.len() <= after.len(),
        after.subrange(0, before.len() as int) == before,
        resolve(row_texts(before), symbol) is Some,
    ensures
        resolve(row_texts(after), symbol) == resolve(row_texts(before), symbol),
{
    if symbol.len() == 1 && symbol[0] != PADDING_MARKER {
        let k = (symbol[0] as u32) - FIRST_MARKER;
        assert(after[k] == after.subrange(0, before.len() as int)[k]);
    }
}

/// The bytes of texts put together are the sum of their bytes.
pub proof fn lemma_total_text_bytes_concat(a: Seq<Seq<char>>, b: Seq<Seq<char>>)
    ensures
        total_text_bytes(a + b) == total_text_bytes(a) + total_text_bytes(b),
    decreases b.len(),
{
    if b.len() > 0 {
        lemma_total_text_bytes_concat(a, b.drop_last());
        assert((a + b).drop_last() =~= a + b.drop_last());
        assert((a + b).last() == b.last());
    }
}

/// A cache whose byte count is the total bytes of its rows keeps it so
/// through a registration, whether it succeeds or not.
pub proof fn law_register_keeps_byte_count(before: Cache, after: Cache, out: Option<String>, width: u32, height: u32, resized: Seq<u8>)
    requires
        registered(before, after, out, width, height, resized),
        out is None ==> after.rows@ == before.rows@ && after.bytes == before.bytes,
        before.bytes == total_text_bytes(row_texts(before.rows@)),
    ensures
        after.bytes == total_text_bytes(row_texts(after.rows@)),
{
    if out is Some {
        let columns = cells(width as int, CELL_W as int) as u32;
        let count = cells(height as int, CELL_H as int) as u32;
        let canvas = padded_canvas(columns, count, width, height, resized);
        lemma_total_text_bytes_concat(row_texts(before.rows@), stripe_escapes(canvas, columns, count as int));
    }
}

/// Every line of a registered image's marker text resolves through `row`:
/// the first character of line `i` to the escape of the image's stripe `i`,
/// an OSC 1337 escape that starts with its fixed prefix and ends with BEL,
/// and each padding character after it to an empty escape.
pub proof fn law_registered_lines_resolve(
    before: Cache,
    after: Cache,
    text: String,
    width: u32,
    height: u32,
    resized: Seq<u8>,
    i: int,
    j: int,
)
    requires
        registered(before, after, Some(text), width, height, resized),
        before.rows@.len() + cells(height as int, CELL_H as int) <= MARKER_SPAN,
        0 <= i < cells(height as int, CELL_H as int),
        0 <= j < cells(width as int, CELL_W as int),
    ensures
        ({
            let base = before.rows@.len() as int;
            let symbol = seq![marker_line(base + i, cells(width as int, CELL_W as int))[j]];
            let r = resolve(row_texts(after.rows@), symbol);
            &&& j == 0 ==> (r matches Some(e) && e.len() > osc_prefix().len()
                && e.subrange(0, osc_prefix().len() as int) == osc_prefix() && e.last() == '\x07')
            &&& j > 0 ==> r == Some(Seq::<char>::empty())
        }),
{
    let base = before.rows@.len() as int;
    let columns = cells(width as int, CELL_W as int) as u32;
    let count = cells(height as int, CELL_H as int) as u32;
    let canvas = padded_canvas(columns, count, width, height, resized);
    let escapes = stripe_escapes(canvas, columns, count as int);
    let line = marker_line(base + i, columns as int);
    if j == 0 {
        assert(line[0] == marker_char(base + i));
        assert(row_texts(after.rows@)[base + i] == escapes[i]);
        assert(stripe_escape(canvas, columns, i) is Some);
        let png = stripe_png(canvas, (columns * CELL_W) as u32, i).unwrap();
        let e = osc_row(columns as nat, base64_standard(png));
        assert(escapes[i] == e);
        assert(after.rows@.len() == base + count) by {
            assert(row_texts(after.rows@).len() == after.rows@.len());
        }
        law_registered_marker_resolves(after.rows@, base + i);
        let rest = decimal(columns as nat) + osc_infix() + base64_standard(png) + seq!['\x07'];
        assert(e =~= osc_prefix() + rest);
        assert(e.subrange(0, osc_prefix().len() as int) =~= osc_prefix());
    } else {
        assert(line[j] == PADDING_MARKER);
    }
}

/// One registration of an image at most `MAX_ROWS` cells high adds at most
/// `MAX_ROWS` rows.
pub proof fn law_register_adds_at_most_max_rows(
    before: Cache,
    after: Cache,
    out: Option<String>,
    width: u32,
    height: u32,
    resized: Seq<u8>,
)
    requires
        registered(before, after, out, width, height, resized),
        out is None ==> after.rows@ == before.rows@,
        height <= MAX_ROWS * CELL_H,
    ensures
        after.rows@.len() <= before.rows@.len() + MAX_ROWS,
{
    if out is Some {
        assert(row_texts(after.rows@).len() == after.rows@.len());
        assert(row_texts(before.rows@).len() == before.rows@.len());
    }
}

/// Each rendering remembers a new key and adds at most `MAX_ROWS` rows, so
/// the rows never outnumber `MAX_ROWS` per remembered rendering: with at
/// most `MAX_ASSETS` renderings, at most `MAX_ROWS * MAX_ASSETS` rows.
pub proof fn law_rows_bounded_by_renderings(before: Cache, after: Cache, key: Seq<char>, result: Option<String>)
    requires
        before.rendered@.dom().finite(),
        before.rows@.len() <= MAX_ROWS * before.rendered@.len(),
        !before.rendered@.contains_key(key),
        after.rendered@ == before.rendered@.insert(key, result),
        after.rows@.len() <= before.rows@.len() + MAX_ROWS,
    ensures
        after.rows@.len() <= MAX_ROWS * after.rendered@.len(),
        after.rendered@.len() <= MAX_ASSETS ==> after.rows@.len() <= MAX_ROWS * MAX_ASSETS,
{
    assert(after.rendered@.dom() =~= before.rendered@.dom().insert(key));
    vstd::set::axiom_set_insert_len(before.rendered@.dom(), key);
}

/// The file that a local image is read from, as its rendering key needs it:
/// the canonical path, the modification time as `{:?}` prints the optional
/// `SystemTime`, and the length in bytes.
#[derive(Debug)]
pub struct ImageFile {
    pub path: String,
    pub modified: String,
    pub len: u64,
}

/// The key under which a local image, shown `width` columns wide, is cached.
pub fn local_image_key(width: usize, file: &ImageFile) -> (key: String)
    ensures
        key@ == image_key(width as nat, file.path@, file.modified@, file.len as nat),
{
    let mut key = String::new();
    proof {
        reveal_strlit("image:");
        reveal_strlit(":");
    }
    key.append("image:");
    push_decimal(&mut key, width as u64);
    key.append(":");
    key.append(file.path.as_str());
    key.append(":");
    key.append(file.modified.as_str());
    key.append(":");
    push_decimal(&mut key, file.len);
    assert(key@ =~= image_key(width as nat, file.path@, file.modified@, file.len as nat));
    key
}

/// A local image's key changes when the file's modification time or length
/// changes: a changed file is never served its old rendering.
pub proof fn law_image_key_tracks_file(width: nat, path: Seq<char>, m1: Seq<char>, l1: nat, m2: Seq<char>, l2: nat)
    requires
        m1 != m2 || l1 != l2,
    ensures
        image_key(width, path, m1, l1) != image_key(width, path, m2, l2),
{
    let prefix = seq!['i', 'm', 'a', 'g', 'e', ':'] + decimal(width) + seq![':'] + path + seq![':'];
    let d1 = decimal(l1);
    let d2 = decimal(l2);
    let s1 = m1 + seq![':'] + d1;
    let s2 = m2 + seq![':'] + d2;
    assert(image_key(width, path, m1, l1) =~= prefix + s1);
    assert(image_key(width, path, m2, l2) =~= prefix + s2);
    if image_key(width, path, m1, l1) == image_key(width, path, m2, l2) {
        assert((prefix + s1).subrange(prefix.len() as int, (prefix + s1).len() as int) =~= s1);
        assert((prefix + s2).subrange(prefix.len() as int, (prefix + s2).len() as int) =~= s2);
        assert(s1 == s2);
        lemma_decimal_digits(l1);
        lemma_decimal_digits(l2);
        if m1.len() < m2.len() {
            let i = m2.len() as int;
            assert(s2[i] == ':');
            assert(s1[i] == d1[i - m1.len() - 1]);
            assert(48 <= (d1[i - m1.len() - 1] as u32) <= 57);
        } else if m2.len() < m1.len() {
            let i = m1.len() as int;
            assert(s1[i] == ':');
            assert(s2[i] == d2[i - m2.len() - 1]);
            assert(48 <= (d2[i - m2.len() - 1] as u32) <= 57);
        } else {
            assert(m1 =~= s1.subrange(0, m1.len() as int));
            assert(m2 =~= s2.subrange(0, m2.len() as int));
            assert(d1 =~= s1.subrange(m1.len() as int + 1, s1.len() as int));
            assert(d2 =~= s2.subrange(m2.len() as int + 1, s2.len() as int));
            lemma_decimal_injective(l1, l2);
        }
    }
}

/// Appends how an RGB colour prints with `{:?}`.
fn push_rgb(out: &mut String, c: (u8, u8, u8))
    ensures
        final(out)@ == old(out)@ + rgb_text(c),
{
    proof {
        reveal_strlit("(");
        reveal_strlit(", ");
        reveal_strlit(")");
    }
    out.append("(");
    push_decimal(out, c.0 as u64);
    out.append(", ");
    push_decimal(out, c.1 as u64);
    out.append(", ");
    push_decimal(out, c.2 as u64);
    out.append(")");
    assert(out@ =~= old(out)@ + rgb_text(c));
}

/// The key under which a TeX rendering is cached.
pub fn latex_render_key(
    width: usize,
    display: bool,
    foreground: (u8, u8, u8),
    background: (u8, u8, u8),
    source: &str,
) -> (key: String)
    ensures
        key@ == latex_key(width as nat, display, foreground, background, source@),
{
    let mut key = String::new();
    proof {
        reveal_strlit("tex:");
        reveal_strlit(":");
    }
    key.append("tex:");
    push_decimal(&mut key, width as u64);
    key.append(":");
    push_bool(&mut key, display);
    key.append(":");
    push_rgb(&mut key, foreground);
    key.append(":");
    push_rgb(&mut key, background);
    key.append(":");
    key.append(source);
    assert(key@ =~= latex_key(width as nat, display, foreground, background, source@));
    key
}

/// Whether rich media is on: `CODEXY_RICH_MEDIA` is `1`, the terminal is
/// iTerm2 (`TERM_PROGRAM` is `iTerm.app`), and it runs in neither tmux nor
/// zellij. A variable that is unset or not text is `None`.
pub fn enabled(rich_media: Option<String>, term_program: Option<String>, in_tmux: bool, in_zellij: bool) -> (on: bool)
    ensures
        on == (opt_text(rich_media) == Some(seq!['1'])
            && opt_text(term_program) == Some(seq!['i', 'T', 'e', 'r', 'm', '.', 'a', 'p', 'p'])
            && !in_tmux && !in_zellij),
{
    proof {
        reveal_strlit("1");
        reveal_strlit("iTerm.app");
    }
    let one = String::from_str("1");
    let iterm = String::from_str("iTerm.app");
    assert(one@ =~= seq!['1']);
    assert(iterm@ =~= seq!['i', 'T', 'e', 'r', 'm', '.', 'a', 'p', 'p']);
    let media_on = match &rich_media {
        Some(v) => *v == one,
        None => false,
    };
    let in_iterm = match &term_program {
        Some(v) => *v == iterm,
        None => false,
    };
    media_on && in_iterm && !in_tmux && !in_zellij
}

/// A local image, shown `width` columns wide: no image when rich media is
/// off or the file could not be resolved; otherwise the cache lookup of its
/// key. A rendering reads the image with at most `MAX_ROWS` rows.
pub fn local_image(cache: &Cache, enabled: bool, file: Option<ImageFile>, width: usize) -> (step: CacheStep)
    ensures
        !enabled || file is None ==> step matches CacheStep::Done(None),
        enabled && file is Some ==> {
            let f = file.unwrap();
            let key = image_key(width as nat, f.path@, f.modified@, f.len as nat);
            &&& cache.rendered@.contains_key(key) ==> (step matches CacheStep::Done(r) && opt_text(r) == opt_text(cache.rendered@[key]))
            &&& !cache.rendered@.contains_key(key) && (cache.rendered@.len() >= MAX_ASSETS || cache.bytes >= MAX_BYTES)
                ==> (step matches CacheStep::Done(None))
            &&& !cache.rendered@.contains_key(key) && !(cache.rendered@.len() >= MAX_ASSETS || cache.bytes >= MAX_BYTES)
                ==> (step matches CacheStep::Render(k) && k@ == key)
        },
{
    if !enabled {
        return CacheStep::Done(None);
    }
    match file {
        None => CacheStep::Done(None),
        Some(f) => cache.begin(local_image_key(width, &f)),
    }
}

/// How many rows a TeX rendering may take: `MAX_ROWS` for display math, one
/// for inline math.
pub fn latex_max_rows(display: bool) -> (rows: u32)
    ensures
        rows == if display { MAX_ROWS } else { 1 },
{
    if display { MAX_ROWS } else { 1 }
}

/// A TeX rendering of `source`: no image when rich media is off or the
/// source is longer than `MAX_LATEX_SOURCE_BYTES` bytes; otherwise the cache
/// lookup of its key.
pub fn latex(
    cache: &Cache,
    enabled: bool,
    source: &str,
    display: bool,
    width: usize,
    foreground: (u8, u8, u8),
    background: (u8, u8, u8),
) -> (step: CacheStep)
    ensures
        !enabled || text_bytes(source@) > MAX_LATEX_SOURCE_BYTES ==> step matches CacheStep::Done(None),
        enabled && text_bytes(source@) <= MAX_LATEX_SOURCE_BYTES ==> {
            let key = latex_key(width as nat, display, foreground, background, source@);
            &&& cache.rendered@.contains_key(key) ==> (step matches CacheStep::Done(r) && opt_text(r) == opt_text(cache.rendered@[key]))
            &&& !cache.rendered@.contains_key(key) && (cache.rendered@.len() >= MAX_ASSETS || cache.bytes >= MAX_BYTES)
                ==> (step matches CacheStep::Done(None))
            &&& !cache.rendered@.contains_key(key) && !(cache.rendered@.len() >= MAX_ASSETS || cache.bytes >= MAX_BYTES)
                ==> (step matches CacheStep::Render(k) && k@ == key)
        },
{
    if !enabled || byte_len(source) > MAX_LATEX_SOURCE_BYTES {
        return CacheStep::Done(None);
    }
    cache.begin(latex_render_key(width, display, foreground, background, source))
}

/// Whether an image file may be read: it is a file and its metadata gives a
/// length of at most `MAX_IMAGE_FILE_BYTES`.
pub fn image_file_acceptable(is_file: bool, len: Option<u64>) -> (ok: bool)
    ensures
        ok == (is_file && (len matches Some(n) && n <= MAX_IMAGE_FILE_BYTES)),
{
    is_file && match len {
        Some(n) => n <= MAX_IMAGE_FILE_BYTES,
        None => false,
    }
}

/// Whether an image of these dimensions may be decoded: neither is zero and
/// it has at most `MAX_IMAGE_PIXELS` pixels.
pub fn image_dimensions_acceptable(width: u32, height: u32) -> (ok: bool)
    ensures
        ok == (width != 0 && height != 0 && width * height <= MAX_IMAGE_PIXELS),
{
    let w = width as u64;
    let h = height as u64;
    assert(w * h <= 0xffff_ffff_ffff_ffff) by (nonlinear_arith)
        requires
            w <= 0xffff_ffff,
            h <= 0xffff_ffff,
    ;
    width != 0 && height != 0 && w * h <= MAX_IMAGE_PIXELS
}

} // verus!
