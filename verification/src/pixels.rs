//! Blocks of pixels: the order of their colours, and the form in which the clipboard takes them.

use vstd::prelude::*;

use crate::loader::are_whole_or_empty;

verus! {

/// How many bytes stand in front of the pixels on the clipboard.
pub const HEADER_SIZE: usize = 124;

/// Where the byte at a place comes from when the first and the third of each four bytes change
/// places; bytes behind the last four stay.
pub open spec fn swapped_place(i: int, len: int) -> int {
    if i >= len - len % 4 {
        i
    } else if i % 4 == 0 {
        i + 2
    } else if i % 4 == 2 {
        i - 2
    } else {
        i
    }
}

/// Pixels whose red and blue have changed places.
pub open spec fn swapped(s: Seq<u8>) -> Seq<u8> {
    Seq::new(s.len(), |i: int| s[swapped_place(i, s.len() as int)])
}

/// Lets red and blue change places.
pub fn swap_red_and_blue(pixels: &mut Vec<u8>)
    ensures
        final(pixels)@ == swapped(old(pixels)@),
{
    let ghost all = pixels@;
    let n: usize = pixels.len();
    let whole: usize = n - n % 4;
    let mut i: usize = 0;
    while i < whole
        invariant
            n == all.len(),
            pixels@.len() == n,
            whole == n - n % 4,
            i <= whole,
            i % 4 == 0,
            forall|j: int|
                0 <= j < i ==> #[trigger] pixels@[j] == all[swapped_place(j, n as int)],
            forall|j: int| i <= j < n ==> #[trigger] pixels@[j] == all[j],
        decreases whole - i,
    {
        let a: u8 = pixels[i];
        let b: u8 = pixels[i + 2];
        pixels.set(i, b);
        pixels.set(i + 2, a);
        i = i + 4;
    }
    assert(pixels@ =~= swapped(all));
}

/// Letting red and blue change places twice changes nothing.
pub proof fn swapping_twice_changes_nothing(s: Seq<u8>)
    ensures
        swapped(swapped(s)) == s,
{
    assert(swapped(swapped(s)) =~= s);
}

/// A number in four bytes, the lowest first.
pub open spec fn four_bytes(x: int) -> Seq<u8> {
    seq![
        (x % 256) as u8,
        ((x / 256) % 256) as u8,
        ((x / 65536) % 256) as u8,
        ((x / 16777216) % 256) as u8,
    ]
}

/// The number that stands for `-x` in 32 bits.
pub open spec fn negated(x: u32) -> int {
    if x == 0 {
        0
    } else {
        0x1_0000_0000 - x
    }
}

/// Zeros.
pub open spec fn zeros(n: nat) -> Seq<u8> {
    Seq::new(n, |i: int| 0u8)
}

/// What stands in front of the pixels on the clipboard: the size of this header, the width, the
/// height with a minus in front, one plane of 32 bits, the kind that has masks, and the masks
/// of red, green, blue and alpha.
pub open spec fn clipboard_header(width: u32, height: u32) -> Seq<u8> {
    four_bytes(124) + four_bytes(width as int) + four_bytes(negated(height)) + seq![
        1,
        0,
        32,
        0,
    ] + four_bytes(3) + zeros(20) + four_bytes(0x00ff_0000) + four_bytes(0x0000_ff00)
        + four_bytes(0x0000_00ff) + four_bytes(0xff00_0000) + zeros(68)
}

fn push_number(out: &mut Vec<u8>, x: u32)
    ensures
        final(out)@ == old(out)@ + four_bytes(x as int),
{
    let ghost before = out@;
    out.push((x % 256) as u8);
    out.push(((x / 256) % 256) as u8);
    out.push(((x / 65536) % 256) as u8);
    out.push(((x / 16777216) % 256) as u8);
    assert(out@ =~= before + four_bytes(x as int));
}

fn push_zeros(out: &mut Vec<u8>, n: usize)
    ensures
        final(out)@ == old(out)@ + zeros(n as nat),
{
    let ghost before = out@;
    assert(before + zeros(0) =~= before);
    for i in 0..n
        invariant
            out@ == before + zeros(i as nat),
    {
        out.push(0);
        assert(before + zeros((i + 1) as nat) =~= (before + zeros(i as nat)).push(0));
    }
}

/// What the clipboard takes for pixels: the header and the pixels. There is nothing for pixels
/// whose bytes are not four for each.
pub fn clipboard_block(width: u32, height: u32, rgba: &Vec<u8>) -> (r: Option<Vec<u8>>)
    ensures
        r is Some <==> rgba@.len() == width * height * 4,
        r matches Some(v) ==> v@ == clipboard_header(width, height) + rgba@,
        clipboard_header(width, height).len() == HEADER_SIZE,
{
    if !are_whole_or_empty(width, height, rgba.len()) {
        return None;
    }
    let mut out: Vec<u8> = Vec::new();
    push_number(&mut out, 124);
    push_number(&mut out, width);
    push_number(&mut out, 0u32.wrapping_sub(height));
    out.push(1);
    out.push(0);
    out.push(32);
    out.push(0);
    push_number(&mut out, 3);
    push_zeros(&mut out, 20);
    push_number(&mut out, 0x00ff_0000);
    push_number(&mut out, 0x0000_ff00);
    push_number(&mut out, 0x0000_00ff);
    push_number(&mut out, 0xff00_0000);
    push_zeros(&mut out, 68);
    assert(out@ =~= clipboard_header(width, height));
    out.extend_from_slice(rgba.as_slice());
    assert(out@ =~= clipboard_header(width, height) + rgba@);
    Some(out)
}

/// The size of an area, if it is one that pixels can be taken from.
pub fn capture_size(left: i32, top: i32, right: i32, bottom: i32) -> (r: Option<(u32, u32)>)
    requires
        i32::MIN <= right - left <= i32::MAX,
        i32::MIN <= bottom - top <= i32::MAX,
    ensures
        r is Some <==> right > left && bottom > top,
        r matches Some(s) ==> s.0 == right - left && s.1 == bottom - top,
{
    let width: i32 = right - left;
    let height: i32 = bottom - top;
    if width > 0 && height > 0 {
        Some((width as u32, height as u32))
    } else {
        None
    }
}

/// The size of a bitmap and the bytes that its pixels take, if it has any. A number of bytes
/// that is too large is the largest there is.
pub fn bitmap_size(known: bool, width: i32, height: i32) -> (r: Option<(u32, u32, u32)>)
    ensures
        r is Some <==> known && width > 0 && height > 0,
        r matches Some(s) ==> s.0 == width && s.1 == height && s.2 == if width * height * 4
            <= u32::MAX {
            width * height * 4
        } else {
            u32::MAX as int
        },
{
    if !known || width <= 0 || height <= 0 {
        return None;
    }
    let w: u32 = width as u32;
    let h: u32 = height as u32;
    assert(0 < width * height <= 0x7fff_ffff * 0x7fff_ffff) by (nonlinear_arith)
        requires
            0 < width <= 0x7fff_ffff,
            0 < height <= 0x7fff_ffff,
    ;
    let bytes: u64 = w as u64 * h as u64;
    let size: u32 = if bytes > 0x3fff_ffff {
        0xffff_ffff
    } else {
        (bytes * 4) as u32
    };
    Some((w, h, size))
}

/// In each pixel, the first and the third byte change places; the second and the fourth stay, and so
/// do bytes that make no whole pixel.
pub proof fn red_and_blue_change_places(s: Seq<u8>, q: int)
    requires
        0 <= q,
    ensures
        swapped(s).len() == s.len(),
        4 * q + 3 < s.len() ==> {
            &&& swapped(s)[4 * q] == s[4 * q + 2]
            &&& swapped(s)[4 * q + 1] == s[4 * q + 1]
            &&& swapped(s)[4 * q + 2] == s[4 * q]
            &&& swapped(s)[4 * q + 3] == s[4 * q + 3]
        },
        q < s.len() < q + 4 && s.len() % 4 == s.len() - q ==> swapped(s)[q] == s[q],
{
}

/// Four bytes hold a number, the lowest byte first; a number below zero is held as what it lacks to
/// two to the power of thirty-two.
pub proof fn four_bytes_hold_a_number(x: int, h: u32)
    requires
        0 <= x < 0x1_0000_0000,
    ensures
        ({
            let b = four_bytes(x);
            &&& b.len() == 4
            &&& b[0] + 256 * b[1] + 65536 * b[2] + 16777216 * b[3] == x
        }),
        h > 0 ==> negated(h) + h == 0x1_0000_0000,
        negated(0) == 0,
{
}

/// The header of a picture for the clipboard tells its own length, the width, the height from top to
/// bottom, one plane of thirty-two bits with bit fields, and the masks of red, green, blue and
/// alpha; all other bytes are zero.
pub proof fn the_header_tells_the_picture(width: u32, height: u32, i: int)
    ensures
        ({
            let h = clipboard_header(width, height);
            &&& h.len() == 124
            &&& h.subrange(0, 4) == four_bytes(124)
            &&& h.subrange(4, 8) == four_bytes(width as int)
            &&& h.subrange(8, 12) == four_bytes(negated(height))
            &&& h[12] == 1 && h[13] == 0 && h[14] == 32 && h[15] == 0
            &&& h.subrange(16, 20) == four_bytes(3)
            &&& h[40] == 0 && h[41] == 0 && h[42] == 255 && h[43] == 0
            &&& h[44] == 0 && h[45] == 255 && h[46] == 0 && h[47] == 0
            &&& h[48] == 255 && h[49] == 0 && h[50] == 0 && h[51] == 0
            &&& h[52] == 0 && h[53] == 0 && h[54] == 0 && h[55] == 255
            &&& 20 <= i < 40 || 56 <= i < 124 ==> h[i] == 0
        }),
{
    let h = clipboard_header(width, height);
    assert(h.subrange(0, 4) =~= four_bytes(124));
    assert(h.subrange(4, 8) =~= four_bytes(width as int));
    assert(h.subrange(8, 12) =~= four_bytes(negated(height)));
    assert(h.subrange(16, 20) =~= four_bytes(3));
    assert(h.subrange(40, 44) =~= four_bytes(0x00ff_0000));
    assert(h.subrange(44, 48) =~= four_bytes(0x0000_ff00));
    assert(h.subrange(48, 52) =~= four_bytes(0x0000_00ff));
    assert(h.subrange(52, 56) =~= four_bytes(0xff00_0000));
    assert(h[40] == h.subrange(40, 44)[0] && h[41] == h.subrange(40, 44)[1]);
    assert(h[42] == h.subrange(40, 44)[2] && h[43] == h.subrange(40, 44)[3]);
    assert(h[44] == h.subrange(44, 48)[0] && h[45] == h.subrange(44, 48)[1]);
    assert(h[46] == h.subrange(44, 48)[2] && h[47] == h.subrange(44, 48)[3]);
    assert(h[48] == h.subrange(48, 52)[0] && h[49] == h.subrange(48, 52)[1]);
    assert(h[50] == h.subrange(48, 52)[2] && h[51] == h.subrange(48, 52)[3]);
    assert(h[52] == h.subrange(52, 56)[0] && h[53] == h.subrange(52, 56)[1]);
    assert(h[54] == h.subrange(52, 56)[2] && h[55] == h.subrange(52, 56)[3]);
}

/// A capture has the size of its rectangle, and there is none of an empty one.
pub proof fn a_capture_has_the_size_of_its_rectangle(
    left: i32,
    top: i32,
    right: i32,
    bottom: i32,
    r: Option<(u32, u32)>,
)
    requires
        call_ensures(capture_size, (left, top, right, bottom), r),
    ensures
        right > left && bottom > top ==> r is Some && (r->0).0 == right - left && (r->0).1 == bottom
            - top,
        right <= left || bottom <= top ==> r is None,
{
}

} // verus!
