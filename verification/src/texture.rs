//! Packed colours and wall textures.
//!
//! A colour is a `u32` with red in the most significant byte, then green,
//! blue and alpha. A texture is a square image of `TEXTURE_WIDTH` pixels a
//! side, stored row by row; wall code `c` is drawn with texture `c - 1`.

use vstd::prelude::*;

verus! {

/// Side length of a texture, in pixels.
pub const TEXTURE_WIDTH: usize = 512;

/// Number of pixels of a texture.
pub const TEXTURE_PIXELS: usize = 262144;

/// Number of textures: one per wall code.
pub const N_TEXTURES: usize = 9;

/// The colour with the given channels, each in `0..256`.
pub open spec fn pack(red: int, green: int, blue: int, alpha: int) -> int {
    red * 16777216 + green * 65536 + blue * 256 + alpha
}

/// Red channel of a colour.
pub open spec fn red_of(colour: int) -> int {
    colour / 16777216
}

/// Green channel of a colour.
pub open spec fn green_of(colour: int) -> int {
    (colour / 65536) % 256
}

/// Blue channel of a colour.
pub open spec fn blue_of(colour: int) -> int {
    (colour / 256) % 256
}

/// Alpha channel of a colour.
pub open spec fn alpha_of(colour: int) -> int {
    colour % 256
}

/// The colour at half brightness: red, green and blue halved, alpha kept.
pub open spec fn shaded(colour: int) -> int {
    pack(red_of(colour) / 2, green_of(colour) / 2, blue_of(colour) / 2, alpha_of(colour))
}

/// Whether `textures` is a full set: `N_TEXTURES` images of
/// `TEXTURE_PIXELS` pixels each.
pub open spec fn valid_textures(textures: Seq<Vec<u32>>) -> bool {
    &&& textures.len() == N_TEXTURES
    &&& forall|i: int| 0 <= i < textures.len() ==> (#[trigger] textures[i])@.len() == TEXTURE_PIXELS
}

/// The pixels that `bytes` describe, four bytes a pixel in the order red,
/// green, blue, alpha.
pub open spec fn packed_pixels(bytes: Seq<u8>) -> Seq<u32> {
    Seq::new(
        (bytes.len() / 4) as nat,
        |i: int| pack(bytes[4 * i] as int, bytes[4 * i + 1] as int, bytes[4 * i + 2] as int, bytes[4 * i + 3] as int) as u32,
    )
}

/// The texture that stands for the image `source`: its pixels when it is
/// present and has the size of a texture, a blank texture otherwise.
pub open spec fn texture_of(source: Option<Vec<u8>>) -> Seq<u32> {
    match source {
        Some(bytes) if bytes@.len() == 4 * TEXTURE_PIXELS => packed_pixels(bytes@),
        _ => Seq::new(TEXTURE_PIXELS as nat, |i: int| 0u32),
    }
}

/// Each channel of a packed colour is the channel it was packed from.
pub proof fn lemma_channels_of_pack(red: int, green: int, blue: int, alpha: int)
    requires
        0 <= red < 256,
        0 <= green < 256,
        0 <= blue < 256,
        0 <= alpha < 256,
    ensures
        0 <= pack(red, green, blue, alpha) <= u32::MAX,
        red_of(pack(red, green, blue, alpha)) == red,
        green_of(pack(red, green, blue, alpha)) == green,
        blue_of(pack(red, green, blue, alpha)) == blue,
        alpha_of(pack(red, green, blue, alpha)) == alpha,
{
    let low = green * 65536 + blue * 256 + alpha;
    let colour = red * 16777216 + low;
    assert(colour / 16777216 == red);
    let mid = red * 256 + green;
    assert(colour == mid * 65536 + (blue * 256 + alpha));
    assert(colour / 65536 == mid);
    assert(mid % 256 == green);
    let high = mid * 256 + blue;
    assert(colour == high * 256 + alpha);
    assert(colour / 256 == high);
    assert(high % 256 == blue);
    assert(colour % 256 == alpha);
}

/// Packs four channels into a colour.
pub fn pack_rgba(red: u8, green: u8, blue: u8, alpha: u8) -> (colour: u32)
    ensures
        colour == pack(red as int, green as int, blue as int, alpha as int),
        red_of(colour as int) == red,
        green_of(colour as int) == green,
        blue_of(colour as int) == blue,
        alpha_of(colour as int) == alpha,
{
    let r: u32 = red as u32;
    let g: u32 = green as u32;
    let b: u32 = blue as u32;
    let a: u32 = alpha as u32;
    assert((r << 24) | (g << 16) | (b << 8) | a == r * 16777216 + g * 65536 + b * 256 + a) by (bit_vector)
        requires
            r < 256,
            g < 256,
            b < 256,
            a < 256,
    ;
    proof {
        lemma_channels_of_pack(red as int, green as int, blue as int, alpha as int);
    }
    (r << 24) | (g << 16) | (b << 8) | a
}

/// Halves the brightness of a colour: the red, green and blue channels are
/// shifted right by one bit, alpha is kept.
pub fn shade(colour: u32) -> (dimmed: u32)
    ensures
        dimmed == shaded(colour as int),
        red_of(dimmed as int) == red_of(colour as int) / 2,
        green_of(dimmed as int) == green_of(colour as int) / 2,
        blue_of(dimmed as int) == blue_of(colour as int) / 2,
        alpha_of(dimmed as int) == alpha_of(colour as int),
{
    let r: u32 = colour >> 25;
    let g: u32 = ((colour >> 16) & 0xff) >> 1;
    let b: u32 = ((colour >> 8) & 0xff) >> 1;
    let a: u32 = colour & 0xff;
    assert(r == colour / 16777216 / 2 && g == (colour / 65536) % 256 / 2 && b == (colour / 256) % 256 / 2 && a
        == colour % 256) by (bit_vector)
        requires
            r == colour >> 25,
            g == ((colour >> 16) & 0xff) >> 1,
            b == ((colour >> 8) & 0xff) >> 1,
            a == colour & 0xff,
    ;
    assert((r << 24) | (g << 16) | (b << 8) | a == r * 16777216 + g * 65536 + b * 256 + a) by (bit_vector)
        requires
            r < 128,
            g < 128,
            b < 128,
            a < 256,
    ;
    proof {
        lemma_channels_of_pack(r as int, g as int, b as int, a as int);
    }
    (r << 24) | (g << 16) | (b << 8) | a
}

/// A texture with every pixel zero.
pub fn blank_texture() -> (texture: Vec<u32>)
    ensures
        texture@ == Seq::new(TEXTURE_PIXELS as nat, |i: int| 0u32),
{
    let texture: Vec<u32> = vec![0u32; TEXTURE_PIXELS];
    assert(texture@ =~= Seq::new(TEXTURE_PIXELS as nat, |i: int| 0u32));
    texture
}

/// Converts an image of `TEXTURE_WIDTH` by `TEXTURE_WIDTH` pixels, given as
/// bytes in the order red, green, blue, alpha, into a texture. An image of
/// any other size is refused.
pub fn texture_from_rgba(bytes: &Vec<u8>) -> (result: Option<Vec<u32>>)
    ensures
        result is Some <==> bytes@.len() == 4 * TEXTURE_PIXELS,
        result matches Some(texture) ==> texture@ == packed_pixels(bytes@),
{
    if bytes.len() != 4 * TEXTURE_PIXELS {
        return None;
    }
    let mut texture: Vec<u32> = Vec::with_capacity(TEXTURE_PIXELS);
    let mut i: usize = 0;
    while i < TEXTURE_PIXELS
        invariant
            i <= TEXTURE_PIXELS,
            bytes@.len() == 4 * TEXTURE_PIXELS,
            texture@.len() == i,
            forall|k: int| 0 <= k < i ==> #[trigger] texture@[k] == packed_pixels(bytes@)[k],
        decreases TEXTURE_PIXELS - i,
    {
        let colour: u32 = pack_rgba(bytes[4 * i], bytes[4 * i + 1], bytes[4 * i + 2], bytes[4 * i + 3]);
        texture.push(colour);
        i += 1;
    }
    assert(texture@ =~= packed_pixels(bytes@));
    Some(texture)
}

/// Builds the full set of textures from the images that could be read:
/// entry `i` of the result is the texture of `sources[i]`, and a blank
/// texture where that image is missing or has the wrong size.
pub fn load_textures(sources: &Vec<Option<Vec<u8>>>) -> (textures: Vec<Vec<u32>>)
    ensures
        valid_textures(textures@),
        forall|i: int|
            0 <= i < N_TEXTURES ==> (#[trigger] textures@[i])@ == (if i < sources@.len() {
                texture_of(sources@[i])
            } else {
                texture_of(None)
            }),
{
    let mut textures: Vec<Vec<u32>> = Vec::with_capacity(N_TEXTURES);
    let mut i: usize = 0;
    while i < N_TEXTURES
        invariant
            i <= N_TEXTURES,
            textures@.len() == i,
            forall|k: int| 0 <= k < i ==> (#[trigger] textures@[k])@.len() == TEXTURE_PIXELS,
            forall|k: int|
                0 <= k < i ==> (#[trigger] textures@[k])@ == (if k < sources@.len() {
                    texture_of(sources@[k])
                } else {
                    texture_of(None)
                }),
        decreases N_TEXTURES - i,
    {
        let loaded: Option<Vec<u32>> = if i < sources.len() {
            match &sources[i] {
                Some(bytes) => texture_from_rgba(bytes),
                None => None,
            }
        } else {
            None
        };
        let texture: Vec<u32> = match loaded {
            Some(texture) => texture,
            None => blank_texture(),
        };
        textures.push(texture);
        i += 1;
    }
    textures
}

} // verus!
