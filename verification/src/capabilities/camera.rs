//! Camera capability: builds camera frames from the Webots `Camera` device.
//!
//! Webots always hands back BGRA. The component's declared mode decides which
//! contract encoding the frame carries, so the conversion to RGB or to
//! luminance happens here rather than in every consumer.

use super::SampledSpec;
use vstd::prelude::*;

verus! {

/// What a camera component declares it produces.
#[derive(Clone, Copy, Debug, PartialEq, Eq, Structural)]
pub enum CameraMode {
    Mono,
    Rgb,
}

/// How a frame's bytes are to be read.
#[derive(Clone, Copy, Debug, PartialEq, Eq, Structural)]
pub enum Encoding {
    L8,
    Rgb8,
}

/// One camera capability the robot declares.
#[derive(Clone, Debug)]
pub struct CameraSpec {
    pub sampled: SampledSpec,
    pub mode: CameraMode,
    pub width: u32,
    pub height: u32,
}

/// One camera image as the contract carries it.
#[derive(Clone, Debug, PartialEq, Eq)]
pub struct Frame {
    pub width: u32,
    pub height: u32,
    pub encoding: Encoding,
    pub data: Vec<u8>,
}

/// The image with the channels of every whole pixel in red, green, blue order.
pub open spec fn rgb_of(bgra: Seq<u8>) -> Seq<u8> {
    Seq::new((bgra.len() / 4) * 3, |i: int| bgra[i / 3 * 4 + (2 - i % 3)])
}

/// The luminance of one pixel under the BT.601 weights.
pub open spec fn luma(blue: u8, green: u8, red: u8) -> u8 {
    ((299 * red + 587 * green + 114 * blue) / 1000) as u8
}

/// The luminance of every whole pixel of the image.
pub open spec fn luma_of(bgra: Seq<u8>) -> Seq<u8> {
    Seq::new(bgra.len() / 4, |i: int| luma(bgra[4 * i], bgra[4 * i + 1], bgra[4 * i + 2]))
}

impl CameraSpec {
    /// The frame one BGRA image becomes, in the encoding the declared mode
    /// calls for.
    pub fn read(&self, bgra: &[u8]) -> (frame: Frame)
        ensures
            frame.width == self.width,
            frame.height == self.height,
            frame.encoding == match self.mode {
                CameraMode::Mono => Encoding::L8,
                CameraMode::Rgb => Encoding::Rgb8,
            },
            frame.data@ == match self.mode {
                CameraMode::Mono => luma_of(bgra@),
                CameraMode::Rgb => rgb_of(bgra@),
            },
    {
        let (encoding, data) = match self.mode {
            CameraMode::Mono => (Encoding::L8, bgra_to_luma(bgra)),
            CameraMode::Rgb => (Encoding::Rgb8, bgra_to_rgb(bgra)),
        };
        Frame { width: self.width, height: self.height, encoding, data }
    }
}

/// Drop the alpha channel and put the others in red, green, blue order. Bytes
/// after the last whole pixel are left out.
pub fn bgra_to_rgb(bgra: &[u8]) -> (rgb: Vec<u8>)
    ensures
        rgb@ == rgb_of(bgra@),
{
    let pixels: usize = bgra.len() / 4;
    let mut rgb: Vec<u8> = Vec::new();
    let mut pixel: usize = 0;
    while pixel < pixels
        invariant
            pixel <= pixels,
            pixels == bgra@.len() / 4,
            bgra@.len() <= usize::MAX,
            rgb@.len() == 3 * pixel,
            forall|i: int| 0 <= i < rgb@.len() ==> rgb@[i] == bgra@[i / 3 * 4 + (2 - i % 3)],
        decreases pixels - pixel,
    {
        let at: usize = pixel * 4;
        rgb.push(bgra[at + 2]);
        rgb.push(bgra[at + 1]);
        rgb.push(bgra[at]);
        pixel = pixel + 1;
    }
    assert(rgb@ =~= rgb_of(bgra@));
    rgb
}

/// Reduce every whole pixel to its luminance under the BT.601 weights.
pub fn bgra_to_luma(bgra: &[u8]) -> (luma_bytes: Vec<u8>)
    ensures
        luma_bytes@ == luma_of(bgra@),
{
    let pixels: usize = bgra.len() / 4;
    let mut luma_bytes: Vec<u8> = Vec::new();
    let mut pixel: usize = 0;
    while pixel < pixels
        invariant
            pixel <= pixels,
            pixels == bgra@.len() / 4,
            bgra@.len() <= usize::MAX,
            luma_bytes@.len() == pixel,
            forall|i: int|
                0 <= i < luma_bytes@.len() ==> luma_bytes@[i] == luma(
                    bgra@[4 * i],
                    bgra@[4 * i + 1],
                    bgra@[4 * i + 2],
                ),
        decreases pixels - pixel,
    {
        let at: usize = pixel * 4;
        let red: u32 = bgra[at + 2] as u32;
        let green: u32 = bgra[at + 1] as u32;
        let blue: u32 = bgra[at] as u32;
        luma_bytes.push(((299 * red + 587 * green + 114 * blue) / 1000) as u8);
        pixel = pixel + 1;
    }
    assert(luma_bytes@ =~= luma_of(bgra@));
    luma_bytes
}

/// The luminance weights sum to one: a pixel is never darker than its darkest
/// channel nor lighter than its lightest, so a grey pixel keeps its level.
pub proof fn law_luma_lies_between_the_channels(blue: u8, green: u8, red: u8, low: u8, high: u8)
    requires
        low <= blue <= high,
        low <= green <= high,
        low <= red <= high,
    ensures
        low <= luma(blue, green, red) <= high,
{
}

/// Every whole pixel of an image gives one byte of luminance, the mean of its
/// channels weighted 299 red, 587 green and 114 blue in a thousand, rounded
/// down.
pub proof fn law_luma_is_the_weighted_mean_of_the_channels(bgra: Seq<u8>, pixel: int)
    requires
        0 <= pixel < bgra.len() / 4,
    ensures
        luma_of(bgra).len() == bgra.len() / 4,
        ({
            let blue = bgra[4 * pixel];
            let green = bgra[4 * pixel + 1];
            let red = bgra[4 * pixel + 2];
            let luminance = luma_of(bgra)[pixel];
            &&& 1000 * luminance <= 299 * red + 587 * green + 114 * blue
            &&& 299 * red + 587 * green + 114 * blue < 1000 * luminance + 1000
        }),
{
}

/// A pixel of one channel alone gives that channel's share: green counts for
/// more than red, and red for more than blue.
pub proof fn law_each_channel_has_its_share(level: u8)
    ensures
        luma(0, 0, level) == 299 * level / 1000,
        luma(0, level, 0) == 587 * level / 1000,
        luma(level, 0, 0) == 114 * level / 1000,
{
}

/// Every whole pixel of an image gives its red, green and blue bytes, in that
/// order and unchanged, and nothing of its fourth.
pub proof fn law_rgb_keeps_the_colour_channels(bgra: Seq<u8>, pixel: int)
    requires
        0 <= pixel < bgra.len() / 4,
    ensures
        rgb_of(bgra).len() == 3 * (bgra.len() / 4),
        rgb_of(bgra)[3 * pixel] == bgra[4 * pixel + 2],
        rgb_of(bgra)[3 * pixel + 1] == bgra[4 * pixel + 1],
        rgb_of(bgra)[3 * pixel + 2] == bgra[4 * pixel],
{
}

/// Bytes after the last whole pixel change nothing.
pub proof fn law_only_whole_pixels_count(bgra: Seq<u8>, rest: Seq<u8>)
    requires
        bgra.len() % 4 == 0,
        rest.len() < 4,
    ensures
        rgb_of(bgra + rest) == rgb_of(bgra),
        luma_of(bgra + rest) == luma_of(bgra),
{
    assert(rgb_of(bgra + rest) =~= rgb_of(bgra));
    assert(luma_of(bgra + rest) =~= luma_of(bgra));
}

} // verus!
