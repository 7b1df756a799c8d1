//! What a grid request sends besides its JSON frame: the instruction for a
//! 2x2 grid and the grid image as standard base64 text.

use vstd::prelude::*;

verus! {

/// The instruction sent with each 2x2 grid.
pub const GRID_PROMPT: &'static str = "Analyze this 2x2 grid of video frames (4 seconds total). Each quadrant represents 1 second: top-left=1st second, top-right=2nd second, bottom-left=3rd second, bottom-right=4th second. Identify which quadrants contain explicit NSFW content (nudity, sexual acts, graphic violence). Return ONLY a JSON array of quadrant numbers (1-4) that are explicit. Example: [1, 3] means top-left and bottom-left are explicit. If none are explicit, return [].";

/// The character of a 6-bit value in the standard base64 alphabet
/// (RFC 4648: `A-Z`, `a-z`, `0-9`, `+`, `/`).
pub open spec fn base64_char(v: int) -> char {
    if v < 26 {
        ('A' as int + v) as char
    } else if v < 52 {
        ('a' as int + (v - 26)) as char
    } else if v < 62 {
        ('0' as int + (v - 52)) as char
    } else if v == 62 {
        '+'
    } else {
        '/'
    }
}

/// Standard base64 with `=` padding: each three bytes become four
/// characters, a final one or two bytes become four characters padded with
/// `==` or `=`.
pub open spec fn base64_standard(b: Seq<u8>) -> Seq<char>
    decreases b.len(),
{
    let x = b[0] as int;
    let y = b[1] as int;
    let z = b[2] as int;
    if b.len() == 0 {
        Seq::empty()
    } else if b.len() == 1 {
        seq![base64_char(x / 4), base64_char((x % 4) * 16), '=', '=']
    } else if b.len() == 2 {
        seq![base64_char(x / 4), base64_char((x % 4) * 16 + y / 16), base64_char((y % 16) * 4), '=']
    } else {
        seq![
            base64_char(x / 4),
            base64_char((x % 4) * 16 + y / 16),
            base64_char((y % 16) * 4 + z / 64),
            base64_char(z % 64),
        ] + base64_standard(b.skip(3))
    }
}

/// Encodes with `base64::engine::general_purpose::STANDARD` (RFC 4648
/// alphabet, padded). Claimed: the text is `base64_standard` of the bytes.
/// The input is bounded so that the encoded length fits in a `usize`, as
/// `encode` requires.
#[verifier::external_body]
fn encode_standard(bytes: &Vec<u8>) -> (r: String)
    requires
        bytes@.len() <= usize::MAX / 2,
    ensures
        r@ == base64_standard(bytes@),
{
    base64::Engine::encode(&base64::engine::general_purpose::STANDARD, bytes.as_slice())
}

/// The grid image as the base64 text an inline-data request carries.
pub fn grid_image_data(frame_data: &Vec<u8>) -> (r: String)
    requires
        frame_data@.len() <= usize::MAX / 2,
    ensures
        r@ == base64_standard(frame_data@),
{
    encode_standard(frame_data)
}

} // verus!
