//! QR codes of links.

use image::DynamicImage;
use image::ImageFormat;
use image::Luma;
use qrcode::render::svg;
use qrcode::QrCode;
use vstd::prelude::*;

verus! {

/// The PNG image that the `qrcode` and `image` crates draw for a text, at
/// least 400 pixels each way, or the text of their error.
pub uninterp spec fn qr_png(url: Seq<char>) -> Result<Seq<u8>, Seq<char>>;

/// The SVG drawing that the `qrcode` crate makes for a text, at least 400
/// units each way, black on white, or the text of its error.
pub uninterp spec fn qr_svg(url: Seq<char>) -> Result<Seq<char>, Seq<char>>;

/// The view of an image or an error text.
pub open spec fn png_result_view(res: Result<Vec<u8>, String>) -> Result<Seq<u8>, Seq<char>> {
    match res {
        Ok(bytes) => Ok(bytes@),
        Err(e) => Err(e@),
    }
}

/// The view of a drawing or an error text.
pub open spec fn svg_result_view(res: Result<String, String>) -> Result<Seq<char>, Seq<char>> {
    match res {
        Ok(text) => Ok(text@),
        Err(e) => Err(e@),
    }
}

/// Draws the QR code of a text as a PNG image.
///
/// Trusted: `QrCode::new`, its renderer for `Luma<u8>` with
/// `min_dimensions(400, 400)`, and `DynamicImage::write_to` in the PNG format
/// into a buffer in memory. Encoding and drawing read nothing but the text,
/// so the contract names the result.
#[verifier::external_body]
pub fn generate_qr_code_png(url: &str) -> (res: Result<Vec<u8>, String>)
    ensures
        png_result_view(res) == qr_png(url@),
{
    let code = QrCode::new(url).map_err(|e| e.to_string())?;
    let image = code.render::<Luma<u8>>().min_dimensions(400, 400).build();
    let mut png_bytes: Vec<u8> = Vec::new();
    DynamicImage::ImageLuma8(image)
        .write_to(&mut std::io::Cursor::new(&mut png_bytes), ImageFormat::Png)
        .map_err(|e| e.to_string())?;
    Ok(png_bytes)
}

/// Draws the QR code of a text as an SVG document.
///
/// Trusted: `QrCode::new` and its SVG renderer with `min_dimensions(400,
/// 400)`, dark colour `#000000` and light colour `#ffffff`. The drawing
/// depends on the text alone, so the contract names the result.
#[verifier::external_body]
pub fn generate_qr_code_svg(url: &str) -> (res: Result<String, String>)
    ensures
        svg_result_view(res) == qr_svg(url@),
{
    let code = QrCode::new(url).map_err(|e| e.to_string())?;
    let svg_string = code
        .render()
        .min_dimensions(400, 400)
        .dark_color(svg::Color("#000000"))
        .light_color(svg::Color("#ffffff"))
        .build();
    Ok(svg_string)
}

} // verus!
