//! Short links: what may be shortened, the codes that stand for links, and
//! their QR codes.

pub mod qr;
pub mod shortener;

pub use qr::generate_qr_code_png;
pub use qr::generate_qr_code_svg;
pub use shortener::generate_short_code;
pub use shortener::validate_url;
