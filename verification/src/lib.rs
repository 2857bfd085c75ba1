pub mod cheatsh;
pub mod emoji;
pub mod encode;
pub mod gh;
pub mod host;
pub mod json;
pub mod number;
pub mod text;
pub mod ytm;
