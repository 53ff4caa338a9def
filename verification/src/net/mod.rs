pub mod base64_codec;
pub mod http_tokens;
pub mod url_parts;
