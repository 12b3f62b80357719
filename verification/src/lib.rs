pub mod archive;
pub mod epub;
pub mod errors;
pub mod html;
pub mod metadata;
pub mod navigation;
pub mod opf;
pub mod paths;
pub mod strutil;
pub mod toc;
pub mod xml;
