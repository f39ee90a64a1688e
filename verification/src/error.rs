//! Errors of the image processor.
use vstd::prelude::*;

verus! {

/// `image::ImageError`, carried by [`AppError::Image`].
#[verifier::external_type_specification]
#[verifier::external_body]
pub struct ExImageError(image::ImageError);

/// `libloading::Error`, carried by [`AppError::Plugin`].
#[verifier::external_type_specification]
#[verifier::external_body]
pub struct ExLibloadingError(libloading::Error);

/// Kind of an I/O failure, as far as the image processor tells kinds apart.
#[derive(Debug, Clone, Copy, PartialEq, Eq, Structural)]
pub enum IoErrorKind {
    /// A file or directory does not exist (`std::io::ErrorKind::NotFound`).
    NotFound,
    /// Any other kind of I/O failure.
    Other,
}

/// An I/O failure: its kind and the message it reports.
#[derive(Debug, Clone)]
pub struct IoError {
    /// What went wrong.
    pub kind: IoErrorKind,
    /// The text the error displays.
    pub message: String,
}

/// Image processor errors.
#[derive(Debug)]
pub enum AppError {
    /// The plugin directory is not a directory.
    InvalidPluginPath,
    /// A parameter is unusable: blank plugin name, output that is not a PNG,
    /// or plugin parameters with an interior NUL byte.
    InvalidParams,
    /// Reading or writing a file failed, or a file is missing.
    Io(IoError),
    /// Decoding or encoding the image failed.
    Image(image::ImageError),
    /// The pixel buffer does not have `width * height * 4` bytes.
    InvalidImageBuffer,
    /// Loading the plugin or finding its entry point failed.
    Plugin(libloading::Error),
}

} // verus!
