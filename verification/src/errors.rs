use vstd::prelude::*;

verus! {

/// Everything that can go wrong while opening a package or using it.
///
/// Structural absences found while building the mandatory sections are fatal
/// for the open operation; lookup failures are returned by the individual
/// navigation or read operation that hit them.
#[derive(Debug, PartialEq, Eq)]
pub enum EpubError {
    /// The byte source could not be opened as a zip archive; carries the
    /// backend's message.
    ArchiveOpen(String),
    /// An archive entry exists but could not be read as text; carries the
    /// backend's message.
    ArchiveRead(String),
    /// The well-known container pointer entry is absent or not well-formed XML.
    MissingContainerXml,
    /// The container document holds no rootfile element.
    MissingRootfileElement,
    /// The rootfile element lacks the attribute naming the package descriptor.
    MissingFullPathAttribute,
    /// The package descriptor is not well-formed XML.
    XmlParseError,
    /// No package element was found in the descriptor.
    MissingPackageElement,
    /// The package element has no metadata child.
    MissingMetadataElement,
    /// The package element has no manifest child.
    MissingManifestElement,
    /// The package element has no spine child.
    MissingSpineElement,
    /// A mandatory attribute was absent from a manifest item or spine entry.
    XmlTextExtractionError,
    /// A requested archive entry does not exist; carries the requested path.
    ContentReadError(String),
    /// The spine is empty, so there is no current chapter; carries the cursor.
    InvalidChapterIndex(usize),
    /// A spine id has no manifest entry; carries the id.
    ManifestItemNotFound(String),
}

/// The mathematical value of an `EpubError`. Carried paths and ids are part
/// of the value; the backend messages carried by the archive errors are not,
/// since no contract of this crate pins them.
pub enum ErrV {
    ArchiveOpen,
    ArchiveRead,
    MissingContainerXml,
    MissingRootfileElement,
    MissingFullPathAttribute,
    XmlParseError,
    MissingPackageElement,
    MissingMetadataElement,
    MissingManifestElement,
    MissingSpineElement,
    XmlTextExtractionError,
    ContentReadError(Seq<char>),
    InvalidChapterIndex(int),
    ManifestItemNotFound(Seq<char>),
}

impl View for EpubError {
    type V = ErrV;

    open spec fn view(&self) -> ErrV {
        match self {
            EpubError::ArchiveOpen(_) => ErrV::ArchiveOpen,
            EpubError::ArchiveRead(_) => ErrV::ArchiveRead,
            EpubError::MissingContainerXml => ErrV::MissingContainerXml,
            EpubError::MissingRootfileElement => ErrV::MissingRootfileElement,
            EpubError::MissingFullPathAttribute => ErrV::MissingFullPathAttribute,
            EpubError::XmlParseError => ErrV::XmlParseError,
            EpubError::MissingPackageElement => ErrV::MissingPackageElement,
            EpubError::MissingMetadataElement => ErrV::MissingMetadataElement,
            EpubError::MissingManifestElement => ErrV::MissingManifestElement,
            EpubError::MissingSpineElement => ErrV::MissingSpineElement,
            EpubError::XmlTextExtractionError => ErrV::XmlTextExtractionError,
            EpubError::ContentReadError(p) => ErrV::ContentReadError(p@),
            EpubError::InvalidChapterIndex(i) => ErrV::InvalidChapterIndex(*i as int),
            EpubError::ManifestItemNotFound(s) => ErrV::ManifestItemNotFound(s@),
        }
    }
}

/// A non-fatal notice gathered while opening a package.
///
/// The table-of-contents discovery chain and the container's media-type check
/// degrade to these diagnostics instead of failing the open operation.
#[derive(Debug, Clone, Copy, PartialEq, Eq, Structural)]
pub enum Diagnostic {
    /// The rootfile's declared media type differs from the package media type.
    RootfileMediaType,
    /// The nav document named by the manifest could not be read.
    NavUnreadable,
    /// The nav document was read but yielded no entries.
    NavEmpty,
    /// The spine carries no TOC id attribute.
    NcxIdMissing,
    /// The spine names a TOC id that the manifest does not contain.
    NcxIdUnknown,
    /// The NCX entry named by the manifest could not be read.
    NcxUnreadable,
    /// The NCX entry was read but is not well-formed XML or has no navMap.
    NcxParseFailed,
    /// The NCX document parsed but yielded no entries.
    NcxEmpty,
    /// No source yielded a table of contents; navigation by TOC is unavailable.
    TocMissing,
}

} // verus!
