//! Which thumbnail the program produces: an embedded one, a rendered one, or
//! an embedded one when there is one and a rendered one otherwise.

use vstd::prelude::*;

verus! {

/// The source to control which thumbnails to use.
#[derive(Debug, Clone, Copy, PartialEq, Eq, Structural)]
pub enum Source {
    /// Only use embedded thumbnails, fail if none found.
    Embedded,
    /// Only generate thumbnails from G-code, ignore embedded ones.
    Generate,
    /// Use embedded thumbnails if found, otherwise generate from G-code.
    Auto,
}

/// Whether the file is to be searched for embedded thumbnails.
pub open spec fn spec_wants_embedded(source: Source) -> bool {
    source is Embedded || source is Auto
}

/// Whether the file is to be searched for embedded thumbnails.
pub fn wants_embedded(source: Source) -> (b: bool)
    ensures
        b == spec_wants_embedded(source),
{
    match source {
        Source::Embedded | Source::Auto => true,
        Source::Generate => false,
    }
}

/// The thumbnail to produce.
pub enum ThumbnailChoice<T> {
    /// Use this embedded thumbnail.
    Embedded(T),
    /// Render a thumbnail from the G-code.
    Render,
}

/// Why no thumbnail can be produced.
#[derive(Debug, Clone, Copy, PartialEq, Eq, Structural)]
pub enum SourceError {
    /// Only embedded thumbnails were allowed, and the file has none.
    NoEmbeddedThumbnail,
}

impl SourceError {
    /// The message that reports this error.
    pub fn message(&self) -> (m: String)
        ensures
            m@ == "No embedded thumbnail found in the G-code file"@,
    {
        match self {
            SourceError::NoEmbeddedThumbnail => "No embedded thumbnail found in the G-code file".to_owned(),
        }
    }
}

/// Chooses the thumbnail to produce from the source option and the embedded
/// thumbnail found, if any.
pub fn choose_thumbnail<T>(source: Source, embedded: Option<T>) -> (r: Result<
    ThumbnailChoice<T>,
    SourceError,
>)
    ensures
        r == match source {
            Source::Embedded => match embedded {
                Some(t) => Ok(ThumbnailChoice::Embedded(t)),
                None => Err(SourceError::NoEmbeddedThumbnail),
            },
            Source::Generate => Ok(ThumbnailChoice::Render),
            Source::Auto => match embedded {
                Some(t) => Ok(ThumbnailChoice::Embedded(t)),
                None => Ok(ThumbnailChoice::Render),
            },
        },
{
    match source {
        Source::Embedded => match embedded {
            Some(t) => Ok(ThumbnailChoice::Embedded(t)),
            None => Err(SourceError::NoEmbeddedThumbnail),
        },
        Source::Generate => Ok(ThumbnailChoice::Render),
        Source::Auto => match embedded {
            Some(t) => Ok(ThumbnailChoice::Embedded(t)),
            None => Ok(ThumbnailChoice::Render),
        },
    }
}

} // verus!
