//! Telling the format of a subtitle file, as the `subparse` crate does, and
//! accepting SubRip alone.

use vstd::prelude::*;

verus! {

/// The subtitle formats that `subparse` tells apart.
#[derive(Clone, Copy, Debug, PartialEq, Eq, Structural)]
pub enum SubtitleFormat {
    /// `.srt`
    SubRip,
    /// `.ssa` and `.ass`
    SubStationAlpha,
    /// `.idx`
    VobSubIdx,
    /// `.sub`, binary
    VobSubSub,
    /// `.sub`, text
    MicroDVD,
}

/// Why a file is not taken as input.
#[derive(Clone, Copy, Debug, PartialEq, Eq, Structural)]
pub enum FormatError {
    /// Neither the extension nor the content tells a format.
    Unknown,
    /// The file has a format, and it is not SubRip.
    NotSubRip,
}

/// The four bytes that a binary `.sub` file starts with.
pub open spec fn vobsub_magic() -> Seq<u8> {
    seq![0x00u8, 0x00u8, 0x01u8, 0xbau8]
}

/// True when `ext` is the three letters `a`, `b`, `c`.
pub open spec fn spells(ext: Seq<char>, a: char, b: char, c: char) -> bool {
    ext.len() == 3 && ext[0] == a && ext[1] == b && ext[2] == c
}

/// The format of a file with the given extension (without its dot, if the
/// file has one at all) and content. The extension decides; the content is
/// looked at for `sub` alone, which two formats share.
pub open spec fn detected_format(extension: Option<Seq<char>>, content: Seq<u8>) -> Option<
    SubtitleFormat,
> {
    match extension {
        None => None,
        Some(ext) => if spells(ext, 's', 'u', 'b') {
            if content.len() >= 4 && content.subrange(0, 4) == vobsub_magic() {
                Some(SubtitleFormat::VobSubSub)
            } else {
                Some(SubtitleFormat::MicroDVD)
            }
        } else if spells(ext, 's', 'r', 't') {
            Some(SubtitleFormat::SubRip)
        } else if spells(ext, 's', 's', 'a') || spells(ext, 'a', 's', 's') {
            Some(SubtitleFormat::SubStationAlpha)
        } else if spells(ext, 'i', 'd', 'x') {
            Some(SubtitleFormat::VobSubIdx)
        } else {
            None
        },
    }
}

/// The characters of an extension, if there is one.
pub open spec fn extension_view(extension: Option<&str>) -> Option<Seq<char>> {
    match extension {
        Some(ext) => Some(ext@),
        None => None,
    }
}

/// `subparse::get_subtitle_format` on the extension and the content, its
/// answer handed out as a `SubtitleFormat` of this library. Trusted: it
/// compares the extension with `sub`, `srt`, `ssa`, `ass` and `idx`, and for
/// `sub` the first four bytes of the content with those of a binary file.
#[verifier::external_body]
fn detect(extension: Option<&str>, content: &[u8]) -> (format: Option<SubtitleFormat>)
    ensures
        format == detected_format(extension_view(extension), content@),
{
    match subparse::get_subtitle_format(extension.map(|e| e.as_ref()), content) {
        Some(subparse::SubtitleFormat::SubRip) => Some(SubtitleFormat::SubRip),
        Some(subparse::SubtitleFormat::SubStationAlpha) => Some(SubtitleFormat::SubStationAlpha),
        Some(subparse::SubtitleFormat::VobSubIdx) => Some(SubtitleFormat::VobSubIdx),
        Some(subparse::SubtitleFormat::VobSubSub) => Some(SubtitleFormat::VobSubSub),
        Some(subparse::SubtitleFormat::MicroDVD) => Some(SubtitleFormat::MicroDVD),
        None => None,
    }
}

/// Accepts a file as input when its format is SubRip, and says why it is not
/// accepted otherwise.
pub fn require_subrip(extension: Option<&str>, content: &[u8]) -> (accepted: Result<
    (),
    FormatError,
>)
    ensures
        match accepted {
            Ok(_) => detected_format(extension_view(extension), content@) == Some(
                SubtitleFormat::SubRip,
            ),
            Err(FormatError::Unknown) => detected_format(extension_view(extension), content@)
                is None,
            Err(FormatError::NotSubRip) => detected_format(extension_view(extension), content@)
                is Some && detected_format(extension_view(extension), content@) != Some(
                SubtitleFormat::SubRip,
            ),
        },
{
    match detect(extension, content) {
        Some(SubtitleFormat::SubRip) => Ok(()),
        Some(_) => Err(FormatError::NotSubRip),
        None => Err(FormatError::Unknown),
    }
}

/// A file is accepted exactly when its extension is `srt`, whatever it
/// holds.
pub proof fn lemma_subrip_by_extension(extension: Option<Seq<char>>, content: Seq<u8>)
    ensures
        detected_format(extension, content) == Some(SubtitleFormat::SubRip) <==> extension
            == Some("srt"@),
{
    reveal_strlit("srt");
    if extension is Some {
        let ext = extension->0;
        if spells(ext, 's', 'r', 't') {
            assert(ext =~= "srt"@);
        }
    }
}

} // verus!
