//! The target's version and the sidebar layout that follows from it.

use crate::json::{as_text, json_model, member, member_of, parse_json, parsed_value, text_in};
use crate::numbers::{leading_number, parse_leading_number};
use crate::rewrite::{split, texts, trim};
use crate::text::{owned, split_text, trimmed};
use vstd::prelude::*;
use vstd::string::*;

verus! {

/// Where the sidebar patch lives: in the extension's own page, or in the
/// workbench page of later versions.
#[derive(Debug, Clone, Copy, PartialEq, Eq, Structural)]
pub enum SidebarPatchVariant {
    Legacy,
    Modern,
}

/// A version reduced to the three numbers that are compared.
#[derive(Debug, Clone, Copy, PartialEq, Eq, Structural)]
pub struct IdeVersion {
    pub major: u32,
    pub minor: u32,
    pub patch: u32,
}

/// What the manifest says of an installation.
#[derive(Debug)]
pub struct AntigravityVersionInfo {
    /// The manifest's `ideVersion`, where it has one.
    pub ide_version: Option<String>,
    /// `legacy` or `modern`.
    pub sidebar_variant: String,
}

/// The piece of a dotted version at position `at`, `0` where it has none.
pub open spec fn version_piece(pieces: Seq<Seq<char>>, at: int) -> Seq<char> {
    if at < pieces.len() {
        pieces[at]
    } else {
        seq!['0']
    }
}

/// The three leading numbers of a dotted version. A piece that does not
/// begin with a digit, or whose number does not fit, fails the whole.
pub open spec fn version_triplet(raw: Seq<char>) -> Option<(u32, u32, u32)> {
    let pieces = split_text(trimmed(raw), '.');
    let major = leading_number(version_piece(pieces, 0));
    let minor = leading_number(version_piece(pieces, 1));
    let patch = leading_number(version_piece(pieces, 2));
    if major is Some && minor is Some && patch is Some {
        Some((major->0, minor->0, patch->0))
    } else {
        None
    }
}

/// Major first, then minor, then patch.
pub open spec fn triplet_at_least(a: (u32, u32, u32), b: (u32, u32, u32)) -> bool {
    a.0 > b.0 || (a.0 == b.0 && (a.1 > b.1 || (a.1 == b.1 && a.2 >= b.2)))
}

/// The first version with the workbench layout.
pub open spec fn modern_threshold() -> (u32, u32, u32) {
    (1, 18, 3)
}

/// The layout of a version text: modern from the threshold on, legacy below
/// it and for every text that is no version.
pub open spec fn variant_of(raw: Option<Seq<char>>) -> SidebarPatchVariant {
    match raw {
        Some(text) => match version_triplet(text) {
            Some(t) => if triplet_at_least(t, modern_threshold()) {
                SidebarPatchVariant::Modern
            } else {
                SidebarPatchVariant::Legacy
            },
            None => SidebarPatchVariant::Legacy,
        },
        None => SidebarPatchVariant::Legacy,
    }
}

/// The `ideVersion` text of a manifest; `None` where the manifest is no JSON,
/// has no such member, or the member is no text.
pub open spec fn version_field(manifest: Seq<char>) -> Option<Seq<char>> {
    match parsed_value(manifest) {
        Some(doc) => match member_of(json_model(doc), "ideVersion"@) {
            Some(found) => text_in(found),
            None => None,
        },
        None => None,
    }
}

/// The layout that a manifest selects; legacy where it cannot be read.
pub open spec fn variant_of_manifest(manifest: Option<Seq<char>>) -> SidebarPatchVariant {
    match manifest {
        Some(content) => variant_of(version_field(content)),
        None => SidebarPatchVariant::Legacy,
    }
}

/// The view of an optional text.
pub open spec fn opt_text(s: Option<&str>) -> Option<Seq<char>> {
    match s {
        Some(t) => Some(t@),
        None => None,
    }
}

/// The view of an optional owned text.
pub open spec fn opt_string(s: Option<String>) -> Option<Seq<char>> {
    match s {
        Some(t) => Some(t@),
        None => None,
    }
}

/// Reads the number that a version component begins with.
pub fn parse_version_component(input: &str) -> (r: Option<u32>)
    ensures
        r == leading_number(input@),
{
    parse_leading_number(input)
}

/// Reads major, minor and patch; a missing minor or patch counts as zero.
pub fn parse_version_triplet(raw: &str) -> (r: Option<(u32, u32, u32)>)
    ensures
        r == version_triplet(raw@),
{
    let parts = split(trim(raw), '.');
    proof {
        reveal_strlit("0");
        assert("0"@ =~= seq!['0']);
        lemma_split_nonempty(trimmed(raw@), '.');
        assert(forall|i: int| 0 <= i < parts@.len() ==> parts@[i]@ == #[trigger] texts(parts@)[i]);
    }
    let major = match parse_version_component(parts[0].as_str()) {
        Some(n) => n,
        None => {
            return None;
        },
    };
    let second = if parts.len() > 1 {
        parts[1].as_str()
    } else {
        "0"
    };
    let minor = match parse_version_component(second) {
        Some(n) => n,
        None => {
            return None;
        },
    };
    let third = if parts.len() > 2 {
        parts[2].as_str()
    } else {
        "0"
    };
    let patch = match parse_version_component(third) {
        Some(n) => n,
        None => {
            return None;
        },
    };
    Some((major, minor, patch))
}

/// A split has at least one piece.
pub proof fn lemma_split_nonempty(s: Seq<char>, sep: char)
    ensures
        split_text(s, sep).len() >= 1,
    decreases s.len(),
{
    if s.len() > 0 {
        lemma_split_nonempty(s.drop_last(), sep);
    }
}

impl IdeVersion {
    /// The numbers of this version.
    pub open spec fn triplet(self) -> (u32, u32, u32) {
        (self.major, self.minor, self.patch)
    }

    /// Reads a version text.
    pub fn parse(raw: &str) -> (r: Option<Self>)
        ensures
            r is Some <==> version_triplet(raw@) is Some,
            r is Some ==> r->0.triplet() == version_triplet(raw@)->0,
    {
        match parse_version_triplet(raw) {
            Some((major, minor, patch)) => Some(IdeVersion { major, minor, patch }),
            None => None,
        }
    }

    /// Whether this version is `other` or later.
    pub fn at_least(&self, other: &IdeVersion) -> (r: bool)
        ensures
            r == triplet_at_least(self.triplet(), other.triplet()),
    {
        self.major > other.major || (self.major == other.major && (self.minor > other.minor || (
        self.minor == other.minor && self.patch >= other.patch)))
    }

    /// The first version with the workbench layout.
    pub fn modern_sidebar_threshold() -> (r: Self)
        ensures
            r.triplet() == modern_threshold(),
    {
        IdeVersion { major: 1, minor: 18, patch: 3 }
    }
}

/// The `ideVersion` text of a manifest.
pub fn read_ide_version(manifest: &str) -> (r: Option<String>)
    ensures
        opt_string(r) == version_field(manifest@),
{
    let doc = match parse_json(manifest) {
        Ok(doc) => doc,
        Err(_) => {
            return None;
        },
    };
    let found = match member(&doc, "ideVersion") {
        Some(found) => found,
        None => {
            return None;
        },
    };
    match as_text(found) {
        Some(t) => Some(owned(t)),
        None => None,
    }
}

/// The layout of a version text, by name.
pub fn detect_sidebar_variant(ide_version: Option<&str>) -> (r: &'static str)
    ensures
        r@ == "modern"@ <==> variant_of(opt_text(ide_version)) == SidebarPatchVariant::Modern,
        r@ == "legacy"@ <==> variant_of(opt_text(ide_version)) == SidebarPatchVariant::Legacy,
{
    proof {
        reveal_strlit("modern");
        reveal_strlit("legacy");
        assert("modern"@[0] != "legacy"@[0]);
    }
    let version = match ide_version {
        Some(raw) => IdeVersion::parse(raw),
        None => None,
    };
    match version {
        Some(v) => if v.at_least(&IdeVersion::modern_sidebar_threshold()) {
            "modern"
        } else {
            "legacy"
        },
        None => "legacy",
    }
}

/// The layout that a manifest selects. `None` stands for a manifest that
/// could not be read.
pub fn detect_sidebar_patch_variant(manifest: Option<&str>) -> (r: SidebarPatchVariant)
    ensures
        r == variant_of_manifest(opt_text(manifest)),
{
    let raw = match manifest {
        Some(content) => read_ide_version(content),
        None => None,
    };
    let version = match &raw {
        Some(text) => IdeVersion::parse(text.as_str()),
        None => None,
    };
    match version {
        Some(v) => if v.at_least(&IdeVersion::modern_sidebar_threshold()) {
            SidebarPatchVariant::Modern
        } else {
            SidebarPatchVariant::Legacy
        },
        None => SidebarPatchVariant::Legacy,
    }
}

/// What a manifest says of an installation, for display.
pub fn detect_antigravity_version(manifest: Option<&str>) -> (r: AntigravityVersionInfo)
    ensures
        opt_string(r.ide_version) == (match opt_text(manifest) {
            Some(content) => version_field(content),
            None => None,
        }),
        r.sidebar_variant@ == "modern"@ <==> variant_of_manifest(opt_text(manifest))
            == SidebarPatchVariant::Modern,
        r.sidebar_variant@ == "legacy"@ <==> variant_of_manifest(opt_text(manifest))
            == SidebarPatchVariant::Legacy,
{
    let ide_version = match manifest {
        Some(content) => read_ide_version(content),
        None => None,
    };
    let name = match &ide_version {
        Some(text) => detect_sidebar_variant(Some(text.as_str())),
        None => detect_sidebar_variant(None),
    };
    AntigravityVersionInfo { ide_version, sidebar_variant: owned(name) }
}

} // verus!
