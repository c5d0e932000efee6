//! Profile metadata and the event that announces it.

use vstd::prelude::*;
use crate::error::NostrError;
use crate::event::{DraftData, EventDraft, KIND_METADATA};

verus! {

/// The fields of a profile. `picture`, `banner` and `website` are URLs.
#[derive(Debug, Clone)]
pub struct NostrMetadata {
    pub name: Option<String>,
    pub about: Option<String>,
    pub picture: Option<String>,
    pub banner: Option<String>,
    pub display_name: Option<String>,
    pub nip05: Option<String>,
    pub lud16: Option<String>,
    pub website: Option<String>,
}

/// The normal form of a URL as the WHATWG URL standard defines it, or `None`
/// where the text is no URL.
pub uninterp spec fn url_normal_form(text: Seq<char>) -> Option<Seq<char>>;

/// The JSON object that carries a profile: one member for each field that is
/// present, none for the others.
pub uninterp spec fn metadata_json(
    name: Option<Seq<char>>,
    display_name: Option<Seq<char>>,
    about: Option<Seq<char>>,
    website: Option<Seq<char>>,
    picture: Option<Seq<char>>,
    banner: Option<Seq<char>>,
    nip05: Option<Seq<char>>,
    lud16: Option<Seq<char>>,
) -> Seq<char>;

/// An optional URL field is absent or holds a URL.
pub open spec fn url_field_ok(field: Option<Seq<char>>) -> bool {
    field matches Some(text) ==> url_normal_form(text) is Some
}

/// An optional URL field with its URL, if any, in normal form.
pub open spec fn url_field_value(field: Option<Seq<char>>) -> Option<Seq<char>> {
    match field {
        Some(text) => url_normal_form(text),
        None => None,
    }
}

impl NostrMetadata {
    /// Every URL field that is present holds a URL.
    pub open spec fn urls_ok(&self) -> bool {
        &&& url_field_ok(self.picture.deep_view())
        &&& url_field_ok(self.banner.deep_view())
        &&& url_field_ok(self.website.deep_view())
    }

    /// The content of the event that announces this profile.
    pub open spec fn content(&self) -> Seq<char> {
        metadata_json(
            self.name.deep_view(),
            self.display_name.deep_view(),
            self.about.deep_view(),
            url_field_value(self.website.deep_view()),
            url_field_value(self.picture.deep_view()),
            url_field_value(self.banner.deep_view()),
            self.nip05.deep_view(),
            self.lud16.deep_view(),
        )
    }
}

/// Parses a URL with `nostr::Url::parse` and prints it again.
///
/// Trusted: the outcome is `url_normal_form` of the text. On failure the
/// text of the outside error is returned.
#[verifier::external_body]
fn normalize_url(text: &str) -> (r: Result<String, String>)
    ensures
        r is Ok <==> url_normal_form(text@) is Some,
        r matches Ok(url) ==> url_normal_form(text@) == Some(url@),
{
    match nostr::Url::parse(text) {
        Ok(url) => Ok(String::from(url)),
        Err(e) => Err(e.to_string()),
    }
}

/// Fills a `nostr::Metadata` with the fields as they stand and serializes it
/// with `JsonUtil::as_json`, as `nostr::EventBuilder::metadata` does.
///
/// Trusted: the text is `metadata_json` of the eight fields.
#[verifier::external_body]
fn serialize_metadata(metadata: NostrMetadata) -> (json: String)
    ensures
        json@ == metadata_json(
            metadata.name.deep_view(),
            metadata.display_name.deep_view(),
            metadata.about.deep_view(),
            metadata.website.deep_view(),
            metadata.picture.deep_view(),
            metadata.banner.deep_view(),
            metadata.nip05.deep_view(),
            metadata.lud16.deep_view(),
        ),
{
    let filled = nostr::Metadata {
        name: metadata.name,
        display_name: metadata.display_name,
        about: metadata.about,
        website: metadata.website,
        picture: metadata.picture,
        banner: metadata.banner,
        nip05: metadata.nip05,
        lud16: metadata.lud16,
        ..nostr::Metadata::new()
    };
    nostr::JsonUtil::as_json(&filled)
}

/// Brings an optional URL field into normal form.
fn normalize_url_field(field: Option<String>) -> (r: Result<Option<String>, NostrError>)
    ensures
        match r {
            Ok(value) => url_field_ok(field.deep_view()) && value.deep_view() == url_field_value(
                field.deep_view(),
            ),
            Err(e) => !url_field_ok(field.deep_view()) && e is InvalidUrl,
        },
{
    match field {
        None => Ok(None),
        Some(text) => match normalize_url(text.as_str()) {
            Ok(url) => Ok(Some(url)),
            Err(reason) => Err(NostrError::InvalidUrl(reason)),
        },
    }
}

/// Drafts the event that announces a profile: an event of the metadata kind,
/// without tags, whose content is the profile as JSON with its URLs in
/// normal form.
///
/// Fails with `InvalidUrl` exactly when `picture`, `banner` or `website` is
/// present and is no URL; nothing is drafted then.
pub fn build_metadata(metadata: NostrMetadata) -> (r: Result<EventDraft, NostrError>)
    ensures
        match r {
            Ok(draft) => metadata.urls_ok() && draft@ == (DraftData {
                kind: KIND_METADATA,
                tags: Seq::empty(),
                content: metadata.content(),
            }),
            Err(e) => !metadata.urls_ok() && e is InvalidUrl,
        },
{
    let picture = match normalize_url_field(metadata.picture) {
        Ok(value) => value,
        Err(e) => {
            return Err(e);
        },
    };
    let banner = match normalize_url_field(metadata.banner) {
        Ok(value) => value,
        Err(e) => {
            return Err(e);
        },
    };
    let website = match normalize_url_field(metadata.website) {
        Ok(value) => value,
        Err(e) => {
            return Err(e);
        },
    };
    let normal = NostrMetadata {
        name: metadata.name,
        about: metadata.about,
        picture,
        banner,
        display_name: metadata.display_name,
        nip05: metadata.nip05,
        lud16: metadata.lud16,
        website,
    };
    let content = serialize_metadata(normal);
    let tags: Vec<Vec<String>> = Vec::new();
    assert(tags.deep_view() =~= Seq::empty());
    Ok(EventDraft { kind: KIND_METADATA, tags, content })
}

} // verus!
