//! The rules of the upload side: content types, object keys and public URLs.

use crate::text::push_char;
use vstd::prelude::*;
use vstd::string::StringExecFns;

verus! {

/// The content type sent with an uploaded object.
#[derive(Clone, Copy, Debug, PartialEq, Eq, Structural)]
pub enum ContentType {
    Png,
    Jpeg,
    Gif,
    Webp,
    OctetStream,
}

impl ContentType {
    /// The name of the content type as it is sent.
    pub open spec fn mime(self) -> Seq<char> {
        match self {
            ContentType::Png => "image/png"@,
            ContentType::Jpeg => "image/jpeg"@,
            ContentType::Gif => "image/gif"@,
            ContentType::Webp => "image/webp"@,
            ContentType::OctetStream => "application/octet-stream"@,
        }
    }

    /// The name of the content type as it is sent.
    pub fn as_str(self) -> (name: &'static str)
        ensures
            name@ == self.mime(),
    {
        match self {
            ContentType::Png => "image/png",
            ContentType::Jpeg => "image/jpeg",
            ContentType::Gif => "image/gif",
            ContentType::Webp => "image/webp",
            ContentType::OctetStream => "application/octet-stream",
        }
    }
}

/// The content type of a file whose extension, in lower case, is `ext`.
pub open spec fn content_type_of_lowercase(ext: Seq<char>) -> ContentType {
    if ext == "png"@ {
        ContentType::Png
    } else if ext == "jpg"@ || ext == "jpeg"@ {
        ContentType::Jpeg
    } else if ext == "gif"@ {
        ContentType::Gif
    } else if ext == "webp"@ {
        ContentType::Webp
    } else {
        ContentType::OctetStream
    }
}

/// The lower-case form of a string, as the standard library computes it.
pub uninterp spec fn lowercase_of(s: Seq<char>) -> Seq<char>;

/// The lower-case form of a string.
///
/// Trusted: this is `str::to_lowercase` of the standard library, whose result
/// depends on the characters of its argument alone.
#[verifier::external_body]
fn to_lowercase(s: &str) -> (lower: String)
    ensures
        lower@ == lowercase_of(s@),
{
    s.to_lowercase()
}

/// The content type of a file whose extension is already in lower case.
pub fn content_type_for_lowercase(ext: &str) -> (kind: ContentType)
    ensures
        kind == content_type_of_lowercase(ext@),
{
    let ext = String::from_str(ext);
    if ext == String::from_str("png") {
        ContentType::Png
    } else if ext == String::from_str("jpg") || ext == String::from_str("jpeg") {
        ContentType::Jpeg
    } else if ext == String::from_str("gif") {
        ContentType::Gif
    } else if ext == String::from_str("webp") {
        ContentType::Webp
    } else {
        ContentType::OctetStream
    }
}

/// The content type inferred from a file's extension, whatever its case; a
/// file without an extension, or with an unknown one, is sent as
/// `application/octet-stream`.
pub fn content_type_for_extension(extension: Option<&str>) -> (kind: ContentType)
    ensures
        kind == match extension {
            Some(ext) => content_type_of_lowercase(lowercase_of(ext@)),
            None => ContentType::OctetStream,
        },
{
    match extension {
        Some(ext) => {
            let lower = to_lowercase(ext);
            content_type_for_lowercase(lower.as_str())
        },
        None => ContentType::OctetStream,
    }
}

/// A character of an object key: a backslash becomes a forward slash.
pub open spec fn key_char(c: char) -> char {
    if c == '\\' {
        '/'
    } else {
        c
    }
}

/// The object key of a relative path: the same characters, with every
/// backslash replaced by a forward slash.
pub fn forward_slashes(path: &str) -> (key: String)
    ensures
        key@ == path@.map_values(|c: char| key_char(c)),
{
    let mut key = String::new();
    for c in it: path.chars()
        invariant
            it.seq() == path@,
            key@.len() == it.index(),
            forall|i: int| 0 <= i < key@.len() ==> key@[i] == key_char(path@[i]),
    {
        if c == '\\' {
            push_char(&mut key, '/');
        } else {
            push_char(&mut key, c);
        }
    }
    proof {
        assert(key@ =~= path@.map_values(|c: char| key_char(c)));
    }
    key
}

/// The prefix under which objects are stored, or nothing.
pub open spec fn prefix_spec(prefix: Option<&str>) -> Seq<char> {
    match prefix {
        Some(p) => p@,
        None => Seq::empty(),
    }
}

/// The address of the storage service in a region.
pub open spec fn endpoint_spec(region: Seq<char>) -> Seq<char> {
    "https://"@ + region + ".digitaloceanspaces.com"@
}

/// The address at which an object is served directly.
pub open spec fn origin_url_spec(
    bucket: Seq<char>,
    region: Seq<char>,
    prefix: Seq<char>,
    file: Seq<char>,
) -> Seq<char> {
    "https://"@ + bucket + "."@ + region + ".digitaloceanspaces.com/"@ + prefix + file
}

/// The address at which an object is served through the delivery network.
pub open spec fn cdn_url_spec(
    bucket: Seq<char>,
    region: Seq<char>,
    prefix: Seq<char>,
    file: Seq<char>,
) -> Seq<char> {
    "https://"@ + bucket + "."@ + region + ".cdn.digitaloceanspaces.com/"@ + prefix + file
}

/// The address of the storage service in a region.
pub fn endpoint(region: &str) -> (url: String)
    ensures
        url@ == endpoint_spec(region@),
{
    let mut url = String::from_str("https://");
    url.append(region);
    url.append(".digitaloceanspaces.com");
    url
}

fn object_url(bucket: &str, region: &str, host: &str, prefix: Option<&str>, file: &str) -> (url:
    String)
    ensures
        url@ == "https://"@ + bucket@ + "."@ + region@ + host@ + prefix_spec(prefix) + file@,
{
    let mut url = String::from_str("https://");
    url.append(bucket);
    url.append(".");
    url.append(region);
    url.append(host);
    match prefix {
        Some(p) => {
            url.append(p);
        },
        None => {
            assert(url@ + Seq::<char>::empty() =~= url@);
        },
    }
    url.append(file);
    url
}

/// The address at which the object `file`, stored under `prefix`, is served
/// directly.
pub fn origin_url(bucket: &str, region: &str, prefix: Option<&str>, file: &str) -> (url: String)
    ensures
        url@ == origin_url_spec(bucket@, region@, prefix_spec(prefix), file@),
{
    object_url(bucket, region, ".digitaloceanspaces.com/", prefix, file)
}

/// The address at which the object `file`, stored under `prefix`, is served
/// through the delivery network.
pub fn cdn_url(bucket: &str, region: &str, prefix: Option<&str>, file: &str) -> (url: String)
    ensures
        url@ == cdn_url_spec(bucket@, region@, prefix_spec(prefix), file@),
{
    object_url(bucket, region, ".cdn.digitaloceanspaces.com/", prefix, file)
}

} // verus!
