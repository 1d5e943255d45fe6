//! Content negotiation: the supported content kinds and the deterministic
//! choice among a body's declared media types — the preferred kind first,
//! else the first supported one, else none.

use vstd::prelude::*;
use crate::document::MediaTypeObject;
use crate::text::{spec_contains, str_contains};

verus! {

/// A content kind the synthesizer can produce a body or assertions for.
#[derive(Clone, Copy, Debug, PartialEq, Eq, Structural)]
pub enum ContentType {
    Text,
    Json,
}

impl Default for ContentType {
    /// JSON is the default content kind.
    fn default() -> (r: ContentType)
        ensures
            r == ContentType::Json,
    {
        ContentType::Json
    }
}

/// The marker substring of a content kind within a media-type string.
pub open spec fn spec_marker(ct: ContentType) -> Seq<char> {
    match ct {
        ContentType::Text => "text"@,
        ContentType::Json => "json"@,
    }
}

/// Whether a media-type string names this content kind.
pub open spec fn spec_matches_content(ct: ContentType, s: Seq<char>) -> bool {
    spec_contains(s, spec_marker(ct))
}

/// Whether a media-type string names any supported content kind.
pub open spec fn spec_supported(s: Seq<char>) -> bool {
    spec_contains(s, "text"@) || spec_contains(s, "json"@)
}

impl ContentType {
    /// Whether the media-type string `s` names this content kind.
    pub fn matches_string(&self, s: &String) -> (r: bool)
        ensures
            r == spec_matches_content(*self, s@),
    {
        match self {
            ContentType::Text => {
                let marker = "text".to_owned();
                str_contains(s, &marker)
            },
            ContentType::Json => {
                let marker = "json".to_owned();
                str_contains(s, &marker)
            },
        }
    }

    /// Whether the media-type string names any supported content kind.
    pub fn is_supported(content_type: &String) -> (r: bool)
        ensures
            r == spec_supported(content_type@),
    {
        let text_marker = "text".to_owned();
        let json_marker = "json".to_owned();
        str_contains(content_type, &text_marker) || str_contains(content_type, &json_marker)
    }

    /// The marker substring of this content kind.
    pub fn to_str(&self) -> (r: &'static str)
        ensures
            r@ == spec_marker(*self),
    {
        match self {
            ContentType::Text => "text",
            ContentType::Json => "json",
        }
    }

    /// The marker substrings of the supported content kinds, text first.
    pub fn supported_types() -> (r: Vec<String>)
        ensures
            r@.len() == 2,
            r@[0]@ == "text"@,
            r@[1]@ == "json"@,
    {
        let mut out: Vec<String> = Vec::new();
        out.push("text".to_owned());
        out.push("json".to_owned());
        out
    }

    /// The content kind a media-type string names: text wins over JSON where
    /// both markers occur, and a string naming neither is unsupported.
    pub fn from_string(content_type: &String) -> (r: Result<ContentType, String>)
        ensures
            spec_contains(content_type@, "text"@) ==> (r matches Ok(ct) && ct
                == ContentType::Text),
            !spec_contains(content_type@, "text"@) && spec_contains(content_type@, "json"@)
                ==> (r matches Ok(ct) && ct == ContentType::Json),
            !spec_supported(content_type@) ==> (r matches Err(m) && m@
                == "Unsupported content type"@),
    {
        let text_marker = "text".to_owned();
        let json_marker = "json".to_owned();
        if str_contains(content_type, &text_marker) {
            Ok(ContentType::Text)
        } else if str_contains(content_type, &json_marker) {
            Ok(ContentType::Json)
        } else {
            Err("Unsupported content type".to_owned())
        }
    }
}

/// The first index of a media type naming the preferred kind, or a negative
/// value.
pub open spec fn spec_first_matching(
    content: Seq<(String, MediaTypeObject)>,
    ct: ContentType,
) -> int
    decreases content.len(),
{
    if content.len() == 0 {
        -1
    } else if spec_matches_content(ct, content[0].0@) {
        0
    } else {
        let r = spec_first_matching(content.drop_first(), ct);
        if r < 0 {
            -1
        } else {
            r + 1
        }
    }
}

/// The first index of a media type naming any supported kind, or a negative
/// value.
pub open spec fn spec_first_supported(content: Seq<(String, MediaTypeObject)>) -> int
    decreases content.len(),
{
    if content.len() == 0 {
        -1
    } else if spec_supported(content[0].0@) {
        0
    } else {
        let r = spec_first_supported(content.drop_first());
        if r < 0 {
            -1
        } else {
            r + 1
        }
    }
}

/// The media type chosen for a body: the first entry naming the preferred
/// kind; else the first entry naming any supported kind, marked as a
/// fallback; else nothing.
pub open spec fn spec_select_content(
    content: Seq<(String, MediaTypeObject)>,
    preferred: ContentType,
) -> Option<(int, bool)> {
    let fm = spec_first_matching(content, preferred);
    if fm >= 0 {
        Some((fm, false))
    } else {
        let fs = spec_first_supported(content);
        if fs >= 0 {
            Some((fs, true))
        } else {
            None
        }
    }
}

/// Chooses the media type to synthesize against: the first entry naming the
/// preferred kind; else the first entry naming any supported kind, marked as
/// a fallback; else nothing.
pub fn select_content(content: &Vec<(String, MediaTypeObject)>, preferred: &ContentType) -> (r:
    Option<(usize, bool)>)
    ensures
        (match spec_select_content(content@, *preferred) {
            Some((i, fb)) => r matches Some(p) && p.0 == i && p.1 == fb && i < content@.len(),
            None => r is None,
        }),
{
    let ghost cseq = content@;
    let mut i: usize = 0;
    proof {
        assert(cseq.subrange(0, cseq.len() as int) =~= cseq);
        lemma_first_matching_bound(cseq, *preferred);
        lemma_first_supported_bound(cseq);
    }
    while i < content.len()
        invariant
            cseq == content@,
            i <= cseq.len(),
            spec_first_matching(cseq, *preferred) < 0 || spec_first_matching(cseq, *preferred)
                >= i,
            spec_first_matching(cseq, *preferred) < cseq.len(),
            spec_first_supported(cseq) < cseq.len(),
            forall|k: int|
                0 <= k < i ==> !spec_matches_content(*preferred, (#[trigger] cseq[k]).0@),
        decreases cseq.len() - i,
    {
        if preferred.matches_string(&content[i].0) {
            proof {
                lemma_first_matching_char(cseq, *preferred, i as int);
            }
            return Some((i, false));
        }
        i = i + 1;
        proof {
            lemma_first_matching_char2(cseq, *preferred, i as int);
        }
    }
    proof {
        lemma_first_matching_none(cseq, *preferred);
    }
    let mut j: usize = 0;
    while j < content.len()
        invariant
            cseq == content@,
            j <= cseq.len(),
            spec_first_matching(cseq, *preferred) < 0,
            spec_first_supported(cseq) < 0 || spec_first_supported(cseq) >= j,
            spec_first_supported(cseq) < cseq.len(),
            forall|k: int| 0 <= k < j ==> !spec_supported((#[trigger] cseq[k]).0@),
        decreases cseq.len() - j,
    {
        if ContentType::is_supported(&content[j].0) {
            proof {
                lemma_first_supported_char(cseq, j as int);
            }
            return Some((j, true));
        }
        j = j + 1;
        proof {
            lemma_first_supported_char2(cseq, j as int);
        }
    }
    proof {
        lemma_first_supported_none(cseq);
    }
    None
}

/// The first matching index stays below the list's length.
proof fn lemma_first_matching_bound(s: Seq<(String, MediaTypeObject)>, ct: ContentType)
    ensures
        spec_first_matching(s, ct) < s.len(),
    decreases s.len(),
{
    if s.len() > 0 && !spec_matches_content(ct, s[0].0@) {
        lemma_first_matching_bound(s.drop_first(), ct);
    }
}

/// The first supported index stays below the list's length.
proof fn lemma_first_supported_bound(s: Seq<(String, MediaTypeObject)>)
    ensures
        spec_first_supported(s) < s.len(),
    decreases s.len(),
{
    if s.len() > 0 && !spec_supported(s[0].0@) {
        lemma_first_supported_bound(s.drop_first());
    }
}

/// A matching entry after only non-matching ones is the first match.
proof fn lemma_first_matching_char(s: Seq<(String, MediaTypeObject)>, ct: ContentType, i: int)
    requires
        0 <= i < s.len(),
        forall|k: int| 0 <= k < i ==> !spec_matches_content(ct, (#[trigger] s[k]).0@),
        spec_matches_content(ct, s[i].0@),
    ensures
        spec_first_matching(s, ct) == i,
    decreases i,
{
    if i > 0 {
        assert(forall|k: int|
            0 <= k < i - 1 ==> s.drop_first()[k] == #[trigger] s[k + 1]);
        lemma_first_matching_char(s.drop_first(), ct, i - 1);
    }
}

/// Past `i` non-matching entries, the first match lies at `i` or beyond, or
/// nowhere.
proof fn lemma_first_matching_char2(s: Seq<(String, MediaTypeObject)>, ct: ContentType, i: int)
    requires
        0 <= i <= s.len(),
        forall|k: int| 0 <= k < i ==> !spec_matches_content(ct, (#[trigger] s[k]).0@),
    ensures
        spec_first_matching(s, ct) < 0 || spec_first_matching(s, ct) >= i,
    decreases i,
{
    if i > 0 && s.len() > 0 {
        assert(forall|k: int|
            0 <= k < i - 1 ==> s.drop_first()[k] == #[trigger] s[k + 1]);
        lemma_first_matching_char2(s.drop_first(), ct, i - 1);
    }
}

/// A list of only non-matching entries has no first match.
proof fn lemma_first_matching_none(s: Seq<(String, MediaTypeObject)>, ct: ContentType)
    requires
        forall|k: int| 0 <= k < s.len() ==> !spec_matches_content(ct, (#[trigger] s[k]).0@),
    ensures
        spec_first_matching(s, ct) < 0,
    decreases s.len(),
{
    if s.len() > 0 {
        assert(forall|k: int|
            0 <= k < s.len() - 1 ==> s.drop_first()[k] == #[trigger] s[k + 1]);
        lemma_first_matching_none(s.drop_first(), ct);
    }
}

/// A supported entry after only unsupported ones is the first supported.
proof fn lemma_first_supported_char(s: Seq<(String, MediaTypeObject)>, i: int)
    requires
        0 <= i < s.len(),
        forall|k: int| 0 <= k < i ==> !spec_supported((#[trigger] s[k]).0@),
        spec_supported(s[i].0@),
    ensures
        spec_first_supported(s) == i,
    decreases i,
{
    if i > 0 {
        assert(forall|k: int|
            0 <= k < i - 1 ==> s.drop_first()[k] == #[trigger] s[k + 1]);
        lemma_first_supported_char(s.drop_first(), i - 1);
    }
}

/// Past `i` unsupported entries, the first supported lies at `i` or beyond,
/// or nowhere.
proof fn lemma_first_supported_char2(s: Seq<(String, MediaTypeObject)>, i: int)
    requires
        0 <= i <= s.len(),
        forall|k: int| 0 <= k < i ==> !spec_supported((#[trigger] s[k]).0@),
    ensures
        spec_first_supported(s) < 0 || spec_first_supported(s) >= i,
    decreases i,
{
    if i > 0 && s.len() > 0 {
        assert(forall|k: int|
            0 <= k < i - 1 ==> s.drop_first()[k] == #[trigger] s[k + 1]);
        lemma_first_supported_char2(s.drop_first(), i - 1);
    }
}

/// A list of only unsupported entries has no first supported.
proof fn lemma_first_supported_none(s: Seq<(String, MediaTypeObject)>)
    requires
        forall|k: int| 0 <= k < s.len() ==> !spec_supported((#[trigger] s[k]).0@),
    ensures
        spec_first_supported(s) < 0,
    decreases s.len(),
{
    if s.len() > 0 {
        assert(forall|k: int|
            0 <= k < s.len() - 1 ==> s.drop_first()[k] == #[trigger] s[k + 1]);
        lemma_first_supported_none(s.drop_first());
    }
}

} // verus!
