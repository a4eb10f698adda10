//! Publications and their categories: the rules on names, keys, statuses and identifiers,
//! how an update merges with what is stored, and when a file may be linked.
use vstd::prelude::*;

use crate::error::ApiError;
use crate::text::{optional_text, lower, opt_str_view, opt_view, owned, str_eq, to_ascii_lowercase, trim, trimmed};
use crate::timestamp::UtcTimestamp;

verus! {

/// What an audit entry about a publication records.
#[derive(Debug, Clone, Copy, PartialEq, Eq, Structural)]
pub enum AuditAction {
    Create,
    Update,
    Delete,
}

impl AuditAction {
    /// The stored name of the action.
    pub fn as_str(self) -> (r: &'static str)
        ensures
            r@ == match self {
                AuditAction::Create => "CREATE"@,
                AuditAction::Update => "UPDATE"@,
                AuditAction::Delete => "DELETE"@,
            },
    {
        match self {
            AuditAction::Create => "CREATE",
            AuditAction::Update => "UPDATE",
            AuditAction::Delete => "DELETE",
        }
    }
}

/// A required text, trimmed; blank is a bad request.
pub open spec fn required_spec(value: Seq<char>) -> Result<Seq<char>, ApiError> {
    if trimmed(value).len() == 0 {
        Err(ApiError::BadRequest)
    } else {
        Ok(trimmed(value))
    }
}

fn required(value: &str) -> (r: Result<String, ApiError>)
    ensures
        match required_spec(value@) {
            Ok(t) => r matches Ok(s) && s@ == t,
            Err(e) => r == Err::<String, ApiError>(e),
        },
{
    let t = trim(value);
    if t.unicode_len() == 0 {
        return Err(ApiError::BadRequest);
    }
    Ok(owned(t))
}

/// A required text, such as a title or a category name.
pub fn normalize_required_text(value: &str) -> (r: Result<String, ApiError>)
    ensures
        match required_spec(value@) {
            Ok(t) => r matches Ok(s) && s@ == t,
            Err(e) => r == Err::<String, ApiError>(e),
        },
{
    required(value)
}

/// An identifier given in a request.
pub fn normalize_id(value: &str) -> (r: Result<String, ApiError>)
    ensures
        match required_spec(value@) {
            Ok(t) => r matches Ok(s) && s@ == t,
            Err(e) => r == Err::<String, ApiError>(e),
        },
{
    required(value)
}

/// An optional text given by value: trimmed, none when blank.
pub fn normalize_optional_text_value(raw: String) -> (r: Option<String>)
    ensures
        opt_view(r) == optional_text(Some(raw@)),
{
    let t = trim(raw.as_str());
    if t.unicode_len() == 0 {
        None
    } else {
        Some(owned(t))
    }
}

/// An optional text: trimmed, none when absent or blank.
pub fn normalize_optional_text(value: Option<String>) -> (r: Option<String>)
    ensures
        opt_view(r) == optional_text(opt_view(value)),
{
    match value {
        Some(raw) => normalize_optional_text_value(raw),
        None => None,
    }
}

/// The status of a publication: `draft`, `published` or `archived`, trimmed and
/// lower-cased.
pub open spec fn publication_status_spec(value: Seq<char>) -> Result<Seq<char>, ApiError> {
    let v = lower(trimmed(value));
    if v == "draft"@ || v == "published"@ || v == "archived"@ {
        Ok(v)
    } else {
        Err(ApiError::BadRequest)
    }
}

/// Reads the status of a publication.
pub fn normalize_publication_status(value: &str) -> (r: Result<String, ApiError>)
    ensures
        match publication_status_spec(value@) {
            Ok(t) => r matches Ok(s) && s@ == t,
            Err(e) => r == Err::<String, ApiError>(e),
        },
{
    let v = to_ascii_lowercase(trim(value));
    if str_eq(v.as_str(), "draft") || str_eq(v.as_str(), "published") || str_eq(v.as_str(), "archived") {
        Ok(v)
    } else {
        Err(ApiError::BadRequest)
    }
}

/// Whether a character may appear in a category key: a lower-case ASCII letter, a digit
/// or a hyphen.
pub open spec fn key_char(c: char) -> bool {
    ('a' <= c && c <= 'z') || ('0' <= c && c <= '9') || c == '-'
}

/// The key of a category: trimmed and lower-cased, not empty, made of lower-case letters,
/// digits and hyphens, and neither starting nor ending with a hyphen.
pub open spec fn category_key_spec(value: Seq<char>) -> Result<Seq<char>, ApiError> {
    let v = lower(trimmed(value));
    if v.len() == 0 || v[0] == '-' || v[v.len() - 1] == '-' {
        Err(ApiError::BadRequest)
    } else if forall|k: int| 0 <= k < v.len() ==> key_char(#[trigger] v[k]) {
        Ok(v)
    } else {
        Err(ApiError::BadRequest)
    }
}

/// Reads the key of a category.
pub fn normalize_category_key(value: &str) -> (r: Result<String, ApiError>)
    ensures
        match category_key_spec(value@) {
            Ok(t) => r matches Ok(s) && s@ == t,
            Err(e) => r == Err::<String, ApiError>(e),
        },
{
    let v = to_ascii_lowercase(trim(value));
    let n = v.as_str().unicode_len();
    if n == 0 || v.as_str().get_char(0) == '-' || v.as_str().get_char(n - 1) == '-' {
        return Err(ApiError::BadRequest);
    }
    let mut i: usize = 0;
    while i < n
        invariant
            v@ == lower(trimmed(value@)),
            n == v@.len(),
            i <= n,
            forall|k: int| 0 <= k < i ==> key_char(#[trigger] v@[k]),
        decreases n - i,
    {
        let c = v.as_str().get_char(i);
        if !(('a' <= c && c <= 'z') || ('0' <= c && c <= '9') || c == '-') {
            assert(!key_char(v@[i as int]));
            return Err(ApiError::BadRequest);
        }
        i = i + 1;
    }
    Ok(v)
}

/// The stored facts about a file that decide whether a publication may link it.
#[derive(Debug)]
pub struct FileAssetLinkRow {
    pub deleted_at: Option<UtcTimestamp>,
    pub is_public: bool,
    pub domain_type: Option<String>,
    pub domain_id: Option<String>,
}

/// Whether a publication (the one with `publication_id`, or a new one) may link a file: the
/// file is not deleted, a public publication links only a public file, and the file
/// belongs to nothing yet or already to this publication.
pub open spec fn file_can_link(file: FileAssetLinkRow, publication_id: Option<Seq<char>>, publication_is_public: bool) -> bool {
    &&& file.deleted_at is None
    &&& !publication_is_public || file.is_public
    &&& match (opt_view(file.domain_type), opt_view(file.domain_id)) {
        (None, None) => true,
        (Some(t), Some(id)) => t == "publication"@ && publication_id == Some(id),
        _ => false,
    }
}

/// Checks that a publication may link a file.
pub fn ensure_file_can_link(
    file: &FileAssetLinkRow,
    publication_id: Option<&str>,
    publication_is_public: bool,
) -> (r: Result<(), ApiError>)
    ensures
        file_can_link(*file, opt_str_view(publication_id), publication_is_public) ==> r is Ok,
        !file_can_link(*file, opt_str_view(publication_id), publication_is_public) ==> r
            == Err::<(), ApiError>(ApiError::BadRequest),
{
    if file.deleted_at.is_some() {
        return Err(ApiError::BadRequest);
    }
    if publication_is_public && !file.is_public {
        return Err(ApiError::BadRequest);
    }
    match (&file.domain_type, &file.domain_id) {
        (None, None) => Ok(()),
        (Some(t), Some(id)) => {
            let same = match publication_id {
                Some(p) => str_eq(id.as_str(), p),
                None => false,
            };
            if str_eq(t.as_str(), "publication") && same {
                Ok(())
            } else {
                Err(ApiError::BadRequest)
            }
        },
        _ => Err(ApiError::BadRequest),
    }
}

/// A request to create a publication.
#[derive(Debug)]
pub struct CreatePublicationRequest {
    pub category_id: String,
    pub title: String,
    pub description: Option<String>,
    pub effective_at: UtcTimestamp,
    pub file_id: String,
    pub is_public: bool,
    pub sort_order: Option<i32>,
    pub status: String,
}

/// The fields of a publication as stored.
#[derive(Debug)]
pub struct PublicationFields {
    pub category_id: String,
    pub title: String,
    pub description: Option<String>,
    pub effective_at: UtcTimestamp,
    pub file_id: String,
    pub is_public: bool,
    pub sort_order: i32,
    pub status: String,
}

/// Whether every field of a creation request is acceptable.
pub open spec fn new_publication_ok(p: CreatePublicationRequest) -> bool {
    required_spec(p.category_id@) is Ok && required_spec(p.title@) is Ok && required_spec(p.file_id@) is Ok
        && publication_status_spec(p.status@) is Ok
}

/// Reads a creation request into the fields to store: identifiers, title and status
/// normalized, the description dropped when blank, the sort order 0 by default; any
/// field that is not acceptable makes a bad request.
pub fn new_publication_input(payload: CreatePublicationRequest) -> (r: Result<PublicationFields, ApiError>)
    ensures
        !new_publication_ok(payload) ==> r == Err::<PublicationFields, ApiError>(ApiError::BadRequest),
        new_publication_ok(payload) ==> (r matches Ok(f) && {
            &&& Ok::<Seq<char>, ApiError>(f.category_id@) == required_spec(payload.category_id@)
            &&& Ok::<Seq<char>, ApiError>(f.title@) == required_spec(payload.title@)
            &&& opt_view(f.description) == optional_text(opt_view(payload.description))
            &&& f.effective_at == payload.effective_at
            &&& Ok::<Seq<char>, ApiError>(f.file_id@) == required_spec(payload.file_id@)
            &&& f.is_public == payload.is_public
            &&& f.sort_order == match payload.sort_order {
                Some(n) => n,
                None => 0,
            }
            &&& Ok::<Seq<char>, ApiError>(f.status@) == publication_status_spec(payload.status@)
        }),
{
    let category_id = normalize_id(payload.category_id.as_str())?;
    let title = normalize_required_text(payload.title.as_str())?;
    let description = normalize_optional_text(payload.description);
    let file_id = normalize_id(payload.file_id.as_str())?;
    let status = normalize_publication_status(payload.status.as_str())?;
    Ok(
        PublicationFields {
            category_id,
            title,
            description,
            effective_at: payload.effective_at,
            file_id,
            is_public: payload.is_public,
            sort_order: match payload.sort_order {
                Some(n) => n,
                None => 0,
            },
            status,
        },
    )
}

/// A request to change a publication; an absent field keeps the stored value.
#[derive(Debug)]
pub struct UpdatePublicationRequest {
    pub category_id: Option<String>,
    pub title: Option<String>,
    pub description: Option<String>,
    pub effective_at: Option<UtcTimestamp>,
    pub file_id: Option<String>,
    pub is_public: Option<bool>,
    pub sort_order: Option<i32>,
    pub status: Option<String>,
}

/// The category a publication has after an update: the requested one, normalized (a bad
/// request when blank), else the stored one.
pub fn updated_category_id(requested: Option<String>, stored: &String) -> (r: Result<String, ApiError>)
    ensures
        match requested {
            Some(v) => match required_spec(v@) {
                Ok(t) => r matches Ok(s) && s@ == t,
                Err(e) => r == Err::<String, ApiError>(e),
            },
            None => r matches Ok(s) && s@ == stored@,
        },
{
    match requested {
        Some(v) => normalize_id(v.as_str()),
        None => Ok(stored.clone()),
    }
}

/// Whether every requested field of an update, other than the category, is acceptable.
pub open spec fn update_fields_ok(p: UpdatePublicationRequest) -> bool {
    &&& (p.title matches Some(t) ==> required_spec(t@) is Ok)
    &&& (p.file_id matches Some(f) ==> required_spec(f@) is Ok)
    &&& (p.status matches Some(s) ==> publication_status_spec(s@) is Ok)
}

/// Whether `f` is what an acceptable update `payload` makes of the stored fields, the
/// category being settled as `category_id`.
pub open spec fn is_merged_update(
    stored: PublicationFields,
    category_id: String,
    payload: UpdatePublicationRequest,
    f: PublicationFields,
) -> bool {
    &&& f.category_id == category_id
    &&& f.title@ == match payload.title {
        Some(t) => required_spec(t@)->Ok_0,
        None => stored.title@,
    }
    &&& opt_view(f.description) == match optional_text(opt_view(payload.description)) {
        Some(d) => Some(d),
        None => opt_view(stored.description),
    }
    &&& f.effective_at == match payload.effective_at {
        Some(t) => t,
        None => stored.effective_at,
    }
    &&& f.file_id@ == match payload.file_id {
        Some(v) => required_spec(v@)->Ok_0,
        None => stored.file_id@,
    }
    &&& f.is_public == match payload.is_public {
        Some(b) => b,
        None => stored.is_public,
    }
    &&& f.sort_order == match payload.sort_order {
        Some(n) => n,
        None => stored.sort_order,
    }
    &&& f.status@ == match payload.status {
        Some(s) => publication_status_spec(s@)->Ok_0,
        None => stored.status@,
    }
}

/// Merges an update with the stored publication, once its category is settled: each
/// requested field replaces the stored one (normalized, a bad request when not
/// acceptable), except a blank description, which keeps the stored one.
pub fn merge_publication_update(
    stored: &PublicationFields,
    category_id: String,
    payload: UpdatePublicationRequest,
) -> (r: Result<PublicationFields, ApiError>)
    ensures
        !update_fields_ok(payload) ==> r == Err::<PublicationFields, ApiError>(ApiError::BadRequest),
        update_fields_ok(payload) ==> (r matches Ok(f) && is_merged_update(*stored, category_id, payload, f)),
{
    let title = match payload.title {
        Some(v) => normalize_required_text(v.as_str())?,
        None => stored.title.clone(),
    };
    let description = match normalize_optional_text(payload.description) {
        Some(d) => Some(d),
        None => match &stored.description {
            Some(d) => Some(d.clone()),
            None => None,
        },
    };
    let file_id = match payload.file_id {
        Some(v) => normalize_id(v.as_str())?,
        None => stored.file_id.clone(),
    };
    let status = match payload.status {
        Some(v) => normalize_publication_status(v.as_str())?,
        None => stored.status.clone(),
    };
    Ok(
        PublicationFields {
            category_id,
            title,
            description,
            effective_at: match payload.effective_at {
                Some(t) => t,
                None => stored.effective_at,
            },
            file_id,
            is_public: match payload.is_public {
                Some(b) => b,
                None => stored.is_public,
            },
            sort_order: match payload.sort_order {
                Some(n) => n,
                None => stored.sort_order,
            },
            status,
        },
    )
}

/// An update that asks for nothing keeps every stored field but the category it settles.
pub proof fn empty_update_keeps_publication(
    stored: PublicationFields,
    category_id: String,
    payload: UpdatePublicationRequest,
    f: PublicationFields,
)
    requires
        payload.category_id is None && payload.title is None && payload.description is None
            && payload.effective_at is None && payload.file_id is None && payload.is_public is None
            && payload.sort_order is None && payload.status is None,
        is_merged_update(stored, category_id, payload, f),
    ensures
        f.title@ == stored.title@,
        opt_view(f.description) == opt_view(stored.description),
        f.effective_at == stored.effective_at,
        f.file_id@ == stored.file_id@,
        f.is_public == stored.is_public,
        f.sort_order == stored.sort_order,
        f.status@ == stored.status@,
{
}

} // verus!
