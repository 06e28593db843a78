//! Data collections of the earlier data API: path arithmetic and the shapes
//! of its responses.
use vstd::prelude::*;

use crate::algo::api_error_of;
use crate::algo::opt_json_ref_view;
use crate::data::{acl_json, deleted_count_of, folder_request, DataAcl as ReadList};
use crate::error::{AlgorithmiaError, ApiErrorResponse, ErrorView};
use crate::json::{Json, JsonView};
use crate::text::{last_index_of, rfind_char};
use crate::Service;

verus! {

/// A data collection, by path.
#[derive(Debug)]
pub struct Collection {
    pub service: Service,
    pub path: String,
}

/// Response when updating a collection.
#[derive(Debug)]
pub struct CollectionUpdated {
    pub acl: Option<DataAcl>,
}

/// How many files a deletion removed.
#[derive(Debug)]
pub struct DeletedResult {
    pub deleted: u64,
}

/// Response when deleting a collection.
#[derive(Debug)]
pub struct CollectionDeleted {
    pub result: DeletedResult,
}

/// A sub-collection, as listed or as created.
#[derive(Debug)]
pub struct DataFolder {
    pub name: String,
    pub acl: Option<DataAcl>,
}

/// A file of a collection.
#[derive(Debug)]
pub struct DataFile {
    pub filename: String,
    /// Last modification, in seconds since the Unix epoch.
    pub last_modified: i64,
    pub size: u64,
}

/// Who may read a collection.
#[derive(Debug)]
pub struct DataAcl {
    pub read: Vec<String>,
}

/// Response when showing a collection.
#[derive(Debug)]
pub struct CollectionShow {
    pub folders: Option<Vec<DataFolder>>,
    pub files: Option<Vec<DataFile>>,
    pub marker: Option<String>,
    pub acl: Option<DataAcl>,
}

/// Response when adding a file to a collection.
#[derive(Debug)]
pub struct CollectionFileAdded {
    pub result: String,
}

/// Response when deleting a file of a collection.
#[derive(Debug)]
pub struct CollectionFileDeleted {
    pub result: String,
}

/// The error for an answer that does not hold what was asked: its error
/// envelope if it holds one, else a decode error naming `what`.
pub open spec fn answer_failure_of(body: Option<JsonView>, what: Seq<char>) -> ErrorView {
    match body {
        Some(j) => match api_error_of(j) {
            Some((e, st)) => ErrorView::Api(e, st),
            None => ErrorView::DecodeJson(what),
        },
        None => ErrorView::DecodeJson(what),
    }
}

/// The error for an answer that does not hold what was asked.
pub fn answer_failure(body: Option<&Json>, what: &str) -> (r: AlgorithmiaError)
    ensures
        r@ == answer_failure_of(opt_json_ref_view(body), what@),
{
    match body {
        Some(j) => match ApiErrorResponse::from_json(j) {
            Some(e) => AlgorithmiaError::Api(e),
            None => AlgorithmiaError::DecodeJson(String::from_str(what)),
        },
        None => AlgorithmiaError::DecodeJson(String::from_str(what)),
    }
}

/// The text of an answer `{"result": "<text>"}`.
pub open spec fn result_text_of(body: Option<JsonView>) -> Option<Seq<char>> {
    match body {
        Some(j) => match j.member("result"@) {
            Some(JsonView::Str(t)) => Some(t),
            _ => None,
        },
        None => None,
    }
}

/// Reads the answer `{"result": "<text>"}`; otherwise the answer's failure.
fn result_text(body: Option<&Json>, what: &str) -> (r: Result<String, AlgorithmiaError>)
    ensures
        match r {
            Ok(t) => result_text_of(opt_json_ref_view(body)) == Some(t@),
            Err(e) => result_text_of(opt_json_ref_view(body)) is None
                && e@ == answer_failure_of(opt_json_ref_view(body), what@),
        },
{
    match body {
        Some(j) => match j.member("result") {
            Some(Json::Str(t)) => return Ok(t.clone()),
            _ => {},
        },
        None => {},
    }
    Err(answer_failure(body, what))
}

impl CollectionFileAdded {
    /// Decodes the answer to adding a file.
    pub fn from_answer(body: Option<&Json>) -> (r: Result<CollectionFileAdded, AlgorithmiaError>)
        ensures
            match r {
                Ok(a) => result_text_of(opt_json_ref_view(body)) == Some(a.result@),
                Err(e) => result_text_of(opt_json_ref_view(body)) is None
                    && e@ == answer_failure_of(opt_json_ref_view(body), "file addition response"@),
            },
    {
        match result_text(body, "file addition response") {
            Ok(result) => Ok(CollectionFileAdded { result }),
            Err(e) => Err(e),
        }
    }
}

impl CollectionFileDeleted {
    /// Decodes the answer to deleting a file.
    pub fn from_answer(body: Option<&Json>) -> (r: Result<CollectionFileDeleted, AlgorithmiaError>)
        ensures
            match r {
                Ok(a) => result_text_of(opt_json_ref_view(body)) == Some(a.result@),
                Err(e) => result_text_of(opt_json_ref_view(body)) is None
                    && e@ == answer_failure_of(opt_json_ref_view(body), "file deletion response"@),
            },
    {
        match result_text(body, "file deletion response") {
            Ok(result) => Ok(CollectionFileDeleted { result }),
            Err(e) => Err(e),
        }
    }
}

impl CollectionDeleted {
    /// Decodes the answer to deleting a collection, `{"result": {"deleted": n}}`.
    pub fn from_answer(body: Option<&Json>) -> (r: Result<CollectionDeleted, AlgorithmiaError>)
        ensures
            match r {
                Ok(d) => (body matches Some(j) && deleted_count_of(j@) == Some(d.result.deleted)),
                Err(e) => (body is None || deleted_count_of(body->0@) is None)
                    && e@ == answer_failure_of(opt_json_ref_view(body), "collection deletion response"@),
            },
    {
        let count = match body {
            Some(j) => match j.member("result") {
                Some(res) => match res.member("deleted") {
                    Some(Json::Number(n)) => crate::text::parse_u64(n.as_str()),
                    _ => None,
                },
                None => None,
            },
            None => None,
        };
        match count {
            Some(deleted) => Ok(CollectionDeleted { result: DeletedResult { deleted } }),
            None => Err(answer_failure(body, "collection deletion response")),
        }
    }
}

/// The part of `path` before its last `/`, or `/` when it has none.
pub open spec fn collection_parent(path: Seq<char>) -> Seq<char> {
    match last_index_of(path, '/') {
        Some(i) => path.subrange(0, i),
        None => "/"@,
    }
}

/// The part of `path` after its last `/`, or all of it when it has none.
pub open spec fn collection_basename(path: Seq<char>) -> Seq<char> {
    match last_index_of(path, '/') {
        Some(i) => path.subrange(i + 1, path.len() as int),
        None => path,
    }
}

impl Collection {
    /// Where to send a request that creates this collection, and its body:
    /// the parent's endpoint, and `{"name": <basename>, "acl": {"read": []}}`.
    pub fn create_request(&self) -> (r: (String, Json))
        ensures
            r.0@ == self.service.base_url@ + "/v1/data/"@ + collection_parent(self.path@),
            r.1@ == folder_request(collection_basename(self.path@), Seq::empty()),
    {
        let empty = ReadList { read: Vec::new() };
        assert(empty@ =~= Seq::<Seq<char>>::empty());
        let acl = acl_json(&empty);
        let base = self.basename();
        let mut members: Vec<(String, Json)> = Vec::new();
        members.push((String::from_str("name"), Json::Str(String::from_str(base))));
        members.push((String::from_str("acl"), acl));
        proof {
            crate::json::lemma_members_view(members@);
            let target = folder_request(collection_basename(self.path@), Seq::empty());
            assert(crate::json::members_view(members@) =~= target->Object_0);
        }
        let url = self.service.base_url.clone().concat("/v1/data/").concat(self.parent());
        (url, Json::Object(members))
    }

    /// What the answer to a creation request comes to: success on 200 or
    /// 201, else the failure its body or status reports.
    pub fn create_outcome(&self, status: u16, body: Option<&Json>) -> (r: Result<(), AlgorithmiaError>)
        ensures
            match r {
                Ok(_) => status == 200 || status == 201,
                Err(e) => status != 200 && status != 201
                    && e@ == crate::data::failure_of(status, opt_json_ref_view(body)),
            },
    {
        if status == 200 || status == 201 {
            Ok(())
        } else {
            Err(crate::data::failure(status, body))
        }
    }

    /// Its API endpoint: the base URL, `/v1/data/`, then its path.
    pub fn to_url(&self) -> (r: String)
        ensures
            r@ == self.service.base_url@ + "/v1/data/"@ + self.path@,
    {
        self.service.base_url.clone().concat("/v1/data/").concat(self.path.as_str())
    }

    /// The parent path (as `dirname` gives it).
    pub fn parent(&self) -> (r: &str)
        ensures
            r@ == collection_parent(self.path@),
    {
        let p = self.path.as_str();
        match rfind_char(p, '/') {
            Some(i) => {
                proof {
                    crate::text::lemma_last_index_in_range(p@, '/');
                }
                p.substring_char(0, i)
            },
            None => "/",
        }
    }

    /// The last segment of the path (as `basename` gives it).
    pub fn basename(&self) -> (r: &str)
        ensures
            r@ == collection_basename(self.path@),
    {
        let p = self.path.as_str();
        match rfind_char(p, '/') {
            Some(i) => {
                proof {
                    crate::text::lemma_last_index_in_range(p@, '/');
                }
                let n = p.unicode_len();
                p.substring_char(i + 1, n)
            },
            None => p,
        }
    }
}

} // verus!
