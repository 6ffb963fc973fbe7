use vstd::prelude::*;
use crate::clock::Timestamp;
use crate::error::ErrorKind;
use crate::identifier::IndexUuid;
use crate::controller::{spec_get_index, IndexController};
use crate::index_actor::spec_list;
use crate::model::{clone_optional_string, IndexMetadata, IndexSettings};

verus! {

/// The body of a request to create an index.
#[derive(Debug, PartialEq, Eq)]
pub struct IndexCreateRequest {
    pub uid: String,
    pub primary_key: Option<String>,
}

/// The body of a request to change an index.
#[derive(Debug, PartialEq, Eq)]
pub struct UpdateIndexRequest {
    pub uid: Option<String>,
    pub primary_key: Option<String>,
}

/// How an index is shown to the caller.
#[derive(Debug, PartialEq, Eq)]
pub struct UpdateIndexResponse {
    pub name: String,
    pub uid: String,
    pub created_at: Timestamp,
    pub updated_at: Timestamp,
    pub primary_key: Option<String>,
}

/// A notification for the analytics sink. The transport layer publishes it
/// and goes on, whether the sink takes it or not.
#[derive(Debug, PartialEq, Eq)]
pub struct AnalyticsEvent {
    pub name: String,
    pub primary_key: Option<String>,
}

/// The method of a request.
#[derive(Clone, Copy, Debug, PartialEq, Eq, Structural, Hash)]
pub enum Method {
    Get,
    Post,
    Put,
    Delete,
    Other,
}

/// The operations that are served below the scope of the indexes. The last
/// four stand for a scope of their own, which serves what follows its name in
/// the path.
#[derive(Clone, Copy, Debug, PartialEq, Eq, Structural, Hash)]
pub enum Route {
    ListIndexes,
    CreateIndex,
    GetIndex,
    UpdateIndex,
    DeleteIndex,
    GetIndexStats,
    Documents,
    Search,
    Tasks,
    Settings,
}

/// The status of the answer to a request that created something.
pub const STATUS_CREATED: u16 = 201;

/// The status of the answer to any other request that succeeded.
pub const STATUS_OK: u16 = 200;

/// The operation that serves a request on the scope itself.
pub open spec fn spec_route_scope(method: Method) -> Option<Route> {
    match method {
        Method::Get => Some(Route::ListIndexes),
        Method::Post => Some(Route::CreateIndex),
        _ => None,
    }
}

/// The operation that serves a request on one index.
pub open spec fn spec_route_index(method: Method) -> Option<Route> {
    match method {
        Method::Get => Some(Route::GetIndex),
        Method::Put => Some(Route::UpdateIndex),
        Method::Delete => Some(Route::DeleteIndex),
        _ => None,
    }
}

/// The operation that serves a request below one index, where `word` is the
/// segment after the index and `rest` the number of segments after `word`.
pub open spec fn spec_route_below(method: Method, word: Seq<char>, rest: int) -> Option<Route> {
    if word == "stats"@ {
        if rest == 0 && method == Method::Get {
            Some(Route::GetIndexStats)
        } else {
            None
        }
    } else if word == "documents"@ {
        Some(Route::Documents)
    } else if word == "search"@ {
        Some(Route::Search)
    } else if word == "tasks"@ {
        Some(Route::Tasks)
    } else if word == "settings"@ {
        Some(Route::Settings)
    } else {
        None
    }
}

/// The operation that serves a request with the given method on the path
/// whose segments below the scope of the indexes are `segments`. The first
/// segment names the index and is not empty.
pub open spec fn spec_route(method: Method, segments: Seq<String>) -> Option<Route> {
    if segments.len() == 0 {
        spec_route_scope(method)
    } else if segments[0]@.len() == 0 {
        None
    } else if segments.len() == 1 {
        spec_route_index(method)
    } else {
        spec_route_below(method, segments[1]@, segments.len() - 2)
    }
}

fn is_word(segment: &String, word: &str) -> (same: bool)
    ensures
        same == (segment@ == word@),
{
    let owned = word.to_owned();
    *segment == owned
}

/// The operation that serves a request, if there is one.
pub fn route(method: Method, segments: &Vec<String>) -> (found: Option<Route>)
    ensures
        found == spec_route(method, segments@),
{
    if segments.len() == 0 {
        return match method {
            Method::Get => Some(Route::ListIndexes),
            Method::Post => Some(Route::CreateIndex),
            _ => None,
        };
    }
    if segments[0].as_str().is_empty() {
        return None;
    }
    if segments.len() == 1 {
        return match method {
            Method::Get => Some(Route::GetIndex),
            Method::Put => Some(Route::UpdateIndex),
            Method::Delete => Some(Route::DeleteIndex),
            _ => None,
        };
    }
    let word = &segments[1];
    if is_word(word, "stats") {
        match method {
            Method::Get => if segments.len() == 2 {
                Some(Route::GetIndexStats)
            } else {
                None
            },
            _ => None,
        }
    } else if is_word(word, "documents") {
        Some(Route::Documents)
    } else if is_word(word, "search") {
        Some(Route::Search)
    } else if is_word(word, "tasks") {
        Some(Route::Tasks)
    } else if is_word(word, "settings") {
        Some(Route::Settings)
    } else {
        None
    }
}

impl IndexCreateRequest {
    /// The settings that the request asks for: an index named by its `uid`.
    pub fn into_settings(self) -> (settings: IndexSettings)
        ensures
            settings == (IndexSettings { name: Some(self.uid), primary_key: self.primary_key }),
    {
        IndexSettings { name: Some(self.uid), primary_key: self.primary_key }
    }
}

impl UpdateIndexRequest {
    /// The settings that the request asks for.
    pub fn into_settings(self) -> (settings: IndexSettings)
        ensures
            settings == (IndexSettings { name: self.uid, primary_key: self.primary_key }),
    {
        IndexSettings { name: self.uid, primary_key: self.primary_key }
    }
}

/// How the index named `uid` with the given metadata is shown.
pub open spec fn spec_index_response(uid: String, metadata: IndexMetadata) -> UpdateIndexResponse {
    UpdateIndexResponse {
        name: uid,
        uid,
        created_at: metadata.created_at,
        updated_at: metadata.updated_at,
        primary_key: metadata.primary_key,
    }
}

/// How the index named `uid` with the given metadata is shown.
pub fn index_response(uid: String, metadata: IndexMetadata) -> (response: UpdateIndexResponse)
    ensures
        response == spec_index_response(uid, metadata),
{
    UpdateIndexResponse {
        name: uid.clone(),
        uid,
        created_at: metadata.created_at,
        updated_at: metadata.updated_at,
        primary_key: metadata.primary_key,
    }
}

/// The notification that an index is being created with the primary key of
/// the request.
pub fn index_created_event(body: &IndexCreateRequest) -> (event: AnalyticsEvent)
    ensures
        event.name@ == "Index Created"@,
        event.primary_key == body.primary_key,
{
    AnalyticsEvent {
        name: "Index Created".to_owned(),
        primary_key: clone_optional_string(&body.primary_key),
    }
}

/// Serves `GET` on the scope: the metadata of every live index, in the order
/// of their creation.
pub fn list_indexes(controller: &IndexController) -> (result: Result<Vec<IndexMetadata>, ErrorKind>)
    requires
        controller.wf(),
    ensures
        result matches Ok(all) && all@ == spec_list(
            controller.indexes(),
            controller.index_order(),
        ),
{
    controller.list_indexes()
}

/// The metadata that a response shows, for the index of the given uuid.
pub open spec fn shown_metadata(uuid: IndexUuid, response: UpdateIndexResponse) -> IndexMetadata {
    IndexMetadata {
        uuid,
        created_at: response.created_at,
        updated_at: response.updated_at,
        primary_key: response.primary_key,
    }
}

/// Serves `POST` on the scope: creates the index that the body names, as
/// the controller's `create_index` does for the settings of the body, and
/// shows it under its `uid`. The answer to a success goes out with
/// `STATUS_CREATED`.
pub fn create_index(controller: &mut IndexController, body: IndexCreateRequest) -> (result: Result<
    UpdateIndexResponse,
    ErrorKind,
>)
    requires
        old(controller).wf(),
    ensures
        final(controller).wf(),
        final(controller).created(
            old(controller),
            (IndexSettings { name: Some(body.uid), primary_key: body.primary_key }),
            match result {
                Ok(response) => Ok(
                    shown_metadata(final(controller).names()[body.uid@], response),
                ),
                Err(kind) => Err(kind),
            },
        ),
        result matches Ok(response) ==> response.uid == body.uid && response.name == body.uid,
{
    let uid = body.uid.clone();
    let settings = body.into_settings();
    match controller.create_index(settings) {
        Ok(metadata) => Ok(index_response(uid, metadata)),
        Err(kind) => Err(kind),
    }
}

/// Serves `GET` on one index: shows the index named `uid`, or fails with
/// `NotFound`.
pub fn get_index(controller: &IndexController, uid: String) -> (result: Result<
    UpdateIndexResponse,
    ErrorKind,
>)
    requires
        controller.wf(),
    ensures
        result == match spec_get_index(controller.names(), controller.indexes(), uid@) {
            Ok(metadata) => Ok(spec_index_response(uid, metadata)),
            Err(kind) => Err(kind),
        },
{
    match controller.get_index(&uid) {
        Ok(metadata) => Ok(index_response(uid, metadata)),
        Err(kind) => Err(kind),
    }
}

/// Serves `PUT` on one index: a stub.
pub fn update_index(controller: &IndexController, uid: String, body: UpdateIndexRequest) -> (result:
    Result<UpdateIndexResponse, ErrorKind>)
    ensures
        result == Err::<UpdateIndexResponse, ErrorKind>(ErrorKind::Unimplemented),
{
    match controller.update_index(uid, body.into_settings()) {
        Ok(_) => Err(ErrorKind::Unimplemented),
        Err(kind) => Err(kind),
    }
}

/// Serves `DELETE` on one index: a stub.
pub fn delete_index(controller: &IndexController, uid: String) -> (result: Result<(), ErrorKind>)
    ensures
        result == Err::<(), ErrorKind>(ErrorKind::Unimplemented),
{
    controller.delete_index(uid)
}

/// Serves `GET` on the statistics of one index: a stub.
pub fn get_index_stats(controller: &IndexController, uid: String) -> (result: Result<
    (),
    ErrorKind,
>)
    ensures
        result == Err::<(), ErrorKind>(ErrorKind::Unimplemented),
{
    Err(ErrorKind::Unimplemented)
}

} // verus!
