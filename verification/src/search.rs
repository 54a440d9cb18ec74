//! Search: a text query goes to the full-text index; without one, the
//! filters select the media.
use vstd::prelude::*;

use crate::models::{Classification, MediaType};
use crate::queries::{MediaFilter, ProjectFilter};
use crate::text::{chars_of, clone_opt_string, trim_seq, trim_vec};

verus! {

/// A media search as the UI sends it.
#[derive(Clone, Debug)]
pub struct SearchQuery {
    pub query: Option<String>,
    pub classification: Option<Classification>,
    pub media_type: Option<MediaType>,
    pub project_id: Option<String>,
    pub is_private: Option<bool>,
    pub date_from: Option<String>,
    pub date_to: Option<String>,
    pub source_folder: Option<String>,
    pub limit: Option<i64>,
}

/// How a media search is answered.
pub enum MediaSearch {
    /// Full-text search for `text`, at most `limit` results.
    Text { text: String, limit: i64 },
    /// A filtered listing.
    Filter(MediaFilter),
}

/// How a project search is answered.
pub enum ProjectSearch {
    /// Full-text search for `text`, at most `limit` results.
    Text { text: String, limit: i64 },
    /// A listing of the most recently updated projects.
    Filter(ProjectFilter),
}

/// Is the text blank (only whitespace)?
pub open spec fn is_blank(s: Seq<char>) -> bool {
    trim_seq(s).len() == 0
}

/// The listing filter of a search without text: the search's own filters
/// and limit, nothing else.
pub open spec fn search_filter(q: SearchQuery, f: MediaFilter) -> bool {
    &&& f.project_id == q.project_id
    &&& f.classification == q.classification
    &&& f.media_type == q.media_type
    &&& f.is_private == q.is_private
    &&& f.is_starred is None
    &&& f.is_duplicate is None
    &&& f.date_from == q.date_from
    &&& f.date_to == q.date_to
    &&& f.source_folder == q.source_folder
    &&& f.limit == q.limit
    &&& f.offset is None
    &&& f.order_by is None
}

fn blank(s: &str) -> (r: bool)
    ensures
        r == is_blank(s@),
{
    let v = chars_of(s);
    trim_vec(&v).len() == 0
}

/// Decides how a media search is answered: a text that is not blank goes
/// to the full-text index (at most `limit` results, 100 by default);
/// otherwise the search's filters select the media.
pub fn search_media(q: &SearchQuery) -> (r: MediaSearch)
    ensures
        match r {
            MediaSearch::Text { text, limit } => q.query matches Some(t) && !is_blank(t@) && text@
                == t@ && limit == (match q.limit {
                Some(l) => l,
                None => 100,
            }),
            MediaSearch::Filter(f) => (q.query is None || is_blank(q.query->0@)) && search_filter(
                *q,
                f,
            ),
        },
{
    if let Some(text) = &q.query {
        if !blank(text.as_str()) {
            let limit = match q.limit {
                Some(l) => l,
                None => 100,
            };
            return MediaSearch::Text { text: text.clone(), limit };
        }
    }
    MediaSearch::Filter(
        MediaFilter {
            project_id: clone_opt_string(&q.project_id),
            classification: q.classification,
            media_type: q.media_type,
            is_private: q.is_private,
            is_starred: None,
            is_duplicate: None,
            date_from: clone_opt_string(&q.date_from),
            date_to: clone_opt_string(&q.date_to),
            source_folder: clone_opt_string(&q.source_folder),
            limit: q.limit,
            offset: None,
            order_by: None,
        },
    )
}

/// Decides how a project search is answered: a blank query lists the
/// projects (at most `limit`), any other goes to the full-text index.
pub fn search_projects(query: &str, limit: i64) -> (r: ProjectSearch)
    ensures
        match r {
            ProjectSearch::Text { text, limit: l } => !is_blank(query@) && text@ == query@ && l
                == limit,
            ProjectSearch::Filter(f) => is_blank(query@) && f.status is None && f.project_type is None
                && f.is_private is None && f.limit == Some(limit) && f.offset is None,
        },
{
    if blank(query) {
        ProjectSearch::Filter(
            ProjectFilter { status: None, project_type: None, is_private: None, limit: Some(limit), offset: None },
        )
    } else {
        ProjectSearch::Text { text: query.to_string(), limit }
    }
}

} // verus!
