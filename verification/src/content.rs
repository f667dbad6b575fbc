//! Generated-content records and the dynamic update statement that edits
//! them. Running the statement is the host's work; building it correctly is
//! verified here.

use vstd::prelude::*;

verus! {

/// A generated content item joined with its template's descriptive fields.
#[derive(Debug)]
pub struct ContentWithTemplate {
    pub content_id: String,
    pub template_id: String,
    pub template_name: String,
    pub template_type: String,
    pub title: Option<String>,
    pub content_data: String,
    pub status: String,
    pub created_at: String,
    pub updated_at: String,
}

/// Which fields of a content item the caller wants changed.
#[derive(Debug)]
pub struct UpdateContentRequest {
    pub title: Option<String>,
    pub content_data: Option<String>,
    pub status: Option<String>,
}

/// A list separator owed before a set clause that follows another.
pub open spec fn sep_if(b: bool) -> Seq<char> {
    if b {
        ", "@
    } else {
        Seq::<char>::empty()
    }
}

/// The update statement for the given selection of fields: each selected
/// field contributes one placeholder clause, in the fixed order title,
/// content data, status.
pub open spec fn content_update_query(t: bool, c: bool, s: bool) -> Seq<char> {
    "UPDATE GeneratedContent SET "@ + (if t {
        "title = ?"@
    } else {
        Seq::<char>::empty()
    }) + sep_if(c && t) + (if c {
        "content_data = ?"@
    } else {
        Seq::<char>::empty()
    }) + sep_if(s && (t || c)) + (if s {
        "status = ?"@
    } else {
        Seq::<char>::empty()
    }) + " WHERE content_id = ?"@
}

/// Build the update statement and its bind values for an edit request.
/// A request that changes nothing is rejected. The bind values are the
/// given field values in clause order; the content id placeholder comes
/// last and is bound by the caller.
pub fn build_content_update(request: UpdateContentRequest) -> (r: Result<
    (String, Vec<String>),
    String,
>)
    ensures
        r is Err <==> (request.title is None && request.content_data is None && request.status
            is None),
        r matches Err(e) ==> e@ == "No fields to update"@,
        r matches Ok(q) ==> {
            &&& q.0@ == content_update_query(
                request.title is Some,
                request.content_data is Some,
                request.status is Some,
            )
            &&& q.1@ == (if request.title is Some {
                seq![request.title->0]
            } else {
                Seq::<String>::empty()
            }) + (if request.content_data is Some {
                seq![request.content_data->0]
            } else {
                Seq::<String>::empty()
            }) + (if request.status is Some {
                seq![request.status->0]
            } else {
                Seq::<String>::empty()
            })
        },
{
    let has_title = request.title.is_some();
    let has_content = request.content_data.is_some();
    let has_status = request.status.is_some();
    if !has_title && !has_content && !has_status {
        return Err("No fields to update".to_owned());
    }
    let mut query = ("UPDATE GeneratedContent SET ").to_owned();
    let mut binds: Vec<String> = Vec::new();
    if has_title {
        query.append("title = ?");
    }
    if has_content {
        if has_title {
            query.append(", ");
        }
        query.append("content_data = ?");
    }
    if has_status {
        if has_title || has_content {
            query.append(", ");
        }
        query.append("status = ?");
    }
    query.append(" WHERE content_id = ?");
    if let Some(t) = request.title {
        binds.push(t);
    }
    if let Some(c) = request.content_data {
        binds.push(c);
    }
    if let Some(s) = request.status {
        binds.push(s);
    }
    proof {
        assert(query@ =~= content_update_query(has_title, has_content, has_status));
    }
    Ok((query, binds))
}

} // verus!
