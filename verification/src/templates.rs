//! Content template requests and the guards that protect default
//! templates from modification and templates in use from deletion.

use vstd::prelude::*;

verus! {

/// Caller's request to create a template.
#[derive(Debug)]
pub struct CreateTemplateRequest {
    pub template_name: String,
    pub template_type: String,
    pub description: Option<String>,
    pub prompt: String,
    pub constraints: Option<String>,
}

/// Caller's request to overwrite a template's fields.
#[derive(Debug)]
pub struct UpdateTemplateRequest {
    pub template_name: String,
    pub template_type: String,
    pub description: Option<String>,
    pub prompt: String,
    pub constraints: Option<String>,
}

/// A default template may not be modified.
pub fn check_template_updatable(is_default: bool) -> (r: Result<(), String>)
    ensures
        r is Ok <==> !is_default,
        r matches Err(e) ==> e@ == "Cannot modify default templates"@,
{
    if is_default {
        Err("Cannot modify default templates".to_owned())
    } else {
        Ok(())
    }
}

/// A template may be deleted only when it is not a default and no
/// generated content uses it.
pub fn check_template_deletable(is_default: bool, usage_count: i64) -> (r: Result<(), String>)
    ensures
        r is Ok <==> (!is_default && usage_count <= 0),
        is_default ==> (r matches Err(e) && e@ == "Cannot delete default templates"@),
{
    if is_default {
        Err("Cannot delete default templates".to_owned())
    } else if usage_count > 0 {
        Err("Cannot delete template: it is used in generated content items".to_owned())
    } else {
        Ok(())
    }
}

} // verus!
