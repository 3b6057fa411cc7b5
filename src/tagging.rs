//! Object tags: read, replace and remove the key/value tags of an object.

use vstd::prelude::*;
use crate::client::Client;
use crate::error::Error;
use crate::multipart::{check_target, is_bytes_body, no_entries, target_error};
use crate::object::{version_query, VersionOptions};
use crate::request::{OssRequest, RequestBody, RequestMethod, RequestView};
use crate::text::{chars_of, decimal, push_str};
use crate::xml::{
    all_elements, close_tag, element_value, elements_from, escaped, first_element, open_tag,
    push_element, unescape,
};

verus! {

/// The XML body that replaces an object's tags.
pub open spec fn tagging_xml(tags: Seq<(String, String)>) -> Seq<char> {
    "<Tagging><TagSet>"@ + tag_entries(tags) + "</TagSet></Tagging>"@
}

pub open spec fn tag_entries(tags: Seq<(String, String)>) -> Seq<char>
    decreases tags.len(),
{
    if tags.len() == 0 {
        Seq::empty()
    } else {
        tag_entries(tags.drop_last()) + open_tag("Tag"@) + open_tag("Key"@) + escaped(
            tags.last().0@,
        ) + close_tag("Key"@) + open_tag("Value"@) + escaped(tags.last().1@) + close_tag(
            "Value"@,
        ) + close_tag("Tag"@)
    }
}

pub fn tagging_document(tags: &Vec<(String, String)>) -> (r: String)
    ensures
        r@ == tagging_xml(tags@),
{
    let mut out = String::from_str("<Tagging><TagSet>");
    let mut i: usize = 0;
    while i < tags.len()
        invariant
            i <= tags@.len(),
            out@ == "<Tagging><TagSet>"@ + tag_entries(tags@.subrange(0, i as int)),
        decreases tags@.len() - i,
    {
        push_str(&mut out, "<Tag>");
        push_element(&mut out, "Key", tags[i].0.as_str());
        push_element(&mut out, "Value", tags[i].1.as_str());
        push_str(&mut out, "</Tag>");
        proof {
            reveal_strlit("<Tag>");
            reveal_strlit("</Tag>");
            reveal_strlit("Tag");
        }
        assert(tags@.subrange(0, i + 1).drop_last() =~= tags@.subrange(0, i as int));
        i = i + 1;
        assert(out@ =~= "<Tagging><TagSet>"@ + tag_entries(tags@.subrange(0, i as int)));
    }
    assert(tags@.subrange(0, tags@.len() as int) =~= tags@);
    push_str(&mut out, "</TagSet></Tagging>");
    out
}

pub open spec fn tag_complete(body: Seq<char>) -> bool {
    element_value(body, "Key"@) is Some && element_value(body, "Value"@) is Some
}

pub open spec fn tag_matches(t: (String, String), body: Seq<char>) -> bool {
    element_value(body, "Key"@) == Some(t.0@) && element_value(body, "Value"@) == Some(t.1@)
}

/// Reads every `Tag` element of a tagging document, in document order; each
/// must hold `Key` and `Value`, whose text is unescaped.
pub fn parse_tags(xml: &str) -> (r: Result<Vec<(String, String)>, Error>)
    ensures
        (forall|i: int|
            0 <= i < elements_from(xml@, "Tag"@, 0).len() ==> #[trigger] tag_complete(
                elements_from(xml@, "Tag"@, 0)[i],
            )) ==> (r matches Ok(v) && v@.len() == elements_from(xml@, "Tag"@, 0).len() && forall|
            i: int,
        |
            0 <= i < v@.len() ==> tag_matches(#[trigger] v@[i], elements_from(xml@, "Tag"@, 0)[i])),
        !(forall|i: int|
            0 <= i < elements_from(xml@, "Tag"@, 0).len() ==> #[trigger] tag_complete(
                elements_from(xml@, "Tag"@, 0)[i],
            )) ==> r == Err::<Vec<(String, String)>, Error>(Error::MalformedResponse),
{
    let doc = chars_of(xml);
    let bodies = all_elements(&doc, "Tag");
    let ghost es = elements_from(xml@, "Tag"@, 0);
    let mut tags: Vec<(String, String)> = Vec::new();
    let mut i: usize = 0;
    while i < bodies.len()
        invariant
            doc@ == xml@,
            es == elements_from(xml@, "Tag"@, 0),
            bodies@.len() == es.len(),
            forall|j: int| 0 <= j < bodies@.len() ==> (#[trigger] bodies@[j])@ == es[j],
            i <= bodies@.len(),
            tags@.len() == i,
            forall|j: int| 0 <= j < i ==> tag_matches(#[trigger] tags@[j], es[j]),
            forall|j: int| 0 <= j < i ==> #[trigger] tag_complete(es[j]),
        decreases bodies@.len() - i,
    {
        let key = match first_element(&bodies[i], "Key") {
            Some(k) => unescape(&k),
            None => {
                assert(!tag_complete(es[i as int]));
                return Err(Error::MalformedResponse);
            },
        };
        let value = match first_element(&bodies[i], "Value") {
            Some(v) => unescape(&v),
            None => {
                assert(!tag_complete(es[i as int]));
                return Err(Error::MalformedResponse);
            },
        };
        tags.push((key, value));
        i = i + 1;
    }
    Ok(tags)
}

/// Planning of the tag operations.
pub trait ObjectTagOperations {
    /// Reads the tags of an object; the answer is read with `parse_tags`.
    fn get_object_tags(
        &self,
        bucket_name: &str,
        object_key: &str,
        options: Option<VersionOptions>,
    ) -> Result<OssRequest, Error>;

    /// Replaces all tags of an object.
    fn put_object_tags(
        &self,
        bucket_name: &str,
        object_key: &str,
        tags: Vec<(String, String)>,
        options: Option<VersionOptions>,
    ) -> Result<OssRequest, Error>;

    /// Removes all tags of an object.
    fn delete_object_tags(
        &self,
        bucket_name: &str,
        object_key: &str,
        options: Option<VersionOptions>,
    ) -> Result<OssRequest, Error>;
}

pub open spec fn tagging_query(o: Option<VersionOptions>) -> Map<Seq<char>, Seq<char>> {
    version_query(no_entries().insert("tagging"@, Seq::empty()), o)
}

fn tagging_request(m: RequestMethod, bucket: &str, key: &str, options: &Option<VersionOptions>) -> (r:
    OssRequest)
    ensures
        r.wf(),
        r.spec_body() is Empty,
        r@ == (RequestView {
            method: m,
            bucket: bucket@,
            object: key@,
            headers: no_entries(),
            query: tagging_query(*options),
        }),
{
    let mut req = OssRequest::new().method(m).bucket(bucket).object(key).add_query("tagging", "");
    proof {
        reveal_strlit("");
        assert(""@ =~= Seq::<char>::empty());
    }
    match options {
        Some(o) => match &o.version_id {
            Some(v) => {
                req = req.add_query("versionId", v.as_str());
            },
            None => {},
        },
        None => {},
    }
    req
}

impl ObjectTagOperations for Client {
    fn get_object_tags(
        &self,
        bucket_name: &str,
        object_key: &str,
        options: Option<VersionOptions>,
    ) -> (r: Result<OssRequest, Error>)
        ensures
            match target_error(bucket_name@, object_key@) {
                Some(e) => r == Err::<OssRequest, Error>(e),
                None => r matches Ok(q) && q.wf() && q.spec_body() is Empty && q@ == (RequestView {
                    method: RequestMethod::Get,
                    bucket: bucket_name@,
                    object: object_key@,
                    headers: no_entries(),
                    query: tagging_query(options),
                }),
            },
    {
        if let Some(e) = check_target(bucket_name, object_key) {
            return Err(e);
        }
        Ok(tagging_request(RequestMethod::Get, bucket_name, object_key, &options))
    }

    fn put_object_tags(
        &self,
        bucket_name: &str,
        object_key: &str,
        tags: Vec<(String, String)>,
        options: Option<VersionOptions>,
    ) -> (r: Result<OssRequest, Error>)
        ensures
            match target_error(bucket_name@, object_key@) {
                Some(e) => r == Err::<OssRequest, Error>(e),
                None => r matches Ok(q) && q.wf() && q@ == (RequestView {
                    method: RequestMethod::Put,
                    bucket: bucket_name@,
                    object: object_key@,
                    headers: no_entries().insert(
                        "content-length"@,
                        decimal(vstd::utf8::encode_utf8(tagging_xml(tags@)).len()),
                    ),
                    query: tagging_query(options),
                }) && is_bytes_body(
                    q.spec_body(),
                    vstd::utf8::encode_utf8(tagging_xml(tags@)),
                ),
            },
    {
        if let Some(e) = check_target(bucket_name, object_key) {
            return Err(e);
        }
        let doc = tagging_document(&tags);
        let bytes = doc.as_str().as_bytes_vec();
        let len = bytes.len() as u64;
        proof {
            reveal_strlit("content-length");
        }
        Ok(
            tagging_request(RequestMethod::Put, bucket_name, object_key, &options).content_length(
                len,
            ).body(RequestBody::Bytes(bytes)),
        )
    }

    fn delete_object_tags(
        &self,
        bucket_name: &str,
        object_key: &str,
        options: Option<VersionOptions>,
    ) -> (r: Result<OssRequest, Error>)
        ensures
            match target_error(bucket_name@, object_key@) {
                Some(e) => r == Err::<OssRequest, Error>(e),
                None => r matches Ok(q) && q.wf() && q.spec_body() is Empty && q@ == (RequestView {
                    method: RequestMethod::Delete,
                    bucket: bucket_name@,
                    object: object_key@,
                    headers: no_entries(),
                    query: tagging_query(options),
                }),
            },
    {
        if let Some(e) = check_target(bucket_name, object_key) {
            return Err(e);
        }
        Ok(tagging_request(RequestMethod::Delete, bucket_name, object_key, &options))
    }
}

} // verus!
