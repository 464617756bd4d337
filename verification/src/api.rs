use vstd::prelude::*;
use vstd::string::StringExecFns;
use crate::codec::{base64_decode, base64_standard_decode, string_from_utf8, strip_whitespace};
use crate::error::RepoKaiError;
use crate::model::{describes, map_repos, visibility_label, PublishOptions, Repo, RepoRecord, UpdateRepoOptions};
use crate::text::visible;

verus! {

broadcast use vstd::string::group_string_axioms;

/// What the README of a repository reads, given the Base64 content that the API
/// sent: whitespace in the content is ignored, and the decoded bytes must be
/// UTF-8. No content means no README.
pub open spec fn readme_text(content: Option<Seq<char>>) -> Option<Option<Seq<char>>> {
    match content {
        None => Some(None),
        Some(c) => match base64_standard_decode(visible(c)) {
            None => None,
            Some(bytes) => if vstd::utf8::valid_utf8(bytes) {
                Some(Some(vstd::utf8::decode_utf8(bytes)))
            } else {
                None
            },
        },
    }
}

/// Decodes the content of a README reply. A reply without content gives no README;
/// content that is not Base64 (once whitespace is removed) is a `Base64` error, and
/// bytes that are not UTF-8 a `Utf8` error.
pub fn decode_readme(content: Option<String>) -> (r: Result<Option<String>, RepoKaiError>)
    ensures
        content is None ==> r matches Ok(None),
        content matches Some(c) ==> match base64_standard_decode(visible(c@)) {
            None => r matches Err(RepoKaiError::Base64(_)),
            Some(bytes) => if vstd::utf8::valid_utf8(bytes) {
                r matches Ok(Some(s)) && s@ == vstd::utf8::decode_utf8(bytes)
            } else {
                r matches Err(RepoKaiError::Utf8(_))
            },
        },
{
    match content {
        None => Ok(None),
        Some(encoded) => {
            let cleaned = strip_whitespace(encoded.as_str());
            match base64_decode(cleaned.as_str()) {
                Err(e) => Err(RepoKaiError::Base64(e)),
                Ok(bytes) => match string_from_utf8(bytes) {
                    Err(e) => Err(RepoKaiError::Utf8(e)),
                    Ok(s) => Ok(Some(s)),
                },
            }
        },
    }
}

/// The README of a repository from the API's reply: `None` when the request
/// failed (a repository without README answers so), else what its content decodes
/// to, with a `Base64` error for content that is not Base64 and a `Utf8` error for
/// bytes that are not UTF-8.
pub fn readme_from_reply(reply: Option<Option<String>>) -> (r: Result<Option<String>, RepoKaiError>)
    ensures
        reply is None ==> r matches Ok(None),
        reply matches Some(content) ==> match content {
            None => r matches Ok(None),
            Some(c) => match base64_standard_decode(visible(c@)) {
                None => r matches Err(RepoKaiError::Base64(_)),
                Some(bytes) => if vstd::utf8::valid_utf8(bytes) {
                    r matches Ok(Some(s)) && s@ == vstd::utf8::decode_utf8(bytes)
                } else {
                    r matches Err(RepoKaiError::Utf8(_))
                },
            },
        },
        reply matches Some(Some(c)) ==> match readme_text(Some(c@)) {
            None => r is Err,
            Some(t) => (r matches Ok(Some(s)) && t == Some(s@)),
        },
{
    match reply {
        None => Ok(None),
        Some(content) => decode_readme(content),
    }
}

#[verifier::external_type_specification]
#[verifier::external_body]
#[verifier::reject_recursive_types(K)]
#[verifier::reject_recursive_types(V)]
pub struct ExJsonMap<K, V>(serde_json::Map<K, V>);

#[verifier::external_type_specification]
#[verifier::external_body]
pub struct ExJsonValue(serde_json::Value);

/// A JSON object, as request bodies are.
pub type JsonObject = serde_json::Map<String, serde_json::Value>;

/// A value of a request body: a JSON string or a JSON boolean.
pub enum JsonEntry {
    Text(Seq<char>),
    Flag(bool),
}

/// Name for what a JSON object holds: each key with its value.
pub uninterp spec fn json_entries(obj: JsonObject) -> Map<Seq<char>, JsonEntry>;

/// An object without entries.
pub open spec fn no_entries() -> Map<Seq<char>, JsonEntry> {
    Map::empty()
}

/// `serde_json::Map::new`: Verus believes that the new object holds nothing.
#[verifier::external_body]
fn json_object() -> (obj: JsonObject)
    ensures
        json_entries(obj) == no_entries(),
{
    serde_json::Map::new()
}

/// A value to put in a request body.
pub enum JsonInput {
    Text(String),
    Flag(bool),
}

/// The body value that an input stands for.
pub open spec fn entry_of(v: JsonInput) -> JsonEntry {
    match v {
        JsonInput::Text(s) => JsonEntry::Text(s@),
        JsonInput::Flag(b) => JsonEntry::Flag(b),
    }
}

/// `serde_json::Map::insert`, of the JSON string or boolean that the input stands
/// for: Verus believes that the key then holds that value and every other key
/// what it held.
#[verifier::external_body]
fn json_insert(m: &mut JsonObject, key: &str, value: JsonInput)
    ensures
        json_entries(*final(m)) == json_entries(*old(m)).insert(key@, entry_of(value)),
{
    let v = match value {
        JsonInput::Text(s) => serde_json::Value::String(s),
        JsonInput::Flag(b) => serde_json::Value::Bool(b),
    };
    m.insert(key.to_string(), v);
}

/// What the body of a settings update holds.
pub open spec fn update_entries(opts: UpdateRepoOptions) -> Map<Seq<char>, JsonEntry> {
    let with_desc = match opts.description {
        Some(d) => Map::<Seq<char>, JsonEntry>::empty().insert("description"@, JsonEntry::Text(d@)),
        None => Map::<Seq<char>, JsonEntry>::empty(),
    };
    match opts.private {
        Some(p) => with_desc.insert("private"@, JsonEntry::Flag(p)),
        None => with_desc,
    }
}

/// The body of a settings update: the description and the privacy flag, each
/// only when it is to change.
pub fn update_request_body(opts: &UpdateRepoOptions) -> (body: JsonObject)
    ensures
        json_entries(body) == update_entries(*opts),
{
    let mut body = json_object();
    match &opts.description {
        Some(d) => json_insert(&mut body, "description", JsonInput::Text(d.clone())),
        None => {},
    }
    match opts.private {
        Some(p) => json_insert(&mut body, "private", JsonInput::Flag(p)),
        None => {},
    }
    body
}

/// What the body of a repository creation holds.
pub open spec fn create_entries(opts: PublishOptions) -> Map<Seq<char>, JsonEntry> {
    Map::<Seq<char>, JsonEntry>::empty().insert("name"@, JsonEntry::Text(opts.name@)).insert(
        "description"@,
        JsonEntry::Text(opts.description@),
    ).insert("private"@, JsonEntry::Flag(opts.private)).insert("auto_init"@, JsonEntry::Flag(false))
}

/// The body that creates an empty repository on GitHub for a local one.
pub fn create_request_body(opts: &PublishOptions) -> (body: JsonObject)
    ensures
        json_entries(body) == create_entries(*opts),
{
    let mut body = json_object();
    json_insert(&mut body, "name", JsonInput::Text(opts.name.clone()));
    json_insert(&mut body, "description", JsonInput::Text(opts.description.clone()));
    json_insert(&mut body, "private", JsonInput::Flag(opts.private));
    json_insert(&mut body, "auto_init", JsonInput::Flag(false));
    body
}

} // verus!

verus! {

/// The API path of a repository: `/repos/{owner}/{repo}`.
pub fn repo_route(owner: &str, repo: &str) -> (r: String)
    ensures
        r@ == "/repos/"@ + owner@ + "/"@ + repo@,
{
    let mut s = "/repos/".to_string();
    s.append(owner);
    s.append("/");
    s.append(repo);
    s
}

/// The API path of a repository's README: `/repos/{owner}/{repo}/readme`.
pub fn readme_route(owner: &str, repo: &str) -> (r: String)
    ensures
        r@ == "/repos/"@ + owner@ + "/"@ + repo@ + "/readme"@,
{
    let mut s = repo_route(owner, repo);
    s.append("/readme");
    s
}

/// Takes in one page of a paged repository listing: an empty page ends the
/// listing; else its repositories are added, and the next page (the page number
/// plus one) is to be fetched when the API says there is one.
pub fn collect_page(all: &mut Vec<Repo>, page: u8, records: &Vec<RepoRecord>, has_next: bool) -> (r:
    Option<u8>)
    requires
        records.len() == 0 || !has_next || page < 255,
    ensures
        records.len() == 0 ==> r is None && final(all)@ == old(all)@,
        records.len() > 0 ==> {
            &&& final(all)@.len() == old(all)@.len() + records.len()
            &&& final(all)@.take(old(all)@.len() as int) == old(all)@
            &&& forall|i: int|
                0 <= i < records.len() ==> describes(
                    #[trigger] final(all)@[old(all)@.len() + i],
                    records[i],
                ) && final(all)@[old(all)@.len() + i].stars == (match records[i].stargazers_count {
                    Some(n) => n,
                    None => 0,
                }) && final(all)@[old(all)@.len() + i].visibility@ == visibility_label(
                    match records[i].private {
                        Some(p) => p,
                        None => false,
                    },
                )
            &&& r == (if has_next {
                Some((page + 1) as u8)
            } else {
                None
            })
        },
{
    if records.len() == 0 {
        return None;
    }
    let mut fresh = map_repos(records);
    let ghost before = all@;
    let ghost added = fresh@;
    all.append(&mut fresh);
    assert(all@ =~= before + added);
    assert(all@.take(before.len() as int) =~= before);
    assert forall|i: int| 0 <= i < records.len() implies #[trigger] all@[before.len() + i] == added[i] by {}
    if has_next {
        Some(page + 1)
    } else {
        None
    }
}

} // verus!

verus! {

/// A settings update sends the description exactly when it is to change, the
/// privacy flag exactly when it is to change, each with its new value, and
/// nothing else.
pub proof fn lemma_update_body(opts: UpdateRepoOptions)
    ensures
        update_entries(opts).dom().contains("description"@) <==> opts.description is Some,
        update_entries(opts).dom().contains("private"@) <==> opts.private is Some,
        opts.description matches Some(d) ==> update_entries(opts)["description"@] == JsonEntry::Text(d@),
        opts.private matches Some(p) ==> update_entries(opts)["private"@] == JsonEntry::Flag(p),
        forall|k: Seq<char>| #[trigger]
            update_entries(opts).dom().contains(k) ==> k == "description"@ || k == "private"@,
{
    reveal_strlit("description");
    reveal_strlit("private");
    assert("description"@ != "private"@) by {
        assert("description"@[0] != "private"@[0]);
    }
}

/// Creating a repository sends its name, description and privacy as given, asks
/// GitHub not to initialise it, and sends nothing else.
pub proof fn lemma_create_body(opts: PublishOptions)
    ensures
        create_entries(opts)["name"@] == JsonEntry::Text(opts.name@),
        create_entries(opts)["description"@] == JsonEntry::Text(opts.description@),
        create_entries(opts)["private"@] == JsonEntry::Flag(opts.private),
        create_entries(opts)["auto_init"@] == JsonEntry::Flag(false),
        create_entries(opts).dom() == set!["name"@, "description"@, "private"@, "auto_init"@],
{
    reveal_strlit("name");
    reveal_strlit("description");
    reveal_strlit("private");
    reveal_strlit("auto_init");
    assert("name"@[0] != "description"@[0]);
    assert("name"@[0] != "private"@[0]);
    assert("name"@[0] != "auto_init"@[0]);
    assert("description"@[0] != "private"@[0]);
    assert("description"@[0] != "auto_init"@[0]);
    assert("private"@[0] != "auto_init"@[0]);
    assert(create_entries(opts).dom() =~= set!["name"@, "description"@, "private"@, "auto_init"@]);
}

} // verus!
