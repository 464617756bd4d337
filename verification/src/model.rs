use vstd::prelude::*;

verus! {

broadcast use vstd::string::group_string_axioms;

/// A GitHub repository as the browser shows it.
#[derive(Debug, Clone, PartialEq, Eq)]
pub struct Repo {
    pub owner: String,
    pub name: String,
    pub description: Option<String>,
    pub url: String,
    pub language: Option<String>,
    pub license: Option<String>,
    pub stars: u32,
    pub visibility: String,
    pub last_updated: String,
    pub readme: Option<String>,
}

/// What it takes to publish a local git repository to GitHub.
#[derive(Debug, Clone, PartialEq, Eq)]
pub struct PublishOptions {
    pub local_path: String,
    pub name: String,
    pub description: String,
    pub private: bool,
}

/// The settings of a repository to change; `None` leaves a setting as it is.
#[derive(Debug, Clone, PartialEq, Eq)]
pub struct UpdateRepoOptions {
    pub description: Option<String>,
    pub private: Option<bool>,
}

/// The fields of a repository as the GitHub API reports them, as plain values.
#[derive(Debug, Clone, PartialEq, Eq)]
pub struct RepoRecord {
    pub owner_login: Option<String>,
    pub name: String,
    pub description: Option<String>,
    pub html_url: Option<String>,
    pub language: Option<String>,
    pub license_name: Option<String>,
    pub stargazers_count: Option<u32>,
    pub private: Option<bool>,
    pub updated_at: Option<String>,
    pub clone_url: Option<String>,
}

/// A copy of an optional string.
pub fn copy_opt(s: &Option<String>) -> (r: Option<String>)
    ensures
        r == *s,
{
    match s {
        Some(v) => Some(v.clone()),
        None => None,
    }
}

/// The string held, or the empty string.
pub fn string_or_empty(s: &Option<String>) -> (r: String)
    ensures
        r@ == (match s {
            Some(v) => v@,
            None => Seq::<char>::empty(),
        }),
{
    match s {
        Some(v) => v.clone(),
        None => String::new(),
    }
}

/// The visibility label of a repository.
pub open spec fn visibility_label(private: bool) -> Seq<char> {
    if private {
        "private"@
    } else {
        "public"@
    }
}

/// "private" or "public".
pub fn visibility_of(private: bool) -> (r: String)
    ensures
        r@ == visibility_label(private),
{
    if private {
        "private".to_string()
    } else {
        "public".to_string()
    }
}

impl Repo {
    /// A field-for-field copy.
    pub fn duplicate(&self) -> (r: Repo)
        ensures
            r == *self,
    {
        Repo {
            owner: self.owner.clone(),
            name: self.name.clone(),
            description: copy_opt(&self.description),
            url: self.url.clone(),
            language: copy_opt(&self.language),
            license: copy_opt(&self.license),
            stars: self.stars,
            visibility: self.visibility.clone(),
            last_updated: self.last_updated.clone(),
            readme: copy_opt(&self.readme),
        }
    }
}

/// A copy of a list of repositories.
pub fn copy_repos(v: &Vec<Repo>) -> (r: Vec<Repo>)
    ensures
        r@ == v@,
{
    let mut r: Vec<Repo> = Vec::new();
    let mut i: usize = 0;
    while i < v.len()
        invariant
            i <= v.len(),
            r@ =~= v@.take(i as int),
        decreases v.len() - i,
    {
        r.push(v[i].duplicate());
        i = i + 1;
    }
    assert(v@.take(v.len() as int) =~= v@);
    r
}

/// The text of an optional string, or the empty text.
pub open spec fn text_or_empty(s: Option<String>) -> Seq<char> {
    match s {
        Some(v) => v@,
        None => Seq::<char>::empty(),
    }
}

/// `r` carries what a record reports: the owner's login, the name, the
/// description, the page URL, the language, the license's name and the last
/// update (missing texts as empty ones), and no README.
pub open spec fn describes(r: Repo, rec: RepoRecord) -> bool {
    &&& r.owner@ == text_or_empty(rec.owner_login)
    &&& r.name == rec.name
    &&& r.description == rec.description
    &&& r.url@ == text_or_empty(rec.html_url)
    &&& r.language == rec.language
    &&& r.license == rec.license_name
    &&& r.last_updated@ == text_or_empty(rec.updated_at)
    &&& r.readme is None
}

/// The repository a record of the GitHub API stands for: what the record reports,
/// no stars counted as 0, and "private" or "public" as the record says (not
/// private when it does not say).
pub fn map_repo(rec: &RepoRecord) -> (r: Repo)
    ensures
        describes(r, *rec),
        r.stars == (match rec.stargazers_count {
            Some(n) => n,
            None => 0,
        }),
        r.visibility@ == visibility_label(
            match rec.private {
                Some(p) => p,
                None => false,
            },
        ),
{
    Repo {
        owner: string_or_empty(&rec.owner_login),
        name: rec.name.clone(),
        description: copy_opt(&rec.description),
        url: string_or_empty(&rec.html_url),
        language: copy_opt(&rec.language),
        license: copy_opt(&rec.license_name),
        stars: match rec.stargazers_count {
            Some(n) => n,
            None => 0,
        },
        visibility: visibility_of(
            match rec.private {
                Some(p) => p,
                None => false,
            },
        ),
        last_updated: string_or_empty(&rec.updated_at),
        readme: None,
    }
}

/// The repository that publishing made, from the record GitHub gave back: what the
/// record reports, no stars, and the visibility that was asked for.
pub fn published_repo(rec: &RepoRecord, opts: &PublishOptions) -> (r: Repo)
    ensures
        describes(r, *rec),
        r.stars == 0,
        r.visibility@ == visibility_label(opts.private),
{
    Repo {
        owner: string_or_empty(&rec.owner_login),
        name: rec.name.clone(),
        description: copy_opt(&rec.description),
        url: string_or_empty(&rec.html_url),
        language: copy_opt(&rec.language),
        license: copy_opt(&rec.license_name),
        stars: 0,
        visibility: visibility_of(opts.private),
        last_updated: string_or_empty(&rec.updated_at),
        readme: None,
    }
}

/// The repositories that a list of records stands for, in the same order.
pub fn map_repos(recs: &Vec<RepoRecord>) -> (r: Vec<Repo>)
    ensures
        r.len() == recs.len(),
        forall|i: int| 0 <= i < recs.len() ==> describes(#[trigger] r[i], recs[i]),
        forall|i: int|
            0 <= i < recs.len() ==> (#[trigger] r[i]).stars == (match recs[i].stargazers_count {
                Some(n) => n,
                None => 0,
            }),
        forall|i: int|
            0 <= i < recs.len() ==> (#[trigger] r[i]).visibility@ == visibility_label(
                match recs[i].private {
                    Some(p) => p,
                    None => false,
                },
            ),
{
    let mut r: Vec<Repo> = Vec::new();
    let mut i: usize = 0;
    while i < recs.len()
        invariant
            i <= recs.len(),
            r.len() == i,
            forall|k: int| 0 <= k < i ==> describes(#[trigger] r[k], recs[k]),
            forall|k: int|
                0 <= k < i ==> (#[trigger] r[k]).stars == (match recs[k].stargazers_count {
                    Some(n) => n,
                    None => 0,
                }),
            forall|k: int|
                0 <= k < i ==> (#[trigger] r[k]).visibility@ == visibility_label(
                    match recs[k].private {
                        Some(p) => p,
                        None => false,
                    },
                ),
        decreases recs.len() - i,
    {
        r.push(map_repo(&recs[i]));
        i = i + 1;
    }
    r
}

} // verus!
