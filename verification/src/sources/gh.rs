//! Documents from git repositories: the repositories to clone, and what
//! becomes of each clone.
//!
//! Cloning, walking the clone and asking a server for repositories are the
//! caller's part.

use crate::error::{failure_of, in_context, Failure, FailureKind, FailureView};
use crate::json::{array_at, get_array, get_path, json_view, json_views, value_at, JsonError};
use crate::model::{Document, DocumentView};
use crate::pattern::{clone_all, sources, Pattern};
use crate::sequence::{
    failure_free, lemma_flat_map_prefix, lemma_until_failure, lemma_until_failure_of_stopping,
    lemma_until_failure_prefix, outcome_views, stop_at_failure, stops_at_failure, successes,
    until_failure,
};
use crate::sources::fs::{yields, FileSystemDocumentSource, WalkedFile};
use serde_json::Value;
use vstd::prelude::*;

verus! {

/// A repository to clone.
#[derive(Debug, PartialEq, Eq)]
pub struct RepositoryInfo {
    pub name: String,
    pub clone_url: String,
}

/// The mathematical value of a [`RepositoryInfo`].
pub ghost struct RepositoryInfoView {
    pub name: Seq<char>,
    pub clone_url: Seq<char>,
}

impl View for RepositoryInfo {
    type V = RepositoryInfoView;

    open spec fn view(&self) -> RepositoryInfoView {
        RepositoryInfoView { name: self.name@, clone_url: self.clone_url@ }
    }
}

impl Clone for RepositoryInfo {
    fn clone(&self) -> (copy: Self)
        ensures
            copy == *self,
    {
        RepositoryInfo { name: self.name.clone(), clone_url: self.clone_url.clone() }
    }
}

/// A lister that holds its repositories and replays them once, in their order.
#[derive(Debug, PartialEq, Eq)]
pub struct GithubRepoStaticList {
    pub list: Vec<RepositoryInfo>,
}

impl GithubRepoStaticList {
    /// The sequence that the lister yields: every repository, none failing.
    pub fn list(&self) -> (listed: Vec<Result<RepositoryInfo, Failure>>)
        ensures
            listed@ == successes::<RepositoryInfo, Failure>(self.list@),
    {
        let mut listed: Vec<Result<RepositoryInfo, Failure>> = Vec::new();
        let mut i: usize = 0;
        while i < self.list.len()
            invariant
                i <= self.list.len(),
                listed@ == successes::<RepositoryInfo, Failure>(self.list@.take(i as int)),
            decreases self.list.len() - i,
        {
            listed.push(Ok(self.list[i].clone()));
            proof {
                assert(listed@ =~= successes::<RepositoryInfo, Failure>(self.list@.take(i + 1)));
            }
            i += 1;
        }
        proof {
            assert(self.list@.take(self.list.len() as int) =~= self.list@);
        }
        listed
    }
}

impl Clone for GithubRepoStaticList {
    fn clone(&self) -> (copy: Self)
        ensures
            copy.list@ == self.list@,
    {
        let mut list: Vec<RepositoryInfo> = Vec::new();
        let mut i: usize = 0;
        while i < self.list.len()
            invariant
                i <= self.list.len(),
                list@ == self.list@.take(i as int),
            decreases self.list.len() - i,
        {
            list.push(self.list[i].clone());
            proof {
                assert(list@ =~= self.list@.take(i + 1));
            }
            i += 1;
        }
        proof {
            assert(self.list@.take(self.list.len() as int) =~= self.list@);
        }
        GithubRepoStaticList { list }
    }
}

/// The query for one page of starred repositories, up to the login.
pub const QUERY_HEAD: &'static str = "query {\n          user(login:\"";

/// The query, from behind the login up to the cursor.
pub const QUERY_MIDDLE: &'static str = "\") {\n            starredRepositories(\n                first: 2,\n                orderBy: { field: STARRED_AT, direction:DESC },\n                after: \"";

/// The query, from behind the cursor.
pub const QUERY_TAIL: &'static str = "\"\n            ) {\n              pageInfo {\n                startCursor\n                endCursor\n                hasNextPage\n              }\n              nodes {\n                sshUrl\n                url\n                name\n              }\n            }\n          }\n        }\n        ";

/// The text of the query for the page of the repositories starred by a
/// user that follows a cursor.
pub open spec fn starred_query(starred_by: Seq<char>, cursor: Seq<char>) -> Seq<char> {
    QUERY_HEAD@ + starred_by + QUERY_MIDDLE@ + cursor + QUERY_TAIL@
}

/// Writes the query for one page of the repositories that a user starred:
/// the page behind `start_cursor`, or the first page where there is none.
pub fn gh_starred_gql_query(starred_by: &str, start_cursor: Option<String>) -> (query: String)
    ensures
        query@ == starred_query(
            starred_by@,
            match start_cursor {
                Some(cursor) => cursor@,
                None => Seq::empty(),
            },
        ),
{
    let mut query = String::from_str(QUERY_HEAD);
    query.append(starred_by);
    query.append(QUERY_MIDDLE);
    match start_cursor {
        Some(cursor) => {
            query.append(cursor.as_str());
        },
        None => {
            assert(query@ + Seq::<char>::empty() =~= query@);
        },
    }
    query.append(QUERY_TAIL);
    query
}

/// The path, in the answer to a query, of the object that holds a page.
pub open spec fn page_path() -> Seq<Seq<char>> {
    seq!["data"@, "user"@, "starredRepositories"@]
}

/// The repositories of a page, as the answer to a query writes them: the
/// elements of the array under `nodes` of the page.
pub fn page_nodes<'a>(answer: &'a Value) -> (nodes: Result<&'a Vec<Value>, JsonError>)
    ensures
        nodes is Ok <==> array_at(json_view(*answer), page_path().push("nodes"@)) is Some,
        nodes matches Ok(array) ==> array_at(json_view(*answer), page_path().push("nodes"@))
            == Some(json_views(array@)),
        nodes matches Err(JsonError::PathNotFound { path: missing }) ==> value_at(
            json_view(*answer),
            page_path().push("nodes"@),
        ) is None && missing.deep_view() == page_path().push("nodes"@),
        nodes matches Err(JsonError::NotAnArray { path: wrong }) ==> value_at(
            json_view(*answer),
            page_path().push("nodes"@),
        ) is Some && wrong.deep_view() == page_path().push("nodes"@),
{
    let path: [&str; 4] = ["data", "user", "starredRepositories", "nodes"];
    proof {
        assert(crate::json::keys(path@) =~= page_path().push("nodes"@));
    }
    get_array(answer, &path)
}

/// Where a page stands, as the answer to a query writes it: the value
/// under `pageInfo` of the page.
pub fn page_position<'a>(answer: &'a Value) -> (position: Result<&'a Value, JsonError>)
    ensures
        position is Ok <==> value_at(json_view(*answer), page_path().push("pageInfo"@)) is Some,
        position matches Ok(value) ==> value_at(
            json_view(*answer),
            page_path().push("pageInfo"@),
        ) == Some(json_view(*value)),
        position matches Err(error) ==> (error matches JsonError::PathNotFound { path: missing }
            && missing.deep_view() == page_path().push("pageInfo"@)),
{
    let path: [&str; 4] = ["data", "user", "starredRepositories", "pageInfo"];
    proof {
        assert(crate::json::keys(path@) =~= page_path().push("pageInfo"@));
    }
    get_path(answer, &path)
}

/// Where a page of a listing stands among the pages.
#[derive(Debug, PartialEq, Eq)]
pub struct PageInfo {
    pub has_next_page: bool,
    pub start_cursor: String,
    pub end_cursor: String,
}

/// One page of a listing: its repositories, each read or failed to be
/// read, and where the page stands.
#[derive(Debug, PartialEq, Eq)]
pub struct RepositoryPage {
    pub repositories: Vec<Result<RepositoryInfo, Failure>>,
    pub page_info: PageInfo,
}

/// A lister of the repositories that a user starred, page by page.
#[derive(Debug, PartialEq, Eq)]
pub struct GithubStarsLister {
    pub starred_by: String,
}

impl GithubStarsLister {
    /// The query for the first page.
    pub fn first_query(&self) -> (query: String)
        ensures
            query@ == starred_query(self.starred_by@, Seq::empty()),
    {
        gh_starred_gql_query(self.starred_by.as_str(), None)
    }

    /// Answers one page. It returns what the lister yields of it, and the
    /// query for the next page if the listing goes on.
    ///
    /// The repositories of the page are yielded in their order, up to the
    /// first that failed to be read. The listing goes on if none failed and
    /// the page says that another follows; the next query then starts at
    /// the end of this page.
    pub fn on_page(&self, page: RepositoryPage) -> (step: (
        Vec<Result<RepositoryInfo, Failure>>,
        Option<String>,
    ))
        ensures
            step.0@ == until_failure(page.repositories@),
            step.1 is Some <==> failure_free(page.repositories@) && page.page_info.has_next_page,
            step.1 matches Some(query) ==> query@ == starred_query(
                self.starred_by@,
                page.page_info.end_cursor@,
            ),
    {
        let RepositoryPage { repositories, page_info } = page;
        let (yielded, failed) = stop_at_failure(repositories);
        if failed || !page_info.has_next_page {
            (yielded, None)
        } else {
            let query = gh_starred_gql_query(self.starred_by.as_str(), Some(page_info.end_cursor));
            (yielded, Some(query))
        }
    }
}

/// The ways to learn which repositories to clone.
#[derive(Debug, PartialEq, Eq)]
pub enum RepositoryLister {
    /// From a list written down beforehand.
    Static(GithubRepoStaticList),
    /// From the repositories that a user starred.
    Starred(GithubStarsLister),
}

/// A clone on disk: where it lies and what a walk of it gives.
#[derive(Debug, PartialEq, Eq)]
pub struct Checkout {
    pub root: String,
    pub walked: Vec<Result<WalkedFile, Failure>>,
}

/// A repository after the attempt to clone it: the clone, or why there is none.
#[derive(Debug, PartialEq, Eq)]
pub struct ClonedRepository {
    pub repository: RepositoryInfo,
    pub checkout: Result<Checkout, String>,
}

/// A source that clones each repository of a lister and yields the files
/// of the clone that pass its filter.
#[derive(Debug)]
pub struct GithubSource {
    pub source_id: String,
    pub lister: RepositoryLister,
    /// A path takes part only if every one of these matches it.
    pub includes: Vec<Pattern>,
    /// A path takes part only if none of these matches it.
    pub excludes: Vec<Pattern>,
}

/// The context that names the repository whose clone failed.
pub open spec fn clone_context(repository: RepositoryInfoView) -> Seq<char> {
    "Error while cloning repository "@ + repository.name + " from "@ + repository.clone_url
}

/// The failure of a clone: its cause, in the context of the repository.
pub open spec fn clone_failure(repository: RepositoryInfoView, cause: Seq<char>) -> FailureView {
    in_context(failure_of(FailureKind::CloneRepository, cause), clone_context(repository))
}

impl GithubSource {
    /// What one repository of the listing adds to the sequence: the failure
    /// of the listing or of the clone, or what the files of the clone give,
    /// up to the first failure among them.
    pub open spec fn yield_of(&self, item: Result<ClonedRepository, Failure>) -> Seq<
        Result<DocumentView, FailureView>,
    > {
        match item {
            Err(failure) => seq![Err(failure@)],
            Ok(cloned) => match cloned.checkout {
                Err(cause) => seq![Err(clone_failure(cloned.repository@, cause@))],
                Ok(checkout) => until_failure(
                    yields(
                        self.source_id@,
                        sources(self.includes@),
                        sources(self.excludes@),
                        checkout.walked@,
                    ),
                ),
            },
        }
    }

    /// What a whole listing adds to the sequence, repository by repository.
    pub open spec fn yields(&self, listed: Seq<Result<ClonedRepository, Failure>>) -> Seq<
        Result<DocumentView, FailureView>,
    > {
        listed.flat_map(|item: Result<ClonedRepository, Failure>| self.yield_of(item))
    }

    /// The source for the files of one clone: rooted at the clone, with the
    /// identifier and the filter of this source.
    pub fn checkout_source(&self, root: String) -> (source: FileSystemDocumentSource)
        ensures
            source.source_id@ == self.source_id@,
            source.paths@ == seq![root],
            sources(source.includes@) == sources(self.includes@),
            sources(source.excludes@) == sources(self.excludes@),
    {
        let mut paths: Vec<String> = Vec::new();
        paths.push(root);
        FileSystemDocumentSource {
            source_id: self.source_id.clone(),
            paths,
            includes: clone_all(&self.includes),
            excludes: clone_all(&self.excludes),
        }
    }

    /// The failure that ends the sequence when a repository cannot be cloned.
    pub fn clone_failed(repository: &RepositoryInfo, cause: String) -> (failure: Failure)
        ensures
            failure@ == clone_failure(repository@, cause@),
    {
        let mut context = String::from_str("Error while cloning repository ");
        context.append(repository.name.as_str());
        context.append(" from ");
        context.append(repository.clone_url.as_str());
        Failure::new(FailureKind::CloneRepository, cause).with_context(context)
    }

    /// Answers one repository of the listing with what it adds to the sequence.
    pub fn on_listed(&self, item: Result<ClonedRepository, Failure>) -> (part: Vec<
        Result<Document, Failure>,
    >)
        ensures
            outcome_views(part@) == self.yield_of(item),
            stops_at_failure(outcome_views(part@)),
    {
        let mut part: Vec<Result<Document, Failure>> = Vec::new();
        match item {
            Err(failure) => {
                part.push(Err(failure));
                assert(outcome_views(part@) =~= seq![Err(failure@)]);
            },
            Ok(cloned) => {
                let ClonedRepository { repository, checkout } = cloned;
                match checkout {
                    Err(cause) => {
                        let failure = Self::clone_failed(&repository, cause);
                        part.push(Err(failure));
                        assert(outcome_views(part@) =~= seq![Err(failure@)]);
                    },
                    Ok(checkout) => {
                        let Checkout { root, walked } = checkout;
                        let source = self.checkout_source(root);
                        proof {
                            lemma_until_failure(
                                yields(
                                    self.source_id@,
                                    sources(self.includes@),
                                    sources(self.excludes@),
                                    walked@,
                                ),
                            );
                        }
                        part = source.fetch_from(walked);
                    },
                }
            },
        }
        part
    }

    /// The sequence that the source yields on a listing: what each
    /// repository gives, in the order of the listing, up to the first
    /// failure, which ends the sequence.
    pub fn fetch_from(&self, listed: Vec<Result<ClonedRepository, Failure>>) -> (fetched: Vec<
        Result<Document, Failure>,
    >)
        ensures
            outcome_views(fetched@) == until_failure(self.yields(listed@)),
            stops_at_failure(outcome_views(fetched@)),
    {
        let mut fetched: Vec<Result<Document, Failure>> = Vec::new();
        let ghost all = listed@;
        let ghost step = |item: Result<ClonedRepository, Failure>| self.yield_of(item);
        proof {
            assert(all.take(0) =~= Seq::empty());
            assert(all.take(0).flat_map(step) =~= Seq::empty());
            assert(outcome_views(fetched@) =~= Seq::empty());
        }
        for item in it: listed
            invariant
                it.seq() == all,
                step == |item: Result<ClonedRepository, Failure>| self.yield_of(item),
                outcome_views(fetched@) == self.yields(all.take(it.index() as int)),
                failure_free(outcome_views(fetched@)),
        {
            let ghost at = it.index() as int;
            let ghost before = fetched@;
            let mut part = self.on_listed(item);
            let ghost added = part@;
            let failed = part.len() > 0 && part[part.len() - 1].is_err();
            fetched.append(&mut part);
            proof {
                all.lemma_flat_map_take_append(step, at);
                assert(outcome_views(fetched@) =~= outcome_views(before) + outcome_views(added));
                assert(outcome_views(fetched@) =~= self.yields(all.take(at + 1)));
                if added.len() > 0 {
                    assert(outcome_views(added).last() is Err <==> added.last() is Err);
                }
            }
            if failed {
                proof {
                    let seen = self.yields(all.take(at + 1));
                    assert(seen.last() is Err);
                    assert(stops_at_failure(seen));
                    lemma_flat_map_prefix(all, step, at + 1);
                    lemma_until_failure_prefix(self.yields(all), seen);
                    lemma_until_failure_of_stopping(seen);
                }
                return fetched;
            }
        }
        proof {
            assert(all.take(all.len() as int) =~= all);
            lemma_until_failure(self.yields(all));
        }
        fetched
    }
}

} // verus!
