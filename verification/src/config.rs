//! The configuration of a run: which sources to read and which engine to
//! fill, and how a configured source becomes a source.

use crate::pattern::{regex_new, sources, Pattern};
use crate::sequence::{
    failure_free, first_failure_at, lemma_failure_free_or_first_failure, values,
};
use crate::sources::fs::FileSystemDocumentSource;
use crate::sources::gh::{
    GithubRepoStaticList, GithubSource, RepositoryInfo, RepositoryInfoView, RepositoryLister,
};
use regex::Regex;
use vstd::prelude::*;

verus! {

/// A whole configuration.
#[derive(Debug, PartialEq, Eq)]
pub struct DoksConfig {
    pub sources: Vec<SourceConfig>,
    pub engine: SearchEngineConfig,
}

/// One configured source.
#[derive(Debug, PartialEq, Eq)]
pub enum SourceConfig {
    Github {
        id: String,
        repositories: GithubRepositoriesConfig,
        includes: Vec<String>,
        excludes: Vec<String>,
    },
    FileSystem { id: String, paths: Vec<String>, includes: Vec<String>, excludes: Vec<String> },
}

/// Where the repositories of a source come from.
#[derive(Debug, PartialEq, Eq)]
pub enum GithubRepositoriesConfig {
    FromList { server: Option<String>, transport: GitCloneTransport, list: Vec<GithubRepo> },
    FromApi {
        search: Option<String>,
        starred_by: Option<Vec<String>>,
        endpoint: Option<String>,
        token_file: Option<String>,
    },
}

/// One repository of a configured list.
#[derive(Debug, PartialEq, Eq)]
pub struct GithubRepo {
    pub name: String,
    pub folder: Option<String>,
    pub branch: Option<String>,
    pub includes: Vec<String>,
    pub excludes: Vec<String>,
}

/// How a repository is reached for cloning.
#[derive(Clone, Copy, Debug, PartialEq, Eq, Structural)]
pub enum GitCloneTransport {
    Ssh,
    Https,
}

/// The engine that holds the index.
#[derive(Debug, PartialEq, Eq)]
pub enum SearchEngineConfig {
    Tantivy { path: String },
}

/// Why a configured source cannot become a source.
#[derive(Debug, PartialEq)]
pub enum ConfigError {
    /// Repositories listed by a remote service are not supported yet.
    NotSupported,
    /// A filter pattern is no regular expression.
    InvalidPattern { pattern: String, cause: regex::Error },
}

/// A source as configured, ready to fetch.
#[derive(Debug)]
pub enum ConfiguredSource {
    Github(GithubSource),
    FileSystem(FileSystemDocumentSource),
}

/// The server of a repository list that names none.
pub const DEFAULT_SERVER: &'static str = "github.com";

/// The directory of the index where none is configured.
pub const DEFAULT_INDEX_PATH: &'static str = "/tmp/doks_index";

impl Default for GitCloneTransport {
    fn default() -> (transport: Self)
        ensures
            transport == GitCloneTransport::Ssh,
    {
        GitCloneTransport::Ssh
    }
}

impl Default for SearchEngineConfig {
    fn default() -> (engine: Self)
        ensures
            engine matches SearchEngineConfig::Tantivy { path } && path@ == DEFAULT_INDEX_PATH@,
    {
        SearchEngineConfig::Tantivy { path: String::from_str(DEFAULT_INDEX_PATH) }
    }
}

/// The address from which a repository is cloned.
pub open spec fn clone_url(transport: GitCloneTransport, server: Seq<char>, name: Seq<char>) -> Seq<
    char,
> {
    match transport {
        GitCloneTransport::Ssh => "git@"@ + server + ":"@ + name + ".git"@,
        GitCloneTransport::Https => "https://"@ + server + "/"@ + name + ".git"@,
    }
}

/// The server of a repository list: the one it names, or the default.
pub open spec fn server_of(server: Option<String>) -> Seq<char> {
    match server {
        Some(name) => name@,
        None => DEFAULT_SERVER@,
    }
}

/// The text of each pattern of a configured list.
pub open spec fn texts(patterns: Seq<String>) -> Seq<Seq<char>> {
    patterns.map_values(|pattern: String| pattern@)
}

/// What compiling each pattern of a list gives.
pub open spec fn compile_outcomes(patterns: Seq<String>) -> Seq<Result<Regex, regex::Error>> {
    patterns.map_values(|pattern: String| regex_new(pattern@))
}

/// Writes the address from which a repository is cloned.
pub fn write_clone_url(transport: GitCloneTransport, server: &str, name: &str) -> (url: String)
    ensures
        url@ == clone_url(transport, server@, name@),
{
    match transport {
        GitCloneTransport::Ssh => {
            let mut url = String::from_str("git@");
            url.append(server);
            url.append(":");
            url.append(name);
            url.append(".git");
            url
        },
        GitCloneTransport::Https => {
            let mut url = String::from_str("https://");
            url.append(server);
            url.append("/");
            url.append(name);
            url.append(".git");
            url
        },
    }
}

/// The outcome of compiling each pattern of a list of patterns that are
/// held together with those outcomes.
pub open spec fn outcomes_of(compiled: Seq<(String, Result<Pattern, regex::Error>)>) -> Seq<
    Result<Pattern, regex::Error>,
> {
    compiled.map_values(|pair: (String, Result<Pattern, regex::Error>)| pair.1)
}

/// Compiles each pattern of a list, and holds each together with what
/// compiling it gave.
pub fn compile_each(patterns: &Vec<String>) -> (compiled: Vec<
    (String, Result<Pattern, regex::Error>),
>)
    ensures
        compiled@.len() == patterns@.len(),
        forall|i: int|
            0 <= i < patterns@.len() ==> (#[trigger] compiled@[i]).0@ == patterns@[i]@
                && match regex_new(patterns@[i]@) {
                Ok(_) => compiled@[i].1 is Ok && compiled@[i].1->Ok_0@ == patterns@[i]@,
                Err(cause) => compiled@[i].1 == Err::<Pattern, regex::Error>(cause),
            },
{
    let mut compiled: Vec<(String, Result<Pattern, regex::Error>)> = Vec::new();
    let mut i: usize = 0;
    while i < patterns.len()
        invariant
            i <= patterns.len(),
            compiled@.len() == i,
            forall|k: int|
                0 <= k < i ==> (#[trigger] compiled@[k]).0@ == patterns@[k]@ && match regex_new(
                    patterns@[k]@,
                ) {
                    Ok(_) => compiled@[k].1 is Ok && compiled@[k].1->Ok_0@ == patterns@[k]@,
                    Err(cause) => compiled@[k].1 == Err::<Pattern, regex::Error>(cause),
                },
        decreases patterns.len() - i,
    {
        let outcome = Pattern::new(patterns[i].as_str());
        compiled.push((patterns[i].clone(), outcome));
        i += 1;
    }
    compiled
}

/// Gathers the compiled patterns of a filter, in their order. The first
/// pattern that was not compiled is reported, with the reason; without
/// one, every compiled pattern is returned.
pub fn gather_patterns(compiled: Vec<(String, Result<Pattern, regex::Error>)>) -> (gathered:
    Result<Vec<Pattern>, ConfigError>)
    ensures
        failure_free(outcomes_of(compiled@)) ==> gathered is Ok && gathered->Ok_0@ == values(
            outcomes_of(compiled@),
        ),
        forall|at: int| #[trigger]
            first_failure_at(outcomes_of(compiled@), at) ==> gathered == Err::<
                Vec<Pattern>,
                ConfigError,
            >(
                ConfigError::InvalidPattern {
                    pattern: compiled@[at].0,
                    cause: compiled@[at].1->Err_0,
                },
            ),
{
    let ghost all = compiled@;
    let ghost outcomes = outcomes_of(compiled@);
    let mut patterns: Vec<Pattern> = Vec::new();
    proof {
        assert(patterns@ =~= values(outcomes.take(0)));
    }
    for pair in it: compiled
        invariant
            it.seq() == all,
            outcomes == outcomes_of(all),
            failure_free(outcomes.take(it.index() as int)),
            patterns@ == values(outcomes.take(it.index() as int)),
    {
        let ghost at = it.index() as int;
        let (text, outcome) = pair;
        match outcome {
            Ok(pattern) => {
                patterns.push(pattern);
                proof {
                    assert(outcomes.take(at + 1) =~= outcomes.take(at).push(outcomes[at]));
                    assert(patterns@ =~= values(outcomes.take(at + 1)));
                }
            },
            Err(cause) => {
                proof {
                    lemma_failure_free_or_first_failure(outcomes);
                    assert(first_failure_at(outcomes, at));
                }
                return Err(ConfigError::InvalidPattern { pattern: text, cause });
            },
        }
    }
    proof {
        assert(outcomes.take(all.len() as int) =~= outcomes);
        lemma_failure_free_or_first_failure(outcomes);
    }
    Ok(patterns)
}

/// Compiles the patterns of a filter, in their order. The first pattern
/// that is no regular expression is reported; without one, every pattern
/// is returned compiled.
pub fn compile_all(patterns: &Vec<String>) -> (compiled: Result<Vec<Pattern>, ConfigError>)
    ensures
        failure_free(compile_outcomes(patterns@)) ==> compiled is Ok && sources(compiled->Ok_0@)
            == texts(patterns@),
        forall|at: int| #[trigger]
            first_failure_at(compile_outcomes(patterns@), at) ==> (compiled matches Err(
                ConfigError::InvalidPattern { pattern, cause },
            ) && pattern@ == patterns@[at]@ && regex_new(patterns@[at]@) == Err::<
                Regex,
                regex::Error,
            >(cause)),
{
    let each = compile_each(patterns);
    proof {
        let named = compile_outcomes(patterns@);
        let made = outcomes_of(each@);
        assert forall|i: int| 0 <= i < patterns@.len() implies ((#[trigger] made[i]) is Ok
            <==> named[i] is Ok) by {
            assert(each@[i].1 == made[i]);
        }
        assert forall|at: int| first_failure_at(named, at) implies first_failure_at(made, at) by {
            assert forall|i: int| 0 <= i < at implies (#[trigger] made.take(at)[i]) is Ok by {
                assert(named.take(at)[i] is Ok);
            }
        }
        if failure_free(named) {
            assert(failure_free(made));
            assert(sources(values(made)) =~= texts(patterns@)) by {
                assert forall|i: int| 0 <= i < patterns@.len() implies #[trigger] sources(
                    values(made),
                )[i] == texts(patterns@)[i] by {
                    assert(each@[i].1 == made[i]);
                }
            }
        }
    }
    gather_patterns(each)
}

impl SourceConfig {
    /// The identifier of the source.
    pub fn id(&self) -> (id: &str)
        ensures
            id@ == match *self {
                SourceConfig::Github { id, .. } => id@,
                SourceConfig::FileSystem { id, .. } => id@,
            },
    {
        match self {
            SourceConfig::Github { id, .. } => id.as_str(),
            SourceConfig::FileSystem { id, .. } => id.as_str(),
        }
    }
}

impl GithubRepositoriesConfig {
    /// Whether a lister replays the configured list: every repository in
    /// its place, under its name, with the address that the transport and
    /// the server give it.
    pub open spec fn replayed_by(&self, lister: RepositoryLister) -> bool {
        &&& *self matches GithubRepositoriesConfig::FromList { server, transport, list }
        &&& lister matches RepositoryLister::Static(replayed)
        &&& replayed.list@.len() == list@.len()
        &&& forall|i: int|
            0 <= i < list@.len() ==> (#[trigger] replayed.list@[i])@ == (RepositoryInfoView {
                name: list@[i].name@,
                clone_url: clone_url(transport, server_of(server), list@[i].name@),
            })
    }

    /// The lister of the configured repositories: for a list, one that
    /// replays it. Repositories listed by a remote service are refused.
    pub fn to_lister(&self) -> (lister: Result<RepositoryLister, ConfigError>)
        ensures
            *self is FromApi ==> lister matches Err(ConfigError::NotSupported),
            *self is FromList ==> lister is Ok && self.replayed_by(lister->Ok_0),
    {
        match self {
            GithubRepositoriesConfig::FromList { server, transport, list } => {
                let server_name: &str = match server {
                    Some(name) => name.as_str(),
                    None => DEFAULT_SERVER,
                };
                let mut repositories: Vec<RepositoryInfo> = Vec::new();
                let mut i: usize = 0;
                while i < list.len()
                    invariant
                        i <= list.len(),
                        server_name@ == server_of(*server),
                        repositories@.len() == i,
                        forall|k: int|
                            0 <= k < i ==> (#[trigger] repositories@[k])@ == (RepositoryInfoView {
                                name: list@[k].name@,
                                clone_url: clone_url(*transport, server_of(*server), list@[k].name@),
                            }),
                    decreases list.len() - i,
                {
                    let name = list[i].name.clone();
                    let url = write_clone_url(*transport, server_name, name.as_str());
                    repositories.push(RepositoryInfo { name, clone_url: url });
                    i += 1;
                }
                Ok(RepositoryLister::Static(GithubRepoStaticList { list: repositories }))
            },
            GithubRepositoriesConfig::FromApi { .. } => Err(ConfigError::NotSupported),
        }
    }
}

/// Whether an error reports the pattern at `at` of a list, with the cause
/// that compiling it gives.
pub open spec fn reports_pattern(error: ConfigError, patterns: Seq<String>, at: int) -> bool {
    &&& error matches ConfigError::InvalidPattern { pattern, cause }
    &&& pattern@ == patterns[at]@
    &&& regex_new(patterns[at]@) == Err::<Regex, regex::Error>(cause)
}

/// Compiles a filter: the patterns to be matched, then those to be
/// avoided. The first pattern of the two lists, taken in that order, that
/// is no regular expression is reported.
pub fn compile_filter(includes: &Vec<String>, excludes: &Vec<String>) -> (filter: Result<
    (Vec<Pattern>, Vec<Pattern>),
    ConfigError,
>)
    ensures
        failure_free(compile_outcomes(includes@ + excludes@)) ==> filter is Ok && sources(
            filter->Ok_0.0@,
        ) == texts(includes@) && sources(filter->Ok_0.1@) == texts(excludes@),
        forall|at: int| #[trigger]
            first_failure_at(compile_outcomes(includes@ + excludes@), at) ==> filter is Err
                && reports_pattern(filter->Err_0, includes@ + excludes@, at),
{
    let ghost first = compile_outcomes(includes@);
    let ghost second = compile_outcomes(excludes@);
    let ghost both = compile_outcomes(includes@ + excludes@);
    proof {
        assert(both =~= first + second);
        lemma_failure_free_or_first_failure(first);
        lemma_failure_free_or_first_failure(second);
        lemma_failure_free_or_first_failure(both);
    }
    match compile_all(includes) {
        Err(error) => {
            proof {
                let k = choose|k: int| first_failure_at(first, k);
                assert(both.take(k) =~= first.take(k));
                assert(first_failure_at(both, k));
            }
            Err(error)
        },
        Ok(matched) => {
            proof {
                assert forall|i: int| 0 <= i < first.len() implies (#[trigger] first[i]) is Ok by {
                    if !failure_free(first) {
                        let k = choose|k: int| first_failure_at(first, k);
                        assert(first_failure_at(first, k));
                    }
                }
            }
            match compile_all(excludes) {
                Err(error) => {
                    proof {
                        let k = choose|k: int| first_failure_at(second, k);
                        let at = first.len() + k;
                        assert forall|i: int| 0 <= i < at implies (#[trigger] both.take(at)[i])
                            is Ok by {
                            if i >= first.len() {
                                assert(second.take(k)[i - first.len()] is Ok);
                            }
                        }
                        assert(first_failure_at(both, at));
                        assert((includes@ + excludes@)[at] == excludes@[k]);
                    }
                    Err(error)
                },
                Ok(avoided) => {
                    proof {
                        assert forall|i: int| 0 <= i < second.len() implies (#[trigger] second[i])
                            is Ok by {
                            if !failure_free(second) {
                                let k = choose|k: int| first_failure_at(second, k);
                                assert(first_failure_at(second, k));
                            }
                        }
                        assert(failure_free(both));
                    }
                    Ok((matched, avoided))
                },
            }
        },
    }
}

impl SourceConfig {
    /// The source that the configuration describes.
    ///
    /// The lister of a source of repositories is made first, and a listing
    /// by a remote service is refused. Then the filter is compiled, and the
    /// first pattern that is no regular expression is reported. Else the
    /// source has the configured identifier, paths or lister, and the
    /// compiled filter.
    pub fn to_source(&self) -> (source: Result<ConfiguredSource, ConfigError>)
        ensures
            match *self {
                SourceConfig::FileSystem { id, paths, includes, excludes } => {
                    &&& failure_free(compile_outcomes(includes@ + excludes@)) ==> {
                        &&& source matches Ok(ConfiguredSource::FileSystem(made))
                        &&& made.source_id@ == id@
                        &&& made.paths@ == paths@
                        &&& sources(made.includes@) == texts(includes@)
                        &&& sources(made.excludes@) == texts(excludes@)
                    }
                    &&& forall|at: int| #[trigger]
                        first_failure_at(compile_outcomes(includes@ + excludes@), at) ==> source
                            is Err && reports_pattern(source->Err_0, includes@ + excludes@, at)
                },
                SourceConfig::Github { id, repositories, includes, excludes } => {
                    &&& (repositories is FromApi) ==> (source matches Err(
                        ConfigError::NotSupported,
                    ))
                    &&& (repositories is FromList) && failure_free(
                        compile_outcomes(includes@ + excludes@),
                    ) ==> {
                        &&& source matches Ok(ConfiguredSource::Github(made))
                        &&& made.source_id@ == id@
                        &&& repositories.replayed_by(made.lister)
                        &&& sources(made.includes@) == texts(includes@)
                        &&& sources(made.excludes@) == texts(excludes@)
                    }
                    &&& (repositories is FromList) ==> forall|at: int| #[trigger]
                        first_failure_at(compile_outcomes(includes@ + excludes@), at) ==> source
                            is Err && reports_pattern(source->Err_0, includes@ + excludes@, at)
                },
            },
    {
        match self {
            SourceConfig::Github { id, repositories, includes, excludes } => {
                let lister = match repositories.to_lister() {
                    Ok(lister) => lister,
                    Err(error) => {
                        return Err(error);
                    },
                };
                match compile_filter(includes, excludes) {
                    Ok((matched, avoided)) => {
                        proof {
                            lemma_failure_free_or_first_failure(
                                compile_outcomes(includes@ + excludes@),
                            );
                        }
                        Ok(
                            ConfiguredSource::Github(
                                GithubSource {
                                    source_id: id.clone(),
                                    lister,
                                    includes: matched,
                                    excludes: avoided,
                                },
                            ),
                        )
                    },
                    Err(error) => Err(error),
                }
            },
            SourceConfig::FileSystem { id, paths, includes, excludes } => {
                match compile_filter(includes, excludes) {
                    Ok((matched, avoided)) => {
                        proof {
                            lemma_failure_free_or_first_failure(
                                compile_outcomes(includes@ + excludes@),
                            );
                        }
                        let roots = paths.clone();
                        assert(roots@ =~= paths@);
                        Ok(
                            ConfiguredSource::FileSystem(
                                FileSystemDocumentSource {
                                    source_id: id.clone(),
                                    paths: roots,
                                    includes: matched,
                                    excludes: avoided,
                                },
                            ),
                        )
                    },
                    Err(error) => Err(error),
                }
            },
        }
    }
}

} // verus!
