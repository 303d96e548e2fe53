//! A plugin that lists the open pull requests of the workspace's repository.
//!
//! Asking git for the remote and asking GitHub for the pull requests are the
//! caller's. Here is which repository a remote names, which address lists its
//! pull requests, and what the plugin answers.

use crate::json::{
    array_value, bool_value, distinct_keys, json_bool, json_field, json_items, json_u64,
    members_of, null_value, number_value, text_value,
};
use crate::protocol::{
    command_ids, text_of, EventView, MessageLevel, PluginCommand, PluginCommandView,
};
use crate::runtime::{duplicate_command_text, InitializeContext, PluginError, Registrar};
use crate::text::{
    contains_char, head_before, lemma_splits_at, same_text, split_once_char, starts_with_text,
    strip_suffixes, tail_after, texts_view, trim_end_matches_text,
};
use crate::wire::{has_members, has_text, object_of, wire_optional_text};
use serde_json::Value;
use url::Url;
use vstd::prelude::*;
use vstd::string::StringExecFns;

verus! {

/// Declares `url::Url`. What a URL holds is known only through the names
/// below.
#[verifier::external_type_specification]
#[verifier::external_body]
pub struct ExUrl(url::Url);

/// Declares `url::ParseError`. Nothing is claimed of it.
#[verifier::external_type_specification]
#[verifier::external_body]
pub struct ExUrlParseError(url::ParseError);

/// The URL that a text parses to; `None` where it is no absolute URL.
pub uninterp spec fn url_parse(text: Seq<char>) -> Option<Url>;

/// The segments of a URL's path, between its slashes; `None` for a URL that
/// cannot be a base.
pub uninterp spec fn url_path_segments(url: Url) -> Option<Seq<Seq<char>>>;

/// Calls `url::Url::parse`: the URL, or the crate's error where the text is
/// no absolute URL.
#[verifier::external_body]
fn parse_url(text: &str) -> (r: Result<Url, url::ParseError>)
    ensures
        match r {
            Ok(url) => url_parse(text@) == Some(url),
            Err(_) => url_parse(text@) is None,
        },
{
    Url::parse(text)
}

/// Calls `url::Url::path_segments` and copies the segments out.
#[verifier::external_body]
fn path_segments(url: &Url) -> (r: Option<Vec<String>>)
    ensures
        match r {
            Some(segments) => url_path_segments(*url) == Some(texts_view(segments@)),
            None => url_path_segments(*url) is None,
        },
{
    url.path_segments().map(|segments| segments.map(|segment| segment.to_owned()).collect())
}

/// A repository on GitHub.
#[derive(Debug, PartialEq)]
pub struct Repository {
    /// The account that owns it.
    pub owner: String,
    /// Its name.
    pub name: String,
}

/// What a [`Repository`] says.
pub struct RepositoryView {
    pub owner: Seq<char>,
    pub name: Seq<char>,
}

impl View for Repository {
    type V = RepositoryView;

    open spec fn view(&self) -> RepositoryView {
        RepositoryView { owner: self.owner@, name: self.name@ }
    }
}

impl Clone for Repository {
    fn clone(&self) -> (r: Self)
        ensures
            r@ == self@,
    {
        Repository { owner: self.owner.clone(), name: self.name.clone() }
    }
}

/// The message of the failure for a remote that cannot be read.
pub open spec fn unparsable_text(remote: Seq<char>) -> Seq<char> {
    "unable to parse git remote `"@ + remote + "`"@
}

/// The message of the failure for a remote whose URL has no path.
pub open spec fn no_segments_text(remote: Seq<char>) -> Seq<char> {
    "git remote `"@ + remote + "` does not contain path segments"@
}

/// The message of the failure for a remote whose URL names no owner.
pub open spec fn missing_owner_text(remote: Seq<char>) -> Seq<char> {
    "git remote `"@ + remote + "` missing owner"@
}

/// The message of the failure for a remote whose URL names no repository.
pub open spec fn missing_repository_text(remote: Seq<char>) -> Seq<char> {
    "git remote `"@ + remote + "` missing repository"@
}

/// The repository that a remote of the form `git@host:owner/name.git` names:
/// it has one colon, and after it, with every `.git` at the end taken off,
/// the owner before the first slash and the name after it.
pub open spec fn scp_repository(remote: Seq<char>) -> Result<RepositoryView, Seq<char>> {
    if !remote.contains(':') || tail_after(remote, ':').contains(':') {
        Err(unparsable_text(remote))
    } else {
        let path = strip_suffixes(tail_after(remote, ':'), ".git"@);
        if path.contains('/') {
            Ok(RepositoryView { owner: head_before(path, '/'), name: tail_after(path, '/') })
        } else {
            Err(unparsable_text(remote))
        }
    }
}

/// The repository that a remote in the form of a URL names: the first segment
/// of its path is the owner, the second, with every `.git` at the end taken
/// off, the name.
pub open spec fn url_repository(remote: Seq<char>) -> Result<RepositoryView, Seq<char>> {
    match url_parse(remote) {
        Some(url) => match url_path_segments(url) {
            Some(segments) => if segments.len() == 0 {
                Err(missing_owner_text(remote))
            } else if segments.len() == 1 {
                Err(missing_repository_text(remote))
            } else {
                Ok(
                    RepositoryView {
                        owner: segments[0],
                        name: strip_suffixes(segments[1], ".git"@),
                    },
                )
            },
            None => Err(no_segments_text(remote)),
        },
        None => Err(unparsable_text(remote)),
    }
}

/// The repository that a git remote names.
pub open spec fn remote_repository(remote: Seq<char>) -> Result<RepositoryView, Seq<char>> {
    if "git@"@.is_prefix_of(remote) {
        scp_repository(remote)
    } else {
        url_repository(remote)
    }
}

/// The failure with a message around the remote.
fn remote_failure(before: &str, remote: &str, after: &str) -> (r: PluginError)
    ensures
        r@ == before@ + remote@ + after@,
{
    PluginError { message: String::from_str(before).concat(remote).concat(after) }
}

/// Read the repository that a git remote names: see [`remote_repository`].
pub fn parse_remote(remote: &str) -> (r: Result<Repository, PluginError>)
    ensures
        match r {
            Ok(repository) => remote_repository(remote@) == Ok::<RepositoryView, Seq<char>>(
                repository@,
            ),
            Err(e) => remote_repository(remote@) == Err::<RepositoryView, Seq<char>>(e@),
        },
{
    if starts_with_text(remote, "git@") {
        let rest = match split_once_char(remote, ':') {
            Some((head, rest)) => {
                proof {
                    lemma_splits_at(remote@, ':', head@, rest@);
                }
                rest
            },
            None => {
                return Err(remote_failure("unable to parse git remote `", remote, "`"));
            },
        };
        if contains_char(rest, ':') {
            return Err(remote_failure("unable to parse git remote `", remote, "`"));
        }
        let path = trim_end_matches_text(rest, ".git");
        match split_once_char(path, '/') {
            Some((owner, name)) => {
                proof {
                    lemma_splits_at(path@, '/', owner@, name@);
                }
                Ok(Repository { owner: owner.to_owned(), name: name.to_owned() })
            },
            None => Err(remote_failure("unable to parse git remote `", remote, "`")),
        }
    } else {
        let url = match parse_url(remote) {
            Ok(url) => url,
            Err(_) => {
                return Err(remote_failure("unable to parse git remote `", remote, "`"));
            },
        };
        let segments = match path_segments(&url) {
            Some(segments) => segments,
            None => {
                return Err(
                    remote_failure("git remote `", remote, "` does not contain path segments"),
                );
            },
        };
        if segments.len() == 0 {
            Err(remote_failure("git remote `", remote, "` missing owner"))
        } else if segments.len() == 1 {
            Err(remote_failure("git remote `", remote, "` missing repository"))
        } else {
            Ok(
                Repository {
                    owner: segments[0].clone(),
                    name: trim_end_matches_text(segments[1].as_str(), ".git").to_owned(),
                },
            )
        }
    }
}

/// The address that lists the pull requests of a repository.
pub open spec fn pulls_address(repository: RepositoryView) -> Seq<char> {
    "https://api.github.com/repos/"@ + repository.owner + "/"@ + repository.name + "/pulls"@
}

/// The address that lists the pull requests of a repository.
pub fn pulls_url(repository: &Repository) -> (r: String)
    ensures
        r@ == pulls_address(repository@),
{
    String::from_str("https://api.github.com/repos/").concat(repository.owner.as_str()).concat(
        "/",
    ).concat(repository.name.as_str()).concat("/pulls")
}

/// The message of the failure where no repository was detected.
pub open spec fn no_repository_text() -> Seq<char> {
    "GitHub repository could not be detected. Run `git remote -v` to ensure `origin` is set."@
}

/// The address to ask for the pull requests, given the repository that was
/// detected; fails where none was.
pub fn list_address(repository: &Option<Repository>) -> (r: Result<String, PluginError>)
    ensures
        match *repository {
            Some(repo) => r matches Ok(address) && address@ == pulls_address(repo@),
            None => r matches Err(e) && e@ == no_repository_text(),
        },
{
    match repository {
        Some(repo) => Ok(pulls_url(repo)),
        None => Err(
            PluginError::new(
                "GitHub repository could not be detected. Run `git remote -v` to ensure `origin` is set.",
            ),
        ),
    }
}

/// A pull request, as far as the plugin shows it.
#[derive(Debug, PartialEq)]
pub struct PullRequest {
    pub number: u64,
    pub title: String,
    pub html_url: String,
    pub state: String,
    pub draft: bool,
    /// The login of the author, where GitHub names one.
    pub author: Option<String>,
    pub mergeable_state: Option<String>,
}

/// What a [`PullRequest`] says.
pub struct PullRequestView {
    pub number: u64,
    pub title: Seq<char>,
    pub html_url: Seq<char>,
    pub state: Seq<char>,
    pub draft: bool,
    pub author: Option<Seq<char>>,
    pub mergeable_state: Option<Seq<char>>,
}

impl View for PullRequest {
    type V = PullRequestView;

    open spec fn view(&self) -> PullRequestView {
        PullRequestView {
            number: self.number,
            title: self.title@,
            html_url: self.html_url@,
            state: self.state@,
            draft: self.draft,
            author: text_of(self.author),
            mergeable_state: text_of(self.mergeable_state),
        }
    }
}

/// The member of `v` under `key` is the optional string `text`: a string, or
/// `null` for none.
pub open spec fn has_optional_text(v: Value, key: Seq<char>, text: Option<Seq<char>>) -> bool {
    match json_field(v, key) {
        Some(f) => wire_optional_text(f, text),
        None => false,
    }
}

/// A pull request is written as an object with `number`, `title`, `url`,
/// `state`, `draft`, `author` and `mergeable_state`.
pub open spec fn wire_pull_request(v: Value, pr: PullRequestView) -> bool {
    &&& has_members(
        v,
        set![
            "number"@,
            "title"@,
            "url"@,
            "state"@,
            "draft"@,
            "author"@,
            "mergeable_state"@,
        ],
    )
    &&& match json_field(v, "number"@) {
        Some(n) => json_u64(n) == Some(pr.number),
        None => false,
    }
    &&& has_text(v, "title"@, pr.title)
    &&& has_text(v, "url"@, pr.html_url)
    &&& has_text(v, "state"@, pr.state)
    &&& match json_field(v, "draft"@) {
        Some(d) => json_bool(d) == Some(pr.draft),
        None => false,
    }
    &&& has_optional_text(v, "author"@, pr.author)
    &&& has_optional_text(v, "mergeable_state"@, pr.mergeable_state)
}

/// The answer to `helix.github.list_prs` is the array of the pull requests.
pub open spec fn wire_pull_requests(v: Value, prs: Seq<PullRequestView>) -> bool {
    match json_items(v) {
        Some(items) => {
            &&& items.len() == prs.len()
            &&& forall|i: int|
                0 <= i < items.len() ==> wire_pull_request(#[trigger] items[i], prs[i])
        },
        None => false,
    }
}

/// The member names of a pull request differ from one another.
proof fn lemma_pull_request_names_differ()
    ensures
        "number"@ != "title"@,
        "number"@ != "url"@,
        "number"@ != "state"@,
        "number"@ != "draft"@,
        "number"@ != "author"@,
        "number"@ != "mergeable_state"@,
        "title"@ != "url"@,
        "title"@ != "state"@,
        "title"@ != "draft"@,
        "title"@ != "author"@,
        "title"@ != "mergeable_state"@,
        "url"@ != "state"@,
        "url"@ != "draft"@,
        "url"@ != "author"@,
        "url"@ != "mergeable_state"@,
        "state"@ != "draft"@,
        "state"@ != "author"@,
        "state"@ != "mergeable_state"@,
        "draft"@ != "author"@,
        "draft"@ != "mergeable_state"@,
        "author"@ != "mergeable_state"@,
{
    reveal_strlit("number");
    reveal_strlit("title");
    reveal_strlit("url");
    reveal_strlit("state");
    reveal_strlit("draft");
    reveal_strlit("author");
    reveal_strlit("mergeable_state");
    assert("number"@[0] != "author"@[0]);
    assert("number"@.len() != "title"@.len());
    assert("number"@.len() != "url"@.len());
    assert("number"@.len() != "state"@.len());
    assert("number"@.len() != "draft"@.len());
    assert("number"@.len() != "mergeable_state"@.len());
    assert("title"@.len() != "url"@.len());
    assert("title"@[0] != "state"@[0]);
    assert("title"@[0] != "draft"@[0]);
    assert("title"@.len() != "author"@.len());
    assert("title"@.len() != "mergeable_state"@.len());
    assert("url"@.len() != "state"@.len());
    assert("url"@.len() != "draft"@.len());
    assert("url"@.len() != "author"@.len());
    assert("url"@.len() != "mergeable_state"@.len());
    assert("state"@[0] != "draft"@[0]);
    assert("state"@.len() != "author"@.len());
    assert("state"@.len() != "mergeable_state"@.len());
    assert("draft"@.len() != "author"@.len());
    assert("draft"@.len() != "mergeable_state"@.len());
    assert("author"@.len() != "mergeable_state"@.len());
}

/// Writes an optional string.
fn optional_text_value(text: &Option<String>) -> (r: Value)
    ensures
        wire_optional_text(r, text_of(*text)),
{
    match text {
        Some(t) => text_value(t.clone()),
        None => null_value(),
    }
}

/// Writes a pull request.
pub fn pull_request_value(pr: &PullRequest) -> (r: Value)
    ensures
        wire_pull_request(r, pr@),
{
    let pairs = vec![
        ("number".to_owned(), number_value(pr.number)),
        ("title".to_owned(), text_value(pr.title.clone())),
        ("url".to_owned(), text_value(pr.html_url.clone())),
        ("state".to_owned(), text_value(pr.state.clone())),
        ("draft".to_owned(), bool_value(pr.draft)),
        ("author".to_owned(), optional_text_value(&pr.author)),
        ("mergeable_state".to_owned(), optional_text_value(&pr.mergeable_state)),
    ];
    proof {
        lemma_pull_request_names_differ();
        assert(pairs@[0].0@ == "number"@);
        assert(pairs@[1].0@ == "title"@);
        assert(pairs@[2].0@ == "url"@);
        assert(pairs@[3].0@ == "state"@);
        assert(pairs@[4].0@ == "draft"@);
        assert(pairs@[5].0@ == "author"@);
        assert(pairs@[6].0@ == "mergeable_state"@);
        assert(distinct_keys(pairs@));
        assert(members_of(pairs@).dom() =~= set![
            "number"@,
            "title"@,
            "url"@,
            "state"@,
            "draft"@,
            "author"@,
            "mergeable_state"@,
        ]);
    }
    object_of(pairs)
}

/// The answer to `helix.github.list_prs`.
pub fn list_result(prs: &Vec<PullRequest>) -> (r: Value)
    ensures
        wire_pull_requests(r, prs@.map_values(|pr: PullRequest| pr@)),
{
    let mut items: Vec<Value> = Vec::new();
    let mut i: usize = 0;
    while i < prs.len()
        invariant
            i <= prs.len(),
            items.len() == i,
            forall|k: int| 0 <= k < i ==> wire_pull_request(#[trigger] items[k], prs[k]@),
        decreases prs.len() - i,
    {
        items.push(pull_request_value(&prs[i]));
        i += 1;
    }
    array_value(items)
}

/// The message of the failure for a command that the plugin does not have.
pub open spec fn unknown_command_text(command: Seq<char>) -> Seq<char> {
    "unknown command `"@ + command + "`"@
}

/// Whether a command is the plugin's; fails for any other.
pub fn check_command(command: &str) -> (r: Result<(), PluginError>)
    ensures
        match r {
            Ok(_) => command@ == list_command().id,
            Err(e) => command@ != list_command().id && e@ == unknown_command_text(command@),
        },
{
    if same_text(command, "helix.github.list_prs") {
        Ok(())
    } else {
        Err(
            PluginError {
                message: String::from_str("unknown command `").concat(command).concat("`"),
            },
        )
    }
}

/// The one command of the plugin.
pub open spec fn list_command() -> PluginCommandView {
    PluginCommandView {
        id: "helix.github.list_prs"@,
        title: "List GitHub pull requests"@,
        description: Some("Fetch open pull requests for the current repository"@),
    }
}

/// What the plugin logs when no repository was detected.
pub open spec fn no_remote_text() -> Seq<char> {
    "GitHub PR dashboard could not detect the repository. Commands will fail until a git remote is configured."@
}

/// Register the plugin's command and warn where no repository was detected.
/// Fails, before anything is logged, where the command is registered already.
pub fn initialize<R: Registrar>(
    repository_detected: bool,
    ctx: &mut InitializeContext,
    registrar: &mut R,
) -> (r: Result<(), PluginError>)
    ensures
        r is Ok <==> !command_ids(old(registrar).registered()).contains(list_command().id),
        match r {
            Ok(_) => {
                &&& final(registrar).registered() == old(registrar).registered().push(
                    list_command(),
                )
                &&& final(ctx).emitted() == if repository_detected {
                    old(ctx).emitted()
                } else {
                    old(ctx).emitted().push(
                        EventView::Log { level: MessageLevel::Warning, message: no_remote_text() },
                    )
                }
            },
            Err(e) => {
                &&& final(registrar).registered() == old(registrar).registered()
                &&& final(ctx).emitted() == old(ctx).emitted()
                &&& e@ == duplicate_command_text(list_command().id)
            },
        },
{
    let command = PluginCommand::new(
        "helix.github.list_prs",
        "List GitHub pull requests",
    ).with_description("Fetch open pull requests for the current repository");
    match registrar.register_command(command) {
        Ok(()) => {},
        Err(e) => {
            return Err(e);
        },
    }
    if !repository_detected {
        ctx.log(
            MessageLevel::Warning,
            "GitHub PR dashboard could not detect the repository. Commands will fail until a git remote is configured.",
        );
    }
    Ok(())
}

} // verus!
