//! Commit email mining: which author and committer addresses of a repository's
//! recent commits count as contacts, how they rank, and which requests to the
//! code-host API the mining needs.

use crate::errors::ScrapingError;
use crate::extractors::DataExtractor;
use crate::http::{HttpRequest, Reply};
use crate::text;
use crate::text::{contains, ends_with, opt_view, string_views};
use crate::weburl;
use crate::weburl::parsed_url;
use vstd::prelude::*;
use vstd::string::StringExecFns;

verus! {

/// What the metadata of a repository says of it.
#[derive(Debug, Clone)]
pub struct RepoInfo {
    pub fork: bool,
    pub default_branch: String,
}

/// The two addresses of one commit.
#[derive(Debug, Clone)]
pub struct CommitRecord {
    pub author_email: String,
    pub committer_email: String,
}

/// Where the mining of one repository stands.
#[derive(Debug, Clone)]
pub enum Mining {
    /// The metadata of the repository is to be fetched.
    NeedRepoInfo { repo_path: String, request: HttpRequest },
    /// The recent commits of the default branch are to be fetched.
    NeedCommits { request: HttpRequest },
    /// The mining has ended with these addresses, best first.
    Done { emails: Vec<String> },
}

/// The addresses of automation that never count.
pub open spec fn invalid_emails() -> Seq<Seq<char>> {
    seq![
        "noreply@github.com"@,
        "action@github.com"@,
        "actions@github.com"@,
        "github-actions@github.com"@,
        "github-actions[bot]@users.noreply.github.com"@,
        "dependabot[bot]@users.noreply.github.com"@,
        "renovate[bot]@users.noreply.github.com"@,
        "snyk-bot@users.noreply.github.com"@,
    ]
}

/// The domains whose addresses never count.
pub open spec fn invalid_domains() -> Seq<Seq<char>> {
    seq![
        "users.noreply.github.com"@,
        "noreply.github.com"@,
        "example.com"@,
        "localhost"@,
        "test.com"@,
        "placeholder.com"@,
    ]
}

/// The code of `c` with ASCII capitals folded to small letters.
pub open spec fn folded(c: char) -> u32 {
    if 65 <= c as u32 <= 90 {
        (c as u32 + 32) as u32
    } else {
        c as u32
    }
}

/// Whether two texts are equal but for the case of ASCII letters.
pub open spec fn eq_ignore_ascii_case(a: Seq<char>, b: Seq<char>) -> bool {
    a.len() == b.len() && forall|i: int| 0 <= i < a.len() ==> folded(a[i]) == folded(b[i])
}

/// The condition of being an `@`.
pub open spec fn is_at() -> spec_fn(char) -> bool {
    |c: char| c == '@'
}

/// What follows the first `@` of `email`.
pub open spec fn domain_of(email: Seq<char>) -> Seq<char> {
    email.subrange(text::index_of(email, '@') + 1, email.len() as int)
}

/// Whether `email` is one of the automation addresses, whatever the case.
pub open spec fn is_automation_address(email: Seq<char>) -> bool {
    exists|i: int|
        0 <= i < invalid_emails().len() && eq_ignore_ascii_case(
            email,
            #[trigger] invalid_emails()[i],
        )
}

/// Whether `email` ends with one of the domains that never count.
pub open spec fn has_invalid_domain(email: Seq<char>) -> bool {
    exists|i: int| 0 <= i < invalid_domains().len() && ends_with(email, #[trigger] invalid_domains()[i])
}

/// Whether a commit address counts as a contact: it holds `@` and `.`, is no
/// automation address, ends with no excluded domain, names no bot, and has
/// exactly one `@` with a `.` somewhere after it.
pub open spec fn is_contact_address(email: Seq<char>) -> bool {
    &&& contains(email, "@"@)
    &&& contains(email, "."@)
    &&& !is_automation_address(email)
    &&& !has_invalid_domain(email)
    &&& !contains(email, "[bot]"@)
    &&& !contains(email, "bot@"@)
    &&& email.filter(is_at()).len() == 1
    &&& domain_of(email).contains('.')
}

/// Whether an address reads like one of a machine.
pub open spec fn looks_automated(email: Seq<char>) -> bool {
    ||| contains(email, "noreply"@)
    ||| contains(email, "[bot]"@)
    ||| contains(email, "action"@)
    ||| contains(email, "automated"@)
}

/// Whether an address is at one of the large free mail services.
pub open spec fn is_free_webmail(email: Seq<char>) -> bool {
    ||| contains(email, "@gmail.com"@)
    ||| contains(email, "@yahoo.com"@)
    ||| contains(email, "@hotmail.com"@)
    ||| contains(email, "@outlook.com"@)
    ||| contains(email, "@protonmail.com"@)
    ||| contains(email, "@icloud.com"@)
}

/// Whether an address is at one of the large technology companies.
pub open spec fn is_big_tech(email: Seq<char>) -> bool {
    ||| contains(email, "@google.com"@)
    ||| contains(email, "@microsoft.com"@)
    ||| contains(email, "@apple.com"@)
    ||| contains(email, "@facebook.com"@)
    ||| contains(email, "@meta.com"@)
    ||| contains(email, "@amazon.com"@)
}

/// The rank of an address: 0 for automation, 2 for free webmail, 4 for the large
/// technology companies, 5 for any other domain.
pub open spec fn priority_of(email: Seq<char>) -> int {
    if looks_automated(email) {
        0
    } else if is_free_webmail(email) {
        2
    } else if is_big_tech(email) {
        4
    } else {
        5
    }
}

/// The condition of having priority `p`.
pub open spec fn has_priority(p: int) -> spec_fn(Seq<char>) -> bool {
    |email: Seq<char>| priority_of(email) == p
}

/// The addresses of `commits` in order: of each commit the author, then the
/// committer.
pub open spec fn addresses_of(commits: Seq<CommitRecord>) -> Seq<Seq<char>>
    decreases commits.len(),
{
    if commits.len() == 0 {
        Seq::empty()
    } else {
        addresses_of(commits.drop_last()).push(commits.last().author_email@).push(
            commits.last().committer_email@,
        )
    }
}

/// The condition of counting as a contact.
pub open spec fn counts() -> spec_fn(Seq<char>) -> bool {
    |email: Seq<char>| is_contact_address(email)
}

/// `emails` ordered by falling priority, equal ones in their given order.
pub open spec fn ranked(emails: Seq<Seq<char>>) -> Seq<Seq<char>> {
    emails.filter(has_priority(5)) + emails.filter(has_priority(4)) + emails.filter(
        has_priority(2),
    ) + emails.filter(has_priority(0))
}

/// The result of mining `commits`: the addresses that count, each once at its
/// first occurrence, ordered by falling priority, and of these the first two.
pub open spec fn mined(commits: Seq<CommitRecord>) -> Seq<Seq<char>> {
    let best = ranked(text::distinct(addresses_of(commits).filter(counts())));
    if best.len() <= 2 {
        best
    } else {
        best.take(2)
    }
}

/// The path `owner/repo` that a repository URL names: its first two path segments.
pub open spec fn repo_path_of(url: Seq<char>) -> Option<Seq<char>> {
    match parsed_url(url) {
        Some(u) => match u.path_segments {
            Some(segments) => if segments.len() >= 2 {
                Some(segments[0] + "/"@ + segments[1])
            } else {
                None
            },
            None => None,
        },
        None => None,
    }
}

/// The request for the metadata of a repository.
pub open spec fn repo_info_url(repo_path: Seq<char>) -> Seq<char> {
    "https://api.github.com/repos/"@ + repo_path
}

/// The request for the 15 most recent commits of a branch.
pub open spec fn commits_url(repo_path: Seq<char>, branch: Seq<char>) -> Seq<char> {
    "https://api.github.com/repos/"@ + repo_path + "/commits?sha="@ + branch + "&per_page=15"@
}

/// The `Authorization` header for a token.
pub open spec fn authorization_for(token: Option<Seq<char>>) -> Option<Seq<char>> {
    match token {
        Some(t) => Some("token "@ + t),
        None => None,
    }
}

/// Whether `request` is the GET of `url` with the headers that `token` calls for.
pub open spec fn is_api_request(request: HttpRequest, url: Seq<char>, token: Option<Seq<char>>) -> bool {
    &&& request.url@ == url
    &&& request.accept is None
    &&& opt_view(request.authorization) == authorization_for(token)
    &&& opt_view(request.user_agent) == Some("Lead-Scraper/1.0"@)
}

/// Whether `next` is where the mining of the repository at `url` begins: with the
/// metadata request, or at its end with nothing where `url` names no repository.
pub open spec fn is_mining_start(next: Mining, url: Seq<char>, token: Option<Seq<char>>) -> bool {
    match repo_path_of(url) {
        Some(path) => next matches Mining::NeedRepoInfo { repo_path, request } && repo_path@ == path
            && is_api_request(request, repo_info_url(path), token),
        None => next matches Mining::Done { emails } && emails@.len() == 0,
    }
}

fn fold_code(c: char) -> (code: u32)
    ensures
        code == folded(c),
{
    let code = c as u32;
    if 65 <= code && code <= 90 {
        code + 32
    } else {
        code
    }
}

/// Whether two texts are equal but for the case of ASCII letters.
pub fn same_ignoring_ascii_case(a: &Vec<char>, b: &Vec<char>) -> (eq: bool)
    ensures
        eq == eq_ignore_ascii_case(a@, b@),
{
    if a.len() != b.len() {
        return false;
    }
    let mut i: usize = 0;
    while i < a.len()
        invariant
            i <= a.len(),
            a.len() == b.len(),
            forall|j: int| 0 <= j < i ==> folded(a@[j]) == folded(b@[j]),
        decreases a.len() - i,
    {
        if fold_code(a[i]) != fold_code(b[i]) {
            return false;
        }
        i += 1;
    }
    true
}

fn invalid_email_list() -> (v: Vec<String>)
    ensures
        string_views(v@) == invalid_emails(),
{
    let mut v: Vec<String> = Vec::new();
    v.push(String::from_str("noreply@github.com"));
    v.push(String::from_str("action@github.com"));
    v.push(String::from_str("actions@github.com"));
    v.push(String::from_str("github-actions@github.com"));
    v.push(String::from_str("github-actions[bot]@users.noreply.github.com"));
    v.push(String::from_str("dependabot[bot]@users.noreply.github.com"));
    v.push(String::from_str("renovate[bot]@users.noreply.github.com"));
    v.push(String::from_str("snyk-bot@users.noreply.github.com"));
    assert(string_views(v@) =~= invalid_emails());
    v
}

fn invalid_domain_list() -> (v: Vec<String>)
    ensures
        string_views(v@) == invalid_domains(),
{
    let mut v: Vec<String> = Vec::new();
    v.push(String::from_str("users.noreply.github.com"));
    v.push(String::from_str("noreply.github.com"));
    v.push(String::from_str("example.com"));
    v.push(String::from_str("localhost"));
    v.push(String::from_str("test.com"));
    v.push(String::from_str("placeholder.com"));
    assert(string_views(v@) =~= invalid_domains());
    v
}

/// Whether `email` is one of the automation addresses, whatever the case.
fn is_automation(email: &Vec<char>) -> (b: bool)
    ensures
        b == is_automation_address(email@),
{
    let list = invalid_email_list();
    let mut i: usize = 0;
    while i < list.len()
        invariant
            i <= list.len(),
            string_views(list@) == invalid_emails(),
            forall|j: int|
                0 <= j < i ==> !eq_ignore_ascii_case(email@, #[trigger] invalid_emails()[j]),
        decreases list.len() - i,
    {
        let other = text::to_chars(list[i].as_str());
        assert(other@ == invalid_emails()[i as int]) by {
            assert(string_views(list@)[i as int] == list@[i as int]@);
        }
        if same_ignoring_ascii_case(email, &other) {
            return true;
        }
        i += 1;
    }
    false
}

/// Whether `email` ends with one of the domains that never count.
fn ends_with_invalid_domain(email: &Vec<char>) -> (b: bool)
    ensures
        b == has_invalid_domain(email@),
{
    let list = invalid_domain_list();
    let mut i: usize = 0;
    while i < list.len()
        invariant
            i <= list.len(),
            string_views(list@) == invalid_domains(),
            forall|j: int| 0 <= j < i ==> !ends_with(email@, #[trigger] invalid_domains()[j]),
        decreases list.len() - i,
    {
        let other = text::to_chars(list[i].as_str());
        assert(other@ == invalid_domains()[i as int]) by {
            assert(string_views(list@)[i as int] == list@[i as int]@);
        }
        if text::ends_with_chars(email, &other) {
            return true;
        }
        i += 1;
    }
    false
}

/// Whether `s` holds the text `p`.
fn holds(s: &Vec<char>, p: &str) -> (b: bool)
    ensures
        b == contains(s@, p@),
{
    let needle = text::to_chars(p);
    text::contains_chars(s, &needle)
}

/// The number of `@` in `s`.
fn count_at(s: &Vec<char>) -> (n: usize)
    ensures
        n == s@.filter(is_at()).len(),
{
    let mut n: usize = 0;
    let mut i: usize = 0;
    assert(s@.take(0) =~= Seq::<char>::empty());
    while i < s.len()
        invariant
            i <= s.len(),
            n <= i,
            n == s@.take(i as int).filter(is_at()).len(),
        decreases s.len() - i,
    {
        proof {
            assert(s@.take(i + 1) =~= s@.take(i as int).push(s@[i as int]));
            s@.take(i as int).lemma_filter_push(s@[i as int], is_at());
        }
        if s[i] == '@' {
            n += 1;
        }
        i += 1;
    }
    assert(s@.take(s.len() as int) =~= s@);
    n
}

impl DataExtractor {
    /// Whether a commit address counts as a contact.
    pub fn is_valid_commit_email(&self, email: &str) -> (ok: bool)
        ensures
            ok == is_contact_address(email@),
    {
        let chars = text::to_chars(email);
        if !holds(&chars, "@") || !holds(&chars, ".") {
            return false;
        }
        if is_automation(&chars) {
            return false;
        }
        if ends_with_invalid_domain(&chars) {
            return false;
        }
        if holds(&chars, "[bot]") || holds(&chars, "bot@") {
            return false;
        }
        if count_at(&chars) != 1 {
            return false;
        }
        let at = text::find_char(&chars, '@', 0);
        assert(chars@.subrange(0, chars.len() as int) =~= chars@);
        if at >= chars.len() {
            proof {
                reveal_strlit("@");
                let i = choose|i: int| text::occurs_at(chars@, "@"@, i);
                assert(chars@.subrange(i, i + 1)[0] == '@');
                assert(chars@[i] == '@');
                lemma_index_of_contains(chars@, '@');
            }
            return false;
        }
        let dot = text::find_char(&chars, '.', at + 1);
        proof {
            let d = domain_of(chars@);
            assert(d == chars@.subrange(at + 1, chars.len() as int));
            lemma_index_of_contains(d, '.');
        }
        dot < chars.len()
    }

    /// The rank of an address: 0 for automation, 2 for free webmail, 4 for the
    /// large technology companies, 5 for any other domain.
    pub fn email_priority(&self, email: &str) -> (priority: u8)
        ensures
            priority == priority_of(email@),
    {
        let chars = text::to_chars(email);
        if holds(&chars, "noreply") || holds(&chars, "[bot]") || holds(&chars, "action") || holds(
            &chars,
            "automated",
        ) {
            return 0;
        }
        if holds(&chars, "@gmail.com") || holds(&chars, "@yahoo.com") || holds(
            &chars,
            "@hotmail.com",
        ) || holds(&chars, "@outlook.com") || holds(&chars, "@protonmail.com") || holds(
            &chars,
            "@icloud.com",
        ) {
            return 2;
        }
        if holds(&chars, "@google.com") || holds(&chars, "@microsoft.com") || holds(
            &chars,
            "@apple.com",
        ) || holds(&chars, "@facebook.com") || holds(&chars, "@meta.com") || holds(
            &chars,
            "@amazon.com",
        ) {
            return 4;
        }
        5
    }
}

/// Whether `list` already holds the text of `email`.
fn is_listed(list: &Vec<String>, email: &String) -> (b: bool)
    ensures
        b == string_views(list@).contains(email@),
{
    let mut i: usize = 0;
    while i < list.len()
        invariant
            i <= list.len(),
            forall|j: int| 0 <= j < i ==> list@[j]@ != email@,
        decreases list.len() - i,
    {
        if list[i] == *email {
            assert(string_views(list@)[i as int] == email@);
            return true;
        }
        i += 1;
    }
    assert(!string_views(list@).contains(email@)) by {
        if string_views(list@).contains(email@) {
            let j = choose|j: int|
                0 <= j < string_views(list@).len() && string_views(list@)[j] == email@;
            assert(list@[j]@ == email@);
        }
    }
    false
}

/// The first two entries of `list`, or all of them where there are fewer.
fn first_two(list: Vec<String>) -> (out: Vec<String>)
    ensures
        string_views(out@) == if string_views(list@).len() <= 2 {
            string_views(list@)
        } else {
            string_views(list@).take(2)
        },
{
    let mut out = list;
    if out.len() > 2 {
        out.truncate(2);
        assert(string_views(out@) =~= string_views(list@).take(2));
    }
    out
}

impl DataExtractor {
    /// Takes `email` into `unique` where it counts and is not yet there.
    fn note_address(&self, unique: &mut Vec<String>, email: &String, Ghost(seen): Ghost<
        Seq<Seq<char>>,
    >)
        requires
            string_views(old(unique)@) == text::distinct(seen.filter(counts())),
        ensures
            string_views(final(unique)@) == text::distinct(seen.push(email@).filter(counts())),
    {
        let ghost kept = seen.filter(counts());
        proof {
            seen.lemma_filter_push(email@, counts());
        }
        if self.is_valid_commit_email(email.as_str()) {
            proof {
                assert(kept.push(email@).drop_last() =~= kept);
            }
            if !is_listed(unique, email) {
                let ghost before = string_views(unique@);
                unique.push(email.clone());
                assert(string_views(unique@) =~= before.push(email@));
            }
        }
    }

    /// Appends to `out` the addresses of `unique` that have priority `p`.
    fn take_priority(&self, out: &mut Vec<String>, unique: &Vec<String>, p: u8)
        ensures
            string_views(final(out)@) == string_views(old(out)@) + string_views(unique@).filter(
                has_priority(p as int),
            ),
    {
        let ghost all = string_views(unique@);
        let ghost start = string_views(out@);
        let mut i: usize = 0;
        proof {
            reveal(Seq::filter);
            assert(all.take(0) =~= Seq::<Seq<char>>::empty());
            assert(start + Seq::<Seq<char>>::empty() =~= start);
        }
        while i < unique.len()
            invariant
                i <= unique.len(),
                all == string_views(unique@),
                string_views(out@) == start + all.take(i as int).filter(has_priority(p as int)),
            decreases unique.len() - i,
        {
            let ghost before = string_views(out@);
            proof {
                assert(all[i as int] == unique@[i as int]@);
                assert(all.take(i + 1) =~= all.take(i as int).push(all[i as int]));
                all.take(i as int).lemma_filter_push(all[i as int], has_priority(p as int));
            }
            if self.email_priority(unique[i].as_str()) == p {
                out.push(unique[i].clone());
                assert(string_views(out@) =~= before.push(all[i as int]));
            }
            i += 1;
        }
        assert(all.take(unique.len() as int) =~= all);
    }

    /// The addresses mined from `commits`: those that count, each once, ordered by
    /// falling priority, at most two.
    pub fn extract_valid_emails_from_commits(&self, commits: Vec<CommitRecord>) -> (emails: Vec<
        String,
    >)
        ensures
            string_views(emails@) == mined(commits@),
            emails@.len() <= 2,
    {
        let mut unique: Vec<String> = Vec::new();
        let mut i: usize = 0;
        proof {
            reveal(Seq::filter);
            assert(commits@.take(0) =~= Seq::<CommitRecord>::empty());
            assert(string_views(unique@) =~= Seq::<Seq<char>>::empty());
        }
        while i < commits.len()
            invariant
                i <= commits.len(),
                string_views(unique@) == text::distinct(
                    addresses_of(commits@.take(i as int)).filter(counts()),
                ),
            decreases commits.len() - i,
        {
            let ghost seen = addresses_of(commits@.take(i as int));
            proof {
                assert(commits@.take(i + 1).drop_last() =~= commits@.take(i as int));
                assert(commits@.take(i + 1).last() == commits@[i as int]);
            }
            self.note_address(&mut unique, &commits[i].author_email, Ghost(seen));
            self.note_address(
                &mut unique,
                &commits[i].committer_email,
                Ghost(seen.push(commits@[i as int].author_email@)),
            );
            i += 1;
        }
        assert(commits@.take(commits.len() as int) =~= commits@);
        let mut best: Vec<String> = Vec::new();
        assert(string_views(best@) =~= Seq::<Seq<char>>::empty());
        self.take_priority(&mut best, &unique, 5);
        self.take_priority(&mut best, &unique, 4);
        self.take_priority(&mut best, &unique, 2);
        self.take_priority(&mut best, &unique, 0);
        assert(string_views(best@) =~= ranked(string_views(unique@)));
        first_two(best)
    }

    /// The path `owner/repo` of a repository URL. Fails with a parse error where
    /// the URL does not parse or has fewer than two path segments.
    pub fn parse_github_url(&self, url: &str) -> (r: Result<String, ScrapingError>)
        ensures
            match repo_path_of(url@) {
                Some(path) => r matches Ok(p) && p@ == path,
                None => r matches Err(ScrapingError::ParseError(m)) && m@
                    == "Invalid GitHub URL: "@ + url@,
            },
    {
        match weburl::parse(url) {
            Some(parsed) => match &parsed.path_segments {
                Some(segments) => {
                    if segments.len() >= 2 {
                        assert(string_views(segments@)[0] == segments@[0]@);
                        assert(string_views(segments@)[1] == segments@[1]@);
                        return Ok(
                            segments[0].clone().concat("/").concat(segments[1].as_str()),
                        );
                    }
                },
                None => {},
            },
            None => {},
        }
        Err(ScrapingError::ParseError(String::from_str("Invalid GitHub URL: ").concat(url)))
    }

    /// The request to the code-host API for `url`, with the configured token.
    fn api_request(&self, url: String) -> (request: HttpRequest)
        ensures
            is_api_request(request, url@, self.token()),
    {
        let authorization = match self.github_token() {
            Some(token) => Some(String::from_str("token ").concat(token.as_str())),
            None => None,
        };
        HttpRequest {
            url,
            accept: None,
            authorization,
            user_agent: Some(String::from_str("Lead-Scraper/1.0")),
        }
    }

    /// What a reply to the metadata request amounts to: the metadata, or a network
    /// error where the request failed or was refused, or a parse error where the
    /// body was not understood.
    pub fn repo_info_result(&self, reply: Reply<RepoInfo>) -> (r: Result<RepoInfo, ScrapingError>)
        ensures
            match reply {
                Reply::Unreachable(why) => r matches Err(ScrapingError::NetworkError(m)) && m@
                    == "Failed to get repo info: "@ + why@,
                Reply::Refused(status) => r matches Err(ScrapingError::NetworkError(m)) && m@
                    == "GitHub API error: "@ + status@,
                Reply::Unreadable(why) => r matches Err(ScrapingError::ParseError(m)) && m@
                    == "Failed to parse repo info: "@ + why@,
                Reply::Received(info) => r == Ok::<RepoInfo, ScrapingError>(info),
            },
    {
        match reply {
            Reply::Unreachable(why) => Err(
                ScrapingError::NetworkError(
                    String::from_str("Failed to get repo info: ").concat(why.as_str()),
                ),
            ),
            Reply::Refused(status) => Err(
                ScrapingError::NetworkError(
                    String::from_str("GitHub API error: ").concat(status.as_str()),
                ),
            ),
            Reply::Unreadable(why) => Err(
                ScrapingError::ParseError(
                    String::from_str("Failed to parse repo info: ").concat(why.as_str()),
                ),
            ),
            Reply::Received(info) => Ok(info),
        }
    }

    /// What a reply to the commits request amounts to: the commits, none where the
    /// request was refused, or a network error where it failed, or a parse error
    /// where the body was not understood.
    pub fn commits_result(&self, reply: Reply<Vec<CommitRecord>>) -> (r: Result<
        Vec<CommitRecord>,
        ScrapingError,
    >)
        ensures
            match reply {
                Reply::Unreachable(why) => r matches Err(ScrapingError::NetworkError(m)) && m@
                    == "Failed to get commits: "@ + why@,
                Reply::Refused(_) => r matches Ok(commits) && commits@.len() == 0,
                Reply::Unreadable(why) => r matches Err(ScrapingError::ParseError(m)) && m@
                    == "Failed to parse commits: "@ + why@,
                Reply::Received(commits) => r == Ok::<Vec<CommitRecord>, ScrapingError>(commits),
            },
    {
        match reply {
            Reply::Unreachable(why) => Err(
                ScrapingError::NetworkError(
                    String::from_str("Failed to get commits: ").concat(why.as_str()),
                ),
            ),
            Reply::Refused(_) => Ok(Vec::new()),
            Reply::Unreadable(why) => Err(
                ScrapingError::ParseError(
                    String::from_str("Failed to parse commits: ").concat(why.as_str()),
                ),
            ),
            Reply::Received(commits) => Ok(commits),
        }
    }

    /// Begins the mining of the repository at `github_url`: the metadata is asked
    /// for, unless the URL names no repository, which ends the mining with nothing.
    pub fn extract_github_commit_emails(&self, github_url: &str) -> (next: Mining)
        ensures
            is_mining_start(next, github_url@, self.token()),
    {
        match self.parse_github_url(github_url) {
            Ok(repo_path) => {
                let url = String::from_str("https://api.github.com/repos/").concat(
                    repo_path.as_str(),
                );
                let request = self.api_request(url);
                Mining::NeedRepoInfo { repo_path, request }
            },
            Err(_) => Mining::Done { emails: Vec::new() },
        }
    }

    /// Goes on after the metadata request: a failed request or a fork ends the
    /// mining with nothing, else the recent commits of the default branch are
    /// asked for.
    pub fn on_repo_info(&self, repo_path: &str, reply: Result<RepoInfo, ScrapingError>) -> (next:
        Mining)
        ensures
            match reply {
                Ok(info) if !info.fork => next matches Mining::NeedCommits { request }
                    && is_api_request(
                    request,
                    commits_url(repo_path@, info.default_branch@),
                    self.token(),
                ),
                _ => next matches Mining::Done { emails } && emails@.len() == 0,
            },
    {
        match reply {
            Ok(info) => {
                if info.fork {
                    Mining::Done { emails: Vec::new() }
                } else {
                    let url = String::from_str("https://api.github.com/repos/").concat(
                        repo_path,
                    ).concat("/commits?sha=").concat(info.default_branch.as_str()).concat(
                        "&per_page=15",
                    );
                    Mining::NeedCommits { request: self.api_request(url) }
                }
            },
            Err(_) => Mining::Done { emails: Vec::new() },
        }
    }

    /// Ends the mining after the commits request: the mined addresses of the
    /// commits, or nothing where the request failed.
    pub fn on_commits(&self, reply: Result<Vec<CommitRecord>, ScrapingError>) -> (next: Mining)
        ensures
            next matches Mining::Done { emails } && emails@.len() <= 2 && string_views(emails@)
                == (match reply {
                Ok(commits) => mined(commits@),
                Err(_) => Seq::empty(),
            }),
    {
        match reply {
            Ok(commits) => Mining::Done { emails: self.extract_valid_emails_from_commits(commits) },
            Err(_) => {
                let emails: Vec<String> = Vec::new();
                assert(string_views(emails@) =~= Seq::<Seq<char>>::empty());
                Mining::Done { emails }
            },
        }
    }
}

/// Filtering keeps a list free of repetitions, keeps only its own entries, and
/// keeps only entries that meet the condition.
pub proof fn lemma_filter_of_distinct(list: Seq<Seq<char>>, pred: spec_fn(Seq<char>) -> bool)
    requires
        list.no_duplicates(),
    ensures
        list.filter(pred).no_duplicates(),
        forall|i: int|
            0 <= i < list.filter(pred).len() ==> pred(#[trigger] list.filter(pred)[i])
                && list.contains(list.filter(pred)[i]),
    decreases list.len(),
{
    reveal(Seq::filter);
    if list.len() > 0 {
        let front = list.drop_last();
        lemma_filter_of_distinct(front, pred);
        let kept = front.filter(pred);
        assert forall|i: int| 0 <= i < list.filter(pred).len() implies pred(
            #[trigger] list.filter(pred)[i],
        ) && list.contains(list.filter(pred)[i]) by {
            if i < kept.len() {
                assert(front.contains(kept[i]));
                let j = choose|j: int| 0 <= j < front.len() && front[j] == kept[i];
                assert(list[j] == kept[i]);
            } else {
                assert(list[list.len() - 1] == list.last());
            }
        }
        if pred(list.last()) {
            assert forall|i: int, j: int|
                0 <= i < list.filter(pred).len() && 0 <= j < list.filter(pred).len() && i
                    != j implies list.filter(pred)[i] != list.filter(pred)[j] by {
                if i < kept.len() && j < kept.len() {
                } else {
                    let k = if i < kept.len() {
                        i
                    } else {
                        j
                    };
                    assert(front.contains(kept[k]));
                    let m = choose|m: int| 0 <= m < front.len() && front[m] == kept[k];
                    assert(list[m] == kept[k]);
                    assert(list[m] != list[list.len() - 1]);
                }
            }
        }
    }
}

/// What mining yields is ranked: at most two addresses, each of them a contact
/// address that occurs in the commits, none twice, and none before an address of
/// higher priority.
pub proof fn lemma_mined_is_ranked(commits: Seq<CommitRecord>)
    ensures
        mined(commits).len() <= 2,
        mined(commits).no_duplicates(),
        forall|i: int|
            0 <= i < mined(commits).len() ==> is_contact_address(#[trigger] mined(commits)[i])
                && addresses_of(commits).contains(mined(commits)[i]),
        forall|i: int, j: int|
            0 <= i < j < mined(commits).len() ==> priority_of(#[trigger] mined(commits)[i])
                >= priority_of(#[trigger] mined(commits)[j]),
{
    let all = addresses_of(commits);
    let valid = all.filter(counts());
    let unique = text::distinct(valid);
    text::lemma_distinct(valid);
    let custom = unique.filter(has_priority(5));
    let company = unique.filter(has_priority(4));
    let webmail = unique.filter(has_priority(2));
    let automated = unique.filter(has_priority(0));
    lemma_filter_of_distinct(unique, has_priority(5));
    lemma_filter_of_distinct(unique, has_priority(4));
    lemma_filter_of_distinct(unique, has_priority(2));
    lemma_filter_of_distinct(unique, has_priority(0));
    let best = ranked(unique);
    assert(best == custom + company + webmail + automated);
    assert forall|i: int| 0 <= i < best.len() implies is_contact_address(#[trigger] best[i])
        && all.contains(best[i]) && unique.contains(best[i]) by {
        let e = best[i];
        if i < custom.len() {
            assert(e == custom[i]);
        } else if i < custom.len() + company.len() {
            assert(e == company[i - custom.len()]);
        } else if i < custom.len() + company.len() + webmail.len() {
            assert(e == webmail[i - custom.len() - company.len()]);
        } else {
            assert(e == automated[i - custom.len() - company.len() - webmail.len()]);
        }
        assert(unique.contains(e));
        assert(valid.contains(e));
        let j = choose|j: int| 0 <= j < valid.len() && valid[j] == e;
        all.lemma_filter_pred(counts(), j);
        all.lemma_filter_contains_rev(counts(), e);
    }
    assert forall|i: int, j: int| 0 <= i < j < best.len() implies priority_of(#[trigger] best[i])
        >= priority_of(#[trigger] best[j]) && best[i] != best[j] by {
        let a = custom.len();
        let b = a + company.len();
        let c = b + webmail.len();
        if i < a {
            assert(best[i] == custom[i]);
        } else if i < b {
            assert(best[i] == company[i - a]);
        } else if i < c {
            assert(best[i] == webmail[i - b]);
        } else {
            assert(best[i] == automated[i - c]);
        }
        if j < a {
            assert(best[j] == custom[j]);
        } else if j < b {
            assert(best[j] == company[j - a]);
        } else if j < c {
            assert(best[j] == webmail[j - b]);
        } else {
            assert(best[j] == automated[j - c]);
        }
    }
    let m = mined(commits);
    assert forall|i: int| 0 <= i < m.len() implies m[i] == best[i] by {}
}

/// A character stands in a text exactly when its first index lies inside it.
pub proof fn lemma_index_of_contains(s: Seq<char>, c: char)
    ensures
        0 <= text::index_of(s, c) <= s.len(),
        s.contains(c) <==> text::index_of(s, c) < s.len(),
    decreases s.len(),
{
    if s.len() == 0 {
    } else if s.first() == c {
        assert(s[0] == c);
    } else {
        let rest = s.drop_first();
        lemma_index_of_contains(rest, c);
        if s.contains(c) {
            let i = choose|i: int| 0 <= i < s.len() && s[i] == c;
            assert(rest[i - 1] == c);
        }
        if rest.contains(c) {
            let i = choose|i: int| 0 <= i < rest.len() && rest[i] == c;
            assert(s[i + 1] == c);
        }
    }
}

} // verus!
