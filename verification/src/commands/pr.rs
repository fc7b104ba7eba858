//! `tix pr`: reading the `origin` URL, choosing the hosting provider, and building the
//! page that opens a pull request.

use vstd::prelude::*;

use crate::text::{
    chars_of, contains, contains_exec, ends_with, find_char, is_white, lemma_find_char_bounds, split_once,
    split_once_exec, starts_with, str_eq, string_of, strip_prefix, strip_prefix_exec, trim, trim_chars,
    trim_end, trim_end_matches, trim_end_matches_exec, trim_start,
};

verus! {

/// A code-hosting provider.
#[derive(Debug, Clone, Copy, PartialEq, Eq, Structural)]
pub enum Provider {
    GitHub,
    GitLab,
    Bitbucket,
}

/// The parts of a remote URL that name a repository.
#[derive(Debug, Clone, PartialEq, Eq)]
pub struct OriginUrl {
    pub host: String,
    pub owner: String,
    pub repo: String,
}

/// The URL with surrounding white space, then trailing slashes, then trailing `.git`
/// suffixes removed.
pub open spec fn origin_trimmed(url: Seq<char>) -> Seq<char> {
    trim_end_matches(trim_end_matches(trim(url), "/"@), ".git"@)
}

/// An scp-like remote, `git@HOST:OWNER/REPO`.
pub open spec fn scp_parts(t: Seq<char>) -> Option<(Seq<char>, Seq<char>, Seq<char>)> {
    match strip_prefix(t, "git@"@) {
        Some(rest) => match split_once(rest, ':') {
            Some((host, path)) => match split_once(path, '/') {
                Some((owner, repo)) => Some((host, owner, repo)),
                None => None,
            },
            None => None,
        },
        None => None,
    }
}

/// What follows the scheme of an `https://`, `http://` or `ssh://` remote.
pub open spec fn after_scheme(t: Seq<char>) -> Option<Seq<char>> {
    match strip_prefix(t, "https://"@) {
        Some(r) => Some(r),
        None => match strip_prefix(t, "http://"@) {
            Some(r) => Some(r),
            None => strip_prefix(t, "ssh://"@),
        },
    }
}

/// A URL remote, `SCHEME://HOST/OWNER/REPO` (the repo part may hold further slashes).
pub open spec fn url_parts(t: Seq<char>) -> Option<(Seq<char>, Seq<char>, Seq<char>)> {
    match after_scheme(t) {
        Some(rest) => match split_once(rest, '/') {
            Some((host, r2)) => match split_once(r2, '/') {
                Some((owner, repo)) => Some((host, owner, repo)),
                None => None,
            },
            None => None,
        },
        None => None,
    }
}

/// Host, owner and repository of a remote URL, when it has one of the known shapes.
pub open spec fn origin_parts(url: Seq<char>) -> Option<(Seq<char>, Seq<char>, Seq<char>)> {
    let t = origin_trimmed(url);
    match scp_parts(t) {
        Some(p) => Some(p),
        None => url_parts(t),
    }
}

fn scp_parts_exec(t: &[char]) -> (r: Option<(Vec<char>, Vec<char>, Vec<char>)>)
    ensures
        r matches Some((h, o, p)) ==> scp_parts(t@) == Some((h@, o@, p@)),
        r is None ==> scp_parts(t@) is None,
{
    let pre = chars_of("git@");
    let rest = match strip_prefix_exec(t, pre.as_slice()) {
        Some(r) => r,
        None => return None,
    };
    let (host, path) = match split_once_exec(rest.as_slice(), ':') {
        Some(x) => x,
        None => return None,
    };
    match split_once_exec(path.as_slice(), '/') {
        Some((owner, repo)) => Some((host, owner, repo)),
        None => None,
    }
}

fn after_scheme_exec(t: &[char]) -> (r: Option<Vec<char>>)
    ensures
        r matches Some(v) ==> after_scheme(t@) == Some(v@),
        r is None ==> after_scheme(t@) is None,
{
    let a = chars_of("https://");
    if let Some(r) = strip_prefix_exec(t, a.as_slice()) {
        return Some(r);
    }
    let b = chars_of("http://");
    if let Some(r) = strip_prefix_exec(t, b.as_slice()) {
        return Some(r);
    }
    let c = chars_of("ssh://");
    strip_prefix_exec(t, c.as_slice())
}

fn url_parts_exec(t: &[char]) -> (r: Option<(Vec<char>, Vec<char>, Vec<char>)>)
    ensures
        r matches Some((h, o, p)) ==> url_parts(t@) == Some((h@, o@, p@)),
        r is None ==> url_parts(t@) is None,
{
    let rest = match after_scheme_exec(t) {
        Some(r) => r,
        None => return None,
    };
    let (host, r2) = match split_once_exec(rest.as_slice(), '/') {
        Some(x) => x,
        None => return None,
    };
    match split_once_exec(r2.as_slice(), '/') {
        Some((owner, repo)) => Some((host, owner, repo)),
        None => None,
    }
}

/// Reads host, owner and repository from a remote URL: `git@HOST:OWNER/REPO` or
/// `https://`, `http://`, `ssh://` followed by `HOST/OWNER/REPO`, after trimming
/// white space, trailing slashes and a trailing `.git`.
pub fn parse_origin(url: &str) -> (r: Option<OriginUrl>)
    ensures
        r matches Some(o) ==> origin_parts(url@) == Some((o.host@, o.owner@, o.repo@)),
        r is None ==> origin_parts(url@) is None,
{
    let cs = chars_of(url);
    let t0 = trim_chars(cs.as_slice());
    let slash = chars_of("/");
    let t1 = trim_end_matches_exec(t0.as_slice(), slash.as_slice());
    let git = chars_of(".git");
    let t = trim_end_matches_exec(t1.as_slice(), git.as_slice());
    let parts = match scp_parts_exec(t.as_slice()) {
        Some(p) => Some(p),
        None => url_parts_exec(t.as_slice()),
    };
    match parts {
        Some((h, o, p)) => Some(
            OriginUrl {
                host: string_of(h.as_slice()),
                owner: string_of(o.as_slice()),
                repo: string_of(p.as_slice()),
            },
        ),
        None => None,
    }
}

/// The provider for a remote host: known hosts by name, otherwise the configured
/// fallback (`gitlab`, `bitbucket`, anything else GitHub).
pub open spec fn provider_for(host: Seq<char>, fallback: Seq<char>) -> Provider {
    if contains(host, "github.com"@) {
        Provider::GitHub
    } else if contains(host, "gitlab.com"@) {
        Provider::GitLab
    } else if contains(host, "bitbucket.org"@) {
        Provider::Bitbucket
    } else if fallback == "gitlab"@ {
        Provider::GitLab
    } else if fallback == "bitbucket"@ {
        Provider::Bitbucket
    } else {
        Provider::GitHub
    }
}

/// The provider for a remote host, or the configured fallback when the host is not
/// one of the known ones.
pub fn detect_provider(host: &str, fallback: &str) -> (p: Provider)
    ensures
        p == provider_for(host@, fallback@),
{
    let h = chars_of(host);
    let gh = chars_of("github.com");
    let gl = chars_of("gitlab.com");
    let bb = chars_of("bitbucket.org");
    if contains_exec(h.as_slice(), gh.as_slice()) {
        Provider::GitHub
    } else if contains_exec(h.as_slice(), gl.as_slice()) {
        Provider::GitLab
    } else if contains_exec(h.as_slice(), bb.as_slice()) {
        Provider::Bitbucket
    } else if str_eq(fallback, "gitlab") {
        Provider::GitLab
    } else if str_eq(fallback, "bitbucket") {
        Provider::Bitbucket
    } else {
        Provider::GitHub
    }
}

/// The page that starts a pull (or merge) request for `branch`.
pub open spec fn pr_url(host: Seq<char>, owner: Seq<char>, repo: Seq<char>, provider: Provider, branch: Seq<char>) -> Seq<char> {
    let base = "https://"@ + host + "/"@ + owner + "/"@ + repo;
    match provider {
        Provider::GitHub => base + "/compare/"@ + branch + "?expand=1"@,
        Provider::GitLab => base + "/-/merge_requests/new?merge_request%5Bsource_branch%5D="@ + branch,
        Provider::Bitbucket => base + "/pull-requests/new?source="@ + branch,
    }
}

/// The page that starts a pull request for `branch` on the provider.
pub fn build_pr_url(origin: &OriginUrl, provider: Provider, branch: &str) -> (u: String)
    ensures
        u@ == pr_url(origin.host@, origin.owner@, origin.repo@, provider, branch@),
        starts_with(u@, "https://"@ + origin.host@ + "/"@ + origin.owner@ + "/"@ + origin.repo@ + "/"@),
{
    proof {
        law_pr_url_under_repo(origin.host@, origin.owner@, origin.repo@, provider, branch@);
    }
    let mut u = String::new();
    u.append("https://");
    u.append(origin.host.as_str());
    u.append("/");
    u.append(origin.owner.as_str());
    u.append("/");
    u.append(origin.repo.as_str());
    match provider {
        Provider::GitHub => {
            u.append("/compare/");
            u.append(branch);
            u.append("?expand=1");
        },
        Provider::GitLab => {
            u.append("/-/merge_requests/new?merge_request%5Bsource_branch%5D=");
            u.append(branch);
        },
        Provider::Bitbucket => {
            u.append("/pull-requests/new?source=");
            u.append(branch);
        },
    }
    u
}

/// Every pull-request page lies under the repository's own path: it begins with
/// `https://HOST/OWNER/REPO/`, owner before repository, whatever the provider; the
/// branch follows the provider's request path.
pub proof fn law_pr_url_under_repo(h: Seq<char>, o: Seq<char>, r: Seq<char>, p: Provider, b: Seq<char>)
    ensures
        starts_with(pr_url(h, o, r, p, b), "https://"@ + h + "/"@ + o + "/"@ + r + "/"@),
        p == Provider::GitLab ==> pr_url(h, o, r, p, b) == "https://"@ + h + "/"@ + o + "/"@ + r
            + "/-/merge_requests/new?merge_request%5Bsource_branch%5D="@ + b,
        p == Provider::GitHub ==> pr_url(h, o, r, p, b) == "https://"@ + h + "/"@ + o + "/"@ + r + "/compare/"@
            + b + "?expand=1"@,
        p == Provider::Bitbucket ==> pr_url(h, o, r, p, b) == "https://"@ + h + "/"@ + o + "/"@ + r
            + "/pull-requests/new?source="@ + b,
{
    reveal_strlit("/");
    reveal_strlit("/compare/");
    reveal_strlit("/-/merge_requests/new?merge_request%5Bsource_branch%5D=");
    reveal_strlit("/pull-requests/new?source=");
    let base = "https://"@ + h + "/"@ + o + "/"@ + r;
    let pre = base + "/"@;
    let u = pr_url(h, o, r, p, b);
    let tail = match p {
        Provider::GitHub => "/compare/"@ + b + "?expand=1"@,
        Provider::GitLab => "/-/merge_requests/new?merge_request%5Bsource_branch%5D="@ + b,
        Provider::Bitbucket => "/pull-requests/new?source="@ + b,
    };
    assert(u =~= base + tail);
    assert(tail[0] == '/');
    assert(u.take(pre.len() as int) =~= pre);
}

/// The command-line tool of a provider, if it has one.
pub open spec fn cli_of(provider: Provider) -> Option<Seq<char>> {
    match provider {
        Provider::GitHub => Some("gh"@),
        Provider::GitLab => Some("glab"@),
        Provider::Bitbucket => None,
    }
}

/// The command-line tool of a provider: `gh` for GitHub, `glab` for GitLab.
pub fn provider_cli(provider: Provider) -> (r: Option<&'static str>)
    ensures
        r matches Some(s) ==> cli_of(provider) == Some(s@),
        r is None ==> cli_of(provider) is None,
{
    match provider {
        Provider::GitHub => Some("gh"),
        Provider::GitLab => Some("glab"),
        Provider::Bitbucket => None,
    }
}

/// The arguments handed to a provider's tool to open the request page in the
/// browser, with the ticket followed by a space as the title when there is one;
/// `None` for a tool other than `gh` and `glab`.
pub fn pr_cli_args(cli: &str, ticket: Option<&str>) -> (r: Option<Vec<String>>)
    ensures
        r is Some <==> (cli@ == "gh"@ || cli@ == "glab"@),
        r matches Some(args) ==> args@.len() == (if ticket is Some { 5int } else { 3int }) && args@[0]@ == (
        if cli@ == "gh"@ {
            "pr"@
        } else {
            "mr"@
        }) && args@[1]@ == "create"@ && args@[2]@ == "--web"@ && (ticket matches Some(t) ==> args@[3]@
            == "--title"@ && args@[4]@ == t@ + " "@),
{
    let verb = if str_eq(cli, "gh") {
        "pr"
    } else if str_eq(cli, "glab") {
        "mr"
    } else {
        return None;
    };
    let mut args: Vec<String> = Vec::new();
    args.push(verb.to_owned());
    args.push("create".to_owned());
    args.push("--web".to_owned());
    if let Some(t) = ticket {
        args.push("--title".to_owned());
        let mut title = t.to_owned();
        title.append(" ");
        args.push(title);
    }
    Some(args)
}


/// The provider's tool that `tix pr` tries first: only when `pr_command` is `auto`
/// and the provider has one.
pub fn cli_to_try(pr_command: &str, provider: Provider) -> (r: Option<&'static str>)
    ensures
        pr_command@ != "auto"@ ==> r is None,
        pr_command@ == "auto"@ ==> match cli_of(provider) {
            Some(c) => r matches Some(s) && s@ == c,
            None => r is None,
        },
{
    if crate::text::str_eq(pr_command, "auto") {
        provider_cli(provider)
    } else {
        None
    }
}

/// A part of a remote URL as the laws below take it: not empty, with no `/`, no `:`
/// and no white space.
pub open spec fn plain_part(s: Seq<char>) -> bool {
    &&& s.len() > 0
    &&& forall|i: int| 0 <= i < s.len() ==> #[trigger] s[i] != '/' && s[i] != ':' && !is_white(s[i])
}

proof fn lemma_trim_unchanged(s: Seq<char>)
    requires
        s.len() > 0,
        !is_white(s[0]),
        !is_white(s[s.len() - 1]),
    ensures
        trim(s) == s,
{
    assert(trim_start(s) == s);
    assert(trim_end(s) == s);
}

proof fn lemma_trim_end_matches_absent(s: Seq<char>, p: Seq<char>)
    requires
        p.len() > 0,
        !ends_with(s, p),
    ensures
        trim_end_matches(s, p) == s,
{
}

proof fn lemma_trim_end_matches_once(s: Seq<char>, p: Seq<char>)
    requires
        p.len() > 0,
        !ends_with(s, p),
    ensures
        trim_end_matches(s + p, p) == s,
{
    let w = s + p;
    assert(w.skip(w.len() - p.len()) =~= p);
    assert(w.take(w.len() - p.len()) =~= s);
    assert(ends_with(w, p));
    lemma_trim_end_matches_absent(s, p);
}

proof fn lemma_last_char_not_suffix(s: Seq<char>, p: Seq<char>)
    requires
        s.len() > 0,
        p.len() > 0,
        s[s.len() - 1] != p[p.len() - 1],
    ensures
        !ends_with(s, p),
{
    if ends_with(s, p) {
        assert(s.skip(s.len() - p.len())[p.len() - 1] == s[s.len() - 1]);
    }
}

proof fn lemma_strip_prefix_of(p: Seq<char>, rest: Seq<char>)
    ensures
        strip_prefix(p + rest, p) == Some(rest),
{
    let w = p + rest;
    assert(w.take(p.len() as int) =~= p);
    assert(w.skip(p.len() as int) =~= rest);
}

proof fn lemma_strip_prefix_differs(s: Seq<char>, p: Seq<char>, i: int)
    requires
        0 <= i < p.len(),
        i < s.len(),
        s[i] != p[i],
    ensures
        strip_prefix(s, p) is None,
{
    if starts_with(s, p) {
        assert(s.take(p.len() as int)[i] == s[i]);
    }
}

proof fn lemma_split_once_at(x: Seq<char>, c: char, y: Seq<char>)
    requires
        forall|i: int| 0 <= i < x.len() ==> #[trigger] x[i] != c,
    ensures
        split_once(x + seq![c] + y, c) == Some((x, y)),
{
    let s = x + seq![c] + y;
    lemma_find_char_bounds(s, c, 0);
    let k = find_char(s, c, 0);
    if k < x.len() {
        assert(s[k] == x[k]);
    }
    if k > x.len() {
        assert(s[x.len() as int] != c);
    }
    assert(k == x.len());
    assert(s.take(k) =~= x);
    assert(s.skip(k + 1) =~= y);
}

/// `pre/r` does not end with `.git` when `r` has no `/` and does not end with it.
proof fn lemma_no_git_after_slash(pre: Seq<char>, r: Seq<char>)
    requires
        forall|i: int| 0 <= i < r.len() ==> #[trigger] r[i] != '/',
        !ends_with(r, ".git"@),
    ensures
        !ends_with(pre + "/"@ + r, ".git"@),
{
    reveal_strlit("/");
    reveal_strlit(".git");
    let g = ".git"@;
    let w = pre + "/"@ + r;
    if ends_with(w, g) {
        let k = w.len() - 4;
        if r.len() >= 4 {
            assert forall|i: int| 0 <= i < 4 implies r.skip(r.len() - 4)[i] == g[i] by {
                assert(w.skip(k)[i] == w[k + i]);
            }
            assert(r.skip(r.len() - 4) =~= g);
        } else {
            let j = pre.len() - k;
            assert(w[pre.len() as int] == '/');
            assert(w.skip(k)[j] == '/');
            assert(g[j] == '/');
        }
    }
}

/// An scp-like remote `git@HOST:OWNER/REPO.git` gives back its host, owner and
/// repository.
pub proof fn law_origin_scp(h: Seq<char>, o: Seq<char>, r: Seq<char>)
    requires
        plain_part(h),
        plain_part(o),
        plain_part(r),
        !ends_with(r, ".git"@),
    ensures
        origin_parts("git@"@ + h + ":"@ + o + "/"@ + r + ".git"@) == Some((h, o, r)),
{
    reveal_strlit("git@");
    reveal_strlit(":");
    reveal_strlit("/");
    reveal_strlit(".git");
    let base = "git@"@ + h + ":"@ + o + "/"@ + r;
    let u = base + ".git"@;
    assert(u[0] == 'g');
    assert(u[u.len() - 1] == 't');
    lemma_trim_unchanged(u);
    lemma_last_char_not_suffix(u, "/"@);
    lemma_trim_end_matches_absent(u, "/"@);
    lemma_no_git_after_slash("git@"@ + h + ":"@ + o, r);
    lemma_trim_end_matches_once(base, ".git"@);
    assert(origin_trimmed(u) == base);
    let rest = h + ":"@ + o + "/"@ + r;
    assert(base =~= "git@"@ + rest);
    lemma_strip_prefix_of("git@"@, rest);
    assert(rest =~= h + seq![':'] + (o + "/"@ + r));
    lemma_split_once_at(h, ':', o + "/"@ + r);
    assert(o + "/"@ + r =~= o + seq!['/'] + r);
    lemma_split_once_at(o, '/', r);
}

/// After the scheme, a URL remote `HOST/OWNER/REPO` gives back its host, owner and
/// repository.
proof fn lemma_host_owner_repo(h: Seq<char>, o: Seq<char>, r: Seq<char>)
    requires
        plain_part(h),
        plain_part(o),
    ensures
        ({
            let rest = h + "/"@ + o + "/"@ + r;
            split_once(rest, '/') matches Some((a, b)) && a == h && split_once(b, '/') == Some((o, r))
        }),
{
    reveal_strlit("/");
    let rest = h + "/"@ + o + "/"@ + r;
    assert(rest =~= h + seq!['/'] + (o + "/"@ + r));
    lemma_split_once_at(h, '/', o + "/"@ + r);
    assert(o + "/"@ + r =~= o + seq!['/'] + r);
    lemma_split_once_at(o, '/', r);
}

/// A URL remote `SCHEME://HOST/OWNER/REPO`, for the schemes `https`, `http` and
/// `ssh`, gives back its host, owner and repository, and so does the same URL
/// with `.git/` at its end.
pub proof fn law_origin_scheme(scheme: Seq<char>, h: Seq<char>, o: Seq<char>, r: Seq<char>)
    requires
        scheme == "https"@ || scheme == "http"@ || scheme == "ssh"@,
        plain_part(h),
        plain_part(o),
        plain_part(r),
        !ends_with(r, ".git"@),
    ensures
        origin_parts(scheme + "://"@ + h + "/"@ + o + "/"@ + r) == Some((h, o, r)),
        origin_parts(scheme + "://"@ + h + "/"@ + o + "/"@ + r + ".git/"@) == Some((h, o, r)),
{
    reveal_strlit("https");
    reveal_strlit("http");
    reveal_strlit("ssh");
    reveal_strlit("://");
    reveal_strlit("https://");
    reveal_strlit("http://");
    reveal_strlit("ssh://");
    reveal_strlit("git@");
    reveal_strlit("/");
    reveal_strlit(".git");
    reveal_strlit(".git/");
    let pre = scheme + "://"@;
    let rest = h + "/"@ + o + "/"@ + r;
    let t = pre + h + "/"@ + o + "/"@ + r;
    assert(t =~= pre + rest);
    assert(t[0] == scheme[0]);
    assert(t[0] != 'g');
    lemma_strip_prefix_differs(t, "git@"@, 0);
    lemma_host_owner_repo(h, o, r);
    if scheme == "https"@ {
        assert(pre =~= "https://"@);
        lemma_strip_prefix_of("https://"@, rest);
    } else if scheme == "http"@ {
        assert(pre =~= "http://"@);
        assert(t[4] == ':');
        lemma_strip_prefix_differs(t, "https://"@, 4);
        lemma_strip_prefix_of("http://"@, rest);
    } else {
        assert(pre =~= "ssh://"@);
        lemma_strip_prefix_differs(t, "https://"@, 0);
        lemma_strip_prefix_differs(t, "http://"@, 0);
        lemma_strip_prefix_of("ssh://"@, rest);
    }
    assert(url_parts(t) == Some((h, o, r)));
    // The URL as it stands.
    assert(t[t.len() - 1] == r[r.len() - 1]);
    lemma_trim_unchanged(t);
    lemma_last_char_not_suffix(t, "/"@);
    lemma_trim_end_matches_absent(t, "/"@);
    lemma_no_git_after_slash(pre + h + "/"@ + o, r);
    lemma_trim_end_matches_absent(t, ".git"@);
    assert(origin_trimmed(t) == t);
    // The URL with `.git/` after it.
    let tg = t + ".git"@;
    let u = t + ".git/"@;
    assert(u =~= tg + "/"@);
    assert(u[u.len() - 1] == '/');
    lemma_trim_unchanged(u);
    lemma_last_char_not_suffix(tg, "/"@);
    lemma_trim_end_matches_once(tg, "/"@);
    lemma_trim_end_matches_once(t, ".git"@);
    assert(origin_trimmed(u) == t);
}

} // verus!
