//! Remote repository references, archive entry paths, and the download size guard.
use vstd::prelude::*;

use crate::text::{
    chars_of, eq_str, join_pieces, join_slash, nonempty_pieces, path_parts, starts_with,
    starts_with_str, strip_prefixes, strip_prefixes_exec, strip_suffixes, strip_suffixes_exec,
    string_of, trim, trim_chars, views,
};

verus! {

/// A repository reference resolved to its parts.
pub struct ParsedGithubInput {
    pub owner: String,
    pub repo: String,
    pub reference: String,
    pub subdir: Option<String>,
    /// `owner/repo@reference`, followed by `/subdir` when there is one.
    pub display: String,
}

#[derive(Clone, Copy, Debug, PartialEq, Eq, Structural)]
pub enum GithubInputError {
    /// Nothing but whitespace was given.
    Empty,
    /// No `owner/repo` could be read from it.
    Malformed,
}

/// The reference without scheme, `www.`, trailing slashes and a leading `github.com/`.
pub open spec fn github_body(input: Seq<char>) -> Seq<char> {
    let s = strip_suffixes(
        strip_prefixes(strip_prefixes(strip_prefixes(trim(input), "https://"@), "http://"@), "www."@),
        "/"@,
    );
    if starts_with(s, "github.com/"@) {
        s.subrange("github.com/"@.len() as int, s.len() as int)
    } else {
        s
    }
}

pub open spec fn github_parts(input: Seq<char>) -> Seq<Seq<char>> {
    path_parts(github_body(input))
}

pub open spec fn has_tree_ref(parts: Seq<Seq<char>>) -> bool {
    parts.len() >= 4 && parts[2] == "tree"@
}

/// Owner, repository, revision and sub-directory of a reference, or why there are none.
pub open spec fn github_parse(input: Seq<char>) -> Result<
    (Seq<char>, Seq<char>, Seq<char>, Option<Seq<char>>),
    GithubInputError,
> {
    let parts = github_parts(input);
    if trim(input).len() == 0 {
        Err(GithubInputError::Empty)
    } else if parts.len() < 2 || strip_suffixes(parts[1], ".git"@).len() == 0 {
        Err(GithubInputError::Malformed)
    } else {
        let named = if has_tree_ref(parts) { parts[3] } else { "HEAD"@ };
        let reference = if trim(named).len() == 0 { "HEAD"@ } else { named };
        let subdir = if has_tree_ref(parts) && parts.len() > 4 {
            Some(join_slash(parts.subrange(4, parts.len() as int)))
        } else {
            None
        };
        Ok((parts[0], strip_suffixes(parts[1], ".git"@), reference, subdir))
    }
}

pub open spec fn display_of(owner: Seq<char>, repo: Seq<char>, reference: Seq<char>, subdir: Option<Seq<char>>) -> Seq<char> {
    owner + "/"@ + repo + "@"@ + reference + match subdir {
        Some(d) => "/"@ + d,
        None => Seq::empty(),
    }
}

fn strip_lit_prefixes(s: &Vec<char>, p: &str) -> (r: Vec<char>)
    ensures
        r@ == strip_prefixes(s@, p@),
{
    strip_prefixes_exec(s, &chars_of(p))
}

/// Reads `owner/repo`, `host/owner/repo` or `owner/repo/tree/<ref>/<subdir...>`; without a
/// `tree` part the revision is `HEAD`, the default branch.
pub fn parse_github_input(input: &str) -> (r: Result<ParsedGithubInput, GithubInputError>)
    ensures
        match (r, github_parse(input@)) {
            (Ok(p), Ok(q)) => p.owner@ == q.0 && p.repo@ == q.1 && p.reference@ == q.2 && match (
                p.subdir,
                q.3,
            ) {
                (Some(a), Some(b)) => a@ == b,
                (None, None) => true,
                _ => false,
            } && p.display@ == display_of(q.0, q.1, q.2, q.3),
            (Err(e), Err(f)) => e == f,
            _ => false,
        },
{
    let t = trim_chars(&chars_of(input));
    if t.len() == 0 {
        return Err(GithubInputError::Empty);
    }
    let s1 = strip_lit_prefixes(&t, "https://");
    let s2 = strip_lit_prefixes(&s1, "http://");
    let s3 = strip_lit_prefixes(&s2, "www.");
    let s4 = strip_suffixes_exec(&s3, &chars_of("/"));
    let body = if starts_with_str(&s4, "github.com/") {
        let k = chars_of("github.com/").len();
        crate::text::slice_chars(&s4, k, s4.len())
    } else {
        s4
    };
    assert(body@ == github_body(input@));
    let parts = nonempty_pieces(&body);
    let ghost pv = views(parts@);
    if parts.len() < 2 {
        return Err(GithubInputError::Malformed);
    }
    let repo_chars = strip_suffixes_exec(&parts[1], &chars_of(".git"));
    if repo_chars.len() == 0 {
        return Err(GithubInputError::Malformed);
    }
    let tree_ref = parts.len() >= 4 && eq_str(&parts[2], "tree");
    let owner = string_of(&parts[0]);
    let repo = string_of(&repo_chars);
    let mut reference = if tree_ref {
        string_of(&parts[3])
    } else {
        String::from_str("HEAD")
    };
    if tree_ref && trim_chars(&parts[3]).len() == 0 {
        reference = String::from_str("HEAD");
    }
    let subdir = if tree_ref && parts.len() > 4 {
        Some(string_of(&join_pieces(&parts, 4)))
    } else {
        None
    };
    let mut display = owner.clone();
    display.append("/");
    display.append(repo.as_str());
    display.append("@");
    display.append(reference.as_str());
    match &subdir {
        Some(d) => {
            display.append("/");
            display.append(d.as_str());
        },
        None => {},
    }
    proof {
        assert(pv[0] == parts@[0]@);
        assert(pv[1] == parts@[1]@);
        if tree_ref {
            assert(pv[3] == parts@[3]@);
        }
        if has_tree_ref(pv) {
            assert(pv[2] == parts@[2]@);
        }
    }
    Ok(ParsedGithubInput { owner, repo, reference, subdir, display })
}

} // verus!

verus! {

#[derive(Clone, Copy, Debug, PartialEq, Eq, Structural)]
pub enum ArchiveError {
    /// The entry at this index names an absolute path or climbs out with `..`.
    UnsafeEntry { index: usize },
}

/// An entry name is safe when it is not absolute and none of its pieces is `..`.
pub open spec fn entry_is_safe(name: Seq<char>) -> bool {
    !starts_with(name, "/"@) && !path_parts(name).contains(".."@)
}

/// The pieces of a safe entry name, without `.` pieces, joined with slashes.
pub open spec fn entry_relative_path(name: Seq<char>) -> Seq<char> {
    join_slash(path_parts(name).filter(|p: Seq<char>| p != "."@))
}

/// The relative path under which an archive entry is written, or an error when the entry
/// is absolute or has a `..` piece.
pub fn sanitize_zip_path(name: &str) -> (r: Option<String>)
    ensures
        r.is_some() == entry_is_safe(name@),
        r.is_some() ==> r.unwrap()@ == entry_relative_path(name@),
{
    let cs = chars_of(name);
    if starts_with_str(&cs, "/") {
        return None;
    }
    let parts = nonempty_pieces(&cs);
    let ghost pv = views(parts@);
    assert(pv == path_parts(name@));
    let mut kept: Vec<Vec<char>> = Vec::new();
    let mut i: usize = 0;
    while i < parts.len()
        invariant
            i <= parts@.len(),
            pv == views(parts@),
            forall|j: int| 0 <= j < i ==> pv[j] != ".."@,
            pv == path_parts(name@),
            !starts_with(name@, "/"@),
            views(kept@) == pv.subrange(0, i as int).filter(|p: Seq<char>| p != "."@),
        decreases parts@.len() - i,
    {
        proof {
            pv.subrange(0, i as int).lemma_filter_push(pv[i as int], |p: Seq<char>| p != "."@);
            assert(pv.subrange(0, i as int).push(pv[i as int]) =~= pv.subrange(0, i + 1));
        }
        if eq_str(&parts[i], "..") {
            assert(pv[i as int] == ".."@);
            assert(pv.contains(".."@));
            return None;
        }
        if !eq_str(&parts[i], ".") {
            let ghost before = kept@;
            kept.push(crate::text::slice_all(&parts[i]));
            assert(views(kept@) =~= views(before).push(pv[i as int]));
        }
        i += 1;
    }
    assert(pv.subrange(0, pv.len() as int) =~= pv);
    assert(!pv.contains(".."@));
    let joined = join_pieces(&kept, 0);
    assert(views(kept@).subrange(0, kept@.len() as int) =~= views(kept@));
    Some(string_of(&joined))
}

/// Checks every entry of an archive before anything is written: the relative paths to
/// write, in entry order, or the first unsafe entry.
pub fn plan_extraction(names: &Vec<String>) -> (r: Result<Vec<String>, ArchiveError>)
    ensures
        match r {
            Ok(paths) => (forall|k: int| 0 <= k < names@.len() ==> entry_is_safe(#[trigger] names@[k]@))
                && paths@.len() == names@.len() && forall|k: int|
                0 <= k < names@.len() ==> #[trigger] paths@[k]@ == entry_relative_path(names@[k]@),
            Err(ArchiveError::UnsafeEntry { index }) => index < names@.len() && !entry_is_safe(
                names@[index as int]@,
            ) && forall|k: int| 0 <= k < index ==> entry_is_safe(#[trigger] names@[k]@),
        },
{
    let mut out: Vec<String> = Vec::new();
    let mut i: usize = 0;
    while i < names.len()
        invariant
            i <= names@.len(),
            out@.len() == i,
            forall|k: int| 0 <= k < i ==> entry_is_safe(#[trigger] names@[k]@),
            forall|k: int| 0 <= k < i ==> #[trigger] out@[k]@ == entry_relative_path(names@[k]@),
        decreases names@.len() - i,
    {
        match sanitize_zip_path(names[i].as_str()) {
            Some(p) => out.push(p),
            None => {
                return Err(ArchiveError::UnsafeEntry { index: i });
            },
        }
        i += 1;
    }
    Ok(out)
}

/// An archive with a `..` piece or an absolute path in any entry is refused as a whole,
/// so nothing of it is written.
pub proof fn lemma_unsafe_entry_refuses_archive(names: Seq<String>, k: int)
    requires
        0 <= k < names.len(),
        starts_with(names[k]@, "/"@) || path_parts(names[k]@).contains(".."@),
    ensures
        !entry_is_safe(names[k]@),
        !(forall|j: int| 0 <= j < names.len() ==> entry_is_safe(#[trigger] names[j]@)),
{
    assert(!entry_is_safe(names[k]@));
}

/// The scan root after extraction: the single top-level directory when there is exactly
/// one, else the extraction directory itself (`None`).
pub fn choose_scan_root(top_level_dirs: &Vec<String>) -> (r: Option<String>)
    ensures
        top_level_dirs@.len() == 1 ==> r.is_some() && r.unwrap() == top_level_dirs@[0],
        top_level_dirs@.len() != 1 ==> r.is_none(),
{
    if top_level_dirs.len() == 1 {
        Some(top_level_dirs[0].clone())
    } else {
        None
    }
}

/// The largest archive that is downloaded, in bytes.
pub const DOWNLOAD_LIMIT_BYTES: u64 = 83886080;

/// The most redirects followed for one download.
pub const MAX_REDIRECTS: usize = 10;

#[derive(Clone, Copy, Debug, PartialEq, Eq, Structural)]
pub enum DownloadError {
    /// The declared or received size is over the limit.
    TooLarge,
}

/// Bytes received so far in one download, against its limit.
pub struct DownloadGuard {
    pub limit: u64,
    pub received: u64,
}

impl DownloadGuard {
    /// A guard for a download whose server declared `content_length` (if it did); refused
    /// at once when that is over `limit`.
    pub fn start(content_length: Option<u64>, limit: u64) -> (r: Result<DownloadGuard, DownloadError>)
        ensures
            match content_length {
                Some(n) => n > limit <==> r.is_err(),
                None => r.is_ok(),
            },
            r matches Ok(g) ==> g.limit == limit && g.received == 0,
    {
        match content_length {
            Some(n) => {
                if n > limit {
                    return Err(DownloadError::TooLarge);
                }
            },
            None => {},
        }
        Ok(DownloadGuard { limit, received: 0 })
    }

    /// Counts a received chunk; an error as soon as the total goes over the limit.
    pub fn on_chunk(&mut self, chunk_len: u64) -> (r: Result<(), DownloadError>)
        ensures
            final(self).limit == old(self).limit,
            final(self).received == crate::aggregate::sat(old(self).received, chunk_len),
            r.is_err() <==> final(self).received > final(self).limit,
    {
        self.received = self.received.saturating_add(chunk_len);
        if self.received > self.limit {
            Err(DownloadError::TooLarge)
        } else {
            Ok(())
        }
    }
}

/// The archive address of a parsed reference.
pub fn archive_url(p: &ParsedGithubInput) -> (r: String)
    ensures
        r@ == "https://codeload.github.com/"@ + p.owner@ + "/"@ + p.repo@ + "/zip/"@ + p.reference@,
{
    let mut url = String::from_str("https://codeload.github.com/");
    url.append(p.owner.as_str());
    url.append("/");
    url.append(p.repo.as_str());
    url.append("/zip/");
    url.append(p.reference.as_str());
    url
}

} // verus!
