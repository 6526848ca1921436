//! Core domain and presentation types.

use vstd::prelude::*;

use crate::error::{self, Error, ErrorKind, Result};
use crate::order::{self, sorted_set};
use crate::text::{
    self, char_count, chars_occur_at, chars_of, copy, has_char, has_prefix, has_space, has_suffix,
    has_text, same, trimmed, trimmed_end_char, trimmed_start_text,
};
use crate::timestamp::Timestamp;

verus! {

// ---------------------------------------------------------------------------
// Workspace names

/// Validated workspace name.
#[derive(Debug, PartialEq, Eq, PartialOrd, Ord)]
pub struct WorkspaceName {
    value: String,
}

/// A workspace name is one path component without whitespace.
pub open spec fn valid_name(value: Seq<char>) -> bool {
    &&& value.len() > 0
    &&& value != "."@
    &&& value != ".."@
    &&& !value.contains('/')
    &&& !value.contains('\\')
    &&& forall|i: int| 0 <= i < value.len() ==> !text::is_space(#[trigger] value[i])
}

impl View for WorkspaceName {
    type V = Seq<char>;

    closed spec fn view(&self) -> Seq<char> {
        self.value@
    }
}

impl WorkspaceName {
    #[verifier::type_invariant]
    closed spec fn wf(self) -> bool {
        valid_name(self.value@)
    }

    /// Create a validated workspace name. An empty name, a name with path
    /// separators or whitespace, `.` and `..` are refused.
    pub fn new(value: String) -> (res: Result<WorkspaceName>)
        ensures
            match res {
                Ok(name) => valid_name(value@) && name@ == value@,
                Err(e) => !valid_name(value@) && e@ == error::about(
                    ErrorKind::InvalidWorkspaceName,
                    value@,
                ),
            },
    {
        let v = value.as_str();
        let empty = char_count(v) == 0;
        if empty || same(v, ".") || same(v, "..") || has_char(v, '/') || has_char(v, '\\')
            || has_space(v) {
            return Err(Error::InvalidWorkspaceName(value));
        }
        Ok(WorkspaceName { value })
    }

    /// Borrow the validated workspace name as a string slice.
    pub fn as_str(&self) -> (res: &str)
        ensures
            res@ == self@,
            valid_name(res@),
    {
        proof {
            use_type_invariant(self);
        }
        self.value.as_str()
    }

    /// Whether two names are the same text.
    pub fn same_as(&self, other: &WorkspaceName) -> (res: bool)
        ensures
            res == (self@ == other@),
    {
        same(self.value.as_str(), other.value.as_str())
    }
}

impl Clone for WorkspaceName {
    fn clone(&self) -> (res: WorkspaceName)
        ensures
            res == *self,
    {
        proof {
            use_type_invariant(self);
        }
        WorkspaceName { value: self.value.clone() }
    }
}

/// The texts of a list of names.
pub open spec fn name_views(names: Seq<WorkspaceName>) -> Seq<Seq<char>> {
    names.map_values(|n: WorkspaceName| n@)
}

// ---------------------------------------------------------------------------
// Workspace path templates

/// Validated workspace path template.
#[derive(Debug, PartialEq, Eq)]
pub struct WorkspaceTemplate {
    value: String,
}

/// A template is made of plain characters, which are not braces, and of the
/// placeholders `{repo}` and `{workspace}`.
pub open spec fn valid_template(s: Seq<char>) -> bool
    decreases s.len(),
{
    let repo = "{repo}"@;
    let workspace = "{workspace}"@;
    if s.len() == 0 {
        true
    } else if repo.len() > 0 && text::starts_with(s, repo) {
        valid_template(s.skip(repo.len() as int))
    } else if workspace.len() > 0 && text::starts_with(s, workspace) {
        valid_template(s.skip(workspace.len() as int))
    } else {
        s[0] != '{' && s[0] != '}' && valid_template(s.skip(1))
    }
}

/// A template with its placeholders filled in.
pub open spec fn rendered_template(
    s: Seq<char>,
    repo_name: Seq<char>,
    workspace_name: Seq<char>,
) -> Seq<char>
    decreases s.len(),
{
    let repo = "{repo}"@;
    let workspace = "{workspace}"@;
    if s.len() == 0 {
        Seq::empty()
    } else if repo.len() > 0 && text::starts_with(s, repo) {
        repo_name + rendered_template(s.skip(repo.len() as int), repo_name, workspace_name)
    } else if workspace.len() > 0 && text::starts_with(s, workspace) {
        workspace_name + rendered_template(
            s.skip(workspace.len() as int),
            repo_name,
            workspace_name,
        )
    } else {
        seq![s[0]] + rendered_template(s.skip(1), repo_name, workspace_name)
    }
}

impl View for WorkspaceTemplate {
    type V = Seq<char>;

    closed spec fn view(&self) -> Seq<char> {
        self.value@
    }
}

/// Whether `s` is a valid template.
fn is_template(s: &str) -> (res: bool)
    ensures
        res == valid_template(s@),
{
    let chars = chars_of(s);
    let repo = chars_of("{repo}");
    let workspace = chars_of("{workspace}");
    let n: usize = chars.len();
    proof {
        reveal_strlit("{repo}");
        reveal_strlit("{workspace}");
        assert(s@.skip(0) == s@);
    }
    let mut i: usize = 0;
    while i < n
        invariant
            i <= n,
            n == chars@.len(),
            chars@ == s@,
            repo@ == "{repo}"@,
            workspace@ == "{workspace}"@,
            repo@.len() == 6,
            workspace@.len() == 11,
            valid_template(s@) == valid_template(s@.skip(i as int)),
        decreases n - i,
    {
        let ghost rest = s@.skip(i as int);
        proof {
            lemma_occurs_is_prefix(s@, repo@, i as int);
            lemma_occurs_is_prefix(s@, workspace@, i as int);
        }
        if chars_occur_at(&chars, &repo, i) {
            assert(rest.skip(6) == s@.skip(i + 6));
            i = i + 6;
        } else if chars_occur_at(&chars, &workspace, i) {
            assert(rest.skip(11) == s@.skip(i + 11));
            i = i + 11;
        } else if chars[i] == '{' || chars[i] == '}' {
            assert(rest[0] == chars@[i as int]);
            return false;
        } else {
            assert(rest[0] == chars@[i as int]);
            assert(rest.skip(1) == s@.skip(i + 1));
            i = i + 1;
        }
    }
    true
}

proof fn lemma_occurs_is_prefix(s: Seq<char>, sub: Seq<char>, i: int)
    requires
        0 <= i <= s.len(),
    ensures
        text::occurs_at(s, sub, i) == text::starts_with(s.skip(i), sub),
{
    if i + sub.len() <= s.len() {
        assert(s.skip(i).take(sub.len() as int) == s.subrange(i, i + sub.len()));
    }
}

impl WorkspaceTemplate {
    #[verifier::type_invariant]
    closed spec fn wf(self) -> bool {
        valid_template(self.value@)
    }

    /// Create a validated workspace template. Unsupported placeholders and
    /// unmatched braces are refused.
    pub fn new(value: String) -> (res: Result<WorkspaceTemplate>)
        ensures
            match res {
                Ok(template) => valid_template(value@) && template@ == value@,
                Err(e) => !valid_template(value@) && e@ == error::about(
                    ErrorKind::InvalidWorkspaceTemplate,
                    value@,
                ),
            },
    {
        if is_template(value.as_str()) {
            Ok(WorkspaceTemplate { value })
        } else {
            Err(Error::InvalidWorkspaceTemplate(value))
        }
    }

    /// Borrow the template as a string slice.
    pub fn as_str(&self) -> (res: &str)
        ensures
            res@ == self@,
            valid_template(res@),
    {
        proof {
            use_type_invariant(self);
        }
        self.value.as_str()
    }

    /// Render the template for a repo and workspace name.
    pub fn render(&self, repo: &str, workspace: &WorkspaceName) -> (res: String)
        ensures
            res@ == rendered_template(self@, repo@, workspace@),
    {
        let s = self.value.as_str();
        let chars = chars_of(s);
        let repo_mark = chars_of("{repo}");
        let workspace_mark = chars_of("{workspace}");
        let n: usize = chars.len();
        let mut out = String::new();
        proof {
            reveal_strlit("{repo}");
            reveal_strlit("{workspace}");
            assert(s@.skip(0) == s@);
            assert(out@ + rendered_template(s@, repo@, workspace@) == rendered_template(
                s@,
                repo@,
                workspace@,
            ));
        }
        let mut i: usize = 0;
        while i < n
            invariant
                i <= n,
                n == chars@.len(),
                chars@ == s@,
                repo_mark@ == "{repo}"@,
                workspace_mark@ == "{workspace}"@,
                repo_mark@.len() == 6,
                workspace_mark@.len() == 11,
                rendered_template(s@, repo@, workspace@) == out@ + rendered_template(
                    s@.skip(i as int),
                    repo@,
                    workspace@,
                ),
            decreases n - i,
        {
            let ghost rest = s@.skip(i as int);
            let ghost before = out@;
            proof {
                lemma_occurs_is_prefix(s@, repo_mark@, i as int);
                lemma_occurs_is_prefix(s@, workspace_mark@, i as int);
            }
            if chars_occur_at(&chars, &repo_mark, i) {
                assert(rest.skip(6) == s@.skip(i + 6));
                out.append(repo);
                i = i + 6;
            } else if chars_occur_at(&chars, &workspace_mark, i) {
                assert(rest.skip(11) == s@.skip(i + 11));
                out.append(workspace.as_str());
                i = i + 11;
            } else {
                assert(rest[0] == chars@[i as int]);
                assert(rest.skip(1) == s@.skip(i + 1));
                out.push(chars[i]);
                assert(out@ == before + seq![rest[0]]);
                i = i + 1;
            }
            proof {
                let tail = rendered_template(s@.skip(i as int), repo@, workspace@);
                let put = out@.skip(before.len() as int);
                assert(out@ == before + put);
                assert(out@ + tail == before + (put + tail));
            }
        }
        assert(out@ + Seq::<char>::empty() == out@);
        out
    }
}

impl Clone for WorkspaceTemplate {
    fn clone(&self) -> (res: WorkspaceTemplate)
        ensures
            res == *self,
    {
        proof {
            use_type_invariant(self);
        }
        WorkspaceTemplate { value: self.value.clone() }
    }
}

/// The template that is used where none is configured.
pub open spec fn default_template() -> Seq<char> {
    "../{repo}.{workspace}"@
}

impl Default for WorkspaceTemplate {
    fn default() -> (res: WorkspaceTemplate)
        ensures
            res@ == default_template(),
    {
        proof {
            law_default_template(Seq::empty(), Seq::empty());
        }
        WorkspaceTemplate { value: copy("../{repo}.{workspace}") }
    }
}

/// The default template is valid, and puts a workspace beside the repo, in a
/// directory named after both.
pub proof fn law_default_template(repo: Seq<char>, workspace: Seq<char>)
    ensures
        valid_template(default_template()),
        rendered_template(default_template(), repo, workspace) == "../"@ + repo + "."@ + workspace,
{
    let s = default_template();
    reveal_strlit("../{repo}.{workspace}");
    reveal_strlit("{repo}");
    reveal_strlit("{workspace}");
    reveal_strlit("../");
    reveal_strlit(".");
    let dots = seq!['.', '.', '/'];
    assert("../"@ == dots);
    let t3 = s.skip(3);
    assert(s.skip(1).skip(1) == s.skip(2) && s.skip(2).skip(1) == t3);
    assert(t3.take(6) == "{repo}"@);
    let t9 = t3.skip(6);
    let t10 = t9.skip(1);
    assert(t10.take(11) == "{workspace}"@);
    assert(t10.skip(11) == Seq::<char>::empty());
    assert(t9[0] == '.');
    assert(s.take(6)[0] != '{');
    assert("{repo}"@[0] == '{' && "{workspace}"@[0] == '{');
    lemma_plain_step(s, repo, workspace);
    lemma_plain_step(s.skip(1), repo, workspace);
    lemma_plain_step(s.skip(2), repo, workspace);
    lemma_plain_step(t9, repo, workspace);
    assert(valid_template(t10.skip(11)));
    assert(valid_template(t10)) by {
        assert(t10.take(6)[1] != "{repo}"@[1]);
    }
    assert(valid_template(t3));
    let r10 = rendered_template(t10, repo, workspace);
    assert(r10 == workspace) by {
        assert(t10.take(6)[1] != "{repo}"@[1]);
        assert(rendered_template(t10.skip(11), repo, workspace) == Seq::<char>::empty());
        assert(workspace + Seq::<char>::empty() == workspace);
    }
    let r3 = rendered_template(t3, repo, workspace);
    assert(r3 == repo + (seq!['.'] + workspace));
    assert("."@ == seq!['.']);
    assert(rendered_template(s, repo, workspace) == seq!['.'] + (seq!['.'] + (seq!['/'] + r3)));
    assert(seq!['.'] + (seq!['.'] + (seq!['/'] + r3)) == dots + repo + seq!['.'] + workspace);
}

proof fn lemma_plain_step(s: Seq<char>, repo: Seq<char>, workspace: Seq<char>)
    requires
        s.len() > 0,
        s[0] != '{',
        s[0] != '}',
    ensures
        valid_template(s) == valid_template(s.skip(1)),
        rendered_template(s, repo, workspace) == seq![s[0]] + rendered_template(
            s.skip(1),
            repo,
            workspace,
        ),
{
    reveal_strlit("{repo}");
    reveal_strlit("{workspace}");
    if s.len() >= 6 {
        assert(s.take(6)[0] == s[0]);
    }
    if s.len() >= 11 {
        assert(s.take(11)[0] == s[0]);
    }
}

// ---------------------------------------------------------------------------
// Lane paths

/// Validated repo-relative lane write-set path prefix.
///
/// Normalized: forward slashes, no leading `./`, no trailing `/`, never
/// absolute, and never escaping the repo root.
#[derive(Debug, PartialEq, Eq, PartialOrd, Ord)]
pub struct LanePath {
    value: String,
}

/// `raw` without surrounding whitespace, leading `./` and trailing slashes.
pub open spec fn normal_path(raw: Seq<char>) -> Seq<char> {
    text::trim_end_by(text::trim_start_text(text::trim(raw), "./"@), text::is_char('/'))
}

/// A relative path prefix that stays inside the repo, without `.` and `..`
/// components after the first and without glob characters.
pub open spec fn valid_lane_path(p: Seq<char>) -> bool {
    &&& p.len() > 0
    &&& !text::starts_with(p, "/"@)
    &&& !p.contains('\\')
    &&& p != "."@
    &&& p != ".."@
    &&& !text::starts_with(p, "../"@)
    &&& !text::contains(p, "/../"@)
    &&& !text::ends_with(p, "/.."@)
    &&& !text::contains(p, "/./"@)
    &&& !text::ends_with(p, "/."@)
    &&& !p.contains('*')
    &&& !p.contains('?')
    &&& !p.contains('[')
    &&& !p.contains(']')
}

/// `path` is `prefix` itself or lies under it.
pub open spec fn under(prefix: Seq<char>, path: Seq<char>) -> bool {
    path == prefix || text::starts_with(path, prefix + "/"@)
}

/// A file path falls under a write-set prefix; leading `./` do not count.
pub open spec fn covers(prefix: Seq<char>, path: Seq<char>) -> bool {
    under(prefix, text::trim_start_text(path, "./"@))
}

/// One of two prefixes covers the other.
pub open spec fn overlap(a: Seq<char>, b: Seq<char>) -> bool {
    covers(a, b) || covers(b, a)
}

/// What holds of the text of every lane path.
pub open spec fn is_lane_path(p: Seq<char>) -> bool {
    valid_lane_path(p) && !text::starts_with(p, "./"@) && !text::ends_with(p, "/"@)
}

impl View for LanePath {
    type V = Seq<char>;

    closed spec fn view(&self) -> Seq<char> {
        self.value@
    }
}

proof fn lemma_stripped(s: Seq<char>, prefix: Seq<char>)
    requires
        prefix.len() > 0,
    ensures
        !text::starts_with(text::trim_start_text(s, prefix), prefix),
    decreases s.len(),
{
    if text::starts_with(s, prefix) {
        lemma_stripped(s.skip(prefix.len() as int), prefix);
    }
}

proof fn lemma_end_trimmed(s: Seq<char>, c: char)
    ensures
        ({
            let t = text::trim_end_by(s, text::is_char(c));
            &&& t.len() <= s.len()
            &&& t == s.take(t.len() as int)
            &&& t.len() > 0 ==> t.last() != c
        }),
    decreases s.len(),
{
    if s.len() > 0 && s.last() == c {
        lemma_end_trimmed(s.drop_last(), c);
        let t = text::trim_end_by(s.drop_last(), text::is_char(c));
        assert(s.drop_last().take(t.len() as int) == s.take(t.len() as int));
    } else {
        assert(s.take(s.len() as int) == s);
    }
}

/// A normalized path has no leading `./` and no trailing slash.
proof fn lemma_normal_path(raw: Seq<char>)
    ensures
        !text::starts_with(normal_path(raw), "./"@),
        !text::ends_with(normal_path(raw), "/"@),
{
    reveal_strlit("./");
    reveal_strlit("/");
    let inner = text::trim_start_text(text::trim(raw), "./"@);
    lemma_stripped(text::trim(raw), "./"@);
    lemma_end_trimmed(inner, '/');
    let p = normal_path(raw);
    if text::starts_with(p, "./"@) {
        assert(inner.take(2) == p.take(2));
    }
    if text::ends_with(p, "/"@) {
        assert(p.skip(p.len() - 1)[0] == p.last());
    }
}

impl LanePath {
    #[verifier::type_invariant]
    closed spec fn wf(self) -> bool {
        is_lane_path(self.value@)
    }

    /// Create a validated lane path prefix. An empty or absolute path, one
    /// that escapes the repo root, uses backslashes or holds glob characters
    /// is refused: write-set paths are literal prefixes, and a glob would
    /// silently match nothing.
    pub fn new(value: String) -> (res: Result<LanePath>)
        ensures
            match res {
                Ok(path) => valid_lane_path(normal_path(value@)) && path@ == normal_path(value@),
                Err(e) => !valid_lane_path(normal_path(value@)) && e@ == error::about(
                    ErrorKind::InvalidLanePath,
                    value@,
                ),
            },
    {
        let outer = trimmed(value.as_str());
        let inner = trimmed_start_text(outer.as_str(), "./");
        let path = trimmed_end_char(inner.as_str(), '/');
        let p = path.as_str();
        let empty = char_count(p) == 0;
        if empty || has_prefix(p, "/") || has_char(p, '\\') || same(p, ".") || same(p, "..")
            || has_prefix(p, "../") || has_text(p, "/../") || has_suffix(p, "/..") || has_text(
            p,
            "/./",
        ) || has_suffix(p, "/.") || has_char(p, '*') || has_char(p, '?') || has_char(p, '[')
            || has_char(p, ']') {
            return Err(Error::InvalidLanePath(value));
        }
        proof {
            lemma_normal_path(value@);
        }
        Ok(LanePath { value: path })
    }

    /// Borrow the normalized path prefix as a string slice.
    pub fn as_str(&self) -> (res: &str)
        ensures
            res@ == self@,
            is_lane_path(res@),
    {
        proof {
            use_type_invariant(self);
        }
        self.value.as_str()
    }

    /// Check whether a repo-relative file path falls under this prefix.
    pub fn contains(&self, path: &str) -> (res: bool)
        ensures
            res == covers(self@, path@),
    {
        let plain = trimmed_start_text(path, "./");
        let mut dir = copy(self.value.as_str());
        dir.append("/");
        same(plain.as_str(), self.value.as_str()) || has_prefix(plain.as_str(), dir.as_str())
    }

    /// Check whether two prefixes claim any common paths.
    pub fn overlaps(&self, other: &LanePath) -> (res: bool)
        ensures
            res == overlap(self@, other@),
    {
        self.contains(other.value.as_str()) || other.contains(self.value.as_str())
    }
}

impl Clone for LanePath {
    fn clone(&self) -> (res: LanePath)
        ensures
            res == *self,
    {
        proof {
            use_type_invariant(self);
        }
        LanePath { value: self.value.clone() }
    }
}

/// The texts of a list of lane paths.
pub open spec fn path_views(paths: Seq<LanePath>) -> Seq<Seq<char>> {
    paths.map_values(|p: LanePath| p@)
}

/// New lane paths with the texts of `paths`.
pub fn clone_paths(paths: &Vec<LanePath>) -> (res: Vec<LanePath>)
    ensures
        res@ == paths@,
{
    let mut out: Vec<LanePath> = Vec::new();
    let mut i: usize = 0;
    while i < paths.len()
        invariant
            i <= paths@.len(),
            out@ == paths@.take(i as int),
        decreases paths@.len() - i,
    {
        out.push(paths[i].clone());
        i = i + 1;
        assert(paths@.take(i as int) == paths@.take(i - 1).push(paths@[i - 1]));
    }
    assert(paths@.take(i as int) == paths@);
    out
}

/// The texts of `paths`.
pub fn path_texts(paths: &Vec<LanePath>) -> (res: Vec<String>)
    ensures
        text::views(res@) == path_views(paths@),
        forall|i: int| 0 <= i < paths@.len() ==> is_lane_path(#[trigger] path_views(paths@)[i]),
{
    broadcast use text::lemma_views_push;

    let mut out: Vec<String> = Vec::new();
    let mut i: usize = 0;
    proof {
        text::lemma_views_empty(out@);
    }
    while i < paths.len()
        invariant
            i <= paths@.len(),
            text::views(out@) == path_views(paths@).take(i as int),
            forall|k: int| 0 <= k < i ==> is_lane_path(#[trigger] path_views(paths@)[k]),
        decreases paths@.len() - i,
    {
        out.push(copy(paths[i].as_str()));
        i = i + 1;
        assert(path_views(paths@).take(i as int) == path_views(paths@).take(i - 1).push(
            path_views(paths@)[i - 1],
        ));
    }
    assert(path_views(paths@).take(i as int) == path_views(paths@));
    out
}

/// The lane paths of a list, each once, in dictionary order.
pub fn sorted_paths(paths: &Vec<LanePath>) -> (res: Vec<LanePath>)
    ensures
        order::sorted_set_of(path_views(res@), path_views(paths@)),
{
    let texts = path_texts(paths);
    let sorted = sorted_set(&texts);
    let ghost want = text::views(sorted@);
    let mut out: Vec<LanePath> = Vec::new();
    let mut i: usize = 0;
    assert(path_views(out@) =~= want.take(0));
    while i < sorted.len()
        invariant
            i <= sorted@.len(),
            want == text::views(sorted@),
            order::sorted_set_of(want, path_views(paths@)),
            forall|k: int|
                0 <= k < paths@.len() ==> is_lane_path(#[trigger] path_views(paths@)[k]),
            path_views(out@) == want.take(i as int),
        decreases sorted@.len() - i,
    {
        let ghost before = out@;
        proof {
            let t = want[i as int];
            assert(t == sorted@[i as int]@);
            assert(want.contains(t));
            assert(path_views(paths@).contains(t));
            let k = choose|k: int| 0 <= k < path_views(paths@).len() && path_views(paths@)[k] == t;
            assert(is_lane_path(path_views(paths@)[k]));
        }
        let path = LanePath { value: copy(sorted[i].as_str()) };
        out.push(path);
        i = i + 1;
        assert(path_views(out@) =~= path_views(before).push(path@));
        assert(want.take(i as int) =~= want.take(i - 1).push(want[i - 1]));
    }
    assert(want.take(i as int) =~= want);
    out
}

/// The first text from position `i` on that is no lane path.
pub open spec fn bad_path_from(raw: Seq<Seq<char>>, i: int) -> Option<Seq<char>>
    decreases raw.len() - i,
{
    if i < 0 || i >= raw.len() {
        None
    } else if !valid_lane_path(normal_path(raw[i])) {
        Some(raw[i])
    } else {
        bad_path_from(raw, i + 1)
    }
}

/// The first text that is no lane path.
pub open spec fn bad_path(raw: Seq<Seq<char>>) -> Option<Seq<char>> {
    bad_path_from(raw, 0)
}

/// The normal forms of a list of paths.
pub open spec fn normal_paths(raw: Seq<Seq<char>>) -> Seq<Seq<char>> {
    raw.map_values(|p: Seq<char>| normal_path(p))
}

/// Validate a list of lane paths; the first that is none is reported.
pub fn parse_lane_paths(paths: &Vec<String>) -> (res: Result<Vec<LanePath>>)
    ensures
        match res {
            Ok(parsed) => bad_path(text::views(paths@)) is None && path_views(parsed@)
                == normal_paths(text::views(paths@)),
            Err(e) => bad_path(text::views(paths@)) matches Some(p) && e@ == error::about(
                ErrorKind::InvalidLanePath,
                p,
            ),
        },
{
    let ghost raw = text::views(paths@);
    let mut out: Vec<LanePath> = Vec::new();
    let mut i: usize = 0;
    while i < paths.len()
        invariant
            i <= paths@.len(),
            raw == text::views(paths@),
            bad_path(raw) == bad_path_from(raw, i as int),
            path_views(out@) == normal_paths(raw).take(i as int),
        decreases paths@.len() - i,
    {
        match LanePath::new(copy(paths[i].as_str())) {
            Err(e) => {
                return Err(e);
            },
            Ok(path) => {
                let ghost before = out@;
                out.push(path);
                assert(path_views(out@) == path_views(before).push(path@));
            },
        }
        i = i + 1;
        assert(normal_paths(raw).take(i as int) == normal_paths(raw).take(i - 1).push(
            normal_paths(raw)[i - 1],
        ));
    }
    assert(normal_paths(raw).take(i as int) == normal_paths(raw));
    Ok(out)
}

/// Overlap does not depend on the order of the two prefixes, and every prefix
/// overlaps itself.
pub proof fn law_overlap_symmetric(a: Seq<char>, b: Seq<char>)
    requires
        is_lane_path(a),
    ensures
        overlap(a, b) == overlap(b, a),
        overlap(a, a),
{
    lemma_no_leading_dot(a);
}

proof fn lemma_no_leading_dot(p: Seq<char>)
    requires
        is_lane_path(p),
    ensures
        text::trim_start_text(p, "./"@) == p,
{
}

/// What lies under a prefix lies under every prefix that covers that prefix.
pub proof fn law_covers_transitive(a: Seq<char>, b: Seq<char>, path: Seq<char>)
    requires
        is_lane_path(b),
        covers(a, b),
        covers(b, path),
    ensures
        covers(a, path),
{
    lemma_no_leading_dot(b);
    lemma_under_transitive(a, b, text::trim_start_text(path, "./"@));
}

proof fn lemma_under_transitive(a: Seq<char>, b: Seq<char>, c: Seq<char>)
    requires
        under(a, b),
        under(b, c),
    ensures
        under(a, c),
{
    reveal_strlit("/");
    if a != b && b != c {
        let n = a.len() as int + 1;
        assert(c.take(n) == c.take(b.len() as int + 1).take(n));
        assert(c.take(b.len() as int + 1).take(n) == b.take(n));
    }
}

/// Two prefixes overlap exactly if some file path falls under both.
pub proof fn law_overlap_is_common_path(a: Seq<char>, b: Seq<char>)
    requires
        is_lane_path(a),
        is_lane_path(b),
    ensures
        overlap(a, b) <==> exists|path: Seq<char>| covers(a, path) && covers(b, path),
{
    lemma_no_leading_dot(a);
    lemma_no_leading_dot(b);
    if overlap(a, b) {
        if covers(a, b) {
            assert(covers(a, b) && covers(b, b));
        } else {
            assert(covers(a, a) && covers(b, a));
        }
    }
    if exists|path: Seq<char>| covers(a, path) && covers(b, path) {
        let path = choose|path: Seq<char>| covers(a, path) && covers(b, path);
        let p = text::trim_start_text(path, "./"@);
        lemma_under_both(a, b, p);
    }
}

proof fn lemma_under_both(a: Seq<char>, b: Seq<char>, p: Seq<char>)
    requires
        under(a, p),
        under(b, p),
    ensures
        under(a, b) || under(b, a),
{
    reveal_strlit("/");
    if p != a && p != b {
        let slash = "/"@;
        assert(p.take(a.len() as int + 1) == a + slash);
        assert(p.take(b.len() as int + 1) == b + slash);
        if a.len() < b.len() {
            assert(b.take(a.len() as int + 1) == (b + slash).take(a.len() as int + 1));
            assert(p.take(b.len() as int + 1).take(a.len() as int + 1) == p.take(
                a.len() as int + 1,
            ));
        } else if b.len() < a.len() {
            assert(a.take(b.len() as int + 1) == (a + slash).take(b.len() as int + 1));
            assert(p.take(a.len() as int + 1).take(b.len() as int + 1) == p.take(
                b.len() as int + 1,
            ));
        } else {
            assert(a == (a + slash).take(a.len() as int));
            assert(b == (b + slash).take(b.len() as int));
        }
    }
}

/// Normalizing a lane path again changes nothing, where it neither starts nor
/// ends with whitespace.
pub proof fn law_normal_path_is_stable(p: Seq<char>)
    requires
        is_lane_path(p),
        text::trim(p) == p,
    ensures
        normal_path(p) == p,
        valid_lane_path(normal_path(p)),
{
    reveal_strlit("/");
    lemma_no_leading_dot(p);
    if p.last() == '/' {
        assert(p.skip(p.len() - 1) == "/"@);
    }
}

/// Durable lifecycle state of a lane. Live facts (sync, conflicts, scope
/// drift) are always derived from `jj`; only lifecycle transitions persist.
#[derive(Clone, Copy, Debug, PartialEq, Eq, Structural)]
pub enum LaneLifecycle {
    /// The lane is active and may land work.
    Open,
    /// The lane landed its work and was retired.
    Closed,
    /// The lane was archived and discarded without landing.
    Abandoned,
}

impl LaneLifecycle {
    /// The label of each case.
    pub open spec fn label_text(self) -> Seq<char> {
        match self {
            LaneLifecycle::Open => "open"@,
            LaneLifecycle::Closed => "closed"@,
            LaneLifecycle::Abandoned => "abandoned"@,
        }
    }

    /// Stable string form used in the registry and JSON output.
    pub fn as_str(self) -> (res: &'static str)
        ensures
            res@ == self.label_text(),
    {
        match self {
            LaneLifecycle::Open => "open",
            LaneLifecycle::Closed => "closed",
            LaneLifecycle::Abandoned => "abandoned",
        }
    }

    /// The case whose label is `value`.
    pub open spec fn parsed(value: Seq<char>) -> Option<LaneLifecycle> {
        if value == LaneLifecycle::Open.label_text() {
            Some(LaneLifecycle::Open)
        } else if value == LaneLifecycle::Closed.label_text() {
            Some(LaneLifecycle::Closed)
        } else if value == LaneLifecycle::Abandoned.label_text() {
            Some(LaneLifecycle::Abandoned)
        } else {
            None
        }
    }

    /// Parse the stable string form.
    pub fn parse(value: &str) -> (res: Option<LaneLifecycle>)
        ensures
            res == LaneLifecycle::parsed(value@),
    {
        if same(value, "open") {
            Some(LaneLifecycle::Open)
        } else if same(value, "closed") {
            Some(LaneLifecycle::Closed)
        } else if same(value, "abandoned") {
            Some(LaneLifecycle::Abandoned)
        } else {
            None
        }
    }
}

/// Parsing a lifecycle's string form gives it back.
pub proof fn law_lifecycle_round_trip(lifecycle: LaneLifecycle)
    ensures
        LaneLifecycle::parsed(lifecycle.label_text()) == Some(lifecycle),
{
    reveal_strlit("open");
    reveal_strlit("closed");
    reveal_strlit("abandoned");
    assert("open"@.len() == 4 && "closed"@.len() == 6 && "abandoned"@.len() == 9);
}

/// Shell kinds supported by shell integration.
#[derive(Clone, Copy, Debug, PartialEq, Eq, Structural)]
pub enum ShellKind {
    /// Bash shell.
    Bash,
    /// Zsh shell.
    Zsh,
}

impl ShellKind {
    /// The label of each case.
    pub open spec fn label_text(self) -> Seq<char> {
        match self {
            ShellKind::Bash => "bash"@,
            ShellKind::Zsh => "zsh"@,
        }
    }

    /// Return the shell name used in CLI output and shell code.
    pub fn as_str(self) -> (res: &'static str)
        ensures
            res@ == self.label_text(),
    {
        match self {
            ShellKind::Bash => "bash",
            ShellKind::Zsh => "zsh",
        }
    }

    /// Parse a supported shell kind.
    pub fn new(value: &str) -> (res: Result<ShellKind>)
        ensures
            match res {
                Ok(kind) => value@ == kind.label_text(),
                Err(e) => value@ != ShellKind::Bash.label_text() && value@
                    != ShellKind::Zsh.label_text() && e@ == error::about(
                    ErrorKind::UnsupportedShell,
                    value@,
                ),
            },
    {
        if same(value, "bash") {
            Ok(ShellKind::Bash)
        } else if same(value, "zsh") {
            Ok(ShellKind::Zsh)
        } else {
            Err(Error::UnsupportedShell(copy(value)))
        }
    }

    /// The shell that a `SHELL` setting names, given the last component of
    /// that path; without a setting, or without such a component, the shell
    /// cannot be detected.
    pub fn from_file_name(file_name: Option<&str>) -> (res: Result<ShellKind>)
        ensures
            match file_name {
                None => res matches Err(e) && e@ == error::plain(ErrorKind::ShellDetection),
                Some(name) => match res {
                    Ok(kind) => name@ == kind.label_text(),
                    Err(e) => name@ != ShellKind::Bash.label_text() && name@
                        != ShellKind::Zsh.label_text() && e@ == error::about(
                        ErrorKind::UnsupportedShell,
                        name@,
                    ),
                },
            },
    {
        match file_name {
            None => Err(Error::ShellDetection),
            Some(name) => ShellKind::new(name),
        }
    }

    /// The rc filename of each shell.
    pub open spec fn rc_text(self) -> Seq<char> {
        match self {
            ShellKind::Bash => ".bashrc"@,
            ShellKind::Zsh => ".zshrc"@,
        }
    }

    /// Return the shell rc filename for this shell.
    pub fn rc_file_name(self) -> (res: &'static str)
        ensures
            res@ == self.rc_text(),
    {
        match self {
            ShellKind::Bash => ".bashrc",
            ShellKind::Zsh => ".zshrc",
        }
    }
}

/// Shared path source used by workspace health snapshots.
#[derive(Clone, Copy, Debug, PartialEq, Eq, Structural)]
pub enum WorkspacePathSource {
    /// Path comes from the currently opened workspace root.
    CurrentWorkspace,
    /// Path comes from `jj workspace root --name`.
    JjRecorded,
    /// Path comes from the repo-primary root fallback.
    RepoPrimary,
    /// Path comes from validated `navi` metadata.
    NaviMetadata,
    /// Path comes from the deterministic workspace template.
    Template,
}

impl WorkspacePathSource {
    /// The label of each case.
    pub open spec fn label_text(self) -> Seq<char> {
        match self {
            WorkspacePathSource::CurrentWorkspace => "current_workspace"@,
            WorkspacePathSource::JjRecorded => "jj_recorded"@,
            WorkspacePathSource::RepoPrimary => "repo_primary"@,
            WorkspacePathSource::NaviMetadata => "navi_metadata"@,
            WorkspacePathSource::Template => "template"@,
        }
    }

    /// Return the machine-readable label for this source.
    pub fn label(self) -> (res: &'static str)
        ensures
            res@ == self.label_text(),
    {
        match self {
            WorkspacePathSource::CurrentWorkspace => "current_workspace",
            WorkspacePathSource::JjRecorded => "jj_recorded",
            WorkspacePathSource::RepoPrimary => "repo_primary",
            WorkspacePathSource::NaviMetadata => "navi_metadata",
            WorkspacePathSource::Template => "template",
        }
    }

    /// Whether this source is a validated fallback rather than direct JJ truth.
    pub fn is_inferred(self) -> (res: bool)
        ensures
            res == (self == WorkspacePathSource::NaviMetadata || self
                == WorkspacePathSource::Template),
    {
        match self {
            WorkspacePathSource::NaviMetadata | WorkspacePathSource::Template => true,
            _ => false,
        }
    }

    /// Whether `switch` should warn when navigating via this source.
    pub fn needs_switch_warning(self) -> (res: bool)
        ensures
            res == (self == WorkspacePathSource::Template),
    {
        match self {
            WorkspacePathSource::Template => true,
            _ => false,
        }
    }
}

/// Presence of repo-scoped metadata for a workspace.
#[derive(Clone, Copy, Debug, PartialEq, Eq, Structural)]
pub enum WorkspaceMetadataStatus {
    /// No metadata record exists for the workspace.
    MissingRecord,
    /// Metadata record exists, but it does not currently expose a path.
    PresentWithoutPath,
    /// Metadata record exists and contains a path.
    PresentWithPath,
}

impl WorkspaceMetadataStatus {
    /// The label of each case.
    pub open spec fn label_text(self) -> Seq<char> {
        match self {
            WorkspaceMetadataStatus::MissingRecord => "missing_record"@,
            WorkspaceMetadataStatus::PresentWithoutPath => "present_without_path"@,
            WorkspaceMetadataStatus::PresentWithPath => "present_with_path"@,
        }
    }

    /// Return the machine-readable label for this metadata status.
    pub fn label(self) -> (res: &'static str)
        ensures
            res@ == self.label_text(),
    {
        match self {
            WorkspaceMetadataStatus::MissingRecord => "missing_record",
            WorkspaceMetadataStatus::PresentWithoutPath => "present_without_path",
            WorkspaceMetadataStatus::PresentWithPath => "present_with_path",
        }
    }
}

/// Machine-readable workspace freshness state.
#[derive(Clone, Copy, Debug, PartialEq, Eq, Structural)]
pub enum WorkspaceFreshnessStatus {
    /// Workspace was made current before rendering.
    Current,
    /// Workspace path is missing and could not be refreshed.
    SkippedMissing,
    /// Workspace path is stale and could not be refreshed safely.
    SkippedStale,
    /// Workspace path is not trusted enough to run JJ in it.
    SkippedUntrusted,
    /// JJ failed while making the workspace current.
    Failed,
    /// JJ exceeded the deadline while making the workspace current.
    TimedOut,
}

impl WorkspaceFreshnessStatus {
    /// The label of each case.
    pub open spec fn label_text(self) -> Seq<char> {
        match self {
            WorkspaceFreshnessStatus::Current => "current"@,
            WorkspaceFreshnessStatus::SkippedMissing => "skipped_missing"@,
            WorkspaceFreshnessStatus::SkippedStale => "skipped_stale"@,
            WorkspaceFreshnessStatus::SkippedUntrusted => "skipped_untrusted"@,
            WorkspaceFreshnessStatus::Failed => "failed"@,
            WorkspaceFreshnessStatus::TimedOut => "timed_out"@,
        }
    }

    /// Return the machine-readable freshness label.
    pub fn label(self) -> (res: &'static str)
        ensures
            res@ == self.label_text(),
    {
        match self {
            WorkspaceFreshnessStatus::Current => "current",
            WorkspaceFreshnessStatus::SkippedMissing => "skipped_missing",
            WorkspaceFreshnessStatus::SkippedStale => "skipped_stale",
            WorkspaceFreshnessStatus::SkippedUntrusted => "skipped_untrusted",
            WorkspaceFreshnessStatus::Failed => "failed",
            WorkspaceFreshnessStatus::TimedOut => "timed_out",
        }
    }
}

/// Whether workspace diff statistics were available.
#[derive(Clone, Copy, Debug, PartialEq, Eq, Structural)]
pub enum WorkspaceDiffStatus {
    /// Diff statistics were collected.
    Available,
    /// Diff statistics could not be collected.
    Unknown,
}

impl WorkspaceDiffStatus {
    /// The label of each case.
    pub open spec fn label_text(self) -> Seq<char> {
        match self {
            WorkspaceDiffStatus::Available => "available"@,
            WorkspaceDiffStatus::Unknown => "unknown"@,
        }
    }

    /// Return the machine-readable diff status label.
    pub fn label(self) -> (res: &'static str)
        ensures
            res@ == self.label_text(),
    {
        match self {
            WorkspaceDiffStatus::Available => "available",
            WorkspaceDiffStatus::Unknown => "unknown",
        }
    }
}

/// Display state for a workspace path rendered by `navi list`.
#[derive(Clone, Copy, Debug, PartialEq, Eq, Structural)]
pub enum WorkspacePathState {
    /// Path is confirmed from the current workspace or JJ.
    Confirmed,
    /// Path was inferred from validated `navi` fallback data.
    Inferred,
    /// Best known path does not exist on disk.
    Missing,
    /// Best known path exists but no longer validates.
    Stale,
}

impl WorkspacePathState {
    /// The state of the best known path of a workspace: where it comes from,
    /// whether it is on disk, and whether the workspace is found there.
    pub fn of(source: WorkspacePathSource, on_disk: bool, validates: bool) -> (res: Self)
        ensures
            res == (if !on_disk {
                WorkspacePathState::Missing
            } else if !validates {
                WorkspacePathState::Stale
            } else if source == WorkspacePathSource::NaviMetadata || source
                == WorkspacePathSource::Template {
                WorkspacePathState::Inferred
            } else {
                WorkspacePathState::Confirmed
            }),
    {
        if !on_disk {
            WorkspacePathState::Missing
        } else if !validates {
            WorkspacePathState::Stale
        } else if source.is_inferred() {
            WorkspacePathState::Inferred
        } else {
            WorkspacePathState::Confirmed
        }
    }

    /// The label of each case.
    pub open spec fn label_text(self) -> Seq<char> {
        match self {
            WorkspacePathState::Confirmed => "confirmed"@,
            WorkspacePathState::Inferred => "inferred"@,
            WorkspacePathState::Missing => "missing"@,
            WorkspacePathState::Stale => "stale"@,
        }
    }

    /// Return the machine-readable label for this path state.
    pub fn label(self) -> (res: &'static str)
        ensures
            res@ == self.label_text(),
    {
        match self {
            WorkspacePathState::Confirmed => "confirmed",
            WorkspacePathState::Inferred => "inferred",
            WorkspacePathState::Missing => "missing",
            WorkspacePathState::Stale => "stale",
        }
    }
}

/// Compact status label rendered by `navi list`.
#[derive(Clone, Copy, Debug, PartialEq, Eq, Structural)]
pub enum WorkspaceListStatus {
    /// Workspace looks healthy.
    Healthy,
    /// Workspace path came from validated fallback data.
    Inferred,
    /// Best known workspace path is missing.
    Missing,
    /// Best known workspace path is stale.
    Stale,
    /// JJ knows the workspace but `navi` metadata does not.
    JjOnly,
    /// Workspace could not be made current before rendering.
    NotCurrent,
}

impl WorkspaceListStatus {
    /// The label of each case.
    pub open spec fn label_text(self) -> Seq<char> {
        match self {
            WorkspaceListStatus::Healthy => "ok"@,
            WorkspaceListStatus::Inferred => "inferred"@,
            WorkspaceListStatus::Missing => "missing"@,
            WorkspaceListStatus::Stale => "stale"@,
            WorkspaceListStatus::JjOnly => "jj-only"@,
            WorkspaceListStatus::NotCurrent => "not-current"@,
        }
    }

    /// Return the human-facing label for this status.
    pub fn label(self) -> (res: &'static str)
        ensures
            res@ == self.label_text(),
    {
        match self {
            WorkspaceListStatus::Healthy => "ok",
            WorkspaceListStatus::Inferred => "inferred",
            WorkspaceListStatus::Missing => "missing",
            WorkspaceListStatus::Stale => "stale",
            WorkspaceListStatus::JjOnly => "jj-only",
            WorkspaceListStatus::NotCurrent => "not-current",
        }
    }
}
/// Whether a workspace's JJ state was made current before rendering it.
#[derive(Debug, PartialEq, Eq)]
pub struct WorkspaceFreshnessSnapshot {
    /// Machine-readable freshness state.
    pub status: WorkspaceFreshnessStatus,
    /// Optional user-facing reason when freshness could not be established.
    pub reason: Option<String>,
}

impl WorkspaceFreshnessSnapshot {
    /// The snapshot has this status and this reason.
    pub open spec fn is(self, status: WorkspaceFreshnessStatus, reason: Option<Seq<char>>) -> bool {
        self.status == status && text::opt_view(self.reason) == reason
    }

    /// Return a successful freshness snapshot.
    pub fn current() -> (res: WorkspaceFreshnessSnapshot)
        ensures
            res.is(WorkspaceFreshnessStatus::Current, None),
    {
        WorkspaceFreshnessSnapshot { status: WorkspaceFreshnessStatus::Current, reason: None }
    }

    /// Return a freshness snapshot for a skipped missing path.
    pub fn skipped_missing() -> (res: WorkspaceFreshnessSnapshot)
        ensures
            res.is(
                WorkspaceFreshnessStatus::SkippedMissing,
                Some("workspace path is missing"@),
            ),
    {
        WorkspaceFreshnessSnapshot {
            status: WorkspaceFreshnessStatus::SkippedMissing,
            reason: Some(copy("workspace path is missing")),
        }
    }

    /// Return a freshness snapshot for a skipped stale path.
    pub fn skipped_stale() -> (res: WorkspaceFreshnessSnapshot)
        ensures
            res.is(
                WorkspaceFreshnessStatus::SkippedStale,
                Some("workspace path is stale"@),
            ),
    {
        WorkspaceFreshnessSnapshot {
            status: WorkspaceFreshnessStatus::SkippedStale,
            reason: Some(copy("workspace path is stale")),
        }
    }

    /// Return a freshness snapshot for a skipped untrusted path.
    pub fn skipped_untrusted() -> (res: WorkspaceFreshnessSnapshot)
        ensures
            res.is(
                WorkspaceFreshnessStatus::SkippedUntrusted,
                Some("workspace path is not trusted"@),
            ),
    {
        WorkspaceFreshnessSnapshot {
            status: WorkspaceFreshnessStatus::SkippedUntrusted,
            reason: Some(copy("workspace path is not trusted")),
        }
    }

    /// Return a timed out freshness snapshot.
    pub fn timed_out() -> (res: WorkspaceFreshnessSnapshot)
        ensures
            res.is(
                WorkspaceFreshnessStatus::TimedOut,
                Some("workspace could not be made current before the deadline"@),
            ),
    {
        WorkspaceFreshnessSnapshot {
            status: WorkspaceFreshnessStatus::TimedOut,
            reason: Some(copy("workspace could not be made current before the deadline")),
        }
    }

    /// Return a failed freshness snapshot.
    pub fn failed(reason: String) -> (res: WorkspaceFreshnessSnapshot)
        ensures
            res.is(WorkspaceFreshnessStatus::Failed, Some(reason@)),
    {
        WorkspaceFreshnessSnapshot {
            status: WorkspaceFreshnessStatus::Failed,
            reason: Some(reason),
        }
    }
}

impl Default for WorkspaceFreshnessSnapshot {
    fn default() -> (res: WorkspaceFreshnessSnapshot)
        ensures
            res.is(WorkspaceFreshnessStatus::Current, None),
    {
        WorkspaceFreshnessSnapshot::current()
    }
}

/// Compact diff statistics for a workspace's working-copy commit.
#[derive(Clone, Copy, Debug, PartialEq, Eq)]
pub struct WorkspaceDiffSnapshot {
    /// Whether diff statistics were available.
    pub status: WorkspaceDiffStatus,
    /// Number of changed files, when known.
    pub files_changed: Option<u32>,
    /// Number of inserted lines, when known.
    pub insertions: Option<u32>,
    /// Number of deleted lines, when known.
    pub deletions: Option<u32>,
}

impl WorkspaceDiffSnapshot {
    /// Diff statistics of which nothing is known.
    pub open spec fn nothing_known() -> WorkspaceDiffSnapshot {
        WorkspaceDiffSnapshot {
            status: WorkspaceDiffStatus::Unknown,
            files_changed: None,
            insertions: None,
            deletions: None,
        }
    }

    /// Return unknown diff statistics.
    pub fn unknown() -> (res: WorkspaceDiffSnapshot)
        ensures
            res == WorkspaceDiffSnapshot::nothing_known(),
    {
        WorkspaceDiffSnapshot {
            status: WorkspaceDiffStatus::Unknown,
            files_changed: None,
            insertions: None,
            deletions: None,
        }
    }
}

impl Default for WorkspaceDiffSnapshot {
    fn default() -> (res: WorkspaceDiffSnapshot)
        ensures
            res == WorkspaceDiffSnapshot::nothing_known(),
    {
        WorkspaceDiffSnapshot::unknown()
    }
}

/// Role of a workspace in merge validation.
#[derive(Clone, Copy, Debug, PartialEq, Eq, Structural)]
pub enum WorkspaceMergeRole {
    /// Source workspace role.
    Source,
    /// Target workspace role.
    Target,
}

impl WorkspaceMergeRole {
    /// The human-facing role label.
    pub open spec fn label_text(self) -> Seq<char> {
        match self {
            WorkspaceMergeRole::Source => "source"@,
            WorkspaceMergeRole::Target => "target"@,
        }
    }

    /// Return the human-facing role label.
    pub fn label(self) -> (res: &'static str)
        ensures
            res@ == self.label_text(),
    {
        match self {
            WorkspaceMergeRole::Source => "source",
            WorkspaceMergeRole::Target => "target",
        }
    }
}

// ---------------------------------------------------------------------------
// Configuration

/// How a conflicted file is resolved without a human.
#[derive(Clone, Copy, Debug, PartialEq, Eq, Structural)]
pub enum ResolveStrategy {
    /// Keep every side of each conflicted hunk.
    Union,
}

impl ResolveStrategy {
    /// The name of each strategy in the config file.
    pub open spec fn label_text(self) -> Seq<char> {
        match self {
            ResolveStrategy::Union => "union"@,
        }
    }

    /// The strategy of this name.
    pub open spec fn parsed(value: Seq<char>) -> Option<ResolveStrategy> {
        if value == "union"@ {
            Some(ResolveStrategy::Union)
        } else {
            None
        }
    }

    /// Name used in the config file.
    pub fn as_str(self) -> (res: &'static str)
        ensures
            res@ == self.label_text(),
    {
        match self {
            ResolveStrategy::Union => "union",
        }
    }

    /// Parse the name used in the config file.
    pub fn parse(value: &str) -> (res: Option<ResolveStrategy>)
        ensures
            res == ResolveStrategy::parsed(value@),
    {
        if same(value, "union") {
            Some(ResolveStrategy::Union)
        } else {
            None
        }
    }
}

/// Automatic resolution policy for one file.
#[derive(Debug, PartialEq, Eq)]
pub struct ResolvePolicy {
    /// Repo-relative file path.
    pub path: String,
    /// How conflicts in that file are resolved.
    pub strategy: ResolveStrategy,
}

/// Repo-scoped configuration.
#[derive(Debug, PartialEq, Eq)]
pub struct RepoConfig {
    /// Template used when planning new workspace paths.
    pub workspace_template: WorkspaceTemplate,
    /// Lane workflow configuration.
    pub lane: LaneConfig,
    /// Automatic conflict-resolution policies.
    pub resolve: Vec<ResolvePolicy>,
}

/// Lane workflow configuration stored in the repo config file.
#[derive(Debug, PartialEq, Eq)]
pub struct LaneConfig {
    /// Workspace whose working-copy parent is the trunk head.
    pub trunk: WorkspaceName,
    /// Bookmark that lanes land into; where it is set, the trunk workspace
    /// plays no part.
    pub target: Option<String>,
    /// Sparse-empty workspace in which the target bookmark is advanced.
    pub integration_workspace: WorkspaceName,
    /// Gate command run before every landing (via `sh -c`), if configured.
    pub gate: Option<String>,
    /// Create lane workspaces sparse, materializing only the write-set and
    /// context paths.
    pub sparse: bool,
    /// Apply the resolution policies when syncing a lane brings conflicts.
    pub auto_resolve: bool,
    /// Extra read-only paths materialized into sparse lane workspaces.
    pub context_paths: Vec<LanePath>,
}

impl LaneConfig {
    /// The configuration in effect where nothing is configured.
    pub open spec fn is_default(self) -> bool {
        &&& self.trunk@ == "default"@
        &&& self.target is None
        &&& self.integration_workspace@ == "navi-integration"@
        &&& self.gate is None
        &&& !self.sparse
        &&& self.auto_resolve
        &&& self.context_paths@.len() == 0
    }
}

/// A workspace name that is known to be valid.
fn fixed_name(value: &str) -> (res: WorkspaceName)
    requires
        valid_name(value@),
    ensures
        res@ == value@,
{
    WorkspaceName { value: copy(value) }
}

impl Default for LaneConfig {
    fn default() -> (res: LaneConfig)
        ensures
            res.is_default(),
    {
        proof {
            reveal_strlit("default");
            reveal_strlit("navi-integration");
            reveal_strlit(".");
            reveal_strlit("..");
            assert("default"@.len() == 7 && "navi-integration"@.len() == 16);
        }
        LaneConfig {
            trunk: fixed_name("default"),
            target: None,
            integration_workspace: fixed_name("navi-integration"),
            gate: None,
            sparse: false,
            auto_resolve: true,
            context_paths: Vec::new(),
        }
    }
}

impl Default for RepoConfig {
    fn default() -> (res: RepoConfig)
        ensures
            res.workspace_template@ == default_template(),
            res.lane.is_default(),
            res.resolve@.len() == 0,
    {
        RepoConfig {
            workspace_template: WorkspaceTemplate::default(),
            lane: LaneConfig::default(),
            resolve: Vec::new(),
        }
    }
}

// ---------------------------------------------------------------------------
// Lane outcomes

/// A revision reference reported by lane operations.
#[derive(Debug, PartialEq, Eq)]
pub struct LaneRev {
    /// Commit id (short form).
    pub commit_id: String,
    /// Change id (short form).
    pub change_id: String,
    /// First line of the description.
    pub message: String,
}

/// The texts of a revision reference.
pub struct RevView {
    pub commit_id: Seq<char>,
    pub change_id: Seq<char>,
    pub message: Seq<char>,
}

impl View for LaneRev {
    type V = RevView;

    open spec fn view(&self) -> RevView {
        RevView {
            commit_id: self.commit_id@,
            change_id: self.change_id@,
            message: self.message@,
        }
    }
}

/// Outcome of `lane open`.
#[derive(Debug, PartialEq, Eq)]
pub struct LaneOpenOutcome {
    /// Lane name.
    pub name: WorkspaceName,
    /// Created workspace directory.
    pub path: String,
    /// Revision the lane was based on.
    pub base: LaneRev,
    /// Declared write-set.
    pub paths: Vec<LanePath>,
    /// Whether the workspace was created sparse.
    pub sparse: bool,
}

/// One lane row in `lane list`, with live state derived from `jj`.
#[derive(Debug, PartialEq, Eq)]
pub struct LaneListEntry {
    /// Lane name.
    pub name: WorkspaceName,
    /// Durable lifecycle state.
    pub lifecycle: LaneLifecycle,
    /// Declared write-set.
    pub paths: Vec<LanePath>,
    /// Whether the lane's jj workspace still exists.
    pub workspace_exists: bool,
    /// Whether the lane is rebased onto the current trunk head.
    pub synced: bool,
    /// Non-empty changes the lane carries beyond trunk.
    pub ahead: usize,
    /// Trunk changes the lane has not absorbed.
    pub behind: usize,
    /// Conflicted commits in the lane chain.
    pub conflicts: usize,
    /// Changed paths outside the declared write-set.
    pub unscoped: Vec<String>,
    /// Commit id of the lane's most recent landing, if any.
    pub last_land: Option<String>,
}

/// Outcome of syncing one lane.
#[derive(Debug, PartialEq, Eq)]
pub struct LaneSyncOutcome {
    /// Lane name.
    pub name: WorkspaceName,
    /// Whether the lane's jj workspace still exists.
    pub workspace_exists: bool,
    /// Whether a stale working copy had to be recovered first.
    pub recovered_stale: bool,
    /// Whether the lane was rebased onto the trunk head.
    pub rebased: bool,
    /// Conflicted commits after the rebase, if any.
    pub conflicts: Vec<LaneRev>,
    /// Out-of-scope paths dropped by `--drop-unscoped`.
    pub dropped: Vec<String>,
}

/// Fan-out result for one peer lane after a landing.
#[derive(Debug, PartialEq, Eq)]
pub struct LaneFanoutEntry {
    /// Peer lane name.
    pub name: WorkspaceName,
    /// Whether the peer was rebased onto the new head.
    pub rebased: bool,
    /// Conflicted commits the rebase produced in the peer lane.
    pub conflicts: usize,
    /// Error message if the peer could not be rebased.
    pub error: Option<String>,
}

/// What `lane land` was asked to do.
#[derive(Debug, PartialEq, Eq)]
pub struct LaneLandRequest {
    /// Description for an undescribed head.
    pub message: Option<String>,
    /// Skip the landing gate.
    pub no_gate: bool,
    /// Gate command used instead of the configured one.
    pub gate_override: Option<String>,
    /// Land changes outside the write-set too.
    pub allow_unscoped: bool,
    /// Retire the lane after landing.
    pub close: bool,
}

/// Outcome of `lane land`.
#[derive(Debug, PartialEq, Eq)]
pub struct LaneLandOutcome {
    /// Lane name.
    pub name: WorkspaceName,
    /// The landed head revision, now the trunk head.
    pub landed: LaneRev,
    /// Number of non-empty changes fast-forwarded onto trunk.
    pub landed_changes: usize,
    /// Gate command that passed, if one ran.
    pub gate: Option<String>,
    /// Per-peer fan-out results.
    pub fanout: Vec<LaneFanoutEntry>,
    /// Whether the lane was closed after landing.
    pub closed: bool,
}

/// Outcome of `lane abandon`.
#[derive(Debug, PartialEq, Eq)]
pub struct LaneAbandonOutcome {
    /// Lane name.
    pub name: WorkspaceName,
    /// Where the lane's diff was archived, if it had one.
    pub archive: Option<String>,
    /// Workspace directory that was deleted, if it existed.
    pub removed_directory: Option<String>,
}

/// Garbage-collection plan for ghost workspaces and orphaned lanes.
#[derive(Debug, PartialEq, Eq)]
pub struct LaneGcPlan {
    /// Workspaces registered in `jj` whose directories are gone.
    pub ghost_workspaces: Vec<WorkspaceName>,
    /// Open registry lanes with no corresponding `jj` workspace.
    pub orphaned_lanes: Vec<WorkspaceName>,
    /// Retired registry records to drop.
    pub prunable_lanes: Vec<WorkspaceName>,
}

impl LaneGcPlan {
    /// Whether there is nothing to collect.
    pub fn is_empty(&self) -> (res: bool)
        ensures
            res == (self.ghost_workspaces@.len() == 0 && self.orphaned_lanes@.len() == 0
                && self.prunable_lanes@.len() == 0),
    {
        self.ghost_workspaces.len() == 0 && self.orphaned_lanes.len() == 0
            && self.prunable_lanes.len() == 0
    }
}

// ---------------------------------------------------------------------------
// Workspace snapshots

/// Shared path snapshot for one workspace.
#[derive(Debug, PartialEq, Eq)]
pub struct WorkspacePathSnapshot {
    /// Absolute workspace path chosen by resolution.
    pub path: String,
    /// How trustworthy the resolved path is.
    pub state: WorkspacePathState,
    /// Which source produced the chosen path.
    pub source: WorkspacePathSource,
}

/// Shared health snapshot for one workspace.
#[derive(Debug, PartialEq, Eq)]
pub struct WorkspaceHealthSnapshot {
    /// Compact list-facing health statuses.
    pub statuses: Vec<WorkspaceListStatus>,
    /// Repo-scoped metadata presence for this workspace.
    pub metadata_status: WorkspaceMetadataStatus,
}

/// Workspace creation metadata used for compact age rendering.
#[derive(Clone, Copy, Debug, PartialEq, Eq, Structural)]
pub struct WorkspaceAgeSnapshot {
    /// Recorded creation timestamp, when available.
    pub created_at: Option<Timestamp>,
}

impl WorkspaceAgeSnapshot {
    /// Return an unknown age snapshot.
    pub fn unknown() -> (res: WorkspaceAgeSnapshot)
        ensures
            res.created_at is None,
    {
        WorkspaceAgeSnapshot { created_at: None }
    }
}

impl Default for WorkspaceAgeSnapshot {
    fn default() -> (res: WorkspaceAgeSnapshot)
        ensures
            res.created_at is None,
    {
        WorkspaceAgeSnapshot::unknown()
    }
}

/// Shared repo-domain snapshot for one workspace.
#[derive(Debug, PartialEq, Eq)]
pub struct WorkspaceSnapshot {
    /// Whether this workspace is the current working copy.
    pub is_current: bool,
    /// Workspace name.
    pub name: WorkspaceName,
    /// Resolved path snapshot.
    pub path: WorkspacePathSnapshot,
    /// Derived workspace health snapshot.
    pub health: WorkspaceHealthSnapshot,
    /// Short commit identifier.
    pub commit_id: String,
    /// Short change identifier.
    pub change_id: String,
    /// First-line commit description.
    pub message: String,
    /// Whether this workspace was made current before rendering.
    pub freshness: WorkspaceFreshnessSnapshot,
    /// Compact diff statistics for the working-copy commit.
    pub diff: WorkspaceDiffSnapshot,
    /// Workspace age metadata.
    pub age: WorkspaceAgeSnapshot,
}

/// Render-ready workspace row for `navi list`.
#[derive(Debug, PartialEq, Eq)]
pub struct WorkspaceListEntry {
    /// Whether this row represents the active workspace.
    pub is_current: bool,
    /// Workspace name.
    pub name: WorkspaceName,
    /// Compact status labels shown in the list table.
    pub statuses: Vec<WorkspaceListStatus>,
    /// Display path shown in the table.
    pub path: String,
    /// How trustworthy the rendered path is.
    pub path_state: WorkspacePathState,
    /// Short commit identifier.
    pub commit_id: String,
    /// Short change identifier.
    pub change_id: String,
    /// First-line commit description.
    pub message: String,
    /// Whether this workspace was made current before rendering.
    pub freshness: WorkspaceFreshnessSnapshot,
    /// Compact diff statistics for the working-copy commit.
    pub diff: WorkspaceDiffSnapshot,
    /// Workspace age metadata.
    pub age: WorkspaceAgeSnapshot,
}

// ---------------------------------------------------------------------------
// Merging

/// Snapshot details for one side of a workspace merge.
#[derive(Debug, PartialEq, Eq)]
pub struct WorkspaceMergeSide {
    /// Workspace snapshot after freshness validation.
    pub snapshot: WorkspaceSnapshot,
    /// Display path relative to the currently opened workspace.
    pub display_path: String,
}

/// One non-empty source revision selected for workspace merge.
#[derive(Debug, PartialEq, Eq)]
pub struct WorkspaceMergeRevision {
    /// Short commit identifier.
    pub commit_id: String,
    /// Short change identifier.
    pub change_id: String,
    /// First-line commit description.
    pub message: String,
}

/// Executable merge operation across JJ workspaces.
#[derive(Debug, PartialEq, Eq)]
pub struct WorkspaceMerge {
    /// Workspace that contains work to bring over.
    pub source: WorkspaceMergeSide,
    /// Workspace that should receive the duplicated work.
    pub target: WorkspaceMergeSide,
    /// Non-empty source revisions selected for duplicate/rebase.
    pub revisions: Vec<WorkspaceMergeRevision>,
    /// Source root commit used as the rebase source after duplication.
    pub source_root_commit_id: String,
    /// Source head commit used to place the target workspace after rebase.
    pub source_head_commit_id: String,
}

/// Completed workspace merge details.
#[derive(Debug, PartialEq, Eq)]
pub struct WorkspaceMergeOutcome {
    /// Prepared operation inputs.
    pub merge: WorkspaceMerge,
    /// Change ID created by `jj duplicate` for the source root.
    pub duplicated_root_change_id: String,
    /// Change ID created by `jj duplicate` for the source head.
    pub duplicated_head_change_id: String,
    /// Raw `jj duplicate` diagnostic output.
    pub duplicate_output: String,
    /// Raw `jj rebase` diagnostic output.
    pub rebase_output: String,
    /// Raw `jj new` diagnostic output from updating the target workspace.
    pub new_output: String,
}

/// The path that is reported as bad is the first that is no lane path, and none
/// is exactly where all are.
pub proof fn law_bad_path_is_the_first(raw: Seq<Seq<char>>)
    ensures
        match bad_path(raw) {
            Some(p) => exists|i: int|
                0 <= i < raw.len() && #[trigger] raw[i] == p && !valid_lane_path(normal_path(p))
                    && forall|j: int|
                    0 <= j < i ==> valid_lane_path(normal_path(#[trigger] raw[j])),
            None => forall|j: int|
                0 <= j < raw.len() ==> valid_lane_path(normal_path(#[trigger] raw[j])),
        },
{
    lemma_bad_path_from(raw, 0);
    if let Some(p) = bad_path(raw) {
        let i = choose|i: int|
            0 <= i < raw.len() && #[trigger] raw[i] == p && !valid_lane_path(normal_path(p))
                && forall|j: int| 0 <= j < i ==> valid_lane_path(normal_path(#[trigger] raw[j]));
        assert(raw[i] == p);
    }
}

proof fn lemma_bad_path_from(raw: Seq<Seq<char>>, from: int)
    requires
        0 <= from <= raw.len(),
    ensures
        match bad_path_from(raw, from) {
            Some(p) => exists|i: int|
                from <= i < raw.len() && #[trigger] raw[i] == p && !valid_lane_path(normal_path(p))
                    && forall|j: int|
                    from <= j < i ==> valid_lane_path(normal_path(#[trigger] raw[j])),
            None => forall|j: int|
                from <= j < raw.len() ==> valid_lane_path(normal_path(#[trigger] raw[j])),
        },
    decreases raw.len() - from,
{
    if from < raw.len() {
        lemma_bad_path_from(raw, from + 1);
        if !valid_lane_path(normal_path(raw[from])) {
            assert(raw[from] == bad_path_from(raw, from)->0);
        } else if let Some(p) = bad_path_from(raw, from + 1) {
            let i = choose|i: int|
                from + 1 <= i < raw.len() && #[trigger] raw[i] == p && !valid_lane_path(
                    normal_path(p),
                ) && forall|j: int|
                    from + 1 <= j < i ==> valid_lane_path(normal_path(#[trigger] raw[j]));
            assert(raw[i] == p);
            assert forall|j: int| from <= j < i implies valid_lane_path(
                normal_path(#[trigger] raw[j]),
            ) by {}
        }
    }
}

/// A write-set path covers itself and what lies below it in its directory, and
/// nothing that merely begins with the same letters.
pub proof fn law_cover_is_by_directory(prefix: Seq<char>, path: Seq<char>)
    requires
        !text::starts_with(path, "./"@),
    ensures
        covers(prefix, path) <==> path == prefix || (path.len() > prefix.len() && path.take(
            prefix.len() as int,
        ) == prefix && path[prefix.len() as int] == '/'),
{
    reveal_strlit("/");
    reveal_strlit("./");
    assert("/"@ =~= seq!['/']);
    assert(text::trim_start_text(path, "./"@) == path);
    let below = prefix + "/"@;
    if text::starts_with(path, below) {
        assert(path.take(below.len() as int) == below);
        assert(path.take(prefix.len() as int) =~= below.take(prefix.len() as int));
        assert(below.take(prefix.len() as int) =~= prefix);
        assert(path.take(below.len() as int)[prefix.len() as int] == '/');
    }
    if path.len() > prefix.len() && path.take(prefix.len() as int) == prefix && path[prefix.len()
        as int] == '/' {
        assert(path.take(below.len() as int) =~= below) by {
            assert forall|i: int| 0 <= i < below.len() implies path.take(below.len() as int)[i]
                == below[i] by {
                if i < prefix.len() {
                    assert(path.take(prefix.len() as int)[i] == prefix[i]);
                }
            }
        }
    }
}

/// A name is one path component: it has no slash of either kind and no white
/// space, and is neither empty nor one of the two that stand for directories;
/// any other text is a name.
pub proof fn law_names_are_path_components(value: Seq<char>, i: int)
    ensures
        valid_name(value) ==> value.len() > 0 && value != "."@ && value != ".."@,
        valid_name(value) && 0 <= i < value.len() ==> value[i] != '/' && value[i] != '\\'
            && !text::is_space(value[i]),
        value.len() > 0 && value != "."@ && value != ".."@ && (forall|k: int|
            0 <= k < value.len() ==> #[trigger] value[k] != '/' && value[k] != '\\'
                && !text::is_space(value[k])) ==> valid_name(value),
{
    if valid_name(value) && 0 <= i < value.len() {
        assert(value.contains(value[i]));
    }
}

/// A template is filled in piece by piece: its placeholders give way to the
/// names, each to its own, and everything else stays; a brace that belongs to no
/// placeholder makes it no template.
pub proof fn law_template_is_filled_in_by_pieces(
    rest: Seq<char>,
    repo: Seq<char>,
    workspace: Seq<char>,
    c: char,
)
    ensures
        valid_template("{repo}"@ + rest) == valid_template(rest),
        valid_template("{workspace}"@ + rest) == valid_template(rest),
        c != '{' && c != '}' ==> valid_template(seq![c] + rest) == valid_template(rest),
        rendered_template("{repo}"@ + rest, repo, workspace) == repo + rendered_template(
            rest,
            repo,
            workspace,
        ),
        rendered_template("{workspace}"@ + rest, repo, workspace) == workspace
            + rendered_template(rest, repo, workspace),
        c != '{' ==> rendered_template(seq![c] + rest, repo, workspace) == seq![c]
            + rendered_template(rest, repo, workspace),
        !valid_template(seq!['}'] + rest),
        !text::starts_with(seq!['{'] + rest, "{repo}"@) && !text::starts_with(
            seq!['{'] + rest,
            "{workspace}"@,
        ) ==> !valid_template(seq!['{'] + rest),
        valid_template(Seq::empty()) && rendered_template(Seq::empty(), repo, workspace).len() == 0,
{
    reveal_strlit("{repo}");
    reveal_strlit("{workspace}");
    let r = "{repo}"@;
    let w = "{workspace}"@;
    assert(r.len() == 6 && w.len() == 11 && r[0] == '{' && w[0] == '{' && r[1] == 'r' && w[1]
        == 'w');
    assert((r + rest).take(6) =~= r);
    assert((r + rest).skip(6) =~= rest);
    assert((w + rest).take(11) =~= w);
    assert((w + rest).skip(11) =~= rest);
    if text::starts_with(w + rest, r) {
        assert((w + rest).take(6)[1] == 'w');
    }
    assert forall|d: char| d != '{' implies !text::starts_with(#[trigger] (seq![d] + rest), r)
        && !text::starts_with(seq![d] + rest, w) by {
        let s = seq![d] + rest;
        assert(s[0] == d);
        if text::starts_with(s, r) {
            assert(s.take(6)[0] == d);
        }
        if text::starts_with(s, w) {
            assert(s.take(11)[0] == d);
        }
    }
    assert((seq![c] + rest).skip(1) =~= rest);
    assert((seq!['}'] + rest)[0] == '}');
    assert((seq!['{'] + rest)[0] == '{');
}

/// A lane path is the same with or without a leading `./` and trailing slashes.
pub proof fn law_lane_path_spelling_does_not_count(p: Seq<char>)
    requires
        is_lane_path(p),
        text::trim(p) == p,
    ensures
        normal_path("./"@ + p) == p,
        normal_path(p + "/"@) == p,
{
    lemma_clean_ends(p);
    lemma_leading_dot_goes(p);
    lemma_trailing_slash_goes(p);
}

/// A path neither starts nor ends with what normalizing takes off.
spec fn has_clean_ends(p: Seq<char>) -> bool {
    &&& p.len() > 0
    &&& !text::is_space(p[0])
    &&& !text::is_space(p.last())
    &&& !text::starts_with(p, "./"@)
    &&& p.last() != '/'
    &&& p != "."@
}

proof fn lemma_clean_ends(p: Seq<char>)
    requires
        is_lane_path(p),
        text::trim(p) == p,
    ensures
        has_clean_ends(p),
{
    assert(valid_lane_path(p) && p.len() > 0);
    lemma_no_space_at_the_ends(p, text::trim(p));
    assert(p.last() != '/') by {
        reveal_strlit("/");
        if p.last() == '/' {
            assert(p.skip(p.len() - 1) =~= "/"@);
        }
    }
}

proof fn lemma_no_space_at_the_ends(p: Seq<char>, t: Seq<char>)
    requires
        t == text::trim(p),
        t.len() > 0,
    ensures
        !text::is_space(t[0]),
        !text::is_space(t.last()),
{
    text::law_trim_keeps_what_is_no_space(p);
}

proof fn lemma_leading_dot_goes(p: Seq<char>)
    requires
        has_clean_ends(p),
    ensures
        normal_path("./"@ + p) == p,
{
    reveal_strlit("./");
    let dot = "./"@;
    assert(dot.len() == 2 && dot[0] == '.' && dot[1] == '/');
    let a = dot + p;
    assert(a[0] == '.' && a.last() == p.last());
    lemma_trimmed(a);
    assert(a.take(2) =~= dot);
    assert(a.skip(2) =~= p);
    assert(text::trim_start_text(a, dot) == text::trim_start_text(p, dot));
    assert(text::trim_start_text(p, dot) == p);
    assert(text::trim_end_by(p, text::is_char('/')) == p);
}

proof fn lemma_trailing_slash_goes(p: Seq<char>)
    requires
        has_clean_ends(p),
    ensures
        normal_path(p + "/"@) == p,
{
    reveal_strlit("./");
    reveal_strlit("/");
    reveal_strlit(".");
    let dot = "./"@;
    assert(dot.len() == 2 && dot[0] == '.');
    let b = p + "/"@;
    assert(b[0] == p[0] && b.last() == '/');
    lemma_trimmed(b);
    if text::starts_with(b, dot) {
        if p.len() >= 2 {
            assert(p.take(2) =~= b.take(2));
        } else {
            assert(b.take(2)[0] == b[0]);
            assert(p =~= "."@);
        }
    }
    assert(text::trim_start_text(b, dot) == b);
    assert(b.drop_last() =~= p);
    assert(text::trim_end_by(p, text::is_char('/')) == p);
    assert(text::trim_end_by(b, text::is_char('/')) == text::trim_end_by(p, text::is_char('/')));
}

proof fn lemma_trimmed(s: Seq<char>)
    requires
        s.len() > 0,
        !text::is_space(s[0]),
        !text::is_space(s.last()),
    ensures
        text::trim(s) == s,
{
}

/// Each state has its own word.
pub proof fn law_states_are_told_by_their_words()
    ensures
        WorkspacePathState::Confirmed.label_text() == "confirmed"@,
        WorkspacePathState::Inferred.label_text() == "inferred"@,
        WorkspacePathState::Missing.label_text() == "missing"@,
        WorkspacePathState::Stale.label_text() == "stale"@,
        WorkspaceListStatus::Healthy.label_text() == "ok"@,
        WorkspaceListStatus::Inferred.label_text() == "inferred"@,
        WorkspaceListStatus::Missing.label_text() == "missing"@,
        WorkspaceListStatus::Stale.label_text() == "stale"@,
        WorkspaceListStatus::JjOnly.label_text() == "jj-only"@,
        WorkspaceListStatus::NotCurrent.label_text() == "not-current"@,
        WorkspaceMetadataStatus::MissingRecord.label_text() == "missing_record"@,
        WorkspaceMetadataStatus::PresentWithoutPath.label_text() == "present_without_path"@,
        WorkspaceMetadataStatus::PresentWithPath.label_text() == "present_with_path"@,
        WorkspaceFreshnessStatus::Current.label_text() == "current"@,
        WorkspaceFreshnessStatus::SkippedMissing.label_text() == "skipped_missing"@,
        WorkspaceFreshnessStatus::SkippedStale.label_text() == "skipped_stale"@,
        WorkspaceFreshnessStatus::SkippedUntrusted.label_text() == "skipped_untrusted"@,
        WorkspaceFreshnessStatus::Failed.label_text() == "failed"@,
        WorkspaceFreshnessStatus::TimedOut.label_text() == "timed_out"@,
        WorkspacePathSource::CurrentWorkspace.label_text() == "current_workspace"@,
        WorkspacePathSource::JjRecorded.label_text() == "jj_recorded"@,
        WorkspacePathSource::RepoPrimary.label_text() == "repo_primary"@,
        WorkspacePathSource::NaviMetadata.label_text() == "navi_metadata"@,
        WorkspacePathSource::Template.label_text() == "template"@,
        WorkspaceDiffStatus::Available.label_text() == "available"@,
        WorkspaceDiffStatus::Unknown.label_text() == "unknown"@,
        WorkspaceMergeRole::Source.label_text() == "source"@,
        WorkspaceMergeRole::Target.label_text() == "target"@,
        LaneLifecycle::Open.label_text() == "open"@,
        LaneLifecycle::Closed.label_text() == "closed"@,
        LaneLifecycle::Abandoned.label_text() == "abandoned"@,
        ShellKind::Bash.label_text() == "bash"@ && ShellKind::Bash.rc_text() == ".bashrc"@,
        ShellKind::Zsh.label_text() == "zsh"@ && ShellKind::Zsh.rc_text() == ".zshrc"@,
{
}

} // verus!
