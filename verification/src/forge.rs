//! Data handed over by a forge: commits and remote repository settings.

use vstd::prelude::*;

use crate::config::{clone_opt, opt_view};

verus! {

/// A commit as reported by a forge.
#[derive(Debug, Clone, PartialEq, Eq, Hash)]
pub struct ForgeCommit {
    pub id: String,
    pub short_id: String,
    pub link: String,
    pub author_name: String,
    pub author_email: String,
    pub merge_commit: bool,
    pub message: String,
    pub timestamp: i64,
    /// Paths of the files the commit touches.
    pub files: Vec<String>,
}

impl Default for ForgeCommit {
    fn default() -> (r: Self)
        ensures
            r.id@.len() == 0,
            r.short_id@.len() == 0,
            r.link@.len() == 0,
            r.author_name@.len() == 0,
            r.author_email@.len() == 0,
            !r.merge_commit,
            r.message@.len() == 0,
            r.timestamp == 0,
            r.files@.len() == 0,
    {
        ForgeCommit {
            id: String::new(),
            short_id: String::new(),
            link: String::new(),
            author_name: String::new(),
            author_email: String::new(),
            merge_commit: false,
            message: String::new(),
            timestamp: 0,
            files: Vec::new(),
        }
    }
}

/// Two forge commits hold the same values.
pub open spec fn same_forge_commit(a: ForgeCommit, b: ForgeCommit) -> bool {
    &&& a.id@ == b.id@
    &&& a.short_id@ == b.short_id@
    &&& a.link@ == b.link@
    &&& a.author_name@ == b.author_name@
    &&& a.author_email@ == b.author_email@
    &&& a.merge_commit == b.merge_commit
    &&& a.message@ == b.message@
    &&& a.timestamp == b.timestamp
    &&& a.files@.len() == b.files@.len()
    &&& forall|i: int| 0 <= i < a.files@.len() ==> (#[trigger] a.files@[i])@ == b.files@[i]@
}

/// The content of a forge commit.
pub struct ForgeCommitView {
    pub id: Seq<char>,
    pub short_id: Seq<char>,
    pub link: Seq<char>,
    pub author_name: Seq<char>,
    pub author_email: Seq<char>,
    pub merge_commit: bool,
    pub message: Seq<char>,
    pub timestamp: i64,
    pub files: Seq<Seq<char>>,
}

impl View for ForgeCommit {
    type V = ForgeCommitView;

    open spec fn view(&self) -> ForgeCommitView {
        ForgeCommitView {
            id: self.id@,
            short_id: self.short_id@,
            link: self.link@,
            author_name: self.author_name@,
            author_email: self.author_email@,
            merge_commit: self.merge_commit,
            message: self.message@,
            timestamp: self.timestamp,
            files: crate::config::strings_view(self.files@),
        }
    }
}

/// Two forge commits are the same exactly when their contents are equal.
pub proof fn lemma_same_forge_commit_view(a: ForgeCommit, b: ForgeCommit)
    ensures
        same_forge_commit(a, b) <==> a@ == b@,
{
    if same_forge_commit(a, b) {
        assert(crate::config::strings_view(a.files@) =~= crate::config::strings_view(b.files@));
    }
    if a@ == b@ {
        assert(a.files@.len() == crate::config::strings_view(a.files@).len());
        assert forall|i: int| 0 <= i < a.files@.len() implies (#[trigger] a.files@[i])@ == b.files@[i]@ by {
            assert(crate::config::strings_view(a.files@)[i] == a.files@[i]@);
            assert(crate::config::strings_view(b.files@)[i] == b.files@[i]@);
        }
    }
}

/// Whether two forge commits have the same content.
pub fn same_commit(a: &ForgeCommit, b: &ForgeCommit) -> (r: bool)
    ensures
        r == (a@ == b@),
{
    proof { lemma_same_forge_commit_view(*a, *b); }
    if !(crate::text::str_eq(a.id.as_str(), b.id.as_str())
        && crate::text::str_eq(a.short_id.as_str(), b.short_id.as_str())
        && crate::text::str_eq(a.link.as_str(), b.link.as_str())
        && crate::text::str_eq(a.author_name.as_str(), b.author_name.as_str())
        && crate::text::str_eq(a.author_email.as_str(), b.author_email.as_str())
        && a.merge_commit == b.merge_commit
        && crate::text::str_eq(a.message.as_str(), b.message.as_str())
        && a.timestamp == b.timestamp
        && a.files.len() == b.files.len())
    {
        return false;
    }
    let mut i: usize = 0;
    while i < a.files.len()
        invariant
            i <= a.files@.len(),
            a.files@.len() == b.files@.len(),
            a.id@ == b.id@ && a.short_id@ == b.short_id@ && a.link@ == b.link@,
            a.author_name@ == b.author_name@ && a.author_email@ == b.author_email@,
            a.merge_commit == b.merge_commit && a.message@ == b.message@ && a.timestamp == b.timestamp,
            forall|j: int| 0 <= j < i ==> (#[trigger] a.files@[j])@ == b.files@[j]@,
        decreases a.files.len() - i,
    {
        if !crate::text::str_eq(a.files[i].as_str(), b.files[i].as_str()) {
            proof { lemma_same_forge_commit_view(*a, *b); }
            return false;
        }
        i = i + 1;
    }
    true
}

/// A copy of a list of strings.
pub fn clone_strings(v: &Vec<String>) -> (r: Vec<String>)
    ensures
        r@.len() == v@.len(),
        forall|i: int| 0 <= i < v@.len() ==> (#[trigger] r@[i])@ == v@[i]@,
{
    let mut out: Vec<String> = Vec::new();
    let mut i: usize = 0;
    while i < v.len()
        invariant
            i <= v@.len(),
            out@.len() == i,
            forall|j: int| 0 <= j < i ==> (#[trigger] out@[j])@ == v@[j]@,
        decreases v.len() - i,
    {
        out.push(v[i].clone());
        i = i + 1;
    }
    out
}

impl ForgeCommit {
    /// A copy of this commit.
    pub fn duplicate(&self) -> (r: ForgeCommit)
        ensures
            same_forge_commit(r, *self),
    {
        ForgeCommit {
            id: self.id.clone(),
            short_id: self.short_id.clone(),
            link: self.link.clone(),
            author_name: self.author_name.clone(),
            author_email: self.author_email.clone(),
            merge_commit: self.merge_commit,
            message: self.message.clone(),
            timestamp: self.timestamp,
            files: clone_strings(&self.files),
        }
    }
}

/// Connection details of a remote repository on a forge.
#[derive(Debug, Clone)]
pub struct RemoteConfig {
    pub host: String,
    pub port: Option<u16>,
    pub scheme: String,
    pub owner: String,
    pub repo: String,
    pub path: String,
    pub release_link_base_url: String,
    pub compare_link_base_url: String,
    pub token: String,
}

/// The content of a remote configuration.
pub struct RemoteConfigView {
    pub host: Seq<char>,
    pub port: Option<u16>,
    pub scheme: Seq<char>,
    pub owner: Seq<char>,
    pub repo: Seq<char>,
    pub path: Seq<char>,
    pub release_link_base_url: Seq<char>,
    pub compare_link_base_url: Seq<char>,
    pub token: Seq<char>,
}

impl View for RemoteConfig {
    type V = RemoteConfigView;

    open spec fn view(&self) -> RemoteConfigView {
        RemoteConfigView {
            host: self.host@,
            port: self.port,
            scheme: self.scheme@,
            owner: self.owner@,
            repo: self.repo@,
            path: self.path@,
            release_link_base_url: self.release_link_base_url@,
            compare_link_base_url: self.compare_link_base_url@,
            token: self.token@,
        }
    }
}

/// The remote a command works against.
#[derive(Debug, Clone)]
pub enum Remote {
    Github(RemoteConfig),
    Gitlab(RemoteConfig),
    Gitea(RemoteConfig),
    Local(String),
}

/// The content of a remote.
pub enum RemoteView {
    Github(RemoteConfigView),
    Gitlab(RemoteConfigView),
    Gitea(RemoteConfigView),
    Local(Seq<char>),
}

impl View for Remote {
    type V = RemoteView;

    open spec fn view(&self) -> RemoteView {
        match self {
            Remote::Github(c) => RemoteView::Github(c@),
            Remote::Gitlab(c) => RemoteView::Gitlab(c@),
            Remote::Gitea(c) => RemoteView::Gitea(c@),
            Remote::Local(p) => RemoteView::Local(p@),
        }
    }
}

} // verus!
