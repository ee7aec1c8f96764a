//! Session record: the multiplexer session and, for each project path, the
//! pane that was opened for it.

use vstd::prelude::*;
use vstd::string::*;
use vstd::utf8::encode_utf8;
use vstd::std_specs::hash::DefaultHasherAdditionalSpecFns;
use std::collections::hash_map::DefaultHasher;
use std::hash::Hasher;

use crate::config::{Config, KeyedMap};
use crate::text::{hex_of, join, join_path, push_hex};

verus! {

/// The pane opened for a project.
#[derive(Debug, Clone, PartialEq, Eq)]
pub struct PaneInfo {
    /// Name of the pane in the multiplexer.
    pub pane_name: String,
    /// The command running in the pane.
    pub command: String,
}

/// The multiplexer session and the panes opened for projects, by path.
#[derive(Debug, Clone, PartialEq, Eq)]
pub struct Session {
    pub zellij_session: String,
    pub panes: KeyedMap<PaneInfo>,
}

/// The name of the pane of the project at `path`: `gz-` followed by the
/// hexadecimal hash of the path's UTF-8 bytes.
pub open spec fn pane_name_of(path: Seq<char>) -> Seq<char> {
    "gz-"@ + hex_of(DefaultHasher::spec_finish(seq![encode_utf8(path)]) as nat)
}

impl Session {
    /// A session with no pane recorded.
    pub fn new(zellij_session: String) -> (r: Self)
        ensures
            r.zellij_session == zellij_session,
            r.panes.wf(),
            r.panes.as_map() == Map::<Seq<char>, PaneInfo>::empty(),
    {
        let r = Session { zellij_session, panes: KeyedMap::new() };
        assert(r.panes.as_map() =~= Map::<Seq<char>, PaneInfo>::empty());
        r
    }

    /// The session file, `session.json` in the default directory.
    pub fn session_path() -> (r: String)
        ensures
            exists|b: Seq<char>| r@ == join_path(join_path(b, "gzc"@), "session.json"@),
    {
        join(Config::default_dir().as_str(), "session.json")
    }

    /// Records the pane of the project at `project_path`, replacing an
    /// earlier record.
    pub fn register_pane(&mut self, project_path: String, pane_name: String, command: String)
        requires
            old(self).panes.wf(),
        ensures
            final(self).panes.wf(),
            final(self).zellij_session == old(self).zellij_session,
            final(self).panes.as_map() == old(self).panes.as_map().insert(
                project_path@,
                PaneInfo { pane_name, command },
            ),
    {
        self.panes.insert(project_path, PaneInfo { pane_name, command });
    }

    /// The pane recorded for the project at `project_path`.
    pub fn get_pane(&self, project_path: &str) -> (r: Option<&PaneInfo>)
        requires
            self.panes.wf(),
        ensures
            match r {
                Some(p) => self.panes.as_map().contains_key(project_path@) && *p == self.panes.as_map()[project_path@],
                None => !self.panes.as_map().contains_key(project_path@),
            },
    {
        self.panes.get(project_path)
    }

    /// Forgets the pane of the project at `project_path`.
    pub fn remove_pane(&mut self, project_path: &str)
        requires
            old(self).panes.wf(),
        ensures
            final(self).panes.wf(),
            final(self).zellij_session == old(self).zellij_session,
            final(self).panes.as_map() == old(self).panes.as_map().remove(project_path@),
    {
        self.panes.remove(project_path);
    }

    /// The pane name for the project at `project_path`; the same path always
    /// gives the same name.
    pub fn generate_pane_name(project_path: &str) -> (r: String)
        ensures
            r@ == pane_name_of(project_path@),
    {
        let mut hasher = DefaultHasher::new();
        hasher.write(project_path.as_bytes());
        let hash = hasher.finish();
        assert(hasher@ =~= seq![encode_utf8(project_path@)]);
        let mut r = String::from_str("gz-");
        push_hex(&mut r, hash);
        r
    }
}

/// The pane name is a function of the path: two paths with the same text
/// get the same name.
pub proof fn lemma_pane_name_deterministic(a: Seq<char>, b: Seq<char>)
    requires
        a == b,
    ensures
        pane_name_of(a) == pane_name_of(b),
{
}

} // verus!
