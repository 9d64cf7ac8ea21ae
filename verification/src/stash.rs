//! The agent stash: agents whose sessions were closed so that they can be
//! resumed later. The list is kept newest first, one entry per session.
use vstd::prelude::*;
use crate::agent::{AgentStatus, str_eq, clone_opt_string};
use crate::keyed::{listed, text_listed};
use crate::text::append_str;

verus! {

/// The version of the stash file this library reads and writes.
pub const STASH_VERSION: u8 = 1;

/// Everything needed to resume a stashed agent. Paths are held as text.
#[derive(Debug)]
pub struct StashedAgent {
    pub harness: String,
    pub agent_name: String,
    pub session_source: String,
    pub session_kind: String,
    pub session_id: String,
    pub session_name: Option<String>,
    pub repository: String,
    pub repository_label: String,
    pub worktree: String,
    pub branch: String,
    pub workspace_id: String,
    pub tab_id: String,
    pub pane_id: String,
    pub cwd: Option<String>,
    pub destination_cwd: Option<String>,
    pub focused: bool,
    pub status: AgentStatus,
    pub stashed_at_ms: u64,
}

impl StashedAgent {
    pub fn duplicate(&self) -> (r: Self)
        ensures
            r == *self,
    {
        StashedAgent {
            harness: self.harness.clone(),
            agent_name: self.agent_name.clone(),
            session_source: self.session_source.clone(),
            session_kind: self.session_kind.clone(),
            session_id: self.session_id.clone(),
            session_name: clone_opt_string(&self.session_name),
            repository: self.repository.clone(),
            repository_label: self.repository_label.clone(),
            worktree: self.worktree.clone(),
            branch: self.branch.clone(),
            workspace_id: self.workspace_id.clone(),
            tab_id: self.tab_id.clone(),
            pane_id: self.pane_id.clone(),
            cwd: clone_opt_string(&self.cwd),
            destination_cwd: clone_opt_string(&self.destination_cwd),
            focused: self.focused,
            status: self.status,
            stashed_at_ms: self.stashed_at_ms,
        }
    }
}

/// What reading the stash file gave.
pub enum StashLoad {
    /// There is no stash file yet.
    Missing,
    /// The file was read and decoded.
    Decoded { version: u8, agents: Vec<StashedAgent> },
    /// The file could not be decoded; the decoder's message.
    Invalid(String),
    /// The file could not be read; the reader's message.
    Unreadable(String),
}

/// The stashed agents, and why the stash cannot be written if it was not read
/// cleanly. A stash without a file is never saved.
pub struct AgentStashStore {
    pub persisted: bool,
    pub load_error: Option<String>,
    pub agents: Vec<StashedAgent>,
}

/// The entries of `s` that are not the session `session_id`.
pub open spec fn without_session(s: Seq<StashedAgent>, session_id: Seq<char>) -> Seq<StashedAgent> {
    s.filter(|a: StashedAgent| a.session_id@ != session_id)
}

/// The entries of `s` whose session is none of `session_ids`.
pub open spec fn without_sessions(s: Seq<StashedAgent>, session_ids: Seq<String>) -> Seq<StashedAgent> {
    s.filter(|a: StashedAgent| !listed(session_ids, a.session_id@))
}

/// What a change of the stash leaves behind: the new list once it was saved,
/// or the old list with the save's error.
pub open spec fn saved_or_kept<F: Fn(&Vec<StashedAgent>) -> Result<(), String>>(
    old_agents: Seq<StashedAgent>,
    new_agents: Seq<StashedAgent>,
    persisted: bool,
    save: F,
    agents: Seq<StashedAgent>,
    r: Result<(), String>,
) -> bool {
    match r {
        Ok(_) => agents == new_agents && (persisted ==> exists|v: &Vec<StashedAgent>|
            v@ == new_agents && #[trigger] save.ensures((v,), r)),
        Err(_) => agents == old_agents && persisted && exists|v: &Vec<StashedAgent>|
            v@ == new_agents && #[trigger] save.ensures((v,), r),
    }
}

impl AgentStashStore {
    /// The store of a stash file as it was read; `None` when the stash has no file.
    pub fn new(load: Option<StashLoad>) -> (r: Self)
        ensures
            r.persisted == load is Some,
            match load {
                None | Some(StashLoad::Missing) => r.load_error is None && r.agents@.len() == 0,
                Some(StashLoad::Decoded { version, agents }) => if version == STASH_VERSION {
                    r.load_error is None && r.agents@ == agents@
                } else {
                    r.load_error matches Some(e) && e@ == "unsupported agent stash version"@
                        && r.agents@.len() == 0
                },
                Some(StashLoad::Invalid(m)) => r.load_error matches Some(e) && e@
                    == "invalid agent stash: "@ + m@ && r.agents@.len() == 0,
                Some(StashLoad::Unreadable(m)) => r.load_error matches Some(e) && e@
                    == "could not read agent stash: "@ + m@ && r.agents@.len() == 0,
            },
    {
        let persisted = load.is_some();
        match load {
            None | Some(StashLoad::Missing) => AgentStashStore {
                persisted,
                load_error: None,
                agents: Vec::new(),
            },
            Some(StashLoad::Decoded { version, agents }) => {
                if version == STASH_VERSION {
                    AgentStashStore { persisted, load_error: None, agents }
                } else {
                    AgentStashStore {
                        persisted,
                        load_error: Some(String::from_str("unsupported agent stash version")),
                        agents: Vec::new(),
                    }
                }
            },
            Some(StashLoad::Invalid(m)) => {
                let mut e = String::from_str("invalid agent stash: ");
                append_str(&mut e, m.as_str());
                AgentStashStore { persisted, load_error: Some(e), agents: Vec::new() }
            },
            Some(StashLoad::Unreadable(m)) => {
                let mut e = String::from_str("could not read agent stash: ");
                append_str(&mut e, m.as_str());
                AgentStashStore { persisted, load_error: Some(e), agents: Vec::new() }
            },
        }
    }

    /// Refuses to write a stash that was not read cleanly.
    pub fn ensure_writable(&self) -> (r: Result<(), String>)
        ensures
            match self.load_error {
                None => r is Ok,
                Some(e) => r == Err::<(), String>(e),
            },
    {
        match &self.load_error {
            None => Ok(()),
            Some(e) => Err(e.clone()),
        }
    }

    /// Saves the current list, or puts `previous` back when that fails.
    fn commit<F: Fn(&Vec<StashedAgent>) -> Result<(), String>>(
        &mut self,
        previous: Vec<StashedAgent>,
        save: &F,
    ) -> (r: Result<(), String>)
        requires
            forall|v: &Vec<StashedAgent>| #[trigger] save.requires((v,)),
        ensures
            final(self).persisted == old(self).persisted,
            final(self).load_error == old(self).load_error,
            saved_or_kept(previous@, old(self).agents@, old(self).persisted, *save, final(self).agents@, r),
    {
        if !self.persisted {
            return Ok(());
        }
        let result = save(&self.agents);
        proof {
            let v = &self.agents;
            assert(save.ensures((v,), result));
        }
        if result.is_err() {
            self.agents = previous;
        }
        result
    }

    /// Stashes `agent` first, replacing an earlier entry of its session.
    pub fn add<F: Fn(&Vec<StashedAgent>) -> Result<(), String>>(
        &mut self,
        agent: StashedAgent,
        save: &F,
    ) -> (r: Result<(), String>)
        requires
            forall|v: &Vec<StashedAgent>| #[trigger] save.requires((v,)),
        ensures
            final(self).persisted == old(self).persisted,
            final(self).load_error == old(self).load_error,
            match old(self).load_error {
                Some(e) => r == Err::<(), String>(e) && final(self).agents@ == old(self).agents@,
                None => saved_or_kept(
                    old(self).agents@,
                    seq![agent] + without_session(old(self).agents@, agent.session_id@),
                    old(self).persisted,
                    *save,
                    final(self).agents@,
                    r,
                ),
            },
    {
        if let Err(e) = self.ensure_writable() {
            return Err(e);
        }
        let previous = duplicate_all(&self.agents);
        let ghost id = agent.session_id@;
        let kept = retain_other_sessions(&self.agents, agent.session_id.as_str());
        let ghost first = agent;
        let mut agents: Vec<StashedAgent> = Vec::new();
        agents.push(agent);
        let mut i: usize = 0;
        while i < kept.len()
            invariant
                i <= kept.len(),
                agents@ == seq![first] + kept@.take(i as int),
            decreases kept.len() - i,
        {
            agents.push(kept[i].duplicate());
            assert(agents@ =~= seq![first] + kept@.take(i + 1));
            i = i + 1;
        }
        assert(kept@.take(kept.len() as int) =~= kept@);
        self.agents = agents;
        self.commit(previous, save)
    }

    /// Removes the stashed session `session_id`; saves only when it was there.
    pub fn remove<F: Fn(&Vec<StashedAgent>) -> Result<(), String>>(
        &mut self,
        session_id: &str,
        save: &F,
    ) -> (r: Result<(), String>)
        requires
            forall|v: &Vec<StashedAgent>| #[trigger] save.requires((v,)),
        ensures
            final(self).persisted == old(self).persisted,
            final(self).load_error == old(self).load_error,
            match old(self).load_error {
                Some(e) => r == Err::<(), String>(e) && final(self).agents@ == old(self).agents@,
                None => if without_session(old(self).agents@, session_id@).len() == old(
                    self,
                ).agents@.len() {
                    r is Ok && final(self).agents@ == old(self).agents@
                } else {
                    saved_or_kept(
                        old(self).agents@,
                        without_session(old(self).agents@, session_id@),
                        old(self).persisted,
                        *save,
                        final(self).agents@,
                        r,
                    )
                },
            },
    {
        if let Err(e) = self.ensure_writable() {
            return Err(e);
        }
        let kept = retain_other_sessions(&self.agents, session_id);
        if kept.len() == self.agents.len() {
            return Ok(());
        }
        let mut previous = kept;
        std::mem::swap(&mut previous, &mut self.agents);
        self.commit(previous, save)
    }

    /// Removes every stashed session that is live again; saves only when one was there.
    pub fn remove_live<F: Fn(&Vec<StashedAgent>) -> Result<(), String>>(
        &mut self,
        session_ids: &Vec<String>,
        save: &F,
    ) -> (r: Result<(), String>)
        requires
            forall|v: &Vec<StashedAgent>| #[trigger] save.requires((v,)),
        ensures
            final(self).persisted == old(self).persisted,
            final(self).load_error == old(self).load_error,
            match old(self).load_error {
                Some(e) => r == Err::<(), String>(e) && final(self).agents@ == old(self).agents@,
                None => if without_sessions(old(self).agents@, session_ids@).len() == old(
                    self,
                ).agents@.len() {
                    r is Ok && final(self).agents@ == old(self).agents@
                } else {
                    saved_or_kept(
                        old(self).agents@,
                        without_sessions(old(self).agents@, session_ids@),
                        old(self).persisted,
                        *save,
                        final(self).agents@,
                        r,
                    )
                },
            },
    {
        if let Err(e) = self.ensure_writable() {
            return Err(e);
        }
        let mut kept: Vec<StashedAgent> = Vec::new();
        let mut i: usize = 0;
        while i < self.agents.len()
            invariant
                i <= self.agents.len(),
                kept@ == without_sessions(self.agents@.take(i as int), session_ids@),
            decreases self.agents.len() - i,
        {
            let ghost keep = |a: StashedAgent| !listed(session_ids@, a.session_id@);
            assert(self.agents@.take(i + 1).drop_last() =~= self.agents@.take(i as int));
            if !text_listed(session_ids, self.agents[i].session_id.as_str()) {
                kept.push(self.agents[i].duplicate());
            }
            proof {
                reveal(Seq::filter);
            }
            i = i + 1;
        }
        assert(self.agents@.take(self.agents.len() as int) =~= self.agents@);
        if kept.len() == self.agents.len() {
            return Ok(());
        }
        let mut previous = kept;
        std::mem::swap(&mut previous, &mut self.agents);
        self.commit(previous, save)
    }
}

/// A copy of a list of stashed agents.
fn duplicate_all(agents: &Vec<StashedAgent>) -> (r: Vec<StashedAgent>)
    ensures
        r@ == agents@,
{
    let mut out: Vec<StashedAgent> = Vec::new();
    let mut i: usize = 0;
    while i < agents.len()
        invariant
            i <= agents.len(),
            out@ == agents@.take(i as int),
        decreases agents.len() - i,
    {
        out.push(agents[i].duplicate());
        assert(out@ =~= agents@.take(i + 1));
        i = i + 1;
    }
    assert(agents@.take(agents.len() as int) =~= agents@);
    out
}

/// The entries that are not the session `session_id`, in order.
fn retain_other_sessions(agents: &Vec<StashedAgent>, session_id: &str) -> (r: Vec<StashedAgent>)
    ensures
        r@ == without_session(agents@, session_id@),
{
    let mut kept: Vec<StashedAgent> = Vec::new();
    let mut i: usize = 0;
    while i < agents.len()
        invariant
            i <= agents.len(),
            kept@ == without_session(agents@.take(i as int), session_id@),
        decreases agents.len() - i,
    {
        assert(agents@.take(i + 1).drop_last() =~= agents@.take(i as int));
        if !str_eq(agents[i].session_id.as_str(), session_id) {
            kept.push(agents[i].duplicate());
        }
        proof {
            reveal(Seq::filter);
        }
        i = i + 1;
    }
    assert(agents@.take(agents.len() as int) =~= agents@);
    kept
}

} // verus!
