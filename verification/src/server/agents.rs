//! The agents that the coordinator knows, and when it last heard of them.

use vstd::prelude::*;
use vstd::string::StringExecFns;
use crate::server::auth::Tokens;
use crate::time::Timestamp;

verus! {

/// An agent, as the coordinator knows it.
#[derive(Debug, PartialEq, Eq)]
pub struct Agent {
    pub name: String,
    pub last_heartbeat: Option<Timestamp>,
    pub git_revision: Option<String>,
}

/// What an [`Agent`] holds, as plain values.
pub struct AgentView {
    pub name: Seq<char>,
    pub last_heartbeat: Option<Timestamp>,
    pub git_revision: Option<Seq<char>>,
}

impl View for Agent {
    type V = AgentView;

    open spec fn view(&self) -> AgentView {
        AgentView {
            name: self.name@,
            last_heartbeat: self.last_heartbeat,
            git_revision: match self.git_revision {
                Some(revision) => Some(revision@),
                None => None,
            },
        }
    }
}

impl DeepView for Agent {
    type V = AgentView;

    open spec fn deep_view(&self) -> AgentView {
        self@
    }
}

/// The table of agents.
#[derive(Debug)]
pub struct Agents {
    pub agents: Vec<Agent>,
}

impl View for Agents {
    type V = Seq<AgentView>;

    open spec fn view(&self) -> Seq<AgentView> {
        self.agents.deep_view()
    }
}

/// Whether a token belongs to an agent with the name `name`.
pub open spec fn is_agent_of(tokens: Tokens, name: Seq<char>) -> bool {
    exists|i: int| 0 <= i < tokens.agents@.len() && (#[trigger] tokens.agents@[i]).1@ == name
}

/// The agents that a token belongs to.
pub open spec fn known_to(tokens: Tokens) -> spec_fn(AgentView) -> bool {
    |agent: AgentView| is_agent_of(tokens, agent.name)
}

/// Whether an agent of a table has the name `name`.
pub open spec fn has_agent(agents: Seq<AgentView>, name: Seq<char>) -> bool {
    exists|i: int| 0 <= i < agents.len() && (#[trigger] agents[i]).name == name
}

/// The agents to add to the table `kept` for the first `n` tokens: one for
/// each name that the table does not have, never heard of so far.
pub open spec fn added(kept: Seq<AgentView>, tokens: Tokens, n: int) -> Seq<AgentView>
    decreases n,
{
    if n <= 0 {
        Seq::empty()
    } else {
        let before = added(kept, tokens, n - 1);
        let name = tokens.agents@[n - 1].1@;
        if has_agent(kept, name) || has_agent(before, name) {
            before
        } else {
            before.push(AgentView { name, last_heartbeat: None, git_revision: None })
        }
    }
}

/// The table of agents after it was brought in line with the tokens: the
/// agents that a token belongs to stay as they are, the others leave, and
/// each name of the tokens that was not in the table comes after them.
pub open spec fn synchronized(agents: Seq<AgentView>, tokens: Tokens) -> Seq<AgentView> {
    agents.filter(known_to(tokens)) + added(
        agents.filter(known_to(tokens)),
        tokens,
        tokens.agents@.len() as int,
    )
}

/// The table after an agent was heard of at the time `now`.
pub open spec fn with_heartbeat(agents: Seq<AgentView>, name: Seq<char>, now: Timestamp) -> Seq<
    AgentView,
> {
    Seq::new(
        agents.len(),
        |i: int|
            if agents[i].name == name {
                AgentView { last_heartbeat: Some(now), ..agents[i] }
            } else {
                agents[i]
            },
    )
}

/// The table after an agent said which revision it was built from.
pub open spec fn with_revision(agents: Seq<AgentView>, name: Seq<char>, revision: Seq<char>)
    -> Seq<AgentView> {
    Seq::new(
        agents.len(),
        |i: int|
            if agents[i].name == name {
                AgentView { git_revision: Some(revision), ..agents[i] }
            } else {
                agents[i]
            },
    )
}

impl Agents {
    /// The table of the agents that the tokens name.
    pub fn new(tokens: &Tokens) -> (agents: Agents)
        ensures
            agents@ == synchronized(Seq::empty(), *tokens),
    {
        let mut agents = Agents { agents: Vec::new() };
        assert(agents@ =~= Seq::empty());
        agents.synchronize(tokens);
        agents
    }

    fn knows(&self, name: &String) -> (known: bool)
        ensures
            known == has_agent(self@, name@),
    {
        let mut i: usize = 0;
        while i < self.agents.len()
            invariant
                i <= self.agents.len(),
                forall|j: int| 0 <= j < i ==> (#[trigger] self@[j]).name != name@,
            decreases self.agents.len() - i,
        {
            if self.agents[i].name == *name {
                assert(self@[i as int].name == name@);
                return true;
            }
            i += 1;
        }
        false
    }

    /// Brings the table in line with the tokens.
    #[verifier::loop_isolation(false)]
    pub fn synchronize(&mut self, tokens: &Tokens)
        ensures
            final(self)@ == synchronized(old(self)@, *tokens),
    {
        let ghost keep = known_to(*tokens);
        let ghost all = self@;
        let ghost mut seen: int = 0;
        let mut at: usize = 0;
        while at < self.agents.len()
            invariant
                0 <= seen <= all.len(),
                at == all.take(seen).filter(keep).len(),
                self@ == all.take(seen).filter(keep) + all.skip(seen),
            decreases self.agents.len() - at,
        {
            assert(self.agents@[at as int]@ == self@[at as int]);
            let mut k: usize = 0;
            let mut known = false;
            while k < tokens.agents.len() && !known
                invariant
                    k <= tokens.agents.len(),
                    at < self.agents.len(),
                    known ==> is_agent_of(*tokens, self.agents@[at as int].name@),
                    !known ==> forall|j: int|
                        0 <= j < k ==> (#[trigger] tokens.agents@[j]).1@
                            != self.agents@[at as int].name@,
                decreases tokens.agents.len() - k + if known {
                    0int
                } else {
                    1int
                },
            {
                if tokens.agents[k].1 == self.agents[at].name {
                    assert(tokens.agents@[k as int].1@ == self.agents@[at as int].name@);
                    known = true;
                } else {
                    k += 1;
                }
            }
            assert(known == keep(all[seen]));
            proof {
                reveal(Seq::filter);
                assert(all.take(seen + 1).drop_last() =~= all.take(seen));
            }
            if known {
                assert(self@ =~= all.take(seen + 1).filter(keep) + all.skip(seen + 1));
                at += 1;
            } else {
                let ghost before = self.agents;
                self.agents.remove(at);
                assert(self.agents@ == before@.remove(at as int));
                assert forall|j: int| 0 <= j < self.agents.len() implies #[trigger] self@[j]
                    == before.deep_view().remove(at as int)[j] by {
                    if j < at {
                        assert(self.agents@[j] == before@[j]);
                    } else {
                        assert(self.agents@[j] == before@[j + 1]);
                    }
                }
                assert(self@ =~= before.deep_view().remove(at as int));
                assert(self@ =~= all.take(seen + 1).filter(keep) + all.skip(seen + 1));
            }
            proof {
                seen = seen + 1;
            }
        }
        assert(all.take(seen) =~= all);
        assert(self@ =~= all.filter(keep));
        let ghost kept = self@;
        let mut n: usize = 0;
        while n < tokens.agents.len()
            invariant
                n <= tokens.agents.len(),
                self@ == kept + added(kept, *tokens, n as int),
            decreases tokens.agents.len() - n,
        {
            let name = &tokens.agents[n].1;
            let ghost before = added(kept, *tokens, n as int);
            let known = self.knows(name);
            proof {
                assert(known == (has_agent(kept, name@) || has_agent(before, name@))) by {
                    if has_agent(kept, name@) {
                        let i = choose|i: int| 0 <= i < kept.len() && (#[trigger] kept[i]).name == name@;
                        assert(self@[i].name == name@);
                    }
                    if has_agent(before, name@) {
                        let i = choose|i: int|
                            0 <= i < before.len() && (#[trigger] before[i]).name == name@;
                        assert(self@[kept.len() + i].name == name@);
                    }
                    if known {
                        let i = choose|i: int| 0 <= i < self@.len() && (#[trigger] self@[i]).name == name@;
                        if i < kept.len() {
                            assert(kept[i].name == name@);
                        } else {
                            assert(before[i - kept.len()].name == name@);
                        }
                    }
                }
            }
            if !known {
                let ghost table = self@;
                self.agents.push(
                    Agent { name: name.clone(), last_heartbeat: None, git_revision: None },
                );
                assert(self@ =~= table.push(
                    AgentView { name: name@, last_heartbeat: None, git_revision: None },
                ));
                assert(self@ =~= kept + added(kept, *tokens, n + 1));
            }
            n += 1;
        }
    }

    /// Records that an agent was heard of at the time `now`.
    pub fn record_heartbeat(&mut self, agent: &str, now: Timestamp)
        ensures
            final(self)@ == with_heartbeat(old(self)@, agent@, now),
    {
        let name = String::from_str(agent);
        let mut i: usize = 0;
        while i < self.agents.len()
            invariant
                i <= self.agents.len(),
                name@ == agent@,
                self.agents.len() == old(self).agents.len(),
                forall|j: int|
                    0 <= j < i ==> (#[trigger] self.agents@[j])@ == with_heartbeat(
                        old(self)@,
                        agent@,
                        now,
                    )[j],
                forall|j: int|
                    i <= j < self.agents.len() ==> (#[trigger] self.agents@[j])@ == old(
                        self,
                    ).agents@[j]@,
            decreases self.agents.len() - i,
        {
            if self.agents[i].name == name {
                self.agents[i].last_heartbeat = Some(now);
            }
            i += 1;
        }
        assert(self@ =~= with_heartbeat(old(self)@, agent@, now));
    }

    /// Records the revision that an agent was built from.
    pub fn set_git_revision(&mut self, agent: &str, revision: &str)
        ensures
            final(self)@ == with_revision(old(self)@, agent@, revision@),
    {
        let name = String::from_str(agent);
        let mut i: usize = 0;
        while i < self.agents.len()
            invariant
                i <= self.agents.len(),
                name@ == agent@,
                self.agents.len() == old(self).agents.len(),
                forall|j: int|
                    0 <= j < i ==> (#[trigger] self.agents@[j])@ == with_revision(
                        old(self)@,
                        agent@,
                        revision@,
                    )[j],
                forall|j: int|
                    i <= j < self.agents.len() ==> (#[trigger] self.agents@[j])@ == old(
                        self,
                    ).agents@[j]@,
            decreases self.agents.len() - i,
        {
            if self.agents[i].name == name {
                self.agents[i].git_revision = Some(String::from_str(revision));
            }
            i += 1;
        }
        assert(self@ =~= with_revision(old(self)@, agent@, revision@));
    }
}

} // verus!
