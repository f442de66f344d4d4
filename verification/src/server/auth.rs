//! Who calls the coordinator: the tokens, and what a request says of its
//! sender.

use vstd::prelude::*;
use vstd::string::StringExecFns;
use crate::seqs::{first_match, lemma_first_match_is};
use crate::text::{chars_of, find_char, split_once, str_eq};

verus! {

/// The tokens that the coordinator knows.
#[derive(Debug)]
pub struct Tokens {
    /// The token of each agent, with the name of the agent.
    pub agents: Vec<(String, String)>,
    /// The tokens of the administrators.
    pub admins: Vec<String>,
}

/// The kind of token that a request needs.
#[derive(Debug, PartialEq, Eq, Clone, Copy, Hash, Structural)]
pub enum TokenType {
    Agent,
    Admin,
}

/// What is known of the sender of a request.
#[derive(Debug, PartialEq, Eq)]
pub struct AuthDetails {
    pub name: String,
    pub git_revision: Option<String>,
}

/// The token in the value of an authorization header: the value is the word
/// `CraterToken`, one space and the token, and the token holds no space.
pub open spec fn token_in(header: Seq<char>) -> Option<Seq<char>> {
    let space = find_char(header, ' ');
    let token = header.skip(space + 1);
    if header.take(space) == "CraterToken"@ && space < header.len() && find_char(token, ' ')
        == token.len() {
        Some(token)
    } else {
        None
    }
}

/// Whether a character is a digit to the base 16, in lower case.
pub open spec fn is_hex(c: char) -> bool {
    ('0' <= c && c <= '9') || ('a' <= c && c <= 'f')
}

/// The revision in the name that an agent gives itself: the name is
/// `crater-agent/` and the revision, which is 7 to 40 digits to the base 16.
pub open spec fn revision_in(user_agent: Seq<char>) -> Option<Seq<char>> {
    let slash = find_char(user_agent, '/');
    let revision = user_agent.skip(slash + 1);
    if user_agent.take(slash) == "crater-agent"@ && slash < user_agent.len() && 7
        <= revision.len() <= 40 && forall|i: int|
        0 <= i < revision.len() ==> is_hex(#[trigger] revision[i]) {
        Some(revision)
    } else {
        None
    }
}

/// The pairs of token and name with the token `token`.
pub open spec fn has_token(token: Seq<char>) -> spec_fn((String, String)) -> bool {
    |pair: (String, String)| pair.0@ == token
}

/// The tokens equal to `token`.
pub open spec fn is_token(token: Seq<char>) -> spec_fn(String) -> bool {
    |known: String| known@ == token
}

impl Tokens {
    /// No tokens.
    pub fn default() -> (tokens: Tokens)
        ensures
            tokens.agents@.len() == 0,
            tokens.admins@.len() == 0,
    {
        Tokens { agents: Vec::new(), admins: Vec::new() }
    }

    /// The agent that a token belongs to: the one of the first pair with
    /// this token.
    pub open spec fn agent_of(self, token: Seq<char>) -> Option<Seq<char>> {
        let at = first_match(self.agents@, has_token(token));
        if at < self.agents@.len() {
            Some(self.agents@[at].1@)
        } else {
            None
        }
    }

    /// Whether a token is one of an administrator.
    pub open spec fn admits(self, token: Seq<char>) -> bool {
        first_match(self.admins@, is_token(token)) < self.admins@.len()
    }

    /// The name of the agent that a token belongs to.
    pub fn agent_name(&self, token: &str) -> (name: Option<String>)
        ensures
            match name {
                Some(n) => self.agent_of(token@) == Some(n@),
                None => self.agent_of(token@) is None,
            },
    {
        let wanted = String::from_str(token);
        let mut i: usize = 0;
        while i < self.agents.len() && !(self.agents[i].0 == wanted)
            invariant
                i <= self.agents.len(),
                wanted@ == token@,
                forall|j: int| 0 <= j < i ==> !has_token(token@)(#[trigger] self.agents@[j]),
            decreases self.agents.len() - i,
        {
            i += 1;
        }
        proof {
            lemma_first_match_is(self.agents@, has_token(token@), i as int);
        }
        if i < self.agents.len() {
            Some(self.agents[i].1.clone())
        } else {
            None
        }
    }

    /// Whether a token is one of an administrator.
    pub fn is_admin(&self, token: &str) -> (admin: bool)
        ensures
            admin == self.admits(token@),
    {
        let wanted = String::from_str(token);
        let mut i: usize = 0;
        while i < self.admins.len() && !(self.admins[i] == wanted)
            invariant
                i <= self.admins.len(),
                wanted@ == token@,
                forall|j: int| 0 <= j < i ==> !is_token(token@)(#[trigger] self.admins@[j]),
            decreases self.admins.len() - i,
        {
            i += 1;
        }
        proof {
            lemma_first_match_is(self.admins@, is_token(token@), i as int);
        }
        i < self.admins.len()
    }
}

/// The token in the value of an authorization header.
pub fn parse_token(authorization: &str) -> (token: Option<&str>)
    ensures
        match token {
            Some(t) => token_in(authorization@) == Some(t@),
            None => token_in(authorization@) is None,
        },
{
    let (scope, rest) = split_once(authorization, ' ');
    if !str_eq(scope, "CraterToken") {
        return None;
    }
    match rest {
        None => None,
        Some(token) => {
            let (_, more) = split_once(token, ' ');
            if more.is_some() {
                None
            } else {
                Some(token)
            }
        },
    }
}

/// The revision in the name that an agent gives itself.
#[verifier::loop_isolation(false)]
pub fn parse_revision(user_agent: &str) -> (revision: Option<String>)
    ensures
        match revision {
            Some(r) => revision_in(user_agent@) == Some(r@),
            None => revision_in(user_agent@) is None,
        },
{
    let (product, rest) = split_once(user_agent, '/');
    if !str_eq(product, "crater-agent") {
        return None;
    }
    match rest {
        None => None,
        Some(revision) => {
            let digits = chars_of(revision);
            if digits.len() < 7 || digits.len() > 40 {
                return None;
            }
            let mut i: usize = 0;
            while i < digits.len()
                invariant
                    i <= digits.len(),
                    digits@ == revision@,
                    forall|j: int| 0 <= j < i ==> is_hex(#[trigger] digits@[j]),
                decreases digits.len() - i,
            {
                let c = digits[i];
                if !(('0' <= c && c <= '9') || ('a' <= c && c <= 'f')) {
                    assert(!is_hex(revision@[i as int]));
                    return None;
                }
                i += 1;
            }
            Some(String::from_str(revision))
        },
    }
}

/// Who sent a request, as far as its headers tell: the value of the
/// authorization header names a token, the token is known for the kind that
/// is asked for, and the name that the sender gives itself may carry its
/// revision. An administrator has no name.
pub open spec fn sender(
    tokens: Tokens,
    authorization: Option<Seq<char>>,
    user_agent: Option<Seq<char>>,
    kind: TokenType,
) -> Option<(Seq<char>, Option<Seq<char>>)> {
    let revision = match user_agent {
        Some(name) => revision_in(name),
        None => None,
    };
    match authorization {
        None => None,
        Some(header) => match token_in(header) {
            None => None,
            Some(token) => match kind {
                TokenType::Agent => match tokens.agent_of(token) {
                    Some(name) => Some((name, revision)),
                    None => None,
                },
                TokenType::Admin => if tokens.admits(token) {
                    Some((Seq::empty(), revision))
                } else {
                    None
                },
            },
        },
    }
}

/// Who sent a request, as far as its headers tell.
pub fn check_auth(
    tokens: &Tokens,
    authorization: Option<&str>,
    user_agent: Option<&str>,
    kind: TokenType,
) -> (details: Option<AuthDetails>)
    ensures
        match (
            details,
            sender(
                *tokens,
                match authorization {
                    Some(h) => Some(h@),
                    None => None,
                },
                match user_agent {
                    Some(n) => Some(n@),
                    None => None,
                },
                kind,
            ),
        ) {
            (Some(d), Some(s)) => d.name@ == s.0 && match (d.git_revision, s.1) {
                (Some(r), Some(v)) => r@ == v,
                (None, None) => true,
                _ => false,
            },
            (None, None) => true,
            _ => false,
        },
{
    let git_revision = match user_agent {
        Some(name) => parse_revision(name),
        None => None,
    };
    let header = match authorization {
        Some(header) => header,
        None => {
            return None;
        },
    };
    let token = match parse_token(header) {
        Some(token) => token,
        None => {
            return None;
        },
    };
    match kind {
        TokenType::Agent => match tokens.agent_name(token) {
            Some(name) => Some(AuthDetails { name, git_revision }),
            None => None,
        },
        TokenType::Admin => {
            if tokens.is_admin(token) {
                Some(AuthDetails { name: String::new(), git_revision })
            } else {
                None
            }
        },
    }
}

} // verus!
