//! Security identifiers, privileges and the tokens that carry them.

use crate::context::Named;
use crate::text;
use vstd::prelude::*;

verus! {

/// A security identifier and the name of whom it stands for.
#[derive(Debug)]
pub struct SidName {
    pub sid: String,
    pub name: String,
}

impl Named for SidName {
    open spec fn called(&self) -> Seq<char> {
        self.sid@
    }

    fn label(&self) -> &str {
        self.sid.as_str()
    }
}

/// What a token says of a privilege.
#[derive(Clone, Copy, PartialEq, Eq, Structural, Debug)]
pub struct TokenPrivilege {
    pub value: u64,
    pub present: bool,
    pub enabled: bool,
    pub default: bool,
}

/// The token of a process.
#[derive(Debug)]
pub struct Token {
    /// Where the process object stands.
    pub process: u64,
    pub sids: Vec<String>,
    pub privileges: Vec<TokenPrivilege>,
}

/// What a privilege is called and what it allows.
#[derive(Debug)]
pub struct PrivilegeName {
    pub value: u64,
    pub name: String,
    pub description: String,
}

/// What is known of identifiers, privileges and tokens.
#[derive(Debug)]
pub struct Security {
    /// The tokens that can be read.
    pub tokens: Vec<Token>,
    /// The identifiers that mean the same on every machine.
    pub well_known: Vec<SidName>,
    /// The identifiers of service accounts.
    pub services: Vec<SidName>,
    /// The identifiers that are recognised by how they begin and end.
    pub patterned: Vec<SidName>,
    /// The names of services whose identifiers are known.
    pub known_services: Vec<String>,
    pub privileges: Vec<PrivilegeName>,
}

/// The token of a process, from a place of a list on.
pub open spec fn token_from(tokens: Seq<Token>, process: u64, from: int) -> Option<Token>
    decreases tokens.len() - from,
{
    if from < 0 || from >= tokens.len() {
        None
    } else if tokens[from].process == process {
        Some(tokens[from])
    } else {
        token_from(tokens, process, from + 1)
    }
}

/// What a privilege is called, from a place of a list on.
pub open spec fn privilege_from(privileges: Seq<PrivilegeName>, value: u64, from: int) -> Option<
    PrivilegeName,
>
    decreases privileges.len() - from,
{
    if from < 0 || from >= privileges.len() {
        None
    } else if privileges[from].value == value {
        Some(privileges[from])
    } else {
        privilege_from(privileges, value, from + 1)
    }
}

impl Security {
    /// The token of a process, where it can be read.
    pub fn token(&self, process: u64) -> (found: Option<&Token>)
        ensures
            match found {
                Some(token) => token_from(self.tokens@, process, 0) == Some(*token),
                None => token_from(self.tokens@, process, 0) is None,
            },
    {
        let mut i: usize = 0;
        while i < self.tokens.len()
            invariant
                i <= self.tokens@.len(),
                token_from(self.tokens@, process, 0) == token_from(
                    self.tokens@,
                    process,
                    i as int,
                ),
            decreases self.tokens@.len() - i,
        {
            if self.tokens[i].process == process {
                return Some(&self.tokens[i]);
            }
            i = i + 1;
        }
        None
    }

    /// What a privilege is called and what it allows.
    pub fn privilege(&self, value: u64) -> (found: Option<&PrivilegeName>)
        ensures
            match found {
                Some(name) => privilege_from(self.privileges@, value, 0) == Some(*name),
                None => privilege_from(self.privileges@, value, 0) is None,
            },
    {
        let mut i: usize = 0;
        while i < self.privileges.len()
            invariant
                i <= self.privileges@.len(),
                privilege_from(self.privileges@, value, 0) == privilege_from(
                    self.privileges@,
                    value,
                    i as int,
                ),
            decreases self.privileges@.len() - i,
        {
            if self.privileges[i].value == value {
                return Some(&self.privileges[i]);
            }
            i = i + 1;
        }
        None
    }

    /// Whether the identifier of a service is known without working it out.
    pub fn is_known_service(&self, name: &str) -> (known: bool)
        ensures
            known == text::texts(self.known_services@).contains(name@),
    {
        for i in 0..self.known_services.len()
            invariant
                forall|j: int|
                    0 <= j < i ==> #[trigger] text::texts(self.known_services@)[j] != name@,
        {
            if text::same_text(&self.known_services[i], name) {
                assert(text::texts(self.known_services@)[i as int] == name@);
                return true;
            }
        }
        false
    }
}

} // verus!
