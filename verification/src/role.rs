use vstd::prelude::*;

verus! {

/// The name of a Persona role, such as `operator`.
#[derive(Debug, Clone, PartialEq, Eq, Hash)]
pub struct PersonaRole {
    value: String,
}

impl PersonaRole {
    /// The role's name as a sequence of characters.
    pub closed spec fn name(&self) -> Seq<char> {
        self.value@
    }

    pub fn new(value: &str) -> (role: Self)
        ensures
            role.name() == value@,
    {
        PersonaRole { value: String::from_str(value) }
    }

    pub fn operator() -> (role: Self)
        ensures
            role.name() == seq!['o', 'p', 'e', 'r', 'a', 't', 'o', 'r'],
    {
        proof {
            reveal_strlit("operator");
        }
        let value = String::from_str("operator");
        assert(value@ =~= seq!['o', 'p', 'e', 'r', 'a', 't', 'o', 'r']);
        PersonaRole { value }
    }

    pub fn duplicate(&self) -> (copy: Self)
        ensures
            copy.name() == self.name(),
    {
        PersonaRole { value: self.value.clone() }
    }

    pub fn as_str(&self) -> (text: &str)
        ensures
            text@ == self.name(),
    {
        self.value.as_str()
    }
}

} // verus!
