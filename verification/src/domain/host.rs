//! Names of SSH hosts.
use super::validation::{Field, ValidationError};
use crate::domain::validation;
use crate::text;
use vstd::prelude::*;
use vstd::string::*;

verus! {

/// An exact OpenSSH `Host` alias passed to `ssh` as one argument.
#[derive(Debug, PartialEq, Eq, Hash)]
pub struct HostAlias(String);

/// Why `s` is no alias: besides what holds of every text, it must not look like an option.
pub open spec fn alias_refusal(s: Seq<char>) -> Option<validation::Refusal> {
    let field = Field::SshHostAlias;
    match validation::text_refusal(s, field, 255, false) {
        Some(refusal) => Some(refusal),
        None => if s[0] == '-' {
            Some(validation::Refusal::LooksLikeOption { field })
        } else {
            None
        },
    }
}

impl View for HostAlias {
    type V = Seq<char>;

    closed spec fn view(&self) -> Seq<char> {
        self.0@
    }
}

impl Clone for HostAlias {
    fn clone(&self) -> (r: Self)
        ensures
            r == *self,
    {
        proof {
            use_type_invariant(self);
        }
        HostAlias(self.0.clone())
    }
}

impl HostAlias {
    #[verifier::type_invariant]
    spec fn well_formed(self) -> bool {
        alias_refusal(self.0@) is None
    }

    pub fn new(value: &str) -> (r: Result<Self, ValidationError>)
        ensures
            match r {
                Ok(alias) => alias_refusal(value@) is None && alias@ == value@,
                Err(error) => alias_refusal(value@) == Some(error@),
            },
    {
        let field = Field::SshHostAlias;
        let chars = text::chars_of(value);
        validation::validate_text(&chars, field, 255, false)?;
        if chars[0] == '-' {
            return Err(ValidationError::LooksLikeOption { field });
        }
        Ok(HostAlias(value.to_owned()))
    }

    /// The alias, which is never empty, has no white space or control character and does not
    /// start with a hyphen.
    pub fn as_str(&self) -> (r: &str)
        ensures
            r@ == self@,
            alias_refusal(self@) is None,
    {
        proof {
            use_type_invariant(self);
        }
        self.0.as_str()
    }

    pub fn to_string(&self) -> (r: String)
        ensures
            r@ == self@,
    {
        self.0.clone()
    }
}

} // verus!
