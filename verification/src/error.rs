//! The one error type of the vault, and the advice that a weak password
//! earns.

use vstd::prelude::*;
use vstd::string::StringExecFns;
use crate::primitives::password_strength::StrengthEstimate;

verus! {

/// Everything that can go wrong in the vault, on the client or on the server.
#[derive(Debug, PartialEq)]
pub enum VaultError {
    /// Transport failure, unknown or expired token, missing object, access denied.
    ServerError,
    /// A stored record could not be read or written; on the server, a record
    /// that is written once was there already.
    FileError,
    /// A name is not made of 1 to 100 ASCII letters and digits.
    ValidationError,
    /// A password is too weak; the payload is advice for the user.
    PasswordNotStrong(Option<String>),
    /// An organization needs at least two users.
    NotEnoughUsers,
    /// No document of the session's organization has the requested name.
    DocumentNotFound,
    /// Any cryptographic failure.
    CryptographyError,
    /// The terminal could not be read.
    InputError,
}

/// The texts of a list of strings.
pub open spec fn texts(strings: Seq<String>) -> Seq<Seq<char>> {
    Seq::new(strings.len(), |i: int| strings[i]@)
}

/// The suggestions one after the other, each followed by a line break.
pub open spec fn suggestion_lines(suggestions: Seq<Seq<char>>) -> Seq<char>
    decreases suggestions.len(),
{
    if suggestions.len() == 0 {
        Seq::empty()
    } else {
        suggestion_lines(suggestions.drop_last()) + suggestions.last() + "\n"@
    }
}

/// The advice as the user reads it: the warning on a line of its own, if
/// there is one, then the heading `Suggestions:` and the suggestions, one on
/// each line.
pub open spec fn advice_text(warning: Option<Seq<char>>, suggestions: Seq<Seq<char>>) -> Seq<char> {
    let warning_text = match warning {
        Some(text) => text + "\n"@,
        None => Seq::empty(),
    };
    warning_text + "Suggestions:\n"@ + suggestion_lines(suggestions)
}

/// The advice that an estimate carries: its text if the estimator gave
/// feedback, nothing otherwise.
pub open spec fn advice_of(estimate: StrengthEstimate) -> Option<Seq<char>> {
    if estimate.has_feedback {
        Some(
            advice_text(
                match estimate.warning {
                    Some(text) => Some(text@),
                    None => None,
                },
                texts(estimate.suggestions@),
            ),
        )
    } else {
        None
    }
}

impl VaultError {
    /// The error for a password that the estimator found too weak:
    /// `PasswordNotStrong` with the estimator's advice, if it gave any.
    pub fn from(estimate: &StrengthEstimate) -> (error: VaultError)
        ensures
            match error {
                VaultError::PasswordNotStrong(Some(advice)) => advice_of(*estimate) == Some(
                    advice@,
                ),
                VaultError::PasswordNotStrong(None) => advice_of(*estimate).is_none(),
                _ => false,
            },
    {
        if !estimate.has_feedback {
            return VaultError::PasswordNotStrong(None);
        }
        let mut advice = String::new();
        match &estimate.warning {
            Some(warning) => {
                advice.append(warning.as_str());
                advice.append("\n");
            },
            None => {},
        }
        advice.append("Suggestions:\n");
        let ghost heading = advice@;
        let mut i: usize = 0;
        assert(texts(estimate.suggestions@).take(0) =~= Seq::<Seq<char>>::empty());
        while i < estimate.suggestions.len()
            invariant
                i <= estimate.suggestions@.len(),
                advice@ == heading + suggestion_lines(texts(estimate.suggestions@).take(i as int)),
            decreases estimate.suggestions@.len() - i,
        {
            proof {
                let all = texts(estimate.suggestions@);
                assert(all.take(i + 1).drop_last() =~= all.take(i as int));
                assert(all.take(i + 1).last() == estimate.suggestions@[i as int]@);
            }
            advice.append(estimate.suggestions[i].as_str());
            advice.append("\n");
            proof {
                let all = texts(estimate.suggestions@);
                assert(advice@ =~= heading + suggestion_lines(all.take(i + 1)));
            }
            i = i + 1;
        }
        proof {
            let all = texts(estimate.suggestions@);
            assert(all.take(all.len() as int) =~= all);
            assert(advice_of(*estimate).unwrap() =~= advice@);
        }
        VaultError::PasswordNotStrong(Some(advice))
    }
}

} // verus!
