use vstd::prelude::*;

verus! {

/// What the strength estimator says of a password.
pub struct StrengthEstimate {
    /// Strength from 0 (worst) to 4 (best).
    pub score: u8,
    /// Whether the estimator has advice to give.
    pub has_feedback: bool,
    /// The estimator's warning, if it gives one.
    pub warning: Option<String>,
    /// The estimator's suggestions, in its order.
    pub suggestions: Vec<String>,
}

/// `zxcvbn::zxcvbn` with the user's name and the organization's name as the
/// words to hold against the password. The estimate depends on the current
/// year, so nothing is claimed of it; the estimator refuses an empty
/// password.
///
/// Not ruled out here: the estimator measures its own running time by
/// subtracting one reading of the system clock from a later one, and that
/// subtraction panics where the clock was set back between the two; its
/// pattern matching also unwraps results that its authors hold to be
/// present. No condition on the three arguments excludes either, so the
/// promise that the library does not panic stops at this call.
#[verifier::external_body]
pub(crate) fn estimate_strength(password: &str, user_name: &str, organization_name: &str) -> (estimate:
    Option<StrengthEstimate>)
{
    let entropy = zxcvbn::zxcvbn(password, &[user_name, organization_name]).ok()?;
    let feedback = entropy.feedback().as_ref();
    Some(
        StrengthEstimate {
            score: entropy.score(),
            has_feedback: feedback.is_some(),
            warning: feedback.and_then(|f| f.warning()).map(|w| w.to_string()),
            suggestions: feedback.map_or(Vec::new(), |f| {
                f.suggestions().iter().map(|s| s.to_string()).collect()
            }),
        },
    )
}

} // verus!
