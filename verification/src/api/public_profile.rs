//! A player's public profile, as plain data.

use vstd::prelude::*;

use super::{eq_ascii_folded, spec_ascii_fold, Model, Url};

verus! {

/// A player's skin.
/// Includes the skin and cape URLs, as well as the model type.
#[derive(Debug)]
pub struct Skin {
    /// Skin URL
    pub url: Url,
    /// Player model type
    pub model: Model,
    /// Optional cape URL
    pub cape: Option<Url>,
}

proof fn lemma_model_names_already_folded()
    ensures
        spec_ascii_fold("slim"@) == "slim"@,
        spec_ascii_fold("normal"@) == "normal"@,
{
    reveal_strlit("slim");
    reveal_strlit("normal");
    assert(spec_ascii_fold("slim"@) =~= "slim"@);
    assert(spec_ascii_fold("normal"@) =~= "normal"@);
}

/// The model a string names, if it names one: `slim` or `normal` in any
/// ASCII case.
pub fn model_of_name(s: &str) -> (r: Option<Model>)
    ensures
        r == Some(Model::Slim) <==> spec_ascii_fold(s@) == "slim"@,
        r == Some(Model::Normal) <==> spec_ascii_fold(s@) == "normal"@,
        r is None <==> (spec_ascii_fold(s@) != "slim"@ && spec_ascii_fold(s@) != "normal"@),
    {
    proof {
        lemma_model_names_already_folded();
        reveal_strlit("slim");
        reveal_strlit("normal");
    }
    if eq_ascii_folded(s, "slim") {
        Some(Model::Slim)
    } else if eq_ascii_folded(s, "normal") {
        Some(Model::Normal)
    } else {
        None
    }
}

impl core::str::FromStr for Model {
    type Err = String;

    /// The model named by `s`, or the offending string as the error.
    fn from_str(s: &str) -> Result<Model, String> {
        match model_of_name(s) {
            Some(model) => Ok(model),
            None => {
                let mut msg = "Unknown model: ".to_owned();
                msg.append(s);
                Err(msg)
            },
        }
    }
}

} // verus!
