//! Data carried between the account service's endpoints and their callers.

use vstd::prelude::*;

pub mod blocked_servers;
pub mod profile;
pub mod public_profile;
pub mod username;

verus! {

/// A resource location, kept as the plain text of the URL.
#[derive(Debug)]
pub struct Url(String);

impl View for Url {
    type V = Seq<char>;

    closed spec fn view(&self) -> Seq<char> {
        self.0@
    }
}

impl Url {
    /// Wraps an already-formed URL string.
    pub fn new(url: String) -> (r: Url)
        ensures
            r@ == url@,
    {
        Url(url)
    }

    /// The text of the URL.
    pub fn as_str(&self) -> (r: &str)
        ensures
            r@ == self@,
    {
        self.0.as_str()
    }
}

/// Skin model type.
#[derive(Debug, Clone, Copy, PartialEq, Eq, Structural)]
pub enum Model {
    /// The original player model
    Normal,
    /// The slim player model
    Slim,
}

/// The lowercase form of an ASCII letter; any other character is unchanged.
pub open spec fn spec_ascii_lower(c: char) -> char {
    if 'A' <= c && c <= 'Z' {
        (((c as u8) + 32) as char)
    } else {
        c
    }
}

/// The string folded to ASCII lowercase.
pub open spec fn spec_ascii_fold(s: Seq<char>) -> Seq<char> {
    s.map_values(|c: char| spec_ascii_lower(c))
}

fn ascii_lower_char(c: char) -> (r: char)
    ensures
        r == spec_ascii_lower(c),
{
    if c >= 'A' && c <= 'Z' {
        (((c as u8) + 32) as char)
    } else {
        c
    }
}

/// Compares two strings after folding both to ASCII lowercase.
pub fn eq_ascii_folded(s: &str, t: &str) -> (r: bool)
    ensures
        r == (spec_ascii_fold(s@) == spec_ascii_fold(t@)),
{
    let ns = s.unicode_len();
    let nt = t.unicode_len();
    if ns != nt {
        proof {
            assert(spec_ascii_fold(s@).len() != spec_ascii_fold(t@).len());
        }
        return false;
    }
    let mut i: usize = 0;
    while i < ns
        invariant
            i <= ns,
            ns == s@.len(),
            ns == t@.len(),
            forall|j: int| 0 <= j < i ==> spec_ascii_lower(s@[j]) == spec_ascii_lower(t@[j]),
        decreases ns - i,
    {
        let a = ascii_lower_char(s.get_char(i));
        let b = ascii_lower_char(t.get_char(i));
        if a != b {
            proof {
                assert(spec_ascii_fold(s@)[i as int] != spec_ascii_fold(t@)[i as int]);
            }
            return false;
        }
        i += 1;
    }
    proof {
        assert(spec_ascii_fold(s@) =~= spec_ascii_fold(t@));
    }
    true
}

/// The model a string names: `slim` in any ASCII case picks the slim model,
/// anything else the normal one.
pub open spec fn spec_model_of(s: Seq<char>) -> Model {
    if spec_ascii_fold(s) == "slim"@ {
        Model::Slim
    } else {
        Model::Normal
    }
}

proof fn lemma_slim_already_folded()
    ensures
        spec_ascii_fold("slim"@) == "slim"@,
{
    reveal_strlit("slim");
    assert(spec_ascii_fold("slim"@) =~= "slim"@);
}

impl core::convert::From<String> for Model {
    /// The model named by `value`, compared without regard to ASCII case.
    fn from(value: String) -> (r: Model) {
        proof {
            lemma_slim_already_folded();
        }
        if eq_ascii_folded(value.as_str(), "slim") {
            Model::Slim
        } else {
            Model::Normal
        }
    }
}

impl vstd::std_specs::convert::FromSpecImpl<String> for Model {
    open spec fn obeys_from_spec() -> bool {
        true
    }

    open spec fn from_spec(value: String) -> Model {
        spec_model_of(value@)
    }
}

} // verus!
