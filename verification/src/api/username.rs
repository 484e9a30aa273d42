//! Request URLs, limits and payloads for the username endpoints.

use vstd::prelude::*;

use crate::hashing::{hex_digit_str, spec_hex_digit};
use crate::text::spec_join;

verus! {

/// The percent-encoded form of a string.
pub uninterp spec fn url_encoded(s: Seq<char>) -> Seq<char>;

/// Relies on `urlencoding::encode`: percent-encodes every byte except ASCII
/// alphanumerics and `-`, `_`, `.`, `~`; a function of the input alone.
#[verifier::external_body]
fn url_encode(s: &str) -> (r: String)
    ensures
        r@ == url_encoded(s@),
{
    urlencoding::encode(s).into_owned()
}

/// The endpoint that resolves one username to its identifier; the username
/// is percent-encoded into the path.
pub fn username_profile_url(username: &str) -> (r: String)
    ensures
        r@ == "https://api.mojang.com/users/profiles/minecraft/"@ + url_encoded(username@),
{
    let mut r = String::from_str("https://api.mojang.com/users/profiles/minecraft/");
    let encoded = url_encode(username);
    r.append(encoded.as_str());
    r
}

/// Whether one bulk identifier request may carry `n` usernames: at least one
/// and at most ten.
pub open spec fn spec_batch_size_ok(n: int) -> bool {
    1 <= n <= 10
}

/// Checks the size of a username batch against the endpoint's limit.
pub fn batch_size_ok(n: usize) -> (r: bool)
    ensures
        r == spec_batch_size_ok(n as int),
{
    1 <= n && n <= 10
}

/// How one character stands inside a JSON string: the quote and the backslash
/// escaped, control characters as `\u00..`, everything else as itself.
pub open spec fn spec_json_escape_char(c: char) -> Seq<char> {
    if c == '"' {
        seq!['\\', '"']
    } else if c == '\\' {
        seq!['\\', '\\']
    } else if (c as int) < 32 {
        seq!['\\', 'u', '0', '0', spec_hex_digit(c as int / 16), spec_hex_digit(c as int % 16)]
    } else {
        seq![c]
    }
}

/// The body of a JSON string: every character escaped as needed.
pub open spec fn spec_json_escaped(s: Seq<char>) -> Seq<char>
    decreases s.len(),
{
    if s.len() == 0 {
        Seq::<char>::empty()
    } else {
        spec_json_escaped(s.drop_last()) + spec_json_escape_char(s.last())
    }
}

/// A string as a JSON value: the escaped body in double quotes.
pub open spec fn spec_json_string(s: Seq<char>) -> Seq<char> {
    seq!['"'] + spec_json_escaped(s) + seq!['"']
}

/// The bulk-request body: the usernames as a JSON array of strings, in the
/// order given.
pub open spec fn spec_usernames_payload(names: Seq<Seq<char>>) -> Seq<char> {
    seq!['['] + spec_join(names.map_values(|n: Seq<char>| spec_json_string(n)), ',') + seq![']']
}

/// Appends `s` as a JSON string, quotes and escapes included, to `out`.
fn append_json_string(out: &mut String, s: &str)
    ensures
        final(out)@ == old(out)@ + spec_json_string(s@),
{
    out.append("\"");
    let ghost opened = out@;
    proof {
        reveal_strlit("\"");
        assert(opened =~= old(out)@ + seq!['"']);
        assert(s@.take(0) =~= Seq::<char>::empty());
        assert(s@.subrange(0, 0) =~= Seq::<char>::empty());
        assert(out@ =~= opened + spec_json_escaped(s@.take(0)));
        assert(spec_json_escaped(s@.take(0)) =~= spec_json_escaped(s@.take(0)) + s@.subrange(0, 0));
    }
    let n = s.unicode_len();
    let mut run: usize = 0;
    let mut i: usize = 0;
    while i < n
        invariant
            run <= i <= n,
            n == s@.len(),
            out@ == opened + spec_json_escaped(s@.take(run as int)),
            spec_json_escaped(s@.take(i as int)) == spec_json_escaped(s@.take(run as int))
                + s@.subrange(run as int, i as int),
        decreases n - i,
    {
        let c = s.get_char(i);
        proof {
            assert(s@.take(i + 1).drop_last() =~= s@.take(i as int));
            assert(s@.take(i + 1).last() == s@[i as int]);
        }
        let code = c as u32;
        if code == 34 || code == 92 || code < 32 {
            let run_text = s.substring_char(run, i);
            out.append(run_text);
            proof {
                assert(out@ =~= opened + spec_json_escaped(s@.take(i as int)));
            }
            if code == 34 {
                out.append("\\\"");
                proof {
                    reveal_strlit("\\\"");
                    assert("\\\""@ =~= spec_json_escape_char(s@[i as int]));
                }
            } else if code == 92 {
                out.append("\\\\");
                proof {
                    reveal_strlit("\\\\");
                    assert("\\\\"@ =~= spec_json_escape_char(s@[i as int]));
                }
            } else {
                out.append("\\u00");
                let nib = c as u8;
                out.append(hex_digit_str(nib / 16));
                out.append(hex_digit_str(nib % 16));
                proof {
                    reveal_strlit("\\u00");
                    assert("\\u00"@ + seq![
                        spec_hex_digit(nib as int / 16),
                        spec_hex_digit(nib as int % 16),
                    ] =~= spec_json_escape_char(s@[i as int]));
                }
            }
            proof {
                assert(spec_json_escaped(s@.take(i + 1)) =~= spec_json_escaped(s@.take(i as int))
                    + spec_json_escape_char(s@[i as int]));
                assert(out@ =~= opened + spec_json_escaped(s@.take(i + 1)));
                assert(s@.subrange(i + 1, i + 1) =~= Seq::<char>::empty());
                assert(spec_json_escaped(s@.take(i + 1)) =~= spec_json_escaped(s@.take(i + 1))
                    + s@.subrange(i + 1, i + 1));
            }
            run = i + 1;
        } else {
            proof {
                assert(spec_json_escape_char(s@[i as int]) =~= seq![s@[i as int]]);
                assert(spec_json_escaped(s@.take(i + 1)) =~= spec_json_escaped(s@.take(i as int))
                    + seq![s@[i as int]]);
                assert(s@.subrange(run as int, i + 1) =~= s@.subrange(run as int, i as int).push(
                    s@[i as int],
                ));
                assert(spec_json_escaped(s@.take(i + 1)) =~= spec_json_escaped(s@.take(run as int))
                    + s@.subrange(run as int, i + 1));
            }
        }
        i += 1;
    }
    let tail = s.substring_char(run, n);
    out.append(tail);
    out.append("\"");
    proof {
        reveal_strlit("\"");
        assert(s@.take(n as int) =~= s@);
        assert(out@ =~= old(out)@ + spec_json_string(s@));
    }
}

/// Builds the bulk-request body that resolves the given usernames.
pub fn usernames_payload(usernames: &Vec<String>) -> (r: String)
    ensures
        r@ == spec_usernames_payload(usernames.deep_view()),
{
    let ghost m = usernames.deep_view().map_values(|n: Seq<char>| spec_json_string(n));
    let mut r = String::from_str("[");
    let mut i: usize = 0;
    proof {
        reveal_strlit("[");
        assert(m.take(0) =~= Seq::<Seq<char>>::empty());
        assert(r@ =~= seq!['['] + spec_join(m.take(0), ','));
    }
    while i < usernames.len()
        invariant
            i <= usernames@.len(),
            usernames.deep_view().len() == usernames@.len(),
            m == usernames.deep_view().map_values(|n: Seq<char>| spec_json_string(n)),
            r@ == seq!['['] + spec_join(m.take(i as int), ','),
        decreases usernames@.len() - i,
    {
        if i > 0 {
            r.append(",");
        }
        append_json_string(&mut r, usernames[i].as_str());
        proof {
            reveal_strlit(",");
            assert(m.take(i + 1).drop_last() =~= m.take(i as int));
            assert(m.take(i + 1).last() == m[i as int]);
            assert(r@ =~= seq!['['] + spec_join(m.take(i + 1), ','));
        }
        i += 1;
    }
    r.append("]");
    proof {
        reveal_strlit("]");
        assert(m.take(usernames@.len() as int) =~= m);
        assert(r@ =~= spec_usernames_payload(usernames.deep_view()));
    }
    r
}

} // verus!
