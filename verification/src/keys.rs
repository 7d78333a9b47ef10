use vstd::prelude::*;
use vstd::string::StrSliceExecFns;

verus! {

/// Whether `c` is one of the characters that no backend may see in a key:
/// `/ \ : * ? " < > | . @ _`.
pub open spec fn is_disallowed_char(c: char) -> bool {
    ||| c == '/'
    ||| c == '\\'
    ||| c == ':'
    ||| c == '*'
    ||| c == '?'
    ||| c == '"'
    ||| c == '<'
    ||| c == '>'
    ||| c == '|'
    ||| c == '.'
    ||| c == '@'
    ||| c == '_'
}

/// One key character after normalization: disallowed characters become `-`,
/// every other character stays itself.
pub open spec fn map_key_char(c: char) -> char {
    if is_disallowed_char(c) {
        '-'
    } else {
        c
    }
}

/// A key with each disallowed character replaced by `-`.
pub open spec fn mapped_key(key: Seq<char>) -> Seq<char> {
    key.map_values(|c: char| map_key_char(c))
}

/// The normalized form of `key` under the namespace `prefix`: the prefix,
/// then the key with each disallowed character replaced by `-`.
pub open spec fn normalized(prefix: Seq<char>, key: Seq<char>) -> Seq<char> {
    prefix + mapped_key(key)
}

/// Normalization is a pure function of its inputs, and forgets nothing but
/// the identity of disallowed characters: two keys of the same length whose
/// characters agree after substitution normalize to the same backend key,
/// under every prefix.
pub proof fn lemma_normalize_insensitive(prefix: Seq<char>, k1: Seq<char>, k2: Seq<char>)
    requires
        k1.len() == k2.len(),
        forall|i: int| 0 <= i < k1.len() ==> map_key_char(k1[i]) == map_key_char(k2[i]),
    ensures
        normalized(prefix, k1) == normalized(prefix, k2),
{
    assert(mapped_key(k1) =~= mapped_key(k2));
}

/// Exec counterpart of [`map_key_char`].
fn map_key_char_exec(c: char) -> (r: char)
    ensures
        r == map_key_char(c),
{
    if c == '/' || c == '\\' || c == ':' || c == '*' || c == '?' || c == '"' || c == '<' || c == '>'
        || c == '|' || c == '.' || c == '@' || c == '_' {
        '-'
    } else {
        c
    }
}

/// Relies on `String::push`: appends exactly one character at the end.
#[verifier::external_body]
pub(crate) fn push_char(s: &mut String, c: char)
    ensures
        final(s)@ == old(s)@.push(c),
{
    s.push(c);
}

/// Maps an arbitrary caller-supplied key into a backend-safe key:
/// deterministic character substitution plus the configured namespace
/// prefix. Pure; two inputs that differ only in disallowed characters
/// normalize to the same key (an accepted collision risk).
pub fn normailze_key(prefix: &str, key: &str) -> (r: String)
    ensures
        r@ == normalized(prefix@, key@),
{
    let mut out = prefix.to_owned();
    let n = key.unicode_len();
    let mut i: usize = 0;
    while i < n
        invariant
            n == key@.len(),
            i <= n,
            out@ == prefix@ + mapped_key(key@.subrange(0, i as int)),
        decreases n - i,
    {
        let c = map_key_char_exec(key.get_char(i));
        push_char(&mut out, c);
        proof {
            assert(mapped_key(key@.subrange(0, i + 1 as int)) =~= mapped_key(
                key@.subrange(0, i as int),
            ).push(map_key_char(key@[i as int])));
            assert(prefix@ + mapped_key(key@.subrange(0, i + 1 as int)) =~= (prefix@ + mapped_key(
                key@.subrange(0, i as int),
            )).push(map_key_char(key@[i as int])));
        }
        i = i + 1;
    }
    proof {
        assert(key@.subrange(0, n as int) =~= key@);
    }
    out
}

} // verus!
