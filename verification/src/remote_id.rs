//! Terminal ids of remote connections: `remote:{connection_id}:{terminal_id}`.
use vstd::prelude::*;
use crate::text::{chars_of, is_prefix, push_all, string_from_chars, vec_slice, vec_starts_with};

verus! {

/// The characters `remote:`.
pub open spec fn remote_tag() -> Seq<char> {
    seq!['r', 'e', 'm', 'o', 't', 'e', ':']
}

/// The prefix `remote:{connection_id}:` that marks terminals of a connection.
pub open spec fn remote_prefix(connection_id: Seq<char>) -> Seq<char> {
    remote_tag() + connection_id + seq![':']
}

fn prefix_chars(connection_id: &str) -> (v: Vec<char>)
    ensures
        v@ == remote_prefix(connection_id@),
{
    let mut v: Vec<char> = vec!['r', 'e', 'm', 'o', 't', 'e', ':'];
    let c = chars_of(connection_id);
    let mut i: usize = 0;
    while i < c.len()
        invariant
            i <= c.len(),
            v@ == remote_tag() + c@.take(i as int),
        decreases c.len() - i,
    {
        v.push(c[i]);
        assert(c@.take(i as int).push(c@[i as int]) =~= c@.take(i + 1));
        assert((remote_tag() + c@.take(i as int)).push(c@[i as int]) =~= remote_tag() + c@.take(i + 1));
        i += 1;
    }
    assert(c@.take(c.len() as int) =~= c@);
    v.push(':');
    v
}

/// Builds the id under which a remote terminal is known locally.
pub fn make_prefixed_id(connection_id: &str, terminal_id: &str) -> (r: String)
    ensures
        r@ == remote_prefix(connection_id@) + terminal_id@,
{
    let p = prefix_chars(connection_id);
    let mut s = string_from_chars(&p);
    let t = chars_of(terminal_id);
    push_all(&mut s, &t);
    s
}

/// Removes the `remote:{connection_id}:` prefix; an id without it comes back unchanged.
pub fn strip_prefix(terminal_id: &str, connection_id: &str) -> (r: String)
    ensures
        is_prefix(remote_prefix(connection_id@), terminal_id@) ==> r@ == terminal_id@.skip(
            remote_prefix(connection_id@).len() as int,
        ),
        !is_prefix(remote_prefix(connection_id@), terminal_id@) ==> r@ == terminal_id@,
{
    let p = prefix_chars(connection_id);
    let t = chars_of(terminal_id);
    if vec_starts_with(&t, &p) {
        let rest = vec_slice(&t, p.len(), t.len());
        string_from_chars(&rest)
    } else {
        string_from_chars(&t)
    }
}

/// Whether a terminal id belongs to the given remote connection.
pub fn is_remote_terminal(terminal_id: &str, connection_id: &str) -> (r: bool)
    ensures
        r == is_prefix(remote_prefix(connection_id@), terminal_id@),
{
    let p = prefix_chars(connection_id);
    let t = chars_of(terminal_id);
    vec_starts_with(&t, &p)
}

/// A law: an id made for a connection is recognised as belonging to it, and
/// stripping the prefix gives the original terminal id back.
pub proof fn lemma_prefixed_id_round_trip(connection_id: Seq<char>, terminal_id: Seq<char>)
    ensures
        is_prefix(remote_prefix(connection_id), remote_prefix(connection_id) + terminal_id),
        (remote_prefix(connection_id) + terminal_id).skip(remote_prefix(connection_id).len() as int)
            == terminal_id,
{
    let p = remote_prefix(connection_id);
    assert((p + terminal_id).take(p.len() as int) =~= p);
    assert((p + terminal_id).skip(p.len() as int) =~= terminal_id);
}

} // verus!
