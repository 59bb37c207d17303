use vstd::prelude::*;
use vstd::string::*;

verus! {

/// Errors during sink creation.
#[derive(Debug, PartialEq, Eq, Structural)]
pub enum SinkError {
    /// The scope value given was invalid: empty.
    InvalidScope,
}

/// `part` nested under `base`: joined with a `.`, or `part` alone under the empty base.
pub open spec fn joined(base: Seq<char>, part: Seq<char>) -> Seq<char> {
    if base.len() == 0 {
        part
    } else {
        base + seq!['.'] + part
    }
}

/// Nests `part` under `base`: `base.part`, or `part` when `base` is empty.
///
/// This is how scopes nest, and how a metric's name is composed from its scope prefix and
/// its key.  No escaping is done.
pub fn join_scope(base: &str, part: &str) -> (r: String)
    ensures
        r@ == joined(base@, part@),
{
    proof {
        reveal_strlit(".");
    }
    if base.unicode_len() == 0 {
        String::from_str(part)
    } else {
        let mut s = String::from_str(base);
        s.append(".");
        s.append(part);
        s
    }
}

/// A value that can be used as a metric scope.
pub trait AsScoped {
    /// The scope `base` extended by this value.
    fn as_scoped(&self, base: String) -> String;
}

impl AsScoped for str {
    fn as_scoped(&self, base: String) -> String {
        join_scope(base.as_str(), self)
    }
}

/// `base` extended by each of `parts` in turn.
pub open spec fn joined_all(base: Seq<char>, parts: Seq<Seq<char>>) -> Seq<char>
    decreases parts.len(),
{
    if parts.len() == 0 {
        base
    } else {
        joined(joined_all(base, parts.drop_last()), parts.last())
    }
}

/// Nests each of `parts` in turn under `base`.
pub fn join_all(base: &str, parts: &[&str]) -> (r: String)
    ensures
        r@ == joined_all(base@, parts@.map_values(|p: &str| p@)),
{
    let mut s = String::from_str(base);
    let mut i: usize = 0;
    while i < parts.len()
        invariant
            i <= parts@.len(),
            s@ == joined_all(base@, parts@.subrange(0, i as int).map_values(|p: &str| p@)),
        decreases parts@.len() - i,
    {
        let next = join_scope(s.as_str(), parts[i]);
        proof {
            let done = parts@.subrange(0, i as int).map_values(|p: &str| p@);
            let more = parts@.subrange(0, i + 1).map_values(|p: &str| p@);
            assert(more.drop_last() =~= done);
        }
        s = next;
        i = i + 1;
    }
    proof {
        assert(parts@.subrange(0, parts@.len() as int) =~= parts@);
    }
    s
}

impl<'a> AsScoped for [&'a str] {
    fn as_scoped(&self, base: String) -> String {
        join_all(base.as_str(), self)
    }
}

/// The scope for `suffix` nested under `base`; an empty suffix is refused.
pub fn nested_scope(base: &str, suffix: &str) -> (r: Result<String, SinkError>)
    ensures
        suffix@.len() == 0 ==> r == Err::<String, SinkError>(SinkError::InvalidScope),
        suffix@.len() > 0 ==> (r matches Ok(s) && s@ == joined(base@, suffix@)),
{
    if suffix.unicode_len() == 0 {
        Err(SinkError::InvalidScope)
    } else {
        Ok(join_scope(base, suffix))
    }
}

} // verus!
