//! Application identifiers as text: their lowercase form and their last
//! component.
use vstd::prelude::*;
use vstd::string::spec_iter;
use vstd::std_specs::iter::IteratorSpec;

verus! {

/// The lowercase form of a string, as `str::to_lowercase` computes it.
pub uninterp spec fn lowercase(s: Seq<char>) -> Seq<char>;

/// `str::to_lowercase` of the standard library: the string with each
/// character replaced by its lowercase form. Nothing is proved of it; the
/// contract gives its result the name [`lowercase`].
#[verifier::external_body]
pub(crate) fn to_lowercase(s: &str) -> (lower: String)
    ensures
        lower@ == lowercase(s@),
{
    s.to_lowercase()
}

/// The character that separates the components of an identifier.
pub open spec fn separator() -> char {
    '.'
}

/// Whether the identifier has more than one component.
pub open spec fn has_separator(s: Seq<char>) -> bool {
    s.contains(separator())
}

/// Where the last component of an identifier begins: behind its last
/// separator, or at 0 where it has none.
pub open spec fn last_component_start(s: Seq<char>) -> int
    decreases s.len(),
{
    if s.len() == 0 {
        0
    } else if s.last() == separator() {
        s.len() as int
    } else {
        last_component_start(s.drop_last())
    }
}

/// The last component of an identifier: what follows its last separator, or
/// all of it where it has none.
pub open spec fn last_component(s: Seq<char>) -> Seq<char> {
    s.skip(last_component_start(s))
}

/// The last component begins within the identifier, directly behind a
/// separator unless it begins the identifier, and holds no separator. Only an
/// identifier with a separator has a last component that begins behind 0.
pub proof fn lemma_last_component_start(s: Seq<char>)
    ensures
        0 <= last_component_start(s) <= s.len(),
        last_component_start(s) > 0 ==> s[last_component_start(s) - 1] == separator(),
        forall|i: int| last_component_start(s) <= i < s.len() ==> s[i] != separator(),
        has_separator(s) <==> last_component_start(s) > 0,
        !has_separator(last_component(s)),
    decreases s.len(),
{
    if s.len() == 0 {
    } else if s.last() == separator() {
        assert(s.contains(separator()));
    } else {
        let t = s.drop_last();
        lemma_last_component_start(t);
        if has_separator(s) {
            let i = choose|i: int| 0 <= i < s.len() && s[i] == separator();
            assert(t[i] == separator());
        }
        if last_component_start(t) > 0 {
            assert(s[last_component_start(t) - 1] == t[last_component_start(t) - 1]);
        }
        assert forall|i: int| last_component_start(s) <= i < s.len() implies s[i]
            != separator() by {
            if i < t.len() {
                assert(s[i] == t[i]);
            }
        }
    }
    let c = last_component(s);
    if has_separator(c) {
        let i = choose|i: int| 0 <= i < c.len() && c[i] == separator();
        assert(s[last_component_start(s) + i] == c[i]);
    }
}

/// Computes [`last_component_start`].
pub fn find_last_component(s: &str) -> (start: usize)
    ensures
        start == last_component_start(s@),
        start <= s@.len(),
{
    let len = s.unicode_len();
    let mut start: usize = 0;
    let mut n: usize = 0;
    for c in it: s.chars()
        invariant
            it.seq() == s@,
            n == it.index(),
            n <= len,
            len == s@.len(),
            start == last_component_start(s@.take(n as int)),
    {
        assert(s@.take(n + 1).drop_last() == s@.take(n as int));
        n += 1;
        if c == '.' {
            start = n;
        }
    }
    assert(s@.take(s@.len() as int) == s@);
    proof {
        lemma_last_component_start(s@);
    }
    start
}

/// The last component of `s`, and whether `s` has more than one component.
pub fn split_last(s: &str) -> (parts: (bool, &str))
    ensures
        parts.0 == has_separator(s@),
        parts.1@ == last_component(s@),
{
    let start = find_last_component(s);
    proof {
        lemma_last_component_start(s@);
    }
    let len = s.unicode_len();
    (start > 0, s.substring_char(start, len))
}


/// Whether two strings hold the same characters.
pub fn same_text(a: &str, b: &str) -> (same: bool)
    ensures
        same == (a@ == b@),
{
    let mut rest = b.chars();
    let mut same = true;
    for c in it: a.chars()
        invariant
            it.seq() == a@,
            rest.obeys_prophetic_iter_laws(),
            same ==> it.index() <= b@.len() && rest.remaining() == b@.skip(it.index())
                && a@.take(it.index()) == b@.take(it.index()),
            !same ==> a@ != b@,
    {
        let ghost n = it.index();
        match rest.next() {
            Some(d) => {
                if same && c != d {
                    assert(a@[n] != b@[n]);
                    same = false;
                }
                proof {
                    if same {
                        assert(b@.skip(n)[0] == b@[n]);
                        assert(b@.skip(n).drop_first() == b@.skip(n + 1));
                        assert(a@.take(n + 1) == a@.take(n).push(a@[n]));
                        assert(b@.take(n + 1) == b@.take(n).push(b@[n]));
                    }
                }
            },
            None => {
                proof {
                    if same {
                        assert(b@.skip(n).len() == 0);
                        assert(a@.len() > b@.len());
                    }
                }
                same = false;
            },
        }
    }
    if same {
        let end = rest.next();
        proof {
            assert(a@.take(a@.len() as int) == a@);
            if end is None {
                assert(b@.skip(a@.len() as int).len() == 0);
                assert(b@.take(b@.len() as int) == b@);
            }
        }
        end.is_none()
    } else {
        false
    }
}

} // verus!
