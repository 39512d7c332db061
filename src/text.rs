use vstd::prelude::*;
use vstd::std_specs::iter::IteratorSpec;

verus! {

/// The characters of `s`, in order.
pub(crate) fn chars_of(s: &str) -> (r: Vec<char>)
    ensures
        r@ == s@,
{
    broadcast use vstd::string::axiom_spec_iter, vstd::string::next_postcondition;

    let mut it = s.chars();
    let mut out: Vec<char> = Vec::new();
    loop
        invariant
            it.obeys_prophetic_iter_laws(),
            out@ + it.remaining() == s@,
            it.decrease() is Some,
        ensures
            out@ == s@,
        decreases it.decrease()->0,
    {
        match it.next() {
            Some(c) => {
                out.push(c);
            },
            None => {
                assert(out@ + Seq::<char>::empty() =~= out@);
                break;
            },
        }
    }
    out
}

/// Relies on `String::push`: it appends one character to the string.
#[verifier::external_body]
pub(crate) fn push_char(s: &mut String, c: char)
    ensures
        final(s)@ == old(s)@.push(c),
{
    s.push(c)
}

/// The characters `m[from..to]` as a string.
pub(crate) fn string_of_range(m: &Vec<char>, from: usize, to: usize) -> (r: String)
    requires
        from <= to <= m@.len(),
    ensures
        r@ == m@.subrange(from as int, to as int),
{
    let mut out = String::new();
    let mut i: usize = from;
    while i < to
        invariant
            from <= i <= to <= m@.len(),
            out@ == m@.subrange(from as int, i as int),
        decreases to - i,
    {
        push_char(&mut out, m[i]);
        assert(m@.subrange(from as int, i + 1) == m@.subrange(from as int, i as int).push(m@[i as int]));
        i += 1;
    }
    out
}

/// Whether `pat` occurs in `m` at position `at`.
pub(crate) fn occurs_at(m: &Vec<char>, at: usize, pat: &Vec<char>) -> (r: bool)
    ensures
        r == (at + pat@.len() <= m@.len() && m@.subrange(at as int, at + pat@.len()) == pat@),
{
    if at > m.len() || pat.len() > m.len() - at {
        return false;
    }
    let mut i: usize = 0;
    while i < pat.len()
        invariant
            at + pat@.len() <= m@.len() <= usize::MAX,
            i <= pat@.len(),
            forall|k: int| 0 <= k < i ==> m@[at + k] == pat@[k],
        decreases pat.len() - i,
    {
        if m[at + i] != pat[i] {
            assert(m@.subrange(at as int, at + pat@.len())[i as int] != pat@[i as int]);
            return false;
        }
        i += 1;
    }
    assert(m@.subrange(at as int, at + pat@.len()) =~= pat@);
    true
}

} // verus!
