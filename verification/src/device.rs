//! Picking an input device by its name.
//!
//! A producer asks for the first device whose name contains a given text.
//! A device that is not there is no error: its producer simply never starts.

use vstd::prelude::*;

verus! {

/// Whether `needle` stands in `hay` at offset `k`.
pub open spec fn occurs_at(needle: Seq<char>, hay: Seq<char>, k: int) -> bool {
    0 <= k && k + needle.len() <= hay.len() && hay.subrange(k, k + needle.len()) == needle
}

/// Whether `needle` stands somewhere in `hay` as one contiguous run.
pub open spec fn occurs_in(needle: Seq<char>, hay: Seq<char>) -> bool {
    exists|k: int| occurs_at(needle, hay, k)
}

/// Whether no name before index `n` contains `needle`.
pub open spec fn none_matches(names: Seq<String>, needle: Seq<char>, n: int) -> bool {
    forall|j: int| 0 <= j < n ==> !occurs_in(needle, (#[trigger] names[j])@)
}

/// The characters of `text`, one by one.
pub fn chars_of(text: &str) -> (out: Vec<char>)
    ensures
        out@ == text@,
{
    broadcast use vstd::string::group_string_axioms;

    let mut out: Vec<char> = Vec::new();
    for c in it: text.chars()
        invariant
            it.seq() == text@,
            out@ == it.seq().take(it.index() as int),
    {
        out.push(c);
        assert(it.seq().take(it.index() + 1) =~= it.seq().take(it.index() as int).push(c));
    }
    assert(out@ =~= text@);
    out
}

fn has_run_at(hay: &Vec<char>, needle: &Vec<char>, k: usize) -> (b: bool)
    requires
        k + needle.len() <= hay.len(),
    ensures
        b == occurs_at(needle@, hay@, k as int),
{
    let mut j: usize = 0;
    while j < needle.len()
        invariant
            j <= needle.len(),
            k + needle.len() <= hay.len(),
            forall|t: int| 0 <= t < j ==> hay@[k + t] == needle@[t],
        decreases needle.len() - j,
    {
        if hay[k + j] != needle[j] {
            assert(hay@.subrange(k as int, k + needle.len())[j as int] != needle@[j as int]);
            return false;
        }
        j = j + 1;
    }
    assert(hay@.subrange(k as int, k + needle.len()) =~= needle@);
    true
}

/// Whether `needle` stands somewhere in `hay` as one contiguous run.
pub fn contains_run(hay: &Vec<char>, needle: &Vec<char>) -> (b: bool)
    ensures
        b == occurs_in(needle@, hay@),
{
    if needle.len() > hay.len() {
        return false;
    }
    let last: usize = hay.len() - needle.len();
    let mut k: usize = 0;
    loop
        invariant
            k <= last,
            last + needle.len() == hay.len(),
            forall|t: int| 0 <= t < k ==> !occurs_at(needle@, hay@, t),
        decreases last - k,
    {
        if has_run_at(hay, needle, k) {
            return true;
        }
        if k == last {
            return false;
        }
        k = k + 1;
    }
}

/// The first device, in the order given, whose name contains `needle`.
pub fn find_device(names: &Vec<String>, needle: &str) -> (out: Option<usize>)
    ensures
        match out {
            Some(i) => i < names.len() && occurs_in(needle@, names@[i as int]@) && none_matches(
                names@,
                needle@,
                i as int,
            ),
            None => none_matches(names@, needle@, names.len() as int),
        },
{
    let wanted = chars_of(needle);
    let mut i: usize = 0;
    while i < names.len()
        invariant
            i <= names.len(),
            wanted@ == needle@,
            none_matches(names@, needle@, i as int),
        decreases names.len() - i,
    {
        let name = chars_of(names[i].as_str());
        if contains_run(&name, &wanted) {
            return Some(i);
        }
        i = i + 1;
    }
    None
}

} // verus!
