//! Byte-string helpers for remote entry names.
//!
//! Remote listings are lists of byte-string names.  The engine locates the
//! descriptor and the archive in a listing by their suffix, and builds the
//! names of a new pair from the save's name and a date.

use vstd::prelude::*;

verus! {

/// `s` ends with `suffix`.
pub open spec fn has_suffix(s: Seq<u8>, suffix: Seq<u8>) -> bool {
    s.len() >= suffix.len() && s.subrange(s.len() - suffix.len(), s.len() as int) == suffix
}

/// The index of the first name ending with `suffix`, if any.
pub open spec fn spec_find_suffix(names: Seq<Vec<u8>>, suffix: Seq<u8>) -> Option<int>
    decreases names.len(),
{
    if names.len() == 0 {
        None
    } else if has_suffix(names[0]@, suffix) {
        Some(0int)
    } else {
        match spec_find_suffix(names.drop_first(), suffix) {
            Some(i) => Some(i + 1),
            None => None,
        }
    }
}

/// The suffix of a descriptor entry: `.json`.
pub open spec fn json_suffix() -> Seq<u8> {
    seq![46u8, 106, 115, 111, 110]
}

/// The suffix of an archive entry: `.zip`.
pub open spec fn zip_suffix() -> Seq<u8> {
    seq![46u8, 122, 105, 112]
}

/// The names of a listing as byte strings.
pub open spec fn names_view(names: Seq<Vec<u8>>) -> Seq<Seq<u8>> {
    names.map_values(|n: Vec<u8>| n@)
}

/// The file name `<name>-<date><suffix>` of a published pair's half.
pub open spec fn file_name_view(name: Seq<u8>, date: Seq<u8>, suffix: Seq<u8>) -> Seq<u8> {
    name + seq![45u8] + date + suffix
}

/// A scan that saw no suffix match before `i` pins down `spec_find_suffix`.
proof fn lemma_find_suffix_position(names: Seq<Vec<u8>>, suffix: Seq<u8>, i: int)
    requires
        0 <= i <= names.len(),
        forall|j: int| 0 <= j < i ==> !has_suffix(#[trigger] names[j]@, suffix),
        i < names.len() ==> has_suffix(names[i]@, suffix),
    ensures
        i < names.len() ==> spec_find_suffix(names, suffix) == Some(i),
        i == names.len() ==> spec_find_suffix(names, suffix) is None,
    decreases names.len(),
{
    if names.len() > 0 && !has_suffix(names[0]@, suffix) {
        assert forall|j: int| 0 <= j < i - 1 implies !has_suffix(
            #[trigger] names.drop_first()[j]@,
            suffix,
        ) by {
            assert(names.drop_first()[j] == names[j + 1]);
        }
        if i == 0 {
            lemma_find_suffix_position(names.drop_first(), suffix, 0);
        } else {
            assert(i - 1 < names.drop_first().len() ==> names.drop_first()[i - 1] == names[i]);
            lemma_find_suffix_position(names.drop_first(), suffix, i - 1);
        }
    }
}

/// A copy of a byte string.
pub fn clone_bytes(v: &Vec<u8>) -> (out: Vec<u8>)
    ensures
        out@ == v@,
{
    let mut out: Vec<u8> = Vec::new();
    let mut i: usize = 0;
    while i < v.len()
        invariant
            i <= v@.len(),
            out@ == v@.take(i as int),
        decreases v@.len() - i,
    {
        out.push(v[i]);
        proof {
            assert(v@.take(i + 1) =~= v@.take(i as int).push(v@[i as int]));
        }
        i = i + 1;
    }
    proof {
        assert(v@.take(v@.len() as int) =~= v@);
    }
    out
}

/// Whether `name` ends with `suffix`.
pub fn ends_with_suffix(name: &Vec<u8>, suffix: &Vec<u8>) -> (r: bool)
    ensures
        r == has_suffix(name@, suffix@),
{
    if name.len() < suffix.len() {
        return false;
    }
    let start = name.len() - suffix.len();
    let mut i: usize = 0;
    while i < suffix.len()
        invariant
            i <= suffix@.len(),
            start + suffix@.len() == name@.len(),
            name@.len() <= usize::MAX,
            forall|j: int| 0 <= j < i ==> name@[start + j] == suffix@[j],
        decreases suffix@.len() - i,
    {
        if name[start + i] != suffix[i] {
            proof {
                let tail = name@.subrange(name@.len() - suffix@.len(), name@.len() as int);
                assert(tail[i as int] == name@[start + i]);
            }
            return false;
        }
        i = i + 1;
    }
    proof {
        assert(name@.subrange(name@.len() - suffix@.len(), name@.len() as int) =~= suffix@);
    }
    true
}

/// The first name in the listing ending with `suffix`, by position.
pub fn find_with_suffix(names: &Vec<Vec<u8>>, suffix: &Vec<u8>) -> (r: Option<usize>)
    ensures
        r matches Some(i) ==> spec_find_suffix(names@, suffix@) == Some(i as int) && i
            < names@.len() && has_suffix(names@[i as int]@, suffix@),
        r is None ==> spec_find_suffix(names@, suffix@) is None,
{
    let mut i: usize = 0;
    while i < names.len()
        invariant
            i <= names@.len(),
            forall|j: int| 0 <= j < i ==> !has_suffix(#[trigger] names@[j]@, suffix@),
        decreases names@.len() - i,
    {
        if ends_with_suffix(&names[i], suffix) {
            proof {
                lemma_find_suffix_position(names@, suffix@, i as int);
            }
            return Some(i);
        }
        i = i + 1;
    }
    proof {
        lemma_find_suffix_position(names@, suffix@, names@.len() as int);
    }
    None
}

/// The suffix `.json` as a value.
pub fn json_suffix_bytes() -> (v: Vec<u8>)
    ensures
        v@ == json_suffix(),
{
    let mut v: Vec<u8> = Vec::new();
    v.push(46);
    v.push(106);
    v.push(115);
    v.push(111);
    v.push(110);
    proof {
        assert(v@ =~= json_suffix());
    }
    v
}

/// The suffix `.zip` as a value.
pub fn zip_suffix_bytes() -> (v: Vec<u8>)
    ensures
        v@ == zip_suffix(),
{
    let mut v: Vec<u8> = Vec::new();
    v.push(46);
    v.push(122);
    v.push(105);
    v.push(112);
    proof {
        assert(v@ =~= zip_suffix());
    }
    v
}

/// Builds `<name>-<date><suffix>`.
pub fn make_file_name(name: &Vec<u8>, date: &Vec<u8>, suffix: &Vec<u8>) -> (out: Vec<u8>)
    ensures
        out@ == file_name_view(name@, date@, suffix@),
{
    let mut out = clone_bytes(name);
    out.push(45);
    let mut date_part = clone_bytes(date);
    out.append(&mut date_part);
    let mut suffix_part = clone_bytes(suffix);
    out.append(&mut suffix_part);
    proof {
        assert(out@ =~= file_name_view(name@, date@, suffix@));
    }
    out
}

} // verus!
