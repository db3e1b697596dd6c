//! File names and module names as sequences of characters.

use vstd::prelude::*;
use vstd::string::*;

verus! {

/// The texts of a sequence of strings.
pub open spec fn texts(v: Seq<String>) -> Seq<Seq<char>> {
    Seq::new(v.len(), |i: int| v[i]@)
}

/// Says whether one of `names` reads as `name` does.
pub fn contains_name(names: &Vec<String>, name: &str) -> (r: bool)
    ensures
        r == texts(names@).contains(name@),
{
    let wanted = String::from_str(name);
    let mut i: usize = 0;
    while i < names.len()
        invariant
            i <= names.len(),
            wanted@ == name@,
            forall|j: int| 0 <= j < i ==> texts(names@)[j] != name@,
        decreases names.len() - i,
    {
        if names[i] == wanted {
            assert(texts(names@)[i as int] == name@);
            return true;
        }
        i += 1;
    }
    false
}

/// The suffix that marks a source file: a dot and the extension.
pub open spec fn source_suffix() -> Seq<char> {
    seq!['.', 'r', 's']
}

/// A name carries the source suffix when it ends with it and something
/// stands in front of it: `a.rs` does, `.rs` and `ars` do not.
pub open spec fn has_source_suffix(name: Seq<char>) -> bool {
    name.len() > 3 && name.subrange(name.len() - 3, name.len() as int) == source_suffix()
}

/// The name without its source suffix; a name without one is kept whole.
pub open spec fn strip_source_suffix(name: Seq<char>) -> Seq<char> {
    if has_source_suffix(name) {
        name.subrange(0, name.len() - 3)
    } else {
        name
    }
}

/// Says whether a file name is that of a source file.
pub fn is_rust_file(name: &str) -> (r: bool)
    ensures
        r == has_source_suffix(name@),
{
    let n: usize = name.unicode_len();
    if n <= 3 {
        return false;
    }
    let found = name.get_char(n - 3) == '.' && name.get_char(n - 2) == 'r' && name.get_char(n - 1)
        == 's';
    proof {
        if found {
            assert(name@.subrange(n - 3, n as int) =~= source_suffix());
        }
    }
    found
}

/// The name of the directory that holds build output.
pub open spec fn build_dir_name() -> Seq<char> {
    seq!['t', 'a', 'r', 'g', 'e', 't']
}

/// Says whether a directory of this name is left out of a walk through a
/// source tree, with all that lies below it.
pub fn is_build_dir(name: &str) -> (r: bool)
    ensures
        r == (name@ == build_dir_name()),
{
    proof {
        reveal_strlit("target");
        assert("target"@ =~= build_dir_name());
    }
    String::from_str(name) == String::from_str("target")
}

/// The module that a path component names: the component without its source
/// suffix, so that `foo.rs` and a directory `foo` name the same module.
pub fn module_of_component(component: &str) -> (r: String)
    ensures
        r@ == strip_source_suffix(component@),
{
    if is_rust_file(component) {
        let n: usize = component.unicode_len();
        String::from_str(component.substring_char(0, n - 3))
    } else {
        String::from_str(component)
    }
}

} // verus!
