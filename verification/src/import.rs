//! Import declarations as paths of segments.

use crate::text::texts;
use vstd::prelude::*;
use vstd::string::*;

verus! {

/// The separator between the segments of an import in its written form.
pub open spec fn separator() -> Seq<char> {
    seq![':', ':']
}

/// The segments joined by the separator.
pub open spec fn joined(segments: Seq<Seq<char>>) -> Seq<char>
    decreases segments.len(),
{
    if segments.len() == 0 {
        Seq::empty()
    } else if segments.len() == 1 {
        segments[0]
    } else {
        joined(segments.drop_last()) + separator() + segments.last()
    }
}

/// The segments of each of a sequence of imports.
pub open spec fn paths(imports: Seq<ImportPath>) -> Seq<Seq<Seq<char>>> {
    Seq::new(imports.len(), |i: int| imports[i]@)
}

/// One import declaration: its segments in order, at least one.
pub struct ImportPath {
    segments: Vec<String>,
}

impl View for ImportPath {
    type V = Seq<Seq<char>>;

    closed spec fn view(&self) -> Seq<Seq<char>> {
        texts(self.segments@)
    }
}

impl ImportPath {
    #[verifier::type_invariant]
    spec fn has_segment(&self) -> bool {
        self.segments@.len() > 0
    }

    /// The import with these segments; none when there is no segment.
    pub fn new(segments: Vec<String>) -> (p: Option<Self>)
        ensures
            match p {
                Some(path) => segments@.len() > 0 && path@ == texts(segments@),
                None => segments@.len() == 0,
            },
    {
        if segments.len() == 0 {
            None
        } else {
            Some(ImportPath { segments })
        }
    }

    /// The number of segments.
    pub fn len(&self) -> (n: usize)
        ensures
            n == self@.len(),
            n > 0,
    {
        proof {
            use_type_invariant(self);
        }
        self.segments.len()
    }

    /// The segment at position `i`, if there is one.
    pub fn segment(&self, i: usize) -> (s: Option<&String>)
        ensures
            match s {
                Some(text) => i < self@.len() && text@ == self@[i as int],
                None => i >= self@.len(),
            },
    {
        if i < self.segments.len() {
            Some(&self.segments[i])
        } else {
            None
        }
    }

    /// The first segment: the name that the import starts from.
    pub fn leading(&self) -> (s: &String)
        ensures
            self@.len() > 0,
            s@ == self@[0],
    {
        proof {
            use_type_invariant(self);
        }
        &self.segments[0]
    }

    /// The import as it is written: its segments joined by `::`.
    pub fn statement(&self) -> (s: String)
        ensures
            s@ == joined(self@),
    {
        proof {
            use_type_invariant(self);
            reveal_strlit("::");
        }
        let mut s = self.segments[0].clone();
        let mut i: usize = 1;
        while i < self.segments.len()
            invariant
                1 <= i <= self.segments.len(),
                "::"@ == separator(),
                s@ == joined(self@.subrange(0, i as int)),
            decreases self.segments.len() - i,
        {
            s.append("::");
            s.append(self.segments[i].as_str());
            proof {
                let next = self@.subrange(0, i + 1);
                assert(next.drop_last() =~= self@.subrange(0, i as int));
            }
            i += 1;
        }
        assert(self@.subrange(0, i as int) =~= self@);
        s
    }
}

} // verus!
