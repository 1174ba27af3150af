//! Clang's JSON syntax tree (`-Xclang -ast-dump=json`), restricted to the
//! fields that BPF C programmes need. A node is flat: every kind shares
//! the same optional fields, as Clang's format does.

use vstd::prelude::*;

use crate::text::{chars_of, str_eq};
use crate::verify::scan::{contains, contains_in};

verus! {

/// A node of the tree.
#[derive(Debug)]
pub struct Node {
    pub id: Option<String>,
    pub kind: String,
    pub name: Option<String>,
    /// The node's type (`type` in the JSON).
    pub ty: Option<QualType>,
    pub opcode: Option<String>,
    /// A literal's value, as text whether Clang wrote a string or a number.
    pub value: Option<String>,
    /// For a `DeclRefExpr`: the declaration it refers to.
    pub referenced_decl: Option<Box<ReferencedDecl>>,
    pub has_init: Option<bool>,
    /// For a `SectionAttr`: the section's name.
    pub section_name: Option<String>,
    /// Whether the compiler made the node up.
    pub is_implicit: Option<bool>,
    /// For a cast: its kind.
    pub cast_kind: Option<String>,
    pub inner: Vec<Node>,
    pub loc: Option<SourceLocation>,
    pub range: Option<SourceRange>,
}

/// A type as Clang prints it, and its desugared form when that differs.
#[derive(Debug)]
pub struct QualType {
    pub qual_type: String,
    pub desugared_type: Option<String>,
}

/// The declaration a `DeclRefExpr` refers to.
#[derive(Debug)]
pub struct ReferencedDecl {
    pub id: Option<String>,
    pub kind: Option<String>,
    pub name: Option<String>,
    pub ty: Option<QualType>,
}

/// A source position; Clang only writes `file` when it changes.
#[derive(Debug)]
pub struct SourceLocation {
    pub file: Option<String>,
    pub line: Option<u32>,
    pub col: Option<u32>,
    pub expansion_loc: Option<Box<SourceLocation>>,
    pub spelling_loc: Option<Box<SourceLocation>>,
}

/// A source range.
#[derive(Debug)]
pub struct SourceRange {
    pub begin: Option<SourceLocation>,
    pub end: Option<SourceLocation>,
}

/// The characters of an optional string.
pub open spec fn opt_chars(o: Option<String>) -> Option<Seq<char>> {
    match o {
        Some(s) => Some(s@),
        None => None,
    }
}

/// The characters of an optional string slice.
pub open spec fn opt_str(o: Option<&str>) -> Option<Seq<char>> {
    match o {
        Some(s) => Some(s@),
        None => None,
    }
}

/// Whether a node comes from the file named `f`: its location's file, or
/// failing that its expansion location's file, holds `f`; a location
/// with neither but with a line belongs to the main file unless the node
/// is implicit.
pub open spec fn from_file(n: Node, f: Seq<char>) -> bool {
    match n.loc {
        None => false,
        Some(loc) => match loc.file {
            Some(file) => contains(file@, f),
            None => {
                if loc.expansion_loc is Some && loc.expansion_loc->0.file is Some {
                    contains(loc.expansion_loc->0.file->0@, f)
                } else {
                    loc.line is Some && n.is_implicit != Some(true)
                }
            },
        },
    }
}

/// The nodes of `s` whose kind is `k`, in order.
pub open spec fn of_kind(s: Seq<Node>, k: Seq<char>) -> Seq<Node>
    decreases s.len(),
{
    if s.len() == 0 {
        Seq::empty()
    } else if s.last().kind@ == k {
        of_kind(s.drop_last(), k).push(s.last())
    } else {
        of_kind(s.drop_last(), k)
    }
}

/// The position of the first node of `s` whose kind is `k`.
pub open spec fn first_of_kind(s: Seq<Node>, k: Seq<char>) -> Option<int>
    decreases s.len(),
{
    if s.len() == 0 {
        None
    } else if s[0].kind@ == k {
        Some(0)
    } else {
        match first_of_kind(s.drop_first(), k) {
            Some(i) => Some(i + 1),
            None => None,
        }
    }
}

/// The section named by the first `SectionAttr` child from `i` on that
/// names one, by its own name or by its first child's value.
pub open spec fn section_attr_from(s: Seq<Node>, i: int) -> Option<Seq<char>>
    decreases s.len() - i,
{
    if i < 0 || i >= s.len() {
        None
    } else if s[i].kind@ == "SectionAttr"@ && s[i].name is Some {
        Some(s[i].name->0@)
    } else if s[i].kind@ == "SectionAttr"@ && s[i].inner@.len() > 0 && s[i].inner@[0].value is Some {
        Some(s[i].inner@[0].value->0@)
    } else {
        section_attr_from(s, i + 1)
    }
}

/// A found position holds the first node of the kind.
pub proof fn lemma_first_of_kind(s: Seq<Node>, k: Seq<char>)
    ensures
        match first_of_kind(s, k) {
            Some(i) => 0 <= i < s.len() && s[i].kind@ == k && forall|j: int| 0 <= j < i ==> s[j].kind@ != k,
            None => forall|j: int| 0 <= j < s.len() ==> s[j].kind@ != k,
        },
    decreases s.len(),
{
    if s.len() > 0 {
        lemma_first_of_kind(s.drop_first(), k);
        assert forall|j: int| 1 <= j < s.len() implies s[j] == s.drop_first()[j - 1] by {}
    }
}

impl Node {
    /// Whether the node comes from the file `filename` (see `from_file`).
    pub fn is_from_file(&self, filename: &str) -> (b: bool)
        ensures
            b == from_file(*self, filename@),
    {
        let f = chars_of(filename);
        if let Some(loc) = &self.loc {
            if let Some(file) = &loc.file {
                return contains_in(chars_of(file.as_str()).as_slice(), f.as_slice());
            }
            if let Some(exp) = &loc.expansion_loc {
                if let Some(file) = &exp.file {
                    return contains_in(chars_of(file.as_str()).as_slice(), f.as_slice());
                }
            }
            let implicit = match self.is_implicit {
                Some(b) => b,
                None => false,
            };
            if loc.line.is_some() && !implicit {
                return true;
            }
        }
        false
    }

    /// The node's type as Clang printed it.
    pub fn qual_type(&self) -> (r: Option<&str>)
        ensures
            opt_str(r) == (match self.ty {
                Some(t) => Some(t.qual_type@),
                None => None,
            }),
    {
        match &self.ty {
            Some(t) => Some(t.qual_type.as_str()),
            None => None,
        }
    }

    /// The node's desugared type, or its printed type where there is none.
    pub fn desugared_type(&self) -> (r: Option<&str>)
        ensures
            opt_str(r) == (match self.ty {
                Some(t) => match t.desugared_type {
                    Some(d) => Some(d@),
                    None => Some(t.qual_type@),
                },
                None => None,
            }),
    {
        match &self.ty {
            Some(t) => match &t.desugared_type {
                Some(d) => Some(d.as_str()),
                None => Some(t.qual_type.as_str()),
            },
            None => None,
        }
    }

    /// The name of the declaration a `DeclRefExpr` refers to.
    pub fn ref_name(&self) -> (r: Option<&str>)
        ensures
            opt_str(r) == (match self.referenced_decl {
                Some(d) => opt_chars(d.name),
                None => None,
            }),
    {
        match &self.referenced_decl {
            Some(d) => match &d.name {
                Some(n) => Some(n.as_str()),
                None => None,
            },
            None => None,
        }
    }

    /// The children of kind `kind`, in order.
    pub fn children_of_kind(&self, kind: &str) -> (r: Vec<&Node>)
        ensures
            r@.len() == of_kind(self.inner@, kind@).len(),
            forall|i: int| 0 <= i < r@.len() ==> *r@[i] == of_kind(self.inner@, kind@)[i],
    {
        let mut r: Vec<&Node> = Vec::new();
        let mut i: usize = 0;
        while i < self.inner.len()
            invariant
                i <= self.inner@.len(),
                r@.len() == of_kind(self.inner@.take(i as int), kind@).len(),
                forall|j: int| 0 <= j < r@.len() ==> *r@[j] == of_kind(self.inner@.take(i as int), kind@)[j],
            decreases self.inner@.len() - i,
        {
            assert(self.inner@.take(i + 1).drop_last() =~= self.inner@.take(i as int));
            if str_eq(self.inner[i].kind.as_str(), kind) {
                r.push(&self.inner[i]);
            }
            i = i + 1;
        }
        assert(self.inner@.take(i as int) =~= self.inner@);
        r
    }

    /// The first child of kind `kind`.
    pub fn first_child_of_kind(&self, kind: &str) -> (r: Option<&Node>)
        ensures
            match first_of_kind(self.inner@, kind@) {
                Some(i) => r is Some && *r->0 == self.inner@[i],
                None => r is None,
            },
    {
        proof {
            lemma_first_of_kind(self.inner@, kind@);
        }
        let mut i: usize = 0;
        while i < self.inner.len()
            invariant
                i <= self.inner@.len(),
                forall|j: int| 0 <= j < i ==> self.inner@[j].kind@ != kind@,
                match first_of_kind(self.inner@, kind@) {
                    Some(x) => 0 <= x < self.inner@.len() && self.inner@[x].kind@ == kind@
                        && forall|j: int| 0 <= j < x ==> self.inner@[j].kind@ != kind@,
                    None => forall|j: int| 0 <= j < self.inner@.len() ==> self.inner@[j].kind@ != kind@,
                },
            decreases self.inner@.len() - i,
        {
            if str_eq(self.inner[i].kind.as_str(), kind) {
                return Some(&self.inner[i]);
            }
            i = i + 1;
        }
        None
    }

    /// The section of the node's `SectionAttr` child (see `section_attr_from`).
    pub fn section_attr(&self) -> (r: Option<&str>)
        ensures
            opt_str(r) == section_attr_from(self.inner@, 0),
    {
        let mut i: usize = 0;
        while i < self.inner.len()
            invariant
                i <= self.inner@.len(),
                section_attr_from(self.inner@, 0) == section_attr_from(self.inner@, i as int),
            decreases self.inner@.len() - i,
        {
            let child = &self.inner[i];
            if str_eq(child.kind.as_str(), "SectionAttr") {
                proof {
                    reveal_strlit("SectionAttr");
                }
                if let Some(name) = &child.name {
                    return Some(name.as_str());
                }
                if child.inner.len() > 0 {
                    if let Some(val) = &child.inner[0].value {
                        return Some(val.as_str());
                    }
                }
            }
            i = i + 1;
        }
        None
    }
}

} // verus!
