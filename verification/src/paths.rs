//! Paths as their parts, the way `std::path::Path::components` reads them.

use vstd::prelude::*;

verus! {

/// One part of a path: a Windows drive or share, the root, `.` where it
/// leads a relative path, `..`, or a name.
#[derive(Debug)]
pub enum Part {
    Prefix(String),
    Root,
    Here,
    Up,
    Name(String),
}

/// A part, as plain values.
pub enum PartView {
    Prefix(Seq<char>),
    Root,
    Here,
    Up,
    Name(Seq<char>),
}

impl View for Part {
    type V = PartView;

    open spec fn view(&self) -> PartView {
        match self {
            Part::Prefix(p) => PartView::Prefix(p@),
            Part::Root => PartView::Root,
            Part::Here => PartView::Here,
            Part::Up => PartView::Up,
            Part::Name(n) => PartView::Name(n@),
        }
    }
}

/// The parts of a path, as plain values.
pub open spec fn parts_view(parts: Seq<Part>) -> Seq<PartView> {
    parts.map_values(|p: Part| p@)
}

/// True when `base` is the whole of the first parts of `path`, as
/// `Path::starts_with` has it: only whole parts match.
pub open spec fn leads_with(path: Seq<PartView>, base: Seq<PartView>) -> bool {
    base.len() <= path.len() && path.take(base.len() as int) == base
}

/// A copy of a part.
pub fn copy_part(p: &Part) -> (r: Part)
    ensures
        r@ == p@,
{
    match p {
        Part::Prefix(x) => Part::Prefix(x.clone()),
        Part::Root => Part::Root,
        Part::Here => Part::Here,
        Part::Up => Part::Up,
        Part::Name(x) => Part::Name(x.clone()),
    }
}

/// Whether two parts are the same.
pub fn same_part(a: &Part, b: &Part) -> (r: bool)
    ensures
        r == (a@ == b@),
{
    match a {
        Part::Prefix(x) => match b {
            Part::Prefix(y) => x.eq(y),
            _ => false,
        },
        Part::Root => match b {
            Part::Root => true,
            _ => false,
        },
        Part::Here => match b {
            Part::Here => true,
            _ => false,
        },
        Part::Up => match b {
            Part::Up => true,
            _ => false,
        },
        Part::Name(x) => match b {
            Part::Name(y) => x.eq(y),
            _ => false,
        },
    }
}

/// Whether `path` begins with the whole of `base`.
pub fn starts_with(path: &Vec<Part>, base: &Vec<Part>) -> (r: bool)
    ensures
        r == leads_with(parts_view(path@), parts_view(base@)),
{
    if base.len() > path.len() {
        return false;
    }
    let mut i: usize = 0;
    while i < base.len()
        invariant
            base.len() <= path.len(),
            i <= base.len(),
            forall|j: int| 0 <= j < i ==> path@[j]@ == #[trigger] base@[j]@,
        decreases base.len() - i,
    {
        if !same_part(&path[i], &base[i]) {
            assert(parts_view(path@).take(base.len() as int)[i as int] != parts_view(base@)[i as int]);
            return false;
        }
        i = i + 1;
    }
    assert(parts_view(path@).take(base.len() as int) =~= parts_view(base@));
    true
}

/// What follows `base` in `path`, as `Path::strip_prefix` gives it, or
/// `None` when `path` does not begin with `base`.
pub fn strip_prefix(path: &Vec<Part>, base: &Vec<Part>) -> (r: Option<Vec<Part>>)
    ensures
        r is Some <==> leads_with(parts_view(path@), parts_view(base@)),
        r is Some ==> parts_view(r->0@) == parts_view(path@).skip(base@.len() as int),
{
    if !starts_with(path, base) {
        return None;
    }
    let mut rest: Vec<Part> = Vec::new();
    let mut i = base.len();
    while i < path.len()
        invariant
            base.len() <= i <= path.len(),
            parts_view(rest@) == parts_view(path@).subrange(base.len() as int, i as int),
        decreases path.len() - i,
    {
        let p = copy_part(&path[i]);
        let ghost before = rest@;
        rest.push(p);
        assert(parts_view(rest@) =~= parts_view(before).push(p@));
        assert(parts_view(rest@) =~= parts_view(path@).subrange(base.len() as int, i + 1));
        i = i + 1;
    }
    Some(rest)
}

} // verus!
