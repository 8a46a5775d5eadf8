//! The packages of a workspace, and the choice of the one to pack.
use vstd::prelude::*;
use crate::error::{PackError, PackErrorView};
use crate::value::Value;

verus! {

/// A package of the workspace.
#[derive(Debug)]
pub struct Package {
    /// The package's name.
    pub name: String,
    /// Where the package's manifest lies.
    pub manifest_path: String,
    /// The package's `package.metadata` table.
    pub metadata: Value,
}

/// What is known of a workspace: its packages and, where the context gives
/// one, the index of the current package.
#[derive(Debug)]
pub struct Metadata {
    pub packages: Vec<Package>,
    pub current: Option<usize>,
}

/// How many of `pkgs` are named `name`.
pub open spec fn named_count(pkgs: Seq<Package>, name: Seq<char>) -> nat
    decreases pkgs.len(),
{
    if pkgs.len() == 0 {
        0
    } else {
        named_count(pkgs.drop_last(), name) + if pkgs.last().name@ == name {
            1nat
        } else {
            0nat
        }
    }
}

/// True when `i` is the first of `pkgs` named `name`.
pub open spec fn is_first_named(pkgs: Seq<Package>, name: Seq<char>, i: int) -> bool {
    &&& 0 <= i < pkgs.len()
    &&& pkgs[i].name@ == name
    &&& forall|j: int| 0 <= j < i ==> (#[trigger] pkgs[j]).name@ != name
}

/// The index of the first of `pkgs` named `name`.
pub open spec fn first_named(pkgs: Seq<Package>, name: Seq<char>) -> int {
    choose|i: int| is_first_named(pkgs, name, i)
}

/// The index of the package that `package_name` selects in `m`, or the
/// error that the selection ends in.
///
/// With a name, exactly one package must carry it. Without one, the current
/// package is taken where the context names a valid one; otherwise the
/// workspace must hold exactly one package.
pub open spec fn resolved(m: Metadata, package_name: Option<Seq<char>>) -> Result<int, PackErrorView> {
    match package_name {
        Some(n) => {
            let count = named_count(m.packages@, n);
            if count == 0 {
                Err(PackErrorView::UnknownPackage(n))
            } else if count == 1 {
                Ok(first_named(m.packages@, n))
            } else {
                Err(PackErrorView::AmbiguousPackage(n))
            }
        },
        None => match m.current {
            Some(c) if c < m.packages@.len() => Ok(c as int),
            _ => if m.packages@.len() == 1 {
                Ok(0)
            } else {
                Err(PackErrorView::AmbiguousWorkspace)
            },
        },
    }
}

proof fn lemma_first_named_unique(pkgs: Seq<Package>, name: Seq<char>, i: int)
    requires
        is_first_named(pkgs, name, i),
    ensures
        first_named(pkgs, name) == i,
{
    let k = first_named(pkgs, name);
    assert(is_first_named(pkgs, name, k));
    if k < i {
        assert(pkgs[k].name@ != name);
    } else if i < k {
        assert(pkgs[i].name@ != name);
    }
}

proof fn lemma_count_one(pkgs: Seq<Package>, name: Seq<char>, i: int)
    requires
        0 <= i < pkgs.len(),
        pkgs[i].name@ == name,
    ensures
        named_count(pkgs, name) >= 1,
    decreases pkgs.len(),
{
    if i < pkgs.len() - 1 {
        assert(pkgs.drop_last()[i] == pkgs[i]);
        lemma_count_one(pkgs.drop_last(), name, i);
    }
}

proof fn lemma_count_two(pkgs: Seq<Package>, name: Seq<char>, i: int, j: int)
    requires
        0 <= i < j < pkgs.len(),
        pkgs[i].name@ == name,
        pkgs[j].name@ == name,
    ensures
        named_count(pkgs, name) >= 2,
    decreases pkgs.len(),
{
    assert(pkgs.drop_last()[i] == pkgs[i]);
    if j == pkgs.len() - 1 {
        lemma_count_one(pkgs.drop_last(), name, i);
    } else {
        assert(pkgs.drop_last()[j] == pkgs[j]);
        lemma_count_two(pkgs.drop_last(), name, i, j);
    }
}

proof fn lemma_first_exists(pkgs: Seq<Package>, name: Seq<char>, i: int)
    requires
        0 <= i < pkgs.len(),
        pkgs[i].name@ == name,
    ensures
        is_first_named(pkgs, name, first_named(pkgs, name)),
    decreases i,
{
    if exists|j: int| 0 <= j < i && (#[trigger] pkgs[j]).name@ == name {
        let j = choose|j: int| 0 <= j < i && (#[trigger] pkgs[j]).name@ == name;
        lemma_first_exists(pkgs, name, j);
    } else {
        assert(is_first_named(pkgs, name, i));
    }
}

/// Selecting by name succeeds exactly when one package carries the name,
/// and then gives that package.
pub proof fn lemma_selection_by_name(m: Metadata, name: Seq<char>)
    ensures
        resolved(m, Some(name)) is Ok <==> exists|i: int|
            0 <= i < m.packages@.len() && (#[trigger] m.packages@[i]).name@ == name
            && forall|j: int| 0 <= j < m.packages@.len() && j != i ==> (#[trigger] m.packages@[j]).name@ != name,
        resolved(m, Some(name)) is Ok ==> ({
            let i = resolved(m, Some(name))->Ok_0;
            &&& 0 <= i < m.packages@.len()
            &&& m.packages@[i].name@ == name
        }),
{
    let pkgs = m.packages@;
    if named_count(pkgs, name) == 1 {
        assert(exists|i: int| 0 <= i < pkgs.len() && (#[trigger] pkgs[i]).name@ == name) by {
            if forall|i: int| 0 <= i < pkgs.len() ==> (#[trigger] pkgs[i]).name@ != name {
                lemma_count_none(pkgs, name);
            }
        }
        let w = choose|i: int| 0 <= i < pkgs.len() && (#[trigger] pkgs[i]).name@ == name;
        lemma_first_exists(pkgs, name, w);
        let i = first_named(pkgs, name);
        assert forall|j: int| 0 <= j < pkgs.len() && j != i implies (#[trigger] pkgs[j]).name@ != name by {
            if pkgs[j].name@ == name {
                if j < i {
                    lemma_count_two(pkgs, name, j, i);
                } else {
                    lemma_count_two(pkgs, name, i, j);
                }
            }
        }
    } else {
        assert forall|i: int| 0 <= i < pkgs.len() && (#[trigger] pkgs[i]).name@ == name implies
            exists|j: int| 0 <= j < pkgs.len() && j != i && (#[trigger] pkgs[j]).name@ == name by {
            lemma_count_one(pkgs, name, i);
            if forall|j: int| 0 <= j < pkgs.len() && j != i ==> (#[trigger] pkgs[j]).name@ != name {
                lemma_count_exactly_one(pkgs, name, i);
            }
        }
    }
}

proof fn lemma_count_none(pkgs: Seq<Package>, name: Seq<char>)
    requires
        forall|i: int| 0 <= i < pkgs.len() ==> (#[trigger] pkgs[i]).name@ != name,
    ensures
        named_count(pkgs, name) == 0,
    decreases pkgs.len(),
{
    if pkgs.len() > 0 {
        assert forall|i: int| 0 <= i < pkgs.drop_last().len() implies (#[trigger] pkgs.drop_last()[i]).name@ != name by {
            assert(pkgs.drop_last()[i] == pkgs[i]);
        }
        lemma_count_none(pkgs.drop_last(), name);
    }
}

proof fn lemma_count_exactly_one(pkgs: Seq<Package>, name: Seq<char>, i: int)
    requires
        0 <= i < pkgs.len(),
        pkgs[i].name@ == name,
        forall|j: int| 0 <= j < pkgs.len() && j != i ==> (#[trigger] pkgs[j]).name@ != name,
    ensures
        named_count(pkgs, name) == 1,
    decreases pkgs.len(),
{
    let rest = pkgs.drop_last();
    if i == pkgs.len() - 1 {
        assert forall|j: int| 0 <= j < rest.len() implies (#[trigger] rest[j]).name@ != name by {
            assert(rest[j] == pkgs[j]);
        }
        lemma_count_none(rest, name);
    } else {
        assert forall|j: int| 0 <= j < rest.len() && j != i implies (#[trigger] rest[j]).name@ != name by {
            assert(rest[j] == pkgs[j]);
        }
        assert(rest[i] == pkgs[i]);
        lemma_count_exactly_one(rest, name, i);
    }
}

/// Picks the package of `metadata` that `package_name` selects.
pub fn find_package<'a>(metadata: &'a Metadata, package_name: Option<&str>) -> (r: Result<&'a Package, PackError>)
    ensures
        match r {
            Ok(p) => resolved(*metadata, package_name.deep_view()) is Ok
                && *p == metadata.packages@[resolved(*metadata, package_name.deep_view())->Ok_0],
            Err(e) => resolved(*metadata, package_name.deep_view()) == Err::<int, PackErrorView>(e@),
        },
{
    let pkgs = &metadata.packages;
    match package_name {
        Some(name) => {
            let wanted: String = name.to_owned();
            let mut count: usize = 0;
            let mut found: usize = 0;
            let mut i: usize = 0;
            while i < pkgs.len()
                invariant
                    0 <= i <= pkgs@.len(),
                    wanted@ == name@,
                    count <= i,
                    count == named_count(pkgs@.take(i as int), name@),
                    count > 0 ==> is_first_named(pkgs@, name@, found as int),
                    count == 0 ==> forall|j: int| 0 <= j < i ==> (#[trigger] pkgs@[j]).name@ != name@,
                decreases pkgs.len() - i,
            {
                assert(pkgs@.take(i + 1).drop_last() =~= pkgs@.take(i as int));
                if pkgs[i].name == wanted {
                    if count == 0 {
                        found = i;
                    }
                    count += 1;
                }
                i += 1;
            }
            assert(pkgs@.take(i as int) =~= pkgs@);
            if count == 0 {
                Err(PackError::UnknownPackage(name.to_owned()))
            } else if count == 1 {
                proof {
                    lemma_first_named_unique(pkgs@, name@, found as int);
                }
                Ok(&pkgs[found])
            } else {
                Err(PackError::AmbiguousPackage(name.to_owned()))
            }
        },
        None => {
            match metadata.current {
                Some(c) => if c < pkgs.len() {
                    return Ok(&pkgs[c]);
                },
                None => {},
            }
            if pkgs.len() == 1 {
                Ok(&pkgs[0])
            } else {
                Err(PackError::AmbiguousWorkspace)
            }
        },
    }
}

} // verus!
