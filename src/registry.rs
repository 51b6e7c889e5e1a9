use vstd::prelude::*;

use crate::version::{parse_version_ident, version_of_ident};

verus! {

/// One declared variant of a versioned type: the identifier that names its
/// version (`V1`, `V2`, ...) and the number of payload components it carries.
pub struct VariantDecl {
    pub ident: String,
    pub arity: usize,
}

/// A defect in how a versioned type was declared.
#[derive(Debug, Clone, Copy, PartialEq, Eq, Structural)]
pub enum ConfigurationError {
    /// The identifier of the declaration at this index names no version number.
    InvalidVersionIdent(usize),
    /// The declaration at this index does not carry exactly one payload.
    WrongArity(usize),
    /// The declaration at this index repeats a version number declared before it.
    DuplicateVersion(usize),
    /// No variant was declared, so there is no latest one.
    Empty,
    /// This version is not the latest, yet the version after it is not declared,
    /// so no upgrade leads out of it.
    MissingSuccessor(usize),
}

/// The version number that the declaration at index `i` names.
pub open spec fn decl_version(decls: Seq<VariantDecl>, i: int) -> Option<nat> {
    version_of_ident(decls[i].ident@)
}

/// The declaration at index `i` names a version and carries one payload.
pub open spec fn decl_ok(decls: Seq<VariantDecl>, i: int) -> bool {
    decl_version(decls, i) is Some && decls[i].arity == 1
}

/// The version number of the declaration at index `i`, where it names one.
pub open spec fn declared_version(decls: Seq<VariantDecl>, i: int) -> nat {
    decl_version(decls, i)->0
}

/// The first `n` declarations each name a version and carry one payload, and
/// no two of them name the same version.
pub open spec fn prefix_ok(decls: Seq<VariantDecl>, n: int) -> bool {
    &&& forall|j: int| 0 <= j < n ==> decl_ok(decls, j)
    &&& forall|j: int, k: int| 0 <= j < k < n ==> declared_version(decls, j) != declared_version(decls, k)
}

pub open spec fn declares(decls: Seq<VariantDecl>, v: nat) -> bool {
    exists|j: int| 0 <= j < decls.len() && declared_version(decls, j) == v
}

/// Every declared version below some other declared version has its
/// successor declared too.
pub open spec fn successor_closed(decls: Seq<VariantDecl>) -> bool {
    forall|j: int, k: int|
        0 <= j < decls.len() && 0 <= k < decls.len() && declared_version(decls, j) < declared_version(decls, k)
            ==> declares(decls, declared_version(decls, j) + 1)
}

/// The declarations form a versioned type: at least one variant, each with a
/// version number and one payload, the numbers distinct and without gaps.
pub open spec fn well_declared(decls: Seq<VariantDecl>) -> bool {
    &&& decls.len() > 0
    &&& prefix_ok(decls, decls.len() as int)
    &&& successor_closed(decls)
}

pub struct RegistryView {
    pub first: nat,
    pub latest: nat,
    /// The variant identifier of each version, from `first` to `latest`.
    pub names: Seq<Seq<char>>,
}

impl RegistryView {
    pub open spec fn contains(self, v: nat) -> bool {
        self.first <= v <= self.latest
    }

    pub open spec fn name_of(self, v: nat) -> Seq<char> {
        self.names[v - self.first]
    }
}

/// The table of a versioned type's variants, keyed by version number. The
/// versions form the range `first..=latest`; `latest` is the latest shape.
pub struct Registry {
    first: usize,
    latest: usize,
    names: Vec<String>,
}

impl View for Registry {
    type V = RegistryView;

    closed spec fn view(&self) -> RegistryView {
        RegistryView {
            first: self.first as nat,
            latest: self.latest as nat,
            names: self.names@.map_values(|s: String| s@),
        }
    }
}

impl Registry {
    pub open spec fn wf(&self) -> bool {
        &&& self@.first <= self@.latest <= usize::MAX
        &&& self@.names.len() == self@.latest - self@.first + 1
    }

    /// Whether `version` has a variant in this registry.
    pub fn contains(&self, version: usize) -> (r: bool)
        requires
            self.wf(),
        ensures
            r == self@.contains(version as nat),
    {
        self.first <= version && version <= self.latest
    }

    /// The smallest registered version.
    pub fn first_version(&self) -> (r: usize)
        ensures
            r == self@.first,
    {
        self.first
    }

    /// The version of the latest shape.
    pub fn latest_version(&self) -> (r: usize)
        ensures
            r == self@.latest,
    {
        self.latest
    }

    /// Whether `version` is the latest shape's version.
    pub fn is_latest(&self, version: usize) -> (r: bool)
        ensures
            r == (version as nat == self@.latest),
    {
        version == self.latest
    }

    /// The identifier of the variant registered under `version`.
    pub fn variant_name(&self, version: usize) -> (r: Option<String>)
        requires
            self.wf(),
        ensures
            self@.contains(version as nat) ==> r is Some && r->0@ == self@.name_of(version as nat),
            !self@.contains(version as nat) ==> r is None,
    {
        if self.first <= version && version <= self.latest {
            let s = self.names[version - self.first].clone();
            Some(s)
        } else {
            None
        }
    }

    /// Builds the registry of a versioned type from its variant declarations.
    pub fn build(decls: &Vec<VariantDecl>) -> (r: Result<Registry, ConfigurationError>)
        ensures
            r is Ok <==> well_declared(decls@),
            r matches Ok(reg) ==> {
                &&& reg.wf()
                &&& declares(decls@, reg@.first)
                &&& declares(decls@, reg@.latest)
                &&& forall|j: int|
                    0 <= j < decls@.len() ==> {
                        &&& #[trigger] reg@.contains(declared_version(decls@, j))
                        &&& reg@.name_of(declared_version(decls@, j)) == decls@[j].ident@
                    }
            },
            r matches Err(ConfigurationError::InvalidVersionIdent(i)) ==> {
                &&& i < decls@.len()
                &&& prefix_ok(decls@, i as int)
                &&& decl_version(decls@, i as int) is None
            },
            r matches Err(ConfigurationError::WrongArity(i)) ==> {
                &&& i < decls@.len()
                &&& prefix_ok(decls@, i as int)
                &&& decl_version(decls@, i as int) is Some
                &&& decls@[i as int].arity != 1
            },
            r matches Err(ConfigurationError::DuplicateVersion(i)) ==> {
                &&& i < decls@.len()
                &&& prefix_ok(decls@, i as int)
                &&& decl_ok(decls@, i as int)
                &&& exists|j: int| 0 <= j < i && declared_version(decls@, j) == declared_version(decls@, i as int)
            },
            r matches Err(ConfigurationError::Empty) <==> decls@.len() == 0,
            r matches Err(ConfigurationError::MissingSuccessor(v)) ==> {
                &&& prefix_ok(decls@, decls@.len() as int)
                &&& declares(decls@, v as nat)
                &&& exists|k: int| 0 <= k < decls@.len() && declared_version(decls@, k) > v
                &&& !declares(decls@, v as nat + 1)
            },
    {
        let versions = match declared_versions(decls) {
            Ok(vs) => vs,
            Err(e) => {
                proof {
                    match e {
                        ConfigurationError::InvalidVersionIdent(i) => {
                            assert(!decl_ok(decls@, i as int));
                        },
                        ConfigurationError::WrongArity(i) => {
                            assert(!decl_ok(decls@, i as int));
                        },
                        ConfigurationError::DuplicateVersion(i) => {
                            let j = choose|j: int|
                                0 <= j < i && declared_version(decls@, j) == declared_version(decls@, i as int);
                            assert(declared_version(decls@, j) == declared_version(decls@, i as int));
                        },
                        _ => {},
                    }
                }
                return Err(e);
            },
        };
        let n = decls.len();
        if n == 0 {
            return Err(ConfigurationError::Empty);
        }
        let (lo, hi) = version_bounds(&versions);
        let ghost lo_at = choose|j: int| 0 <= j < n && versions@[j] == lo;
        let ghost hi_at = choose|j: int| 0 <= j < n && versions@[j] == hi;
        // every version below the largest has its successor declared
        let mut i: usize = 0;
        while i < n
            invariant
                i <= n,
                n == decls@.len(),
                versions@.len() == n,
                prefix_ok(decls@, n as int),
                forall|j: int| 0 <= j < n ==> versions@[j] as nat == declared_version(decls@, j),
                0 <= hi_at < n,
                versions@[hi_at] == hi,
                forall|k: int| 0 <= k < n ==> lo <= #[trigger] versions@[k] <= hi,
                forall|k: int|
                    0 <= k < i && versions@[k] != hi ==> declares(decls@, declared_version(decls@, k) + 1),
            decreases n - i,
        {
            if versions[i] != hi {
                let want = versions[i] + 1;
                match find_version(&versions, want) {
                    Some(j) => {
                        assert(declared_version(decls@, j as int) == want);
                    },
                    None => {
                        proof {
                            assert(declares(decls@, versions@[i as int] as nat));
                            assert(declared_version(decls@, hi_at) > versions@[i as int]);
                            assert forall|w: int| 0 <= w < decls@.len() implies declared_version(decls@, w)
                                != want by {
                                assert(versions@[w] != want);
                            }
                        }
                        return Err(ConfigurationError::MissingSuccessor(versions[i]));
                    },
                }
            }
            i = i + 1;
        }
        proof {
            assert(successor_closed(decls@)) by {
                assert forall|j: int, k: int|
                    0 <= j < decls@.len() && 0 <= k < decls@.len() && declared_version(decls@, j) < declared_version(
                        decls@,
                        k,
                    ) implies declares(decls@, declared_version(decls@, j) + 1) by {
                    assert(versions@[k] <= hi);
                }
            }
            assert forall|k: nat| lo <= k <= hi implies declares(decls@, k) by {
                lemma_range_declared(decls@, lo as nat, hi as nat, lo_at, hi_at, k);
            }
        }
        let names = names_in_order(decls, &versions, lo, hi);
        let reg = Registry { first: lo, latest: hi, names };
        proof {
            assert(declares(decls@, lo as nat) && declares(decls@, hi as nat)) by {
                assert(declared_version(decls@, lo_at) == lo);
                assert(declared_version(decls@, hi_at) == hi);
            }
            assert forall|j: int| 0 <= j < decls@.len() implies {
                &&& #[trigger] reg@.contains(declared_version(decls@, j))
                &&& reg@.name_of(declared_version(decls@, j)) == decls@[j].ident@
            } by {
                assert(lo <= versions@[j] <= hi);
            }
        }
        Ok(reg)
    }
}

/// Reads the version number of each declaration in turn, stopping at the
/// first one that names none, carries other than one payload, or repeats an
/// earlier version.
fn declared_versions(decls: &Vec<VariantDecl>) -> (r: Result<Vec<usize>, ConfigurationError>)
    ensures
        r matches Ok(vs) ==> {
            &&& prefix_ok(decls@, decls@.len() as int)
            &&& vs@.len() == decls@.len()
            &&& forall|j: int| 0 <= j < decls@.len() ==> vs@[j] as nat == declared_version(decls@, j)
        },
        r matches Err(ConfigurationError::InvalidVersionIdent(i)) ==> {
            &&& i < decls@.len()
            &&& prefix_ok(decls@, i as int)
            &&& decl_version(decls@, i as int) is None
        },
        r matches Err(ConfigurationError::WrongArity(i)) ==> {
            &&& i < decls@.len()
            &&& prefix_ok(decls@, i as int)
            &&& decl_version(decls@, i as int) is Some
            &&& decls@[i as int].arity != 1
        },
        r matches Err(ConfigurationError::DuplicateVersion(i)) ==> {
            &&& i < decls@.len()
            &&& prefix_ok(decls@, i as int)
            &&& decl_ok(decls@, i as int)
            &&& exists|j: int| 0 <= j < i && declared_version(decls@, j) == declared_version(decls@, i as int)
        },
        r is Err ==> r matches Err(ConfigurationError::InvalidVersionIdent(_)) || r matches Err(
            ConfigurationError::WrongArity(_),
        ) || r matches Err(ConfigurationError::DuplicateVersion(_)),
{
    let n = decls.len();
    let mut versions: Vec<usize> = Vec::new();
    let mut i: usize = 0;
    while i < n
        invariant
            n == decls@.len(),
            i <= n,
            versions@.len() == i,
            prefix_ok(decls@, i as int),
            forall|j: int| 0 <= j < i ==> versions@[j] as nat == declared_version(decls@, j),
        decreases n - i,
    {
        let v = match parse_version_ident(decls[i].ident.as_str()) {
            None => {
                return Err(ConfigurationError::InvalidVersionIdent(i));
            },
            Some(v) => v,
        };
        if decls[i].arity != 1 {
            return Err(ConfigurationError::WrongArity(i));
        }
        match find_version(&versions, v) {
            Some(j) => {
                assert(declared_version(decls@, j as int) == declared_version(decls@, i as int));
                return Err(ConfigurationError::DuplicateVersion(i));
            },
            None => {},
        }
        versions.push(v);
        proof {
            assert forall|j: int, k: int| 0 <= j < k < i + 1 implies declared_version(decls@, j) != declared_version(
                decls@,
                k,
            ) by {
                if k == i {
                    assert(versions@[j] != v);
                }
            }
        }
        i = i + 1;
    }
    Ok(versions)
}

/// The position of `v` in `versions`, if it is there.
fn find_version(versions: &Vec<usize>, v: usize) -> (r: Option<usize>)
    ensures
        r matches Some(j) ==> j < versions@.len() && versions@[j as int] == v,
        r is None ==> forall|k: int| 0 <= k < versions@.len() ==> versions@[k] != v,
{
    let mut j: usize = 0;
    while j < versions.len()
        invariant
            j <= versions@.len(),
            forall|k: int| 0 <= k < j ==> versions@[k] != v,
        decreases versions@.len() - j,
    {
        if versions[j] == v {
            return Some(j);
        }
        j = j + 1;
    }
    None
}

/// The smallest and the largest of a non-empty list of versions.
fn version_bounds(versions: &Vec<usize>) -> (r: (usize, usize))
    requires
        versions@.len() > 0,
    ensures
        exists|j: int| 0 <= j < versions@.len() && versions@[j] == r.0,
        exists|j: int| 0 <= j < versions@.len() && versions@[j] == r.1,
        forall|k: int| 0 <= k < versions@.len() ==> r.0 <= #[trigger] versions@[k] <= r.1,
{
    let n = versions.len();
    let mut lo: usize = versions[0];
    let mut hi: usize = versions[0];
    let ghost mut lo_at: int = 0;
    let ghost mut hi_at: int = 0;
    let mut i: usize = 1;
    while i < n
        invariant
            1 <= i <= n,
            n == versions@.len(),
            0 <= lo_at < n,
            0 <= hi_at < n,
            versions@[lo_at] == lo,
            versions@[hi_at] == hi,
            forall|k: int| 0 <= k < i ==> lo <= #[trigger] versions@[k] <= hi,
        decreases n - i,
    {
        if versions[i] < lo {
            lo = versions[i];
            proof {
                lo_at = i as int;
            }
        }
        if versions[i] > hi {
            hi = versions[i];
            proof {
                hi_at = i as int;
            }
        }
        i = i + 1;
    }
    (lo, hi)
}

/// The identifiers of the versions `lo..=hi`, in version order.
fn names_in_order(decls: &Vec<VariantDecl>, versions: &Vec<usize>, lo: usize, hi: usize) -> (r:
    Vec<String>)
    requires
        lo <= hi,
        versions@.len() == decls@.len(),
        prefix_ok(decls@, decls@.len() as int),
        forall|j: int| 0 <= j < decls@.len() ==> versions@[j] as nat == declared_version(decls@, j),
        forall|v: nat| lo <= v <= hi ==> declares(decls@, v),
    ensures
        r@.len() == hi - lo + 1,
        forall|j: int|
            0 <= j < decls@.len() && lo <= versions@[j] <= hi ==> r@[versions@[j] - lo]@
                == decls@[j].ident@,
{
    let n = decls.len();
    let mut names: Vec<String> = Vec::new();
    let mut k: usize = lo;
    loop
        invariant_except_break
            names@.len() == k - lo,
            forall|j: int|
                0 <= j < n && lo <= versions@[j] < k ==> names@[versions@[j] - lo]@
                    == decls@[j].ident@,
        invariant
            lo <= k <= hi,
            n == decls@.len(),
            versions@.len() == n,
            prefix_ok(decls@, n as int),
            forall|j: int| 0 <= j < n ==> versions@[j] as nat == declared_version(decls@, j),
            forall|v: nat| lo <= v <= hi ==> declares(decls@, v),
        ensures
            names@.len() == hi - lo + 1,
            forall|j: int|
                0 <= j < n && lo <= versions@[j] <= hi ==> names@[versions@[j] - lo]@
                    == decls@[j].ident@,
        decreases hi - k,
    {
        let j = match find_version(versions, k) {
            Some(j) => j,
            None => {
                // every version in lo..=hi is declared, so the search finds it
                proof {
                    assert(declares(decls@, k as nat));
                    let w = choose|w: int| 0 <= w < decls@.len() && declared_version(decls@, w) == k;
                    assert(versions@[w] == k);
                    assert(false);
                }
                return names;
            },
        };
        let ghost old_names = names@;
        names.push(decls[j].ident.clone());
        proof {
            assert forall|jj: int|
                0 <= jj < n && lo <= versions@[jj] < k + 1 implies names@[versions@[jj] - lo]@
                == decls@[jj].ident@ by {
                if versions@[jj] == k {
                    if jj < j {
                        assert(declared_version(decls@, jj) != declared_version(decls@, j as int));
                    } else if jj > j {
                        assert(declared_version(decls@, j as int) != declared_version(decls@, jj));
                    }
                } else {
                    assert(names@[versions@[jj] - lo] == old_names[versions@[jj] - lo]);
                }
            }
        }
        if k == hi {
            break;
        }
        k = k + 1;
    }
    names
}

/// Between the smallest and the largest declared version, every version is
/// declared when each declared version below another one has its successor.
proof fn lemma_range_declared(
    decls: Seq<VariantDecl>,
    lo: nat,
    hi: nat,
    lo_at: int,
    hi_at: int,
    k: nat,
)
    requires
        successor_closed(decls),
        0 <= lo_at < decls.len(),
        0 <= hi_at < decls.len(),
        declared_version(decls, lo_at) == lo,
        declared_version(decls, hi_at) == hi,
        lo <= k <= hi,
    ensures
        declares(decls, k),
    decreases k - lo,
{
    if k == lo {
        assert(declared_version(decls, lo_at) == lo);
    } else {
        lemma_range_declared(decls, lo, hi, lo_at, hi_at, (k - 1) as nat);
        let w = choose|w: int| 0 <= w < decls.len() && declared_version(decls, w) == k - 1;
        assert(declared_version(decls, w) < declared_version(decls, hi_at));
    }
}

} // verus!
