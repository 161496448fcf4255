//! The packages a session starts from.
//!
//! A front end reads the installed packages from the system's package
//! database and hands over, for each, the few facts that decide whether it is
//! offered: its name, whether it was installed on request, and how many
//! installed packages require it.

use crate::entry::{names, Entry};
use vstd::prelude::*;

verus! {

/// What is known of one installed package.
#[derive(Debug)]
pub struct Package {
    name: String,
    explicit: bool,
    required_by: usize,
}

/// The facts about a package, as plain values.
pub struct PackageFacts {
    pub name: Seq<char>,
    /// Installed on request, not as a dependency.
    pub explicit: bool,
    /// The number of installed packages that require it.
    pub required_by: nat,
}

impl PackageFacts {
    /// A root package: installed on request, and required by no other.
    pub open spec fn is_root(self) -> bool {
        self.explicit && self.required_by == 0
    }
}

impl View for Package {
    type V = PackageFacts;

    closed spec fn view(&self) -> PackageFacts {
        PackageFacts {
            name: self.name@,
            explicit: self.explicit,
            required_by: self.required_by as nat,
        }
    }
}

impl Package {
    /// The package of the given name. `explicit` says whether it was installed
    /// on request, `required_by` how many installed packages require it.
    pub fn new(name: String, explicit: bool, required_by: usize) -> (package: Package)
        ensures
            package@ == (PackageFacts { name: name@, explicit, required_by: required_by as nat }),
    {
        Package { name, explicit, required_by }
    }

    /// Whether the package was installed on request and no other requires it.
    pub fn is_root(&self) -> (root: bool)
        ensures
            root == self@.is_root(),
    {
        self.explicit && self.required_by == 0
    }
}

/// The facts about each package of a list.
pub open spec fn facts(packages: Seq<Package>) -> Seq<PackageFacts> {
    Seq::new(packages.len(), |i: int| packages[i]@)
}

/// The names of the root packages among `packages`, in their order.
pub open spec fn root_names(packages: Seq<PackageFacts>) -> Seq<Seq<char>> {
    packages.filter(|p: PackageFacts| p.is_root()).map_values(|p: PackageFacts| p.name)
}

/// The installed packages.
#[derive(Debug)]
pub struct ArchPackages {
    packages: Vec<Package>,
}

impl View for ArchPackages {
    type V = Seq<PackageFacts>;

    closed spec fn view(&self) -> Seq<PackageFacts> {
        facts(self.packages@)
    }
}

impl ArchPackages {
    /// The installed packages, in the order of the database.
    pub fn new(packages: Vec<Package>) -> (all: ArchPackages)
        ensures
            all@ == facts(packages@),
    {
        ArchPackages { packages }
    }

    /// The root packages as entries: those installed on request that no other
    /// package requires, in the order of the database.
    pub fn get_root_packages(&self) -> (roots: Vec<Entry>)
        ensures
            names(roots@) == root_names(self@),
    {
        let mut roots: Vec<Entry> = Vec::new();
        let mut at: usize = 0;
        proof {
            assert(self@.take(0) =~= Seq::empty());
            Seq::<PackageFacts>::empty().lemma_filter_len(|p: PackageFacts| p.is_root());
            assert(names(roots@) =~= root_names(self@.take(0)));
        }
        while at < self.packages.len()
            invariant
                at <= self.packages.len(),
                self@ == facts(self.packages@),
                names(roots@) == root_names(self@.take(at as int)),
            decreases self.packages.len() - at,
        {
            let ghost before = roots@;
            let ghost front = self@.take(at as int);
            let package = &self.packages[at];
            proof {
                assert(self@.take(at + 1) =~= front.push(package@));
                front.lemma_filter_push(package@, |p: PackageFacts| p.is_root());
                front.filter(|p: PackageFacts| p.is_root()).lemma_push_map_commute(
                    |p: PackageFacts| p.name,
                    package@,
                );
            }
            if package.is_root() {
                roots.push(Entry::new(package.name.clone()));
                assert(names(roots@) =~= names(before).push(package@.name));
            }
            at = at + 1;
        }
        assert(self@.take(self.packages.len() as int) =~= self@);
        roots
    }
}

} // verus!
