//! Records that describe a package and a packaged archive: their names,
//! versions, build settings, dependencies and the functions they provide.
use vstd::prelude::*;
use std::collections::HashMap;

verus! {

/// Where a dependency comes from.
pub enum Dependency {
    Git(GitDependency),
}

/// A dependency fetched from a git repository, optionally pinned to a
/// branch, a tag or a commit.
pub struct GitDependency {
    url: String,
    branch: Option<String>,
    tag: Option<String>,
    commit: Option<String>,
}

impl GitDependency {
    pub closed spec fn spec_url(&self) -> Seq<char> {
        self.url@
    }

    pub closed spec fn spec_branch(&self) -> Option<String> {
        self.branch
    }

    pub closed spec fn spec_tag(&self) -> Option<String> {
        self.tag
    }

    pub closed spec fn spec_commit(&self) -> Option<String> {
        self.commit
    }

    /// A dependency on the repository at `url`.
    pub fn new(url: String, branch: Option<String>, tag: Option<String>, commit: Option<String>) -> (r:
        GitDependency)
        ensures
            r.spec_url() == url@,
            r.spec_branch() == branch,
            r.spec_tag() == tag,
            r.spec_commit() == commit,
    {
        GitDependency { url, branch, tag, commit }
    }

    /// The repository's address.
    pub fn url(&self) -> (r: &str)
        ensures
            r@ == self.spec_url(),
    {
        self.url.as_str()
    }

    /// The branch the dependency is pinned to, if any.
    pub fn branch(&self) -> (r: &Option<String>)
        ensures
            *r == self.spec_branch(),
    {
        &self.branch
    }

    /// The tag the dependency is pinned to, if any.
    pub fn tag(&self) -> (r: &Option<String>)
        ensures
            *r == self.spec_tag(),
    {
        &self.tag
    }

    /// The commit the dependency is pinned to, if any.
    pub fn commit(&self) -> (r: &Option<String>)
        ensures
            *r == self.spec_commit(),
    {
        &self.commit
    }
}

/// A function that a module exports: its name, argument types and result type.
pub struct Function {
    name: String,
    args: Vec<String>,
    return_type: String,
}

impl Function {
    pub closed spec fn spec_name(&self) -> Seq<char> {
        self.name@
    }

    pub closed spec fn spec_return_type(&self) -> Seq<char> {
        self.return_type@
    }

    /// The argument types, in order.
    pub closed spec fn spec_args(&self) -> Seq<String> {
        self.args@
    }

    pub fn new(name: String, args: Vec<String>, return_type: String) -> (r: Function)
        ensures
            r.spec_name() == name@,
            r.spec_return_type() == return_type@,
            r.spec_args() == args@,
    {
        Function { name, args, return_type }
    }

    /// The function's name.
    pub fn name(&self) -> (r: &str)
        ensures
            r@ == self.spec_name(),
    {
        self.name.as_str()
    }

    /// The function's result type.
    pub fn return_type(&self) -> (r: &str)
        ensures
            r@ == self.spec_return_type(),
    {
        self.return_type.as_str()
    }

    /// The argument types, in order.
    pub fn args(&self) -> (r: &[String])
        ensures
            r@ == self.spec_args(),
    {
        self.args.as_slice()
    }
}

/// A compiled module at `path` and the functions it exports.
pub struct Module {
    path: String,
    functions: Vec<Function>,
}

impl Module {
    pub closed spec fn spec_path(&self) -> Seq<char> {
        self.path@
    }

    /// The exported functions, in order.
    pub closed spec fn spec_functions(&self) -> Seq<Function> {
        self.functions@
    }

    pub fn new(path: String, functions: Vec<Function>) -> (r: Module)
        ensures
            r.spec_path() == path@,
            r.spec_functions() == functions@,
    {
        Module { path, functions }
    }

    /// Where the module lies.
    pub fn path(&self) -> (r: &str)
        ensures
            r@ == self.spec_path(),
    {
        self.path.as_str()
    }

    /// The exported functions, in order.
    pub fn functions(&self) -> (r: &[Function])
        ensures
            r@ == self.spec_functions(),
    {
        self.functions.as_slice()
    }
}

/// The compiler and the flags a package is built with.
pub struct BuildSettings {
    compiler: String,
    flags: Vec<String>,
}

impl BuildSettings {
    pub closed spec fn spec_compiler(&self) -> Seq<char> {
        self.compiler@
    }

    /// The compiler flags, in order.
    pub closed spec fn spec_flags(&self) -> Seq<String> {
        self.flags@
    }

    pub fn new(compiler: String, flags: Vec<String>) -> (r: BuildSettings)
        ensures
            r.spec_compiler() == compiler@,
            r.spec_flags() == flags@,
    {
        BuildSettings { compiler, flags }
    }

    /// The compiler's name.
    pub fn compiler(&self) -> (r: &str)
        ensures
            r@ == self.spec_compiler(),
    {
        self.compiler.as_str()
    }

    /// The compiler flags, in order.
    pub fn flags(&self) -> (r: &[String])
        ensures
            r@ == self.spec_flags(),
    {
        self.flags.as_slice()
    }
}

/// The functions a library package provides.
struct Library {
    provides: Vec<Function>,
}

/// A package: name, version, build settings, named dependencies and, for a
/// library, the functions it provides.
pub struct Package {
    name: String,
    version: String,
    library: Option<Library>,
    build: BuildSettings,
    dependencies: HashMap<String, Dependency>,
}

impl Package {
    pub closed spec fn spec_name(&self) -> Seq<char> {
        self.name@
    }

    pub closed spec fn spec_version(&self) -> Seq<char> {
        self.version@
    }

    /// The functions provided, in order, for a library; `None` for a binary.
    pub closed spec fn spec_provides(&self) -> Option<Seq<Function>> {
        match self.library {
            Some(l) => Some(l.provides@),
            None => None,
        }
    }

    pub closed spec fn spec_build(&self) -> BuildSettings {
        self.build
    }

    pub closed spec fn spec_dependencies(&self) -> HashMap<String, Dependency> {
        self.dependencies
    }

    /// An executable package.
    pub fn new_binary(
        name: String,
        version: String,
        build: BuildSettings,
        dependencies: HashMap<String, Dependency>,
    ) -> (r: Package)
        ensures
            r.spec_name() == name@,
            r.spec_version() == version@,
            r.spec_provides() == None::<Seq<Function>>,
            r.spec_build() == build,
            r.spec_dependencies() == dependencies,
    {
        Package { name, version, library: None, build, dependencies }
    }

    /// A library package that provides `provides`.
    pub fn new_library(
        name: String,
        version: String,
        provides: Vec<Function>,
        build: BuildSettings,
        dependencies: HashMap<String, Dependency>,
    ) -> (r: Package)
        ensures
            r.spec_name() == name@,
            r.spec_version() == version@,
            r.spec_provides() == Some(provides@),
            r.spec_build() == build,
            r.spec_dependencies() == dependencies,
    {
        Package { name, version, library: Some(Library { provides }), build, dependencies }
    }

    /// The package's name.
    pub fn name(&self) -> (r: &str)
        ensures
            r@ == self.spec_name(),
    {
        self.name.as_str()
    }

    /// The package's version.
    pub fn version(&self) -> (r: &str)
        ensures
            r@ == self.spec_version(),
    {
        self.version.as_str()
    }

    /// Whether the package is a library.
    pub fn is_library(&self) -> (r: bool)
        ensures
            r == self.spec_provides() is Some,
    {
        self.library.is_some()
    }

    /// The functions provided, in order, for a library.
    pub fn provides(&self) -> (r: Option<&[Function]>)
        ensures
            match self.spec_provides() {
                Some(p) => r matches Some(s) && s@ == p,
                None => r is None,
            },
    {
        match &self.library {
            Some(l) => Some(l.provides.as_slice()),
            None => None,
        }
    }

    /// The build settings.
    pub fn build(&self) -> (r: &BuildSettings)
        ensures
            *r == self.spec_build(),
    {
        &self.build
    }

    /// The dependencies, by name.
    pub fn dependencies(&self) -> (r: &HashMap<String, Dependency>)
        ensures
            *r == self.spec_dependencies(),
    {
        &self.dependencies
    }
}

/// An executable archive: its entry function and the module that holds it.
struct BinaryPackage {
    main_function: String,
    path: String,
}

/// A library archive: the functions it provides.
struct LibraryPackage {
    provides: Vec<Function>,
}

/// What an archive holds.
enum PackageType {
    Binary(BinaryPackage),
    Library(LibraryPackage),
}

/// The description of a packaged archive.
pub struct WarPackage {
    name: String,
    version: String,
    package: PackageType,
}

impl WarPackage {
    pub closed spec fn spec_name(&self) -> Seq<char> {
        self.name@
    }

    pub closed spec fn spec_version(&self) -> Seq<char> {
        self.version@
    }

    /// The entry function's name, for an executable archive.
    pub closed spec fn spec_main_function(&self) -> Option<Seq<char>> {
        match self.package {
            PackageType::Binary(b) => Some(b.main_function@),
            PackageType::Library(_) => None,
        }
    }

    /// The path of the module with the entry function, for an executable archive.
    pub closed spec fn spec_path(&self) -> Option<Seq<char>> {
        match self.package {
            PackageType::Binary(b) => Some(b.path@),
            PackageType::Library(_) => None,
        }
    }

    /// The functions provided, in order, for a library archive.
    pub closed spec fn spec_provides(&self) -> Option<Seq<Function>> {
        match self.package {
            PackageType::Binary(_) => None,
            PackageType::Library(l) => Some(l.provides@),
        }
    }

    /// An archive is exactly one of executable, with both an entry function
    /// and a path, or library, with the functions it provides.
    pub proof fn lemma_one_kind(&self)
        ensures
            self.spec_main_function() is Some <==> self.spec_path() is Some,
            self.spec_main_function() is Some <==> !(self.spec_provides() is Some),
    {
    }

    /// An executable archive whose entry is `main_function` in the module at `path`.
    pub fn new_binary(name: String, version: String, main_function: String, path: String) -> (r:
        WarPackage)
        ensures
            r.spec_name() == name@,
            r.spec_version() == version@,
            r.spec_main_function() == Some(main_function@),
            r.spec_path() == Some(path@),
            r.spec_provides() == None::<Seq<Function>>,
    {
        WarPackage {
            name,
            version,
            package: PackageType::Binary(BinaryPackage { main_function, path }),
        }
    }

    /// A library archive that provides `provides`.
    pub fn new_library(name: String, version: String, provides: Vec<Function>) -> (r: WarPackage)
        ensures
            r.spec_name() == name@,
            r.spec_version() == version@,
            r.spec_main_function() == None::<Seq<char>>,
            r.spec_path() == None::<Seq<char>>,
            r.spec_provides() == Some(provides@),
    {
        WarPackage { name, version, package: PackageType::Library(LibraryPackage { provides }) }
    }

    /// Whether the archive is executable; exactly when it is no library.
    pub fn is_binary(&self) -> (r: bool)
        ensures
            r == self.spec_main_function() is Some,
            r == self.spec_path() is Some,
            r == !(self.spec_provides() is Some),
    {
        match &self.package {
            PackageType::Binary(_) => true,
            _ => false,
        }
    }

    /// Whether the archive is a library; exactly when it is not executable.
    pub fn is_library(&self) -> (r: bool)
        ensures
            r == self.spec_provides() is Some,
            r == !(self.spec_main_function() is Some),
            r == !(self.spec_path() is Some),
    {
        match &self.package {
            PackageType::Library(_) => true,
            _ => false,
        }
    }

    /// The entry function's name, for an executable archive.
    pub fn get_main_function(&self) -> (r: Option<&str>)
        ensures
            r is Some == !(self.spec_provides() is Some),
            match self.spec_main_function() {
                Some(f) => r matches Some(s) && s@ == f,
                None => r is None,
            },
    {
        match &self.package {
            PackageType::Binary(bin) => Some(bin.main_function.as_str()),
            _ => None,
        }
    }

    /// The path of the module with the entry function, for an executable archive.
    pub fn get_path(&self) -> (r: Option<&str>)
        ensures
            r is Some == self.spec_main_function() is Some,
            r is Some == !(self.spec_provides() is Some),
            match self.spec_path() {
                Some(p) => r matches Some(s) && s@ == p,
                None => r is None,
            },
    {
        match &self.package {
            PackageType::Binary(bin) => Some(bin.path.as_str()),
            _ => None,
        }
    }

    /// The functions provided, in order, for a library archive.
    pub fn provides(&self) -> (r: Option<&[Function]>)
        ensures
            match self.spec_provides() {
                Some(p) => r matches Some(s) && s@ == p,
                None => r is None,
            },
    {
        match &self.package {
            PackageType::Library(l) => Some(l.provides.as_slice()),
            _ => None,
        }
    }

    /// The archive's name.
    pub fn name(&self) -> (r: &str)
        ensures
            r@ == self.spec_name(),
    {
        self.name.as_str()
    }

    /// The archive's version.
    pub fn version(&self) -> (r: &str)
        ensures
            r@ == self.spec_version(),
    {
        self.version.as_str()
    }
}

} // verus!
