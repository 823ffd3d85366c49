//! The pattern catalog: names and globs of development artifacts, each with a
//! description of what it is.
use vstd::prelude::*;
use vstd::string::*;
use crate::text::str_eq;

verus! {

/// The model of a catalog: `(key, description)` pairs in iteration order.
pub type CatalogView = Seq<(Seq<char>, Seq<char>)>;

/// No two entries share a key.
pub open spec fn keys_distinct(cat: CatalogView) -> bool {
    forall|i: int, j: int| 0 <= i < cat.len() && 0 <= j < cat.len() && i != j ==> cat[i].0 != cat[j].0
}

/// The first index at or after `i` whose key is `key`, or -1.
pub open spec fn index_of_key_from(cat: CatalogView, key: Seq<char>, i: int) -> int
    decreases cat.len() - i,
{
    if i < 0 || i >= cat.len() {
        -1
    } else if cat[i].0 == key {
        i
    } else {
        index_of_key_from(cat, key, i + 1)
    }
}

/// The first index whose key is `key`, or -1.
pub open spec fn index_of_key(cat: CatalogView, key: Seq<char>) -> int {
    index_of_key_from(cat, key, 0)
}

/// The description stored under exactly `key`.
pub open spec fn lookup(cat: CatalogView, key: Seq<char>) -> Option<Seq<char>> {
    let i = index_of_key(cat, key);
    if i >= 0 { Some(cat[i].1) } else { None }
}

pub proof fn lemma_index_of_key_from(cat: CatalogView, key: Seq<char>, i: int)
    requires
        0 <= i <= cat.len(),
    ensures
        index_of_key_from(cat, key, i) == -1 || (i <= index_of_key_from(cat, key, i) < cat.len()
            && cat[index_of_key_from(cat, key, i)].0 == key),
        forall|j: int| i <= j < cat.len() && (index_of_key_from(cat, key, i) == -1 || j < index_of_key_from(cat, key, i))
            ==> cat[j].0 != key,
    decreases cat.len() - i,
{
    if i < cat.len() {
        lemma_index_of_key_from(cat, key, i + 1);
    }
}

/// Catalog entries for JavaScript and Node.js.
pub open spec fn javascript_patterns() -> CatalogView {
    seq![
        ("node_modules"@, "Node.js dependencies"@),
        ("pnpm-lock.yaml"@, "pnpm lock file"@),
        (".yarn"@, "Yarn cache directory"@),
        (".parcel-cache"@, "Parcel bundler cache"@),
        (".next"@, "Next.js build artifacts"@),
        (".turbo"@, "Turborepo build artifacts"@),
        (".svelte-kit"@, "SvelteKit build artifacts"@),
        (".vite"@, "Vite cache directory"@),
        ("dist"@, "Distribution files"@),
        ("coverage"@, "Test coverage reports"@),
        ("node_modules/.cache"@, "npm/yarn/pnpm internal cache"@)
    ]
}

/// Catalog entries for Rust and Python.
pub open spec fn rust_python_patterns() -> CatalogView {
    seq![
        ("target"@, "Rust build artifacts"@),
        ("debug"@, "Rust debug output"@),
        ("release"@, "Rust release output"@),
        ("deps"@, "Rust/Elixir dependencies"@),
        ("__pycache__"@, "Python bytecode cache"@),
        (".pytest_cache"@, "Pytest cache"@),
        (".mypy_cache"@, "MyPy static analysis cache"@),
        (".ruff_cache"@, "Ruff linter cache"@),
        ("venv"@, "Python virtual environment"@),
        (".venv"@, "Python virtual environment"@),
        ("env"@, "Python virtual environment"@),
        ("*.pyc"@, "Compiled Python files"@),
        ("*.pyo"@, "Optimized Python files"@)
    ]
}

/// Catalog entries for Elixir, JVM, C/C++ and Xcode.
pub open spec fn build_tools_patterns() -> CatalogView {
    seq![
        ("_build"@, "Elixir build artifacts"@),
        ("build"@, "Build output directory"@),
        (".gradle"@, "Gradle build cache"@),
        ("out"@, "Output directory"@),
        ("cmake-build-debug"@, "CMake debug build artifacts"@),
        ("cmake-build-release"@, "CMake release build artifacts"@),
        ("build-*"@, "Wildcard build output directories"@),
        ("DerivedData"@, "Xcode derived data"@),
        (".DS_Store"@, "macOS metadata"@)
    ]
}

/// Catalog entries for editors, tool caches and stray files.
pub open spec fn editors_misc_patterns() -> CatalogView {
    seq![
        (".vscode"@, "VS Code configuration"@),
        (".idea"@, "JetBrains IDE configuration"@),
        (".cache"@, "Generic build cache"@),
        (".scannerwork"@, "SonarQube scanner cache"@),
        ("*.log"@, "Log files"@),
        ("*.tmp"@, "Temporary files"@),
        ("*.bak"@, "Backup files"@),
        ("*.old"@, "Old backup files"@),
        ("*.swp"@, "Vim swap files"@),
        ("*.swo"@, "Vim swap files"@),
        (".env"@, "Environment variable file"@),
        ("docker-compose.override.yml"@, "Docker override config"@),
        ("*.db"@, "Database files"@),
        ("*.sqlite3"@, "SQLite database files"@)
    ]
}

/// The catalog that the scanner uses unless told otherwise.
pub open spec fn cleanable_patterns_view() -> CatalogView {
    javascript_patterns() + rust_python_patterns() + build_tools_patterns() + editors_misc_patterns()
}

/// One catalog entry: an exact name or a glob (a key holding `*`), and what it is.
pub struct CleanablePattern {
    pub key: String,
    pub description: String,
}

/// An ordered, read-only-once-built table of cleanable patterns.
pub struct Catalog {
    patterns: Vec<CleanablePattern>,
}

impl View for Catalog {
    type V = CatalogView;

    closed spec fn view(&self) -> CatalogView {
        self.patterns@.map_values(|p: CleanablePattern| (p.key@, p.description@))
    }
}

impl Catalog {
    /// An empty catalog.
    pub fn new() -> (r: Catalog)
        ensures
            r@ == Seq::<(Seq<char>, Seq<char>)>::empty(),
    {
        let r = Catalog { patterns: Vec::new() };
        assert(r@ =~= Seq::<(Seq<char>, Seq<char>)>::empty());
        r
    }

    /// The number of entries.
    pub fn len(&self) -> (r: usize)
        ensures
            r == self@.len(),
    {
        self.patterns.len()
    }

    /// The key of entry `i`.
    pub fn key(&self, i: usize) -> (r: &str)
        requires
            i < self@.len(),
        ensures
            r@ == self@[i as int].0,
    {
        self.patterns[i].key.as_str()
    }

    /// The description of entry `i`.
    pub fn description(&self, i: usize) -> (r: &str)
        requires
            i < self@.len(),
        ensures
            r@ == self@[i as int].1,
    {
        self.patterns[i].description.as_str()
    }

    fn push_pattern(&mut self, key: &str, description: &str)
        ensures
            final(self)@ == old(self)@.push((key@, description@)),
    {
        self.patterns.push(CleanablePattern { key: String::from_str(key), description: String::from_str(description) });
        assert(final(self)@ =~= old(self)@.push((key@, description@)));
    }

    /// The position of the entry whose key is `key`, if any.
    pub fn position(&self, key: &str) -> (r: Option<usize>)
        ensures
            match r {
                Some(i) => i as int == index_of_key(self@, key@),
                None => index_of_key(self@, key@) == -1,
            },
    {
        let mut i: usize = 0;
        while i < self.patterns.len()
            invariant
                i <= self@.len(),
                self@.len() == self.patterns@.len(),
                index_of_key_from(self@, key@, i as int) == index_of_key(self@, key@),
            decreases self.patterns.len() - i,
        {
            if str_eq(self.patterns[i].key.as_str(), key) {
                return Some(i);
            }
            i = i + 1;
        }
        None
    }

    /// Stores `description` under `key`: an entry with that key keeps its place and
    /// takes the new description; otherwise the pair goes at the end.
    pub fn insert(&mut self, key: &str, description: &str)
        ensures
            index_of_key(old(self)@, key@) >= 0 ==> final(self)@ == old(self)@.update(
                index_of_key(old(self)@, key@),
                (key@, description@),
            ),
            index_of_key(old(self)@, key@) < 0 ==> final(self)@ == old(self)@.push((key@, description@)),
            keys_distinct(old(self)@) ==> keys_distinct(final(self)@),
    {
        proof {
            lemma_index_of_key_from(self@, key@, 0);
        }
        match self.position(key) {
            Some(i) => {
                self.patterns.set(i, CleanablePattern { key: String::from_str(key), description: String::from_str(description) });
                assert(final(self)@ =~= old(self)@.update(i as int, (key@, description@)));
            },
            None => {
                self.push_pattern(key, description);
            },
        }
    }

    /// The description stored under exactly `key`.
    pub fn get(&self, key: &str) -> (r: Option<&str>)
        ensures
            match r {
                Some(d) => lookup(self@, key@) == Some(d@),
                None => lookup(self@, key@) is None,
            },
    {
        proof {
            lemma_index_of_key_from(self@, key@, 0);
        }
        match self.position(key) {
            Some(i) => Some(self.patterns[i].description.as_str()),
            None => None,
        }
    }

    fn push_javascript(&mut self)
        ensures
            final(self)@ == old(self)@ + javascript_patterns(),
    {
        self.push_pattern("node_modules", "Node.js dependencies");
        self.push_pattern("pnpm-lock.yaml", "pnpm lock file");
        self.push_pattern(".yarn", "Yarn cache directory");
        self.push_pattern(".parcel-cache", "Parcel bundler cache");
        self.push_pattern(".next", "Next.js build artifacts");
        self.push_pattern(".turbo", "Turborepo build artifacts");
        self.push_pattern(".svelte-kit", "SvelteKit build artifacts");
        self.push_pattern(".vite", "Vite cache directory");
        self.push_pattern("dist", "Distribution files");
        self.push_pattern("coverage", "Test coverage reports");
        self.push_pattern("node_modules/.cache", "npm/yarn/pnpm internal cache");
        assert(final(self)@ =~= old(self)@ + javascript_patterns());
    }

    fn push_rust_python(&mut self)
        ensures
            final(self)@ == old(self)@ + rust_python_patterns(),
    {
        self.push_pattern("target", "Rust build artifacts");
        self.push_pattern("debug", "Rust debug output");
        self.push_pattern("release", "Rust release output");
        self.push_pattern("deps", "Rust/Elixir dependencies");
        self.push_pattern("__pycache__", "Python bytecode cache");
        self.push_pattern(".pytest_cache", "Pytest cache");
        self.push_pattern(".mypy_cache", "MyPy static analysis cache");
        self.push_pattern(".ruff_cache", "Ruff linter cache");
        self.push_pattern("venv", "Python virtual environment");
        self.push_pattern(".venv", "Python virtual environment");
        self.push_pattern("env", "Python virtual environment");
        self.push_pattern("*.pyc", "Compiled Python files");
        self.push_pattern("*.pyo", "Optimized Python files");
        assert(final(self)@ =~= old(self)@ + rust_python_patterns());
    }

    fn push_build_tools(&mut self)
        ensures
            final(self)@ == old(self)@ + build_tools_patterns(),
    {
        self.push_pattern("_build", "Elixir build artifacts");
        self.push_pattern("build", "Build output directory");
        self.push_pattern(".gradle", "Gradle build cache");
        self.push_pattern("out", "Output directory");
        self.push_pattern("cmake-build-debug", "CMake debug build artifacts");
        self.push_pattern("cmake-build-release", "CMake release build artifacts");
        self.push_pattern("build-*", "Wildcard build output directories");
        self.push_pattern("DerivedData", "Xcode derived data");
        self.push_pattern(".DS_Store", "macOS metadata");
        assert(final(self)@ =~= old(self)@ + build_tools_patterns());
    }

    fn push_editors_misc(&mut self)
        ensures
            final(self)@ == old(self)@ + editors_misc_patterns(),
    {
        self.push_pattern(".vscode", "VS Code configuration");
        self.push_pattern(".idea", "JetBrains IDE configuration");
        self.push_pattern(".cache", "Generic build cache");
        self.push_pattern(".scannerwork", "SonarQube scanner cache");
        self.push_pattern("*.log", "Log files");
        self.push_pattern("*.tmp", "Temporary files");
        self.push_pattern("*.bak", "Backup files");
        self.push_pattern("*.old", "Old backup files");
        self.push_pattern("*.swp", "Vim swap files");
        self.push_pattern("*.swo", "Vim swap files");
        self.push_pattern(".env", "Environment variable file");
        self.push_pattern("docker-compose.override.yml", "Docker override config");
        self.push_pattern("*.db", "Database files");
        self.push_pattern("*.sqlite3", "SQLite database files");
        assert(final(self)@ =~= old(self)@ + editors_misc_patterns());
    }

    /// The built-in catalog of development artifacts, in this order.
    pub fn cleanable_patterns() -> (r: Catalog)
        ensures
            r@ == cleanable_patterns_view(),
    {
        let mut r = Catalog::new();
        r.push_javascript();
        r.push_rust_python();
        r.push_build_tools();
        r.push_editors_misc();
        assert(r@ =~= cleanable_patterns_view());
        r
    }
}

} // verus!
