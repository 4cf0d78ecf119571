//! A Python virtual environment and its layout.
//!
//! Querying an interpreter and walking the filesystem are input/output and
//! live with the caller; this module holds the environment's layout, the
//! `pyvenv.cfg` grammar, and the decision which environment variables
//! designate the active environment.

use vstd::prelude::*;

use crate::scan::lemma_line_end_bounds;
use crate::scan::lemma_line_interior;
use crate::scan::slice_line_end;
use crate::scan::slice_space_run_len;
use crate::scan::space_run_len;

verus! {

/// A queried Python interpreter: the facts about one interpreter that the
/// virtual-environment layer reads, as reported by an external probe.
#[derive(Debug, PartialEq, Eq)]
pub struct Interpreter {
    /// The interpreter binary, as reported by `sys.executable`.
    pub sys_executable: String,
    /// The `purelib` directory (`site-packages`) of its scheme.
    pub purelib: String,
    /// The `scripts` directory (`bin`) of its scheme.
    pub scripts: String,
    /// The base prefix of the installation the interpreter belongs to.
    pub base_prefix: String,
}

impl Interpreter {
    /// This interpreter, re-rooted to serve the virtual environment at
    /// `venv`.
    pub fn with_venv_root(self, venv: String) -> (r: Self)
        ensures
            r.base_prefix == venv,
            r.sys_executable == self.sys_executable,
            r.purelib == self.purelib,
            r.scripts == self.scripts,
    {
        Interpreter {
            sys_executable: self.sys_executable,
            purelib: self.purelib,
            scripts: self.scripts,
            base_prefix: venv,
        }
    }
}

/// A Python executable and its associated platform markers.
#[derive(Debug, PartialEq, Eq)]
pub struct Virtualenv {
    root: String,
    interpreter: Interpreter,
}

impl Virtualenv {
    /// The environment's root directory.
    pub closed spec fn root_spec(&self) -> String {
        self.root
    }

    /// The environment's interpreter.
    pub closed spec fn interpreter_spec(&self) -> Interpreter {
        self.interpreter
    }

    /// Create the virtual environment a queried interpreter reports:
    /// rooted at the interpreter's own base prefix. The probe that runs the
    /// interpreter lives with the caller.
    pub fn from_python(interpreter: Interpreter) -> (r: Self)
        ensures
            r.root_spec() == interpreter.base_prefix,
            r.interpreter_spec() == interpreter,
    {
        let root = interpreter.base_prefix.clone();
        Virtualenv { root, interpreter }
    }

    /// Create a virtual environment rooted at `venv`, served by the given
    /// interpreter.
    pub fn from_interpreter(interpreter: Interpreter, venv: &str) -> (r: Self)
        ensures
            r.root_spec()@ == venv@,
            r.interpreter_spec().base_prefix@ == venv@,
            r.interpreter_spec().sys_executable == interpreter.sys_executable,
            r.interpreter_spec().purelib == interpreter.purelib,
            r.interpreter_spec().scripts == interpreter.scripts,
    {
        Virtualenv { interpreter: interpreter.with_venv_root(venv.to_owned()), root: venv.to_owned() }
    }

    /// Returns the location of the environment's root.
    pub fn root(&self) -> (r: &String)
        ensures
            r == self.root_spec(),
    {
        &self.root
    }

    /// Return the interpreter for this virtual environment.
    pub fn interpreter(&self) -> (r: &Interpreter)
        ensures
            r == self.interpreter_spec(),
    {
        &self.interpreter
    }

    /// Return the configuration flags recorded in the environment's
    /// `pyvenv.cfg`, whose text the caller has read.
    pub fn cfg(&self, text: &[u8]) -> (r: PyVenvConfiguration)
        ensures
            r.virtualenv == cfg_sets_virtualenv(text@),
            r.uv == cfg_sets_uv(text@),
    {
        PyVenvConfiguration::parse(text)
    }

    /// Returns the location of the Python executable.
    pub fn python_executable(&self) -> (r: &String)
        ensures
            r == self.interpreter_spec().sys_executable,
    {
        &self.interpreter.sys_executable
    }

    /// Returns the path to the `site-packages` directory inside the
    /// environment.
    pub fn site_packages(&self) -> (r: &String)
        ensures
            r == self.interpreter_spec().purelib,
    {
        &self.interpreter.purelib
    }

    /// Returns the path to the `bin` directory inside the environment.
    pub fn scripts(&self) -> (r: &String)
        ensures
            r == self.interpreter_spec().scripts,
    {
        &self.interpreter.scripts
    }
}

/// What the environment variables designate: a single active environment,
/// two conflicting ones, or nothing, in which case the filesystem is
/// searched.
#[derive(Debug, PartialEq, Eq)]
pub enum VenvDesignation {
    /// One environment is designated by the variables.
    Designated(String),
    /// `VIRTUAL_ENV` and `CONDA_PREFIX` name different environments.
    Conflict,
    /// Neither variable is set; search the working directory's ancestors.
    SearchFilesystem,
}

/// The value of an environment variable, with an empty value counting as
/// unset.
pub open spec fn effective_var(v: Option<String>) -> Option<String> {
    match v {
        Some(s) => if s@.len() == 0 {
            None
        } else {
            Some(s)
        },
        None => None,
    }
}

/// The decision which environment the variables designate: `VIRTUAL_ENV`
/// alone wins, `CONDA_PREFIX` alone wins, both win only when they agree,
/// and both being set to different values is a conflict. Empty values count
/// as unset.
pub open spec fn designation_of(
    virtual_env: Option<String>,
    conda_prefix: Option<String>,
) -> VenvDesignation {
    match (effective_var(virtual_env), effective_var(conda_prefix)) {
        (Some(v), None) => VenvDesignation::Designated(v),
        (None, Some(c)) => VenvDesignation::Designated(c),
        (Some(v), Some(c)) => if v@ == c@ {
            VenvDesignation::Designated(v)
        } else {
            VenvDesignation::Conflict
        },
        (None, None) => VenvDesignation::SearchFilesystem,
    }
}

/// Decide which virtual environment the `VIRTUAL_ENV` and `CONDA_PREFIX`
/// variables designate.
pub fn designate_virtual_env(
    virtual_env: Option<String>,
    conda_prefix: Option<String>,
) -> (r: VenvDesignation)
    ensures
        r == designation_of(virtual_env, conda_prefix),
{
    let v_set: bool = match &virtual_env {
        Some(s) => !s.as_str().is_empty(),
        None => false,
    };
    let c_set: bool = match &conda_prefix {
        Some(s) => !s.as_str().is_empty(),
        None => false,
    };
    if v_set && !c_set {
        VenvDesignation::Designated(virtual_env.unwrap())
    } else if !v_set && c_set {
        VenvDesignation::Designated(conda_prefix.unwrap())
    } else if v_set && c_set {
        let v = virtual_env.unwrap();
        let c = conda_prefix.unwrap();
        if v == c {
            VenvDesignation::Designated(v)
        } else {
            VenvDesignation::Conflict
        }
    } else {
        VenvDesignation::SearchFilesystem
    }
}

/// `"virtualenv"` stands at position `i`.
pub open spec fn virtualenv_key_at(s: Seq<u8>, i: int) -> bool {
    &&& 0 <= i
    &&& i + 10 <= s.len()
    &&& s[i] == 118u8
    &&& s[i + 1] == 105u8
    &&& s[i + 2] == 114u8
    &&& s[i + 3] == 116u8
    &&& s[i + 4] == 117u8
    &&& s[i + 5] == 97u8
    &&& s[i + 6] == 108u8
    &&& s[i + 7] == 101u8
    &&& s[i + 8] == 110u8
    &&& s[i + 9] == 118u8
}

/// `"uv"` stands at position `i`.
pub open spec fn uv_key_at(s: Seq<u8>, i: int) -> bool {
    &&& 0 <= i
    &&& i + 2 <= s.len()
    &&& s[i] == 117u8
    &&& s[i + 1] == 118u8
}

/// A line starting at `i` assigns the `virtualenv` key: the key at the
/// line's start, optional spaces, and an equals sign.
pub open spec fn assigns_virtualenv_at(s: Seq<u8>, i: int) -> bool {
    virtualenv_key_at(s, i) && {
        let j = i + 10 + space_run_len(s, i + 10);
        j < s.len() && s[j] == 61u8
    }
}

/// A line starting at `i` assigns the `uv` key.
pub open spec fn assigns_uv_at(s: Seq<u8>, i: int) -> bool {
    uv_key_at(s, i) && {
        let j = i + 2 + space_run_len(s, i + 2);
        j < s.len() && s[j] == 61u8
    }
}

/// `i` starts a line: the input's start, or the position after a newline.
pub open spec fn is_line_start(s: Seq<u8>, i: int) -> bool {
    i == 0 || (1 <= i <= s.len() && s[i - 1] == 10u8)
}

/// Some line of the file assigns the `virtualenv` key.
pub open spec fn cfg_sets_virtualenv(s: Seq<u8>) -> bool {
    exists|i: int| is_line_start(s, i) && #[trigger] assigns_virtualenv_at(s, i)
}

/// Some line of the file assigns the `uv` key.
pub open spec fn cfg_sets_uv(s: Seq<u8>) -> bool {
    exists|i: int| is_line_start(s, i) && #[trigger] assigns_uv_at(s, i)
}

/// The configuration recorded in a `pyvenv.cfg` file: which of the markers
/// the file carries.
#[derive(Debug, PartialEq, Eq, Clone, Copy, Structural)]
pub struct PyVenvConfiguration {
    /// The environment was created by the `virtualenv` tool.
    pub virtualenv: bool,
    /// The environment was created by this package manager.
    pub uv: bool,
}

fn line_assigns_virtualenv(s: &[u8], i: usize) -> (r: bool)
    requires
        i <= s@.len(),
    ensures
        r == assigns_virtualenv_at(s@, i as int),
{
    let n = s.len();
    if n - i < 10 {
        return false;
    }
    if !(s[i] == 118 && s[i + 1] == 105 && s[i + 2] == 114 && s[i + 3] == 116 && s[i + 4] == 117
        && s[i + 5] == 97 && s[i + 6] == 108 && s[i + 7] == 101 && s[i + 8] == 110 && s[i + 9]
        == 118) {
        return false;
    }
    let j = i + 10 + slice_space_run_len(s, i + 10);
    j < n && s[j] == 61
}

fn line_assigns_uv(s: &[u8], i: usize) -> (r: bool)
    requires
        i <= s@.len(),
    ensures
        r == assigns_uv_at(s@, i as int),
{
    let n = s.len();
    if n - i < 2 {
        return false;
    }
    if !(s[i] == 117 && s[i + 1] == 118) {
        return false;
    }
    let j = i + 2 + slice_space_run_len(s, i + 2);
    j < n && s[j] == 61
}

impl PyVenvConfiguration {
    /// Parse the text of a `pyvenv.cfg` file: each line may assign a key,
    /// written as the key name, optional spaces, and an equals sign; the
    /// `virtualenv` and `uv` keys set the two markers.
    pub fn parse(text: &[u8]) -> (r: PyVenvConfiguration)
        ensures
            r.virtualenv == cfg_sets_virtualenv(text@),
            r.uv == cfg_sets_uv(text@),
    {
        let n = text.len();
        let mut i: usize = 0;
        let mut virtualenv = false;
        let mut uv = false;
        while i < n
            invariant
                n == text@.len(),
                i <= n,
                is_line_start(text@, i as int) || i == n,
                virtualenv == exists|k: int|
                    is_line_start(text@, k) && k < i && #[trigger] assigns_virtualenv_at(text@, k),
                uv == exists|k: int|
                    is_line_start(text@, k) && k < i && #[trigger] assigns_uv_at(text@, k),
            decreases n - i,
        {
            if line_assigns_virtualenv(text, i) {
                virtualenv = true;
                proof {
                    assert(is_line_start(text@, i as int) && assigns_virtualenv_at(
                        text@,
                        i as int,
                    ));
                }
            }
            if line_assigns_uv(text, i) {
                uv = true;
                proof {
                    assert(is_line_start(text@, i as int) && assigns_uv_at(text@, i as int));
                }
            }
            let e = slice_line_end(text, i);
            proof {
                lemma_line_end_bounds(text@, i as int);
                if e < n {
                    crate::scan::lemma_line_end_newline(text@, i as int);
                }
                assert forall|k: int| i < k < e + 1 implies !is_line_start(text@, k) by {
                    lemma_line_interior(text@, i as int, k - 1);
                }
            }
            if e == n {
                i = n;
            } else {
                i = e + 1;
            }
        }
        proof {
            if cfg_sets_virtualenv(text@) && !virtualenv {
                let k = choose|k: int|
                    is_line_start(text@, k) && #[trigger] assigns_virtualenv_at(text@, k);
                assert(k < i);
            }
            if cfg_sets_uv(text@) && !uv {
                let k = choose|k: int| is_line_start(text@, k) && #[trigger] assigns_uv_at(text@, k);
                assert(k < i);
            }
        }
        PyVenvConfiguration { virtualenv, uv }
    }
}

} // verus!
