//! Determination of the libc flavor (glibc or musl) on Linux.
//!
//! The probing itself — running the dynamic linker, following symlinks,
//! reading well-known binaries — is input/output and lives with the caller;
//! this module holds the grammar of what those probes print, and the
//! decisions taken on it.

use vstd::prelude::*;

use crate::scan::digit_run_len;
use crate::scan::digits_value;
use crate::scan::is_digit;
use crate::scan::lemma_digit_run_digits;
use crate::scan::lemma_digits_value_bound;
use crate::scan::lemma_pow10_monotone;
use crate::scan::line_end;
use crate::scan::parse_digits_u32;
use crate::scan::pow10;
use crate::scan::slice_digit_run_len;
use crate::scan::slice_line_end;

verus! {

/// The detected libc and its version: glibc (manylinux) or musl
/// (musllinux).
#[derive(Debug, PartialEq, Eq, Structural)]
pub enum LibcVersion {
    Manylinux { major: u32, minor: u32 },
    Musllinux { major: u32, minor: u32 },
}

/// Why libc detection failed. Each variant carries the path or program text
/// the caller probed.
#[derive(Debug, PartialEq, Eq)]
pub enum LibcDetectionError {
    /// Neither a glibc nor a musl libc version could be detected.
    NoLibcFound,
    /// The symbolic link's target has no base name to parse.
    MissingBasePath(String),
    /// The linker's file name does not carry a glibc version.
    GlibcExtractionMismatch(String),
    /// Running the probe program failed outright.
    FailedToRun { libc: String, program: String, message: String },
    /// `ld.so --version` printed nothing recognizable.
    InvalidLdSoOutputGnu(String),
    /// The musl loader printed nothing recognizable.
    InvalidLdSoOutputMusl(String),
    /// No probed binary yielded an ELF interpreter path.
    CoreBinaryParsing(String),
    /// None of the well-known binaries exists.
    NoCommonBinariesFound(String),
    /// An input/output error outside the cases above.
    Io(String),
}

/// The environment component of the platform triple, as far as libc
/// detection distinguishes it.
#[derive(Debug, Eq, PartialEq, Clone, Copy, Hash, Structural)]
pub enum TargetEnvironment {
    Gnu,
    Gnueabi,
    Gnueabihf,
    Musl,
}

/// The libc of the current platform: a known environment flavor on Linux,
/// or absent on platforms without a libc notion.
#[derive(Debug, Eq, PartialEq, Clone, Copy, Hash, Structural)]
pub enum Libc {
    Known(TargetEnvironment),
    Absent,
}

/// The error of the surrounding platform layer: an unrecognized libc name.
#[derive(Debug, PartialEq, Eq)]
pub enum PlatformError {
    UnknownLibc(String),
}

impl Libc {
    /// True iff this is a musl libc.
    pub fn is_musl(&self) -> (r: bool)
        ensures
            r == (*self == Libc::Known(TargetEnvironment::Musl)),
    {
        matches!(self, Libc::Known(TargetEnvironment::Musl))
    }

    /// The libc's display name; the inverse of `from_str` on the names it
    /// accepts.
    pub fn name(&self) -> (r: String)
        ensures
            *self == Libc::Known(TargetEnvironment::Gnu) ==> r@ == "gnu"@,
            *self == Libc::Known(TargetEnvironment::Gnueabi) ==> r@ == "gnueabi"@,
            *self == Libc::Known(TargetEnvironment::Gnueabihf) ==> r@ == "gnueabihf"@,
            *self == Libc::Known(TargetEnvironment::Musl) ==> r@ == "musl"@,
            *self == Libc::Absent ==> r@ == "none"@,
    {
        match self {
            Libc::Known(TargetEnvironment::Gnu) => String::from_str("gnu"),
            Libc::Known(TargetEnvironment::Gnueabi) => String::from_str("gnueabi"),
            Libc::Known(TargetEnvironment::Gnueabihf) => String::from_str("gnueabihf"),
            Libc::Known(TargetEnvironment::Musl) => String::from_str("musl"),
            Libc::Absent => String::from_str("none"),
        }
    }

    /// Parse a libc name: one of `gnu`, `gnueabi`, `gnueabihf`, `musl`, or
    /// `none`; anything else is unknown.
    pub fn from_str(s: &str) -> (r: Result<Libc, PlatformError>)
        ensures
            s@ == "gnu"@ ==> r == Ok::<Libc, PlatformError>(Libc::Known(TargetEnvironment::Gnu)),
            s@ == "gnueabi"@ ==> r == Ok::<Libc, PlatformError>(
                Libc::Known(TargetEnvironment::Gnueabi),
            ),
            s@ == "gnueabihf"@ ==> r == Ok::<Libc, PlatformError>(
                Libc::Known(TargetEnvironment::Gnueabihf),
            ),
            s@ == "musl"@ ==> r == Ok::<Libc, PlatformError>(Libc::Known(TargetEnvironment::Musl)),
            s@ == "none"@ ==> r == Ok::<Libc, PlatformError>(Libc::Absent),
            s@ != "gnu"@ && s@ != "gnueabi"@ && s@ != "gnueabihf"@ && s@ != "musl"@ && s@
                != "none"@ ==> (r matches Err(PlatformError::UnknownLibc(t)) && t@ == s@),
    {
        proof {
            reveal_strlit("gnu");
            reveal_strlit("gnueabi");
            reveal_strlit("gnueabihf");
            reveal_strlit("musl");
            reveal_strlit("none");
        }
        let n = s.unicode_len();
        if n == 3 && s.get_char(0) == 'g' && s.get_char(1) == 'n' && s.get_char(2) == 'u' {
            proof {
                assert(s@ =~= "gnu"@);
            }
            Ok(Libc::Known(TargetEnvironment::Gnu))
        } else if n == 7 && s.get_char(0) == 'g' && s.get_char(1) == 'n' && s.get_char(2) == 'u'
            && s.get_char(3) == 'e' && s.get_char(4) == 'a' && s.get_char(5) == 'b' && s.get_char(6)
            == 'i' {
            proof {
                assert(s@ =~= "gnueabi"@);
            }
            Ok(Libc::Known(TargetEnvironment::Gnueabi))
        } else if n == 9 && s.get_char(0) == 'g' && s.get_char(1) == 'n' && s.get_char(2) == 'u'
            && s.get_char(3) == 'e' && s.get_char(4) == 'a' && s.get_char(5) == 'b' && s.get_char(6)
            == 'i' && s.get_char(7) == 'h' && s.get_char(8) == 'f' {
            proof {
                assert(s@ =~= "gnueabihf"@);
            }
            Ok(Libc::Known(TargetEnvironment::Gnueabihf))
        } else if n == 4 && s.get_char(0) == 'm' && s.get_char(1) == 'u' && s.get_char(2) == 's'
            && s.get_char(3) == 'l' {
            proof {
                assert(s@ =~= "musl"@);
            }
            Ok(Libc::Known(TargetEnvironment::Musl))
        } else if n == 4 && s.get_char(0) == 'n' && s.get_char(1) == 'o' && s.get_char(2) == 'n'
            && s.get_char(3) == 'e' {
            proof {
                assert(s@ =~= "none"@);
            }
            Ok(Libc::Absent)
        } else {
            Err(PlatformError::UnknownLibc(s.to_owned()))
        }
    }
}

/// `"Version "` stands at position `i`.
pub open spec fn version_prefix_at(s: Seq<u8>, i: int) -> bool {
    &&& 0 <= i
    &&& i + 8 <= s.len()
    &&& s[i] == 86u8
    &&& s[i + 1] == 101u8
    &&& s[i + 2] == 114u8
    &&& s[i + 3] == 115u8
    &&& s[i + 4] == 105u8
    &&& s[i + 5] == 111u8
    &&& s[i + 6] == 110u8
    &&& s[i + 7] == 32u8
}

/// The musl version announced at position `i`: `"Version "`, a maximal run
/// of one to four digits, a dot, and one to four more digits (a longer
/// second run is cut after four).
pub open spec fn musl_match_at(s: Seq<u8>, i: int) -> Option<(u32, u32)> {
    if !version_prefix_at(s, i) {
        None
    } else {
        let a = i + 8;
        let la = digit_run_len(s, a);
        if la < 1 || la > 4 {
            None
        } else if a + la >= s.len() || s[a + la] != 46u8 {
            None
        } else {
            let b0 = a + la + 1;
            let run = digit_run_len(s, b0);
            let lb = if run > 4 {
                4
            } else {
                run
            };
            if lb < 1 {
                None
            } else {
                Some(
                    (
                        digits_value(s.subrange(a, a + la)) as u32,
                        digits_value(s.subrange(b0, b0 + lb)) as u32,
                    ),
                )
            }
        }
    }
}

/// The first position at or after `i` where a musl version announcement
/// matches, and its value.
pub open spec fn musl_scan(s: Seq<u8>, i: int) -> Option<(u32, u32)>
    decreases s.len() - i,
{
    if i < 0 || i >= s.len() {
        None
    } else if musl_match_at(s, i) is Some {
        musl_match_at(s, i)
    } else {
        musl_scan(s, i + 1)
    }
}

/// The musl version a loader's output announces, if any: the loader prints
/// a banner holding a line such as `Version 1.2.5`.
pub open spec fn musl_version_of(s: Seq<u8>) -> Option<LibcVersion> {
    match musl_scan(s, 0) {
        Some((major, minor)) => Some(LibcVersion::Musllinux { major, minor }),
        None => None,
    }
}

fn musl_match_at_exec(s: &[u8], i: usize) -> (r: Option<(u32, u32)>)
    requires
        i < s@.len(),
    ensures
        r == musl_match_at(s@, i as int),
{
    if s.len() - i < 8 {
        return None;
    }
    if !(s[i] == 86u8 && s[i + 1] == 101u8 && s[i + 2] == 114u8 && s[i + 3] == 115u8 && s[i + 4]
        == 105u8 && s[i + 5] == 111u8 && s[i + 6] == 110u8 && s[i + 7] == 32u8) {
        return None;
    }
    let n = s.len();
    let a = i + 8;
    let la = slice_digit_run_len(s, a);
    if la < 1 || la > 4 {
        return None;
    }
    if a + la >= n || s[a + la] != 46u8 {
        return None;
    }
    let b0 = a + la + 1;
    let run = slice_digit_run_len(s, b0);
    let lb = if run > 4 {
        4
    } else {
        run
    };
    if lb < 1 {
        return None;
    }
    proof {
        assert forall|k: int| a <= k < a + la implies is_digit(s@[k]) by {
            lemma_digit_run_digits(s@, a as int, k);
        }
        assert forall|k: int| b0 <= k < b0 + lb implies is_digit(s@[k]) by {
            lemma_digit_run_digits(s@, b0 as int, k);
        }
        lemma_digits_value_bound(s@.subrange(a as int, a + la as int));
        lemma_digits_value_bound(s@.subrange(b0 as int, b0 + lb as int));
        lemma_pow10_monotone((la as nat), 4);
        lemma_pow10_monotone((lb as nat), 4);
        assert(pow10(4) == 10000) by {
            reveal_with_fuel(pow10, 6);
        }
    }
    let major = parse_digits_u32(s, a, a + la);
    let minor = parse_digits_u32(s, b0, b0 + lb);
    Some((major, minor))
}

/// Parse the musl version from the loader's output. The first argument
/// names the stream the output came from and serves diagnostics only.
pub fn musl_ld_output_to_version(_kind: &str, output: &[u8]) -> (r: Option<LibcVersion>)
    ensures
        r == musl_version_of(output@),
{
    let mut i: usize = 0;
    while i < output.len()
        invariant
            i <= output@.len(),
            musl_scan(output@, 0) == musl_scan(output@, i as int),
        decreases output@.len() - i,
    {
        match musl_match_at_exec(output, i) {
            Some((major, minor)) => {
                return Some(LibcVersion::Musllinux { major, minor });
            },
            None => {
                i = i + 1;
            },
        }
    }
    None
}

/// The ELF interpreter (the `PT_INTERP` path) recorded in an executable's
/// bytes, when they parse as an ELF binary that declares one: a function of
/// the bytes alone.
pub uninterp spec fn elf_interpreter_of(data: Seq<u8>) -> Option<Seq<char>>;

/// Relies on goblin's `Elf::parse`: the interpreter path is read from the
/// `PT_INTERP` segment of the given bytes alone; bytes that do not parse as
/// ELF, or an ELF without an interpreter, yield nothing.
#[verifier::external_body]
fn elf_interpreter(data: &[u8]) -> (r: Option<String>)
    ensures
        match r {
            Some(p) => elf_interpreter_of(data@) == Some(p@),
            None => elf_interpreter_of(data@) is None,
        },
{
    match goblin::elf::Elf::parse(data) {
        Ok(elf) => elf.interpreter.map(|interp| interp.to_string()),
        Err(_) => None,
    }
}

/// The ELF interpreter of the first probed binary, from position `i` on,
/// that declares one.
pub open spec fn first_interpreter_from(reads: Seq<Option<Vec<u8>>>, i: int) -> Option<Seq<char>>
    decreases reads.len() - i,
{
    if i < 0 || i >= reads.len() {
        None
    } else {
        let here = match reads[i] {
            Some(data) => elf_interpreter_of(data@),
            None => None,
        };
        if here is Some {
            here
        } else {
            first_interpreter_from(reads, i + 1)
        }
    }
}

/// The dynamic linker's path, determined from the contents of the probed
/// well-known binaries (one entry per probe, `None` where the file was
/// absent or unreadable): the ELF interpreter of the first binary that
/// declares one.
pub fn interpreter_from_probes(reads: &Vec<Option<Vec<u8>>>) -> (r: Option<String>)
    ensures
        match r {
            Some(p) => first_interpreter_from(reads@, 0) == Some(p@),
            None => first_interpreter_from(reads@, 0) is None,
        },
{
    let mut i: usize = 0;
    while i < reads.len()
        invariant
            i <= reads@.len(),
            first_interpreter_from(reads@, 0) == first_interpreter_from(reads@, i as int),
        decreases reads@.len() - i,
    {
        match &reads[i] {
            Some(data) => {
                match elf_interpreter(data.as_slice()) {
                    Some(p) => {
                        return Some(p);
                    },
                    None => {},
                }
            },
            None => {},
        }
        i = i + 1;
    }
    None
}

/// `"ld.so ("` stands at position `i`.
pub open spec fn ld_so_prefix_at(s: Seq<u8>, i: int) -> bool {
    &&& 0 <= i
    &&& i + 7 <= s.len()
    &&& s[i] == 108u8
    &&& s[i + 1] == 100u8
    &&& s[i + 2] == 46u8
    &&& s[i + 3] == 115u8
    &&& s[i + 4] == 111u8
    &&& s[i + 5] == 32u8
    &&& s[i + 6] == 40u8
}

/// A `major.minor` capture at `i`: a maximal run of one to nine digits, a
/// dot, and another such run.
pub open spec fn version_capture_at(s: Seq<u8>, i: int) -> Option<(u32, u32)> {
    if i < 0 {
        None
    } else {
        let la = digit_run_len(s, i);
        if la < 1 || la > 9 {
            None
        } else if i + la >= s.len() || s[i + la] != 46u8 {
            None
        } else {
            let b0 = i + la + 1;
            let lb = digit_run_len(s, b0);
            if lb < 1 || lb > 9 {
                None
            } else {
                Some(
                    (
                        digits_value(s.subrange(i, i + la)) as u32,
                        digits_value(s.subrange(b0, b0 + lb)) as u32,
                    ),
                )
            }
        }
    }
}

/// A capture candidate: a version capture at `j` preceded by a space.
pub open spec fn capture_candidate(s: Seq<u8>, j: int) -> Option<(u32, u32)> {
    if j >= 1 && j <= s.len() && s[j - 1] == 32u8 {
        version_capture_at(s, j)
    } else {
        None
    }
}

/// The last capture candidate with start in `[i, end)`.
pub open spec fn last_capture(s: Seq<u8>, i: int, end: int) -> Option<(u32, u32)>
    decreases end - i,
{
    if i >= end {
        None
    } else {
        let rest = last_capture(s, i + 1, end);
        if rest is Some {
            rest
        } else {
            capture_candidate(s, i)
        }
    }
}

/// A close parenthesis followed by a space stands at `j`.
pub open spec fn close_paren_at(s: Seq<u8>, j: int) -> bool {
    0 <= j && j + 2 <= s.len() && s[j] == 41u8 && s[j + 1] == 32u8
}

/// The first `") "` with position in `[i, end)`.
pub open spec fn first_close(s: Seq<u8>, i: int, end: int) -> Option<int>
    decreases end - i,
{
    if i >= end {
        None
    } else if close_paren_at(s, i) {
        Some(i)
    } else {
        first_close(s, i + 1, end)
    }
}

/// The version announced by a line whose `"ld.so ("` opening stands at `i`:
/// after the first `") "` on the line, the last space-preceded
/// `major.minor` before the line's end.
pub open spec fn glibc_line_version(s: Seq<u8>, i: int) -> Option<(u32, u32)> {
    let end = line_end(s, i);
    match first_close(s, i + 7, end) {
        Some(cp) => last_capture(s, cp + 3, end),
        None => None,
    }
}

/// The first position at or after `i` where a glibc version banner matches,
/// and its value.
pub open spec fn glibc_scan(s: Seq<u8>, i: int) -> Option<(u32, u32)>
    decreases s.len() - i,
{
    if i < 0 || i >= s.len() {
        None
    } else if ld_so_prefix_at(s, i) && glibc_line_version(s, i) is Some {
        glibc_line_version(s, i)
    } else {
        glibc_scan(s, i + 1)
    }
}

/// The glibc version announced by `ld.so --version` output, if any: a line
/// such as `ld.so (Ubuntu GLIBC 2.39-0ubuntu8.3) stable release version
/// 2.39.` yields the trailing version.
pub open spec fn glibc_version_of(s: Seq<u8>) -> Option<LibcVersion> {
    match glibc_scan(s, 0) {
        Some((major, minor)) => Some(LibcVersion::Manylinux { major, minor }),
        None => None,
    }
}

fn glibc_capture_at_exec(s: &[u8], j: usize) -> (r: Option<(u32, u32)>)
    requires
        j <= s@.len(),
    ensures
        r == version_capture_at(s@, j as int),
{
    let n = s.len();
    let la = slice_digit_run_len(s, j);
    if la < 1 || la > 9 {
        return None;
    }
    if j + la >= n || s[j + la] != 46u8 {
        return None;
    }
    let b0 = j + la + 1;
    let lb = slice_digit_run_len(s, b0);
    if lb < 1 || lb > 9 {
        return None;
    }
    proof {
        assert forall|k: int| j <= k < j + la implies is_digit(s@[k]) by {
            lemma_digit_run_digits(s@, j as int, k);
        }
        assert forall|k: int| b0 <= k < b0 + lb implies is_digit(s@[k]) by {
            lemma_digit_run_digits(s@, b0 as int, k);
        }
        lemma_digits_value_bound(s@.subrange(j as int, j + la as int));
        lemma_digits_value_bound(s@.subrange(b0 as int, b0 + lb as int));
        lemma_pow10_monotone((la as nat), 9);
        lemma_pow10_monotone((lb as nat), 9);
        assert(pow10(9) == 1000000000) by {
            reveal_with_fuel(pow10, 11);
        }
    }
    let major = parse_digits_u32(s, j, j + la);
    let minor = parse_digits_u32(s, b0, b0 + lb);
    Some((major, minor))
}

fn glibc_candidate_at_exec(s: &[u8], j: usize) -> (r: Option<(u32, u32)>)
    requires
        j <= s@.len(),
    ensures
        r == capture_candidate(s@, j as int),
{
    if j >= 1 && s[j - 1] == 32u8 {
        glibc_capture_at_exec(s, j)
    } else {
        None
    }
}

fn glibc_line_version_exec(s: &[u8], i: usize) -> (r: Option<(u32, u32)>)
    requires
        i + 7 <= s@.len(),
    ensures
        r == glibc_line_version(s@, i as int),
{
    let n = s.len();
    let end = slice_line_end(s, i);
    let mut j = i + 7;
    let mut close: Option<usize> = None;
    while close.is_none() && j < end
        invariant
            i + 7 <= j <= s@.len(),
            n == s@.len(),
            end <= s@.len(),
            end == line_end(s@, i as int),
            match close {
                Some(c) => first_close(s@, i + 7 as int, end as int) == Some(c as int) && c + 2
                    <= s@.len() && c < end,
                None => first_close(s@, i + 7 as int, end as int) == first_close(
                    s@,
                    j as int,
                    end as int,
                ),
            },
        decreases end - j + (if close.is_none() {
            1int
        } else {
            0int
        }),
    {
        if n - j >= 2 && s[j] == 41u8 && s[j + 1] == 32u8 {
            close = Some(j);
        } else {
            j = j + 1;
        }
    }
    match close {
        Some(cp) => {
            if end - cp < 3 {
                return None;
            }
            let mut k = cp + 3;
            let mut best: Option<(u32, u32)> = None;
            while k < end
                invariant
                    cp + 3 <= k <= end <= s@.len(),
                    last_capture(s@, cp + 3 as int, end as int) == (match last_capture(
                        s@,
                        k as int,
                        end as int,
                    ) {
                        Some(v) => Some(v),
                        None => best,
                    }),
                decreases end - k,
            {
                let c = glibc_candidate_at_exec(s, k);
                if c.is_some() {
                    best = c;
                }
                k = k + 1;
            }
            best
        },
        None => None,
    }
}

/// Parse the glibc version from `ld.so --version` output. The first
/// argument names the stream the output came from and serves diagnostics
/// only.
pub fn glibc_ld_output_to_version(_kind: &str, output: &[u8]) -> (r: Option<LibcVersion>)
    ensures
        r == glibc_version_of(output@),
{
    let mut i: usize = 0;
    while i < output.len()
        invariant
            i <= output@.len(),
            glibc_scan(output@, 0) == glibc_scan(output@, i as int),
        decreases output@.len() - i,
    {
        let prefix: bool = output.len() - i >= 7 && output[i] == 108u8 && output[i + 1] == 100u8
            && output[i + 2] == 46u8 && output[i + 3] == 115u8 && output[i + 4] == 111u8 && output[i
            + 5] == 32u8 && output[i + 6] == 40u8;
        if prefix {
            match glibc_line_version_exec(output, i) {
                Some((major, minor)) => {
                    return Some(LibcVersion::Manylinux { major, minor });
                },
                None => {
                    i = i + 1;
                },
            }
        } else {
            i = i + 1;
        }
    }
    None
}

/// The glibc version encoded in a dynamic linker's file name of the form
/// `ld-X.Y.so`, with one to three digits in each component and nothing
/// else.
pub open spec fn ld_symlink_version_of(name: Seq<u8>) -> Option<LibcVersion> {
    if !(name.len() >= 3 && name[0] == 108u8 && name[1] == 100u8 && name[2] == 45u8) {
        None
    } else {
        let la = digit_run_len(name, 3);
        if la < 1 || la > 3 {
            None
        } else if 3 + la >= name.len() || name[3 + la] != 46u8 {
            None
        } else {
            let b0 = 3 + la + 1;
            let lb = digit_run_len(name, b0);
            if lb < 1 || lb > 3 {
                None
            } else if name.len() != b0 + lb + 3 {
                None
            } else if !(name[b0 + lb] == 46u8 && name[b0 + lb + 1] == 115u8 && name[b0 + lb + 2]
                == 111u8) {
                None
            } else {
                Some(
                    LibcVersion::Manylinux {
                        major: digits_value(name.subrange(3, 3 + la)) as u32,
                        minor: digits_value(name.subrange(b0, b0 + lb)) as u32,
                    },
                )
            }
        }
    }
}

/// Parse the glibc version from a dynamic linker's file name, e.g.
/// `ld-2.39.so`.
pub fn ld_symlink_version(file_name: &[u8]) -> (r: Option<LibcVersion>)
    ensures
        r == ld_symlink_version_of(file_name@),
{
    if !(file_name.len() >= 3 && file_name[0] == 108u8 && file_name[1] == 100u8 && file_name[2]
        == 45u8) {
        return None;
    }
    let la = slice_digit_run_len(file_name, 3);
    if la < 1 || la > 3 {
        return None;
    }
    let n = file_name.len();
    if 3 + la >= n || file_name[3 + la] != 46u8 {
        return None;
    }
    let b0 = 3 + la + 1;
    let lb = slice_digit_run_len(file_name, b0);
    if lb < 1 || lb > 3 {
        return None;
    }
    if n - (b0 + lb) != 3 {
        return None;
    }
    if !(file_name[b0 + lb] == 46u8 && file_name[b0 + lb + 1] == 115u8 && file_name[b0 + lb + 2]
        == 111u8) {
        return None;
    }
    proof {
        assert forall|k: int| 3 <= k < 3 + la implies is_digit(file_name@[k]) by {
            lemma_digit_run_digits(file_name@, 3int, k);
        }
        assert forall|k: int| b0 <= k < b0 + lb implies is_digit(file_name@[k]) by {
            lemma_digit_run_digits(file_name@, b0 as int, k);
        }
        lemma_digits_value_bound(file_name@.subrange(3int, 3 + la as int));
        lemma_digits_value_bound(file_name@.subrange(b0 as int, b0 + lb as int));
        lemma_pow10_monotone((la as nat), 4);
        lemma_pow10_monotone((lb as nat), 4);
        assert(pow10(4) == 10000) by {
            reveal_with_fuel(pow10, 6);
        }
    }
    let major = parse_digits_u32(file_name, 3, 3 + la);
    let minor = parse_digits_u32(file_name, b0, b0 + lb);
    Some(LibcVersion::Manylinux { major, minor })
}

} // verus!
