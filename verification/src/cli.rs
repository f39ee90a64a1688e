//! Command-line arguments of the image processor and their validation.
//!
//! Paths are held as strings. The questions that only the file system can
//! answer (does a file exist, is a path a directory) are asked by the
//! caller and handed in as a [`PathChecks`].
use vstd::prelude::*;
use crate::error::{AppError, IoError, IoErrorKind};

verus! {

/// The platform whose naming scheme for dynamic libraries is used.
#[derive(Debug, Clone, Copy, PartialEq, Eq, Structural)]
pub enum TargetOs {
    /// `name.dll`
    Windows,
    /// `libname.so`
    Linux,
    /// `libname.dylib`
    MacOs,
}

/// Command-line arguments of the image processor.
#[derive(Debug, Clone)]
pub struct Args {
    /// Name of the plugin, without prefix or extension.
    pub plugin: String,
    /// Path of the input PNG.
    pub input: String,
    /// Path of the output PNG.
    pub output: String,
    /// Directory that holds the plugin library.
    pub plugin_path: String,
    /// Path of the plugin parameter file.
    pub params: String,
}

/// What the file system says about the paths in [`Args`].
#[derive(Debug, Clone, Copy, PartialEq, Eq, Structural)]
pub struct PathChecks {
    /// The input path names a regular file.
    pub input_is_file: bool,
    /// The parameter path names a regular file.
    pub params_is_file: bool,
    /// The plugin path names a directory.
    pub plugin_path_is_dir: bool,
    /// The parent of the output path exists.
    pub output_parent_exists: bool,
}

/// Whether `c` has the Unicode `White_Space` property.
pub open spec fn is_whitespace_spec(c: char) -> bool {
    let v = c as u32;
    ||| v == 0x20
    ||| 0x09 <= v <= 0x0d
    ||| v == 0x85
    ||| v == 0xa0
    ||| v == 0x1680
    ||| 0x2000 <= v <= 0x200a
    ||| v == 0x2028
    ||| v == 0x2029
    ||| v == 0x202f
    ||| v == 0x205f
    ||| v == 0x3000
}

/// A string made only of white space (so `trim` leaves nothing of it).
pub open spec fn is_blank_spec(s: Seq<char>) -> bool {
    forall|i: int| 0 <= i < s.len() ==> is_whitespace_spec(#[trigger] s[i])
}

/// Code point of `c` with ASCII upper-case letters turned to lower case.
pub open spec fn ascii_lower_code(c: char) -> u32 {
    let v = c as u32;
    if 0x41 <= v <= 0x5a {
        (v + 0x20) as u32
    } else {
        v
    }
}

/// `a` and `b` are equal up to the case of ASCII letters.
pub open spec fn ascii_case_eq(a: Seq<char>, b: Seq<char>) -> bool {
    &&& a.len() == b.len()
    &&& forall|i: int| 0 <= i < a.len() ==> ascii_lower_code(#[trigger] a[i]) == ascii_lower_code(b[i])
}

/// The characters `png`.
pub open spec fn png_chars() -> Seq<char> {
    seq!['p', 'n', 'g']
}

/// An extension that names a PNG file: `png` in any case.
pub open spec fn is_png_extension_spec(ext: Option<Seq<char>>) -> bool {
    match ext {
        Some(e) => ascii_case_eq(e, png_chars()),
        None => false,
    }
}

/// The extension that `std::path::Path::extension` finds in `path`: the part
/// of the final component after its last `.`, if that component has a `.`
/// that is not its first character.
pub uninterp spec fn spec_path_extension(path: Seq<char>) -> Option<Seq<char>>;

/// The parent that `std::path::Path::parent` finds for `path`.
pub uninterp spec fn spec_path_parent(path: Seq<char>) -> Option<Seq<char>>;

/// The path that `std::path::Path::join` makes of `base` and `name`.
pub uninterp spec fn spec_path_join(base: Seq<char>, name: Seq<char>) -> Seq<char>;

/// `res` is a "not found" I/O failure with message `message`.
pub open spec fn is_not_found(res: Result<(), AppError>, message: Seq<char>) -> bool {
    res matches Err(AppError::Io(e)) && e.kind == IoErrorKind::NotFound && e.message@ == message
}

/// `path` names a PNG file by its extension.
pub open spec fn output_is_png_spec(path: Seq<char>) -> bool {
    is_png_extension_spec(spec_path_extension(path))
}

/// File name of the dynamic library of plugin `plugin` on `os`.
pub open spec fn plugin_file_name_spec(plugin: Seq<char>, os: TargetOs) -> Seq<char> {
    match os {
        TargetOs::Windows => plugin + seq!['.', 'd', 'l', 'l'],
        TargetOs::Linux => seq!['l', 'i', 'b'] + plugin + seq!['.', 's', 'o'],
        TargetOs::MacOs => seq!['l', 'i', 'b'] + plugin + seq!['.', 'd', 'y', 'l', 'i', 'b'],
    }
}

/// Calls `std::path::Path::extension` on `path` (which parses it by the path
/// syntax of the platform the crate is built for). Trusted: the result, turned
/// into a `String`, is the one named by [`spec_path_extension`]. The
/// extension of a path given as UTF-8 is UTF-8, so the conversion loses nothing.
#[verifier::external_body]
fn path_extension(path: &str) -> (res: Option<String>)
    ensures
        match res {
            Some(e) => spec_path_extension(path@) == Some(e@),
            None => spec_path_extension(path@) is None,
        },
{
    match std::path::Path::new(path).extension() {
        Some(e) => Some(e.to_string_lossy().into_owned()),
        None => None,
    }
}

/// Calls `std::path::Path::parent` on `path` (by the platform's path
/// syntax). Trusted: the result, turned
/// into a `String`, is the one named by [`spec_path_parent`]. The parent of a
/// path given as UTF-8 is a prefix of it, so the conversion loses nothing.
#[verifier::external_body]
fn path_parent(path: &str) -> (res: Option<String>)
    ensures
        match res {
            Some(p) => spec_path_parent(path@) == Some(p@),
            None => spec_path_parent(path@) is None,
        },
{
    match std::path::Path::new(path).parent() {
        Some(p) => Some(p.to_string_lossy().into_owned()),
        None => None,
    }
}

/// Calls `std::path::Path::join` on `base` and `name` (by the platform's path
/// syntax). Trusted: the result,
/// turned into a `String`, is the one named by [`spec_path_join`]; both parts
/// are UTF-8, so the conversion loses nothing.
#[verifier::external_body]
fn path_join(base: &str, name: &str) -> (res: String)
    ensures
        res@ == spec_path_join(base@, name@),
{
    std::path::Path::new(base).join(name).to_string_lossy().into_owned()
}

/// The "not found" I/O failure reported for `message`.
fn not_found(message: String) -> (res: AppError)
    ensures
        res matches AppError::Io(e) && e.kind == IoErrorKind::NotFound && e.message@ == message@,
{
    AppError::Io(IoError { kind: IoErrorKind::NotFound, message })
}

/// Whether `c` has the Unicode `White_Space` property, as `char::is_whitespace` reports.
pub fn is_whitespace(c: char) -> (res: bool)
    ensures
        res == is_whitespace_spec(c),
{
    let v = c as u32;
    v == 0x20 || (0x09 <= v && v <= 0x0d) || v == 0x85 || v == 0xa0 || v == 0x1680 || (0x2000 <= v
        && v <= 0x200a) || v == 0x2028 || v == 0x2029 || v == 0x202f || v == 0x205f || v == 0x3000
}

/// Whether `s` is empty once white space is trimmed from both ends.
pub fn is_blank(s: &str) -> (res: bool)
    ensures
        res == is_blank_spec(s@),
{
    let n = s.unicode_len();
    let mut i: usize = 0;
    while i < n
        invariant
            0 <= i <= n,
            n == s@.len(),
            forall|j: int| 0 <= j < i ==> is_whitespace_spec(#[trigger] s@[j]),
        decreases n - i,
    {
        if !is_whitespace(s.get_char(i)) {
            return false;
        }
        i = i + 1;
    }
    true
}

/// Code point of `c` with ASCII upper-case letters turned to lower case.
fn lower_code(c: char) -> (res: u32)
    ensures
        res == ascii_lower_code(c),
{
    let v = c as u32;
    if 0x41 <= v && v <= 0x5a {
        v + 0x20
    } else {
        v
    }
}

/// Whether `a` and `b` are equal up to the case of ASCII letters, as
/// `str::eq_ignore_ascii_case` reports.
pub fn eq_ignore_ascii_case(a: &str, b: &str) -> (res: bool)
    ensures
        res == ascii_case_eq(a@, b@),
{
    let n = a.unicode_len();
    if n != b.unicode_len() {
        return false;
    }
    let mut i: usize = 0;
    while i < n
        invariant
            0 <= i <= n,
            n == a@.len(),
            n == b@.len(),
            forall|j: int| 0 <= j < i ==> ascii_lower_code(#[trigger] a@[j]) == ascii_lower_code(b@[j]),
        decreases n - i,
    {
        if lower_code(a.get_char(i)) != lower_code(b.get_char(i)) {
            return false;
        }
        i = i + 1;
    }
    true
}

/// Whether an extension (as `Path::extension` finds it) names a PNG file.
pub fn is_png_extension(ext: Option<&str>) -> (res: bool)
    ensures
        res == match ext {
            Some(e) => ascii_case_eq(e@, png_chars()),
            None => false,
        },
{
    match ext {
        Some(e) => {
            proof {
                reveal_strlit("png");
            }
            assert("png"@ =~= png_chars());
            eq_ignore_ascii_case(e, "png")
        },
        None => false,
    }
}

/// File name of the dynamic library of plugin `plugin` on `os`.
pub fn plugin_file_name(plugin: &str, os: TargetOs) -> (res: String)
    ensures
        res@ == plugin_file_name_spec(plugin@, os),
{
    proof {
        reveal_strlit("lib");
        reveal_strlit(".dll");
        reveal_strlit(".so");
        reveal_strlit(".dylib");
    }
    match os {
        TargetOs::Windows => {
            let name = String::from_str(plugin).concat(".dll");
            assert(name@ =~= plugin_file_name_spec(plugin@, os));
            name
        },
        TargetOs::Linux => {
            let name = String::from_str("lib").concat(plugin).concat(".so");
            assert(name@ =~= plugin_file_name_spec(plugin@, os));
            name
        },
        TargetOs::MacOs => {
            let name = String::from_str("lib").concat(plugin).concat(".dylib");
            assert(name@ =~= plugin_file_name_spec(plugin@, os));
            name
        },
    }
}

impl Args {
    /// Whether `path` names a PNG file: its extension is `png` in any case.
    pub fn output_is_png_path(path: &str) -> (res: bool)
        ensures
            res == output_is_png_spec(path@),
    {
        let ext = path_extension(path);
        match ext {
            Some(e) => is_png_extension(Some(e.as_str())),
            None => is_png_extension(None),
        }
    }

    /// Refuses an output path that does not name a PNG file.
    pub fn output_is_png(&self) -> (res: Result<(), AppError>)
        ensures
            res is Ok <==> output_is_png_spec(self.output@),
            res is Err ==> res matches Err(AppError::InvalidParams),
    {
        if !Self::output_is_png_path(self.output.as_str()) {
            return Err(AppError::InvalidParams);
        }
        Ok(())
    }

    /// Path of the plugin's dynamic library inside the plugin directory.
    pub fn plugin_lib_path(&self, os: TargetOs) -> (res: String)
        ensures
            res@ == spec_path_join(self.plugin_path@, plugin_file_name_spec(self.plugin@, os)),
    {
        let file_name = plugin_file_name(self.plugin.as_str(), os);
        path_join(self.plugin_path.as_str(), file_name.as_str())
    }

    /// Validates the arguments, given what the file system says about them
    /// (`checks`), the parent of the output path and its extension. The
    /// checks come in this order, and the first that fails gives the error:
    /// a blank plugin name, a missing input file, a missing parameter file,
    /// a plugin path that is not a directory, a missing output directory,
    /// an output that is not a PNG.
    pub fn validate_with(
        &self,
        checks: &PathChecks,
        output_parent: Option<String>,
        output_extension: Option<String>,
    ) -> (res: Result<(), AppError>)
        ensures
            is_blank_spec(self.plugin@) ==> res matches Err(AppError::InvalidParams),
            !is_blank_spec(self.plugin@) && !checks.input_is_file ==> is_not_found(
                res,
                "input file not found: "@ + self.input@,
            ),
            !is_blank_spec(self.plugin@) && checks.input_is_file && !checks.params_is_file
                ==> is_not_found(res, "params file not found: "@ + self.params@),
            !is_blank_spec(self.plugin@) && checks.input_is_file && checks.params_is_file
                && !checks.plugin_path_is_dir ==> res matches Err(AppError::InvalidPluginPath),
            !is_blank_spec(self.plugin@) && checks.input_is_file && checks.params_is_file
                && checks.plugin_path_is_dir && !checks.output_parent_exists ==> (
            match output_parent {
                Some(p) => is_not_found(res, "output directory not found: "@ + p@),
                None => true,
            }),
            !is_blank_spec(self.plugin@) && checks.input_is_file && checks.params_is_file
                && checks.plugin_path_is_dir && (output_parent is None
                || checks.output_parent_exists) ==> (res is Ok <==> is_png_extension_spec(
                match output_extension {
                    Some(e) => Some(e@),
                    None => None,
                },
            )),
            !is_blank_spec(self.plugin@) && checks.input_is_file && checks.params_is_file
                && checks.plugin_path_is_dir && (output_parent is None
                || checks.output_parent_exists) && res is Err ==> res matches Err(
                AppError::InvalidParams,
            ),
    {
        if is_blank(self.plugin.as_str()) {
            return Err(AppError::InvalidParams);
        }
        if !checks.input_is_file {
            let message = String::from_str("input file not found: ").concat(self.input.as_str());
            return Err(not_found(message));
        }
        if !checks.params_is_file {
            let message = String::from_str("params file not found: ").concat(self.params.as_str());
            return Err(not_found(message));
        }
        if !checks.plugin_path_is_dir {
            return Err(AppError::InvalidPluginPath);
        }
        if let Some(parent) = output_parent {
            if !checks.output_parent_exists {
                let message = String::from_str("output directory not found: ").concat(
                    parent.as_str(),
                );
                return Err(not_found(message));
            }
        }
        let is_png = match output_extension {
            Some(e) => is_png_extension(Some(e.as_str())),
            None => is_png_extension(None),
        };
        if !is_png {
            return Err(AppError::InvalidParams);
        }
        Ok(())
    }

    /// Validates the arguments against what the file system says about them
    /// (see [`Args::validate_with`]); the output's parent and extension are
    /// found with `std::path::Path`.
    pub fn validate(&self, checks: &PathChecks) -> (res: Result<(), AppError>)
        ensures
            res is Ok <==> (!is_blank_spec(self.plugin@) && checks.input_is_file
                && checks.params_is_file && checks.plugin_path_is_dir && (spec_path_parent(
                self.output@,
            ) is None || checks.output_parent_exists) && output_is_png_spec(self.output@)),
            is_blank_spec(self.plugin@) ==> res matches Err(AppError::InvalidParams),
            !is_blank_spec(self.plugin@) && !checks.input_is_file ==> is_not_found(
                res,
                "input file not found: "@ + self.input@,
            ),
            !is_blank_spec(self.plugin@) && checks.input_is_file && !checks.params_is_file
                ==> is_not_found(res, "params file not found: "@ + self.params@),
            !is_blank_spec(self.plugin@) && checks.input_is_file && checks.params_is_file
                && !checks.plugin_path_is_dir ==> res matches Err(AppError::InvalidPluginPath),
            !is_blank_spec(self.plugin@) && checks.input_is_file && checks.params_is_file
                && checks.plugin_path_is_dir && !checks.output_parent_exists ==> (
            match spec_path_parent(self.output@) {
                Some(p) => is_not_found(res, "output directory not found: "@ + p),
                None => true,
            }),
            !is_blank_spec(self.plugin@) && checks.input_is_file && checks.params_is_file
                && checks.plugin_path_is_dir && (spec_path_parent(self.output@) is None
                || checks.output_parent_exists) && !output_is_png_spec(self.output@)
                ==> res matches Err(AppError::InvalidParams),
    {
        let parent = path_parent(self.output.as_str());
        let ext = path_extension(self.output.as_str());
        self.validate_with(checks, parent, ext)
    }
}

} // verus!
