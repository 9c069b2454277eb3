//! File-name and directory rules: where the installation lives, which base
//! names are acceptable, how staging directories are named and where copied
//! files land.
use vstd::prelude::*;


use crate::paths::{
    config_dir_text, data_dir_text, home_dir_text, opt_view, path_ends_with, path_file_name,
    path_join, path_parent, spec_file_name, spec_path_ends_with, spec_path_join, spec_path_parent,
};
use crate::text::{
    all_name_chars, chars_of, ends_with_chars, has_suffix, is_name_char, name_char, only_name_chars,
    substring,
};

verus! {

/// Errors of the file-system helpers.
#[derive(Debug, Clone, PartialEq, Eq)]
pub enum ArcellaUtilsError {
    /// An argument was rejected, with the reason.
    InvalidArgument { message: String },
    /// An internal failure, with its message.
    Internal(String),
    /// An I/O failure on a path: its message and the path.
    IoWithPath { source: String, path: String },
    /// An I/O failure, with its message.
    Io(String),
}

/// Maximum allowed recursion depth when traversing nested TOML tables.
pub const MAX_TOML_DEPTH: usize = 10;

/// Outcome of a recursive traversal of a TOML document: complete, or cut
/// at [`MAX_TOML_DEPTH`].
#[derive(Debug, Clone, Copy, PartialEq, Eq)]
pub enum TraversalResult {
    Full,
    Pruned,
}

/// Maximum allowed length of a base name, in bytes.
pub const MAX_BASE_NAME_LENGTH: usize = 128;

/// The installation's base and configuration directories.
#[derive(Debug, Clone, PartialEq, Eq)]
pub struct AppDirs {
    pub base: String,
    pub config: String,
}

/// The views of optional directories.
pub open spec fn dirs_view(d: Option<AppDirs>) -> Option<(Seq<char>, Seq<char>)> {
    match d {
        Some(a) => Some((a.base@, a.config@)),
        None => None,
    }
}

/// The installation next to the executable `exe`: its directory, or the
/// parent of that directory when it is a `bin` directory that is not
/// directly under the root; the configuration directory is `config` under
/// it. `None` when `exe` has no (non-empty) directory.
pub open spec fn spec_exe_dirs(exe: Seq<char>) -> Option<(Seq<char>, Seq<char>)> {
    match spec_path_parent(exe) {
        None => None,
        Some(d) => if d.len() == 0 {
            None
        } else {
            let base = if spec_path_ends_with(d, "bin"@) {
                match spec_path_parent(d) {
                    None => None,
                    Some(g) => match spec_path_parent(g) {
                        None => None,
                        Some(_) => Some(g),
                    },
                }
            } else {
                Some(d)
            };
            match base {
                None => None,
                Some(b) => Some((b, spec_path_join(b, "config"@))),
            }
        },
    }
}

/// The candidate installation next to the executable `exe`; see
/// [`spec_exe_dirs`]. Whether its configuration directory exists is for
/// the caller to check.
pub fn exe_relative_dirs(exe: &str) -> (r: Option<AppDirs>)
    ensures
        dirs_view(r) == spec_exe_dirs(exe@),
{
    let exe_dir = match path_parent(exe) {
        Some(d) => d,
        None => {
            return None;
        },
    };
    if exe_dir.unicode_len() == 0 {
        return None;
    }
    let base = if path_ends_with(exe_dir.as_str(), "bin") {
        let grandparent = match path_parent(exe_dir.as_str()) {
            Some(g) => g,
            None => {
                return None;
            },
        };
        if path_parent(grandparent.as_str()).is_none() {
            return None;
        }
        grandparent
    } else {
        exe_dir
    };
    let config = path_join(base.as_str(), "config");
    Some(AppDirs { base, config })
}

/// The platform directories: with a configuration directory `c`, config is
/// `c/arcella` and base is `d/arcella` for the data directory `d`, or
/// `h/.arcella` for the home directory `h`; without one, base is
/// `h/.arcella` and config is `h/.arcella/config`.
pub open spec fn spec_platform_dirs(
    config_dir: Option<Seq<char>>,
    data_dir: Option<Seq<char>>,
    home_dir: Option<Seq<char>>,
) -> Option<(Seq<char>, Seq<char>)> {
    let home_base = match home_dir {
        Some(h) => Some(spec_path_join(h, ".arcella"@)),
        None => None,
    };
    match config_dir {
        Some(c) => {
            let base = match data_dir {
                Some(d) => Some(spec_path_join(d, "arcella"@)),
                None => home_base,
            };
            match base {
                Some(b) => Some((b, spec_path_join(c, "arcella"@))),
                None => None,
            }
        },
        None => match home_base {
            Some(b) => Some((b, spec_path_join(b, "config"@))),
            None => None,
        },
    }
}

/// The message when no directory can be determined.
pub open spec fn no_dirs_message() -> Seq<char> {
    "Cannot determine app directories"@
}

/// The application directories: `exe_dirs` (the installation next to the
/// executable, when its configuration directory exists), else the platform
/// directories of [`spec_platform_dirs`], else an internal error.
pub fn choose_app_dirs(
    exe_dirs: Option<AppDirs>,
    config_dir: Option<String>,
    data_dir: Option<String>,
    home_dir: Option<String>,
) -> (r: Result<AppDirs, ArcellaUtilsError>)
    ensures
        exe_dirs is Some ==> r == Ok::<_, ArcellaUtilsError>(exe_dirs->0),
        exe_dirs is None ==> match spec_platform_dirs(
            opt_view(config_dir),
            opt_view(data_dir),
            opt_view(home_dir),
        ) {
            Some(p) => r matches Ok(d) && (d.base@, d.config@) == p,
            None => r matches Err(ArcellaUtilsError::Internal(m)) && m@ == no_dirs_message(),
        },
{
    if let Some(d) = exe_dirs {
        return Ok(d);
    }
    let home_base = match &home_dir {
        Some(h) => Some(path_join(h.as_str(), ".arcella")),
        None => None,
    };
    match config_dir {
        Some(c) => {
            let base = match data_dir {
                Some(d) => Some(path_join(d.as_str(), "arcella")),
                None => home_base,
            };
            match base {
                Some(b) => Ok(AppDirs { base: b, config: path_join(c.as_str(), "arcella") }),
                None => Err(ArcellaUtilsError::Internal("Cannot determine app directories".to_string())),
            }
        },
        None => match home_base {
            Some(b) => {
                let config = path_join(b.as_str(), "config");
                Ok(AppDirs { base: b, config })
            },
            None => Err(ArcellaUtilsError::Internal("Cannot determine app directories".to_string())),
        },
    }
}

/// The application directories, the platform ones coming from the `dirs`
/// crate; see [`choose_app_dirs`].
pub fn get_app_dirs(exe_dirs: Option<AppDirs>) -> (r: Result<AppDirs, ArcellaUtilsError>)
    ensures
        exe_dirs is Some ==> r == Ok::<_, ArcellaUtilsError>(exe_dirs->0),
        exe_dirs is None ==> exists|c: Option<Seq<char>>, d: Option<Seq<char>>, h: Option<Seq<char>>|
            match #[trigger] spec_platform_dirs(c, d, h) {
                Some(p) => r matches Ok(a) && (a.base@, a.config@) == p,
                None => r matches Err(ArcellaUtilsError::Internal(m)) && m@ == no_dirs_message(),
            },
{
    let c = config_dir_text();
    let d = data_dir_text();
    let h = home_dir_text();
    let ghost (cv, dv, hv) = (opt_view(c), opt_view(d), opt_view(h));
    let r = choose_app_dirs(exe_dirs, c, d, h);
    assert(exe_dirs is None ==> match spec_platform_dirs(cv, dv, hv) {
        Some(p) => r matches Ok(a) && (a.base@, a.config@) == p,
        None => r matches Err(ArcellaUtilsError::Internal(m)) && m@ == no_dirs_message(),
    });
    r
}

/// The reason a base name is refused, if it is: empty or longer than
/// [`MAX_BASE_NAME_LENGTH`] bytes; a character other than ASCII letters,
/// digits, `-` and `_`.
pub open spec fn base_name_error(name: Seq<char>) -> Option<Seq<char>> {
    if name.len() == 0 || vstd::utf8::encode_utf8(name).len() > MAX_BASE_NAME_LENGTH {
        Some("Base name is empty or too long"@)
    } else if !all_name_chars(name) {
        Some("Base name contains invalid characters (allowed: a-z, A-Z, 0-9, -, _)"@)
    } else {
        None
    }
}

/// The base-name rule is the module-name rule: a base name is accepted
/// exactly when it is a valid module name.
pub proof fn law_base_name_is_module_name(name: Seq<char>)
    ensures
        base_name_error(name) is None <==> crate::arcella_types::module_id::spec_is_valid_name(
            name,
        ),
{
    if all_name_chars(name) {
        assert(vstd::utf8::is_ascii_chars(name)) by {
            assert forall|i: int| 0 <= i < name.len() implies '\0' <= #[trigger] name[i] <= '\u{7f}' by {
                assert(is_name_char(name[i]));
            }
        }
        vstd::utf8::is_ascii_chars_encode_utf8(name);
    }
}

/// Checks that a base name (a module name, a deployment ID) holds only safe
/// characters; it is accepted exactly when it is a valid module name (see
/// [`base_name_error`] for the reason given otherwise).
pub fn validate_base_name(name: &str) -> (r: Result<(), ArcellaUtilsError>)
    ensures
        r is Ok <==> crate::arcella_types::module_id::spec_is_valid_name(name@),
        match base_name_error(name@) {
            None => r is Ok,
            Some(m) => r matches Err(ArcellaUtilsError::InvalidArgument { message }) && message@
                == m,
        },
{
    proof {
        law_base_name_is_module_name(name@);
    }
    let chars = chars_of(name);
    let byte_len = name.as_bytes().len();
    if chars.len() == 0 || byte_len > MAX_BASE_NAME_LENGTH {
        return Err(
            ArcellaUtilsError::InvalidArgument {
                message: "Base name is empty or too long".to_string(),
            },
        );
    }
    if !only_name_chars(&chars) {
        return Err(
            ArcellaUtilsError::InvalidArgument {
                message: "Base name contains invalid characters (allowed: a-z, A-Z, 0-9, -, _)".to_string(),
            },
        );
    }
    Ok(())
}

/// The base name of the file name `f` for the extension `ext`: `f` must be
/// `<base>.<ext>` with a non-empty base.
pub open spec fn spec_strip_ext(f: Seq<char>, ext: Seq<char>) -> Option<Seq<char>> {
    if has_suffix(f, ext) {
        let p = f.take(f.len() - ext.len());
        if has_suffix(p, "."@) && p.len() > 1 {
            Some(p.take(p.len() - 1))
        } else {
            None
        }
    } else {
        None
    }
}

/// The message when a path has no file name.
pub open spec fn no_file_name_message() -> Seq<char> {
    "File has no valid UTF-8 name"@
}

/// The message when a file name lacks the extension.
pub open spec fn wrong_ext_message(f: Seq<char>, ext: Seq<char>) -> Seq<char> {
    "File '"@ + f + "' does not have extension '"@ + ext + "'"@
}

/// A string holding the concatenation of the five parts.
fn concat5(a: &str, b: &str, c: &str, d: &str, e: &str) -> (r: String)
    ensures
        r@ == a@ + b@ + c@ + d@ + e@,
{
    let mut r = String::from_str(a);
    r.append(b);
    r.append(c);
    r.append(d);
    r.append(e);
    r
}

/// Extracts the base name of a file by stripping a required extension:
/// `/x/app.wasm` gives `app` for `wasm`, `web.deployment.toml` gives `web`
/// for `deployment.toml`.
pub fn base_name_strip_ext(path: &str, ext: &str) -> (r: Result<String, ArcellaUtilsError>)
    ensures
        match spec_file_name(path@) {
            None => r matches Err(ArcellaUtilsError::InvalidArgument { message }) && message@
                == no_file_name_message(),
            Some(f) => match spec_strip_ext(f, ext@) {
                Some(b) => r matches Ok(s) && s@ == b,
                None => r matches Err(ArcellaUtilsError::InvalidArgument { message }) && message@
                    == wrong_ext_message(f, ext@),
            },
        },
{
    let file_name = match path_file_name(path) {
        Some(f) => f,
        None => {
            return Err(
                ArcellaUtilsError::InvalidArgument {
                    message: "File has no valid UTF-8 name".to_string(),
                },
            );
        },
    };
    let f = chars_of(file_name.as_str());
    let e = chars_of(ext);
    let mut dot: Vec<char> = Vec::new();
    dot.push('.');
    proof {
        reveal_strlit(".");
        assert(dot@ =~= "."@);
    }
    if ends_with_chars(&f, &e) {
        let plen = f.len() - e.len();
        let p = substring(file_name.as_str(), 0, plen);
        let pc = chars_of(p.as_str());
        assert(pc@ =~= f@.take(f@.len() - e@.len()));
        if ends_with_chars(&pc, &dot) && pc.len() > 1 {
            let b = substring(p.as_str(), 0, pc.len() - 1);
            return Ok(b);
        }
    }
    Err(
        ArcellaUtilsError::InvalidArgument {
            message: concat5("File '", file_name.as_str(), "' does not have extension '", ext, "'"),
        },
    )
}

/// Replaces each character of `p` that is not an ASCII letter, digit, `_`
/// or `-` with `_`.
pub open spec fn sanitized(p: Seq<char>) -> Seq<char> {
    p.map_values(|c: char| if is_name_char(c) { c } else { '_' })
}

/// The name of a staging directory: `<prefix>.tmp-<uuid>` with the prefix
/// sanitized, or `tmp-<uuid>` without a prefix.
pub open spec fn spec_temp_name(prefix: Option<Seq<char>>, uuid: Seq<char>) -> Seq<char> {
    match prefix {
        Some(p) => sanitized(p) + ".tmp-"@ + uuid,
        None => "tmp-"@ + uuid,
    }
}

/// A lowercase hexadecimal digit.
pub open spec fn is_lower_hex(c: char) -> bool {
    ('0' <= c && c <= '9') || ('a' <= c && c <= 'f')
}

/// The simple text of a UUID: 32 lowercase hexadecimal digits.
pub open spec fn is_simple_uuid(u: Seq<char>) -> bool {
    u.len() == 32 && forall|i: int| 0 <= i < u.len() ==> is_lower_hex(#[trigger] u[i])
}

/// The views of an optional text.
pub open spec fn opt_str_view(p: Option<&str>) -> Option<Seq<char>> {
    match p {
        Some(s) => Some(s@),
        None => None,
    }
}

/// The name of a staging directory for `prefix` and `uuid`; see
/// [`spec_temp_name`].
pub fn temp_subdir_name(prefix: Option<&str>, uuid: &str) -> (r: String)
    ensures
        r@ == spec_temp_name(opt_str_view(prefix), uuid@),
{
    match prefix {
        Some(p) => {
            let chars = chars_of(p);
            let mut r = String::new();
            let mut i: usize = 0;
            while i < chars.len()
                invariant
                    0 <= i <= chars.len(),
                    chars@ == p@,
                    r@ == sanitized(chars@.take(i as int)),
                decreases chars.len() - i,
            {
                let c = chars[i];
                let ghost keep = if is_name_char(c) { c } else { '_' };
                if name_char(c) {
                    let one = substring(p, i, i + 1);
                    assert(one@ =~= seq![c]);
                    r.append(one.as_str());
                } else {
                    r.append("_");
                    proof {
                        reveal_strlit("_");
                    }
                }
                assert(sanitized(chars@.take(i + 1)) =~= sanitized(chars@.take(i as int)).push(keep));
                i += 1;
            }
            assert(chars@.take(chars.len() as int) =~= chars@);
            r.append(".tmp-");
            r.append(uuid);
            proof {
                reveal_strlit(".tmp-");
            }
            r
        },
        None => {
            let mut r = String::from_str("tmp-");
            r.append(uuid);
            r
        },
    }
}

/// The lowercase hexadecimal digit of `n` (below 16).
pub open spec fn hex_digit(n: int) -> char {
    if n < 10 {
        ('0' as int + n) as char
    } else {
        ('a' as int + n - 10) as char
    }
}

/// The bytes of a version-4 UUID made from `b`: the high four bits of byte
/// 6 become the version, 4 (`(b & 0x0f) | 0x40`), and the high two bits of
/// byte 8 the RFC 4122 variant, `10` (`(b & 0x3f) | 0x80`).
pub open spec fn uuid_v4_bytes(b: Seq<u8>) -> Seq<u8> {
    b.update(6, (b[6] % 16 + 64) as u8).update(8, (b[8] % 64 + 128) as u8)
}

/// Each byte as two lowercase hexadecimal digits, high nibble first.
pub open spec fn hex_text(b: Seq<u8>) -> Seq<char> {
    Seq::new(
        2 * b.len(),
        |i: int|
            if i % 2 == 0 {
                hex_digit(b[i / 2] as int / 16)
            } else {
                hex_digit(b[i / 2] as int % 16)
            },
    )
}

/// The simple text of the version-4 UUID built from 16 random bytes.
pub open spec fn spec_uuid_v4_text(random_bytes: Seq<u8>) -> Seq<char> {
    hex_text(uuid_v4_bytes(random_bytes))
}

/// The version-4 UUID built from `random_bytes` with
/// `Builder::from_random_bytes`, in its simple text form.
///
/// Claimed of the crate, as its source writes it: `from_random_bytes` sets
/// the version bits of byte 6 and the variant bits of byte 8
/// ([`uuid_v4_bytes`]), and the simple form writes each byte as two
/// lowercase hexadecimal digits ([`hex_text`]).
#[verifier::external_body]
fn uuid_v4_simple(random_bytes: [u8; 16]) -> (r: String)
    ensures
        r@ == spec_uuid_v4_text(random_bytes@),
{
    uuid::Builder::from_random_bytes(random_bytes).into_uuid().simple().to_string()
}

/// A staging directory name for `prefix`: [`spec_temp_name`] with the
/// version-4 UUID built from `random_bytes` (which the caller draws).
pub fn fresh_temp_subdir_name(prefix: Option<&str>, random_bytes: [u8; 16]) -> (r: String)
    ensures
        r@ == spec_temp_name(opt_str_view(prefix), spec_uuid_v4_text(random_bytes@)),
        is_simple_uuid(spec_uuid_v4_text(random_bytes@)),
{
    let u = uuid_v4_simple(random_bytes);
    proof {
        let t = spec_uuid_v4_text(random_bytes@);
        let b = uuid_v4_bytes(random_bytes@);
        assert forall|i: int| 0 <= i < t.len() implies is_lower_hex(#[trigger] t[i]) by {
            let x = b[i / 2];
            assert(0 <= x / 16 < 16);
            assert(0 <= x % 16 < 16);
        }
    }
    temp_subdir_name(prefix, u.as_str())
}

/// The destination of each file copied into `target`, or the first refusal:
/// a target that is not a directory (unless there is nothing to copy), or
/// a file without a name.
pub open spec fn spec_copy_plan(
    files: Seq<Seq<char>>,
    target: Seq<char>,
    target_is_dir: bool,
) -> Result<Seq<(Seq<char>, Seq<char>)>, Seq<char>> {
    if files.len() == 0 {
        Ok(Seq::empty())
    } else if !target_is_dir {
        Err("Target is not a directory: '"@ + target + "'"@)
    } else {
        copy_dests(files, target)
    }
}

/// The destinations of `files` under `target`, or the message for the first
/// file without a name.
pub open spec fn copy_dests(files: Seq<Seq<char>>, target: Seq<char>) -> Result<
    Seq<(Seq<char>, Seq<char>)>,
    Seq<char>,
>
    decreases files.len(),
{
    if files.len() == 0 {
        Ok(Seq::empty())
    } else {
        match copy_dests(files.drop_last(), target) {
            Err(m) => Err(m),
            Ok(done) => match spec_file_name(files.last()) {
                None => Err("File has no name: '"@ + files.last() + "'"@),
                Some(n) => Ok(done.push((files.last(), spec_path_join(target, n)))),
            },
        }
    }
}

/// The views of source and destination pairs.
pub open spec fn pairs_view(v: Seq<(String, String)>) -> Seq<(Seq<char>, Seq<char>)> {
    v.map_values(|p: (String, String)| (p.0@, p.1@))
}

/// The views of texts.
pub open spec fn strs_view(v: Seq<String>) -> Seq<Seq<char>> {
    v.map_values(|s: String| s@)
}

/// Where each of `files` goes when copied into `target_dir` (its file name
/// under the directory), in order; see [`spec_copy_plan`]. The copying
/// itself, and the optional `fsync`, are the caller's.
pub fn plan_copies(files: &Vec<String>, target_dir: &str, target_is_dir: bool) -> (r: Result<
    Vec<(String, String)>,
    ArcellaUtilsError,
>)
    ensures
        match spec_copy_plan(strs_view(files@), target_dir@, target_is_dir) {
            Ok(p) => r matches Ok(v) && pairs_view(v@) == p,
            Err(m) => r matches Err(ArcellaUtilsError::InvalidArgument { message }) && message@
                == m,
        },
{
    let mut plan: Vec<(String, String)> = Vec::new();
    if files.len() == 0 {
        assert(pairs_view(plan@) =~= Seq::empty());
        return Ok(plan);
    }
    if !target_is_dir {
        let mut m = String::from_str("Target is not a directory: '");
        m.append(target_dir);
        m.append("'");
        return Err(ArcellaUtilsError::InvalidArgument { message: m });
    }
    let mut i: usize = 0;
    assert(strs_view(files@.take(0)) =~= Seq::<Seq<char>>::empty());
    assert(pairs_view(plan@) =~= Seq::<(Seq<char>, Seq<char>)>::empty());
    while i < files.len()
        invariant
            0 <= i <= files.len(),
            target_is_dir,
            copy_dests(strs_view(files@.take(i as int)), target_dir@) == Ok::<_, Seq<char>>(
                pairs_view(plan@),
            ),
        decreases files.len() - i,
    {
        assert(strs_view(files@.take(i + 1)).drop_last() =~= strs_view(files@.take(i as int)));
        assert(strs_view(files@.take(i + 1)).last() == files@[i as int]@);
        match path_file_name(files[i].as_str()) {
            None => {
                let mut m = String::from_str("File has no name: '");
                m.append(files[i].as_str());
                m.append("'");
                proof {
                    assert(strs_view(files@.take(i + 1)) =~= strs_view(files@).take(i + 1));
                    lemma_dests_err_stays(strs_view(files@), target_dir@, i as int + 1);
                }
                return Err(ArcellaUtilsError::InvalidArgument { message: m });
            },
            Some(n) => {
                let dest = path_join(target_dir, n.as_str());
                let ghost prev = plan@;
                let ghost dv = dest@;
                plan.push((files[i].clone(), dest));
                assert(pairs_view(plan@) =~= pairs_view(prev).push((files@[i as int]@, dv)));
            },
        }
        i += 1;
    }
    assert(files@.take(files.len() as int) =~= files@);
    assert(strs_view(files@).len() > 0);
    Ok(plan)
}

/// Once a prefix of the files meets a nameless file, the whole list is
/// refused with that file's message.
proof fn lemma_dests_err_stays(s: Seq<Seq<char>>, target: Seq<char>, k: int)
    requires
        0 <= k <= s.len(),
        copy_dests(s.take(k), target) is Err,
    ensures
        copy_dests(s, target) == copy_dests(s.take(k), target),
    decreases s.len(),
{
    if k == s.len() {
        assert(s.take(k) =~= s);
    } else {
        assert(s.drop_last().take(k) =~= s.take(k));
        lemma_dests_err_stays(s.drop_last(), target, k);
    }
}

} // verus!
