//! Where the configuration files are, and what they hold.

use vstd::prelude::*;
use vstd::string::*;
use vstd::utf8::{
    decode_utf8, encode_utf8, encode_utf8_decode_utf8, encode_utf8_valid_utf8, valid_utf8,
};

use crate::app::error::{outcome, DaemonError, ErrorView};
use crate::config::migration::{normal_line, normalize_legacy_line};
use crate::text::{
    bytes_of, copy, is_space, join, join_strings, lacks, lines, lines_after_an_end,
    lines_hold_no_end, lines_of_an_ended_text, lines_of_an_open_row, read_utf8, same, split_lines,
    starts_with, strip_return, text, texts, trim, trim_brings_in_nothing,
    trim_has_no_space_at_its_ends, trim_is_idempotent, trimmed, utf8_error_text,
};

verus! {

/// The module directory where none is configured.
pub const DEFAULT_MODULE_DIR: &'static str = "/data/adb/modules/freezeit";

/// The environment variable that names the module directory.
pub const MODULE_DIR_ENV: &'static str = "FREEZEIT_MODULE_DIR";

/// The largest settings database that is read.
pub const MAX_SETTINGS_DB_BYTES: usize = 1_048_576;

/// The module directory: the value of the first `--module-dir` behind the program name, from
/// the `k`-th argument on, else the environment's, else the default.
pub open spec fn module_dir_from(
    args: Seq<Seq<char>>,
    k: int,
    env: Option<Seq<char>>,
) -> Result<Seq<char>, ErrorView>
    decreases args.len() - k,
{
    if k >= args.len() || k < 0 {
        match env {
            Some(dir) if trim(dir).len() > 0 => Ok(trim(dir)),
            _ => Ok(DEFAULT_MODULE_DIR@),
        }
    } else if args[k] == "--module-dir"@ {
        if k + 1 < args.len() && trim(args[k + 1]).len() > 0 {
            Ok(trim(args[k + 1]))
        } else {
            Err(ErrorView::Config("--module-dir requires a non-empty path"@))
        }
    } else {
        module_dir_from(args, k + 1, env)
    }
}

/// Finds the module directory.
pub fn resolve_module_dir(args: &[String], env_module_dir: Option<&str>) -> (r: Result<
    String,
    DaemonError,
>)
    ensures
        match r {
            Ok(dir) => module_dir_from(
                texts(args@),
                1,
                match env_module_dir {
                    Some(d) => Some(d@),
                    None => None,
                },
            ) == Ok::<Seq<char>, ErrorView>(dir@),
            Err(e) => module_dir_from(
                texts(args@),
                1,
                match env_module_dir {
                    Some(d) => Some(d@),
                    None => None,
                },
            ) == Err::<Seq<char>, ErrorView>(e@),
        },
{
    let ghost all = texts(args@);
    let ghost env = match env_module_dir {
        Some(d) => Some(d@),
        None => None,
    };
    if args.len() > 1 {
        let mut k: usize = 1;
        while k < args.len()
            invariant
                1 <= k <= args@.len(),
                all == texts(args@),
                all.len() == args@.len(),
                forall|i: int| 0 <= i < args@.len() ==> all[i] == args@[i]@,
                env == (match env_module_dir {
                    Some(d) => Some(d@),
                    None => None,
                }),
                module_dir_from(all, 1, env) == module_dir_from(all, k as int, env),
            decreases args@.len() - k,
        {
            if same(args[k].as_str(), "--module-dir") {
                if k + 1 < args.len() {
                    let value = trimmed(args[k + 1].as_str());
                    if !value.as_str().is_empty() {
                        return Ok(value);
                    }
                }
                return Err(DaemonError::config("--module-dir requires a non-empty path"));
            }
            k += 1;
        }
    }
    match env_module_dir {
        Some(dir) => {
            let value = trimmed(dir);
            if value.as_str().is_empty() {
                Ok(text(DEFAULT_MODULE_DIR))
            } else {
                Ok(value)
            }
        },
        None => Ok(text(DEFAULT_MODULE_DIR)),
    }
}

/// Prepares the configuration; there is nothing to prepare.
pub fn load_initial_config() -> (r: Result<(), DaemonError>)
    ensures
        r is Ok,
{
    Ok(())
}

/// The paths of the configuration files.
#[derive(Debug, Clone, PartialEq, Eq)]
pub struct DaemonPaths {
    pub module_dir: String,
    pub app_config: String,
    pub app_label: String,
    pub settings_db: String,
    pub rom_baseline: String,
    pub verified_targets: String,
}

fn joined(dir: &str, name: &str) -> (r: String)
    ensures
        r@ == dir@ + name@,
{
    let mut out = copy(dir);
    out.append(name);
    out
}

impl DaemonPaths {
    /// The paths in a module directory.
    pub fn from_module_dir(module_dir: &str) -> (r: Self)
        ensures
            r.module_dir@ == module_dir@,
            r.app_config@ == module_dir@ + "/appcfg.txt"@,
            r.app_label@ == module_dir@ + "/applabel.txt"@,
            r.settings_db@ == module_dir@ + "/settings.db"@,
            r.rom_baseline@ == module_dir@ + "/rom_baseline.prop"@,
            r.verified_targets@ == module_dir@ + "/verified_targets.txt"@,
    {
        DaemonPaths {
            module_dir: copy(module_dir),
            app_config: joined(module_dir, "/appcfg.txt"),
            app_label: joined(module_dir, "/applabel.txt"),
            settings_db: joined(module_dir, "/settings.db"),
            rom_baseline: joined(module_dir, "/rom_baseline.prop"),
            verified_targets: joined(module_dir, "/verified_targets.txt"),
        }
    }
}

/// The content of the policy files that exist.
#[derive(Debug, Clone, PartialEq, Eq)]
pub struct LoadedPolicyFiles {
    pub app_config: Option<String>,
    pub app_label: Option<String>,
    pub settings: Option<Vec<u8>>,
}

impl LoadedPolicyFiles {
    /// Whether any of the files exists.
    pub fn is_available(&self) -> (r: bool)
        ensures
            r == (self.app_config is Some || self.app_label is Some || self.settings is Some),
    {
        self.app_config.is_some() || self.app_label.is_some() || self.settings.is_some()
    }
}

/// Whether the settings database is too large to be read.
pub fn settings_size_check(size: usize) -> (r: Result<(), DaemonError>)
    ensures
        outcome(r) == (if size > MAX_SETTINGS_DB_BYTES {
            Err::<(), ErrorView>(settings_too_large())
        } else {
            Ok::<(), ErrorView>(())
        }),
{
    if size > MAX_SETTINGS_DB_BYTES {
        Err(DaemonError::config("settings database exceeds 1048576 byte limit"))
    } else {
        Ok(())
    }
}

/// The error about settings that are too large.
pub open spec fn settings_too_large() -> ErrorView {
    ErrorView::Config("settings database exceeds 1048576 byte limit"@)
}

/// The policy files as they were read, strictly: the first failure is returned, and settings
/// that are too large are refused.
pub fn load_policy_files(
    app_config: Result<Option<String>, DaemonError>,
    app_label: Result<Option<String>, DaemonError>,
    settings: Result<Option<Vec<u8>>, DaemonError>,
) -> (r: Result<LoadedPolicyFiles, DaemonError>)
    ensures
        match (app_config, app_label, settings) {
            (Err(e), _, _) => r == Err::<LoadedPolicyFiles, DaemonError>(e),
            (Ok(_), Err(e), _) => r == Err::<LoadedPolicyFiles, DaemonError>(e),
            (Ok(_), Ok(_), Err(e)) => r == Err::<LoadedPolicyFiles, DaemonError>(e),
            (Ok(a), Ok(b), Ok(c)) => if too_large(c) {
                r matches Err(e) && e@ == settings_too_large()
            } else {
                r == Ok::<LoadedPolicyFiles, DaemonError>(
                    LoadedPolicyFiles { app_config: a, app_label: b, settings: c },
                )
            },
        },
{
    let app_config = match app_config {
        Ok(v) => v,
        Err(e) => {
            return Err(e);
        },
    };
    let app_label = match app_label {
        Ok(v) => v,
        Err(e) => {
            return Err(e);
        },
    };
    let settings = match limited_settings(settings) {
        Ok(v) => v,
        Err(e) => {
            return Err(e);
        },
    };
    Ok(LoadedPolicyFiles { app_config, app_label, settings })
}

/// There are settings, and they are too large.
pub open spec fn too_large(settings: Option<Vec<u8>>) -> bool {
    settings matches Some(v) && v@.len() > MAX_SETTINGS_DB_BYTES
}

/// A reading of the settings, refused where they are too large.
fn limited_settings(settings: Result<Option<Vec<u8>>, DaemonError>) -> (r: Result<
    Option<Vec<u8>>,
    DaemonError,
>)
    ensures
        match settings {
            Err(e) => r == Err::<Option<Vec<u8>>, DaemonError>(e),
            Ok(v) => if too_large(v) {
                r matches Err(e) && e@ == settings_too_large()
            } else {
                r == Ok::<Option<Vec<u8>>, DaemonError>(v)
            },
        },
{
    match settings {
        Err(e) => Err(e),
        Ok(None) => Ok(None),
        Ok(Some(bytes)) => match settings_size_check(bytes.len()) {
            Err(e) => Err(e),
            Ok(()) => Ok(Some(bytes)),
        },
    }
}

/// The value of a reading; none where it failed.
pub open spec fn readable<T>(r: Result<Option<T>, DaemonError>) -> Option<T> {
    match r {
        Ok(v) => v,
        Err(_) => None,
    }
}

/// The policy files as far as they could be read. Settings that are too large count as not
/// readable.
pub fn load_policy_files_recovering(
    app_config: Result<Option<String>, DaemonError>,
    app_label: Result<Option<String>, DaemonError>,
    settings: Result<Option<Vec<u8>>, DaemonError>,
) -> (r: LoadedPolicyFiles)
    ensures
        r.app_config == readable(app_config),
        r.app_label == readable(app_label),
        r.settings == (if too_large(readable(settings)) {
            None
        } else {
            readable(settings)
        }),
{
    LoadedPolicyFiles {
        app_config: match app_config {
            Ok(v) => v,
            Err(_) => None,
        },
        app_label: match app_label {
            Ok(v) => v,
            Err(_) => None,
        },
        settings: match limited_settings(settings) {
            Ok(v) => v,
            Err(_) => None,
        },
    }
}

/// Writes the lines of the application configuration.
pub fn serialize_manager_app_config(lines: &[String]) -> (r: Vec<u8>)
    ensures
        r@ == encode_utf8(join(texts(lines@), "\n"@)),
{
    let joined = join_strings(lines, "\n");
    bytes_of(joined.as_str())
}

/// The lines that hold something.
pub open spec fn normal_lines(rows: Seq<Seq<char>>) -> Seq<Seq<char>>
    decreases rows.len(),
{
    if rows.len() == 0 {
        seq![]
    } else {
        let rest = normal_lines(rows.drop_last());
        match normal_line(rows.last()) {
            Some(line) => rest.push(line),
            None => rest,
        }
    }
}

/// Reads the lines of the application configuration, without blank lines and comments.
pub fn parse_manager_app_config(payload: &[u8]) -> (r: Result<Vec<String>, DaemonError>)
    ensures
        match r {
            Ok(v) => {
                &&& valid_utf8(payload@)
                &&& texts(v@) == normal_lines(lines(decode_utf8(payload@)))
                &&& storable(texts(v@))
            },
            Err(e) => !valid_utf8(payload@) && e@ == ErrorView::Config(
                "app config is not utf-8: "@ + utf8_error_text(payload@),
            ),
        },
{
    let content = match read_utf8(payload) {
        Ok(content) => content,
        Err(error) => {
            let mut message = text("app config is not utf-8: ");
            message.append(error.as_str());
            return Err(DaemonError::config(message.as_str()));
        },
    };
    let rows = split_lines(content.as_str());
    let ghost all = texts(rows@);
    let mut out: Vec<String> = Vec::new();
    let mut i: usize = 0;
    assert(texts(out@) =~= normal_lines(all.take(0)));
    while i < rows.len()
        invariant
            i <= rows@.len(),
            all == texts(rows@),
            texts(out@) == normal_lines(all.take(i as int)),
        decreases rows@.len() - i,
    {
        assert(all.take(i + 1).drop_last() =~= all.take(i as int));
        assert(all.take(i + 1).last() == rows@[i as int]@);
        match normalize_legacy_line(rows[i].as_str()) {
            Some(line) => {
                let ghost done = texts(out@);
                out.push(line);
                assert(texts(out@) =~= done.push(line@));
            },
            None => {},
        }
        i += 1;
    }
    assert(all.take(i as int) =~= all);
    proof {
        lines_hold_no_end(content@);
        normal_lines_are_storable(all);
    }
    Ok(out)
}

/// Lines that hold something and can stand in a file.
pub open spec fn storable(rows: Seq<Seq<char>>) -> bool {
    forall|i: int|
        0 <= i < rows.len() ==> normal_line(#[trigger] rows[i]) == Some(rows[i]) && lacks(
            rows[i],
            '\n',
        )
}

/// Lines that were serialized are the lines that are read.
pub proof fn serialized_lines_read_back(rows: Seq<Seq<char>>)
    requires
        storable(rows),
    ensures
        ({
            let bytes = encode_utf8(join(rows, "\n"@));
            valid_utf8(bytes) && normal_lines(lines(decode_utf8(bytes))) == rows
        }),
{
    encode_utf8_valid_utf8(join(rows, "\n"@));
    encode_utf8_decode_utf8(join(rows, "\n"@));
    joined_lines(rows);
    normal_lines_stay(rows);
}

proof fn normal_lines_stay(rows: Seq<Seq<char>>)
    requires
        storable(rows),
    ensures
        normal_lines(rows) == rows,
    decreases rows.len(),
{
    if rows.len() > 0 {
        let rest = rows.drop_last();
        assert(storable(rest)) by {
            assert forall|i: int| 0 <= i < rest.len() implies normal_line(#[trigger] rest[i])
                == Some(rest[i]) && lacks(rest[i], '\n') by {
                assert(rest[i] == rows[i]);
            }
        }
        normal_lines_stay(rest);
        assert(normal_line(rows[rows.len() - 1]) == Some(rows.last()));
        assert(rest.push(rows.last()) =~= rows);
    } else {
        assert(normal_lines(rows) =~= rows);
    }
}

proof fn joined_lines(rows: Seq<Seq<char>>)
    requires
        storable(rows),
    ensures
        lines(join(rows, "\n"@)) == rows,
        rows.len() > 0 ==> join(rows, "\n"@).len() > 0 && join(rows, "\n"@).last()
            == rows.last().last(),
    decreases rows.len(),
{
    reveal_strlit("\n");
    if rows.len() == 0 {
        assert(lines(join(rows, "\n"@)) =~= rows);
    } else {
        let last = rows.last();
        assert(rows[rows.len() - 1] == last);
        assert(normal_line(last) == Some(last));
        trim_has_no_space_at_its_ends(last);
        lines_of_an_open_row(last);
        let rest = rows.drop_last();
        if rows.len() == 1 {
            assert(rows =~= seq![last]);
        } else {
            assert(storable(rest)) by {
                assert forall|i: int| 0 <= i < rest.len() implies normal_line(#[trigger] rest[i])
                    == Some(rest[i]) && lacks(rest[i], '\n') by {
                    assert(rest[i] == rows[i]);
                }
            }
            joined_lines(rest);
            let before = rest.last();
            assert(rest[rest.len() - 1] == before);
            assert(normal_line(before) == Some(before));
            trim_has_no_space_at_its_ends(before);
            let head = join(rest, "\n"@);
            lines_of_an_ended_text(head);
            assert(strip_return(before) == before);
            assert(rest.drop_last().push(before) =~= rest);
            lines_after_an_end(head.push('\n'), last);
            assert(join(rows, "\n"@) =~= head.push('\n') + last);
            assert(rest + seq![last] =~= rows);
        }
    }
}

/// What is left of lines can stand in a file.
proof fn normal_lines_are_storable(rows: Seq<Seq<char>>)
    requires
        forall|i: int| 0 <= i < rows.len() ==> lacks(#[trigger] rows[i], '\n'),
    ensures
        storable(normal_lines(rows)),
    decreases rows.len(),
{
    if rows.len() > 0 {
        let rest = rows.drop_last();
        assert forall|i: int| 0 <= i < rest.len() implies lacks(#[trigger] rest[i], '\n') by {
            assert(rest[i] == rows[i]);
        }
        normal_lines_are_storable(rest);
        let last = rows.last();
        assert(lacks(rows[rows.len() - 1], '\n'));
        trim_is_idempotent(last);
        trim_brings_in_nothing(last, '\n');
    }
}

/// Lines that were read, serialized and read again are the same lines. None of them is empty,
/// a comment, or has white space at its ends.
pub proof fn read_lines_survive_serializing(payload: Seq<u8>)
    requires
        valid_utf8(payload),
    ensures
        ({
            let rows = normal_lines(lines(decode_utf8(payload)));
            let again = encode_utf8(join(rows, "\n"@));
            &&& valid_utf8(again)
            &&& normal_lines(lines(decode_utf8(again))) == rows
            &&& forall|i: int|
                0 <= i < rows.len() ==> (#[trigger] rows[i]).len() > 0 && rows[i][0] != '#'
                    && !is_space(rows[i][0]) && !is_space(rows[i].last())
        }),
{
    let all = lines(decode_utf8(payload));
    let rows = normal_lines(all);
    lines_hold_no_end(decode_utf8(payload));
    normal_lines_are_storable(all);
    serialized_lines_read_back(rows);
    assert forall|i: int| 0 <= i < rows.len() implies (#[trigger] rows[i]).len() > 0 && rows[i][0]
        != '#' && !is_space(rows[i][0]) && !is_space(rows[i].last()) by {
        reveal_strlit("#");
        assert(normal_line(rows[i]) == Some(rows[i]));
        trim_has_no_space_at_its_ends(rows[i]);
        if rows[i][0] == '#' {
            assert(rows[i].subrange(0, 1) =~= "#"@);
            assert(starts_with(rows[i], "#"@));
        }
    }
}

} // verus!
