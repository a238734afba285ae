//! Decision logic of the apt software-manager plugin.
//!
//! Everything here computes: which packages a listing reports, which
//! installer argument a module resolves to, whether a requested version
//! matches the installed one, and how an update list is read. Running
//! `apt-get` and `dpkg-query`, and reading their output, is the
//! executable layer's part; it hands the raw text in and carries the
//! derived arguments out.

use crate::payload::is_ws;
use crate::text::spec_split;
use crate::text::split_str;
use crate::text::str_eq;
use vstd::prelude::*;

verus! {

/// The operations the plugin performs.
#[derive(Debug)]
pub enum PluginOp {
    /// List the installed modules, optionally filtered by name and
    /// maintainer.
    List { name: Option<String>, maintainer: Option<String> },
    /// Install one module.
    Install { module: String, version: Option<String>, file_path: Option<String> },
    /// Uninstall one module.
    Remove { module: String, version: Option<String> },
    /// Install or remove several modules at once.
    UpdateList,
    /// Prepare a sequence of install and remove commands.
    Prepare,
    /// Finalize a sequence of install and remove commands.
    Finalize,
}

/// Errors of the plugin's decisions.
#[derive(Debug)]
pub enum AptError {
    /// A requested version does not match the installed one.
    MetaDataMismatch {
        package: String,
        expected_key: String,
        expected_value: String,
        provided_value: String,
    },
    /// A line of an update list does not name a known action.
    UnknownAction { action: String },
    /// A line of an update list names no module.
    MissingName { line: String },
    /// A list filter could not be compiled.
    InvalidFilter { reason: String },
}

/// One requested change of an update list.
#[derive(Debug)]
pub enum UpdateAction {
    Install,
    Remove,
}

/// One row of an update list.
#[derive(Debug)]
pub struct SoftwareModuleUpdate {
    pub action: UpdateAction,
    pub name: String,
    pub version: Option<String>,
    pub path: Option<String>,
}

/// The pattern of a regular expression, as the expression remembers it.
pub uninterp spec fn regex_pattern(re: &regex::Regex) -> Seq<char>;

/// Whether the regular expression compiled from `pattern` matches
/// somewhere in `text`; the answer depends on the two alone.
pub uninterp spec fn regex_match_of(pattern: Seq<char>, text: Seq<char>) -> bool;

/// Whether `pattern` is a valid regular expression; with the default
/// build configuration, compilation succeeds or fails on the pattern
/// alone.
pub uninterp spec fn regex_compiles(pattern: Seq<char>) -> bool;

#[verifier::external_type_specification]
#[verifier::external_body]
pub struct ExRegex(regex::Regex);

/// Relies on regex::Regex::new: compilation succeeds exactly on valid
/// patterns, a compiled expression remembers the pattern it was built
/// from, and an invalid pattern is reported as an error, rendered to
/// text.
#[verifier::external_body]
fn regex_new(pattern: &str) -> (r: Result<regex::Regex, String>)
    ensures
        r is Ok <==> regex_compiles(pattern@),
        r matches Ok(re) ==> regex_pattern(&re) == pattern@,
{
    match regex::Regex::new(pattern) {
        Ok(re) => Ok(re),
        Err(e) => Err(e.to_string()),
    }
}

/// Relies on regex::Regex::is_match: whether the expression matches
/// somewhere in `text`, a function of its pattern and the text alone.
#[verifier::external_body]
fn regex_is_match(re: &regex::Regex, text: &str) -> (r: bool)
    ensures
        r == regex_match_of(regex_pattern(re), text@),
{
    re.is_match(text)
}

/// The filter pattern of a listing: every installed package when no
/// name and no maintainer is asked for, otherwise the rows whose name
/// or maintainer column holds the asked-for value.
pub open spec fn spec_list_pattern(name: Option<Seq<char>>, maintainer: Option<Seq<char>>) -> Seq<
    char,
> {
    if name is None && maintainer is None {
        "install ok installed"@
    } else {
        "(^"@ + (match name {
            Some(n) => n,
            None => Seq::<char>::empty(),
        }) + "\\t.*|^\\S+\\t\\S+\\t"@ + (match maintainer {
            Some(m) => m,
            None => Seq::<char>::empty(),
        }) + "\\s+.*)install ok installed"@
    }
}

/// Compile the listing filter for the asked-for name and maintainer;
/// this fails exactly when the asked-for values make the pattern an
/// invalid regular expression.
pub fn build_list_filter(name: &Option<String>, maintainer: &Option<String>) -> (r: Result<
    regex::Regex,
    AptError,
>)
    ensures
        r is Ok <==> regex_compiles(
            spec_list_pattern(
                match name {
                    Some(n) => Some(n@),
                    None => None,
                },
                match maintainer {
                    Some(m) => Some(m@),
                    None => None,
                },
            ),
        ),
        r matches Ok(re) ==> regex_pattern(&re) == spec_list_pattern(
            match name {
                Some(n) => Some(n@),
                None => None,
            },
            match maintainer {
                Some(m) => Some(m@),
                None => None,
            },
        ),
{
    let pattern: String = match (name, maintainer) {
        (None, None) => String::from_str("install ok installed"),
        _ => {
            let mut p = String::from_str("(^");
            match name {
                Some(n) => p.append(n.as_str()),
                None => (),
            }
            p.append("\\t.*|^\\S+\\t\\S+\\t");
            match maintainer {
                Some(m) => p.append(m.as_str()),
                None => (),
            }
            p.append("\\s+.*)install ok installed");
            p
        },
    };
    match regex_new(pattern.as_str()) {
        Ok(re) => Ok(re),
        Err(reason) => Err(AptError::InvalidFilter { reason }),
    }
}

/// The name and version columns of one listing row: the row's
/// tab-separated fields, with a stand-in where the version is missing.
pub open spec fn spec_name_version(line: Seq<char>) -> (Seq<char>, Seq<char>) {
    let parts = spec_split(line, '\t');
    (parts[0], if parts.len() >= 2 {
        parts[1]
    } else {
        "unknown version"@
    })
}

/// The name and version columns of one listing row.
pub fn get_name_and_version(line: &str) -> (r: (String, String))
    ensures
        r.0@ == spec_name_version(line@).0,
        r.1@ == spec_name_version(line@).1,
{
    let mut parts = split_str(line, '\t');
    proof {
        crate::text::lemma_split_nonempty(line@, '\t');
    }
    let version = if parts.len() >= 2 {
        let ghost views = parts@.map_values(|p: String| p@);
        let v = parts.remove(1);
        proof {
            assert(v@ == views[1]);
        }
        v
    } else {
        String::from_str("unknown version")
    };
    let name = parts.remove(0);
    (name, version)
}

/// The rows of a listing that the filter matches, mapped to their name
/// and version columns.
pub open spec fn spec_list_output(lines: Seq<Seq<char>>, pattern: Seq<char>) -> Seq<
    (Seq<char>, Seq<char>),
>
    decreases lines.len(),
{
    if lines.len() == 0 {
        Seq::<(Seq<char>, Seq<char>)>::empty()
    } else {
        (if regex_match_of(pattern, lines[0]) {
            seq![spec_name_version(lines[0])]
        } else {
            Seq::<(Seq<char>, Seq<char>)>::empty()
        }) + spec_list_output(lines.drop_first(), pattern)
    }
}

/// Listing one more row appends its columns when the filter matches it.
proof fn lemma_list_output_push(lines: Seq<Seq<char>>, line: Seq<char>, pattern: Seq<char>)
    ensures
        spec_list_output(lines.push(line), pattern) == spec_list_output(lines, pattern) + (
        if regex_match_of(pattern, line) {
            seq![spec_name_version(line)]
        } else {
            Seq::<(Seq<char>, Seq<char>)>::empty()
        }),
    decreases lines.len(),
{
    if lines.len() == 0 {
        reveal_with_fuel(spec_list_output, 3);
        assert(lines.push(line)[0] == line);
        assert(lines.push(line).drop_first() =~= Seq::<Seq<char>>::empty());
        assert(spec_list_output(lines.push(line), pattern) =~= spec_list_output(lines, pattern) + (
        if regex_match_of(pattern, line) {
            seq![spec_name_version(line)]
        } else {
            Seq::<(Seq<char>, Seq<char>)>::empty()
        }));
    } else {
        assert(lines.push(line)[0] == lines[0]);
        assert(lines.push(line).drop_first() =~= lines.drop_first().push(line));
        lemma_list_output_push(lines.drop_first(), line, pattern);
        assert(spec_list_output(lines.push(line), pattern) =~= spec_list_output(lines, pattern) + (
        if regex_match_of(pattern, line) {
            seq![spec_name_version(line)]
        } else {
            Seq::<(Seq<char>, Seq<char>)>::empty()
        }));
    }
}

/// Apply the listing filter to every row of a listing and keep the name
/// and version columns of the matching ones.
pub fn filter_installed_lines(lines: &Vec<String>, filter: &regex::Regex) -> (r: Vec<
    (String, String),
>)
    ensures
        r@.map_values(|p: (String, String)| (p.0@, p.1@)) == spec_list_output(
            lines@.map_values(|l: String| l@),
            regex_pattern(filter),
        ),
{
    let ghost all = lines@.map_values(|l: String| l@);
    let ghost pattern = regex_pattern(filter);
    let mut out: Vec<(String, String)> = Vec::new();
    let mut i: usize = 0;
    proof {
        assert(all.take(0) =~= Seq::<Seq<char>>::empty());
        assert(out@.map_values(|p: (String, String)| (p.0@, p.1@)) =~= spec_list_output(
            all.take(0),
            pattern,
        ));
    }
    while i < lines.len()
        invariant
            0 <= i <= lines@.len(),
            all == lines@.map_values(|l: String| l@),
            pattern == regex_pattern(filter),
            out@.map_values(|p: (String, String)| (p.0@, p.1@)) == spec_list_output(
                all.take(i as int),
                pattern,
            ),
        decreases lines@.len() - i,
    {
        let line = &lines[i];
        proof {
            assert(all.take(i as int + 1) =~= all.take(i as int).push(all[i as int]));
            lemma_list_output_push(all.take(i as int), all[i as int], pattern);
        }
        if regex_is_match(filter, line.as_str()) {
            let (name, version) = get_name_and_version(line.as_str());
            out.push((name, version));
            proof {
                assert(out@.map_values(|p: (String, String)| (p.0@, p.1@)) =~= spec_list_output(
                    all.take(i as int + 1),
                    pattern,
                ));
            }
        } else {
            proof {
                assert(out@.map_values(|p: (String, String)| (p.0@, p.1@)) =~= spec_list_output(
                    all.take(i as int + 1),
                    pattern,
                ));
            }
        }
        i += 1;
    }
    proof {
        assert(all.take(lines@.len() as int) =~= all);
    }
    out
}

/// The installer argument of one module: the bare name, or `name=version`
/// when a version is requested. Installation from a package file is
/// resolved by the caller, who must validate the file's metadata first.
pub fn get_installer(module: String, version: Option<String>) -> (r: String)
    ensures
        version is None ==> r@ == module@,
        version matches Some(v) ==> r@ == module@ + "="@ + v@,
{
    match version {
        None => module,
        Some(v) => {
            let mut r = module;
            r.append("=");
            r.append(v.as_str());
            r
        },
    }
}

/// What one non-empty update-list row says, at the level of views: its
/// action, the module name, and the optional version and package-file
/// columns (an empty column counts as absent). A row that names no
/// known action or no module says nothing.
pub open spec fn spec_update_line(line: Seq<char>) -> Option<
    (UpdateAction, Seq<char>, Option<Seq<char>>, Option<Seq<char>>),
> {
    let parts = spec_split(line, '\t');
    let action = if parts[0] == "install"@ {
        Some(UpdateAction::Install)
    } else if parts[0] == "remove"@ {
        Some(UpdateAction::Remove)
    } else {
        None
    };
    match action {
        None => None,
        Some(a) => {
            if parts.len() < 2 {
                None
            } else {
                let version = if parts.len() >= 3 && parts[2].len() > 0 {
                    Some(parts[2])
                } else {
                    None
                };
                let path = if parts.len() >= 4 && parts[3].len() > 0 {
                    Some(parts[3])
                } else {
                    None
                };
                Some((a, parts[1], version, path))
            }
        },
    }
}

/// The updates of a whole update list: one per non-empty line, provided
/// every non-empty line is readable.
pub open spec fn spec_parse_updates(lines: Seq<Seq<char>>) -> Option<
    Seq<(UpdateAction, Seq<char>, Option<Seq<char>>, Option<Seq<char>>)>,
>
    decreases lines.len(),
{
    if lines.len() == 0 {
        Some(Seq::<(UpdateAction, Seq<char>, Option<Seq<char>>, Option<Seq<char>>)>::empty())
    } else if lines[0].len() == 0 {
        spec_parse_updates(lines.drop_first())
    } else {
        match spec_update_line(lines[0]) {
            None => None,
            Some(u) => match spec_parse_updates(lines.drop_first()) {
                None => None,
                Some(rest) => Some(seq![u] + rest),
            },
        }
    }
}

/// The view of one parsed update row.
pub open spec fn spec_update_view(u: SoftwareModuleUpdate) -> (
    UpdateAction,
    Seq<char>,
    Option<Seq<char>>,
    Option<Seq<char>>,
) {
    (
        u.action,
        u.name@,
        match u.version {
            Some(v) => Some(v@),
            None => None,
        },
        match u.path {
            Some(p) => Some(p@),
            None => None,
        },
    )
}

/// Read one non-empty update-list row.
fn parse_update_line(line: &str) -> (r: Result<SoftwareModuleUpdate, AptError>)
    ensures
        r is Ok <==> spec_update_line(line@) is Some,
        r matches Ok(u) ==> spec_update_line(line@) == Some(spec_update_view(u)),
{
    let mut parts = split_str(line, '\t');
    proof {
        crate::text::lemma_split_nonempty(line@, '\t');
    }
    let ghost views = parts@.map_values(|p: String| p@);
    let action = if str_eq(parts[0].as_str(), "install") {
        UpdateAction::Install
    } else if str_eq(parts[0].as_str(), "remove") {
        UpdateAction::Remove
    } else {
        return Err(AptError::UnknownAction { action: parts.remove(0) });
    };
    if parts.len() < 2 {
        return Err(AptError::MissingName { line: line.to_owned() });
    }
    let path: Option<String> = if parts.len() >= 4 && !parts[3].as_str().is_empty() {
        Some(parts.remove(3))
    } else {
        None
    };
    let version: Option<String> = if parts.len() >= 3 && !parts[2].as_str().is_empty() {
        Some(parts.remove(2))
    } else {
        None
    };
    let name = parts.remove(1);
    Ok(SoftwareModuleUpdate { action, name, version, path })
}

/// Read a whole update list, one tab-separated row per line; empty
/// lines are skipped. Fails exactly when some non-empty row is
/// unreadable.
pub fn parse_update_list(input: &str) -> (r: Result<Vec<SoftwareModuleUpdate>, AptError>)
    ensures
        r is Ok <==> spec_parse_updates(spec_lines(input@)) is Some,
        r matches Ok(v) ==> spec_parse_updates(spec_lines(input@)) == Some(
            v@.map_values(|u: SoftwareModuleUpdate| spec_update_view(u)),
        ),
{
    let lines = lines_of(input);
    let ghost line_views = lines@.map_values(|l: String| l@);
    let mut out: Vec<SoftwareModuleUpdate> = Vec::new();
    let mut i: usize = 0;
    proof {
        assert(line_views.skip(0) =~= line_views);
        assert(out@.map_values(|u: SoftwareModuleUpdate| spec_update_view(u)) =~= Seq::<
            (UpdateAction, Seq<char>, Option<Seq<char>>, Option<Seq<char>>),
        >::empty());
    }
    while i < lines.len()
        invariant
            0 <= i <= lines@.len(),
            line_views == lines@.map_values(|l: String| l@),
            line_views == spec_lines(input@),
            spec_parse_updates(line_views) is Some <==> spec_parse_updates(
                line_views.skip(i as int),
            ) is Some,
            spec_parse_updates(line_views) matches Some(all) ==> spec_parse_updates(
                line_views.skip(i as int),
            ) matches Some(rest) && all == out@.map_values(
                |u: SoftwareModuleUpdate| spec_update_view(u),
            ) + rest,
        decreases lines@.len() - i,
    {
        let line = &lines[i];
        proof {
            assert(line_views.skip(i as int).len() > 0);
            assert(line_views.skip(i as int)[0] == line_views[i as int]);
            assert(line_views.skip(i as int).drop_first() =~= line_views.skip(i as int + 1));
        }
        if !line.as_str().is_empty() {
            match parse_update_line(line.as_str()) {
                Ok(update) => {
                    out.push(update);
                    proof {
                        if spec_parse_updates(line_views) is Some {
                            let all = spec_parse_updates(line_views)->0;
                            let rest = spec_parse_updates(line_views.skip(i as int))->0;
                            let tail = spec_parse_updates(line_views.skip(i as int + 1))->0;
                            assert(rest == seq![spec_update_view(out@.last())] + tail);
                            assert(out@.map_values(|u: SoftwareModuleUpdate| spec_update_view(u))
                                =~= out@.drop_last().map_values(
                                |u: SoftwareModuleUpdate| spec_update_view(u),
                            ).push(spec_update_view(out@.last())));
                            assert(all =~= out@.map_values(
                                |u: SoftwareModuleUpdate| spec_update_view(u),
                            ) + tail);
                        }
                    }
                },
                Err(e) => {
                    proof {
                        assert(spec_parse_updates(line_views.skip(i as int)) is None);
                    }
                    return Err(e);
                },
            }
        }
        i += 1;
    }
    proof {
        assert(line_views.skip(lines@.len() as int) =~= Seq::<Seq<char>>::empty());
    }
    Ok(out)
}

/// The `apt-get` argument one update resolves to: for an installation,
/// the validated package file when one is given, `name=version` for a
/// pinned version (`latest` counts as no pin), the bare name otherwise;
/// for a removal, the name with the trailing `-` that asks apt to
/// remove it.
pub fn update_list_arg(update: &SoftwareModuleUpdate) -> (r: String)
    ensures
        ({
            let (action, name, version, path) = spec_update_view(*update);
            match action {
                UpdateAction::Install => (match path {
                    Some(p) => r@ == p,
                    None => (match version {
                        Some(v) => {
                            if v != "latest"@ {
                                r@ == name + "="@ + v
                            } else {
                                r@ == name
                            }
                        },
                        None => r@ == name,
                    }),
                }),
                UpdateAction::Remove => r@ == name + "-"@,
            }
        }),
{
    match &update.action {
        UpdateAction::Install => {
            match &update.path {
                Some(p) => p.clone(),
                None => {
                    match &update.version {
                        Some(v) => {
                            if !str_eq(v.as_str(), "latest") {
                                let mut r = update.name.clone();
                                r.append("=");
                                r.append(v.as_str());
                                r
                            } else {
                                update.name.clone()
                            }
                        },
                        None => update.name.clone(),
                    }
                },
            }
        },
        UpdateAction::Remove => {
            let mut r = update.name.clone();
            r.append("-");
            r
        },
    }
}

/// The process exit code the plugin ends with: `0` for a command that
/// completed successfully, `2` for one that failed with an exit code,
/// `4` for one ended by a signal, and `5` when no command completed at
/// all.
pub fn plugin_exit_code(ran: bool, success: bool, has_code: bool) -> (r: u8)
    ensures
        !ran ==> r == 5,
        ran && success ==> r == 0,
        ran && !success && has_code ==> r == 2,
        ran && !success && !has_code ==> r == 4,
{
    if !ran {
        5
    } else if success {
        0
    } else if has_code {
        2
    } else {
        4
    }
}

/// The input with trailing whitespace removed.
pub open spec fn spec_trim_end(s: Seq<char>) -> Seq<char>
    decreases s.len(),
{
    if s.len() > 0 && is_ws(s.last()) {
        spec_trim_end(s.drop_last())
    } else {
        s
    }
}

/// Remove trailing whitespace.
pub fn trim_end(s: &str) -> (r: String)
    ensures
        r@ == spec_trim_end(s@),
{
    let n = s.unicode_len();
    let mut e = n;
    proof {
        assert(s@.take(n as int) =~= s@);
    }
    while e > 0 && crate::payload::ws_char(s.get_char(e - 1))
        invariant
            0 <= e <= n,
            n == s@.len(),
            spec_trim_end(s@) == spec_trim_end(s@.take(e as int)),
        decreases e,
    {
        proof {
            assert(s@.take(e as int).last() == s@[e as int - 1]);
            assert(s@.take(e as int).drop_last() =~= s@.take(e as int - 1));
        }
        e -= 1;
    }
    let r = s.substring_char(0, e).to_owned();
    proof {
        assert(spec_trim_end(s@.take(e as int)) == s@.take(e as int));
        assert(r@ =~= s@.take(e as int));
    }
    r
}

/// The lines of a command's output: the output without its trailing
/// newline, split at each remaining newline.
pub open spec fn spec_lines(s: Seq<char>) -> Seq<Seq<char>> {
    spec_split(spec_trim_end(s), '\n')
}

/// Split a command's output into lines.
pub fn lines_of(s: &str) -> (r: Vec<String>)
    ensures
        r@.map_values(|l: String| l@) == spec_lines(s@),
{
    let trimmed = trim_end(s);
    split_str(trimmed.as_str(), '\n')
}

/// Check a requested module version against a listing of the installed
/// one, as `apt list --installed <module>` reports it: the second line
/// of the listing names the package and then the installed version. No
/// second line, or one without a version column, passes the check; a
/// version that differs from the requested one fails it.
pub fn validate_version(module_name: &str, module_version: &str, apt_output: &str) -> (r: Result<
    (),
    AptError,
>)
    ensures
        r is Ok <==> ({
            let lines = spec_split(apt_output@, '\n');
            ||| lines.len() < 2
            ||| spec_tokens(lines[1]).len() < 2
            ||| spec_tokens(lines[1])[1] == module_version@
        }),
        r matches Err(e) ==> (e matches AptError::MetaDataMismatch {
            package,
            expected_key,
            expected_value,
            provided_value,
        } && package@ == module_name@ && expected_key@ == "Version"@ && expected_value@
            == spec_tokens(spec_split(apt_output@, '\n')[1])[1] && provided_value@
            == module_version@),
{
    let mut lines = split_str(apt_output, '\n');
    if lines.len() < 2 {
        return Ok(());
    }
    let ghost line_views = lines@.map_values(|l: String| l@);
    let second = lines.remove(1);
    proof {
        assert(second@ == line_views[1]);
    }
    let tokens = whitespace_tokens(second.as_str());
    if tokens.len() < 2 {
        return Ok(());
    }
    let ghost token_views = tokens@.map_values(|t: String| t@);
    let installed = &tokens[1];
    proof {
        assert(installed@ == token_views[1]);
    }
    if str_eq(installed.as_str(), module_version) {
        Ok(())
    } else {
        Err(
            AptError::MetaDataMismatch {
                package: module_name.to_owned(),
                expected_key: String::from_str("Version"),
                expected_value: installed.clone(),
                provided_value: module_version.to_owned(),
            },
        )
    }
}

/// The maximal runs of non-whitespace characters, in order.
pub open spec fn spec_tokens(s: Seq<char>) -> Seq<Seq<char>> {
    spec_split_ws(s).filter(|t: Seq<char>| t.len() > 0)
}

/// The parts of `s` delimited by whitespace characters, empty parts
/// kept.
pub open spec fn spec_split_ws(s: Seq<char>) -> Seq<Seq<char>>
    decreases s.len(),
{
    if s.len() == 0 {
        seq![Seq::<char>::empty()]
    } else {
        let rest = spec_split_ws(s.drop_first());
        if is_ws(s[0]) {
            seq![Seq::<char>::empty()] + rest
        } else {
            seq![seq![s[0]] + rest[0]] + rest.drop_first()
        }
    }
}

/// Splitting at whitespace always yields at least one part.
proof fn lemma_split_ws_nonempty(s: Seq<char>)
    ensures
        spec_split_ws(s).len() >= 1,
    decreases s.len(),
{
    if s.len() > 0 {
        lemma_split_ws_nonempty(s.drop_first());
    }
}

/// The whitespace-delimited tokens of `s`.
pub fn whitespace_tokens(s: &str) -> (r: Vec<String>)
    ensures
        r@.map_values(|t: String| t@) == spec_tokens(s@),
{
    let n = s.unicode_len();
    let mut parts: Vec<String> = Vec::new();
    let mut start: usize = 0;
    let mut i: usize = 0;
    proof {
        lemma_split_ws_nonempty(s@);
        assert(s@.skip(0) =~= s@);
        assert(s@.subrange(0, 0) =~= Seq::<char>::empty());
        assert(crate::text::split_accum(Seq::<char>::empty(), spec_split_ws(s@)) =~= spec_split_ws(
            s@,
        ));
        assert(spec_split_ws(s@) =~= parts@.map_values(|p: String| p@) + crate::text::split_accum(
            Seq::<char>::empty(),
            spec_split_ws(s@),
        ));
    }
    while i < n
        invariant
            start <= i <= n,
            n == s@.len(),
            spec_split_ws(s@) == parts@.map_values(|p: String| p@) + crate::text::split_accum(
                s@.subrange(start as int, i as int),
                spec_split_ws(s@.skip(i as int)),
            ),
        decreases n - i,
    {
        proof {
            lemma_split_ws_nonempty(s@.skip(i as int + 1));
            assert(s@.skip(i as int).drop_first() =~= s@.skip(i as int + 1));
            assert(s@.skip(i as int).len() > 0);
            assert(s@.skip(i as int)[0] == s@[i as int]);
        }
        let c = s.get_char(i);
        if c == ' ' || c == '\t' || c == '\n' || c == '\r' {
            let ghost old_parts = parts@;
            let part = s.substring_char(start, i).to_owned();
            parts.push(part);
            proof {
                let acc = s@.subrange(start as int, i as int);
                let rest = spec_split_ws(s@.skip(i as int + 1));
                assert(spec_split_ws(s@.skip(i as int)) == seq![Seq::<char>::empty()] + rest);
                assert(crate::text::split_accum(acc, seq![Seq::<char>::empty()] + rest) =~= seq![
                    acc,
                ] + rest);
                assert(parts@.map_values(|p: String| p@) =~= old_parts.map_values(|p: String| p@)
                    + seq![acc]);
                assert(crate::text::split_accum(Seq::<char>::empty(), rest) =~= rest);
                assert(s@.subrange(i as int + 1, i as int + 1) =~= Seq::<char>::empty());
            }
            start = i + 1;
        } else {
            proof {
                let acc = s@.subrange(start as int, i as int);
                let acc1 = s@.subrange(start as int, i as int + 1);
                let rest = spec_split_ws(s@.skip(i as int + 1));
                assert(spec_split_ws(s@.skip(i as int)) == seq![seq![s@[i as int]] + rest[0]]
                    + rest.drop_first());
                assert(acc1 =~= acc + seq![s@[i as int]]);
                assert((seq![seq![s@[i as int]] + rest[0]] + rest.drop_first()).drop_first()
                    =~= rest.drop_first());
                assert(acc + (seq![s@[i as int]] + rest[0]) =~= acc1 + rest[0]);
                assert(crate::text::split_accum(acc, spec_split_ws(s@.skip(i as int)))
                    =~= crate::text::split_accum(acc1, rest));
            }
        }
        i += 1;
    }
    let last = s.substring_char(start, n).to_owned();
    let ghost old_parts = parts@;
    parts.push(last);
    proof {
        let acc = s@.subrange(start as int, n as int);
        assert(s@.skip(n as int) =~= Seq::<char>::empty());
        assert(spec_split_ws(s@.skip(n as int)) == seq![Seq::<char>::empty()]);
        assert(crate::text::split_accum(acc, seq![Seq::<char>::empty()]) =~= seq![acc]);
        assert(parts@.map_values(|p: String| p@) =~= old_parts.map_values(|p: String| p@) + seq![
            acc,
        ]);
    }
    let mut tokens: Vec<String> = Vec::new();
    let mut k: usize = 0;
    let ghost part_views = parts@.map_values(|p: String| p@);
    proof {
        assert(part_views.take(0) =~= Seq::<Seq<char>>::empty());
        reveal(Seq::filter);
        assert(tokens@.map_values(|t: String| t@) =~= part_views.take(0).filter(
            |t: Seq<char>| t.len() > 0,
        ));
    }
    while k < parts.len()
        invariant
            0 <= k <= parts@.len(),
            part_views == parts@.map_values(|p: String| p@),
            tokens@.map_values(|t: String| t@) == part_views.take(k as int).filter(
                |t: Seq<char>| t.len() > 0,
            ),
        decreases parts@.len() - k,
    {
        let part = &parts[k];
        proof {
            reveal(Seq::filter);
            assert(part_views.take(k as int + 1).drop_last() =~= part_views.take(k as int));
            assert(part_views.take(k as int + 1).last() == part_views[k as int]);
        }
        if !part.as_str().is_empty() {
            tokens.push(part.clone());
            proof {
                assert(tokens@.map_values(|t: String| t@) =~= part_views.take(k as int + 1).filter(
                    |t: Seq<char>| t.len() > 0,
                ));
            }
        } else {
            proof {
                assert(tokens@.map_values(|t: String| t@) =~= part_views.take(k as int + 1).filter(
                    |t: Seq<char>| t.len() > 0,
                ));
            }
        }
        k += 1;
    }
    proof {
        assert(part_views.take(parts@.len() as int) =~= part_views);
    }
    tokens
}

} // verus!
