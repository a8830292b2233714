//! Running an operation with raised privileges: what is staged, what the
//! helper script is told, and what its outcome means.

use crate::i18n::{borrowed_pairs, catalog_for, detailed, details_of, is_zh_locale, locale_view,
    message_of, zh_locale, Catalogs, CommandError, ErrorView};
use crate::json::Json;
use crate::numbers::{i32_to_text, parse_i32, signed_text, signed_value};
use crate::paths::Platform;
use crate::rewrite::{join, replace_all, texts, trim};
use crate::text::{contains, contains_lowered, contains_text, joined, lower_text, occurs_at, owned,
    replaced, starts_with, trimmed};
use vstd::prelude::*;
use vstd::string::*;

verus! {

/// The operation that the helper script is asked for.
#[derive(Debug, Clone, Copy, PartialEq, Eq, Structural)]
pub enum PatchMode {
    Install,
    Uninstall,
    UpdateConfig,
}

impl PatchMode {
    /// The word for this mode on the helper's command line.
    pub open spec fn word(self) -> Seq<char> {
        match self {
            PatchMode::Install => "install"@,
            PatchMode::Uninstall => "uninstall"@,
            PatchMode::UpdateConfig => "update-config"@,
        }
    }

    /// Whether this mode comes with configurations.
    pub open spec fn configures(self) -> bool {
        self != PatchMode::Uninstall
    }

    /// The word for this mode on the helper's command line.
    pub fn as_str(&self) -> (r: &'static str)
        ensures
            r@ == self.word(),
    {
        match self {
            PatchMode::Install => "install",
            PatchMode::Uninstall => "uninstall",
            PatchMode::UpdateConfig => "update-config",
        }
    }
}

/// Why the system refused to make a file.
#[derive(Debug, Clone, Copy, PartialEq, Eq, Structural)]
pub enum ProbeFailure {
    /// Permission was denied.
    PermissionDenied,
    /// The file system is read-only.
    ReadOnlyFilesystem,
    /// Anything else.
    Other,
}

/// What trying to write into a directory came to.
#[derive(Debug)]
pub enum ProbeOutcome {
    /// A file could be made there.
    Writable,
    /// No file could be made there: why, and the system's words.
    Failed { kind: ProbeFailure, detail: String },
}

/// The mathematical value of a `ProbeOutcome`.
pub enum ProbeView {
    Writable,
    Failed { kind: ProbeFailure, detail: Seq<char> },
}

impl View for ProbeOutcome {
    type V = ProbeView;

    open spec fn view(&self) -> ProbeView {
        match self {
            ProbeOutcome::Writable => ProbeView::Writable,
            ProbeOutcome::Failed { kind, detail } => ProbeView::Failed {
                kind: *kind,
                detail: detail@,
            },
        }
    }
}

/// The words that mark an error as one of missing permission.
pub open spec fn permission_words(lower: Seq<char>) -> bool {
    contains_text(lower, "permission denied"@) || contains_text(lower, "operation not permitted"@)
        || contains_text(lower, "read-only file system"@)
}

/// Whether an error is one of missing permission, by its details.
pub open spec fn permission_error(e: ErrorView) -> bool {
    permission_words(lower_text(details_of(e)))
}

/// The system-owned places below which nothing is tried without raised
/// privileges.
pub open spec fn system_prefixes() -> Seq<Seq<char>> {
    seq![
        "/Applications/"@,
        "/System/Applications/"@,
        "/Library/"@,
        "/System/"@,
        "/usr/"@,
        "/opt/"@,
        "/lib/"@,
        "/lib64/"@,
        "/var/"@,
        "/snap/"@,
    ]
}

/// Whether a platform has a way to raise privileges.
pub open spec fn can_escalate(platform: Platform) -> bool {
    platform == Platform::MacOs || platform == Platform::Linux
}

/// Whether a resource root lies in a system-owned place, on a platform that
/// can raise privileges.
pub open spec fn system_owned(root_text: Seq<char>, platform: Platform) -> bool {
    can_escalate(platform) && exists|i: int|
        0 <= i < system_prefixes().len() && occurs_at(root_text, #[trigger] system_prefixes()[i], 0)
}

/// The name of the helper script for a locale.
pub open spec fn script_name(locale: Option<Seq<char>>) -> Seq<char> {
    if zh_locale(locale) {
        "anti-power.sh"@
    } else {
        "anti-power.en.sh"@
    }
}

/// How a flag is written on the helper's command line.
pub open spec fn flag_word(b: bool) -> Seq<char> {
    if b {
        "true"@
    } else {
        "false"@
    }
}

/// The helper's arguments: mode, resource root, and which subsystems are on.
pub open spec fn script_args(
    mode: PatchMode,
    root_text: Seq<char>,
    cascade_enabled: bool,
    manager_enabled: bool,
) -> Seq<Seq<char>> {
    seq![
        "--mode"@,
        mode.word(),
        "--app-path"@,
        root_text,
        "--cascade-enabled"@,
        flag_word(cascade_enabled),
        "--manager-enabled"@,
        flag_word(manager_enabled),
    ]
}

/// A text between single quotes for a shell, where each quote inside closes
/// the quoting, stands escaped, and opens it again.
pub open spec fn quoted_body(s: Seq<char>) -> Seq<char>
    decreases s.len(),
{
    if s.len() == 0 {
        Seq::empty()
    } else if s.last() == '\'' {
        quoted_body(s.drop_last()) + seq!['\'', '\\', '\'', '\'']
    } else {
        quoted_body(s.drop_last()).push(s.last())
    }
}

/// A text as one word of a shell command.
pub open spec fn shell_quoted(s: Seq<char>) -> Seq<char> {
    seq!['\''] + quoted_body(s) + seq!['\'']
}

/// A text as it stands between double quotes in AppleScript.
pub open spec fn applescript_escaped(s: Seq<char>) -> Seq<char> {
    replaced(replaced(s, seq!['\\'], seq!['\\', '\\']), seq!['"'], seq!['\\', '"'])
}

/// Each text as one word of a shell command.
pub open spec fn all_quoted(words: Seq<Seq<char>>) -> Seq<Seq<char>> {
    Seq::new(words.len(), |i: int| shell_quoted(words[i]))
}

/// The command that the terminal runs: the script under `sudo`, then its
/// exit code into the status file.
pub open spec fn terminal_command(script: Seq<char>, args: Seq<Seq<char>>, status: Seq<char>)
    -> Seq<char> {
    "sudo "@ + joined(all_quoted(seq!["/bin/bash"@, script] + args), " "@) + " ; echo $? > "@
        + shell_quoted(status)
}

/// The AppleScript that opens a terminal on that command.
pub open spec fn terminal_script(script: Seq<char>, args: Seq<Seq<char>>, status: Seq<char>)
    -> Seq<char> {
    "tell application \"Terminal\"\nactivate\ndo script \""@ + applescript_escaped(
        terminal_command(script, args, status),
    ) + "\"\nend tell"@
}

/// The exit code that a status file states; 1 where it states none.
pub open spec fn status_code(content: Seq<char>) -> int {
    match signed_value(trimmed(content)) {
        Some(code) => code,
        None => 1,
    }
}

/// What a status file means: success for code 0, else the error of that
/// code.
pub open spec fn status_verdict(content: Seq<char>) -> Option<ErrorView> {
    if status_code(content) == 0 {
        None
    } else {
        Some(
            ErrorView::Localized {
                key: "patchBackend.errors.terminalCommandFailedCode"@,
                vars: seq![("code"@, signed_text(status_code(content)))],
            },
        )
    }
}

/// What the outcome of the elevation wrapper means. Success is success.
/// Otherwise the error is what the helper said on its error output, else what
/// it said on its output, else that it was cancelled or failed.
pub open spec fn wrapper_verdict(success: bool, stdout: Seq<char>, stderr: Seq<char>) -> Option<
    ErrorView,
> {
    if success {
        None
    } else if trimmed(stderr).len() > 0 {
        Some(ErrorView::Raw(trimmed(stderr)))
    } else if trimmed(stdout).len() > 0 {
        Some(ErrorView::Raw(trimmed(stdout)))
    } else {
        Some(
            ErrorView::Localized {
                key: "patchBackend.errors.privilegedCanceledOrFailed"@,
                vars: Seq::empty(),
            },
        )
    }
}

/// The view of an optional error.
pub open spec fn opt_error(e: Option<CommandError>) -> Option<ErrorView> {
    match e {
        Some(e) => Some(e@),
        None => None,
    }
}

/// The message of a failed elevated run. On macOS an error that speaks of a
/// missing permission gets the hint that names the resource root.
pub open spec fn annotated(e: ErrorView, root_text: Seq<char>, platform: Platform, catalog: Json)
    -> Seq<char> {
    let message = message_of(e, catalog);
    if platform == Platform::MacOs && (contains_text(
        lower_text(details_of(e)),
        "operation not permitted"@,
    ) || contains_text(details_of(e), "权限"@)) {
        message_of(
            ErrorView::Localized {
                key: "patchBackend.errors.macosPermissionHint"@,
                vars: seq![("message"@, message), ("path"@, root_text)],
            },
            catalog,
        )
    } else {
        message
    }
}

/// The error that a failed elevated run is reported as.
pub open spec fn script_failure(
    e: ErrorView,
    root_text: Seq<char>,
    platform: Platform,
    catalog: Json,
) -> ErrorView {
    ErrorView::Localized {
        key: "patchBackend.errors.privilegedScriptFailed"@,
        vars: seq![("message"@, annotated(e, root_text, platform, catalog))],
    }
}

/// What a probe means. A directory where a file could be made is writable.
/// One where permission was denied, or whose file system is read-only, is
/// not. Any other failure is an error.
pub open spec fn probe_verdict(dir_text: Seq<char>, outcome: ProbeView) -> Result<bool, ErrorView> {
    match outcome {
        ProbeView::Writable => Ok(true),
        ProbeView::Failed { kind, detail } => if kind == ProbeFailure::Other {
            Err(detailed("patchBackend.errors.cannotWriteDir"@, dir_text + ": "@ + detail))
        } else {
            Ok(false)
        },
    }
}

/// The view of what a probe is judged as.
pub open spec fn verdict_view(r: Result<bool, CommandError>) -> Result<bool, ErrorView> {
    match r {
        Ok(b) => Ok(b),
        Err(e) => Err(e@),
    }
}

/// Whether an error is one of missing permission.
pub fn is_permission_error(error: &CommandError) -> (r: bool)
    ensures
        r == permission_error(error@),
{
    let details = error.details_for_match();
    contains_lowered(details.as_str(), "permission denied") || contains_lowered(
        details.as_str(),
        "operation not permitted",
    ) || contains_lowered(details.as_str(), "read-only file system")
}

/// Whether an operation on this resource root goes straight to the elevated
/// run.
pub fn should_use_privileged(root_text: &str, platform: Platform) -> (r: bool)
    ensures
        r == system_owned(root_text@, platform),
{
    match platform {
        Platform::MacOs | Platform::Linux => {},
        _ => {
            return false;
        },
    }
    let r = starts_with(root_text, "/Applications/") || starts_with(
        root_text,
        "/System/Applications/",
    ) || starts_with(root_text, "/Library/") || starts_with(root_text, "/System/") || starts_with(
        root_text,
        "/usr/",
    ) || starts_with(root_text, "/opt/") || starts_with(root_text, "/lib/") || starts_with(
        root_text,
        "/lib64/",
    ) || starts_with(root_text, "/var/") || starts_with(root_text, "/snap/");
    proof {
        let p = system_prefixes();
        if r {
            assert(occurs_at(root_text@, p[0], 0) || occurs_at(root_text@, p[1], 0) || occurs_at(
                root_text@,
                p[2],
                0,
            ) || occurs_at(root_text@, p[3], 0) || occurs_at(root_text@, p[4], 0) || occurs_at(
                root_text@,
                p[5],
                0,
            ) || occurs_at(root_text@, p[6], 0) || occurs_at(root_text@, p[7], 0) || occurs_at(
                root_text@,
                p[8],
                0,
            ) || occurs_at(root_text@, p[9], 0));
        }
    }
    r
}

/// What a probe of a directory means.
pub fn can_write_dir(dir_text: &str, outcome: &ProbeOutcome) -> (r: Result<bool, CommandError>)
    ensures
        verdict_view(r) == probe_verdict(dir_text@, outcome@),
{
    match outcome {
        ProbeOutcome::Writable => Ok(true),
        ProbeOutcome::Failed { kind: ProbeFailure::PermissionDenied, .. } => Ok(false),
        ProbeOutcome::Failed { kind: ProbeFailure::ReadOnlyFilesystem, .. } => Ok(false),
        ProbeOutcome::Failed { kind: ProbeFailure::Other, detail } => {
            let mut text = owned(dir_text);
            text.append(": ");
            text.append(detail.as_str());
            let vars = [("detail", text)];
            assert(borrowed_pairs(vars@) =~= seq![("detail"@, dir_text@ + ": "@ + detail@)]);
            Err(CommandError::key_with("patchBackend.errors.cannotWriteDir", &vars))
        },
    }
}

/// The name of the helper script for a locale.
pub fn select_privileged_script(locale: Option<&str>) -> (r: &'static str)
    ensures
        r@ == script_name(locale_view(locale)),
{
    if is_zh_locale(locale) {
        "anti-power.sh"
    } else {
        "anti-power.en.sh"
    }
}

/// How a flag is written on the helper's command line.
pub fn flag_text(b: bool) -> (r: &'static str)
    ensures
        r@ == flag_word(b),
{
    if b {
        "true"
    } else {
        "false"
    }
}

/// The helper's arguments.
pub fn build_script_args(
    mode: PatchMode,
    root_text: &str,
    cascade_enabled: bool,
    manager_enabled: bool,
) -> (r: Vec<String>)
    ensures
        texts(r@) == script_args(mode, root_text@, cascade_enabled, manager_enabled),
{
    let mut out: Vec<String> = Vec::new();
    out.push(owned("--mode"));
    out.push(owned(mode.as_str()));
    out.push(owned("--app-path"));
    out.push(owned(root_text));
    out.push(owned("--cascade-enabled"));
    out.push(owned(flag_text(cascade_enabled)));
    out.push(owned("--manager-enabled"));
    out.push(owned(flag_text(manager_enabled)));
    assert(texts(out@) =~= script_args(mode, root_text@, cascade_enabled, manager_enabled));
    out
}

/// Quotes a text as one word of a shell command.
pub fn shell_quote(value: &str) -> (r: String)
    ensures
        r@ == shell_quoted(value@),
{
    let h = crate::text::chars_of(value);
    let mut out = owned("'");
    // `kept` is where the characters begin that were passed over since the
    // last quote and not yet copied
    let mut kept: usize = 0;
    let mut i: usize = 0;
    proof {
        reveal_strlit("'");
        reveal_strlit("'\\''");
        assert("'"@ =~= seq!['\'']);
        assert("'\\''"@ =~= seq!['\'', '\\', '\'', '\'']);
        assert(value@.take(0) =~= Seq::<char>::empty());
        assert(out@ + value@.subrange(0, 0) =~= seq!['\''] + quoted_body(value@.take(0)));
    }
    while i < h.len()
        invariant
            kept <= i <= h.len(),
            h@ == value@,
            "'"@ == seq!['\''],
            "'\\''"@ == seq!['\'', '\\', '\'', '\''],
            out@ + value@.subrange(kept as int, i as int) == seq!['\''] + quoted_body(
                value@.take(i as int),
            ),
        decreases h.len() - i,
    {
        proof {
            assert(value@.take(i + 1).drop_last() =~= value@.take(i as int));
            assert(value@.take(i + 1).last() == value@[i as int]);
        }
        let ghost before = out@ + value@.subrange(kept as int, i as int);
        if h[i] == '\'' {
            out.append(value.substring_char(kept, i));
            out.append("'\\''");
            i += 1;
            kept = i;
            assert(out@ + value@.subrange(kept as int, i as int) =~= before + seq![
                '\'',
                '\\',
                '\'',
                '\'',
            ]);
        } else {
            i += 1;
            assert(out@ + value@.subrange(kept as int, i as int) =~= before.push(value@[i - 1]));
        }
    }
    assert(value@.take(i as int) =~= value@);
    out.append(value.substring_char(kept, i));
    out.append("'");
    out
}

/// Escapes a text for a place between double quotes in AppleScript.
pub fn escape_applescript_string(value: &str) -> (r: String)
    ensures
        r@ == applescript_escaped(value@),
{
    proof {
        reveal_strlit("\\");
        reveal_strlit("\\\\");
        reveal_strlit("\"");
        reveal_strlit("\\\"");
        assert("\\"@ =~= seq!['\\']);
        assert("\\\\"@ =~= seq!['\\', '\\']);
        assert("\""@ =~= seq!['"']);
        assert("\\\""@ =~= seq!['\\', '"']);
    }
    let first = replace_all(value, "\\", "\\\\");
    replace_all(first.as_str(), "\"", "\\\"")
}

/// The AppleScript that opens a terminal, runs the helper under `sudo`
/// there, and has the exit code written into the status file.
pub fn build_terminal_script(script: &str, args: &Vec<String>, status: &str) -> (r: String)
    ensures
        r@ == terminal_script(script@, texts(args@), status@),
{
    let mut words: Vec<String> = Vec::new();
    words.push(shell_quote("/bin/bash"));
    words.push(shell_quote(script));
    let ghost head = seq!["/bin/bash"@, script@];
    assert(texts(words@) =~= all_quoted(head));
    let mut i: usize = 0;
    assert(texts(args@).take(0) =~= Seq::<Seq<char>>::empty());
    assert(head + Seq::<Seq<char>>::empty() =~= head);
    while i < args.len()
        invariant
            i <= args.len(),
            head == seq!["/bin/bash"@, script@],
            texts(words@) == all_quoted(head + texts(args@).take(i as int)),
        decreases args.len() - i,
    {
        let ghost before = words@;
        words.push(shell_quote(args[i].as_str()));
        i += 1;
        proof {
            assert(texts(args@).take(i as int) =~= texts(args@).take(i - 1).push(args@[i - 1]@));
            assert(head + texts(args@).take(i as int) =~= (head + texts(args@).take(i - 1)).push(
                args@[i - 1]@,
            ));
            assert(texts(words@) =~= texts(before).push(shell_quoted(args@[i - 1]@)));
            assert(texts(words@) =~= all_quoted(head + texts(args@).take(i as int)));
        }
    }
    assert(texts(args@).take(i as int) =~= texts(args@));
    let line = join(&words, " ");
    let mut command = owned("sudo ");
    command.append(line.as_str());
    command.append(" ; echo $? > ");
    let quoted_status = shell_quote(status);
    command.append(quoted_status.as_str());
    assert(command@ =~= terminal_command(script@, texts(args@), status@));
    let mut out = owned("tell application \"Terminal\"\nactivate\ndo script \"");
    let escaped = escape_applescript_string(command.as_str());
    out.append(escaped.as_str());
    out.append("\"\nend tell");
    out
}

/// What a status file means.
pub fn read_status(content: &str) -> (r: Option<CommandError>)
    ensures
        opt_error(r) == status_verdict(content@),
{
    let code: i32 = match parse_i32(trim(content)) {
        Some(code) => code,
        None => 1,
    };
    if code == 0 {
        None
    } else {
        let vars = [("code", i32_to_text(code))];
        assert(borrowed_pairs(vars@) =~= seq![("code"@, signed_text(status_code(content@)))]);
        Some(CommandError::key_with("patchBackend.errors.terminalCommandFailedCode", &vars))
    }
}

/// What the outcome of the elevation wrapper means.
pub fn read_wrapper_outcome(success: bool, stdout: &str, stderr: &str) -> (r: Option<CommandError>)
    ensures
        opt_error(r) == wrapper_verdict(success, stdout@, stderr@),
{
    if success {
        return None;
    }
    let err = trim(stderr);
    if err.unicode_len() > 0 {
        return Some(CommandError::Raw(owned(err)));
    }
    let out = trim(stdout);
    if out.unicode_len() > 0 {
        return Some(CommandError::Raw(owned(out)));
    }
    Some(CommandError::key("patchBackend.errors.privilegedCanceledOrFailed"))
}

/// The message of a failed elevated run.
pub fn annotate_privileged_error(
    error: &CommandError,
    root_text: &str,
    locale: Option<&str>,
    platform: Platform,
    catalogs: &Catalogs,
) -> (r: String)
    ensures
        r@ == annotated(
            error@,
            root_text@,
            platform,
            catalog_for(*catalogs, locale_view(locale)),
        ),
{
    let details = error.details_for_match();
    let message = error.to_message(locale, catalogs);
    match platform {
        Platform::MacOs => {
            if contains_lowered(details.as_str(), "operation not permitted") || contains(
                details.as_str(),
                "权限",
            ) {
                let vars = [("message", message), ("path", owned(root_text))];
                assert(borrowed_pairs(vars@) =~= seq![
                    ("message"@, message_of(error@, catalog_for(*catalogs, locale_view(locale)))),
                    ("path"@, root_text@),
                ]);
                let hint = CommandError::key_with("patchBackend.errors.macosPermissionHint", &vars);
                return hint.to_message(locale, catalogs);
            }
            message
        },
        _ => message,
    }
}

/// The error that a failed elevated run is reported as.
pub fn privileged_failure(
    error: &CommandError,
    root_text: &str,
    locale: Option<&str>,
    platform: Platform,
    catalogs: &Catalogs,
) -> (r: CommandError)
    ensures
        r@ == script_failure(
            error@,
            root_text@,
            platform,
            catalog_for(*catalogs, locale_view(locale)),
        ),
{
    let message = annotate_privileged_error(error, root_text, locale, platform, catalogs);
    let vars = [("message", message)];
    assert(borrowed_pairs(vars@) =~= seq![
        (
            "message"@,
            annotated(error@, root_text@, platform, catalog_for(*catalogs, locale_view(locale))),
        ),
    ]);
    CommandError::key_with("patchBackend.errors.privilegedScriptFailed", &vars)
}

} // verus!
