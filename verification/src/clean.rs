//! The rules of the cache cleaner: when it may begin, and what the answers
//! of the programs that it runs mean.

use crate::i18n::{apply_vars, borrowed_pairs, filled, keyed, CommandError, ErrorView};
use crate::numbers::{parse_i64, signed_value64};
use crate::paths::Platform;
use crate::rewrite::{split, texts, trim};
use crate::text::{contains, contains_text, owned, split_text, trimmed};
use vstd::prelude::*;
use vstd::string::*;

verus! {

/// Whose caches are to be cleaned.
#[derive(Debug, Clone, Copy, PartialEq, Eq, Structural)]
pub struct CleanTargets {
    pub antigravity: bool,
    pub gemini: bool,
    pub codex: bool,
    pub claude: bool,
}

impl CleanTargets {
    /// Whether anything is to be cleaned.
    pub fn has_any(&self) -> (r: bool)
        ensures
            r == (self.antigravity || self.gemini || self.codex || self.claude),
    {
        self.antigravity || self.gemini || self.codex || self.claude
    }
}

/// Why a cleaning cannot begin, if it cannot: nothing was chosen, or the
/// platform has no cleaner.
pub open spec fn clean_refusal(targets: CleanTargets, platform: Platform) -> Option<ErrorView> {
    if !(targets.antigravity || targets.gemini || targets.codex || targets.claude) {
        Some(keyed("cleanBackend.errors.noTarget"@))
    } else if platform == Platform::Other {
        Some(keyed("cleanBackend.errors.unsupportedPlatform"@))
    } else {
        None
    }
}

/// What the end of the cleaning script means. Success gives its output. A
/// failure gives what it said: the output where the error output is empty,
/// the error output where the output is empty, else both on two lines.
pub open spec fn clean_result(success: bool, stdout: Seq<char>, stderr: Seq<char>) -> Result<
    Seq<char>,
    ErrorView,
> {
    let out = trimmed(stdout);
    let err = trimmed(stderr);
    if success {
        Ok(out)
    } else if err.len() == 0 {
        Err(ErrorView::Raw(out))
    } else if out.len() == 0 {
        Err(ErrorView::Raw(err))
    } else {
        Err(ErrorView::Raw(out + seq!['\n'] + err))
    }
}

/// The numbers among some lines: each line that, trimmed, is a signed
/// 64-bit number.
pub open spec fn counts_in(lines: Seq<Seq<char>>) -> Seq<int>
    decreases lines.len(),
{
    if lines.len() == 0 {
        Seq::empty()
    } else {
        match signed_value64(trimmed(lines.last())) {
            Some(n) => counts_in(lines.drop_last()).push(n),
            None => counts_in(lines.drop_last()),
        }
    }
}

/// The counts before and after the cleaning of a database: the first and
/// the last number that the database tool printed, where it printed two or
/// more.
pub open spec fn counts_of(output: Seq<char>) -> Option<(int, int)> {
    let counts = counts_in(split_text(output, '\n'));
    if counts.len() < 2 {
        None
    } else {
        Some((counts[0], counts.last()))
    }
}

/// The view of a result that is a text or an error.
pub open spec fn text_result(r: Result<String, CommandError>) -> Result<Seq<char>, ErrorView> {
    match r {
        Ok(text) => Ok(text@),
        Err(e) => Err(e@),
    }
}

/// Why a cleaning cannot begin, if it cannot.
pub fn run_anti_clean_internal(targets: &CleanTargets, platform: Platform) -> (r: Option<
    CommandError,
>)
    ensures
        crate::escalation::opt_error(r) == clean_refusal(*targets, platform),
{
    if !targets.has_any() {
        return Some(CommandError::key("cleanBackend.errors.noTarget"));
    }
    match platform {
        Platform::Other => Some(CommandError::key("cleanBackend.errors.unsupportedPlatform")),
        _ => None,
    }
}

/// What the end of the cleaning script means.
pub fn clean_script_outcome(success: bool, stdout: &str, stderr: &str) -> (r: Result<
    String,
    CommandError,
>)
    ensures
        text_result(r) == clean_result(success, stdout@, stderr@),
{
    let out = trim(stdout);
    let err = trim(stderr);
    if success {
        return Ok(owned(out));
    }
    if err.unicode_len() == 0 {
        return Err(CommandError::Raw(owned(out)));
    }
    if out.unicode_len() == 0 {
        return Err(CommandError::Raw(owned(err)));
    }
    let mut both = owned(out);
    both.append("\n");
    both.append(err);
    proof {
        reveal_strlit("\n");
        assert("\n"@ =~= seq!['\n']);
    }
    Err(CommandError::Raw(both))
}

/// Refuses to clean while a program runs: the error where the listing of
/// running programs holds `pattern`, filled with the program's name.
pub fn check_running_windows(name: &str, pattern: &str, listing: &str, template: &str) -> (r:
    Option<CommandError>)
    ensures
        !contains_text(listing@, pattern@) ==> r is None,
        contains_text(listing@, pattern@) ==> r is Some && r->0@ == ErrorView::Raw(
            filled(template@, seq![("name"@, name@)]),
        ),
{
    if !contains(listing, pattern) {
        return None;
    }
    let vars = [("name", owned(name))];
    assert(borrowed_pairs(vars@) =~= seq![("name"@, name@)]);
    Some(CommandError::Raw(apply_vars(owned(template), &vars)))
}

/// The counts before and after the cleaning of a database, read from what
/// the database tool printed.
pub fn sqlite_clean_and_count(output: &str) -> (r: Option<(i64, i64)>)
    ensures
        r is Some <==> counts_of(output@) is Some,
        r matches Some(pair) ==> counts_of(output@) == Some((pair.0 as int, pair.1 as int)),
{
    let lines = split(output, '\n');
    let mut first: Option<i64> = None;
    let mut last: Option<i64> = None;
    let mut seen: usize = 0;
    let mut i: usize = 0;
    assert(texts(lines@).take(0) =~= Seq::<Seq<char>>::empty());
    while i < lines.len()
        invariant
            i <= lines.len(),
            seen <= i,
            seen == counts_in(texts(lines@).take(i as int)).len(),
            seen > 0 ==> first is Some && last is Some && first->0 as int == counts_in(
                texts(lines@).take(i as int),
            )[0] && last->0 as int == counts_in(texts(lines@).take(i as int)).last(),
        decreases lines.len() - i,
    {
        proof {
            assert(texts(lines@).take(i + 1).drop_last() =~= texts(lines@).take(i as int));
            assert(texts(lines@).take(i + 1).last() == lines@[i as int]@);
        }
        match parse_i64(trim(lines[i].as_str())) {
            Some(n) => {
                if seen == 0 {
                    first = Some(n);
                }
                last = Some(n);
                seen += 1;
            },
            None => {},
        }
        i += 1;
    }
    assert(texts(lines@).take(i as int) =~= texts(lines@));
    if seen < 2 {
        return None;
    }
    match (first, last) {
        (Some(a), Some(b)) => Some((a, b)),
        _ => None,
    }
}

} // verus!
