//! [`DeviceGlobs`]: case-insensitive glob patterns over MIDI port names.

use vstd::prelude::*;

use crate::text::{debug_quoted, decimal, decimal_string, str_debug};

verus! {

#[verifier::external_type_specification]
#[verifier::external_body]
pub struct ExGlobPattern(glob::Pattern);

/// Why `glob::Pattern::new` refuses `source`: the position and message of its
/// `glob::PatternError`, or `None` when it accepts the text.
pub uninterp spec fn glob_error(source: Seq<char>) -> Option<(usize, Seq<char>)>;

/// Whether `glob::Pattern::new` accepts `source`.
pub open spec fn glob_compiles(source: Seq<char>) -> bool {
    glob_error(source) is None
}

/// How `glob` words a pattern error at `pos` with message `msg`.
pub open spec fn glob_error_text(pos: usize, msg: Seq<char>) -> Seq<char> {
    "Pattern syntax error near position "@ + decimal(pos as nat) + ": "@ + msg
}

/// How `glob` words its refusal of `source` (empty when it accepts the text).
pub open spec fn glob_refusal(source: Seq<char>) -> Seq<char> {
    match glob_error(source) {
        Some((pos, msg)) => glob_error_text(pos, msg),
        None => Seq::empty(),
    }
}

/// Whether the glob pattern `pattern` matches `name` under the given match
/// options (`glob::Pattern::matches_with`).
pub uninterp spec fn glob_matches(
    pattern: Seq<char>,
    name: Seq<char>,
    case_sensitive: bool,
    literal_separator: bool,
    literal_leading_dot: bool,
) -> bool;

/// A compiled glob pattern together with its source text. Only
/// [`GlobPattern::new`] builds one, so `compiled` is always what
/// `glob::Pattern::new` made of `source`.
#[derive(Debug)]
pub struct GlobPattern {
    source: String,
    compiled: glob::Pattern,
}

impl View for GlobPattern {
    type V = Seq<char>;

    closed spec fn view(&self) -> Seq<char> {
        self.source@
    }
}

/// Compiles `source` with `glob::Pattern::new`, handing back the position and
/// message of a `glob::PatternError`.
///
/// Claims of the outside code: the outcome is a fixed property of the text
/// (accepted, or refused at a given position with a given message), and the
/// lone wildcard `*` is accepted.
#[verifier::external_body]
fn compile_glob(source: &str) -> (r: Result<glob::Pattern, (usize, String)>)
    ensures
        r is Ok == (glob_error(source@) is None),
        r matches Err((pos, msg)) ==> glob_error(source@) == Some((pos, msg@)),
        source@ == seq!['*'] ==> r is Ok,
{
    match glob::Pattern::new(source) {
        Ok(p) => Ok(p),
        Err(e) => Err((e.pos, e.msg.to_string())),
    }
}

/// Matches `name` against a compiled pattern with `glob::Pattern::matches_with`.
///
/// Claims of the outside code: the result depends only on the pattern's
/// source text, the name and the three options; and with the literal
/// separator and leading-dot options off, `*` matches every name (the
/// documented meaning of `*`: any, possibly empty, sequence of characters).
#[verifier::external_body]
fn glob_match_with(
    pattern: &GlobPattern,
    name: &str,
    case_sensitive: bool,
    literal_separator: bool,
    literal_leading_dot: bool,
) -> (r: bool)
    ensures
        r == glob_matches(
            pattern@,
            name@,
            case_sensitive,
            literal_separator,
            literal_leading_dot,
        ),
        pattern@ == seq!['*'] && !literal_separator && !literal_leading_dot ==> r,
{
    pattern.compiled.matches_with(
        name,
        glob::MatchOptions {
            case_sensitive,
            require_literal_separator: literal_separator,
            require_literal_leading_dot: literal_leading_dot,
        },
    )
}

/// The text of a pattern error at `pos` with message `msg`, as `glob`'s
/// `Display` for `glob::PatternError` writes it.
fn pattern_error_text(pos: usize, msg: &String) -> (r: String)
    ensures
        r@ == glob_error_text(pos, msg@),
{
    String::from_str("Pattern syntax error near position ").concat(
        decimal_string(pos as u64).as_str(),
    ).concat(": ").concat(msg.as_str())
}

/// A glob pattern that `glob` refused.
#[derive(Debug)]
pub struct DeviceGlobError {
    /// The refused pattern.
    pub pattern: String,
    /// Why `glob` refused it.
    pub reason: String,
}

impl DeviceGlobError {
    /// The human-readable description of the error.
    pub fn message(&self) -> (m: String)
        ensures
            m@ == "invalid glob pattern "@ + str_debug(self.pattern@) + ": "@ + self.reason@,
    {
        String::from_str("invalid glob pattern ").concat(
            debug_quoted(self.pattern.as_str()).as_str(),
        ).concat(": ").concat(self.reason.as_str())
    }
}

/// Whether `name` matches `pattern` case-insensitively, with `*`, `?` and
/// `[...]` free to match `/` and a leading `.`; the lone wildcard `*`
/// matches every name.
pub open spec fn device_pattern_matches(pattern: Seq<char>, name: Seq<char>) -> bool {
    if pattern == seq!['*'] {
        true
    } else {
        glob_matches(pattern, name, false, false, false)
    }
}

/// Case-insensitive glob patterns used to match MIDI device names.
#[derive(Debug)]
pub struct DeviceGlobs(Vec<GlobPattern>);

impl View for DeviceGlobs {
    type V = Seq<Seq<char>>;

    closed spec fn view(&self) -> Seq<Seq<char>> {
        self.0@.map_values(|p: GlobPattern| p@)
    }
}

impl GlobPattern {
    /// Compiles `source`.
    pub fn new(source: &str) -> (r: Result<GlobPattern, DeviceGlobError>)
        ensures
            r is Ok == glob_compiles(source@),
            r matches Ok(p) ==> p@ == source@,
            r matches Err(e) ==> e.pattern@ == source@ && e.reason@ == glob_refusal(source@),
            source@ == seq!['*'] ==> r is Ok,
    {
        match compile_glob(source) {
            Ok(compiled) => Ok(GlobPattern { source: String::from_str(source), compiled }),
            Err((pos, msg)) => Err(
                DeviceGlobError { pattern: String::from_str(source), reason: pattern_error_text(pos, &msg) },
            ),
        }
    }
}

impl DeviceGlobs {
    /// A matcher that accepts any device: the single pattern `*`.
    pub fn any() -> (r: Self)
        ensures
            r@ == seq![seq!['*']],
    {
        proof {
            reveal_strlit("*");
            assert("*"@ =~= seq!['*']);
        }
        match GlobPattern::new("*") {
            Ok(p) => {
                let v = vec![p];
                let r = DeviceGlobs(v);
                assert(r@ =~= seq![seq!['*']]);
                r
            },
            Err(_) => {
                proof {
                    assert(false);
                }
                DeviceGlobs(Vec::new())
            },
        }
    }

    /// Whether at least one pattern matches `name`.
    pub fn matches(&self, name: &str) -> (r: bool)
        ensures
            r == exists|i: int| 0 <= i < self@.len() && device_pattern_matches(#[trigger] self@[i], name@),
    {
        let mut i: usize = 0;
        while i < self.0.len()
            invariant
                0 <= i <= self.0@.len(),
                forall|k: int| 0 <= k < i ==> !device_pattern_matches(#[trigger] self@[k], name@),
            decreases self.0.len() - i,
        {
            if glob_match_with(&self.0[i], name, false, false, false) {
                assert(device_pattern_matches(self@[i as int], name@));
                return true;
            }
            i = i + 1;
        }
        false
    }

    /// The matcher for one pattern string.
    pub fn from_pattern(pattern: &str) -> (r: Result<Self, DeviceGlobError>)
        ensures
            r is Ok == glob_compiles(pattern@),
            r matches Ok(g) ==> g@ == seq![pattern@],
            r matches Err(e) ==> e.pattern@ == pattern@ && e.reason@ == glob_refusal(pattern@),
    {
        let p = GlobPattern::new(pattern)?;
        let r = DeviceGlobs(vec![p]);
        assert(r@ =~= seq![pattern@]);
        Ok(r)
    }

    /// The matcher for a list of pattern strings; the empty list accepts any device.
    pub fn from_patterns(patterns: &Vec<String>) -> (r: Result<Self, DeviceGlobError>)
        ensures
            match r {
                Ok(g) => (forall|i: int| 0 <= i < patterns@.len() ==> glob_compiles(#[trigger] patterns@[i]@))
                    && g@ == (if patterns@.len() == 0 {
                    seq![seq!['*']]
                } else {
                    patterns@.map_values(|s: String| s@)
                }),
                Err(e) => exists|i: int|
                    0 <= i < patterns@.len() && !glob_compiles(#[trigger] patterns@[i]@) && e.pattern@
                        == patterns@[i]@ && e.reason@ == glob_refusal(patterns@[i]@) && forall|k: int| 0 <= k < i ==> glob_compiles(#[trigger] patterns@[k]@),
            },
    {
        if patterns.len() == 0 {
            return Ok(DeviceGlobs::any());
        }
        let mut compiled: Vec<GlobPattern> = Vec::new();
        let mut i: usize = 0;
        while i < patterns.len()
            invariant
                0 <= i <= patterns@.len(),
                compiled@.len() == i,
                forall|k: int| 0 <= k < i ==> glob_compiles(#[trigger] patterns@[k]@),
                forall|k: int| 0 <= k < i ==> (#[trigger] compiled@[k])@ == patterns@[k]@,
            decreases patterns.len() - i,
        {
            match GlobPattern::new(patterns[i].as_str()) {
                Ok(p) => compiled.push(p),
                Err(e) => {
                    return Err(e);
                },
            }
            i = i + 1;
        }
        let r = DeviceGlobs(compiled);
        assert(r@ =~= patterns@.map_values(|s: String| s@));
        Ok(r)
    }
}

impl Default for DeviceGlobs {
    /// The matcher that accepts any device.
    fn default() -> (r: Self)
        ensures
            r@ == seq![seq!['*']],
    {
        Self::any()
    }
}

} // verus!
