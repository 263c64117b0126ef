//! Robot identities: the grammar that resolves a user-supplied token into a
//! concrete execution strategy.
//!
//! A token is resolved in this precedence order: an explicit `scheme:rest`
//! form (`file`, `local`, `published`, `command`, `localrunner`, `inline`),
//! then a bare `user/robot` pair of identifiers, and finally a filesystem
//! path whose extension names a supported language.  Paths follow Unix
//! rules: the file name is what follows the last `/`, and the extension is
//! what follows the last `.` of the file name, provided that dot is not its
//! first character.

use vstd::prelude::*;

verus! {

/// A language with a built-in sandbox runner.
#[derive(Clone, Copy, PartialEq, Eq, Structural, Debug)]
pub enum Lang {
    Python,
    Javascript,
}

/// Characters allowed in user names, robot names and published slugs:
/// ASCII letters, digits, `_` and `-`.
pub open spec fn is_ident_char(c: char) -> bool {
    let u = c as u32;
    (48 <= u && u <= 57)  // '0'..='9'
    || (65 <= u && u <= 90)  // 'A'..='Z'
    || (97 <= u && u <= 122)  // 'a'..='z'
    || c == '_'
    || c == '-'
}

/// A valid identifier is a non-empty run of identifier characters.
pub open spec fn valid_ident_seq(s: Seq<char>) -> bool {
    s.len() > 0 && forall|i: int| 0 <= i < s.len() ==> is_ident_char(s[i])
}

fn ident_char(c: char) -> (b: bool)
    ensures
        b == is_ident_char(c),
{
    let u = c as u32;
    (48 <= u && u <= 57) || (65 <= u && u <= 90) || (97 <= u && u <= 122) || c == '_' || c == '-'
}

/// Character-for-character string equality, proved against the views.
pub fn str_eq(a: &str, b: &str) -> (r: bool)
    ensures
        r == (a@ == b@),
{
    let na: usize = a.unicode_len();
    let nb: usize = b.unicode_len();
    if na != nb {
        assert(a@ != b@) by {
            assert(a@.len() != b@.len());
        }
        return false;
    }
    let mut i: usize = 0;
    while i < na
        invariant
            0 <= i <= na,
            na == a@.len(),
            na == b@.len(),
            forall|j: int| 0 <= j < i ==> a@[j] == b@[j],
        decreases na - i,
    {
        let ca = a.get_char(i);
        let cb = b.get_char(i);
        if ca != cb {
            assert(a@ != b@) by {
                assert(a@[i as int] != b@[i as int]);
            }
            return false;
        }
        i += 1;
    }
    proof {
        assert(a@ =~= b@);
    }
    true
}

/// The language named by a file extension, if the extension is supported.
pub open spec fn spec_lang_from_ext(e: Seq<char>) -> Option<Lang> {
    if e == "py"@ {
        Some(Lang::Python)
    } else if e == "js"@ || e == "ejs"@ || e == "mjs"@ {
        Some(Lang::Javascript)
    } else {
        None
    }
}

/// The canonical file extension of a language.
pub open spec fn spec_lang_ext(l: Lang) -> Seq<char> {
    match l {
        Lang::Python => "py"@,
        Lang::Javascript => "js"@,
    }
}

/// The language named by its variant name, as written in an `inline:` token.
pub open spec fn spec_lang_from_name(s: Seq<char>) -> Option<Lang> {
    if s == "Python"@ {
        Some(Lang::Python)
    } else if s == "Javascript"@ {
        Some(Lang::Javascript)
    } else {
        None
    }
}

impl Lang {
    /// Maps a file extension to its language.
    pub fn from_ext(ext: &str) -> (r: Option<Lang>)
        ensures
            r == spec_lang_from_ext(ext@),
    {
        if str_eq(ext, "py") {
            Some(Lang::Python)
        } else if str_eq(ext, "js") || str_eq(ext, "ejs") || str_eq(ext, "mjs") {
            Some(Lang::Javascript)
        } else {
            None
        }
    }

    /// The canonical extension used when writing a robot's source to disk.
    pub fn ext(self) -> (r: &'static str)
        ensures
            r@ == spec_lang_ext(self),
    {
        match self {
            Lang::Python => "py",
            Lang::Javascript => "js",
        }
    }

    /// Maps a language name, as it appears in an `inline:` token, to the language.
    pub fn from_name(s: &str) -> (r: Option<Lang>)
        ensures
            r == spec_lang_from_name(s@),
    {
        if str_eq(s, "Python") {
            Some(Lang::Python)
        } else if str_eq(s, "Javascript") {
            Some(Lang::Javascript)
        } else {
            None
        }
    }
}

/// Finds the first occurrence of a character.
fn find_char(s: &str, c: char) -> (r: Option<usize>)
    ensures
        match r {
            Some(i) => s@.index_of_first(c) == Some(i as int),
            None => s@.index_of_first(c) is None,
        },
{
    let n: usize = s.unicode_len();
    let mut i: usize = 0;
    while i < n
        invariant
            0 <= i <= n,
            n == s@.len(),
            forall|j: int| 0 <= j < i ==> s@[j] != c,
        decreases n - i,
    {
        let ci = s.get_char(i);
        if ci == c {
            proof {
                s@.index_of_first_ensures(c);
                assert(s@[i as int] == c);
                match s@.index_of_first(c) {
                    Some(k) => {
                        if k < i as int {
                            assert(s@[k] != c);
                        } else if k > i as int {
                            assert(s@[i as int] != c);
                        }
                    },
                    None => {
                        assert(s@.contains(c));
                    },
                }
            }
            return Some(i);
        }
        i += 1;
    }
    proof {
        s@.index_of_first_ensures(c);
        match s@.index_of_first(c) {
            Some(k) => {
                assert(s@[k] == c);
                assert(s@[k] != c);
            },
            None => {},
        }
    }
    None
}

/// A parsed robot identity: how to locate and launch one robot.
#[derive(Debug, Clone, PartialEq, Eq)]
pub enum RobotId {
    /// A robot published on the remote service.
    Published { user: String, robot: String },
    /// A local source file in a supported language.
    Local { source: String, lang: Lang },
    /// An arbitrary command run as an external process.
    Command { command: String, args: Vec<String> },
    /// An external sandbox-runner binary applied to a source file.
    LocalRunner { runner: String, runner_args: Vec<String>, source: String },
    /// Source text passed directly in the token.
    Inline { lang: Lang, source: String },
}

/// The mathematical shape of a robot identity.
pub enum RobotIdV {
    Published { user: Seq<char>, robot: Seq<char> },
    Local { source: Seq<char>, lang: Lang },
    Command { command: Seq<char>, args: Seq<Seq<char>> },
    LocalRunner { runner: Seq<char>, runner_args: Seq<Seq<char>>, source: Seq<char> },
    Inline { lang: Lang, source: Seq<char> },
}

impl View for RobotId {
    type V = RobotIdV;

    open spec fn view(&self) -> RobotIdV {
        match self {
            RobotId::Published { user, robot } => RobotIdV::Published {
                user: user@,
                robot: robot@,
            },
            RobotId::Local { source, lang } => RobotIdV::Local { source: source@, lang: *lang },
            RobotId::Command { command, args } => RobotIdV::Command {
                command: command@,
                args: args.deep_view(),
            },
            RobotId::LocalRunner { runner, runner_args, source } => RobotIdV::LocalRunner {
                runner: runner@,
                runner_args: runner_args.deep_view(),
                source: source@,
            },
            RobotId::Inline { lang, source } => RobotIdV::Inline {
                lang: *lang,
                source: source@,
            },
        }
    }
}

/// Why a token failed to resolve.  Each variant carries the offending value.
#[derive(Debug, Clone, PartialEq, Eq)]
pub enum ParseError {
    /// The token used an explicit `scheme:` prefix that is not recognized.
    UnknownScheme { scheme: String },
    /// A `published:` token whose content is not `user/robot` in identifier characters.
    InvalidPublished { token: String },
    /// A `command:` or `localrunner:` token that is not valid shell words.
    ShellParse { content: String },
    /// A `command:` or `localrunner:` token with no words at all.
    EmptyCommand,
    /// A `localrunner:` token with a runner but no trailing source argument.
    MissingRunnerSource,
    /// An `inline:` token with no `;` separating language from source.
    MissingInlineLanguage,
    /// An `inline:` token whose language is not a supported language name.
    InvalidInlineLanguage { lang: String },
    /// A path token with no file extension.
    MissingExtension { path: String },
    /// A path token whose extension names no supported language.
    UnknownExtension { ext: String },
    /// A file name that is not usable as a robot name.
    InvalidRobotName { path: String },
}

/// The mathematical shape of a parse failure.
pub enum ParseErrorV {
    UnknownScheme { scheme: Seq<char> },
    InvalidPublished { token: Seq<char> },
    ShellParse { content: Seq<char> },
    EmptyCommand,
    MissingRunnerSource,
    MissingInlineLanguage,
    InvalidInlineLanguage { lang: Seq<char> },
    MissingExtension { path: Seq<char> },
    UnknownExtension { ext: Seq<char> },
    InvalidRobotName { path: Seq<char> },
}

impl View for ParseError {
    type V = ParseErrorV;

    open spec fn view(&self) -> ParseErrorV {
        match self {
            ParseError::UnknownScheme { scheme } => ParseErrorV::UnknownScheme {
                scheme: scheme@,
            },
            ParseError::InvalidPublished { token } => ParseErrorV::InvalidPublished {
                token: token@,
            },
            ParseError::ShellParse { content } => ParseErrorV::ShellParse { content: content@ },
            ParseError::EmptyCommand => ParseErrorV::EmptyCommand,
            ParseError::MissingRunnerSource => ParseErrorV::MissingRunnerSource,
            ParseError::MissingInlineLanguage => ParseErrorV::MissingInlineLanguage,
            ParseError::InvalidInlineLanguage { lang } => ParseErrorV::InvalidInlineLanguage {
                lang: lang@,
            },
            ParseError::MissingExtension { path } => ParseErrorV::MissingExtension { path: path@ },
            ParseError::UnknownExtension { ext } => ParseErrorV::UnknownExtension { ext: ext@ },
            ParseError::InvalidRobotName { path } => ParseErrorV::InvalidRobotName { path: path@ },
        }
    }
}

/// Finds the last occurrence of a character.
fn rfind_char(s: &str, c: char) -> (r: Option<usize>)
    ensures
        match r {
            Some(i) => s@.index_of_last(c) == Some(i as int),
            None => s@.index_of_last(c) is None,
        },
{
    let n: usize = s.unicode_len();
    let mut i: usize = n;
    while i > 0
        invariant
            0 <= i <= n,
            n == s@.len(),
            forall|j: int| i <= j < n ==> s@[j] != c,
        decreases i,
    {
        i -= 1;
        let ci = s.get_char(i);
        if ci == c {
            proof {
                s@.index_of_last_ensures(c);
                assert(s@[i as int] == c);
                match s@.index_of_last(c) {
                    Some(k) => {
                        if k < i as int {
                            assert(s@[i as int] != c);
                        } else if k > i as int {
                            assert(s@[k] != c);
                        }
                    },
                    None => {
                        assert(s@.contains(c));
                    },
                }
            }
            return Some(i);
        }
    }
    proof {
        s@.index_of_last_ensures(c);
        match s@.index_of_last(c) {
            Some(k) => {
                assert(s@[k] == c);
                assert(s@[k] != c);
            },
            None => {},
        }
    }
    None
}

/// A `user/robot` slug: at most one `/`, every part a valid identifier.
/// Without a `/` the single identifier is the robot and the user is absent.
pub open spec fn spec_published_slug(s: Seq<char>) -> Option<(Option<Seq<char>>, Seq<char>)> {
    match s.index_of_first('/') {
        None => if valid_ident_seq(s) {
            Some((None, s))
        } else {
            None
        },
        Some(i) => {
            let a = s.subrange(0, i);
            let b = s.subrange(i + 1, s.len() as int);
            if valid_ident_seq(a) && valid_ident_seq(b) {
                Some((Some(a), b))
            } else {
                None
            }
        },
    }
}

/// Splits a published slug into its optional user part and its robot part.
pub fn parse_published_slug(s: &str) -> (r: Option<(Option<String>, String)>)
    ensures
        match r {
            Some(p) => spec_published_slug(s@) == Some((p.0.deep_view(), p.1@)),
            None => spec_published_slug(s@) is None,
        },
{
    let n: usize = s.unicode_len();
    match find_char(s, '/') {
        None => {
            if RobotId::valid_ident(s) {
                Some((None, s.to_owned()))
            } else {
                None
            }
        },
        Some(i) => {
            proof {
                s@.index_of_first_ensures('/');
            }
            let a = s.substring_char(0, i);
            let b = s.substring_char(i + 1, n);
            if RobotId::valid_ident(a) && RobotId::valid_ident(b) {
                Some((Some(a.to_owned()), b.to_owned()))
            } else {
                None
            }
        },
    }
}

/// The file-name component of a path: what follows the last `/`.
pub open spec fn spec_file_name(p: Seq<char>) -> Seq<char> {
    match p.index_of_last('/') {
        None => p,
        Some(i) => p.subrange(i + 1, p.len() as int),
    }
}

/// The extension of a path: what follows the last `.` of the file name,
/// provided that dot is not the file name's first character.
pub open spec fn spec_extension(p: Seq<char>) -> Option<Seq<char>> {
    let f = spec_file_name(p);
    match f.index_of_last('.') {
        None => None,
        Some(i) => if i == 0 {
            None
        } else {
            Some(f.subrange(i + 1, f.len() as int))
        },
    }
}

/// The stem of a path: the file name with its extension removed.
pub open spec fn spec_file_stem(p: Seq<char>) -> Seq<char> {
    let f = spec_file_name(p);
    match f.index_of_last('.') {
        None => f,
        Some(i) => if i == 0 {
            f
        } else {
            f.subrange(0, i)
        },
    }
}

/// The extension of a path, if any.
pub fn extension_of(p: &str) -> (r: Option<&str>)
    ensures
        match r {
            Some(e) => spec_extension(p@) == Some(e@),
            None => spec_extension(p@) is None,
        },
{
    let n: usize = p.unicode_len();
    let fstart: usize = match rfind_char(p, '/') {
        Some(i) => {
            proof {
                p@.index_of_last_ensures('/');
            }
            i + 1
        },
        None => 0,
    };
    let f = p.substring_char(fstart, n);
    assert(f@ == spec_file_name(p@));
    let fn_len: usize = f.unicode_len();
    match rfind_char(f, '.') {
        None => None,
        Some(i) => {
            proof {
                f@.index_of_last_ensures('.');
            }
            if i == 0 {
                None
            } else {
                Some(f.substring_char(i + 1, fn_len))
            }
        },
    }
}

/// The file stem of a path.
pub fn file_stem_of(p: &str) -> (r: &str)
    ensures
        r@ == spec_file_stem(p@),
{
    let n: usize = p.unicode_len();
    let fstart: usize = match rfind_char(p, '/') {
        Some(i) => {
            proof {
                p@.index_of_last_ensures('/');
            }
            i + 1
        },
        None => 0,
    };
    let f = p.substring_char(fstart, n);
    assert(f@ == spec_file_name(p@));
    let fn_len: usize = f.unicode_len();
    match rfind_char(f, '.') {
        None => f,
        Some(i) => {
            proof {
                f@.index_of_last_ensures('.');
            }
            if i == 0 {
                f
            } else {
                f.substring_char(0, i)
            }
        },
    }
}

/// Resolution of a bare path token: its extension must name a supported language.
pub open spec fn spec_from_path(p: Seq<char>) -> Result<RobotIdV, ParseErrorV> {
    match spec_extension(p) {
        None => Err(ParseErrorV::MissingExtension { path: p }),
        Some(e) => match spec_lang_from_ext(e) {
            Some(lang) => Ok(RobotIdV::Local { source: p, lang }),
            None => Err(ParseErrorV::UnknownExtension { ext: e }),
        },
    }
}

/// Resolution of a bare `user/robot` token: both parts must be present.
pub open spec fn spec_from_published(s: Seq<char>) -> Option<RobotIdV> {
    match spec_published_slug(s) {
        Some((Some(user), robot)) => Some(RobotIdV::Published { user, robot }),
        _ => None,
    }
}

impl RobotId {
    /// Whether a string is a valid identifier for users, robots and names.
    pub fn valid_ident(s: &str) -> (b: bool)
        ensures
            b == valid_ident_seq(s@),
    {
        let n: usize = s.unicode_len();
        if n == 0 {
            return false;
        }
        let mut i: usize = 0;
        while i < n
            invariant
                0 <= i <= n,
                n == s@.len(),
                forall|j: int| 0 <= j < i ==> is_ident_char(s@[j]),
            decreases n - i,
        {
            let c = s.get_char(i);
            if !ident_char(c) {
                return false;
            }
            i += 1;
        }
        true
    }

    /// Resolves a bare `user/robot` token.
    pub fn from_published(s: &str) -> (r: Option<RobotId>)
        ensures
            match r {
                Some(id) => spec_from_published(s@) == Some(id@),
                None => spec_from_published(s@) is None,
            },
    {
        match parse_published_slug(s) {
            Some((Some(user), robot)) => Some(RobotId::Published { user, robot }),
            _ => None,
        }
    }

    /// Resolves a path token: the file's extension picks the language.
    pub fn from_path(source: &str) -> (r: Result<RobotId, ParseError>)
        ensures
            match r {
                Ok(id) => spec_from_path(source@) == Ok::<RobotIdV, ParseErrorV>(id@),
                Err(e) => spec_from_path(source@) == Err::<RobotIdV, ParseErrorV>(e@),
            },
    {
        match extension_of(source) {
            None => Err(ParseError::MissingExtension { path: source.to_owned() }),
            Some(e) => match Lang::from_ext(e) {
                Some(lang) => Ok(RobotId::Local { source: source.to_owned(), lang }),
                None => Err(ParseError::UnknownExtension { ext: e.to_owned() }),
            },
        }
    }
}

/// A robot name inferred from a file path: the file stem, when it is a
/// valid identifier.
pub fn robot_name_from_path(path: &str) -> (r: Result<String, ParseError>)
    ensures
        match r {
            Ok(name) => valid_ident_seq(spec_file_stem(path@)) && name@ == spec_file_stem(path@),
            Err(e) => !valid_ident_seq(spec_file_stem(path@)) && e@ == (ParseErrorV::InvalidRobotName { path: path@ }),
        },
{
    let stem = file_stem_of(path);
    if RobotId::valid_ident(stem) {
        Ok(stem.to_owned())
    } else {
        Err(ParseError::InvalidRobotName { path: path.to_owned() })
    }
}

/// What POSIX shell-word splitting makes of a string: its words, or nothing
/// when the string has an unmatched quote.
pub uninterp spec fn shell_split_of(s: Seq<char>) -> Option<Seq<Seq<char>>>;

/// Relies on shell_words::split: POSIX-style shell word splitting, a pure
/// function of the characters alone; it fails exactly on an unmatched quote.
#[verifier::external_body]
fn shell_split(s: &str) -> (r: Option<Vec<String>>)
    ensures
        r is Some <==> shell_split_of(s@) is Some,
        r matches Some(v) ==> shell_split_of(s@) == Some(v.deep_view()),
{
    shell_words::split(s).ok()
}

/// Resolution of the words of a `command:` token: the first word is the
/// command, the rest are its arguments; no words at all is an error.
pub open spec fn spec_resolve_command(ws: Seq<Seq<char>>) -> Result<RobotIdV, ParseErrorV> {
    if ws.len() == 0 {
        Err(ParseErrorV::EmptyCommand)
    } else {
        Ok(RobotIdV::Command { command: ws[0], args: ws.drop_first() })
    }
}

/// Resolution of the words of a `localrunner:` token: the first word is the
/// runner, the last is the source file, the words between are the runner's
/// arguments; a missing runner or a missing source is an error.
pub open spec fn spec_resolve_localrunner(ws: Seq<Seq<char>>) -> Result<RobotIdV, ParseErrorV> {
    if ws.len() == 0 {
        Err(ParseErrorV::EmptyCommand)
    } else if ws.len() == 1 {
        Err(ParseErrorV::MissingRunnerSource)
    } else {
        Ok(RobotIdV::LocalRunner {
            runner: ws[0],
            runner_args: ws.subrange(1, ws.len() - 1),
            source: ws.last(),
        })
    }
}

/// Builds a `Command` identity from already-split shell words.
pub fn resolve_command_words(words: Vec<String>) -> (r: Result<RobotId, ParseError>)
    ensures
        match r {
            Ok(id) => spec_resolve_command(words.deep_view()) == Ok::<RobotIdV, ParseErrorV>(id@),
            Err(e) => spec_resolve_command(words.deep_view()) == Err::<RobotIdV, ParseErrorV>(
                e@,
            ),
        },
{
    if words.len() == 0 {
        return Err(ParseError::EmptyCommand);
    }
    let ghost all = words.deep_view();
    let mut w = words;
    let command = w.remove(0);
    proof {
        assert(w.deep_view() =~= all.drop_first());
    }
    Ok(RobotId::Command { command, args: w })
}

/// Builds a `LocalRunner` identity from already-split shell words.
pub fn resolve_localrunner_words(words: Vec<String>) -> (r: Result<RobotId, ParseError>)
    ensures
        match r {
            Ok(id) => spec_resolve_localrunner(words.deep_view()) == Ok::<
                RobotIdV,
                ParseErrorV,
            >(id@),
            Err(e) => spec_resolve_localrunner(words.deep_view()) == Err::<
                RobotIdV,
                ParseErrorV,
            >(e@),
        },
{
    if words.len() == 0 {
        return Err(ParseError::EmptyCommand);
    }
    if words.len() == 1 {
        return Err(ParseError::MissingRunnerSource);
    }
    let ghost all = words.deep_view();
    let mut w = words;
    let source = match w.pop() {
        Some(x) => x,
        None => {
            return Err(ParseError::MissingRunnerSource);
        },
    };
    let runner = w.remove(0);
    proof {
        assert(source@ == all.last());
        assert(w.deep_view() =~= all.subrange(1, all.len() - 1));
    }
    Ok(RobotId::LocalRunner { runner, runner_args: w, source })
}

/// Resolution of an explicit `scheme:rest` token.
pub open spec fn spec_parse_scheme(scheme: Seq<char>, rest: Seq<char>) -> Result<
    RobotIdV,
    ParseErrorV,
> {
    if scheme == "file"@ || scheme == "local"@ {
        spec_from_path(rest)
    } else if scheme == "published"@ {
        match spec_from_published(rest) {
            Some(id) => Ok(id),
            None => Err(ParseErrorV::InvalidPublished { token: rest }),
        }
    } else if scheme == "command"@ {
        match shell_split_of(rest) {
            None => Err(ParseErrorV::ShellParse { content: rest }),
            Some(ws) => spec_resolve_command(ws),
        }
    } else if scheme == "localrunner"@ {
        match shell_split_of(rest) {
            None => Err(ParseErrorV::ShellParse { content: rest }),
            Some(ws) => spec_resolve_localrunner(ws),
        }
    } else if scheme == "inline"@ {
        match rest.index_of_first(';') {
            None => Err(ParseErrorV::MissingInlineLanguage),
            Some(i) => {
                let lang_name = rest.subrange(0, i);
                let source = rest.subrange(i + 1, rest.len() as int);
                match spec_lang_from_name(lang_name) {
                    Some(lang) => Ok(RobotIdV::Inline { lang, source }),
                    None => Err(ParseErrorV::InvalidInlineLanguage { lang: lang_name }),
                }
            },
        }
    } else {
        Err(ParseErrorV::UnknownScheme { scheme })
    }
}

/// The whole identifier grammar, in precedence order: an explicit scheme
/// split at the first `:`, then a bare `user/robot` slug, then a path.
pub open spec fn spec_parse(s: Seq<char>) -> Result<RobotIdV, ParseErrorV> {
    match s.index_of_first(':') {
        Some(i) => spec_parse_scheme(s.subrange(0, i), s.subrange(i + 1, s.len() as int)),
        None => match spec_from_published(s) {
            Some(id) => Ok(id),
            None => spec_from_path(s),
        },
    }
}

impl RobotId {
    /// Parses a user-supplied robot identifier token.
    pub fn parse(s: &str) -> (r: Result<RobotId, ParseError>)
        ensures
            match r {
                Ok(id) => spec_parse(s@) == Ok::<RobotIdV, ParseErrorV>(id@),
                Err(e) => spec_parse(s@) == Err::<RobotIdV, ParseErrorV>(e@),
            },
    {
        let n: usize = s.unicode_len();
        match find_char(s, ':') {
            Some(i) => {
                proof {
                    s@.index_of_first_ensures(':');
                }
                let scheme = s.substring_char(0, i);
                let rest = s.substring_char(i + 1, n);
                if str_eq(scheme, "file") || str_eq(scheme, "local") {
                    Self::from_path(rest)
                } else if str_eq(scheme, "published") {
                    match Self::from_published(rest) {
                        Some(id) => Ok(id),
                        None => Err(ParseError::InvalidPublished { token: rest.to_owned() }),
                    }
                } else if str_eq(scheme, "command") {
                    match shell_split(rest) {
                        None => Err(ParseError::ShellParse { content: rest.to_owned() }),
                        Some(words) => resolve_command_words(words),
                    }
                } else if str_eq(scheme, "localrunner") {
                    match shell_split(rest) {
                        None => Err(ParseError::ShellParse { content: rest.to_owned() }),
                        Some(words) => resolve_localrunner_words(words),
                    }
                } else if str_eq(scheme, "inline") {
                    let rn: usize = rest.unicode_len();
                    match find_char(rest, ';') {
                        None => Err(ParseError::MissingInlineLanguage),
                        Some(j) => {
                            proof {
                                rest@.index_of_first_ensures(';');
                            }
                            let lang_name = rest.substring_char(0, j);
                            let source = rest.substring_char(j + 1, rn);
                            match Lang::from_name(lang_name) {
                                Some(lang) => Ok(
                                    RobotId::Inline { lang, source: source.to_owned() },
                                ),
                                None => Err(
                                    ParseError::InvalidInlineLanguage {
                                        lang: lang_name.to_owned(),
                                    },
                                ),
                            }
                        },
                    }
                } else {
                    Err(ParseError::UnknownScheme { scheme: scheme.to_owned() })
                }
            },
            None => {
                match Self::from_published(s) {
                    Some(id) => Ok(id),
                    None => Self::from_path(s),
                }
            },
        }
    }
}

/// Words joined with single spaces, in order.
pub open spec fn spec_join_space(ws: Seq<Seq<char>>) -> Seq<char>
    decreases ws.len(),
{
    if ws.len() == 0 {
        Seq::empty()
    } else if ws.len() == 1 {
        ws[0]
    } else {
        ws[0] + " "@ + spec_join_space(ws.drop_first())
    }
}

/// Joining one more word appends a space and the word, unless nothing was
/// joined yet.
proof fn lemma_join_space_push(a: Seq<Seq<char>>, x: Seq<char>)
    ensures
        spec_join_space(a.push(x)) == if a.len() == 0 {
            x
        } else {
            spec_join_space(a) + " "@ + x
        },
    decreases a.len(),
{
    if a.len() == 0 {
        assert(a.push(x).len() == 1);
        assert(a.push(x)[0] == x);
    } else if a.len() == 1 {
        assert(a.push(x).drop_first() =~= seq![x]);
        assert(a.push(x)[0] == a[0]);
        assert(spec_join_space(seq![x]) == x);
    } else {
        lemma_join_space_push(a.drop_first(), x);
        assert(a.push(x).drop_first() =~= a.drop_first().push(x));
        assert(a.push(x)[0] == a[0]);
        assert(spec_join_space(a.push(x)) == a[0] + " "@ + spec_join_space(
            a.drop_first().push(x),
        ));
        assert(a[0] + " "@ + (spec_join_space(a.drop_first()) + " "@ + x) =~= (a[0] + " "@
            + spec_join_space(a.drop_first())) + " "@ + x);
    }
}

/// Joins words with single spaces.
pub fn join_space(ws: &Vec<String>) -> (r: String)
    ensures
        r@ == spec_join_space(ws.deep_view()),
{
    let mut out = String::new();
    let mut i: usize = 0;
    while i < ws.len()
        invariant
            0 <= i <= ws.len(),
            out@ == spec_join_space(ws.deep_view().take(i as int)),
        decreases ws.len() - i,
    {
        let ghost prefix = ws.deep_view().take(i as int);
        if i > 0 {
            out.append(" ");
        }
        out.append(ws[i].as_str());
        proof {
            lemma_join_space_push(prefix, ws.deep_view()[i as int]);
            assert(ws.deep_view().take(i + 1) =~= prefix.push(ws.deep_view()[i as int]));
            if i == 0 {
                assert(out@ =~= ws.deep_view()[0]);
            }
        }
        i += 1;
    }
    proof {
        assert(ws.deep_view().take(ws.deep_view().len() as int) =~= ws.deep_view());
    }
    out
}

/// The two display components of an identity: a user-like tag and a body.
pub open spec fn spec_display_id(id: RobotIdV) -> (Seq<char>, Seq<char>) {
    match id {
        RobotIdV::Published { user, robot } => (user, robot),
        RobotIdV::Local { source, .. } => (".local"@, source),
        RobotIdV::Command { command, args } => (
            ".command"@,
            spec_join_space(seq![command] + args),
        ),
        RobotIdV::LocalRunner { runner, runner_args, source } => (
            ".localrunner"@,
            spec_join_space(seq![runner] + runner_args + seq![source]),
        ),
        RobotIdV::Inline { .. } => (".inline"@, "."@),
    }
}

impl RobotId {
    /// How an identity is shown: a user-like tag and a body.
    pub fn display_id(&self) -> (r: (String, String))
        ensures
            r.0@ == spec_display_id(self@).0,
            r.1@ == spec_display_id(self@).1,
    {
        match self {
            RobotId::Published { user, robot } => (user.clone(), robot.clone()),
            RobotId::Local { source, .. } => (".local".to_owned(), source.clone()),
            RobotId::Command { command, args } => {
                let mut v: Vec<String> = Vec::new();
                v.push(command.clone());
                let mut k: usize = 0;
                while k < args.len()
                    invariant
                        0 <= k <= args.len(),
                        v.deep_view() =~= seq![command@] + args.deep_view().take(k as int),
                    decreases args.len() - k,
                {
                    let ghost dv = v.deep_view();
                    v.push(args[k].clone());
                    proof {
                        assert(v.deep_view() =~= dv.push(args.deep_view()[k as int]));
                        assert(args.deep_view().take(k + 1) =~= args.deep_view().take(
                            k as int,
                        ).push(args.deep_view()[k as int]));
                        assert(v.deep_view() =~= seq![command@] + args.deep_view().take(k + 1));
                    }
                    k += 1;
                }
                proof {
                    assert(args.deep_view().take(args.deep_view().len() as int)
                        =~= args.deep_view());
                }
                (".command".to_owned(), join_space(&v))
            },
            RobotId::LocalRunner { runner, runner_args, source } => {
                let mut v: Vec<String> = Vec::new();
                v.push(runner.clone());
                let mut k: usize = 0;
                while k < runner_args.len()
                    invariant
                        0 <= k <= runner_args.len(),
                        v.deep_view() =~= seq![runner@] + runner_args.deep_view().take(k as int),
                    decreases runner_args.len() - k,
                {
                    let ghost dv = v.deep_view();
                    v.push(runner_args[k].clone());
                    proof {
                        assert(v.deep_view() =~= dv.push(runner_args.deep_view()[k as int]));
                        assert(runner_args.deep_view().take(k + 1)
                            =~= runner_args.deep_view().take(k as int).push(
                            runner_args.deep_view()[k as int],
                        ));
                        assert(v.deep_view() =~= seq![runner@] + runner_args.deep_view().take(
                            k + 1,
                        ));
                    }
                    k += 1;
                }
                let ghost dv2 = v.deep_view();
                v.push(source.clone());
                proof {
                    assert(runner_args.deep_view().take(runner_args.deep_view().len() as int)
                        =~= runner_args.deep_view());
                    assert(v.deep_view() =~= dv2.push(source@));
                    assert(v.deep_view() =~= seq![runner@] + runner_args.deep_view() + seq![
                        source@,
                    ]);
                }
                (".localrunner".to_owned(), join_space(&v))
            },
            RobotId::Inline { .. } => (".inline".to_owned(), ".".to_owned()),
        }
    }
}

/// Law: a token made of two valid identifiers joined by `/` always resolves
/// to the `Published` identity naming exactly those identifiers.
pub proof fn lemma_parse_published(user: Seq<char>, robot: Seq<char>)
    requires
        valid_ident_seq(user),
        valid_ident_seq(robot),
    ensures
        spec_parse(user + "/"@ + robot) == Ok::<RobotIdV, ParseErrorV>(
            RobotIdV::Published { user, robot },
        ),
{
    let s = user + "/"@ + robot;
    reveal_strlit("/");
    assert(s.len() == user.len() + 1 + robot.len());
    assert(s[user.len() as int] == '/');
    assert(forall|j: int| 0 <= j < user.len() ==> s[j] == user[j]);
    assert(forall|j: int|
        user.len() + 1 <= j < s.len() ==> s[j] == robot[j - user.len() - 1]);
    assert(!is_ident_char(':'));
    assert(!is_ident_char('/'));
    assert(':' != '/');
    s.index_of_first_ensures(':');
    match s.index_of_first(':') {
        Some(k) => {
            assert(s[k] == ':');
            if k < user.len() {
                assert(is_ident_char(s[k]));
            } else if k == user.len() {
                assert(s[k] == '/');
            } else {
                assert(is_ident_char(s[k]));
            }
            assert(false);
        },
        None => {},
    }
    s.index_of_first_ensures('/');
    match s.index_of_first('/') {
        Some(k) => {
            assert(s[k] == '/');
            if k < user.len() {
                assert(is_ident_char(s[k]));
                assert(false);
            } else if k > user.len() {
                assert(forall|j: int| 0 <= j < k ==> s[j] != '/');
                assert(s[user.len() as int] == '/');
                assert(false);
            }
            assert(k == user.len());
            assert(s.subrange(0, k) =~= user);
            assert(s.subrange(k + 1, s.len() as int) =~= robot);
        },
        None => {
            assert(s[user.len() as int] == '/');
            assert(s.contains('/'));
            assert(false);
        },
    }
}

/// Law: a token written `scheme:rest`, where the scheme itself contains no
/// `:`, always resolves by the explicit-scheme rule applied to that scheme
/// and that rest.
pub proof fn lemma_parse_scheme(scheme: Seq<char>, rest: Seq<char>)
    requires
        !scheme.contains(':'),
    ensures
        spec_parse(scheme + ":"@ + rest) == spec_parse_scheme(scheme, rest),
{
    let s = scheme + ":"@ + rest;
    reveal_strlit(":");
    assert(s.len() == scheme.len() + 1 + rest.len());
    assert(s[scheme.len() as int] == ':');
    assert(forall|j: int| 0 <= j < scheme.len() ==> s[j] == scheme[j]);
    s.index_of_first_ensures(':');
    match s.index_of_first(':') {
        Some(k) => {
            assert(s[k] == ':');
            if k < scheme.len() {
                assert(scheme[k] == ':');
                assert(scheme.contains(':'));
                assert(false);
            } else if k > scheme.len() {
                assert(forall|j: int| 0 <= j < k ==> s[j] != ':');
                assert(s[scheme.len() as int] == ':');
                assert(false);
            }
            assert(k == scheme.len());
            assert(s.subrange(0, k) =~= scheme);
            assert(s.subrange(k + 1, s.len() as int) =~= rest);
        },
        None => {
            assert(s[scheme.len() as int] == ':');
            assert(s.contains(':'));
            assert(false);
        },
    }
}

/// Law: a bare token without `:` that is no published slug and whose
/// extension names no supported language fails with an error naming
/// exactly that extension.
pub proof fn lemma_parse_unknown_extension(p: Seq<char>, e: Seq<char>)
    requires
        !p.contains(':'),
        spec_from_published(p) is None,
        spec_extension(p) == Some(e),
        spec_lang_from_ext(e) is None,
    ensures
        spec_parse(p) == Err::<RobotIdV, ParseErrorV>(ParseErrorV::UnknownExtension { ext: e }),
{
    p.index_of_first_ensures(':');
    match p.index_of_first(':') {
        Some(k) => {
            assert(p.contains(':'));
            assert(false);
        },
        None => {},
    }
}

} // verus!
