//! Templates: text in which `{{ path }}` stands for a variable of the store or
//! of the environment.

use vstd::prelude::*;
use crate::error::{Error, ErrorKind};
use crate::text::{append_chars, chars_of, is_digit, split, split_spec, string_of, string_of_range};
use crate::value::{display_text, field, strings, texts, walk, Context, Json};

verus! {

/// Whether `c` is one of the letters `a` to `z` and `A` to `Z`.
pub open spec fn is_letter(c: char) -> bool {
    'a' <= c <= 'z' || 'A' <= c <= 'Z'
}

/// Whether `c` may stand in a path after its first letter.
pub open spec fn is_path_char(c: char) -> bool {
    is_letter(c) || is_digit(c) || c == '-' || c == '.' || c == '_' || c == '$' || c == '['
        || c == ']'
}

/// The first position at or after `i` that holds no space.
pub open spec fn skip_spaces(t: Seq<char>, i: int) -> int
    decreases t.len() - i,
{
    if 0 <= i < t.len() && t[i] == ' ' {
        skip_spaces(t, i + 1)
    } else {
        i
    }
}

/// The first position at or after `i` that holds no path character.
pub open spec fn skip_path(t: Seq<char>, i: int) -> int
    decreases t.len() - i,
{
    if 0 <= i < t.len() && is_path_char(t[i]) {
        skip_path(t, i + 1)
    } else {
        i
    }
}

/// An interpolation in a template: where its path starts and ends, and where
/// the interpolation itself ends.
pub struct Token {
    pub path_start: int,
    pub path_end: int,
    pub end: int,
}

/// The interpolation that starts at position `i` of `t`: two opening braces,
/// spaces, a path that starts with a letter, spaces, and two closing braces.
pub open spec fn token_at(t: Seq<char>, i: int) -> Option<Token> {
    if 0 <= i && i + 2 <= t.len() && t[i] == '{' && t[i + 1] == '{' {
        let a = skip_spaces(t, i + 2);
        if a < t.len() && is_letter(t[a]) {
            let b = skip_path(t, a);
            let c = skip_spaces(t, b);
            if c + 2 <= t.len() && t[c] == '}' && t[c + 1] == '}' {
                Some(Token { path_start: a, path_end: b, end: c + 2 })
            } else {
                None
            }
        } else {
            None
        }
    } else {
        None
    }
}

/// Skipping spaces ends inside the template, at or after where it starts.
pub proof fn lemma_skip_spaces(t: Seq<char>, i: int)
    requires
        0 <= i <= t.len(),
    ensures
        i <= skip_spaces(t, i) <= t.len(),
    decreases t.len() - i,
{
    if i < t.len() && t[i] == ' ' {
        lemma_skip_spaces(t, i + 1);
    }
}

/// Skipping path characters ends inside the template, and after where it
/// starts where it starts at a path character.
pub proof fn lemma_skip_path(t: Seq<char>, i: int)
    requires
        0 <= i <= t.len(),
    ensures
        i <= skip_path(t, i) <= t.len(),
        i < t.len() && is_path_char(t[i]) ==> i < skip_path(t, i),
    decreases t.len() - i,
{
    if i < t.len() && is_path_char(t[i]) {
        lemma_skip_path(t, i + 1);
    }
}

/// An interpolation lies inside the template, and its parts in their order.
pub proof fn lemma_token_bounds(t: Seq<char>, i: int)
    ensures
        match token_at(t, i) {
            Some(k) => 0 <= i && i + 2 <= k.path_start < k.path_end <= k.end - 2 && k.end
                <= t.len(),
            None => true,
        },
{
    if 0 <= i && i + 2 <= t.len() {
        lemma_skip_spaces(t, i + 2);
        let a = skip_spaces(t, i + 2);
        if a < t.len() {
            lemma_skip_path(t, a);
            lemma_skip_spaces(t, skip_path(t, a));
        }
    }
}

/// Whether the template holds an interpolation.
pub open spec fn has_token(t: Seq<char>) -> bool {
    exists|i: int| 0 <= i < t.len() && token_at(t, i) is Some
}

/// A path as the segments of a pointer: `.` and `[` start a new segment, `]` is
/// left out.
pub open spec fn pointer_chars(path: Seq<char>) -> Seq<char>
    decreases path.len(),
{
    if path.len() == 0 {
        Seq::<char>::empty()
    } else {
        let head = pointer_chars(path.drop_last());
        let c = path.last();
        if c == ']' {
            head
        } else if c == '.' || c == '[' {
            head.push('/')
        } else {
            head.push(c)
        }
    }
}

/// The segments of a path, such as `a`, `b`, `0`, `c` for `a.b[0].c`.
pub open spec fn path_tokens(path: Seq<char>) -> Seq<Seq<char>> {
    split_spec(pointer_chars(path), '/')
}

/// The value of the first variable of the environment whose name is `name`.
pub open spec fn env_get(env: Seq<(Seq<char>, Seq<char>)>, name: Seq<char>) -> Option<
    Seq<char>,
>
    decreases env.len(),
{
    if env.len() == 0 {
        None
    } else if env[0].0 == name {
        Some(env[0].1)
    } else {
        env_get(env.drop_first(), name)
    }
}

/// The text that a path stands for: what the store holds there, as text;
/// failing that, the environment variable of that name.
pub open spec fn variable_text(
    store: Seq<(Seq<char>, Json)>,
    env: Seq<(Seq<char>, Seq<char>)>,
    path: Seq<char>,
) -> Option<Seq<char>> {
    match walk(Json::Object(store), path_tokens(path)) {
        Some(j) => Some(display_text(j)),
        None => env_get(env, path),
    }
}

/// The template from position `i` on, with each interpolation replaced by the
/// text of its variable. An unknown variable is replaced by nothing, or, when
/// `strict`, the first one ends the expansion with its path as the error.
pub open spec fn expand_from(
    t: Seq<char>,
    i: int,
    store: Seq<(Seq<char>, Json)>,
    env: Seq<(Seq<char>, Seq<char>)>,
    strict: bool,
) -> Result<Seq<char>, Seq<char>>
    decreases t.len() - i,
{
    if i < 0 || i >= t.len() {
        Ok(Seq::<char>::empty())
    } else {
        match token_at(t, i) {
            Some(k) => {
                proof {
                    lemma_token_bounds(t, i);
                }
                let path = t.subrange(k.path_start, k.path_end);
                match variable_text(store, env, path) {
                    Some(v) => match expand_from(t, k.end, store, env, strict) {
                        Ok(rest) => Ok(v + rest),
                        Err(p) => Err(p),
                    },
                    None => if strict {
                        Err(path)
                    } else {
                        expand_from(t, k.end, store, env, strict)
                    },
                }
            },
            None => match expand_from(t, i + 1, store, env, strict) {
                Ok(rest) => Ok(seq![t[i]] + rest),
                Err(p) => Err(p),
            },
        }
    }
}

/// The paths of the interpolations of the template from position `i` on that
/// stand for nothing: the variables that neither the store nor the
/// environment knows, in the order of the template.
pub open spec fn unknown_from(
    t: Seq<char>,
    i: int,
    store: Seq<(Seq<char>, Json)>,
    env: Seq<(Seq<char>, Seq<char>)>,
) -> Seq<Seq<char>>
    decreases t.len() - i,
{
    if i < 0 || i >= t.len() {
        Seq::empty()
    } else {
        match token_at(t, i) {
            Some(k) => {
                proof {
                    lemma_token_bounds(t, i);
                }
                let path = t.subrange(k.path_start, k.path_end);
                let rest = unknown_from(t, k.end, store, env);
                if variable_text(store, env, path) is None {
                    seq![path] + rest
                } else {
                    rest
                }
            },
            None => unknown_from(t, i + 1, store, env),
        }
    }
}

/// The unknown variables of a template.
pub open spec fn unknown_spec(
    t: Seq<char>,
    store: Seq<(Seq<char>, Json)>,
    env: Seq<(Seq<char>, Seq<char>)>,
) -> Seq<Seq<char>> {
    unknown_from(t, 0, store, env)
}

/// Whether `{{` stands at position `i` of the template.
pub open spec fn opens_at(t: Seq<char>, i: int) -> bool {
    0 <= i && i + 2 <= t.len() && t[i] == '{' && t[i + 1] == '{'
}

/// Whether `}}` stands at position `j` of the template.
pub open spec fn closes_at(t: Seq<char>, j: int) -> bool {
    0 <= j && j + 2 <= t.len() && t[j] == '}' && t[j + 1] == '}'
}

/// Whether the template holds `{{` and, after it, `}}`: braces as an
/// interpolation has them, whatever stands between them.
pub open spec fn has_braces(t: Seq<char>) -> bool {
    exists|i: int, j: int|
        #![trigger opens_at(t, i), closes_at(t, j)]
        opens_at(t, i) && closes_at(t, j) && i + 2 <= j
}

/// What resolving a template gives.
///
/// A template with interpolations is expanded. One without any is returned as
/// it is, unless it has the braces of an interpolation and nothing well formed
/// between them: that is an error when `strict`, and gives the empty text
/// otherwise.
pub open spec fn resolve_spec(
    t: Seq<char>,
    store: Seq<(Seq<char>, Json)>,
    env: Seq<(Seq<char>, Seq<char>)>,
    strict: bool,
) -> Result<Seq<char>, (ErrorKind, Seq<char>)> {
    if has_token(t) {
        match expand_from(t, 0, store, env, strict) {
            Ok(s) => Ok(s),
            Err(p) => Err((ErrorKind::UnknownVariable, p)),
        }
    } else if has_braces(t) {
        if strict {
            Err((ErrorKind::InvalidVariableName, t))
        } else {
            Ok(Seq::<char>::empty())
        }
    } else {
        Ok(t)
    }
}

/// `rest` with `out` in front of its text.
pub open spec fn prefixed(out: Seq<char>, rest: Result<Seq<char>, Seq<char>>) -> Result<
    Seq<char>,
    Seq<char>,
> {
    match rest {
        Ok(r) => Ok(out + r),
        Err(p) => Err(p),
    }
}

/// The variables of the process environment, as name and value, in the order in
/// which the system lists them.
#[derive(Debug, PartialEq, Eq)]
pub struct Environment {
    pub vars: Vec<(String, String)>,
}

impl View for Environment {
    type V = Seq<(Seq<char>, Seq<char>)>;

    open spec fn view(&self) -> Seq<(Seq<char>, Seq<char>)> {
        Seq::new(self.vars@.len(), |i: int| (self.vars@[i].0@, self.vars@[i].1@))
    }
}

impl Environment {
    /// An environment without variables.
    pub fn new() -> (r: Environment)
        ensures
            r@ == Seq::<(Seq<char>, Seq<char>)>::empty(),
    {
        let r = Environment { vars: Vec::new() };
        assert(r@ =~= Seq::<(Seq<char>, Seq<char>)>::empty());
        r
    }

    /// The value of the first variable whose name is `name`.
    pub fn get(&self, name: &str) -> (r: Option<&String>)
        ensures
            match r {
                Some(v) => env_get(self@, name@) == Some(v@),
                None => env_get(self@, name@) is None,
            },
    {
        let wanted = name.to_owned();
        let mut i: usize = 0;
        assert(self@.skip(0) == self@);
        while i < self.vars.len()
            invariant
                i <= self.vars.len(),
                wanted@ == name@,
                env_get(self@, name@) == env_get(self@.skip(i as int), name@),
            decreases self.vars.len() - i,
        {
            assert(self@.skip(i as int)[0] == self@[i as int]);
            if self.vars[i].0 == wanted {
                return Some(&self.vars[i].1);
            }
            assert(self@.skip(i as int).drop_first() == self@.skip(i + 1));
            i += 1;
        }
        None
    }
}

fn letter(c: char) -> (r: bool)
    ensures
        r == is_letter(c),
{
    ('a' <= c && c <= 'z') || ('A' <= c && c <= 'Z')
}

fn path_char(c: char) -> (r: bool)
    ensures
        r == is_path_char(c),
{
    letter(c) || ('0' <= c && c <= '9') || c == '-' || c == '.' || c == '_' || c == '$' || c
        == '[' || c == ']'
}

fn scan_spaces(t: &Vec<char>, i: usize) -> (r: usize)
    requires
        i <= t.len(),
    ensures
        r == skip_spaces(t@, i as int),
        i <= r <= t.len(),
{
    let mut j: usize = i;
    while j < t.len() && t[j] == ' '
        invariant
            i <= j <= t.len(),
            skip_spaces(t@, i as int) == skip_spaces(t@, j as int),
        decreases t.len() - j,
    {
        j += 1;
    }
    j
}

fn scan_path(t: &Vec<char>, i: usize) -> (r: usize)
    requires
        i <= t.len(),
    ensures
        r == skip_path(t@, i as int),
        i <= r <= t.len(),
{
    let mut j: usize = i;
    while j < t.len() && path_char(t[j])
        invariant
            i <= j <= t.len(),
            skip_path(t@, i as int) == skip_path(t@, j as int),
        decreases t.len() - j,
    {
        j += 1;
    }
    j
}

/// The interpolation that starts at position `i` of `t`, as the start and the
/// end of its path and its own end.
fn scan_token(t: &Vec<char>, i: usize) -> (r: Option<(usize, usize, usize)>)
    requires
        i < t.len(),
    ensures
        match r {
            Some(k) => token_at(t@, i as int) == Some(
                Token { path_start: k.0 as int, path_end: k.1 as int, end: k.2 as int },
            ) && i + 2 <= k.0 < k.1 <= k.2 - 2 && k.2 <= t.len(),
            None => token_at(t@, i as int) is None,
        },
{
    proof {
        lemma_token_bounds(t@, i as int);
    }
    if t.len() - i < 2 || t[i] != '{' || t[i + 1] != '{' {
        return None;
    }
    let a = scan_spaces(t, i + 2);
    if a >= t.len() || !letter(t[a]) {
        return None;
    }
    let b = scan_path(t, a);
    let c = scan_spaces(t, b);
    if t.len() - c < 2 || t[c] != '}' || t[c + 1] != '}' {
        return None;
    }
    Some((a, b, c + 2))
}

/// Whether `t` holds `{{` and, after it, `}}`.
fn braces(t: &Vec<char>) -> (r: bool)
    ensures
        r == has_braces(t@),
{
    let mut i: usize = 0;
    while i < t.len() && !(t[i] == '{' && t.len() - i >= 2 && t[i + 1] == '{')
        invariant
            i <= t.len(),
            forall|k: int| 0 <= k < i ==> !opens_at(t@, k),
        decreases t.len() - i,
    {
        i += 1;
    }
    if i >= t.len() {
        return false;
    }
    assert(opens_at(t@, i as int));
    let mut j: usize = i + 2;
    while j < t.len()
        invariant
            i + 2 <= j,
            opens_at(t@, i as int),
            forall|k: int| 0 <= k < i ==> !opens_at(t@, k),
            forall|k: int| i + 2 <= k < j ==> !closes_at(t@, k),
        decreases t.len() - j,
    {
        if t[j] == '}' && t.len() - j >= 2 && t[j + 1] == '}' {
            assert(closes_at(t@, j as int));
            return true;
        }
        j += 1;
    }
    false
}

/// Whether `s` holds an interpolation.
pub fn has_interpolation(s: &str) -> (r: bool)
    ensures
        r == has_token(s@),
{
    let t = chars_of(s);
    let mut i: usize = 0;
    while i < t.len()
        invariant
            i <= t.len(),
            t@ == s@,
            forall|j: int| 0 <= j < i ==> token_at(t@, j) is None,
        decreases t.len() - i,
    {
        if scan_token(&t, i).is_some() {
            assert(token_at(t@, i as int) is Some);
            return true;
        }
        i += 1;
    }
    false
}

/// The characters of a path as the segments of a pointer.
fn pointer_of(path: &Vec<char>) -> (r: Vec<char>)
    ensures
        r@ == pointer_chars(path@),
{
    let mut out: Vec<char> = Vec::new();
    let mut i: usize = 0;
    assert(path@.take(0) =~= Seq::<char>::empty());
    while i < path.len()
        invariant
            i <= path.len(),
            out@ == pointer_chars(path@.take(i as int)),
        decreases path.len() - i,
    {
        assert(path@.take(i + 1).drop_last() == path@.take(i as int));
        assert(path@.take(i + 1).last() == path@[i as int]);
        let c = path[i];
        if c == ']' {
        } else if c == '.' || c == '[' {
            out.push('/');
        } else {
            out.push(c);
        }
        i += 1;
    }
    assert(path@.take(path@.len() as int) == path@);
    out
}

/// Resolves templates against the variable store of an iteration and the
/// environment.
pub struct Interpolator<'a> {
    context: &'a Context,
    env: &'a Environment,
}

impl<'a> Interpolator<'a> {
    /// The variable store that templates are resolved against.
    pub closed spec fn store(&self) -> Seq<(Seq<char>, Json)> {
        self.context@
    }

    /// The environment that templates are resolved against.
    pub closed spec fn environment(&self) -> Seq<(Seq<char>, Seq<char>)> {
        self.env@
    }

    /// An interpolator for the store `context` and the environment `env`.
    pub fn new(context: &'a Context, env: &'a Environment) -> (r: Interpolator<'a>)
        ensures
            r.store() == context@,
            r.environment() == env@,
    {
        Interpolator { context, env }
    }

    /// The template `url` with each `{{ path }}` replaced by the text of its
    /// variable.
    pub fn resolve(&self, url: &str, strict: bool) -> (r: Result<String, Error>)
        ensures
            match r {
                Ok(s) => resolve_spec(url@, self.store(), self.environment(), strict) == Ok::<
                    Seq<char>,
                    (ErrorKind, Seq<char>),
                >(s@),
                Err(e) => resolve_spec(url@, self.store(), self.environment(), strict) == Err::<
                    Seq<char>,
                    (ErrorKind, Seq<char>),
                >(e@),
            },
    {
        let t = chars_of(url);
        let ghost store = self.store();
        let ghost env = self.environment();
        let mut out: Vec<char> = Vec::new();
        let mut replaced = false;
        let mut i: usize = 0;
        assert(Seq::<char>::empty() + Seq::<char>::empty() =~= Seq::<char>::empty());
        while i < t.len()
            invariant
                i <= t.len(),
                t@ == url@,
                store == self.store(),
                env == self.environment(),
                expand_from(t@, 0, store, env, strict) == prefixed(
                    out@,
                    expand_from(t@, i as int, store, env, strict),
                ),
                !replaced ==> forall|j: int| 0 <= j < i ==> token_at(t@, j) is None,
                !replaced ==> out@ == t@.take(i as int),
                replaced ==> has_token(t@),
            decreases t.len() - i,
        {
            let ghost rest_here = expand_from(t@, i as int, store, env, strict);
            match scan_token(&t, i) {
                Some(k) => {
                    replaced = true;
                    let path = string_of_range(&t, k.0, k.1);
                    let ghost rest = expand_from(t@, k.2 as int, store, env, strict);
                    match self.variable(path.as_str()) {
                        Some(v) => {
                            let ghost before = out@;
                            let chars = chars_of(v.as_str());
                            append_chars(&mut out, &chars);
                            assert(rest_here == prefixed(v@, rest));
                            assert(prefixed(before, prefixed(v@, rest)) == prefixed(
                                before + v@,
                                rest,
                            )) by {
                                if rest is Ok {
                                    assert(before + (v@ + rest->Ok_0) =~= (before + v@)
                                        + rest->Ok_0);
                                }
                            }
                        },
                        None => {
                            if strict {
                                return Err(Error::new(ErrorKind::UnknownVariable, path));
                            }
                        },
                    }
                    i = k.2;
                },
                None => {
                    let ghost before = out@;
                    let ghost rest = expand_from(t@, i + 1, store, env, strict);
                    out.push(t[i]);
                    assert(prefixed(before, prefixed(seq![t@[i as int]], rest)) == prefixed(
                        before.push(t@[i as int]),
                        rest,
                    )) by {
                        if rest is Ok {
                            assert(before + (seq![t@[i as int]] + rest->Ok_0) =~= before.push(
                                t@[i as int],
                            ) + rest->Ok_0);
                        }
                    }
                    assert(t@.take(i + 1) == t@.take(i as int).push(t@[i as int]));
                    i += 1;
                },
            }
        }
        assert(out@ + Seq::<char>::empty() =~= out@);
        if replaced {
            Ok(string_of(&out))
        } else {
            assert(t@.take(t@.len() as int) == t@);
            assert(!has_token(t@));
            if braces(&t) {
                if strict {
                    Err(Error::about(ErrorKind::InvalidVariableName, url))
                } else {
                    Ok(String::new())
                }
            } else {
                Ok(string_of(&out))
            }
        }
    }

    /// The variables that the template `url` names and that are unknown: what
    /// resolving replaces by nothing when it is not strict.
    pub fn unknown_variables(&self, url: &str) -> (r: Vec<String>)
        ensures
            strings(r@) == unknown_spec(url@, self.store(), self.environment()),
    {
        let t = chars_of(url);
        let ghost store = self.store();
        let ghost env = self.environment();
        let mut out: Vec<String> = Vec::new();
        let mut i: usize = 0;
        assert(strings(out@) + unknown_from(t@, 0, store, env) =~= unknown_from(
            t@,
            0,
            store,
            env,
        ));
        while i < t.len()
            invariant
                i <= t.len(),
                t@ == url@,
                store == self.store(),
                env == self.environment(),
                unknown_from(t@, 0, store, env) == strings(out@) + unknown_from(
                    t@,
                    i as int,
                    store,
                    env,
                ),
            decreases t.len() - i,
        {
            match scan_token(&t, i) {
                Some(k) => {
                    let path = string_of_range(&t, k.0, k.1);
                    let ghost rest = unknown_from(t@, k.2 as int, store, env);
                    let ghost before = strings(out@);
                    if self.variable(path.as_str()).is_none() {
                        out.push(path);
                        assert(strings(out@) =~= before.push(path@));
                        assert(before + (seq![path@] + rest) =~= before.push(path@) + rest);
                    }
                    i = k.2;
                },
                None => {
                    i += 1;
                },
            }
        }
        assert(strings(out@) + Seq::<Seq<char>>::empty() =~= strings(out@));
        out
    }

    /// The text that `path` stands for.
    fn variable(&self, path: &str) -> (r: Option<String>)
        ensures
            match r {
                Some(v) => variable_text(self.store(), self.environment(), path@) == Some(v@),
                None => variable_text(self.store(), self.environment(), path@) is None,
            },
    {
        match self.resolve_context_interpolation(path) {
            Some(v) => Some(v),
            None => self.resolve_environment_interpolation(path),
        }
    }

    fn resolve_environment_interpolation(&self, value: &str) -> (r: Option<String>)
        ensures
            match r {
                Some(v) => env_get(self.environment(), value@) == Some(v@),
                None => env_get(self.environment(), value@) is None,
            },
    {
        match self.env.get(value) {
            Some(v) => Some(v.clone()),
            None => None,
        }
    }

    fn resolve_context_interpolation(&self, value: &str) -> (r: Option<String>)
        ensures
            match r {
                Some(v) => match walk(Json::Object(self.store()), path_tokens(value@)) {
                    Some(j) => v@ == display_text(j),
                    None => false,
                },
                None => walk(Json::Object(self.store()), path_tokens(value@)) is None,
            },
    {
        let path = chars_of(value);
        let pointer = pointer_of(&path);
        let tokens = split(&pointer, '/');
        proof {
            crate::text::lemma_split_nonempty(pointer@, '/');
            assert(texts(tokens@) =~= path_tokens(value@));
            assert(texts(tokens@).drop_first() == texts(tokens@).skip(1));
        }
        let first = string_of(&tokens[0]);
        match self.context.get(first.as_str()) {
            Some(start) => match start.descend(&tokens, 1) {
                Some(found) => Some(found.to_text()),
                None => None,
            },
            None => None,
        }
    }
}


/// Whether `p` is a path: a letter, then path characters.
pub open spec fn is_path(p: Seq<char>) -> bool {
    p.len() > 0 && is_letter(p[0]) && forall|k: int| 0 <= k < p.len() ==> is_path_char(
        #[trigger] p[k],
    )
}

/// The template that is one interpolation of the path `p`: `{{ p }}`.
pub open spec fn interpolation(p: Seq<char>) -> Seq<char> {
    seq!['{', '{', ' '] + p + seq![' ', '}', '}']
}

/// An interpolation has its braces.
pub proof fn lemma_token_braces(t: Seq<char>, i: int)
    requires
        token_at(t, i) is Some,
    ensures
        has_braces(t),
{
    lemma_token_bounds(t, i);
    let k = token_at(t, i)->0;
    assert(opens_at(t, i) && closes_at(t, k.end - 2));
}

/// A template without the braces of an interpolation, `{{` and then `}}`, is
/// resolved to itself, strictly or not, whatever the store and the environment
/// hold.
pub proof fn law_plain_template_is_unchanged(
    t: Seq<char>,
    store: Seq<(Seq<char>, Json)>,
    env: Seq<(Seq<char>, Seq<char>)>,
    strict: bool,
)
    requires
        !has_braces(t),
    ensures
        resolve_spec(t, store, env, strict) == Ok::<Seq<char>, (ErrorKind, Seq<char>)>(t),
{
    if has_token(t) {
        let i = choose|i: int| 0 <= i < t.len() && token_at(t, i) is Some;
        lemma_token_braces(t, i);
    }
}

/// Resolving a template without interpolations that are well formed never
/// changes it, where it is returned at all.
pub proof fn law_template_without_tokens(
    t: Seq<char>,
    i: int,
    store: Seq<(Seq<char>, Json)>,
    env: Seq<(Seq<char>, Seq<char>)>,
    strict: bool,
)
    requires
        !has_token(t),
        0 <= i <= t.len(),
    ensures
        expand_from(t, i, store, env, strict) == Ok::<Seq<char>, Seq<char>>(t.skip(i)),
    decreases t.len() - i,
{
    if i < t.len() {
        assert(token_at(t, i) is None);
        law_template_without_tokens(t, i + 1, store, env, strict);
        assert(seq![t[i]] + t.skip(i + 1) =~= t.skip(i));
    } else {
        assert(t.skip(i) =~= Seq::<char>::empty());
    }
}

/// Strict expansion fails exactly where a variable is unknown, and then with
/// the first unknown variable of the template; and where none is unknown,
/// strict or not makes no difference.
pub proof fn law_strict_fails_on_first_unknown(
    t: Seq<char>,
    i: int,
    store: Seq<(Seq<char>, Json)>,
    env: Seq<(Seq<char>, Seq<char>)>,
)
    ensures
        match expand_from(t, i, store, env, true) {
            Ok(s) => unknown_from(t, i, store, env).len() == 0 && expand_from(
                t,
                i,
                store,
                env,
                false,
            ) == Ok::<Seq<char>, Seq<char>>(s),
            Err(p) => unknown_from(t, i, store, env).len() > 0 && unknown_from(t, i, store, env)[0]
                == p,
        },
    decreases t.len() - i,
{
    if 0 <= i < t.len() {
        lemma_token_bounds(t, i);
        match token_at(t, i) {
            Some(k) => {
                law_strict_fails_on_first_unknown(t, k.end, store, env);
            },
            None => {
                law_strict_fails_on_first_unknown(t, i + 1, store, env);
            },
        }
    }
}

/// When interpolation is not strict, resolving never fails.
pub proof fn law_relaxed_never_fails(
    t: Seq<char>,
    store: Seq<(Seq<char>, Json)>,
    env: Seq<(Seq<char>, Seq<char>)>,
)
    ensures
        resolve_spec(t, store, env, false) is Ok,
{
    lemma_relaxed_expansion(t, 0, store, env);
}

proof fn lemma_relaxed_expansion(
    t: Seq<char>,
    i: int,
    store: Seq<(Seq<char>, Json)>,
    env: Seq<(Seq<char>, Seq<char>)>,
)
    ensures
        expand_from(t, i, store, env, false) is Ok,
    decreases t.len() - i,
{
    if 0 <= i < t.len() {
        lemma_token_bounds(t, i);
        match token_at(t, i) {
            Some(k) => {
                lemma_relaxed_expansion(t, k.end, store, env);
            },
            None => {
                lemma_relaxed_expansion(t, i + 1, store, env);
            },
        }
    }
}

proof fn lemma_skip_path_run(t: Seq<char>, i: int, j: int)
    requires
        0 <= i <= j <= t.len(),
        forall|k: int| i <= k < j ==> is_path_char(#[trigger] t[k]),
        j == t.len() || !is_path_char(t[j]),
    ensures
        skip_path(t, i) == j,
    decreases j - i,
{
    if i < j {
        lemma_skip_path_run(t, i + 1, j);
    }
}

/// The interpolation `{{ p }}` of a path is one interpolation from end to end.
pub proof fn lemma_interpolation_token(p: Seq<char>)
    requires
        is_path(p),
    ensures
        token_at(interpolation(p), 0) == Some(
            Token { path_start: 3, path_end: 3 + p.len() as int, end: p.len() as int + 6 },
        ),
        interpolation(p).len() == p.len() + 6,
        interpolation(p).subrange(3, 3 + p.len() as int) == p,
{
    let t = interpolation(p);
    let n = p.len() as int;
    assert(t.len() == n + 6);
    assert(t[0] == '{' && t[1] == '{' && t[2] == ' ');
    assert(forall|k: int| 0 <= k < n ==> t[3 + k] == p[k]);
    assert(t[3 + n] == ' ' && t[4 + n] == '}' && t[5 + n] == '}');
    assert(t[3] == p[0]);
    reveal_with_fuel(skip_spaces, 3);
    assert(skip_spaces(t, 2) == 3);
    assert forall|k: int| 3 <= k < 3 + n implies is_path_char(#[trigger] t[k]) by {
        assert(t[k] == p[k - 3]);
    }
    lemma_skip_path_run(t, 3, 3 + n);
    assert(skip_spaces(t, 3 + n) == 4 + n);
    assert(t.subrange(3, 3 + n) =~= p);
}

/// A template that is one interpolation of a path is resolved to the text of
/// that variable. Where the variable is unknown, resolving fails with its path
/// when strict, and gives the empty text when not.
pub proof fn law_single_interpolation(
    p: Seq<char>,
    store: Seq<(Seq<char>, Json)>,
    env: Seq<(Seq<char>, Seq<char>)>,
    strict: bool,
)
    requires
        is_path(p),
    ensures
        resolve_spec(interpolation(p), store, env, strict) == match variable_text(
            store,
            env,
            p,
        ) {
            Some(v) => Ok::<Seq<char>, (ErrorKind, Seq<char>)>(v),
            None => if strict {
                Err((ErrorKind::UnknownVariable, p))
            } else {
                Ok(Seq::<char>::empty())
            },
        },
{
    let t = interpolation(p);
    lemma_interpolation_token(p);
    assert(token_at(t, 0) is Some);
    assert(has_token(t));
    assert(expand_from(t, t.len() as int, store, env, strict) == Ok::<Seq<char>, Seq<char>>(
        Seq::<char>::empty(),
    ));
    match variable_text(store, env, p) {
        Some(v) => {
            assert(v + Seq::<char>::empty() =~= v);
        },
        None => {},
    }
}

/// A path that neither the store nor the environment knows fails to resolve
/// when strict, and resolves to the empty text when not.
pub proof fn law_unknown_path(
    p: Seq<char>,
    store: Seq<(Seq<char>, Json)>,
    env: Seq<(Seq<char>, Seq<char>)>,
)
    requires
        is_path(p),
        variable_text(store, env, p) is None,
    ensures
        resolve_spec(interpolation(p), store, env, true) == Err::<
            Seq<char>,
            (ErrorKind, Seq<char>),
        >((ErrorKind::UnknownVariable, p)),
        resolve_spec(interpolation(p), store, env, false) == Ok::<
            Seq<char>,
            (ErrorKind, Seq<char>),
        >(Seq::<char>::empty()),
{
    law_single_interpolation(p, store, env, true);
    law_single_interpolation(p, store, env, false);
}

/// Whatever else a store holds, where its variable `a` is an object whose
/// member `b` is the number 5, the template `{{ a.b }}` resolves to `5`.
pub proof fn law_member_of_object(
    store: Seq<(Seq<char>, Json)>,
    env: Seq<(Seq<char>, Seq<char>)>,
    strict: bool,
)
    requires
        field(Json::Object(store), seq!['a']) matches Some(a) && field(a, seq!['b']) == Some(
            Json::Integer(5),
        ),
    ensures
        resolve_spec(seq!['{', '{', ' ', 'a', '.', 'b', ' ', '}', '}'], store, env, strict)
            == Ok::<Seq<char>, (ErrorKind, Seq<char>)>(seq!['5']),
{
    let p = seq!['a', '.', 'b'];
    assert(interpolation(p) =~= seq!['{', '{', ' ', 'a', '.', 'b', ' ', '}', '}']);
    assert(is_path(p));
    law_single_interpolation(p, store, env, strict);
    // the segments of the path
    let p1 = seq!['a'];
    let p2 = seq!['a', '.'];
    assert(p1.drop_last() =~= Seq::<char>::empty());
    assert(p2.drop_last() =~= p1);
    assert(p.drop_last() =~= p2);
    reveal_with_fuel(pointer_chars, 4);
    assert(pointer_chars(p1) =~= seq!['a']);
    assert(pointer_chars(p2) =~= seq!['a', '/']);
    let q = seq!['a', '/', 'b'];
    assert(pointer_chars(p) =~= q);
    let q1 = seq!['a'];
    let q2 = seq!['a', '/'];
    assert(q1.drop_last() =~= Seq::<char>::empty());
    assert(q2.drop_last() =~= q1);
    assert(q.drop_last() =~= q2);
    reveal_with_fuel(split_spec, 4);
    assert(split_spec(q1, '/') =~= seq![seq!['a']]);
    assert(split_spec(q2, '/') =~= seq![seq!['a'], Seq::<char>::empty()]);
    assert(split_spec(q, '/') =~= seq![seq!['a'], seq!['b']]);
    let tokens = path_tokens(p);
    assert(tokens == seq![seq!['a'], seq!['b']]);
    // the walk through the store
    let a = field(Json::Object(store), seq!['a'])->0;
    assert(tokens.drop_first() =~= seq![seq!['b']]);
    assert(tokens.drop_first().drop_first() =~= Seq::<Seq<char>>::empty());
    reveal_with_fuel(walk, 3);
    assert(crate::value::step_into(Json::Object(store), tokens[0]) == Some(a));
    assert(a is Object);
    assert(crate::value::step_into(a, seq!['b']) == Some(Json::Integer(5)));
    assert(walk(Json::Object(store), tokens) == Some(Json::Integer(5)));
    // the text of the number
    assert(crate::text::decimal_digits(5) =~= seq!['5']);
    assert(display_text(Json::Integer(5)) == seq!['5']);
}


} // verus!
