//! Variable substitution in message text: a token `{{name}}` or
//! `{{name|default}}` becomes the variable's value, else its default, else
//! stays as it is. A name is made of `a`-`z`, `_` and `.`; a default holds no
//! `{`, `}` or `|`. Tokens are found left to right and never overlap.
use vstd::prelude::*;

use crate::text::{chars_of, equals_range, push_range, string_of};

verus! {

pub open spec fn is_name_char(c: char) -> bool {
    ('a' <= c && c <= 'z') || c == '_' || c == '.'
}

pub open spec fn is_default_char(c: char) -> bool {
    c != '{' && c != '}' && c != '|'
}

/// Where the run of name characters that starts at `i` ends.
pub open spec fn name_end(s: Seq<char>, i: int) -> int
    decreases s.len() - i,
{
    if 0 <= i < s.len() && is_name_char(s[i]) {
        name_end(s, i + 1)
    } else {
        i
    }
}

/// Where the run of default characters that starts at `i` ends.
pub open spec fn default_end(s: Seq<char>, i: int) -> int
    decreases s.len() - i,
{
    if 0 <= i < s.len() && is_default_char(s[i]) {
        default_end(s, i + 1)
    } else {
        i
    }
}

/// A token found at some position: where its name ends, where its default
/// ends (if it has one) and where the token ends.
pub struct TokenSpan {
    pub name_end: int,
    pub default_end: Option<int>,
    pub end: int,
}

/// The token that starts at `i`, if one does.
pub open spec fn token_at(s: Seq<char>, i: int) -> Option<TokenSpan> {
    if 0 <= i && i + 1 < s.len() && s[i] == '{' && s[i + 1] == '{' {
        let e = name_end(s, i + 2);
        if e == i + 2 {
            None
        } else if e < s.len() && s[e] == '|' {
            let f = default_end(s, e + 1);
            if f + 1 < s.len() && s[f] == '}' && s[f + 1] == '}' {
                Some(TokenSpan { name_end: e, default_end: Some(f), end: f + 2 })
            } else {
                None
            }
        } else if e + 1 < s.len() && s[e] == '}' && s[e + 1] == '}' {
            Some(TokenSpan { name_end: e, default_end: None, end: e + 2 })
        } else {
            None
        }
    } else {
        None
    }
}

/// The value of the last binding of `name`.
pub open spec fn var_lookup(vars: Seq<(Seq<char>, Seq<char>)>, name: Seq<char>) -> Option<Seq<char>>
    decreases vars.len(),
{
    if vars.len() == 0 {
        None
    } else if vars.last().0 == name {
        Some(vars.last().1)
    } else {
        var_lookup(vars.drop_last(), name)
    }
}

/// What the token `t` at `i` is replaced with.
pub open spec fn replacement(
    s: Seq<char>,
    i: int,
    t: TokenSpan,
    vars: Seq<(Seq<char>, Seq<char>)>,
) -> Seq<char> {
    match var_lookup(vars, s.subrange(i + 2, t.name_end)) {
        Some(v) => v,
        None => match t.default_end {
            Some(f) => s.subrange(t.name_end + 1, f),
            None => s.subrange(i, t.end),
        },
    }
}

/// A token at `i` that a variable or its default resolves.
pub open spec fn resolves_at(s: Seq<char>, i: int, vars: Seq<(Seq<char>, Seq<char>)>) -> bool {
    match token_at(s, i) {
        Some(t) => var_lookup(vars, s.subrange(i + 2, t.name_end)) is Some || t.default_end is Some,
        None => false,
    }
}

/// The substitution of `s` from position `i` on.
pub open spec fn substitute_from(s: Seq<char>, i: int, vars: Seq<(Seq<char>, Seq<char>)>) -> Seq<
    char,
>
    decreases s.len() - i,
{
    if i < 0 || i >= s.len() {
        Seq::empty()
    } else {
        match token_at(s, i) {
            Some(t) => if i < t.end <= s.len() {
                replacement(s, i, t, vars) + substitute_from(s, t.end, vars)
            } else {
                seq![s[i]] + substitute_from(s, i + 1, vars)
            },
            None => seq![s[i]] + substitute_from(s, i + 1, vars),
        }
    }
}

pub open spec fn substitute(s: Seq<char>, vars: Seq<(Seq<char>, Seq<char>)>) -> Seq<char> {
    substitute_from(s, 0, vars)
}

/// A binding of a variable.
pub struct VarEntry {
    name: Vec<char>,
    value: Vec<char>,
}

/// The variables of one invocation; a later binding of a name hides an
/// earlier one.
pub struct MessageVariables {
    entries: Vec<VarEntry>,
}

impl View for MessageVariables {
    type V = Seq<(Seq<char>, Seq<char>)>;

    closed spec fn view(&self) -> Seq<(Seq<char>, Seq<char>)> {
        self.entries@.map_values(|e: VarEntry| (e.name@, e.value@))
    }
}

impl MessageVariables {
    pub fn new() -> (r: MessageVariables)
        ensures
            r@ == Seq::<(Seq<char>, Seq<char>)>::empty(),
    {
        let r = MessageVariables { entries: Vec::new() };
        assert(r@ =~= Seq::<(Seq<char>, Seq<char>)>::empty());
        r
    }

    /// Binds `name` to `value`.
    pub fn insert(&mut self, name: &str, value: &str)
        ensures
            final(self)@ == old(self)@.push((name@, value@)),
    {
        let e = VarEntry { name: chars_of(name), value: chars_of(value) };
        self.entries.push(e);
        assert(self@ =~= old(self)@.push((name@, value@)));
    }

    /// Binds the name with these characters to the value with these.
    pub(crate) fn insert_chars(&mut self, name: Vec<char>, value: Vec<char>)
        ensures
            final(self)@ == old(self)@.push((name@, value@)),
    {
        let ghost (n, v) = (name@, value@);
        self.entries.push(VarEntry { name, value });
        assert(self@ =~= old(self)@.push((n, v)));
    }

    /// The value bound to `name`.
    pub fn get(&self, name: &str) -> (r: Option<String>)
        ensures
            r is None <==> var_lookup(self@, name@) is None,
            r is Some ==> var_lookup(self@, name@) == Some(r->0@),
    {
        let n = chars_of(name);
        assert(n@.subrange(0, n@.len() as int) =~= name@);
        match self.lookup_range(&n, 0, n.len()) {
            Some(k) => Some(string_of(&self.entries[k].value)),
            None => None,
        }
    }

    /// The index of the last binding whose name is `s[lo..hi]`.
    fn lookup_range(&self, s: &Vec<char>, lo: usize, hi: usize) -> (r: Option<usize>)
        requires
            lo <= hi <= s@.len(),
        ensures
            r is None ==> var_lookup(self@, s@.subrange(lo as int, hi as int)) is None,
            r is Some ==> r->0 < self@.len() && var_lookup(self@, s@.subrange(lo as int, hi as int))
                == Some(self@[r->0 as int].1) && self.entries@[r->0 as int].value@ == self@[r->0 as int].1,
    {
        let ghost key = s@.subrange(lo as int, hi as int);
        let mut k = self.entries.len();
        assert(self@.take(self@.len() as int) =~= self@);
        while k > 0
            invariant
                k <= self@.len(),
                self@.len() == self.entries@.len(),
                lo <= hi <= s@.len(),
                key == s@.subrange(lo as int, hi as int),
                var_lookup(self@, key) == var_lookup(self@.take(k as int), key),
            decreases k,
        {
            let ghost pre = self@.take(k as int);
            proof {
                assert(pre.last() == self@[k - 1]);
                assert(pre.drop_last() =~= self@.take(k - 1));
            }
            if equals_range(&self.entries[k - 1].name, s, lo, hi) {
                return Some(k - 1);
            }
            k -= 1;
        }
        None
    }

    /// The substitution of `text` with these variables.
    pub fn substitute_text(&self, text: &str) -> (r: String)
        ensures
            r@ == substitute(text@, self@),
    {
        let s = chars_of(text);
        let out = self.substitute_chars(&s);
        string_of(&out)
    }

    fn substitute_chars(&self, s: &Vec<char>) -> (r: Vec<char>)
        ensures
            r@ == substitute(s@, self@),
    {
        let mut out: Vec<char> = Vec::new();
        let mut i: usize = 0;
        while i < s.len()
            invariant
                i <= s@.len(),
                out@ + substitute_from(s@, i as int, self@) == substitute(s@, self@),
            decreases s.len() - i,
        {
            let ghost before = out@;
            let ghost rest = substitute_from(s@, i as int, self@);
            match token_span(s, i) {
                Some((e, d, end)) => {
                    match self.lookup_range(s, i + 2, e) {
                        Some(k) => push_range_all(&mut out, &self.entries[k].value),
                        None => match d {
                            Some(f) => push_range(&mut out, s, e + 1, f),
                            None => push_range(&mut out, s, i, end),
                        },
                    }
                    proof {
                        assert(before + rest =~= out@ + substitute_from(s@, end as int, self@));
                    }
                    i = end;
                },
                None => {
                    out.push(s[i]);
                    proof {
                        assert(before + rest =~= out@ + substitute_from(s@, i + 1, self@));
                    }
                    i += 1;
                },
            }
        }
        assert(out@ + substitute_from(s@, i as int, self@) =~= out@);
        out
    }
}

fn push_range_all(out: &mut Vec<char>, v: &Vec<char>)
    ensures
        final(out)@ == old(out)@ + v@,
{
    push_range(out, v, 0, v.len());
    assert(v@.subrange(0, v@.len() as int) =~= v@);
}

fn scan_name(s: &Vec<char>, start: usize) -> (r: usize)
    requires
        start <= s@.len(),
    ensures
        r == name_end(s@, start as int),
        start <= r <= s@.len(),
{
    let mut j = start;
    while j < s.len() && (('a' <= s[j] && s[j] <= 'z') || s[j] == '_' || s[j] == '.')
        invariant
            start <= j <= s@.len(),
            name_end(s@, start as int) == name_end(s@, j as int),
        decreases s.len() - j,
    {
        j += 1;
    }
    j
}

fn scan_default(s: &Vec<char>, start: usize) -> (r: usize)
    requires
        start <= s@.len(),
    ensures
        r == default_end(s@, start as int),
        start <= r <= s@.len(),
{
    let mut j = start;
    while j < s.len() && s[j] != '{' && s[j] != '}' && s[j] != '|'
        invariant
            start <= j <= s@.len(),
            default_end(s@, start as int) == default_end(s@, j as int),
        decreases s.len() - j,
    {
        j += 1;
    }
    j
}

/// The token at `i`, as (end of name, end of default, end of token).
fn token_span(s: &Vec<char>, i: usize) -> (r: Option<(usize, Option<usize>, usize)>)
    requires
        i < s@.len(),
    ensures
        match r {
            None => token_at(s@, i as int) is None,
            Some((e, d, end)) => token_at(s@, i as int) == Some(
                TokenSpan {
                    name_end: e as int,
                    default_end: match d {
                        Some(f) => Some(f as int),
                        None => None,
                    },
                    end: end as int,
                },
            ) && i + 2 <= e && e <= s@.len() && i < end <= s@.len() && match d {
                Some(f) => e + 1 <= f <= s@.len(),
                None => true,
            },
        },
{
    if s.len() - i > 1 && s[i] == '{' && s[i + 1] == '{' {
        let e = scan_name(s, i + 2);
        if e == i + 2 {
            None
        } else if e < s.len() && s[e] == '|' {
            let f = scan_default(s, e + 1);
            if f < s.len() && s.len() - f > 1 && s[f] == '}' && s[f + 1] == '}' {
                Some((e, Some(f), f + 2))
            } else {
                None
            }
        } else if e < s.len() && s.len() - e > 1 && s[e] == '}' && s[e + 1] == '}' {
            Some((e, None, e + 2))
        } else {
            None
        }
    } else {
        None
    }
}

proof fn lemma_unresolved_from(s: Seq<char>, i: int, vars: Seq<(Seq<char>, Seq<char>)>)
    requires
        0 <= i <= s.len(),
        forall|j: int| 0 <= j < s.len() ==> !#[trigger] resolves_at(s, j, vars),
    ensures
        substitute_from(s, i, vars) == s.subrange(i, s.len() as int),
    decreases s.len() - i,
{
    if i < s.len() {
        assert(!resolves_at(s, i, vars));
        match token_at(s, i) {
            Some(t) => {
                if i < t.end <= s.len() {
                    lemma_unresolved_from(s, t.end, vars);
                    assert(s.subrange(i, t.end) + s.subrange(t.end, s.len() as int) =~= s.subrange(
                        i,
                        s.len() as int,
                    ));
                } else {
                    lemma_unresolved_from(s, i + 1, vars);
                    assert(seq![s[i]] + s.subrange(i + 1, s.len() as int) =~= s.subrange(
                        i,
                        s.len() as int,
                    ));
                }
            },
            None => {
                lemma_unresolved_from(s, i + 1, vars);
                assert(seq![s[i]] + s.subrange(i + 1, s.len() as int) =~= s.subrange(
                    i,
                    s.len() as int,
                ));
            },
        }
    } else {
        assert(s.subrange(i, s.len() as int) =~= Seq::<char>::empty());
    }
}

/// Text in which no token resolves, neither by a variable nor by a default,
/// comes out of substitution unchanged; so substituting twice gives what
/// substituting once gave.
pub proof fn lemma_unresolved_tokens_are_stable(s: Seq<char>, vars: Seq<(Seq<char>, Seq<char>)>)
    requires
        forall|j: int| 0 <= j < s.len() ==> !#[trigger] resolves_at(s, j, vars),
    ensures
        substitute(s, vars) == s,
        substitute(substitute(s, vars), vars) == substitute(s, vars),
{
    lemma_unresolved_from(s, 0, vars);
    assert(s.subrange(0, s.len() as int) =~= s);
}

/// Where the output of a substitution holds no token that resolves, that is,
/// where substitution introduced none, a second substitution changes nothing.
pub proof fn lemma_substitution_idempotent_without_injection(
    s: Seq<char>,
    vars: Seq<(Seq<char>, Seq<char>)>,
)
    requires
        forall|j: int|
            0 <= j < substitute(s, vars).len() ==> !#[trigger] resolves_at(
                substitute(s, vars),
                j,
                vars,
            ),
    ensures
        substitute(substitute(s, vars), vars) == substitute(s, vars),
{
    lemma_unresolved_tokens_are_stable(substitute(s, vars), vars);
}

} // verus!
