//! Command templates: compiling a profile's template into literal and
//! placeholder tokens, and rendering it with single-quoted argument values.
use vstd::prelude::*;
use vstd::string::*;

use crate::config::ProfileConfig;
use crate::error::BrokerError;
use crate::table::Table;
use crate::text::{any_ctrl, cat3, chars_of, has_ctrl, is_ascii_ws, is_ascii_ws_char, is_digit, is_digit_char, is_lower, is_lower_char, is_upper, is_upper_char, owned, push_char, string_from_chars};

verus! {

/// Maximum number of characters allowed in a single argument value.
pub const MAX_ARG_VALUE_LEN: usize = 4096;

// ── Splitting on ASCII whitespace ───────────────────────────────────────────

pub open spec fn flush(cur: Seq<char>) -> Seq<Seq<char>> {
    if cur.len() > 0 {
        seq![cur]
    } else {
        Seq::empty()
    }
}

/// The words of `s` after the partial word `cur`.
pub open spec fn words_acc(s: Seq<char>, cur: Seq<char>) -> Seq<Seq<char>>
    decreases s.len(),
{
    if s.len() == 0 {
        flush(cur)
    } else if is_ascii_ws(s[0]) {
        flush(cur) + words_acc(s.drop_first(), Seq::empty())
    } else {
        words_acc(s.drop_first(), cur.push(s[0]))
    }
}

/// The maximal runs of characters other than ASCII whitespace, in order, as
/// `str::split_ascii_whitespace` yields them.
pub open spec fn ascii_words(s: Seq<char>) -> Seq<Seq<char>> {
    words_acc(s, Seq::empty())
}

/// Splits `s` into its ASCII-whitespace separated words.
pub fn split_ascii_words(s: &str) -> (r: Vec<String>)
    ensures
        r@.map_values(|w: String| w@) == ascii_words(s@),
{
    let v = chars_of(s);
    let mut r: Vec<String> = Vec::new();
    let mut cur: Vec<char> = Vec::new();
    let mut i: usize = 0;
    assert(v@.skip(0) =~= v@);
    while i < v.len()
        invariant
            i <= v.len(),
            v@ == s@,
            r@.map_values(|w: String| w@) + words_acc(v@.skip(i as int), cur@) == ascii_words(s@),
        decreases v.len() - i,
    {
        let c = v[i];
        let ghost rest = v@.skip(i as int);
        assert(rest[0] == c);
        assert(rest.drop_first() =~= v@.skip(i + 1));
        if is_ascii_ws_char(c) {
            if cur.len() > 0 {
                let ghost rv = r@.map_values(|w: String| w@);
                let w = string_from_chars(&cur);
                r.push(w);
                assert(r@.map_values(|w: String| w@) =~= rv.push(cur@));
                assert(rv + flush(cur@) =~= rv.push(cur@));
                assert(rv.push(cur@) + words_acc(v@.skip(i + 1), Seq::empty()) =~= rv + (flush(
                    cur@,
                ) + words_acc(v@.skip(i + 1), Seq::empty())));
            } else {
                assert(flush(cur@) =~= Seq::<Seq<char>>::empty());
                assert(flush(cur@) + words_acc(v@.skip(i + 1), Seq::empty()) =~= words_acc(
                    v@.skip(i + 1),
                    Seq::empty(),
                ));
            }
            cur = Vec::new();
            assert(cur@ =~= Seq::<char>::empty());
        } else {
            cur.push(c);
        }
        i = i + 1;
    }
    assert(v@.skip(i as int).len() == 0);
    if cur.len() > 0 {
        let ghost rv = r@.map_values(|w: String| w@);
        let w = string_from_chars(&cur);
        r.push(w);
        assert(r@.map_values(|w: String| w@) =~= rv + flush(cur@));
    } else {
        assert(r@.map_values(|w: String| w@) =~= r@.map_values(|w: String| w@) + flush(cur@));
    }
    r
}

// ── Token grammar ───────────────────────────────────────────────────────────

pub open spec fn is_placeholder_name_char(c: char) -> bool {
    is_lower(c) || is_digit(c) || c == '_' || c == '-'
}

/// `[a-z][a-z0-9_-]*`
pub open spec fn is_placeholder_name(s: Seq<char>) -> bool {
    &&& s.len() > 0
    &&& is_lower(s[0])
    &&& forall|i: int| 1 <= i < s.len() ==> is_placeholder_name_char(#[trigger] s[i])
}

/// The name inside a `{{name}}` token.
pub open spec fn placeholder_of(t: Seq<char>) -> Option<Seq<char>> {
    if t.len() > 4 && t[0] == '{' && t[1] == '{' && t[t.len() - 2] == '}' && t[t.len() - 1]
        == '}' && is_placeholder_name(t.subrange(2, t.len() - 2)) {
        Some(t.subrange(2, t.len() - 2))
    } else {
        None
    }
}

/// The characters a literal token may hold: `a-z A-Z 0-9 _ . / : = @ + - , %`.
pub open spec fn is_safe_literal_char(c: char) -> bool {
    ||| is_lower(c)
    ||| is_upper(c)
    ||| is_digit(c)
    ||| c == '_'
    ||| c == '.'
    ||| c == '/'
    ||| c == ':'
    ||| c == '='
    ||| c == '@'
    ||| c == '+'
    ||| c == '-'
    ||| c == ','
    ||| c == '%'
}

pub open spec fn is_safe_literal(t: Seq<char>) -> bool {
    forall|i: int| 0 <= i < t.len() ==> is_safe_literal_char(#[trigger] t[i])
}

fn is_placeholder_name_exec(v: &Vec<char>, from: usize, to: usize) -> (b: bool)
    requires
        from <= to <= v.len(),
    ensures
        b == is_placeholder_name(v@.subrange(from as int, to as int)),
{
    let ghost s = v@.subrange(from as int, to as int);
    if from == to {
        return false;
    }
    if !is_lower_char(v[from]) {
        return false;
    }
    let mut i = from + 1;
    while i < to
        invariant
            from < i <= to <= v.len(),
            s == v@.subrange(from as int, to as int),
            forall|j: int| 1 <= j < i - from ==> is_placeholder_name_char(#[trigger] s[j]),
        decreases to - i,
    {
        let c = v[i];
        if !(is_lower_char(c) || is_digit_char(c) || c == '_' || c == '-') {
            assert(s[i - from] == c);
            return false;
        }
        i = i + 1;
    }
    true
}

/// The placeholder name of a `{{name}}` token.
pub fn parse_placeholder(token: &Vec<char>) -> (r: Option<String>)
    ensures
        match placeholder_of(token@) {
            Some(p) => r matches Some(n) && n@ == p,
            None => r is None,
        },
{
    let n = token.len();
    if n > 4 && token[0] == '{' && token[1] == '{' && token[n - 2] == '}' && token[n - 1] == '}' {
        if is_placeholder_name_exec(token, 2, n - 2) {
            let mut name = String::new();
            let mut i: usize = 2;
            while i < n - 2
                invariant
                    2 <= i <= n - 2,
                    n == token.len(),
                    name@ == token@.subrange(2, i as int),
                decreases n - 2 - i,
            {
                push_char(&mut name, token[i]);
                i = i + 1;
                assert(name@ =~= token@.subrange(2, i as int));
            }
            return Some(name);
        }
    }
    None
}

pub fn is_safe_literal_token(token: &Vec<char>) -> (b: bool)
    ensures
        b == is_safe_literal(token@),
{
    let mut i: usize = 0;
    while i < token.len()
        invariant
            i <= token.len(),
            forall|j: int| 0 <= j < i ==> is_safe_literal_char(#[trigger] token@[j]),
        decreases token.len() - i,
    {
        let c = token[i];
        let ok = is_lower_char(c) || is_upper_char(c) || is_digit_char(c) || c == '_' || c == '.'
            || c == '/' || c == ':' || c == '=' || c == '@' || c == '+' || c == '-' || c == ','
            || c == '%';
        if !ok {
            return false;
        }
        i = i + 1;
    }
    true
}

// ── Single-quote escaping ───────────────────────────────────────────────────

/// What one character of a value becomes inside the quotes: a single quote
/// closes the quoted run, adds a double-quoted `'`, and reopens it.
pub open spec fn escape_piece(c: char) -> Seq<char> {
    if c == '\'' {
        seq!['\'', '"', '\'', '"', '\'']
    } else {
        seq![c]
    }
}

pub open spec fn escape_body(v: Seq<char>) -> Seq<char>
    decreases v.len(),
{
    if v.len() == 0 {
        Seq::empty()
    } else {
        escape_piece(v[0]) + escape_body(v.drop_first())
    }
}

/// The POSIX-shell single-quoted form of `v`.
pub open spec fn shell_quoted(v: Seq<char>) -> Seq<char> {
    seq!['\''] + escape_body(v) + seq!['\'']
}

proof fn lemma_escape_body_concat(a: Seq<char>, b: Seq<char>)
    ensures
        escape_body(a + b) == escape_body(a) + escape_body(b),
    decreases a.len(),
{
    if a.len() == 0 {
        assert(a + b =~= b);
        assert(escape_body(a) + escape_body(b) =~= escape_body(b));
    } else {
        assert((a + b).drop_first() =~= a.drop_first() + b);
        assert((a + b)[0] == a[0]);
        lemma_escape_body_concat(a.drop_first(), b);
        assert(escape_body(a + b) =~= escape_piece(a[0]) + (escape_body(a.drop_first())
            + escape_body(b)));
    }
}

proof fn lemma_escape_body_push(a: Seq<char>, c: char)
    ensures
        escape_body(a.push(c)) == escape_body(a) + escape_piece(c),
{
    lemma_escape_body_concat(a, seq![c]);
    assert(a.push(c) =~= a + seq![c]);
    assert(seq![c].drop_first() =~= Seq::<char>::empty());
    assert(escape_body(seq![c]) =~= escape_piece(c) + escape_body(Seq::<char>::empty()));
}

/// Quotes `value` for a POSIX shell, splicing each `'` as `'"'"'`.
pub fn shell_escape(value: &str) -> (r: String)
    ensures
        r@ == shell_quoted(value@),
{
    let v = chars_of(value);
    let mut r = String::new();
    push_char(&mut r, '\'');
    let mut i: usize = 0;
    while i < v.len()
        invariant
            i <= v.len(),
            r@ == seq!['\''] + escape_body(v@.take(i as int)),
        decreases v.len() - i,
    {
        let c = v[i];
        proof {
            lemma_escape_body_push(v@.take(i as int), c);
            assert(v@.take(i as int).push(c) =~= v@.take(i + 1));
        }
        let ghost before = r@;
        if c == '\'' {
            push_char(&mut r, '\'');
            push_char(&mut r, '"');
            push_char(&mut r, '\'');
            push_char(&mut r, '"');
            push_char(&mut r, '\'');
        } else {
            push_char(&mut r, c);
        }
        assert(r@ =~= before + escape_piece(c));
        i = i + 1;
    }
    push_char(&mut r, '\'');
    assert(v@.take(v.len() as int) =~= v@);
    assert(r@ =~= shell_quoted(value@));
    r
}

// ── How a POSIX shell reads a word made of quoted runs ──────────────────────

/// Reads `s` as one shell word made only of quoted runs: state 0 is outside
/// quotes, 1 inside single quotes, 2 inside double quotes. Inside single
/// quotes every character but `'` is taken literally; inside double quotes
/// every character but `"`, `$`, `` ` `` and `\` is. The word is the
/// characters taken; anything else (an unquoted character, a run left open,
/// a character the double quotes would expand) gives `None`.
pub open spec fn shell_read(s: Seq<char>, state: int, acc: Seq<char>) -> Option<Seq<char>>
    decreases s.len(),
{
    if s.len() == 0 {
        if state == 0 {
            Some(acc)
        } else {
            None
        }
    } else {
        let c = s[0];
        let rest = s.drop_first();
        if state == 0 {
            if c == '\'' {
                shell_read(rest, 1, acc)
            } else if c == '"' {
                shell_read(rest, 2, acc)
            } else {
                None
            }
        } else if state == 1 {
            if c == '\'' {
                shell_read(rest, 0, acc)
            } else {
                shell_read(rest, 1, acc.push(c))
            }
        } else {
            if c == '"' {
                shell_read(rest, 0, acc)
            } else if c == '$' || c == '`' || c == '\\' {
                None
            } else {
                shell_read(rest, 2, acc.push(c))
            }
        }
    }
}

proof fn lemma_shell_read_body(v: Seq<char>, rest: Seq<char>, acc: Seq<char>)
    ensures
        shell_read(escape_body(v) + rest, 1, acc) == shell_read(rest, 1, acc + v),
    decreases v.len(),
{
    if v.len() == 0 {
        assert(escape_body(v) + rest =~= rest);
        assert(acc + v =~= acc);
    } else {
        let c = v[0];
        let tail = escape_body(v.drop_first()) + rest;
        assert(escape_body(v) + rest =~= escape_piece(c) + tail);
        lemma_shell_read_body(v.drop_first(), rest, acc.push(c));
        assert(acc.push(c) + v.drop_first() =~= acc + v);
        if c == '\'' {
            let s0 = escape_piece(c) + tail;
            let s1 = seq!['"', '\'', '"', '\''] + tail;
            let s2 = seq!['\'', '"', '\''] + tail;
            let s3 = seq!['"', '\''] + tail;
            let s4 = seq!['\''] + tail;
            assert(s0.drop_first() =~= s1);
            assert(s1.drop_first() =~= s2);
            assert(s2.drop_first() =~= s3);
            assert(s3.drop_first() =~= s4);
            assert(s4.drop_first() =~= tail);
            assert(shell_read(s3, 0, acc) == shell_read(s4, 2, acc));
            assert(shell_read(s3, 2, acc) == shell_read(s4, 0, acc));
            assert(shell_read(s2, 2, acc) == shell_read(s3, 2, acc.push(c)));
            assert(shell_read(s1, 0, acc) == shell_read(s2, 2, acc));
            assert(shell_read(s0, 1, acc) == shell_read(s1, 0, acc));
            assert(shell_read(s4, 0, acc.push(c)) == shell_read(tail, 1, acc.push(c)));
            assert(shell_read(s3, 2, acc.push(c)) == shell_read(s4, 0, acc.push(c)));
        } else {
            assert((escape_piece(c) + tail).drop_first() =~= tail);
            assert(shell_read(escape_piece(c) + tail, 1, acc) == shell_read(tail, 1, acc.push(c)));
        }
    }
}

/// A quoted value reads back, as one shell word, as exactly the value: no
/// value can end the quoting early or make the shell expand anything.
pub proof fn shell_quoted_reads_back(v: Seq<char>)
    ensures
        shell_read(shell_quoted(v), 0, Seq::empty()) == Some(v),
{
    let s = shell_quoted(v);
    assert(s.drop_first() =~= escape_body(v) + seq!['\'']);
    lemma_shell_read_body(v, seq!['\''], Seq::empty());
    assert(Seq::<char>::empty() + v =~= v);
    assert(seq!['\''].drop_first() =~= Seq::<char>::empty());
    assert(shell_read(s, 0, Seq::empty()) == shell_read(escape_body(v) + seq!['\''], 1, Seq::empty()));
    assert(shell_read(seq!['\''], 1, v) == shell_read(Seq::<char>::empty(), 0, v));
}

// ── Compiled templates ──────────────────────────────────────────────────────

/// A compiled token: a literal or a placeholder name.
pub ghost enum Tok {
    Lit(Seq<char>),
    Ph(Seq<char>),
}

#[derive(Debug, Clone, PartialEq, Eq)]
pub enum TemplateToken {
    Literal(String),
    Placeholder(String),
}

impl View for TemplateToken {
    type V = Tok;

    open spec fn view(&self) -> Tok {
        match self {
            TemplateToken::Literal(s) => Tok::Lit(s@),
            TemplateToken::Placeholder(s) => Tok::Ph(s@),
        }
    }
}

pub open spec fn tok_views(v: Seq<TemplateToken>) -> Seq<Tok> {
    v.map_values(|t: TemplateToken| t@)
}

pub open spec fn msg_not_after_option(p: Seq<char>) -> Seq<char> {
    "placeholder '"@ + p + "' must follow a fixed option token that starts with '-'"@
}

pub open spec fn msg_duplicate(p: Seq<char>) -> Seq<char> {
    "placeholder '"@ + p + "' is declared more than once"@
}

pub open spec fn msg_unsafe_token(w: Seq<char>) -> Seq<char> {
    "token '"@ + w + "' is outside the allowed shell-safe template grammar"@
}

pub open spec fn msg_empty_template() -> Seq<char> {
    "template must not be empty"@
}

/// The previous token is a literal option such as `-u` or `--since`.
pub open spec fn follows_option(toks: Seq<Tok>) -> bool {
    toks.len() > 0 && (toks.last() matches Tok::Lit(l) && l.len() > 0 && l[0] == '-')
}

/// One word of the template added to the tokens so far, or why it is refused.
pub open spec fn compile_step(toks: Seq<Tok>, w: Seq<char>) -> Result<Seq<Tok>, Seq<char>> {
    match placeholder_of(w) {
        Some(p) => if !follows_option(toks) {
            Err(msg_not_after_option(p))
        } else if toks.contains(Tok::Ph(p)) {
            Err(msg_duplicate(p))
        } else {
            Ok(toks.push(Tok::Ph(p)))
        },
        None => if is_safe_literal(w) {
            Ok(toks.push(Tok::Lit(w)))
        } else {
            Err(msg_unsafe_token(w))
        },
    }
}

/// The tokens of the first `n` words, or the reason the first refused word
/// was refused.
pub open spec fn compile_prefix(ws: Seq<Seq<char>>, n: nat) -> Result<Seq<Tok>, Seq<char>>
    decreases n,
{
    if n == 0 {
        Ok(Seq::empty())
    } else {
        match compile_prefix(ws, (n - 1) as nat) {
            Err(e) => Err(e),
            Ok(toks) => compile_step(toks, ws[n - 1]),
        }
    }
}

/// The tokens of a template, or why it is refused.
pub open spec fn compile_template(template: Seq<char>) -> Result<Seq<Tok>, Seq<char>> {
    let ws = ascii_words(template);
    match compile_prefix(ws, ws.len()) {
        Err(e) => Err(e),
        Ok(toks) => if toks.len() == 0 {
            Err(msg_empty_template())
        } else {
            Ok(toks)
        },
    }
}

proof fn lemma_prefix_err_sticks(ws: Seq<Seq<char>>, i: nat, j: nat)
    requires
        i <= j,
        compile_prefix(ws, i) is Err,
    ensures
        compile_prefix(ws, j) == compile_prefix(ws, i),
    decreases j - i,
{
    if i < j {
        lemma_prefix_err_sticks(ws, i, (j - 1) as nat);
    }
}

/// The token a template word stands for.
pub open spec fn word_tok(w: Seq<char>) -> Tok {
    match placeholder_of(w) {
        Some(p) => Tok::Ph(p),
        None => Tok::Lit(w),
    }
}

/// Word `i` is allowed given the words before it: a safe literal, or a
/// placeholder right after a word that starts with '-' and whose name no
/// earlier word uses.
pub open spec fn word_ok_so_far(ws: Seq<Seq<char>>, i: int) -> bool {
    match placeholder_of(ws[i]) {
        None => is_safe_literal(ws[i]),
        Some(p) => {
            &&& i > 0
            &&& ws[i - 1].len() > 0
            &&& ws[i - 1][0] == '-'
            &&& forall|j: int| 0 <= j < i ==> placeholder_of(#[trigger] ws[j]) != Some(p)
        },
    }
}

/// Word `i` is allowed in the template: a safe literal, or a placeholder
/// `{{name}}` right after a literal option starting with '-', whose name no
/// other word of the template uses.
pub open spec fn word_allowed(ws: Seq<Seq<char>>, i: int) -> bool {
    match placeholder_of(ws[i]) {
        None => is_safe_literal(ws[i]),
        Some(p) => {
            &&& i > 0
            &&& ws[i - 1].len() > 0
            &&& ws[i - 1][0] == '-'
            &&& forall|j: int| 0 <= j < ws.len() && j != i ==> placeholder_of(#[trigger] ws[j]) != Some(p)
        },
    }
}

/// A template the grammar allows: at least one word, and every word allowed.
pub open spec fn template_allowed(t: Seq<char>) -> bool {
    let ws = ascii_words(t);
    &&& ws.len() > 0
    &&& forall|i: int| 0 <= i < ws.len() ==> word_allowed(ws, i)
}

proof fn lemma_compile_prefix(ws: Seq<Seq<char>>, n: nat)
    requires
        n <= ws.len(),
    ensures
        (compile_prefix(ws, n) is Ok) <==> (forall|i: int| 0 <= i < n ==> #[trigger] word_ok_so_far(ws, i)),
        compile_prefix(ws, n) is Ok ==> compile_prefix(ws, n) == Ok::<Seq<Tok>, Seq<char>>(
            ws.take(n as int).map_values(|w: Seq<char>| word_tok(w)),
        ),
    decreases n,
{
    if n == 0 {
        assert(ws.take(0).map_values(|w: Seq<char>| word_tok(w)) =~= Seq::<Tok>::empty());
    } else {
        let m = (n - 1) as nat;
        lemma_compile_prefix(ws, m);
        let toks = ws.take(m as int).map_values(|w: Seq<char>| word_tok(w));
        let w = ws[m as int];
        assert(ws.take(n as int).map_values(|w: Seq<char>| word_tok(w)) =~= toks.push(word_tok(w)));
        if compile_prefix(ws, m) is Ok {
            match placeholder_of(w) {
                Some(p) => {
                    assert(toks.contains(Tok::Ph(p)) <==> exists|j: int|
                        0 <= j < m && placeholder_of(#[trigger] ws[j]) == Some(p)) by {
                        if toks.contains(Tok::Ph(p)) {
                            let j = choose|j: int| 0 <= j < toks.len() && toks[j] == Tok::Ph(p);
                            assert(placeholder_of(ws[j]) == Some(p));
                        }
                        if exists|j: int| 0 <= j < m && placeholder_of(#[trigger] ws[j]) == Some(p) {
                            let j = choose|j: int| 0 <= j < m && placeholder_of(#[trigger] ws[j]) == Some(p);
                            assert(toks[j] == Tok::Ph(p));
                        }
                    }
                    if m > 0 {
                        let prev = ws[m - 1];
                        assert(toks.last() == word_tok(prev));
                        if prev.len() > 0 && prev[0] == '-' {
                            assert(placeholder_of(prev) is None);
                        }
                    }
                },
                None => {},
            }
            if forall|i: int| 0 <= i < n ==> #[trigger] word_ok_so_far(ws, i) {
                assert(word_ok_so_far(ws, m as int));
            } else {
                let i = choose|i: int| 0 <= i < n && !#[trigger] word_ok_so_far(ws, i);
                assert(i == m);
            }
        } else {
            let i = choose|i: int| 0 <= i < m && !#[trigger] word_ok_so_far(ws, i);
            assert(!word_ok_so_far(ws, i));
        }
    }
}

/// The template grammar: a template compiles exactly when it has at least one
/// word and each word is a safe literal (`a-z A-Z 0-9 _ . / : = @ + - , %`)
/// or a placeholder `{{name}}`, `name` matching `[a-z][a-z0-9_-]*`, that
/// follows a literal option starting with '-' and names a placeholder used
/// nowhere else; it then compiles to one token per word.
pub proof fn template_grammar(t: Seq<char>)
    ensures
        (compile_template(t) is Ok) <==> template_allowed(t),
        compile_template(t) is Ok ==> compile_template(t) == Ok::<Seq<Tok>, Seq<char>>(
            ascii_words(t).map_values(|w: Seq<char>| word_tok(w)),
        ),
{
    let ws = ascii_words(t);
    lemma_compile_prefix(ws, ws.len());
    assert(ws.take(ws.len() as int) =~= ws);
    if forall|i: int| 0 <= i < ws.len() ==> #[trigger] word_ok_so_far(ws, i) {
        assert forall|i: int| 0 <= i < ws.len() implies word_allowed(ws, i) by {
            assert(word_ok_so_far(ws, i));
            if let Some(p) = placeholder_of(ws[i]) {
                assert forall|j: int| 0 <= j < ws.len() && j != i implies placeholder_of(
                    #[trigger] ws[j],
                ) != Some(p) by {
                    if j > i {
                        assert(word_ok_so_far(ws, j));
                    }
                }
            }
        }
    }
    if forall|i: int| 0 <= i < ws.len() ==> word_allowed(ws, i) {
        assert forall|i: int| 0 <= i < ws.len() implies #[trigger] word_ok_so_far(ws, i) by {
            assert(word_allowed(ws, i));
        }
    }
}

/// The placeholder names of a token sequence, in ascending order.
pub open spec fn placeholder_set(toks: Seq<Tok>) -> Set<Seq<char>> {
    Set::new(|p: Seq<char>| toks.contains(Tok::Ph(p)))
}

// ── Rendering ───────────────────────────────────────────────────────────────

/// `ws` joined with single spaces, as `[String]::join(" ")` builds it.
pub open spec fn join_space(ws: Seq<Seq<char>>) -> Seq<char>
    decreases ws.len(),
{
    if ws.len() == 0 {
        Seq::empty()
    } else if ws.len() == 1 {
        ws[0]
    } else {
        join_space(ws.drop_last()) + seq![' '] + ws.last()
    }
}

/// Joins `parts` with single spaces.
pub fn join_with_space(parts: &Vec<String>) -> (r: String)
    ensures
        r@ == join_space(parts@.map_values(|w: String| w@)),
{
    let ghost ws = parts@.map_values(|w: String| w@);
    let mut r = String::new();
    let mut i: usize = 0;
    while i < parts.len()
        invariant
            i <= parts.len(),
            ws == parts@.map_values(|w: String| w@),
            r@ == join_space(ws.take(i as int)),
        decreases parts.len() - i,
    {
        let ghost before = r@;
        if i > 0 {
            push_char(&mut r, ' ');
        }
        r.append(parts[i].as_str());
        proof {
            let t = ws.take(i + 1);
            assert(t.drop_last() =~= ws.take(i as int));
            assert(t.last() == parts@[i as int]@);
            if i == 0 {
                assert(r@ =~= t[0]);
            } else {
                assert(r@ =~= before + seq![' '] + t.last());
            }
        }
        i = i + 1;
    }
    assert(ws.take(parts.len() as int) =~= ws);
    r
}

/// Position `i` of `a` is the first whose element `b` lacks.
pub open spec fn is_first_absent(a: Seq<Seq<char>>, b: Seq<Seq<char>>, i: int) -> bool {
    &&& 0 <= i < a.len()
    &&& !b.contains(a[i])
    &&& forall|j: int| 0 <= j < i ==> b.contains(#[trigger] a[j])
}

/// The first element of `a` that `b` lacks.
pub open spec fn first_absent(a: Seq<Seq<char>>, b: Seq<Seq<char>>) -> Option<Seq<char>> {
    if exists|i: int| is_first_absent(a, b, i) {
        Some(a[choose|i: int| is_first_absent(a, b, i)])
    } else {
        None
    }
}

proof fn lemma_first_absent_unique(a: Seq<Seq<char>>, b: Seq<Seq<char>>, i: int, k: int)
    requires
        is_first_absent(a, b, i),
        is_first_absent(a, b, k),
    ensures
        i == k,
{
    if i < k {
        assert(b.contains(a[i]));
    } else if k < i {
        assert(b.contains(a[k]));
    }
}

/// An argument value is refused when it holds a control character or is
/// longer than 4096 characters.
pub open spec fn value_refused(v: Seq<char>) -> bool {
    has_ctrl(v) || v.len() > MAX_ARG_VALUE_LEN
}

/// A placeholder token whose argument is absent or refused.
pub open spec fn token_fails(t: Tok, args: Table<String>) -> bool {
    match t {
        Tok::Lit(_) => false,
        Tok::Ph(n) => match args.lookup(n) {
            None => true,
            Some(v) => value_refused(v@),
        },
    }
}

pub open spec fn is_first_failing(toks: Seq<Tok>, args: Table<String>, i: int) -> bool {
    &&& 0 <= i < toks.len()
    &&& token_fails(toks[i], args)
    &&& forall|j: int| 0 <= j < i ==> !token_fails(#[trigger] toks[j], args)
}

/// The text a token renders to.
pub open spec fn render_tok(t: Tok, args: Table<String>) -> Seq<char> {
    match t {
        Tok::Lit(l) => l,
        Tok::Ph(n) => shell_quoted(args.lookup(n)->0@),
    }
}

/// Why rendering fails.
pub ghost enum RenderFail {
    Missing(Seq<char>),
    Unexpected(Seq<char>),
    Invalid(Seq<char>),
}

/// What rendering the tokens `toks` with placeholders `phs` (ascending) gives
/// for `args`: the first placeholder without an argument, else the first
/// argument (ascending) without a placeholder, else the first placeholder in
/// template order whose value is refused, else the tokens joined with spaces,
/// each placeholder replaced by its value single-quoted.
pub open spec fn render_outcome(toks: Seq<Tok>, phs: Seq<Seq<char>>, args: Table<String>) -> Result<
    Seq<char>,
    RenderFail,
> {
    match first_absent(phs, args.keys()) {
        Some(n) => Err(RenderFail::Missing(n)),
        None => match first_absent(args.keys(), phs) {
            Some(n) => Err(RenderFail::Unexpected(n)),
            None => if exists|i: int| is_first_failing(toks, args, i) {
                let i = choose|i: int| is_first_failing(toks, args, i);
                let n = toks[i]->Ph_0;
                if args.lookup(n) is None {
                    Err(RenderFail::Missing(n))
                } else {
                    Err(RenderFail::Invalid(n))
                }
            } else {
                Ok(join_space(toks.map_values(|t: Tok| render_tok(t, args))))
            },
        },
    }
}

/// `e` is the error that reports `f` for the profile `profile_name`.
pub open spec fn is_render_error(f: RenderFail, profile_name: Seq<char>, e: BrokerError) -> bool {
    match f {
        RenderFail::Missing(n) => e matches BrokerError::MissingArgument { profile, name }
            && profile@ == profile_name && name@ == n,
        RenderFail::Unexpected(n) => e matches BrokerError::UnexpectedArgument { profile, name }
            && profile@ == profile_name && name@ == n,
        RenderFail::Invalid(n) => e matches BrokerError::InvalidArgumentValue { profile, name }
            && profile@ == profile_name && name@ == n,
    }
}

pub open spec fn render_result(
    outcome: Result<Seq<char>, RenderFail>,
    profile_name: Seq<char>,
    r: Result<String, BrokerError>,
) -> bool {
    match outcome {
        Ok(text) => r matches Ok(s) && s@ == text,
        Err(f) => r matches Err(e) && is_render_error(f, profile_name, e),
    }
}

/// Looks for the first element of `a` that `b` lacks.
fn find_first_absent(a: &Table<()>, b: &Table<String>) -> (r: Option<usize>)
    ensures
        match r {
            Some(i) => is_first_absent(a.keys(), b.keys(), i as int),
            None => forall|i: int| 0 <= i < a.keys().len() ==> b.keys().contains(#[trigger] a.keys()[i]),
        },
{
    let mut i: usize = 0;
    while i < a.len()
        invariant
            i <= a.keys().len(),
            forall|j: int| 0 <= j < i ==> b.keys().contains(#[trigger] a.keys()[j]),
        decreases a.keys().len() - i,
    {
        if !b.contains_key(a.key_at(i)) {
            return Some(i);
        }
        i = i + 1;
    }
    None
}

/// Looks for the first element of `a` that `b` lacks.
fn find_first_absent_rev(a: &Table<String>, b: &Table<()>) -> (r: Option<usize>)
    ensures
        match r {
            Some(i) => is_first_absent(a.keys(), b.keys(), i as int),
            None => forall|i: int| 0 <= i < a.keys().len() ==> b.keys().contains(#[trigger] a.keys()[i]),
        },
{
    let mut i: usize = 0;
    while i < a.len()
        invariant
            i <= a.keys().len(),
            forall|j: int| 0 <= j < i ==> b.keys().contains(#[trigger] a.keys()[j]),
        decreases a.keys().len() - i,
    {
        if !b.contains_key(a.key_at(i)) {
            return Some(i);
        }
        i = i + 1;
    }
    None
}

/// A profile's template compiled into tokens.
#[derive(Debug, Clone, PartialEq, Eq)]
pub struct CompiledProfile {
    placeholders: Table<()>,
    tokens: Vec<TemplateToken>,
}

impl CompiledProfile {
    /// The tokens, in template order.
    pub closed spec fn toks(&self) -> Seq<Tok> {
        tok_views(self.tokens@)
    }

    /// The placeholder names, in ascending order.
    pub closed spec fn phs(&self) -> Seq<Seq<char>> {
        self.placeholders.keys()
    }

    pub closed spec fn wf(&self) -> bool {
        &&& self.placeholders.wf()
        &&& self.placeholders.keys().to_set() == placeholder_set(self.toks())
    }

    /// Compiles `profile.template`: each word is a `{{name}}` placeholder that
    /// follows an option literal starting with '-' and occurs once, or a
    /// literal of shell-safe characters; there is at least one word.
    pub fn compile(profile_name: &str, profile: &ProfileConfig) -> (r: Result<Self, BrokerError>)
        ensures
            match compile_template(profile.template@) {
                Ok(toks) => r matches Ok(c) && c.toks() == toks && c.wf(),
                Err(reason) => r matches Err(BrokerError::UnsafeTemplate { profile, reason: e })
                    && profile@ == profile_name@ && e@ == reason,
            },
    {
        let words = split_ascii_words(profile.template.as_str());
        let ghost ws = words@.map_values(|w: String| w@);
        let mut tokens: Vec<TemplateToken> = Vec::new();
        let mut placeholders: Table<()> = Table::new();
        let mut i: usize = 0;
        assert(tok_views(tokens@) =~= Seq::<Tok>::empty());
        assert(placeholders.keys().to_set() =~= placeholder_set(Seq::<Tok>::empty()));
        while i < words.len()
            invariant
                i <= words@.len(),
                ws == words@.map_values(|w: String| w@),
                ws == ascii_words(profile.template@),
                compile_prefix(ws, i as nat) == Ok::<Seq<Tok>, Seq<char>>(tok_views(tokens@)),
                placeholders.wf(),
                placeholders.keys().to_set() == placeholder_set(tok_views(tokens@)),
            decreases words@.len() - i,
        {
            let ghost toks = tok_views(tokens@);
            let w = chars_of(words[i].as_str());
            assert(ws[i as int] == w@);
            match parse_placeholder(&w) {
                Some(p) => {
                    let mut after_option = false;
                    if tokens.len() > 0 {
                        match &tokens[tokens.len() - 1] {
                            TemplateToken::Literal(prev) => {
                                let pc = chars_of(prev.as_str());
                                after_option = pc.len() > 0 && pc[0] == '-';
                            },
                            TemplateToken::Placeholder(_) => {},
                        }
                    }
                    assert(after_option == follows_option(toks));
                    if !after_option {
                        let reason = cat3(
                            "placeholder '",
                            p.as_str(),
                            "' must follow a fixed option token that starts with '-'",
                        );
                        proof {
                            lemma_prefix_err_sticks(ws, (i + 1) as nat, ws.len());
                        }
                        return Err(
                            BrokerError::UnsafeTemplate { profile: owned(profile_name), reason },
                        );
                    }
                    let ghost pv = p@;
                    let dup = placeholders.contains_key(p.as_str());
                    assert(dup == toks.contains(Tok::Ph(pv))) by {
                        assert(placeholders.keys().contains(pv) <==> placeholders.keys().to_set().contains(pv));
                    }
                    if dup {
                        let reason = cat3("placeholder '", p.as_str(), "' is declared more than once");
                        proof {
                            lemma_prefix_err_sticks(ws, (i + 1) as nat, ws.len());
                        }
                        return Err(
                            BrokerError::UnsafeTemplate { profile: owned(profile_name), reason },
                        );
                    }
                    let key = owned(p.as_str());
                    placeholders.insert(key, ());
                    tokens.push(TemplateToken::Placeholder(p));
                    proof {
                        assert(tok_views(tokens@) =~= toks.push(Tok::Ph(pv)));
                        assert(placeholder_set(toks.push(Tok::Ph(pv))) =~= placeholder_set(toks).insert(pv)) by {
                            assert forall|q: Seq<char>| toks.push(Tok::Ph(pv)).contains(Tok::Ph(q)) <==> (toks.contains(Tok::Ph(q)) || q == pv) by {
                                if toks.push(Tok::Ph(pv)).contains(Tok::Ph(q)) {
                                    let k = choose|k: int| 0 <= k < toks.len() + 1 && toks.push(Tok::Ph(pv))[k] == Tok::Ph(q);
                                    if k < toks.len() {
                                        assert(toks[k] == Tok::Ph(q));
                                    }
                                }
                                if toks.contains(Tok::Ph(q)) {
                                    let k = choose|k: int| 0 <= k < toks.len() && toks[k] == Tok::Ph(q);
                                    assert(toks.push(Tok::Ph(pv))[k] == Tok::Ph(q));
                                }
                                if q == pv {
                                    assert(toks.push(Tok::Ph(pv))[toks.len() as int] == Tok::Ph(q));
                                }
                            }
                        }
                    }
                },
                None => {
                    if !is_safe_literal_token(&w) {
                        let reason = cat3(
                            "token '",
                            words[i].as_str(),
                            "' is outside the allowed shell-safe template grammar",
                        );
                        proof {
                            lemma_prefix_err_sticks(ws, (i + 1) as nat, ws.len());
                        }
                        return Err(
                            BrokerError::UnsafeTemplate { profile: owned(profile_name), reason },
                        );
                    }
                    let lit = owned(words[i].as_str());
                    tokens.push(TemplateToken::Literal(lit));
                    proof {
                        assert(tok_views(tokens@) =~= toks.push(Tok::Lit(w@)));
                        assert(placeholder_set(toks.push(Tok::Lit(w@))) =~= placeholder_set(toks)) by {
                            assert forall|q: Seq<char>| toks.push(Tok::Lit(w@)).contains(Tok::Ph(q)) <==> toks.contains(Tok::Ph(q)) by {
                                if toks.push(Tok::Lit(w@)).contains(Tok::Ph(q)) {
                                    let k = choose|k: int| 0 <= k < toks.len() + 1 && toks.push(Tok::Lit(w@))[k] == Tok::Ph(q);
                                    if k < toks.len() {
                                        assert(toks[k] == Tok::Ph(q));
                                    }
                                }
                                if toks.contains(Tok::Ph(q)) {
                                    let k = choose|k: int| 0 <= k < toks.len() && toks[k] == Tok::Ph(q);
                                    assert(toks.push(Tok::Lit(w@))[k] == Tok::Ph(q));
                                }
                            }
                        }
                    }
                },
            }
            i = i + 1;
        }
        if tokens.len() == 0 {
            return Err(
                BrokerError::UnsafeTemplate {
                    profile: owned(profile_name),
                    reason: owned("template must not be empty"),
                },
            );
        }
        Ok(CompiledProfile { placeholders, tokens })
    }

    /// Renders the command for `args`; see [`render_outcome`].
    pub fn render(&self, profile_name: &str, args: &Table<String>) -> (r: Result<String, BrokerError>)
        requires
            args.wf(),
        ensures
            render_result(render_outcome(self.toks(), self.phs(), *args), profile_name@, r),
    {
        let ghost toks = self.toks();
        let ghost phs = self.phs();
        match find_first_absent(&self.placeholders, args) {
            Some(i) => {
                proof {
                    assert(is_first_absent(phs, args.keys(), i as int));
                    let c = choose|k: int| is_first_absent(phs, args.keys(), k);
                    lemma_first_absent_unique(phs, args.keys(), c, i as int);
                }
                return Err(
                    BrokerError::MissingArgument {
                        profile: owned(profile_name),
                        name: owned(self.placeholders.key_at(i)),
                    },
                );
            },
            None => {},
        }
        assert(first_absent(phs, args.keys()) is None);
        match find_first_absent_rev(args, &self.placeholders) {
            Some(i) => {
                proof {
                    let c = choose|k: int| is_first_absent(args.keys(), phs, k);
                    lemma_first_absent_unique(args.keys(), phs, c, i as int);
                }
                return Err(
                    BrokerError::UnexpectedArgument {
                        profile: owned(profile_name),
                        name: owned(args.key_at(i)),
                    },
                );
            },
            None => {},
        }
        assert(first_absent(args.keys(), phs) is None);
        let mut parts: Vec<String> = Vec::new();
        let mut t: usize = 0;
        while t < self.tokens.len()
            invariant
                t <= self.tokens@.len(),
                toks == tok_views(self.tokens@),
                toks == self.toks(),
                phs == self.phs(),
                first_absent(phs, args.keys()) is None,
                first_absent(args.keys(), phs) is None,
                args.wf(),
                forall|j: int| 0 <= j < t ==> !token_fails(#[trigger] toks[j], *args),
                parts@.map_values(|w: String| w@) == toks.take(t as int).map_values(
                    |x: Tok| render_tok(x, *args),
                ),
            decreases self.tokens@.len() - t,
        {
            assert(toks[t as int] == self.tokens@[t as int]@);
            let ghost before = parts@.map_values(|w: String| w@);
            match &self.tokens[t] {
                TemplateToken::Literal(literal) => {
                    parts.push(owned(literal.as_str()));
                },
                TemplateToken::Placeholder(name) => {
                    match args.get(name.as_str()) {
                        None => {
                            proof {
                                assert(is_first_failing(toks, *args, t as int));
                                let c = choose|k: int| is_first_failing(toks, *args, k);
                                if c < t {
                                } else if c > t {
                                    assert(!token_fails(toks[t as int], *args));
                                }
                            }
                            return Err(
                                BrokerError::MissingArgument {
                                    profile: owned(profile_name),
                                    name: owned(name.as_str()),
                                },
                            );
                        },
                        Some(value) => {
                            let vc = chars_of(value.as_str());
                            if any_ctrl(&vc) || vc.len() > MAX_ARG_VALUE_LEN {
                                proof {
                                    assert(is_first_failing(toks, *args, t as int));
                                    let c = choose|k: int| is_first_failing(toks, *args, k);
                                    if c < t {
                                    } else if c > t {
                                        assert(!token_fails(toks[t as int], *args));
                                    }
                                }
                                return Err(
                                    BrokerError::InvalidArgumentValue {
                                        profile: owned(profile_name),
                                        name: owned(name.as_str()),
                                    },
                                );
                            }
                            parts.push(shell_escape(value.as_str()));
                        },
                    }
                },
            }
            proof {
                assert(toks.take(t + 1) =~= toks.take(t as int).push(toks[t as int]));
                assert(parts@.map_values(|w: String| w@) =~= before.push(
                    render_tok(toks[t as int], *args),
                ));
                assert(toks.take(t + 1).map_values(|x: Tok| render_tok(x, *args)) =~= toks.take(
                    t as int,
                ).map_values(|x: Tok| render_tok(x, *args)).push(render_tok(toks[t as int], *args)));
            }
            t = t + 1;
        }
        assert(toks.take(t as int) =~= toks);
        assert(!exists|i: int| is_first_failing(toks, *args, i));
        Ok(join_with_space(&parts))
    }
}

proof fn lemma_first_absent_exists(a: Seq<Seq<char>>, b: Seq<Seq<char>>, i: int)
    requires
        0 <= i < a.len(),
        !b.contains(a[i]),
    ensures
        exists|k: int| is_first_absent(a, b, k),
    decreases i,
{
    if forall|j: int| 0 <= j < i ==> b.contains(#[trigger] a[j]) {
        assert(is_first_absent(a, b, i));
    } else {
        let j = choose|j: int| 0 <= j < i && !b.contains(#[trigger] a[j]);
        lemma_first_absent_exists(a, b, j);
    }
}

/// `a` has no first element that `b` lacks exactly when `b` holds them all.
proof fn lemma_first_absent_none(a: Seq<Seq<char>>, b: Seq<Seq<char>>)
    ensures
        (first_absent(a, b) is None) <==> (forall|i: int| 0 <= i < a.len() ==> b.contains(#[trigger] a[i])),
{
    if !(forall|i: int| 0 <= i < a.len() ==> b.contains(#[trigger] a[i])) {
        let i = choose|i: int| 0 <= i < a.len() && !b.contains(#[trigger] a[i]);
        lemma_first_absent_exists(a, b, i);
    }
}

proof fn lemma_first_failing_exists(toks: Seq<Tok>, args: Table<String>, i: int)
    requires
        0 <= i < toks.len(),
        token_fails(toks[i], args),
    ensures
        exists|k: int| is_first_failing(toks, args, k),
    decreases i,
{
    if forall|j: int| 0 <= j < i ==> !token_fails(#[trigger] toks[j], args) {
        assert(is_first_failing(toks, args, i));
    } else {
        let j = choose|j: int| 0 <= j < i && token_fails(#[trigger] toks[j], args);
        lemma_first_failing_exists(toks, args, j);
    }
}

/// Rendering a compiled profile succeeds exactly when the arguments name
/// exactly the template's placeholders and no argument value holds a control
/// character or is longer than 4096 characters; the command is then the
/// template's tokens joined with single spaces, each placeholder replaced by
/// its value single-quoted.
pub proof fn render_succeeds_exactly_when_arguments_fit(c: CompiledProfile, args: Table<String>)
    requires
        c.wf(),
    ensures
        (render_outcome(c.toks(), c.phs(), args) is Ok) <==> (args.keys().to_set() == placeholder_set(c.toks())
            && forall|n: Seq<char>| #[trigger] args.has(n) ==> !value_refused(args.lookup(n)->0@)),
        render_outcome(c.toks(), c.phs(), args) is Ok ==> render_outcome(c.toks(), c.phs(), args) == Ok::<
            Seq<char>,
            RenderFail,
        >(join_space(c.toks().map_values(|t: Tok| render_tok(t, args)))),
{
    let toks = c.toks();
    let phs = c.phs();
    let keys = args.keys();
    lemma_first_absent_none(phs, keys);
    lemma_first_absent_none(keys, phs);
    let covered = forall|i: int| 0 <= i < phs.len() ==> keys.contains(#[trigger] phs[i]);
    let only = forall|i: int| 0 <= i < keys.len() ==> phs.contains(#[trigger] keys[i]);
    let values_ok = forall|n: Seq<char>| #[trigger] args.has(n) ==> !value_refused(args.lookup(n)->0@);
    assert((covered && only) <==> keys.to_set() == placeholder_set(toks)) by {
        if covered && only {
            assert forall|n: Seq<char>| keys.to_set().contains(n) <==> placeholder_set(toks).contains(n) by {
                assert(phs.to_set().contains(n) <==> placeholder_set(toks).contains(n));
                if keys.contains(n) {
                    let i = choose|i: int| 0 <= i < keys.len() && keys[i] == n;
                    assert(phs.contains(keys[i]));
                }
                if phs.contains(n) {
                    let i = choose|i: int| 0 <= i < phs.len() && phs[i] == n;
                    assert(keys.contains(phs[i]));
                }
            }
            assert(keys.to_set() =~= placeholder_set(toks));
        }
        if keys.to_set() == placeholder_set(toks) {
            assert forall|i: int| 0 <= i < phs.len() implies keys.contains(#[trigger] phs[i]) by {
                assert(phs.to_set().contains(phs[i]));
                assert(placeholder_set(toks).contains(phs[i]));
                assert(keys.to_set().contains(phs[i]));
            }
            assert forall|i: int| 0 <= i < keys.len() implies phs.contains(#[trigger] keys[i]) by {
                assert(keys.to_set().contains(keys[i]));
                assert(placeholder_set(toks).contains(keys[i]));
                assert(phs.to_set().contains(keys[i]));
            }
        }
    }
    if covered && only {
        if exists|i: int| is_first_failing(toks, args, i) {
            let i = choose|i: int| is_first_failing(toks, args, i);
            let n = toks[i]->Ph_0;
            assert(placeholder_set(toks).contains(n)) by {
                assert(toks[i] == Tok::Ph(n));
                assert(toks.contains(Tok::Ph(n)));
            }
            assert(phs.to_set().contains(n));
            let k = choose|k: int| 0 <= k < phs.len() && phs[k] == n;
            assert(keys.contains(phs[k]));
            assert(args.has(n));
            assert(!values_ok);
        } else {
            assert forall|n: Seq<char>| #[trigger] args.has(n) implies !value_refused(args.lookup(n)->0@) by {
                let k = choose|k: int| 0 <= k < keys.len() && keys[k] == n;
                assert(phs.contains(keys[k]));
                assert(phs.to_set().contains(n));
                assert(placeholder_set(toks).contains(n));
                assert(toks.contains(Tok::Ph(n)));
                let j = choose|j: int| 0 <= j < toks.len() && toks[j] == Tok::Ph(n);
                if token_fails(toks[j], args) {
                    lemma_first_failing_exists(toks, args, j);
                }
            }
        }
    }
}

/// The characters a literal template token may hold are exactly the letters
/// a-z and A-Z, the digits 0-9, and `_ . / : = @ + - , %`.
pub proof fn safe_literal_characters(c: char)
    ensures
        is_safe_literal_char(c) <==> (('a' <= c && c <= 'z') || ('A' <= c && c <= 'Z') || ('0' <= c && c
            <= '9') || c == '_' || c == '.' || c == '/' || c == ':' || c == '=' || c == '@' || c == '+'
            || c == '-' || c == ',' || c == '%'),
{
}

/// A template whose words are made only of the characters a-z A-Z 0-9
/// `_ . / : = @ + - , %` compiles to one literal token per word, such as
/// `tail -n 100 /var/log/syslog`.
pub proof fn plain_templates_compile_to_literals(t: Seq<char>)
    requires
        ascii_words(t).len() > 0,
        forall|i: int, j: int|
            0 <= i < ascii_words(t).len() && 0 <= j < ascii_words(t)[i].len() ==> {
                let c = #[trigger] ascii_words(t)[i][j];
                ('a' <= c && c <= 'z') || ('A' <= c && c <= 'Z') || ('0' <= c && c <= '9') || c == '_'
                    || c == '.' || c == '/' || c == ':' || c == '=' || c == '@' || c == '+' || c == '-'
                    || c == ',' || c == '%'
            },
    ensures
        compile_template(t) == Ok::<Seq<Tok>, Seq<char>>(
            ascii_words(t).map_values(|w: Seq<char>| Tok::Lit(w)),
        ),
{
    let ws = ascii_words(t);
    assert forall|i: int| 0 <= i < ws.len() implies placeholder_of(#[trigger] ws[i]) is None
        && is_safe_literal(ws[i]) by {
        let w = ws[i];
        if w.len() > 4 {
            let c = ws[i][0];
            assert(c != '{');
        }
        assert forall|j: int| 0 <= j < w.len() implies is_safe_literal_char(#[trigger] w[j]) by {
            let c = ws[i][j];
            safe_literal_characters(c);
        }
    }
    assert forall|i: int| 0 <= i < ws.len() implies word_allowed(ws, i) by {
        assert(placeholder_of(ws[i]) is None);
    }
    template_grammar(t);
    assert(ws.map_values(|w: Seq<char>| word_tok(w)) =~= ws.map_values(|w: Seq<char>| Tok::Lit(w))) by {
        assert forall|i: int| 0 <= i < ws.len() implies word_tok(ws[i]) == Tok::Lit(ws[i]) by {
            assert(placeholder_of(ws[i]) is None);
        }
    }
}

} // verus!
