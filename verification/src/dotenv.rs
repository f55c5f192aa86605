//! `.env` files of secret references, and `--arg name=value` pairs.
use vstd::prelude::*;

use crate::executor::{split_char, split_on, text_views};
use crate::table::Table;
use crate::text::{cat, cat3, chars_of, decimal, opt_view, owned, trim, trimmed, u64_to_text};
use crate::validate::{is_env_var_name, is_valid_env_var_name};

verus! {

/// A line of a `.env` file that cannot be read.
#[derive(Debug, Clone, PartialEq, Eq)]
pub struct DotenvError {
    pub line_number: usize,
    pub reason: String,
}

impl DotenvError {
    pub open spec fn text(&self) -> Seq<char> {
        "invalid .env line "@ + decimal(self.line_number as nat) + ": "@ + self.reason@
    }

    /// `invalid .env line N: reason`.
    pub fn message(&self) -> (r: String)
        ensures
            r@ == self.text(),
    {
        let n = u64_to_text(self.line_number as u64);
        cat3("invalid .env line ", n.as_str(), cat(": ", self.reason.as_str()).as_str())
    }
}

// ── Values ──────────────────────────────────────────────────────────────────

pub open spec fn is_quote(c: char) -> bool {
    c == '"' || c == '\''
}

/// The value a `.env` line gives for the (trimmed) text `v`: quotes around
/// it are removed; a quote at only one end is refused.
pub open spec fn dotenv_value(v: Seq<char>) -> Result<Seq<char>, Seq<char>> {
    if v.len() == 0 {
        Ok(v)
    } else if (v[0] == '"' && v.last() == '"') || (v[0] == '\'' && v.last() == '\'') {
        if v.len() < 2 {
            Err("quoted values must be balanced"@)
        } else {
            Ok(v.subrange(1, v.len() - 1))
        }
    } else if is_quote(v[0]) || is_quote(v.last()) {
        Err("quoted values must start and end with the same quote"@)
    } else {
        Ok(v)
    }
}

pub fn normalize_dotenv_value(value: &str) -> (r: Result<String, String>)
    ensures
        match dotenv_value(value@) {
            Ok(t) => (r matches Ok(s) && s@ == t),
            Err(m) => (r matches Err(s) && s@ == m),
        },
{
    let v = chars_of(value);
    let n = v.len();
    if n == 0 {
        return Ok(String::new());
    }
    let first = v[0];
    let last = v[n - 1];
    if (first == '"' && last == '"') || (first == '\'' && last == '\'') {
        if n < 2 {
            return Err(owned("quoted values must be balanced"));
        }
        return Ok(value.substring_char(1, n - 1).to_string());
    }
    if first == '"' || first == '\'' || last == '"' || last == '\'' {
        return Err(owned("quoted values must start and end with the same quote"));
    }
    Ok(owned(value))
}

// ── Lines ───────────────────────────────────────────────────────────────────

/// What one line of a `.env` file says.
pub ghost enum DotenvLine {
    /// Blank or a comment.
    Skip,
    /// `NAME=value`.
    Entry(Seq<char>, Seq<char>),
    /// Unreadable, for this reason.
    Bad(Seq<char>),
}

pub open spec fn export_prefix() -> Seq<char> {
    seq!['e', 'x', 'p', 'o', 'r', 't', ' ']
}

/// The line with a leading `export ` removed.
pub open spec fn without_export(t: Seq<char>) -> Seq<char> {
    if t.len() >= 7 && t.take(7) == export_prefix() {
        t.skip(7)
    } else {
        t
    }
}

/// Where the first `=` of `s` is.
pub open spec fn first_equals(s: Seq<char>) -> Option<int> {
    if exists|i: int| 0 <= i < s.len() && s[i] == '=' {
        Some(choose|i: int| 0 <= i < s.len() && s[i] == '=' && forall|j: int| 0 <= j < i ==> s[j] != '=')
    } else {
        None
    }
}

pub open spec fn line_meaning(raw: Seq<char>) -> DotenvLine {
    let t = trimmed(raw);
    if t.len() == 0 || t[0] == '#' {
        DotenvLine::Skip
    } else {
        let line = without_export(t);
        match first_equals(line) {
            None => DotenvLine::Bad("expected KEY=VALUE"@),
            Some(i) => {
                let name = trimmed(line.take(i));
                if !is_env_var_name(name) {
                    DotenvLine::Bad("'"@ + name + "' is not a valid environment variable name"@)
                } else {
                    match dotenv_value(trimmed(line.skip(i + 1))) {
                        Ok(v) => DotenvLine::Entry(name, v),
                        Err(reason) => DotenvLine::Bad(reason),
                    }
                }
            },
        }
    }
}

/// The variables the lines define, a later line winning over an earlier
/// one, or the first unreadable line's number and why.
pub open spec fn dotenv_vars(lines: Seq<Seq<char>>) -> Result<Map<Seq<char>, Seq<char>>, (nat, Seq<char>)>
    decreases lines.len(),
{
    if lines.len() == 0 {
        Ok(Map::empty())
    } else {
        match dotenv_vars(lines.drop_last()) {
            Err(e) => Err(e),
            Ok(m) => match line_meaning(lines.last()) {
                DotenvLine::Skip => Ok(m),
                DotenvLine::Entry(n, v) => Ok(m.insert(n, v)),
                DotenvLine::Bad(reason) => Err((lines.len(), reason)),
            },
        }
    }
}

/// Once a line cannot be read, later lines change nothing.
proof fn lemma_error_persists(lines: Seq<Seq<char>>, k: int)
    requires
        0 <= k <= lines.len(),
        dotenv_vars(lines.take(k)) is Err,
    ensures
        dotenv_vars(lines) == dotenv_vars(lines.take(k)),
    decreases lines.len() - k,
{
    if k == lines.len() {
        assert(lines.take(k) =~= lines);
    } else {
        assert(lines.take(k + 1).drop_last() =~= lines.take(k));
        lemma_error_persists(lines, k + 1);
    }
}

/// The table holds exactly the variables of `m`.
pub open spec fn table_holds(t: Table<String>, m: Map<Seq<char>, Seq<char>>) -> bool {
    &&& t.wf()
    &&& t.keys().to_set() == m.dom()
    &&& forall|k: Seq<char>| #[trigger] m.dom().contains(k) ==> (t.lookup(k) matches Some(v) && v@ == m[k])
}

/// The position of the first `=` in `s`.
fn find_equals(s: &str) -> (r: Option<usize>)
    ensures
        match first_equals(s@) {
            None => r is None,
            Some(i) => (r matches Some(k) && k == i && i < s@.len()),
        },
{
    let v = chars_of(s);
    let mut i: usize = 0;
    while i < v.len() && v[i] != '='
        invariant
            i <= v.len(),
            v@ == s@,
            forall|j: int| 0 <= j < i ==> v@[j] != '=',
        decreases v.len() - i,
    {
        i = i + 1;
    }
    if i == v.len() {
        assert(first_equals(s@) is None);
        return None;
    }
    proof {
        let c = choose|k: int| 0 <= k < s@.len() && s@[k] == '=' && forall|j: int| 0 <= j < k ==> s@[j] != '=';
        assert(c == i) by {
            if c < i {
                assert(v@[c] != '=');
            } else if c > i {
                assert(s@[i as int] != '=');
            }
        }
    }
    Some(i)
}

fn read_line(raw: &str) -> (r: Result<Option<(String, String)>, String>)
    ensures
        match line_meaning(raw@) {
            DotenvLine::Skip => r matches Ok(None),
            DotenvLine::Entry(n, v) => (r matches Ok(Some(p)) && p.0@ == n && p.1@ == v),
            DotenvLine::Bad(m) => (r matches Err(s) && s@ == m),
        },
{
    let t = trim(raw);
    let tv = chars_of(t);
    if tv.len() == 0 || tv[0] == '#' {
        return Ok(None);
    }
    let has_export = tv.len() >= 7 && tv[0] == 'e' && tv[1] == 'x' && tv[2] == 'p' && tv[3] == 'o'
        && tv[4] == 'r' && tv[5] == 't' && tv[6] == ' ';
    proof {
        if has_export {
            assert(tv@.take(7) =~= export_prefix());
        } else if tv@.len() >= 7 {
            assert(tv@.take(7) != export_prefix()) by {
                if tv@.take(7) == export_prefix() {
                    assert(tv@.take(7)[0] == 'e');
                    assert(tv@.take(7)[1] == 'x');
                    assert(tv@.take(7)[2] == 'p');
                    assert(tv@.take(7)[3] == 'o');
                    assert(tv@.take(7)[4] == 'r');
                    assert(tv@.take(7)[5] == 't');
                    assert(tv@.take(7)[6] == ' ');
                }
            }
        }
    }
    let line = if has_export {
        t.substring_char(7, tv.len())
    } else {
        t.substring_char(0, tv.len())
    };
    assert(line@ =~= without_export(t@));
    let i = match find_equals(line) {
        None => {
            return Err(owned("expected KEY=VALUE"));
        },
        Some(i) => i,
    };
    let head = line.substring_char(0, i);
    assert(head@ =~= line@.take(i as int));
    let name = trim(head);
    if !is_valid_env_var_name(name) {
        return Err(cat3("'", name, "' is not a valid environment variable name"));
    }
    let rest = line.substring_char(i + 1, line.unicode_len());
    assert(rest@ =~= line@.skip(i + 1));
    match normalize_dotenv_value(trim(rest)) {
        Ok(v) => Ok(Some((owned(name), v))),
        Err(reason) => Err(reason),
    }
}

/// Reads the variables a `.env` file defines: `NAME=value` lines, with an
/// optional leading `export `, blank lines and `#` comments skipped. A later
/// line for the same name wins.
pub fn parse_dotenv(source: &str) -> (r: Result<Table<String>, DotenvError>)
    ensures
        match dotenv_vars(split_on(source@, '\n')) {
            Ok(m) => (r matches Ok(t) && table_holds(t, m)),
            Err((n, reason)) => (r matches Err(e) && e.line_number == n && e.reason@ == reason),
        },
{
    let lines = split_char(source, '\n');
    let ghost views = split_on(source@, '\n');
    let mut values: Table<String> = Table::new();
    let mut i: usize = 0;
    proof {
        assert(views.take(0) =~= Seq::<Seq<char>>::empty());
        assert(values.keys().to_set() =~= Map::<Seq<char>, Seq<char>>::empty().dom());
    }
    while i < lines.len()
        invariant
            i <= lines@.len(),
            text_views(lines@) == views,
            views == split_on(source@, '\n'),
            dotenv_vars(views.take(i as int)) matches Ok(m) && table_holds(values, m),
        decreases lines@.len() - i,
    {
        let ghost m = dotenv_vars(views.take(i as int))->Ok_0;
        proof {
            assert(views.take(i + 1).drop_last() =~= views.take(i as int));
            assert(views.take(i + 1).last() == lines@[i as int]@);
        }
        match read_line(lines[i].as_str()) {
            Ok(None) => {},
            Ok(Some((name, value))) => {
                let ghost nv = name@;
                let ghost vv = value@;
                let ghost before = values;
                values.insert(name, value);
                proof {
                    let m2 = m.insert(nv, vv);
                    assert(values.keys().to_set() =~= m2.dom());
                    assert forall|k: Seq<char>| #[trigger] m2.dom().contains(k) implies (values.lookup(k) matches Some(v)
                        && v@ == m2[k]) by {
                        if k != nv {
                            assert(m.dom().contains(k));
                            assert(before.lookup(k) == values.lookup(k));
                        }
                    }
                }
            },
            Err(reason) => {
                proof {
                    let next = views.take(i + 1);
                    assert(line_meaning(next.last()) == DotenvLine::Bad(reason@));
                    assert(dotenv_vars(next.drop_last()) == Ok::<Map<Seq<char>, Seq<char>>, (nat, Seq<char>)>(m));
                    assert(dotenv_vars(next) == Err::<Map<Seq<char>, Seq<char>>, (nat, Seq<char>)>(((i + 1) as nat, reason@)));
                    lemma_error_persists(views, i + 1);
                }
                return Err(DotenvError { line_number: i + 1, reason });
            },
        }
        i = i + 1;
    }
    proof {
        assert(views.take(i as int) =~= views);
    }
    Ok(values)
}

// ── Named arguments ─────────────────────────────────────────────────────────

/// Where the first `=` of an argument is, if it has one.
pub open spec fn named_arg(raw: Seq<char>) -> Option<(Seq<char>, Seq<char>)> {
    match first_equals(raw) {
        None => None,
        Some(i) => Some((raw.take(i), raw.skip(i + 1))),
    }
}

/// The arguments `raws` give, or the first reason they cannot be read.
pub open spec fn named_args(raws: Seq<Seq<char>>) -> Result<Map<Seq<char>, Seq<char>>, Seq<char>>
    decreases raws.len(),
{
    if raws.len() == 0 {
        Ok(Map::empty())
    } else {
        match named_args(raws.drop_last()) {
            Err(e) => Err(e),
            Ok(m) => {
                let raw = raws.last();
                match named_arg(raw) {
                    None => Err("invalid --arg '"@ + raw + "'; expected the form key=value"@),
                    Some((name, value)) => if name.len() == 0 {
                        Err("argument names must not be empty"@)
                    } else if m.dom().contains(name) {
                        Err("duplicate --arg key '"@ + name + "'"@)
                    } else {
                        Ok(m.insert(name, value))
                    },
                }
            },
        }
    }
}

proof fn lemma_named_error_persists(raws: Seq<Seq<char>>, k: int)
    requires
        0 <= k <= raws.len(),
        named_args(raws.take(k)) is Err,
    ensures
        named_args(raws) == named_args(raws.take(k)),
    decreases raws.len() - k,
{
    if k == raws.len() {
        assert(raws.take(k) =~= raws);
    } else {
        assert(raws.take(k + 1).drop_last() =~= raws.take(k));
        lemma_named_error_persists(raws, k + 1);
    }
}

fn split_arg(raw: &str) -> (r: Option<(String, String)>)
    ensures
        match named_arg(raw@) {
            None => r is None,
            Some((n, v)) => (r matches Some(p) && p.0@ == n && p.1@ == v),
        },
{
    let i = match find_equals(raw) {
        None => {
            return None;
        },
        Some(i) => i,
    };
    let n = raw.unicode_len();
    let name = raw.substring_char(0, i);
    let value = raw.substring_char(i + 1, n);
    assert(name@ =~= raw@.take(i as int));
    assert(value@ =~= raw@.skip(i + 1));
    Some((owned(name), owned(value)))
}

/// Reads `name=value` arguments; a name must not be empty or repeat.
pub fn parse_named_args(raw_args: Vec<String>) -> (r: Result<Table<String>, String>)
    ensures
        match named_args(text_views(raw_args@)) {
            Ok(m) => (r matches Ok(t) && table_holds(t, m)),
            Err(e) => (r matches Err(s) && s@ == e),
        },
{
    let ghost views = text_views(raw_args@);
    let mut parsed: Table<String> = Table::new();
    let mut i: usize = 0;
    proof {
        assert(views.take(0) =~= Seq::<Seq<char>>::empty());
        assert(parsed.keys().to_set() =~= Map::<Seq<char>, Seq<char>>::empty().dom());
    }
    while i < raw_args.len()
        invariant
            i <= raw_args@.len(),
            views == text_views(raw_args@),
            named_args(views.take(i as int)) matches Ok(m) && table_holds(parsed, m),
        decreases raw_args@.len() - i,
    {
        let ghost m = named_args(views.take(i as int))->Ok_0;
        let raw = raw_args[i].as_str();
        proof {
            assert(views.take(i + 1).drop_last() =~= views.take(i as int));
            assert(views.take(i + 1).last() == raw@);
        }
        match split_arg(raw) {
            None => {
                let e = cat3("invalid --arg '", raw, "'; expected the form key=value");
                proof {
                    lemma_named_error_persists(views, i + 1);
                }
                return Err(e);
            },
            Some((name, value)) => {
                if name.unicode_len() == 0 {
                    proof {
                        lemma_named_error_persists(views, i + 1);
                    }
                    return Err(owned("argument names must not be empty"));
                }
                let ghost nv = name@;
                let ghost vv = value@;
                let ghost before = parsed;
                let dup = cat3("duplicate --arg key '", name.as_str(), "'");
                match parsed.insert(name, value) {
                    Some(_) => {
                        proof {
                            assert(before.has(nv));
                            assert(before.keys().to_set().contains(nv));
                            lemma_named_error_persists(views, i + 1);
                        }
                        return Err(dup);
                    },
                    None => {
                        proof {
                            assert(!before.keys().to_set().contains(nv));
                            let m2 = m.insert(nv, vv);
                            assert(parsed.keys().to_set() =~= m2.dom());
                            assert forall|k: Seq<char>| #[trigger] m2.dom().contains(k) implies (parsed.lookup(k) matches Some(v)
                                && v@ == m2[k]) by {
                                if k != nv {
                                    assert(m.dom().contains(k));
                                    assert(before.lookup(k) == parsed.lookup(k));
                                }
                            }
                        }
                    },
                }
            },
        }
        i = i + 1;
    }
    proof {
        assert(views.take(i as int) =~= views);
    }
    Ok(parsed)
}

// ── The secret environment ──────────────────────────────────────────────────

/// `env` with every variable of `extra` that `env` does not define added:
/// a variable already in the environment wins over the `.env` file.
pub fn merge_missing(env: Table<String>, extra: &Table<String>) -> (r: Table<String>)
    requires
        env.wf(),
        extra.wf(),
    ensures
        r.wf(),
        r.keys().to_set() == env.keys().to_set() + extra.keys().to_set(),
        forall|k: Seq<char>|
            #[trigger] opt_view(r.lookup(k)) == if env.has(k) {
                opt_view(env.lookup(k))
            } else {
                opt_view(extra.lookup(k))
            },
{
    let mut r = env;
    let ghost start = r;
    let mut i: usize = 0;
    proof {
        extra.lemma_lens();
        assert(extra.keys().take(0).to_set() =~= Set::<Seq<char>>::empty());
        assert(r.keys().to_set() =~= start.keys().to_set() + extra.keys().take(0).to_set());
    }
    while i < extra.len()
        invariant
            i <= extra.keys().len(),
            extra.wf(),
            start.wf(),
            r.wf(),
            r.keys().to_set() == start.keys().to_set() + extra.keys().take(i as int).to_set(),
            forall|k: Seq<char>|
                #[trigger] opt_view(r.lookup(k)) == if start.has(k) {
                    opt_view(start.lookup(k))
                } else if extra.keys().take(i as int).contains(k) {
                    opt_view(extra.lookup(k))
                } else {
                    None
                },
        decreases extra.keys().len() - i,
    {
        let k = extra.key_at(i);
        let ghost kv = k@;
        let ghost prev = extra.keys().take(i as int);
        let ghost next = extra.keys().take(i + 1);
        proof {
            assert(next =~= prev.push(kv));
            prev.lemma_push_to_set_commute(kv);
            assert(next[i as int] == kv);
            assert(extra.keys()[i as int] == kv);
            assert(extra.has(kv));
        }
        let ghost before = r;
        match extra.get(k) {
            Some(v) => {
                if !r.contains_key(k) {
                    proof {
                        assert(!before.keys().to_set().contains(kv));
                        assert(!start.keys().to_set().contains(kv));
                    }
                    r.insert(owned(k), owned(v.as_str()));
                }
            },
            None => {},
        }
        proof {
            assert(r.keys().to_set() =~= start.keys().to_set() + next.to_set());
            assert forall|q: Seq<char>| #[trigger] opt_view(r.lookup(q)) == (if start.has(q) {
                opt_view(start.lookup(q))
            } else if next.contains(q) {
                opt_view(extra.lookup(q))
            } else {
                None
            }) by {
                if q != kv {
                    assert(next.contains(q) == prev.contains(q)) by {
                        if next.contains(q) {
                            let j = choose|j: int| 0 <= j < next.len() && next[j] == q;
                            assert(prev[j] == q);
                        }
                    }
                    assert(r.lookup(q) == before.lookup(q));
                } else {
                    assert(next.contains(q));
                    if before.has(q) {
                        assert(before.keys().to_set().contains(q));
                    }
                }
            }
        }
        i = i + 1;
    }
    proof {
        assert(extra.keys().take(i as int) =~= extra.keys());
    }
    r
}

} // verus!
