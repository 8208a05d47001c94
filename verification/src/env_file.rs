use vstd::prelude::*;
use crate::error::{IoError, IoErrorKind};
use crate::glob::char_views;
use crate::text::{
    append_chars, append_str, chars_of, decimal, decimal_chars, find_char, first_index_of,
    is_ascii_alphanumeric, is_ascii_alphanumeric_exec, is_ascii_digit, is_ascii_digit_exec,
    starts_with, starts_with_chars, string_of, sub_chars, trim, trim_chars,
};

verus! {

/// The pieces of `s` between `\n` characters; there is always at least one piece.
pub open spec fn line_pieces(s: Seq<char>) -> Seq<Seq<char>>
    decreases s.len(),
{
    if s.len() == 0 {
        seq![seq![]]
    } else {
        let p = line_pieces(s.drop_last());
        if s.last() == '\n' {
            p.push(seq![])
        } else {
            p.update(p.len() - 1, p.last().push(s.last()))
        }
    }
}

/// A terminated line loses one trailing `\r`.
pub open spec fn strip_cr(l: Seq<char>) -> Seq<char> {
    if l.len() > 0 && l.last() == '\r' { l.drop_last() } else { l }
}

/// The lines of `s` as `str::lines` yields them: split at `\n`, a `\r` before the `\n`
/// dropped, and no empty last line after a final `\n`.
pub open spec fn lines(s: Seq<char>) -> Seq<Seq<char>> {
    let p = line_pieces(s);
    p.drop_last().map_values(|l: Seq<char>| strip_cr(l)) + (if p.last().len() > 0 {
        seq![p.last()]
    } else {
        seq![]
    })
}

proof fn lemma_line_pieces_nonempty(s: Seq<char>)
    ensures
        line_pieces(s).len() >= 1,
    decreases s.len(),
{
    if s.len() > 0 {
        lemma_line_pieces_nonempty(s.drop_last());
    }
}

fn strip_cr_exec(l: Vec<char>) -> (r: Vec<char>)
    ensures
        r@ == strip_cr(l@),
{
    let mut l = l;
    if l.len() > 0 && l[l.len() - 1] == '\r' {
        l.pop();
    }
    l
}

/// Exec counterpart of `lines`.
pub fn lines_of(s: &Vec<char>) -> (r: Vec<Vec<char>>)
    ensures
        char_views(r@) == lines(s@),
{
    let mut done: Vec<Vec<char>> = Vec::new();
    let mut cur: Vec<char> = Vec::new();
    let mut i: usize = 0;
    proof {
        lemma_line_pieces_nonempty(s@.take(0));
        assert(s@.take(0) =~= Seq::<char>::empty());
    }
    while i < s.len()
        invariant
            i <= s.len(),
            line_pieces(s@.take(i as int)).len() >= 1,
            char_views(done@) == line_pieces(s@.take(i as int)).drop_last().map_values(
                |l: Seq<char>| strip_cr(l),
            ),
            cur@ == line_pieces(s@.take(i as int)).last(),
        decreases s.len() - i,
    {
        let c = s[i];
        let ghost p = line_pieces(s@.take(i as int));
        assert(s@.take(i + 1).drop_last() =~= s@.take(i as int));
        assert(s@.take(i + 1).last() == c);
        if c == '\n' {
            let piece = strip_cr_exec(cur);
            let ghost old_views = char_views(done@);
            done.push(piece);
            assert(char_views(done@) =~= old_views.push(piece@));
            cur = Vec::new();
            assert(p =~= p.drop_last().push(p.last()));
            assert(char_views(done@) =~= p.map_values(|l: Seq<char>| strip_cr(l)));
            assert(p.push(seq![]).drop_last() =~= p);
        } else {
            cur.push(c);
            assert(p.update(p.len() - 1, p.last().push(c)).drop_last() =~= p.drop_last());
        }
        i = i + 1;
    }
    assert(s@.take(s.len() as int) =~= s@);
    if cur.len() > 0 {
        let ghost before = char_views(done@);
        done.push(cur);
        assert(char_views(done@) =~= before + seq![line_pieces(s@).last()]);
    } else {
        assert(char_views(done@) =~= char_views(done@) + Seq::<Seq<char>>::empty());
    }
    done
}

/// Quotes around a whole value are dropped: a value of at least two characters that
/// begins and ends with `"`, or begins and ends with `'`, loses its first and last
/// character.
pub open spec fn unquote(v: Seq<char>) -> Seq<char> {
    if v.len() >= 2 && ((v[0] == '"' && v.last() == '"') || (v[0] == '\'' && v.last() == '\'')) {
        v.subrange(1, v.len() - 1)
    } else {
        v
    }
}

fn unquote_chars(v: Vec<char>) -> (r: Vec<char>)
    ensures
        r@ == unquote(v@),
{
    let n = v.len();
    if n >= 2 && ((v[0] == '"' && v[n - 1] == '"') || (v[0] == '\'' && v[n - 1] == '\'')) {
        sub_chars(&v, 1, n - 1)
    } else {
        v
    }
}

/// Removes one pair of matching quotes around a value (see `unquote`).
pub fn unquote_env_value(value: &str) -> (r: String)
    ensures
        r@ == unquote(value@),
{
    let v = chars_of(value);
    let u = unquote_chars(v);
    string_of(&u)
}

/// Whether `key` may name an environment variable: non-empty, made of ASCII letters,
/// digits and `_`, and not starting with a digit.
pub open spec fn valid_env_key(key: Seq<char>) -> bool {
    &&& key.len() > 0
    &&& forall|i: int| 0 <= i < key.len() ==> (key[i] == '_' || is_ascii_alphanumeric(key[i]))
    &&& !is_ascii_digit(key[0])
}

/// What one line of an env file amounts to.
pub enum EnvLine {
    Skip,
    Entry(Seq<char>, Seq<char>),
    BadAssignment,
    BadKey(Seq<char>),
}

/// The `export ` prefix that a line may carry.
pub open spec fn export_prefix() -> Seq<char> {
    seq!['e', 'x', 'p', 'o', 'r', 't', ' ']
}

/// The meaning of one raw line: blank lines and `#` comments are skipped; an optional
/// `export ` prefix is dropped; the line must hold a `=`; the trimmed text before the first
/// `=` is the key, the trimmed and unquoted text after it the value.
pub open spec fn env_line(raw: Seq<char>) -> EnvLine {
    let line = trim(raw);
    if line.len() == 0 || line[0] == '#' {
        EnvLine::Skip
    } else {
        let line2 = if starts_with(line, export_prefix()) {
            trim(line.skip(7))
        } else {
            line
        };
        match first_index_of(line2, '=') {
            None => EnvLine::BadAssignment,
            Some(k) => {
                let key = trim(line2.take(k));
                let value = trim(line2.skip(k + 1));
                if valid_env_key(key) {
                    EnvLine::Entry(key, unquote(value))
                } else {
                    EnvLine::BadKey(key)
                }
            },
        }
    }
}

/// The assignments of a list of lines in order, or the first bad line: its 1-based number
/// and what was wrong with it.
pub open spec fn parse_env_lines(ls: Seq<Seq<char>>) -> Result<
    Seq<(Seq<char>, Seq<char>)>,
    (nat, EnvLine),
>
    decreases ls.len(),
{
    if ls.len() == 0 {
        Ok(seq![])
    } else {
        match parse_env_lines(ls.drop_last()) {
            Err(e) => Err(e),
            Ok(es) => match env_line(ls.last()) {
                EnvLine::Skip => Ok(es),
                EnvLine::Entry(k, v) => Ok(es.push((k, v))),
                bad => Err((ls.len(), bad)),
            },
        }
    }
}

/// Every assignment that an env file yields names a valid variable.
pub proof fn lemma_parsed_keys_valid(ls: Seq<Seq<char>>)
    ensures
        parse_env_lines(ls) matches Ok(es) ==> forall|i: int| 0 <= i < es.len() ==> valid_env_key(#[trigger] es[i].0),
    decreases ls.len(),
{
    if ls.len() > 0 {
        lemma_parsed_keys_valid(ls.drop_last());
        match parse_env_lines(ls.drop_last()) {
            Ok(es) => match env_line(ls.last()) {
                EnvLine::Entry(k, v) => {
                    assert(valid_env_key(k));
                    assert forall|i: int| 0 <= i < es.len() + 1 implies valid_env_key(#[trigger] es.push((k, v))[i].0) by {
                        if i < es.len() {
                            assert(es.push((k, v))[i] == es[i]);
                        }
                    }
                },
                _ => {},
            },
            Err(_) => {},
        }
    }
}

/// A value wrapped in one pair of double or single quotes loses exactly those quotes.
pub proof fn lemma_unquote_removes_one_pair(v: Seq<char>, q: char)
    requires
        q == '"' || q == '\'',
    ensures
        unquote(seq![q] + v + seq![q]) == v,
{
    let w = seq![q] + v + seq![q];
    assert(w[0] == q);
    assert(w.last() == q);
    assert(w.subrange(1, w.len() - 1) =~= v);
}

/// The message reported for a bad line.
pub open spec fn env_error_message(line_number: nat, bad: EnvLine) -> Seq<char> {
    match bad {
        EnvLine::BadKey(key) => "Invalid env key `"@ + key + "` on line "@ + decimal(line_number),
        _ => "Invalid env assignment on line "@ + decimal(line_number),
    }
}

/// The views of parsed assignments.
pub open spec fn pair_views(v: Seq<(String, String)>) -> Seq<(Seq<char>, Seq<char>)> {
    v.map_values(|p: (String, String)| (p.0@, p.1@))
}

#[derive(Debug)]
enum EnvLineExec {
    Skip,
    Entry(Vec<char>, Vec<char>),
    BadAssignment,
    BadKey(Vec<char>),
}

impl EnvLineExec {
    spec fn view(self) -> EnvLine {
        match self {
            EnvLineExec::Skip => EnvLine::Skip,
            EnvLineExec::Entry(k, v) => EnvLine::Entry(k@, v@),
            EnvLineExec::BadAssignment => EnvLine::BadAssignment,
            EnvLineExec::BadKey(k) => EnvLine::BadKey(k@),
        }
    }
}

fn valid_env_key_exec(key: &Vec<char>) -> (r: bool)
    ensures
        r == valid_env_key(key@),
{
    if key.len() == 0 {
        return false;
    }
    let mut i: usize = 0;
    while i < key.len()
        invariant
            i <= key.len(),
            forall|k: int| 0 <= k < i ==> (key@[k] == '_' || is_ascii_alphanumeric(key@[k])),
        decreases key.len() - i,
    {
        let c = key[i];
        if !(c == '_' || is_ascii_alphanumeric_exec(c)) {
            return false;
        }
        i = i + 1;
    }
    !is_ascii_digit_exec(key[0])
}

fn env_line_exec(raw: &Vec<char>) -> (r: EnvLineExec)
    ensures
        r.view() == env_line(raw@),
{
    let line = trim_chars(raw);
    if line.len() == 0 || line[0] == '#' {
        return EnvLineExec::Skip;
    }
    let mut prefix: Vec<char> = Vec::new();
    append_str(&mut prefix, "export ");
    proof {
        reveal_strlit("export ");
        assert(prefix@ =~= export_prefix());
    }
    let line2 = if starts_with_chars(&line, &prefix) {
        let rest = sub_chars(&line, 7, line.len());
        assert(rest@ =~= line@.skip(7));
        trim_chars(&rest)
    } else {
        line
    };
    match find_char(&line2, '=') {
        None => EnvLineExec::BadAssignment,
        Some(k) => {
            let before = sub_chars(&line2, 0, k);
            let after = sub_chars(&line2, k + 1, line2.len());
            assert(before@ =~= line2@.take(k as int));
            assert(after@ =~= line2@.skip(k + 1));
            let key = trim_chars(&before);
            let value = trim_chars(&after);
            if valid_env_key_exec(&key) {
                EnvLineExec::Entry(key, unquote_chars(value))
            } else {
                EnvLineExec::BadKey(key)
            }
        },
    }
}

fn env_error_message_exec(line_number: u64, bad: &EnvLineExec) -> (r: String)
    requires
        !(bad is Skip),
        !(bad is Entry),
    ensures
        r@ == env_error_message(line_number as nat, bad.view()),
{
    let mut m: Vec<char> = Vec::new();
    match bad {
        EnvLineExec::BadKey(key) => {
            append_str(&mut m, "Invalid env key `");
            append_chars(&mut m, key);
            append_str(&mut m, "` on line ");
        },
        _ => {
            append_str(&mut m, "Invalid env assignment on line ");
        },
    }
    let d = decimal_chars(line_number);
    append_chars(&mut m, &d);
    string_of(&m)
}

/// Parses the assignments of an env file, in order (see `env_line`). The first line that
/// holds no `=`, or whose key is not a valid variable name, fails the whole parse with an
/// `InvalidData` error that names the line.
pub fn parse_env_assignments(contents: &str) -> (r: Result<Vec<(String, String)>, IoError>)
    ensures
        match parse_env_lines(lines(contents@)) {
            Ok(es) => r is Ok && pair_views(r->Ok_0@) == es,
            Err((n, bad)) => r is Err && r->Err_0.kind == IoErrorKind::InvalidData
                && r->Err_0.message@ == env_error_message(n, bad),
        },
{
    let cs = chars_of(contents);
    let ls = lines_of(&cs);
    let ghost lv = char_views(ls@);
    let mut entries: Vec<(String, String)> = Vec::new();
    let mut i: usize = 0;
    assert(lv.take(0) =~= Seq::<Seq<char>>::empty());
    assert(pair_views(entries@) =~= Seq::<(Seq<char>, Seq<char>)>::empty());
    while i < ls.len()
        invariant
            i <= ls.len(),
            lv == char_views(ls@),
            lv == lines(contents@),
            lv.len() == ls.len(),
            parse_env_lines(lv.take(i as int)) == Ok::<_, (nat, EnvLine)>(pair_views(entries@)),
        decreases ls.len() - i,
    {
        let outcome = env_line_exec(&ls[i]);
        assert(lv.take(i + 1).drop_last() =~= lv.take(i as int));
        assert(lv.take(i + 1).last() == ls@[i as int]@);
        match outcome {
            EnvLineExec::Skip => {},
            EnvLineExec::Entry(k, v) => {
                let ks = string_of(&k);
                let vs = string_of(&v);
                entries.push((ks, vs));
                assert(pair_views(entries@) =~= parse_env_lines(lv.take(i as int))->Ok_0.push(
                    (k@, v@),
                ));
            },
            _ => {
                let message = env_error_message_exec((i + 1) as u64, &outcome);
                proof {
                    assert(parse_env_lines(lv.take(i + 1)) == Err::<Seq<(Seq<char>, Seq<char>)>, _>(((i + 1) as nat, outcome.view())));
                    lemma_parse_env_prefix_err(lv, (i + 1) as int);
                    assert(lv == lines(contents@));
                    assert(parse_env_lines(lines(contents@)) == Err::<Seq<(Seq<char>, Seq<char>)>, _>(((i + 1) as nat, outcome.view())));
                    assert(message@ == env_error_message((i + 1) as nat, outcome.view()));
                }
                return Err(IoError { kind: IoErrorKind::InvalidData, message });
            },
        }
        i = i + 1;
    }
    assert(lv.take(ls.len() as int) =~= lv);
    Ok(entries)
}

/// An error on a prefix of the lines is the error of all of them.
proof fn lemma_parse_env_prefix_err(ls: Seq<Seq<char>>, j: int)
    requires
        0 <= j <= ls.len(),
        parse_env_lines(ls.take(j)) is Err,
    ensures
        parse_env_lines(ls) == parse_env_lines(ls.take(j)),
    decreases ls.len() - j,
{
    if j < ls.len() {
        assert(ls.take(j + 1).drop_last() =~= ls.take(j));
        lemma_parse_env_prefix_err(ls, j + 1);
    } else {
        assert(ls.take(j) =~= ls);
    }
}

} // verus!
