use vstd::prelude::*;
use crate::instruction::{Instruction, InstModel, insts_view};
use crate::script::ScriptError;

verus! {

/// Characters that separate the tokens of a line.
pub open spec fn is_blank(c: char) -> bool {
    c == ' ' || c == '\t' || c == '\r' || c == '\x0B' || c == '\x0C'
}

/// Splitting on line feeds, read from left to right: the lines already closed
/// and the line still open.
pub open spec fn line_split(s: Seq<char>) -> (Seq<Seq<char>>, Seq<char>)
    decreases s.len(),
{
    if s.len() == 0 {
        (Seq::empty(), Seq::empty())
    } else {
        let (done, cur) = line_split(s.drop_last());
        if s.last() == '\n' {
            (done.push(cur), Seq::empty())
        } else {
            (done, cur.push(s.last()))
        }
    }
}

/// The lines of a text: the pieces between line feeds (a text without a line
/// feed is one line).
pub open spec fn lines(s: Seq<char>) -> Seq<Seq<char>> {
    line_split(s).0.push(line_split(s).1)
}

/// Splitting into words, read from left to right: the words already closed
/// and the word still open.
pub open spec fn word_split(s: Seq<char>) -> (Seq<Seq<char>>, Seq<char>)
    decreases s.len(),
{
    if s.len() == 0 {
        (Seq::empty(), Seq::empty())
    } else {
        let (done, cur) = word_split(s.drop_last());
        if is_blank(s.last()) {
            if cur.len() > 0 {
                (done.push(cur), Seq::empty())
            } else {
                (done, cur)
            }
        } else {
            (done, cur.push(s.last()))
        }
    }
}

/// The maximal runs of non-blank characters of a line, in order.
pub open spec fn words(s: Seq<char>) -> Seq<Seq<char>> {
    if word_split(s).1.len() > 0 {
        word_split(s).0.push(word_split(s).1)
    } else {
        word_split(s).0
    }
}

/// A token with each two-character escape `\n` (scanned from the left)
/// replaced by a line feed.
pub open spec fn unescape(s: Seq<char>) -> Seq<char>
    decreases s.len(),
{
    if s.len() == 0 {
        s
    } else if s.len() >= 2 && s[0] == '\\' && s[1] == 'n' {
        seq!['\n'] + unescape(s.skip(2))
    } else {
        seq![s[0]] + unescape(s.skip(1))
    }
}

/// The tokens of a line, escapes processed.
pub open spec fn tokens(line: Seq<char>) -> Seq<Seq<char>> {
    words(line).map_values(|w: Seq<char>| unescape(w))
}

pub open spec fn kw_say() -> Seq<char> {
    seq!['s', 'a', 'y']
}

pub open spec fn kw_scene() -> Seq<char> {
    seq!['s', 'c', 'e', 'n', 'e']
}

pub open spec fn kw_switch() -> Seq<char> {
    seq!['s', 'w', 'i', 't', 'c', 'h']
}

pub open spec fn kw_label() -> Seq<char> {
    seq!['l', 'a', 'b', 'e', 'l']
}

/// What one line's tokens mean: `Ok(None)` for a line that is empty or starts
/// with an unknown word, `Err(())` for a keyword without its required
/// argument. Tokens past a kind's arguments are ignored.
pub open spec fn line_inst(ts: Seq<Seq<char>>) -> Result<Option<InstModel>, ()> {
    if ts.len() == 0 {
        Ok(None)
    } else if ts[0] != kw_say() && ts[0] != kw_scene() && ts[0] != kw_switch() && ts[0]
        != kw_label() {
        Ok(None)
    } else if ts.len() < 2 {
        Err(())
    } else if ts[0] == kw_say() {
        Ok(
            Some(
                InstModel::Say {
                    saying: ts[1],
                    character: if ts.len() > 2 {
                        Some(ts[2])
                    } else {
                        None
                    },
                },
            ),
        )
    } else if ts[0] == kw_scene() {
        Ok(Some(InstModel::Scene { resource: ts[1] }))
    } else if ts[0] == kw_switch() {
        Ok(Some(InstModel::Switch { label: ts[1] }))
    } else {
        Ok(Some(InstModel::Label { label: ts[1] }))
    }
}

/// The instructions of a sequence of lines, in order, or the number
/// (counted from 1) of the first line that is malformed.
pub open spec fn parse_lines(ls: Seq<Seq<char>>) -> Result<Seq<InstModel>, int>
    decreases ls.len(),
{
    if ls.len() == 0 {
        Ok(Seq::empty())
    } else {
        match parse_lines(ls.drop_last()) {
            Err(n) => Err(n),
            Ok(prev) => match line_inst(tokens(ls.last())) {
                Err(_) => Err(ls.len() as int),
                Ok(None) => Ok(prev),
                Ok(Some(i)) => Ok(prev.push(i)),
            },
        }
    }
}

/// The program that a script's source text denotes.
pub open spec fn parse_spec(text: Seq<char>) -> Result<Seq<InstModel>, int> {
    parse_lines(lines(text))
}

/// Relies on `str::chars`: the characters of the string, in order.
#[verifier::external_body]
pub(crate) fn chars_of(s: &str) -> (r: Vec<char>)
    ensures
        r@ == s@,
{
    s.chars().collect()
}

/// Relies on `String::from(char)`: a string of that one character.
#[verifier::external_body]
fn char_string(c: char) -> (r: String)
    ensures
        r@ == seq![c],
{
    String::from(c)
}

/// The string whose characters are `cs`.
fn string_of(cs: &Vec<char>) -> (r: String)
    ensures
        r@ == cs@,
{
    let mut r = String::new();
    let mut i: usize = 0;
    while i < cs.len()
        invariant
            i <= cs.len(),
            r@ == cs@.take(i as int),
        decreases cs.len() - i,
    {
        let one = char_string(cs[i]);
        r.append(one.as_str());
        i = i + 1;
        assert(r@ =~= cs@.take(i as int));
    }
    assert(cs@.take(cs.len() as int) =~= cs@);
    r
}

spec fn views(v: Seq<Vec<char>>) -> Seq<Seq<char>> {
    v.map_values(|x: Vec<char>| x@)
}

/// Splits a text into its lines.
fn split_lines(cs: &Vec<char>) -> (r: Vec<Vec<char>>)
    ensures
        views(r@) == lines(cs@),
{
    let mut done: Vec<Vec<char>> = Vec::new();
    let mut cur: Vec<char> = Vec::new();
    let mut i: usize = 0;
    while i < cs.len()
        invariant
            i <= cs.len(),
            line_split(cs@.take(i as int)) == (views(done@), cur@),
        decreases cs.len() - i,
    {
        let c = cs[i];
        assert(cs@.take(i + 1).drop_last() =~= cs@.take(i as int));
        if c == '\n' {
            done.push(cur);
            cur = Vec::new();
        } else {
            cur.push(c);
        }
        i = i + 1;
        assert(views(done@) =~= line_split(cs@.take(i as int)).0);
        assert(cur@ =~= line_split(cs@.take(i as int)).1);
    }
    assert(cs@.take(cs.len() as int) =~= cs@);
    done.push(cur);
    assert(views(done@) =~= lines(cs@));
    done
}

/// Splits a line into its words.
fn split_words(line: &Vec<char>) -> (r: Vec<Vec<char>>)
    ensures
        views(r@) == words(line@),
{
    let mut done: Vec<Vec<char>> = Vec::new();
    let mut cur: Vec<char> = Vec::new();
    let mut i: usize = 0;
    while i < line.len()
        invariant
            i <= line.len(),
            word_split(line@.take(i as int)) == (views(done@), cur@),
        decreases line.len() - i,
    {
        let c = line[i];
        assert(line@.take(i + 1).drop_last() =~= line@.take(i as int));
        if c == ' ' || c == '\t' || c == '\r' || c == '\x0B' || c == '\x0C' {
            if cur.len() > 0 {
                done.push(cur);
                cur = Vec::new();
            }
        } else {
            cur.push(c);
        }
        i = i + 1;
        assert(views(done@) =~= word_split(line@.take(i as int)).0);
        assert(cur@ =~= word_split(line@.take(i as int)).1);
    }
    assert(line@.take(line.len() as int) =~= line@);
    if cur.len() > 0 {
        done.push(cur);
    }
    assert(views(done@) =~= words(line@));
    done
}

/// Replaces each escape `\n` of a token by a line feed.
fn unescape_token(t: &Vec<char>) -> (r: Vec<char>)
    ensures
        r@ == unescape(t@),
{
    let mut r: Vec<char> = Vec::new();
    let mut i: usize = 0;
    assert(t@.skip(0) =~= t@);
    while i < t.len()
        invariant
            i <= t.len(),
            r@ + unescape(t@.skip(i as int)) == unescape(t@),
        decreases t.len() - i,
    {
        let rest = Ghost(t@.skip(i as int));
        if i + 1 < t.len() && t[i] == '\\' && t[i + 1] == 'n' {
            r.push('\n');
            assert(rest@.skip(2) =~= t@.skip(i + 2));
            i = i + 2;
        } else {
            r.push(t[i]);
            assert(rest@.skip(1) =~= t@.skip(i + 1));
            i = i + 1;
        }
        assert(r@ + unescape(t@.skip(i as int)) =~= unescape(t@));
    }
    r
}

fn is_say(t: &Vec<char>) -> (r: bool)
    ensures
        r == (t@ == kw_say()),
{
    let r = t.len() == 3 && t[0] == 's' && t[1] == 'a' && t[2] == 'y';
    proof {
        if r {
            assert(t@ =~= kw_say());
        }
    }
    r
}

fn is_scene(t: &Vec<char>) -> (r: bool)
    ensures
        r == (t@ == kw_scene()),
{
    let r = t.len() == 5 && t[0] == 's' && t[1] == 'c' && t[2] == 'e' && t[3] == 'n' && t[4]
        == 'e';
    proof {
        if r {
            assert(t@ =~= kw_scene());
        }
    }
    r
}

fn is_switch(t: &Vec<char>) -> (r: bool)
    ensures
        r == (t@ == kw_switch()),
{
    let r = t.len() == 6 && t[0] == 's' && t[1] == 'w' && t[2] == 'i' && t[3] == 't' && t[4]
        == 'c' && t[5] == 'h';
    proof {
        if r {
            assert(t@ =~= kw_switch());
        }
    }
    r
}

fn is_label(t: &Vec<char>) -> (r: bool)
    ensures
        r == (t@ == kw_label()),
{
    let r = t.len() == 5 && t[0] == 'l' && t[1] == 'a' && t[2] == 'b' && t[3] == 'e' && t[4]
        == 'l';
    proof {
        if r {
            assert(t@ =~= kw_label());
        }
    }
    r
}

spec fn line_result_view(r: Result<Option<Instruction>, ()>) -> Result<Option<InstModel>, ()> {
    match r {
        Ok(Some(i)) => Ok(Some(i@)),
        Ok(None) => Ok(None),
        Err(e) => Err(e),
    }
}

/// The instruction that the tokens of one line stand for.
fn parse_line(ts: &Vec<Vec<char>>) -> (r: Result<Option<Instruction>, ()>)
    ensures
        line_result_view(r) == line_inst(views(ts@)),
{
    if ts.len() == 0 {
        return Ok(None);
    }
    let say = is_say(&ts[0]);
    let scene = is_scene(&ts[0]);
    let switch = is_switch(&ts[0]);
    let label = is_label(&ts[0]);
    if !say && !scene && !switch && !label {
        return Ok(None);
    }
    if ts.len() < 2 {
        return Err(());
    }
    let arg = string_of(&ts[1]);
    if say {
        let character = if ts.len() > 2 {
            Some(string_of(&ts[2]))
        } else {
            None
        };
        Ok(Some(Instruction::Say { saying: arg, character }))
    } else if scene {
        Ok(Some(Instruction::Scene { resource: arg }))
    } else if switch {
        Ok(Some(Instruction::Switch { label: arg }))
    } else {
        Ok(Some(Instruction::Label { label: arg }))
    }
}

/// The tokens of a line, escapes processed.
fn line_tokens(line: &Vec<char>) -> (r: Vec<Vec<char>>)
    ensures
        views(r@) == tokens(line@),
{
    let ws = split_words(line);
    let mut ts: Vec<Vec<char>> = Vec::new();
    let mut j: usize = 0;
    while j < ws.len()
        invariant
            j <= ws.len(),
            views(ws@) == words(line@),
            views(ts@) == words(line@).take(j as int).map_values(|w: Seq<char>| unescape(w)),
        decreases ws.len() - j,
    {
        let t = unescape_token(&ws[j]);
        assert(views(ws@)[j as int] == ws@[j as int]@);
        let ghost prev = views(ts@);
        ts.push(t);
        assert(views(ts@) =~= prev.push(t@));
        j = j + 1;
        assert(views(ts@) =~= words(line@).take(j as int).map_values(|w: Seq<char>| unescape(w)));
    }
    assert(views(ws@).len() == ws@.len());
    assert(words(line@).take(j as int) =~= words(line@));
    assert(views(ts@) =~= tokens(line@));
    ts
}

/// Parses a script's source text into its instructions, in source order.
/// Lines that are empty or start with an unknown word are skipped; a keyword
/// without its required argument fails the whole parse with the number of its
/// line.
pub fn parse_source(source: &str) -> (r: Result<Vec<Instruction>, ScriptError>)
    ensures
        match parse_spec(source@) {
            Ok(p) => r matches Ok(v) && insts_view(v@) == p,
            Err(n) => r == Err::<Vec<Instruction>, ScriptError>(
                ScriptError::MalformedInstruction { line: n as usize },
            ),
        },
{
    let cs = chars_of(source);
    let ls = split_lines(&cs);
    let mut insts: Vec<Instruction> = Vec::new();
    let mut i: usize = 0;
    assert(views(ls@).take(0) =~= Seq::<Seq<char>>::empty());
    assert(insts_view(insts@) =~= Seq::<InstModel>::empty());
    while i < ls.len()
        invariant
            i <= ls.len(),
            views(ls@) == lines(source@),
            parse_lines(views(ls@).take(i as int)) == Ok::<Seq<InstModel>, int>(
                insts_view(insts@),
            ),
        decreases ls.len() - i,
    {
        let ts = line_tokens(&ls[i]);
        let parsed = parse_line(&ts);
        let ghost before = views(ls@).take(i + 1);
        assert(before.drop_last() =~= views(ls@).take(i as int));
        assert(before.last() == ls@[i as int]@);
        assert(line_result_view(parsed) == line_inst(tokens(before.last())));
        match parsed {
            Err(_) => {
                proof {
                    assert(parse_lines(before) == Err::<Seq<InstModel>, int>(i + 1));
                    lemma_parse_lines_err_stays(views(ls@), i + 1);
                    assert(views(ls@).take(ls.len() as int) =~= views(ls@));
                }
                return Err(ScriptError::MalformedInstruction { line: i + 1 });
            },
            Ok(None) => {},
            Ok(Some(inst)) => {
                let ghost prev = insts_view(insts@);
                insts.push(inst);
                assert(insts_view(insts@) =~= prev.push(inst@));
            },
        }
        i = i + 1;
    }
    assert(views(ls@).take(ls.len() as int) =~= views(ls@));
    Ok(insts)
}

/// Once a prefix of the lines fails, every longer prefix fails the same way.
proof fn lemma_parse_lines_err_stays(ls: Seq<Seq<char>>, k: int)
    requires
        0 <= k <= ls.len(),
        parse_lines(ls.take(k)) is Err,
    ensures
        parse_lines(ls) == parse_lines(ls.take(k)),
    decreases ls.len() - k,
{
    if k < ls.len() {
        assert(ls.take(k + 1).drop_last() =~= ls.take(k));
        lemma_parse_lines_err_stays(ls, k + 1);
    } else {
        assert(ls.take(k) =~= ls);
    }
}

} // verus!
