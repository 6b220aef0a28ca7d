use vstd::prelude::*;

verus! {

/// The decimal digit character for `d < 10`.
pub open spec fn digit_char(d: nat) -> char {
    if d == 0 { '0' }
    else if d == 1 { '1' }
    else if d == 2 { '2' }
    else if d == 3 { '3' }
    else if d == 4 { '4' }
    else if d == 5 { '5' }
    else if d == 6 { '6' }
    else if d == 7 { '7' }
    else if d == 8 { '8' }
    else { '9' }
}

/// The shortest decimal rendering of `n`, most significant digit first.
pub open spec fn dec(n: nat) -> Seq<char>
    decreases n,
{
    if n < 10 {
        seq![digit_char(n)]
    } else {
        dec(n / 10).push(digit_char(n % 10))
    }
}

fn digit_str(d: u64) -> (r: &'static str)
    requires
        d < 10,
    ensures
        r@ == seq![digit_char(d as nat)],
{
    proof {
        reveal_strlit("0");
        reveal_strlit("1");
        reveal_strlit("2");
        reveal_strlit("3");
        reveal_strlit("4");
        reveal_strlit("5");
        reveal_strlit("6");
        reveal_strlit("7");
        reveal_strlit("8");
        reveal_strlit("9");
    }
    let r = if d == 0 { "0" }
        else if d == 1 { "1" }
        else if d == 2 { "2" }
        else if d == 3 { "3" }
        else if d == 4 { "4" }
        else if d == 5 { "5" }
        else if d == 6 { "6" }
        else if d == 7 { "7" }
        else if d == 8 { "8" }
        else { "9" };
    assert(r@ =~= seq![digit_char(d as nat)]);
    r
}

/// Renders `n` in decimal.
pub fn decimal(n: u64) -> (r: String)
    ensures
        r@ == dec(n as nat),
    decreases n,
{
    if n < 10 {
        let r = String::from_str(digit_str(n));
        r
    } else {
        let mut r = decimal(n / 10);
        r.append(digit_str(n % 10));
        assert(r@ =~= dec(n as nat));
        r
    }
}

/// The character views of a sequence of strings.
pub open spec fn views(v: Seq<String>) -> Seq<Seq<char>> {
    v.map_values(|t: String| t@)
}

pub proof fn lemma_views_push(v: Seq<String>, t: String)
    ensures
        views(v.push(t)) == views(v).push(t@),
{
    assert(views(v.push(t)) =~= views(v).push(t@));
}

/// Characters with the Unicode `White_Space` property.
pub open spec fn is_white(c: char) -> bool {
    ('\u{9}' <= c && c <= '\u{d}') || c == ' ' || c == '\u{85}' || c == '\u{a0}'
        || c == '\u{1680}' || ('\u{2000}' <= c && c <= '\u{200a}') || c == '\u{2028}'
        || c == '\u{2029}' || c == '\u{202f}' || c == '\u{205f}' || c == '\u{3000}'
}

pub open spec fn trim_start(s: Seq<char>) -> Seq<char>
    decreases s.len(),
{
    if s.len() > 0 && is_white(s[0]) {
        trim_start(s.drop_first())
    } else {
        s
    }
}

pub open spec fn trim_end(s: Seq<char>) -> Seq<char>
    decreases s.len(),
{
    if s.len() > 0 && is_white(s.last()) {
        trim_end(s.drop_last())
    } else {
        s
    }
}

/// `s` without its leading and trailing white space.
pub open spec fn trimmed(s: Seq<char>) -> Seq<char> {
    trim_end(trim_start(s))
}

/// The pieces of `s` between the `;` separators: one more piece than there are
/// separators, empty pieces included.
pub open spec fn pieces(s: Seq<char>) -> Seq<Seq<char>>
    decreases s.len(),
{
    if s.len() == 0 {
        seq![Seq::empty()]
    } else {
        let p = pieces(s.drop_last());
        if s.last() == ';' {
            p.push(Seq::empty())
        } else {
            p.update(p.len() - 1, p.last().push(s.last()))
        }
    }
}

/// The trimmed pieces that hold something, in order.
pub open spec fn statements_of(ps: Seq<Seq<char>>) -> Seq<Seq<char>>
    decreases ps.len(),
{
    if ps.len() == 0 {
        Seq::empty()
    } else {
        let r = statements_of(ps.drop_last());
        let t = trimmed(ps.last());
        if t.len() == 0 {
            r
        } else {
            r.push(t)
        }
    }
}

/// The statements of a script: its `;`-separated pieces, trimmed, without the
/// empty ones.
pub open spec fn script_statements(s: Seq<char>) -> Seq<Seq<char>> {
    statements_of(pieces(s))
}

/// Relies on str::trim: drops the leading and trailing characters that have the
/// Unicode `White_Space` property.
#[verifier::external_body]
fn trim<'a>(s: &'a str) -> (r: &'a str)
    ensures
        r@ == trimmed(s@),
{
    s.trim()
}

fn push_statement(out: &mut Vec<String>, piece: &str)
    ensures
        views(final(out)@) == if trimmed(piece@).len() == 0 {
            views(old(out)@)
        } else {
            views(old(out)@).push(trimmed(piece@))
        },
{
    let t = trim(piece);
    if !t.is_empty() {
        out.push(String::from_str(t));
        assert(views(out@) =~= views(old(out)@).push(trimmed(piece@)));
    }
}

/// Splits a script into its statements, in order.
pub fn split_script(script: &str) -> (r: Vec<String>)
    ensures
        views(r@) == script_statements(script@),
{
    let n = script.unicode_len();
    let mut out: Vec<String> = Vec::new();
    let mut start: usize = 0;
    let mut i: usize = 0;
    let ghost mut done: Seq<Seq<char>> = Seq::empty();
    proof {
        assert(script@.take(0) =~= Seq::<char>::empty());
        assert(script@.subrange(0, 0) =~= Seq::<char>::empty());
        assert(pieces(script@.take(0)) =~= done.push(script@.subrange(0, 0)));
    }
    while i < n
        invariant
            n == script@.len(),
            start <= i <= n,
            pieces(script@.take(i as int)) == done.push(script@.subrange(start as int, i as int)),
            views(out@) == statements_of(done),
        decreases n - i,
    {
        let c = script.get_char(i);
        let ghost pre = script@.take(i as int);
        assert(script@.take(i + 1).drop_last() =~= pre);
        assert(script@.take(i + 1).last() == c);
        if c == ';' {
            let piece = script.substring_char(start, i);
            push_statement(&mut out, piece);
            proof {
                assert(done.push(piece@).drop_last() =~= done);
                done = done.push(piece@);
                assert(script@.subrange(i + 1, i + 1) =~= Seq::<char>::empty());
            }
            start = i + 1;
        } else {
            proof {
                assert(script@.subrange(start as int, i + 1)
                    =~= script@.subrange(start as int, i as int).push(c));
                assert(done.push(script@.subrange(start as int, i + 1))
                    =~= done.push(script@.subrange(start as int, i as int)).update(
                        done.len() as int, script@.subrange(start as int, i as int).push(c)));
            }
        }
        i = i + 1;
    }
    let last = script.substring_char(start, n);
    push_statement(&mut out, last);
    proof {
        assert(script@.take(n as int) =~= script@);
        assert(done.push(last@).drop_last() =~= done);
    }
    out
}

} // verus!
